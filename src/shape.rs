//! Shape resolution for declared input slots whose dimensions may be dynamic.
//!
//! A declared dimension is a fixed size when it is non-negative and dynamic when it is
//! negative. Which concrete size a dynamic dimension takes is a naming convention, not a
//! contract of the execution engine: the first dynamic dimension is the batch (1); later
//! ones are the sequence length, or 0 (an empty cache) for slots named as cache state.
//! Unusual input signatures may therefore bind incorrectly.

use vstd::prelude::*;
use crate::text::{has_infix, str_contains};

verus! {

/// The slot carries recurrent / attention cache state, by naming convention.
pub open spec fn is_cache_name(name: Seq<char>) -> bool {
    has_infix(name, "past_key_values"@) || has_infix(name, "past"@)
}

/// Some dimension before position `i` is dynamic.
pub open spec fn dynamic_before(dims: Seq<i64>, i: int) -> bool {
    exists|j: int| 0 <= j < i && dims[j] < 0
}

/// The concrete size of dimension `i`.
pub open spec fn resolved_dim(dims: Seq<i64>, i: int, cache: bool, seq_len: nat) -> i64 {
    if dims[i] >= 0 {
        dims[i]
    } else if !dynamic_before(dims, i) {
        1
    } else if cache {
        0
    } else {
        seq_len as i64
    }
}

/// The resolved shape of a slot named `name` with declared dimensions `dims`.
pub open spec fn resolved_shape(name: Seq<char>, dims: Seq<i64>, seq_len: nat) -> Seq<i64> {
    Seq::new(dims.len(), |i: int| resolved_dim(dims, i, is_cache_name(name), seq_len))
}

/// The shape of a token-aligned tensor: bare sequence length for rank 1, else `[1, L]`.
pub open spec fn token_shape_of(rank: nat, seq_len: nat) -> Seq<i64> {
    if rank == 1 {
        seq![seq_len as i64]
    } else {
        seq![1i64, seq_len as i64]
    }
}

/// Whether a slot name marks cache state.
pub fn is_cache_slot(name: &str) -> (r: bool)
    ensures
        r == is_cache_name(name@),
{
    str_contains(name, "past_key_values") || str_contains(name, "past")
}

/// Replaces each dynamic dimension of `dims` by a concrete size, for a sequence of
/// `seq_len` tokens.
pub fn resolve_dynamic_shape(name: &str, dims: &Vec<i64>, seq_len: usize) -> (r: Vec<i64>)
    requires
        seq_len <= i64::MAX,
    ensures
        r@ == resolved_shape(name@, dims@, seq_len as nat),
{
    let cache = is_cache_slot(name);
    let mut resolved: Vec<i64> = Vec::with_capacity(dims.len());
    let mut used_batch = false;
    let mut i: usize = 0;
    while i < dims.len()
        invariant
            i <= dims@.len(),
            cache == is_cache_name(name@),
            used_batch == dynamic_before(dims@, i as int),
            resolved@ =~= resolved_shape(name@, dims@, seq_len as nat).subrange(0, i as int),
        decreases dims@.len() - i,
    {
        let dim = dims[i];
        let next: i64 = if dim >= 0 {
            dim
        } else if !used_batch {
            1
        } else if cache {
            0
        } else {
            seq_len as i64
        };
        resolved.push(next);
        if dim < 0 {
            used_batch = true;
        }
        proof {
            if dim < 0 {
                assert(dynamic_before(dims@, i + 1));
            } else if !used_batch {
                assert forall|j: int| 0 <= j < i + 1 implies dims@[j] >= 0 by {
                    if j < i {
                        assert(!dynamic_before(dims@, i as int));
                    }
                }
            } else {
                let j = choose|j: int| 0 <= j < i && dims@[j] < 0;
                assert(0 <= j < i + 1 && dims@[j] < 0);
            }
        }
        i = i + 1;
    }
    resolved
}

/// The shape of a token-aligned tensor for a slot of declared rank `rank`.
pub fn token_shape(rank: usize, seq_len: usize) -> (r: Vec<i64>)
    requires
        seq_len <= i64::MAX,
    ensures
        r@ == token_shape_of(rank as nat, seq_len as nat),
{
    if rank == 1 {
        vec![seq_len as i64]
    } else {
        vec![1i64, seq_len as i64]
    }
}

/// A slot without dynamic dimensions keeps its declared shape, whatever the sequence
/// length.
pub proof fn lemma_fixed_shape_unchanged(name: Seq<char>, dims: Seq<i64>, seq_len: nat)
    requires
        seq_len >= 1,
        forall|i: int| 0 <= i < dims.len() ==> dims[i] >= 0,
    ensures
        resolved_shape(name, dims, seq_len) == dims,
{
    assert(resolved_shape(name, dims, seq_len) =~= dims);
}

/// Outside cache slots, a dynamic dimension is the batch (1) when no dynamic dimension
/// comes before it, and the sequence length otherwise.
pub proof fn lemma_plain_dynamic_dim(name: Seq<char>, dims: Seq<i64>, seq_len: nat, i: int)
    requires
        !is_cache_name(name),
        0 <= i < dims.len(),
        dims[i] < 0,
        seq_len <= i64::MAX,
    ensures
        resolved_shape(name, dims, seq_len)[i] == (if dynamic_before(dims, i) {
            seq_len as int
        } else {
            1
        }),
{
}

/// A cache slot of two dynamic dimensions resolves to `[1, 0]`: batch 1, empty cache,
/// whatever the sequence length.
pub proof fn lemma_cache_pair_is_empty(name: Seq<char>, dims: Seq<i64>, seq_len: nat)
    requires
        is_cache_name(name),
        dims.len() == 2,
        dims[0] < 0,
        dims[1] < 0,
    ensures
        resolved_shape(name, dims, seq_len) == seq![1i64, 0i64],
{
    assert(dynamic_before(dims, 1));
    assert(!dynamic_before(dims, 0));
    assert(resolved_shape(name, dims, seq_len) =~= seq![1i64, 0i64]);
}

} // verus!
