//! Binding a token history to a model's declared input slots, for one decode step.
//!
//! Each slot is classified by its name: the primary input receives the tokens, and
//! attention masks, position ids and token-type ids are derived from the sequence length.
//! Any other slot is taken for cache state and receives an empty placeholder of the
//! shape the resolver gives.

use vstd::prelude::*;
use crate::error::GenerationError;
use crate::shape::{resolve_dynamic_shape, resolved_shape, token_shape, token_shape_of};
use crate::text::{has_infix, str_contains, str_equal};

verus! {

/// The element type a slot declares.
#[derive(Clone, Copy, Debug, PartialEq, Eq, Structural)]
pub enum ElemKind {
    Float32,
    Uint8,
    Int8,
    Uint16,
    Int16,
    Int32,
    Int64,
    String,
    Bool,
    Float16,
    Float64,
    Uint32,
    Uint64,
    Bfloat16,
    Complex64,
    Complex128,
    Float8E4M3FN,
    Float8E4M3FNUZ,
    Float8E5M2,
    Float8E5M2FNUZ,
    Uint4,
    Int4,
    Undefined,
}

/// The element types an integer tensor can be built with.
pub open spec fn is_int_kind(k: ElemKind) -> bool {
    match k {
        ElemKind::Int64 | ElemKind::Int32 | ElemKind::Int8 | ElemKind::Uint8 | ElemKind::Uint16
        | ElemKind::Uint32 | ElemKind::Uint64 => true,
        _ => false,
    }
}

/// One input the execution engine declares.
pub struct TensorSlot {
    pub name: String,
    pub elem: ElemKind,
    /// Declared dimensions; a negative one is dynamic.
    pub dims: Vec<i64>,
}

/// What a slot receives, decided by its name.
#[derive(Clone, Copy, Debug, PartialEq, Eq, Structural)]
pub enum SlotRole {
    Tokens,
    AttentionMask,
    PositionIds,
    TokenTypeIds,
    State,
}

pub open spec fn role_of(name: Seq<char>, primary: Seq<char>) -> SlotRole {
    if name == primary {
        SlotRole::Tokens
    } else if has_infix(name, "attention_mask"@) {
        SlotRole::AttentionMask
    } else if has_infix(name, "position_ids"@) {
        SlotRole::PositionIds
    } else if has_infix(name, "token_type_ids"@) {
        SlotRole::TokenTypeIds
    } else {
        SlotRole::State
    }
}

/// The values a token-aligned slot of the given role holds.
pub open spec fn role_values(role: SlotRole, ids: Seq<i64>) -> Seq<i64> {
    match role {
        SlotRole::Tokens => ids,
        SlotRole::AttentionMask => Seq::new(ids.len(), |i: int| 1i64),
        SlotRole::PositionIds => Seq::new(ids.len(), |i: int| i as i64),
        _ => Seq::new(ids.len(), |i: int| 0i64),
    }
}

/// The tensor one slot is bound to: `values` is `None` for an empty placeholder.
pub struct InputPlan {
    pub name: String,
    pub elem: ElemKind,
    pub shape: Vec<i64>,
    pub values: Option<Vec<i64>>,
}

/// `plan` is what `slot` receives for the token history `ids`.
pub open spec fn plans_slot(plan: InputPlan, slot: TensorSlot, ids: Seq<i64>, primary: Seq<char>) -> bool {
    let role = role_of(slot.name@, primary);
    &&& plan.name@ == slot.name@
    &&& plan.elem == slot.elem
    &&& if role == SlotRole::State {
        &&& plan.values is None
        &&& plan.shape@ == resolved_shape(slot.name@, slot.dims@, ids.len())
    } else {
        &&& plan.values matches Some(v) && v@ == role_values(role, ids)
        &&& plan.shape@ == token_shape_of(slot.dims@.len(), ids.len())
    }
}

/// Integer data narrowed to a slot's element type.
#[derive(Debug)]
pub enum IntBuffer {
    I64(Vec<i64>),
    I32(Vec<i32>),
    I8(Vec<i8>),
    U8(Vec<u8>),
    U16(Vec<u16>),
    U32(Vec<u32>),
    U64(Vec<u64>),
}

/// `buf` holds `data` narrowed to `elem`, each value cut to the element's width.
pub open spec fn narrows_to(buf: IntBuffer, elem: ElemKind, data: Seq<i64>) -> bool {
    match buf {
        IntBuffer::I64(v) => elem == ElemKind::Int64 && v@ == data,
        IntBuffer::I32(v) => elem == ElemKind::Int32 && v@ == data.map_values(|x: i64| x as i32),
        IntBuffer::I8(v) => elem == ElemKind::Int8 && v@ == data.map_values(|x: i64| x as i8),
        IntBuffer::U8(v) => elem == ElemKind::Uint8 && v@ == data.map_values(|x: i64| x as u8),
        IntBuffer::U16(v) => elem == ElemKind::Uint16 && v@ == data.map_values(|x: i64| x as u16),
        IntBuffer::U32(v) => elem == ElemKind::Uint32 && v@ == data.map_values(|x: i64| x as u32),
        IntBuffer::U64(v) => elem == ElemKind::Uint64 && v@ == data.map_values(|x: i64| x as u64),
    }
}

/// A copy of `v`.
pub fn copy_ids(v: &Vec<i64>) -> (r: Vec<i64>)
    ensures
        r@ == v@,
{
    let r = v.clone();
    assert(r@ =~= v@);
    r
}

/// Classifies a slot by its name.
pub fn slot_role(name: &str, primary: &str) -> (r: SlotRole)
    ensures
        r == role_of(name@, primary@),
{
    if str_equal(name, primary) {
        SlotRole::Tokens
    } else if str_contains(name, "attention_mask") {
        SlotRole::AttentionMask
    } else if str_contains(name, "position_ids") {
        SlotRole::PositionIds
    } else if str_contains(name, "token_type_ids") {
        SlotRole::TokenTypeIds
    } else {
        SlotRole::State
    }
}

/// The values of a token-aligned slot.
fn role_data(role: SlotRole, ids: &Vec<i64>) -> (r: Vec<i64>)
    requires
        role != SlotRole::State,
        ids@.len() <= i64::MAX,
    ensures
        r@ == role_values(role, ids@),
{
    if role == SlotRole::Tokens {
        return copy_ids(ids);
    }
    let mut out: Vec<i64> = Vec::with_capacity(ids.len());
    let mut i: usize = 0;
    while i < ids.len()
        invariant
            i <= ids@.len(),
            ids@.len() <= i64::MAX,
            role != SlotRole::State && role != SlotRole::Tokens,
            out@ =~= role_values(role, ids@).subrange(0, i as int),
        decreases ids@.len() - i,
    {
        let v: i64 = match role {
            SlotRole::AttentionMask => 1,
            SlotRole::PositionIds => i as i64,
            _ => 0,
        };
        out.push(v);
        i = i + 1;
    }
    assert(out@ =~= role_values(role, ids@));
    out
}

/// The tensor one slot receives for the token history `ids`.
pub fn plan_slot(slot: &TensorSlot, ids: &Vec<i64>, primary: &str) -> (r: InputPlan)
    requires
        ids@.len() <= i64::MAX,
    ensures
        plans_slot(r, *slot, ids@, primary@),
{
    let role = slot_role(slot.name.as_str(), primary);
    let name = slot.name.clone();
    if role == SlotRole::State {
        let shape = resolve_dynamic_shape(slot.name.as_str(), &slot.dims, ids.len());
        InputPlan { name, elem: slot.elem, shape, values: None }
    } else {
        let shape = token_shape(slot.dims.len(), ids.len());
        let values = role_data(role, ids);
        InputPlan { name, elem: slot.elem, shape, values: Some(values) }
    }
}

/// The tensors every declared slot receives for one decode step, in the declared order.
/// The token history is only read.
pub fn plan_inputs(slots: &Vec<TensorSlot>, ids: &Vec<i64>, primary: &str) -> (r: Vec<InputPlan>)
    requires
        ids@.len() <= i64::MAX,
    ensures
        r@.len() == slots@.len(),
        forall|i: int| 0 <= i < slots@.len() ==> plans_slot(#[trigger] r@[i], slots@[i], ids@, primary@),
{
    let mut out: Vec<InputPlan> = Vec::with_capacity(slots.len());
    let mut i: usize = 0;
    while i < slots.len()
        invariant
            i <= slots@.len(),
            ids@.len() <= i64::MAX,
            out@.len() == i,
            forall|j: int| 0 <= j < i ==> plans_slot(#[trigger] out@[j], slots@[j], ids@, primary@),
        decreases slots@.len() - i,
    {
        let p = plan_slot(&slots[i], ids, primary);
        out.push(p);
        i = i + 1;
    }
    out
}

/// Narrows 64-bit values to the integer element type `elem`, cutting each value to the
/// element's width; fails when `elem` is not an integer kind.
pub fn build_int_tensor(elem: ElemKind, data: &Vec<i64>) -> (r: Result<IntBuffer, GenerationError>)
    ensures
        is_int_kind(elem) <==> r is Ok,
        r matches Ok(b) ==> narrows_to(b, elem, data@),
        r matches Err(e) ==> e == GenerationError::UnsupportedTensorType(elem),
{
    match elem {
        ElemKind::Int64 => Ok(IntBuffer::I64(copy_ids(data))),
        ElemKind::Int32 => {
            let mut v: Vec<i32> = Vec::with_capacity(data.len());
            let mut i: usize = 0;
            while i < data.len()
                invariant
                    i <= data@.len(),
                    v@ =~= data@.map_values(|x: i64| x as i32).subrange(0, i as int),
                decreases data@.len() - i,
            {
                v.push(#[verifier::truncate] (data[i] as i32));
                i = i + 1;
            }
            assert(v@ =~= data@.map_values(|x: i64| x as i32));
            Ok(IntBuffer::I32(v))
        },
        ElemKind::Int8 => {
            let mut v: Vec<i8> = Vec::with_capacity(data.len());
            let mut i: usize = 0;
            while i < data.len()
                invariant
                    i <= data@.len(),
                    v@ =~= data@.map_values(|x: i64| x as i8).subrange(0, i as int),
                decreases data@.len() - i,
            {
                v.push(#[verifier::truncate] (data[i] as i8));
                i = i + 1;
            }
            assert(v@ =~= data@.map_values(|x: i64| x as i8));
            Ok(IntBuffer::I8(v))
        },
        ElemKind::Uint8 => {
            let mut v: Vec<u8> = Vec::with_capacity(data.len());
            let mut i: usize = 0;
            while i < data.len()
                invariant
                    i <= data@.len(),
                    v@ =~= data@.map_values(|x: i64| x as u8).subrange(0, i as int),
                decreases data@.len() - i,
            {
                v.push(#[verifier::truncate] (data[i] as u8));
                i = i + 1;
            }
            assert(v@ =~= data@.map_values(|x: i64| x as u8));
            Ok(IntBuffer::U8(v))
        },
        ElemKind::Uint16 => {
            let mut v: Vec<u16> = Vec::with_capacity(data.len());
            let mut i: usize = 0;
            while i < data.len()
                invariant
                    i <= data@.len(),
                    v@ =~= data@.map_values(|x: i64| x as u16).subrange(0, i as int),
                decreases data@.len() - i,
            {
                v.push(#[verifier::truncate] (data[i] as u16));
                i = i + 1;
            }
            assert(v@ =~= data@.map_values(|x: i64| x as u16));
            Ok(IntBuffer::U16(v))
        },
        ElemKind::Uint32 => {
            let mut v: Vec<u32> = Vec::with_capacity(data.len());
            let mut i: usize = 0;
            while i < data.len()
                invariant
                    i <= data@.len(),
                    v@ =~= data@.map_values(|x: i64| x as u32).subrange(0, i as int),
                decreases data@.len() - i,
            {
                v.push(#[verifier::truncate] (data[i] as u32));
                i = i + 1;
            }
            assert(v@ =~= data@.map_values(|x: i64| x as u32));
            Ok(IntBuffer::U32(v))
        },
        ElemKind::Uint64 => {
            let mut v: Vec<u64> = Vec::with_capacity(data.len());
            let mut i: usize = 0;
            while i < data.len()
                invariant
                    i <= data@.len(),
                    v@ =~= data@.map_values(|x: i64| x as u64).subrange(0, i as int),
                decreases data@.len() - i,
            {
                v.push(#[verifier::truncate] (data[i] as u64));
                i = i + 1;
            }
            assert(v@ =~= data@.map_values(|x: i64| x as u64));
            Ok(IntBuffer::U64(v))
        },
        _ => Err(GenerationError::UnsupportedTensorType(elem)),
    }
}

/// What one slot is bound to: integer data narrowed to its type, or an empty placeholder.
#[derive(Debug)]
pub enum BoundData {
    Ints(IntBuffer),
    Empty(ElemKind),
}

/// The tensor for one slot, ready to hand to the execution engine.
#[derive(Debug)]
pub struct BoundInput {
    pub name: String,
    pub shape: Vec<i64>,
    pub data: BoundData,
}

/// The slot receives integer data, so its type must be an integer kind.
pub open spec fn takes_ints(slot: TensorSlot, primary: Seq<char>) -> bool {
    role_of(slot.name@, primary) != SlotRole::State
}

/// The slot receives integer data but declares another element type.
pub open spec fn refuses(slot: TensorSlot, primary: Seq<char>) -> bool {
    takes_ints(slot, primary) && !is_int_kind(slot.elem)
}

/// `b` is what `slot` is bound to for the token history `ids`.
pub open spec fn binds_slot(b: BoundInput, slot: TensorSlot, ids: Seq<i64>, primary: Seq<char>) -> bool {
    let role = role_of(slot.name@, primary);
    &&& b.name@ == slot.name@
    &&& match b.data {
        BoundData::Empty(k) => {
            &&& role == SlotRole::State
            &&& k == slot.elem
            &&& b.shape@ == resolved_shape(slot.name@, slot.dims@, ids.len())
        },
        BoundData::Ints(buf) => {
            &&& role != SlotRole::State
            &&& narrows_to(buf, slot.elem, role_values(role, ids))
            &&& b.shape@ == token_shape_of(slot.dims@.len(), ids.len())
        },
    }
}

/// Binds every declared slot for one decode step, in the declared order. Fails at the
/// first slot that must hold integers but declares another element type.
pub fn build_inputs(slots: &Vec<TensorSlot>, ids: &Vec<i64>, primary: &str) -> (r: Result<Vec<BoundInput>, GenerationError>)
    requires
        ids@.len() <= i64::MAX,
    ensures
        r is Ok <==> forall|i: int| 0 <= i < slots@.len() ==> !refuses(#[trigger] slots@[i], primary@),
        r matches Ok(v) ==> v@.len() == slots@.len() && forall|i: int| 0 <= i < slots@.len() ==> binds_slot(#[trigger] v@[i], slots@[i], ids@, primary@),
        r matches Err(e) ==> exists|i: int| 0 <= i < slots@.len() && refuses(#[trigger] slots@[i], primary@)
            && e == GenerationError::UnsupportedTensorType(slots@[i].elem)
            && forall|j: int| 0 <= j < i ==> !refuses(#[trigger] slots@[j], primary@),
{
    let mut out: Vec<BoundInput> = Vec::with_capacity(slots.len());
    let mut i: usize = 0;
    while i < slots.len()
        invariant
            i <= slots@.len(),
            ids@.len() <= i64::MAX,
            out@.len() == i,
            forall|j: int| 0 <= j < i ==> binds_slot(#[trigger] out@[j], slots@[j], ids@, primary@),
            forall|j: int| 0 <= j < i ==> !refuses(#[trigger] slots@[j], primary@),
        decreases slots@.len() - i,
    {
        let plan = plan_slot(&slots[i], ids, primary);
        let InputPlan { name, elem, shape, values } = plan;
        match values {
            None => {
                out.push(BoundInput { name, shape, data: BoundData::Empty(elem) });
            },
            Some(vals) => match build_int_tensor(elem, &vals) {
                Ok(buf) => {
                    out.push(BoundInput { name, shape, data: BoundData::Ints(buf) });
                },
                Err(e) => {
                    assert(refuses(slots@[i as int], primary@));
                    return Err(e);
                },
            },
        }
        i = i + 1;
    }
    Ok(out)
}

} // verus!
