//! Reading a comma-separated list of token ids, as given on a command line.

use vstd::prelude::*;
use crate::text::{chars_of, split_chars, split_pieces, string_from_chars, trim, trim_chars};

verus! {

pub open spec fn is_digit(c: char) -> bool {
    '0' <= c && c <= '9'
}

pub open spec fn all_digits(d: Seq<char>) -> bool {
    forall|i: int| 0 <= i < d.len() ==> is_digit(#[trigger] d[i])
}

/// `s` without a leading sign.
pub open spec fn unsigned_part(s: Seq<char>) -> Seq<char> {
    if s.len() > 0 && (s[0] == '-' || s[0] == '+') {
        s.drop_first()
    } else {
        s
    }
}

/// The value of a string of decimal digits.
pub open spec fn digits_value(d: Seq<char>) -> int
    decreases d.len(),
{
    if d.len() == 0 {
        0
    } else {
        digits_value(d.drop_last()) * 10 + (d.last() as int - '0' as int)
    }
}

/// What `i64`'s `from_str` gives: an optional sign, then one or more decimal digits whose
/// value fits in an `i64`.
pub open spec fn decimal_i64(s: Seq<char>) -> Option<i64> {
    let neg = s.len() > 0 && s[0] == '-';
    let digits = unsigned_part(s);
    let v = if neg { -digits_value(digits) } else { digits_value(digits) };
    if digits.len() == 0 || !all_digits(digits) {
        None
    } else if i64::MIN <= v <= i64::MAX {
        Some(v as i64)
    } else {
        None
    }
}

const VALUE_CAP: u128 = 9223372036854775809;

/// Parses a decimal `i64` as `i64`'s `from_str` does.
pub fn parse_decimal_i64(s: &Vec<char>) -> (r: Option<i64>)
    ensures
        r == decimal_i64(s@),
{
    let n = s.len();
    if n == 0 {
        return None;
    }
    let neg = s[0] == '-';
    let start: usize = if s[0] == '-' || s[0] == '+' { 1 } else { 0 };
    let ghost digits = s@.subrange(start as int, n as int);
    assert(digits =~= unsigned_part(s@));
    if start == n {
        return None;
    }
    let mut acc: u128 = 0;
    let mut i: usize = start;
    while i < n
        invariant
            start <= i <= n,
            n == s@.len(),
            digits == s@.subrange(start as int, n as int),
            digits == unsigned_part(s@),
            forall|k: int| 0 <= k < i - start ==> is_digit(#[trigger] digits[k]),
            acc as int == if digits_value(digits.subrange(0, i - start)) < VALUE_CAP {
                digits_value(digits.subrange(0, i - start))
            } else {
                VALUE_CAP as int
            },
        decreases n - i,
    {
        let c = s[i];
        if c < '0' || c > '9' {
            assert(!is_digit(digits[i - start]));
            assert(!all_digits(digits));
            return None;
        }
        let d: u128 = (c as u32 - '0' as u32) as u128;
        let ghost prev = digits.subrange(0, i - start);
        let ghost next = digits.subrange(0, i + 1 - start);
        assert(next.drop_last() =~= prev);
        assert(next.last() == c);
        let grown: u128 = acc * 10 + d;
        acc = if grown < VALUE_CAP { grown } else { VALUE_CAP };
        proof {
            assert(digits_value(next) == digits_value(prev) * 10 + d);
            if digits_value(prev) >= VALUE_CAP {
                assert(digits_value(prev) * 10 >= VALUE_CAP) by (nonlinear_arith)
                    requires digits_value(prev) >= VALUE_CAP;
            }
        }
        i = i + 1;
    }
    assert(digits.subrange(0, n - start) =~= digits);
    if neg {
        if acc > 9223372036854775808 {
            None
        } else if acc == 9223372036854775808 {
            Some(i64::MIN)
        } else {
            Some(-(acc as i64))
        }
    } else {
        if acc > 9223372036854775807 {
            None
        } else {
            Some(acc as i64)
        }
    }
}

/// Why a list of token ids was refused: the first piece that is no `i64`.
#[derive(Debug)]
pub enum InputIdsError {
    InvalidTokenId(String),
}

/// The ids of the pieces, trimmed; blank pieces are skipped, and the first piece that is no
/// `i64` is the error.
pub open spec fn pieces_ids(ps: Seq<Seq<char>>) -> Result<Seq<i64>, Seq<char>>
    decreases ps.len(),
{
    if ps.len() == 0 {
        Ok(Seq::<i64>::empty())
    } else {
        let t = trim(ps[0]);
        if t.len() == 0 {
            pieces_ids(ps.drop_first())
        } else {
            match decimal_i64(t) {
                None => Err(t),
                Some(v) => match pieces_ids(ps.drop_first()) {
                    Ok(vs) => Ok(seq![v] + vs),
                    Err(e) => Err(e),
                },
            }
        }
    }
}

/// `Ok(None)` for no list or a blank one, the ids otherwise, or the first bad piece.
pub open spec fn input_ids_of(value: Option<Seq<char>>) -> Result<Option<Seq<i64>>, Seq<char>> {
    match value {
        None => Ok(None),
        Some(raw) => if trim(raw).len() == 0 {
            Ok(None)
        } else {
            match pieces_ids(split_pieces(raw, ',')) {
                Ok(ids) => Ok(Some(ids)),
                Err(t) => Err(t),
            }
        },
    }
}

/// Reads a comma-separated list of token ids. No list, or a blank one, is `Ok(None)`;
/// pieces are trimmed and blank ones skipped; the first piece that is no `i64` is refused.
pub fn parse_input_ids(value: Option<String>) -> (r: Result<Option<Vec<i64>>, InputIdsError>)
    ensures
        match input_ids_of(match value { Some(v) => Some(v@), None => None }) {
            Ok(None) => r matches Ok(None),
            Ok(Some(ids)) => r matches Ok(Some(v)) && v@ == ids,
            Err(t) => r matches Err(InputIdsError::InvalidTokenId(s)) && s@ == t,
        },
{
    let raw = match value {
        None => return Ok(None),
        Some(raw) => raw,
    };
    let chars = chars_of(raw.as_str());
    let trimmed = trim_chars(&chars);
    if trimmed.len() == 0 {
        return Ok(None);
    }
    let pieces = split_chars(&chars, ',');
    let ghost ps = split_pieces(chars@, ',');
    let mut ids: Vec<i64> = Vec::new();
    let mut k: usize = 0;
    proof {
        assert(ps.skip(0) =~= ps);
        match pieces_ids(ps) {
            Ok(vs) => {
                assert(ids@ + vs =~= vs);
            },
            Err(e) => {},
        }
    }
    while k < pieces.len()
        invariant
            k <= pieces@.len(),
            pieces@.len() == ps.len(),
            ps == split_pieces(raw@, ','),
            value == Some(raw),
            trim(raw@).len() != 0,
            forall|i: int| 0 <= i < pieces@.len() ==> (#[trigger] pieces@[i])@ == ps[i],
            pieces_ids(ps) == match pieces_ids(ps.skip(k as int)) {
                Ok(vs) => Ok::<Seq<i64>, Seq<char>>(ids@ + vs),
                Err(e) => Err(e),
            },
        decreases pieces@.len() - k,
    {
        assert(ps.skip(k as int).drop_first() =~= ps.skip(k + 1));
        assert(ps.skip(k as int)[0] == ps[k as int]);
        let token = trim_chars(&pieces[k]);
        if token.len() > 0 {
            match parse_decimal_i64(&token) {
                None => {
                    assert(pieces_ids(ps.skip(k as int)) == Err::<Seq<i64>, Seq<char>>(token@));
                    return Err(InputIdsError::InvalidTokenId(string_from_chars(&token)));
                },
                Some(v) => {
                    proof {
                        match pieces_ids(ps.skip(k + 1)) {
                            Ok(vs) => {
                                assert(ids@.push(v) + vs =~= ids@ + (seq![v] + vs));
                            },
                            Err(e) => {},
                        }
                    }
                    ids.push(v);
                },
            }
        }
        k = k + 1;
    }
    assert(ps.skip(ps.len() as int) =~= Seq::<Seq<char>>::empty());
    assert(ids@ + Seq::<i64>::empty() =~= ids@);
    Ok(Some(ids))
}

} // verus!
