//! Extracting the answer from a model's raw text output.

use vstd::prelude::*;
use crate::text::{
    chars_of, has_infix, last_occurrence, rfind_chars, slice_chars, starts_with, starts_with_chars,
    string_from_chars, trim, trim_chars, trim_start, trim_start_chars,
};

verus! {

/// The answer in `answer`: trimmed; cut after the last `Assistant:` marker, when there is
/// one; and without a leading copy of the prompt.
pub open spec fn cleaned_answer(prompt: Seq<char>, answer: Seq<char>) -> Seq<char> {
    let marker = "Assistant:"@;
    let a = trim(answer);
    let b = if has_infix(a, marker) {
        trim_start(a.subrange(last_occurrence(a, marker) + marker.len(), a.len() as int))
    } else {
        a
    };
    if starts_with(b, prompt) {
        trim_start(b.subrange(prompt.len() as int, b.len() as int))
    } else {
        b
    }
}

/// Extracts the answer from raw output: trims it, keeps what follows the last
/// `Assistant:` marker, and drops a leading echo of the prompt.
pub fn clean_answer(original_prompt: &str, answer: &str) -> (r: String)
    ensures
        r@ == cleaned_answer(original_prompt@, answer@),
{
    let marker = chars_of("Assistant:");
    let prompt = chars_of(original_prompt);
    let raw = chars_of(answer);
    let mut out = trim_chars(&raw);
    match rfind_chars(&out, &marker) {
        Some(idx) => {
            let n = out.len();
            let rest = slice_chars(&out, idx + marker.len(), n);
            out = trim_start_chars(&rest);
        },
        None => {},
    }
    if starts_with_chars(&out, &prompt) {
        let rest = slice_chars(&out, prompt.len(), out.len());
        out = trim_start_chars(&rest);
    }
    string_from_chars(&out)
}

} // verus!
