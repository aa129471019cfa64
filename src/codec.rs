//! The text codec: turning a prompt into token ids and ids back into text, through a
//! loaded `tokenizers::Tokenizer`. What a tokenizer produces depends on the vocabulary
//! file it was loaded from, so nothing is claimed of the ids or the text themselves:
//! only which ids are handed over and how failures are reported.

use vstd::prelude::*;
use crate::error::GenerationError;

verus! {

#[verifier::external_type_specification]
#[verifier::external_body]
pub struct ExTokenizer(tokenizers::Tokenizer);

/// Relies on `tokenizers::Tokenizer::encode` (special tokens added) for the encoding and
/// on `Encoding::get_ids` for its ids; a failure is passed on as its message.
#[verifier::external_body]
fn tokenizer_encode(tok: &tokenizers::Tokenizer, text: &str) -> (r: Result<Vec<u32>, String>) {
    match tok.encode(text, true) {
        Ok(encoding) => Ok(encoding.get_ids().to_vec()),
        Err(e) => Err(e.to_string()),
    }
}

/// Relies on `tokenizers::Tokenizer::decode` (special tokens skipped); a failure is passed
/// on as its message.
#[verifier::external_body]
fn tokenizer_decode(tok: &tokenizers::Tokenizer, ids: &Vec<u32>) -> (r: Result<String, String>) {
    tok.decode(ids, true).map_err(|e| e.to_string())
}

/// The ids as the codec takes them: each cut to 32 bits.
pub fn codec_ids(ids: &Vec<i64>) -> (r: Vec<u32>)
    ensures
        r@ == ids@.map_values(|x: i64| x as u32),
{
    let mut out: Vec<u32> = Vec::with_capacity(ids.len());
    let mut i: usize = 0;
    while i < ids.len()
        invariant
            i <= ids@.len(),
            out@ =~= ids@.map_values(|x: i64| x as u32).subrange(0, i as int),
        decreases ids@.len() - i,
    {
        out.push(#[verifier::truncate] (ids[i] as u32));
        i = i + 1;
    }
    assert(out@ =~= ids@.map_values(|x: i64| x as u32));
    out
}

/// The codec's ids widened to token ids.
pub fn token_ids(ids: &Vec<u32>) -> (r: Vec<i64>)
    ensures
        r@ == ids@.map_values(|x: u32| x as i64),
{
    let mut out: Vec<i64> = Vec::with_capacity(ids.len());
    let mut i: usize = 0;
    while i < ids.len()
        invariant
            i <= ids@.len(),
            out@ =~= ids@.map_values(|x: u32| x as i64).subrange(0, i as int),
        decreases ids@.len() - i,
    {
        out.push(ids[i] as i64);
        i = i + 1;
    }
    assert(out@ =~= ids@.map_values(|x: u32| x as i64));
    out
}

/// Encodes a prompt into token ids; a codec failure ends the request.
pub fn encode_prompt(tok: &tokenizers::Tokenizer, prompt: &str) -> (r: Result<Vec<i64>, GenerationError>)
    ensures
        r matches Err(e) ==> e is CodecFailure,
{
    match tokenizer_encode(tok, prompt) {
        Ok(ids) => Ok(token_ids(&ids)),
        Err(msg) => Err(GenerationError::CodecFailure(msg)),
    }
}

/// Decodes token ids into text, each id cut to 32 bits as the codec takes them; a codec
/// failure ends the request.
pub fn decode_tokens(tok: &tokenizers::Tokenizer, ids: &Vec<i64>) -> (r: Result<String, GenerationError>)
    ensures
        r matches Err(e) ==> e is CodecFailure,
{
    let handed = codec_ids(ids);
    match tokenizer_decode(tok, &handed) {
        Ok(text) => Ok(text),
        Err(msg) => Err(GenerationError::CodecFailure(msg)),
    }
}

} // verus!
