//! Generation engine for autoregressive text models: binding a token sequence to a
//! model's declared inputs, choosing the next token, and the decode loop around them.

pub mod answer;
pub mod backend;
pub mod binder;
pub mod codec;
pub mod decode;
pub mod error;
pub mod input_ids;
pub mod memory;
pub mod sampler;
pub mod shape;
pub mod sources;
pub mod text;
