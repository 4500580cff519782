use vstd::prelude::*;

pub mod ass;
pub mod error;
pub mod gemini;
pub mod media;
pub mod models;
pub mod runtime;
pub mod settings;
pub mod registry;
pub mod roundtrip;
pub mod srt;
pub mod stream;
pub mod text;
pub mod translation;
pub mod whisper;

verus! {

} // verus!
