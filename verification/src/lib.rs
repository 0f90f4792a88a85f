//! A small audio synthesis engine: note names, mixing and a hand-written
//! 16-bit PCM WAV encoder, with their contracts proved by Verus.
pub mod decimal;
pub mod notes;
pub mod oscillator;
pub mod track;
pub mod wav;

pub use decimal::parse_i32;
pub use notes::{parse_note_name, NoteName};
pub use oscillator::Waveform;
pub use track::mixed_length;
pub use wav::wav_bytes;
