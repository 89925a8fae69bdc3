//! Voice input on the engine side: the recording state machine, the hand-off
//! to a background transcriber, and the sequence numbers that keep stale
//! results from landing.
//!
//! Audio capture belongs to the platform layer (a microphone is an input
//! device on a par with the keyboard); recognition runs elsewhere. The engine
//! only takes the samples the platform feeds it, hands a whole recording to the
//! transcriber, and picks up the text that comes back.
//!
//! All audio is at [`VOICE_SAMPLE_RATE`]: capture and file readers resample to
//! it, and recognizers only accept it.
pub mod session;
pub mod engine;
pub mod worker;

pub use session::VoiceState;
pub use engine::{Engine, EngineModel, Transcribed, Transcriber};
pub use worker::{Job, VoiceWorker};
