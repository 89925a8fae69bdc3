//! A verified core for a Chinese input method's voice, scheme and shortcut
//! handling.
pub mod text;
pub mod path;
pub mod order;
pub mod cer;
pub mod scheme;
pub mod voice;
pub mod shortcut;
pub mod keys;
pub mod frame;
pub mod server;
pub mod fetch;
pub mod wubi;
pub mod cli;
pub mod backend;
pub mod settings;
pub mod capture;
