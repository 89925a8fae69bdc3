//! The server's router: what it decides about voice input, the status bar and
//! the code table. The router owns no devices and writes no files: where a
//! decision needs the disk, a microphone or the settings file, the router
//! hands back an action for the shell to carry out.
pub mod config;
pub mod status;
pub mod voice;
pub mod router;
pub mod code;
