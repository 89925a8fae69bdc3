//! The floating status bar: what it shows, the clicks it sends back, and the
//! settings a click writes.
use vstd::prelude::*;
use crate::frame::ThemeMode;

verus! {

/// What the voice cell of the status bar shows.
///
/// Voice is the one input where pressing the key shows nothing at once: the
/// start writes nothing and the stop still waits for recognition. Without the
/// cell users take the silence for a missed key press.
#[derive(Debug, Clone, Copy, PartialEq, Eq, Structural)]
pub enum VoiceCue {
    /// Not recording and nothing waiting: the cell is hidden.
    Off,
    /// Recording: press the shortcut again to stop.
    Recording,
    /// Recorded, being recognized.
    Transcribing,
    /// Recognized; the text waits in the candidate window.
    Ready,
}

/// What the status bar shows.
#[derive(Debug, Clone)]
pub struct StatusView {
    /// The voice cell; hidden when `Off`.
    pub voice: VoiceCue,
    /// English mode (`false` is Chinese).
    pub english: bool,
    /// Dachen zhuyin is on.
    pub zhuyin: bool,
    /// The scheme's name shown after 中, when there is one to show.
    pub scheme: Option<String>,
    /// Full-width punctuation is on for the current mode.
    pub full_width: bool,
    pub theme: ThemeMode,
    /// The remembered top-left corner; `None` places the bar at the screen's
    /// lower right.
    pub anchor: Option<(i32, i32)>,
}

/// A click on the status bar.
#[derive(Debug, Clone, Copy, PartialEq, Eq, Structural)]
pub enum StatusEvent {
    /// The 中 / 英 cell.
    ToggleMode,
    /// The punctuation cell.
    TogglePunctuation,
    /// The bar was dragged to a new top-left corner.
    Moved(i32, i32),
}

/// What the shell does with the status bar.
#[derive(Debug, Clone)]
pub enum StatusAction {
    Show(StatusView),
    Hide,
}

/// A value written back to the settings file.
#[derive(Debug, Clone, Copy, PartialEq, Eq, Structural)]
pub enum SettingValue {
    Bool(bool),
    Int(i64),
}

/// One key to write back: section, key and value. Hot reload reads it back.
#[derive(Debug, Clone, Copy)]
pub struct SettingWrite {
    pub section: &'static str,
    pub key: &'static str,
    pub value: SettingValue,
}

} // verus!
