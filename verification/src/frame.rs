//! One frame the server sends the text service: the preedit line, the
//! candidate page, and what voice input is waiting for.
use vstd::prelude::*;

verus! {

/// How a preedit segment is drawn.
#[derive(Debug, Clone, Copy, PartialEq, Eq, Structural)]
pub enum PreeditKind {
    /// Already converted text.
    Converted,
    /// Keys not yet converted.
    Raw,
}

/// One segment of the preedit line.
#[derive(Debug, Clone)]
pub struct PreeditSegment {
    pub text: String,
    pub kind: PreeditKind,
}

/// Where a candidate comes from.
#[derive(Debug, Clone, Copy, PartialEq, Eq, Structural)]
pub enum CandidateKind {
    /// A word or sentence from pinyin.
    Word,
    /// An English word, or keys committed as they are.
    English,
    /// A shape-code (Wubi) entry.
    Code,
}

/// One candidate.
#[derive(Debug, Clone)]
pub struct Candidate {
    pub text: String,
    pub kind: CandidateKind,
}

/// A page of candidates, in order.
#[derive(Debug, Clone)]
pub struct CandidateList {
    pub items: Vec<Candidate>,
}

/// Candidate window orientation.
#[derive(Debug, Clone, Copy, PartialEq, Eq, Structural)]
pub enum LayoutMode {
    Vertical,
    Horizontal,
}

/// Window appearance.
#[derive(Debug, Clone, Copy, PartialEq, Eq, Structural)]
pub enum ThemeMode {
    /// Follow the system.
    System,
    Light,
    Dark,
}

/// What voice input is waiting for, so the text service knows whether to keep
/// polling and whether to take Space, `1` and Esc.
#[derive(Debug, Clone)]
pub enum VoicePrompt {
    /// Recorded, being recognized: keep polling, take no key.
    Transcribing,
    /// Recognized, waiting for the user: `text` is drawn as a candidate; Space or
    /// `1` accepts it, Esc drops it.
    Ready { text: String },
}

/// What the screen should show. An empty frame (no preedit, no candidates)
/// means nothing is being composed and the candidate window closes.
#[derive(Debug, Clone)]
pub struct Frame {
    /// The preedit line, in order.
    pub preedit: Vec<PreeditSegment>,
    /// The cursor in the preedit line, in characters.
    pub cursor: usize,
    /// The candidates of the current page.
    pub candidates: CandidateList,
    /// The highlighted candidate on the page.
    pub highlight: usize,
    /// The current page, from zero.
    pub page: usize,
    /// How many pages there are.
    pub page_count: usize,
    pub layout: LayoutMode,
    pub theme: ThemeMode,
    /// A whole-sentence completion drawn after the preedit, committed with Tab.
    pub sentence: Option<String>,
    /// A one-line notice under the preedit, until the next key.
    pub notice: Option<String>,
    /// Voice input's state.
    pub voice: Option<VoicePrompt>,
}

/// Nothing is being composed: no preedit and no candidates. The notice and
/// the voice state do not count (voice is not composing).
pub open spec fn frame_is_empty(f: Frame) -> bool {
    f.preedit@.len() == 0 && f.candidates.items@.len() == 0
}

/// The recognized text waiting for the user, if any.
pub open spec fn frame_voice_text(f: Frame) -> Option<Seq<char>> {
    match f.voice {
        Some(VoicePrompt::Ready { text }) => Some(text@),
        _ => None,
    }
}

impl Frame {
    /// The empty frame: nothing composed, default layout and theme.
    pub fn empty() -> (r: Frame)
        ensures
            frame_is_empty(r),
            r.voice is None,
            r.notice is None,
            r.sentence is None,
            r.cursor == 0 && r.highlight == 0 && r.page == 0 && r.page_count == 0,
            r.layout == LayoutMode::Vertical,
            r.theme == ThemeMode::System,
    {
        Frame {
            preedit: Vec::new(),
            cursor: 0,
            candidates: CandidateList { items: Vec::new() },
            highlight: 0,
            page: 0,
            page_count: 0,
            layout: LayoutMode::Vertical,
            theme: ThemeMode::System,
            sentence: None,
            notice: None,
            voice: None,
        }
    }

    /// Nothing is being composed; the text service closes the window.
    pub fn is_empty(&self) -> (r: bool)
        ensures
            r == frame_is_empty(*self),
    {
        self.preedit.len() == 0 && self.candidates.items.len() == 0
    }

    /// The recognized text waiting to be accepted.
    pub fn voice_ready(&self) -> (r: Option<&str>)
        ensures
            match frame_voice_text(*self) {
                Some(text) => r is Some && r.unwrap()@ == text,
                None => r is None,
            },
    {
        match &self.voice {
            Some(VoicePrompt::Ready { text }) => Some(text.as_str()),
            _ => None,
        }
    }

    /// Voice has a state (recognizing or waiting): the text service keeps polling.
    pub fn voice_pending(&self) -> (r: bool)
        ensures
            r == self.voice is Some,
    {
        self.voice.is_some()
    }
}

/// Neither the notice nor the voice state makes a frame count as composing.
pub proof fn law_voice_and_notice_do_not_compose(f: Frame, voice: Option<VoicePrompt>, notice: Option<String>)
    ensures
        frame_is_empty(Frame { voice, notice, ..f }) == frame_is_empty(f),
{
}

/// Text waiting to be accepted always means voice is pending.
pub proof fn law_ready_text_is_pending(f: Frame)
    ensures
        frame_voice_text(f) is Some ==> f.voice is Some,
{
}

} // verus!
