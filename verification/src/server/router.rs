//! The router's decisions about voice input, the status bar and the code
//! table.
use vstd::prelude::*;
use crate::frame::VoicePrompt;
use crate::keys::{event_matches, matches_combo, KeyEvent};
use crate::scheme::Scheme;
use crate::server::config::{RouterConfig, VoiceConfig};
use crate::server::status::{SettingValue, SettingWrite, StatusAction, StatusEvent, StatusView, VoiceCue};
use crate::server::voice::{Microphone, Voice};
use crate::voice::engine::{after_cancel, after_push, after_result, after_start, after_stop, handed_over, result_text, stop_job, Engine, Transcriber};
use crate::voice::VoiceState;

verus! {

/// What the shell should do about the recognizer after a `[voice]` change.
#[derive(Debug, Clone)]
pub enum VoicePlan {
    /// Nothing changed.
    Unchanged,
    /// Voice is off; the recognizer was detached.
    Detached,
    /// Find the installed model for `tier` (the user's data directory first,
    /// the bundled data second), build a recognizer for it and attach it; when
    /// no model is found, call [`Router::teardown_voice`].
    Locate { user_dir: Option<String>, bundled_root: String, tier: String },
}

/// What the shell should do about the engine's code table.
#[derive(Debug, Clone, PartialEq, Eq)]
pub enum CodeTablePlan {
    /// The scheme is not a shape code: no code table.
    Unload,
    /// A shape code is chosen but no table file was found: no code table, and
    /// say so loudly (the settings say Wubi while the engine types pinyin).
    Missing,
    /// Load this table file and hand it to the engine; if it cannot be read,
    /// no code table.
    Load(String),
}

/// The user's answer to a recognized text in the candidate window.
#[derive(Debug, Clone, Copy, PartialEq, Eq, Structural)]
pub enum VoiceChoice {
    /// Space or `1`: the text goes into the document.
    Accept,
    /// Esc: nothing goes in and nothing is learned.
    Discard,
}

/// The voice cell for an engine stage and whether recognized text waits.
pub open spec fn cue_for(state: VoiceState, waiting: bool) -> VoiceCue {
    match state {
        VoiceState::Recording => VoiceCue::Recording,
        VoiceState::Transcribing => VoiceCue::Transcribing,
        VoiceState::Idle => if waiting {
            VoiceCue::Ready
        } else {
            VoiceCue::Off
        },
    }
}

/// The scheme name the status bar shows after 中: none for full pinyin.
pub open spec fn status_scheme_label(scheme: Scheme) -> Option<Seq<char>> {
    match scheme {
        Scheme::Pinyin => None,
        Scheme::Shuangpin(crate::scheme::ShuangpinScheme::Xiaohe) => Some("小鹤双拼"@),
        Scheme::Shuangpin(crate::scheme::ShuangpinScheme::Ziranma) => Some("自然码"@),
        Scheme::Shuangpin(crate::scheme::ShuangpinScheme::Microsoft) => Some("微软双拼"@),
        Scheme::Shuangpin(crate::scheme::ShuangpinScheme::Sogou) => Some("搜狗双拼"@),
        Scheme::Zhuyin => Some("大千注音"@),
        Scheme::Wubi86 => Some("五笔（86）"@),
    }
}

/// The code-table step for a scheme and the table path found at start-up.
pub open spec fn code_table_plan(scheme: Scheme, table: Option<String>) -> CodeTablePlan {
    if scheme != Scheme::Wubi86 {
        CodeTablePlan::Unload
    } else {
        match table {
            None => CodeTablePlan::Missing,
            Some(path) => CodeTablePlan::Load(path),
        }
    }
}

/// The status bar as it is drawn for the reported input mode, the settings
/// and the voice cell: shown while a mode is reported and the bar is
/// enabled, hidden otherwise.
pub open spec fn status_drawn(r: StatusAction, mode: Option<bool>, config: RouterConfig, voice: VoiceCue) -> bool {
    match mode {
        Some(english) => if config.status_enabled {
            r matches StatusAction::Show(view) && view.voice == voice && view.english == english && view.zhuyin == (
            config.scheme == Scheme::Zhuyin) && view.full_width == (if english {
                config.english_full_width
            } else {
                config.full_width
            }) && view.theme == config.theme && view.anchor == config.status_pos && match status_scheme_label(
                config.scheme,
            ) {
                Some(label) => view.scheme matches Some(s) && s@ == label,
                None => view.scheme is None,
            }
        } else {
            r matches StatusAction::Hide
        },
        None => r matches StatusAction::Hide,
    }
}

/// Only a shape-code scheme gets a code table: pinyin, every shuangpin layout
/// and zhuyin unload it; Wubi loads the table found at start-up, and without
/// one reports it missing.
pub proof fn law_only_shape_codes_load_a_table(scheme: Scheme, table: Option<String>)
    ensures
        scheme != Scheme::Wubi86 ==> code_table_plan(scheme, table) == CodeTablePlan::Unload,
        scheme == Scheme::Wubi86 && table is None ==> code_table_plan(scheme, table) == CodeTablePlan::Missing,
        scheme == Scheme::Wubi86 && table is Some ==> code_table_plan(scheme, table) == CodeTablePlan::Load(
            table->0,
        ),
{
}

/// The server's router (the parts that decide about voice, the status bar and
/// the code table).
pub struct Router<W: Transcriber, M: Microphone> {
    pub engine: Engine<W>,
    pub voice: Voice<M>,
    pub config: RouterConfig,
    /// The input mode the text service last reported; `None` when another input
    /// method is active.
    pub status_mode: Option<bool>,
    /// The mode the user picked on the status bar, until the text service
    /// collects it.
    pub pending_mode: Option<bool>,
    /// The voice cell last drawn.
    pub status_voice: VoiceCue,
    /// The `[voice]` section last applied.
    pub applied_voice: VoiceConfig,
    /// Where models are looked for: the user's data directory and the bundled
    /// data root. Known once `configure_voice` ran.
    pub voice_roots: Option<(Option<String>, String)>,
    /// The code table path found at start-up (not looked up again on reload).
    pub code_table: Option<String>,
}

impl<W: Transcriber, M: Microphone> Router<W, M> {
    /// A router around an engine, with voice off and no status reported yet.
    pub fn new(engine: Engine<W>, config: RouterConfig) -> (r: Self)
        requires
            engine.wf(),
        ensures
            r.engine.wf(),
            r.engine@ == engine@,
            r.config == config,
            r.status_mode is None,
            r.pending_mode is None,
            r.status_voice == VoiceCue::Off,
            !r.applied_voice.enabled,
            r.voice_roots is None,
            r.code_table is None,
            !r.voice.has_recorder() && !r.voice.gave_up() && r.voice.waiting() is None,
    {
        Router {
            engine,
            voice: Voice::new(),
            config,
            status_mode: None,
            pending_mode: None,
            status_voice: VoiceCue::Off,
            applied_voice: VoiceConfig::off(),
            voice_roots: None,
            code_table: None,
        }
    }

    /// Start-up: remembers the code table path found and says what to load for
    /// the current scheme.
    pub fn configure_code_table(&mut self, table: Option<String>) -> (r: CodeTablePlan)
        ensures
            final(self).code_table == table,
            r == code_table_plan(old(self).config.scheme, table),
            final(self).engine == old(self).engine,
            final(self).config == old(self).config,
    {
        self.code_table = table;
        self.reload_code_table(self.config.scheme)
    }

    /// Hot reload: the same path, for a possibly different scheme.
    pub fn reload_code_table(&self, scheme: Scheme) -> (r: CodeTablePlan)
        ensures
            r == code_table_plan(scheme, self.code_table),
    {
        if !scheme.is_code() {
            return CodeTablePlan::Unload;
        }
        match &self.code_table {
            None => CodeTablePlan::Missing,
            Some(path) => CodeTablePlan::Load(path.clone()),
        }
    }

    /// Full-width punctuation for a mode (Chinese and English each have one).
    pub fn full_width_for(&self, english: bool) -> (r: bool)
        ensures
            r == if english { self.config.english_full_width } else { self.config.full_width },
    {
        if english {
            self.config.english_full_width
        } else {
            self.config.full_width
        }
    }

    /// The voice cell for the current stage.
    pub fn voice_cue(&self) -> (r: VoiceCue)
        ensures
            r == cue_for(self.engine@.state, self.voice.waiting() is Some),
    {
        match self.engine.voice_state() {
            VoiceState::Recording => VoiceCue::Recording,
            VoiceState::Transcribing => VoiceCue::Transcribing,
            VoiceState::Idle => if self.voice.has_pending() {
                VoiceCue::Ready
            } else {
                VoiceCue::Off
            },
        }
    }

    /// Redraws the status bar: shown while this input method is active and the
    /// bar is enabled, hidden otherwise.
    pub fn reconcile_status(&mut self) -> (r: StatusAction)
        ensures
            final(self).status_voice == cue_for(old(self).engine@.state, old(self).voice.waiting() is Some),
            final(self).engine == old(self).engine,
            final(self).config == old(self).config,
            final(self).status_mode == old(self).status_mode,
            final(self).pending_mode == old(self).pending_mode,
            status_drawn(r, old(self).status_mode, old(self).config, final(self).status_voice),
    {
        self.status_voice = self.voice_cue();
        match self.status_mode {
            Some(english) => {
                if self.config.status_enabled {
                    let scheme = match self.config.scheme {
                        Scheme::Pinyin => None,
                        other => Some(other.label().to_owned()),
                    };
                    StatusAction::Show(StatusView {
                        voice: self.status_voice,
                        english,
                        zhuyin: self.config.scheme == Scheme::Zhuyin,
                        scheme,
                        full_width: self.full_width_for(english),
                        theme: self.config.theme,
                        anchor: self.config.status_pos,
                    })
                } else {
                    StatusAction::Hide
                }
            },
            None => StatusAction::Hide,
        }
    }

    /// Redraws only when the voice cell changed; called on every tick, so an
    /// unchanged cell costs the interface thread nothing.
    pub fn reconcile_voice_status(&mut self) -> (r: Option<StatusAction>)
        ensures
            cue_for(old(self).engine@.state, old(self).voice.waiting() is Some) == old(self).status_voice
                ==> r is None && final(self).status_voice == old(self).status_voice,
            cue_for(old(self).engine@.state, old(self).voice.waiting() is Some) != old(self).status_voice
                ==> final(self).status_voice == cue_for(old(self).engine@.state, old(self).voice.waiting() is Some)
                && (r matches Some(a) && status_drawn(a, old(self).status_mode, old(self).config, final(self).status_voice)),
            final(self).engine == old(self).engine,
            final(self).status_mode == old(self).status_mode,
    {
        if self.voice_cue() == self.status_voice {
            return None;
        }
        Some(self.reconcile_status())
    }

    /// The text service reported the input mode.
    pub fn handle_mode_changed(&mut self, english: bool) -> (r: StatusAction)
        ensures
            final(self).status_mode == Some(english),
            final(self).pending_mode == old(self).pending_mode,
            final(self).config == old(self).config,
            final(self).status_voice == cue_for(old(self).engine@.state, old(self).voice.waiting() is Some),
            status_drawn(r, Some(english), old(self).config, final(self).status_voice),
    {
        self.status_mode = Some(english);
        self.reconcile_status()
    }

    /// Another input method became active: the bar goes away.
    pub fn handle_ime_switched(&mut self) -> (r: StatusAction)
        ensures
            final(self).status_mode is None,
            r matches StatusAction::Hide,
            final(self).config == old(self).config,
    {
        self.status_mode = None;
        self.reconcile_status()
    }

    /// The text service collects the mode picked on the bar; it is cleared.
    pub fn take_pending_mode(&mut self) -> (r: Option<bool>)
        ensures
            r == old(self).pending_mode,
            final(self).pending_mode is None,
            final(self).status_mode == old(self).status_mode,
            final(self).config == old(self).config,
    {
        let taken = self.pending_mode;
        self.pending_mode = None;
        taken
    }

    /// A click on the status bar. Toggling the mode flips the bar at once and
    /// leaves the new mode for the text service to collect (nothing happens
    /// while no mode was reported); toggling punctuation flips the current
    /// mode's setting (Chinese when no mode was reported); a drag remembers the
    /// position. The answer lists the settings to write back and the redraw.
    pub fn handle_status_event(&mut self, event: StatusEvent) -> (r: (Vec<SettingWrite>, Option<StatusAction>))
        ensures
            final(self).engine == old(self).engine,
            final(self).config.scheme == old(self).config.scheme,
            final(self).config.status_enabled == old(self).config.status_enabled,
            // A redraw shows the bar as the new mode and settings have it.
            match r.1 {
                Some(a) => status_drawn(a, final(self).status_mode, final(self).config, final(self).status_voice)
                    && final(self).status_voice == cue_for(old(self).engine@.state, old(self).voice.waiting() is Some),
                None => final(self).status_voice == old(self).status_voice,
            },
            match event {
                StatusEvent::ToggleMode => match old(self).status_mode {
                    None => r.0@.len() == 0 && r.1 is None && final(self).status_mode is None
                        && final(self).pending_mode == old(self).pending_mode
                        && final(self).config == old(self).config,
                    Some(english) => r.0@.len() == 0 && r.1 is Some && final(self).status_mode
                        == Some(!english) && final(self).pending_mode == Some(!english)
                        && final(self).config == old(self).config,
                },
                StatusEvent::TogglePunctuation => r.1 is Some && r.0@.len() == 1
                    && final(self).status_mode == old(self).status_mode
                    && final(self).pending_mode == old(self).pending_mode
                    && final(self).config.status_pos == old(self).config.status_pos && if old(self).status_mode
                    == Some(true) {
                    final(self).config.english_full_width == !old(self).config.english_full_width
                        && final(self).config.full_width == old(self).config.full_width
                        && r.0@[0].section@ == "general"@ && r.0@[0].key@ == "english_full_width_punctuation"@
                        && r.0@[0].value == SettingValue::Bool(!old(self).config.english_full_width)
                } else {
                    final(self).config.full_width == !old(self).config.full_width
                        && final(self).config.english_full_width == old(self).config.english_full_width
                        && r.0@[0].section@ == "general"@ && r.0@[0].key@ == "full_width_punctuation"@
                        && r.0@[0].value == SettingValue::Bool(!old(self).config.full_width)
                },
                StatusEvent::Moved(x, y) => r.1 is Some && r.0@.len() == 2
                    && final(self).config.status_pos == Some((x, y))
                    && final(self).config.full_width == old(self).config.full_width
                    && final(self).config.english_full_width == old(self).config.english_full_width
                    && final(self).status_mode == old(self).status_mode
                    && r.0@[0].section@ == "status_bar"@ && r.0@[0].key@ == "x"@
                    && r.0@[0].value == SettingValue::Int(x as i64)
                    && r.0@[1].section@ == "status_bar"@ && r.0@[1].key@ == "y"@
                    && r.0@[1].value == SettingValue::Int(y as i64),
            },
    {
        let mut writes: Vec<SettingWrite> = Vec::new();
        match event {
            StatusEvent::ToggleMode => {
                match self.status_mode {
                    None => {
                        return (writes, None);
                    },
                    Some(english) => {
                        self.pending_mode = Some(!english);
                        self.status_mode = Some(!english);
                    },
                }
            },
            StatusEvent::TogglePunctuation => {
                let english = match self.status_mode {
                    Some(mode) => mode,
                    None => false,
                };
                let full_width = !self.full_width_for(english);
                if english {
                    self.config.english_full_width = full_width;
                    writes.push(SettingWrite {
                        section: "general",
                        key: "english_full_width_punctuation",
                        value: SettingValue::Bool(full_width),
                    });
                } else {
                    self.config.full_width = full_width;
                    writes.push(SettingWrite {
                        section: "general",
                        key: "full_width_punctuation",
                        value: SettingValue::Bool(full_width),
                    });
                }
            },
            StatusEvent::Moved(x, y) => {
                self.config.status_pos = Some((x, y));
                writes.push(SettingWrite { section: "status_bar", key: "x", value: SettingValue::Int(x as i64) });
                writes.push(SettingWrite { section: "status_bar", key: "y", value: SettingValue::Int(y as i64) });
            },
        }
        let action = self.reconcile_status();
        (writes, Some(action))
    }

    /// The event is the voice shortcut (same character, same physical chord).
    pub fn matches_voice_combo(&self, event: &KeyEvent) -> (r: bool)
        ensures
            r == event_matches(*event, self.config.voice_combo),
    {
        matches_combo(event, self.config.voice_combo)
    }

    /// Start-up: remembers where models are looked for and applies `[voice]`.
    /// The model directory is another process's download target, so it is
    /// scanned again on every change rather than watched.
    pub fn configure_voice(&mut self, user_dir: Option<String>, bundled_root: String, config: &VoiceConfig) -> (r: VoicePlan)
        requires
            old(self).engine.wf(),
        ensures
            final(self).engine.wf(),
            final(self).voice_roots == Some((user_dir, bundled_root)),
            final(self).applied_voice.enabled == config.enabled,
            final(self).applied_voice.tier@ == config.tier@,
            !config.enabled ==> (r matches VoicePlan::Detached && !final(self).engine@.attached
                && final(self).engine@.state == VoiceState::Idle && final(self).voice.waiting() is None),
            config.enabled ==> (r matches VoicePlan::Locate { user_dir: u, bundled_root: b, tier: t }
                && u == user_dir && b == bundled_root && t@ == config.tier@
                && final(self).engine == old(self).engine),
    {
        self.voice_roots = Some((user_dir, bundled_root));
        self.applied_voice = config.clone();
        self.apply_voice()
    }

    /// Applies `[voice]` when it differs from what was applied last (the switch
    /// or the tier).
    pub fn apply_voice_config(&mut self, config: &VoiceConfig) -> (r: VoicePlan)
        requires
            old(self).engine.wf(),
        ensures
            final(self).engine.wf(),
            final(self).voice_roots == old(self).voice_roots,
            // The same section again: nothing is rescanned and nothing changes.
            old(self).applied_voice.enabled == config.enabled && old(self).applied_voice.tier@ == config.tier@
                ==> (r matches VoicePlan::Unchanged && *final(self) == *old(self)),
            !(old(self).applied_voice.enabled == config.enabled && old(self).applied_voice.tier@ == config.tier@)
                ==> final(self).applied_voice.enabled == config.enabled && final(self).applied_voice.tier@ == config.tier@
                // Voice turned off: the recognizer is detached, and what was
                // recorded, recognized or waiting is dropped.
                && (!config.enabled ==> (r matches VoicePlan::Detached && !final(self).engine@.attached
                    && final(self).engine@.state == VoiceState::Idle && final(self).voice.waiting() is None))
                // Voice on, or another tier: the engine and the voice side
                // stay as they are until the shell attaches a recognizer.
                && (config.enabled ==> final(self).engine == old(self).engine && final(self).voice == old(self).voice)
                && (config.enabled ==> match old(self).voice_roots {
                    None => r matches VoicePlan::Unchanged,
                    Some((u, b)) => (r matches VoicePlan::Locate { user_dir: ru, bundled_root: rb, tier: t }
                        && ru == u && rb == b && t@ == config.tier@),
                }),
    {
        if config.same_as(&self.applied_voice) {
            return VoicePlan::Unchanged;
        }
        self.applied_voice = config.clone();
        self.apply_voice()
    }

    fn apply_voice(&mut self) -> (r: VoicePlan)
        requires
            old(self).engine.wf(),
        ensures
            final(self).engine.wf(),
            final(self).voice_roots == old(self).voice_roots,
            final(self).applied_voice == old(self).applied_voice,
            !old(self).applied_voice.enabled ==> (r matches VoicePlan::Detached && !final(self).engine@.attached
                && final(self).engine@.state == VoiceState::Idle && final(self).voice.waiting() is None),
            old(self).applied_voice.enabled ==> final(self).engine == old(self).engine && final(self).voice == old(self).voice
                && match old(self).voice_roots {
                None => r matches VoicePlan::Unchanged,
                Some((u, b)) => (r matches VoicePlan::Locate { user_dir: ru, bundled_root: rb, tier: t }
                    && ru == u && rb == b && t@ == old(self).applied_voice.tier@),
            },
    {
        if !self.applied_voice.enabled {
            self.teardown_voice();
            return VoicePlan::Detached;
        }
        match &self.voice_roots {
            None => VoicePlan::Unchanged,
            Some((user_dir, bundled_root)) => VoicePlan::Locate {
                user_dir: user_dir.clone(),
                bundled_root: bundled_root.clone(),
                tier: self.applied_voice.tier.clone(),
            },
        }
    }

    /// Detaches the recognizer, voiding what was being recorded, recognized or
    /// waiting.
    pub fn teardown_voice(&mut self)
        requires
            old(self).engine.wf(),
        ensures
            final(self).engine.wf(),
            !final(self).engine@.attached,
            !final(self).engine@.alive,
            final(self).engine@.state == VoiceState::Idle,
            final(self).voice.waiting() is None,
            final(self).applied_voice == old(self).applied_voice,
            final(self).voice_roots == old(self).voice_roots,
    {
        if self.engine.voice_state() != VoiceState::Idle || self.voice.has_pending() {
            self.voice.cancel(&mut self.engine);
        }
        crate::server::voice::detach(&mut self.engine);
    }

    /// The voice shortcut: starts a recording when none is under way, stops
    /// it when one is, and swallows the key while recognizing. The answer is
    /// whether the key was taken; it is not (and passes on as an ordinary key)
    /// when voice is off, the microphone cannot be opened, or the engine
    /// refuses to start (no recognizer, private field, keys being composed).
    pub fn toggle_voice(&mut self) -> (r: bool)
        requires
            old(self).engine.wf(),
        ensures
            final(self).engine.wf(),
            !old(self).applied_voice.enabled ==> !r && final(self).engine == old(self).engine
                && final(self).voice.has_recorder() == old(self).voice.has_recorder()
                && final(self).voice.gave_up() == old(self).voice.gave_up(),
            old(self).voice.has_recorder() ==> final(self).voice.has_recorder(),
            // With voice on, the first use opens the microphone: afterwards it is
            // open, or opening it failed and is not tried again.
            old(self).applied_voice.enabled && !old(self).voice.has_recorder() && !old(self).voice.gave_up()
                ==> final(self).voice.has_recorder() != final(self).voice.gave_up(),
            old(self).voice.gave_up() ==> final(self).voice.gave_up()
                && final(self).voice.has_recorder() == old(self).voice.has_recorder(),
            old(self).applied_voice.enabled && !final(self).voice.has_recorder() ==> !r && final(self).engine == old(self).engine,
            old(self).applied_voice.enabled && final(self).voice.has_recorder() ==> match old(self).engine@.state {
                VoiceState::Idle => r == (after_start(old(self).engine@) != old(self).engine@)
                    && final(self).engine@ == after_start(old(self).engine@),
                VoiceState::Recording => r && final(self).engine@ == after_stop(old(self).engine@),
                VoiceState::Transcribing => r && final(self).engine@ == old(self).engine@,
            },
            final(self).voice.waiting() == old(self).voice.waiting(),
            final(self).applied_voice == old(self).applied_voice,
            // The microphone captures from the start of a recording to its end.
            old(self).engine@.state == VoiceState::Idle && r ==> final(self).voice.capturing(),
            old(self).engine@.state == VoiceState::Recording && r ==> !final(self).voice.capturing(),
            // Stopping hands the whole recording to the recognizer.
            old(self).engine@.state == VoiceState::Recording && r ==> handed_over(
                old(self).engine.worker(),
                final(self).engine.worker(),
                stop_job(old(self).engine@),
            ),
            !(old(self).engine@.state == VoiceState::Recording && r) ==> final(self).engine.worker() == old(
                self,
            ).engine.worker(),
            !r || old(self).engine@.state == VoiceState::Transcribing ==> final(self).voice.capturing()
                == old(self).voice.capturing(),
            final(self).config == old(self).config,
    {
        if !self.applied_voice.enabled {
            return false;
        }
        if !self.voice.ready() && !self.voice.ensure_recorder() {
            return false;
        }
        match self.engine.voice_state() {
            VoiceState::Idle => {
                if !self.engine.start_voice() {
                    return false;
                }
                self.voice.start();
                true
            },
            VoiceState::Recording => {
                self.voice.stop();
                self.engine.stop_voice();
                true
            },
            VoiceState::Transcribing => true,
        }
    }

    /// The voice shortcut as a key press: taken only when nothing is being
    /// composed, the event is the shortcut, and the toggle took it.
    pub fn voice_key(&mut self, event: &KeyEvent) -> (r: bool)
        requires
            old(self).engine.wf(),
        ensures
            final(self).engine.wf(),
            !(old(self).engine@.composition.len() == 0 && event_matches(*event, old(self).config.voice_combo))
                ==> !r && final(self).engine == old(self).engine && final(self).voice.has_recorder()
                == old(self).voice.has_recorder() && final(self).voice.capturing() == old(self).voice.capturing(),
            // The shortcut with nothing composed toggles voice (see `toggle_voice`).
            old(self).engine@.composition.len() == 0 && event_matches(*event, old(self).config.voice_combo) ==> {
                &&& !old(self).applied_voice.enabled ==> !r && final(self).engine == old(self).engine
                &&& old(self).applied_voice.enabled && !old(self).voice.has_recorder() && !old(self).voice.gave_up()
                    ==> final(self).voice.has_recorder() != final(self).voice.gave_up()
                &&& old(self).applied_voice.enabled && !final(self).voice.has_recorder() ==> !r && final(self).engine
                    == old(self).engine
                &&& old(self).applied_voice.enabled && final(self).voice.has_recorder() ==> match old(self).engine@.state {
                    VoiceState::Idle => r == (after_start(old(self).engine@) != old(self).engine@)
                        && final(self).engine@ == after_start(old(self).engine@) && (r ==> final(self).voice.capturing()),
                    VoiceState::Recording => r && final(self).engine@ == after_stop(old(self).engine@)
                        && !final(self).voice.capturing() && handed_over(
                        old(self).engine.worker(),
                        final(self).engine.worker(),
                        stop_job(old(self).engine@),
                    ),
                    VoiceState::Transcribing => r && final(self).engine@ == old(self).engine@,
                }
            },
            old(self).voice.has_recorder() ==> final(self).voice.has_recorder(),
            final(self).voice.waiting() == old(self).voice.waiting(),
            final(self).applied_voice == old(self).applied_voice,
            final(self).config == old(self).config,
    {
        if self.engine.composition_is_empty() && self.matches_voice_combo(event) {
            self.toggle_voice()
        } else {
            false
        }
    }

    /// One step of a tick while recording: hands a block of captured samples
    /// to the engine. The shell repeats it until `None`, then calls
    /// [`Router::advance_voice`]. Outside a recording nothing is taken.
    pub fn feed_voice(&mut self) -> (r: Option<usize>)
        where
            W: Transcriber<Sample = M::Sample>,
        requires
            old(self).engine.wf(),
        ensures
            final(self).engine.wf(),
            old(self).engine@.state != VoiceState::Recording ==> r is None && final(self).engine@ == old(self).engine@,
            r is None ==> final(self).engine@ == old(self).engine@ && final(self).voice.heard() == old(self).voice.heard(),
            !old(self).voice.has_recorder() ==> r is None,
            // The block the microphone delivered goes into the recording as it
            // is: the same samples, in the order captured.
            r matches Some(n) ==> final(self).voice.heard().len() == old(self).voice.heard().len() + 1
                && final(self).voice.heard().drop_last() == old(self).voice.heard()
                && final(self).voice.heard().last().len() == n
                && final(self).engine@ == after_push(old(self).engine@, final(self).voice.heard().last()),
            final(self).voice.waiting() == old(self).voice.waiting(),
            final(self).voice.capturing() == old(self).voice.capturing(),
            final(self).config == old(self).config,
    {
        if self.engine.voice_state() != VoiceState::Recording {
            return None;
        }
        self.voice.drain_step(&mut self.engine)
    }

    /// One tick: picks up recognized text, which then waits in the candidate
    /// window. The answer is whether text just arrived.
    pub fn advance_voice(&mut self) -> (r: bool)
        requires
            old(self).engine.wf(),
        ensures
            final(self).engine.wf(),
            r ==> final(self).voice.waiting() is Some,
            !r ==> final(self).voice.waiting() == old(self).voice.waiting(),
            // With no transcriber attached nothing arrives.
            !old(self).engine@.attached ==> !r && final(self).engine@ == old(self).engine@,
            // Either nothing arrived, or a result came back: the engine took it,
            // and its text, when it was current and had any, now waits.
            (!r && final(self).engine@ == old(self).engine@) || exists|sequence: u64, text: Option<String>|
                #![trigger result_text(old(self).engine@, sequence, text)]
                final(self).engine@ == after_result(old(self).engine@, sequence) && match result_text(
                    old(self).engine@,
                    sequence,
                    text,
                ) {
                    Some(t) => r && final(self).voice.waiting() == Some(t),
                    None => !r && final(self).voice.waiting() == old(self).voice.waiting(),
                },
            final(self).voice.capturing() == old(self).voice.capturing(),
            final(self).config == old(self).config,
    {
        self.voice.poll(&mut self.engine)
    }

    /// What the frame carries about voice.
    pub fn voice_prompt(&self) -> (r: Option<VoicePrompt>)
        ensures
            match self.voice.waiting() {
                Some(text) => r matches Some(VoicePrompt::Ready { text: shown }) && shown@ == text@,
                None => if self.engine@.state == VoiceState::Transcribing {
                    r matches Some(VoicePrompt::Transcribing)
                } else {
                    r is None
                },
            },
    {
        self.voice.prompt(self.engine.voice_state())
    }

    /// The user's answer to the recognized text: accepting hands the text out
    /// for the document, dropping leaves nothing behind.
    pub fn choose_voice(&mut self, choice: VoiceChoice) -> (r: Option<String>)
        ensures
            final(self).voice.waiting() is None,
            choice == VoiceChoice::Accept ==> r == old(self).voice.waiting(),
            choice == VoiceChoice::Discard ==> r is None,
            final(self).engine == old(self).engine,
    {
        match choice {
            VoiceChoice::Accept => self.voice.take_pending(),
            VoiceChoice::Discard => {
                self.voice.discard();
                None
            },
        }
    }

    /// Any key other than the two that answer the recognized text (accept:
    /// Space or `1`; drop: Esc, see [`Router::choose_voice`]) drops the text
    /// waiting in the candidate window: it never reaches the document that
    /// way. What the key itself commits comes back unchanged.
    pub fn other_key(&mut self, commit: Option<String>) -> (r: Option<String>)
        ensures
            r == commit,
            final(self).voice.waiting() is None,
            final(self).voice.has_recorder() == old(self).voice.has_recorder(),
            final(self).voice.capturing() == old(self).voice.capturing(),
            final(self).engine == old(self).engine,
            final(self).config == old(self).config,
    {
        self.voice.discard();
        commit
    }
}

} // verus!
