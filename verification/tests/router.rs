use std::cell::RefCell;
use std::collections::VecDeque;

use qingjian::frame::{Frame, ThemeMode, VoicePrompt};
use qingjian::keys::key_event;
use qingjian::scheme::{Scheme, ShuangpinScheme};
use qingjian::server::config::{RouterConfig, VoiceConfig};
use qingjian::server::router::{CodeTablePlan, Router, VoiceChoice, VoicePlan};
use qingjian::server::status::{SettingValue, StatusAction, StatusEvent, VoiceCue};
use qingjian::server::voice::{attach, detach, Microphone, Voice};
use qingjian::shortcut::KeyCombo;
use qingjian::voice::{Engine, Transcribed, Transcriber, VoiceState};

struct Echo {
    results: RefCell<VecDeque<Transcribed>>,
}

impl Transcriber for Echo {
    type Sample = f32;
    fn is_alive(&self) -> bool {
        true
    }
    fn submit(&mut self, sequence: u64, samples: Vec<f32>) {
        self.results.borrow_mut().push_back(Transcribed { sequence, text: Some(format!("{}", samples.len())) });
    }
    fn poll(&self) -> Option<Transcribed> {
        self.results.borrow_mut().pop_front()
    }
}

fn echo() -> Echo {
    Echo { results: RefCell::new(VecDeque::new()) }
}

/// A microphone that captures one second of silence in two blocks once
/// started.
struct Mic {
    blocks: Vec<Vec<f32>>,
}

impl Microphone for Mic {
    type Sample = f32;
    fn spawn() -> Option<Self> {
        Some(Mic { blocks: Vec::new() })
    }
    fn start(&mut self) {
        self.blocks = vec![vec![0.0; 6000], vec![0.0; 10000]];
    }
    fn stop(&mut self) {}
    fn poll(&mut self) -> Option<Vec<f32>> {
        if self.blocks.is_empty() { None } else { Some(self.blocks.remove(0)) }
    }
}

struct NoMic;

impl Microphone for NoMic {
    type Sample = f32;
    fn spawn() -> Option<Self> {
        None
    }
    fn start(&mut self) {}
    fn stop(&mut self) {}
    fn poll(&mut self) -> Option<Vec<f32>> {
        None
    }
}

fn config(scheme: Scheme) -> RouterConfig {
    RouterConfig {
        scheme,
        full_width: true,
        english_full_width: false,
        status_enabled: true,
        status_pos: None,
        theme: ThemeMode::System,
        voice_combo: KeyCombo::voice_default(),
    }
}

fn router<M: Microphone>() -> Router<Echo, M> {
    Router::new(Engine::new(), config(Scheme::Pinyin))
}

#[test]
fn the_code_table_follows_the_scheme() {
    let mut r: Router<Echo, Mic> = Router::new(Engine::new(), config(Scheme::Wubi86));
    assert_eq!(r.configure_code_table(Some("/t.tsv".to_owned())), CodeTablePlan::Load("/t.tsv".to_owned()));
    assert_eq!(r.reload_code_table(Scheme::Pinyin), CodeTablePlan::Unload);
    let mut missing: Router<Echo, Mic> = Router::new(Engine::new(), config(Scheme::Wubi86));
    assert_eq!(missing.configure_code_table(None), CodeTablePlan::Missing);
}

#[test]
fn the_status_bar_shows_only_while_a_mode_is_reported() {
    let mut r: Router<Echo, Mic> = Router::new(Engine::new(), config(Scheme::Shuangpin(ShuangpinScheme::Xiaohe)));
    assert!(matches!(r.reconcile_status(), StatusAction::Hide));
    match r.handle_mode_changed(false) {
        StatusAction::Show(view) => {
            assert!(!view.english);
            assert!(view.full_width);
            assert_eq!(view.scheme.as_deref(), Some("小鹤双拼"));
            assert_eq!(view.voice, VoiceCue::Off);
        }
        StatusAction::Hide => panic!("the bar should show"),
    }
    assert!(matches!(r.handle_ime_switched(), StatusAction::Hide));
}

#[test]
fn toggling_the_mode_on_the_bar_waits_for_the_text_service() {
    let mut r: Router<Echo, Mic> = router();
    let (writes, action) = r.handle_status_event(StatusEvent::ToggleMode);
    assert!(writes.is_empty() && action.is_none());
    r.handle_mode_changed(false);
    let (writes, action) = r.handle_status_event(StatusEvent::ToggleMode);
    assert!(writes.is_empty() && action.is_some());
    assert_eq!(r.take_pending_mode(), Some(true));
    assert_eq!(r.take_pending_mode(), None);
}

#[test]
fn toggling_punctuation_writes_the_setting_back() {
    let mut r: Router<Echo, Mic> = router();
    r.handle_mode_changed(false);
    let (writes, _) = r.handle_status_event(StatusEvent::TogglePunctuation);
    assert_eq!(writes.len(), 1);
    assert_eq!(writes[0].value, SettingValue::Bool(false));
    assert!(!r.config.full_width);
    let (writes, _) = r.handle_status_event(StatusEvent::Moved(10, 20));
    assert_eq!(r.config.status_pos, Some((10, 20)));
    assert_eq!(writes.len(), 2);
}

#[test]
fn voice_config_changes_say_what_to_do() {
    let mut r: Router<Echo, Mic> = router();
    let on = VoiceConfig { enabled: true, tier: "base".to_owned() };
    match r.configure_voice(Some("/u".to_owned()), "/b".to_owned(), &on) {
        VoicePlan::Locate { user_dir, bundled_root, tier } => {
            assert_eq!(user_dir.as_deref(), Some("/u"));
            assert_eq!(bundled_root, "/b");
            assert_eq!(tier, "base");
        }
        other => panic!("expected a model lookup, got {other:?}"),
    }
    assert!(matches!(r.apply_voice_config(&on), VoicePlan::Unchanged));
    assert!(matches!(r.apply_voice_config(&VoiceConfig::off()), VoicePlan::Detached));
}

#[test]
fn the_voice_shortcut_records_then_sends_and_the_text_waits_for_a_choice() {
    let mut r: Router<Echo, Mic> = router();
    r.configure_voice(None, "/b".to_owned(), &VoiceConfig { enabled: true, tier: String::new() });
    assert!(attach::<Echo, ()>(&mut r.engine, Ok(echo())));
    let event = key_event(KeyCombo::voice_default(), false);
    assert!(r.matches_voice_combo(&event));
    assert!(r.voice_key(&event));
    assert_eq!(r.engine.voice_state(), VoiceState::Recording);
    assert!(r.engine.push_voice_samples(&vec![0.0; 16000]));
    assert!(r.voice_key(&event));
    assert_eq!(r.engine.voice_state(), VoiceState::Transcribing);
    assert!(matches!(r.voice_prompt(), Some(VoicePrompt::Transcribing)));
    assert!(r.advance_voice());
    assert!(matches!(r.voice_prompt(), Some(VoicePrompt::Ready { text }) if text == "16000"));
    assert_eq!(r.choose_voice(VoiceChoice::Accept), Some("16000".to_owned()));
    assert!(r.voice_prompt().is_none());
}

#[test]
fn dropping_the_recognized_text_leaves_nothing() {
    let mut r: Router<Echo, Mic> = router();
    r.configure_voice(None, "/b".to_owned(), &VoiceConfig { enabled: true, tier: String::new() });
    attach::<Echo, ()>(&mut r.engine, Ok(echo()));
    assert!(r.toggle_voice());
    r.engine.push_voice_samples(&vec![0.0; 16000]);
    assert!(r.toggle_voice());
    assert!(r.advance_voice());
    assert_eq!(r.choose_voice(VoiceChoice::Discard), None);
    assert!(r.voice_prompt().is_none());
}

#[test]
fn without_a_microphone_the_shortcut_passes_through() {
    let mut r: Router<Echo, NoMic> = router();
    r.configure_voice(None, "/b".to_owned(), &VoiceConfig { enabled: true, tier: String::new() });
    attach::<Echo, ()>(&mut r.engine, Ok(echo()));
    assert!(!r.toggle_voice());
    assert_eq!(r.engine.voice_state(), VoiceState::Idle);
}

#[test]
fn attaching_a_failed_load_leaves_voice_off() {
    let mut engine: Engine<Echo> = Engine::new();
    assert!(!attach::<Echo, &str>(&mut engine, Err("no model")));
    assert!(!engine.voice_available());
    attach::<Echo, ()>(&mut engine, Ok(echo()));
    assert!(engine.voice_available());
    detach(&mut engine);
    assert!(!engine.voice_available());
}

#[test]
fn the_voice_cell_tracks_the_engine() {
    let mut voice: Voice<Mic> = Voice::new();
    assert!(!voice.has_pending());
    assert!(voice.prompt(VoiceState::Idle).is_none());
    assert!(matches!(voice.prompt(VoiceState::Transcribing), Some(VoicePrompt::Transcribing)));
    assert!(voice.ensure_recorder());
    assert!(voice.take_pending().is_none());
}

#[test]
fn an_empty_frame_has_nothing_composed() {
    let frame = Frame::empty();
    assert!(frame.is_empty());
    assert!(frame.voice_ready().is_none());
    assert!(!frame.voice_pending());
    let mut ready = Frame::empty();
    ready.voice = Some(VoicePrompt::Ready { text: "你好".to_owned() });
    assert!(ready.is_empty());
    assert_eq!(ready.voice_ready(), Some("你好"));
    assert!(ready.voice_pending());
    let mut waiting = Frame::empty();
    waiting.voice = Some(VoicePrompt::Transcribing);
    assert!(waiting.voice_pending());
}

#[test]
fn another_key_drops_the_waiting_voice_text() {
    let mut r: Router<Echo, Mic> = router();
    r.configure_voice(None, "/b".to_owned(), &VoiceConfig { enabled: true, tier: String::new() });
    attach::<Echo, ()>(&mut r.engine, Ok(echo()));
    assert!(r.toggle_voice());
    r.engine.push_voice_samples(&vec![0.0; 16000]);
    assert!(r.toggle_voice());
    assert!(r.advance_voice());
    assert!(matches!(r.voice_prompt(), Some(VoicePrompt::Ready { .. })));
    // The key's own commit comes back; the recognized text is not committed.
    assert_eq!(r.other_key(Some("，".to_owned())), Some("，".to_owned()));
    assert!(r.voice_prompt().is_none());
    assert_eq!(r.choose_voice(VoiceChoice::Accept), None);
}

#[test]
fn turning_voice_off_drops_the_waiting_text_and_the_same_section_changes_nothing() {
    let mut r: Router<Echo, Mic> = router();
    let on = VoiceConfig { enabled: true, tier: String::new() };
    r.configure_voice(None, "/b".to_owned(), &on);
    attach::<Echo, ()>(&mut r.engine, Ok(echo()));
    assert!(r.toggle_voice());
    r.engine.push_voice_samples(&vec![0.0; 16000]);
    assert!(r.toggle_voice());
    assert!(r.advance_voice());
    // The same section again: the text still waits and the recognizer stays.
    assert!(matches!(r.apply_voice_config(&on), VoicePlan::Unchanged));
    assert!(matches!(r.voice_prompt(), Some(VoicePrompt::Ready { .. })));
    assert!(r.engine.voice_available());
    // Voice off: detached, and the waiting text is gone.
    assert!(matches!(r.apply_voice_config(&VoiceConfig::off()), VoicePlan::Detached));
    assert!(r.voice_prompt().is_none());
    assert!(!r.engine.voice_available());
    assert_eq!(r.choose_voice(VoiceChoice::Accept), None);
}

#[test]
fn captured_blocks_are_fed_while_recording() {
    let mut r: Router<Echo, Mic> = router();
    r.configure_voice(None, "/b".to_owned(), &VoiceConfig { enabled: true, tier: String::new() });
    attach::<Echo, ()>(&mut r.engine, Ok(echo()));
    assert_eq!(r.feed_voice(), None);
    assert!(r.toggle_voice());
    assert_eq!(r.feed_voice(), Some(6000));
    assert_eq!(r.feed_voice(), Some(10000));
    assert_eq!(r.feed_voice(), None);
    assert_eq!(r.engine.voice_recorded_samples(), 16000);
    assert!(r.toggle_voice());
    assert!(r.advance_voice());
    assert!(matches!(r.voice_prompt(), Some(VoicePrompt::Ready { text }) if text == "16000"));
}
