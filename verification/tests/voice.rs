use std::cell::{Cell, RefCell};
use std::collections::VecDeque;
use std::sync::mpsc::channel;

use qingjian::voice::session::{MAX_VOICE_SAMPLES, MAX_VOICE_SECONDS, MIN_VOICE_SAMPLES, VOICE_SAMPLE_RATE};
use qingjian::voice::{Engine, Job, Transcribed, Transcriber, VoiceState, VoiceWorker};

/// A recognizer that answers with the number of samples it got, right away,
/// and counts how often it ran.
struct FakeRecognizer {
    silent: bool,
    runs: Cell<usize>,
    results: RefCell<VecDeque<Transcribed>>,
}

impl FakeRecognizer {
    fn new(silent: bool) -> Self {
        FakeRecognizer { silent, runs: Cell::new(0), results: RefCell::new(VecDeque::new()) }
    }
}

impl Transcriber for FakeRecognizer {
    type Sample = f32;

    fn is_alive(&self) -> bool {
        true
    }

    fn submit(&mut self, sequence: u64, samples: Vec<f32>) {
        self.runs.set(self.runs.get() + 1);
        let text = if self.silent { None } else { Some(samples.len().to_string()) };
        self.results.borrow_mut().push_back(Transcribed { sequence, text });
    }

    fn poll(&self) -> Option<Transcribed> {
        self.results.borrow_mut().pop_front()
    }
}

fn voice_engine() -> Engine<FakeRecognizer> {
    let mut engine = Engine::new();
    engine.set_voice_worker(Some(FakeRecognizer::new(false)));
    engine
}

fn feed(engine: &mut Engine<FakeRecognizer>, samples: usize) {
    assert!(engine.push_voice_samples(&vec![0.0f32; samples]));
}

/// Polls until the result is in; `None` when it came back empty.
fn wait_for_text(engine: &mut Engine<FakeRecognizer>) -> Option<String> {
    for _ in 0..1000 {
        if let Some(text) = engine.poll_voice() {
            return Some(text);
        }
        if engine.voice_state() == VoiceState::Idle {
            return None;
        }
    }
    panic!("the recognizer never answered");
}

const ONE_SECOND: usize = VOICE_SAMPLE_RATE as usize;

#[test]
fn voice_is_unavailable_without_a_recognizer() {
    let mut engine: Engine<FakeRecognizer> = Engine::new();
    assert!(!engine.voice_available());
    assert!(!engine.start_voice());
    assert_eq!(engine.voice_state(), VoiceState::Idle);
}

#[test]
fn a_recording_round_trip_ends_in_the_recognized_text() {
    let mut engine = voice_engine();
    assert!(engine.voice_available());

    assert!(engine.start_voice());
    assert_eq!(engine.voice_state(), VoiceState::Recording);
    feed(&mut engine, ONE_SECOND);
    assert_eq!(engine.voice_recorded_samples(), 16000);

    assert!(engine.stop_voice());
    assert_eq!(engine.voice_state(), VoiceState::Transcribing);
    assert_eq!(wait_for_text(&mut engine).unwrap(), "16000");
    assert_eq!(engine.voice_state(), VoiceState::Idle);
}

#[test]
fn a_too_short_recording_is_not_sent_to_the_recognizer() {
    let mut engine = voice_engine();
    assert!(engine.start_voice());
    feed(&mut engine, MIN_VOICE_SAMPLES / 2);

    assert!(!engine.stop_voice());
    assert_eq!(engine.voice_state(), VoiceState::Idle);
    assert_eq!(engine.poll_voice(), None);
    assert_eq!(engine.voice_worker().unwrap().runs.get(), 0, "a too-short recording is never sent");
}

#[test]
fn samples_pushed_while_not_recording_are_dropped() {
    let mut engine = voice_engine();
    assert!(!engine.push_voice_samples(&[0.0; 100]));
}

#[test]
fn input_being_composed_blocks_starting_a_recording() {
    let mut engine = voice_engine();
    engine.push('k');
    assert!(!engine.start_voice());
    assert_eq!(engine.voice_state(), VoiceState::Idle);
}

#[test]
fn restarting_a_recording_discards_the_result_already_in_flight() {
    let mut engine = voice_engine();
    assert!(engine.start_voice());
    feed(&mut engine, ONE_SECOND);
    assert!(engine.stop_voice());

    assert!(engine.start_voice());
    assert_eq!(engine.poll_voice(), None);
    assert_eq!(engine.voice_state(), VoiceState::Recording, "a stale result must not touch the new recording");
}

#[test]
fn cancelling_a_recording_discards_it_and_its_result() {
    let mut engine = voice_engine();
    assert!(engine.start_voice());
    feed(&mut engine, ONE_SECOND);
    assert!(engine.stop_voice());
    engine.cancel_voice();

    assert_eq!(engine.voice_state(), VoiceState::Idle);
    assert_eq!(engine.poll_voice(), None);
}

#[test]
fn private_input_disables_and_cancels_voice() {
    let mut engine = voice_engine();
    assert!(engine.start_voice());
    feed(&mut engine, ONE_SECOND);
    assert!(engine.stop_voice());

    engine.set_private(true);
    assert!(!engine.voice_available());
    assert!(!engine.start_voice());
    assert_eq!(engine.poll_voice(), None);
    assert_eq!(engine.voice_state(), VoiceState::Idle);
}

#[test]
fn silence_settles_back_to_idle_without_text() {
    let mut engine = Engine::new();
    engine.set_voice_worker(Some(FakeRecognizer::new(true)));
    assert!(engine.start_voice());
    feed(&mut engine, ONE_SECOND);
    assert!(engine.stop_voice());

    assert_eq!(wait_for_text(&mut engine), None);
    assert_eq!(engine.voice_state(), VoiceState::Idle);
}

#[test]
fn recording_stops_at_the_limit_and_reports_truncation() {
    let mut engine = voice_engine();
    assert!(engine.start_voice());
    assert!(!engine.voice_truncated());

    feed(&mut engine, (MAX_VOICE_SECONDS + 5) * ONE_SECOND);
    assert!(engine.voice_truncated());
    assert_eq!(engine.voice_recorded_samples(), MAX_VOICE_SAMPLES);

    assert!(engine.stop_voice());
    let expected = (MAX_VOICE_SECONDS * VOICE_SAMPLE_RATE as usize).to_string();
    assert_eq!(wait_for_text(&mut engine).unwrap(), expected);
}

#[test]
fn discarding_the_result_leaves_nothing_behind() {
    let mut engine = voice_engine();
    assert!(engine.start_voice());
    feed(&mut engine, ONE_SECOND);
    assert!(engine.stop_voice());
    let text = wait_for_text(&mut engine).unwrap();
    assert_eq!(text, "16000");
    // Fetching the text commits nothing: the engine's composition stays
    // empty, nothing else is waiting, and the recognizer ran once.
    assert!(engine.composition_is_empty());
    assert_eq!(engine.poll_voice(), None);
    assert_eq!(engine.voice_state(), VoiceState::Idle);
    assert_eq!(engine.voice_worker().unwrap().runs.get(), 1);
}

#[test]
fn a_result_with_a_stale_sequence_is_dropped() {
    let mut engine = voice_engine();
    assert!(engine.start_voice());
    feed(&mut engine, ONE_SECOND);
    assert!(engine.stop_voice());
    assert_eq!(
        engine.accept_result(Transcribed { sequence: 12345, text: Some("late".to_owned()) }),
        None
    );
    assert_eq!(engine.voice_state(), VoiceState::Transcribing);
}

#[test]
fn a_recording_exactly_at_the_minimum_is_sent() {
    let mut engine = voice_engine();
    assert!(engine.start_voice());
    feed(&mut engine, MIN_VOICE_SAMPLES);
    assert!(engine.stop_voice());
    assert_eq!(wait_for_text(&mut engine).unwrap(), MIN_VOICE_SAMPLES.to_string());
}

#[test]
fn the_worker_hands_every_sample_to_the_thread_and_brings_the_text_back() {
    let (jobs, job_rx) = channel::<Job<f32>>();
    let (result_tx, results) = channel::<Transcribed>();
    let mut engine: Engine<VoiceWorker<f32>> = Engine::new();
    engine.set_voice_worker(Some(VoiceWorker::new(jobs, results, true)));
    assert!(engine.start_voice());
    assert!(engine.push_voice_samples(&vec![0.25f32; ONE_SECOND]));
    assert!(engine.push_voice_samples(&vec![-0.5f32; 100]));
    assert!(engine.stop_voice());

    let job = job_rx.try_recv().unwrap();
    assert_eq!(job.samples.len(), ONE_SECOND + 100);
    assert!(job.samples[..ONE_SECOND].iter().all(|s| *s == 0.25));
    assert!(job.samples[ONE_SECOND..].iter().all(|s| *s == -0.5));
    assert!(job_rx.try_recv().is_err(), "one recording, one job");
    assert_eq!(engine.poll_voice(), None);

    result_tx.send(Transcribed { sequence: job.sequence, text: Some("你好".to_owned()) }).unwrap();
    assert_eq!(engine.poll_voice(), Some("你好".to_owned()));
    assert_eq!(engine.voice_state(), VoiceState::Idle);
}

#[test]
fn a_worker_whose_thread_did_not_start_offers_no_voice() {
    let (jobs, _job_rx) = channel::<Job<f32>>();
    let (_result_tx, results) = channel::<Transcribed>();
    let mut engine: Engine<VoiceWorker<f32>> = Engine::new();
    engine.set_voice_worker(Some(VoiceWorker::new(jobs, results, false)));
    assert!(!engine.voice_available());
    assert!(!engine.start_voice());
}
