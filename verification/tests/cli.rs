use std::cell::RefCell;
use std::collections::VecDeque;

use qingjian::cli::{
    data_file_candidates, default_data_file, is_wav, progress_percent, reference_name, run_fetch, run_wav, should_report,
    tally, transcribe, wait_step, CliError, Pair, RowCounts, WaitStep,
};
use qingjian::fetch::{Catalog, Tier};
use qingjian::order::sort;
use qingjian::voice::{Engine, Transcribed, Transcriber, VoiceState};

struct Echo {
    results: RefCell<VecDeque<Transcribed>>,
    silent: bool,
}

impl Transcriber for Echo {
    type Sample = f32;
    fn is_alive(&self) -> bool {
        true
    }
    fn submit(&mut self, sequence: u64, samples: Vec<f32>) {
        let text = if self.silent { None } else { Some(format!("{} samples", samples.len())) };
        self.results.borrow_mut().push_back(Transcribed { sequence, text });
    }
    fn poll(&self) -> Option<Transcribed> {
        self.results.borrow_mut().pop_front()
    }
}

fn engine(silent: bool) -> Engine<Echo> {
    let mut engine = Engine::new();
    engine.set_voice_worker(Some(Echo { results: RefCell::new(VecDeque::new()), silent }));
    engine
}

#[test]
fn run_wav_needs_a_recognizer() {
    let mut bare: Engine<Echo> = Engine::new();
    assert_eq!(run_wav(&mut bare, &[0.0; 16000]), Err(CliError::VoiceModelMissing));
}

#[test]
fn run_wav_sends_a_long_enough_recording_and_waits_for_its_text() {
    let mut engine = engine(false);
    assert_eq!(run_wav(&mut engine, &vec![0.0; 16000]), Ok(true));
    assert_eq!(engine.voice_state(), VoiceState::Transcribing);
    assert_eq!(wait_step(&mut engine), WaitStep::Text("16000 samples".to_owned()));
    assert_eq!(wait_step(&mut engine), WaitStep::Empty);
}

#[test]
fn run_wav_does_not_send_a_short_recording() {
    let mut engine = engine(false);
    assert_eq!(run_wav(&mut engine, &vec![0.0; 100]), Ok(false));
    assert_eq!(engine.voice_state(), VoiceState::Idle);
}

#[test]
fn an_empty_result_ends_the_wait() {
    let mut engine = engine(true);
    assert!(transcribe(&mut engine, &vec![0.0; 8000]));
    assert_eq!(wait_step(&mut engine), WaitStep::Empty);
}

fn tier() -> Tier {
    Tier { label: "标准".to_owned(), note: "n".to_owned(), files: Vec::new() }
}

#[test]
fn run_fetch_lists_the_tiers_for_an_unknown_name() {
    let mut catalog = Catalog::new();
    catalog.insert("standard".to_owned(), tier());
    catalog.insert("compact".to_owned(), tier());
    assert_eq!(run_fetch(&catalog, "standard").unwrap().label, "标准");
    assert_eq!(
        run_fetch(&catalog, "huge").err(),
        Some(CliError::VoiceUnknownTier { name: "huge".to_owned(), available: "compact, standard".to_owned() })
    );
    assert_eq!(
        run_fetch(&Catalog::new(), "x").err(),
        Some(CliError::VoiceUnknownTier { name: "x".to_owned(), available: String::new() })
    );
}

#[test]
fn progress_is_reported_every_five_percent() {
    assert_eq!(progress_percent(50, 200), 25);
    assert_eq!(progress_percent(0, 0), 100);
    assert_eq!(progress_percent(u64::MAX, 1), u64::MAX);
    assert!(should_report(u64::MAX, 0));
    assert!(!should_report(5, 9));
    assert!(should_report(9, 10));
}

#[test]
fn data_files_are_looked_for_in_order() {
    assert_eq!(
        data_file_candidates("dict.tsv"),
        ["data/generated/dict.qj", "data/generated/dict.tsv", "assets/lexicon/dict.tsv"]
    );
    assert_eq!(
        data_file_candidates("glossary-en.tsv"),
        ["data/generated/glossary-en.qj", "data/generated/glossary-en.tsv", "assets/glossary/glossary-en.tsv"]
    );
    assert_eq!(default_data_file("dict.tsv", &vec![false, true, true]), "data/generated/dict.tsv");
    assert_eq!(default_data_file("dict.tsv", &vec![true, true, true]), "data/generated/dict.qj");
    assert_eq!(default_data_file("english.tsv", &vec![false, false, true]), "assets/lexicon/english.tsv");
    assert_eq!(default_data_file("english.tsv", &vec![false, false, false]), "assets/sample/english.tsv");
}

#[test]
fn extensions_follow_the_file_name_rules() {
    assert_eq!(data_file_candidates(".profile")[0], "data/generated/.profile.qj");
    assert_eq!(data_file_candidates("noext")[0], "data/generated/noext.qj");
    assert_eq!(data_file_candidates("a.b.c")[0], "data/generated/a.b.qj");
    assert_eq!(
        data_file_candidates("sub/dict.tsv"),
        ["data/generated/sub/dict.qj", "data/generated/sub/dict.tsv", "assets/lexicon/sub/dict.tsv"]
    );
    assert_eq!(data_file_candidates("/abs/x.tsv"), ["/abs/x.qj", "/abs/x.tsv", "/abs/x.tsv"]);
    assert_eq!(data_file_candidates("x.d/.")[0], "data/generated/x.qj");
    assert_eq!(data_file_candidates("..")[0], "data/generated/..");
    assert_eq!(data_file_candidates("")[0], "data/generated.qj");
    assert_eq!(default_data_file("/abs/x.tsv", &vec![false, false, false]), "/abs/x.tsv");
    assert!(is_wav("clip.wav"));
    assert!(!is_wav("clip.wav.txt"));
    assert!(!is_wav(".wav"));
    assert!(!is_wav("clip.WAV"));
    assert_eq!(reference_name("clip.wav"), "clip.txt");
    assert_eq!(reference_name("clip"), "clip.txt");
}

#[test]
fn pairs_trim_the_transcript_and_sort_by_recording() {
    let pairs = vec![Pair::new("d/b.wav".to_owned(), " 第二条\n"), Pair::new("d/a.wav".to_owned(), "第一条")];
    let sorted = sort(pairs);
    assert_eq!(sorted[0].wav, "d/a.wav");
    assert_eq!(sorted[1].wav, "d/b.wav");
    assert_eq!(sorted[1].reference, "第二条");
}

#[test]
fn transcripts_lose_unicode_whitespace_at_both_ends() {
    let pair = Pair::new("a.wav".to_owned(), "\u{3000}\u{a0}\t你 好\u{2009}\u{85}\r\n");
    assert_eq!(pair.reference, "你 好");
    // U+200B (zero width space) is not whitespace and stays.
    let kept = Pair::new("b.wav".to_owned(), "\u{200b}x\u{200b}");
    assert_eq!(kept.reference, "\u{200b}x\u{200b}");
}

#[test]
fn the_report_totals_count_every_row() {
    let rows = vec![
        RowCounts { distance: 2, reference_chars: 10, millis: 300, empty: false },
        RowCounts { distance: 5, reference_chars: 5, millis: 120, empty: true },
        RowCounts { distance: 0, reference_chars: 7, millis: 80, empty: false },
    ];
    let totals = tally(&rows, 10);
    assert_eq!((totals.distance, totals.chars, totals.millis, totals.empty), (7, 22, 500, 1));
    assert_eq!(totals.listed, 3);
    assert_eq!(tally(&rows, 2).listed, 2);
    let none = tally(&Vec::new(), 4);
    assert_eq!((none.distance, none.chars, none.millis, none.empty, none.listed), (0, 0, 0, 0, 0));
}
