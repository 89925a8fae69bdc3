//! The command-line tool's logic: picking data files, running recordings
//! through the engine's full voice path, pairing evaluation recordings with
//! their transcripts, and choosing a tier to fetch.
//!
//! The tool drives the same voice state machine (start, feed, stop, poll) that
//! the input-method shells use rather than calling a recognizer directly, so
//! the command line doubles as a second shell. Reading files, timing, sleeping
//! between polls and printing belong to the binary around this module.
use vstd::prelude::*;
use crate::fetch::{Catalog, Tier};
use crate::order::{chars_lt, compare_chars, lemma_chars_lt_total, lemma_chars_lt_transitive, TotalOrder};
use crate::path::{extension_of, find_extension_dot, lemma_extension_dot, path_with_extension, push_path, pushed, set_path_extension};
use crate::text::{chars_of, push_all, string_of, trim, trimmed};
use crate::voice::engine::{after_push, after_result, after_start, after_stop, available, handed_over, result_text, stop_job, Engine, Transcriber};
use crate::voice::VoiceState;

verus! {

/// Why a command failed, as far as this module decides it.
#[derive(Debug, Clone, PartialEq, Eq)]
pub enum CliError {
    /// No speech model is loaded (or the field is private), so there is
    /// nothing to recognize with.
    VoiceModelMissing,
    /// The catalog has no tier by that name; `available` lists the names it
    /// has, separated by `, `.
    VoiceUnknownTier { name: String, available: String },
}

/// Sends one recording through the engine's voice path: start, feed every
/// sample, stop. `true` when the recording went to the recognizer, `false`
/// when it was too short to send.
pub fn transcribe<W: Transcriber>(engine: &mut Engine<W>, samples: &[W::Sample]) -> (sent: bool)
    requires
        old(engine).wf(),
    ensures
        final(engine).wf(),
        final(engine)@ == after_stop(after_push(after_start(old(engine)@), samples@)),
        sent == stop_job(after_push(after_start(old(engine)@), samples@)) is Some,
        // What reaches the recognizer: the whole recording, or nothing.
        handed_over(old(engine).worker(), final(engine).worker(), stop_job(after_push(after_start(old(engine)@), samples@))),
{
    engine.start_voice();
    engine.push_voice_samples(samples);
    engine.stop_voice()
}

/// A recording run through the whole voice path, as `--voice-wav` does:
/// refused when voice input is not available; otherwise whether it went to
/// the recognizer (a recording under the minimum length does not).
pub fn run_wav<W: Transcriber>(engine: &mut Engine<W>, samples: &[W::Sample]) -> (r: Result<bool, CliError>)
    requires
        old(engine).wf(),
    ensures
        final(engine).wf(),
        !available(old(engine)@) ==> r == Err::<bool, CliError>(CliError::VoiceModelMissing) && final(engine)@
            == old(engine)@,
        available(old(engine)@) ==> r == Ok::<bool, CliError>(
            stop_job(after_push(after_start(old(engine)@), samples@)) is Some,
        ) && final(engine)@ == after_stop(after_push(after_start(old(engine)@), samples@)),
        !available(old(engine)@) ==> final(engine).worker() == old(engine).worker(),
        available(old(engine)@) ==> handed_over(
            old(engine).worker(),
            final(engine).worker(),
            stop_job(after_push(after_start(old(engine)@), samples@)),
        ),
{
    if !engine.voice_available() {
        return Err(CliError::VoiceModelMissing);
    }
    Ok(transcribe(engine, samples))
}

/// Where waiting for a result stands after one poll.
#[derive(Debug, Clone, PartialEq, Eq)]
pub enum WaitStep {
    /// The text arrived.
    Text(String),
    /// The result arrived without text (silence, nothing recognized): the
    /// engine is idle again.
    Empty,
    /// Nothing yet; poll again.
    Pending,
}

/// One round of waiting for a result: poll the engine; no text and an idle
/// engine means the result came back empty.
pub fn wait_step<W: Transcriber>(engine: &mut Engine<W>) -> (r: WaitStep)
    requires
        old(engine).wf(),
    ensures
        final(engine).wf(),
        (final(engine)@ == old(engine)@ && (r is Pending || r is Empty)) || exists|sequence: u64, text: Option<String>|
            #![trigger result_text(old(engine)@, sequence, text)]
            final(engine)@ == after_result(old(engine)@, sequence) && match result_text(old(engine)@, sequence, text) {
                Some(t) => r == WaitStep::Text(t),
                None => r is Pending || r is Empty,
            },
        r is Empty <==> final(engine)@.state == VoiceState::Idle && !(r is Text),
        r is Pending ==> final(engine)@.state != VoiceState::Idle,
{
    match engine.poll_voice() {
        Some(text) => WaitStep::Text(text),
        None => if engine.voice_state() == VoiceState::Idle {
            WaitStep::Empty
        } else {
            WaitStep::Pending
        },
    }
}

/// The tier `--voice-fetch` asked for, or the error that lists the tiers the
/// catalog has.
pub fn run_fetch<'a>(catalog: &'a Catalog, name: &str) -> (r: Result<&'a Tier, CliError>)
    requires
        catalog.wf(),
    ensures
        match r {
            Ok(t) => exists|i: int|
                0 <= i < catalog.listing().len() && catalog.listing()[i].0@ == name@ && catalog.listing()[i].1 == *t,
            Err(e) => (forall|i: int| 0 <= i < catalog.listing().len() ==> catalog.listing()[i].0@ != name@)
                && (e matches CliError::VoiceUnknownTier { name: n, available } && n@ == name@
                && available@ == names_listed(catalog.listing())),
        },
{
    match catalog.tier(name) {
        Some(tier) => Ok(tier),
        None => {
            let tiers = catalog.tiers();
            let mut out: Vec<char> = Vec::new();
            let mut i: usize = 0;
            while i < tiers.len()
                invariant
                    i <= tiers@.len(),
                    tiers@ == catalog.listing(),
                    out@ == names_listed(tiers@.subrange(0, i as int)),
                decreases tiers@.len() - i,
            {
                let ghost before = out@;
                if i > 0 {
                    out.push(',');
                    out.push(' ');
                }
                push_all(&mut out, tiers[i].0.as_str());
                proof {
                    assert(tiers@.subrange(0, i + 1).drop_last() =~= tiers@.subrange(0, i as int));
                    if i > 0 {
                        assert(out@ =~= before + seq![',', ' '] + tiers@[i as int].0@);
                    } else {
                        assert(out@ =~= before + tiers@[i as int].0@);
                    }
                }
                i = i + 1;
            }
            proof {
                assert(tiers@.subrange(0, i as int) =~= tiers@);
            }
            Err(CliError::VoiceUnknownTier { name: name.to_owned(), available: string_of(&out) })
        },
    }
}

/// The names of a listing, separated by `, `.
pub open spec fn names_listed(tiers: Seq<(String, Tier)>) -> Seq<char>
    decreases tiers.len(),
{
    if tiers.len() == 0 {
        Seq::empty()
    } else if tiers.len() == 1 {
        tiers[0].0@
    } else {
        names_listed(tiers.drop_last()) + seq![',', ' '] + tiers.last().0@
    }
}

/// Download progress in percent: 100 when the total is zero; the product is
/// held at `u64::MAX` rather than wrapping.
pub open spec fn percent_of(done: u64, total: u64) -> u64 {
    if total == 0 {
        100
    } else if done * 100 > u64::MAX {
        (u64::MAX / total) as u64
    } else {
        ((done * 100) / (total as int)) as u64
    }
}

/// Download progress in percent.
pub fn progress_percent(done: u64, total: u64) -> (r: u64)
    ensures
        r == percent_of(done, total),
{
    // `saturating_mul`, then `checked_div` with 100 for a zero total.
    let scaled = if done > u64::MAX / 100 {
        u64::MAX
    } else {
        done * 100
    };
    if total == 0 {
        100
    } else {
        scaled / total
    }
}

/// Progress is printed once every five percent: on the first report, and
/// whenever the percentage enters another step of five. `last` is
/// `u64::MAX` before the first report.
pub fn should_report(last: u64, percent: u64) -> (r: bool)
    ensures
        r == (last == u64::MAX || percent / 5 != last / 5),
{
    last == u64::MAX || percent / 5 != last / 5
}

/// `name` starts with `glossary-`.
pub open spec fn is_glossary(name: Seq<char>) -> bool {
    name.len() >= 9 && name.take(9) == seq!['g', 'l', 'o', 's', 's', 'a', 'r', 'y', '-']
}

/// The places a data file is looked for, in order of preference: the packed
/// `.qj` in `data/generated`, the TSV there, then the data the repository
/// ships (`assets/glossary` for glossaries, `assets/lexicon` otherwise).
pub open spec fn data_candidates(name: Seq<char>) -> Seq<Seq<char>> {
    let generated = seq!['d', 'a', 't', 'a', '/', 'g', 'e', 'n', 'e', 'r', 'a', 't', 'e', 'd'];
    seq![
        path_with_extension(pushed(generated, name), seq!['q', 'j']),
        pushed(generated, name),
        pushed(if is_glossary(name) {
            seq!['a', 's', 's', 'e', 't', 's', '/', 'g', 'l', 'o', 's', 's', 'a', 'r', 'y']
        } else {
            seq!['a', 's', 's', 'e', 't', 's', '/', 'l', 'e', 'x', 'i', 'c', 'o', 'n']
        }, name),
    ]
}

/// The sample data used when none of the candidates exists.
pub open spec fn sample_file(name: Seq<char>) -> Seq<char> {
    pushed(seq!['a', 's', 's', 'e', 't', 's', '/', 's', 'a', 'm', 'p', 'l', 'e'], name)
}

/// The candidate paths for a data file, in order of preference (see
/// [`default_data_file`]).
pub fn data_file_candidates(name: &str) -> (r: Vec<String>)
    ensures
        r@.len() == 3,
        forall|i: int| 0 <= i < 3 ==> (#[trigger] r@[i])@ == data_candidates(name@)[i],
{
    proof {
        reveal_strlit("data/generated");
        reveal_strlit("assets/glossary");
        reveal_strlit("assets/lexicon");
        reveal_strlit("qj");
    }
    let chars = chars_of(name);
    let glossary = chars.len() >= 9 && chars[0] == 'g' && chars[1] == 'l' && chars[2] == 'o' && chars[3] == 's'
        && chars[4] == 's' && chars[5] == 'a' && chars[6] == 'r' && chars[7] == 'y' && chars[8] == '-';
    proof {
        if glossary {
            assert(chars@.take(9) =~= seq!['g', 'l', 'o', 's', 's', 'a', 'r', 'y', '-']);
        }
        if is_glossary(chars@) {
            let h = chars@.take(9);
            assert(h[0] == 'g' && h[1] == 'l' && h[2] == 'o' && h[3] == 's' && h[4] == 's' && h[5] == 'a'
                && h[6] == 'r' && h[7] == 'y' && h[8] == '-');
        }
    }
    let generated = push_path("data/generated", &chars);
    let packed = set_path_extension(&generated, "qj");
    let shipped = if glossary {
        push_path("assets/glossary", &chars)
    } else {
        push_path("assets/lexicon", &chars)
    };
    let mut out: Vec<String> = Vec::new();
    out.push(string_of(&packed));
    out.push(string_of(&generated));
    out.push(string_of(&shipped));
    proof {
        let c = data_candidates(name@);
        assert("qj"@ =~= seq!['q', 'j']);
        assert("data/generated"@ =~= seq!['d', 'a', 't', 'a', '/', 'g', 'e', 'n', 'e', 'r', 'a', 't', 'e', 'd']);
        assert(out@[0]@ == c[0]);
        assert(out@[1]@ == c[1]);
        assert(out@[2]@ == c[2]);
    }
    out
}

/// The data file to use: the first candidate (see [`data_file_candidates`])
/// that exists, else the sample data. `present` says, for each candidate in
/// order, whether it is an existing file.
pub fn default_data_file(name: &str, present: &Vec<bool>) -> (r: String)
    requires
        present@.len() == 3,
    ensures
        present@[0] ==> r@ == data_candidates(name@)[0],
        !present@[0] && present@[1] ==> r@ == data_candidates(name@)[1],
        !present@[0] && !present@[1] && present@[2] ==> r@ == data_candidates(name@)[2],
        !present@[0] && !present@[1] && !present@[2] ==> r@ == sample_file(name@),
{
    let mut candidates = data_file_candidates(name);
    let mut i: usize = 0;
    while i < 3
        invariant
            i <= 3,
            candidates@.len() == 3,
            present@.len() == 3,
            forall|k: int| 0 <= k < 3 ==> (#[trigger] candidates@[k])@ == data_candidates(name@)[k],
            forall|k: int| 0 <= k < i ==> !present@[k],
        decreases 3 - i,
    {
        if present[i] {
            let found = candidates.remove(i);
            return found;
        }
        i = i + 1;
    }
    proof {
        reveal_strlit("assets/sample");
    }
    string_of(&push_path("assets/sample", &chars_of(name)))
}

/// A recording of the evaluation set and its transcript.
#[derive(Debug)]
pub struct Pair {
    /// The WAV file.
    pub wav: String,
    /// The transcript (the `.txt` beside it), without surrounding whitespace.
    pub reference: String,
}

/// A directory entry is a recording: its extension is `wav`.
pub fn is_wav(file_name: &str) -> (r: bool)
    ensures
        r == (extension_of(file_name@) == Some(seq!['w', 'a', 'v'])),
{
    let name = chars_of(file_name);
    proof {
        lemma_extension_dot(name@);
    }
    match find_extension_dot(&name) {
        Some(k) => {
            let n = name.len();
            let r = n - k == 4 && name[k + 1] == 'w' && name[k + 2] == 'a' && name[k + 3] == 'v';
            proof {
                if r {
                    assert(name@.skip(k + 1) =~= seq!['w', 'a', 'v']);
                }
                if extension_of(name@) == Some(seq!['w', 'a', 'v']) {
                    let e = name@.skip(k + 1);
                    assert(e.len() == 3 && e[0] == 'w' && e[1] == 'a' && e[2] == 'v');
                }
            }
            r
        },
        None => false,
    }
}

/// The transcript's path for a recording: the extension becomes `txt`.
pub fn reference_name(wav_name: &str) -> (r: String)
    ensures
        r@ == path_with_extension(wav_name@, seq!['t', 'x', 't']),
{
    proof {
        reveal_strlit("txt");
    }
    string_of(&set_path_extension(&chars_of(wav_name), "txt"))
}

impl Pair {
    /// A recording with its transcript's text, trimmed.
    pub fn new(wav: String, transcript: &str) -> (r: Pair)
        ensures
            r.wav == wav,
            r.reference@ == trimmed(transcript@),
    {
        Pair { wav, reference: string_of(&trim(transcript)) }
    }
}

impl TotalOrder for Pair {
    open spec fn le(&self, other: &Self) -> bool {
        self.wav@ == other.wav@ || chars_lt(self.wav@, other.wav@)
    }

    proof fn lemma_total(a: &Self, b: &Self) {
        lemma_chars_lt_total(a.wav@, b.wav@);
    }

    proof fn lemma_transitive(a: &Self, b: &Self, c: &Self) {
        if chars_lt(a.wav@, b.wav@) && chars_lt(b.wav@, c.wav@) {
            lemma_chars_lt_transitive(a.wav@, b.wav@, c.wav@);
        }
    }

    fn precedes(&self, other: &Self) -> (r: bool) {
        let a = chars_of(self.wav.as_str());
        let b = chars_of(other.wav.as_str());
        compare_chars(&a, &b) <= 0
    }
}

/// One evaluated recording, as the report counts it.
#[derive(Debug, Clone, Copy, PartialEq, Eq)]
pub struct RowCounts {
    /// Edit distance between the reference and what was recognized.
    pub distance: usize,
    /// Characters in the reference.
    pub reference_chars: usize,
    /// From letting go to the result, in milliseconds.
    pub millis: u128,
    /// The recognizer gave nothing.
    pub empty: bool,
}

/// The integer totals of an evaluation report.
#[derive(Debug, Clone, Copy, PartialEq, Eq)]
pub struct Totals {
    /// Summed edit distance.
    pub distance: usize,
    /// Summed reference characters.
    pub chars: usize,
    /// Summed recognition time in milliseconds.
    pub millis: u128,
    /// Recordings that came back empty.
    pub empty: usize,
    /// How many of the worst rows are listed: `misses`, at most all of them.
    pub listed: usize,
}

/// The summed edit distance of rows.
pub open spec fn distance_sum(rows: Seq<RowCounts>) -> int
    decreases rows.len(),
{
    if rows.len() == 0 {
        0
    } else {
        distance_sum(rows.drop_last()) + rows.last().distance
    }
}

/// The summed reference characters of rows.
pub open spec fn chars_sum(rows: Seq<RowCounts>) -> int
    decreases rows.len(),
{
    if rows.len() == 0 {
        0
    } else {
        chars_sum(rows.drop_last()) + rows.last().reference_chars
    }
}

/// The summed recognition time of rows.
pub open spec fn millis_sum(rows: Seq<RowCounts>) -> int
    decreases rows.len(),
{
    if rows.len() == 0 {
        0
    } else {
        millis_sum(rows.drop_last()) + rows.last().millis
    }
}

/// How many rows came back empty.
pub open spec fn empty_count(rows: Seq<RowCounts>) -> int
    decreases rows.len(),
{
    if rows.len() == 0 {
        0
    } else {
        empty_count(rows.drop_last()) + if rows.last().empty {
            1int
        } else {
            0int
        }
    }
}

proof fn lemma_sums_grow(rows: Seq<RowCounts>, i: int)
    requires
        0 <= i <= rows.len(),
    ensures
        distance_sum(rows.take(i)) <= distance_sum(rows),
        chars_sum(rows.take(i)) <= chars_sum(rows),
        millis_sum(rows.take(i)) <= millis_sum(rows),
    decreases rows.len() - i,
{
    if i < rows.len() {
        lemma_sums_grow(rows, i + 1);
        assert(rows.take(i + 1).drop_last() =~= rows.take(i));
    } else {
        assert(rows.take(i) =~= rows);
    }
}

proof fn lemma_empty_bounded(rows: Seq<RowCounts>)
    ensures
        0 <= empty_count(rows) <= rows.len(),
    decreases rows.len(),
{
    if rows.len() > 0 {
        lemma_empty_bounded(rows.drop_last());
    }
}

/// The report's totals over its rows, and how many of the worst rows it
/// lists. The sums must fit their types.
pub fn tally(rows: &Vec<RowCounts>, misses: usize) -> (r: Totals)
    requires
        distance_sum(rows@) <= usize::MAX,
        chars_sum(rows@) <= usize::MAX,
        millis_sum(rows@) <= u128::MAX,
    ensures
        r.distance == distance_sum(rows@),
        r.chars == chars_sum(rows@),
        r.millis == millis_sum(rows@),
        r.empty == empty_count(rows@),
        r.listed == if misses < rows@.len() {
            misses as int
        } else {
            rows@.len() as int
        },
{
    let mut totals = Totals { distance: 0, chars: 0, millis: 0, empty: 0, listed: 0 };
    let mut i: usize = 0;
    while i < rows.len()
        invariant
            i <= rows@.len(),
            distance_sum(rows@) <= usize::MAX,
            chars_sum(rows@) <= usize::MAX,
            millis_sum(rows@) <= u128::MAX,
            totals.distance == distance_sum(rows@.take(i as int)),
            totals.chars == chars_sum(rows@.take(i as int)),
            totals.millis == millis_sum(rows@.take(i as int)),
            totals.empty == empty_count(rows@.take(i as int)),
        decreases rows@.len() - i,
    {
        let row = rows[i];
        proof {
            assert(rows@.take(i + 1).drop_last() =~= rows@.take(i as int));
            lemma_sums_grow(rows@, i + 1);
            lemma_empty_bounded(rows@.take(i as int));
        }
        totals.distance = totals.distance + row.distance;
        totals.chars = totals.chars + row.reference_chars;
        totals.millis = totals.millis + row.millis;
        if row.empty {
            totals.empty = totals.empty + 1;
        }
        i = i + 1;
    }
    proof {
        assert(rows@.take(rows@.len() as int) =~= rows@);
    }
    totals.listed = if misses < rows.len() {
        misses
    } else {
        rows.len()
    };
    totals
}

} // verus!
