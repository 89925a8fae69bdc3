//! Shape-code tables: a Rime `.dict.yaml` (Wubi 86 and the like) becomes
//! `word\tcode\tfrequency` lines.
//!
//! The table's own second column (a weight in Rime) is not used: it orders the
//! table, it is not a corpus frequency, and sorting by it would rank a word
//! differently under the shape code than under pinyin. Frequencies come from
//! the lexicon (`word\tpinyin\tfrequency`) by the word's text: a word the
//! lexicon has gets its corpus frequency, any other gets
//! [`UNKNOWN_FREQUENCY`] and so ranks after the known words of its code.
use vstd::prelude::*;
use crate::order::{chars_lt, compare_chars, lemma_chars_lt_irreflexive, lemma_chars_lt_total, lemma_chars_lt_transitive, sort, sorted_by_order, TotalOrder};
use crate::text::{ascii_lowered, chars_of, decimal, decimal_digits, push_all, split_chars, split_on, string_of, to_ascii_lowercase, trim, trimmed};

verus! {

/// The frequency given to a word the lexicon does not have.
pub const UNKNOWN_FREQUENCY: u32 = 1;

/// One line of the output table.
#[derive(Debug)]
pub struct CodeEntry {
    pub word: String,
    pub code: String,
    pub frequency: u32,
}

/// An entry as plain values: code, frequency, word.
pub type EntryKey = (Seq<char>, u32, Seq<char>);

/// The key an entry is ordered by.
pub open spec fn key_of(e: CodeEntry) -> EntryKey {
    (e.code@, e.frequency, e.word@)
}

/// The table's order: by code, then the higher frequency first, then by word.
pub open spec fn key_lt(a: EntryKey, b: EntryKey) -> bool {
    ||| chars_lt(a.0, b.0)
    ||| a.0 == b.0 && a.1 > b.1
    ||| a.0 == b.0 && a.1 == b.1 && chars_lt(a.2, b.2)
}

pub proof fn lemma_key_lt_transitive(a: EntryKey, b: EntryKey, c: EntryKey)
    requires
        key_lt(a, b),
        key_lt(b, c),
    ensures
        key_lt(a, c),
{
    if chars_lt(a.0, b.0) && chars_lt(b.0, c.0) {
        lemma_chars_lt_transitive(a.0, b.0, c.0);
    } else if a.0 == b.0 && b.0 == c.0 && a.1 == b.1 && b.1 == c.1 {
        lemma_chars_lt_transitive(a.2, b.2, c.2);
    }
}

pub proof fn lemma_key_lt_total(a: EntryKey, b: EntryKey)
    ensures
        a == b || key_lt(a, b) || key_lt(b, a),
{
    lemma_chars_lt_total(a.0, b.0);
    lemma_chars_lt_total(a.2, b.2);
}

impl TotalOrder for CodeEntry {
    open spec fn le(&self, other: &Self) -> bool {
        key_of(*self) == key_of(*other) || key_lt(key_of(*self), key_of(*other))
    }

    proof fn lemma_total(a: &Self, b: &Self) {
        lemma_key_lt_total(key_of(*a), key_of(*b));
    }

    proof fn lemma_transitive(a: &Self, b: &Self, c: &Self) {
        if key_lt(key_of(*a), key_of(*b)) && key_lt(key_of(*b), key_of(*c)) {
            lemma_key_lt_transitive(key_of(*a), key_of(*b), key_of(*c));
        }
    }

    fn precedes(&self, other: &Self) -> (r: bool) {
        let a = chars_of(self.code.as_str());
        let b = chars_of(other.code.as_str());
        let c = compare_chars(&a, &b);
        if c != 0 {
            return c < 0;
        }
        if self.frequency != other.frequency {
            return self.frequency > other.frequency;
        }
        let x = chars_of(self.word.as_str());
        let y = chars_of(other.word.as_str());
        compare_chars(&x, &y) <= 0
    }
}

/// The lexicon's frequency for a word: the last entry with that word wins
/// (as when the entries are collected into a map one after another).
pub open spec fn frequency_in(table: Seq<(String, u32)>, word: Seq<char>) -> Option<u32>
    decreases table.len(),
{
    if table.len() == 0 {
        None
    } else if table.last().0@ == word {
        Some(table.last().1)
    } else {
        frequency_in(table.drop_last(), word)
    }
}

/// `j` is the last entry of the table under `word`.
pub open spec fn last_under(table: Seq<(String, u32)>, word: Seq<char>, j: int) -> bool {
    &&& 0 <= j < table.len()
    &&& table[j].0@ == word
    &&& forall|i: int| j < i < table.len() ==> (#[trigger] table[i]).0@ != word
}

proof fn lemma_frequency_in(table: Seq<(String, u32)>, word: Seq<char>)
    ensures
        frequency_in(table, word) is None <==> forall|i: int| 0 <= i < table.len() ==> (#[trigger] table[i]).0@ != word,
        forall|j: int| last_under(table, word, j) ==> frequency_in(table, word) == Some(table[j].1),
    decreases table.len(),
{
    if table.len() > 0 {
        let rest = table.drop_last();
        lemma_frequency_in(rest, word);
        assert forall|j: int| last_under(table, word, j) implies frequency_in(table, word) == Some(table[j].1) by {
            if j < table.len() - 1 {
                assert(table[table.len() - 1].0@ != word);
                assert(last_under(rest, word, j)) by {
                    assert forall|i: int| j < i < rest.len() implies (#[trigger] rest[i]).0@ != word by {
                        assert(rest[i] == table[i]);
                    }
                }
            }
        }
        if frequency_in(table, word) is None {
            assert forall|i: int| 0 <= i < table.len() implies (#[trigger] table[i]).0@ != word by {
                if i < table.len() - 1 {
                    assert(rest[i] == table[i]);
                }
            }
        } else if table.last().0@ != word {
            let i = choose|i: int| 0 <= i < rest.len() && (#[trigger] rest[i]).0@ == word;
            assert(table[i] == rest[i]);
        }
    }
}

/// An entry of the lexicon with its place in it.
struct Placed {
    word: String,
    index: usize,
    frequency: u32,
}

impl TotalOrder for Placed {
    closed spec fn le(&self, other: &Self) -> bool {
        ||| chars_lt(self.word@, other.word@)
        ||| self.word@ == other.word@ && self.index >= other.index
    }

    proof fn lemma_total(a: &Self, b: &Self) {
        lemma_chars_lt_total(a.word@, b.word@);
    }

    proof fn lemma_transitive(a: &Self, b: &Self, c: &Self) {
        if chars_lt(a.word@, b.word@) && chars_lt(b.word@, c.word@) {
            lemma_chars_lt_transitive(a.word@, b.word@, c.word@);
        }
    }

    fn precedes(&self, other: &Self) -> (r: bool) {
        let a = chars_of(self.word.as_str());
        let b = chars_of(other.word.as_str());
        let c = compare_chars(&a, &b);
        if c != 0 {
            c < 0
        } else {
            self.index >= other.index
        }
    }
}

/// Some entry stands for the lexicon's `i`-th one.
spec fn placed_at(items: Seq<Placed>, i: int) -> bool {
    exists|k: int| 0 <= k < items.len() && (#[trigger] items[k]).index == i
}

/// The lexicon's frequencies, ordered by word for lookups.
pub struct Frequencies {
    items: Vec<Placed>,
    source: Ghost<Seq<(String, u32)>>,
}

impl Frequencies {
    /// The lexicon entries the frequencies were taken from.
    pub closed spec fn source(&self) -> Seq<(String, u32)> {
        self.source@
    }

    pub closed spec fn wf(&self) -> bool {
        &&& sorted_by_order(self.items@)
        &&& forall|k: int| 0 <= k < self.items@.len() ==> {
            let p = #[trigger] self.items@[k];
            &&& p.index < self.source@.len()
            &&& p.word@ == self.source@[p.index as int].0@
            &&& p.frequency == self.source@[p.index as int].1
        }
        &&& forall|i: int| 0 <= i < self.source@.len() ==> #[trigger] placed_at(self.items@, i)
    }

    /// Takes the lexicon's `(word, frequency)` entries.
    pub fn new(table: &Vec<(String, u32)>) -> (r: Frequencies)
        ensures
            r.wf(),
            r.source() == table@,
    {
        let mut placed: Vec<Placed> = Vec::new();
        let mut i: usize = 0;
        while i < table.len()
            invariant
                i <= table@.len(),
                placed@.len() == i,
                forall|k: int| 0 <= k < i ==> {
                    let p = #[trigger] placed@[k];
                    &&& p.index == k
                    &&& p.word@ == table@[k].0@
                    &&& p.frequency == table@[k].1
                },
            decreases table@.len() - i,
        {
            placed.push(Placed { word: table[i].0.clone(), index: i, frequency: table[i].1 });
            i = i + 1;
        }
        let ghost before = placed@;
        let items = sort(placed);
        proof {
            broadcast use vstd::seq_lib::group_to_multiset_ensures;
            assert forall|k: int| 0 <= k < items@.len() implies {
                let p = #[trigger] items@[k];
                &&& p.index < table@.len()
                &&& p.word@ == table@[p.index as int].0@
                &&& p.frequency == table@[p.index as int].1
            } by {
                assert(items@.to_multiset().count(items@[k]) > 0) by {
                    assert(items@.contains(items@[k]));
                }
                assert(before.contains(items@[k]));
                let m = choose|m: int| 0 <= m < before.len() && before[m] == items@[k];
                assert(before[m].index == m);
            }
            assert forall|m: int| 0 <= m < table@.len() implies #[trigger] placed_at(items@, m) by {
                assert(before.contains(before[m]));
                assert(before.to_multiset().count(before[m]) > 0);
                assert(items@.contains(before[m]));
                let k = choose|k: int| 0 <= k < items@.len() && items@[k] == before[m];
                assert(items@[k].index == m);
            }
        }
        Frequencies { items, source: Ghost(table@) }
    }

    /// The frequency of a word, if the lexicon has it.
    pub fn lookup(&self, word: &Vec<char>) -> (r: Option<u32>)
        requires
            self.wf(),
        ensures
            r == frequency_in(self.source(), word@),
    {
        // The first entry whose word does not come before `word`.
        let mut lo: usize = 0;
        let mut hi: usize = self.items.len();
        while lo < hi
            invariant
                self.wf(),
                lo <= hi <= self.items@.len(),
                forall|k: int| 0 <= k < lo ==> chars_lt((#[trigger] self.items@[k]).word@, word@),
                forall|k: int| hi <= k < self.items@.len() ==> !chars_lt((#[trigger] self.items@[k]).word@, word@),
            decreases hi - lo,
        {
            let mid = lo + (hi - lo) / 2;
            let w = chars_of(self.items[mid].word.as_str());
            if compare_chars(&w, word) < 0 {
                proof {
                    assert forall|k: int| 0 <= k < mid + 1 implies chars_lt((#[trigger] self.items@[k]).word@, word@) by {
                        if k < mid {
                            assert(self.items@[k].le(&self.items@[mid as int]));
                            if chars_lt(self.items@[k].word@, self.items@[mid as int].word@) {
                                lemma_chars_lt_transitive(self.items@[k].word@, self.items@[mid as int].word@, word@);
                            }
                        }
                    }
                }
                lo = mid + 1;
            } else {
                proof {
                    assert forall|k: int| mid <= k < self.items@.len() implies !chars_lt((#[trigger] self.items@[k]).word@, word@) by {
                        if k > mid {
                            assert(self.items@[mid as int].le(&self.items@[k]));
                            if chars_lt(self.items@[k].word@, word@) {
                                if chars_lt(self.items@[mid as int].word@, self.items@[k].word@) {
                                    lemma_chars_lt_transitive(self.items@[mid as int].word@, self.items@[k].word@, word@);
                                }
                            }
                        }
                    }
                }
                hi = mid;
            }
        }
        let ghost t = self.source@;
        proof {
            lemma_frequency_in(t, word@);
        }
        if lo < self.items.len() {
            let w = chars_of(self.items[lo].word.as_str());
            if compare_chars(&w, word) == 0 {
                let p = &self.items[lo];
                proof {
                    // `p` is the last entry under the word.
                    let j = p.index as int;
                    assert forall|i: int| j < i < t.len() implies (#[trigger] t[i]).0@ != word@ by {
                        if t[i].0@ == word@ {
                            assert(placed_at(self.items@, i));
                            let k = choose|k: int| 0 <= k < self.items@.len() && (#[trigger] self.items@[k]).index == i;
                            if k < lo {
                                lemma_chars_lt_irreflexive(word@);
                            } else if k > lo {
                                assert(p.le(&self.items@[k]));
                                lemma_chars_lt_irreflexive(word@);
                            }
                        }
                    }
                    assert(last_under(t, word@, j));
                }
                return Some(p.frequency);
            }
        }
        proof {
            assert forall|i: int| 0 <= i < t.len() implies (#[trigger] t[i]).0@ != word@ by {
                if t[i].0@ == word@ {
                    assert(placed_at(self.items@, i));
                    let k = choose|k: int| 0 <= k < self.items@.len() && (#[trigger] self.items@[k]).index == i;
                    if k < lo {
                        lemma_chars_lt_irreflexive(word@);
                    } else {
                        assert(lo < self.items@.len());
                        if k > lo {
                            assert(self.items@[lo as int].le(&self.items@[k]));
                        }
                        lemma_chars_lt_total(self.items@[lo as int].word@, word@);
                        if chars_lt(word@, self.items@[lo as int].word@) && k > lo {
                            if chars_lt(self.items@[lo as int].word@, self.items@[k].word@) {
                                lemma_chars_lt_transitive(word@, self.items@[lo as int].word@, self.items@[k].word@);
                            }
                            lemma_chars_lt_irreflexive(word@);
                        }
                    }
                }
            }
        }
        None
    }
}

/// A line with nothing to read: empty once trimmed, or a `#` comment.
pub open spec fn blank_or_comment(t: Seq<char>) -> bool {
    t.len() == 0 || t[0] == '#'
}

/// A table line that has text but no tab: it cannot be read.
pub open spec fn line_bad(line: Seq<char>) -> bool {
    let t = trimmed(line);
    !blank_or_comment(t) && split_on(t, '\t').len() < 2
}

/// The word and the (lowercased) code of a table line; `None` for a line to
/// skip (blank, a comment, unreadable, or with an empty word or code).
pub open spec fn line_pair(line: Seq<char>) -> Option<(Seq<char>, Seq<char>)> {
    let t = trimmed(line);
    let f = split_on(t, '\t');
    if blank_or_comment(t) || f.len() < 2 {
        None
    } else {
        let w = trimmed(f[0]);
        let c = ascii_lowered(trimmed(f[1]));
        if w.len() == 0 || c.len() == 0 {
            None
        } else {
            Some((w, c))
        }
    }
}

/// Reads one table line: whether it is unreadable, and its word and code.
fn read_line(line: &Vec<char>) -> (r: (bool, Option<(Vec<char>, Vec<char>)>))
    ensures
        r.0 == line_bad(line@),
        match r.1 {
            Some(p) => line_pair(line@) == Some((p.0@, p.1@)),
            None => line_pair(line@) is None,
        },
{
    let text = string_of(line);
    let t = trim(text.as_str());
    if t.len() == 0 || t[0] == '#' {
        return (false, None);
    }
    let fields = split_chars(&t, '\t');
    if fields.len() < 2 {
        return (true, None);
    }
    let w = trim(string_of(&fields[0]).as_str());
    let c0 = string_of(&trim(string_of(&fields[1]).as_str()));
    let c = to_ascii_lowercase(c0.as_str());
    if w.len() == 0 || c.len() == 0 {
        return (false, None);
    }
    (false, Some((w, c)))
}

/// A line that is `---` once trimmed (a YAML document header).
pub open spec fn is_dashes(t: Seq<char>) -> bool {
    t == seq!['-', '-', '-']
}

/// A line that is `...` once trimmed (the end of a YAML header).
pub open spec fn is_dots(t: Seq<char>) -> bool {
    t == seq!['.', '.', '.']
}

/// A line that starts with `name:`.
pub open spec fn is_name_line(t: Seq<char>) -> bool {
    t.len() >= 5 && t.subrange(0, 5) == seq!['n', 'a', 'm', 'e', ':']
}

/// A Rime dictionary has a `---` header or a `name:` line.
pub open spec fn rime_like(lines: Seq<Seq<char>>) -> bool {
    exists|k: int| 0 <= k < lines.len() && (is_dashes(trimmed(#[trigger] lines[k])) || is_name_line(trimmed(lines[k])))
}

/// The first of the first `n` lines that ends the header (`...`).
pub open spec fn header_end(lines: Seq<Seq<char>>, n: int) -> Option<int>
    decreases n,
{
    if n <= 0 {
        None
    } else {
        match header_end(lines, n - 1) {
            Some(k) => Some(k),
            None => if is_dots(trimmed(lines[n - 1])) {
                Some(n - 1)
            } else {
                None
            },
        }
    }
}

/// Reading the table lines `start..n`: the word-and-code pairs in order, or
/// the 1-based number of the first unreadable line.
pub open spec fn read_lines(lines: Seq<Seq<char>>, start: int, n: int) -> Result<Seq<(Seq<char>, Seq<char>)>, int>
    decreases n - start,
{
    if n <= start {
        Ok(Seq::empty())
    } else {
        match read_lines(lines, start, n - 1) {
            Err(k) => Err(k),
            Ok(ps) => if line_bad(lines[n - 1]) {
                Err(n)
            } else {
                match line_pair(lines[n - 1]) {
                    Some(p) => Ok(ps.push(p)),
                    None => Ok(ps),
                }
            },
        }
    }
}

/// The entries a table's lines call for: the entries follow the line that
/// ends the header (none when there is no such line).
pub open spec fn table_pairs(lines: Seq<Seq<char>>) -> Result<Seq<(Seq<char>, Seq<char>)>, int> {
    match header_end(lines, lines.len() as int) {
        Some(k) => read_lines(lines, k + 1, lines.len() as int),
        None => Ok(Seq::empty()),
    }
}

/// The key of the entry for a word and code, with the lexicon's frequency.
pub open spec fn entry_key(pair: (Seq<char>, Seq<char>), lexicon: Seq<(String, u32)>) -> EntryKey {
    (pair.1, match frequency_in(lexicon, pair.0) {
        Some(f) => f,
        None => UNKNOWN_FREQUENCY,
    }, pair.0)
}

/// Entries strictly in the table's order (so no entry occurs twice).
pub open spec fn strictly_ordered(es: Seq<CodeEntry>) -> bool {
    forall|i: int, j: int| 0 <= i < j < es.len() ==> key_lt(key_of(#[trigger] es[i]), key_of(#[trigger] es[j]))
}

/// The keys of some entries.
pub open spec fn keys(es: Seq<CodeEntry>) -> Set<EntryKey> {
    Set::new(|k: EntryKey| exists|i: int| 0 <= i < es.len() && key_of(#[trigger] es[i]) == k)
}

/// How many entries carry the unknown-word frequency.
pub open spec fn count_unknown(es: Seq<CodeEntry>) -> nat
    decreases es.len(),
{
    if es.len() == 0 {
        0
    } else {
        count_unknown(es.drop_last()) + if es.last().frequency == UNKNOWN_FREQUENCY {
            1nat
        } else {
            0nat
        }
    }
}

fn copy_entry(e: &CodeEntry) -> (r: CodeEntry)
    ensures
        key_of(r) == key_of(*e),
{
    CodeEntry { word: e.word.clone(), code: e.code.clone(), frequency: e.frequency }
}

/// Drops the repeats from entries in order: what is left is strictly in
/// order and has the same keys.
fn dedup_ordered(v: &Vec<CodeEntry>) -> (r: Vec<CodeEntry>)
    requires
        sorted_by_order(v@),
    ensures
        strictly_ordered(r@),
        keys(r@) == keys(v@),
{
    let mut out: Vec<CodeEntry> = Vec::new();
    let mut i: usize = 0;
    while i < v.len()
        invariant
            i <= v@.len(),
            sorted_by_order(v@),
            strictly_ordered(out@),
            out@.len() == 0 <==> i == 0,
            i > 0 ==> key_of(out@.last()) == key_of(v@[i - 1]),
            keys(out@) == keys(v@.subrange(0, i as int)),
        decreases v@.len() - i,
    {
        let e = &v[i];
        let same = if out.len() == 0 {
            false
        } else {
            let last = &out[out.len() - 1];
            last.code == e.code && last.frequency == e.frequency && last.word == e.word
        };
        let ghost before = out@;
        if !same {
            out.push(copy_entry(e));
            proof {
                if i > 0 {
                    assert(v@[i - 1].le(&v@[i as int]));
                    assert(key_of(before.last()) != key_of(v@[i as int]));
                    assert forall|a: int, b: int| 0 <= a < b < out@.len() implies key_lt(
                        key_of(#[trigger] out@[a]),
                        key_of(#[trigger] out@[b]),
                    ) by {
                        if b == out@.len() - 1 && a < b - 1 {
                            lemma_key_lt_transitive(key_of(out@[a]), key_of(before.last()), key_of(out@[b]));
                        }
                        if b < out@.len() - 1 {
                            assert(out@[a] == before[a] && out@[b] == before[b]);
                        }
                    }
                }
            }
        }
        proof {
            let s = v@.subrange(0, i + 1);
            assert(s =~= v@.subrange(0, i as int).push(v@[i as int]));
            assert forall|k: EntryKey| keys(out@).contains(k) <==> keys(s).contains(k) by {
                if keys(out@).contains(k) {
                    let a = choose|a: int| 0 <= a < out@.len() && key_of(#[trigger] out@[a]) == k;
                    if a < before.len() {
                        assert(out@[a] == before[a]);
                        assert(keys(before).contains(k));
                        let b = choose|b: int| 0 <= b < i && key_of(#[trigger] v@.subrange(0, i as int)[b]) == k;
                        assert(s[b] == v@.subrange(0, i as int)[b]);
                    } else {
                        assert(s[i as int] == v@[i as int]);
                    }
                }
                if keys(s).contains(k) {
                    let b = choose|b: int| 0 <= b < s.len() && key_of(#[trigger] s[b]) == k;
                    if b < i {
                        assert(v@.subrange(0, i as int)[b] == s[b]);
                        assert(keys(v@.subrange(0, i as int)).contains(k));
                        let a = choose|a: int| 0 <= a < before.len() && key_of(#[trigger] before[a]) == k;
                        assert(out@[a] == before[a]);
                    } else if same {
                        assert(out@.last() == before.last());
                    } else {
                        assert(out@[out@.len() - 1] == out@.last());
                    }
                }
            }
            assert(keys(out@) =~= keys(s));
        }
        i = i + 1;
    }
    proof {
        assert(v@.subrange(0, i as int) =~= v@);
    }
    out
}

/// What a conversion wrote, for the log.
#[derive(Debug, Clone, Copy, PartialEq, Eq, Structural)]
pub struct Converted {
    /// Entries written.
    pub entries: usize,
    /// Of those, entries whose frequency came from the lexicon.
    pub with_frequency: usize,
    /// Entries the lexicon did not have, given [`UNKNOWN_FREQUENCY`]. A high
    /// share means the table and the lexicon spell words differently.
    pub unknown: usize,
}

/// Why a table could not be converted.
#[derive(Debug, Clone, PartialEq, Eq, Structural)]
pub enum ConvertError {
    /// The source is not a Rime dictionary (no `---` header and no `name:`
    /// line).
    NotRime,
    /// This line (counted from 1) of the source has text but no tab between a
    /// word and a code.
    Format { line: usize },
}

/// Converts a Rime dictionary to shape-code table entries: each entry line
/// after the header gives a word and a code (the code trimmed and lowercased,
/// lines with an empty word or code skipped), the word's frequency comes from
/// the lexicon's `(word, frequency)` entries, and the entries come out in the
/// table's order (by code, higher frequency first, then by word), each once.
pub fn convert(source: &str, lexicon: &Vec<(String, u32)>) -> (r: Result<(Vec<CodeEntry>, Converted), ConvertError>)
    ensures
        !rime_like(split_on(source@, '\n')) ==> r == Err::<(Vec<CodeEntry>, Converted), ConvertError>(
            ConvertError::NotRime,
        ),
        rime_like(split_on(source@, '\n')) ==> match table_pairs(split_on(source@, '\n')) {
            Err(n) => r == Err::<(Vec<CodeEntry>, Converted), ConvertError>(ConvertError::Format { line: n as usize }),
            Ok(pairs) => r matches Ok((es, counts)) && {
                &&& strictly_ordered(es@)
                &&& keys(es@) == Set::new(|k: EntryKey| exists|i: int| 0 <= i < pairs.len() && entry_key(#[trigger] pairs[i], lexicon@) == k)
                &&& counts.entries == es@.len()
                &&& counts.unknown == count_unknown(es@)
                &&& counts.with_frequency == es@.len() - count_unknown(es@)
            },
        },
{
    let text = chars_of(source);
    let lines = split_chars(&text, '\n');
    let ghost ls = split_on(source@, '\n');
    let n = lines.len();
    // The Rime check and the end of the header.
    let mut rime = false;
    let mut end: Option<usize> = None;
    let mut k: usize = 0;
    while k < n
        invariant
            n == lines@.len(),
            n == ls.len(),
            ls == split_on(source@, '\n'),
            forall|i: int| 0 <= i < n ==> (#[trigger] lines@[i])@ == ls[i],
            k <= n,
            rime <==> exists|i: int| 0 <= i < k && (is_dashes(trimmed(#[trigger] ls[i])) || is_name_line(trimmed(ls[i]))),
            match end {
                Some(e) => header_end(ls, k as int) == Some(e as int) && e < k,
                None => header_end(ls, k as int) is None,
            },
        decreases n - k,
    {
        let t = trim(string_of(&lines[k]).as_str());
        let tl = t.len();
        let dashes = tl == 3 && t[0] == '-' && t[1] == '-' && t[2] == '-';
        let named = tl >= 5 && t[0] == 'n' && t[1] == 'a' && t[2] == 'm' && t[3] == 'e' && t[4] == ':';
        let dots = tl == 3 && t[0] == '.' && t[1] == '.' && t[2] == '.';
        proof {
            assert(t@ == trimmed(ls[k as int]));
            assert(dashes == is_dashes(t@)) by {
                if dashes {
                    assert(t@ =~= seq!['-', '-', '-']);
                }
            }
            assert(dots == is_dots(t@)) by {
                if dots {
                    assert(t@ =~= seq!['.', '.', '.']);
                }
            }
            assert(named == is_name_line(t@)) by {
                if named {
                    assert(t@.subrange(0, 5) =~= seq!['n', 'a', 'm', 'e', ':']);
                }
                if is_name_line(t@) {
                    let h = t@.subrange(0, 5);
                    assert(h[0] == 'n' && h[1] == 'a' && h[2] == 'm' && h[3] == 'e' && h[4] == ':');
                }
            }
        }
        if dashes || named {
            rime = true;
        }
        if end.is_none() && dots {
            end = Some(k);
        }
        k = k + 1;
    }
    if !rime {
        return Err(ConvertError::NotRime);
    }
    let start = match end {
        Some(e) => e + 1,
        None => n,
    };
    let freqs = Frequencies::new(lexicon);
    let mut entries: Vec<CodeEntry> = Vec::new();
    let mut pairs: Ghost<Seq<(Seq<char>, Seq<char>)>> = Ghost(Seq::empty());
    let mut j: usize = start;
    proof {
        match header_end(ls, n as int) {
            Some(e) => assert(start == e + 1),
            None => assert(start == n),
        }
    }
    while j < n
        invariant
            n == lines@.len(),
            n == ls.len(),
            ls == split_on(source@, '\n'),
            forall|i: int| 0 <= i < n ==> (#[trigger] lines@[i])@ == ls[i],
            start <= j <= n,
            rime_like(ls),
            start == match header_end(ls, n as int) {
                Some(e) => e + 1,
                None => n as int,
            },
            freqs.wf(),
            freqs.source() == lexicon@,
            read_lines(ls, start as int, j as int) == Ok::<Seq<(Seq<char>, Seq<char>)>, int>(pairs@),
            entries@.len() == pairs@.len(),
            forall|i: int| 0 <= i < pairs@.len() ==> key_of(#[trigger] entries@[i]) == entry_key(pairs@[i], lexicon@),
        decreases n - j,
    {
        let (bad, pair) = read_line(&lines[j]);
        if bad {
            proof {
                lemma_read_lines_error_stays(ls, start as int, j as int + 1, n as int);
            }
            return Err(ConvertError::Format { line: j + 1 });
        }
        match pair {
            Some((w, c)) => {
                let frequency = match freqs.lookup(&w) {
                    Some(f) => f,
                    None => UNKNOWN_FREQUENCY,
                };
                entries.push(CodeEntry { word: string_of(&w), code: string_of(&c), frequency });
                proof {
                    pairs@ = pairs@.push((w@, c@));
                }
            },
            None => {},
        }
        j = j + 1;
    }
    let ghost unsorted = entries@;
    let sorted = sort(entries);
    let out = dedup_ordered(&sorted);
    proof {
        broadcast use vstd::seq_lib::group_to_multiset_ensures;
        let want = Set::new(|k: EntryKey| exists|i: int| 0 <= i < pairs@.len() && entry_key(#[trigger] pairs@[i], lexicon@) == k);
        assert forall|k: EntryKey| keys(sorted@).contains(k) <==> want.contains(k) by {
            if keys(sorted@).contains(k) {
                let a = choose|a: int| 0 <= a < sorted@.len() && key_of(#[trigger] sorted@[a]) == k;
                assert(sorted@.contains(sorted@[a]));
                assert(sorted@.to_multiset().count(sorted@[a]) > 0);
                assert(unsorted.to_multiset().count(sorted@[a]) > 0);
                assert(unsorted.contains(sorted@[a]));
                let b = choose|b: int| 0 <= b < unsorted.len() && unsorted[b] == sorted@[a];
                assert(entry_key(pairs@[b], lexicon@) == k);
            }
            if want.contains(k) {
                let b = choose|b: int| 0 <= b < pairs@.len() && entry_key(#[trigger] pairs@[b], lexicon@) == k;
                assert(unsorted.contains(unsorted[b]));
                assert(unsorted.to_multiset().count(unsorted[b]) > 0);
                assert(sorted@.to_multiset().count(unsorted[b]) > 0);
                assert(sorted@.contains(unsorted[b]));
                let a = choose|a: int| 0 <= a < sorted@.len() && sorted@[a] == unsorted[b];
                assert(key_of(sorted@[a]) == k);
            }
        }
        assert(keys(sorted@) =~= want);
    }
    let total = out.len();
    let unknown = count_unknown_entries(&out);
    Ok((out, Converted { entries: total, with_frequency: total - unknown, unknown }))
}

proof fn lemma_read_lines_error_stays(lines: Seq<Seq<char>>, start: int, e: int, n: int)
    requires
        start < e <= n,
        read_lines(lines, start, e) == Err::<Seq<(Seq<char>, Seq<char>)>, int>(e),
    ensures
        read_lines(lines, start, n) == Err::<Seq<(Seq<char>, Seq<char>)>, int>(e),
    decreases n - e,
{
    if n > e {
        lemma_read_lines_error_stays(lines, start, e, n - 1);
    }
}

/// How many entries carry the unknown-word frequency.
fn count_unknown_entries(es: &Vec<CodeEntry>) -> (r: usize)
    ensures
        r == count_unknown(es@),
        r <= es@.len(),
{
    let mut count: usize = 0;
    let mut i: usize = 0;
    while i < es.len()
        invariant
            i <= es@.len(),
            count == count_unknown(es@.subrange(0, i as int)),
            count <= i,
        decreases es@.len() - i,
    {
        proof {
            assert(es@.subrange(0, i + 1).drop_last() =~= es@.subrange(0, i as int));
        }
        if es[i].frequency == UNKNOWN_FREQUENCY {
            count = count + 1;
        }
        i = i + 1;
    }
    proof {
        assert(es@.subrange(0, i as int) =~= es@);
    }
    count
}

/// The comment line that opens a written table.
pub const TABLE_HEADER: &'static str = "# 形码码表：词\t编码\t词频。词频由青简词库（assets/lexicon/dict.tsv）按词面回填，不是码表自带的权重\n";

/// One written line: `word\tcode\tfrequency\n`.
pub open spec fn entry_line(e: CodeEntry) -> Seq<char> {
    e.word@ + seq!['\t'] + e.code@ + seq!['\t'] + decimal(e.frequency as nat) + seq!['\n']
}

/// The lines of some entries, one after another.
pub open spec fn entry_lines(es: Seq<CodeEntry>) -> Seq<char>
    decreases es.len(),
{
    if es.len() == 0 {
        Seq::empty()
    } else {
        entry_lines(es.drop_last()) + entry_line(es.last())
    }
}

/// The text of a table file: the header comment, then one line per entry.
pub fn render(entries: &Vec<CodeEntry>) -> (r: String)
    ensures
        r@ == TABLE_HEADER@ + entry_lines(entries@),
{
    let mut out: Vec<char> = Vec::new();
    push_all(&mut out, TABLE_HEADER);
    let mut i: usize = 0;
    while i < entries.len()
        invariant
            i <= entries@.len(),
            out@ == TABLE_HEADER@ + entry_lines(entries@.subrange(0, i as int)),
        decreases entries@.len() - i,
    {
        let e = &entries[i];
        let ghost before = out@;
        push_all(&mut out, e.word.as_str());
        out.push('\t');
        push_all(&mut out, e.code.as_str());
        out.push('\t');
        let digits = decimal_digits(e.frequency as u64);
        let mut d: usize = 0;
        let ghost mid = out@;
        while d < digits.len()
            invariant
                d <= digits@.len(),
                out@ == mid + digits@.subrange(0, d as int),
            decreases digits@.len() - d,
        {
            proof {
                assert(digits@.subrange(0, d + 1) =~= digits@.subrange(0, d as int).push(digits@[d as int]));
            }
            out.push(digits[d]);
            d = d + 1;
        }
        out.push('\n');
        proof {
            assert(digits@.subrange(0, d as int) =~= digits@);
            assert(entries@.subrange(0, i + 1).drop_last() =~= entries@.subrange(0, i as int));
            assert(out@ =~= before + entry_line(entries@[i as int]));
        }
        i = i + 1;
    }
    proof {
        assert(entries@.subrange(0, i as int) =~= entries@);
    }
    string_of(&out)
}

/// The value of a run of decimal digits.
pub open spec fn digits_value(s: Seq<char>) -> int
    decreases s.len(),
{
    if s.len() == 0 {
        0
    } else {
        digits_value(s.drop_last()) * 10 + (s.last() as int - '0' as int)
    }
}

/// All characters are ASCII digits.
pub open spec fn all_digits(s: Seq<char>) -> bool {
    forall|i: int| 0 <= i < s.len() ==> '0' <= #[trigger] s[i] && s[i] <= '9'
}

/// A frequency field: one or more digits whose value fits in a `u32`.
pub open spec fn frequency_field(s: Seq<char>) -> Option<u32> {
    if s.len() > 0 && all_digits(s) && digits_value(s) <= u32::MAX {
        Some(digits_value(s) as u32)
    } else {
        None
    }
}

proof fn lemma_digits_value_grows(s: Seq<char>, i: int)
    requires
        all_digits(s),
        0 <= i <= s.len(),
    ensures
        0 <= digits_value(s.subrange(0, i)) <= digits_value(s),
    decreases s.len() - i,
{
    if i < s.len() {
        lemma_digits_value_grows(s, i + 1);
        assert(s.subrange(0, i + 1).drop_last() =~= s.subrange(0, i));
        lemma_digits_value_nonneg(s.subrange(0, i));
    } else {
        assert(s.subrange(0, i) =~= s);
        lemma_digits_value_nonneg(s);
    }
}

proof fn lemma_digits_value_nonneg(s: Seq<char>)
    requires
        all_digits(s),
    ensures
        digits_value(s) >= 0,
    decreases s.len(),
{
    if s.len() > 0 {
        lemma_digits_value_nonneg(s.drop_last());
    }
}

/// Reads a frequency field.
fn read_frequency(s: &Vec<char>) -> (r: Option<u32>)
    ensures
        r == frequency_field(s@),
{
    if s.len() == 0 {
        return None;
    }
    let mut value: u64 = 0;
    let mut i: usize = 0;
    while i < s.len()
        invariant
            i <= s@.len(),
            all_digits(s@.subrange(0, i as int)),
            value == digits_value(s@.subrange(0, i as int)),
            value <= u32::MAX,
        decreases s@.len() - i,
    {
        let c = s[i];
        proof {
            assert(s@.subrange(0, i + 1).drop_last() =~= s@.subrange(0, i as int));
        }
        if c < '0' || c > '9' {
            proof {
                assert(!all_digits(s@)) by {
                    assert(s@[i as int] == c);
                }
            }
            return None;
        }
        let next = value * 10 + ((c as u32) - ('0' as u32)) as u64;
        if next > 0xffff_ffff {
            proof {
                if all_digits(s@) {
                    lemma_digits_value_grows(s@, i + 1);
                    assert(digits_value(s@.subrange(0, i + 1)) == next);
                }
            }
            return None;
        }
        value = next;
        i = i + 1;
    }
    proof {
        assert(s@.subrange(0, i as int) =~= s@);
    }
    Some(value as u32)
}

/// A lexicon line `word\tpinyin\tfrequency` as a word and its frequency;
/// `None` for a blank or `#` line, a line with fewer than three fields, an
/// empty word, or a frequency that is not a number.
pub open spec fn lexicon_line(line: Seq<char>) -> Option<(Seq<char>, u32)> {
    let t = trimmed(line);
    let f = split_on(t, '\t');
    if blank_or_comment(t) || f.len() < 3 || trimmed(f[0]).len() == 0 {
        None
    } else {
        match frequency_field(trimmed(f[2])) {
            Some(n) => Some((trimmed(f[0]), n)),
            None => None,
        }
    }
}

/// The entries of the first `n` lexicon lines, in order.
pub open spec fn lexicon_entries(lines: Seq<Seq<char>>, n: int) -> Seq<(Seq<char>, u32)>
    decreases n,
{
    if n <= 0 {
        Seq::empty()
    } else {
        match lexicon_line(lines[n - 1]) {
            Some(e) => lexicon_entries(lines, n - 1).push(e),
            None => lexicon_entries(lines, n - 1),
        }
    }
}

/// Reads a lexicon (`word\tpinyin\tfrequency` per line) into its words and
/// frequencies, in file order; lines that do not have that shape are passed
/// over.
pub fn read_lexicon(text: &str) -> (r: Vec<(String, u32)>)
    ensures
        r@.len() == lexicon_entries(split_on(text@, '\n'), split_on(text@, '\n').len() as int).len(),
        forall|i: int| 0 <= i < r@.len() ==> ((#[trigger] r@[i]).0@, r@[i].1) == lexicon_entries(
            split_on(text@, '\n'),
            split_on(text@, '\n').len() as int,
        )[i],
{
    let chars = chars_of(text);
    let lines = split_chars(&chars, '\n');
    let ghost ls = split_on(text@, '\n');
    let mut out: Vec<(String, u32)> = Vec::new();
    let mut k: usize = 0;
    while k < lines.len()
        invariant
            ls == split_on(text@, '\n'),
            lines@.len() == ls.len(),
            forall|i: int| 0 <= i < ls.len() ==> (#[trigger] lines@[i])@ == ls[i],
            k <= ls.len(),
            out@.len() == lexicon_entries(ls, k as int).len(),
            forall|i: int| 0 <= i < out@.len() ==> ((#[trigger] out@[i]).0@, out@[i].1) == lexicon_entries(ls, k as int)[i],
        decreases ls.len() - k,
    {
        let t = trim(string_of(&lines[k]).as_str());
        proof {
            assert(t@ == trimmed(ls[k as int]));
        }
        if t.len() > 0 && t[0] != '#' {
            let fields = split_chars(&t, '\t');
            if fields.len() >= 3 {
                let word = trim(string_of(&fields[0]).as_str());
                let number = trim(string_of(&fields[2]).as_str());
                if word.len() > 0 {
                    match read_frequency(&number) {
                        Some(f) => {
                            out.push((string_of(&word), f));
                        },
                        None => {},
                    }
                }
            }
        }
        k = k + 1;
    }
    out
}

} // verus!
