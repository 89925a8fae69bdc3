//! Speech models on demand: the catalog of tiers, fetching each file with a
//! checksum, and finding a model that is already installed.
//!
//! Models are not shipped with the installer (a Whisper model runs to hundreds
//! of megabytes and most users never speak to the input method); the settings
//! page downloads a tier when asked.
pub mod tier;
pub mod download;

pub use tier::{Asset, Tier};
pub use download::{AssetFetch, FetchError, FetchEvent, TierFetch};

use vstd::prelude::*;
use crate::order::{chars_lt, compare_chars, lemma_chars_lt_asymmetric, lemma_chars_lt_irreflexive, lemma_chars_lt_total, lemma_chars_lt_transitive};
use crate::text::{chars_of, push_all, same_text, string_of};

verus! {

/// Every entry of `a` not under `name` is also in `b`.
pub open spec fn kept_except(a: Seq<(String, Tier)>, b: Seq<(String, Tier)>, name: Seq<char>) -> bool {
    forall|i: int|
        0 <= i < a.len() && (#[trigger] a[i]).0@ != name ==> exists|k: int| 0 <= k < b.len() && b[k] == a[i]
}

/// Names strictly increase along a listing.
pub open spec fn names_increase(s: Seq<(String, Tier)>) -> bool {
    forall|i: int, j: int| 0 <= i < j < s.len() ==> chars_lt(#[trigger] s[i].0@, #[trigger] s[j].0@)
}

proof fn lemma_replace_keeps(before: Seq<(String, Tier)>, pos: int, name: String, tier: Tier)
    requires
        names_increase(before),
        0 <= pos < before.len(),
        before[pos].0@ == name@,
    ensures
        names_increase(before.update(pos, (name, tier))),
        kept_except(before, before.update(pos, (name, tier)), name@),
        kept_except(before.update(pos, (name, tier)), before, name@),
{
    let s = before.update(pos, (name, tier));
    assert forall|i: int, j: int| 0 <= i < j < s.len() implies chars_lt(#[trigger] s[i].0@, #[trigger] s[j].0@) by {
        assert(chars_lt(before[i].0@, before[j].0@));
    }
    assert forall|i: int| 0 <= i < before.len() && (#[trigger] before[i]).0@ != name@ implies exists|k: int|
        0 <= k < s.len() && s[k] == before[i] by {
        assert(s[i] == before[i]);
    }
    assert forall|k: int| 0 <= k < s.len() && (#[trigger] s[k]).0@ != name@ implies exists|i: int|
        0 <= i < before.len() && before[i] == s[k] by {
        assert(s[k] == before[k]);
    }
}

proof fn lemma_insert_keeps(before: Seq<(String, Tier)>, pos: int, name: String, tier: Tier)
    requires
        names_increase(before),
        0 <= pos <= before.len(),
        forall|i: int| 0 <= i < pos ==> chars_lt(#[trigger] before[i].0@, name@),
        pos < before.len() ==> chars_lt(name@, before[pos].0@),
    ensures
        names_increase(before.insert(pos, (name, tier))),
        kept_except(before, before.insert(pos, (name, tier)), name@),
        kept_except(before.insert(pos, (name, tier)), before, name@),
        forall|i: int| 0 <= i < before.len() ==> (#[trigger] before[i]).0@ != name@,
{
    let s = before.insert(pos, (name, tier));
    assert forall|j: int| pos <= j < before.len() implies chars_lt(name@, #[trigger] before[j].0@) by {
        if j > pos {
            lemma_chars_lt_transitive(name@, before[pos].0@, before[j].0@);
        }
    }
    assert forall|i: int, j: int| 0 <= i < j < s.len() implies chars_lt(#[trigger] s[i].0@, #[trigger] s[j].0@) by {
        if j < pos {
        } else if i < pos && j == pos {
        } else if i < pos {
            assert(s[j] == before[j - 1]);
            lemma_chars_lt_transitive(before[i].0@, name@, before[j - 1].0@);
        } else if i == pos {
            assert(s[j] == before[j - 1]);
        } else {
            assert(s[i] == before[i - 1]);
            assert(s[j] == before[j - 1]);
        }
    }
    assert forall|i: int| 0 <= i < before.len() && (#[trigger] before[i]).0@ != name@ implies exists|k: int|
        0 <= k < s.len() && s[k] == before[i] by {
        if i < pos {
            assert(s[i] == before[i]);
        } else {
            assert(s[i + 1] == before[i]);
        }
    }
    assert forall|k: int| 0 <= k < s.len() && (#[trigger] s[k]).0@ != name@ implies exists|i: int|
        0 <= i < before.len() && before[i] == s[k] by {
        if k < pos {
            assert(s[k] == before[k]);
        } else {
            assert(s[k] == before[k - 1]);
        }
    }
    assert forall|i: int| 0 <= i < before.len() implies (#[trigger] before[i]).0@ != name@ by {
        lemma_chars_lt_irreflexive(name@);
        if i >= pos {
            lemma_chars_lt_asymmetric(name@, before[i].0@);
        }
    }
}

/// The tier listed under a name, if any.
pub open spec fn tier_named(listing: Seq<(String, Tier)>, name: Seq<char>) -> Option<Tier>
    decreases listing.len(),
{
    if listing.len() == 0 {
        None
    } else if listing.last().0@ == name {
        Some(listing.last().1)
    } else {
        tier_named(listing.drop_last(), name)
    }
}

proof fn lemma_tier_named_at(listing: Seq<(String, Tier)>, k: int)
    requires
        names_increase(listing),
        0 <= k < listing.len(),
    ensures
        tier_named(listing, listing[k].0@) == Some(listing[k].1),
    decreases listing.len(),
{
    let n = listing.len() as int;
    if k < n - 1 {
        assert(chars_lt(listing[k].0@, listing[n - 1].0@));
        lemma_chars_lt_irreflexive(listing[k].0@);
        let rest = listing.drop_last();
        assert(names_increase(rest)) by {
            assert forall|i: int, j: int| 0 <= i < j < rest.len() implies chars_lt(#[trigger] rest[i].0@, #[trigger] rest[j].0@) by {
                assert(rest[i] == listing[i] && rest[j] == listing[j]);
            }
        }
        lemma_tier_named_at(rest, k);
        assert(rest[k] == listing[k]);
    }
}

proof fn lemma_absent(listing: Seq<(String, Tier)>, name: Seq<char>)
    requires
        forall|i: int| 0 <= i < listing.len() ==> (#[trigger] listing[i]).0@ != name,
    ensures
        tier_named(listing, name) is None,
    decreases listing.len(),
{
    if listing.len() > 0 {
        let rest = listing.drop_last();
        assert forall|i: int| 0 <= i < rest.len() implies (#[trigger] rest[i]).0@ != name by {
            assert(rest[i] == listing[i]);
        }
        lemma_absent(rest, name);
    }
}

proof fn lemma_others_unchanged(before: Seq<(String, Tier)>, after: Seq<(String, Tier)>, name: Seq<char>, other: Seq<char>)
    requires
        names_increase(before),
        names_increase(after),
        kept_except(before, after, name),
        kept_except(after, before, name),
        other != name,
    ensures
        tier_named(after, other) == tier_named(before, other),
{
    if exists|i: int| 0 <= i < before.len() && (#[trigger] before[i]).0@ == other {
        let i = choose|i: int| 0 <= i < before.len() && (#[trigger] before[i]).0@ == other;
        assert(before[i].0@ != name);
        let k = choose|k: int| 0 <= k < after.len() && after[k] == before[i];
        lemma_tier_named_at(before, i);
        lemma_tier_named_at(after, k);
    } else {
        assert forall|k: int| 0 <= k < after.len() implies (#[trigger] after[k]).0@ != other by {
            if after[k].0@ == other {
                let i = choose|i: int| 0 <= i < before.len() && before[i] == after[k];
                assert(before[i].0@ == other);
            }
        }
        lemma_absent(after, other);
        assert forall|i: int| 0 <= i < before.len() implies (#[trigger] before[i]).0@ != other by {}
        lemma_absent(before, other);
    }
}

/// What a name reads as before and after an insert under it.
proof fn lemma_insert_reads(before: Seq<(String, Tier)>, after: Seq<(String, Tier)>, pos: int, name: String, tier: Tier)
    requires
        names_increase(before),
        names_increase(after),
        kept_except(before, after, name@),
        kept_except(after, before, name@),
        0 <= pos < after.len(),
        after[pos] == (name, tier),
    ensures
        tier_named(after, name@) == Some(tier),
        forall|other: Seq<char>| other != name@ ==> #[trigger] tier_named(after, other) == tier_named(before, other),
{
    lemma_tier_named_at(after, pos);
    assert forall|other: Seq<char>| other != name@ implies #[trigger] tier_named(after, other) == tier_named(before, other) by {
        lemma_others_unchanged(before, after, name@, other);
    }
}

/// The tiers of the download catalog, by name in the order of their names.
pub struct Catalog {
    entries: Vec<(String, Tier)>,
}

impl Catalog {
    /// The tiers with their names, in the order of the names.
    pub closed spec fn listing(&self) -> Seq<(String, Tier)> {
        self.entries@
    }

    /// Names strictly increase, so no name occurs twice.
    pub closed spec fn wf(&self) -> bool {
        names_increase(self.entries@)
    }

    /// The catalog with no tiers.
    pub fn new() -> (r: Catalog)
        ensures
            r.wf(),
            r.listing().len() == 0,
    {
        Catalog { entries: Vec::new() }
    }

    /// Adds a tier under a name; a tier already under that name is replaced
    /// and handed back.
    pub fn insert(&mut self, name: String, tier: Tier) -> (r: Option<Tier>)
        requires
            old(self).wf(),
        ensures
            final(self).wf(),
            // The name is listed, with the new tier.
            exists|k: int|
                0 <= k < final(self).listing().len() && final(self).listing()[k] == (name, tier),
            // Every other tier stays; nothing else comes in.
            kept_except(old(self).listing(), final(self).listing(), name@),
            kept_except(final(self).listing(), old(self).listing(), name@),
            // Reading a name back gives what was written under it; other
            // names read as before.
            tier_named(final(self).listing(), name@) == Some(tier),
            forall|other: Seq<char>|
                other != name@ ==> #[trigger] tier_named(final(self).listing(), other) == tier_named(
                    old(self).listing(),
                    other,
                ),
            r == tier_named(old(self).listing(), name@),
            // What was under the name before comes back.
            match r {
                Some(t) => exists|i: int|
                    0 <= i < old(self).listing().len() && old(self).listing()[i].0@ == name@
                        && old(self).listing()[i].1 == t
                        && final(self).listing().len() == old(self).listing().len(),
                None => (forall|i: int| 0 <= i < old(self).listing().len() ==> old(self).listing()[i].0@ != name@)
                    && final(self).listing().len() == old(self).listing().len() + 1,
            },
    {
        let key = chars_of(name.as_str());
        let n = self.entries.len();
        let mut pos: usize = 0;
        let mut stop = false;
        while !stop && pos < n
            invariant
                n == self.entries@.len(),
                pos <= n,
                self.wf(),
                key@ == name@,
                forall|i: int| 0 <= i < pos ==> chars_lt(#[trigger] self.entries@[i].0@, name@),
                stop ==> pos < n && !chars_lt(self.entries@[pos as int].0@, name@),
            decreases n - pos + (if stop { 0int } else { 1int }),
        {
            let here = chars_of(self.entries[pos].0.as_str());
            if compare_chars(&here, &key) >= 0 {
                stop = true;
            } else {
                pos = pos + 1;
            }
        }
        let ghost before = self.entries@;
        if pos < n {
            let here = chars_of(self.entries[pos].0.as_str());
            if compare_chars(&here, &key) == 0 {
                let old_entry = self.entries.remove(pos);
                self.entries.insert(pos, (name, tier));
                proof {
                    assert(self.entries@ =~= before.update(pos as int, (name, tier)));
                    lemma_replace_keeps(before, pos as int, name, tier);
                    assert(self.listing()[pos as int] == (name, tier));
                    lemma_insert_reads(before, self.entries@, pos as int, name, tier);
                    lemma_tier_named_at(before, pos as int);
                }
                return Some(old_entry.1);
            }
            proof {
                lemma_chars_lt_total(before[pos as int].0@, name@);
            }
        }
        self.entries.insert(pos, (name, tier));
        proof {
            lemma_insert_keeps(before, pos as int, name, tier);
            assert(self.listing()[pos as int] == (name, tier));
            lemma_insert_reads(before, self.entries@, pos as int, name, tier);
            lemma_absent(before, name@);
        }
        None
    }

    /// The tiers come in the order of their names, and no name occurs twice.
    pub proof fn law_tiers_in_name_order(&self)
        requires
            self.wf(),
        ensures
            forall|i: int, j: int|
                0 <= i < j < self.listing().len() ==> chars_lt(
                    #[trigger] self.listing()[i].0@,
                    #[trigger] self.listing()[j].0@,
                ) && self.listing()[i].0@ != self.listing()[j].0@,
    {
        assert forall|i: int, j: int| 0 <= i < j < self.listing().len() implies chars_lt(
            #[trigger] self.listing()[i].0@,
            #[trigger] self.listing()[j].0@,
        ) && self.listing()[i].0@ != self.listing()[j].0@ by {
            lemma_chars_lt_irreflexive(self.listing()[i].0@);
        }
    }

    /// The tier under a name, if there is one.
    pub fn tier(&self, name: &str) -> (r: Option<&Tier>)
        requires
            self.wf(),
        ensures
            match r {
                Some(t) => tier_named(self.listing(), name@) == Some(*t),
                None => tier_named(self.listing(), name@) is None,
            },
            match r {
                Some(t) => exists|i: int|
                    0 <= i < self.listing().len() && self.listing()[i].0@ == name@ && self.listing()[i].1 == *t,
                None => forall|i: int| 0 <= i < self.listing().len() ==> self.listing()[i].0@ != name@,
            },
    {
        let mut i: usize = 0;
        while i < self.entries.len()
            invariant
                self.wf(),
                i <= self.entries@.len(),
                forall|k: int| 0 <= k < i ==> (#[trigger] self.entries@[k]).0@ != name@,
            decreases self.entries@.len() - i,
        {
            if same_text(self.entries[i].0.as_str(), name) {
                proof {
                    assert(self.listing()[i as int].0@ == name@);
                    lemma_tier_named_at(self.entries@, i as int);
                }
                return Some(&self.entries[i].1);
            }
            i = i + 1;
        }
        proof {
            lemma_absent(self.entries@, name@);
        }
        None
    }

    /// All tiers with their names, in the order of the names.
    pub fn tiers(&self) -> (r: &[(String, Tier)])
        ensures
            r@ == self.listing(),
    {
        self.entries.as_slice()
    }
}

} // verus!

verus! {

/// A path below a directory: the two joined by `/`.
pub open spec fn joined(dir: Seq<char>, rest: Seq<char>) -> Seq<char> {
    dir + seq!['/'] + rest
}

/// A file name that ends in `.onnx`.
pub open spec fn is_onnx(name: Seq<char>) -> bool {
    name.len() >= 5 && name.subrange(name.len() - 5, name.len() as int) == seq!['.', 'o', 'n', 'n', 'x']
}

/// A directory looks like a model when at least one of its files is an
/// `.onnx`.
pub open spec fn model_like(files: Seq<String>) -> bool {
    exists|i: int| 0 <= i < files.len() && is_onnx(#[trigger] files[i]@)
}

/// Whether a directory whose files are named `files` looks like a model: at
/// least one of them ends in `.onnx`.
pub fn looks_like_model(files: &Vec<String>) -> (r: bool)
    ensures
        r == model_like(files@),
{
    let mut i: usize = 0;
    while i < files.len()
        invariant
            i <= files@.len(),
            forall|k: int| 0 <= k < i ==> !is_onnx(#[trigger] files@[k]@),
        decreases files@.len() - i,
    {
        let name = chars_of(files[i].as_str());
        let n = name.len();
        if n >= 5 && name[n - 5] == '.' && name[n - 4] == 'o' && name[n - 3] == 'n' && name[n - 2] == 'n'
            && name[n - 1] == 'x' {
            proof {
                assert(files@[i as int]@.subrange(n - 5, n as int) =~= seq!['.', 'o', 'n', 'n', 'x']);
            }
            return true;
        }
        proof {
            if is_onnx(files@[i as int]@) {
                let t = files@[i as int]@.subrange(n - 5, n as int);
                assert(t[0] == '.' && t[1] == 'o' && t[2] == 'n' && t[3] == 'n' && t[4] == 'x');
            }
        }
        i = i + 1;
    }
    false
}

/// The roots where installed models are looked for, in order: `voice` under
/// the user's data directory (when there is one), then `data/voice` under the
/// bundled data.
pub open spec fn model_roots_of(user_dir: Option<Seq<char>>, bundled_root: Seq<char>) -> Seq<Seq<char>> {
    match user_dir {
        Some(dir) => seq![joined(dir, seq!['v', 'o', 'i', 'c', 'e']), joined(bundled_root, seq!['d', 'a', 't', 'a', '/', 'v', 'o', 'i', 'c', 'e'])],
        None => seq![joined(bundled_root, seq!['d', 'a', 't', 'a', '/', 'v', 'o', 'i', 'c', 'e'])],
    }
}

/// `dir/rest`.
pub fn join(dir: &str, rest: &str) -> (r: String)
    ensures
        r@ == joined(dir@, rest@),
{
    let mut out: Vec<char> = Vec::new();
    push_all(&mut out, dir);
    out.push('/');
    push_all(&mut out, rest);
    string_of(&out)
}

/// The roots where installed models are looked for, in order.
pub fn model_roots(user_dir: Option<&str>, bundled_root: &str) -> (r: Vec<String>)
    ensures
        r@.len() == model_roots_of(
            match user_dir {
                Some(d) => Some(d@),
                None => None,
            },
            bundled_root@,
        ).len(),
        forall|i: int|
            0 <= i < r@.len() ==> (#[trigger] r@[i])@ == model_roots_of(
                match user_dir {
                    Some(d) => Some(d@),
                    None => None,
                },
                bundled_root@,
            )[i],
{
    let mut roots: Vec<String> = Vec::new();
    proof {
        reveal_strlit("voice");
        reveal_strlit("data/voice");
    }
    match user_dir {
        Some(dir) => {
            roots.push(join(dir, "voice"));
        },
        None => {},
    }
    roots.push(join(bundled_root, "data/voice"));
    roots
}

/// What the shell found under one root.
pub struct RootSurvey {
    /// The directory it stands for.
    pub root: String,
    /// `root/<wanted>` looks like a model, where `<wanted>` is the tier asked
    /// for, or the catalog's first tier when none was asked for (`false` when
    /// there is neither).
    pub wanted_is_model: bool,
    /// The names of the entries of `root` that look like models.
    pub models: Vec<String>,
}

/// `x` is the first of the names in path order.
pub open spec fn first_in_order(names: Seq<String>, x: Seq<char>) -> bool {
    &&& exists|i: int| 0 <= i < names.len() && (#[trigger] names[i])@ == x
    &&& forall|i: int| 0 <= i < names.len() ==> (#[trigger] names[i])@ == x || chars_lt(x, names[i]@)
}

/// The model directory found under one root, if any.
pub open spec fn found_under(survey: RootSurvey, tier: Seq<char>, first: Option<Seq<char>>) -> Option<Seq<char>> {
    if tier.len() > 0 {
        if survey.wanted_is_model {
            Some(joined(survey.root@, tier))
        } else {
            None
        }
    } else if first is Some && survey.wanted_is_model {
        Some(joined(survey.root@, first->0))
    } else if survey.models@.len() > 0 {
        Some(joined(survey.root@, choose|x: Seq<char>| first_in_order(survey.models@, x)))
    } else {
        None
    }
}

/// The first root, from `from` on, under which a model is found.
pub open spec fn found_from(surveys: Seq<RootSurvey>, from: int, tier: Seq<char>, first: Option<Seq<char>>) -> Option<Seq<char>>
    decreases surveys.len() - from,
{
    if from >= surveys.len() || from < 0 {
        None
    } else {
        match found_under(surveys[from], tier, first) {
            Some(dir) => Some(dir),
            None => found_from(surveys, from + 1, tier, first),
        }
    }
}

/// The first of some names in path order.
fn first_name(names: &Vec<String>) -> (r: String)
    requires
        names@.len() > 0,
    ensures
        first_in_order(names@, r@),
{
    let mut best: usize = 0;
    let mut i: usize = 1;
    while i < names.len()
        invariant
            1 <= i <= names@.len(),
            best < i,
            forall|k: int| 0 <= k < i ==> (#[trigger] names@[k])@ == names@[best as int]@ || chars_lt(
                names@[best as int]@,
                names@[k]@,
            ),
        decreases names@.len() - i,
    {
        let a = chars_of(names[i].as_str());
        let b = chars_of(names[best].as_str());
        if compare_chars(&a, &b) < 0 {
            proof {
                assert forall|k: int| 0 <= k < i + 1 implies (#[trigger] names@[k])@ == names@[i as int]@ || chars_lt(
                    names@[i as int]@,
                    names@[k]@,
                ) by {
                    if k < i {
                        if names@[k]@ != names@[best as int]@ {
                            lemma_chars_lt_transitive(names@[i as int]@, names@[best as int]@, names@[k]@);
                        }
                    }
                }
            }
            best = i;
        } else {
            proof {
                lemma_chars_lt_total(a@, b@);
            }
        }
        i = i + 1;
    }
    names[best].clone()
}

/// Where the installed model for `tier` is: under the roots in order (see
/// [`model_roots`]), `root/<tier>` when a tier is asked for; without one, the
/// catalog's first tier, and failing that the first entry in path order that
/// looks like a model (a model unpacked by hand during development). `None`
/// when nothing is found.
pub fn installed(surveys: &Vec<RootSurvey>, tier: &str, first: Option<&str>) -> (r: Option<String>)
    ensures
        match r {
            Some(dir) => found_from(surveys@, 0, tier@, match first {
                Some(f) => Some(f@),
                None => None,
            }) == Some(dir@),
            None => found_from(surveys@, 0, tier@, match first {
                Some(f) => Some(f@),
                None => None,
            }) is None,
        },
{
    let ghost wanted_first: Option<Seq<char>> = match first {
        Some(f) => Some(f@),
        None => None,
    };
    let tier_chars = chars_of(tier);
    let mut i: usize = surveys.len();
    let mut found: Option<String> = None;
    // Walk from the last root back to the first, so the first root's answer
    // wins.
    while i > 0
        invariant
            i <= surveys@.len(),
            tier_chars@ == tier@,
            wanted_first == match first {
                Some(f) => Some(f@),
                None => None::<Seq<char>>,
            },
            match found {
                Some(dir) => found_from(surveys@, i as int, tier@, wanted_first) == Some(dir@),
                None => found_from(surveys@, i as int, tier@, wanted_first) is None,
            },
        decreases i,
    {
        i = i - 1;
        let survey = &surveys[i];
        let ghost expected = found_under(surveys@[i as int], tier@, wanted_first);
        let here: Option<String> = if tier_chars.len() > 0 {
            if survey.wanted_is_model {
                let d = join(survey.root.as_str(), tier);
                assert(expected == Some(d@));
                Some(d)
            } else {
                None
            }
        } else if first.is_some() && survey.wanted_is_model {
            let f = first.unwrap();
            let d = join(survey.root.as_str(), f);
            assert(wanted_first == Some(f@));
            assert(expected == Some(d@));
            Some(d)
        } else if survey.models.len() > 0 {
            let name = first_name(&survey.models);
            proof {
                let x = choose|x: Seq<char>| first_in_order(survey.models@, x);
                assert(first_in_order(survey.models@, name@));
                assert(first_in_order(survey.models@, x));
                lemma_first_unique(survey.models@, x, name@);
            }
            let d = join(survey.root.as_str(), name.as_str());
            assert(expected == Some(d@));
            Some(d)
        } else {
            None
        };
        proof {
            assert(survey == surveys@[i as int]);
            if here is Some {
                assert(found_under(surveys@[i as int], tier@, wanted_first) == Some(here->0@));
            } else {
                assert(found_under(surveys@[i as int], tier@, wanted_first) is None);
            }
        }
        match here {
            Some(dir) => {
                found = Some(dir);
            },
            None => {},
        }
    }
    found
}

proof fn lemma_first_unique(names: Seq<String>, x: Seq<char>, y: Seq<char>)
    requires
        first_in_order(names, x),
        first_in_order(names, y),
    ensures
        x == y,
{
    let i = choose|i: int| 0 <= i < names.len() && (#[trigger] names[i])@ == x;
    let j = choose|j: int| 0 <= j < names.len() && (#[trigger] names[j])@ == y;
    assert(names[j]@ == x || chars_lt(x, names[j]@));
    assert(names[i]@ == y || chars_lt(y, names[i]@));
    if x != y {
        lemma_chars_lt_asymmetric(x, y);
    }
}

} // verus!
