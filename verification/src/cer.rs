//! Character error rate: `(substitutions + deletions + insertions) / reference
//! length`, counted in characters (a Chinese character counts once, not as its
//! three UTF-8 bytes).
//!
//! Both texts are normalized first: only letters and digits are kept (Chinese
//! characters are letters), lowercased; punctuation and whitespace are dropped.
//! A recognizer adds its own punctuation and casing while reference transcripts
//! are often upper-case without punctuation; counting those would mix "was the
//! speech recognized" with "was it punctuated".
use vstd::prelude::*;
use crate::text::{char_len, chars_of, is_alphanumeric, lowercase, unicode_alphanumeric, unicode_lowercase};

verus! {

/// The normalized form of a text: every alphanumeric character, lowercased,
/// in order; everything else dropped.
pub open spec fn normalized(s: Seq<char>) -> Seq<char>
    decreases s.len(),
{
    if s.len() == 0 {
        Seq::empty()
    } else {
        normalized(s.drop_last()) + (if unicode_alphanumeric(s.last()) {
            unicode_lowercase(s.last())
        } else {
            Seq::empty()
        })
    }
}

pub open spec fn min3(a: nat, b: nat, c: nat) -> nat {
    if a <= b && a <= c {
        a
    } else if b <= c {
        b
    } else {
        c
    }
}

/// Levenshtein distance between two character sequences.
pub open spec fn levenshtein(a: Seq<char>, b: Seq<char>) -> nat
    decreases a.len() + b.len(),
{
    if a.len() == 0 {
        b.len()
    } else if b.len() == 0 {
        a.len()
    } else {
        min3(
            levenshtein(a.drop_last(), b.drop_last()) + (if a.last() == b.last() {
                0nat
            } else {
                1nat
            }),
            levenshtein(a.drop_last(), b) + 1,
            levenshtein(a, b.drop_last()) + 1,
        )
    }
}

/// The distance never exceeds the longer of the two lengths.
pub proof fn lemma_levenshtein_bounded(a: Seq<char>, b: Seq<char>)
    ensures
        levenshtein(a, b) <= if a.len() >= b.len() { a.len() } else { b.len() },
    decreases a.len() + b.len(),
{
    if a.len() > 0 && b.len() > 0 {
        lemma_levenshtein_bounded(a.drop_last(), b.drop_last());
    }
}

/// A text is at distance zero from itself.
pub proof fn lemma_levenshtein_identity(a: Seq<char>)
    ensures
        levenshtein(a, a) == 0,
    decreases a.len(),
{
    if a.len() > 0 {
        lemma_levenshtein_identity(a.drop_last());
    }
}

/// The distance does not depend on which text is the reference.
pub proof fn lemma_levenshtein_symmetric(a: Seq<char>, b: Seq<char>)
    ensures
        levenshtein(a, b) == levenshtein(b, a),
    decreases a.len() + b.len(),
{
    if a.len() > 0 && b.len() > 0 {
        lemma_levenshtein_symmetric(a.drop_last(), b.drop_last());
        lemma_levenshtein_symmetric(a.drop_last(), b);
        lemma_levenshtein_symmetric(a, b.drop_last());
    }
}

/// The distance is at least the difference of the two lengths: every
/// character one text has beyond the other costs an edit.
pub proof fn lemma_levenshtein_length_gap(a: Seq<char>, b: Seq<char>)
    ensures
        levenshtein(a, b) >= a.len() - b.len(),
        levenshtein(a, b) >= b.len() - a.len(),
    decreases a.len() + b.len(),
{
    if a.len() > 0 && b.len() > 0 {
        lemma_levenshtein_length_gap(a.drop_last(), b.drop_last());
        lemma_levenshtein_length_gap(a.drop_last(), b);
        lemma_levenshtein_length_gap(a, b.drop_last());
    }
}

/// Distance zero means the two texts are the same.
pub proof fn lemma_levenshtein_zero_means_equal(a: Seq<char>, b: Seq<char>)
    requires
        levenshtein(a, b) == 0,
    ensures
        a == b,
    decreases a.len() + b.len(),
{
    if a.len() == 0 || b.len() == 0 {
        assert(a =~= b);
    } else {
        // Only the diagonal step can cost nothing.
        assert(levenshtein(a.drop_last(), b.drop_last()) == 0 && a.last() == b.last());
        lemma_levenshtein_zero_means_equal(a.drop_last(), b.drop_last());
        assert(a =~= a.drop_last().push(a.last()));
        assert(b =~= b.drop_last().push(b.last()));
    }
}

/// Keeps the letters and digits of a text, lowercased.
pub fn normalize(text: &str) -> (r: Vec<char>)
    ensures
        r@ == normalized(text@),
{
    let chars = chars_of(text);
    let n = char_len(&chars);
    let mut out: Vec<char> = Vec::new();
    let mut i: usize = 0;
    while i < n
        invariant
            n == chars@.len(),
            chars@ == text@,
            i <= n,
            out@ == normalized(chars@.take(i as int)),
        decreases n - i,
    {
        let c = chars[i];
        proof {
            assert(chars@.take(i + 1).drop_last() =~= chars@.take(i as int));
        }
        if is_alphanumeric(c) {
            let lower = lowercase(c);
            let m = char_len(&lower);
            let mut k: usize = 0;
            let ghost before = out@;
            while k < m
                invariant
                    m == lower@.len(),
                    k <= m,
                    out@ == before + lower@.take(k as int),
                decreases m - k,
            {
                out.push(lower[k]);
                proof {
                    assert(lower@.take(k + 1) =~= lower@.take(k as int).push(lower@[k as int]));
                }
                k = k + 1;
            }
            proof {
                assert(lower@.take(m as int) =~= lower@);
            }
        }
        proof {
            assert(chars@.take(i + 1).last() == c);
        }
        i = i + 1;
    }
    proof {
        assert(chars@.take(n as int) =~= chars@);
    }
    out
}

/// Levenshtein distance by characters, keeping two rolling rows.
pub fn distance(reference: &Vec<char>, hypothesis: &Vec<char>) -> (r: usize)
    ensures
        r == levenshtein(reference@, hypothesis@),
{
    let n = char_len(reference);
    let m = char_len(hypothesis);
    if n == 0 {
        return m;
    }
    if m == 0 {
        return n;
    }
    let ghost a = reference@;
    let ghost b = hypothesis@;
    let mut previous: Vec<usize> = Vec::new();
    let mut j: usize = 0;
    while j <= m
        invariant
            m == b.len(),
            m <= isize::MAX,
            j <= m + 1,
            previous@.len() == j,
            forall|k: int| 0 <= k < j ==> previous@[k] == k,
        decreases m + 1 - j,
    {
        previous.push(j);
        j = j + 1;
    }
    proof {
        assert forall|k: int| 0 <= k <= m implies previous@[k] == levenshtein(
            a.take(0),
            b.take(k),
        ) by {
            assert(a.take(0).len() == 0);
        }
    }
    let mut current: Vec<usize> = vec![0usize; m + 1];
    let mut i: usize = 0;
    while i < n
        invariant
            n == a.len(),
            m == b.len(),
            n <= isize::MAX,
            m <= isize::MAX,
            a == reference@,
            b == hypothesis@,
            i <= n,
            previous@.len() == m + 1,
            current@.len() == m + 1,
            forall|k: int| 0 <= k <= m ==> previous@[k] == levenshtein(a.take(i as int), b.take(k)),
        decreases n - i,
    {
        let expected = reference[i];
        current.set(0, i + 1);
        proof {
            assert(b.take(0).len() == 0);
            assert(a.take(i + 1).len() == i + 1);
        }
        let mut j: usize = 0;
        while j < m
            invariant
                n == a.len(),
                m == b.len(),
                n <= isize::MAX,
                m <= isize::MAX,
                a == reference@,
                b == hypothesis@,
                i < n,
                j <= m,
                expected == a[i as int],
                previous@.len() == m + 1,
                current@.len() == m + 1,
                forall|k: int| 0 <= k <= m ==> previous@[k] == levenshtein(a.take(i as int), b.take(k)),
                forall|k: int| 0 <= k <= j ==> current@[k] == levenshtein(a.take(i + 1), b.take(k)),
            decreases m - j,
        {
            let actual = hypothesis[j];
            proof {
                let x = a.take(i + 1);
                let y = b.take(j + 1);
                assert(x.drop_last() =~= a.take(i as int));
                assert(y.drop_last() =~= b.take(j as int));
                assert(x.last() == expected);
                assert(y.last() == actual);
                lemma_levenshtein_bounded(a.take(i as int), b.take(j as int));
                lemma_levenshtein_bounded(a.take(i as int), b.take(j + 1));
                lemma_levenshtein_bounded(a.take(i + 1), b.take(j as int));
            }
            let cost: usize = if expected == actual { 0 } else { 1 };
            let substitute = previous[j] + cost;
            let delete = previous[j + 1] + 1;
            let insert = current[j] + 1;
            let mut best = substitute;
            if delete < best {
                best = delete;
            }
            if insert < best {
                best = insert;
            }
            current.set(j + 1, best);
            j = j + 1;
        }
        std::mem::swap(&mut previous, &mut current);
        i = i + 1;
    }
    proof {
        assert(a.take(n as int) =~= a);
        assert(b.take(m as int) =~= b);
    }
    previous[m]
}

/// Returns `(edit distance, reference length)` after normalizing both texts.
pub fn cer(reference: &str, hypothesis: &str) -> (r: (usize, usize))
    ensures
        r.0 == levenshtein(normalized(reference@), normalized(hypothesis@)),
        r.1 == normalized(reference@).len(),
{
    let reference = normalize(reference);
    let hypothesis = normalize(hypothesis);
    let length = char_len(&reference);
    (distance(&reference, &hypothesis), length)
}

/// An empty hypothesis costs the whole (normalized) reference.
pub proof fn lemma_empty_hypothesis_costs_everything(reference: Seq<char>)
    ensures
        levenshtein(normalized(reference), normalized(Seq::empty())) == normalized(reference).len(),
{
    assert(normalized(Seq::<char>::empty()) =~= Seq::<char>::empty());
}

/// A hypothesis that normalizes to the reference costs nothing: casing and
/// punctuation never count.
pub proof fn lemma_same_normal_form_costs_nothing(reference: Seq<char>, hypothesis: Seq<char>)
    requires
        normalized(reference) == normalized(hypothesis),
    ensures
        levenshtein(normalized(reference), normalized(hypothesis)) == 0,
{
    lemma_levenshtein_identity(normalized(reference));
}

} // verus!
