//! Character-level helpers shared by the parsers and the error-rate metric.
//!
//! Letters, digits and lowercase come from `char`'s own methods, whose tables
//! are named here rather than restated; whitespace, a short fixed list, is
//! spelled out.
use vstd::prelude::*;

verus! {

/// What `char::is_alphanumeric` answers for a character (Unicode `Alphabetic`
/// or `Numeric`).
pub uninterp spec fn unicode_alphanumeric(c: char) -> bool;

/// The characters that `char::to_lowercase` yields for a character.
pub uninterp spec fn unicode_lowercase(c: char) -> Seq<char>;

/// Whitespace as `char::is_whitespace` defines it, the Unicode `White_Space`
/// property: tab, line feed, vertical tab, form feed, carriage return and
/// space in ASCII; beyond it the next line control (U+0085), the no-break
/// space (U+00A0), the Ogham space mark (U+1680), the spaces from U+2000 to
/// U+200A, the line and paragraph separators (U+2028, U+2029), the narrow
/// no-break space (U+202F), the medium mathematical space (U+205F) and the
/// ideographic space (U+3000).
pub open spec fn is_white(c: char) -> bool {
    let u = c as u32;
    ||| 0x09 <= u <= 0x0D
    ||| u == 0x20
    ||| u == 0x85
    ||| u == 0xA0
    ||| u == 0x1680
    ||| 0x2000 <= u <= 0x200A
    ||| u == 0x2028
    ||| u == 0x2029
    ||| u == 0x202F
    ||| u == 0x205F
    ||| u == 0x3000
}

/// A text with its leading whitespace removed.
pub open spec fn trimmed_start(s: Seq<char>) -> Seq<char>
    decreases s.len(),
{
    if s.len() > 0 && is_white(s[0]) {
        trimmed_start(s.drop_first())
    } else {
        s
    }
}

/// A text with its trailing whitespace removed.
pub open spec fn trimmed_end(s: Seq<char>) -> Seq<char>
    decreases s.len(),
{
    if s.len() > 0 && is_white(s.last()) {
        trimmed_end(s.drop_last())
    } else {
        s
    }
}

/// A text with leading and trailing whitespace removed (`str::trim`).
pub open spec fn trimmed(s: Seq<char>) -> Seq<char> {
    trimmed_end(trimmed_start(s))
}

/// `char::is_alphanumeric`: its answer is the Unicode property named above.
#[verifier::external_body]
pub(crate) fn is_alphanumeric(c: char) -> (r: bool)
    ensures
        r == unicode_alphanumeric(c),
{
    c.is_alphanumeric()
}

/// `char::to_lowercase`, collected: the characters are exactly the ones the
/// iterator yields, in order.
#[verifier::external_body]
pub(crate) fn lowercase(c: char) -> (r: Vec<char>)
    ensures
        r@ == unicode_lowercase(c),
{
    c.to_lowercase().collect()
}

/// Whether a character is whitespace (`char::is_whitespace`, see
/// [`is_white`]).
pub(crate) fn is_whitespace(c: char) -> (r: bool)
    ensures
        r == is_white(c),
{
    let u = c as u32;
    (0x09 <= u && u <= 0x0D) || u == 0x20 || u == 0x85 || u == 0xA0 || u == 0x1680 || (0x2000 <= u && u <= 0x200A)
        || u == 0x2028 || u == 0x2029 || u == 0x202F || u == 0x205F || u == 0x3000
}

/// `str::chars`, collected: a string slice's view is its sequence of
/// characters, and `chars` yields exactly those. Rust never lets a buffer
/// exceed `isize::MAX` bytes, so the count stays below that.
#[verifier::external_body]
pub(crate) fn chars_of(text: &str) -> (r: Vec<char>)
    ensures
        r@ == text@,
        r@.len() <= isize::MAX,
{
    text.chars().collect()
}

/// `Vec::len` of a character buffer. A `Vec` never holds more than
/// `isize::MAX` bytes, and a `char` takes four, so the count stays below that.
#[verifier::external_body]
pub(crate) fn char_len(v: &Vec<char>) -> (r: usize)
    ensures
        r == v@.len(),
        r <= isize::MAX,
{
    v.len()
}

/// `String` built from characters (`Iterator::collect` into a `String`).
#[verifier::external_body]
pub(crate) fn string_of(chars: &Vec<char>) -> (r: String)
    ensures
        r@ == chars@,
{
    chars.iter().collect()
}

/// Two string slices hold the same characters.
pub fn same_text(a: &str, b: &str) -> (r: bool)
    ensures
        r == (a@ == b@),
{
    let x = a.to_owned();
    let y = b.to_owned();
    x == y
}

/// Text without surrounding whitespace, as `str::trim` gives it.
pub fn trim(text: &str) -> (r: Vec<char>)
    ensures
        r@ == trimmed(text@),
{
    let chars = chars_of(text);
    let n = char_len(&chars);
    let mut start: usize = 0;
    proof {
        assert(chars@.subrange(0, n as int) =~= chars@);
    }
    while start < n && is_whitespace(chars[start])
        invariant
            n == chars@.len(),
            start <= n,
            trimmed_start(chars@) == trimmed_start(chars@.subrange(start as int, n as int)),
        decreases n - start,
    {
        proof {
            let s = chars@.subrange(start as int, n as int);
            assert(s.drop_first() =~= chars@.subrange(start + 1, n as int));
        }
        start = start + 1;
    }
    let mut end: usize = n;
    proof {
        let s = chars@.subrange(start as int, n as int);
        assert(trimmed_start(s) == s);
    }
    while end > start && is_whitespace(chars[end - 1])
        invariant
            n == chars@.len(),
            start <= end <= n,
            trimmed_start(chars@) == chars@.subrange(start as int, n as int),
            trimmed_end(chars@.subrange(start as int, n as int)) == trimmed_end(
                chars@.subrange(start as int, end as int),
            ),
        decreases end - start,
    {
        proof {
            let s = chars@.subrange(start as int, end as int);
            assert(s.drop_last() =~= chars@.subrange(start as int, end - 1));
        }
        end = end - 1;
    }
    proof {
        let s = chars@.subrange(start as int, end as int);
        assert(trimmed_end(s) == s);
        assert(chars@ == text@);
    }
    let mut out: Vec<char> = Vec::new();
    let mut k: usize = start;
    while k < end
        invariant
            n == chars@.len(),
            start <= k <= end <= n,
            out@ == chars@.subrange(start as int, k as int),
        decreases end - k,
    {
        out.push(chars[k]);
        proof {
            assert(chars@.subrange(start as int, k + 1) =~= chars@.subrange(start as int, k as int).push(chars@[k as int]));
        }
        k = k + 1;
    }
    out
}

/// A character buffer holds the characters of a string slice.
pub fn same_chars(a: &Vec<char>, b: &str) -> (r: bool)
    ensures
        r == (a@ == b@),
{
    let x = string_of(a);
    let y = b.to_owned();
    x == y
}

/// The decimal digit for a value below ten.
pub open spec fn digit_char(d: nat) -> char {
    if d == 0 { '0' } else if d == 1 { '1' } else if d == 2 { '2' } else if d == 3 { '3' }
    else if d == 4 { '4' } else if d == 5 { '5' } else if d == 6 { '6' } else if d == 7 { '7' }
    else if d == 8 { '8' } else { '9' }
}

/// A number written in decimal, without leading zeros (`0` for zero).
pub open spec fn decimal(n: nat) -> Seq<char>
    decreases n,
{
    if n < 10 {
        seq![digit_char(n)]
    } else {
        decimal(n / 10).push(digit_char(n % 10))
    }
}

fn digit(d: u64) -> (r: char)
    requires
        d < 10,
    ensures
        r == digit_char(d as nat),
{
    if d == 0 { '0' } else if d == 1 { '1' } else if d == 2 { '2' } else if d == 3 { '3' }
    else if d == 4 { '4' } else if d == 5 { '5' } else if d == 6 { '6' } else if d == 7 { '7' }
    else if d == 8 { '8' } else { '9' }
}

/// The decimal digits of a number, as `Display` for integers writes them.
pub fn decimal_digits(n: u64) -> (r: Vec<char>)
    ensures
        r@ == decimal(n as nat),
{
    // Collect the digits from the least significant end, then reverse.
    let mut rev: Vec<char> = Vec::new();
    let mut m: u64 = n;
    let ghost mut tail: Seq<char> = Seq::empty();
    while m >= 10
        invariant
            decimal(n as nat) == decimal(m as nat) + tail,
            rev@ == tail.reverse(),
        decreases m,
    {
        let d = m % 10;
        proof {
            assert(decimal(m as nat) == decimal((m / 10) as nat).push(digit_char(d as nat)));
            assert(decimal((m / 10) as nat) + (seq![digit_char(d as nat)] + tail)
                =~= decimal((m / 10) as nat).push(digit_char(d as nat)) + tail);
            assert((seq![digit_char(d as nat)] + tail).reverse() =~= tail.reverse().push(digit_char(d as nat)));
            tail = seq![digit_char(d as nat)] + tail;
        }
        rev.push(digit(d));
        m = m / 10;
    }
    proof {
        assert((seq![digit_char(m as nat)] + tail).reverse() =~= tail.reverse().push(digit_char(m as nat)));
        assert(decimal(m as nat) + tail =~= seq![digit_char(m as nat)] + tail);
        tail = seq![digit_char(m as nat)] + tail;
    }
    rev.push(digit(m));
    let mut out: Vec<char> = Vec::new();
    let mut k: usize = rev.len();
    while k > 0
        invariant
            k <= rev@.len(),
            rev@ == tail.reverse(),
            out@ == tail.subrange(0, rev@.len() - k),
        decreases k,
    {
        k = k - 1;
        proof {
            assert(tail.subrange(0, rev@.len() - k) =~= tail.subrange(0, rev@.len() - k - 1).push(rev@[k as int]));
        }
        out.push(rev[k]);
    }
    proof {
        assert(tail.subrange(0, rev@.len() as int) =~= tail);
    }
    out
}

/// A character with `A`–`Z` mapped to `a`–`z` (`char::to_ascii_lowercase`).
pub open spec fn ascii_lower(c: char) -> char {
    if 'A' <= c && c <= 'Z' {
        ((c as u32) + 32) as char
    } else {
        c
    }
}

/// A text with ASCII capitals lowered and everything else kept
/// (`str::to_ascii_lowercase`).
pub open spec fn ascii_lowered(s: Seq<char>) -> Seq<char> {
    Seq::new(s.len(), |i: int| ascii_lower(s[i]))
}

/// `str::to_ascii_lowercase`, character by character.
pub fn to_ascii_lowercase(text: &str) -> (r: Vec<char>)
    ensures
        r@ == ascii_lowered(text@),
{
    let chars = chars_of(text);
    let n = char_len(&chars);
    let mut out: Vec<char> = Vec::new();
    let mut i: usize = 0;
    while i < n
        invariant
            n == chars@.len(),
            chars@ == text@,
            i <= n,
            out@ =~= ascii_lowered(chars@).subrange(0, i as int),
        decreases n - i,
    {
        let c = chars[i];
        let l = if 'A' <= c && c <= 'Z' {
            ((c as u8) + 32) as char
        } else {
            c
        };
        out.push(l);
        i = i + 1;
    }
    out
}

/// The pieces of a text between separators (`str::split` with one
/// character): there is always at least one piece, and `n` separators make
/// `n + 1` pieces.
pub open spec fn split_on(s: Seq<char>, sep: char) -> Seq<Seq<char>>
    decreases s.len(),
{
    if s.len() == 0 {
        seq![Seq::<char>::empty()]
    } else {
        let rest = split_on(s.drop_last(), sep);
        if s.last() == sep {
            rest.push(Seq::<char>::empty())
        } else {
            rest.update(rest.len() - 1, rest.last().push(s.last()))
        }
    }
}

pub proof fn lemma_split_on_nonempty(s: Seq<char>, sep: char)
    ensures
        split_on(s, sep).len() >= 1,
    decreases s.len(),
{
    if s.len() > 0 {
        lemma_split_on_nonempty(s.drop_last(), sep);
    }
}

/// Splits a character buffer at every separator.
pub fn split_chars(s: &Vec<char>, sep: char) -> (r: Vec<Vec<char>>)
    ensures
        r@.len() == split_on(s@, sep).len(),
        forall|i: int| 0 <= i < r@.len() ==> (#[trigger] r@[i])@ == split_on(s@, sep)[i],
{
    let mut done: Vec<Vec<char>> = Vec::new();
    let mut cur: Vec<char> = Vec::new();
    let mut i: usize = 0;
    while i < s.len()
        invariant
            i <= s@.len(),
            done@.len() + 1 == split_on(s@.subrange(0, i as int), sep).len(),
            forall|k: int| 0 <= k < done@.len() ==> (#[trigger] done@[k])@ == split_on(s@.subrange(0, i as int), sep)[k],
            cur@ == split_on(s@.subrange(0, i as int), sep).last(),
        decreases s@.len() - i,
    {
        let c = s[i];
        proof {
            assert(s@.subrange(0, i + 1).drop_last() =~= s@.subrange(0, i as int));
            lemma_split_on_nonempty(s@.subrange(0, i as int), sep);
        }
        if c == sep {
            let piece = cur;
            done.push(piece);
            cur = Vec::new();
        } else {
            cur.push(c);
        }
        i = i + 1;
    }
    proof {
        assert(s@.subrange(0, i as int) =~= s@);
    }
    done.push(cur);
    done
}

/// Appends the characters of a text.
pub fn push_all(out: &mut Vec<char>, text: &str)
    ensures
        final(out)@ == old(out)@ + text@,
{
    let chars = chars_of(text);
    let mut i: usize = 0;
    let ghost start = out@;
    while i < chars.len()
        invariant
            i <= chars@.len(),
            chars@ == text@,
            out@ == start + chars@.subrange(0, i as int),
        decreases chars@.len() - i,
    {
        proof {
            assert(chars@.subrange(0, i + 1) =~= chars@.subrange(0, i as int).push(chars@[i as int]));
        }
        out.push(chars[i]);
        i = i + 1;
    }
    proof {
        assert(chars@.subrange(0, i as int) =~= chars@);
    }
}

} // verus!
