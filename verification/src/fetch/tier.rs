//! A tier of speech models: what the user is shown, and the files to fetch.
use vstd::prelude::*;
use crate::text::{decimal, decimal_digits, string_of};

verus! {

/// One file to download, as the catalog lists it.
#[derive(Debug, Clone)]
pub struct Asset {
    /// The file name inside the model directory (the recognizer tells model
    /// families apart by file name, so it cannot be changed).
    pub name: String,
    /// Where to download it from.
    pub url: String,
    /// SHA-256 of the file in hexadecimal: a download that does not match it
    /// has failed.
    pub sha256: String,
    /// Size in bytes. Only used for overall progress and the size shown to the
    /// user, never checked.
    pub size: u64,
}

/// One tier of models ("standard", "compact" and the like), as the settings
/// page lists them.
#[derive(Debug, Clone)]
pub struct Tier {
    /// The name shown.
    pub label: String,
    /// A one-line note: size and when to pick it.
    pub note: String,
    /// The files this tier downloads.
    pub files: Vec<Asset>,
}

/// The sum of the declared sizes.
pub open spec fn sizes_sum(files: Seq<Asset>) -> nat
    decreases files.len(),
{
    if files.len() == 0 {
        0
    } else {
        sizes_sum(files.drop_last()) + files.last().size as nat
    }
}

/// Bytes in a mebibyte.
pub const MIB: u64 = 1048576;

/// A byte count in mebibytes, rounded to the nearest whole number with ties
/// to the even neighbour (how `{:.0}` rounds).
pub open spec fn mib_rounded(total: nat) -> nat {
    let q = total / 1048576;
    let r = total % 1048576;
    if r > 524288 || (r == 524288 && q % 2 == 1) {
        q + 1
    } else {
        q
    }
}

/// Two to the power `n`.
pub open spec fn two_to(n: nat) -> nat
    decreases n,
{
    if n == 0 {
        1
    } else {
        2 * two_to((n - 1) as nat)
    }
}

/// How many binary digits a number has (none for zero).
pub open spec fn bit_length(t: nat) -> nat
    decreases t,
{
    if t == 0 {
        0
    } else {
        1 + bit_length(t / 2)
    }
}

/// A byte count as a double-precision float holds it: exact up to 53 binary
/// digits; beyond, rounded to 53 significant digits, to the nearest with ties
/// to the even neighbour.
pub open spec fn as_double(t: nat) -> nat {
    let b = bit_length(t);
    if b <= 53 {
        t
    } else {
        let p = two_to((b - 53) as nat);
        let q = t / p;
        let r = t % p;
        if r * 2 > p || (r * 2 == p && q % 2 == 1) {
            (q + 1) * p
        } else {
            q * p
        }
    }
}

/// The size shown for a byte count: `约 <MB> MB`, the count converted to a
/// double and shown in mebibytes with no decimals.
pub open spec fn size_label(total: nat) -> Seq<char> {
    seq!['约', ' '] + decimal(mib_rounded(as_double(total))) + seq![' ', 'M', 'B']
}

proof fn lemma_two_to_positive(n: nat)
    ensures
        two_to(n) >= 1,
    decreases n,
{
    if n > 0 {
        lemma_two_to_positive((n - 1) as nat);
    }
}

proof fn lemma_two_to_grows(a: nat, b: nat)
    requires
        a <= b,
    ensures
        two_to(a) <= two_to(b),
    decreases b,
{
    if a < b {
        lemma_two_to_grows(a, (b - 1) as nat);
        lemma_two_to_positive((b - 1) as nat);
    }
}

proof fn lemma_bit_length_below(t: nat, k: nat)
    requires
        t < two_to(k),
    ensures
        bit_length(t) <= k,
    decreases k,
{
    if t > 0 {
        if k == 0 {
        } else {
            lemma_bit_length_below(t / 2, (k - 1) as nat);
        }
    }
}

/// The mebibytes shown for a byte count (see [`size_label`]).
fn shown_mebibytes(t: u64) -> (r: u64)
    ensures
        r == mib_rounded(as_double(t as nat)),
{
    // The number of binary digits.
    let mut m: u64 = t;
    let mut b: u64 = 0;
    proof {
        reveal_with_fuel(two_to, 65);
        assert(two_to(64) == 0x1_0000_0000_0000_0000);
    }
    while m > 0
        invariant
            bit_length(t as nat) == b + bit_length(m as nat),
            b <= 64,
            m < two_to((64 - b) as nat),
        decreases m,
    {
        proof {
            assert(two_to((64 - b) as nat) == 2 * two_to((64 - b - 1) as nat));
        }
        m = m / 2;
        b = b + 1;
    }
    proof {
        reveal_with_fuel(two_to, 65);
        assert(two_to(64) == 0x1_0000_0000_0000_0000);
        lemma_bit_length_below(t as nat, 64);
    }
    let value: u128 = if b <= 53 {
        t as u128
    } else {
        let s = b - 53;
        let mut p: u64 = 1;
        let mut i: u64 = 0;
        while i < s
            invariant
                i <= s,
                s <= 11,
                p == two_to(i as nat),
                p <= 2048,
            decreases s - i,
        {
            proof {
                lemma_two_to_grows((i + 1) as nat, 11);
                reveal_with_fuel(two_to, 12);
            }
            p = p * 2;
            i = i + 1;
        }
        proof {
            lemma_two_to_positive(s as nat);
        }
        let q = t / p;
        let r = t % p;
        proof {
            vstd::arithmetic::div_mod::lemma_fundamental_div_mod(t as int, p as int);
            assert(q * p <= t) by (nonlinear_arith)
                requires
                    t == p * q + r,
                    r >= 0,
            ;
            assert((q + 1) * p == q * p + p) by (nonlinear_arith);
        }
        if r * 2 > p || (r * 2 == p && q % 2 == 1) {
            (q as u128 + 1) * (p as u128)
        } else {
            (q as u128) * (p as u128)
        }
    };
    proof {
        assert(value == as_double(t as nat));
        assert(value <= 0x1_0000_0000_0000_0800);
    }
    let whole = value / 1048576;
    let rem = value % 1048576;
    let mib = if rem > 524288 || (rem == 524288 && whole % 2 == 1) {
        whole + 1
    } else {
        whole
    };
    mib as u64
}

proof fn lemma_sizes_sum_prefix(files: Seq<Asset>, i: int)
    requires
        0 <= i < files.len(),
    ensures
        sizes_sum(files.subrange(0, i + 1)) == sizes_sum(files.subrange(0, i)) + files[i].size,
{
    assert(files.subrange(0, i + 1).drop_last() =~= files.subrange(0, i));
}

proof fn lemma_sizes_sum_monotone(files: Seq<Asset>, i: int, j: int)
    requires
        0 <= i <= j <= files.len(),
    ensures
        sizes_sum(files.subrange(0, i)) <= sizes_sum(files.subrange(0, j)),
    decreases j - i,
{
    if i < j {
        lemma_sizes_sum_prefix(files, j - 1);
        lemma_sizes_sum_monotone(files, i, j - 1);
    }
}

impl Tier {
    /// The total bytes this tier downloads. The declared sizes must add up to
    /// something a `u64` holds (the sum would overflow otherwise).
    pub fn total_bytes(&self) -> (r: u64)
        requires
            sizes_sum(self.files@) <= u64::MAX,
        ensures
            r == sizes_sum(self.files@),
    {
        let mut sum: u64 = 0;
        let mut i: usize = 0;
        proof {
            assert(self.files@.subrange(0, 0) =~= Seq::<Asset>::empty());
        }
        while i < self.files.len()
            invariant
                i <= self.files@.len(),
                sum == sizes_sum(self.files@.subrange(0, i as int)),
                sizes_sum(self.files@) <= u64::MAX,
            decreases self.files@.len() - i,
        {
            proof {
                lemma_sizes_sum_prefix(self.files@, i as int);
                lemma_sizes_sum_monotone(self.files@, i + 1, self.files@.len() as int);
                assert(self.files@.subrange(0, self.files@.len() as int) =~= self.files@);
            }
            sum = sum + self.files[i].size;
            i = i + 1;
        }
        proof {
            assert(self.files@.subrange(0, i as int) =~= self.files@);
        }
        sum
    }

    /// The size shown in the settings page, such as `约 210 MB`: the total in
    /// mebibytes rounded to a whole number (the total goes through a
    /// double-precision float first, see [`as_double`]).
    pub fn size_text(&self) -> (r: String)
        requires
            sizes_sum(self.files@) <= u64::MAX,
        ensures
            r@ == size_label(sizes_sum(self.files@)),
    {
        let total = self.total_bytes();
        let mib = shown_mebibytes(total);
        let mut out: Vec<char> = Vec::new();
        out.push('约');
        out.push(' ');
        let digits = decimal_digits(mib);
        let mut i: usize = 0;
        while i < digits.len()
            invariant
                i <= digits@.len(),
                out@ == seq!['约', ' '] + digits@.subrange(0, i as int),
            decreases digits@.len() - i,
        {
            proof {
                assert(digits@.subrange(0, i + 1) =~= digits@.subrange(0, i as int).push(digits@[i as int]));
            }
            out.push(digits[i]);
            i = i + 1;
        }
        out.push(' ');
        out.push('M');
        out.push('B');
        proof {
            assert(digits@.subrange(0, digits@.len() as int) =~= digits@);
            assert(out@ =~= size_label(total as nat));
        }
        string_of(&out)
    }
}

} // verus!
