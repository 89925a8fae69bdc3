//! Orders: the lexicographic order of texts (the order of `String`, which for
//! UTF-8 is the order of code points), and a sort over any total preorder.
use vstd::prelude::*;
use crate::text::char_len;

verus! {

broadcast use vstd::seq_lib::group_to_multiset_ensures;

/// `a` comes strictly before `b` in the lexicographic order of code points.
pub open spec fn chars_lt(a: Seq<char>, b: Seq<char>) -> bool
    decreases a.len(),
{
    if a.len() == 0 {
        b.len() > 0
    } else if b.len() == 0 {
        false
    } else if a[0] != b[0] {
        (a[0] as int) < (b[0] as int)
    } else {
        chars_lt(a.drop_first(), b.drop_first())
    }
}

pub proof fn lemma_chars_lt_irreflexive(a: Seq<char>)
    ensures
        !chars_lt(a, a),
    decreases a.len(),
{
    if a.len() > 0 {
        lemma_chars_lt_irreflexive(a.drop_first());
    }
}

pub proof fn lemma_chars_lt_transitive(a: Seq<char>, b: Seq<char>, c: Seq<char>)
    requires
        chars_lt(a, b),
        chars_lt(b, c),
    ensures
        chars_lt(a, c),
    decreases a.len(),
{
    assert(b.len() > 0);
    assert(c.len() > 0);
    if a.len() > 0 {
        let (x, y, z) = (a[0] as int, b[0] as int, c[0] as int);
        if a[0] == b[0] && b[0] == c[0] {
            lemma_chars_lt_transitive(a.drop_first(), b.drop_first(), c.drop_first());
        } else if a[0] == b[0] {
            assert(y < z);
            assert(x < z);
            assert(a[0] != c[0]);
        } else if b[0] == c[0] {
            assert(x < y);
            assert(a[0] != c[0]);
        } else {
            assert(x < y && y < z);
            assert(a[0] != c[0]);
        }
    }
}

pub proof fn lemma_chars_lt_total(a: Seq<char>, b: Seq<char>)
    ensures
        a == b || chars_lt(a, b) || chars_lt(b, a),
    decreases a.len(),
{
    if a.len() > 0 && b.len() > 0 {
        if a[0] == b[0] {
            lemma_chars_lt_total(a.drop_first(), b.drop_first());
            if a.drop_first() =~= b.drop_first() {
                assert(a.len() == b.len());
                assert forall|i: int| 0 <= i < a.len() implies a[i] == b[i] by {
                    if i > 0 {
                        assert(a[i] == a.drop_first()[i - 1]);
                        assert(b[i] == b.drop_first()[i - 1]);
                    }
                }
                assert(a =~= b);
            }
        } else {
            assert((a[0] as int) != (b[0] as int));
        }
    } else if a.len() == 0 && b.len() == 0 {
        assert(a =~= b);
    }
}

pub proof fn lemma_chars_lt_asymmetric(a: Seq<char>, b: Seq<char>)
    requires
        chars_lt(a, b),
    ensures
        !chars_lt(b, a),
    decreases a.len(),
{
    if a.len() > 0 && b.len() > 0 && a[0] == b[0] {
        lemma_chars_lt_asymmetric(a.drop_first(), b.drop_first());
    }
}

/// Compares two texts: negative when `a` comes first, zero when equal,
/// positive when `b` comes first.
pub fn compare_chars(a: &Vec<char>, b: &Vec<char>) -> (r: i8)
    ensures
        (r < 0) == chars_lt(a@, b@),
        (r == 0) == (a@ == b@),
        (r > 0) == chars_lt(b@, a@),
{
    let n = char_len(a);
    let m = char_len(b);
    let mut i: usize = 0;
    proof {
        assert(a@.take(0) =~= b@.take(0));
        assert(a@.skip(0) =~= a@);
        assert(b@.skip(0) =~= b@);
    }
    while i < n && i < m
        invariant
            n == a@.len(),
            m == b@.len(),
            i <= n,
            i <= m,
            a@.take(i as int) == b@.take(i as int),
            chars_lt(a@, b@) == chars_lt(a@.skip(i as int), b@.skip(i as int)),
            chars_lt(b@, a@) == chars_lt(b@.skip(i as int), a@.skip(i as int)),
        decreases n - i,
    {
        let x = a[i];
        let y = b[i];
        if x != y {
            proof {
                assert(a@.skip(i as int)[0] == x);
                assert(b@.skip(i as int)[0] == y);
                if a@ == b@ {
                    assert(a@[i as int] == b@[i as int]);
                }
            }
            if x < y {
                return -1;
            } else {
                return 1;
            }
        }
        proof {
            assert(a@.skip(i as int).drop_first() =~= a@.skip(i + 1));
            assert(b@.skip(i as int).drop_first() =~= b@.skip(i + 1));
            assert(a@.take(i + 1) =~= a@.take(i as int).push(x));
            assert(b@.take(i + 1) =~= b@.take(i as int).push(y));
        }
        i = i + 1;
    }
    proof {
        if n == m {
            assert(a@ =~= a@.take(n as int));
            assert(b@ =~= b@.take(m as int));
        } else if n < m {
            assert(a@.take(n as int) =~= a@);
            assert(a@ != b@);
        } else {
            assert(b@.take(m as int) =~= b@);
            assert(a@ != b@);
        }
    }
    if n < m {
        -1
    } else if n == m {
        0
    } else {
        1
    }
}

/// A total preorder, with its executable comparison.
pub trait TotalOrder: Sized {
    /// `self` may come before `other`.
    spec fn le(&self, other: &Self) -> bool;

    proof fn lemma_total(a: &Self, b: &Self)
        ensures
            a.le(b) || b.le(a),
    ;

    proof fn lemma_transitive(a: &Self, b: &Self, c: &Self)
        requires
            a.le(b),
            b.le(c),
        ensures
            a.le(c),
    ;

    fn precedes(&self, other: &Self) -> (r: bool)
        ensures
            r == self.le(other),
    ;
}

/// Every element may come before every later one.
pub open spec fn sorted_by_order<T: TotalOrder>(s: Seq<T>) -> bool {
    forall|i: int, j: int| 0 <= i < j < s.len() ==> #[trigger] s[i].le(&s[j])
}

/// The elements in reverse order.
pub(crate) fn reversed<T>(v: Vec<T>) -> (r: Vec<T>)
    ensures
        r@ == v@.reverse(),
{
    let mut rest = v;
    let mut out: Vec<T> = Vec::new();
    let ghost whole = rest@;
    while rest.len() > 0
        invariant
            rest@.len() <= whole.len(),
            out@ == whole.subrange(rest@.len() as int, whole.len() as int).reverse(),
            rest@ == whole.subrange(0, rest@.len() as int),
        decreases rest@.len(),
    {
        let ghost n = rest@.len();
        let x = rest.pop().unwrap();
        proof {
            assert(x == whole[n - 1]);
            assert(whole.subrange(n - 1, whole.len() as int).reverse() =~= whole.subrange(
                n as int,
                whole.len() as int,
            ).reverse().push(x));
            assert(rest@ =~= whole.subrange(0, n - 1));
        }
        out.push(x);
    }
    proof {
        assert(whole.subrange(0, whole.len() as int) =~= whole);
    }
    out
}

/// `x` may come before every element of `s`.
pub open spec fn before_all<T: TotalOrder>(x: T, s: Seq<T>) -> bool {
    forall|i: int| 0 <= i < s.len() ==> x.le(&#[trigger] s[i])
}

proof fn lemma_sorted_reverse_last<T: TotalOrder>(r: Seq<T>)
    requires
        sorted_by_order(r.reverse()),
        r.len() > 0,
    ensures
        before_all(r.last(), r.reverse()),
{
    let s = r.reverse();
    assert forall|i: int| 0 <= i < s.len() implies r.last().le(&#[trigger] s[i]) by {
        assert(s[0] == r.last());
        if i > 0 {
        } else {
            T::lemma_total(&s[0], &s[0]);
        }
    }
}

/// What holds while two runs merge: the output so far is in order, the rest
/// of each run (kept reversed, its next element last) is in order, the last
/// output may come before everything left, and no element was lost or added.
pub open spec fn merging<T: TotalOrder>(out: Seq<T>, ra: Seq<T>, rb: Seq<T>, all: vstd::multiset::Multiset<T>) -> bool {
    &&& sorted_by_order(out)
    &&& sorted_by_order(ra.reverse())
    &&& sorted_by_order(rb.reverse())
    &&& out.len() > 0 ==> before_all(out.last(), ra.reverse()) && before_all(out.last(), rb.reverse())
    &&& out.to_multiset().add(ra.to_multiset()).add(rb.to_multiset()) == all
}

proof fn lemma_take_next<T: TotalOrder>(out: Seq<T>, from: Seq<T>, other: Seq<T>)
    requires
        from.len() > 0,
        sorted_by_order(out),
        sorted_by_order(from.reverse()),
        sorted_by_order(other.reverse()),
        out.len() > 0 ==> before_all(out.last(), from.reverse()) && before_all(out.last(), other.reverse()),
        other.len() > 0 ==> from.last().le(&other.last()),
    ensures
        sorted_by_order(out.push(from.last())),
        sorted_by_order(from.drop_last().reverse()),
        before_all(from.last(), from.drop_last().reverse()),
        before_all(from.last(), other.reverse()),
        out.push(from.last()).to_multiset().add(from.drop_last().to_multiset()) =~= out.to_multiset().add(
            from.to_multiset(),
        ),
{
    let x = from.last();
    let rest = from.drop_last();
    lemma_sorted_reverse_last(from);
    assert(from.reverse() =~= seq![x] + rest.reverse());
    assert(rest.reverse() =~= from.reverse().drop_first());
    assert forall|i: int, j: int| 0 <= i < j < rest.reverse().len() implies #[trigger] rest.reverse()[i].le(
        &rest.reverse()[j],
    ) by {
        assert(rest.reverse()[i] == from.reverse()[i + 1]);
        assert(rest.reverse()[j] == from.reverse()[j + 1]);
    }
    assert forall|i: int| 0 <= i < rest.reverse().len() implies x.le(&#[trigger] rest.reverse()[i]) by {
        assert(rest.reverse()[i] == from.reverse()[i + 1]);
    }
    if other.len() > 0 {
        lemma_sorted_reverse_last(other);
        assert forall|i: int| 0 <= i < other.reverse().len() implies x.le(&#[trigger] other.reverse()[i]) by {
            T::lemma_transitive(&x, &other.last(), &other.reverse()[i]);
        }
    }
    let s = out.push(x);
    if out.len() > 0 {
        assert(from.reverse()[0] == x);
        assert(out.last().le(&x));
    }
    assert forall|i: int, j: int| 0 <= i < j < s.len() implies #[trigger] s[i].le(&s[j]) by {
        if j == s.len() - 1 {
            if i < out.len() - 1 {
                T::lemma_transitive(&s[i], &out.last(), &x);
            }
        } else {
            assert(s[i] == out[i] && s[j] == out[j]);
        }
    }
    assert(from =~= rest.push(x));
}

/// Merges two sorted runs into one.
fn merge<T: TotalOrder>(a: Vec<T>, b: Vec<T>) -> (r: Vec<T>)
    requires
        sorted_by_order(a@),
        sorted_by_order(b@),
    ensures
        sorted_by_order(r@),
        r@.to_multiset() == a@.to_multiset().add(b@.to_multiset()),
{
    let ghost all = a@.to_multiset().add(b@.to_multiset());
    let mut ra = reversed(a);
    let mut rb = reversed(b);
    let mut out: Vec<T> = Vec::new();
    proof {
        assert(ra@.reverse() =~= a@);
        assert(rb@.reverse() =~= b@);
        ra@.lemma_reverse_to_multiset();
        rb@.lemma_reverse_to_multiset();
        assert(out@.to_multiset().add(ra@.to_multiset()).add(rb@.to_multiset()) =~= all);
    }
    while ra.len() > 0 || rb.len() > 0
        invariant
            merging(out@, ra@, rb@, all),
        decreases ra@.len() + rb@.len(),
    {
        let take_a = if ra.len() == 0 {
            false
        } else if rb.len() == 0 {
            true
        } else {
            ra[ra.len() - 1].precedes(&rb[rb.len() - 1])
        };
        let ghost old_out = out@;
        let ghost old_ra = ra@;
        let ghost old_rb = rb@;
        if take_a {
            let x = ra.pop().unwrap();
            proof {
                lemma_take_next(old_out, old_ra, old_rb);
                assert(ra@ == old_ra.drop_last());
            }
            out.push(x);
            proof {
                assert(out@.to_multiset().add(ra@.to_multiset()).add(rb@.to_multiset()) =~= old_out.to_multiset().add(
                    old_ra.to_multiset(),
                ).add(old_rb.to_multiset()));
            }
        } else {
            let x = rb.pop().unwrap();
            proof {
                if old_ra.len() > 0 {
                    T::lemma_total(&old_ra.last(), &old_rb.last());
                }
                lemma_take_next(old_out, old_rb, old_ra);
                assert(rb@ == old_rb.drop_last());
            }
            out.push(x);
            proof {
                broadcast use vstd::multiset::group_multiset_axioms;
                assert(out@.to_multiset().add(rb@.to_multiset()) =~= old_out.to_multiset().add(old_rb.to_multiset()));
                let lhs = out@.to_multiset().add(ra@.to_multiset()).add(rb@.to_multiset());
                let rhs = old_out.to_multiset().add(old_ra.to_multiset()).add(old_rb.to_multiset());
                assert forall|v: T| lhs.count(v) == rhs.count(v) by {
                    assert(out@.to_multiset().add(rb@.to_multiset()).count(v) == old_out.to_multiset().add(
                        old_rb.to_multiset(),
                    ).count(v));
                }
                assert(lhs =~= rhs);
            }
        }
    }
    proof {
        assert(ra@.to_multiset() =~= vstd::multiset::Multiset::empty());
        assert(rb@.to_multiset() =~= vstd::multiset::Multiset::empty());
        assert(out@.to_multiset().add(ra@.to_multiset()).add(rb@.to_multiset()) =~= out@.to_multiset());
    }
    out
}

/// Sorts by the order (a merge sort): the result is in order and holds the
/// same elements, each as many times.
pub fn sort<T: TotalOrder>(items: Vec<T>) -> (r: Vec<T>)
    ensures
        sorted_by_order(r@),
        r@.to_multiset() == items@.to_multiset(),
    decreases items@.len(),
{
    let n = items.len();
    if n <= 1 {
        proof {
            assert forall|i: int, j: int| 0 <= i < j < items@.len() implies #[trigger] items@[i].le(&items@[j]) by {
            }
        }
        return items;
    }
    let ghost whole = items@;
    let mut left = items;
    let right = left.split_off(n / 2);
    proof {
        assert(left@ + right@ =~= whole);
        vstd::seq_lib::lemma_multiset_commutative(left@, right@);
    }
    let a = sort(left);
    let b = sort(right);
    merge(a, b)
}

} // verus!
