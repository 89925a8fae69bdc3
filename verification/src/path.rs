//! File names and paths as text: extensions, joining, and the file name of
//! a path, the way `std::path` takes them on Unix (`/` separates).
use vstd::prelude::*;
use crate::text::push_all;

verus! {

/// Where a file name's extension starts: its last `.`, unless nothing comes
/// before that dot (`.profile` has no extension).
pub open spec fn extension_dot(name: Seq<char>) -> Option<int> {
    if exists|i: int| 0 < i < name.len() && name[i] == '.' {
        let k = choose|k: int| 0 < k < name.len() && name[k] == '.' && forall|j: int| k < j < name.len() ==> name[j] != '.';
        Some(k)
    } else {
        None
    }
}

/// The file name's extension, if it has one (`Path::extension`).
pub open spec fn extension_of(name: Seq<char>) -> Option<Seq<char>> {
    match extension_dot(name) {
        Some(k) => Some(name.skip(k + 1)),
        None => None,
    }
}

pub(crate) proof fn lemma_extension_dot(name: Seq<char>)
    ensures
        match extension_dot(name) {
            Some(k) => 0 < k < name.len() && name[k] == '.' && forall|j: int| k < j < name.len() ==> name[j] != '.',
            None => forall|i: int| 0 < i < name.len() ==> name[i] != '.',
        },
{
    if exists|i: int| 0 < i < name.len() && name[i] == '.' {
        let i = choose|i: int| 0 < i < name.len() && name[i] == '.';
        lemma_last_dot_exists(name, i);
    }
}

proof fn lemma_last_dot_exists(name: Seq<char>, i: int)
    requires
        0 < i < name.len(),
        name[i] == '.',
    ensures
        exists|k: int| 0 < k < name.len() && name[k] == '.' && forall|j: int| k < j < name.len() ==> name[j] != '.',
    decreases name.len() - i,
{
    if exists|j: int| i < j < name.len() && name[j] == '.' {
        let j = choose|j: int| i < j < name.len() && name[j] == '.';
        lemma_last_dot_exists(name, j);
    } else {
        assert(forall|j: int| i < j < name.len() ==> name[j] != '.');
    }
}

/// The last `.` after the first character, found from the end.
pub(crate) fn find_extension_dot(name: &Vec<char>) -> (r: Option<usize>)
    ensures
        match r {
            Some(k) => extension_dot(name@) == Some(k as int),
            None => extension_dot(name@) is None,
        },
{
    let mut i: usize = name.len();
    while i > 1
        invariant
            i <= name@.len(),
            forall|j: int| i <= j < name@.len() ==> (#[trigger] name@[j]) != '.',
        decreases i,
    {
        i = i - 1;
        if name[i] == '.' {
            proof {
                lemma_extension_dot(name@);
                let k = extension_dot(name@)->0;
                if k < i {
                    assert(name@[i as int] != '.');
                } else if k > i {
                    assert(name@[k] != '.');
                }
            }
            return Some(i);
        }
    }
    None
}

/// `name` pushed onto `base` (`PathBuf::push`, with `/` as the separator as
/// on Unix; the path functions below take it the same way): an absolute name
/// replaces the path; otherwise a `/` joins the two, unless the path is empty or
/// already ends in one.
pub open spec fn pushed(base: Seq<char>, name: Seq<char>) -> Seq<char> {
    if name.len() > 0 && name[0] == '/' {
        name
    } else if base.len() == 0 || base.last() == '/' {
        base + name
    } else {
        base + seq!['/'] + name
    }
}

/// Where `p.take(end)` ends once the `/` at its end are dropped.
pub open spec fn without_end_slashes(p: Seq<char>, end: int) -> int
    decreases end,
{
    if 0 < end <= p.len() && p[end - 1] == '/' {
        without_end_slashes(p, end - 1)
    } else {
        end
    }
}

/// Where the component that ends at `end` starts: just after the `/` before
/// it, or at the start of the path.
pub open spec fn component_start(p: Seq<char>, end: int) -> int
    decreases end,
{
    if 0 < end <= p.len() && p[end - 1] != '/' {
        component_start(p, end - 1)
    } else {
        end
    }
}

/// Where the file name of `p.take(end)` lies (`Path::file_name`): its last
/// component, where `.` components do not count; there is none when the
/// path is empty, is only `/` or `.`, or ends in `..`.
#[verifier::opaque]
pub open spec fn file_name_span(p: Seq<char>, end: int) -> Option<(int, int)>
    decreases end,
{
    if end <= 0 || end > p.len() {
        None
    } else {
        let e = without_end_slashes(p, end);
        let s = component_start(p, e);
        if e <= 0 || e > end || s < 0 || s >= e {
            None
        } else if p.subrange(s, e) == seq!['.'] {
            file_name_span(p, s)
        } else if p.subrange(s, e) == seq!['.', '.'] {
            None
        } else {
            Some((s, e))
        }
    }
}

/// `Path::with_extension` with a non-empty extension: the path is cut right
/// after the file name's stem (the file name up to its extension's dot, see
/// [`extension_dot`]) and `.` and `ext` follow; a path without a file name
/// stays as it is.
pub open spec fn path_with_extension(p: Seq<char>, ext: Seq<char>) -> Seq<char> {
    match file_name_span(p, p.len() as int) {
        None => p,
        Some((s, e)) => p.take(
            match extension_dot(p.subrange(s, e)) {
                Some(k) => s + k,
                None => e,
            },
        ) + seq!['.'] + ext,
    }
}

proof fn lemma_without_end_slashes(p: Seq<char>, end: int)
    requires
        0 <= end <= p.len(),
    ensures
        0 <= without_end_slashes(p, end) <= end,
        without_end_slashes(p, end) > 0 ==> p[without_end_slashes(p, end) - 1] != '/',
    decreases end,
{
    if 0 < end && p[end - 1] == '/' {
        lemma_without_end_slashes(p, end - 1);
    }
}

proof fn lemma_component_start(p: Seq<char>, end: int)
    requires
        0 <= end <= p.len(),
    ensures
        0 <= component_start(p, end) <= end,
        end > 0 && p[end - 1] != '/' ==> component_start(p, end) < end,
    decreases end,
{
    if 0 < end && p[end - 1] != '/' {
        lemma_component_start(p, end - 1);
    }
}

/// Appends `tail` to `out`.
pub(crate) fn append_chars(out: &mut Vec<char>, tail: &Vec<char>, from: usize, to: usize)
    requires
        from <= to <= tail@.len(),
    ensures
        final(out)@ == old(out)@ + tail@.subrange(from as int, to as int),
{
    let ghost start = out@;
    let mut i: usize = from;
    while i < to
        invariant
            from <= i <= to <= tail@.len(),
            out@ == start + tail@.subrange(from as int, i as int),
        decreases to - i,
    {
        proof {
            assert(tail@.subrange(from as int, i + 1) =~= tail@.subrange(from as int, i as int).push(tail@[i as int]));
        }
        out.push(tail[i]);
        i = i + 1;
    }
}

/// `name` pushed onto `base` (see [`pushed`]).
pub(crate) fn push_path(base: &str, name: &Vec<char>) -> (r: Vec<char>)
    ensures
        r@ == pushed(base@, name@),
{
    let mut out: Vec<char> = Vec::new();
    if name.len() > 0 && name[0] == '/' {
        append_chars(&mut out, name, 0, name.len());
        proof {
            assert(name@.subrange(0, name@.len() as int) =~= name@);
        }
        return out;
    }
    push_all(&mut out, base);
    let n = out.len();
    if n > 0 && out[n - 1] != '/' {
        out.push('/');
    }
    let ghost head = out@;
    append_chars(&mut out, name, 0, name.len());
    proof {
        assert(name@.subrange(0, name@.len() as int) =~= name@);
        if base@.len() > 0 {
            assert(base@.last() == base@[base@.len() - 1]);
        }
    }
    out
}

/// Where the file name of `p` lies (see [`file_name_span`]).
fn find_file_name(p: &Vec<char>) -> (r: Option<(usize, usize)>)
    ensures
        match r {
            Some((s, e)) => file_name_span(p@, p@.len() as int) == Some((s as int, e as int)) && s < e
                && e <= p@.len(),
            None => file_name_span(p@, p@.len() as int) is None,
        },
{
    let mut end: usize = p.len();
    loop
        invariant
            end <= p@.len(),
            file_name_span(p@, p@.len() as int) == file_name_span(p@, end as int),
        decreases end,
    {
        proof {
            reveal(file_name_span);
        }
        if end == 0 {
            return None;
        }
        let mut e: usize = end;
        while e > 0 && p[e - 1] == '/'
            invariant
                e <= end <= p@.len(),
                without_end_slashes(p@, end as int) == without_end_slashes(p@, e as int),
            decreases e,
        {
            e = e - 1;
        }
        let mut s: usize = e;
        while s > 0 && p[s - 1] != '/'
            invariant
                s <= e <= end <= p@.len(),
                component_start(p@, e as int) == component_start(p@, s as int),
            decreases s,
        {
            s = s - 1;
        }
        proof {
            lemma_without_end_slashes(p@, end as int);
            lemma_component_start(p@, e as int);
            assert(without_end_slashes(p@, end as int) == e as int);
            assert(component_start(p@, e as int) == s as int);
        }
        if e == 0 {
            return None;
        }
        if e - s == 1 && p[s] == '.' {
            proof {
                assert(p@.subrange(s as int, e as int) =~= seq!['.']);
            }
            end = s;
        } else if e - s == 2 && p[s] == '.' && p[s + 1] == '.' {
            proof {
                assert(p@.subrange(s as int, e as int) =~= seq!['.', '.']);
                assert(p@.subrange(s as int, e as int) != seq!['.']);
            }
            return None;
        } else {
            proof {
                let seg = p@.subrange(s as int, e as int);
                if seg == seq!['.'] {
                    assert(seg.len() == 1 && seg[0] == '.');
                }
                if seg == seq!['.', '.'] {
                    assert(seg.len() == 2 && seg[0] == '.' && seg[1] == '.');
                }
            }
            return Some((s, e));
        }
    }
}

/// Where the stem of the file name `p[s..e]` ends.
fn stem_end(p: &Vec<char>, s: usize, e: usize) -> (r: usize)
    requires
        s < e <= p@.len(),
    ensures
        r as int == match extension_dot(p@.subrange(s as int, e as int)) {
            Some(k) => s + k,
            None => e as int,
        },
        r <= e,
{
    let mut file: Vec<char> = Vec::new();
    append_chars(&mut file, p, s, e);
    proof {
        assert(file@ =~= p@.subrange(s as int, e as int));
        lemma_extension_dot(file@);
    }
    match find_extension_dot(&file) {
        Some(k) => s + k,
        None => e,
    }
}

/// `p` with the extension `ext` (see [`path_with_extension`]).
pub(crate) fn set_path_extension(p: &Vec<char>, ext: &str) -> (r: Vec<char>)
    ensures
        r@ == path_with_extension(p@, ext@),
{
    let mut out: Vec<char> = Vec::new();
    match find_file_name(p) {
        None => {
            append_chars(&mut out, p, 0, p.len());
            proof {
                assert(p@.subrange(0, p@.len() as int) =~= p@);
            }
        },
        Some((s, e)) => {
            let cut = stem_end(p, s, e);
            append_chars(&mut out, p, 0, cut);
            out.push('.');
            push_all(&mut out, ext);
            proof {
                assert(p@.subrange(0, cut as int) =~= p@.take(cut as int));
            }
        },
    }
    out
}

} // verus!
