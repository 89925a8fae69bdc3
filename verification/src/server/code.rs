//! Finding the shape-code table: the user's own copy first, the bundled one
//! second. Whether a file exists is the shell's to check; the order is
//! decided here.
use vstd::prelude::*;
use crate::fetch::{join, joined};

verus! {

/// The table under the user's data directory (a table the user swapped in).
pub const USER_TABLE: &'static str = "wubi/wubi86.tsv";

/// The table in the bundled data, under `assets/` like the emoji tables and
/// the levels.
pub const BUNDLED_TABLE: &'static str = "assets/wubi/wubi86.tsv";

/// Where the code table is looked for, in order: under the user's data
/// directory (when there is one), then under the bundled data.
pub open spec fn table_paths(user_dir: Option<Seq<char>>, bundled_root: Seq<char>) -> Seq<Seq<char>> {
    match user_dir {
        Some(dir) => seq![joined(dir, USER_TABLE@), joined(bundled_root, BUNDLED_TABLE@)],
        None => seq![joined(bundled_root, BUNDLED_TABLE@)],
    }
}

/// The first of the paths that exists.
pub open spec fn first_present(paths: Seq<Seq<char>>, present: Seq<bool>) -> Option<Seq<char>>
    decreases paths.len(),
{
    if paths.len() == 0 || present.len() == 0 {
        None
    } else if present[0] {
        Some(paths[0])
    } else {
        first_present(paths.drop_first(), present.drop_first())
    }
}

/// The paths to check for the code table, in order.
pub fn code_table_paths(user_dir: Option<&str>, bundled_root: &str) -> (r: Vec<String>)
    ensures
        r@.len() == table_paths(
            match user_dir {
                Some(d) => Some(d@),
                None => None,
            },
            bundled_root@,
        ).len(),
        forall|i: int|
            0 <= i < r@.len() ==> (#[trigger] r@[i])@ == table_paths(
                match user_dir {
                    Some(d) => Some(d@),
                    None => None,
                },
                bundled_root@,
            )[i],
{
    let mut paths: Vec<String> = Vec::new();
    match user_dir {
        Some(dir) => paths.push(join(dir, USER_TABLE)),
        None => {},
    }
    paths.push(join(bundled_root, BUNDLED_TABLE));
    paths
}

/// The code table to load: the user's copy when it exists, else the bundled
/// one when it exists, else none. `present` says, for each path of
/// [`code_table_paths`] in order, whether it is an existing file.
pub fn find_code_table(user_dir: Option<&str>, bundled_root: &str, present: &Vec<bool>) -> (r: Option<String>)
    requires
        present@.len() == table_paths(
            match user_dir {
                Some(d) => Some(d@),
                None => None,
            },
            bundled_root@,
        ).len(),
    ensures
        match r {
            Some(p) => first_present(table_paths(match user_dir {
                Some(d) => Some(d@),
                None => None,
            }, bundled_root@), present@) == Some(p@),
            None => first_present(table_paths(match user_dir {
                Some(d) => Some(d@),
                None => None,
            }, bundled_root@), present@) is None,
        },
{
    let ghost want = table_paths(
        match user_dir {
            Some(d) => Some(d@),
            None => None,
        },
        bundled_root@,
    );
    let mut paths = code_table_paths(user_dir, bundled_root);
    let n = paths.len();
    let mut i: usize = 0;
    proof {
        assert(want.skip(0) =~= want);
        assert(present@.skip(0) =~= present@);
    }
    while i < n
        invariant
            n == paths@.len(),
            want == table_paths(
                match user_dir {
                    Some(d) => Some(d@),
                    None => None,
                },
                bundled_root@,
            ),
            n == want.len(),
            n == present@.len(),
            i <= n,
            forall|k: int| 0 <= k < n ==> (#[trigger] paths@[k])@ == want[k],
            first_present(want, present@) == first_present(want.skip(i as int), present@.skip(i as int)),
        decreases n - i,
    {
        if present[i] {
            proof {
                assert(want.skip(i as int)[0] == want[i as int]);
                assert(present@.skip(i as int)[0] == present@[i as int]);
                assert(first_present(want.skip(i as int), present@.skip(i as int)) == Some(want[i as int]));
            }
            let found = paths.remove(i);
            return Some(found);
        }
        proof {
            assert(want.skip(i as int).drop_first() =~= want.skip(i + 1));
            assert(present@.skip(i as int).drop_first() =~= present@.skip(i + 1));
        }
        i = i + 1;
    }
    proof {
        assert(want.skip(i as int).len() == 0);
    }
    None
}

} // verus!
