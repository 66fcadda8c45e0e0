//! Path and colour helpers for presenting locations and intents.
use vstd::prelude::*;

use crate::text::{chars_of, starts_with_str, str_equal};

verus! {

/// Number of colours in the palette.
pub const PALETTE_LEN: usize = 6;

/// The palette colour at position `i` (below `PALETTE_LEN`).
pub open spec fn palette_spec(i: nat) -> Seq<char> {
    if i == 0 {
        "#4a9eff"@
    } else if i == 1 {
        "#3fb950"@
    } else if i == 2 {
        "#d29922"@
    } else if i == 3 {
        "#bc8cff"@
    } else if i == 4 {
        "#f78166"@
    } else {
        "#58a6ff"@
    }
}

/// Colour for machines and drives: the palette cycles with `index`.
pub fn palette_color(index: usize) -> (r: &'static str)
    ensures
        r@ == palette_spec((index % PALETTE_LEN) as nat),
{
    let i = index % PALETTE_LEN;
    if i == 0 {
        "#4a9eff"
    } else if i == 1 {
        "#3fb950"
    } else if i == 2 {
        "#d29922"
    } else if i == 3 {
        "#bc8cff"
    } else if i == 4 {
        "#f78166"
    } else {
        "#58a6ff"
    }
}

/// Colour of an intent's edge for its status tag.
pub open spec fn edge_color_spec(status: Seq<char>) -> Seq<char> {
    if status == "scanning"@ || status == "transferring"@ {
        "#4a9eff"@
    } else if status == "complete"@ {
        "#3fb950"@
    } else if status == "needs_review"@ {
        "#d29922"@
    } else if status == "failed"@ {
        "#f85149"@
    } else {
        "#555"@
    }
}

/// Colour of an intent's edge for its status tag; unknown tags and `idle`
/// get grey.
pub fn edge_color(status: &str) -> (r: &'static str)
    ensures
        r@ == edge_color_spec(status@),
{
    if str_equal(status, "scanning") || str_equal(status, "transferring") {
        "#4a9eff"
    } else if str_equal(status, "complete") {
        "#3fb950"
    } else if str_equal(status, "needs_review") {
        "#d29922"
    } else if str_equal(status, "failed") {
        "#f85149"
    } else {
        "#555"
    }
}

/// `parent` with exactly one trailing `/` added when it has none.
pub open spec fn with_trailing_slash(parent: Seq<char>) -> Seq<char> {
    if parent.len() > 0 && parent.last() == '/' {
        parent
    } else {
        parent + "/"@
    }
}

/// `child` lies strictly inside the directory `parent`: "/a/b/c" is inside
/// "/a/b", while "/a/bc" and "/a/b" itself are not.
pub open spec fn path_contains_spec(parent: Seq<char>, child: Seq<char>) -> bool {
    let p = with_trailing_slash(parent);
    parent != child && p.len() <= child.len() && child.take(p.len() as int) == p
}

/// Whether `child` lies strictly inside the directory `parent`.
pub fn path_contains(parent: &str, child: &str) -> (r: bool)
    ensures
        r == path_contains_spec(parent@, child@),
{
    if str_equal(parent, child) {
        return false;
    }
    let cs = chars_of(parent);
    if cs.len() > 0 && cs[cs.len() - 1] == '/' {
        starts_with_str(child, parent)
    } else {
        let mut p = String::from_str(parent);
        p.append("/");
        starts_with_str(child, p.as_str())
    }
}

/// Number of paths among `all` that contain `path`.
pub open spec fn depth_spec(path: Seq<char>, all: Seq<Seq<char>>) -> nat
    decreases all.len(),
{
    if all.len() == 0 {
        0
    } else if path_contains_spec(all.last(), path) {
        depth_spec(path, all.drop_last()) + 1
    } else {
        depth_spec(path, all.drop_last())
    }
}

/// Nesting depth of `path` among `all_paths`: 0 at top level, 1 inside one
/// other path, and so on.
pub fn compute_depth(path: &str, all_paths: &[&str]) -> (r: usize)
    ensures
        r == depth_spec(path@, all_paths@.map_values(|s: &str| s@)),
{
    let ghost all = all_paths@.map_values(|s: &str| s@);
    let mut n: usize = 0;
    let mut i: usize = 0;
    while i < all_paths.len()
        invariant
            i <= all_paths@.len(),
            all == all_paths@.map_values(|s: &str| s@),
            n == depth_spec(path@, all.take(i as int)),
            n <= i,
        decreases all_paths@.len() - i,
    {
        assert(all.take(i + 1).drop_last() =~= all.take(i as int));
        if path_contains(all_paths[i], path) {
            n = n + 1;
        }
        i = i + 1;
    }
    assert(all.take(i as int) =~= all);
    n
}

/// The non-empty pieces of `s` between `/` separators, in order.
pub open spec fn path_components(s: Seq<char>) -> Seq<Seq<char>>
    decreases s.len(),
{
    if s.len() == 0 {
        Seq::empty()
    } else if s.last() == '/' {
        path_components(s.drop_last())
    } else if s.len() > 1 && s[s.len() - 2] != '/' {
        let p = path_components(s.drop_last());
        p.update(p.len() - 1, p.last().push(s.last()))
    } else {
        path_components(s.drop_last()).push(seq![s.last()])
    }
}

/// `path` itself when it has at most two components, else `.../` followed by
/// its last two components joined by `/`.
pub open spec fn short_path_spec(path: Seq<char>) -> Seq<char> {
    let c = path_components(path);
    if c.len() <= 2 {
        path
    } else {
        ".../"@ + c[c.len() - 2] + "/"@ + c[c.len() - 1]
    }
}

proof fn lemma_components_open(s: Seq<char>)
    requires
        s.len() > 0,
        s.last() != '/',
    ensures
        path_components(s).len() > 0,
    decreases s.len(),
{
    if s.len() > 1 && s[s.len() - 2] != '/' {
        lemma_components_open(s.drop_last());
    }
}

/// Shortens a path for display to its last two components.
pub fn short_path(path: &str) -> (r: String)
    ensures
        r@ == short_path_spec(path@),
{
    let cs = chars_of(path);
    let mut starts: Vec<usize> = Vec::new();
    let mut ends: Vec<usize> = Vec::new();
    let mut i: usize = 0;
    while i < cs.len()
        invariant
            cs@ == path@,
            i <= cs@.len(),
            starts@.len() == ends@.len(),
            starts@.len() == path_components(path@.take(i as int)).len(),
            forall|k: int| 0 <= k < starts@.len() ==> (#[trigger] starts@[k]) <= ends@[k],
            forall|k: int| 0 <= k < ends@.len() ==> (#[trigger] ends@[k]) <= i,
            forall|k: int|
                0 <= k < starts@.len() ==> #[trigger] path_components(path@.take(i as int))[k]
                    == path@.subrange(starts@[k] as int, ends@[k] as int),
            i > 0 && path@[i - 1] != '/' ==> starts@.len() > 0 && ends@.last() == i,
        decreases cs@.len() - i,
    {
        let ghost pre = path@.take(i as int);
        let ghost s0 = starts@;
        let ghost e0 = ends@;
        let ghost next = path@.take(i + 1);
        assert(next.drop_last() =~= pre);
        if cs[i] != '/' {
            if i > 0 && cs[i - 1] != '/' {
                proof {
                    lemma_components_open(pre);
                    assert(next[next.len() - 2] == path@[i - 1]);
                }
                let last = ends.len() - 1;
                proof {
                    let k = last as int;
                    assert(starts@[k] <= ends@[k] <= i);
                    let from = starts@[k] as int;
                    assert(path@.subrange(from, i + 1) =~= path@.subrange(from, i as int).push(path@[i as int]));
                }
                ends.set(last, i + 1);
            } else {
                starts.push(i);
                ends.push(i + 1);
                proof {
                    assert(path@.subrange(i as int, i + 1) =~= seq![path@[i as int]]);
                }
            }
        }
        proof {
            assert forall|k: int| 0 <= k < ends@.len() implies (#[trigger] ends@[k]) <= i + 1 by {
                if k < e0.len() {
                    assert(e0[k] <= i);
                }
            }
        }
        i = i + 1;
    }
    assert(path@.take(i as int) =~= path@);
    let n = starts.len();
    if n <= 2 {
        String::from_str(path)
    } else {
        assert(i == path@.len());
        assert(starts@[n - 2] <= ends@[n - 2]);
        assert(ends@[n - 2] <= i);
        assert(starts@[n - 2] <= ends@[n - 2] <= path@.len());
        assert(starts@[n - 1] <= ends@[n - 1]);
        assert(ends@[n - 1] <= i);
        let mut r = String::from_str(".../");
        r.append(path.substring_char(starts[n - 2], ends[n - 2]));
        r.append("/");
        r.append(path.substring_char(starts[n - 1], ends[n - 1]));
        r
    }
}

} // verus!
