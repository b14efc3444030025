//! Text helpers: joining parts with a separator, and file paths.

use itertools::Itertools;
use vstd::prelude::*;

verus! {

/// The parts one after another, with `sep` between each two neighbours.
pub open spec fn joined(parts: Seq<Seq<char>>, sep: Seq<char>) -> Seq<char>
    decreases parts.len(),
{
    if parts.len() == 0 {
        Seq::empty()
    } else if parts.len() == 1 {
        parts[0]
    } else {
        joined(parts.drop_last(), sep) + sep + parts.last()
    }
}

/// The character views of a sequence of strings.
pub open spec fn views(parts: Seq<String>) -> Seq<Seq<char>> {
    parts.map_values(|s: String| s@)
}

/// The view of an optional string.
pub open spec fn opt_view(o: Option<String>) -> Option<Seq<char>> {
    match o {
        Some(s) => Some(s@),
        None => None,
    }
}

/// Relies on `itertools::Itertools::join`: the first element, then the
/// separator and the next element for each further one (a `String` displays
/// as itself).
#[verifier::external_body]
pub(crate) fn join_with(parts: &Vec<String>, sep: &str) -> (r: String)
    ensures
        r@ == joined(views(parts@), sep@),
{
    parts.iter().join(sep)
}

/// Whether `s` holds exactly the characters of `lit`.
pub fn text_equals(s: &String, lit: &str) -> (r: bool)
    ensures
        r == (s@ == lit@),
{
    let t = lit.to_owned();
    s.eq(&t)
}

/// Index of the last `/` in `p`, or -1 when there is none.
pub open spec fn last_slash(p: Seq<char>) -> int
    decreases p.len(),
{
    if p.len() == 0 {
        -1
    } else if p.last() == '/' {
        p.len() - 1
    } else {
        last_slash(p.drop_last())
    }
}

/// The directory part of a file path: what stands before the last `/`
/// (`/` itself for a file at the root), or the empty path for a bare name.
pub open spec fn parent_dir(p: Seq<char>) -> Seq<char> {
    let k = last_slash(p);
    if k < 0 {
        Seq::empty()
    } else if k == 0 {
        seq!['/']
    } else {
        p.subrange(0, k)
    }
}

/// `rel` placed under the directory `dir`.
pub open spec fn join_path(dir: Seq<char>, rel: Seq<char>) -> Seq<char> {
    if dir.len() == 0 {
        rel
    } else if dir.last() == '/' {
        dir + rel
    } else {
        dir + seq!['/'] + rel
    }
}

proof fn lemma_last_slash_bounds(p: Seq<char>)
    ensures
        -1 <= last_slash(p) < p.len(),
        last_slash(p) >= 0 ==> p[last_slash(p)] == '/',
    decreases p.len(),
{
    if p.len() > 0 && p.last() != '/' {
        lemma_last_slash_bounds(p.drop_last());
    }
}

/// The directory part of the file path `p`.
pub fn parent_dir_of(p: &str) -> (r: String)
    ensures
        r@ == parent_dir(p@),
{
    let n = p.unicode_len();
    let mut found = false;
    let mut last: usize = 0;
    let mut i: usize = 0;
    while i < n
        invariant
            n == p@.len(),
            i <= n,
            found == (last_slash(p@.subrange(0, i as int)) >= 0),
            found ==> last == last_slash(p@.subrange(0, i as int)),
            found ==> last < i,
        decreases n - i,
    {
        let c = p.get_char(i);
        proof {
            assert(p@.subrange(0, i + 1).drop_last() =~= p@.subrange(0, i as int));
            assert(p@.subrange(0, i + 1).last() == c);
            lemma_last_slash_bounds(p@.subrange(0, i as int));
        }
        if c == '/' {
            found = true;
            last = i;
        }
        i = i + 1;
    }
    proof {
        assert(p@.subrange(0, n as int) =~= p@);
    }
    if !found {
        String::new()
    } else if last == 0 {
        proof {
            reveal_strlit("/");
        }
        "/".to_owned()
    } else {
        p.substring_char(0, last).to_owned()
    }
}

/// `rel` placed under the directory `dir`.
pub fn join_path_of(dir: &str, rel: &str) -> (r: String)
    ensures
        r@ == join_path(dir@, rel@),
{
    let n = dir.unicode_len();
    if n == 0 {
        rel.to_owned()
    } else {
        let mut s = dir.to_owned();
        if dir.get_char(n - 1) != '/' {
            proof {
                reveal_strlit("/");
            }
            s.append("/");
        }
        s.append(rel);
        s
    }
}

} // verus!
