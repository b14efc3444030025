//! Finding the entry file of a crate from what the user named.

use crate::text::{join_path, join_path_of, text_equals, views};
use vstd::prelude::*;

verus! {

/// No entry file was found under the directory.
#[derive(Clone, Debug, PartialEq, Eq)]
pub struct NoEntryFile {
    pub dir: String,
}

/// Relies on `std::path::Path::exists`: whether anything exists at the path.
/// What is on disk decides, so nothing is promised of the answer.
#[verifier::external_body]
fn path_exists(p: &str) -> (r: bool) {
    std::path::Path::new(p).exists()
}

pub open spec fn rs_suffix() -> Seq<char> {
    seq!['.', 'r', 's']
}

/// The path names a source file directly.
pub open spec fn names_source_file(p: Seq<char>) -> bool {
    p.len() >= 3 && p.subrange(p.len() - 3, p.len() as int) == rs_suffix()
}

/// Where an entry file is looked for under a crate directory, in order.
pub open spec fn entry_candidates(dir: Seq<char>) -> Seq<Seq<char>> {
    seq![
        join_path(dir, seq!['m', 'a', 'i', 'n', '.', 'r', 's']),
        join_path(dir, seq!['l', 'i', 'b', '.', 'r', 's']),
        join_path(dir, seq!['s', 'r', 'c', '/', 'm', 'a', 'i', 'n', '.', 'r', 's']),
        join_path(dir, seq!['s', 'r', 'c', '/', 'l', 'i', 'b', '.', 'r', 's']),
    ]
}

/// The directory to search when the user named one, or the current one.
pub open spec fn search_dir(path: Option<String>) -> Seq<char> {
    match path {
        Some(p) => p@,
        None => Seq::empty(),
    }
}

/// Whether `p` ends in `.rs`.
pub fn is_source_file(p: &String) -> (r: bool)
    ensures
        r == names_source_file(p@),
{
    let n = p.as_str().unicode_len();
    if n < 3 {
        return false;
    }
    let tail = p.as_str().substring_char(n - 3, n).to_owned();
    proof {
        reveal_strlit(".rs");
        assert(".rs"@ =~= rs_suffix());
    }
    text_equals(&tail, ".rs")
}

/// The paths where an entry file is looked for under `dir`, in order.
pub fn entry_candidates_of(dir: &str) -> (r: Vec<String>)
    ensures
        views(r@) == entry_candidates(dir@),
{
    proof {
        reveal_strlit("main.rs");
        reveal_strlit("lib.rs");
        reveal_strlit("src/main.rs");
        reveal_strlit("src/lib.rs");
        assert("main.rs"@ =~= seq!['m', 'a', 'i', 'n', '.', 'r', 's']);
        assert("lib.rs"@ =~= seq!['l', 'i', 'b', '.', 'r', 's']);
        assert("src/main.rs"@ =~= seq!['s', 'r', 'c', '/', 'm', 'a', 'i', 'n', '.', 'r', 's']);
        assert("src/lib.rs"@ =~= seq!['s', 'r', 'c', '/', 'l', 'i', 'b', '.', 'r', 's']);
    }
    let mut r: Vec<String> = Vec::new();
    r.push(join_path_of(dir, "main.rs"));
    r.push(join_path_of(dir, "lib.rs"));
    r.push(join_path_of(dir, "src/main.rs"));
    r.push(join_path_of(dir, "src/lib.rs"));
    assert(views(r@) =~= entry_candidates(dir@));
    r
}

/// The first candidate that is present, if any.
pub fn choose_entry(candidates: &Vec<String>, present: &Vec<bool>) -> (r: Option<String>)
    requires
        candidates@.len() == present@.len(),
    ensures
        match r {
            Some(c) => exists|i: int|
                0 <= i < present@.len() && present@[i] && c@ == candidates@[i]@ && forall|j: int|
                    0 <= j < i ==> !(#[trigger] present@[j]),
            None => forall|i: int| 0 <= i < present@.len() ==> !(#[trigger] present@[i]),
        },
{
    let mut i: usize = 0;
    while i < present.len()
        invariant
            i <= present@.len(),
            candidates@.len() == present@.len(),
            forall|j: int| 0 <= j < i ==> !(#[trigger] present@[j]),
        decreases present.len() - i,
    {
        if present[i] {
            return Some(candidates[i].clone());
        }
        i = i + 1;
    }
    None
}

/// The entry file for `path`: the path itself when it names a `.rs` file;
/// otherwise the first of `main.rs`, `lib.rs`, `src/main.rs`, `src/lib.rs`
/// that exists under it (under the current directory when no path is given).
pub fn find_path(path: Option<String>) -> (r: Result<String, NoEntryFile>)
    ensures
        match path {
            Some(p) if names_source_file(p@) => r == Ok::<String, NoEntryFile>(p),
            _ => match r {
                Ok(c) => entry_candidates(search_dir(path)).contains(c@),
                Err(e) => e.dir@ == search_dir(path),
            },
        },
{
    let dir = match path {
        Some(p) => {
            if is_source_file(&p) {
                return Ok(p);
            }
            p
        },
        None => String::new(),
    };
    let candidates = entry_candidates_of(dir.as_str());
    let mut present: Vec<bool> = Vec::new();
    let mut i: usize = 0;
    while i < candidates.len()
        invariant
            i <= candidates@.len(),
            present@.len() == i,
        decreases candidates.len() - i,
    {
        present.push(path_exists(candidates[i].as_str()));
        i = i + 1;
    }
    match choose_entry(&candidates, &present) {
        Some(c) => {
            proof {
                let i = choose|i: int|
                    0 <= i < present@.len() && present@[i] && c@ == candidates@[i]@ && forall|
                        j: int,
                    | 0 <= j < i ==> !(#[trigger] present@[j]);
                assert(views(candidates@)[i] == c@);
            }
            Ok(c)
        },
        None => Err(NoEntryFile { dir }),
    }
}

} // verus!
