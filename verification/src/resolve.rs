//! The search-path resolver: splitting a `PATH`-style value on `:` into an
//! ordered directory list, forming the candidate path for a command name in
//! each directory, and picking the first candidate that is present. Whether a
//! candidate actually exists and is executable is a filesystem question the
//! surrounding program answers; it hands the answers in as a list of flags.

use vstd::prelude::*;
use vstd::string::*;
use crate::strutil::opt_view;
use crate::strutil::views_of;

verus! {

/// Whether the name contains a path separator, making it an explicit path.
pub open spec fn has_slash(s: Seq<char>) -> bool {
    exists|i: int| 0 <= i < s.len() && s[i] == '/'
}

/// Whether the string contains a path separator.
pub fn contains_slash(s: &str) -> (r: bool)
    ensures
        r == has_slash(s@),
{
    let n = s.unicode_len();
    let mut i: usize = 0;
    while i < n
        invariant
            n == s@.len(),
            i <= n,
            forall|j: int| 0 <= j < i ==> s@[j] != '/',
        decreases n - i,
    {
        if s.get_char(i) == '/' {
            return true;
        }
        i += 1;
    }
    false
}

/// The scan that splits on `:`, keeping empty segments, as `PATH` is read.
pub open spec fn split_colon_from(s: Seq<char>, cur: Seq<char>, out: Seq<Seq<char>>) -> Seq<
    Seq<char>,
>
    decreases s.len(),
{
    if s.len() == 0 {
        out.push(cur)
    } else if s[0] == ':' {
        split_colon_from(s.skip(1), Seq::empty(), out.push(cur))
    } else {
        split_colon_from(s.skip(1), cur.push(s[0]), out)
    }
}

/// The segments of the string between `:` separators, in order; an empty
/// string yields one empty segment.
pub open spec fn spec_split_colon(s: Seq<char>) -> Seq<Seq<char>> {
    split_colon_from(s, Seq::empty(), Seq::empty())
}

/// Splits a `PATH`-style value on `:` into its directory entries.
pub fn split_colon(s: &str) -> (segs: Vec<String>)
    ensures
        views_of(segs@) == spec_split_colon(s@),
{
    let n = s.unicode_len();
    let mut i: usize = 0;
    let mut cur = String::new();
    let mut out: Vec<String> = Vec::new();
    proof {
        assert(s@.skip(0) =~= s@);
        assert(views_of(out@) =~= Seq::<Seq<char>>::empty());
    }
    while i < n
        invariant
            n == s@.len(),
            i <= n,
            spec_split_colon(s@) == split_colon_from(s@.skip(i as int), cur@, views_of(out@)),
        decreases n - i,
    {
        let ghost t = s@.skip(i as int);
        proof {
            assert(t[0] == s@[i as int]);
            assert(t.skip(1) =~= s@.skip(i as int + 1));
        }
        let c = s.get_char(i);
        if c == ':' {
            proof {
                assert(views_of(out@.push(cur)) =~= views_of(out@).push(cur@));
            }
            out.push(cur);
            cur = String::new();
        } else {
            crate::strutil::push_char(&mut cur, c);
        }
        i += 1;
    }
    proof {
        assert(s@.skip(n as int) =~= Seq::<char>::empty());
        assert(views_of(out@.push(cur)) =~= views_of(out@).push(cur@));
    }
    out.push(cur);
    out
}

/// The candidate path for a command name in one directory.
pub open spec fn spec_candidate(dir: Seq<char>, name: Seq<char>) -> Seq<char> {
    dir + "/"@ + name
}

/// The ordered candidate paths for a command name: the name itself when it
/// contains a separator, otherwise one candidate per search-path directory
/// (none when the search path is absent).
pub open spec fn spec_candidates(name: Seq<char>, path_env: Option<Seq<char>>) -> Seq<
    Seq<char>,
> {
    if has_slash(name) {
        seq![name]
    } else {
        match path_env {
            Some(p) => spec_split_colon(p).map_values(|d: Seq<char>| spec_candidate(d, name)),
            None => Seq::empty(),
        }
    }
}

/// Forms the ordered candidate paths for a command name under the given
/// search-path value.
pub fn candidate_paths(name: &str, path_env: &Option<String>) -> (r: Vec<String>)
    ensures
        views_of(r@) == spec_candidates(name@, opt_view(*path_env)),
{
    let mut out: Vec<String> = Vec::new();
    if contains_slash(name) {
        out.push(String::from_str(name));
        proof {
            assert(views_of(out@) =~= seq![name@]);
        }
        return out;
    }
    match path_env {
        None => {
            proof {
                assert(views_of(out@) =~= Seq::<Seq<char>>::empty());
            }
            out
        },
        Some(p) => {
            let dirs = split_colon(p.as_str());
            let ghost segs = spec_split_colon(p@);
            let n = dirs.len();
            let mut i: usize = 0;
            while i < n
                invariant
                    n == dirs@.len(),
                    i <= n,
                    views_of(dirs@) == segs,
                    out@.len() == i,
                    forall|j: int| 0 <= j < i ==> out@[j]@ == spec_candidate(segs[j], name@),
                decreases n - i,
            {
                proof {
                    assert(views_of(dirs@)[i as int] == dirs@[i as int]@);
                }
                let full = dirs[i].clone().concat("/").concat(name);
                out.push(full);
                i += 1;
            }
            proof {
                assert(views_of(out@) =~= segs.map_values(
                    |d: Seq<char>| spec_candidate(d, name@),
                ));
            }
            out
        },
    }
}

/// Resolver order: for a bare command name the candidates follow the
/// search-path directory order exactly, one candidate per directory.
pub proof fn lemma_candidates_in_path_order(name: Seq<char>, p: Seq<char>)
    requires
        !has_slash(name),
    ensures
        spec_candidates(name, Some(p)).len() == spec_split_colon(p).len(),
        forall|i: int|
            0 <= i < spec_split_colon(p).len() ==> spec_candidates(name, Some(p))[i]
                == spec_candidate(spec_split_colon(p)[i], name),
{
}

/// Picks the first candidate whose presence flag is set: the first-match rule
/// of search-path resolution. `present[i]` says whether `candidates[i]` names
/// an existing executable file.
pub fn select_first(candidates: &Vec<String>, present: &Vec<bool>) -> (r: Option<String>)
    requires
        candidates@.len() == present@.len(),
    ensures
        match r {
            Some(p) => exists|i: int|
                0 <= i < present@.len() && present@[i] && p@ == candidates@[i]@ && (forall|j: int|
                    0 <= j < i ==> !present@[j]),
            None => forall|i: int| 0 <= i < present@.len() ==> !present@[i],
        },
{
    let n = candidates.len();
    let mut i: usize = 0;
    while i < n
        invariant
            n == candidates@.len(),
            n == present@.len(),
            i <= n,
            forall|j: int| 0 <= j < i ==> !present@[j],
        decreases n - i,
    {
        if present[i] {
            return Some(candidates[i].clone());
        }
        i += 1;
    }
    None
}

} // verus!
