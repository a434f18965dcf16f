//! Git metadata: the remote of the repository, read by running `git`.
//!
//! Running the command is the caller's part; this module decides what the
//! answer changes. Without `git` or outside a repository nothing changes.

use vstd::prelude::*;
use super::{last_index_of, last_index_of_char, lemma_last_index_of};
use crate::model::{Project, ProjectV, StatsV};
use crate::ordered::{bump, bump_count};
use crate::text::{ends_with, has_suffix, opt_view, str_eq, string_of_range, to_chars, trim, trim_seq};

verus! {

/// What follows the last `/` (the whole string when there is none).
pub open spec fn last_segment(s: Seq<char>) -> Seq<char> {
    match last_index_of(s, '/') {
        Some(i) => s.subrange(i + 1, s.len() as int),
        None => s,
    }
}

/// `s.trim_end_matches(p)`: every trailing `p` removed.
pub open spec fn trim_suffix_all(s: Seq<char>, p: Seq<char>) -> Seq<char>
    decreases s.len(),
{
    if p.len() > 0 && has_suffix(s, p) {
        trim_suffix_all(s.subrange(0, s.len() - p.len()), p)
    } else {
        s
    }
}

/// The project after the remote of its repository was read: a non-empty
/// remote registers the key `__git_remote` among the extensions (count left
/// as it is, 0 when new) and names a project still called `progetto` after
/// the last segment of the remote, without `.git`.
pub open spec fn with_remote(p: ProjectV, remote: Option<Seq<char>>) -> ProjectV {
    match remote {
        Some(r) => if r.len() > 0 {
            ProjectV {
                name: if p.name == "progetto"@ {
                    trim_suffix_all(last_segment(r), ".git"@)
                } else {
                    p.name
                },
                stats: StatsV { by_extension: bump(p.stats.by_extension, "__git_remote"@, 0), ..p.stats },
                ..p
            }
        } else {
            p
        },
        None => p,
    }
}

/// What a run of `git` answered: its trimmed output when it succeeded.
pub fn git_output(success: bool, stdout: &str) -> (r: Option<String>)
    ensures
        match r {
            Some(s) => success && s@ == trim_seq(stdout@),
            None => !success,
        },
{
    if success {
        Some(trim(stdout))
    } else {
        None
    }
}

/// `s.trim_end_matches(p)` (see [`trim_suffix_all`]).
pub fn trim_end_matches_str(s: &str, p: &str) -> (r: String)
    ensures
        r@ == trim_suffix_all(s@, p@),
{
    let v = to_chars(s);
    let pv = to_chars(p);
    let mut j = v.len();
    assert(v@.subrange(0, v.len() as int) =~= v@);
    while pv.len() > 0 && pv.len() <= j && ends_with(string_of_range(&v, 0, j).as_str(), p)
        invariant
            j <= v.len(),
            pv@ == p@,
            trim_suffix_all(v@, p@) == trim_suffix_all(v@.subrange(0, j as int), p@),
        decreases j,
    {
        assert(v@.subrange(0, j as int).subrange(0, j - pv.len()) =~= v@.subrange(0, j - pv.len()));
        j -= pv.len();
    }
    proof {
        let t = v@.subrange(0, j as int);
        if p@.len() > 0 && has_suffix(t, p@) {
            assert(pv.len() <= j);
        }
    }
    string_of_range(&v, 0, j)
}

/// Applies the remote of the repository, when the root is one (see
/// [`with_remote`]).
pub fn collect(project: &mut Project, is_repo: bool, remote: Option<String>)
    ensures
        final(project)@ == if is_repo {
            with_remote(old(project)@, opt_view(remote))
        } else {
            old(project)@
        },
{
    if !is_repo {
        return;
    }
    match remote {
        Some(r) => {
            if !r.as_str().is_empty() {
                bump_count(&mut project.stats.by_extension, "__git_remote", 0);
                if str_eq(project.name.as_str(), "progetto") {
                    let v = to_chars(r.as_str());
                    proof {
                        lemma_last_index_of(v@, '/');
                    }
                    let last = match last_index_of_char(&v, '/') {
                        Some(i) => string_of_range(&v, i + 1, v.len()),
                        None => string_of_range(&v, 0, v.len()),
                    };
                    assert(v@.subrange(0, v.len() as int) =~= v@);
                    project.name = trim_end_matches_str(last.as_str(), ".git");
                }
            }
        },
        None => {},
    }
}

} // verus!
