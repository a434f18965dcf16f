//! Basic statistics: number of files, lines of code and files per extension.

use vstd::prelude::*;
use super::{SourceFile, ext, ext_of};
use crate::model::{Project, ProjectV, StatsV, ext_counts_view};
use crate::ordered::{bump, bump_count};
use crate::text::{count_lines, line_count, str_eq};

verus! {

/// Extensions counted as code for the lines of code.
pub open spec fn is_code_ext(e: Seq<char>) -> bool {
    e == "cs"@ || e == "java"@ || e == "sql"@ || e == "ts"@ || e == "js"@ || e == "py"@ || e == "go"@
        || e == "rs"@ || e == "kt"@ || e == "xml"@ || e == "yaml"@ || e == "yml"@ || e == "json"@
}

/// The lines of code of one file: its lines when it has a code extension and
/// can be read, 0 otherwise.
pub open spec fn file_loc(f: SourceFile) -> nat {
    if is_code_ext(ext_of(f.path@)) {
        match f.text {
            Some(t) => line_count(t@),
            None => 0,
        }
    } else {
        0
    }
}

pub open spec fn total_loc(files: Seq<SourceFile>) -> nat
    decreases files.len(),
{
    if files.len() == 0 {
        0
    } else {
        total_loc(files.drop_last()) + file_loc(files.last())
    }
}

/// The counts per extension after counting `files` (files without an
/// extension are not counted).
pub open spec fn tally_exts(es: Seq<(Seq<char>, nat)>, files: Seq<SourceFile>) -> Seq<(Seq<char>, nat)>
    decreases files.len(),
{
    if files.len() == 0 {
        es
    } else {
        let r = tally_exts(es, files.drop_last());
        let e = ext_of(files.last().path@);
        if e.len() > 0 {
            bump(r, e, 1)
        } else {
            r
        }
    }
}

pub open spec fn with_stats(p: ProjectV, st: StatsV) -> ProjectV {
    ProjectV { stats: st, ..p }
}

/// The statistics after counting `files` over `st`.
pub open spec fn counted(st: StatsV, files: Seq<SourceFile>) -> StatsV {
    StatsV {
        files: files.len(),
        lines_of_code: st.lines_of_code + total_loc(files),
        by_extension: tally_exts(st.by_extension, files),
    }
}

proof fn lemma_total_loc_mono(files: Seq<SourceFile>, i: int)
    requires
        0 <= i <= files.len(),
    ensures
        total_loc(files.take(i)) <= total_loc(files),
    decreases files.len() - i,
{
    if i < files.len() {
        lemma_total_loc_mono(files, i + 1);
        assert(files.take(i + 1).drop_last() =~= files.take(i));
    } else {
        assert(files.take(i) =~= files);
    }
}

proof fn lemma_bump_bound(es: Seq<(Seq<char>, nat)>, k: Seq<char>, d: nat, b: int)
    requires
        d <= b,
        forall|i: int| 0 <= i < es.len() ==> #[trigger] es[i].1 + d <= b,
    ensures
        forall|i: int| 0 <= i < bump(es, k, d).len() ==> #[trigger] bump(es, k, d)[i].1 <= b,
    decreases es.len(),
{
    if es.len() > 0 && es[0].0 != k && !crate::text::seq_lt(k, es[0].0) {
        lemma_bump_bound(es.drop_first(), k, d, b);
        let r = bump(es, k, d);
        assert forall|i: int| 0 <= i < r.len() implies #[trigger] r[i].1 <= b by {
            if i > 0 {
                assert(r[i] == bump(es.drop_first(), k, d)[i - 1]);
            }
        }
    }
}

/// Fills [`Project::stats`] from the list of files.
pub fn collect(project: &mut Project, files: &Vec<SourceFile>)
    requires
        old(project)@.stats.lines_of_code + total_loc(files@) <= usize::MAX,
        forall|j: int|
            0 <= j < old(project).stats.by_extension@.len()
                ==> #[trigger] old(project).stats.by_extension@[j].1 + files@.len() <= usize::MAX,
    ensures
        final(project)@ == with_stats(old(project)@, counted(old(project)@.stats, files@)),
{
    let ghost start = project@;
    let n = files.len();
    project.stats.files = n;
    for i in 0..n
        invariant
            n == files@.len(),
            start.stats.lines_of_code + total_loc(files@) <= usize::MAX,
            project@ == with_stats(
                start,
                StatsV {
                    files: n as nat,
                    lines_of_code: start.stats.lines_of_code + total_loc(files@.take(i as int)),
                    by_extension: tally_exts(start.stats.by_extension, files@.take(i as int)),
                },
            ),
            forall|j: int|
                0 <= j < project.stats.by_extension@.len()
                    ==> #[trigger] project.stats.by_extension@[j].1 + (n - i) <= usize::MAX,
    {
        let f = &files[i];
        assert(files@.take(i + 1).drop_last() =~= files@.take(i as int));
        assert(files@.take(i + 1).last() == *f);
        let e = ext(f.path.as_str());
        if !e.as_str().is_empty() {
            proof {
                let es = ext_counts_view(project.stats.by_extension@);
                assert forall|j: int| 0 <= j < es.len() implies #[trigger] es[j].1 + 1 <= usize::MAX - (n - i - 1) by {
                    assert(project.stats.by_extension@[j].1 + (n - i) <= usize::MAX);
                }
                lemma_bump_bound(es, e@, 1, usize::MAX - (n - i - 1));
            }
            bump_count(&mut project.stats.by_extension, e.as_str(), 1);
            proof {
                let es2 = ext_counts_view(project.stats.by_extension@);
                assert forall|j: int| 0 <= j < project.stats.by_extension@.len() implies #[trigger] project.stats.by_extension@[j].1 + (n - i - 1) <= usize::MAX by {
                    assert(es2[j].1 == project.stats.by_extension@[j].1);
                }
            }
        }
        if is_code(e.as_str()) {
            match &f.text {
                Some(t) => {
                    proof {
                        lemma_total_loc_mono(files@, i + 1);
                    }
                    let c = count_lines(t.as_str());
                    project.stats.lines_of_code = project.stats.lines_of_code + c;
                },
                None => {},
            }
        }
    }
    assert(files@.take(n as int) =~= files@);
}

fn is_code(e: &str) -> (b: bool)
    ensures
        b == is_code_ext(e@),
{
    str_eq(e, "cs") || str_eq(e, "java") || str_eq(e, "sql") || str_eq(e, "ts") || str_eq(e, "js")
        || str_eq(e, "py") || str_eq(e, "go") || str_eq(e, "rs") || str_eq(e, "kt") || str_eq(
        e,
        "xml",
    ) || str_eq(e, "yaml") || str_eq(e, "yml") || str_eq(e, "json")
}

} // verus!
