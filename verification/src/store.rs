//! Persistence of projects in SQLite (`<root>/.archmind/store.db`): where the
//! database of a project lives and what a saved snapshot is listed as. The
//! database work itself is the caller's part.

use vstd::prelude::*;
use crate::text::{concat2, lemma_map_push, owned};

verus! {

broadcast use vstd::seq_lib::group_seq_properties;

/// Metadata of a saved snapshot (without the full model).
pub struct SnapshotMeta {
    pub id: i64,
    /// Unix timestamp (seconds) of its creation.
    pub created_at: i64,
    /// Label chosen by the user (e.g. "v1.2", "before the refactor").
    pub label: String,
    /// Name of the project when the snapshot was taken.
    pub name: String,
}

/// `Path::join`: `b` after `a`, with one `/` between them unless `a` is
/// empty or already ends with one (`b` relative).
pub open spec fn join_path(a: Seq<char>, b: Seq<char>) -> Seq<char> {
    if a.len() == 0 {
        b
    } else if a.last() == '/' {
        a + b
    } else {
        a + "/"@ + b
    }
}

/// The database of a project folder: `<root>/.archmind/store.db`.
pub open spec fn db_path_spec(root: Seq<char>) -> Seq<char> {
    join_path(join_path(root, ".archmind"@), "store.db"@)
}

fn join(a: &str, b: &str) -> (r: String)
    ensures
        r@ == join_path(a@, b@),
{
    if a.is_empty() {
        owned(b)
    } else {
        let v = crate::text::to_chars(a);
        if v[v.len() - 1] == '/' {
            concat2(a, b)
        } else {
            let s = concat2(a, "/");
            concat2(s.as_str(), b)
        }
    }
}

/// Path of the database of a project folder (see [`db_path_spec`]).
pub fn db_path(root: &str) -> (r: String)
    ensures
        r@ == db_path_spec(root@),
{
    let a = join(root, ".archmind");
    join(a.as_str(), "store.db")
}

pub struct SnapshotMetaV {
    pub id: i64,
    pub created_at: i64,
    pub label: Seq<char>,
    pub name: Seq<char>,
}

impl View for SnapshotMeta {
    type V = SnapshotMetaV;

    open spec fn view(&self) -> SnapshotMetaV {
        SnapshotMetaV { id: self.id, created_at: self.created_at, label: self.label@, name: self.name@ }
    }
}

pub open spec fn row_meta(r: (i64, i64, String, String)) -> SnapshotMetaV {
    SnapshotMetaV { id: r.0, created_at: r.1, label: r.2@, name: r.3@ }
}

/// The saved snapshots, from the rows `(id, created_at, label, name)` of the
/// store as its query lists them (most recent first).
pub fn list_snapshots(rows: Vec<(i64, i64, String, String)>) -> (r: Vec<SnapshotMeta>)
    ensures
        r@.map_values(|m: SnapshotMeta| m@) == rows@.map_values(|x: (i64, i64, String, String)| row_meta(x)),
{
    let mut out: Vec<SnapshotMeta> = Vec::new();
    for i in 0..rows.len()
        invariant
            out@.map_values(|m: SnapshotMeta| m@) == rows@.take(i as int).map_values(|x: (i64, i64, String, String)| row_meta(x)),
    {
        let ghost before = out@;
        out.push(
            SnapshotMeta {
                id: rows[i].0,
                created_at: rows[i].1,
                label: rows[i].2.clone(),
                name: rows[i].3.clone(),
            },
        );
        proof {
            lemma_map_push(before, |m: SnapshotMeta| m@, out@.last());
        }
        assert(rows@.take(i + 1).map_values(|x: (i64, i64, String, String)| row_meta(x)) =~= rows@.take(i as int).map_values(|x: (i64, i64, String, String)| row_meta(x)).push(row_meta(rows@[i as int])));
    }
    assert(rows@.take(rows.len() as int) =~= rows@);
    out
}

} // verus!
