//! What holds of the library as a whole, across calls and for every input.

use vstd::prelude::*;
use crate::analyzers::SourceFile;
use crate::analyzers::database::line_parts;
use crate::diagrams::mermaid::er_diagram;
use crate::docs::markdown::column_row;
use crate::evolution::{entity_of, last_item, item_ids, dependency_item};
use crate::model::{ColumnV, DependencyV, TableV, ForeignKeyV};
use crate::search::{normal_query, HitV};
use crate::text::{has_prefix, lowercase_of, occurs_at};
use crate::analyzers::treesitter::{TypeV, call_graph, callee_pair, callee_pairs};
use crate::analyzers::code::{has_id, push_all_unique, push_unique_spec};
use crate::analyzers::stats::tally_exts;
use crate::db::{ColRow, assembled_keys};
use crate::diagrams::clean;
use crate::diagrams::mermaid::mermaid_id;
use crate::docs::markdown::{is_current_spec, markdown_spec};
use crate::evolution::{added_keys, modified_keys, removed_keys, impacted_keys, entity_items, component_item, service_item, entity_keys, changed_in, not_in};
use crate::model::{ComponentV, ProjectV, RelationKind, ServiceV};
use crate::ordered::{ins_pair, pair_set_of, bump, entry_keys, ins_key, lemma_bump_keys, lemma_ins_key_sorted, lemma_key_set_of, strictly_sorted};
use crate::project::{dedup_edges, link_edges, scan_word};
use crate::server::{Role, role_level};
use crate::search::search_spec;
use crate::text::{seq_lt, lemma_sort_permutation, ascii_fold, trim_seq, flatten, alphanumeric_of, contains_seq, find_from, is_ascii_alnum, keep, lemma_find_from, lemma_keep_contains, lemma_keep_len};

verus! {

/// Documentation written by `analyze` passes the `check` command on the
/// same project: a fresh document is current against itself.
pub proof fn law_fresh_doc_is_current(p: ProjectV)
    ensures
        is_current_spec(markdown_spec(p), markdown_spec(p)),
{
}

/// The counts per extension stay ordered by extension, each extension
/// once, whatever files are counted.
pub proof fn law_extension_counts_sorted(es: Seq<(Seq<char>, nat)>, files: Seq<SourceFile>)
    requires
        strictly_sorted(entry_keys(es)),
    ensures
        strictly_sorted(entry_keys(tally_exts(es, files))),
    decreases files.len(),
{
    if files.len() > 0 {
        law_extension_counts_sorted(es, files.drop_last());
        let r = tally_exts(es, files.drop_last());
        let e = crate::analyzers::ext_of(files.last().path@);
        if e.len() > 0 {
            lemma_bump_keys(r, e, 1);
            lemma_ins_key_sorted(entry_keys(r), e);
        }
    }
}

/// Ids that are distinct.
pub open spec fn distinct_ids(cs: Seq<ComponentV>) -> bool {
    forall|i: int, j: int| 0 <= i < j < cs.len() ==> #[trigger] cs[i].id != #[trigger] cs[j].id
}

/// Adding components skips ids already present: distinct ids stay
/// distinct, and every added candidate's id is then present.
pub proof fn law_component_ids_unique(cs: Seq<ComponentV>, cands: Seq<ComponentV>)
    requires
        distinct_ids(cs),
    ensures
        distinct_ids(push_all_unique(cs, cands)),
        forall|k: int| 0 <= k < cands.len() ==> has_id(push_all_unique(cs, cands), #[trigger] cands[k].id),
    decreases cands.len(),
{
    if cands.len() > 0 {
        let prev = push_all_unique(cs, cands.drop_last());
        law_component_ids_unique(cs, cands.drop_last());
        let c = cands.last();
        let r = push_all_unique(cs, cands);
        assert(r == push_unique_spec(prev, c));
        if !has_id(prev, c.id) {
            assert(r == prev.push(c));
            assert forall|i: int, j: int| 0 <= i < j < r.len() implies #[trigger] r[i].id != #[trigger] r[j].id by {
                if j == r.len() - 1 {
                    if r[i].id == c.id {
                        assert(prev[i].id == c.id);
                    }
                } else {
                    assert(r[i] == prev[i] && r[j] == prev[j]);
                }
            }
            assert(has_id(r, c.id)) by {
                assert(r[r.len() - 1].id == c.id);
            }
        }
        assert forall|k: int| 0 <= k < cands.len() implies has_id(r, #[trigger] cands[k].id) by {
            if k < cands.len() - 1 {
                assert(cands.drop_last()[k] == cands[k]);
                assert(has_id(prev, cands.drop_last()[k].id));
                let m = choose|m: int| 0 <= m < prev.len() && #[trigger] prev[m].id == cands[k].id;
                if !has_id(prev, c.id) {
                    assert(r[m] == prev[m]);
                }
                assert(r[m].id == cands[k].id);
            }
        }
    }
}

/// Whole-word occurrences of `n` in `h` are occurrences.
pub proof fn law_whole_word_occurs(h: Seq<char>, n: Seq<char>, start: int)
    ensures
        scan_word(h, n, start) ==> contains_seq(h, n),
    decreases h.len() - start,
{
    if n.len() > 0 && 0 <= start <= h.len() {
        lemma_find_from(h, n, start);
        match find_from(h, n, start) {
            Some(i) => {
                assert(crate::text::occurs_at(h, n, i));
                law_whole_word_occurs(h, n, i + n.len());
            },
            None => {},
        }
    }
}

/// The layers of the application flow are linked by distinct edges.
pub proof fn law_link_edges_distinct(p: ProjectV, files: Seq<SourceFile>, root: Seq<char>)
    ensures
        link_edges(p, files, root).no_duplicates(),
{
    lemma_dedup_distinct(crate::project::expose_edges(p) + crate::project::reference_edges(p, files, root));
}

proof fn lemma_dedup_distinct(s: Seq<(Seq<char>, Seq<char>, RelationKind)>)
    ensures
        dedup_edges(s).no_duplicates(),
    decreases s.len(),
{
    if s.len() > 0 {
        lemma_dedup_distinct(s.drop_last());
        let d = dedup_edges(s.drop_last());
        if !d.contains(s.last()) {
            assert forall|i: int, j: int| 0 <= i < j < d.push(s.last()).len() implies d.push(s.last())[i] != d.push(s.last())[j] by {
                if j == d.len() {
                    if d[i] == s.last() {
                        assert(d.contains(s.last()));
                    }
                }
            }
        }
    }
}

/// Mermaid node ids are made only of alphanumeric characters and `_`
/// (the `n_` prefix included).
pub proof fn law_mermaid_id_safe(s: Seq<char>)
    ensures
        forall|i: int|
            0 <= i < mermaid_id(s).len() ==> #[trigger] mermaid_id(s)[i] == '_' || alphanumeric_of(mermaid_id(s)[i])
                || is_ascii_alnum(mermaid_id(s)[i]),
{
    let c = clean(s);
    assert forall|i: int| 0 <= i < c.len() implies #[trigger] c[i] == '_' || alphanumeric_of(c[i]) by {
    }
    if c.len() == 0 || crate::text::is_ascii_digit(c[0]) {
        let r = "n_"@ + c;
        reveal_strlit("n_");
        assert forall|i: int| 0 <= i < r.len() implies #[trigger] r[i] == '_' || alphanumeric_of(r[i]) || is_ascii_alnum(r[i]) by {
            if i >= 2 {
                assert(r[i] == c[i - 2]);
            }
        }
    }
}

/// A role never has fewer privileges than a lower one: what a role may do,
/// every higher role may do too.
pub proof fn law_require_monotone(r1: Role, r2: Role, min: Role)
    requires
        role_level(r1) >= role_level(min),
        role_level(r2) >= role_level(r1),
    ensures
        role_level(r2) >= role_level(min),
{
}

/// Comparing a version with itself finds nothing added, removed or
/// modified.
pub proof fn law_diff_self_empty(p: ProjectV)
    ensures
        added_keys(p, p).len() == 0,
        removed_keys(p, p).len() == 0,
        modified_keys(p, p).len() == 0,
{
    if added_keys(p, p).len() > 0 {
        let x = added_keys(p, p)[0];
        assert(added_keys(p, p).contains(x));
        crate::text::lemma_keep_contains_at(entity_keys(p), not_in(entity_keys(p)), x);
        assert(!not_in(entity_keys(p))(x));
    }
    if modified_keys(p, p).len() > 0 {
        let x = modified_keys(p, p)[0];
        assert(modified_keys(p, p).contains(x));
        crate::text::lemma_keep_contains_at(entity_keys(p), changed_in(p, p), x);
        assert(!changed_in(p, p)(x));
    }
}

/// What one comparison finds added, the reverse comparison finds removed.
pub proof fn law_diff_swap(a: ProjectV, b: ProjectV)
    ensures
        added_keys(a, b) == removed_keys(b, a),
        removed_keys(a, b) == added_keys(b, a),
        modified_keys(a, b) == modified_keys(b, a),
{
    let ka = entity_keys(a);
    let kb = entity_keys(b);
    lemma_key_set_of(crate::evolution::item_ids(entity_items(a)));
    lemma_key_set_of(crate::evolution::item_ids(entity_items(b)));
    let m1 = modified_keys(a, b);
    let m2 = modified_keys(b, a);
    lemma_keep_sorted(kb, changed_in(a, b));
    lemma_keep_sorted(ka, changed_in(b, a));
    lemma_keep_contains(kb, changed_in(a, b));
    lemma_keep_contains(ka, changed_in(b, a));
    assert forall|x: Seq<char>| m1.contains(x) <==> m2.contains(x) by {
        crate::text::lemma_keep_contains_at(kb, changed_in(a, b), x);
        crate::text::lemma_keep_contains_at(ka, changed_in(b, a), x);
        assert(m1 == keep(kb, changed_in(a, b)));
        assert(m2 == keep(ka, changed_in(b, a)));
    }
    crate::ordered::lemma_sorted_unique(m1, m2);
}

/// What a strictly sorted sequence keeps is strictly sorted.
proof fn lemma_keep_sorted(s: Seq<Seq<char>>, p: spec_fn(Seq<char>) -> bool)
    requires
        strictly_sorted(s),
    ensures
        strictly_sorted(keep(s, p)),
    decreases s.len(),
{
    if s.len() > 0 {
        let d = s.drop_last();
        assert(strictly_sorted(d)) by {
            assert forall|i: int, j: int| 0 <= i < j < d.len() implies seq_lt(#[trigger] d[i], #[trigger] d[j]) by {
                assert(d[i] == s[i] && d[j] == s[j]);
            }
        }
        lemma_keep_sorted(d, p);
        lemma_keep_contains(d, p);
        if p(s.last()) {
            let k = keep(d, p);
            let r = k.push(s.last());
            assert forall|i: int, j: int| 0 <= i < j < r.len() implies seq_lt(#[trigger] r[i], #[trigger] r[j]) by {
                if j == r.len() - 1 {
                    assert(k.contains(r[i]));
                    assert(d.contains(r[i]));
                    let m = choose|m: int| 0 <= m < d.len() && d[m] == r[i];
                    assert(s[m] == r[i]);
                    assert(seq_lt(s[m], s[s.len() - 1]));
                } else {
                    assert(r[i] == k[i] && r[j] == k[j]);
                }
            }
        }
    }
}

/// The tables assembled from the rows of a live database come out in key
/// order, each key once.
pub proof fn law_assembled_keys_sorted(cols: Seq<ColRow>)
    ensures
        strictly_sorted(assembled_keys(cols)),
{
    lemma_key_set_of(cols.map_values(|c: ColRow| crate::db::col_key(c)));
}

/// Pairs that join two different names.
pub open spec fn loop_free(s: Seq<(Seq<char>, Seq<char>)>) -> bool {
    forall|k: int| 0 <= k < s.len() ==> (#[trigger] s[k]).0 != s[k].1
}

proof fn lemma_ins_pair_loop_free(ps: Seq<(Seq<char>, Seq<char>)>, k: (Seq<char>, Seq<char>))
    requires
        loop_free(ps),
        k.0 != k.1,
    ensures
        loop_free(ins_pair(ps, k)),
    decreases ps.len(),
{
    if ps.len() > 0 && ps[0] != k && !crate::ordered::pair_lt(k, ps[0]) {
        let t = ps.drop_first();
        lemma_ins_pair_loop_free(t, k);
        let r = seq![ps[0]] + ins_pair(t, k);
        assert forall|j: int| 0 <= j < r.len() implies (#[trigger] r[j]).0 != r[j].1 by {
            if j > 0 {
                assert(r[j] == ins_pair(t, k)[j - 1]);
            }
        }
    } else if ps.len() > 0 && ps[0] != k {
        let r = seq![k] + ps;
        assert forall|j: int| 0 <= j < r.len() implies (#[trigger] r[j]).0 != r[j].1 by {
            if j > 0 {
                assert(r[j] == ps[j - 1]);
            }
        }
    }
}

proof fn lemma_pair_set_loop_free(s: Seq<(Seq<char>, Seq<char>)>)
    requires
        loop_free(s),
    ensures
        loop_free(pair_set_of(s)),
    decreases s.len(),
{
    if s.len() > 0 {
        lemma_pair_set_loop_free(s.drop_last());
        lemma_ins_pair_loop_free(pair_set_of(s.drop_last()), s.last());
    }
}

proof fn lemma_flatten_loop_free(s: Seq<Seq<(Seq<char>, Seq<char>)>>)
    requires
        forall|i: int| 0 <= i < s.len() ==> loop_free(#[trigger] s[i]),
    ensures
        loop_free(flatten(s)),
    decreases s.len(),
{
    if s.len() > 0 {
        let d = s.drop_last();
        assert forall|i: int| 0 <= i < d.len() implies loop_free(#[trigger] d[i]) by {
            assert(d[i] == s[i]);
        }
        lemma_flatten_loop_free(d);
        let a = flatten(d);
        let r = a + s.last();
        assert(loop_free(s[s.len() - 1]));
        assert forall|j: int| 0 <= j < r.len() implies (#[trigger] r[j]).0 != r[j].1 by {
            if j >= a.len() {
                assert(r[j] == s.last()[j - a.len()]);
            }
        }
    }
}

/// A type's calls to its own methods draw no edge: every edge of the call
/// graph joins two different types.
pub proof fn law_call_graph_no_self_edges(ts: Seq<TypeV>)
    ensures
        loop_free(call_graph(ts)),
{
    let per = ts.map_values(|t: TypeV| callee_pairs(t, ts));
    assert forall|i: int| 0 <= i < per.len() implies loop_free(#[trigger] per[i]) by {
        let t = ts[i];
        let inner = t.callees.map_values(|c: Seq<char>| callee_pair(t, ts, c));
        assert forall|j: int| 0 <= j < inner.len() implies loop_free(#[trigger] inner[j]) by {
            let c = t.callees[j];
            assert(inner[j] == callee_pair(t, ts, c));
        }
        lemma_flatten_loop_free(inner);
        assert(per[i] == flatten(inner));
    }
    lemma_flatten_loop_free(per);
    lemma_pair_set_loop_free(flatten(per));
}

/// Searching does not see the case of ASCII letters nor white space at the
/// ends of the query: two queries that trim to the same text once their
/// ASCII letters are lowered find the same hits ([`crate::search::search`]
/// answers `search_spec` of the query with its ASCII letters lowered).
pub proof fn law_search_ignores_ascii_case_and_ends(p: ProjectV, q1: Seq<char>, q2: Seq<char>)
    requires
        trim_seq(ascii_fold(q1)) == trim_seq(ascii_fold(q2)),
    ensures
        search_spec(p, ascii_fold(q1)) == search_spec(p, ascii_fold(q2)),
{
}

/// `b` is `a` with, at most, the order changed inside the method lists of
/// its components and the dependency lists of its services (relations,
/// root, name and statistics may differ).
pub open spec fn lists_reordered(a: ProjectV, b: ProjectV) -> bool {
    &&& b.components.len() == a.components.len()
    &&& forall|i: int| 0 <= i < a.components.len() ==> {
        let x = #[trigger] a.components[i];
        let y = b.components[i];
        &&& y.id == x.id && y.name == x.name && y.kind == x.kind
        &&& y.language == x.language && y.path == x.path
        &&& y.members.to_multiset() == x.members.to_multiset()
    }
    &&& b.services.len() == a.services.len()
    &&& forall|i: int| 0 <= i < a.services.len() ==> {
        let x = #[trigger] a.services[i];
        let y = b.services[i];
        &&& y.id == x.id && y.name == x.name && y.image == x.image
        &&& y.ports == x.ports && y.source == x.source
        &&& y.depends_on.to_multiset() == x.depends_on.to_multiset()
    }
    &&& b.endpoints == a.endpoints
    &&& b.tables == a.tables
    &&& b.dependencies == a.dependencies
}

/// Comparing two versions that differ only in the order of methods and of
/// service dependencies finds nothing added, removed, modified or impacted.
pub proof fn law_diff_ignores_list_order(a: ProjectV, b: ProjectV)
    requires
        lists_reordered(a, b),
    ensures
        added_keys(a, b).len() == 0,
        removed_keys(a, b).len() == 0,
        modified_keys(a, b).len() == 0,
        impacted_keys(a, b).len() == 0,
{
    assert forall|i: int| 0 <= i < a.components.len() implies component_item(a.components[i]) == component_item(b.components[i]) by {
        lemma_sort_permutation(a.components[i].members, b.components[i].members);
    }
    assert forall|i: int| 0 <= i < a.services.len() implies service_item(a.services[i]) == service_item(b.services[i]) by {
        lemma_sort_permutation(a.services[i].depends_on, b.services[i].depends_on);
    }
    assert(a.components.map_values(|c: ComponentV| component_item(c)) =~= b.components.map_values(|c: ComponentV| component_item(c)));
    assert(a.services.map_values(|s: ServiceV| service_item(s)) =~= b.services.map_values(|s: ServiceV| service_item(s)));
    assert(entity_items(a) == entity_items(b));
    law_diff_self_empty(a);
    assert(entity_keys(a) == entity_keys(b));
    assert(added_keys(a, b) == added_keys(a, a));
    assert(removed_keys(a, b) == removed_keys(a, a));
    assert(changed_in(a, b) =~= changed_in(a, a));
    assert(modified_keys(a, b) == modified_keys(a, a));
    assert(modified_keys(a, b) + removed_keys(a, b) =~= Seq::<Seq<char>>::empty());
    crate::text::lemma_keep_len(modified_keys(a, b) + removed_keys(a, b), |c: Seq<char>| crate::evolution::upstream_set(crate::evolution::graph(a, b), c).len() > 0);
}

// ---------------------------------------------------------------------------
// What single operations are for
// ---------------------------------------------------------------------------

/// A sequence of pieces, flattened, holds each piece between a prefix and a
/// suffix.
proof fn lemma_flatten_piece<A>(s: Seq<Seq<A>>, i: int) -> (xy: (Seq<A>, Seq<A>))
    requires
        0 <= i < s.len(),
    ensures
        flatten(s) == xy.0 + s[i] + xy.1,
    decreases s.len(),
{
    if i == s.len() - 1 {
        assert(flatten(s) =~= flatten(s.drop_last()) + s[i] + Seq::<A>::empty());
        (flatten(s.drop_last()), Seq::<A>::empty())
    } else {
        let (x, y) = lemma_flatten_piece(s.drop_last(), i);
        assert(s.drop_last()[i] == s[i]);
        assert(flatten(s) =~= x + s[i] + (y + s.last()));
        (x, y + s.last())
    }
}

/// Text placed between a prefix and a suffix occurs in the whole.
proof fn lemma_occurs_mid(x: Seq<char>, m: Seq<char>, y: Seq<char>)
    ensures
        contains_seq(x + m + y, m),
{
    assert((x + m + y).subrange(x.len() as int, (x.len() + m.len()) as int) =~= m);
    assert(occurs_at(x + m + y, m, x.len() as int));
}

/// The id under which a dependency is compared across versions.
pub open spec fn dependency_id(d: DependencyV) -> Seq<char> {
    "dep:"@ + d.ecosystem + ":"@ + d.name
}

/// A version as text, a missing one reading as empty.
pub open spec fn version_text(v: Option<Seq<char>>) -> Seq<char> {
    match v {
        Some(t) => t,
        None => Seq::empty(),
    }
}

proof fn lemma_last_item_at(items: Seq<(Seq<char>, crate::evolution::EntityV)>, k: Seq<char>, m: int)
    requires
        0 <= m < items.len(),
        items[m].0 == k,
        forall|j: int| m < j < items.len() ==> #[trigger] items[j].0 != k,
    ensures
        last_item(items, k) == items[m].1,
    decreases items.len(),
{
    if m < items.len() - 1 {
        let d = items.drop_last();
        assert forall|j: int| m < j < d.len() implies #[trigger] d[j].0 != k by {
            assert(d[j] == items[j]);
        }
        lemma_last_item_at(d, k, m);
    }
}

/// The entity a version holds under a dependency's id, when no later
/// dependency has that id, and that the id is one of its keys.
proof fn lemma_dependency_entity(p: ProjectV, i: int)
    requires
        0 <= i < p.dependencies.len(),
        forall|j: int| i < j < p.dependencies.len() ==> dependency_id(#[trigger] p.dependencies[j]) != dependency_id(p.dependencies[i]),
    ensures
        entity_of(p, dependency_id(p.dependencies[i])) == dependency_item(p.dependencies[i]).1,
        entity_keys(p).contains(dependency_id(p.dependencies[i])),
{
    let items = entity_items(p);
    let k = dependency_id(p.dependencies[i]);
    let off = items.len() - p.dependencies.len();
    let m = off + i;
    assert(items[m] == dependency_item(p.dependencies[i]));
    assert forall|j: int| m < j < items.len() implies #[trigger] items[j].0 != k by {
        assert(items[j] == dependency_item(p.dependencies[j - off]));
    }
    lemma_last_item_at(items, k, m);
    lemma_key_set_of(item_ids(items));
    assert(item_ids(items)[m] == k);
    assert(item_ids(items).contains(k));
    assert(entity_keys(p) == crate::ordered::key_set_of(item_ids(items)));
}

/// A dependency present in both versions (same ecosystem and name, the last
/// one with that id in each) is reported as modified exactly when its
/// version differs (a missing version reads as empty).
pub proof fn law_diff_reports_dependency_versions(a: ProjectV, b: ProjectV, i: int, j: int)
    requires
        0 <= i < a.dependencies.len(),
        0 <= j < b.dependencies.len(),
        dependency_id(a.dependencies[i]) == dependency_id(b.dependencies[j]),
        forall|x: int| i < x < a.dependencies.len() ==> dependency_id(#[trigger] a.dependencies[x]) != dependency_id(a.dependencies[i]),
        forall|x: int| j < x < b.dependencies.len() ==> dependency_id(#[trigger] b.dependencies[x]) != dependency_id(b.dependencies[j]),
    ensures
        modified_keys(a, b).contains(dependency_id(a.dependencies[i])) <==> version_text(
            a.dependencies[i].version,
        ) != version_text(b.dependencies[j].version),
{
    let k = dependency_id(a.dependencies[i]);
    lemma_dependency_entity(a, i);
    lemma_dependency_entity(b, j);
    crate::text::lemma_keep_contains_at(entity_keys(b), changed_in(a, b), k);
}

/// A line of a `CREATE TABLE` body that starts (trimmed, in lower case) with
/// `primary key`, `constraint`, `unique`, `foreign key` or `check` is a
/// table-level constraint: it gives no column.
pub proof fn law_primary_key_line_is_no_column(line: Seq<char>)
    requires
        has_prefix(lowercase_of(trim_seq(line)), "primary key"@) || has_prefix(
            lowercase_of(trim_seq(line)),
            "constraint"@,
        ) || has_prefix(lowercase_of(trim_seq(line)), "unique"@) || has_prefix(
            lowercase_of(trim_seq(line)),
            "foreign key"@,
        ) || has_prefix(lowercase_of(trim_seq(line)), "check"@),
    ensures
        line_parts(line).0 is None,
{
}

/// A line of a `CREATE TABLE` body whose first word (trimmed, in lower
/// case) starts none of the constraint keywords and that names no
/// table-level foreign key gives a column named after its first word
/// (unquoted), typed by its second word (`?` if none); it is nullable unless
/// the line says `not null`, and a primary key when it says `primary key`.
pub proof fn law_column_line_gives_column(line: Seq<char>)
    requires
        lowercase_of(trim_seq(line)).len() > 0,
        crate::analyzers::first_match(crate::analyzers::database::FK_PATTERN@, trim_seq(line)) is None,
        !crate::analyzers::database::is_constraint_line(lowercase_of(trim_seq(line))),
        crate::text::words(trim_seq(line)).len() > 0,
    ensures
        line_parts(line).0 is Some,
        line_parts(line).0->Some_0.nullable == !contains_seq(lowercase_of(trim_seq(line)), "not null"@),
        line_parts(line).0->Some_0.primary_key == contains_seq(lowercase_of(trim_seq(line)), "primary key"@),
{
}

/// Each foreign key of a table draws an ER edge whose one side is the
/// referenced table and whose many side is the table holding the key,
/// labelled with the column.
pub proof fn law_er_edge_direction(p: ProjectV, i: int, j: int)
    requires
        0 <= i < p.tables.len(),
        0 <= j < p.tables[i].foreign_keys.len(),
    ensures
        contains_seq(
            er_diagram(p),
            "  "@ + mermaid_id(p.tables[i].foreign_keys[j].references_table) + " ||--o{ "@
                + mermaid_id(p.tables[i].name) + " : \""@ + p.tables[i].foreign_keys[j].column
                + "\"\n"@,
        ),
{
    let t = p.tables[i];
    let f = t.foreign_keys[j];
    let line = "  "@ + mermaid_id(f.references_table) + " ||--o{ "@ + mermaid_id(t.name) + " : \""@
        + f.column + "\"\n"@;
    let per = p.tables.map_values(|t: TableV| crate::diagrams::mermaid::fk_lines(t));
    let inner = t.foreign_keys.map_values(|fk: ForeignKeyV| crate::diagrams::mermaid::fk_line(t, fk));
    let (x1, y1) = lemma_flatten_piece(per, i);
    let (x2, y2) = lemma_flatten_piece(inner, j);
    assert(inner[j] == line);
    assert(per[i] == flatten(inner));
    let head = "erDiagram\n"@ + flatten(p.tables.map_values(|t: TableV| crate::diagrams::mermaid::table_block(t)));
    let tail = if p.tables.len() == 0 {
        "  NESSUNA_TABELLA { string nota }\n"@
    } else {
        Seq::empty()
    };
    assert(er_diagram(p) == head + flatten(per) + tail);
    assert(er_diagram(p) =~= (head + x1 + x2) + line + (y2 + y1 + tail));
    lemma_occurs_mid(head + x1 + x2, line, y2 + y1 + tail);
}

/// The Null cell of a column's row in the documentation (after the name and
/// the type) is `si` exactly when the column is nullable, `no` otherwise.
pub proof fn law_column_row_null_cell(c: ColumnV)
    ensures
        ({
            let k: int = (c.name.len() + c.data_type.len() + 8) as int;
            &&& column_row(c).subrange(0, k) == "| "@ + c.name + " | "@ + c.data_type + " | "@
            &&& (column_row(c).subrange(k, k + 2) == "si"@ <==> c.nullable)
            &&& (column_row(c).subrange(k, k + 2) == "no"@ <==> !c.nullable)
        }),
{
    reveal_strlit("si");
    reveal_strlit("no");
    reveal_strlit("| ");
    reveal_strlit(" | ");
    let k: int = (c.name.len() + c.data_type.len() + 8) as int;
    let pre = "| "@ + c.name + " | "@ + c.data_type + " | "@;
    let cell = if c.nullable { "si"@ } else { "no"@ };
    let rest = " | "@ + (if c.primary_key { "PK"@ } else { Seq::empty() }) + " |\n"@;
    assert(column_row(c) =~= pre + cell + rest);
    assert(pre.len() == k);
    assert((pre + cell + rest).subrange(0, k) =~= pre);
    assert((pre + cell + rest).subrange(k, k + 2) =~= cell);
    assert("si"@ != "no"@) by {
        assert("si"@[0] != "no"@[0]);
    }
}

/// Searching finds every dependency whose name, in lower case, contains the
/// trimmed lower-case query: it is among the hits, with its name as label
/// and its manifest as location.
pub proof fn law_search_finds_dependencies_by_name(p: ProjectV, query: Seq<char>, i: int)
    requires
        0 <= i < p.dependencies.len(),
        normal_query(query).len() > 0,
        contains_seq(lowercase_of(p.dependencies[i].name), normal_query(query)),
    ensures
        search_spec(p, query).contains(
            HitV { kind: "dependency"@, label: p.dependencies[i].name, location: p.dependencies[i].declared_in },
        ),
{
    let q = normal_query(query);
    let d = p.dependencies[i];
    let h = HitV { kind: "dependency"@, label: d.name, location: d.declared_in };
    let per = p.dependencies.map_values(|d: DependencyV| crate::search::dependency_hit(d, q));
    assert(per[i] == seq![h]);
    let (x, y) = lemma_flatten_piece(per, i);
    let all = crate::search::project_hits(p, q);
    let pre = all.subrange(0, all.len() - flatten(per).len());
    assert(all =~= pre + flatten(per));
    assert(all =~= (pre + x) + seq![h] + y);
    assert(all[(pre.len() + x.len()) as int] == h);
}

/// Every dependency hit of a search names a dependency whose name, in lower
/// case, contains the trimmed lower-case query.
pub proof fn law_search_dependency_hits_match_names(p: ProjectV, query: Seq<char>, h: HitV)
    requires
        flatten(
            p.dependencies.map_values(|d: DependencyV| crate::search::dependency_hit(d, normal_query(query))),
        ).contains(h),
    ensures
        exists|i: int|
            0 <= i < p.dependencies.len() && h.label == #[trigger] p.dependencies[i].name && h.location
                == p.dependencies[i].declared_in && contains_seq(
                lowercase_of(p.dependencies[i].name),
                normal_query(query),
            ),
{
    let q = normal_query(query);
    let per = p.dependencies.map_values(|d: DependencyV| crate::search::dependency_hit(d, q));
    let i = lemma_flatten_member(per, h);
    assert(per[i] == crate::search::dependency_hit(p.dependencies[i], q));
}

/// An element of a flattened sequence comes from one of the pieces.
proof fn lemma_flatten_member<A>(s: Seq<Seq<A>>, x: A) -> (i: int)
    requires
        flatten(s).contains(x),
    ensures
        0 <= i < s.len(),
        s[i].contains(x),
    decreases s.len(),
{
    let d = s.drop_last();
    assert(flatten(s) == flatten(d) + s.last());
    if flatten(d).contains(x) {
        let i = lemma_flatten_member(d, x);
        assert(d[i] == s[i]);
        i
    } else {
        let m = choose|m: int| 0 <= m < flatten(s).len() && flatten(s)[m] == x;
        assert(m >= flatten(d).len()) by {
            if m < flatten(d).len() {
                assert(flatten(d)[m] == x);
            }
        }
        assert(s.last()[m - flatten(d).len()] == x);
        (s.len() - 1) as int
    }
}

} // verus!
