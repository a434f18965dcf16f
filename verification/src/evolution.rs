//! Architectural evolution: comparison of two versions of a project and
//! impact analysis.
//!
//! Given an "old" and a "new" model (typically two stored snapshots), computes
//! what was added, removed or modified and, for each changed element, who
//! depends on it (upstream, following the relations backwards).

use vstd::prelude::*;
use crate::model::{
    kind_debug, kind_name, language_debug, language_name, Column, ColumnV, Component,
    ComponentV, Dependency, DependencyV, Endpoint, EndpointV, ForeignKey, ForeignKeyV, Project,
    ProjectV, Relation, RelationV, ServiceUnit, ServiceV, Table, TableV, relations_view,
};
use crate::ordered::{insert_key, key_set_of, lemma_key_set_of, strictly_sorted};
use crate::text::{
    bool_string, bool_text, concat2, join, join_seq, keep, lemma_keep_take, lemma_lt_irreflexive, seq_lt,
    sort_seq, sort_strings, str_eq, str_or_empty, views, lemma_map_push, lemma_map_take, lemma_keep_contains,
};

verus! {

broadcast use vstd::seq_lib::group_seq_properties;

/// A single changed element.
pub struct EntityChange {
    /// Category: "component", "endpoint", "service", "table", "dependency".
    pub kind: String,
    pub id: String,
    pub label: String,
}

/// The impact of a change: who depends (also transitively) on the element.
pub struct Impact {
    pub changed: String,
    pub label: String,
    /// Labels of the impacted (upstream) dependents.
    pub dependents: Vec<String>,
}

/// The result of comparing two versions.
pub struct ChangeSet {
    pub added: Vec<EntityChange>,
    pub removed: Vec<EntityChange>,
    pub modified: Vec<EntityChange>,
    pub impacted: Vec<Impact>,
}

/// An entity of the project with its "signature" (to detect modifications).
pub struct Entity {
    pub kind: String,
    pub label: String,
    pub signature: String,
}

pub struct EntityV {
    pub kind: Seq<char>,
    pub label: Seq<char>,
    pub signature: Seq<char>,
}

pub struct ChangeV {
    pub kind: Seq<char>,
    pub id: Seq<char>,
    pub label: Seq<char>,
}

pub struct ImpactV {
    pub changed: Seq<char>,
    pub label: Seq<char>,
    pub dependents: Seq<Seq<char>>,
}

impl View for Entity {
    type V = EntityV;

    open spec fn view(&self) -> EntityV {
        EntityV { kind: self.kind@, label: self.label@, signature: self.signature@ }
    }
}

impl View for EntityChange {
    type V = ChangeV;

    open spec fn view(&self) -> ChangeV {
        ChangeV { kind: self.kind@, id: self.id@, label: self.label@ }
    }
}

impl View for Impact {
    type V = ImpactV;

    open spec fn view(&self) -> ImpactV {
        ImpactV { changed: self.changed@, label: self.label@, dependents: views(self.dependents@) }
    }
}

pub open spec fn changes_view(v: Seq<EntityChange>) -> Seq<ChangeV> {
    v.map_values(|c: EntityChange| c@)
}

pub open spec fn opt_text(o: Option<Seq<char>>) -> Seq<char> {
    match o {
        Some(s) => s,
        None => Seq::empty(),
    }
}

// ---------------------------------------------------------------------------
// Entities and their signatures
// ---------------------------------------------------------------------------

pub open spec fn component_item(c: ComponentV) -> (Seq<char>, EntityV) {
    (
        c.id,
        EntityV {
            kind: "component"@,
            label: c.name,
            signature: kind_name(c.kind) + "|"@ + language_name(c.language) + "|"@ + join_seq(
                sort_seq(c.members),
                ","@,
            ),
        },
    )
}

pub open spec fn endpoint_item(e: EndpointV) -> (Seq<char>, EntityV) {
    (
        e.id,
        EntityV {
            kind: "endpoint"@,
            label: e.method + " "@ + e.path,
            signature: e.method + "|"@ + e.path + "|"@ + opt_text(e.operation_id),
        },
    )
}

pub open spec fn service_item(s: ServiceV) -> (Seq<char>, EntityV) {
    (
        s.id,
        EntityV {
            kind: "service"@,
            label: s.name,
            signature: opt_text(s.image) + "|"@ + join_seq(s.ports, ","@) + "|"@ + join_seq(
                sort_seq(s.depends_on),
                ","@,
            ),
        },
    )
}

pub open spec fn column_sig(c: ColumnV) -> Seq<char> {
    c.name + ":"@ + c.data_type + ":"@ + bool_text(c.primary_key)
}

pub open spec fn fk_sig(f: ForeignKeyV) -> Seq<char> {
    f.column + "->"@ + f.references_table
}

pub open spec fn table_item(t: TableV) -> (Seq<char>, EntityV) {
    (
        t.id,
        EntityV {
            kind: "table"@,
            label: t.name,
            signature: join_seq(t.columns.map_values(|c: ColumnV| column_sig(c)), ","@) + "|"@
                + join_seq(t.foreign_keys.map_values(|f: ForeignKeyV| fk_sig(f)), ","@),
        },
    )
}

pub open spec fn dependency_item(d: DependencyV) -> (Seq<char>, EntityV) {
    (
        "dep:"@ + d.ecosystem + ":"@ + d.name,
        EntityV {
            kind: "dependency"@,
            label: d.name + " ("@ + d.ecosystem + ")"@,
            signature: opt_text(d.version),
        },
    )
}

/// Every entity of a project with its id, in the order they are indexed:
/// components, endpoints, services, tables, dependencies.
pub open spec fn entity_items(p: ProjectV) -> Seq<(Seq<char>, EntityV)> {
    p.components.map_values(|c: ComponentV| component_item(c)) + p.endpoints.map_values(
        |e: EndpointV| endpoint_item(e),
    ) + p.services.map_values(|s: ServiceV| service_item(s)) + p.tables.map_values(
        |t: TableV| table_item(t),
    ) + p.dependencies.map_values(|d: DependencyV| dependency_item(d))
}

pub open spec fn item_ids(items: Seq<(Seq<char>, EntityV)>) -> Seq<Seq<char>> {
    items.map_values(|it: (Seq<char>, EntityV)| it.0)
}

/// The ids of the entities, ordered, each once (the keys of the index).
pub open spec fn entity_keys(p: ProjectV) -> Seq<Seq<char>> {
    key_set_of(item_ids(entity_items(p)))
}

/// The entity indexed under `k`: the last one inserted with that id.
pub open spec fn last_item(items: Seq<(Seq<char>, EntityV)>, k: Seq<char>) -> EntityV
    decreases items.len(),
{
    if items.len() == 0 {
        EntityV { kind: Seq::empty(), label: Seq::empty(), signature: Seq::empty() }
    } else if items.last().0 == k {
        items.last().1
    } else {
        last_item(items.drop_last(), k)
    }
}

pub open spec fn entity_of(p: ProjectV, k: Seq<char>) -> EntityV {
    last_item(entity_items(p), k)
}

fn component_entry(c: &Component) -> (r: (String, Entity))
    ensures
        (r.0@, r.1@) == component_item(c@),
{
    let sorted = sort_strings(&c.members);
    let mut sig = kind_debug(c.kind);
    sig.append("|");
    sig.append(language_debug(c.language).as_str());
    sig.append("|");
    sig.append(join(&sorted, ",").as_str());
    (c.id.clone(), Entity { kind: "component".to_string(), label: c.name.clone(), signature: sig })
}

fn endpoint_entry(e: &Endpoint) -> (r: (String, Entity))
    ensures
        (r.0@, r.1@) == endpoint_item(e@),
{
    let mut label = e.method.clone();
    label.append(" ");
    label.append(e.path.as_str());
    let mut sig = e.method.clone();
    sig.append("|");
    sig.append(e.path.as_str());
    sig.append("|");
    sig.append(str_or_empty(&e.operation_id).as_str());
    (e.id.clone(), Entity { kind: "endpoint".to_string(), label, signature: sig })
}

fn service_entry(s: &ServiceUnit) -> (r: (String, Entity))
    ensures
        (r.0@, r.1@) == service_item(s@),
{
    let sorted = sort_strings(&s.depends_on);
    let mut sig = str_or_empty(&s.image);
    sig.append("|");
    sig.append(join(&s.ports, ",").as_str());
    sig.append("|");
    sig.append(join(&sorted, ",").as_str());
    (s.id.clone(), Entity { kind: "service".to_string(), label: s.name.clone(), signature: sig })
}

fn table_entry(t: &Table) -> (r: (String, Entity))
    ensures
        (r.0@, r.1@) == table_item(t@),
{
    let mut cols: Vec<String> = Vec::new();
    for i in 0..t.columns.len()
        invariant
            views(cols@) == t@.columns.take(i as int).map_values(|c: ColumnV| column_sig(c)),
    {
        let c = &t.columns[i];
        let mut s = c.name.clone();
        s.append(":");
        s.append(c.data_type.as_str());
        s.append(":");
        s.append(bool_string(c.primary_key).as_str());
        let ghost old_cols = cols@;
        cols.push(s);
        proof {
            lemma_map_push(old_cols, |s: String| s@, cols@.last());
            lemma_map_take(t@.columns, |c: ColumnV| column_sig(c), i as int);
            assert(cols@ == old_cols.push(cols@.last()));
        }
    }
    let mut fks: Vec<String> = Vec::new();
    for i in 0..t.foreign_keys.len()
        invariant
            views(fks@) == t@.foreign_keys.take(i as int).map_values(|f: ForeignKeyV| fk_sig(f)),
    {
        let f = &t.foreign_keys[i];
        let mut s = f.column.clone();
        s.append("->");
        s.append(f.references_table.as_str());
        let ghost old_fks = fks@;
        fks.push(s);
        proof {
            lemma_map_push(old_fks, |s: String| s@, fks@.last());
            lemma_map_take(t@.foreign_keys, |f: ForeignKeyV| fk_sig(f), i as int);
            assert(fks@ == old_fks.push(fks@.last()));
        }
    }
    assert(t@.columns.take(t.columns.len() as int) =~= t@.columns);
    assert(t@.foreign_keys.take(t.foreign_keys.len() as int) =~= t@.foreign_keys);
    let mut sig = join(&cols, ",");
    sig.append("|");
    sig.append(join(&fks, ",").as_str());
    (t.id.clone(), Entity { kind: "table".to_string(), label: t.name.clone(), signature: sig })
}

fn dependency_entry(d: &Dependency) -> (r: (String, Entity))
    ensures
        (r.0@, r.1@) == dependency_item(d@),
{
    let mut id = concat2("dep:", d.ecosystem.as_str());
    id.append(":");
    id.append(d.name.as_str());
    let mut label = d.name.clone();
    label.append(" (");
    label.append(d.ecosystem.as_str());
    label.append(")");
    (id, Entity { kind: "dependency".to_string(), label, signature: str_or_empty(&d.version) })
}

pub open spec fn items_view(v: Seq<(String, Entity)>) -> Seq<(Seq<char>, EntityV)> {
    v.map_values(|it: (String, Entity)| (it.0@, it.1@))
}

fn collect_items(p: &Project) -> (r: Vec<(String, Entity)>)
    ensures
        items_view(r@) == entity_items(p@),
{
    let mut r: Vec<(String, Entity)> = Vec::new();
    let ghost pv = p@;
    let ghost a = pv.components.map_values(|c: ComponentV| component_item(c));
    for i in 0..p.components.len()
        invariant
            pv == p@,
            a == pv.components.map_values(|c: ComponentV| component_item(c)),
            items_view(r@) == a.take(i as int),
    {
        let ghost old_r = r@;
        r.push(component_entry(&p.components[i]));
        proof {
            lemma_map_push(old_r, |it: (String, Entity)| (it.0@, it.1@), r@.last());
            lemma_map_take(a, |x| x, i as int);
            assert(r@ == old_r.push(r@.last()));
            assert(a.take(i + 1) == a.take(i as int).push(a[i as int]));
            assert(items_view(r@) =~= a.take(i + 1));
        }
    }
    assert(a.take(p.components.len() as int) =~= a);
    let ghost b = pv.endpoints.map_values(|e: EndpointV| endpoint_item(e));
    for i in 0..p.endpoints.len()
        invariant
            pv == p@,
            b == pv.endpoints.map_values(|e: EndpointV| endpoint_item(e)),
            items_view(r@) == a + b.take(i as int),
    {
        let ghost old_r = r@;
        r.push(endpoint_entry(&p.endpoints[i]));
        proof {
            lemma_map_push(old_r, |it: (String, Entity)| (it.0@, it.1@), r@.last());
            lemma_map_take(b, |x| x, i as int);
            assert(r@ == old_r.push(r@.last()));
            assert(b.take(i + 1) == b.take(i as int).push(b[i as int]));
            assert(items_view(r@) =~= a + b.take(i + 1));
        }
    }
    assert(b.take(p.endpoints.len() as int) =~= b);
    let ghost c = pv.services.map_values(|s: ServiceV| service_item(s));
    for i in 0..p.services.len()
        invariant
            pv == p@,
            c == pv.services.map_values(|s: ServiceV| service_item(s)),
            items_view(r@) == a + b + c.take(i as int),
    {
        let ghost old_r = r@;
        r.push(service_entry(&p.services[i]));
        proof {
            lemma_map_push(old_r, |it: (String, Entity)| (it.0@, it.1@), r@.last());
            lemma_map_take(c, |x| x, i as int);
            assert(r@ == old_r.push(r@.last()));
            assert(c.take(i + 1) == c.take(i as int).push(c[i as int]));
            assert(items_view(r@) =~= a + b + c.take(i + 1));
        }
    }
    assert(c.take(p.services.len() as int) =~= c);
    let ghost d = pv.tables.map_values(|t: TableV| table_item(t));
    for i in 0..p.tables.len()
        invariant
            pv == p@,
            d == pv.tables.map_values(|t: TableV| table_item(t)),
            items_view(r@) == a + b + c + d.take(i as int),
    {
        let ghost old_r = r@;
        r.push(table_entry(&p.tables[i]));
        proof {
            lemma_map_push(old_r, |it: (String, Entity)| (it.0@, it.1@), r@.last());
            lemma_map_take(d, |x| x, i as int);
            assert(r@ == old_r.push(r@.last()));
            assert(d.take(i + 1) == d.take(i as int).push(d[i as int]));
            assert(items_view(r@) =~= a + b + c + d.take(i + 1));
        }
    }
    assert(d.take(p.tables.len() as int) =~= d);
    let ghost e = pv.dependencies.map_values(|x: DependencyV| dependency_item(x));
    for i in 0..p.dependencies.len()
        invariant
            pv == p@,
            e == pv.dependencies.map_values(|x: DependencyV| dependency_item(x)),
            items_view(r@) == a + b + c + d + e.take(i as int),
    {
        let ghost old_r = r@;
        r.push(dependency_entry(&p.dependencies[i]));
        proof {
            lemma_map_push(old_r, |it: (String, Entity)| (it.0@, it.1@), r@.last());
            lemma_map_take(e, |x| x, i as int);
            assert(r@ == old_r.push(r@.last()));
            assert(e.take(i + 1) == e.take(i as int).push(e[i as int]));
            assert(items_view(r@) =~= a + b + c + d + e.take(i + 1));
        }
    }
    assert(e.take(p.dependencies.len() as int) =~= e);
    r
}

/// The entity index of a project: ids in order, each with its entity.
pub struct EntityIndex {
    pub keys: Vec<String>,
    pub values: Vec<Entity>,
}

pub open spec fn index_ok(ix: EntityIndex, p: ProjectV) -> bool {
    &&& views(ix.keys@) == entity_keys(p)
    &&& ix.values@.len() == ix.keys@.len()
    &&& forall|j: int| 0 <= j < ix.keys@.len() ==> #[trigger] ix.values@[j]@ == entity_of(p, ix.keys@[j]@)
}

proof fn lemma_last_item_take(items: Seq<(Seq<char>, EntityV)>, i: int, k: Seq<char>)
    requires
        0 <= i < items.len(),
    ensures
        last_item(items.take(i + 1), k) == if items[i].0 == k {
            items[i].1
        } else {
            last_item(items.take(i), k)
        },
{
    assert(items.take(i + 1).drop_last() =~= items.take(i));
}

fn copy_entity(e: &Entity) -> (r: Entity)
    ensures
        r@ == e@,
{
    Entity { kind: e.kind.clone(), label: e.label.clone(), signature: e.signature.clone() }
}

pub open spec fn entity_views(v: Seq<Entity>) -> Seq<EntityV> {
    v.map_values(|e: Entity| e@)
}

proof fn lemma_index_step(
    old_keys: Seq<Seq<char>>,
    new_keys: Seq<Seq<char>>,
    old_vals: Seq<EntityV>,
    new_vals: Seq<EntityV>,
    iv: Seq<(Seq<char>, EntityV)>,
    i: int,
    pos: int,
)
    requires
        0 <= i < iv.len(),
        strictly_sorted(new_keys),
        old_vals.len() == old_keys.len(),
        forall|j: int| 0 <= j < old_keys.len() ==> #[trigger] old_vals[j] == last_item(iv.take(i), old_keys[j]),
        0 <= pos < new_keys.len(),
        new_keys[pos] == iv[i].0,
        (new_keys == old_keys && new_vals == old_vals.update(pos, iv[i].1)) || (pos <= old_keys.len()
            && new_keys == old_keys.insert(pos, iv[i].0) && new_vals == old_vals.insert(pos, iv[i].1)),
    ensures
        new_vals.len() == new_keys.len(),
        forall|j: int| 0 <= j < new_keys.len() ==> #[trigger] new_vals[j] == last_item(iv.take(i + 1), new_keys[j]),
{
    assert forall|j: int| 0 <= j < new_keys.len() implies #[trigger] new_vals[j] == last_item(iv.take(i + 1), new_keys[j]) by {
        lemma_last_item_take(iv, i, new_keys[j]);
        if j != pos {
            if j < pos {
                assert(seq_lt(new_keys[j], new_keys[pos]));
            } else {
                assert(seq_lt(new_keys[pos], new_keys[j]));
            }
            lemma_lt_irreflexive(new_keys[j]);
            assert(new_keys[j] != new_keys[pos]);
            if new_keys == old_keys {
                assert(new_vals[j] == old_vals[j]);
            } else if j < pos {
                assert(new_vals[j] == old_vals[j]);
                assert(new_keys[j] == old_keys[j]);
            } else {
                assert(new_vals[j] == old_vals[j - 1]);
                assert(new_keys[j] == old_keys[j - 1]);
            }
        }
    }
}

/// Indexes all entities of a project by id; a later entity with the same id
/// replaces an earlier one.
pub fn entities(p: &Project) -> (ix: EntityIndex)
    ensures
        index_ok(ix, p@),
{
    let items = collect_items(p);
    let ghost iv = items_view(items@);
    let mut keys: Vec<String> = Vec::new();
    let mut values: Vec<Entity> = Vec::new();
    for i in 0..items.len()
        invariant
            iv == items_view(items@),
            iv == entity_items(p@),
            views(keys@) == key_set_of(item_ids(iv.take(i as int))),
            values@.len() == keys@.len(),
            forall|j: int| 0 <= j < keys@.len() ==> #[trigger] entity_views(values@)[j] == last_item(iv.take(i as int), views(keys@)[j]),
    {
        let ghost old_keys = views(keys@);
        let ghost old_vals = entity_views(values@);
        let k = &items[i].0;
        let before = keys.len();
        proof {
            assert(item_ids(iv.take(i + 1)).drop_last() =~= item_ids(iv.take(i as int)));
            assert(iv[i as int].0 == k@);
        }
        let pos = insert_key(&mut keys, k.as_str());
        proof {
            lemma_key_set_of(item_ids(iv.take(i + 1)));
        }
        let e = copy_entity(&items[i].1);
        assert(e@ == iv[i as int].1);
        if keys.len() == before {
            values.remove(pos);
            values.insert(pos, e);
            assert(entity_views(values@) =~= old_vals.update(pos as int, iv[i as int].1));
        } else {
            values.insert(pos, e);
            assert(entity_views(values@) =~= old_vals.insert(pos as int, iv[i as int].1));
        }
        proof {
            lemma_index_step(old_keys, views(keys@), old_vals, entity_views(values@), iv, i as int, pos as int);
        }
    }
    assert(iv.take(items.len() as int) =~= iv);
    let ix = EntityIndex { keys, values };
    assert forall|j: int| 0 <= j < ix.keys@.len() implies #[trigger] ix.values@[j]@ == entity_of(p@, ix.keys@[j]@) by {
        assert(entity_views(ix.values@)[j] == ix.values@[j]@);
        assert(views(ix.keys@)[j] == ix.keys@[j]@);
    }
    ix
}


// ---------------------------------------------------------------------------
// Impact: who depends on an element
// ---------------------------------------------------------------------------

/// Some relation goes from `from` to `to`.
pub open spec fn has_edge(e: Seq<RelationV>, from: Seq<char>, to: Seq<char>) -> bool {
    exists|m: int| 0 <= m < e.len() && e[m].from == from && #[trigger] e[m].to == to
}

/// `path[i + 1]` has a relation towards `path[i]` for every step.
pub open spec fn is_chain(e: Seq<RelationV>, path: Seq<Seq<char>>) -> bool {
    forall|i: int, j: int|
        #![trigger path[i], path[j]]
        0 <= i && j == i + 1 && j < path.len() ==> has_edge(e, path[j], path[i])
}

/// `x` depends, directly or through other elements, on `start`: there is a
/// chain of one or more relations from `x` to `start`.
pub open spec fn depends_on(e: Seq<RelationV>, start: Seq<char>, x: Seq<char>) -> bool {
    exists|path: Seq<Seq<char>>|
        #![trigger is_chain(e, path), path.last()]
        path.len() >= 2 && path[0] == start && path.last() == x && is_chain(e, path)
}

pub open spec fn froms(e: Seq<RelationV>) -> Seq<Seq<char>> {
    e.map_values(|r: RelationV| r.from)
}

/// All the elements other than `start` that depend on it, ordered, each once.
pub open spec fn dependent_of(e: Seq<RelationV>, start: Seq<char>) -> spec_fn(Seq<char>) -> bool {
    |x: Seq<char>| x != start && depends_on(e, start, x)
}

pub open spec fn upstream_set(e: Seq<RelationV>, start: Seq<char>) -> Seq<Seq<char>> {
    key_set_of(keep(froms(e), dependent_of(e, start)))
}

pub open spec fn good_dep(e: Seq<RelationV>, start: Seq<char>, x: Seq<char>) -> bool {
    x != start && froms(e).contains(x) && depends_on(e, start, x)
}

/// What `upstream` returns: an ordered list without repetitions of elements
/// that depend on `start`; all of them whenever there are at most 200 in the
/// result (the walk stops once it has found more than 200).
pub open spec fn upstream_ok(e: Seq<RelationV>, start: Seq<char>, r: Seq<Seq<char>>) -> bool {
    &&& strictly_sorted(r)
    &&& forall|i: int| 0 <= i < r.len() ==> upstream_set(e, start).contains(#[trigger] r[i])
    &&& r.len() <= 200 ==> r == upstream_set(e, start)
    &&& r.len() > 200 || r == upstream_set(e, start)
}

proof fn lemma_distinct_len(a: Seq<Seq<char>>, f: Seq<Seq<char>>)
    requires
        a.no_duplicates(),
        forall|i: int| 0 <= i < a.len() ==> f.contains(#[trigger] a[i]),
    ensures
        a.len() <= f.len(),
{
    broadcast use vstd::seq_lib::seq_to_set_is_finite;
    a.unique_seq_to_set();
    f.lemma_cardinality_of_set();
    assert(a.to_set().subset_of(f.to_set())) by {
        assert forall|x: Seq<char>| a.to_set().contains(x) implies f.to_set().contains(x) by {
            let i = choose|i: int| 0 <= i < a.len() && a[i] == x;
            assert(f.contains(a[i]));
        }
    }
    vstd::set_lib::lemma_len_subset(a.to_set(), f.to_set());
}

proof fn lemma_chain_extend(e: Seq<RelationV>, path: Seq<Seq<char>>, x: Seq<char>)
    requires
        path.len() >= 1,
        is_chain(e, path),
        has_edge(e, x, path.last()),
    ensures
        is_chain(e, path.push(x)),
{
    let q = path.push(x);
    assert forall|i: int, j: int| 0 <= i && j == i + 1 && j < q.len() implies has_edge(e, #[trigger] q[j], #[trigger] q[i]) by {
        if j < path.len() {
            assert(q[j] == path[j] && q[i] == path[i]);
        } else {
            assert(q[i] == path.last());
        }
    }
}

/// A closed set of elements contains every element of a chain from start.
proof fn lemma_closed_contains(e: Seq<RelationV>, v: Seq<Seq<char>>, path: Seq<Seq<char>>, k: int)
    requires
        v.len() >= 1,
        path.len() >= 1,
        path[0] == v[0],
        is_chain(e, path),
        forall|i: int, m: int| #![trigger e[m].to, v[i]] 0 <= i < v.len() && 0 <= m < e.len() && e[m].to == v[i] ==> v.contains(e[m].from),
        0 <= k < path.len(),
    ensures
        v.contains(path[k]),
    decreases k,
{
    if k == 0 {
        assert(v[0] == path[0]);
    } else {
        lemma_closed_contains(e, v, path, k - 1);
        assert(has_edge(e, path[k], path[k - 1]));
        let m = choose|m: int| 0 <= m < e.len() && e[m].from == path[k] && #[trigger] e[m].to == path[k - 1];
        let i = choose|i: int| 0 <= i < v.len() && v[i] == path[k - 1];
        assert(e[m].to == v[i]);
    }
}

fn contains_string(v: &Vec<String>, x: &String) -> (b: bool)
    ensures
        b == views(v@).contains(x@),
{
    for i in 0..v.len()
        invariant
            forall|j: int| 0 <= j < i ==> views(v@)[j] != x@,
    {
        if str_eq(v[i].as_str(), x.as_str()) {
            assert(views(v@)[i as int] == x@);
            return true;
        }
    }
    false
}

/// Walks the relations backwards from `start` (breadth first) and returns,
/// ordered, the elements that depend on it; the walk stops once more than
/// 200 have been found.
pub fn upstream(edges: &Vec<Relation>, start: &String) -> (r: Vec<String>)
    ensures
        upstream_ok(relations_view(edges@), start@, views(r@)),
{
    let ghost e = relations_view(edges@);
    let mut v: Vec<String> = Vec::new();
    v.push(start.clone());
    let mut seen: Vec<String> = Vec::new();
    let mut head: usize = 0;
    assert(views(v@).drop_first() =~= Seq::<Seq<char>>::empty());
    while head < v.len() && seen.len() <= 200
        invariant
            e == relations_view(edges@),
            v@.len() >= 1,
            views(v@)[0] == start@,
            head <= v@.len(),
            v@.len() <= e.len() + 1,
            views(v@).no_duplicates(),
            forall|i: int| 1 <= i < v@.len() ==> good_dep(e, start@, #[trigger] views(v@)[i]),
            views(seen@) == key_set_of(views(v@).drop_first()),
            forall|i: int, m: int|
                #![trigger e[m].to, views(v@)[i]]
                0 <= i < head && 0 <= m < e.len() && e[m].to == views(v@)[i] ==> views(
                    v@,
                ).contains(e[m].from),
        decreases e.len() + 1 - head,
    {
        let node = v[head].clone();
        let ghost h = head;
        assert(node@ == views(v@)[head as int]);
        assert(head > 0 ==> good_dep(e, start@, views(v@)[head as int]));
        // a chain from start to node
        let ghost npath: Seq<Seq<char>> = if head == 0 {
            seq![start@]
        } else {
            choose|path: Seq<Seq<char>>|
                path.len() >= 2 && path[0] == start@ && path.last() == node@ && is_chain(e, path)
        };
        assert(npath.len() >= 1 && npath[0] == start@ && npath.last() == node@ && is_chain(e, npath));
        head += 1;
        for m in 0..edges.len()
            invariant
                e == relations_view(edges@),
                h < v@.len(),
                head == h + 1,
                views(v@)[h as int] == node@,
                npath.len() >= 1 && npath[0] == start@ && npath.last() == node@ && is_chain(e, npath),
                v@.len() >= 1,
                views(v@)[0] == start@,
                v@.len() <= e.len() + 1,
                views(v@).no_duplicates(),
                forall|i: int| 1 <= i < v@.len() ==> good_dep(e, start@, #[trigger] views(v@)[i]),
                views(seen@) == key_set_of(views(v@).drop_first()),
                forall|i: int, m2: int|
                    #![trigger e[m2].to, views(v@)[i]]
                    0 <= i < h && 0 <= m2 < e.len() && e[m2].to == views(v@)[i] ==> views(
                        v@,
                    ).contains(e[m2].from),
                forall|m2: int| 0 <= m2 < m && #[trigger] e[m2].to == node@ ==> views(v@).contains(e[m2].from),
        {
            let r = &edges[m];
            assert(e[m as int] == r@);
            if str_eq(r.to.as_str(), node.as_str()) && !str_eq(r.from.as_str(), start.as_str())
                && !contains_string(&v, &r.from) {
                let ghost old_v = views(v@);
                proof {
                    assert(froms(e)[m as int] == r.from@);
                    let nv = old_v.push(r.from@);
                    assert(nv.no_duplicates());
                    assert forall|i: int| 0 <= i < nv.len() implies (#[trigger] nv[i] == start@ || froms(e).contains(nv[i])) by {
                        if i >= 1 && i < old_v.len() {
                            assert(good_dep(e, start@, old_v[i]));
                        }
                    }
                    let fs = froms(e).push(start@);
                    assert forall|i: int| 0 <= i < nv.len() implies fs.contains(#[trigger] nv[i]) by {
                        if nv[i] == start@ {
                            assert(fs[fs.len() - 1] == start@);
                        } else {
                            assert(froms(e).contains(nv[i]));
                            let k = choose|k: int| 0 <= k < froms(e).len() && froms(e)[k] == nv[i];
                            assert(fs[k] == nv[i]);
                        }
                    }
                    lemma_distinct_len(nv, fs);
                    // the new element depends on start
                    assert(e[m as int].to == node@ && e[m as int].from == r.from@);
                    assert(has_edge(e, r.from@, npath.last()));
                    lemma_chain_extend(e, npath, r.from@);
                    let q = npath.push(r.from@);
                    assert(q.len() >= 2 && q[0] == start@ && q.last() == r.from@ && is_chain(e, q));
                    assert(depends_on(e, start@, r.from@));
                    assert(nv.drop_first() == old_v.drop_first().push(r.from@));
                    assert(key_set_of(nv.drop_first()) == crate::ordered::ins_key(key_set_of(old_v.drop_first()), r.from@)) by {
                        assert(nv.drop_first().drop_last() =~= old_v.drop_first());
                    }
                }
                v.push(r.from.clone());
                insert_key(&mut seen, r.from.as_str());
                assert(views(v@) =~= old_v.push(r.from@));
            }
        }
        assert(forall|m2: int| 0 <= m2 < e.len() && #[trigger] e[m2].to == node@ ==> views(v@).contains(e[m2].from));
    }
    proof {
        let vs = views(v@);
        let target = keep(froms(e), dependent_of(e, start@));
        lemma_key_set_of(vs.drop_first());
        lemma_key_set_of(target);
        assert forall|x: Seq<char>| key_set_of(vs.drop_first()).contains(x) implies upstream_set(e, start@).contains(x) by {
            crate::ordered::lemma_key_set_of_at(vs.drop_first(), x);
            crate::ordered::lemma_key_set_of_at(target, x);
            crate::text::lemma_keep_contains_at(froms(e), dependent_of(e, start@), x);
            let d = vs.drop_first();
            assert(d.contains(x));
            let i = choose|i: int| 0 <= i < d.len() && d[i] == x;
            assert(d[i] == vs[i + 1]);
            assert(good_dep(e, start@, vs[i + 1]));
        }
        if head >= v@.len() {
            // the walk is complete: every dependent was found
            assert forall|x: Seq<char>| upstream_set(e, start@).contains(x) implies key_set_of(vs.drop_first()).contains(x) by {
                crate::text::lemma_keep_contains_at(froms(e), dependent_of(e, start@), x);
                crate::ordered::lemma_key_set_of_at(target, x);
                assert(key_set_of(target).contains(x));
                assert(target.contains(x));
                assert(dependent_of(e, start@)(x));
                assert(depends_on(e, start@, x));
                let path = choose|path: Seq<Seq<char>>|
                    #![trigger is_chain(e, path), path.last()]
                    path.len() >= 2 && path[0] == start@ && path.last() == x && is_chain(e, path);
                lemma_closed_contains(e, vs, path, path.len() - 1);
                let i = choose|i: int| 0 <= i < vs.len() && vs[i] == x;
                assert(i != 0);
                assert(vs.drop_first()[i - 1] == x);
                crate::ordered::lemma_key_set_of_at(vs.drop_first(), x);
            }
            crate::ordered::lemma_sorted_unique(key_set_of(vs.drop_first()), upstream_set(e, start@));
        }
        assert(!(head < v@.len() && seen@.len() <= 200));
        assert forall|i: int| 0 <= i < views(seen@).len() implies upstream_set(e, start@).contains(#[trigger] views(seen@)[i]) by {
            assert(key_set_of(vs.drop_first()).contains(views(seen@)[i]));
        }
    }
    seen
}


// ---------------------------------------------------------------------------
// Comparing two versions
// ---------------------------------------------------------------------------

pub open spec fn change_of(p: ProjectV, k: Seq<char>) -> ChangeV {
    ChangeV { kind: entity_of(p, k).kind, id: k, label: entity_of(p, k).label }
}

pub open spec fn not_in(ks: Seq<Seq<char>>) -> spec_fn(Seq<char>) -> bool {
    |k: Seq<char>| !ks.contains(k)
}

pub open spec fn changed_in(old: ProjectV, new: ProjectV) -> spec_fn(Seq<char>) -> bool {
    |k: Seq<char>| entity_keys(old).contains(k) && entity_of(old, k).signature != entity_of(new, k).signature
}

/// Ids present in `new` only, in id order.
pub open spec fn added_keys(old: ProjectV, new: ProjectV) -> Seq<Seq<char>> {
    keep(entity_keys(new), not_in(entity_keys(old)))
}

/// Ids present in both whose signature differs, in id order.
pub open spec fn modified_keys(old: ProjectV, new: ProjectV) -> Seq<Seq<char>> {
    keep(entity_keys(new), changed_in(old, new))
}

/// Ids present in `old` only, in id order.
pub open spec fn removed_keys(old: ProjectV, new: ProjectV) -> Seq<Seq<char>> {
    keep(entity_keys(old), not_in(entity_keys(new)))
}

/// The relations of both versions (so that removed elements are covered).
pub open spec fn graph(old: ProjectV, new: ProjectV) -> Seq<RelationV> {
    old.relations + new.relations
}

/// The label of an id: from the new version, else the old one, else the id.
pub open spec fn label_of(old: ProjectV, new: ProjectV, k: Seq<char>) -> Seq<char> {
    if entity_keys(new).contains(k) {
        entity_of(new, k).label
    } else if entity_keys(old).contains(k) {
        entity_of(old, k).label
    } else {
        k
    }
}

/// The changed ids (modified, then removed) that something depends on.
pub open spec fn impacted_keys(old: ProjectV, new: ProjectV) -> Seq<Seq<char>> {
    keep(
        modified_keys(old, new) + removed_keys(old, new),
        |c: Seq<char>| upstream_set(graph(old, new), c).len() > 0,
    )
}

/// The impact entry for a changed id, given the dependents found for it.
pub open spec fn impact_ok(old: ProjectV, new: ProjectV, c: Seq<char>, imp: ImpactV) -> bool {
    &&& imp.changed == c
    &&& imp.label == label_of(old, new, c)
    &&& exists|d: Seq<Seq<char>>|
        upstream_ok(graph(old, new), c, d) && imp.dependents == d.map_values(
            |x: Seq<char>| label_of(old, new, x),
        )
}

fn find_key(keys: &Vec<String>, k: &String) -> (r: Option<usize>)
    ensures
        r is Some ==> r->0 < keys@.len() && views(keys@)[r->0 as int] == k@,
        r is None ==> !views(keys@).contains(k@),
{
    for i in 0..keys.len()
        invariant
            forall|j: int| 0 <= j < i ==> views(keys@)[j] != k@,
    {
        if str_eq(keys[i].as_str(), k.as_str()) {
            return Some(i);
        }
    }
    None
}

fn change_at(ix: &EntityIndex, j: usize) -> (r: EntityChange)
    requires
        j < ix.keys@.len(),
        ix.values@.len() == ix.keys@.len(),
    ensures
        r@ == (ChangeV { kind: ix.values@[j as int]@.kind, id: ix.keys@[j as int]@, label: ix.values@[j as int]@.label }),
{
    EntityChange {
        kind: ix.values[j].kind.clone(),
        id: ix.keys[j].clone(),
        label: ix.values[j].label.clone(),
    }
}

fn label_in(oi: &EntityIndex, ni: &EntityIndex, old: &Project, new: &Project, k: &String) -> (r: String)
    requires
        index_ok(*oi, old@),
        index_ok(*ni, new@),
    ensures
        r@ == label_of(old@, new@, k@),
{
    match find_key(&ni.keys, k) {
        Some(j) => {
            assert(ni.values@[j as int]@ == entity_of(new@, ni.keys@[j as int]@));
            assert(entity_keys(new@).contains(k@));
            ni.values[j].label.clone()
        },
        None => match find_key(&oi.keys, k) {
            Some(j) => {
                assert(oi.values@[j as int]@ == entity_of(old@, oi.keys@[j as int]@));
                assert(entity_keys(old@).contains(k@));
                oi.values[j].label.clone()
            },
            None => k.clone(),
        },
    }
}

/// Compares two projects: what was added, removed and modified, and who is
/// impacted by each modified or removed element.
#[verifier::spinoff_prover]
#[verifier::rlimit(40)]
pub fn diff(old: &Project, new: &Project) -> (cs: ChangeSet)
    ensures
        changes_view(cs.added@) == added_keys(old@, new@).map_values(|k: Seq<char>| change_of(new@, k)),
        changes_view(cs.modified@) == modified_keys(old@, new@).map_values(
            |k: Seq<char>| change_of(new@, k),
        ),
        changes_view(cs.removed@) == removed_keys(old@, new@).map_values(
            |k: Seq<char>| change_of(old@, k),
        ),
        cs.impacted@.len() == impacted_keys(old@, new@).len(),
        forall|i: int|
            0 <= i < cs.impacted@.len() ==> impact_ok(
                old@,
                new@,
                impacted_keys(old@, new@)[i],
                #[trigger] cs.impacted@[i]@,
            ),
{
    let oi = entities(old);
    let ni = entities(new);
    let ghost ok = entity_keys(old@);
    let ghost nk = entity_keys(new@);
    let mut added: Vec<EntityChange> = Vec::new();
    let mut modified: Vec<EntityChange> = Vec::new();
    let mut changed: Vec<String> = Vec::new();
    for j in 0..ni.keys.len()
        invariant
            index_ok(oi, old@),
            index_ok(ni, new@),
            ok == entity_keys(old@),
            nk == entity_keys(new@),
            changes_view(added@) == keep(nk.take(j as int), not_in(ok)).map_values(|k: Seq<char>| change_of(new@, k)),
            changes_view(modified@) == keep(nk.take(j as int), changed_in(old@, new@)).map_values(
                |k: Seq<char>| change_of(new@, k),
            ),
            views(changed@) == keep(nk.take(j as int), changed_in(old@, new@)),
    {
        let k = &ni.keys[j];
        proof {
            lemma_keep_take(nk, not_in(ok), j as int);
            lemma_keep_take(nk, changed_in(old@, new@), j as int);
            assert(nk[j as int] == k@);
            assert(ni.values@[j as int]@ == entity_of(new@, k@));
        }
        match find_key(&oi.keys, k) {
            None => {
                let ghost before = added@;
                added.push(change_at(&ni, j));
                proof {
                    lemma_map_push(before, |c: EntityChange| c@, added@.last());
                    assert(added@ == before.push(added@.last()));
                }
            },
            Some(o) => {
                assert(oi.values@[o as int]@ == entity_of(old@, k@));
                if !str_eq(oi.values[o].signature.as_str(), ni.values[j].signature.as_str()) {
                    let ghost before = modified@;
                    let ghost before_c = changed@;
                    modified.push(change_at(&ni, j));
                    changed.push(k.clone());
                    proof {
                        lemma_map_push(before, |c: EntityChange| c@, modified@.last());
                        assert(modified@ == before.push(modified@.last()));
                        lemma_map_push(before_c, |c: String| c@, changed@.last());
                        assert(changed@ == before_c.push(changed@.last()));
                    }
                }
            },
        }
    }
    assert(nk.take(ni.keys@.len() as int) =~= nk);
    let mut removed: Vec<EntityChange> = Vec::new();
    let ghost mod_ids = views(changed@);
    for j in 0..oi.keys.len()
        invariant
            index_ok(oi, old@),
            index_ok(ni, new@),
            ok == entity_keys(old@),
            nk == entity_keys(new@),
            changes_view(removed@) == keep(ok.take(j as int), not_in(nk)).map_values(|k: Seq<char>| change_of(old@, k)),
            views(changed@) == mod_ids + keep(ok.take(j as int), not_in(nk)),
    {
        let k = &oi.keys[j];
        proof {
            lemma_keep_take(ok, not_in(nk), j as int);
            assert(ok[j as int] == k@);
            assert(oi.values@[j as int]@ == entity_of(old@, k@));
        }
        if find_key(&ni.keys, k).is_none() {
            let ghost before = removed@;
            let ghost before_c = changed@;
            removed.push(change_at(&oi, j));
            changed.push(k.clone());
            proof {
                lemma_map_push(before, |c: EntityChange| c@, removed@.last());
                assert(removed@ == before.push(removed@.last()));
                lemma_map_push(before_c, |c: String| c@, changed@.last());
                assert(changed@ == before_c.push(changed@.last()));
            }
        }
    }
    assert(ok.take(oi.keys@.len() as int) =~= ok);
    // the relations of both versions, old first
    let mut edges: Vec<Relation> = Vec::new();
    for i in 0..old.relations.len()
        invariant
            relations_view(edges@) == old@.relations.take(i as int),
    {
        let ghost before = edges@;
        edges.push(old.relations[i].copy());
        proof {
            lemma_map_push(before, |r: Relation| r@, edges@.last());
            assert(edges@ == before.push(edges@.last()));
            lemma_map_take(old.relations@, |r: Relation| r@, i as int);
        }
    }
    assert(old@.relations.take(old.relations@.len() as int) =~= old@.relations);
    for i in 0..new.relations.len()
        invariant
            relations_view(edges@) == old@.relations + new@.relations.take(i as int),
    {
        let ghost before = edges@;
        edges.push(new.relations[i].copy());
        proof {
            lemma_map_push(before, |r: Relation| r@, edges@.last());
            assert(edges@ == before.push(edges@.last()));
            lemma_map_take(new.relations@, |r: Relation| r@, i as int);
        }
    }
    assert(new@.relations.take(new.relations@.len() as int) =~= new@.relations);
    let ghost g = graph(old@, new@);
    assert(relations_view(edges@) == g);
    let ghost cids = views(changed@);
    assert(cids == modified_keys(old@, new@) + removed_keys(old@, new@));
    let ghost has_dep = |c: Seq<char>| upstream_set(g, c).len() > 0;
    let mut impacted: Vec<Impact> = Vec::new();
    for i in 0..changed.len()
        invariant
            index_ok(oi, old@),
            index_ok(ni, new@),
            g == graph(old@, new@),
            relations_view(edges@) == g,
            cids == views(changed@),
            has_dep == (|c: Seq<char>| upstream_set(g, c).len() > 0),
            impacted@.len() == keep(cids.take(i as int), has_dep).len(),
            forall|m: int|
                0 <= m < impacted@.len() ==> impact_ok(
                    old@,
                    new@,
                    keep(cids.take(i as int), has_dep)[m],
                    #[trigger] impacted@[m]@,
                ),
    {
        let c = &changed[i];
        assert(cids[i as int] == c@);
        proof {
            lemma_keep_take(cids, has_dep, i as int);
        }
        let deps = upstream(&edges, c);
        if deps.len() > 0 {
            assert(upstream_set(g, c@).contains(views(deps@)[0]));
            assert(has_dep(c@));
            let mut labels: Vec<String> = Vec::new();
            for m in 0..deps.len()
                invariant
                    index_ok(oi, old@),
                    index_ok(ni, new@),
                    views(labels@) == views(deps@).take(m as int).map_values(|x: Seq<char>| label_of(old@, new@, x)),
            {
                let ghost before = labels@;
                labels.push(label_in(&oi, &ni, old, new, &deps[m]));
                proof {
                    lemma_map_push(before, |x: String| x@, labels@.last());
                    assert(labels@ == before.push(labels@.last()));
                    lemma_map_take(views(deps@), |x: Seq<char>| label_of(old@, new@, x), m as int);
                }
            }
            assert(views(deps@).take(deps@.len() as int) =~= views(deps@));
            let imp = Impact { changed: c.clone(), label: label_in(&oi, &ni, old, new, c), dependents: labels };
            assert(impact_ok(old@, new@, c@, imp@));
            impacted.push(imp);
        } else {
            assert(views(deps@).len() <= 200);
            assert(!has_dep(c@));
        }
    }
    assert(cids.take(changed@.len() as int) =~= cids);
    ChangeSet { added, removed, modified, impacted }
}

} // verus!
