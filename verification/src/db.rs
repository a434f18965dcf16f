//! Live database introspection: the rows read from `information_schema`
//! and their assembly into the [`Table`] model.
//!
//! The connection and the queries are I/O and stand in the program around
//! the library; turning the rows into tables is pure logic and stands here.

use vstd::prelude::*;
use crate::model::{Column, ColumnV, ForeignKey, ForeignKeyV, Table, TableV, tables_view};
use crate::ordered::{insert_key, key_set_of, lemma_key_set_of};
use crate::text::{concat2, keep, lemma_keep_nonempty, lemma_keep_take, lowercase_of, opt_view, str_eq, to_lower, views};

verus! {

broadcast use vstd::seq_lib::group_seq_properties;

/// A column row read from `information_schema.columns`.
pub struct ColRow {
    pub schema: String,
    pub table: String,
    pub column: String,
    pub data_type: String,
    pub nullable: bool,
}

/// A primary-key row.
pub struct PkRow {
    pub schema: String,
    pub table: String,
    pub column: String,
}

/// A foreign-key row.
pub struct FkRow {
    pub schema: String,
    pub table: String,
    pub column: String,
    pub ref_table: String,
    pub ref_column: String,
}

/// The key that groups rows into tables: `schema.table`.
pub open spec fn row_key(schema: Seq<char>, table: Seq<char>) -> Seq<char> {
    schema + seq!['.'] + table
}

pub open spec fn col_key(c: ColRow) -> Seq<char> {
    row_key(c.schema@, c.table@)
}

/// The keys of the tables, in the order of the map that collects them.
pub open spec fn assembled_keys(cols: Seq<ColRow>) -> Seq<Seq<char>> {
    key_set_of(cols.map_values(|c: ColRow| col_key(c)))
}

/// The column rows of the table with key `k`, in their order.
pub open spec fn rows_of(cols: Seq<ColRow>, k: Seq<char>) -> Seq<ColRow> {
    keep(cols, |c: ColRow| col_key(c) == k)
}

/// The `j`-th column of a table is a primary key when some primary-key row of
/// the table names it and no earlier column of the table has that name (the
/// first column of that name is the one marked).
pub open spec fn is_pk_at(cs: Seq<ColRow>, pks: Seq<PkRow>, k: Seq<char>, j: int) -> bool {
    &&& exists|p: int|
        0 <= p < pks.len() && #[trigger] row_key(pks[p].schema@, pks[p].table@) == k && pks[p].column@
            == cs[j].column@
    &&& forall|j2: int| 0 <= j2 < j ==> #[trigger] cs[j2].column@ != cs[j].column@
}

pub open spec fn fk_view(f: FkRow) -> ForeignKeyV {
    ForeignKeyV { column: f.column@, references_table: f.ref_table@, references_column: f.ref_column@ }
}

/// The table that the rows with key `k` describe.
pub open spec fn assembled_table(
    cols: Seq<ColRow>,
    pks: Seq<PkRow>,
    fks: Seq<FkRow>,
    k: Seq<char>,
) -> TableV {
    let cs = rows_of(cols, k);
    TableV {
        id: "table:"@ + lowercase_of(cs[0].table@),
        name: cs[0].table@,
        schema: Some(cs[0].schema@),
        columns: Seq::new(
            cs.len(),
            |j: int|
                ColumnV {
                    name: cs[j].column@,
                    data_type: cs[j].data_type@,
                    nullable: cs[j].nullable,
                    primary_key: is_pk_at(cs, pks, k, j),
                },
        ),
        foreign_keys: keep(fks, |f: FkRow| row_key(f.schema@, f.table@) == k).map_values(
            |f: FkRow| fk_view(f),
        ),
    }
}

fn key_of(schema: &String, table: &String) -> (r: String)
    ensures
        r@ == row_key(schema@, table@),
{
    proof {
        reveal_strlit(".");
    }
    let mut r = concat2(schema.as_str(), ".");
    r.append(table.as_str());
    r
}

pub open spec fn row_same(a: ColRow, b: ColRow) -> bool {
    a.schema@ == b.schema@ && a.table@ == b.table@ && a.column@ == b.column@ && a.data_type@
        == b.data_type@ && a.nullable == b.nullable
}

pub open spec fn rows_same(a: Seq<ColRow>, b: Seq<ColRow>) -> bool {
    a.len() == b.len() && forall|q: int| 0 <= q < a.len() ==> row_same(#[trigger] a[q], b[q])
}

/// Columns of one table, before primary keys are marked.
fn columns_of(cols: &Vec<ColRow>, k: &String) -> (r: Vec<ColRow>)
    ensures
        rows_same(r@, rows_of(cols@, k@)),
{
    let ghost p = |c: ColRow| col_key(c) == k@;
    let mut r: Vec<ColRow> = Vec::new();
    for i in 0..cols.len()
        invariant
            p == (|c: ColRow| col_key(c) == k@),
            rows_same(r@, keep(cols@.take(i as int), p)),
    {
        proof {
            lemma_keep_take(cols@, p, i as int);
        }
        let c = &cols[i];
        let ck = key_of(&c.schema, &c.table);
        if str_eq(ck.as_str(), k.as_str()) {
            r.push(
                ColRow {
                    schema: c.schema.clone(),
                    table: c.table.clone(),
                    column: c.column.clone(),
                    data_type: c.data_type.clone(),
                    nullable: c.nullable,
                },
            );
        }
    }
    assert(cols@.take(cols.len() as int) =~= cols@);
    r
}

fn foreign_keys_of(fks: &Vec<FkRow>, k: &String) -> (r: Vec<ForeignKey>)
    ensures
        r@.map_values(|f: ForeignKey| f@) == keep(fks@, |f: FkRow| row_key(f.schema@, f.table@) == k@).map_values(
            |f: FkRow| fk_view(f),
        ),
{
    let ghost p = |f: FkRow| row_key(f.schema@, f.table@) == k@;
    let mut r: Vec<ForeignKey> = Vec::new();
    for i in 0..fks.len()
        invariant
            p == (|f: FkRow| row_key(f.schema@, f.table@) == k@),
            r@.map_values(|f: ForeignKey| f@) == keep(fks@.take(i as int), p).map_values(
                |f: FkRow| fk_view(f),
            ),
    {
        proof {
            lemma_keep_take(fks@, p, i as int);
        }
        let f = &fks[i];
        let fk = key_of(&f.schema, &f.table);
        if str_eq(fk.as_str(), k.as_str()) {
            assert(p(fks@[i as int]));
            let ghost old_r = r@;
            r.push(
                ForeignKey {
                    column: f.column.clone(),
                    references_table: f.ref_table.clone(),
                    references_column: f.ref_column.clone(),
                },
            );
            assert(r@ == old_r.push(r@.last()));
            assert(r@.last()@ == fk_view(fks@[i as int]));
            assert(keep(fks@.take(i + 1), p) == keep(fks@.take(i as int), p).push(fks@[i as int]));
            assert(r@.map_values(|f: ForeignKey| f@) =~= old_r.map_values(|f: ForeignKey| f@).push(r@.last()@));
            assert(keep(fks@.take(i + 1), p).map_values(|f: FkRow| fk_view(f)) =~= keep(fks@.take(i as int), p).map_values(|f: FkRow| fk_view(f)).push(fk_view(fks@[i as int])));
            assert(r@.map_values(|f: ForeignKey| f@) =~= keep(fks@.take(i + 1), p).map_values(
                |f: FkRow| fk_view(f),
            ));
        }
    }
    assert(fks@.take(fks.len() as int) =~= fks@);
    r
}

/// Whether the `j`-th column of the table has a primary-key row.
fn pk_named(pks: &Vec<PkRow>, k: &String, name: &String) -> (b: bool)
    ensures
        b == exists|p: int|
            0 <= p < pks@.len() && #[trigger] row_key(pks@[p].schema@, pks@[p].table@) == k@
                && pks@[p].column@ == name@,
{
    for i in 0..pks.len()
        invariant
            forall|p: int|
                0 <= p < i ==> !(#[trigger] row_key(pks@[p].schema@, pks@[p].table@) == k@
                    && pks@[p].column@ == name@),
    {
        let pk = &pks[i];
        let pkey = key_of(&pk.schema, &pk.table);
        if str_eq(pkey.as_str(), k.as_str()) && str_eq(pk.column.as_str(), name.as_str()) {
            return true;
        }
    }
    false
}

/// Assembles raw rows into `Table`s: one table per `schema.table` key, in the
/// order of the keys; its columns in row order, the first column named by a
/// primary-key row marked as primary key, and its foreign keys in row order.
/// Foreign-key and primary-key rows of unknown tables are ignored.
pub fn assemble(cols: Vec<ColRow>, pks: Vec<PkRow>, fks: Vec<FkRow>) -> (r: Vec<Table>)
    ensures
        tables_view(r@) == assembled_keys(cols@).map_values(
            |k: Seq<char>| assembled_table(cols@, pks@, fks@, k),
        ),
{
    let ghost ks = cols@.map_values(|c: ColRow| col_key(c));
    let mut keys: Vec<String> = Vec::new();
    for i in 0..cols.len()
        invariant
            ks == cols@.map_values(|c: ColRow| col_key(c)),
            views(keys@) == key_set_of(ks.take(i as int)),
    {
        let k = key_of(&cols[i].schema, &cols[i].table);
        insert_key(&mut keys, k.as_str());
        assert(ks.take(i + 1).drop_last() =~= ks.take(i as int));
    }
    assert(ks.take(cols.len() as int) =~= ks);
    proof {
        lemma_key_set_of(ks);
    }
    let ghost expected = assembled_keys(cols@).map_values(
        |k: Seq<char>| assembled_table(cols@, pks@, fks@, k),
    );
    let mut out: Vec<Table> = Vec::new();
    for t in 0..keys.len()
        invariant
            views(keys@) == key_set_of(ks),
            ks == cols@.map_values(|c: ColRow| col_key(c)),
            forall|x: Seq<char>| key_set_of(ks).contains(x) <==> ks.contains(x),
            expected == assembled_keys(cols@).map_values(
                |k: Seq<char>| assembled_table(cols@, pks@, fks@, k),
            ),
            tables_view(out@) == expected.take(t as int),
    {
        let k = &keys[t];
        let ghost kv = k@;
        let ghost cs = rows_of(cols@, kv);
        assert(key_set_of(ks)[t as int] == kv);
        assert(key_set_of(ks).contains(kv));
        assert(ks.contains(kv));
        proof {
            let i0 = choose|i: int| 0 <= i < ks.len() && ks[i] == kv;
            assert(ks[i0] == col_key(cols@[i0]));
            lemma_keep_nonempty(cols@, |c: ColRow| col_key(c) == kv, i0);
        }
        let cs_rows = columns_of(&cols, k);
        assert(cs_rows@.len() > 0);
        let mut columns: Vec<Column> = Vec::new();
        for j in 0..cs_rows.len()
            invariant
                cs == rows_of(cols@, kv),
                kv == k@,
                rows_same(cs_rows@, cs),
                columns@.len() == j,
                forall|m: int|
                    0 <= m < j ==> #[trigger] columns@[m]@ == (ColumnV {
                        name: cs[m].column@,
                        data_type: cs[m].data_type@,
                        nullable: cs[m].nullable,
                        primary_key: is_pk_at(cs, pks@, kv, m),
                    }),
        {
            let row = &cs_rows[j];
            assert(row_same(cs_rows@[j as int], cs[j as int]));
            let name = row.column.clone();
            assert(name@ == cs[j as int].column@);
            let mut first_of_name = true;
            let mut j2: usize = 0;
            while j2 < j
                invariant
                    j < cs_rows@.len(),
                    j2 <= j,
                    rows_same(cs_rows@, cs),
                    name@ == cs[j as int].column@,
                    first_of_name == forall|m: int| 0 <= m < j2 ==> #[trigger] cs[m].column@ != cs[j as int].column@,
                decreases j - j2,
            {
                assert(row_same(cs_rows@[j2 as int], cs[j2 as int]));
                assert(row_same(cs_rows@[j as int], cs[j as int]));
                assert(cs_rows@[j2 as int].column@ == cs[j2 as int].column@);
                assert(cs_rows@[j as int].column@ == cs[j as int].column@);
                if str_eq(cs_rows[j2].column.as_str(), name.as_str()) {
                    first_of_name = false;
                }
                j2 += 1;
            }
            assert(row_same(cs_rows@[j as int], cs[j as int]));
            let named = pk_named(&pks, k, &row.column);
            columns.push(
                Column {
                    name: row.column.clone(),
                    data_type: row.data_type.clone(),
                    nullable: row.nullable,
                    primary_key: named && first_of_name,
                },
            );
        }
        let foreign_keys = foreign_keys_of(&fks, k);
        let table = Table {
            id: concat2("table:", to_lower(cs_rows[0].table.as_str()).as_str()),
            name: cs_rows[0].table.clone(),
            schema: Some(cs_rows[0].schema.clone()),
            columns,
            foreign_keys,
        };
        assert(table@.columns =~= assembled_table(cols@, pks@, fks@, kv).columns);
        assert(table@ == assembled_table(cols@, pks@, fks@, kv));
        assert(expected[t as int] == assembled_table(cols@, pks@, fks@, kv));
        let ghost old_out = out@;
        out.push(table);
        assert(out@ == old_out.push(out@.last()));
        assert(out@.last()@ == expected[t as int]);
        assert(tables_view(out@) =~= tables_view(old_out).push(out@.last()@));
        assert(expected.take(t + 1) =~= expected.take(t as int).push(expected[t as int]));
        assert(tables_view(out@) =~= expected.take(t + 1));
    }
    assert(expected.take(keys.len() as int) =~= expected);
    out
}

/// Keeps only the tables of the given schema (all of them when `schema` is
/// `None`), in their order.
pub fn filter_schema(tables: Vec<Table>, schema: Option<&str>) -> (r: Vec<Table>)
    ensures
        tables_view(r@) == (match schema {
            None => tables_view(tables@),
            Some(s) => keep(tables_view(tables@), |t: TableV| t.schema == Some(s@)),
        }),
{
    match schema {
        None => tables,
        Some(s) => {
            let ghost tv = tables_view(tables@);
            let ghost p = |t: TableV| t.schema == Some(s@);
            let mut out: Vec<Table> = Vec::new();
            let ghost orig = tables@;
            let n = tables.len();
            for t in it: tables.into_iter()
                invariant
                    n == orig.len(),
                    it.seq() == orig,
                    tv == tables_view(orig),
                    p == (|t: TableV| t.schema == Some(s@)),
                    tables_view(out@) == keep(tv.take(it.index()), p),
            {
                proof {
                    lemma_keep_take(tv, p, it.index());
                }
                let keep_it = match &t.schema {
                    Some(sc) => str_eq(sc.as_str(), s),
                    None => false,
                };
                if keep_it {
                    out.push(t);
                }
            }
            assert(tv.take(n as int) =~= tv);
            out
        }
    }
}

/// Whether a column admits NULL, from the `is_nullable` column of
/// `information_schema.columns`: exactly the text `YES`.
pub fn nullable_flag(is_nullable: &str) -> (r: bool)
    ensures
        r == (is_nullable@ == "YES"@),
{
    str_eq(is_nullable, "YES")
}

} // verus!
