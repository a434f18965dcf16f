//! Database analysis: tables, columns and foreign keys from DDL files
//! (`.sql`), in the `CREATE TABLE` syntax common to Oracle and PostgreSQL.

use vstd::prelude::*;
use super::{SourceFile, ext, ext_of, first_match, first_match_of, group, group_at, last_index_of, last_index_of_char, lemma_last_index_of, regex_captures, regex_captures_of};
use crate::model::{Column, ColumnV, ForeignKey, ForeignKeyV, Project, ProjectV, Table, TableV, tables_view};
use crate::text::{
    concat2, contains, contains_seq, find_chars, find_from, flatten, has_prefix, lemma_flatten_take,
    lemma_map_push, lowercase_of, push_char, split_words, starts_with, str_eq, string_of_range,
    to_chars, to_lower, trim, trim_end_char, trim_end_matches_char, trim_seq, views, words,
};

verus! {

broadcast use vstd::seq_lib::group_seq_properties;

/// `CREATE TABLE [schema.]name ( ...body... );`
pub const TABLE_PATTERN: &'static str = r#"(?is)create\s+table\s+(?:if\s+not\s+exists\s+)?["`\[]?([\w.]+)["`\]]?\s*\((.*?)\)\s*;"#;

/// A table-level `FOREIGN KEY (col) REFERENCES other(col)` constraint.
pub const FK_PATTERN: &'static str = r#"(?i)foreign\s+key\s*\(\s*["`\[]?(\w+)["`\]]?\s*\)\s*references\s+["`\[]?([\w.]+)["`\]]?\s*\(\s*["`\[]?(\w+)["`\]]?\s*\)"#;

/// What follows `REFERENCES` in an inline foreign key: `other(col)`.
pub const INLINE_FK_PATTERN: &'static str = r#"(?i)\s*["`\[]?([\w.]+)["`\]]?\s*\(\s*["`\[]?(\w+)["`\]]?\s*\)"#;

// ---------------------------------------------------------------------------
// Specification
// ---------------------------------------------------------------------------

/// `schema.table` split at the last dot; the schema is optional.
pub open spec fn split_schema_spec(raw: Seq<char>) -> (Option<Seq<char>>, Seq<char>) {
    match last_index_of(raw, '.') {
        Some(i) => (Some(raw.subrange(0, i)), raw.subrange(i + 1, raw.len() as int)),
        None => (None, raw),
    }
}

/// The scanner state after reading `s`: finished pieces, current piece and
/// parenthesis depth.
pub open spec fn scan_top(s: Seq<char>) -> (Seq<Seq<char>>, Seq<char>, i32)
    decreases s.len(),
{
    if s.len() == 0 {
        (Seq::empty(), Seq::empty(), 0)
    } else {
        let (out, cur, d) = scan_top(s.drop_last());
        let ch = s.last();
        if ch == '(' {
            (out, cur.push(ch), d.wrapping_add(1))
        } else if ch == ')' {
            (out, cur.push(ch), d.wrapping_sub(1))
        } else if ch == ',' && d == 0 {
            (out.push(cur), Seq::empty(), d)
        } else {
            (out, cur.push(ch), d)
        }
    }
}

/// The body split on the commas outside parentheses (`NUMBER(10,2)` stays
/// whole); a final piece made only of white space is dropped.
pub open spec fn split_top_level_spec(body: Seq<char>) -> Seq<Seq<char>> {
    let (out, cur, _d) = scan_top(body);
    if trim_seq(cur).len() > 0 {
        out.push(cur)
    } else {
        out
    }
}

pub open spec fn is_quote(c: char) -> bool {
    c == '"' || c == '`' || c == '[' || c == ']'
}

pub open spec fn trim_quotes_start(s: Seq<char>) -> Seq<char>
    decreases s.len(),
{
    if s.len() > 0 && is_quote(s[0]) {
        trim_quotes_start(s.drop_first())
    } else {
        s
    }
}

pub open spec fn trim_quotes_end(s: Seq<char>) -> Seq<char>
    decreases s.len(),
{
    if s.len() > 0 && is_quote(s.last()) {
        trim_quotes_end(s.drop_last())
    } else {
        s
    }
}

/// The name without quoting characters `"`, `` ` ``, `[`, `]` at either end.
pub open spec fn trim_quotes(s: Seq<char>) -> Seq<char> {
    trim_quotes_end(trim_quotes_start(s))
}

/// A table-level constraint line, which is not a column.
pub open spec fn is_constraint_line(lower: Seq<char>) -> bool {
    has_prefix(lower, "primary key"@) || has_prefix(lower, "constraint"@) || has_prefix(
        lower,
        "unique"@,
    ) || has_prefix(lower, "foreign key"@) || has_prefix(lower, "check"@)
}

/// The inline foreign key of column `col`, read from what follows `REFERENCES`.
pub open spec fn inline_fk(col: Seq<char>, after: Seq<char>) -> Seq<ForeignKeyV> {
    match first_match(INLINE_FK_PATTERN@, after) {
        Some(m) => match (group(m, 1), group(m, 2)) {
            (Some(t), Some(c)) => seq![
                ForeignKeyV { column: col, references_table: split_schema_spec(t).1, references_column: c },
            ],
            _ => Seq::empty(),
        },
        None => Seq::empty(),
    }
}

/// What a line of the body contributes: maybe a column, and foreign keys.
///
/// A line holding a table-level foreign key gives that key. A constraint line
/// gives nothing. Otherwise the first word is the column name (unquoted) and
/// the second its type (`?` when missing, trailing commas removed); the column
/// is nullable unless the line says `not null`, a primary key when it says
/// `primary key`; and a `references other(col)` after it gives an inline
/// foreign key. The position of `references` is found in the lower-case line
/// and applied to the line itself.
pub open spec fn line_parts(line: Seq<char>) -> (Option<ColumnV>, Seq<ForeignKeyV>) {
    let l = trim_seq(line);
    let lower = lowercase_of(l);
    if lower.len() == 0 {
        (None, Seq::empty())
    } else {
        match first_match(FK_PATTERN@, l) {
            Some(m) => match (group(m, 1), group(m, 2), group(m, 3)) {
                (Some(c), Some(t), Some(rc)) => (
                    None,
                    seq![
                        ForeignKeyV {
                            column: c,
                            references_table: split_schema_spec(t).1,
                            references_column: rc,
                        },
                    ],
                ),
                _ => (None, Seq::empty()),
            },
            None => if is_constraint_line(lower) {
                (None, Seq::empty())
            } else {
                let ws = words(l);
                if ws.len() == 0 {
                    (None, Seq::empty())
                } else {
                    let name = ws[0];
                    let dt = if ws.len() > 1 {
                        trim_end_char(ws[1], ',')
                    } else {
                        "?"@
                    };
                    let col = ColumnV {
                        name: trim_quotes(name),
                        data_type: dt,
                        nullable: !contains_seq(lower, "not null"@),
                        primary_key: contains_seq(lower, "primary key"@),
                    };
                    let fks = match find_from(lower, "references"@, 0) {
                        Some(idx) => {
                            let from = if idx + 10 <= l.len() {
                                idx + 10
                            } else {
                                l.len() as int
                            };
                            inline_fk(name, l.subrange(from, l.len() as int))
                        },
                        None => Seq::empty(),
                    };
                    (Some(col), fks)
                }
            },
        }
    }
}

pub open spec fn opt_seq<A>(o: Option<A>) -> Seq<A> {
    match o {
        Some(x) => seq![x],
        None => Seq::empty(),
    }
}

/// The columns of a `CREATE TABLE` body.
pub open spec fn body_columns(body: Seq<char>) -> Seq<ColumnV> {
    flatten(split_top_level_spec(body).map_values(|l: Seq<char>| opt_seq(line_parts(l).0)))
}

/// The foreign keys of a `CREATE TABLE` body.
pub open spec fn body_fks(body: Seq<char>) -> Seq<ForeignKeyV> {
    flatten(split_top_level_spec(body).map_values(|l: Seq<char>| line_parts(l).1))
}

/// The table that one `CREATE TABLE` match describes.
pub open spec fn table_of_match(m: Seq<Option<Seq<char>>>) -> Seq<TableV> {
    match (group(m, 1), group(m, 2)) {
        (Some(raw), Some(body)) => {
            let (schema, name) = split_schema_spec(raw);
            seq![
                TableV {
                    id: "table:"@ + lowercase_of(name),
                    name,
                    schema,
                    columns: body_columns(body),
                    foreign_keys: body_fks(body),
                },
            ]
        },
        _ => Seq::empty(),
    }
}

/// The tables a file declares: every `CREATE TABLE` of a `.sql` file.
pub open spec fn file_tables(f: SourceFile) -> Seq<TableV> {
    if ext_of(f.path@) == "sql"@ {
        match f.text {
            Some(t) => match regex_captures_of(TABLE_PATTERN@, t@) {
                Some(ms) => flatten(ms.map_values(|m: Seq<Option<Seq<char>>>| table_of_match(m))),
                None => Seq::empty(),
            },
            None => Seq::empty(),
        }
    } else {
        Seq::empty()
    }
}

// ---------------------------------------------------------------------------
// Implementation
// ---------------------------------------------------------------------------

/// Splits `schema.table` into its two parts (schema optional).
pub fn split_schema(raw: &str) -> (r: (Option<String>, String))
    ensures
        (crate::text::opt_view(r.0), r.1@) == split_schema_spec(raw@),
{
    let v = to_chars(raw);
    match last_index_of_char(&v, '.') {
        Some(i) => {
            proof {
                lemma_last_index_of(v@, '.');
            }
            (Some(string_of_range(&v, 0, i)), string_of_range(&v, i + 1, v.len()))
        },
        None => (None, raw.to_string()),
    }
}

proof fn lemma_scan_take(s: Seq<char>, i: int)
    requires
        0 <= i < s.len(),
    ensures
        scan_top(s.take(i + 1)) == ({
            let (out, cur, d) = scan_top(s.take(i));
            let ch = s[i];
            if ch == '(' {
                (out, cur.push(ch), d.wrapping_add(1))
            } else if ch == ')' {
                (out, cur.push(ch), d.wrapping_sub(1))
            } else if ch == ',' && d == 0 {
                (out.push(cur), Seq::empty(), d)
            } else {
                (out, cur.push(ch), d)
            }
        }),
{
    assert(s.take(i + 1).drop_last() =~= s.take(i));
}

/// Splits the body on the commas at parenthesis depth zero.
pub fn split_top_level(body: &str) -> (r: Vec<String>)
    ensures
        views(r@) == split_top_level_spec(body@),
{
    let v = to_chars(body);
    let mut out: Vec<String> = Vec::new();
    let mut depth: i32 = 0;
    let mut cur = String::new();
    for i in 0..v.len()
        invariant
            v@ == body@,
            scan_top(v@.take(i as int)) == (views(out@), cur@, depth),
    {
        proof {
            lemma_scan_take(v@, i as int);
        }
        let ch = v[i];
        if ch == '(' {
            depth = depth.wrapping_add(1);
            push_char(&mut cur, ch);
        } else if ch == ')' {
            depth = depth.wrapping_sub(1);
            push_char(&mut cur, ch);
        } else if ch == ',' && depth == 0 {
            let ghost before = out@;
            let piece = cur;
            out.push(piece);
            proof {
                lemma_map_push(before, |s: String| s@, out@.last());
                assert(out@ == before.push(out@.last()));
            }
            cur = String::new();
        } else {
            push_char(&mut cur, ch);
        }
    }
    assert(v@.take(v.len() as int) =~= v@);
    let t = trim(cur.as_str());
    if !t.as_str().is_empty() {
        let ghost before = out@;
        out.push(cur);
        proof {
            lemma_map_push(before, |s: String| s@, out@.last());
            assert(out@ == before.push(out@.last()));
        }
    }
    out
}

/// The name without quoting characters at either end.
pub fn unquote(s: &str) -> (r: String)
    ensures
        r@ == trim_quotes(s@),
{
    let v = to_chars(s);
    let mut i: usize = 0;
    assert(v@.subrange(0, v.len() as int) =~= v@);
    while i < v.len() && (v[i] == '"' || v[i] == '`' || v[i] == '[' || v[i] == ']')
        invariant
            i <= v.len(),
            trim_quotes_start(v@) == trim_quotes_start(v@.subrange(i as int, v.len() as int)),
        decreases v.len() - i,
    {
        assert(v@.subrange(i as int, v.len() as int).drop_first() =~= v@.subrange(i + 1, v.len() as int));
        i += 1;
    }
    let mut j = v.len();
    assert(v@.subrange(i as int, j as int) =~= v@.subrange(i as int, v.len() as int));
    while j > i && (v[j - 1] == '"' || v[j - 1] == '`' || v[j - 1] == '[' || v[j - 1] == ']')
        invariant
            i <= j <= v.len(),
            trim_quotes_end(v@.subrange(i as int, v.len() as int)) == trim_quotes_end(v@.subrange(i as int, j as int)),
        decreases j,
    {
        assert(v@.subrange(i as int, j as int).drop_last() =~= v@.subrange(i as int, j - 1));
        j -= 1;
    }
    string_of_range(&v, i, j)
}

fn inline_fk_of(col: &String, after: &String) -> (r: Vec<ForeignKey>)
    ensures
        r@.map_values(|f: ForeignKey| f@) == inline_fk(col@, after@),
{
    let mut r: Vec<ForeignKey> = Vec::new();
    match first_match_of(INLINE_FK_PATTERN, after.as_str()) {
        Some(m) => {
            let g1 = group_at(&m, 1);
            let g2 = group_at(&m, 2);
            match (g1, g2) {
                (Some(t), Some(c)) => {
                    let (_s, table) = split_schema(t.as_str());
                    r.push(ForeignKey { column: col.clone(), references_table: table, references_column: c });
                    assert(r@.map_values(|f: ForeignKey| f@) =~= inline_fk(col@, after@));
                },
                _ => {
                    assert(r@.map_values(|f: ForeignKey| f@) =~= inline_fk(col@, after@));
                },
            }
        },
        None => {
            assert(r@.map_values(|f: ForeignKey| f@) =~= inline_fk(col@, after@));
        },
    }
    r
}

fn is_constraint(lower: &str) -> (b: bool)
    ensures
        b == is_constraint_line(lower@),
{
    starts_with(lower, "primary key") || starts_with(lower, "constraint") || starts_with(
        lower,
        "unique",
    ) || starts_with(lower, "foreign key") || starts_with(lower, "check")
}

pub open spec fn col_view(c: Option<Column>) -> Option<ColumnV> {
    match c {
        Some(x) => Some(x@),
        None => None,
    }
}

/// What one line of a `CREATE TABLE` body contributes.
pub fn parse_line(line: &str) -> (r: (Option<Column>, Vec<ForeignKey>))
    ensures
        (col_view(r.0), r.1@.map_values(|f: ForeignKey| f@)) == line_parts(line@),
{
    let l = trim(line);
    let lower = to_lower(l.as_str());
    let mut fks: Vec<ForeignKey> = Vec::new();
    if lower.as_str().is_empty() {
        assert(fks@.map_values(|f: ForeignKey| f@) =~= Seq::<ForeignKeyV>::empty());
        return (None, fks);
    }
    match first_match_of(FK_PATTERN, l.as_str()) {
        Some(m) => {
            let g1 = group_at(&m, 1);
            let g2 = group_at(&m, 2);
            let g3 = group_at(&m, 3);
            match (g1, g2, g3) {
                (Some(c), Some(t), Some(rc)) => {
                    let (_s, table) = split_schema(t.as_str());
                    fks.push(ForeignKey { column: c, references_table: table, references_column: rc });
                    assert(fks@.map_values(|f: ForeignKey| f@) =~= line_parts(line@).1);
                    return (None, fks);
                },
                _ => {
                    assert(fks@.map_values(|f: ForeignKey| f@) =~= Seq::<ForeignKeyV>::empty());
                    return (None, fks);
                },
            }
        },
        None => {},
    }
    if is_constraint(lower.as_str()) {
        assert(fks@.map_values(|f: ForeignKey| f@) =~= Seq::<ForeignKeyV>::empty());
        return (None, fks);
    }
    let ws = split_words(l.as_str());
    if ws.len() == 0 {
        assert(fks@.map_values(|f: ForeignKey| f@) =~= Seq::<ForeignKeyV>::empty());
        return (None, fks);
    }
    let name = &ws[0];
    let dt = if ws.len() > 1 {
        trim_end_matches_char(ws[1].as_str(), ',')
    } else {
        "?".to_string()
    };
    let col = Column {
        name: unquote(name.as_str()),
        data_type: dt,
        nullable: !contains(lower.as_str(), "not null"),
        primary_key: contains(lower.as_str(), "primary key"),
    };
    let lv = to_chars(lower.as_str());
    let needle = to_chars("references");
    match find_chars(&lv, &needle, 0) {
        Some(idx) => {
            let chars = to_chars(l.as_str());
            proof {
                reveal_strlit("references");
            }
            let from = if idx <= chars.len() && chars.len() - idx >= 10 {
                idx + 10
            } else {
                chars.len()
            };
            let after = string_of_range(&chars, from, chars.len());
            fks = inline_fk_of(name, &after);
        },
        None => {
            assert(fks@.map_values(|f: ForeignKey| f@) =~= Seq::<ForeignKeyV>::empty());
        },
    }
    (Some(col), fks)
}

/// Reads the body of a `CREATE TABLE` (the lines between the parentheses).
pub fn parse_body(body: &str) -> (r: (Vec<Column>, Vec<ForeignKey>))
    ensures
        r.0@.map_values(|c: Column| c@) == body_columns(body@),
        r.1@.map_values(|f: ForeignKey| f@) == body_fks(body@),
{
    let lines = split_top_level(body);
    let ghost ls = views(lines@);
    let ghost cs = ls.map_values(|l: Seq<char>| opt_seq(line_parts(l).0));
    let ghost fs = ls.map_values(|l: Seq<char>| line_parts(l).1);
    let mut columns: Vec<Column> = Vec::new();
    let mut fks: Vec<ForeignKey> = Vec::new();
    for i in 0..lines.len()
        invariant
            ls == views(lines@),
            ls == split_top_level_spec(body@),
            cs == ls.map_values(|l: Seq<char>| opt_seq(line_parts(l).0)),
            fs == ls.map_values(|l: Seq<char>| line_parts(l).1),
            columns@.map_values(|c: Column| c@) == flatten(cs.take(i as int)),
            fks@.map_values(|f: ForeignKey| f@) == flatten(fs.take(i as int)),
    {
        proof {
            lemma_flatten_take(cs, i as int);
            lemma_flatten_take(fs, i as int);
        }
        let (col, more) = parse_line(lines[i].as_str());
        assert(cs[i as int] == opt_seq(col_view(col)));
        assert(fs[i as int] == more@.map_values(|f: ForeignKey| f@));
        match col {
            Some(c) => {
                let ghost before = columns@;
                columns.push(c);
                proof {
                    lemma_map_push(before, |c: Column| c@, columns@.last());
                    assert(columns@ == before.push(columns@.last()));
                    assert(opt_seq(col_view(Some(columns@.last()))) =~= seq![columns@.last()@]);
                }
            },
            None => {
                assert(cs[i as int] =~= Seq::<ColumnV>::empty());
                assert(flatten(cs.take(i + 1)) =~= flatten(cs.take(i as int)));
            },
        }
        let ghost before_f = fks@;
        let mut more = more;
        fks.append(&mut more);
        assert(fks@.map_values(|f: ForeignKey| f@) =~= before_f.map_values(|f: ForeignKey| f@) + fs[i as int]);
    }
    assert(cs.take(lines@.len() as int) =~= cs);
    assert(fs.take(lines@.len() as int) =~= fs);
    (columns, fks)
}

fn table_of(m: &Vec<Option<String>>) -> (r: Vec<Table>)
    ensures
        tables_view(r@) == table_of_match(m.deep_view()),
{
    let mut r: Vec<Table> = Vec::new();
    match (group_at(m, 1), group_at(m, 2)) {
        (Some(raw), Some(body)) => {
            let (schema, name) = split_schema(raw.as_str());
            let (columns, foreign_keys) = parse_body(body.as_str());
            let id = concat2("table:", to_lower(name.as_str()).as_str());
            r.push(Table { id, name, schema, columns, foreign_keys });
            assert(tables_view(r@) =~= table_of_match(m.deep_view()));
        },
        _ => {
            assert(tables_view(r@) =~= table_of_match(m.deep_view()));
        },
    }
    r
}

/// The tables that one file declares.
pub fn tables_of_file(f: &SourceFile) -> (r: Vec<Table>)
    ensures
        tables_view(r@) == file_tables(*f),
{
    let mut r: Vec<Table> = Vec::new();
    let e = ext(f.path.as_str());
    if !str_eq(e.as_str(), "sql") {
        assert(tables_view(r@) =~= Seq::<TableV>::empty());
        return r;
    }
    match &f.text {
        None => {
            assert(tables_view(r@) =~= Seq::<TableV>::empty());
        },
        Some(t) => match regex_captures(TABLE_PATTERN, t.as_str()) {
            None => {
                assert(tables_view(r@) =~= Seq::<TableV>::empty());
            },
            Some(ms) => {
                let ghost mv = ms.deep_view();
                let ghost per = mv.map_values(|m: Seq<Option<Seq<char>>>| table_of_match(m));
                for i in 0..ms.len()
                    invariant
                        mv == ms.deep_view(),
                        per == mv.map_values(|m: Seq<Option<Seq<char>>>| table_of_match(m)),
                        tables_view(r@) == flatten(per.take(i as int)),
                {
                    proof {
                        lemma_flatten_take(per, i as int);
                    }
                    let ghost before = r@;
                    let mut more = table_of(&ms[i]);
                    assert(mv[i as int] == ms[i as int].deep_view());
                    r.append(&mut more);
                    assert(tables_view(r@) =~= tables_view(before) + per[i as int]);
                }
                assert(per.take(ms.len() as int) =~= per);
            },
        },
    }
    r
}

/// The project with `tables` appended.
pub open spec fn with_tables(p: ProjectV, tables: Seq<TableV>) -> ProjectV {
    ProjectV { tables: p.tables + tables, ..p }
}

/// Extracts the data model from every `.sql` file, in file order.
pub fn collect(project: &mut Project, _root: &str, files: &Vec<SourceFile>)
    ensures
        final(project)@ == with_tables(
            old(project)@,
            flatten(files@.map_values(|f: SourceFile| file_tables(f))),
        ),
{
    let ghost per = files@.map_values(|f: SourceFile| file_tables(f));
    let ghost start = project@;
    for i in 0..files.len()
        invariant
            per == files@.map_values(|f: SourceFile| file_tables(f)),
            project@ == with_tables(start, flatten(per.take(i as int))),
    {
        proof {
            lemma_flatten_take(per, i as int);
        }
        let ghost before = project.tables@;
        let mut more = tables_of_file(&files[i]);
        project.tables.append(&mut more);
        assert(tables_view(project.tables@) =~= tables_view(before) + per[i as int]);
        assert(project@.tables =~= start.tables + flatten(per.take(i + 1)));
        assert(project@ == with_tables(start, flatten(per.take(i + 1))));
    }
    assert(per.take(files.len() as int) =~= per);
}

} // verus!
