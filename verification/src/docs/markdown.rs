//! The project documentation as Markdown.

use vstd::prelude::*;
use crate::model::{
    Column, ColumnV, ComponentV, DependencyV, EndpointV, ForeignKeyV, Project, ProjectV, ServiceV,
    TableV, kind_debug, kind_name, language_debug, language_name,
};
use crate::text::{decimal, flatten, has_prefix, join_seq, lemma_flatten_take, owned, starts_with, usize_to_string, views};

verus! {

broadcast use vstd::seq_lib::group_seq_properties;

pub open spec fn or_dash(o: Option<Seq<char>>) -> Seq<char> {
    match o {
        Some(s) => s,
        None => "-"@,
    }
}

/// A list in a table cell: `-` when empty, joined by `, ` otherwise.
pub open spec fn cell_list(items: Seq<Seq<char>>) -> Seq<char> {
    if items.len() == 0 {
        "-"@
    } else {
        join_seq(items, ", "@)
    }
}

pub open spec fn header(p: ProjectV) -> Seq<char> {
    "# "@ + p.name + "\n\n"@ + "_Documentazione generata automaticamente da ArchMind._\n\n"@ + (
    "- **Radice**: `"@ + p.root + "`\n"@) + ("- **File analizzati**: "@ + decimal(p.stats.files)
        + "\n"@) + ("- **Righe di codice**: "@ + decimal(p.stats.lines_of_code) + "\n\n"@)
}

pub open spec fn extension_row(e: (Seq<char>, nat)) -> Seq<char> {
    if has_prefix(e.0, "__"@) {
        Seq::empty()
    } else {
        "| `"@ + e.0 + "` | "@ + decimal(e.1) + " |\n"@
    }
}

/// Files per extension, internal keys (starting with `__`) left out.
pub open spec fn composition(p: ProjectV) -> Seq<char> {
    if p.stats.by_extension.len() == 0 {
        Seq::empty()
    } else {
        "## Composizione\n\n"@ + "| Estensione | File |\n"@ + "|---|---|\n"@ + flatten(
            p.stats.by_extension.map_values(|e: (Seq<char>, nat)| extension_row(e)),
        ) + "\n"@
    }
}

pub open spec fn operation_text(e: EndpointV) -> Seq<char> {
    match e.operation_id {
        Some(o) => o,
        None => match e.summary {
            Some(s) => s,
            None => Seq::empty(),
        },
    }
}

pub open spec fn endpoint_row(e: EndpointV) -> Seq<char> {
    "| `"@ + e.method + "` | `"@ + e.path + "` | "@ + operation_text(e) + " |\n"@
}

pub open spec fn endpoints_section(p: ProjectV) -> Seq<char> {
    if p.endpoints.len() == 0 {
        Seq::empty()
    } else {
        "## API ("@ + decimal(p.endpoints.len()) + " endpoint)\n\n"@
            + "| Metodo | Path | Operazione |\n"@ + "|---|---|---|\n"@ + flatten(
            p.endpoints.map_values(|e: EndpointV| endpoint_row(e)),
        ) + "\n"@
    }
}

pub open spec fn service_row(s: ServiceV) -> Seq<char> {
    "| "@ + s.name + " | "@ + or_dash(s.image) + " | "@ + cell_list(s.ports) + " | "@ + cell_list(
        s.depends_on,
    ) + " |\n"@
}

pub open spec fn services_section(p: ProjectV) -> Seq<char> {
    if p.services.len() == 0 {
        Seq::empty()
    } else {
        "## Servizi ("@ + decimal(p.services.len()) + ")\n\n"@
            + "| Servizio | Immagine | Porte | Dipende da |\n"@ + "|---|---|---|---|\n"@ + flatten(
            p.services.map_values(|s: ServiceV| service_row(s)),
        ) + "\n"@
    }
}

pub open spec fn component_row(c: ComponentV) -> Seq<char> {
    "| "@ + c.name + " | "@ + kind_name(c.kind) + " | "@ + language_name(c.language) + " | `"@
        + c.path + "` |\n"@
}

pub open spec fn components_section(p: ProjectV) -> Seq<char> {
    if p.components.len() == 0 {
        Seq::empty()
    } else {
        "## Componenti ("@ + decimal(p.components.len()) + ")\n\n"@
            + "| Nome | Tipo | Linguaggio | Percorso |\n"@ + "|---|---|---|---|\n"@ + flatten(
            p.components.map_values(|c: ComponentV| component_row(c)),
        ) + "\n"@
    }
}

pub open spec fn column_row(c: ColumnV) -> Seq<char> {
    "| "@ + c.name + " | "@ + c.data_type + " | "@ + (if c.nullable {
        "si"@
    } else {
        "no"@
    }) + " | "@ + (if c.primary_key {
        "PK"@
    } else {
        Seq::empty()
    }) + " |\n"@
}

pub open spec fn fk_row(fk: ForeignKeyV) -> Seq<char> {
    "- FK: `"@ + fk.column + "` -> `"@ + fk.references_table + "("@ + fk.references_column + ")`\n"@
}

pub open spec fn table_title(t: TableV) -> Seq<char> {
    match t.schema {
        Some(sc) => sc + "."@ + t.name,
        None => t.name,
    }
}

pub open spec fn columns_block(t: TableV) -> Seq<char> {
    if t.columns.len() > 0 {
        "| Colonna | Tipo | Null | PK |\n"@ + "|---|---|---|---|\n"@ + flatten(
            t.columns.map_values(|c: ColumnV| column_row(c)),
        ) + "\n"@
    } else {
        Seq::empty()
    }
}

pub open spec fn fks_block(t: TableV) -> Seq<char> {
    flatten(t.foreign_keys.map_values(|fk: ForeignKeyV| fk_row(fk)))
}

pub open spec fn table_section(t: TableV) -> Seq<char> {
    "### `"@ + table_title(t) + "`\n\n"@ + columns_block(t) + fks_block(t) + "\n"@
}

pub open spec fn database_section(p: ProjectV) -> Seq<char> {
    if p.tables.len() == 0 {
        Seq::empty()
    } else {
        "## Database ("@ + decimal(p.tables.len()) + " tabelle)\n\n"@ + flatten(
            p.tables.map_values(|t: TableV| table_section(t)),
        )
    }
}

pub open spec fn dependency_row(d: DependencyV) -> Seq<char> {
    "| "@ + d.name + " | "@ + or_dash(d.version) + " | "@ + d.ecosystem + " |\n"@
}

pub open spec fn dependencies_section(p: ProjectV) -> Seq<char> {
    if p.dependencies.len() == 0 {
        Seq::empty()
    } else {
        "## Dipendenze ("@ + decimal(p.dependencies.len()) + ")\n\n"@
            + "| Pacchetto | Versione | Ecosistema |\n"@ + "|---|---|---|\n"@ + flatten(
            p.dependencies.map_values(|d: DependencyV| dependency_row(d)),
        ) + "\n"@
    }
}

/// The whole Markdown document of a project.
pub open spec fn markdown_spec(p: ProjectV) -> Seq<char> {
    header(p) + composition(p) + endpoints_section(p) + services_section(p) + components_section(p)
        + database_section(p) + dependencies_section(p)
}

// ---------------------------------------------------------------------------
// Implementation
// ---------------------------------------------------------------------------

fn or_dash_text(o: &Option<String>) -> (r: String)
    ensures
        r@ == or_dash(crate::text::opt_view(*o)),
{
    match o {
        Some(s) => s.clone(),
        None => owned("-"),
    }
}

/// Joins a list into a table cell (`-` when empty).
pub fn join(items: &Vec<String>) -> (r: String)
    ensures
        r@ == cell_list(views(items@)),
{
    if items.len() == 0 {
        owned("-")
    } else {
        crate::text::join(items, ", ")
    }
}

/// Produces the complete Markdown document of an analysed project.
pub fn render(p: &Project) -> (r: String)
    ensures
        r@ == markdown_spec(p@),
{
    let mut s = String::new();
    s.append("# ");
    s.append(p.name.as_str());
    s.append("\n\n");
    s.append("_Documentazione generata automaticamente da ArchMind._\n\n");
    s.append("- **Radice**: `");
    s.append(p.root.as_str());
    s.append("`\n");
    s.append("- **File analizzati**: ");
    s.append(usize_to_string(p.stats.files).as_str());
    s.append("\n");
    s.append("- **Righe di codice**: ");
    s.append(usize_to_string(p.stats.lines_of_code).as_str());
    s.append("\n\n");
    assert(s@ =~= header(p@));
    section_composition(&mut s, p);
    section_endpoints(&mut s, p);
    section_services(&mut s, p);
    section_components(&mut s, p);
    section_database(&mut s, p);
    section_dependencies(&mut s, p);
    s
}

fn section_composition(s: &mut String, p: &Project)
    ensures
        final(s)@ == old(s)@ + composition(p@),
{
    if p.stats.by_extension.len() == 0 {
        assert(old(s)@ + Seq::<char>::empty() =~= old(s)@);
        return;
    }
    let ghost start = s@;
    s.append("## Composizione\n\n");
    s.append("| Estensione | File |\n");
    s.append("|---|---|\n");
    let ghost head = s@;
    let ghost es = p@.stats.by_extension;
    let ghost per = es.map_values(|e: (Seq<char>, nat)| extension_row(e));
    for i in 0..p.stats.by_extension.len()
        invariant
            es == p@.stats.by_extension,
            per == es.map_values(|e: (Seq<char>, nat)| extension_row(e)),
            s@ == head + flatten(per.take(i as int)),
    {
        proof {
            lemma_flatten_take(per, i as int);
        }
        let e = &p.stats.by_extension[i];
        assert(es[i as int] == (e.0@, e.1 as nat));
        let ghost before = s@;
        if !starts_with(e.0.as_str(), "__") {
            s.append("| `");
            s.append(e.0.as_str());
            s.append("` | ");
            s.append(usize_to_string(e.1).as_str());
            s.append(" |\n");
        }
        assert(s@ =~= before + per[i as int]);
    }
    assert(per.take(p.stats.by_extension.len() as int) =~= per);
    s.append("\n");
    assert(s@ =~= start + composition(p@));
}

fn section_endpoints(s: &mut String, p: &Project)
    ensures
        final(s)@ == old(s)@ + endpoints_section(p@),
{
    if p.endpoints.len() == 0 {
        assert(old(s)@ + Seq::<char>::empty() =~= old(s)@);
        return;
    }
    let ghost start = s@;
    s.append("## API (");
    s.append(usize_to_string(p.endpoints.len()).as_str());
    s.append(" endpoint)\n\n");
    s.append("| Metodo | Path | Operazione |\n");
    s.append("|---|---|---|\n");
    let ghost head = s@;
    let ghost es = p@.endpoints;
    let ghost per = es.map_values(|e: EndpointV| endpoint_row(e));
    for i in 0..p.endpoints.len()
        invariant
            es == p@.endpoints,
            per == es.map_values(|e: EndpointV| endpoint_row(e)),
            s@ == head + flatten(per.take(i as int)),
    {
        proof {
            lemma_flatten_take(per, i as int);
        }
        let e = &p.endpoints[i];
        assert(es[i as int] == e@);
        s.append(endpoint_row_text(e).as_str());
    }
    assert(per.take(p.endpoints.len() as int) =~= per);
    s.append("\n");
    assert(s@ =~= start + endpoints_section(p@));
}

fn component_row_text(c: &crate::model::Component) -> (r: String)
    ensures
        r@ == component_row(c@),
{
    let mut r = owned("| ");
    r.append(c.name.as_str());
    r.append(" | ");
    r.append(kind_debug(c.kind).as_str());
    r.append(" | ");
    r.append(language_debug(c.language).as_str());
    r.append(" | `");
    r.append(c.path.as_str());
    r.append("` |\n");
    assert(r@ =~= component_row(c@));
    r
}

fn endpoint_row_text(e: &crate::model::Endpoint) -> (r: String)
    ensures
        r@ == endpoint_row(e@),
{
    let op = match &e.operation_id {
        Some(o) => o.clone(),
        None => match &e.summary {
            Some(x) => x.clone(),
            None => String::new(),
        },
    };
    let mut r = owned("| `");
    r.append(e.method.as_str());
    r.append("` | `");
    r.append(e.path.as_str());
    r.append("` | ");
    r.append(op.as_str());
    r.append(" |\n");
    assert(r@ =~= endpoint_row(e@));
    r
}

fn dependency_row_text(d: &crate::model::Dependency) -> (r: String)
    ensures
        r@ == dependency_row(d@),
{
    let mut r = owned("| ");
    r.append(d.name.as_str());
    r.append(" | ");
    r.append(or_dash_text(&d.version).as_str());
    r.append(" | ");
    r.append(d.ecosystem.as_str());
    r.append(" |\n");
    assert(r@ =~= dependency_row(d@));
    r
}

fn service_row_text(sv: &crate::model::ServiceUnit) -> (r: String)
    ensures
        r@ == service_row(sv@),
{
    let mut r = owned("| ");
    r.append(sv.name.as_str());
    r.append(" | ");
    r.append(or_dash_text(&sv.image).as_str());
    r.append(" | ");
    r.append(join(&sv.ports).as_str());
    r.append(" | ");
    r.append(join(&sv.depends_on).as_str());
    r.append(" |\n");
    assert(r@ =~= service_row(sv@));
    r
}

fn column_row_text(c: &Column) -> (r: String)
    ensures
        r@ == column_row(c@),
{
    let mut r = owned("| ");
    r.append(c.name.as_str());
    r.append(" | ");
    r.append(c.data_type.as_str());
    r.append(" | ");
    if c.nullable {
        r.append("si");
    } else {
        r.append("no");
    }
    r.append(" | ");
    if c.primary_key {
        r.append("PK");
    }
    r.append(" |\n");
    assert(r@ =~= column_row(c@));
    r
}

fn fk_row_text(fk: &crate::model::ForeignKey) -> (r: String)
    ensures
        r@ == fk_row(fk@),
{
    let mut r = owned("- FK: `");
    r.append(fk.column.as_str());
    r.append("` -> `");
    r.append(fk.references_table.as_str());
    r.append("(");
    r.append(fk.references_column.as_str());
    r.append(")`\n");
    assert(r@ =~= fk_row(fk@));
    r
}

fn section_services(s: &mut String, p: &Project)
    ensures
        final(s)@ == old(s)@ + services_section(p@),
{
    if p.services.len() == 0 {
        assert(old(s)@ + Seq::<char>::empty() =~= old(s)@);
        return;
    }
    let ghost start = s@;
    s.append("## Servizi (");
    s.append(usize_to_string(p.services.len()).as_str());
    s.append(")\n\n");
    s.append("| Servizio | Immagine | Porte | Dipende da |\n");
    s.append("|---|---|---|---|\n");
    let ghost head = s@;
    let ghost ss = p@.services;
    let ghost per = ss.map_values(|x: ServiceV| service_row(x));
    for i in 0..p.services.len()
        invariant
            ss == p@.services,
            per == ss.map_values(|x: ServiceV| service_row(x)),
            s@ == head + flatten(per.take(i as int)),
    {
        proof {
            lemma_flatten_take(per, i as int);
        }
        let sv = &p.services[i];
        assert(ss[i as int] == sv@);
        s.append(service_row_text(sv).as_str());
    }
    assert(per.take(p.services.len() as int) =~= per);
    s.append("\n");
    assert(s@ =~= start + services_section(p@));
}

fn section_components(s: &mut String, p: &Project)
    ensures
        final(s)@ == old(s)@ + components_section(p@),
{
    if p.components.len() == 0 {
        assert(old(s)@ + Seq::<char>::empty() =~= old(s)@);
        return;
    }
    let ghost start = s@;
    s.append("## Componenti (");
    s.append(usize_to_string(p.components.len()).as_str());
    s.append(")\n\n");
    s.append("| Nome | Tipo | Linguaggio | Percorso |\n");
    s.append("|---|---|---|---|\n");
    let ghost head = s@;
    let ghost cs = p@.components;
    let ghost per = cs.map_values(|x: ComponentV| component_row(x));
    for i in 0..p.components.len()
        invariant
            cs == p@.components,
            per == cs.map_values(|x: ComponentV| component_row(x)),
            s@ == head + flatten(per.take(i as int)),
    {
        proof {
            lemma_flatten_take(per, i as int);
        }
        let c = &p.components[i];
        assert(cs[i as int] == c@);
        s.append(component_row_text(c).as_str());
    }
    assert(per.take(p.components.len() as int) =~= per);
    s.append("\n");
    assert(s@ =~= start + components_section(p@));
}

fn columns_text(s: &mut String, t: &crate::model::Table)
    ensures
        final(s)@ == old(s)@ + columns_block(t@),
{
    if t.columns.len() == 0 {
        assert(old(s)@ + Seq::<char>::empty() =~= old(s)@);
        return;
    }
    let ghost start = s@;
    s.append("| Colonna | Tipo | Null | PK |\n");
    s.append("|---|---|---|---|\n");
    let ghost h2 = s@;
    let ghost cs = t@.columns;
    let ghost per = cs.map_values(|c: ColumnV| column_row(c));
    for i in 0..t.columns.len()
        invariant
            cs == t@.columns,
            per == cs.map_values(|c: ColumnV| column_row(c)),
            s@ == h2 + flatten(per.take(i as int)),
    {
        proof {
            lemma_flatten_take(per, i as int);
        }
        let c = &t.columns[i];
        assert(cs[i as int] == c@);
        s.append(column_row_text(c).as_str());
    }
    assert(per.take(t.columns.len() as int) =~= per);
    s.append("\n");
    assert(s@ =~= start + columns_block(t@));
}

fn fks_text(s: &mut String, t: &crate::model::Table)
    ensures
        final(s)@ == old(s)@ + fks_block(t@),
{
    let ghost h3 = s@;
    let ghost fs = t@.foreign_keys;
    let ghost perf = fs.map_values(|fk: ForeignKeyV| fk_row(fk));
    for i in 0..t.foreign_keys.len()
        invariant
            fs == t@.foreign_keys,
            perf == fs.map_values(|fk: ForeignKeyV| fk_row(fk)),
            s@ == h3 + flatten(perf.take(i as int)),
    {
        proof {
            lemma_flatten_take(perf, i as int);
        }
        let fk = &t.foreign_keys[i];
        assert(fs[i as int] == fk@);
        s.append(fk_row_text(fk).as_str());
    }
    assert(perf.take(t.foreign_keys.len() as int) =~= perf);
}

fn table_text(s: &mut String, t: &crate::model::Table)
    ensures
        final(s)@ == old(s)@ + table_section(t@),
{
    let ghost start = s@;
    s.append("### `");
    match &t.schema {
        Some(sc) => {
            s.append(sc.as_str());
            s.append(".");
            s.append(t.name.as_str());
        },
        None => {
            s.append(t.name.as_str());
        },
    }
    s.append("`\n\n");
    assert(s@ =~= start + ("### `"@ + table_title(t@) + "`\n\n"@));
    columns_text(s, t);
    fks_text(s, t);
    s.append("\n");
    assert(s@ =~= start + table_section(t@));
}

fn section_database(s: &mut String, p: &Project)
    ensures
        final(s)@ == old(s)@ + database_section(p@),
{
    if p.tables.len() == 0 {
        assert(old(s)@ + Seq::<char>::empty() =~= old(s)@);
        return;
    }
    let ghost start = s@;
    s.append("## Database (");
    s.append(usize_to_string(p.tables.len()).as_str());
    s.append(" tabelle)\n\n");
    let ghost head = s@;
    let ghost ts = p@.tables;
    let ghost per = ts.map_values(|t: TableV| table_section(t));
    for i in 0..p.tables.len()
        invariant
            ts == p@.tables,
            per == ts.map_values(|t: TableV| table_section(t)),
            s@ == head + flatten(per.take(i as int)),
    {
        proof {
            lemma_flatten_take(per, i as int);
        }
        assert(ts[i as int] == p.tables@[i as int]@);
        table_text(s, &p.tables[i]);
    }
    assert(per.take(p.tables.len() as int) =~= per);
    assert(s@ =~= start + database_section(p@));
}

fn section_dependencies(s: &mut String, p: &Project)
    ensures
        final(s)@ == old(s)@ + dependencies_section(p@),
{
    if p.dependencies.len() == 0 {
        assert(old(s)@ + Seq::<char>::empty() =~= old(s)@);
        return;
    }
    let ghost start = s@;
    s.append("## Dipendenze (");
    s.append(usize_to_string(p.dependencies.len()).as_str());
    s.append(")\n\n");
    s.append("| Pacchetto | Versione | Ecosistema |\n");
    s.append("|---|---|---|\n");
    let ghost head = s@;
    let ghost ds = p@.dependencies;
    let ghost per = ds.map_values(|d: DependencyV| dependency_row(d));
    for i in 0..p.dependencies.len()
        invariant
            ds == p@.dependencies,
            per == ds.map_values(|d: DependencyV| dependency_row(d)),
            s@ == head + flatten(per.take(i as int)),
    {
        proof {
            lemma_flatten_take(per, i as int);
        }
        let d = &p.dependencies[i];
        assert(ds[i as int] == d@);
        s.append(dependency_row_text(d).as_str());
    }
    assert(per.take(p.dependencies.len() as int) =~= per);
    s.append("\n");
    assert(s@ =~= start + dependencies_section(p@));
}

/// Whether committed documentation is current: it equals the freshly
/// generated one, both trimmed.
pub open spec fn is_current_spec(fresh: Seq<char>, committed: Seq<char>) -> bool {
    crate::text::trim_seq(fresh) == crate::text::trim_seq(committed)
}

/// What the `check` command decides: the committed document against a
/// fresh one.
pub fn is_current(fresh: &str, committed: &str) -> (b: bool)
    ensures
        b == is_current_spec(fresh@, committed@),
{
    let a = crate::text::trim(fresh);
    let c = crate::text::trim(committed);
    crate::text::str_eq(a.as_str(), c.as_str())
}

} // verus!
