//! Wiki export: the Markdown documentation with the diagrams embedded as
//! ```` ```mermaid ```` blocks, for wikis that render them.

use vstd::prelude::*;
use crate::diagrams::mermaid;
use crate::model::{Project, ProjectV};
use crate::text::{flatten, lemma_flatten_take, owned, skip_white_back, string_of_range, to_chars, trim_end};

verus! {

broadcast use vstd::seq_lib::group_seq_properties;

/// The diagrams of the export (kind, title), in order.
pub open spec fn wiki_diagrams() -> Seq<(Seq<char>, Seq<char>)> {
    seq![
        ("flow"@, "Flusso applicativo"@),
        ("component"@, "Componenti e servizi"@),
        ("dependency"@, "Dipendenze"@),
        ("er"@, "Modello dati (ER)"@),
        ("class"@, "Class diagram"@),
    ]
}

/// A diagram block, when Mermaid knows the kind.
pub open spec fn diagram_block(p: ProjectV, d: (Seq<char>, Seq<char>)) -> Seq<char> {
    match mermaid::mermaid_spec(p, d.0) {
        Some(text) => "### "@ + d.1 + "\n\n"@ + ("```mermaid\n"@ + trim_end(text) + "\n```\n\n"@),
        None => Seq::empty(),
    }
}

/// The Wiki document: the Markdown, then the diagrams section.
pub open spec fn wiki_spec(p: ProjectV) -> Seq<char> {
    super::markdown::markdown_spec(p) + "\n## Diagrammi\n\n"@ + flatten(
        wiki_diagrams().map_values(|d: (Seq<char>, Seq<char>)| diagram_block(p, d)),
    )
}

/// `str::trim_end`: the text without trailing white space.
pub fn trim_end_text(s: &str) -> (r: String)
    ensures
        r@ == trim_end(s@),
{
    let v = to_chars(s);
    let j = skip_white_back(&v, 0, v.len());
    assert(v@.subrange(0, v.len() as int) =~= v@);
    string_of_range(&v, 0, j)
}

fn diagram_table() -> (r: Vec<(&'static str, &'static str)>)
    ensures
        r@.map_values(|d: (&'static str, &'static str)| (d.0@, d.1@)) == wiki_diagrams(),
{
    let r = vec![
        ("flow", "Flusso applicativo"),
        ("component", "Componenti e servizi"),
        ("dependency", "Dipendenze"),
        ("er", "Modello dati (ER)"),
        ("class", "Class diagram"),
    ];
    assert(r@.map_values(|d: (&'static str, &'static str)| (d.0@, d.1@)) =~= wiki_diagrams());
    r
}

/// Produces the documentation in Wiki form (Markdown and Mermaid).
pub fn render(p: &Project) -> (r: String)
    ensures
        r@ == wiki_spec(p@),
{
    let mut s = super::markdown::render(p);
    s.append("\n## Diagrammi\n\n");
    let ghost head = s@;
    let ds = diagram_table();
    let ghost per = wiki_diagrams().map_values(|d: (Seq<char>, Seq<char>)| diagram_block(p@, d));
    for i in 0..ds.len()
        invariant
            ds@.map_values(|d: (&'static str, &'static str)| (d.0@, d.1@)) == wiki_diagrams(),
            per == wiki_diagrams().map_values(|d: (Seq<char>, Seq<char>)| diagram_block(p@, d)),
            s@ == head + flatten(per.take(i as int)),
    {
        proof {
            lemma_flatten_take(per, i as int);
        }
        let (kind, title) = ds[i];
        assert(wiki_diagrams()[i as int] == (kind@, title@));
        let ghost before = s@;
        match mermaid::render(p, kind) {
            Ok(d) => {
                s.append("### ");
                s.append(title);
                s.append("\n\n");
                s.append("```mermaid\n");
                s.append(trim_end_text(d.as_str()).as_str());
                s.append("\n```\n\n");
            },
            Err(_) => {},
        }
        assert(s@ =~= before + per[i as int]);
    }
    assert(per.take(ds.len() as int) =~= per);
    s
}

} // verus!
