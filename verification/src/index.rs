//! The documents of the retrieval index and the passages drawn from it.
//!
//! The index holds the source files referenced by the components and one
//! synthetic document per endpoint, table and service; the ranking engine
//! (BM25) answers with the documents that best match a question, which
//! become [`Passage`]s for the assistant's prompt.

use vstd::prelude::*;
use crate::Error;
use crate::analyzers::SourceFile;
use crate::bm25::{rank, ranked_ok};
use crate::model::{ColumnV, ComponentV, EndpointV, Project, ProjectV, ServiceV, TableV};
use crate::project::file_content;
use crate::text::{
    alphanumeric_of, char_is_alphanumeric, concat2, flatten, join, join_seq, lemma_flatten_take,
    lemma_map_push, owned, push_char, str_or_empty, string_of_range, to_chars, trim, trim_seq,
    views, words, split_words,
};

verus! {

broadcast use vstd::seq_lib::group_seq_properties;

/// Characters of a source file put into the index, at most.
pub const MAX_CHARS: usize = 6000;

/// Characters of a passage handed to the prompt, at most.
pub const SNIPPET_CHARS: usize = 1200;

/// A retrieved passage, ready for the prompt's context.
pub struct Passage {
    /// Category: "code", "endpoint", "table", "service".
    pub kind: String,
    /// Readable title (file name or entity).
    pub title: String,
    /// Where it is (file path or source).
    pub location: String,
    /// Text of the passage (already cut to a reasonable length).
    pub snippet: String,
}

/// A document of the index.
pub struct IndexDoc {
    pub kind: String,
    pub title: String,
    pub body: String,
    pub location: String,
}

pub struct DocV {
    pub kind: Seq<char>,
    pub title: Seq<char>,
    pub body: Seq<char>,
    pub location: Seq<char>,
}

impl View for IndexDoc {
    type V = DocV;

    open spec fn view(&self) -> DocV {
        DocV { kind: self.kind@, title: self.title@, body: self.body@, location: self.location@ }
    }
}

pub struct PassageV {
    pub kind: Seq<char>,
    pub title: Seq<char>,
    pub location: Seq<char>,
    pub snippet: Seq<char>,
}

impl View for Passage {
    type V = PassageV;

    open spec fn view(&self) -> PassageV {
        PassageV {
            kind: self.kind@,
            title: self.title@,
            location: self.location@,
            snippet: self.snippet@,
        }
    }
}

pub open spec fn docs_view(v: Seq<IndexDoc>) -> Seq<DocV> {
    v.map_values(|d: IndexDoc| d@)
}

pub open spec fn passages_view(v: Seq<Passage>) -> Seq<PassageV> {
    v.map_values(|p: Passage| p@)
}

/// The first `n` characters.
pub open spec fn prefix_chars(s: Seq<char>, n: int) -> Seq<char> {
    if s.len() <= n {
        s
    } else {
        s.take(n)
    }
}

pub open spec fn opt_text(o: Option<Seq<char>>) -> Seq<char> {
    match o {
        Some(s) => s,
        None => Seq::empty(),
    }
}

/// The file at `path`, when it is among the files and could be read.
pub open spec fn readable_file(files: Seq<SourceFile>, root: Seq<char>, path: Seq<char>) -> Option<Seq<char>>
    decreases files.len(),
{
    if files.len() == 0 {
        None
    } else if crate::analyzers::rel_of(root, files[0].path@) == path {
        match files[0].text {
            Some(t) => Some(t@),
            None => None,
        }
    } else {
        readable_file(files.drop_first(), root, path)
    }
}

/// Whether an earlier component has the same path.
pub open spec fn seen_before(cs: Seq<ComponentV>, i: int) -> bool {
    exists|j: int| 0 <= j < i && cs[j].path == cs[i].path
}

/// The code document of component `i`: its file, first time its path comes,
/// when the file can be read.
pub open spec fn code_doc(cs: Seq<ComponentV>, i: int, files: Seq<SourceFile>, root: Seq<char>) -> Seq<DocV> {
    let c = cs[i];
    if c.path.len() == 0 || seen_before(cs, i) {
        Seq::empty()
    } else {
        match readable_file(files, root, c.path) {
            Some(t) => seq![
                DocV { kind: "code"@, title: c.path, body: prefix_chars(t, 6000), location: c.path },
            ],
            None => Seq::empty(),
        }
    }
}

pub open spec fn endpoint_doc(e: EndpointV) -> DocV {
    DocV {
        kind: "endpoint"@,
        title: e.method + " "@ + e.path,
        body: "Endpoint "@ + e.method + " "@ + e.path + " "@ + opt_text(e.operation_id) + " "@
            + opt_text(e.summary),
        location: e.source,
    }
}

pub open spec fn table_doc(t: TableV) -> DocV {
    DocV {
        kind: "table"@,
        title: t.name,
        body: "Tabella "@ + t.name + " colonne: "@ + join_seq(
            t.columns.map_values(|c: ColumnV| c.name),
            ", "@,
        ),
        location: opt_text(t.schema),
    }
}

pub open spec fn service_doc(s: ServiceV) -> DocV {
    DocV {
        kind: "service"@,
        title: s.name,
        body: "Servizio "@ + s.name + " immagine "@ + opt_text(s.image) + " dipende da "@ + join_seq(
            s.depends_on,
            ", "@,
        ),
        location: s.source,
    }
}

/// All documents of the index, in order: code, endpoints, tables, services.
pub open spec fn index_docs_spec(p: ProjectV, files: Seq<SourceFile>) -> Seq<DocV> {
    flatten(
        Seq::new(p.components.len(), |i: int| code_doc(p.components, i, files, p.root)),
    ) + p.endpoints.map_values(|e: EndpointV| endpoint_doc(e)) + p.tables.map_values(
        |t: TableV| table_doc(t),
    ) + p.services.map_values(|s: ServiceV| service_doc(s))
}

/// The query as the engine reads it: every character that is not
/// alphanumeric becomes a space, then the ends are trimmed; nothing when no
/// word is left.
pub open spec fn search_terms_spec(query: Seq<char>) -> Option<Seq<char>> {
    let cleaned = query.map_values(|c: char| if alphanumeric_of(c) { c } else { ' ' });
    if words(cleaned).len() == 0 {
        None
    } else {
        Some(trim_seq(cleaned))
    }
}

/// The passage of a retrieved document: its snippet is the first 1200
/// characters of the body.
pub open spec fn passage_of(d: DocV) -> PassageV {
    PassageV { kind: d.kind, title: d.title, location: d.location, snippet: prefix_chars(d.body, 1200) }
}

// ---------------------------------------------------------------------------
// Implementation
// ---------------------------------------------------------------------------

fn prefix_text(s: &str, n: usize) -> (r: String)
    ensures
        r@ == prefix_chars(s@, n as int),
{
    let v = to_chars(s);
    if v.len() <= n {
        assert(v@.subrange(0, v.len() as int) =~= v@);
        string_of_range(&v, 0, v.len())
    } else {
        string_of_range(&v, 0, n)
    }
}

fn readable(files: &Vec<SourceFile>, root: &str, path: &str) -> (r: Option<String>)
    ensures
        match r {
            Some(s) => readable_file(files@, root@, path@) == Some(s@),
            None => readable_file(files@, root@, path@) is None,
        },
{
    let mut i: usize = 0;
    assert(files@.subrange(0, files@.len() as int) =~= files@);
    while i < files.len()
        invariant
            i <= files@.len(),
            readable_file(files@, root@, path@) == readable_file(
                files@.subrange(i as int, files@.len() as int),
                root@,
                path@,
            ),
        decreases files@.len() - i,
    {
        let ghost rest = files@.subrange(i as int, files@.len() as int);
        assert(rest.drop_first() =~= files@.subrange(i + 1, files@.len() as int));
        assert(rest[0] == files@[i as int]);
        let rp = crate::analyzers::rel(root, files[i].path.as_str());
        if crate::text::str_eq(rp.as_str(), path) {
            return match &files[i].text {
                Some(t) => Some(t.clone()),
                None => None,
            };
        }
        i += 1;
    }
    None
}

fn path_seen(p: &Project, i: usize) -> (b: bool)
    requires
        i < p.components@.len(),
    ensures
        b == seen_before(p@.components, i as int),
{
    let ghost cs = p@.components;
    let mut j: usize = 0;
    while j < i
        invariant
            cs == p@.components,
            i < cs.len(),
            j <= i,
            forall|k: int| 0 <= k < j ==> cs[k].path != cs[i as int].path,
        decreases i - j,
    {
        if crate::text::str_eq(p.components[j].path.as_str(), p.components[i].path.as_str()) {
            assert(cs[j as int].path == cs[i as int].path);
            return true;
        }
        j += 1;
    }
    false
}

fn push_doc(out: &mut Vec<IndexDoc>, kind: &str, title: String, body: String, location: String)
    ensures
        docs_view(final(out)@) == docs_view(old(out)@).push(
            DocV { kind: kind@, title: title@, body: body@, location: location@ },
        ),
{
    let ghost before = out@;
    out.push(IndexDoc { kind: owned(kind), title, body, location });
    proof {
        lemma_map_push(before, |d: IndexDoc| d@, out@.last());
    }
}

/// The documents of the index (see [`index_docs_spec`]); `files` are the
/// files of the project as they were read.
pub fn index_documents(project: &Project, files: &Vec<SourceFile>) -> (r: Vec<IndexDoc>)
    ensures
        docs_view(r@) == index_docs_spec(project@, files@),
{
    let ghost p = project@;
    let mut out: Vec<IndexDoc> = Vec::new();
    let ghost per = Seq::new(p.components.len(), |i: int| code_doc(p.components, i, files@, p.root));
    for i in 0..project.components.len()
        invariant
            p == project@,
            per == Seq::new(p.components.len(), |i: int| code_doc(p.components, i, files@, p.root)),
            docs_view(out@) == flatten(per.take(i as int)),
    {
        proof {
            lemma_flatten_take(per, i as int);
        }
        let c = &project.components[i];
        assert(p.components[i as int] == c@);
        let ghost before = docs_view(out@);
        if !c.path.as_str().is_empty() && !path_seen(project, i) {
            match readable(files, project.root.as_str(), c.path.as_str()) {
                Some(t) => {
                    let body = prefix_text(t.as_str(), MAX_CHARS);
                    push_doc(&mut out, "code", c.path.clone(), body, c.path.clone());
                },
                None => {},
            }
        }
        assert(docs_view(out@) =~= before + per[i as int]);
    }
    assert(per.take(project.components.len() as int) =~= per);
    let ghost a1 = docs_view(out@);
    for i in 0..project.endpoints.len()
        invariant
            p == project@,
            docs_view(out@) == a1 + p.endpoints.take(i as int).map_values(|e: EndpointV| endpoint_doc(e)),
    {
        let e = &project.endpoints[i];
        assert(p.endpoints[i as int] == e@);
        let a = concat2(e.method.as_str(), " ");
        let title = concat2(a.as_str(), e.path.as_str());
        let mut body = owned("Endpoint ");
        body.append(e.method.as_str());
        body.append(" ");
        body.append(e.path.as_str());
        body.append(" ");
        body.append(str_or_empty(&e.operation_id).as_str());
        body.append(" ");
        body.append(str_or_empty(&e.summary).as_str());
        push_doc(&mut out, "endpoint", title, body, e.source.clone());
        assert(p.endpoints.take(i + 1).map_values(|e: EndpointV| endpoint_doc(e)) =~= p.endpoints.take(i as int).map_values(|e: EndpointV| endpoint_doc(e)).push(endpoint_doc(e@)));
    }
    assert(p.endpoints.take(project.endpoints.len() as int) =~= p.endpoints);
    let ghost a2 = docs_view(out@);
    for i in 0..project.tables.len()
        invariant
            p == project@,
            docs_view(out@) == a2 + p.tables.take(i as int).map_values(|t: TableV| table_doc(t)),
    {
        let t = &project.tables[i];
        assert(p.tables[i as int] == t@);
        let mut cols: Vec<String> = Vec::new();
        for j in 0..t.columns.len()
            invariant
                views(cols@) == t@.columns.take(j as int).map_values(|c: ColumnV| c.name),
        {
            let ghost before = cols@;
            cols.push(t.columns[j].name.clone());
            proof {
                lemma_map_push(before, |s: String| s@, cols@.last());
            }
            assert(t@.columns.take(j + 1).map_values(|c: ColumnV| c.name) =~= t@.columns.take(j as int).map_values(|c: ColumnV| c.name).push(t@.columns[j as int].name));
        }
        assert(t@.columns.take(t.columns.len() as int) =~= t@.columns);
        let mut body = owned("Tabella ");
        body.append(t.name.as_str());
        body.append(" colonne: ");
        body.append(join(&cols, ", ").as_str());
        push_doc(&mut out, "table", t.name.clone(), body, str_or_empty(&t.schema));
        assert(p.tables.take(i + 1).map_values(|t: TableV| table_doc(t)) =~= p.tables.take(i as int).map_values(|t: TableV| table_doc(t)).push(table_doc(t@)));
    }
    assert(p.tables.take(project.tables.len() as int) =~= p.tables);
    let ghost a3 = docs_view(out@);
    for i in 0..project.services.len()
        invariant
            p == project@,
            docs_view(out@) == a3 + p.services.take(i as int).map_values(|s: ServiceV| service_doc(s)),
    {
        let s = &project.services[i];
        assert(p.services[i as int] == s@);
        let mut body = owned("Servizio ");
        body.append(s.name.as_str());
        body.append(" immagine ");
        body.append(str_or_empty(&s.image).as_str());
        body.append(" dipende da ");
        body.append(join(&s.depends_on, ", ").as_str());
        push_doc(&mut out, "service", s.name.clone(), body, s.source.clone());
        assert(p.services.take(i + 1).map_values(|s: ServiceV| service_doc(s)) =~= p.services.take(i as int).map_values(|s: ServiceV| service_doc(s)).push(service_doc(s@)));
    }
    assert(p.services.take(project.services.len() as int) =~= p.services);
    out
}

/// The query as the engine reads it (see [`search_terms_spec`]).
pub fn search_terms(query: &str) -> (r: Option<String>)
    ensures
        match r {
            Some(s) => search_terms_spec(query@) == Some(s@),
            None => search_terms_spec(query@) is None,
        },
{
    let v = to_chars(query);
    let mut cleaned = String::new();
    for i in 0..v.len()
        invariant
            v@ == query@,
            cleaned@ == v@.take(i as int).map_values(|c: char| if alphanumeric_of(c) { c } else { ' ' }),
    {
        let c = v[i];
        let d = if char_is_alphanumeric(c) { c } else { ' ' };
        push_char(&mut cleaned, d);
        assert(v@.take(i + 1).map_values(|c: char| if alphanumeric_of(c) { c } else { ' ' }) =~= v@.take(i as int).map_values(|c: char| if alphanumeric_of(c) { c } else { ' ' }).push(d));
    }
    assert(v@.take(v.len() as int) =~= v@);
    let ws = split_words(cleaned.as_str());
    if ws.len() == 0 {
        None
    } else {
        Some(trim(cleaned.as_str()))
    }
}

/// The passages of the documents the engine ranked, best first: `ranked`
/// holds their positions among `docs`.
pub fn passages(docs: &Vec<IndexDoc>, ranked: &Vec<usize>) -> (r: Vec<Passage>)
    requires
        forall|i: int| 0 <= i < ranked@.len() ==> #[trigger] ranked@[i] < docs@.len(),
    ensures
        passages_view(r@) == ranked@.map_values(|k: usize| passage_of(docs@[k as int]@)),
{
    let mut out: Vec<Passage> = Vec::new();
    for i in 0..ranked.len()
        invariant
            forall|i: int| 0 <= i < ranked@.len() ==> #[trigger] ranked@[i] < docs@.len(),
            passages_view(out@) == ranked@.take(i as int).map_values(|k: usize| passage_of(docs@[k as int]@)),
    {
        let k = ranked[i];
        assert(ranked@[i as int] < docs@.len());
        let d = &docs[k];
        let ghost before = out@;
        out.push(
            Passage {
                kind: d.kind.clone(),
                title: d.title.clone(),
                location: d.location.clone(),
                snippet: prefix_text(d.body.as_str(), SNIPPET_CHARS),
            },
        );
        proof {
            lemma_map_push(before, |p: Passage| p@, out@.last());
        }
        assert(ranked@.take(i + 1).map_values(|k: usize| passage_of(docs@[k as int]@)) =~= ranked@.take(i as int).map_values(|k: usize| passage_of(docs@[k as int]@)).push(passage_of(docs@[k as int]@)));
    }
    assert(ranked@.take(ranked.len() as int) =~= ranked@);
    out
}

/// Passages of ranked documents: at most `k`, each that of one of `docs`.
pub open spec fn drawn_passages(ps: Seq<PassageV>, docs: Seq<DocV>, k: nat) -> bool {
    exists|ranked: Seq<usize>|
        #[trigger] ranked_ok(ranked, docs.len(), k) && ps == ranked.map_values(
            |j: usize| passage_of(docs[j as int]),
        )
}

/// The passages most relevant to a question, best first, at most `k`: the
/// documents of the project (see [`index_documents`]) ranked by the engine
/// for the question's words (see [`search_terms`]). A question without any
/// word gives no passage; an engine failure is an index error.
pub fn retrieve(project: &Project, files: &Vec<SourceFile>, question: &str, k: usize) -> (r: Result<
    Vec<Passage>,
    Error,
>)
    requires
        search_terms_spec(question@) is Some ==> k > 0,
    ensures
        match r {
            Ok(ps) => match search_terms_spec(question@) {
                None => ps@.len() == 0,
                Some(_) => drawn_passages(
                    passages_view(ps@),
                    index_docs_spec(project@, files@),
                    k as nat,
                ),
            },
            Err(e) => e is Index && search_terms_spec(question@) is Some,
        },
{
    let terms = match search_terms(question) {
        None => return Ok(Vec::new()),
        Some(t) => t,
    };
    let docs = index_documents(project, files);
    let ranked = rank(&docs, terms.as_str(), k)?;
    let ps = passages(&docs, &ranked);
    let ghost all = index_docs_spec(project@, files@);
    assert(ranked_ok(ranked@, all.len(), k as nat));
    assert forall|i: int| 0 <= i < ranked@.len() implies #[trigger] all[ranked@[i] as int] == docs@[ranked@[i] as int]@ by {
        assert(ranked@[i] < docs@.len());
    }
    assert(passages_view(ps@) =~= ranked@.map_values(|j: usize| passage_of(all[j as int])));
    Ok(ps)
}

} // verus!
