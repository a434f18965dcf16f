//! The full-text engine behind the retrieval index: an in-memory tantivy
//! index over the documents' titles and bodies, queried with BM25.
//!
//! Each call into tantivy goes through one small trusted function; what the
//! engine ranks, and in which order, is tantivy's own and is stated of
//! every outcome only: at most `k` hits, each naming one of the documents.

use vstd::prelude::*;
use crate::Error;
use crate::index::{DocV, IndexDoc};
use tantivy::query::QueryParser;
use tantivy::schema::{Field, Schema, SchemaBuilder, Value};
use tantivy::{DocAddress, Index, IndexReader, IndexWriter, Searcher, TantivyDocument};

verus! {

#[verifier::external_type_specification]
#[verifier::external_body]
pub struct ExSchemaBuilder(SchemaBuilder);

#[verifier::external_type_specification]
#[verifier::external_body]
pub struct ExSchema(Schema);

#[verifier::external_type_specification]
#[verifier::external_body]
pub struct ExIndex(Index);

/// The writer that fills an index with documents. Verus does not take a
/// declaration of `IndexWriter`, whose document type is bounded by a tantivy
/// trait, so the writer is held in a private field that Verus does not read.
#[verifier::external_body]
pub struct DocWriter {
    writer: IndexWriter<TantivyDocument>,
}

#[verifier::external_type_specification]
#[verifier::external_body]
pub struct ExIndexReader(IndexReader);

#[verifier::external_type_specification]
#[verifier::external_body]
pub struct ExSearcher(Searcher);

#[verifier::external_type_specification]
#[verifier::external_body]
pub struct ExQueryParser(QueryParser);

#[verifier::external_type_specification]
#[verifier::external_body]
pub struct ExDocAddress(DocAddress);

#[verifier::external_type_specification]
#[verifier::external_body]
pub struct ExTantivyDocument(TantivyDocument);

/// The names of the fields a schema builder holds, in the order they were
/// added.
pub uninterp spec fn builder_fields(sb: SchemaBuilder) -> Seq<Seq<char>>;

/// A name tantivy accepts for a field: not empty, not starting with `-`.
pub open spec fn valid_field_name(n: Seq<char>) -> bool {
    n.len() > 0 && n[0] != '-'
}

/// Calls `Schema::builder`: a builder that holds no field yet.
#[verifier::external_body]
fn schema_builder() -> (sb: SchemaBuilder)
    ensures
        builder_fields(sb) == Seq::<Seq<char>>::empty(),
{
    Schema::builder()
}

/// Calls `SchemaBuilder::add_text_field` with the `TEXT` options (tokenized
/// and indexed) and gives the field's id (`Field::field_id`). It appends
/// the field, whose id is its position; it panics on an invalid name or a
/// name already there, which `requires` leaves out.
#[verifier::external_body]
fn add_text_field(sb: &mut SchemaBuilder, name: &str) -> (f: u32)
    requires
        valid_field_name(name@),
        !builder_fields(*old(sb)).contains(name@),
        builder_fields(*old(sb)).len() < u32::MAX,
    ensures
        builder_fields(*final(sb)) == builder_fields(*old(sb)).push(name@),
        f == builder_fields(*old(sb)).len(),
{
    sb.add_text_field(name, tantivy::schema::TEXT).field_id()
}

/// Calls `SchemaBuilder::add_u64_field` with the `STORED` option and gives
/// the field's id. It appends the field, whose id is its position; it panics on an invalid name or a name already there,
/// which `requires` leaves out.
#[verifier::external_body]
fn add_stored_u64_field(sb: &mut SchemaBuilder, name: &str) -> (f: u32)
    requires
        valid_field_name(name@),
        !builder_fields(*old(sb)).contains(name@),
        builder_fields(*old(sb)).len() < u32::MAX,
    ensures
        builder_fields(*final(sb)) == builder_fields(*old(sb)).push(name@),
        f == builder_fields(*old(sb)).len(),
{
    sb.add_u64_field(name, tantivy::schema::STORED).field_id()
}

/// Calls `SchemaBuilder::build`.
#[verifier::external_body]
fn build_schema(sb: SchemaBuilder) -> Schema {
    sb.build()
}

/// Calls `Index::create_in_ram`.
#[verifier::external_body]
fn create_in_ram(schema: Schema) -> Index {
    Index::create_in_ram(schema)
}

/// The documents added to a writer, in order.
pub uninterp spec fn written(w: DocWriter) -> Seq<TantivyDocument>;

/// The text values of a document, with the ids of their fields, in the
/// order they were added.
pub uninterp spec fn doc_texts(d: TantivyDocument) -> Seq<(u32, Seq<char>)>;

/// The `u64` values of a document, with the ids of their fields, in the
/// order they were added.
pub uninterp spec fn doc_u64s(d: TantivyDocument) -> Seq<(u32, u64)>;

/// Calls `Index::writer` with an overall memory budget: a writer that holds
/// no document yet. Its error comes back as text.
#[verifier::external_body]
fn index_writer(index: &Index, budget: usize) -> (r: Result<DocWriter, String>)
    ensures
        r is Ok ==> written(r->Ok_0) == Seq::<TantivyDocument>::empty(),
{
    index.writer(budget).map(|writer| DocWriter { writer }).map_err(|e| e.to_string())
}

/// Calls `TantivyDocument::new`: a document with no value.
#[verifier::external_body]
fn new_document() -> (d: TantivyDocument)
    ensures
        doc_texts(d) == Seq::<(u32, Seq<char>)>::empty(),
        doc_u64s(d) == Seq::<(u32, u64)>::empty(),
{
    TantivyDocument::new()
}

/// Calls `TantivyDocument::add_text` on the field of that id: the value is
/// appended.
#[verifier::external_body]
fn add_text(doc: &mut TantivyDocument, field: u32, text: &str)
    ensures
        doc_texts(*final(doc)) == doc_texts(*old(doc)).push((field, text@)),
        doc_u64s(*final(doc)) == doc_u64s(*old(doc)),
{
    doc.add_text(Field::from_field_id(field), text)
}

/// Calls `TantivyDocument::add_u64` on the field of that id: the value is
/// appended.
#[verifier::external_body]
fn add_u64(doc: &mut TantivyDocument, field: u32, value: u64)
    ensures
        doc_u64s(*final(doc)) == doc_u64s(*old(doc)).push((field, value)),
        doc_texts(*final(doc)) == doc_texts(*old(doc)),
{
    doc.add_u64(Field::from_field_id(field), value)
}

/// Calls `IndexWriter::add_document`: on success the document is the
/// writer's last. Its error comes back as text.
#[verifier::external_body]
fn add_document(w: &mut DocWriter, doc: TantivyDocument) -> (r: Result<u64, String>)
    ensures
        r is Ok ==> written(*final(w)) == written(*old(w)).push(doc),
{
    w.writer.add_document(doc).map_err(|e| e.to_string())
}

/// Calls `IndexWriter::commit`; its error comes back as text.
#[verifier::external_body]
fn commit(w: &mut DocWriter) -> Result<u64, String> {
    w.writer.commit().map_err(|e| e.to_string())
}

/// Calls `Index::reader`; its error comes back as text.
#[verifier::external_body]
fn index_reader(index: &Index) -> Result<IndexReader, String> {
    index.reader().map_err(|e| e.to_string())
}

/// Calls `IndexReader::searcher`.
#[verifier::external_body]
fn searcher(reader: &IndexReader) -> Searcher {
    reader.searcher()
}

/// Calls `QueryParser::for_index`, searching the fields of the given ids
/// by default.
#[verifier::external_body]
fn query_parser(index: &Index, fields: Vec<u32>) -> QueryParser {
    QueryParser::for_index(index, fields.into_iter().map(Field::from_field_id).collect())
}

/// Parses the query with `QueryParser::parse_query` and runs it with
/// `Searcher::search` under `TopDocs::with_limit(k).order_by_score()`,
/// keeping the addresses of the hits, best score first. The parsed query is
/// a trait object, so the two calls stand together. `with_limit` panics on
/// 0, which `requires` leaves out; the collector keeps at most `k` hits.
/// Which documents match, and their order, is not stated.
#[verifier::external_body]
fn top_docs(s: &Searcher, parser: &QueryParser, query: &str, k: usize) -> (r: Result<Vec<DocAddress>, String>)
    requires
        k > 0,
    ensures
        r is Ok ==> r->Ok_0.len() <= k,
{
    let q = parser.parse_query(query).map_err(|e| e.to_string())?;
    let collector = tantivy::collector::TopDocs::with_limit(k).order_by_score();
    let hits = s.search(&q, &collector).map_err(|e| e.to_string())?;
    Ok(hits.into_iter().map(|(_score, address)| address).collect())
}

/// Calls `Searcher::doc`, which reads the stored fields of a hit; its error
/// comes back as text.
#[verifier::external_body]
fn stored_doc(s: &Searcher, address: DocAddress) -> Result<TantivyDocument, String> {
    s.doc::<TantivyDocument>(address).map_err(|e| e.to_string())
}

/// Calls `TantivyDocument::get_first` on the field of that id and reads the value as a `u64`, when
/// there is one of that type.
#[verifier::external_body]
fn first_u64(doc: &TantivyDocument, field: u32) -> Option<u64> {
    doc.get_first(Field::from_field_id(field)).and_then(|v| v.as_u64())
}

/// Overall memory budget of the index writer, in bytes.
pub const WRITER_BUDGET: usize = 15_000_000;

/// The hits of the engine: positions among the documents, at most `k`.
pub open spec fn ranked_ok(ranked: Seq<usize>, n: nat, k: nat) -> bool {
    &&& ranked.len() <= k
    &&& forall|i: int| 0 <= i < ranked.len() ==> #[trigger] ranked[i] < n
}

/// The id of the `title` field: the schema's first field.
pub const TITLE_FIELD: u32 = 0;

/// The id of the `body` field: the schema's second field.
pub const BODY_FIELD: u32 = 1;

/// The id of the stored `pos` field: the schema's third field.
pub const POS_FIELD: u32 = 2;

/// The engine's document for the document at position `i`: its title and
/// body as text, its position stored.
pub open spec fn engine_doc(d: TantivyDocument, doc: DocV, i: int) -> bool {
    &&& doc_texts(d) == seq![(TITLE_FIELD, doc.title), (BODY_FIELD, doc.body)]
    &&& doc_u64s(d) == seq![(POS_FIELD, i as u64)]
}

/// Adds the documents to the writer, in order, each with its title, its
/// body and its position; the documents already there stay. A failure of
/// the writer is an index error.
pub fn write_documents(w: &mut DocWriter, docs: &Vec<IndexDoc>) -> (r: Result<(), Error>)
    ensures
        r is Ok ==> {
            &&& written(*final(w)).len() == written(*old(w)).len() + docs@.len()
            &&& written(*final(w)).take(written(*old(w)).len() as int) == written(*old(w))
            &&& forall|i: int| 0 <= i < docs@.len() ==> #[trigger] engine_doc(
                written(*final(w))[written(*old(w)).len() + i],
                docs@[i]@,
                i,
            )
        },
        r is Err ==> r->Err_0 is Index,
{
    let ghost start = written(*w);
    for i in 0..docs.len()
        invariant
            written(*w).len() == start.len() + i,
            written(*w).take(start.len() as int) == start,
            forall|j: int| 0 <= j < i ==> #[trigger] engine_doc(written(*w)[start.len() + j], docs@[j]@, j),
    {
        let mut doc = new_document();
        add_text(&mut doc, TITLE_FIELD, docs[i].title.as_str());
        add_text(&mut doc, BODY_FIELD, docs[i].body.as_str());
        add_u64(&mut doc, POS_FIELD, i as u64);
        assert(doc_texts(doc) =~= seq![(TITLE_FIELD, docs@[i as int]@.title), (BODY_FIELD, docs@[i as int]@.body)]);
        assert(doc_u64s(doc) =~= seq![(POS_FIELD, i as u64)]);
        let ghost before = written(*w);
        match add_document(w, doc) {
            Ok(_) => {},
            Err(e) => return Err(Error::Index(e)),
        }
        assert(written(*w).take(start.len() as int) =~= before.take(start.len() as int));
        assert forall|j: int| 0 <= j < i + 1 implies #[trigger] engine_doc(written(*w)[start.len() + j], docs@[j]@, j) by {
            if j < i {
                assert(written(*w)[start.len() + j] == before[start.len() + j]);
            }
        }
    }
    Ok(())
}

/// Ranks the documents for a query with BM25 over their titles and bodies:
/// their positions among `docs`, best first, at most `k`. The schema holds
/// `title` and `body` (tokenized text) and `pos` (stored), the documents
/// go in as [`write_documents`] says, and the query is parsed over `title`
/// and `body`. Which documents match, and their order, is the engine's;
/// every failure of the engine is an index error.
pub fn rank(docs: &Vec<IndexDoc>, query: &str, k: usize) -> (r: Result<Vec<usize>, Error>)
    requires
        k > 0,
    ensures
        match r {
            Ok(v) => ranked_ok(v@, docs@.len(), k as nat),
            Err(e) => e is Index,
        },
{
    let mut sb = schema_builder();
    proof {
        reveal_strlit("title");
        reveal_strlit("body");
        reveal_strlit("pos");
    }
    let f_title = add_text_field(&mut sb, "title");
    assert(builder_fields(sb) =~= seq!["title"@]);
    assert("title"@.len() == 5 && "body"@.len() == 4 && "pos"@.len() == 3);
    let f_body = add_text_field(&mut sb, "body");
    assert(builder_fields(sb) =~= seq!["title"@, "body"@]);
    let f_pos = add_stored_u64_field(&mut sb, "pos");
    assert(f_title == TITLE_FIELD && f_body == BODY_FIELD && f_pos == POS_FIELD);
    let index = create_in_ram(build_schema(sb));
    let mut writer = match index_writer(&index, WRITER_BUDGET) {
        Ok(w) => w,
        Err(e) => return Err(Error::Index(e)),
    };
    write_documents(&mut writer, docs)?;
    if let Err(e) = commit(&mut writer) {
        return Err(Error::Index(e));
    }
    let reader = match index_reader(&index) {
        Ok(r) => r,
        Err(e) => return Err(Error::Index(e)),
    };
    let s = searcher(&reader);
    let parser = query_parser(&index, vec![f_title, f_body]);
    let hits = match top_docs(&s, &parser, query, k) {
        Ok(h) => h,
        Err(e) => return Err(Error::Index(e)),
    };
    let mut out: Vec<usize> = Vec::new();
    for j in 0..hits.len()
        invariant
            hits@.len() <= k,
            out@.len() <= j,
            forall|i: int| 0 <= i < out@.len() ==> #[trigger] out@[i] < docs@.len(),
    {
        let doc = match stored_doc(&s, hits[j]) {
            Ok(d) => d,
            Err(e) => return Err(Error::Index(e)),
        };
        if let Some(p) = first_u64(&doc, f_pos) {
            if p < docs.len() as u64 {
                out.push(p as usize);
            }
        }
    }
    Ok(out)
}

} // verus!
