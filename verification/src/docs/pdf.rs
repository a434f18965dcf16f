//! The PDF export: the Markdown documentation read line by line into
//! headings, paragraphs and breaks, then typeset with genpdf.

use vstd::prelude::*;
use crate::Error;
use crate::model::{Project, ProjectV};
use crate::text::concat2;
use genpdf::fonts::FontData;
use genpdf::{Document, Element, SimplePageDecorator};
use crate::text::{
    flatten, has_prefix, lemma_flatten_take, lemma_map_push, replace, replace_char, split_char,
    split_on, starts_with, string_of_range, to_chars, trim, trim_end, trim_seq, views,
};

verus! {

broadcast use vstd::seq_lib::group_seq_properties;

/// A block of the PDF document.
pub enum PdfBlock {
    /// A bold heading of the given font size.
    Heading { text: String, size: u8 },
    /// An empty line.
    Break,
    /// A paragraph of text.
    Paragraph(String),
}

pub enum BlockV {
    Heading { text: Seq<char>, size: u8 },
    Break,
    Paragraph(Seq<char>),
}

impl View for PdfBlock {
    type V = BlockV;

    open spec fn view(&self) -> BlockV {
        match self {
            PdfBlock::Heading { text, size } => BlockV::Heading { text: text@, size: *size },
            PdfBlock::Break => BlockV::Break,
            PdfBlock::Paragraph(t) => BlockV::Paragraph(t@),
        }
    }
}

pub open spec fn blocks_view(v: Seq<PdfBlock>) -> Seq<BlockV> {
    v.map_values(|b: PdfBlock| b@)
}

/// The lines `str::lines` gives: the pieces between line feeds, without a
/// last empty piece.
pub open spec fn lines_of(s: Seq<char>) -> Seq<Seq<char>> {
    let ps = split_on(s, '\n');
    if ps.len() > 0 && ps.last().len() == 0 {
        ps.drop_last()
    } else {
        ps
    }
}

/// `s` without leading and trailing `c`.
pub open spec fn trim_char(s: Seq<char>, c: char) -> Seq<char>
    decreases s.len(),
{
    if s.len() > 0 && s[0] == c {
        trim_char(s.drop_first(), c)
    } else if s.len() > 0 && s.last() == c {
        trim_char(s.drop_last(), c)
    } else {
        s
    }
}

/// Every character is `-` or a space (a table separator row).
pub open spec fn only_rule(s: Seq<char>) -> bool {
    forall|i: int| 0 <= i < s.len() ==> (#[trigger] s[i] == '-' || s[i] == ' ')
}

/// The blocks of one line (already without trailing white space).
pub open spec fn line_blocks(line: Seq<char>) -> Seq<BlockV> {
    if has_prefix(line, "# "@) {
        seq![BlockV::Heading { text: line.subrange(2, line.len() as int), size: 20 }]
    } else if has_prefix(line, "## "@) {
        seq![BlockV::Break, BlockV::Heading { text: line.subrange(3, line.len() as int), size: 14 }]
    } else if has_prefix(line, "### "@) {
        seq![BlockV::Heading { text: line.subrange(4, line.len() as int), size: 12 }]
    } else if line.len() == 0 {
        seq![BlockV::Break]
    } else if line[0] == '|' {
        let cells = replace_char(trim_char(line, '|'), '|', "   "@);
        if only_rule(trim_seq(cells)) {
            Seq::empty()
        } else {
            seq![BlockV::Paragraph(cells)]
        }
    } else {
        seq![BlockV::Paragraph(line)]
    }
}

/// The blocks of a Markdown text: titles, paragraphs, breaks, table rows
/// with their cells spaced out (separator rows left out).
pub open spec fn layout_spec(md: Seq<char>) -> Seq<BlockV> {
    flatten(lines_of(md).map_values(|l: Seq<char>| line_blocks(trim_end(l))))
}

// ---------------------------------------------------------------------------
// Implementation
// ---------------------------------------------------------------------------

fn trim_pipes(s: &str) -> (r: String)
    ensures
        r@ == trim_char(s@, '|'),
{
    let v = to_chars(s);
    let mut i: usize = 0;
    let mut j: usize = v.len();
    assert(v@.subrange(0, v.len() as int) =~= v@);
    while i < j && (v[i] == '|' || v[j - 1] == '|')
        invariant
            i <= j <= v.len(),
            v@ == s@,
            trim_char(v@, '|') == trim_char(v@.subrange(i as int, j as int), '|'),
        decreases j - i,
    {
        let ghost sub = v@.subrange(i as int, j as int);
        assert(sub[0] == v@[i as int]);
        assert(sub.last() == v@[j - 1]);
        if v[i] == '|' {
            assert(sub.drop_first() =~= v@.subrange(i + 1, j as int));
            i += 1;
        } else {
            assert(sub.drop_last() =~= v@.subrange(i as int, j - 1));
            j -= 1;
        }
    }
    proof {
        let sub = v@.subrange(i as int, j as int);
        if i < j {
            assert(sub[0] == v@[i as int]);
            assert(sub.last() == v@[j - 1]);
        }
    }
    string_of_range(&v, i, j)
}

fn is_rule(s: &str) -> (b: bool)
    ensures
        b == only_rule(s@),
{
    let v = to_chars(s);
    let mut i: usize = 0;
    while i < v.len()
        invariant
            v@ == s@,
            i <= v.len(),
            forall|k: int| 0 <= k < i ==> (#[trigger] v@[k] == '-' || v@[k] == ' '),
        decreases v.len() - i,
    {
        if v[i] != '-' && v[i] != ' ' {
            return false;
        }
        i += 1;
    }
    true
}

fn rest_after(s: &str, n: usize) -> (r: String)
    requires
        n <= s@.len(),
    ensures
        r@ == s@.subrange(n as int, s@.len() as int),
{
    let v = to_chars(s);
    string_of_range(&v, n, v.len())
}

fn push_block(out: &mut Vec<PdfBlock>, b: PdfBlock)
    ensures
        blocks_view(final(out)@) == blocks_view(old(out)@).push(b@),
{
    let ghost before = out@;
    out.push(b);
    proof {
        lemma_map_push(before, |x: PdfBlock| x@, out@.last());
    }
}

/// The blocks of one line (see [`line_blocks`]).
pub fn blocks_of_line(line: &str, out: &mut Vec<PdfBlock>)
    ensures
        blocks_view(final(out)@) == blocks_view(old(out)@) + line_blocks(line@),
{
    let ghost start = blocks_view(out@);
    proof {
        reveal_strlit("# ");
        reveal_strlit("## ");
        reveal_strlit("### ");
    }
    if starts_with(line, "# ") {
        push_block(out, PdfBlock::Heading { text: rest_after(line, 2), size: 20 });
    } else if starts_with(line, "## ") {
        push_block(out, PdfBlock::Break);
        push_block(out, PdfBlock::Heading { text: rest_after(line, 3), size: 14 });
    } else if starts_with(line, "### ") {
        push_block(out, PdfBlock::Heading { text: rest_after(line, 4), size: 12 });
    } else if line.is_empty() {
        push_block(out, PdfBlock::Break);
    } else if starts_with(line, "|") {
        proof {
            reveal_strlit("|");
            assert(line@.subrange(0, 1)[0] == line@[0]);
        }
        let inner = trim_pipes(line);
        let cells = replace(inner.as_str(), '|', "   ");
        let t = trim(cells.as_str());
        if !is_rule(t.as_str()) {
            push_block(out, PdfBlock::Paragraph(cells));
        }
    } else {
        proof {
            reveal_strlit("|");
            if line@[0] == '|' {
                assert(line@.subrange(0, 1) =~= "|"@);
            }
        }
        push_block(out, PdfBlock::Paragraph(crate::text::owned(line)));
    }
    assert(blocks_view(out@) =~= start + line_blocks(line@));
}

/// Lays out the documentation of a project as PDF blocks (see
/// [`layout_spec`]); the document's title is the project's name.
pub fn layout(p: &Project) -> (r: Vec<PdfBlock>)
    ensures
        blocks_view(r@) == layout_spec(super::markdown::markdown_spec(p@)),
{
    let md = super::markdown::render(p);
    let pieces = split_char(md.as_str(), '\n');
    let n = if pieces.len() > 0 && pieces[pieces.len() - 1].as_str().is_empty() {
        pieces.len() - 1
    } else {
        pieces.len()
    };
    let ghost ls = lines_of(md@);
    proof {
        crate::text::lemma_split_on_nonempty(md@, '\n');
        if pieces.len() > 0 && pieces@[pieces.len() - 1]@.len() == 0 {
            assert(ls =~= views(pieces@).drop_last());
        } else {
            assert(ls =~= views(pieces@));
        }
    }
    let ghost per = ls.map_values(|l: Seq<char>| line_blocks(trim_end(l)));
    let mut out: Vec<PdfBlock> = Vec::new();
    for i in 0..n
        invariant
            n == ls.len(),
            n <= pieces.len(),
            forall|k: int| 0 <= k < n ==> #[trigger] ls[k] == pieces@[k]@,
            per == ls.map_values(|l: Seq<char>| line_blocks(trim_end(l))),
            blocks_view(out@) == flatten(per.take(i as int)),
    {
        proof {
            lemma_flatten_take(per, i as int);
        }
        assert(ls[i as int] == pieces@[i as int]@);
        let line = super::wiki::trim_end_text(pieces[i].as_str());
        blocks_of_line(line.as_str(), &mut out);
    }
    assert(per.take(n as int) =~= per);
    out
}

#[verifier::external_type_specification]
#[verifier::external_body]
pub struct ExFontData(FontData);

#[verifier::external_type_specification]
#[verifier::external_body]
pub struct ExDocument(Document);

#[verifier::external_type_specification]
#[verifier::external_body]
pub struct ExSimplePageDecorator(SimplePageDecorator);

/// The blocks pushed into a document, in order.
pub uninterp spec fn doc_blocks(d: Document) -> Seq<BlockV>;

/// The title set on a document (empty until set).
pub uninterp spec fn doc_title(d: Document) -> Seq<char>;

/// The margins, in millimetres, of the page decorator a document has, if
/// it has one with margins.
pub uninterp spec fn doc_margins(d: Document) -> Option<i32>;

/// The margins, in millimetres, a page decorator puts on every side, if
/// set.
pub uninterp spec fn decorator_margins(d: SimplePageDecorator) -> Option<i32>;

/// Calls `FontData::clone`.
#[verifier::external_body]
fn copy_font(font: &FontData) -> FontData {
    font.clone()
}

/// Calls `Document::new` with the four variants of a font family: the
/// document has no element, an empty title and no page decorator.
#[verifier::external_body]
fn new_document(regular: FontData, bold: FontData, italic: FontData, bold_italic: FontData) -> (d: Document)
    ensures
        doc_blocks(d) == Seq::<BlockV>::empty(),
        doc_title(d) == Seq::<char>::empty(),
        doc_margins(d) is None,
{
    Document::new(genpdf::fonts::FontFamily { regular, bold, italic, bold_italic })
}

/// Calls `Document::set_title`, which replaces the title.
#[verifier::external_body]
fn set_title(doc: &mut Document, title: &str)
    ensures
        doc_title(*final(doc)) == title@,
        doc_blocks(*final(doc)) == doc_blocks(*old(doc)),
        doc_margins(*final(doc)) == doc_margins(*old(doc)),
{
    doc.set_title(title)
}

/// Calls `SimplePageDecorator::new`, which sets no margins.
#[verifier::external_body]
fn new_decorator() -> (d: SimplePageDecorator)
    ensures
        decorator_margins(d) is None,
{
    SimplePageDecorator::new()
}

/// Calls `SimplePageDecorator::set_margins`, the same on every side, in
/// millimetres.
#[verifier::external_body]
fn set_margins(deco: &mut SimplePageDecorator, mm: i32)
    ensures
        decorator_margins(*final(deco)) == Some(mm),
{
    deco.set_margins(mm)
}

/// Calls `Document::set_page_decorator`, which replaces the decorator.
#[verifier::external_body]
fn set_page_decorator(doc: &mut Document, deco: SimplePageDecorator)
    ensures
        doc_margins(*final(doc)) == decorator_margins(deco),
        doc_blocks(*final(doc)) == doc_blocks(*old(doc)),
        doc_title(*final(doc)) == doc_title(*old(doc)),
{
    doc.set_page_decorator(deco)
}

/// Calls `Document::push` with a `Paragraph` of the text styled bold at
/// the given font size: the document's last element.
#[verifier::external_body]
fn push_heading(doc: &mut Document, text: String, size: u8)
    ensures
        doc_blocks(*final(doc)) == doc_blocks(*old(doc)).push(BlockV::Heading { text: text@, size }),
        doc_title(*final(doc)) == doc_title(*old(doc)),
        doc_margins(*final(doc)) == doc_margins(*old(doc)),
{
    let style = genpdf::style::Style::new().bold().with_font_size(size);
    doc.push(genpdf::elements::Paragraph::new(text).styled(style))
}

/// Calls `Document::push` with a one-line `Break`: the document's last
/// element.
#[verifier::external_body]
fn push_break(doc: &mut Document)
    ensures
        doc_blocks(*final(doc)) == doc_blocks(*old(doc)).push(BlockV::Break),
        doc_title(*final(doc)) == doc_title(*old(doc)),
        doc_margins(*final(doc)) == doc_margins(*old(doc)),
{
    doc.push(genpdf::elements::Break::new(1))
}

/// Calls `Document::push` with a `Paragraph` of the text: the document's
/// last element.
#[verifier::external_body]
fn push_paragraph(doc: &mut Document, text: String)
    ensures
        doc_blocks(*final(doc)) == doc_blocks(*old(doc)).push(BlockV::Paragraph(text@)),
        doc_title(*final(doc)) == doc_title(*old(doc)),
        doc_margins(*final(doc)) == doc_margins(*old(doc)),
{
    doc.push(genpdf::elements::Paragraph::new(text))
}

/// The header every PDF file starts with: `%PDF-`.
pub open spec fn pdf_header() -> Seq<u8> {
    seq![37u8, 80u8, 68u8, 70u8, 45u8]
}

/// Whether bytes start with the PDF header.
pub open spec fn is_pdf(b: Seq<u8>) -> bool {
    b.len() >= 5 && b.subrange(0, 5) == pdf_header()
}

/// Calls `Document::render` into a byte buffer; its error comes back as
/// text. genpdf saves the document with printpdf, whose writer (lopdf's
/// `save_to`) first writes the `%PDF-` line, so the bytes start with the
/// PDF header; the rest holds the time of rendering and a random document
/// id and is not stated.
#[verifier::external_body]
fn render_document(doc: Document) -> (r: Result<Vec<u8>, String>)
    ensures
        r is Ok ==> is_pdf(r->Ok_0@),
{
    let mut buf: Vec<u8> = Vec::new();
    doc.render(&mut buf).map(|_| buf).map_err(|e| e.to_string())
}

/// The document of the PDF export: with `font` for all four variants, the
/// blocks of [`layout`] in order, the project's name as title and 15 mm
/// margins on every side.
pub fn typeset(p: &Project, font: &FontData) -> (d: Document)
    ensures
        doc_blocks(d) == layout_spec(super::markdown::markdown_spec(p@)),
        doc_title(d) == p@.name,
        doc_margins(d) == Some(15i32),
{
    let mut doc = new_document(copy_font(font), copy_font(font), copy_font(font), copy_font(font));
    set_title(&mut doc, p.name.as_str());
    let mut deco = new_decorator();
    set_margins(&mut deco, 15);
    set_page_decorator(&mut doc, deco);
    let blocks = layout(p);
    for i in 0..blocks.len()
        invariant
            doc_blocks(doc) == blocks_view(blocks@).take(i as int),
            doc_title(doc) == p@.name,
            doc_margins(doc) == Some(15i32),
    {
        let ghost before = doc_blocks(doc);
        match &blocks[i] {
            PdfBlock::Heading { text, size } => push_heading(&mut doc, text.clone(), *size),
            PdfBlock::Break => push_break(&mut doc),
            PdfBlock::Paragraph(t) => push_paragraph(&mut doc, t.clone()),
        }
        assert(blocks_view(blocks@).take(i + 1) =~= blocks_view(blocks@).take(i as int).push(blocks@[i as int]@));
    }
    assert(blocks_view(blocks@).take(blocks.len() as int) =~= blocks_view(blocks@));
    doc
}

/// The PDF bytes of the documentation: the document of [`typeset`],
/// rendered by genpdf; they start with the PDF header, and the rest (which
/// holds the time and a random id) is not stated; a failed rendering is an export error whose
/// message starts with `rendering PDF fallito: `.
pub fn render(p: &Project, font: &FontData) -> (r: Result<Vec<u8>, Error>)
    ensures
        r is Ok ==> is_pdf(r->Ok_0@),
        r is Err ==> r->Err_0 is Export && has_prefix(r->Err_0->Export_0@, "rendering PDF fallito: "@),
{
    let doc = typeset(p, font);
    match render_document(doc) {
        Ok(bytes) => Ok(bytes),
        Err(e) => {
            let m = concat2("rendering PDF fallito: ", e.as_str());
            assert(m@.subrange(0, "rendering PDF fallito: "@.len() as int) =~= "rendering PDF fallito: "@);
            Err(Error::Export(m))
        },
    }
}

} // verus!
