//! Parsing source files into concrete syntax trees with tree-sitter.
//!
//! Each call into tree-sitter goes through one small trusted function; the
//! tree is then copied, node by node, into a [`SyntaxNode`], which the
//! syntax-tree walker reads (see [`crate::analyzers::treesitter`]). What the
//! grammar makes of a text is tree-sitter's own and is not stated.

use vstd::prelude::*;
use crate::analyzers::treesitter::Lang;
use crate::analyzers::{ext, ext_of, SourceFile};
use crate::node::SyntaxNode;
use crate::text::str_eq;
use tree_sitter::{Language as Grammar, Node as TsNode, Parser, Tree, TreeCursor};

verus! {

#[verifier::external_type_specification]
#[verifier::external_body]
pub struct ExGrammar(Grammar);

#[verifier::external_type_specification]
#[verifier::external_body]
pub struct ExParser(Parser);

#[verifier::external_type_specification]
#[verifier::external_body]
pub struct ExTree(Tree);

#[verifier::external_type_specification]
#[verifier::external_body]
pub struct ExTsNode<'tree>(TsNode<'tree>);

#[verifier::external_type_specification]
#[verifier::external_body]
pub struct ExTreeCursor<'cursor>(TreeCursor<'cursor>);

/// The C# grammar, `tree_sitter_c_sharp::LANGUAGE`.
#[verifier::external_body]
fn csharp_grammar() -> Grammar {
    tree_sitter_c_sharp::LANGUAGE.into()
}

/// The Java grammar, `tree_sitter_java::LANGUAGE`.
#[verifier::external_body]
fn java_grammar() -> Grammar {
    tree_sitter_java::LANGUAGE.into()
}

/// The TypeScript grammar, `tree_sitter_typescript::LANGUAGE_TYPESCRIPT`.
#[verifier::external_body]
fn typescript_grammar() -> Grammar {
    tree_sitter_typescript::LANGUAGE_TYPESCRIPT.into()
}

/// The Python grammar, `tree_sitter_python::LANGUAGE`.
#[verifier::external_body]
fn python_grammar() -> Grammar {
    tree_sitter_python::LANGUAGE.into()
}

/// The Go grammar, `tree_sitter_go::LANGUAGE`.
#[verifier::external_body]
fn go_grammar() -> Grammar {
    tree_sitter_go::LANGUAGE.into()
}

impl Lang {
    /// The tree-sitter grammar of the language.
    pub fn language(self) -> Grammar {
        match self {
            Lang::CSharp => csharp_grammar(),
            Lang::Java => java_grammar(),
            Lang::TypeScript => typescript_grammar(),
            Lang::Python => python_grammar(),
            Lang::Go => go_grammar(),
        }
    }
}

/// Calls `Parser::new`.
#[verifier::external_body]
fn new_parser() -> Parser {
    Parser::new()
}

/// Calls `Parser::set_language`; whether the grammar was taken.
#[verifier::external_body]
fn set_language(parser: &mut Parser, grammar: &Grammar) -> bool {
    parser.set_language(grammar).is_ok()
}

/// Calls `Parser::parse` on the text, with no earlier tree.
#[verifier::external_body]
fn parse(parser: &mut Parser, text: &str) -> Option<Tree> {
    parser.parse(text, None)
}

/// Calls `Tree::root_node`.
#[verifier::external_body]
fn root_node<'tree>(tree: &'tree Tree) -> TsNode<'tree> {
    tree.root_node()
}

/// Calls `Node::walk`: a cursor on the node.
#[verifier::external_body]
fn walk<'tree>(node: &TsNode<'tree>) -> TreeCursor<'tree> {
    node.walk()
}

/// Calls `Node::descendant_count`: the nodes of the subtree, the node
/// itself included.
#[verifier::external_body]
fn descendant_count(node: &TsNode) -> usize {
    node.descendant_count()
}

/// Calls `Node::kind`.
#[verifier::external_body]
fn node_kind(node: &TsNode) -> String {
    node.kind().to_string()
}

/// Calls `Node::child_count`.
#[verifier::external_body]
fn child_count(node: &TsNode) -> u32 {
    node.child_count()
}

/// The text the node covers: its `Node::byte_range` taken out of the
/// parsed text, empty when the range does not fall on that text's
/// character boundaries.
#[verifier::external_body]
fn node_text(node: &TsNode, text: &str) -> String {
    text.get(node.byte_range()).unwrap_or("").to_string()
}

/// Calls `TreeCursor::node`.
#[verifier::external_body]
fn cursor_node<'tree>(cursor: &TreeCursor<'tree>) -> TsNode<'tree> {
    cursor.node()
}

/// Calls `TreeCursor::field_name`: the field under which the current node
/// stands in its parent.
#[verifier::external_body]
fn cursor_field_name(cursor: &TreeCursor) -> Option<String> {
    cursor.field_name().map(|f| f.to_string())
}

/// Calls `TreeCursor::goto_first_child`.
#[verifier::external_body]
fn goto_first_child(cursor: &mut TreeCursor) -> bool {
    cursor.goto_first_child()
}

/// Calls `TreeCursor::goto_next_sibling`.
#[verifier::external_body]
fn goto_next_sibling(cursor: &mut TreeCursor) -> bool {
    cursor.goto_next_sibling()
}

/// Calls `TreeCursor::goto_parent`.
#[verifier::external_body]
fn goto_parent(cursor: &mut TreeCursor) -> bool {
    cursor.goto_parent()
}

/// A copy of the node under the cursor, with its children down to `depth`
/// levels (a node's depth is below its subtree's size, which is what the
/// caller passes). The cursor comes back to the node it started on.
fn syntax_at(cursor: &mut TreeCursor, text: &str, depth: usize) -> (r: SyntaxNode)
    ensures
        r.field is None,
    decreases depth,
{
    let node = cursor_node(cursor);
    let kind = node_kind(&node);
    let covered = node_text(&node, text);
    let count = child_count(&node);
    let mut children: Vec<SyntaxNode> = Vec::new();
    if depth > 0 && count > 0 && goto_first_child(cursor) {
        let mut j: u32 = 0;
        while j < count
            invariant
                j <= count,
                depth > 0,
            decreases count - j,
        {
            if j > 0 && !goto_next_sibling(cursor) {
                break;
            }
            let field = cursor_field_name(cursor);
            let child = syntax_at(cursor, text, depth - 1);
            children.push(SyntaxNode { kind: child.kind, text: child.text, field, children: child.children });
            j += 1;
        }
        goto_parent(cursor);
    }
    SyntaxNode { kind, text: covered, field: None, children }
}

/// The syntax tree of a text in a language, when the grammar is taken and
/// the text parses.
pub fn parse_text(lang: Lang, text: &str) -> (r: Option<SyntaxNode>)
    ensures
        r is Some ==> r->Some_0.field is None,
{
    let mut parser = new_parser();
    let grammar = lang.language();
    if !set_language(&mut parser, &grammar) {
        return None;
    }
    match parse(&mut parser, text) {
        None => None,
        Some(tree) => {
            let root = root_node(&tree);
            let depth = descendant_count(&root);
            let mut cursor = walk(&root);
            Some(syntax_at(&mut cursor, text, depth))
        },
    }
}

/// The language whose files the syntax-tree walker reads, by extension:
/// C#, Java, TypeScript, Python and Go.
pub open spec fn walked_lang(e: Seq<char>) -> Option<Lang> {
    if e == "cs"@ {
        Some(Lang::CSharp)
    } else if e == "java"@ {
        Some(Lang::Java)
    } else if e == "ts"@ {
        Some(Lang::TypeScript)
    } else if e == "py"@ {
        Some(Lang::Python)
    } else if e == "go"@ {
        Some(Lang::Go)
    } else {
        None
    }
}

fn walked_lang_of(e: &str) -> (r: Option<Lang>)
    ensures
        r == walked_lang(e@),
{
    if str_eq(e, "cs") {
        Some(Lang::CSharp)
    } else if str_eq(e, "java") {
        Some(Lang::Java)
    } else if str_eq(e, "ts") {
        Some(Lang::TypeScript)
    } else if str_eq(e, "py") {
        Some(Lang::Python)
    } else if str_eq(e, "go") {
        Some(Lang::Go)
    } else {
        None
    }
}

/// Whether `b` is `a` after parsing: a file the walker reads (by
/// extension) that has text gets the parsed tree, a root with no field, or
/// `None`; every other file, and every other field, stays as it was.
pub open spec fn parsed_from(a: SourceFile, b: SourceFile) -> bool {
    &&& b.path == a.path
    &&& b.text == a.text
    &&& b.json == a.json
    &&& b.yaml == a.yaml
    &&& b.yaml_docs == a.yaml_docs
    &&& if walked_lang(ext_of(a.path@)) is Some && a.text is Some {
        b.syntax is Some ==> b.syntax->Some_0.field is None
    } else {
        b.syntax == a.syntax
    }
}

/// Parses every file the walker reads (`.cs`, `.java`, `.ts`, `.py`, `.go`,
/// with text) with its language's grammar and stores the tree in `syntax`
/// (`None` when it does not parse); every other file stays as it is.
pub fn parse_sources(files: &mut Vec<SourceFile>)
    ensures
        final(files)@.len() == old(files)@.len(),
        forall|i: int| 0 <= i < old(files)@.len() ==> #[trigger] parsed_from(old(files)@[i], final(files)@[i]),
{
    let ghost before = files@;
    let n = files.len();
    for i in 0..n
        invariant
            n == before.len(),
            files@.len() == n,
            forall|k: int| 0 <= k < i ==> #[trigger] parsed_from(before[k], files@[k]),
            forall|k: int| i <= k < n ==> files@[k] == before[k],
    {
        let e = ext(files[i].path.as_str());
        let tree = match walked_lang_of(e.as_str()) {
            Some(lang) => match &files[i].text {
                Some(t) => Some(parse_text(lang, t.as_str())),
                None => None,
            },
            None => None,
        };
        match tree {
            Some(syntax) => {
                files[i].syntax = syntax;
            },
            None => {},
        }
    }
}

} // verus!
