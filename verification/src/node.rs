//! Parsed documents as plain values.
//!
//! [`Node`] holds a JSON or YAML document (what the analyzers read of
//! OpenAPI specs, Compose files, Kubernetes manifests, `package.json` and
//! `.json` configuration); [`SyntaxNode`] holds a concrete syntax tree of a
//! source file. The parsers that produce them stand outside the library.

use vstd::prelude::*;
use crate::text::str_eq;

verus! {

/// A JSON/YAML value. Mappings keep the order in which the parser lists
/// their entries.
pub enum Node {
    Null,
    Bool(bool),
    /// A number, as the parser prints it.
    Number(String),
    Text(String),
    List(Vec<Node>),
    Mapping(Vec<(Node, Node)>),
}

/// Index of the first entry whose key is the string `key`.
pub open spec fn entry_index(entries: Seq<(Node, Node)>, key: Seq<char>) -> Option<int>
    decreases entries.len(),
{
    if entries.len() == 0 {
        None
    } else {
        match entry_index(entries.drop_last(), key) {
            Some(i) => Some(i),
            None => match entries.last().0 {
                Node::Text(k) => if k@ == key {
                    Some(entries.len() - 1)
                } else {
                    None
                },
                _ => None,
            },
        }
    }
}

/// `value.get(key)`: the value under the string key `key` of a mapping.
pub open spec fn node_get(n: Node, key: Seq<char>) -> Option<Node> {
    match n {
        Node::Mapping(entries) => match entry_index(entries@, key) {
            Some(i) => Some(entries@[i].1),
            None => None,
        },
        _ => None,
    }
}

/// `value.as_str()`.
pub open spec fn node_str(n: Option<Node>) -> Option<Seq<char>> {
    match n {
        Some(Node::Text(s)) => Some(s@),
        _ => None,
    }
}

proof fn lemma_entry_index_take(entries: Seq<(Node, Node)>, key: Seq<char>, i: int)
    requires
        0 <= i < entries.len(),
    ensures
        entry_index(entries.take(i + 1), key) == match entry_index(entries.take(i), key) {
            Some(j) => Some(j),
            None => match entries[i].0 {
                Node::Text(k) => if k@ == key {
                    Some(i)
                } else {
                    None
                },
                _ => None,
            },
        },
{
    assert(entries.take(i + 1).drop_last() =~= entries.take(i));
}

pub proof fn lemma_entry_index_bound(entries: Seq<(Node, Node)>, key: Seq<char>)
    ensures
        entry_index(entries, key) matches Some(i) ==> 0 <= i < entries.len(),
    decreases entries.len(),
{
    if entries.len() > 0 {
        lemma_entry_index_bound(entries.drop_last(), key);
    }
}

/// `value.get(key)`.
pub fn get<'a>(n: &'a Node, key: &str) -> (r: Option<&'a Node>)
    ensures
        match r {
            Some(x) => node_get(*n, key@) == Some(*x),
            None => node_get(*n, key@) is None,
        },
{
    match n {
        Node::Mapping(entries) => {
            let mut i: usize = 0;
            while i < entries.len()
                invariant
                    i <= entries@.len(),
                    entry_index(entries@.take(i as int), key@) is None,
                    node_get(*n, key@) == match entry_index(entries@, key@) {
                        Some(j) => Some(entries@[j].1),
                        None => None,
                    },
                decreases entries@.len() - i,
            {
                proof {
                    lemma_entry_index_take(entries@, key@, i as int);
                }
                match &entries[i].0 {
                    Node::Text(k) => {
                        if str_eq(k.as_str(), key) {
                            proof {
                                lemma_entry_index_prefix(entries@, key@, i as int);
                            }
                            return Some(&entries[i].1);
                        }
                    },
                    _ => {},
                }
                i += 1;
            }
            assert(entries@.take(entries@.len() as int) =~= entries@);
            None
        },
        _ => None,
    }
}

/// Once a prefix holds a matching key, the whole sequence finds it there.
pub proof fn lemma_entry_index_prefix(entries: Seq<(Node, Node)>, key: Seq<char>, i: int)
    requires
        0 <= i < entries.len(),
        entry_index(entries.take(i + 1), key) == Some(i),
    ensures
        entry_index(entries, key) == Some(i),
    decreases entries.len(),
{
    if entries.len() > i + 1 {
        assert(entries.drop_last().take(i + 1) =~= entries.take(i + 1));
        lemma_entry_index_prefix(entries.drop_last(), key, i);
    } else {
        assert(entries.take(i + 1) =~= entries);
    }
}

/// `value.get(key).and_then(|v| v.as_str())`, copied.
pub fn get_str(n: &Node, key: &str) -> (r: Option<String>)
    ensures
        match r {
            Some(s) => node_str(node_get(*n, key@)) == Some(s@),
            None => node_str(node_get(*n, key@)) is None,
        },
{
    match get(n, key) {
        Some(Node::Text(s)) => Some(s.clone()),
        _ => None,
    }
}

/// A node of a concrete syntax tree.
pub struct SyntaxNode {
    /// The grammar's name for the node (`class_declaration`, ...).
    pub kind: String,
    /// The source text the node covers.
    pub text: String,
    /// The field name under which the node stands in its parent, if any.
    pub field: Option<String>,
    /// All children (named and anonymous), in order.
    pub children: Vec<SyntaxNode>,
}

/// Index of the first child under field `name`.
pub open spec fn field_index(children: Seq<SyntaxNode>, name: Seq<char>) -> Option<int>
    decreases children.len(),
{
    if children.len() == 0 {
        None
    } else {
        match field_index(children.drop_last(), name) {
            Some(i) => Some(i),
            None => match children.last().field {
                Some(f) => if f@ == name {
                    Some(children.len() - 1)
                } else {
                    None
                },
                None => None,
            },
        }
    }
}

/// `node.child_by_field_name(name)`.
pub open spec fn child_by_field(n: SyntaxNode, name: Seq<char>) -> Option<SyntaxNode> {
    match field_index(n.children@, name) {
        Some(i) => Some(n.children@[i]),
        None => None,
    }
}

proof fn lemma_field_index_take(children: Seq<SyntaxNode>, name: Seq<char>, i: int)
    requires
        0 <= i < children.len(),
    ensures
        field_index(children.take(i + 1), name) == match field_index(children.take(i), name) {
            Some(j) => Some(j),
            None => match children[i].field {
                Some(f) => if f@ == name {
                    Some(i)
                } else {
                    None
                },
                None => None,
            },
        },
{
    assert(children.take(i + 1).drop_last() =~= children.take(i));
}

proof fn lemma_field_index_prefix(children: Seq<SyntaxNode>, name: Seq<char>, i: int)
    requires
        0 <= i < children.len(),
        field_index(children.take(i + 1), name) == Some(i),
    ensures
        field_index(children, name) == Some(i),
    decreases children.len(),
{
    if children.len() > i + 1 {
        assert(children.drop_last().take(i + 1) =~= children.take(i + 1));
        lemma_field_index_prefix(children.drop_last(), name, i);
    } else {
        assert(children.take(i + 1) =~= children);
    }
}

/// `node.child_by_field_name(name)`.
pub fn child_by_field_name<'a>(n: &'a SyntaxNode, name: &str) -> (r: Option<&'a SyntaxNode>)
    ensures
        match r {
            Some(x) => child_by_field(*n, name@) == Some(*x),
            None => child_by_field(*n, name@) is None,
        },
{
    let mut i: usize = 0;
    while i < n.children.len()
        invariant
            i <= n.children@.len(),
            field_index(n.children@.take(i as int), name@) is None,
        decreases n.children@.len() - i,
    {
        proof {
            lemma_field_index_take(n.children@, name@, i as int);
        }
        match &n.children[i].field {
            Some(f) => {
                if str_eq(f.as_str(), name) {
                    proof {
                        lemma_field_index_prefix(n.children@, name@, i as int);
                    }
                    return Some(&n.children[i]);
                }
            },
            None => {},
        }
        i += 1;
    }
    assert(n.children@.take(n.children@.len() as int) =~= n.children@);
    None
}

} // verus!
