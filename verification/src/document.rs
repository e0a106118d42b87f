//! A KDL document as plain values, and how it is read from text.

use vstd::prelude::*;
use crate::text::opt_text;
use kdl::{KdlDocument, KdlEntry, KdlError, KdlNode, KdlValue};

verus! {

/// The value of an argument or a property.
#[derive(Debug, PartialEq, Eq)]
pub enum Value {
    Text(String),
    Integer(i128),
    /// The bit pattern of an IEEE 754 double.
    Float(u64),
    Bool(bool),
    Null,
}

/// An argument, or a property if it has a name.
#[derive(Debug, PartialEq, Eq)]
pub struct Entry {
    pub name: Option<String>,
    pub value: Value,
}

/// A node with its arguments, properties and children.
#[derive(Debug, PartialEq, Eq)]
pub struct Node {
    pub name: String,
    pub entries: Vec<Entry>,
    pub children: Option<Vec<Node>>,
}

/// What a `Value` holds.
pub enum ValueView {
    Text(Seq<char>),
    Integer(i128),
    Float(u64),
    Bool(bool),
    Null,
}

/// What an `Entry` holds.
pub struct EntryView {
    pub name: Option<Seq<char>>,
    pub value: ValueView,
}

/// What a `Node` holds.
pub struct NodeView {
    pub name: Seq<char>,
    pub entries: Seq<EntryView>,
    pub children: Option<Seq<NodeView>>,
}

impl View for Value {
    type V = ValueView;

    open spec fn view(&self) -> ValueView {
        match *self {
            Value::Text(t) => ValueView::Text(t@),
            Value::Integer(i) => ValueView::Integer(i),
            Value::Float(b) => ValueView::Float(b),
            Value::Bool(b) => ValueView::Bool(b),
            Value::Null => ValueView::Null,
        }
    }
}

impl View for Entry {
    type V = EntryView;

    open spec fn view(&self) -> EntryView {
        EntryView {
            name: match self.name {
                Some(n) => Some(n@),
                None => None,
            },
            value: self.value@,
        }
    }
}

/// What a node holds.
pub open spec fn node_view(n: Node) -> NodeView
    decreases n,
{
    NodeView {
        name: n.name@,
        entries: n.entries@.map_values(|e: Entry| e@),
        children: match n.children {
            Some(c) => Some(nodes_view(c@)),
            None => None,
        },
    }
}

/// What a sequence of nodes holds.
pub open spec fn nodes_view(s: Seq<Node>) -> Seq<NodeView>
    decreases s,
{
    Seq::new(s.len(), |i: int| if 0 <= i < s.len() { node_view(s[i]) } else { arbitrary() })
}

/// `kdl::KdlDocument`, a document or the children of a node.
#[verifier::external_type_specification]
#[verifier::external_body]
pub struct ExKdlDocument(kdl::KdlDocument);

/// `kdl::KdlNode`, one node.
#[verifier::external_type_specification]
#[verifier::external_body]
pub struct ExKdlNode(kdl::KdlNode);

/// `kdl::KdlEntry`, an argument or a property of a node.
#[verifier::external_type_specification]
#[verifier::external_body]
pub struct ExKdlEntry(kdl::KdlEntry);

/// `kdl::KdlError`, why a text is no document.
#[verifier::external_type_specification]
#[verifier::external_body]
pub struct ExKdlError(kdl::KdlError);

/// What `KdlDocument`'s `FromStr` makes of a text: the nodes of the document
/// that it is, `None` where it is none.
pub uninterp spec fn kdl_parsed(text: Seq<char>) -> Option<Seq<NodeView>>;

/// The nodes that a document holds.
pub uninterp spec fn kdl_nodes(doc: KdlDocument) -> Seq<NodeView>;

/// What a node holds.
pub uninterp spec fn kdl_node(node: KdlNode) -> NodeView;

/// What an entry holds.
pub uninterp spec fn kdl_entry(entry: KdlEntry) -> EntryView;

/// Calls `KdlDocument`'s `FromStr`: whether the text is a document, and which,
/// depends on the text alone.
#[verifier::external_body]
fn kdl_parse(text: &str) -> (r: Result<KdlDocument, KdlError>)
    ensures
        match r {
            Ok(doc) => kdl_parsed(text@) == Some(kdl_nodes(doc)),
            Err(e) => kdl_parsed(text@) is None,
        },
{
    text.parse()
}

/// Calls `KdlError`'s `Display`, which writes one fixed sentence.
#[verifier::external_body]
fn kdl_error_text(e: &KdlError) -> (r: String)
    ensures
        r@ == "Failed to parse KDL document"@,
{
    e.to_string()
}

/// Calls `KdlDocument::nodes`: the nodes of the document, in order.
#[verifier::external_body]
fn kdl_document_nodes(doc: &KdlDocument) -> (r: &[KdlNode])
    ensures
        r@.len() == kdl_nodes(*doc).len(),
        forall|i: int| 0 <= i < r@.len() ==> kdl_node(#[trigger] r@[i]) == kdl_nodes(*doc)[i],
{
    doc.nodes()
}

/// Calls `KdlNode::name` and `KdlIdentifier::value`: the node's name, without
/// quotes.
#[verifier::external_body]
fn kdl_node_name(node: &KdlNode) -> (r: String)
    ensures
        r@ == kdl_node(*node).name,
{
    node.name().value().to_string()
}

/// Calls `KdlNode::entries`: the node's arguments and properties, in order.
#[verifier::external_body]
fn kdl_node_entries(node: &KdlNode) -> (r: &[KdlEntry])
    ensures
        r@.len() == kdl_node(*node).entries.len(),
        forall|i: int| 0 <= i < r@.len() ==> kdl_entry(#[trigger] r@[i]) == kdl_node(*node).entries[i],
{
    node.entries()
}

/// Calls `KdlNode::children`: the node's block of children, if it has one.
#[verifier::external_body]
fn kdl_node_children(node: &KdlNode) -> (r: Option<&KdlDocument>)
    ensures
        match r {
            Some(doc) => kdl_node(*node).children == Some(kdl_nodes(*doc)),
            None => kdl_node(*node).children is None,
        },
{
    node.children()
}

/// Calls `KdlEntry::name` and `KdlIdentifier::value`: the name of a property,
/// none for an argument.
#[verifier::external_body]
fn kdl_entry_name(entry: &KdlEntry) -> (r: Option<String>)
    ensures
        opt_text(r) == kdl_entry(*entry).name,
{
    entry.name().map(|name| name.value().to_string())
}

/// Calls `KdlEntry::value` and turns each variant of `KdlValue` into its own,
/// a double into its bit pattern.
#[verifier::external_body]
fn kdl_entry_value(entry: &KdlEntry) -> (r: Value)
    ensures
        r@ == kdl_entry(*entry).value,
{
    match entry.value() {
        KdlValue::String(text) => Value::Text(text.clone()),
        KdlValue::Integer(number) => Value::Integer(*number),
        KdlValue::Float(number) => Value::Float(number.to_bits()),
        KdlValue::Bool(flag) => Value::Bool(*flag),
        KdlValue::Null => Value::Null,
    }
}

fn read_entries(entries: &[KdlEntry], Ghost(want): Ghost<Seq<EntryView>>) -> (r: Vec<Entry>)
    requires
        entries@.len() == want.len(),
        forall|i: int| 0 <= i < want.len() ==> kdl_entry(#[trigger] entries@[i]) == want[i],
    ensures
        r@.map_values(|e: Entry| e@) == want,
{
    let mut out: Vec<Entry> = Vec::new();
    let mut i: usize = 0;
    while i < entries.len()
        invariant
            i <= entries.len(),
            out@.len() == i,
            entries@.len() == want.len(),
            forall|j: int| 0 <= j < want.len() ==> kdl_entry(#[trigger] entries@[j]) == want[j],
            forall|j: int| 0 <= j < i ==> (#[trigger] out@[j])@ == want[j],
        decreases entries.len() - i,
    {
        let e: Entry = Entry {
            name: kdl_entry_name(&entries[i]),
            value: kdl_entry_value(&entries[i]),
        };
        assert(kdl_entry(entries@[i as int]) == want[i as int]);
        assert(e@ == want[i as int]);
        out.push(e);
        i = i + 1;
    }
    assert(out@.map_values(|e: Entry| e@) =~= want);
    out
}

/// Reads the nodes of a document.
fn read_document(doc: &KdlDocument) -> (r: Vec<Node>)
    ensures
        nodes_view(r@) == kdl_nodes(*doc),
    decreases kdl_nodes(*doc),
{
    let ghost want = kdl_nodes(*doc);
    let nodes: &[KdlNode] = kdl_document_nodes(doc);
    let mut out: Vec<Node> = Vec::new();
    let mut i: usize = 0;
    while i < nodes.len()
        invariant
            i <= nodes.len(),
            out@.len() == i,
            want == kdl_nodes(*doc),
            nodes@.len() == want.len(),
            forall|j: int| 0 <= j < nodes@.len() ==> kdl_node(#[trigger] nodes@[j]) == want[j],
            forall|j: int| 0 <= j < i ==> node_view(#[trigger] out@[j]) == want[j],
        decreases nodes.len() - i,
    {
        assert(kdl_node(nodes@[i as int]) == want[i as int]);
        let node: &KdlNode = &nodes[i];
        let name: String = kdl_node_name(node);
        let entries: Vec<Entry> = read_entries(
            kdl_node_entries(node),
            Ghost(kdl_node(*node).entries),
        );
        let children: Option<Vec<Node>> = match kdl_node_children(node) {
            Some(block) => {
                proof {
                    let n = want[i as int];
                    assert(decreases_to!(want => n));
                    assert(decreases_to!(n => n.children));
                    assert(decreases_to!(n.children => n.children->0));
                }
                Some(read_document(block))
            },
            None => None,
        };
        let n: Node = Node { name, entries, children };
        assert(node_view(n) == want[i as int]);
        out.push(n);
        i = i + 1;
    }
    assert(nodes_view(out@) =~= want);
    out
}

/// Reads a document from its text. The error is the sentence that says so.
pub fn read_kdl(text: &str) -> (r: Result<Vec<Node>, String>)
    ensures
        match r {
            Ok(nodes) => kdl_parsed(text@) == Some(nodes_view(nodes@)),
            Err(message) => kdl_parsed(text@) is None && message@ == "Failed to parse KDL document"@,
        },
{
    match kdl_parse(text) {
        Ok(doc) => Ok(read_document(&doc)),
        Err(e) => Err(kdl_error_text(&e)),
    }
}

}
