//! The output data model: a forest of element and text nodes.
//!
//! An element carries a tag name, an ordered list of unique-keyed
//! attributes, and its children in document order. A text node carries an
//! opaque string. The spec-level mirror types (`SpecNode`, `SpecPropValue`)
//! state the same shapes over `Seq<char>`, so that contracts can speak of
//! node trees mathematically.

use vstd::prelude::*;

verus! {

/// An attribute value: either a string, or a bare flag attribute
/// (an attribute written without `=value`), which stands for boolean true.
#[derive(Debug, PartialEq)]
pub enum PropValue {
    Str(String),
    Flag,
}

/// The spec-level mirror of `PropValue`.
pub enum SpecPropValue {
    Str(Seq<char>),
    Flag,
}

impl View for PropValue {
    type V = SpecPropValue;

    open spec fn view(&self) -> SpecPropValue {
        match self {
            PropValue::Str(s) => SpecPropValue::Str(s@),
            PropValue::Flag => SpecPropValue::Flag,
        }
    }
}

/// One attribute of an element: a key and its value.
#[derive(Debug, PartialEq)]
pub struct Prop {
    pub key: String,
    pub value: PropValue,
}

impl View for Prop {
    type V = (Seq<char>, SpecPropValue);

    open spec fn view(&self) -> (Seq<char>, SpecPropValue) {
        (self.key@, self.value@)
    }
}

/// The view of an attribute list: key/value pairs in capture order.
pub open spec fn props_view(ps: Seq<Prop>) -> Seq<(Seq<char>, SpecPropValue)> {
    ps.map_values(|p: Prop| p@)
}

/// Whether `props` holds an entry for `key`.
pub open spec fn has_key(props: Seq<(Seq<char>, SpecPropValue)>, key: Seq<char>) -> bool {
    exists|i: int| 0 <= i < props.len() && (#[trigger] props[i]).0 == key
}

/// The index of the first entry for `key`.
pub open spec fn key_index(props: Seq<(Seq<char>, SpecPropValue)>, key: Seq<char>) -> int
    decreases props.len(),
{
    if props.len() == 0 {
        0
    } else if props[0].0 == key {
        0
    } else {
        1 + key_index(props.drop_first(), key)
    }
}

/// The value stored under `key`, if any.
pub open spec fn lookup(props: Seq<(Seq<char>, SpecPropValue)>, key: Seq<char>) -> Option<
    SpecPropValue,
>
    decreases props.len(),
{
    if props.len() == 0 {
        None
    } else if props[0].0 == key {
        Some(props[0].1)
    } else {
        lookup(props.drop_first(), key)
    }
}

/// Record `key = value`: the value of an existing entry is replaced in
/// place (so a duplicate attribute keeps its first position but the last
/// occurrence's value wins); a new key is appended.
pub open spec fn upsert(
    props: Seq<(Seq<char>, SpecPropValue)>,
    key: Seq<char>,
    value: SpecPropValue,
) -> Seq<(Seq<char>, SpecPropValue)> {
    if has_key(props, key) {
        props.update(key_index(props, key), (key, value))
    } else {
        props.push((key, value))
    }
}

/// No two entries share a key.
pub open spec fn unique_keys(props: Seq<(Seq<char>, SpecPropValue)>) -> bool {
    forall|i: int, j: int|
        0 <= i < j < props.len() ==> (#[trigger] props[i]).0 != (#[trigger] props[j]).0
}

/// A node of the output forest: an element with tag, attributes and
/// children, or a literal text leaf.
#[derive(Debug, PartialEq)]
pub enum Node {
    Element { tag: String, props: Vec<Prop>, children: Vec<Node> },
    Text { content: String },
}

/// The spec-level mirror of `Node`.
pub enum SpecNode {
    Element {
        tag: Seq<char>,
        props: Seq<(Seq<char>, SpecPropValue)>,
        children: Seq<SpecNode>,
    },
    Text { content: Seq<char> },
}

/// The mathematical value of a node.
pub open spec fn node_view(n: Node) -> SpecNode
    decreases n,
{
    match n {
        Node::Element { tag, props, children } => SpecNode::Element {
            tag: tag@,
            props: props_view(props@),
            children: nodes_view(children@),
        },
        Node::Text { content } => SpecNode::Text { content: content@ },
    }
}

/// The mathematical value of a node sequence, element by element.
pub open spec fn nodes_view(ns: Seq<Node>) -> Seq<SpecNode>
    decreases ns,
{
    if ns.len() == 0 {
        Seq::empty()
    } else {
        nodes_view(ns.drop_last()).push(node_view(ns.last()))
    }
}

impl View for Node {
    type V = SpecNode;

    open spec fn view(&self) -> SpecNode {
        node_view(*self)
    }
}

/// Appending a node to a sequence appends its view.
pub proof fn lemma_nodes_view_push(ns: Seq<Node>, n: Node)
    ensures
        nodes_view(ns.push(n)) == nodes_view(ns).push(node_view(n)),
{
    assert(ns.push(n).drop_last() =~= ns);
    assert(ns.push(n).last() == n);
}

/// The view of a one-node sequence is the one-element view sequence.
pub proof fn lemma_nodes_view_singleton(n: Node)
    ensures
        nodes_view(seq![n]) == seq![node_view(n)],
{
    assert(seq![n].drop_last() =~= Seq::<Node>::empty());
    assert(nodes_view(Seq::<Node>::empty()) == Seq::<SpecNode>::empty());
    assert(nodes_view(seq![n]) =~= seq![node_view(n)]);
}

/// Options that steer the conversion: the allow-list of raw-HTML tag
/// names (case-sensitive, exact match) that may become element nodes.
pub struct TranspileOptions {
    pub allowed_tags: Vec<String>,
}

/// The view of the allow-list: the tag names as character sequences.
pub open spec fn strings_view(ss: Seq<String>) -> Seq<Seq<char>> {
    ss.map_values(|s: String| s@)
}

} // verus!
