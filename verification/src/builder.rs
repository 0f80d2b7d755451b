//! The tree builder: a single pass over the event stream that maintains
//! an explicit open-node stack and emits the finished forest.
//!
//! Every event either produces a node, is silently dropped (a line break
//! at the root, an event outside the enumerated set, an end event with
//! nothing open), or falls back to opaque text (unrecognized or
//! disallowed raw HTML). Nodes still open when the stream ends are
//! discarded. The whole pass is specified by the `step` function below,
//! one event at a time, and `parse` is proved to return exactly the
//! forest that folding `step` over the stream yields.

use vstd::prelude::*;
use vstd::string::StringExecFns;

use crate::ast::Node;
use crate::ast::Prop;
use crate::ast::PropValue;
use crate::ast::SpecNode;
use crate::ast::SpecPropValue;
use crate::ast::TranspileOptions;
use crate::ast::lemma_nodes_view_push;
use crate::ast::lemma_nodes_view_singleton;
use crate::ast::lookup;
use crate::ast::node_view;
use crate::ast::nodes_view;
use crate::ast::props_view;
use crate::ast::strings_view;
use crate::events::Construct;
use crate::events::MdEvent;
use crate::events::SpecConstruct;
use crate::events::SpecEvent;
use crate::events::events_view;
use crate::events::markdown_events;
use crate::events::md_event_stream;
use crate::recognizer::Recognized;
use crate::recognizer::SpecRecognized;
use crate::recognizer::parse_html_tag;
use crate::recognizer::spec_recognize;

verus! {

/// An element that is still open: its tag and attributes, and the
/// children gathered so far.
pub struct OpenNode {
    pub tag: String,
    pub props: Vec<Prop>,
    pub children: Vec<Node>,
}

/// The spec-level mirror of `OpenNode`.
pub struct SpecOpen {
    pub tag: Seq<char>,
    pub props: Seq<(Seq<char>, SpecPropValue)>,
    pub children: Seq<SpecNode>,
}

impl View for OpenNode {
    type V = SpecOpen;

    open spec fn view(&self) -> SpecOpen {
        SpecOpen { tag: self.tag@, props: props_view(self.props@), children: nodes_view(self.children@) }
    }
}

/// The view of the open-node stack, bottom first.
pub open spec fn opens_view(os: Seq<OpenNode>) -> Seq<SpecOpen> {
    os.map_values(|o: OpenNode| o@)
}

/// The builder's whole state: the open-node stack (top = last) and the
/// root forest gathered so far.
pub struct SpecState {
    pub stack: Seq<SpecOpen>,
    pub root: Seq<SpecNode>,
}

/// The state the pass starts from: nothing open, nothing emitted.
pub open spec fn init_state() -> SpecState {
    SpecState { stack: Seq::empty(), root: Seq::empty() }
}

/// The view of the builder's runtime state.
pub open spec fn state_view(stack: Seq<OpenNode>, root: Seq<Node>) -> SpecState {
    SpecState { stack: opens_view(stack), root: nodes_view(root) }
}

/// Append a finished node at the current place: as the last child of the
/// innermost open element, or at the root if nothing is open.
pub open spec fn append_leaf(st: SpecState, n: SpecNode) -> SpecState {
    if st.stack.len() == 0 {
        SpecState { stack: st.stack, root: st.root.push(n) }
    } else {
        let top = st.stack.last();
        let top2 = SpecOpen { tag: top.tag, props: top.props, children: top.children.push(n) };
        SpecState { stack: st.stack.update(st.stack.len() - 1, top2), root: st.root }
    }
}

/// Close the innermost open element and place it; with nothing open this
/// is a no-op.
pub open spec fn close_top(st: SpecState) -> SpecState {
    if st.stack.len() == 0 {
        st
    } else {
        let top = st.stack.last();
        let node = SpecNode::Element { tag: top.tag, props: top.props, children: top.children };
        append_leaf(SpecState { stack: st.stack.drop_last(), root: st.root }, node)
    }
}

/// Open a new element with the given tag and initial attributes.
pub open spec fn push_open(
    st: SpecState,
    tag: Seq<char>,
    props: Seq<(Seq<char>, SpecPropValue)>,
) -> SpecState {
    SpecState {
        stack: st.stack.push(SpecOpen { tag, props, children: Seq::empty() }),
        root: st.root,
    }
}

/// The output tag of a heading of the given level; levels outside one
/// through six fall back to the safe default tag.
pub open spec fn heading_tag(level: u32) -> Seq<char> {
    if level == 1 {
        "h1"@
    } else if level == 2 {
        "h2"@
    } else if level == 3 {
        "h3"@
    } else if level == 4 {
        "h4"@
    } else if level == 5 {
        "h5"@
    } else if level == 6 {
        "h6"@
    } else {
        "div"@
    }
}

/// The static, total mapping from construct kind to output tag name.
pub open spec fn construct_tag(c: SpecConstruct) -> Seq<char> {
    match c {
        SpecConstruct::Heading(l) => heading_tag(l),
        SpecConstruct::Paragraph => "p"@,
        SpecConstruct::Emphasis => "em"@,
        SpecConstruct::Strong => "strong"@,
        SpecConstruct::Link(_) => "a"@,
        SpecConstruct::OrderedList => "ol"@,
        SpecConstruct::UnorderedList => "ul"@,
        SpecConstruct::Item => "li"@,
        SpecConstruct::Table => "table"@,
        SpecConstruct::TableHead => "thead"@,
        SpecConstruct::TableRow => "tr"@,
        SpecConstruct::TableCell => "td"@,
        SpecConstruct::Strikethrough => "del"@,
        SpecConstruct::FootnoteDefinition(_) => "div"@,
        SpecConstruct::Other => "div"@,
    }
}

/// The initial attributes of a construct's element: a link carries its
/// destination as `href`; a footnote definition carries `id = "fn-" +
/// label` and its class marker; every other construct starts bare.
pub open spec fn construct_props(c: SpecConstruct) -> Seq<(Seq<char>, SpecPropValue)> {
    match c {
        SpecConstruct::Link(href) => seq![("href"@, SpecPropValue::Str(href))],
        SpecConstruct::FootnoteDefinition(label) => seq![
            ("id"@, SpecPropValue::Str("fn-"@ + label)),
            ("className"@, SpecPropValue::Str("footnote-definition"@)),
        ],
        _ => Seq::empty(),
    }
}

/// The complete unit emitted for a footnote reference with label `L`:
/// `sup > a[href="#fn-" + L, className="footnote-ref"] > Text(L)`.
pub open spec fn footnote_ref_node(label: Seq<char>) -> SpecNode {
    SpecNode::Element {
        tag: "sup"@,
        props: Seq::empty(),
        children: seq![
            SpecNode::Element {
                tag: "a"@,
                props: seq![
                    ("href"@, SpecPropValue::Str("#fn-"@ + label)),
                    ("className"@, SpecPropValue::Str("footnote-ref"@)),
                ],
                children: seq![SpecNode::Text { content: label }],
            },
        ],
    }
}

/// The complete unit emitted for an inline code span.
pub open spec fn code_node(content: Seq<char>) -> SpecNode {
    SpecNode::Element {
        tag: "code"@,
        props: Seq::empty(),
        children: seq![SpecNode::Text { content }],
    }
}

/// How one event transforms the builder's state.
pub open spec fn step(st: SpecState, ev: SpecEvent, allowed: Seq<Seq<char>>) -> SpecState {
    match ev {
        SpecEvent::Start(c) => push_open(st, construct_tag(c), construct_props(c)),
        SpecEvent::End => close_top(st),
        SpecEvent::Text(s) => append_leaf(st, SpecNode::Text { content: s }),
        SpecEvent::Code(s) => append_leaf(st, code_node(s)),
        SpecEvent::FootnoteRef(l) => append_leaf(st, footnote_ref_node(l)),
        SpecEvent::Html(h) => match spec_recognize(h) {
            SpecRecognized::Opening { tag, props, self_closing } => {
                if allowed.contains(tag) {
                    if self_closing {
                        append_leaf(st, SpecNode::Element { tag, props, children: Seq::empty() })
                    } else {
                        push_open(st, tag, props)
                    }
                } else {
                    append_leaf(st, SpecNode::Text { content: h })
                }
            },
            SpecRecognized::Closing { .. } => close_top(st),
            SpecRecognized::Unrecognized => append_leaf(st, SpecNode::Text { content: h }),
        },
        SpecEvent::LineBreak => if st.stack.len() == 0 {
            st
        } else {
            append_leaf(st, SpecNode::Text { content: "\n"@ })
        },
        SpecEvent::Other => st,
    }
}

/// Fold `step` over the events, in order, starting from `st`.
pub open spec fn run(st: SpecState, evs: Seq<SpecEvent>, allowed: Seq<Seq<char>>) -> SpecState
    decreases evs.len(),
{
    if evs.len() == 0 {
        st
    } else {
        run(step(st, evs[0], allowed), evs.drop_first(), allowed)
    }
}

/// The forest that the whole stream yields: the root nodes gathered when
/// every event is consumed; whatever is still open is discarded.
pub open spec fn spec_build(evs: Seq<SpecEvent>, allowed: Seq<Seq<char>>) -> Seq<SpecNode> {
    run(init_state(), evs, allowed).root
}

/// Runtime append of a finished node at the current place.
#[verifier::loop_isolation(false)]
fn append_leaf_exec(stack: &mut Vec<OpenNode>, root: &mut Vec<Node>, n: Node)
    ensures
        state_view(final(stack)@, final(root)@) == append_leaf(
            state_view(old(stack)@, old(root)@),
            node_view(n),
        ),
{
    let ghost pre = state_view(stack@, root@);
    if stack.len() == 0 {
        root.push(n);
        proof {
            lemma_nodes_view_push(old(root)@, n);
            assert(opens_view(stack@) =~= pre.stack);
        }
    } else {
        let mut top = stack.pop().unwrap();
        top.children.push(n);
        stack.push(top);
        proof {
            lemma_nodes_view_push(old(stack)@.last().children@, n);
            let target = append_leaf(pre, node_view(n));
            assert(opens_view(stack@).len() == target.stack.len());
            assert forall|m: int| 0 <= m < opens_view(stack@).len() implies opens_view(stack@)[m]
                == target.stack[m] by {
                if m < opens_view(stack@).len() - 1 {
                    assert(stack@[m] == old(stack)@[m]);
                }
            }
            assert(opens_view(stack@) =~= target.stack);
            assert(nodes_view(root@) == target.root);
        }
    }
}

/// Runtime close of the innermost open element.
fn close_top_exec(stack: &mut Vec<OpenNode>, root: &mut Vec<Node>)
    ensures
        state_view(final(stack)@, final(root)@) == close_top(state_view(old(stack)@, old(root)@)),
{
    let ghost pre = state_view(stack@, root@);
    match stack.pop() {
        None => {
            proof {
                assert(opens_view(stack@) =~= pre.stack);
            }
        },
        Some(top) => {
            let node = Node::Element { tag: top.tag, props: top.props, children: top.children };
            proof {
                assert(opens_view(stack@) =~= pre.stack.drop_last());
                assert(node_view(node) == SpecNode::Element {
                    tag: pre.stack.last().tag,
                    props: pre.stack.last().props,
                    children: pre.stack.last().children,
                });
            }
            append_leaf_exec(stack, root, node);
        },
    }
}

/// Runtime lookup: whether `tag` stands in the allow-list, by exact,
/// case-sensitive comparison.
#[verifier::loop_isolation(false)]
fn contains_tag(allowed: &Vec<String>, tag: &String) -> (b: bool)
    ensures
        b == strings_view(allowed@).contains(tag@),
{
    let mut i: usize = 0;
    while i < allowed.len()
        invariant
            0 <= i <= allowed@.len(),
            forall|x: int| 0 <= x < i ==> (#[trigger] allowed@[x])@ != tag@,
        decreases allowed@.len() - i,
    {
        if allowed[i] == *tag {
            proof {
                assert(strings_view(allowed@)[i as int] == tag@);
            }
            return true;
        }
        i = i + 1;
    }
    proof {
        assert forall|x: int| 0 <= x < strings_view(allowed@).len() implies strings_view(allowed@)[x]
            != tag@ by {
            assert(strings_view(allowed@)[x] == allowed@[x]@);
        }
    }
    false
}

/// The element opened for a structural construct: its mapped tag and
/// initial attributes, with no children yet.
fn open_of_construct(c: &Construct) -> (o: OpenNode)
    ensures
        o@.tag == construct_tag(c@),
        o@.props == construct_props(c@),
        o@.children == Seq::<SpecNode>::empty(),
{
    let o = match c {
        Construct::Heading(l) => {
            let tag = if *l == 1 {
                String::from_str("h1")
            } else if *l == 2 {
                String::from_str("h2")
            } else if *l == 3 {
                String::from_str("h3")
            } else if *l == 4 {
                String::from_str("h4")
            } else if *l == 5 {
                String::from_str("h5")
            } else if *l == 6 {
                String::from_str("h6")
            } else {
                String::from_str("div")
            };
            OpenNode { tag, props: Vec::new(), children: Vec::new() }
        },
        Construct::Paragraph => OpenNode {
            tag: String::from_str("p"),
            props: Vec::new(),
            children: Vec::new(),
        },
        Construct::Emphasis => OpenNode {
            tag: String::from_str("em"),
            props: Vec::new(),
            children: Vec::new(),
        },
        Construct::Strong => OpenNode {
            tag: String::from_str("strong"),
            props: Vec::new(),
            children: Vec::new(),
        },
        Construct::Link(href) => {
            let mut props: Vec<Prop> = Vec::new();
            props.push(Prop { key: String::from_str("href"), value: PropValue::Str(href.clone()) });
            proof {
                assert(props_view(props@) =~= construct_props(c@));
            }
            OpenNode { tag: String::from_str("a"), props, children: Vec::new() }
        },
        Construct::OrderedList => OpenNode {
            tag: String::from_str("ol"),
            props: Vec::new(),
            children: Vec::new(),
        },
        Construct::UnorderedList => OpenNode {
            tag: String::from_str("ul"),
            props: Vec::new(),
            children: Vec::new(),
        },
        Construct::Item => OpenNode {
            tag: String::from_str("li"),
            props: Vec::new(),
            children: Vec::new(),
        },
        Construct::Table => OpenNode {
            tag: String::from_str("table"),
            props: Vec::new(),
            children: Vec::new(),
        },
        Construct::TableHead => OpenNode {
            tag: String::from_str("thead"),
            props: Vec::new(),
            children: Vec::new(),
        },
        Construct::TableRow => OpenNode {
            tag: String::from_str("tr"),
            props: Vec::new(),
            children: Vec::new(),
        },
        Construct::TableCell => OpenNode {
            tag: String::from_str("td"),
            props: Vec::new(),
            children: Vec::new(),
        },
        Construct::Strikethrough => OpenNode {
            tag: String::from_str("del"),
            props: Vec::new(),
            children: Vec::new(),
        },
        Construct::FootnoteDefinition(label) => {
            let mut id = String::from_str("fn-");
            id.append(label.as_str());
            let mut props: Vec<Prop> = Vec::new();
            props.push(Prop { key: String::from_str("id"), value: PropValue::Str(id) });
            props.push(
                Prop {
                    key: String::from_str("className"),
                    value: PropValue::Str(String::from_str("footnote-definition")),
                },
            );
            proof {
                assert(props_view(props@) =~= construct_props(c@));
            }
            OpenNode { tag: String::from_str("div"), props, children: Vec::new() }
        },
        Construct::Other => OpenNode {
            tag: String::from_str("div"),
            props: Vec::new(),
            children: Vec::new(),
        },
    };
    proof {
        if o.props@.len() == 0 {
            assert(props_view(o.props@) =~= Seq::<(Seq<char>, SpecPropValue)>::empty());
        }
    }
    o
}

/// The complete unit emitted for a footnote reference.
fn footnote_ref_exec(label: &String) -> (n: Node)
    ensures
        node_view(n) == footnote_ref_node(label@),
{
    let mut href = String::from_str("#fn-");
    href.append(label.as_str());
    let mut props: Vec<Prop> = Vec::new();
    props.push(Prop { key: String::from_str("href"), value: PropValue::Str(href) });
    props.push(
        Prop {
            key: String::from_str("className"),
            value: PropValue::Str(String::from_str("footnote-ref")),
        },
    );
    let t = Node::Text { content: label.clone() };
    let mut inner_children: Vec<Node> = Vec::new();
    inner_children.push(t);
    let anchor = Node::Element { tag: String::from_str("a"), props, children: inner_children };
    let ghost spec_anchor = footnote_ref_node(label@)->Element_children[0];
    proof {
        lemma_nodes_view_singleton(t);
        assert(anchor->Element_children@ =~= seq![t]);
        assert(props_view(anchor->Element_props@) =~= spec_anchor->Element_props);
        assert(nodes_view(anchor->Element_children@) =~= spec_anchor->Element_children);
        assert(node_view(anchor) == spec_anchor);
    }
    let mut children: Vec<Node> = Vec::new();
    children.push(anchor);
    let n = Node::Element { tag: String::from_str("sup"), props: Vec::new(), children };
    proof {
        lemma_nodes_view_singleton(anchor);
        assert(n->Element_children@ =~= seq![anchor]);
        assert(props_view(n->Element_props@) =~= Seq::<(Seq<char>, SpecPropValue)>::empty());
        assert(nodes_view(n->Element_children@) =~= footnote_ref_node(label@)->Element_children);
    }
    n
}

/// The complete unit emitted for an inline code span.
fn code_node_exec(content: &String) -> (n: Node)
    ensures
        node_view(n) == code_node(content@),
{
    let t = Node::Text { content: content.clone() };
    let mut children: Vec<Node> = Vec::new();
    children.push(t);
    let n = Node::Element { tag: String::from_str("code"), props: Vec::new(), children };
    proof {
        lemma_nodes_view_singleton(t);
        assert(n->Element_children@ =~= seq![t]);
        assert(props_view(n->Element_props@) =~= Seq::<(Seq<char>, SpecPropValue)>::empty());
        assert(nodes_view(n->Element_children@) =~= code_node(content@)->Element_children);
    }
    n
}

/// Build the forest from an explicit event stream: one pass, one `step`
/// per event.
#[verifier::loop_isolation(false)]
pub fn build_tree(events: &Vec<MdEvent>, options: &TranspileOptions) -> (r: Vec<Node>)
    ensures
        nodes_view(r@) == spec_build(events_view(events@), strings_view(options.allowed_tags@)),
{
    let ghost allowed = strings_view(options.allowed_tags@);
    let ghost evs = events_view(events@);
    let mut stack: Vec<OpenNode> = Vec::new();
    let mut root: Vec<Node> = Vec::new();
    proof {
        assert(opens_view(stack@) =~= Seq::<SpecOpen>::empty());
        assert(nodes_view(root@) =~= Seq::<SpecNode>::empty());
        assert(evs.skip(0) =~= evs);
    }
    let mut i: usize = 0;
    while i < events.len()
        invariant
            0 <= i <= events@.len(),
            run(state_view(stack@, root@), evs.skip(i as int), allowed) == run(
                init_state(),
                evs,
                allowed,
            ),
        decreases events@.len() - i,
    {
        let ghost pre = state_view(stack@, root@);
        let ghost ev = evs[i as int];
        proof {
            assert(evs.skip(i as int)[0] == ev);
            assert(evs.skip(i as int).drop_first() =~= evs.skip(i as int + 1));
        }
        match &events[i] {
            MdEvent::Start(c) => {
                let o = open_of_construct(c);
                stack.push(o);
                proof {
                    assert(opens_view(stack@) =~= step(pre, ev, allowed).stack);
                }
            },
            MdEvent::End => {
                close_top_exec(&mut stack, &mut root);
            },
            MdEvent::Text(s) => {
                append_leaf_exec(&mut stack, &mut root, Node::Text { content: s.clone() });
            },
            MdEvent::Code(s) => {
                let n = code_node_exec(s);
                append_leaf_exec(&mut stack, &mut root, n);
            },
            MdEvent::FootnoteRef(l) => {
                let n = footnote_ref_exec(l);
                append_leaf_exec(&mut stack, &mut root, n);
            },
            MdEvent::Html(h) => {
                match parse_html_tag(h.as_str()) {
                    Recognized::Opening { tag, props, self_closing } => {
                        if contains_tag(&options.allowed_tags, &tag) {
                            if self_closing {
                                let n = Node::Element { tag, props, children: Vec::new() };
                                proof {
                                    assert(nodes_view(n->Element_children@) =~= Seq::<
                                        SpecNode,
                                    >::empty());
                                }
                                append_leaf_exec(&mut stack, &mut root, n);
                            } else {
                                let o = OpenNode { tag, props, children: Vec::new() };
                                stack.push(o);
                                proof {
                                    assert(nodes_view(o.children@) =~= Seq::<SpecNode>::empty());
                                    assert(opens_view(stack@) =~= step(pre, ev, allowed).stack);
                                }
                            }
                        } else {
                            append_leaf_exec(&mut stack, &mut root, Node::Text {
                                content: h.clone(),
                            });
                        }
                    },
                    Recognized::Closing { .. } => {
                        close_top_exec(&mut stack, &mut root);
                    },
                    Recognized::Unrecognized => {
                        append_leaf_exec(&mut stack, &mut root, Node::Text { content: h.clone() });
                    },
                }
            },
            MdEvent::LineBreak => {
                if stack.len() > 0 {
                    append_leaf_exec(&mut stack, &mut root, Node::Text {
                        content: String::from_str("\n"),
                    });
                }
            },
            MdEvent::Other => {},
        }
        proof {
            assert(state_view(stack@, root@) == step(pre, ev, allowed));
        }
        i = i + 1;
    }
    proof {
        assert(evs.skip(events@.len() as int) =~= Seq::<SpecEvent>::empty());
    }
    root
}

/// The start/end events of `evs` are well nested when read from depth
/// `d`: no end event arrives with nothing open, every start is closed by
/// the time the stream ends, and no raw-HTML event interferes with the
/// pairing. A whole stream is well nested when this holds at depth zero.
pub open spec fn well_nested_from(evs: Seq<SpecEvent>, d: int) -> bool
    decreases evs.len(),
{
    if evs.len() == 0 {
        d == 0
    } else {
        match evs[0] {
            SpecEvent::Start(_) => well_nested_from(evs.drop_first(), d + 1),
            SpecEvent::End => d > 0 && well_nested_from(evs.drop_first(), d - 1),
            SpecEvent::Html(_) => false,
            _ => well_nested_from(evs.drop_first(), d),
        }
    }
}

/// The number of element nodes in a node, its descendants included.
pub open spec fn elem_count_node(n: SpecNode) -> int
    decreases n,
{
    match n {
        SpecNode::Element { children, .. } => 1 + elem_count_forest(children),
        SpecNode::Text { .. } => 0,
    }
}

/// The number of element nodes in a forest, descendants included.
pub open spec fn elem_count_forest(ns: Seq<SpecNode>) -> int
    decreases ns,
{
    if ns.len() == 0 {
        0
    } else {
        elem_count_forest(ns.drop_last()) + elem_count_node(ns.last())
    }
}

/// The number of element nodes held by the open stack: each open
/// element itself plus everything in its children.
pub open spec fn elem_count_opens(os: Seq<SpecOpen>) -> int
    decreases os,
{
    if os.len() == 0 {
        0
    } else {
        elem_count_opens(os.drop_last()) + 1 + elem_count_forest(os.last().children)
    }
}

/// The number of element nodes in the whole state, open or emitted.
pub open spec fn state_elem_count(st: SpecState) -> int {
    elem_count_forest(st.root) + elem_count_opens(st.stack)
}

/// How many element nodes one event contributes: a start event opens
/// one, a code span emits one, a footnote reference emits two (the `sup`
/// and the `a`); everything else emits none.
pub open spec fn event_elem_count(ev: SpecEvent) -> int {
    match ev {
        SpecEvent::Start(_) => 1,
        SpecEvent::Code(_) => 1,
        SpecEvent::FootnoteRef(_) => 2,
        _ => 0,
    }
}

/// The element nodes contributed by a whole event sequence.
pub open spec fn events_elem_count(evs: Seq<SpecEvent>) -> int
    decreases evs.len(),
{
    if evs.len() == 0 {
        0
    } else {
        event_elem_count(evs[0]) + events_elem_count(evs.drop_first())
    }
}

proof fn lemma_append_leaf_count(st: SpecState, n: SpecNode)
    ensures
        state_elem_count(append_leaf(st, n)) == state_elem_count(st) + elem_count_node(n),
{
    if st.stack.len() == 0 {
        let r2 = st.root.push(n);
        assert(r2.drop_last() =~= st.root);
    } else {
        let top = st.stack.last();
        let top2 = SpecOpen { tag: top.tag, props: top.props, children: top.children.push(n) };
        let os2 = st.stack.update(st.stack.len() - 1, top2);
        assert(os2.drop_last() =~= st.stack.drop_last());
        assert(os2.last() == top2);
        assert(top2.children.drop_last() =~= top.children);
    }
}

proof fn lemma_step_count(st: SpecState, ev: SpecEvent, allowed: Seq<Seq<char>>)
    requires
        !(ev matches SpecEvent::Html(_)),
    ensures
        state_elem_count(step(st, ev, allowed)) == state_elem_count(st) + event_elem_count(ev),
{
    match ev {
        SpecEvent::Start(c) => {
            let os2 = push_open(st, construct_tag(c), construct_props(c)).stack;
            assert(os2.drop_last() =~= st.stack);
        },
        SpecEvent::End => {
            if st.stack.len() > 0 {
                let top = st.stack.last();
                let node = SpecNode::Element {
                    tag: top.tag,
                    props: top.props,
                    children: top.children,
                };
                let mid = SpecState { stack: st.stack.drop_last(), root: st.root };
                lemma_append_leaf_count(mid, node);
            }
        },
        SpecEvent::Text(s) => {
            lemma_append_leaf_count(st, SpecNode::Text { content: s });
        },
        SpecEvent::Code(s) => {
            lemma_append_leaf_count(st, code_node(s));
            let inner = seq![SpecNode::Text { content: s }];
            assert(inner.drop_last() =~= Seq::<SpecNode>::empty());
            assert(elem_count_forest(Seq::<SpecNode>::empty()) == 0);
            assert(elem_count_node(inner.last()) == 0);
            assert(elem_count_forest(inner) == 0);
        },
        SpecEvent::FootnoteRef(l) => {
            lemma_append_leaf_count(st, footnote_ref_node(l));
            let label_text = seq![SpecNode::Text { content: l }];
            assert(label_text.drop_last() =~= Seq::<SpecNode>::empty());
            assert(elem_count_forest(Seq::<SpecNode>::empty()) == 0);
            assert(elem_count_node(label_text.last()) == 0);
            assert(elem_count_forest(label_text) == 0);
            let anchor = footnote_ref_node(l)->Element_children;
            assert(anchor.drop_last() =~= Seq::<SpecNode>::empty());
            assert(elem_count_node(anchor.last()) == 1);
            assert(elem_count_forest(anchor) == 1);
        },
        SpecEvent::LineBreak => {
            if st.stack.len() > 0 {
                lemma_append_leaf_count(st, SpecNode::Text { content: "\n"@ });
            }
        },
        _ => {},
    }
}

/// Law: over a well-nested start/end event sequence the open-node stack
/// tracks the nesting depth exactly, so the pass ends with an empty
/// stack — every construct that was opened has been closed and placed in
/// the output, and nothing is discarded at end-of-stream. Moreover no
/// element is lost or duplicated on the way: the finished forest holds
/// exactly one element for every element the events contribute. Stated
/// from any state whose stack depth matches the read depth; a whole
/// stream is the case `d == 0` from the initial state.
pub proof fn lemma_well_nested_leaves_empty_stack(
    st: SpecState,
    evs: Seq<SpecEvent>,
    allowed: Seq<Seq<char>>,
    d: int,
)
    requires
        well_nested_from(evs, d),
        st.stack.len() == d,
    ensures
        run(st, evs, allowed).stack.len() == 0,
        elem_count_forest(run(st, evs, allowed).root) == state_elem_count(st)
            + events_elem_count(evs),
    decreases evs.len(),
{
    if evs.len() > 0 {
        let st2 = step(st, evs[0], allowed);
        lemma_step_count(st, evs[0], allowed);
        match evs[0] {
            SpecEvent::Start(_) => {
                lemma_well_nested_leaves_empty_stack(st2, evs.drop_first(), allowed, d + 1);
            },
            SpecEvent::End => {
                lemma_well_nested_leaves_empty_stack(st2, evs.drop_first(), allowed, d - 1);
            },
            _ => {
                lemma_well_nested_leaves_empty_stack(st2, evs.drop_first(), allowed, d);
            },
        }
    }
}

/// Law: a heading construct of level `N` (one through six), around one
/// text event, always yields exactly one element tagged `"h" + N` whose
/// single child is its inline content as a text node, whatever the
/// allow-list.
pub proof fn lemma_heading_yields_tagged_element(
    level: u32,
    content: Seq<char>,
    allowed: Seq<Seq<char>>,
)
    requires
        1 <= level <= 6,
    ensures
        spec_build(
            seq![
                SpecEvent::Start(SpecConstruct::Heading(level)),
                SpecEvent::Text(content),
                SpecEvent::End,
            ],
            allowed,
        ) == seq![
            (SpecNode::Element {
                tag: heading_tag(level),
                props: Seq::empty(),
                children: seq![SpecNode::Text { content }],
            }),
        ],
{
    let evs = seq![
        SpecEvent::Start(SpecConstruct::Heading(level)),
        SpecEvent::Text(content),
        SpecEvent::End,
    ];
    let e1 = evs.drop_first();
    let e2 = e1.drop_first();
    let e3 = e2.drop_first();
    assert(e1[0] == evs[1] && e2[0] == evs[2] && e3.len() == 0);
    let s0 = init_state();
    let s1 = step(s0, evs[0], allowed);
    let s2 = step(s1, e1[0], allowed);
    let s3 = step(s2, e2[0], allowed);
    assert(run(s0, evs, allowed) == run(s1, e1, allowed));
    assert(run(s1, e1, allowed) == run(s2, e2, allowed));
    assert(run(s2, e2, allowed) == run(s3, e3, allowed));
    assert(run(s3, e3, allowed) == s3);
    let open0 = SpecOpen { tag: heading_tag(level), props: Seq::empty(), children: Seq::empty() };
    assert(s1.stack =~= seq![open0]);
    let open1 = SpecOpen {
        tag: heading_tag(level),
        props: Seq::empty(),
        children: seq![SpecNode::Text { content }],
    };
    assert(s1.stack.last() == open0);
    assert(open0.children.push(SpecNode::Text { content }) =~= seq![SpecNode::Text { content }]);
    assert(s2.stack =~= seq![open1]);
    assert(s2.stack.last() == open1);
    assert(s2.stack.drop_last().len() == 0);
    assert(s3.stack.len() == 0);
    assert(s3.root =~= seq![
        (SpecNode::Element {
            tag: heading_tag(level),
            props: Seq::empty(),
            children: seq![SpecNode::Text { content }],
        }),
    ]);
}

/// Law: a footnote reference for label `L` is one complete unit,
/// appended at the current place whatever the state: an element tagged
/// `sup` whose single child is an anchor `a` with `href = "#fn-" + L`
/// and the class marker `footnote-ref`, holding the label as text.
pub proof fn lemma_footnote_ref_shape(st: SpecState, label: Seq<char>, allowed: Seq<Seq<char>>)
    ensures
        step(st, SpecEvent::FootnoteRef(label), allowed) == append_leaf(
            st,
            footnote_ref_node(label),
        ),
        footnote_ref_node(label) matches SpecNode::Element { tag, props, children }
            && tag == "sup"@ && props.len() == 0 && children == seq![
            footnote_ref_node(label)->Element_children[0],
        ],
        ({
            let inner = footnote_ref_node(label)->Element_children[0];
            &&& inner matches SpecNode::Element { tag, props, children }
            &&& inner->Element_tag == "a"@
            &&& lookup(inner->Element_props, "href"@) == Some(
                SpecPropValue::Str("#fn-"@ + label),
            )
            &&& lookup(inner->Element_props, "className"@) == Some(
                SpecPropValue::Str("footnote-ref"@),
            )
            &&& inner->Element_children == seq![SpecNode::Text { content: label }]
        }),
{
    reveal_strlit("href");
    reveal_strlit("className");
    let inner = footnote_ref_node(label)->Element_children[0];
    let ps = inner->Element_props;
    assert(ps[0].0 == "href"@);
    assert("href"@ != "className"@);
    assert(ps.drop_first()[0] == ps[1]);
    assert(lookup(ps, "className"@) == lookup(ps.drop_first(), "className"@));
}

/// Law: a footnote definition for label `L` always opens an element
/// tagged `div` whose initial attributes are `id = "fn-" + L` and the
/// class marker `footnote-definition`, whatever the state.
pub proof fn lemma_footnote_definition_shape(
    st: SpecState,
    label: Seq<char>,
    allowed: Seq<Seq<char>>,
)
    ensures
        step(st, SpecEvent::Start(SpecConstruct::FootnoteDefinition(label)), allowed) == push_open(
            st,
            "div"@,
            construct_props(SpecConstruct::FootnoteDefinition(label)),
        ),
        construct_tag(SpecConstruct::FootnoteDefinition(label)) == "div"@,
        lookup(construct_props(SpecConstruct::FootnoteDefinition(label)), "id"@) == Some(
            SpecPropValue::Str("fn-"@ + label),
        ),
        lookup(construct_props(SpecConstruct::FootnoteDefinition(label)), "className"@) == Some(
            SpecPropValue::Str("footnote-definition"@),
        ),
{
    reveal_strlit("id");
    reveal_strlit("className");
    let ps = construct_props(SpecConstruct::FootnoteDefinition(label));
    assert(ps[0].0 == "id"@);
    assert("id"@ != "className"@);
    assert(ps.drop_first()[0] == ps[1]);
    assert(lookup(ps, "className"@) == lookup(ps.drop_first(), "className"@));
}

/// Convert a Markdown document into the output forest: run the Markdown
/// parser over the text and fold the builder over its event stream. The
/// result is exactly `spec_build` of that stream under the caller's
/// allow-list.
pub fn parse(markdown: &str, options: &TranspileOptions) -> (r: Vec<Node>)
    ensures
        nodes_view(r@) == spec_build(
            md_event_stream(markdown@),
            strings_view(options.allowed_tags@),
        ),
{
    let events = markdown_events(markdown);
    build_tree(&events, options)
}

} // verus!
