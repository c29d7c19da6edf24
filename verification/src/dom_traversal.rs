//! The styled children that box construction consumes, in document order,
//! and the output slots into which it hands the boxes of elements.
use vstd::prelude::*;
use crate::flow::{LayoutBox, LayoutBoxView, ReplacedContent};
use crate::style::{style_of, ComputedStyle, DisplayGeneratingBox};

verus! {

/// The output cell of one element.  The dummy slot, which belongs to no
/// element, discards what is set.
#[derive(Clone, Copy, PartialEq, Eq, Structural, Debug)]
pub struct BoxSlot {
    pub slot: Option<usize>,
}

/// A box handed to the slot with number `slot`.
#[derive(Debug, PartialEq, Eq)]
pub struct SlotWrite {
    pub slot: usize,
    pub layout_box: LayoutBox,
}

pub ghost struct SlotWriteView {
    pub slot: usize,
    pub layout_box: LayoutBoxView,
}

impl View for SlotWrite {
    type V = SlotWriteView;

    open spec fn view(&self) -> SlotWriteView {
        SlotWriteView { slot: self.slot, layout_box: self.layout_box@ }
    }
}

/// The views of `writes`, in the same order.
pub open spec fn write_views(writes: Seq<SlotWrite>) -> Seq<SlotWriteView> {
    Seq::new(writes.len(), |i: int| writes[i]@)
}

/// `writes`, and after them the write of `layout_box` to `slot` unless it
/// is the dummy.
pub open spec fn written(
    writes: Seq<SlotWriteView>,
    slot: BoxSlot,
    layout_box: LayoutBoxView,
) -> Seq<SlotWriteView> {
    match slot.slot {
        Some(number) => writes.push(SlotWriteView { slot: number, layout_box }),
        None => writes,
    }
}

impl BoxSlot {
    /// The slot with number `slot`.
    pub fn new(slot: usize) -> (r: Self)
        ensures
            r.slot == Some(slot),
    {
        BoxSlot { slot: Some(slot) }
    }

    /// The slot of no element.
    pub fn dummy() -> (r: Self)
        ensures
            r.slot is None,
    {
        BoxSlot { slot: None }
    }

    /// Hands `layout_box` to this slot: the write is recorded at the end of
    /// `writes`.
    pub fn set(self, layout_box: LayoutBox, writes: &mut Vec<SlotWrite>)
        ensures
            write_views(final(writes)@) == written(write_views(old(writes)@), self, layout_box@),
    {
        match self.slot {
            Some(number) => {
                writes.push(SlotWrite { slot: number, layout_box });
                assert(write_views(writes@) =~= write_views(old(writes)@).push(
                    SlotWriteView { slot: number, layout_box: layout_box@ },
                ));
            },
            None => {},
        }
    }
}

/// A child of a container, as the traversal of the document delivers it.
#[derive(Debug)]
pub enum Node {
    /// Text, with the style of its parent.
    Text(String, servo_arc::Arc<ComputedStyle>),
    Element(Element),
}

/// An element that generates a box.
#[derive(Debug)]
pub struct Element {
    pub style: servo_arc::Arc<ComputedStyle>,
    pub display: DisplayGeneratingBox,
    pub contents: Contents,
    pub box_slot: BoxSlot,
}

/// The contents of an element.
#[derive(Debug)]
pub enum Contents {
    /// Children, into which construction can recurse.
    NonReplaced(NonReplacedContents),
    Replaced(ReplacedContent),
}

/// The children of an element, in document order.
#[derive(Debug)]
pub struct NonReplacedContents {
    pub children: Vec<Node>,
}

pub ghost enum NodeView {
    Text { text: Seq<char>, parent_style: ComputedStyle },
    Element {
        style: ComputedStyle,
        display: DisplayGeneratingBox,
        contents: ContentsView,
        box_slot: BoxSlot,
    },
}

pub ghost enum ContentsView {
    NonReplaced(Seq<NodeView>),
    Replaced(ReplacedContent),
}

/// The views of `nodes`, in the same order.
pub open spec fn node_views(nodes: Seq<Node>) -> Seq<NodeView>
    decreases nodes,
{
    Seq::new(
        nodes.len(),
        |i: int|
            if 0 <= i < nodes.len() {
                nodes[i].model()
            } else {
                arbitrary()
            },
    )
}

impl Node {
    pub open spec fn model(self) -> NodeView
        decreases self,
    {
        match self {
            Node::Text(text, parent_style) => NodeView::Text {
                text: text@,
                parent_style: style_of(parent_style),
            },
            Node::Element(element) => NodeView::Element {
                style: style_of(element.style),
                display: element.display,
                contents: element.contents.model(),
                box_slot: element.box_slot,
            },
        }
    }
}

impl Contents {
    pub open spec fn model(self) -> ContentsView
        decreases self,
    {
        match self {
            Contents::NonReplaced(contents) => ContentsView::NonReplaced(
                node_views(contents.children@),
            ),
            Contents::Replaced(replaced) => ContentsView::Replaced(replaced),
        }
    }
}

impl View for Node {
    type V = NodeView;

    open spec fn view(&self) -> NodeView {
        self.model()
    }
}

impl View for Contents {
    type V = ContentsView;

    open spec fn view(&self) -> ContentsView {
        self.model()
    }
}

impl View for NonReplacedContents {
    type V = Seq<NodeView>;

    open spec fn view(&self) -> Seq<NodeView> {
        node_views(self.children@)
    }
}

/// The number of nodes in `nodes` and below them.
pub open spec fn nodes_size(nodes: Seq<NodeView>) -> nat
    decreases nodes,
{
    if nodes.len() == 0 {
        0
    } else {
        nodes_size(nodes.drop_last()) + node_size(nodes.last())
    }
}

/// The number of nodes in `node` and below it.
pub open spec fn node_size(node: NodeView) -> nat
    decreases node,
{
    match node {
        NodeView::Text { .. } => 1,
        NodeView::Element { contents, .. } => 1 + contents_size(contents),
    }
}

/// The number of nodes in `contents`.
pub open spec fn contents_size(contents: ContentsView) -> nat
    decreases contents,
{
    match contents {
        ContentsView::NonReplaced(children) => nodes_size(children),
        ContentsView::Replaced(_) => 0,
    }
}

/// A node is no larger than a sequence that it stands in.
pub proof fn lemma_node_size_in_nodes(nodes: Seq<NodeView>, i: int)
    requires
        0 <= i < nodes.len(),
    ensures
        node_size(nodes[i]) <= nodes_size(nodes),
        node_size(nodes[i]) >= 1,
    decreases nodes.len(),
{
    if i < nodes.len() - 1 {
        lemma_node_size_in_nodes(nodes.drop_last(), i);
    }
}

} // verus!
