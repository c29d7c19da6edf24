//! What box construction guarantees of its result, whatever the children.
use vstd::prelude::*;
use crate::context::LayoutContext;
use crate::dom_traversal::{
    contents_size,
    node_size,
    nodes_size,
    written,
    BoxSlot,
    ContentsView,
    NodeView,
    SlotWriteView,
};
use crate::flow::{
    BlockContainerView,
    BlockLevelBoxView,
    ContainsFloats,
    InlineBoxView,
    InlineLevelBoxView,
    LayoutBoxView,
};
use crate::rules::{
    has_ongoing_inline_formatting_context,
    absolutely_positioned_block,
    block_level,
    float_block,
    independent,
    inline_level,
    out_of_flow,
    with_slot,
    writes_of,
    anonymous_block,
    independent_block,
    inner_request,
    same_formatting_context_block,
    block_level_element,
    boxes_of,
    container,
    element,
    end_ongoing,
    float_element,
    floats_of,
    in_flow_block,
    inline_level_element,
    nested_fragment,
    push_inline,
    absolutely_positioned_element,
    node,
    open_inline_box,
    split_inline_boxes,
    start,
    walk,
    BuilderView,
    FinishedBlock,
};
use crate::sizing::{ContentSizes, ContentSizesRequest};
use crate::style::{ComputedStyle, DisplayGeneratingBox, DisplayInside, DisplayOutside};

verus! {

/// Whether `child` is a float or holds one in the formatting context that
/// it is a child in: inline boxes and blocks of the same formatting
/// context are looked into, boxes with a formatting context of their own
/// are not.
pub open spec fn node_has_float(child: NodeView) -> bool
    decreases node_size(child), 0nat,
{
    match child {
        NodeView::Text { .. } => false,
        NodeView::Element {
            style,
            display: DisplayGeneratingBox::OutsideInside { outside, inside },
            contents,
            ..
        } => {
            let through = match contents {
                ContentsView::NonReplaced(children) if inside == DisplayInside::Flow => has_float(
                    children,
                ),
                _ => false,
            };
            match outside {
                DisplayOutside::Inline => through,
                DisplayOutside::Block => {
                    if style.position.is_absolutely_positioned() {
                        false
                    } else if style.float.is_floating() {
                        true
                    } else {
                        through
                    }
                },
            }
        },
    }
}

/// Whether one of `children` is a float or holds one in their formatting
/// context.
pub open spec fn has_float(children: Seq<NodeView>) -> bool
    decreases nodes_size(children), 1nat,
{
    if children.len() == 0 {
        false
    } else {
        proof {
            assert(node_size(children.last()) >= 1);
        }
        has_float(children.drop_last()) || node_has_float(children.last())
    }
}

/// Whether the walk has met a float so far, itself or in a block that it
/// has found.
pub open spec fn floats_so_far(b: BuilderView) -> bool {
    b.contains_floats.or(floats_of(b.blocks)) == ContainsFloats::Yes
}

proof fn lemma_floats_of_push(blocks: Seq<FinishedBlock>, last: FinishedBlock)
    ensures
        floats_of(blocks.push(last)) == floats_of(blocks).or(last.contains_floats),
{
    assert(blocks.push(last).drop_last() =~= blocks);
}

/// Float propagation: a block container contains floats exactly if one of
/// its children is a float or holds one at any depth of its formatting
/// context.  A float inside a box with a formatting context of its own
/// does not reach the container.
pub proof fn lemma_container_contains_floats<C: LayoutContext>(
    context: &C,
    style: ComputedStyle,
    children: Seq<NodeView>,
    request: ContentSizesRequest,
)
    ensures
        container(context, style, children, request).contains_floats == ContainsFloats::Yes
            <==> has_float(children),
    decreases nodes_size(children), 2nat,
{
    let walked = walk(context, start(style, request), children);
    lemma_walk_contains_floats(context, start(style, request), children);
    assert(floats_of(start(style, request).blocks) == ContainsFloats::No);
    if walked.ongoing.len() > 0 && walked.blocks.len() == 0 {
        assert(floats_of(walked.blocks) == ContainsFloats::No);
    } else {
        lemma_end_ongoing_keeps_floats(context, walked);
    }
}

proof fn lemma_end_ongoing_keeps_floats<C: LayoutContext>(context: &C, b: BuilderView)
    ensures
        floats_so_far(end_ongoing(context, b)) == floats_so_far(b),
        end_ongoing(context, b).contains_floats == b.contains_floats,
{
    if b.ongoing.len() > 0 {
        let ended = end_ongoing(context, b);
        lemma_floats_of_push(b.blocks, ended.blocks.last());
        assert(ended.blocks =~= b.blocks.push(ended.blocks.last()));
    }
}

/// The walk has met a float after `children` exactly if it had met one
/// before or one of them holds one.
pub proof fn lemma_walk_contains_floats<C: LayoutContext>(
    context: &C,
    b: BuilderView,
    children: Seq<NodeView>,
)
    ensures
        floats_so_far(walk(context, b, children)) <==> floats_so_far(b)
            || has_float(children),
    decreases nodes_size(children), 1nat,
{
    if children.len() > 0 {
        assert(node_size(children.last()) >= 1);
        lemma_walk_contains_floats(context, b, children.drop_last());
        let before = walk(context, b, children.drop_last());
        let after = node(context, before, children.last());
        match children.last() {
            NodeView::Text { .. } => {
                assert(after.blocks == before.blocks);
                assert(after.contains_floats == before.contains_floats);
                assert(!node_has_float(children.last()));
            },
            NodeView::Element { style, display, contents, box_slot } => {
                lemma_element_contains_floats(context, before, style, display, contents, box_slot);
                assert(after == element(context, before, style, display, contents, box_slot));
            },
        }
    }
}

#[verifier::rlimit(60)]
proof fn lemma_element_contains_floats<C: LayoutContext>(
    context: &C,
    b: BuilderView,
    style: ComputedStyle,
    display: DisplayGeneratingBox,
    contents: ContentsView,
    box_slot: BoxSlot,
)
    ensures
        floats_so_far(element(context, b, style, display, contents, box_slot)) <==> floats_so_far(b)
            || node_has_float(NodeView::Element { style, display, contents, box_slot }),
    decreases contents_size(contents), 3nat,
{
    match display {
        DisplayGeneratingBox::OutsideInside { outside, inside } => {
            match outside {
                DisplayOutside::Inline => {
                    let (after, inline) = inline_level_element(context, b, style, inside, contents);
                    match contents {
                        ContentsView::NonReplaced(children) if inside == DisplayInside::Flow => {
                            lemma_walk_contains_floats(
                                context,
                                open_inline_box(b, style),
                                children,
                            );
                        },
                        _ => {},
                    }
                },
                DisplayOutside::Block => {
                    if style.position.is_absolutely_positioned() {
                        let after = absolutely_positioned_element(
                            context,
                            b,
                            style,
                            inside,
                            contents,
                            box_slot,
                        );
                        if after.blocks.len() > b.blocks.len() {
                            lemma_floats_of_push(b.blocks, after.blocks.last());
                            assert(after.blocks =~= b.blocks.push(after.blocks.last()));
                        }
                    } else if style.float.is_floating() {
                        let after = float_element(context, b, style, inside, contents, box_slot);
                    } else {
                        let after = block_level_element(
                            context,
                            b,
                            style,
                            inside,
                            contents,
                            box_slot,
                        );
                        let split = split_inline_boxes(b);
                        let ended = end_ongoing(context, split);
                        lemma_end_ongoing_keeps_floats(context, split);
                        let block = in_flow_block(context, style, inside, contents, ended.requested);
                        lemma_floats_of_push(ended.blocks, after.blocks.last());
                        assert(after.blocks =~= ended.blocks.push(after.blocks.last()));
                        match contents {
                            ContentsView::NonReplaced(children) if inside == DisplayInside::Flow => {
                                lemma_container_contains_floats(
                                    context,
                                    style,
                                    children,
                                    inner_request(ended.requested, style),
                                );
                            },
                            _ => {},
                        }
                    }
                },
            }
        },
    }
}

/// Whether `block` is a block around an inline formatting context
/// without boxes.
pub open spec fn wraps_nothing(block: BlockLevelBoxView) -> bool {
    block matches BlockLevelBoxView::SameFormattingContextBlock {
        contents: BlockContainerView::InlineFormattingContext(boxes),
        ..
    } && boxes.len() == 0
}

/// No block found so far wraps an empty inline formatting context.
pub open spec fn wraps_content(b: BuilderView) -> bool {
    forall|i: int| 0 <= i < b.blocks.len() ==> !wraps_nothing(#[trigger] b.blocks[i].block)
}

/// The kind of a block container.  It is an inline formatting context
/// exactly if the walk over its children found inline-level boxes and no
/// block-level box, and then it holds those boxes.  Otherwise it holds the
/// block-level boxes found and, last, an anonymous block for inline-level
/// boxes that are left; so it is empty only if the walk found nothing.  No
/// inline formatting context without boxes is made, at the top or inside a
/// block.
pub proof fn lemma_container_kind<C: LayoutContext>(
    context: &C,
    style: ComputedStyle,
    children: Seq<NodeView>,
    request: ContentSizesRequest,
)
    ensures
        ({
            let walked = walk(context, start(style, request), children);
            let built = container(context, style, children, request).container;
            &&& built is InlineFormattingContext <==> walked.blocks.len() == 0
                && walked.ongoing.len() > 0
            &&& built matches BlockContainerView::InlineFormattingContext(boxes) ==> boxes.len() > 0
                && boxes == walked.ongoing
            &&& built matches BlockContainerView::BlockLevelBoxes(boxes) ==> {
                &&& boxes.len() == walked.blocks.len() + if walked.ongoing.len() > 0 {
                    1int
                } else {
                    0int
                }
                &&& forall|i: int| 0 <= i < boxes.len() ==> !wraps_nothing(#[trigger] boxes[i])
            }
        }),
{
    let walked = walk(context, start(style, request), children);
    lemma_walk_wraps_content(context, start(style, request), children);
    let ended = end_ongoing(context, walked);
    assert(wraps_content(ended));
    assert forall|i: int| 0 <= i < boxes_of(ended.blocks).len() implies !wraps_nothing(
        #[trigger] boxes_of(ended.blocks)[i],
    ) by {
        assert(!wraps_nothing(ended.blocks[i].block));
    }
}

/// The walk makes no block around an empty inline formatting context.
pub proof fn lemma_walk_wraps_content<C: LayoutContext>(
    context: &C,
    b: BuilderView,
    children: Seq<NodeView>,
)
    requires
        wraps_content(b),
    ensures
        wraps_content(walk(context, b, children)),
    decreases nodes_size(children), 1nat,
{
    if children.len() > 0 {
        assert(node_size(children.last()) >= 1);
        lemma_walk_wraps_content(context, b, children.drop_last());
        let before = walk(context, b, children.drop_last());
        let after = node(context, before, children.last());
        match children.last() {
            NodeView::Text { .. } => {
                assert(after.blocks == before.blocks);
            },
            NodeView::Element { style, display, contents, box_slot } => {
                lemma_element_wraps_content(context, before, style, display, contents, box_slot);
            },
        }
    }
}

#[verifier::rlimit(60)]
proof fn lemma_element_wraps_content<C: LayoutContext>(
    context: &C,
    b: BuilderView,
    style: ComputedStyle,
    display: DisplayGeneratingBox,
    contents: ContentsView,
    box_slot: BoxSlot,
)
    requires
        wraps_content(b),
    ensures
        wraps_content(element(context, b, style, display, contents, box_slot)),
    decreases contents_size(contents), 3nat,
{
    match display {
        DisplayGeneratingBox::OutsideInside { outside, inside } => {
            match outside {
                DisplayOutside::Inline => {
                    let (after, inline) = inline_level_element(context, b, style, inside, contents);
                    match contents {
                        ContentsView::NonReplaced(children) if inside == DisplayInside::Flow => {
                            lemma_walk_wraps_content(
                                context,
                                open_inline_box(b, style),
                                children,
                            );
                        },
                        _ => {},
                    }
                },
                DisplayOutside::Block => {
                    if style.position.is_absolutely_positioned() {
                        let after = absolutely_positioned_element(
                            context,
                            b,
                            style,
                            inside,
                            contents,
                            box_slot,
                        );
                        let block = absolutely_positioned_block(
                            context,
                            style,
                            inside,
                            contents,
                        );
                    } else if style.float.is_floating() {
                        let after = float_element(context, b, style, inside, contents, box_slot);
                        let block = float_block(context, style, inside, contents);
                    } else {
                        let after = block_level_element(
                            context,
                            b,
                            style,
                            inside,
                            contents,
                            box_slot,
                        );
                        let ended = end_ongoing(context, split_inline_boxes(b));
                        assert(wraps_content(ended));
                        let block = in_flow_block(context, style, inside, contents, ended.requested);
                        match contents {
                            ContentsView::NonReplaced(children) if inside == DisplayInside::Flow => {
                                let inner = same_formatting_context_block(
                                    context,
                                    style,
                                    children,
                                    ended.requested,
                                );
                                let built = container(
                                    context,
                                    style,
                                    children,
                                    inner_request(ended.requested, style),
                                );
                                assert(!wraps_nothing(inner.block));
                            },
                            _ => {
                                let inner = independent_block(
                                    context,
                                    style,
                                    inside,
                                    contents,
                                    ended.requested,
                                );
                                assert(!wraps_nothing(inner.block));
                            },
                        }
                        assert(!wraps_nothing(block.block));
                    }
                },
            }
        },
    }
}

/// `b` after inline-level boxes `boxes` joined the current boxes, one by
/// one.
pub open spec fn pushed(b: BuilderView, boxes: Seq<InlineLevelBoxView>) -> BuilderView
    decreases boxes.len(),
{
    if boxes.len() == 0 {
        b
    } else {
        push_inline(pushed(b, boxes.drop_last()), boxes.last())
    }
}

/// The state of the walk inside an inline box of style `style`, opened in
/// `b`, whose children come as the runs of inline-level boxes `runs` with
/// one block-level box between each two runs: the state after run `i`.
pub open spec fn inside_inline_box(
    b: BuilderView,
    style: ComputedStyle,
    runs: Seq<Seq<InlineLevelBoxView>>,
    i: int,
) -> BuilderView
    decreases i,
{
    if i <= 0 {
        pushed(open_inline_box(b, style), runs[0])
    } else {
        pushed(split_inline_boxes(inside_inline_box(b, style, runs, i - 1)), runs[i])
    }
}

/// Fragment `i` of that inline box: what the block-level box after run `i`
/// splits off, or, after the last run, what closing the box returns.
pub open spec fn fragment(
    b: BuilderView,
    style: ComputedStyle,
    runs: Seq<Seq<InlineLevelBoxView>>,
    i: int,
) -> InlineBoxView {
    let state = inside_inline_box(b, style, runs, i);
    if i < runs.len() - 1 {
        nested_fragment(state.stack, b.stack.len() as int)
    } else {
        InlineBoxView { last_fragment: true, ..state.stack.last() }
    }
}

proof fn lemma_pushed(b: BuilderView, boxes: Seq<InlineLevelBoxView>)
    requires
        b.stack.len() > 0,
    ensures
        pushed(b, boxes).stack.len() == b.stack.len(),
        pushed(b, boxes).stack.last() == (InlineBoxView {
            children: b.stack.last().children + boxes,
            ..b.stack.last()
        }),
    decreases boxes.len(),
{
    if boxes.len() == 0 {
        assert(b.stack.last().children + boxes =~= b.stack.last().children);
    } else {
        lemma_pushed(b, boxes.drop_last());
        assert((b.stack.last().children + boxes.drop_last()).push(boxes.last())
            =~= b.stack.last().children + boxes);
    }
}

proof fn lemma_inside_inline_box(
    b: BuilderView,
    style: ComputedStyle,
    runs: Seq<Seq<InlineLevelBoxView>>,
    i: int,
)
    requires
        0 <= i < runs.len(),
    ensures
        inside_inline_box(b, style, runs, i).stack.len() == b.stack.len() + 1,
        inside_inline_box(b, style, runs, i).stack.last() == (InlineBoxView {
            style,
            first_fragment: i == 0,
            last_fragment: false,
            children: runs[i],
        }),
    decreases i,
{
    if i == 0 {
        lemma_pushed(open_inline_box(b, style), runs[0]);
        assert(Seq::<InlineLevelBoxView>::empty() + runs[0] =~= runs[0]);
    } else {
        lemma_inside_inline_box(b, style, runs, i - 1);
        let split = split_inline_boxes(inside_inline_box(b, style, runs, i - 1));
        lemma_pushed(split, runs[i]);
        assert(Seq::<InlineLevelBoxView>::empty() + runs[i] =~= runs[i]);
    }
}

/// Inline fragmentation: an inline box whose children are split by block-
/// level children into the runs `runs` leaves one fragment for each run,
/// with the style of the box and the boxes of the run as its children.
/// The first fragment, and no other, is marked as first; the last, and no
/// other, as last.  So the children of the fragments, one after the other,
/// are the inline-level children of the box in document order.
pub proof fn lemma_fragments(
    b: BuilderView,
    style: ComputedStyle,
    runs: Seq<Seq<InlineLevelBoxView>>,
    i: int,
)
    requires
        0 <= i < runs.len(),
    ensures
        fragment(b, style, runs, i).style == style,
        fragment(b, style, runs, i).children == runs[i],
        fragment(b, style, runs, i).first_fragment == (i == 0),
        fragment(b, style, runs, i).last_fragment == (i == runs.len() - 1),
{
    lemma_inside_inline_box(b, style, runs, i);
}

/// A block-level element in normal flow leaves the open inline boxes as
/// `split_inline_boxes` does, and the fragment that they leave is the last
/// box of the anonymous block before the element's own box.
pub proof fn lemma_block_level_element_splits<C: LayoutContext>(
    context: &C,
    b: BuilderView,
    style: ComputedStyle,
    display_inside: DisplayInside,
    contents: ContentsView,
    box_slot: BoxSlot,
)
    requires
        b.stack.len() > 0,
    ensures
        ({
            let after = block_level_element(context, b, style, display_inside, contents, box_slot);
            &&& after.stack == split_inline_boxes(b).stack
            &&& after.ongoing.len() == 0
            &&& after.blocks.len() == b.blocks.len() + 2
            &&& after.blocks[b.blocks.len() as int].block matches BlockLevelBoxView::SameFormattingContextBlock {
                contents: BlockContainerView::InlineFormattingContext(boxes),
                ..
            } && boxes == b.ongoing.push(
                InlineLevelBoxView::InlineBox(nested_fragment(b.stack, 0)),
            )
        }),
{
    let split = split_inline_boxes(b);
    let ended = end_ongoing(context, split);
    let block = in_flow_block(context, style, display_inside, contents, ended.requested);
}

/// Content-size skip: a container whose sizes are not asked for has the
/// placeholder for them, asks for the sizes of none of its in-flow boxes,
/// and takes in zero for each.
pub proof fn lemma_sizes_not_requested<C: LayoutContext>(
    context: &C,
    style: ComputedStyle,
    children: Seq<NodeView>,
    block_style: ComputedStyle,
    display_inside: DisplayInside,
    contents: ContentsView,
    boxes: Seq<InlineLevelBoxView>,
)
    ensures
        container(
            context,
            style,
            children,
            ContentSizesRequest::NoneRequested,
        ).content_sizes is NoneWereRequested,
        inner_request(false, block_style) == ContentSizesRequest::NoneRequested,
        in_flow_block(context, block_style, display_inside, contents, false).outer_sizes
            == ContentSizes::zero(),
        anonymous_block(context, block_style, boxes, false).outer_sizes == ContentSizes::zero(),
{
    let built = container(context, style, children, ContentSizesRequest::NoneRequested);
    match contents {
        ContentsView::NonReplaced(nested) if display_inside == DisplayInside::Flow => {
            let block = same_formatting_context_block(context, block_style, nested, false);
        },
        _ => {
            let block = independent_block(context, block_style, display_inside, contents, false);
        },
    }
}

/// Whether `child` is inline-level with nothing block-level in it: text,
/// an atomic box, or an inline box whose children are such.
pub open spec fn node_is_inline_level(child: NodeView) -> bool
    decreases node_size(child), 0nat,
{
    match child {
        NodeView::Text { .. } => true,
        NodeView::Element {
            display: DisplayGeneratingBox::OutsideInside { outside, inside },
            contents,
            ..
        } => outside == DisplayOutside::Inline && match contents {
            ContentsView::NonReplaced(children) if inside == DisplayInside::Flow =>
                are_inline_level(children),
            _ => true,
        },
    }
}

/// Whether all of `children` are inline-level with nothing block-level in
/// them.
pub open spec fn are_inline_level(children: Seq<NodeView>) -> bool
    decreases nodes_size(children), 1nat,
{
    if children.len() == 0 {
        true
    } else {
        proof {
            assert(node_size(children.last()) >= 1);
        }
        are_inline_level(children.drop_last()) && node_is_inline_level(children.last())
    }
}

/// Whether `child` is a block-level element in normal flow, or an inline
/// box that holds one.
pub open spec fn node_has_block_in_flow(child: NodeView) -> bool
    decreases node_size(child), 0nat,
{
    match child {
        NodeView::Text { .. } => false,
        NodeView::Element {
            style,
            display: DisplayGeneratingBox::OutsideInside { outside, inside },
            contents,
            ..
        } => match outside {
            DisplayOutside::Block => !style.position.is_absolutely_positioned()
                && !style.float.is_floating(),
            DisplayOutside::Inline => match contents {
                ContentsView::NonReplaced(children) if inside == DisplayInside::Flow =>
                    have_block_in_flow(children),
                _ => false,
            },
        },
    }
}

/// Whether one of `children` is a block-level element in normal flow, or
/// an inline box that holds one.
pub open spec fn have_block_in_flow(children: Seq<NodeView>) -> bool
    decreases nodes_size(children), 1nat,
{
    if children.len() == 0 {
        false
    } else {
        proof {
            assert(node_size(children.last()) >= 1);
        }
        have_block_in_flow(children.drop_last()) || node_has_block_in_flow(children.last())
    }
}

/// Children that are all inline-level make an inline formatting context,
/// or nothing where they leave no box.  Children with a block-level
/// element in normal flow among them, at any depth of inline boxes, make
/// block-level boxes.
pub proof fn lemma_container_kind_by_children<C: LayoutContext>(
    context: &C,
    style: ComputedStyle,
    children: Seq<NodeView>,
    request: ContentSizesRequest,
)
    ensures
        are_inline_level(children) ==> {
            let built = container(context, style, children, request).container;
            ||| built is InlineFormattingContext
            ||| built == BlockContainerView::BlockLevelBoxes(Seq::empty())
        },
        have_block_in_flow(children) ==> {
            let built = container(context, style, children, request).container;
            built matches BlockContainerView::BlockLevelBoxes(boxes) && boxes.len() > 0
        },
{
    let walked = walk(context, start(style, request), children);
    lemma_walk_blocks(context, start(style, request), children);
    if are_inline_level(children) {
        assert(walked.blocks.len() == 0);
        if walked.ongoing.len() == 0 {
            assert(boxes_of(end_ongoing(context, walked).blocks) =~= Seq::empty());
        }
    }
}

/// The walk drops no block-level box; it finds one more at least where a
/// child is or holds a block-level element in normal flow, and none where
/// all children are inline-level.
pub proof fn lemma_walk_blocks<C: LayoutContext>(
    context: &C,
    b: BuilderView,
    children: Seq<NodeView>,
)
    ensures
        walk(context, b, children).blocks.len() >= b.blocks.len(),
        have_block_in_flow(children) ==> walk(context, b, children).blocks.len()
            > b.blocks.len(),
        are_inline_level(children) ==> walk(context, b, children).blocks == b.blocks,
    decreases nodes_size(children), 1nat,
{
    if children.len() > 0 {
        assert(node_size(children.last()) >= 1);
        lemma_walk_blocks(context, b, children.drop_last());
        let before = walk(context, b, children.drop_last());
        let after = node(context, before, children.last());
        assert(have_block_in_flow(children) == (have_block_in_flow(children.drop_last())
            || node_has_block_in_flow(children.last())));
        assert(are_inline_level(children) == (are_inline_level(children.drop_last())
            && node_is_inline_level(children.last())));
        match children.last() {
            NodeView::Text { .. } => {
                assert(after.blocks == before.blocks);
                assert(!node_has_block_in_flow(children.last()));
            },
            NodeView::Element { style, display, contents, box_slot } => {
                lemma_element_blocks(context, before, style, display, contents, box_slot);
                assert(after == element(context, before, style, display, contents, box_slot));
            },
        }
    }
}

#[verifier::rlimit(60)]
proof fn lemma_element_blocks<C: LayoutContext>(
    context: &C,
    b: BuilderView,
    style: ComputedStyle,
    display: DisplayGeneratingBox,
    contents: ContentsView,
    box_slot: BoxSlot,
)
    ensures
        ({
            let after = element(context, b, style, display, contents, box_slot);
            let child = NodeView::Element { style, display, contents, box_slot };
            &&& after.blocks.len() >= b.blocks.len()
            &&& node_has_block_in_flow(child) ==> after.blocks.len() > b.blocks.len()
            &&& node_is_inline_level(child) ==> after.blocks == b.blocks
        }),
    decreases contents_size(contents), 3nat,
{
    match display {
        DisplayGeneratingBox::OutsideInside { outside, inside } => {
            match outside {
                DisplayOutside::Inline => {
                    let (after, inline) = inline_level_element(context, b, style, inside, contents);
                    match contents {
                        ContentsView::NonReplaced(children) if inside == DisplayInside::Flow => {
                            lemma_walk_blocks(context, open_inline_box(b, style), children);
                        },
                        _ => {},
                    }
                },
                DisplayOutside::Block => {
                    if style.position.is_absolutely_positioned() {
                        let after = absolutely_positioned_element(
                            context,
                            b,
                            style,
                            inside,
                            contents,
                            box_slot,
                        );
                    } else if style.float.is_floating() {
                        let after = float_element(context, b, style, inside, contents, box_slot);
                    } else {
                        let after = block_level_element(
                            context,
                            b,
                            style,
                            inside,
                            contents,
                            box_slot,
                        );
                        let ended = end_ongoing(context, split_inline_boxes(b));
                    }
                },
            }
        },
    }
}

/// How many of `writes` go to slot `slot`.
pub open spec fn count_writes(writes: Seq<SlotWriteView>, slot: usize) -> nat
    decreases writes.len(),
{
    if writes.len() == 0 {
        0
    } else {
        count_writes(writes.drop_last(), slot) + if writes.last().slot == slot {
            1nat
        } else {
            0nat
        }
    }
}

/// `1` if `box_slot` is slot `slot`, else `0`.
pub open spec fn own_write(box_slot: BoxSlot, slot: usize) -> nat {
    if box_slot.slot == Some(slot) {
        1
    } else {
        0
    }
}

/// How many elements of `child` and below it have slot `slot`.
pub open spec fn count_node_slots(child: NodeView, slot: usize) -> nat
    decreases node_size(child), 0nat,
{
    match child {
        NodeView::Text { .. } => 0,
        NodeView::Element { contents, box_slot, .. } => count_contents_slots(contents, slot)
            + own_write(box_slot, slot),
    }
}

/// How many elements of `contents` have slot `slot`.
pub open spec fn count_contents_slots(contents: ContentsView, slot: usize) -> nat
    decreases contents_size(contents), 2nat,
{
    match contents {
        ContentsView::NonReplaced(children) => count_slots(children, slot),
        ContentsView::Replaced(_) => 0,
    }
}

/// How many elements of `children` and below them have slot `slot`.
pub open spec fn count_slots(children: Seq<NodeView>, slot: usize) -> nat
    decreases nodes_size(children), 1nat,
{
    if children.len() == 0 {
        0
    } else {
        proof {
            assert(node_size(children.last()) >= 1);
        }
        count_slots(children.drop_last(), slot) + count_node_slots(children.last(), slot)
    }
}

/// How many writes the walk has made to `slot` so far, itself or for a
/// block that it has found.
pub open spec fn writes_so_far(b: BuilderView, slot: usize) -> nat {
    count_writes(b.writes, slot) + count_writes(writes_of(b.blocks), slot)
}

proof fn lemma_count_writes_concat(
    before: Seq<SlotWriteView>,
    after: Seq<SlotWriteView>,
    slot: usize,
)
    ensures
        count_writes(before + after, slot) == count_writes(before, slot) + count_writes(
            after,
            slot,
        ),
    decreases after.len(),
{
    if after.len() == 0 {
        assert(before + after =~= before);
    } else {
        lemma_count_writes_concat(before, after.drop_last(), slot);
        assert((before + after).drop_last() =~= before + after.drop_last());
    }
}

proof fn lemma_count_written(
    writes: Seq<SlotWriteView>,
    box_slot: BoxSlot,
    layout_box: LayoutBoxView,
    slot: usize,
)
    ensures
        count_writes(written(writes, box_slot, layout_box), slot) == count_writes(writes, slot)
            + own_write(box_slot, slot),
{
    match box_slot.slot {
        Some(number) => {
            let after = written(writes, box_slot, layout_box);
            assert(after.drop_last() =~= writes);
        },
        None => {},
    }
}

proof fn lemma_count_block(b: BuilderView, block: FinishedBlock, box_slot: BoxSlot, slot: usize)
    ensures
        writes_so_far(block_level(b, block, box_slot), slot) == writes_so_far(b, slot)
            + count_writes(block.writes, slot) + own_write(box_slot, slot),
{
    let last = with_slot(block, box_slot);
    let after = block_level(b, block, box_slot);
    assert(after.blocks.drop_last() =~= b.blocks);
    lemma_count_written(block.writes, box_slot, LayoutBoxView::BlockLevel(block.block), slot);
    lemma_count_writes_concat(writes_of(b.blocks), last.writes, slot);
}

proof fn lemma_count_inline(
    b: BuilderView,
    inline: InlineLevelBoxView,
    writes: Seq<SlotWriteView>,
    box_slot: BoxSlot,
    slot: usize,
)
    ensures
        writes_so_far(inline_level(b, inline, writes, box_slot), slot) == writes_so_far(b, slot)
            + count_writes(writes, slot) + own_write(box_slot, slot),
{
    let pushed = push_inline(b, inline);
    lemma_count_written(
        pushed.writes + writes,
        box_slot,
        LayoutBoxView::InlineLevel(inline),
        slot,
    );
    lemma_count_writes_concat(pushed.writes, writes, slot);
}

proof fn lemma_count_end_ongoing<C: LayoutContext>(context: &C, b: BuilderView, slot: usize)
    ensures
        writes_so_far(end_ongoing(context, b), slot) == writes_so_far(b, slot),
{
    if b.ongoing.len() > 0 {
        let ended = end_ongoing(context, b);
        assert(ended.blocks.drop_last() =~= b.blocks);
        lemma_count_writes_concat(writes_of(b.blocks), ended.blocks.last().writes, slot);
    }
}

/// Every slot is written once: the boxes handed to a slot while a
/// container is built are as many as the elements in the container that
/// have the slot.  So where no two elements share a slot, the slot of each
/// element takes one box, and no other slot takes any.
pub proof fn lemma_container_writes<C: LayoutContext>(
    context: &C,
    style: ComputedStyle,
    children: Seq<NodeView>,
    request: ContentSizesRequest,
    slot: usize,
)
    ensures
        count_writes(container(context, style, children, request).writes, slot) == count_slots(
            children,
            slot,
        ),
    decreases nodes_size(children), 3nat,
{
    let walked = walk(context, start(style, request), children);
    lemma_walk_writes(context, start(style, request), children, slot);
    assert(writes_of(start(style, request).blocks) =~= Seq::empty());
    if walked.ongoing.len() > 0 && walked.blocks.len() == 0 {
        assert(writes_of(walked.blocks) =~= Seq::empty());
    } else {
        let ended = end_ongoing(context, walked);
        lemma_count_end_ongoing(context, walked, slot);
        lemma_count_writes_concat(ended.writes, writes_of(ended.blocks), slot);
    }
}

proof fn lemma_independent_writes<C: LayoutContext>(
    context: &C,
    style: ComputedStyle,
    display_inside: DisplayInside,
    contents: ContentsView,
    request: ContentSizesRequest,
    slot: usize,
)
    ensures
        count_writes(independent(context, style, display_inside, contents, request).1, slot)
            == count_contents_slots(contents, slot),
    decreases contents_size(contents), 4nat,
{
    match contents {
        ContentsView::NonReplaced(children) => {
            lemma_container_writes(context, style, children, request, slot);
        },
        ContentsView::Replaced(_) => {},
    }
}

/// The walk makes as many writes to a slot as the children have elements
/// with the slot.
pub proof fn lemma_walk_writes<C: LayoutContext>(
    context: &C,
    b: BuilderView,
    children: Seq<NodeView>,
    slot: usize,
)
    ensures
        writes_so_far(walk(context, b, children), slot) == writes_so_far(b, slot) + count_slots(
            children,
            slot,
        ),
    decreases nodes_size(children), 1nat,
{
    if children.len() > 0 {
        assert(node_size(children.last()) >= 1);
        lemma_walk_writes(context, b, children.drop_last(), slot);
        let before = walk(context, b, children.drop_last());
        let after = node(context, before, children.last());
        assert(count_slots(children, slot) == count_slots(children.drop_last(), slot)
            + count_node_slots(children.last(), slot));
        match children.last() {
            NodeView::Text { .. } => {
                assert(after.blocks == before.blocks);
                assert(after.writes == before.writes);
                assert(count_node_slots(children.last(), slot) == 0);
            },
            NodeView::Element { style, display, contents, box_slot } => {
                lemma_element_writes(context, before, style, display, contents, box_slot, slot);
                assert(after == element(context, before, style, display, contents, box_slot));
            },
        }
    }
}

#[verifier::rlimit(60)]
proof fn lemma_element_writes<C: LayoutContext>(
    context: &C,
    b: BuilderView,
    style: ComputedStyle,
    display: DisplayGeneratingBox,
    contents: ContentsView,
    box_slot: BoxSlot,
    slot: usize,
)
    ensures
        writes_so_far(element(context, b, style, display, contents, box_slot), slot)
            == writes_so_far(b, slot) + count_contents_slots(contents, slot) + own_write(
            box_slot,
            slot,
        ),
    decreases contents_size(contents), 6nat,
{
    match display {
        DisplayGeneratingBox::OutsideInside { outside, inside } => {
            match outside {
                DisplayOutside::Inline => {
                    lemma_inline_element_writes(context, b, style, inside, contents, slot);
                    let (after, inline) = inline_level_element(context, b, style, inside, contents);
                    lemma_count_written(
                        after.writes,
                        box_slot,
                        LayoutBoxView::InlineLevel(inline),
                        slot,
                    );
                },
                DisplayOutside::Block => {
                    if style.position.is_absolutely_positioned() {
                        lemma_positioned_element_writes(
                            context,
                            b,
                            style,
                            inside,
                            contents,
                            box_slot,
                            slot,
                        );
                    } else if style.float.is_floating() {
                        lemma_float_element_writes(
                            context,
                            b,
                            style,
                            inside,
                            contents,
                            box_slot,
                            slot,
                        );
                    } else {
                        lemma_block_element_writes(
                            context,
                            b,
                            style,
                            inside,
                            contents,
                            box_slot,
                            slot,
                        );
                    }
                },
            }
        },
    }
}

#[verifier::rlimit(60)]
proof fn lemma_inline_element_writes<C: LayoutContext>(
    context: &C,
    b: BuilderView,
    style: ComputedStyle,
    display_inside: DisplayInside,
    contents: ContentsView,
    slot: usize,
)
    ensures
        writes_so_far(inline_level_element(context, b, style, display_inside, contents).0, slot)
            == writes_so_far(b, slot) + count_contents_slots(contents, slot),
    decreases contents_size(contents), 5nat,
{
    match contents {
        ContentsView::NonReplaced(children) if display_inside == DisplayInside::Flow => {
            lemma_walk_writes(context, open_inline_box(b, style), children, slot);
        },
        _ => {
            let request = ContentSizesRequest::inline_if(style.inline_size_is_auto());
            lemma_independent_writes(context, style, display_inside, contents, request, slot);
            let (atomic, writes) = independent(context, style, display_inside, contents, request);
            lemma_count_writes_concat(b.writes, writes, slot);
        },
    }
}

#[verifier::rlimit(60)]
proof fn lemma_positioned_element_writes<C: LayoutContext>(
    context: &C,
    b: BuilderView,
    style: ComputedStyle,
    display_inside: DisplayInside,
    contents: ContentsView,
    box_slot: BoxSlot,
    slot: usize,
)
    ensures
        writes_so_far(
            absolutely_positioned_element(context, b, style, display_inside, contents, box_slot),
            slot,
        ) == writes_so_far(b, slot) + count_contents_slots(contents, slot) + own_write(
            box_slot,
            slot,
        ),
    decreases contents_size(contents), 5nat,
{
    let request = ContentSizesRequest::inline_if(style.inline_size_is_auto());
    lemma_independent_writes(context, style, display_inside, contents, request, slot);
    let (positioned, writes) = out_of_flow(context, style, display_inside, contents);
    if has_ongoing_inline_formatting_context(b) {
        lemma_count_inline(
            b,
            InlineLevelBoxView::OutOfFlowAbsolutelyPositionedBox(positioned),
            writes,
            box_slot,
            slot,
        );
    } else {
        let block = absolutely_positioned_block(context, style, display_inside, contents);
        lemma_count_block(b, block, box_slot, slot);
    }
}

#[verifier::rlimit(60)]
proof fn lemma_float_element_writes<C: LayoutContext>(
    context: &C,
    b: BuilderView,
    style: ComputedStyle,
    display_inside: DisplayInside,
    contents: ContentsView,
    box_slot: BoxSlot,
    slot: usize,
)
    ensures
        writes_so_far(
            float_element(context, b, style, display_inside, contents, box_slot),
            slot,
        ) == writes_so_far(b, slot) + count_contents_slots(contents, slot) + own_write(
            box_slot,
            slot,
        ),
    decreases contents_size(contents), 5nat,
{
    let request = ContentSizesRequest::inline_if(style.inline_size_is_auto());
    lemma_independent_writes(context, style, display_inside, contents, request, slot);
    let (float, writes) = out_of_flow(context, style, display_inside, contents);
    let found = BuilderView { contains_floats: ContainsFloats::Yes, ..b };
    if has_ongoing_inline_formatting_context(found) {
        lemma_count_inline(
            found,
            InlineLevelBoxView::OutOfFlowFloatBox(float),
            writes,
            box_slot,
            slot,
        );
    } else {
        let block = float_block(context, style, display_inside, contents);
        lemma_count_block(found, block, box_slot, slot);
    }
}

#[verifier::rlimit(60)]
proof fn lemma_block_element_writes<C: LayoutContext>(
    context: &C,
    b: BuilderView,
    style: ComputedStyle,
    display_inside: DisplayInside,
    contents: ContentsView,
    box_slot: BoxSlot,
    slot: usize,
)
    ensures
        writes_so_far(
            block_level_element(context, b, style, display_inside, contents, box_slot),
            slot,
        ) == writes_so_far(b, slot) + count_contents_slots(contents, slot) + own_write(
            box_slot,
            slot,
        ),
    decreases contents_size(contents), 5nat,
{
    let split = split_inline_boxes(b);
    let ended = end_ongoing(context, split);
    lemma_count_end_ongoing(context, split, slot);
    let block = in_flow_block(context, style, display_inside, contents, ended.requested);
    lemma_count_block(ended, block, box_slot, slot);
    let inner = inner_request(ended.requested, style);
    match contents {
        ContentsView::NonReplaced(children) if display_inside == DisplayInside::Flow => {
            let same = same_formatting_context_block(context, style, children, ended.requested);
            lemma_container_writes(context, style, children, inner, slot);
        },
        _ => {
            let own = independent_block(context, style, display_inside, contents, ended.requested);
            lemma_independent_writes(context, style, display_inside, contents, inner, slot);
        },
    }
}

} // verus!
