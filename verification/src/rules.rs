//! The rules of box construction, as functions on views.
//!
//! `container` says which block container a sequence of children produces.
//! It walks the children in document order over a `BuilderView`, the state
//! of the walk, in which every block-level box found so far is already
//! told in its finished form.
use vstd::prelude::*;
use crate::context::LayoutContext;
use crate::dom_traversal::{
    contents_size,
    node_size,
    nodes_size,
    written,
    BoxSlot,
    ContentsView,
    NodeView,
    SlotWriteView,
};
use crate::flow::{
    BlockContainerView,
    BlockFormattingContextView,
    BlockLevelBoxView,
    ContainsFloats,
    IndependentContentsView,
    IndependentFormattingContextView,
    InlineBoxView,
    InlineLevelBoxView,
    LayoutBoxView,
    TextRunView,
};
use crate::sizing::{BoxContentSizes, ContentSizes, ContentSizesRequest};
use crate::style::{ComputedStyle, DisplayGeneratingBox, DisplayInside, DisplayOutside};
use crate::whitespace::{collapsed_text, ends_with_space, starts_with_whitespace, trim_start};

verus! {

/// A finished block-level box, with what it hands up to its container.
pub ghost struct FinishedBlock {
    pub block: BlockLevelBoxView,
    /// Whether the box is a float or holds one in the container's
    /// formatting context.
    pub contains_floats: ContainsFloats,
    /// The outer inline sizes of the box where the container asked for
    /// sizes, zero where it did not or where the box is out of flow.
    pub outer_sizes: ContentSizes,
    /// The slot writes made while the box was finished, its own last.
    pub writes: Seq<SlotWriteView>,
}

/// What a block container is built into.
pub ghost struct ContainerView {
    pub container: BlockContainerView,
    pub contains_floats: ContainsFloats,
    pub content_sizes: BoxContentSizes,
    pub writes: Seq<SlotWriteView>,
}

/// The state of the walk over the children of a block container.
pub ghost struct BuilderView {
    /// The style of the block container.
    pub style: ComputedStyle,
    /// Whether the container's sizes were asked for.
    pub requested: bool,
    /// The block-level boxes found so far.
    pub blocks: Seq<FinishedBlock>,
    /// The inline-level boxes of the ongoing inline formatting context.
    pub ongoing: Seq<InlineLevelBoxView>,
    /// The inline boxes that are open, the outermost first.
    pub stack: Seq<InlineBoxView>,
    /// The style of anonymous blocks, once one was needed.
    pub anonymous_style: Option<ComputedStyle>,
    pub contains_floats: ContainsFloats,
    /// The slot writes of inline-level boxes made during the walk.
    pub writes: Seq<SlotWriteView>,
}

/// The state in which the walk over a container of style `style` starts.
pub open spec fn start(style: ComputedStyle, request: ContentSizesRequest) -> BuilderView {
    BuilderView {
        style,
        requested: request.requests_inline(),
        blocks: Seq::empty(),
        ongoing: Seq::empty(),
        stack: Seq::empty(),
        anonymous_style: None,
        contains_floats: ContainsFloats::No,
        writes: Seq::empty(),
    }
}

/// The boxes to which the next inline-level box is added: the children of
/// the innermost open inline box, or else the ongoing inline formatting
/// context.
pub open spec fn current(b: BuilderView) -> Seq<InlineLevelBoxView> {
    if b.stack.len() > 0 {
        b.stack.last().children
    } else {
        b.ongoing
    }
}

/// `b` with `boxes` in the place of `current(b)`.
pub open spec fn with_current(b: BuilderView, boxes: Seq<InlineLevelBoxView>) -> BuilderView {
    if b.stack.len() > 0 {
        BuilderView {
            stack: b.stack.update(
                b.stack.len() - 1,
                InlineBoxView { children: boxes, ..b.stack.last() },
            ),
            ..b
        }
    } else {
        BuilderView { ongoing: boxes, ..b }
    }
}

/// Whether inline-level content is under way: the ongoing inline
/// formatting context holds a box, or an inline box is open.
pub open spec fn has_ongoing_inline_formatting_context(b: BuilderView) -> bool {
    b.ongoing.len() > 0 || b.stack.len() > 0
}

/// Whether whitespace after the last content of `boxes` is preserved:
/// `Some(true)` after an atomic box or a text run that does not end in a
/// space, `Some(false)` after a text run that does, `None` where `boxes`
/// holds neither.  Out-of-flow boxes are passed over, inline boxes are
/// searched from their end.
pub open spec fn preceding_content_preserves(boxes: Seq<InlineLevelBoxView>) -> Option<bool>
    decreases boxes,
{
    if boxes.len() == 0 {
        None
    } else {
        match boxes.last() {
            InlineLevelBoxView::TextRun(run) => Some(!ends_with_space(run.text)),
            InlineLevelBoxView::Atomic(_) => Some(true),
            InlineLevelBoxView::OutOfFlowAbsolutelyPositionedBox(_) => preceding_content_preserves(
                boxes.drop_last(),
            ),
            InlineLevelBoxView::OutOfFlowFloatBox(_) => preceding_content_preserves(
                boxes.drop_last(),
            ),
            InlineLevelBoxView::InlineBox(inline_box) => {
                match preceding_content_preserves(inline_box.children) {
                    Some(preserved) => Some(preserved),
                    None => preceding_content_preserves(boxes.drop_last()),
                }
            },
        }
    }
}

/// Whether whitespace after the content that comes before the place of
/// the walk is preserved, if there is such content.  The open inline boxes
/// `stack` are searched from the innermost outwards, each from the end of
/// its children, and after them the ongoing inline formatting context
/// `ongoing`.
pub open spec fn preceding_in_open_boxes(
    stack: Seq<InlineBoxView>,
    ongoing: Seq<InlineLevelBoxView>,
) -> Option<bool>
    decreases stack.len(),
{
    if stack.len() == 0 {
        preceding_content_preserves(ongoing)
    } else {
        match preceding_content_preserves(stack.last().children) {
            Some(preserved) => Some(preserved),
            None => preceding_in_open_boxes(stack.drop_last(), ongoing),
        }
    }
}

/// Whether the leading whitespace of `text` is kept as a space: it is
/// dropped where nothing comes before it in the inline formatting context,
/// and after a space.
pub open spec fn leading_whitespace_preserved(b: BuilderView, text: Seq<char>) -> bool {
    starts_with_whitespace(text) && preceding_in_open_boxes(b.stack, b.ongoing) == Some(true)
}

/// The current boxes after text `piece` of parent style `parent_style`: it
/// extends a text run at their end, or else becomes a new one.
pub open spec fn with_text(
    boxes: Seq<InlineLevelBoxView>,
    piece: Seq<char>,
    parent_style: ComputedStyle,
) -> Seq<InlineLevelBoxView> {
    if boxes.len() > 0 && boxes.last() is TextRun {
        boxes.update(
            boxes.len() - 1,
            InlineLevelBoxView::TextRun(
                TextRunView { text: boxes.last()->TextRun_0.text + piece, ..boxes.last()->TextRun_0 },
            ),
        )
    } else {
        boxes.push(InlineLevelBoxView::TextRun(TextRunView { parent_style, text: piece }))
    }
}

/// A text node.
pub open spec fn text(b: BuilderView, input: Seq<char>, parent_style: ComputedStyle) -> BuilderView {
    let leading_whitespace = leading_whitespace_preserved(b, input);
    if leading_whitespace || trim_start(input).len() > 0 {
        with_current(
            b,
            with_text(current(b), collapsed_text(input, leading_whitespace), parent_style),
        )
    } else {
        b
    }
}

/// `b` with `inline` added to the current boxes.
pub open spec fn push_inline(b: BuilderView, inline: InlineLevelBoxView) -> BuilderView {
    with_current(b, current(b).push(inline))
}

/// `b` with a new, empty inline box of style `style` opened.
pub open spec fn open_inline_box(b: BuilderView, style: ComputedStyle) -> BuilderView {
    BuilderView {
        stack: b.stack.push(
            InlineBoxView {
                style,
                first_fragment: true,
                last_fragment: false,
                children: Seq::empty(),
            },
        ),
        ..b
    }
}

/// The fragment that open inline box `k` of `stack` leaves before a
/// block-level box: what it holds so far, and after that the fragment of
/// the open inline box inside it.
pub open spec fn nested_fragment(stack: Seq<InlineBoxView>, k: int) -> InlineBoxView
    decreases stack.len() - k,
{
    if 0 <= k < stack.len() {
        InlineBoxView {
            style: stack[k].style,
            first_fragment: stack[k].first_fragment,
            last_fragment: false,
            children: if k + 1 < stack.len() {
                stack[k].children.push(InlineLevelBoxView::InlineBox(nested_fragment(stack, k + 1)))
            } else {
                stack[k].children
            },
        }
    } else {
        arbitrary()
    }
}

/// The open inline boxes after a block-level box: each is empty and no
/// longer a first fragment.
pub open spec fn continued(stack: Seq<InlineBoxView>) -> Seq<InlineBoxView> {
    Seq::new(
        stack.len(),
        |i: int| InlineBoxView { first_fragment: false, children: Seq::empty(), ..stack[i] },
    )
}

/// Splits the open inline boxes around a block-level box: their fragments,
/// nested as the boxes are, join the ongoing inline formatting context.
pub open spec fn split_inline_boxes(b: BuilderView) -> BuilderView {
    if b.stack.len() > 0 {
        BuilderView {
            ongoing: b.ongoing.push(InlineLevelBoxView::InlineBox(nested_fragment(b.stack, 0))),
            stack: continued(b.stack),
            ..b
        }
    } else {
        b
    }
}

/// The request for the sizes of a box of style `style`, made where the
/// container's own sizes are asked for and the box's inline size is `auto`.
pub open spec fn inner_request(requested: bool, style: ComputedStyle) -> ContentSizesRequest {
    ContentSizesRequest::inline_if(requested && style.inline_size_is_auto())
}

/// What an in-flow box adds to the sizes of its container.
pub open spec fn outer_contribution(
    requested: bool,
    sizes: BoxContentSizes,
    style: ComputedStyle,
) -> ContentSizes {
    if requested {
        sizes.outer_inline(&style)
    } else {
        ContentSizes::zero()
    }
}

/// The anonymous block that wraps inline-level boxes `boxes`.
pub open spec fn anonymous_block<C: LayoutContext>(
    context: &C,
    style: ComputedStyle,
    boxes: Seq<InlineLevelBoxView>,
    requested: bool,
) -> FinishedBlock {
    let sizes = inner_request(requested, style).answer(context.inline_sizes(boxes));
    FinishedBlock {
        block: BlockLevelBoxView::SameFormattingContextBlock {
            style,
            contents: BlockContainerView::InlineFormattingContext(boxes),
        },
        contains_floats: ContainsFloats::No,
        outer_sizes: outer_contribution(requested, sizes, style),
        writes: Seq::empty(),
    }
}

/// Ends the ongoing inline formatting context: unless it is empty, it
/// becomes an anonymous block, in the anonymous style that is looked up
/// once for the container.
pub open spec fn end_ongoing<C: LayoutContext>(context: &C, b: BuilderView) -> BuilderView {
    if b.ongoing.len() == 0 {
        b
    } else {
        let style = match b.anonymous_style {
            Some(style) => style,
            None => context.anonymous_style(b.style),
        };
        BuilderView {
            anonymous_style: Some(style),
            blocks: b.blocks.push(anonymous_block(context, style, b.ongoing, b.requested)),
            ongoing: Seq::empty(),
            ..b
        }
    }
}

/// `block` once it is handed to `slot`.
pub open spec fn with_slot(block: FinishedBlock, slot: BoxSlot) -> FinishedBlock {
    FinishedBlock {
        writes: written(block.writes, slot, LayoutBoxView::BlockLevel(block.block)),
        ..block
    }
}

/// Whether any of `blocks` contains floats.
pub open spec fn floats_of(blocks: Seq<FinishedBlock>) -> ContainsFloats
    decreases blocks.len(),
{
    if blocks.len() == 0 {
        ContainsFloats::No
    } else {
        floats_of(blocks.drop_last()).or(blocks.last().contains_floats)
    }
}

/// The componentwise maximum of the outer sizes of `blocks`.
pub open spec fn sizes_of(blocks: Seq<FinishedBlock>) -> ContentSizes
    decreases blocks.len(),
{
    if blocks.len() == 0 {
        ContentSizes::zero()
    } else {
        sizes_of(blocks.drop_last()).max(blocks.last().outer_sizes)
    }
}

/// The slot writes of `blocks`, in the order of the blocks.
pub open spec fn writes_of(blocks: Seq<FinishedBlock>) -> Seq<SlotWriteView>
    decreases blocks.len(),
{
    if blocks.len() == 0 {
        Seq::empty()
    } else {
        writes_of(blocks.drop_last()) + blocks.last().writes
    }
}

/// The boxes of `blocks`, in the same order.
pub open spec fn boxes_of(blocks: Seq<FinishedBlock>) -> Seq<BlockLevelBoxView> {
    Seq::new(blocks.len(), |i: int| blocks[i].block)
}

/// The block container built from `children`, the children of a box of
/// style `style`.
///
/// Where the walk leaves inline-level boxes and no block-level box, the
/// container is their inline formatting context.  Otherwise inline-level
/// boxes that are left become a last anonymous block, and the container
/// holds the block-level boxes in document order; it contains floats if
/// the walk met one or a block does, and its sizes are the maximum of the
/// blocks' outer sizes.
pub open spec fn container<C: LayoutContext>(
    context: &C,
    style: ComputedStyle,
    children: Seq<NodeView>,
    request: ContentSizesRequest,
) -> ContainerView
    decreases nodes_size(children), 2nat,
{
    let walked = walk(context, start(style, request), children);
    if walked.ongoing.len() > 0 && walked.blocks.len() == 0 {
        ContainerView {
            container: BlockContainerView::InlineFormattingContext(walked.ongoing),
            contains_floats: walked.contains_floats,
            content_sizes: request.answer(context.inline_sizes(walked.ongoing)),
            writes: walked.writes,
        }
    } else {
        let ended = end_ongoing(context, walked);
        ContainerView {
            container: BlockContainerView::BlockLevelBoxes(boxes_of(ended.blocks)),
            contains_floats: ended.contains_floats.or(floats_of(ended.blocks)),
            content_sizes: request.answer(sizes_of(ended.blocks)),
            writes: ended.writes + writes_of(ended.blocks),
        }
    }
}

/// The state of the walk after `children`.
pub open spec fn walk<C: LayoutContext>(
    context: &C,
    b: BuilderView,
    children: Seq<NodeView>,
) -> BuilderView
    decreases nodes_size(children), 1nat,
{
    if children.len() == 0 {
        b
    } else {
        proof {
            assert(node_size(children.last()) >= 1);
        }
        node(
            context,
            walk(context, b, children.drop_last()),
            children.last(),
        )
    }
}

/// The state of the walk after one child.
pub open spec fn node<C: LayoutContext>(
    context: &C,
    b: BuilderView,
    child: NodeView,
) -> BuilderView
    decreases node_size(child), 0nat,
{
    match child {
        NodeView::Text { text: input, parent_style } => text(b, input, parent_style),
        NodeView::Element { style, display, contents, box_slot } => element(
            context,
            b,
            style,
            display,
            contents,
            box_slot,
        ),
    }
}

/// An element: inline-level by its outer display; else, as floats and
/// absolutely positioned boxes are blockified, out of flow by its position
/// or its float, or a block-level box in normal flow.
pub open spec fn element<C: LayoutContext>(
    context: &C,
    b: BuilderView,
    style: ComputedStyle,
    display: DisplayGeneratingBox,
    contents: ContentsView,
    box_slot: BoxSlot,
) -> BuilderView
    decreases contents_size(contents), 7nat,
{
    match display {
        DisplayGeneratingBox::OutsideInside { outside, inside } => match outside {
            DisplayOutside::Inline => {
                let (after, inline) = inline_level_element(context, b, style, inside, contents);
                BuilderView {
                    writes: written(after.writes, box_slot, LayoutBoxView::InlineLevel(inline)),
                    ..after
                }
            },
            DisplayOutside::Block => {
                if style.position.is_absolutely_positioned() {
                    absolutely_positioned_element(context, b, style, inside, contents, box_slot)
                } else if style.float.is_floating() {
                    float_element(context, b, style, inside, contents, box_slot)
                } else {
                    block_level_element(context, b, style, inside, contents, box_slot)
                }
            },
        },
    }
}

/// An inline-level element, and the box it adds to the current boxes.
///
/// With flow inside and children it is an inline box: it is opened, its
/// children are walked, and it is closed as a last fragment.  Otherwise it
/// is atomic, with sizes where its inline size is `auto`.
pub open spec fn inline_level_element<C: LayoutContext>(
    context: &C,
    b: BuilderView,
    style: ComputedStyle,
    display_inside: DisplayInside,
    contents: ContentsView,
) -> (BuilderView, InlineLevelBoxView)
    decreases contents_size(contents), 6nat,
{
    match contents {
        ContentsView::NonReplaced(children) if display_inside == DisplayInside::Flow => {
            let walked = walk(context, open_inline_box(b, style), children);
            let closed = InlineLevelBoxView::InlineBox(
                InlineBoxView { last_fragment: true, ..walked.stack.last() },
            );
            (push_inline(BuilderView { stack: walked.stack.drop_last(), ..walked }, closed), closed)
        },
        _ => {
            let (atomic, writes) = independent(
                context,
                style,
                display_inside,
                contents,
                ContentSizesRequest::inline_if(style.inline_size_is_auto()),
            );
            let inline = InlineLevelBoxView::Atomic(atomic);
            let after = push_inline(b, inline);
            (BuilderView { writes: after.writes + writes, ..after }, inline)
        },
    }
}

/// An absolutely positioned element: a block-level box where no inline
/// formatting context is ongoing, else an inline-level box, handed to its
/// slot at once.
pub open spec fn absolutely_positioned_element<C: LayoutContext>(
    context: &C,
    b: BuilderView,
    style: ComputedStyle,
    display_inside: DisplayInside,
    contents: ContentsView,
    box_slot: BoxSlot,
) -> BuilderView
    decreases contents_size(contents), 6nat,
{
    if !has_ongoing_inline_formatting_context(b) {
        block_level(
            b,
            absolutely_positioned_block(context, style, display_inside, contents),
            box_slot,
        )
    } else {
        let (positioned, writes) = out_of_flow(context, style, display_inside, contents);
        inline_level(
            b,
            InlineLevelBoxView::OutOfFlowAbsolutelyPositionedBox(positioned),
            writes,
            box_slot,
        )
    }
}

/// A float: the container contains floats, whichever level the box is of.
pub open spec fn float_element<C: LayoutContext>(
    context: &C,
    b: BuilderView,
    style: ComputedStyle,
    display_inside: DisplayInside,
    contents: ContentsView,
    box_slot: BoxSlot,
) -> BuilderView
    decreases contents_size(contents), 6nat,
{
    let b = BuilderView { contains_floats: ContainsFloats::Yes, ..b };
    if !has_ongoing_inline_formatting_context(b) {
        block_level(b, float_block(context, style, display_inside, contents), box_slot)
    } else {
        let (float, writes) = out_of_flow(context, style, display_inside, contents);
        inline_level(b, InlineLevelBoxView::OutOfFlowFloatBox(float), writes, box_slot)
    }
}

/// A block-level element in normal flow: the open inline boxes are split
/// around it, the ongoing inline formatting context ends, and its box
/// follows.
pub open spec fn block_level_element<C: LayoutContext>(
    context: &C,
    b: BuilderView,
    style: ComputedStyle,
    display_inside: DisplayInside,
    contents: ContentsView,
    box_slot: BoxSlot,
) -> BuilderView
    decreases contents_size(contents), 6nat,
{
    let b = end_ongoing(context, split_inline_boxes(b));
    block_level(b, in_flow_block(context, style, display_inside, contents, b.requested), box_slot)
}

/// The box of a block-level element in normal flow: with flow inside and
/// children it takes part in the formatting context of its container,
/// otherwise it establishes its own.
pub open spec fn in_flow_block<C: LayoutContext>(
    context: &C,
    style: ComputedStyle,
    display_inside: DisplayInside,
    contents: ContentsView,
    requested: bool,
) -> FinishedBlock
    decreases contents_size(contents), 5nat,
{
    match contents {
        ContentsView::NonReplaced(children) if display_inside == DisplayInside::Flow => {
            same_formatting_context_block(context, style, children, requested)
        },
        _ => independent_block(context, style, display_inside, contents, requested),
    }
}

/// The block-level box of an absolutely positioned element.
pub open spec fn absolutely_positioned_block<C: LayoutContext>(
    context: &C,
    style: ComputedStyle,
    display_inside: DisplayInside,
    contents: ContentsView,
) -> FinishedBlock
    decreases contents_size(contents), 5nat,
{
    let (positioned, writes) = out_of_flow(context, style, display_inside, contents);
    FinishedBlock {
        block: BlockLevelBoxView::OutOfFlowAbsolutelyPositionedBox(positioned),
        contains_floats: ContainsFloats::No,
        outer_sizes: ContentSizes::zero(),
        writes,
    }
}

/// The block-level box of a float.
pub open spec fn float_block<C: LayoutContext>(
    context: &C,
    style: ComputedStyle,
    display_inside: DisplayInside,
    contents: ContentsView,
) -> FinishedBlock
    decreases contents_size(contents), 5nat,
{
    let (float, writes) = out_of_flow(context, style, display_inside, contents);
    FinishedBlock {
        block: BlockLevelBoxView::OutOfFlowFloatBox(float),
        contains_floats: ContainsFloats::Yes,
        outer_sizes: ContentSizes::zero(),
        writes,
    }
}

/// `b` with `inline`, built while making `writes`, added to the current
/// boxes and handed to `slot`.
pub open spec fn inline_level(
    b: BuilderView,
    inline: InlineLevelBoxView,
    writes: Seq<SlotWriteView>,
    slot: BoxSlot,
) -> BuilderView {
    let after = push_inline(b, inline);
    BuilderView {
        writes: written(after.writes + writes, slot, LayoutBoxView::InlineLevel(inline)),
        ..after
    }
}

/// `b` with `block`, handed to `slot`, added to the block-level boxes.
pub open spec fn block_level(b: BuilderView, block: FinishedBlock, slot: BoxSlot) -> BuilderView {
    BuilderView { blocks: b.blocks.push(with_slot(block, slot)), ..b }
}

/// The independent formatting context of a box of style `style`, and the
/// slot writes made inside it.  Its floats stay its own.
pub open spec fn independent<C: LayoutContext>(
    context: &C,
    style: ComputedStyle,
    display_inside: DisplayInside,
    contents: ContentsView,
    request: ContentSizesRequest,
) -> (IndependentFormattingContextView, Seq<SlotWriteView>)
    decreases contents_size(contents), 3nat,
{
    match contents {
        ContentsView::NonReplaced(children) => {
            let built = container(context, style, children, request);
            (
                IndependentFormattingContextView {
                    style,
                    content_sizes: built.content_sizes,
                    contents: IndependentContentsView::Flow(
                        BlockFormattingContextView {
                            contents: built.container,
                            contains_floats: built.contains_floats == ContainsFloats::Yes,
                        },
                    ),
                },
                built.writes,
            )
        },
        ContentsView::Replaced(replaced) => (
            IndependentFormattingContextView {
                style,
                content_sizes: request.answer(replaced.inline_content_sizes()),
                contents: IndependentContentsView::Replaced(replaced),
            },
            Seq::empty(),
        ),
    }
}

/// The formatting context of a float or an absolutely positioned box: its
/// sizes are asked for where its inline size is `auto`.
pub open spec fn out_of_flow<C: LayoutContext>(
    context: &C,
    style: ComputedStyle,
    display_inside: DisplayInside,
    contents: ContentsView,
) -> (IndependentFormattingContextView, Seq<SlotWriteView>)
    decreases contents_size(contents), 4nat,
{
    independent(
        context,
        style,
        display_inside,
        contents,
        ContentSizesRequest::inline_if(style.inline_size_is_auto()),
    )
}

/// The block box of an element whose children take part in the formatting
/// context of its container.
pub open spec fn same_formatting_context_block<C: LayoutContext>(
    context: &C,
    style: ComputedStyle,
    children: Seq<NodeView>,
    requested: bool,
) -> FinishedBlock
    decreases nodes_size(children), 3nat,
{
    let built = container(context, style, children, inner_request(requested, style));
    FinishedBlock {
        block: BlockLevelBoxView::SameFormattingContextBlock { style, contents: built.container },
        contains_floats: built.contains_floats,
        outer_sizes: outer_contribution(requested, built.content_sizes, style),
        writes: built.writes,
    }
}

/// The block-level box of an element that establishes its own formatting
/// context.
pub open spec fn independent_block<C: LayoutContext>(
    context: &C,
    style: ComputedStyle,
    display_inside: DisplayInside,
    contents: ContentsView,
    requested: bool,
) -> FinishedBlock
    decreases contents_size(contents), 4nat,
{
    let (built, writes) = independent(
        context,
        style,
        display_inside,
        contents,
        inner_request(requested, style),
    );
    FinishedBlock {
        block: BlockLevelBoxView::Independent(built),
        contains_floats: ContainsFloats::No,
        outer_sizes: outer_contribution(requested, built.content_sizes, built.style),
        writes,
    }
}


/// The walk closes every inline box that it opens, and leaves the style
/// and the request of the container alone.
pub proof fn lemma_walk_keeps_open_boxes<C: LayoutContext>(
    context: &C,
    b: BuilderView,
    children: Seq<NodeView>,
)
    ensures
        walk(context, b, children).stack.len() == b.stack.len(),
        walk(context, b, children).style == b.style,
        walk(context, b, children).requested == b.requested,
    decreases nodes_size(children), 1nat,
{
    if children.len() > 0 {
        assert(node_size(children.last()) >= 1);
        lemma_walk_keeps_open_boxes(context, b, children.drop_last());
        let before = walk(context, b, children.drop_last());
        lemma_node_keeps_open_boxes(context, before, children.last());
    }
}

/// One child leaves as many inline boxes open as it found.
pub proof fn lemma_node_keeps_open_boxes<C: LayoutContext>(
    context: &C,
    b: BuilderView,
    child: NodeView,
)
    ensures
        node(context, b, child).stack.len() == b.stack.len(),
        node(context, b, child).style == b.style,
        node(context, b, child).requested == b.requested,
    decreases node_size(child), 0nat,
{
    match child {
        NodeView::Text { .. } => {},
        NodeView::Element { style, display, contents, box_slot } => {
            lemma_element_keeps_open_boxes(context, b, style, display, contents, box_slot);
        },
    }
}

/// An element leaves as many inline boxes open as it found.
pub proof fn lemma_element_keeps_open_boxes<C: LayoutContext>(
    context: &C,
    b: BuilderView,
    style: ComputedStyle,
    display: DisplayGeneratingBox,
    contents: ContentsView,
    box_slot: BoxSlot,
)
    ensures
        element(context, b, style, display, contents, box_slot).stack.len() == b.stack.len(),
        element(context, b, style, display, contents, box_slot).style == b.style,
        element(context, b, style, display, contents, box_slot).requested == b.requested,
    decreases contents_size(contents), 2nat,
{
    match display {
        DisplayGeneratingBox::OutsideInside { outside, inside } => {
            let inline = inline_level_element(context, b, style, inside, contents);
            let positioned = absolutely_positioned_element(
                context,
                b,
                style,
                inside,
                contents,
                box_slot,
            );
            let float = float_element(context, b, style, inside, contents, box_slot);
            let block = block_level_element(context, b, style, inside, contents, box_slot);
            match contents {
                ContentsView::NonReplaced(nested) => {
                    lemma_walk_keeps_open_boxes(context, open_inline_box(b, style), nested);
                },
                _ => {},
            }
        },
    }
}

} // verus!
