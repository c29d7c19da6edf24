//! The state of the walk over the children of a block container: the
//! boxes found so far, and the steps that add to them.
use vstd::prelude::*;
use std::sync::Arc;
use crate::context::LayoutContext;
use crate::dom_traversal::{
    write_views,
    written,
    BoxSlot,
    Contents,
    NonReplacedContents,
    SlotWrite,
};
use crate::flow::{
    inline_views,
    ContainsFloats,
    InlineBox,
    InlineBoxView,
    InlineFormattingContext,
    InlineLevelBox,
    InlineLevelBoxView,
    LayoutBox,
    TextRun,
};
use crate::rules;
use crate::rules::{BuilderView, FinishedBlock};
use crate::sizing::ContentSizesRequest;
use crate::style::{arc_clone, style_of, ComputedStyle, DisplayInside};
use crate::whitespace;

verus! {

/// `Clone::clone` of `std::sync::Arc`: another pointer to the same value.
#[verifier::external_body]
pub(crate) fn arc_share<T>(shared: &Arc<T>) -> (other: Arc<T>)
    ensures
        other == *shared,
{
    Arc::clone(shared)
}

/// A block-level box that is still to be finished.
#[allow(inconsistent_fields)]
#[derive(Debug)]
pub enum IntermediateBlockLevelBox {
    SameFormattingContextBlock {
        style: servo_arc::Arc<ComputedStyle>,
        contents: IntermediateBlockContainer,
    },
    Independent {
        style: servo_arc::Arc<ComputedStyle>,
        display_inside: DisplayInside,
        contents: Contents,
    },
    OutOfFlowAbsolutelyPositionedBox {
        style: servo_arc::Arc<ComputedStyle>,
        display_inside: DisplayInside,
        contents: Contents,
    },
    OutOfFlowFloatBox {
        style: servo_arc::Arc<ComputedStyle>,
        display_inside: DisplayInside,
        contents: Contents,
    },
}

/// A block container that may still have to be built: the inline
/// formatting context of an anonymous block, or the children of an element.
#[derive(Debug)]
pub enum IntermediateBlockContainer {
    InlineFormattingContext(InlineFormattingContext),
    Deferred { contents: NonReplacedContents },
}

impl IntermediateBlockLevelBox {
    /// The box that `finish` makes of this one, in a container whose sizes
    /// are asked for or not.
    #[verifier::opaque]
    pub open spec fn finished<C: LayoutContext>(self, context: &C, requested: bool) -> FinishedBlock {
        match self {
            IntermediateBlockLevelBox::SameFormattingContextBlock { style, contents } => {
                match contents {
                    IntermediateBlockContainer::InlineFormattingContext(ifc) =>
                        rules::anonymous_block(context, style_of(style), ifc@, requested),
                    IntermediateBlockContainer::Deferred { contents } =>
                        rules::same_formatting_context_block(
                            context,
                            style_of(style),
                            contents@,
                            requested,
                        ),
                }
            },
            IntermediateBlockLevelBox::Independent { style, display_inside, contents } =>
                rules::independent_block(
                    context,
                    style_of(style),
                    display_inside,
                    contents@,
                    requested,
                ),
            IntermediateBlockLevelBox::OutOfFlowAbsolutelyPositionedBox {
                style,
                display_inside,
                contents,
            } => rules::absolutely_positioned_block(
                context,
                style_of(style),
                display_inside,
                contents@,
            ),
            IntermediateBlockLevelBox::OutOfFlowFloatBox { style, display_inside, contents } =>
                rules::float_block(context, style_of(style), display_inside, contents@),
        }
    }
}

/// The finished forms of `boxes`, each handed to its slot.
pub open spec fn finished_blocks<C: LayoutContext>(
    context: &C,
    boxes: Seq<(IntermediateBlockLevelBox, BoxSlot)>,
    requested: bool,
) -> Seq<FinishedBlock> {
    Seq::new(
        boxes.len(),
        |i: int| rules::with_slot(boxes[i].0.finished(context, requested), boxes[i].1),
    )
}

/// The finished forms of `boxes` with one more box at the end.
pub proof fn lemma_finished_blocks_push<C: LayoutContext>(
    context: &C,
    boxes: Seq<(IntermediateBlockLevelBox, BoxSlot)>,
    last: (IntermediateBlockLevelBox, BoxSlot),
    requested: bool,
)
    ensures
        finished_blocks(context, boxes.push(last), requested) == finished_blocks(
            context,
            boxes,
            requested,
        ).push(rules::with_slot(last.0.finished(context, requested), last.1)),
{
    assert(finished_blocks(context, boxes.push(last), requested) =~= finished_blocks(
        context,
        boxes,
        requested,
    ).push(rules::with_slot(last.0.finished(context, requested), last.1)));
}

/// The views of the open inline boxes of `stack`.
pub open spec fn stack_views(stack: Seq<InlineBox>) -> Seq<InlineBoxView> {
    Seq::new(stack.len(), |i: int| stack[i]@)
}

/// Whether whitespace after the last content of `boxes` is preserved, if
/// they hold content.
pub fn preceding_content_preserves(boxes: &Vec<Arc<InlineLevelBox>>) -> (r: Option<bool>)
    ensures
        r == rules::preceding_content_preserves(inline_views(boxes@)),
    decreases boxes,
{
    let ghost views = inline_views(boxes@);
    let mut i = boxes.len();
    assert(views.take(i as int) =~= views);
    while i > 0
        invariant
            i <= boxes.len(),
            views == inline_views(boxes@),
            rules::preceding_content_preserves(views) == rules::preceding_content_preserves(
                views.take(i as int),
            ),
        decreases i,
    {
        proof {
            assert(views.take(i as int).last() == views[i - 1]);
            assert(views.take(i as int).drop_last() =~= views.take(i - 1));
        }
        let last: &Arc<InlineLevelBox> = &boxes[i - 1];
        match &**last {
            InlineLevelBox::TextRun(run) => {
                return Some(!whitespace::ends_with_a_space(run.text.as_str()));
            },
            InlineLevelBox::Atomic(_) => {
                return Some(true);
            },
            InlineLevelBox::OutOfFlowAbsolutelyPositionedBox(_) => {},
            InlineLevelBox::OutOfFlowFloatBox(_) => {},
            InlineLevelBox::InlineBox(inline_box) => {
                match preceding_content_preserves(&inline_box.children) {
                    Some(preserved) => {
                        return Some(preserved);
                    },
                    None => {},
                }
            },
        }
        i = i - 1;
    }
    None
}

/// Adds text `piece` to `boxes`: to a text run at their end, or else as a
/// new text run of parent style `parent_style`.
pub fn push_text(
    boxes: &mut Vec<Arc<InlineLevelBox>>,
    piece: &str,
    parent_style: &servo_arc::Arc<ComputedStyle>,
)
    ensures
        inline_views(final(boxes)@) == rules::with_text(
            inline_views(old(boxes)@),
            piece@,
            style_of(*parent_style),
        ),
{
    let ghost before = inline_views(boxes@);
    let count = boxes.len();
    let mut extended: Option<TextRun> = None;
    if count > 0 {
        let last: &Arc<InlineLevelBox> = &boxes[count - 1];
        match &**last {
            InlineLevelBox::TextRun(run) => {
                let mut text = run.text.clone();
                text.append(piece);
                extended = Some(TextRun { parent_style: arc_clone(&run.parent_style), text });
            },
            _ => {},
        }
    }
    match extended {
        Some(run) => {
            boxes.pop();
            boxes.push(Arc::new(InlineLevelBox::TextRun(run)));
            assert(inline_views(boxes@) =~= rules::with_text(
                before,
                piece@,
                style_of(*parent_style),
            ));
        },
        None => {
            let text = piece.to_owned();
            boxes.push(
                Arc::new(
                    InlineLevelBox::TextRun(TextRun { parent_style: arc_clone(parent_style), text }),
                ),
            );
            assert(inline_views(boxes@) =~= rules::with_text(
                before,
                piece@,
                style_of(*parent_style),
            ));
        },
    }
}

/// A builder for a block container.
///
/// It is handed the children of a box in document order, and keeps the
/// block-level boxes found so far, the ongoing inline formatting context
/// and the inline boxes that are open.
pub struct BlockContainerBuilder<'a, C: LayoutContext> {
    context: &'a C,
    block_container_style: &'a servo_arc::Arc<ComputedStyle>,
    content_sizes: ContentSizesRequest,
    /// The block-level boxes of the container, each with the slot of its
    /// element.  They are pushed as they are found, without being walked.
    block_level_boxes: Vec<(IntermediateBlockLevelBox, BoxSlot)>,
    /// The inline-level boxes found since the last block-level box.
    ongoing_inline_formatting_context: InlineFormattingContext,
    /// The inline boxes that the walk is inside of, the outermost first.
    ongoing_inline_boxes_stack: Vec<InlineBox>,
    /// The style of the anonymous blocks of this container, once looked up.
    anonymous_style: Option<servo_arc::Arc<ComputedStyle>>,
    contains_floats: ContainsFloats,
    /// The boxes handed to slots so far.
    slot_writes: Vec<SlotWrite>,
}

impl<'a, C: LayoutContext> View for BlockContainerBuilder<'a, C> {
    type V = BuilderView;

    closed spec fn view(&self) -> BuilderView {
        self.state()
    }
}

impl<'a, C: LayoutContext> BlockContainerBuilder<'a, C> {
    /// What the fields stand for.
    #[verifier::opaque]
    closed spec fn state(&self) -> BuilderView {
        BuilderView {
            style: style_of(*self.block_container_style),
            requested: self.content_sizes.requests_inline(),
            blocks: finished_blocks(
                self.context,
                self.block_level_boxes@,
                self.content_sizes.requests_inline(),
            ),
            ongoing: self.ongoing_inline_formatting_context@,
            stack: stack_views(self.ongoing_inline_boxes_stack@),
            anonymous_style: match self.anonymous_style {
                Some(style) => Some(style_of(style)),
                None => None,
            },
            contains_floats: self.contains_floats,
            writes: write_views(self.slot_writes@),
        }
    }

    /// The layout context that the builder was made with.
    pub closed spec fn context(&self) -> &C {
        self.context
    }

    /// The layout context that the builder was made with.
    pub(crate) fn layout_context(&self) -> (context: &'a C)
        ensures
            context == self.context(),
    {
        self.context
    }

    /// A builder for the children of a box of style `block_container_style`.
    pub fn new(
        context: &'a C,
        block_container_style: &'a servo_arc::Arc<ComputedStyle>,
        content_sizes: ContentSizesRequest,
    ) -> (builder: Self)
        ensures
            builder@ == rules::start(style_of(*block_container_style), content_sizes),
            builder.context() == context,
    {
        proof {
            reveal(BlockContainerBuilder::state);
        }
        let builder = BlockContainerBuilder {
            context,
            block_container_style,
            content_sizes,
            block_level_boxes: Vec::new(),
            ongoing_inline_formatting_context: InlineFormattingContext {
                inline_level_boxes: Vec::new(),
            },
            ongoing_inline_boxes_stack: Vec::new(),
            anonymous_style: None,
            contains_floats: ContainsFloats::No,
            slot_writes: Vec::new(),
        };
        assert(builder@.blocks =~= Seq::empty());
        assert(builder@.ongoing =~= Seq::empty());
        assert(builder@.stack =~= Seq::empty());
        assert(builder@.writes =~= Seq::empty());
        builder
    }

    /// Whether inline-level content is under way.
    pub fn has_ongoing_inline_formatting_context(&self) -> (r: bool)
        ensures
            r == rules::has_ongoing_inline_formatting_context(self@),
    {
        proof {
            reveal(BlockContainerBuilder::state);
        }
        !self.ongoing_inline_formatting_context.inline_level_boxes.is_empty()
            || !self.ongoing_inline_boxes_stack.is_empty()
    }

    /// The boxes to which the next inline-level box is added.
    pub fn current_inline_level_boxes(&self) -> (boxes: &Vec<Arc<InlineLevelBox>>)
        ensures
            inline_views(boxes@) == rules::current(self@),
    {
        proof {
            reveal(BlockContainerBuilder::state);
        }
        let depth = self.ongoing_inline_boxes_stack.len();
        if depth > 0 {
            &self.ongoing_inline_boxes_stack[depth - 1].children
        } else {
            &self.ongoing_inline_formatting_context.inline_level_boxes
        }
    }

    /// Whether whitespace after the content that comes before the place of
    /// the walk is preserved, if there is such content.
    pub fn preceding_content_preserves(&self) -> (r: Option<bool>)
        ensures
            r == rules::preceding_in_open_boxes(self@.stack, self@.ongoing),
    {
        proof {
            reveal(BlockContainerBuilder::state);
        }
        let ghost stack = stack_views(self.ongoing_inline_boxes_stack@);
        let ghost ongoing = self.ongoing_inline_formatting_context@;
        let mut depth = self.ongoing_inline_boxes_stack.len();
        assert(stack.take(depth as int) =~= stack);
        while depth > 0
            invariant
                depth <= self.ongoing_inline_boxes_stack.len(),
                stack == stack_views(self.ongoing_inline_boxes_stack@),
                stack == self@.stack,
                ongoing == self@.ongoing,
                rules::preceding_in_open_boxes(stack, ongoing) == rules::preceding_in_open_boxes(
                    stack.take(depth as int),
                    ongoing,
                ),
            decreases depth,
        {
            proof {
                assert(stack.take(depth as int).last() == stack[depth - 1]);
                assert(stack.take(depth as int).drop_last() =~= stack.take(depth - 1));
                assert(stack[depth - 1].children == inline_views(
                    self.ongoing_inline_boxes_stack@[depth - 1].children@,
                ));
            }
            let found = preceding_content_preserves(
                &self.ongoing_inline_boxes_stack[depth - 1].children,
            );
            assert(found == rules::preceding_content_preserves(
                stack.take(depth as int).last().children,
            ));
            match found {
                Some(preserved) => {
                    return Some(preserved);
                },
                None => {},
            }
            depth = depth - 1;
        }
        assert(stack.take(0) =~= Seq::empty());
        preceding_content_preserves(&self.ongoing_inline_formatting_context.inline_level_boxes)
    }

    /// Adds `inline` to the current boxes.
    pub(crate) fn push_inline_level_box(&mut self, inline: Arc<InlineLevelBox>)
        ensures
            final(self)@ == rules::push_inline(old(self)@, inline@),
            final(self).context() == old(self).context(),
    {
        proof {
            reveal(BlockContainerBuilder::state);
        }
        match self.ongoing_inline_boxes_stack.pop() {
            Some(mut innermost) => {
                innermost.children.push(inline);
                self.ongoing_inline_boxes_stack.push(innermost);
                proof {
                    let depth = old(self).ongoing_inline_boxes_stack@.len();
                    let before = old(self).ongoing_inline_boxes_stack@.last();
                    assert(inline_views(innermost.children@) =~= inline_views(
                        before.children@,
                    ).push(inline@));
                    assert(self@.stack =~= rules::push_inline(old(self)@, inline@).stack);
                }
            },
            None => {
                self.ongoing_inline_formatting_context.inline_level_boxes.push(inline);
                proof {
                    assert(self@.ongoing =~= rules::push_inline(old(self)@, inline@).ongoing);
                    assert(self@.stack =~= rules::push_inline(old(self)@, inline@).stack);
                }
            },
        }
    }

    /// Ends the ongoing inline formatting context: unless it is empty, it
    /// becomes an anonymous block, which is handed to no slot.
    #[verifier::rlimit(60)]
    pub fn end_ongoing_inline_formatting_context(&mut self)
        ensures
            final(self)@ == rules::end_ongoing(old(self).context(), old(self)@),
            final(self).context() == old(self).context(),
    {
        proof {
            reveal(BlockContainerBuilder::state);
        }
        if self.ongoing_inline_formatting_context.inline_level_boxes.is_empty() {
            // There is never an empty inline formatting context.
            return ;
        }
        if self.anonymous_style.is_none() {
            self.anonymous_style = Some(
                self.context.style_for_anonymous(self.block_container_style),
            );
        }
        let style = match &self.anonymous_style {
            Some(style) => arc_clone(style),
            None => vstd::pervasive::unreached(),
        };
        let mut inline_level_boxes: Vec<Arc<InlineLevelBox>> = Vec::new();
        std::mem::swap(
            &mut inline_level_boxes,
            &mut self.ongoing_inline_formatting_context.inline_level_boxes,
        );
        let anonymous = IntermediateBlockLevelBox::SameFormattingContextBlock {
            style,
            contents: IntermediateBlockContainer::InlineFormattingContext(
                InlineFormattingContext { inline_level_boxes },
            ),
        };
        let no_slot = BoxSlot::dummy();
        proof {
            lemma_finished_blocks_push(
                self.context,
                self.block_level_boxes@,
                (anonymous, no_slot),
                self.content_sizes.requests_inline(),
            );
            assert(inline_views(Seq::<Arc<InlineLevelBox>>::empty()) =~= Seq::empty());
            let requested = self.content_sizes.requests_inline();
            assert(anonymous.finished(self.context, requested) == rules::anonymous_block(
                self.context,
                style_of(style),
                old(self)@.ongoing,
                requested,
            )) by {
                reveal(IntermediateBlockLevelBox::finished);
            }
        }
        self.block_level_boxes.push((anonymous, no_slot));
    }

    /// Splits the open inline boxes around a block-level box.  Each leaves
    /// a fragment with what it holds so far; the fragments, nested as the
    /// boxes are, join the ongoing inline formatting context.  The boxes
    /// stay open, empty, for what follows the block.
    #[verifier::rlimit(60)]
    pub(crate) fn split_ongoing_inline_boxes(&mut self)
        ensures
            final(self)@ == rules::split_inline_boxes(old(self)@),
            final(self).context() == old(self).context(),
    {
        proof {
            reveal(BlockContainerBuilder::state);
        }
        let ghost open = stack_views(self.ongoing_inline_boxes_stack@);
        let ghost depth = open.len() as int;
        let mut continued: Vec<InlineBox> = Vec::new();
        let mut fragment: Option<InlineBox> = None;
        while self.ongoing_inline_boxes_stack.len() > 0
            invariant
                depth == open.len(),
                self.ongoing_inline_boxes_stack@.len() <= depth,
                continued@.len() == depth - self.ongoing_inline_boxes_stack@.len(),
                stack_views(self.ongoing_inline_boxes_stack@) == open.take(
                    self.ongoing_inline_boxes_stack@.len() as int,
                ),
                stack_views(continued@) == rules::continued(open).skip(
                    self.ongoing_inline_boxes_stack@.len() as int,
                ),
                (fragment is Some) == (self.ongoing_inline_boxes_stack@.len() < depth),
                fragment is Some ==> fragment->0@ == rules::nested_fragment(
                    open,
                    self.ongoing_inline_boxes_stack@.len() as int,
                ),
                self.context == old(self).context,
                self.block_container_style == old(self).block_container_style,
                self.content_sizes == old(self).content_sizes,
                self.block_level_boxes == old(self).block_level_boxes,
                self.ongoing_inline_formatting_context == old(self).ongoing_inline_formatting_context,
                self.anonymous_style == old(self).anonymous_style,
                self.contains_floats == old(self).contains_floats,
                self.slot_writes == old(self).slot_writes,
            decreases self.ongoing_inline_boxes_stack@.len(),
        {
            let ghost k = self.ongoing_inline_boxes_stack@.len() - 1;
            let ghost before = self.ongoing_inline_boxes_stack@;
            let ghost continued_before = continued@;
            let ongoing = match self.ongoing_inline_boxes_stack.pop() {
                Some(ongoing) => ongoing,
                None => vstd::pervasive::unreached(),
            };
            assert(ongoing@ == open[k]) by {
                assert(stack_views(before)[k] == open.take(k + 1)[k]);
            }
            let InlineBox { style, first_fragment, last_fragment, children } = ongoing;
            let mut children = children;
            let ghost held = inline_views(children@);
            match fragment {
                Some(inner) => {
                    children.push(Arc::new(InlineLevelBox::InlineBox(inner)));
                    assert(inline_views(children@) =~= held.push(
                        InlineLevelBoxView::InlineBox(rules::nested_fragment(open, k + 1)),
                    ));
                },
                None => {},
            }
            // The fragment before the block is not the last one.
            let fragmented = InlineBox {
                style: arc_clone(&style),
                first_fragment,
                last_fragment: false,
                children,
            };
            assert(fragmented@ == rules::nested_fragment(open, k));
            fragment = Some(fragmented);
            continued.insert(
                0,
                InlineBox { style, first_fragment: false, last_fragment, children: Vec::new() },
            );
            proof {
                assert(stack_views(self.ongoing_inline_boxes_stack@) =~= open.take(k));
                assert(inline_views(Seq::<Arc<InlineLevelBox>>::empty()) =~= Seq::empty());
                assert(continued@[0]@ == rules::continued(open)[k]);
                assert forall|i: int| 0 <= i < continued@.len() implies stack_views(continued@)[i]
                    == rules::continued(open).skip(k)[i] by {
                    assert(rules::continued(open).skip(k)[i] == rules::continued(open)[k + i]);
                    if i > 0 {
                        assert(continued@[i] == continued_before[i - 1]);
                        assert(rules::continued(open).skip(k + 1)[i - 1] == rules::continued(
                            open,
                        )[k + i]);
                        assert(stack_views(continued_before)[i - 1] == rules::continued(open).skip(
                            k + 1,
                        )[i - 1]);
                    }
                }
                assert(stack_views(continued@) =~= rules::continued(open).skip(k));
            }
        }
        self.ongoing_inline_boxes_stack = continued;
        match fragment {
            Some(outermost) => {
                self.ongoing_inline_formatting_context.inline_level_boxes.push(
                    Arc::new(InlineLevelBox::InlineBox(outermost)),
                );
                proof {
                    let after = rules::split_inline_boxes(old(self)@);
                    assert(rules::continued(open).skip(0) =~= rules::continued(open));
                    assert(self@.ongoing =~= after.ongoing);
                }
            },
            None => {
                proof {
                    assert(open.take(0) =~= Seq::empty());
                    assert(self@.stack =~= old(self)@.stack);
                }
            },
        }
    }

    /// Defers a block-level box: it joins the block-level boxes, with the
    /// slot that it is handed to once it is finished.
    pub(crate) fn defer(&mut self, deferred: IntermediateBlockLevelBox, box_slot: BoxSlot)
        ensures
            final(self)@ == rules::block_level(
                old(self)@,
                deferred.finished(old(self).context(), old(self)@.requested),
                box_slot,
            ),
            final(self).context() == old(self).context(),
    {
        proof {
            reveal(BlockContainerBuilder::state);
            lemma_finished_blocks_push(
                self.context,
                self.block_level_boxes@,
                (deferred, box_slot),
                self.content_sizes.requests_inline(),
            );
        }
        self.block_level_boxes.push((deferred, box_slot));
    }

    /// Notes that the container contains a float.
    pub(crate) fn found_float(&mut self)
        ensures
            final(self)@ == (BuilderView { contains_floats: ContainsFloats::Yes, ..old(self)@ }),
            final(self).context() == old(self).context(),
    {
        proof {
            reveal(BlockContainerBuilder::state);
        }
        self.contains_floats = ContainsFloats::Yes;
    }

    /// Adds text `piece` to the current boxes: to a text run at their end,
    /// or else as a new text run of parent style `parent_style`.
    pub(crate) fn push_text(&mut self, piece: &str, parent_style: &servo_arc::Arc<ComputedStyle>)
        ensures
            final(self)@ == rules::with_current(
                old(self)@,
                rules::with_text(rules::current(old(self)@), piece@, style_of(*parent_style)),
            ),
            final(self).context() == old(self).context(),
    {
        proof {
            reveal(BlockContainerBuilder::state);
        }
        let ghost after = rules::with_current(
            self@,
            rules::with_text(rules::current(self@), piece@, style_of(*parent_style)),
        );
        match self.ongoing_inline_boxes_stack.pop() {
            Some(mut innermost) => {
                push_text(&mut innermost.children, piece, parent_style);
                self.ongoing_inline_boxes_stack.push(innermost);
                assert(self@.stack =~= after.stack);
            },
            None => {
                push_text(
                    &mut self.ongoing_inline_formatting_context.inline_level_boxes,
                    piece,
                    parent_style,
                );
                assert(self@.stack =~= after.stack);
            },
        }
    }

    /// Opens an inline box of style `style`: what follows joins it until it
    /// is closed.
    pub(crate) fn open_inline_box(&mut self, style: &servo_arc::Arc<ComputedStyle>)
        ensures
            final(self)@ == rules::open_inline_box(old(self)@, style_of(*style)),
            final(self).context() == old(self).context(),
    {
        proof {
            reveal(BlockContainerBuilder::state);
        }
        self.ongoing_inline_boxes_stack.push(
            InlineBox {
                style: arc_clone(style),
                first_fragment: true,
                last_fragment: false,
                children: Vec::new(),
            },
        );
        proof {
            assert(inline_views(Seq::<Arc<InlineLevelBox>>::empty()) =~= Seq::empty());
            assert(self@.stack =~= rules::open_inline_box(old(self)@, style_of(*style)).stack);
        }
    }

    /// Closes the innermost open inline box, and returns it as the last
    /// fragment of its element.
    pub(crate) fn close_inline_box(&mut self) -> (closed: InlineBox)
        requires
            old(self)@.stack.len() > 0,
        ensures
            closed@ == (InlineBoxView { last_fragment: true, ..old(self)@.stack.last() }),
            final(self)@ == (BuilderView { stack: old(self)@.stack.drop_last(), ..old(self)@ }),
            final(self).context() == old(self).context(),
    {
        proof {
            reveal(BlockContainerBuilder::state);
        }
        let mut inline_box = match self.ongoing_inline_boxes_stack.pop() {
            Some(inline_box) => inline_box,
            None => vstd::pervasive::unreached(),
        };
        inline_box.last_fragment = true;
        assert(self@.stack =~= old(self)@.stack.drop_last());
        inline_box
    }

    /// Takes in slot writes that were made while a box was built.
    pub(crate) fn record_writes(&mut self, writes: Vec<SlotWrite>)
        ensures
            final(self)@ == (BuilderView {
                writes: old(self)@.writes + write_views(writes@),
                ..old(self)@
            }),
            final(self).context() == old(self).context(),
    {
        proof {
            reveal(BlockContainerBuilder::state);
        }
        let mut writes = writes;
        let ghost made = write_views(writes@);
        self.slot_writes.append(&mut writes);
        assert(write_views(self.slot_writes@) =~= old(self)@.writes + made);
    }

    /// Hands `layout_box` to `box_slot`.
    pub(crate) fn hand_to_slot(&mut self, box_slot: BoxSlot, layout_box: LayoutBox)
        ensures
            final(self)@ == (BuilderView {
                writes: written(old(self)@.writes, box_slot, layout_box@),
                ..old(self)@
            }),
            final(self).context() == old(self).context(),
    {
        proof {
            reveal(BlockContainerBuilder::state);
        }
        box_slot.set(layout_box, &mut self.slot_writes);
    }

    /// Whether the boxes found are inline-level boxes and nothing else.
    pub(crate) fn holds_inline_level_boxes_only(&self) -> (r: bool)
        ensures
            r == (self@.ongoing.len() > 0 && self@.blocks.len() == 0),
    {
        proof {
            reveal(BlockContainerBuilder::state);
        }
        !self.ongoing_inline_formatting_context.inline_level_boxes.is_empty()
            && self.block_level_boxes.is_empty()
    }

    /// The ongoing inline formatting context, with what the walk noted
    /// beside it.
    pub fn into_inline_formatting_context(self) -> (r: (
        InlineFormattingContext,
        ContainsFloats,
        Vec<SlotWrite>,
    ))
        ensures
            r.0@ == self@.ongoing,
            r.1 == self@.contains_floats,
            write_views(r.2@) == self@.writes,
    {
        proof {
            reveal(BlockContainerBuilder::state);
        }
        let BlockContainerBuilder {
            ongoing_inline_formatting_context,
            contains_floats,
            slot_writes,
            ..
        } = self;
        (ongoing_inline_formatting_context, contains_floats, slot_writes)
    }

    /// The deferred block-level boxes, with what the walk noted beside
    /// them.
    pub fn into_block_level_boxes(self) -> (r: (
        Vec<(IntermediateBlockLevelBox, BoxSlot)>,
        ContainsFloats,
        Vec<SlotWrite>,
    ))
        ensures
            finished_blocks(self.context(), r.0@, self@.requested) == self@.blocks,
            r.1 == self@.contains_floats,
            write_views(r.2@) == self@.writes,
    {
        proof {
            reveal(BlockContainerBuilder::state);
        }
        let BlockContainerBuilder { block_level_boxes, contains_floats, slot_writes, .. } = self;
        (block_level_boxes, contains_floats, slot_writes)
    }
}

} // verus!
