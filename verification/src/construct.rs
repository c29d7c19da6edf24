//! Construction of block containers: what the builder does with each
//! child, and the finishing of the block-level boxes that it defers.
use vstd::prelude::*;
use std::sync::Arc;
use crate::builder::{
    arc_share,
    BlockContainerBuilder,
    IntermediateBlockContainer,
    IntermediateBlockLevelBox,
};
use crate::context::LayoutContext;
use crate::finish::{collect_finished, finish_in_parallel, Target};
use crate::dom_traversal::{
    contents_size,
    lemma_node_size_in_nodes,
    node_size,
    node_views,
    nodes_size,
    write_views,
    BoxSlot,
    Contents,
    Element,
    Node,
    NodeView,
    NonReplacedContents,
    SlotWrite,
};
use crate::flow::{
    AbsolutelyPositionedBox,
    BlockContainer,
    BlockFormattingContext,
    BlockFormattingContextView,
    ContainsFloats,
    FloatBox,
    IndependentFormattingContext,
    IndependentFormattingContextContents,
    InlineLevelBox,
    InlineLevelBoxView,
    LayoutBox,
};
use crate::rules;
use crate::sizing::{BoxContentSizes, ContentSizes, ContentSizesRequest};
use crate::style::{
    arc_clone,
    arc_deref,
    style_of,
    ComputedStyle,
    DisplayGeneratingBox,
    DisplayInside,
    DisplayOutside,
};
use crate::whitespace;

verus! {

impl<'a, C: LayoutContext> BlockContainerBuilder<'a, C> {
    /// Whether the leading whitespace of `text` is preserved, and `text`
    /// from its first character that is not whitespace.
    pub fn handle_leading_whitespace<'t>(&self, text: &'t str) -> (r: (bool, &'t str))
        ensures
            r.0 == rules::leading_whitespace_preserved(self@, text@),
            r.1@ == whitespace::trim_start(text@),
    {
        if !whitespace::begins_with_whitespace(text) {
            proof {
                whitespace::lemma_trim_start(text@);
            }
            return (false, text);
        }
        let preserved = match self.preceding_content_preserves() {
            Some(preserved) => preserved,
            // Nothing comes before: the text starts its line.
            None => false,
        };
        (preserved, whitespace::trim_leading_whitespace(text))
    }

    /// A text node: its text, collapsed, joins the current boxes.
    pub fn handle_text(&mut self, input: String, parent_style: &servo_arc::Arc<ComputedStyle>)
        ensures
            final(self)@ == rules::text(old(self)@, input@, style_of(*parent_style)),
            final(self).context() == old(self).context(),
    {
        let (leading_whitespace, rest) = self.handle_leading_whitespace(input.as_str());
        if leading_whitespace || !rest.is_empty() {
            let mut piece = String::new();
            if leading_whitespace {
                whitespace::string_push(&mut piece, ' ');
            }
            whitespace::push_collapsed(&mut piece, rest);
            proof {
                whitespace::lemma_trim_start(input@);
                whitespace::lemma_trim_start(rest@);
                assert(piece@ =~= whitespace::collapsed_text(input@, leading_whitespace));
            }
            self.push_text(piece.as_str(), parent_style);
        }
    }

    /// A block-level element in normal flow.  Its box is deferred: the
    /// children are not walked here.
    #[verifier::rlimit(60)]
    pub fn handle_block_level_element(
        &mut self,
        style: servo_arc::Arc<ComputedStyle>,
        display_inside: DisplayInside,
        contents: Contents,
        box_slot: BoxSlot,
    )
        ensures
            final(self)@ == rules::block_level_element(
                old(self).context(),
                old(self)@,
                style_of(style),
                display_inside,
                contents@,
                box_slot,
            ),
            final(self).context() == old(self).context(),
    {
        // The open inline boxes are split around the block, and the ongoing
        // inline formatting context ends before it.
        self.split_ongoing_inline_boxes();
        self.end_ongoing_inline_formatting_context();
        let intermediate_box = match contents {
            Contents::NonReplaced(contents) => match display_inside {
                DisplayInside::Flow => IntermediateBlockLevelBox::SameFormattingContextBlock {
                    style,
                    contents: IntermediateBlockContainer::Deferred { contents },
                },
                DisplayInside::FlowRoot => IntermediateBlockLevelBox::Independent {
                    style,
                    display_inside,
                    contents: Contents::NonReplaced(contents),
                },
            },
            Contents::Replaced(replaced) => IntermediateBlockLevelBox::Independent {
                style,
                display_inside,
                contents: Contents::Replaced(replaced),
            },
        };
        proof {
            assert(intermediate_box.finished(self.context(), self@.requested)
                == rules::in_flow_block(
                self.context(),
                style_of(style),
                display_inside,
                contents@,
                self@.requested,
            )) by {
                reveal(IntermediateBlockLevelBox::finished);
            }
        }
        self.defer(intermediate_box, box_slot);
    }

    /// An absolutely positioned element.  Where no inline formatting
    /// context is ongoing its box is deferred as a block-level box; else it
    /// is built at once, as an inline-level box.
    #[verifier::rlimit(60)]
    pub fn handle_absolutely_positioned_element(
        &mut self,
        style: servo_arc::Arc<ComputedStyle>,
        display_inside: DisplayInside,
        contents: Contents,
        box_slot: BoxSlot,
    )
        ensures
            final(self)@ == rules::absolutely_positioned_element(
                old(self).context(),
                old(self)@,
                style_of(style),
                display_inside,
                contents@,
                box_slot,
            ),
            final(self).context() == old(self).context(),
        decreases contents_size(contents@), 6nat,
    {
        if !self.has_ongoing_inline_formatting_context() {
            let deferred = IntermediateBlockLevelBox::OutOfFlowAbsolutelyPositionedBox {
                style,
                display_inside,
                contents,
            };
            proof {
                assert(deferred.finished(self.context(), self@.requested)
                    == rules::absolutely_positioned_block(
                    self.context(),
                    style_of(style),
                    display_inside,
                    contents@,
                )) by {
                    reveal(IntermediateBlockLevelBox::finished);
                }
            }
            self.defer(deferred, box_slot);
        } else {
            let (positioned, writes) = AbsolutelyPositionedBox::construct(
                self.layout_context(),
                style,
                display_inside,
                contents,
            );
            let inline = InlineLevelBox::OutOfFlowAbsolutelyPositionedBox(positioned);
            assert(inline@ == InlineLevelBoxView::OutOfFlowAbsolutelyPositionedBox(
                rules::out_of_flow(self.context(), style_of(style), display_inside, contents@).0,
            ));
            self.push_built_inline_level_box(inline, writes, box_slot);
        }
    }

    /// A float.  The container contains floats from here on; the box is
    /// placed as that of an absolutely positioned element is.
    #[verifier::rlimit(60)]
    pub fn handle_float_element(
        &mut self,
        style: servo_arc::Arc<ComputedStyle>,
        display_inside: DisplayInside,
        contents: Contents,
        box_slot: BoxSlot,
    )
        ensures
            final(self)@ == rules::float_element(
                old(self).context(),
                old(self)@,
                style_of(style),
                display_inside,
                contents@,
                box_slot,
            ),
            final(self).context() == old(self).context(),
        decreases contents_size(contents@), 6nat,
    {
        self.found_float();
        if !self.has_ongoing_inline_formatting_context() {
            let deferred = IntermediateBlockLevelBox::OutOfFlowFloatBox {
                style,
                display_inside,
                contents,
            };
            proof {
                assert(deferred.finished(self.context(), self@.requested) == rules::float_block(
                    self.context(),
                    style_of(style),
                    display_inside,
                    contents@,
                )) by {
                    reveal(IntermediateBlockLevelBox::finished);
                }
            }
            self.defer(deferred, box_slot);
        } else {
            let (float, writes) = FloatBox::construct(
                self.layout_context(),
                style,
                display_inside,
                contents,
            );
            let inline = InlineLevelBox::OutOfFlowFloatBox(float);
            assert(inline@ == InlineLevelBoxView::OutOfFlowFloatBox(
                rules::out_of_flow(self.context(), style_of(style), display_inside, contents@).0,
            ));
            self.push_built_inline_level_box(inline, writes, box_slot);
        }
    }

    /// An inline-level element; returns its box, which has joined the
    /// current boxes.
    #[verifier::rlimit(60)]
    pub fn handle_inline_level_element(
        &mut self,
        style: &servo_arc::Arc<ComputedStyle>,
        display_inside: DisplayInside,
        contents: Contents,
    ) -> (inline: Arc<InlineLevelBox>)
        ensures
            (final(self)@, inline@) == rules::inline_level_element(
                old(self).context(),
                old(self)@,
                style_of(*style),
                display_inside,
                contents@,
            ),
            final(self).context() == old(self).context(),
        decreases contents_size(contents@), 6nat,
    {
        let inline = match contents {
            Contents::NonReplaced(children) if display_inside == DisplayInside::Flow => {
                // An inline box: it stays open while its children are walked.
                self.open_inline_box(style);
                proof {
                    rules::lemma_walk_keeps_open_boxes(self.context(), self@, children@);
                }
                children.traverse(self);
                let inline_box = self.close_inline_box();
                Arc::new(InlineLevelBox::InlineBox(inline_box))
            },
            contents => {
                let (atomic, writes) = IndependentFormattingContext::construct(
                    self.layout_context(),
                    arc_clone(style),
                    display_inside,
                    contents,
                    ContentSizesRequest::inline_if(arc_deref(style).inline_size_is_auto()),
                );
                self.record_writes(writes);
                Arc::new(InlineLevelBox::Atomic(atomic))
            },
        };
        self.push_inline_level_box(arc_share(&inline));
        inline
    }

    /// An element, by its display.
    pub fn handle_element(
        &mut self,
        style: &servo_arc::Arc<ComputedStyle>,
        display: DisplayGeneratingBox,
        contents: Contents,
        box_slot: BoxSlot,
    )
        ensures
            final(self)@ == rules::element(
                old(self).context(),
                old(self)@,
                style_of(*style),
                display,
                contents@,
                box_slot,
            ),
            final(self).context() == old(self).context(),
        decreases contents_size(contents@), 7nat,
    {
        match display {
            DisplayGeneratingBox::OutsideInside { outside, inside } => match outside {
                DisplayOutside::Inline => {
                    let inline = self.handle_inline_level_element(style, inside, contents);
                    self.hand_to_slot(box_slot, LayoutBox::InlineLevel(inline));
                },
                DisplayOutside::Block => {
                    let computed = arc_deref(style);
                    // Floats and absolutely positioned boxes are blockified,
                    // so they are met in this case only.
                    if computed.position.is_absolutely_positioned() {
                        self.handle_absolutely_positioned_element(
                            arc_clone(style),
                            inside,
                            contents,
                            box_slot,
                        )
                    } else if computed.float.is_floating() {
                        self.handle_float_element(arc_clone(style), inside, contents, box_slot)
                    } else {
                        self.handle_block_level_element(arc_clone(style), inside, contents, box_slot)
                    }
                },
            },
        }
    }

    /// Adds an out-of-flow box, built while making `writes`, to the current
    /// boxes and hands it to `box_slot`.
    fn push_built_inline_level_box(
        &mut self,
        inline: InlineLevelBox,
        writes: Vec<SlotWrite>,
        box_slot: BoxSlot,
    )
        ensures
            final(self)@ == rules::inline_level(
                old(self)@,
                inline@,
                write_views(writes@),
                box_slot,
            ),
            final(self).context() == old(self).context(),
    {
        let shared = Arc::new(inline);
        self.push_inline_level_box(arc_share(&shared));
        self.record_writes(writes);
        self.hand_to_slot(box_slot, LayoutBox::InlineLevel(shared));
    }
}

impl NonReplacedContents {
    /// Hands the children to `builder`, in document order.
    #[verifier::rlimit(60)]
    pub fn traverse<'a, C: LayoutContext>(
        self,
        builder: &mut BlockContainerBuilder<'a, C>,
    )
        ensures
            final(builder)@ == rules::walk(
                old(builder).context(),
                old(builder)@,
                self@,
            ),
            final(builder).context() == old(builder).context(),
        decreases nodes_size(self@), 1nat,
    {
        let ghost views = self@;
        let ghost context = builder.context();
        let ghost before = builder@;
        let ghost nodes = self.children@;
        assert(views.take(0) =~= Seq::empty());
        for child in it: self.children
            invariant
                it.seq() == nodes,
                views == node_views(nodes),
                builder.context() == context,
                builder@ == rules::walk(
                    context,
                    before,
                    views.take(it.index()),
                ),
        {
            let ghost i = it.index();
            let ghost walked = builder@;
            proof {
                assert(views.take(i + 1).drop_last() =~= views.take(i));
                assert(views.take(i + 1).last() == views[i]);
                assert(child@ == views[i]);
                lemma_node_size_in_nodes(views, i);
                assert(rules::walk(context, before, views.take(i + 1)) == rules::node(
                    context,
                    walked,
                    views[i],
                ));
            }
            match child {
                Node::Text(text, parent_style) => builder.handle_text(text, &parent_style),
                Node::Element(element) => {
                    let Element { style, display, contents, box_slot } = element;
                    builder.handle_element(&style, display, contents, box_slot)
                },
            }
            assert(builder@ == rules::node(context, walked, views[i]));
        }
        assert(views.take(views.len() as int) =~= views);
    }
}

impl FloatBox {
    /// The box of a float: its sizes are asked for where its inline size is
    /// `auto`.
    pub fn construct<C: LayoutContext>(
        context: &C,
        style: servo_arc::Arc<ComputedStyle>,
        display_inside: DisplayInside,
        contents: Contents,
    ) -> (r: (Self, Vec<SlotWrite>))
        ensures
            (r.0@, write_views(r.1@)) == rules::out_of_flow(
                context,
                style_of(style),
                display_inside,
                contents@,
            ),
        decreases contents_size(contents@), 5nat,
    {
        let content_sizes = ContentSizesRequest::inline_if(arc_deref(&style).inline_size_is_auto());
        let (contents, writes) = IndependentFormattingContext::construct(
            context,
            style,
            display_inside,
            contents,
            content_sizes,
        );
        (FloatBox { contents }, writes)
    }
}

impl AbsolutelyPositionedBox {
    /// The box of an absolutely positioned element: its sizes are asked for
    /// where its inline size is `auto`.
    pub fn construct<C: LayoutContext>(
        context: &C,
        style: servo_arc::Arc<ComputedStyle>,
        display_inside: DisplayInside,
        contents: Contents,
    ) -> (r: (Self, Vec<SlotWrite>))
        ensures
            (r.0@, write_views(r.1@)) == rules::out_of_flow(
                context,
                style_of(style),
                display_inside,
                contents@,
            ),
        decreases contents_size(contents@), 5nat,
    {
        let content_sizes = ContentSizesRequest::inline_if(arc_deref(&style).inline_size_is_auto());
        let (contents, writes) = IndependentFormattingContext::construct(
            context,
            style,
            display_inside,
            contents,
            content_sizes,
        );
        (AbsolutelyPositionedBox { contents }, writes)
    }
}

impl IndependentFormattingContext {
    /// The formatting context of a box of its own: a block formatting
    /// context around its children, or replaced content.
    pub fn construct<C: LayoutContext>(
        context: &C,
        style: servo_arc::Arc<ComputedStyle>,
        display_inside: DisplayInside,
        contents: Contents,
        content_sizes: ContentSizesRequest,
    ) -> (r: (Self, Vec<SlotWrite>))
        ensures
            (r.0@, write_views(r.1@)) == rules::independent(
                context,
                style_of(style),
                display_inside,
                contents@,
                content_sizes,
            ),
        decreases contents_size(contents@), 4nat,
    {
        match contents {
            Contents::NonReplaced(non_replaced) => {
                let (flow, content_sizes, writes) = BlockFormattingContext::construct(
                    context,
                    &style,
                    non_replaced,
                    content_sizes,
                );
                (
                    IndependentFormattingContext {
                        style,
                        content_sizes,
                        contents: IndependentFormattingContextContents::Flow(flow),
                    },
                    writes,
                )
            },
            Contents::Replaced(replaced) => {
                let content_sizes = content_sizes.compute(
                    || -> (sizes: ContentSizes)
                        ensures sizes == replaced.inline_content_sizes()
                        { replaced.inline_content_sizes() }
                );
                let writes: Vec<SlotWrite> = Vec::new();
                assert(write_views(writes@) =~= Seq::empty());
                (
                    IndependentFormattingContext {
                        style,
                        content_sizes,
                        contents: IndependentFormattingContextContents::Replaced(replaced),
                    },
                    writes,
                )
            },
        }
    }
}

impl BlockFormattingContext {
    /// The block formatting context that the children `contents` of a box
    /// of style `style` establish, with its content sizes and the slot
    /// writes made.
    pub fn construct<C: LayoutContext>(
        context: &C,
        style: &servo_arc::Arc<ComputedStyle>,
        contents: NonReplacedContents,
        content_sizes: ContentSizesRequest,
    ) -> (r: (Self, BoxContentSizes, Vec<SlotWrite>))
        ensures
            ({
                let built = rules::container(context, style_of(*style), contents@, content_sizes);
                &&& r.0@ == BlockFormattingContextView {
                    contents: built.container,
                    contains_floats: built.contains_floats == ContainsFloats::Yes,
                }
                &&& r.1 == built.content_sizes
                &&& write_views(r.2@) == built.writes
            }),
        decreases nodes_size(contents@), 3nat,
    {
        let (contents, contains_floats, inline_content_sizes, writes) = BlockContainer::construct(
            context,
            style,
            contents,
            content_sizes,
        );
        let flow = BlockFormattingContext {
            contents,
            contains_floats: contains_floats == ContainsFloats::Yes,
        };
        (flow, inline_content_sizes, writes)
    }
}

impl BlockContainer {
    /// Builds the block container of a box of style `block_container_style`
    /// from its children `contents`.  Returns the container, whether it
    /// contains floats, its content sizes if `content_sizes` asks for them,
    /// and the boxes handed to slots.
    #[verifier::rlimit(60)]
    pub fn construct<C: LayoutContext>(
        context: &C,
        block_container_style: &servo_arc::Arc<ComputedStyle>,
        contents: NonReplacedContents,
        content_sizes: ContentSizesRequest,
    ) -> (r: (BlockContainer, ContainsFloats, BoxContentSizes, Vec<SlotWrite>))
        ensures
            ({
                let built = rules::container(
                    context,
                    style_of(*block_container_style),
                    contents@,
                    content_sizes,
                );
                &&& r.0@ == built.container
                &&& r.1 == built.contains_floats
                &&& r.2 == built.content_sizes
                &&& write_views(r.3@) == built.writes
            }),
        decreases nodes_size(contents@), 2nat,
    {
        let mut builder = BlockContainerBuilder::new(context, block_container_style, content_sizes);
        proof {
            rules::lemma_walk_keeps_open_boxes(context, builder@, contents@);
        }
        contents.traverse(&mut builder);
        if builder.holds_inline_level_boxes_only() {
            let (ifc, contains_floats, writes) = builder.into_inline_formatting_context();
            let content_sizes = content_sizes.compute(
                || -> (sizes: ContentSizes)
                    ensures sizes == context.inline_sizes(ifc@)
                    { context.inline_content_sizes(&ifc) }
            );
            return (
                BlockContainer::InlineFormattingContext(ifc),
                contains_floats,
                content_sizes,
                writes,
            );
        }
        builder.end_ongoing_inline_formatting_context();
        let ghost ended = builder@;
        let (block_level_boxes, contains_floats, slot_writes) = builder.into_block_level_boxes();
        let mut target = Target {
            contains_floats,
            outer_content_sizes_of_children: ContentSizes::zero(),
        };
        let finished = finish_in_parallel(context, content_sizes, block_level_boxes, &mut target);
        let (boxes, writes) = collect_finished(finished, slot_writes, Ghost(ended.blocks));
        let container = BlockContainer::BlockLevelBoxes(boxes);
        let Target { contains_floats, outer_content_sizes_of_children } = target;
        proof {
            ContentSizes::lemma_max_neutral(rules::sizes_of(ended.blocks));
        }
        let content_sizes = content_sizes.compute(
            || -> (sizes: ContentSizes)
                ensures sizes == outer_content_sizes_of_children
                { outer_content_sizes_of_children }
        );
        (container, contains_floats, content_sizes, writes)
    }
}

} // verus!
