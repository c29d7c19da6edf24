//! The finishing of deferred block-level boxes, in parallel, and what
//! the finished boxes hand up to their container.
use vstd::prelude::*;
use rayon::iter::{IntoParallelIterator, ParallelIterator};
use rayon_croissant::ParallelIteratorExt;
use std::sync::Arc;
use crate::builder::{
    arc_share,
    finished_blocks,
    IntermediateBlockContainer,
    IntermediateBlockLevelBox,
};
use crate::context::LayoutContext;
use crate::dom_traversal::{write_views, BoxSlot, SlotWrite, SlotWriteView};
use crate::flow::{
    block_views,
    AbsolutelyPositionedBox,
    BlockContainer,
    BlockContainerView,
    BlockLevelBox,
    ContainsFloats,
    FloatBox,
    IndependentFormattingContext,
    LayoutBox,
};
use crate::rules;
use crate::rules::FinishedBlock;
use crate::sizing::{BoxContentSizes, ContentSizes, ContentSizesRequest};
use crate::style::{arc_deref, style_of, ComputedStyle};

verus! {

/// What the finished boxes of a container hand up to it: whether one
/// contains floats, and the maximum of their outer sizes.
#[derive(Clone, Copy, PartialEq, Eq, Structural, Debug)]
pub struct Target {
    pub contains_floats: ContainsFloats,
    pub outer_content_sizes_of_children: ContentSizes,
}

impl Target {
    /// What two parts of the boxes hand up together.
    pub open spec fn combined(self, other: Target) -> Target {
        Target {
            contains_floats: self.contains_floats.or(other.contains_floats),
            outer_content_sizes_of_children: self.outer_content_sizes_of_children.max(
                other.outer_content_sizes_of_children,
            ),
        }
    }

    pub open spec fn spec_neutral() -> Target {
        Target {
            contains_floats: ContainsFloats::No,
            outer_content_sizes_of_children: ContentSizes::zero(),
        }
    }

    /// What no box hands up.
    #[verifier::when_used_as_spec(spec_neutral)]
    pub fn neutral() -> (r: Target)
        ensures
            r == Target::spec_neutral(),
    {
        Target {
            contains_floats: ContainsFloats::No,
            outer_content_sizes_of_children: ContentSizes::zero(),
        }
    }

    /// What `blocks` hand up.
    pub open spec fn of(blocks: Seq<FinishedBlock>) -> Target {
        Target {
            contains_floats: rules::floats_of(blocks),
            outer_content_sizes_of_children: rules::sizes_of(blocks),
        }
    }

    /// Takes in what another part of the boxes hands up.  Sizes that were
    /// not asked for are left alone.
    pub fn merge(&mut self, other: Target, content_sizes: ContentSizesRequest)
        ensures
            content_sizes.requests_inline() ==> *final(self) == old(self).combined(other),
            !content_sizes.requests_inline() ==> *final(self) == (Target {
                contains_floats: old(self).contains_floats.or(other.contains_floats),
                ..*old(self)
            }),
    {
        self.contains_floats.bitor_assign(other.contains_floats);
        if content_sizes.requests_inline() {
            self.outer_content_sizes_of_children.max_assign(&other.outer_content_sizes_of_children);
        }
    }

    /// Combining is commutative: the parts can be merged in any order.
    pub proof fn lemma_combined_commutative(a: Target, b: Target)
        ensures
            a.combined(b) == b.combined(a),
    {
    }

    /// Combining is associative: the boxes can be split into parts at any
    /// place.
    pub proof fn lemma_combined_associative(a: Target, b: Target, c: Target)
        ensures
            a.combined(b).combined(c) == a.combined(b.combined(c)),
    {
    }

    /// A part without boxes changes nothing.
    pub proof fn lemma_combined_neutral(a: Target)
        ensures
            a.combined(Target::neutral()) == a,
            Target::neutral().combined(a) == a,
    {
    }

    /// What a sequence of boxes hands up is what its two parts hand up,
    /// combined.
    pub proof fn lemma_of_parts(left: Seq<FinishedBlock>, right: Seq<FinishedBlock>)
        ensures
            Target::of(left + right) == Target::of(left).combined(Target::of(right)),
        decreases right.len(),
    {
        if right.len() == 0 {
            assert(left + right =~= left);
        } else {
            Target::lemma_of_parts(left, right.drop_last());
            assert((left + right).drop_last() =~= left + right.drop_last());
            assert((left + right).last() == right.last());
        }
    }
}

impl IntermediateBlockContainer {
    /// Builds the container, if that is still to be done.
    pub fn finish<C: LayoutContext>(
        self,
        context: &C,
        style: &servo_arc::Arc<ComputedStyle>,
        content_sizes: ContentSizesRequest,
    ) -> (r: (BlockContainer, ContainsFloats, BoxContentSizes, Vec<SlotWrite>))
        ensures
            match self {
                IntermediateBlockContainer::Deferred { contents } => {
                    let built = rules::container(
                        context,
                        style_of(*style),
                        contents@,
                        content_sizes,
                    );
                    &&& r.0@ == built.container
                    &&& r.1 == built.contains_floats
                    &&& r.2 == built.content_sizes
                    &&& write_views(r.3@) == built.writes
                },
                IntermediateBlockContainer::InlineFormattingContext(ifc) => {
                    &&& r.0@ == BlockContainerView::InlineFormattingContext(ifc@)
                    &&& r.1 == ContainsFloats::No
                    &&& r.2 == content_sizes.answer(context.inline_sizes(ifc@))
                    &&& write_views(r.3@) == Seq::<SlotWriteView>::empty()
                },
            },
    {
        match self {
            IntermediateBlockContainer::Deferred { contents } => BlockContainer::construct(
                context,
                style,
                contents,
                content_sizes,
            ),
            IntermediateBlockContainer::InlineFormattingContext(ifc) => {
                let content_sizes = content_sizes.compute(
                    || -> (sizes: ContentSizes)
                        ensures sizes == context.inline_sizes(ifc@)
                        { context.inline_content_sizes(&ifc) }
                );
                let writes: Vec<SlotWrite> = Vec::new();
                assert(write_views(writes@) =~= Seq::empty());
                // A float in this inline formatting context was taken into
                // account when its element was handled.
                (
                    BlockContainer::InlineFormattingContext(ifc),
                    ContainsFloats::No,
                    content_sizes,
                    writes,
                )
            },
        }
    }
}

impl IntermediateBlockLevelBox {
    /// Finishes the box.  Where `content_sizes` asks for sizes and the box
    /// is in flow, `outer_content_sizes` grows to hold its outer sizes.
    #[verifier::rlimit(60)]
    pub fn finish<C: LayoutContext>(
        self,
        context: &C,
        content_sizes: ContentSizesRequest,
        outer_content_sizes: &mut ContentSizes,
    ) -> (r: (Arc<BlockLevelBox>, ContainsFloats, Vec<SlotWrite>))
        ensures
            ({
                let finished = self.finished(context, content_sizes.requests_inline());
                &&& r.0@ == finished.block
                &&& r.1 == finished.contains_floats
                &&& write_views(r.2@) == finished.writes
                &&& *final(outer_content_sizes) == old(outer_content_sizes).max(
                    finished.outer_sizes,
                )
            }),
    {
        let requested = content_sizes.requests_inline();
        proof {
            reveal(IntermediateBlockLevelBox::finished);
        }
        match self {
            IntermediateBlockLevelBox::SameFormattingContextBlock { style, contents } => {
                let computed = *arc_deref(&style);
                let (contents, contains_floats, box_content_sizes, writes) = contents.finish(
                    context,
                    &style,
                    ContentSizesRequest::inline_if(requested && computed.inline_size_is_auto()),
                );
                if requested {
                    outer_content_sizes.max_assign(&box_content_sizes.outer_inline(&computed));
                }
                let block = BlockLevelBox::SameFormattingContextBlock { style, contents };
                (Arc::new(block), contains_floats, writes)
            },
            IntermediateBlockLevelBox::Independent { style, display_inside, contents } => {
                let inner = ContentSizesRequest::inline_if(
                    requested && arc_deref(&style).inline_size_is_auto(),
                );
                let (contents, writes) = IndependentFormattingContext::construct(
                    context,
                    style,
                    display_inside,
                    contents,
                    inner,
                );
                if requested {
                    outer_content_sizes.max_assign(
                        &contents.content_sizes.outer_inline(arc_deref(&contents.style)),
                    );
                }
                (Arc::new(BlockLevelBox::Independent(contents)), ContainsFloats::No, writes)
            },
            IntermediateBlockLevelBox::OutOfFlowAbsolutelyPositionedBox {
                style,
                display_inside,
                contents,
            } => {
                let (positioned, writes) = AbsolutelyPositionedBox::construct(
                    context,
                    style,
                    display_inside,
                    contents,
                );
                (
                    Arc::new(BlockLevelBox::OutOfFlowAbsolutelyPositionedBox(positioned)),
                    ContainsFloats::No,
                    writes,
                )
            },
            IntermediateBlockLevelBox::OutOfFlowFloatBox { style, display_inside, contents } => {
                let (float, writes) = FloatBox::construct(context, style, display_inside, contents);
                (Arc::new(BlockLevelBox::OutOfFlowFloatBox(float)), ContainsFloats::Yes, writes)
            },
        }
    }
}

/// Finishes one deferred box: the box is handed to its slot, and `target`
/// takes in what it hands up.
#[verifier::rlimit(60)]
pub fn finish_into<C: LayoutContext>(
    context: &C,
    content_sizes: ContentSizesRequest,
    target: &mut Target,
    intermediate: IntermediateBlockLevelBox,
    box_slot: BoxSlot,
) -> (r: (Arc<BlockLevelBox>, Vec<SlotWrite>))
    ensures
        ({
            let finished = rules::with_slot(
                intermediate.finished(context, content_sizes.requests_inline()),
                box_slot,
            );
            &&& r.0@ == finished.block
            &&& write_views(r.1@) == finished.writes
            &&& *final(target) == old(target).combined(
                Target {
                    contains_floats: finished.contains_floats,
                    outer_content_sizes_of_children: finished.outer_sizes,
                },
            )
        }),
{
    let mut outer_content_sizes = target.outer_content_sizes_of_children;
    let (block_level_box, box_contains_floats, mut writes) = intermediate.finish(
        context,
        content_sizes,
        &mut outer_content_sizes,
    );
    target.outer_content_sizes_of_children = outer_content_sizes;
    target.contains_floats.bitor_assign(box_contains_floats);
    box_slot.set(LayoutBox::BlockLevel(arc_share(&block_level_box)), &mut writes);
    (block_level_box, writes)
}

/// `rayon::iter::IntoParallelIterator::into_par_iter` on the vector,
/// `rayon_croissant::ParallelIteratorExt::mapfold_reduce_into`, and
/// `rayon::iter::ParallelIterator::collect`.
///
/// Every box of `boxes` is finished by one call of `finish_into`, on some
/// thread, and what the call returns stands in the result where the box
/// stood.  Each call folds into `target` or into a target that started
/// neutral; the targets of neighbouring parts are merged, the left one
/// taking in the right one, until `target` has taken in all.  How the
/// boxes are split into parts is up to rayon.  As combining targets is
/// associative with the neutral target as its unit (`Target::lemma_of_parts`
/// and the lemmas beside it), `target` ends up the same however they were
/// split: with what all the boxes hand up, in their order.
#[verifier::external_body]
pub(crate) fn finish_in_parallel<C: LayoutContext>(
    context: &C,
    content_sizes: ContentSizesRequest,
    boxes: Vec<(IntermediateBlockLevelBox, BoxSlot)>,
    target: &mut Target,
) -> (finished: Vec<(Arc<BlockLevelBox>, Vec<SlotWrite>)>)
    ensures
        finished@.len() == boxes@.len(),
        forall|i: int|
            #![trigger finished@[i]]
            0 <= i < boxes@.len() ==> {
                let block = finished_blocks(context, boxes@, content_sizes.requests_inline())[i];
                &&& finished@[i].0@ == block.block
                &&& write_views(finished@[i].1@) == block.writes
            },
        *final(target) == old(target).combined(
            Target::of(finished_blocks(context, boxes@, content_sizes.requests_inline())),
        ),
{
    boxes.into_par_iter().mapfold_reduce_into(
        target,
        |target, (intermediate, box_slot)| finish_into(
            context,
            content_sizes,
            target,
            intermediate,
            box_slot,
        ),
        || Target::neutral(),
        |left, right| left.merge(right, content_sizes),
    ).collect()
}

/// Parts the finished boxes from the slot writes made for them, which
/// follow `writes` in the order of the boxes.
#[verifier::rlimit(60)]
pub(crate) fn collect_finished(
    finished: Vec<(Arc<BlockLevelBox>, Vec<SlotWrite>)>,
    writes: Vec<SlotWrite>,
    Ghost(blocks): Ghost<Seq<FinishedBlock>>,
) -> (r: (Vec<Arc<BlockLevelBox>>, Vec<SlotWrite>))
    requires
        finished@.len() == blocks.len(),
        forall|i: int|
            #![trigger finished@[i]]
            0 <= i < blocks.len() ==> {
                &&& finished@[i].0@ == blocks[i].block
                &&& write_views(finished@[i].1@) == blocks[i].writes
            },
    ensures
        block_views(r.0@) == rules::boxes_of(blocks),
        write_views(r.1@) == write_views(writes@) + rules::writes_of(blocks),
{
    let ghost items = finished@;
    let ghost base = write_views(writes@);
    let mut boxes: Vec<Arc<BlockLevelBox>> = Vec::new();
    let mut writes = writes;
    assert(blocks.take(0) =~= Seq::empty());
    assert(base + rules::writes_of(blocks.take(0)) =~= base);
    assert(block_views(boxes@) =~= rules::boxes_of(blocks.take(0)));
    for item in it: finished
        invariant
            it.seq() == items,
            items.len() == blocks.len(),
            forall|i: int|
                #![trigger items[i]]
                0 <= i < blocks.len() ==> {
                    &&& items[i].0@ == blocks[i].block
                    &&& write_views(items[i].1@) == blocks[i].writes
                },
            block_views(boxes@) == rules::boxes_of(blocks.take(it.index())),
            write_views(writes@) == base + rules::writes_of(blocks.take(it.index())),
    {
        let ghost i = it.index();
        let ghost before = write_views(writes@);
        let ghost boxes_before = boxes@;
        let (block, mut made) = item;
        assert(item == items[i]);
        boxes.push(block);
        writes.append(&mut made);
        proof {
            assert(blocks.take(i + 1).drop_last() =~= blocks.take(i));
            assert(blocks.take(i + 1).last() == blocks[i]);
            assert(write_views(writes@) =~= before + blocks[i].writes);
            assert(write_views(writes@) =~= base + rules::writes_of(blocks.take(i + 1)));
            assert(block@ == blocks[i].block);
            assert(block_views(boxes@) =~= block_views(boxes_before).push(block@));
            assert(rules::boxes_of(blocks.take(i + 1)) =~= rules::boxes_of(blocks.take(i)).push(
                blocks[i].block,
            ));
        }
    }
    assert(blocks.take(blocks.len() as int) =~= blocks);
    (boxes, writes)
}

} // verus!
