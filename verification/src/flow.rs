//! The box tree: formatting contexts, block-level and inline-level boxes,
//! and the mathematical view of each.
use vstd::prelude::*;
use std::sync::Arc;
use crate::sizing::{BoxContentSizes, ContentSizes};
use crate::style::{style_of, ComputedStyle};

verus! {

/// Whether a block container holds a float anywhere in its formatting
/// context.
#[derive(Clone, Copy, PartialEq, Eq, Structural, Debug)]
pub enum ContainsFloats {
    No,
    Yes,
}

impl ContainsFloats {
    /// `Yes` if either is `Yes`.
    pub open spec fn or(self, other: Self) -> Self {
        if other == ContainsFloats::Yes {
            ContainsFloats::Yes
        } else {
            self
        }
    }

    /// Becomes `Yes` if `other` is.
    pub fn bitor_assign(&mut self, other: Self)
        ensures
            *final(self) == old(self).or(other),
    {
        if other == ContainsFloats::Yes {
            *self = ContainsFloats::Yes;
        }
    }

    /// `or` is commutative.
    pub proof fn lemma_or_commutative(a: Self, b: Self)
        ensures
            a.or(b) == b.or(a),
    {
    }

    /// `or` is associative.
    pub proof fn lemma_or_associative(a: Self, b: Self, c: Self)
        ensures
            a.or(b).or(c) == a.or(b.or(c)),
    {
    }

    /// `No` is neutral for `or`.
    pub proof fn lemma_or_neutral(a: Self)
        ensures
            a.or(ContainsFloats::No) == a,
            ContainsFloats::No.or(a) == a,
    {
    }
}

/// Content that lays itself out, such as an image.
#[derive(Clone, Copy, PartialEq, Eq, Structural, Debug)]
pub struct ReplacedContent {
    /// The natural inline size, in app units.
    pub intrinsic_inline_size: u32,
}

impl ReplacedContent {
    pub open spec fn spec_inline_content_sizes(&self) -> ContentSizes {
        ContentSizes {
            min_content: self.intrinsic_inline_size,
            max_content: self.intrinsic_inline_size,
        }
    }

    /// Replaced content is as wide as its natural size, whatever the line.
    #[verifier::when_used_as_spec(spec_inline_content_sizes)]
    pub fn inline_content_sizes(&self) -> (r: ContentSizes)
        ensures
            r == self.spec_inline_content_sizes(),
    {
        ContentSizes {
            min_content: self.intrinsic_inline_size,
            max_content: self.intrinsic_inline_size,
        }
    }
}

/// A run of text, stored as logical text that is not yet shaped.
#[derive(Debug, PartialEq, Eq)]
pub struct TextRun {
    pub parent_style: servo_arc::Arc<ComputedStyle>,
    pub text: String,
}

/// One fragment of an inline box.
#[derive(Debug, PartialEq, Eq)]
pub struct InlineBox {
    pub style: servo_arc::Arc<ComputedStyle>,
    pub first_fragment: bool,
    pub last_fragment: bool,
    pub children: Vec<Arc<InlineLevelBox>>,
}

/// A box that takes part in an inline formatting context.
#[derive(Debug, PartialEq, Eq)]
pub enum InlineLevelBox {
    InlineBox(InlineBox),
    TextRun(TextRun),
    Atomic(IndependentFormattingContext),
    OutOfFlowAbsolutelyPositionedBox(AbsolutelyPositionedBox),
    OutOfFlowFloatBox(FloatBox),
}

/// An inline formatting context: inline-level boxes in document order.
#[derive(Debug, PartialEq, Eq)]
pub struct InlineFormattingContext {
    pub inline_level_boxes: Vec<Arc<InlineLevelBox>>,
}

/// A box that establishes a formatting context of its own.
#[derive(Debug, PartialEq, Eq)]
pub struct IndependentFormattingContext {
    pub style: servo_arc::Arc<ComputedStyle>,
    /// The content sizes, if they were requested when the box was built.
    pub content_sizes: BoxContentSizes,
    pub contents: IndependentFormattingContextContents,
}

/// What establishes the formatting context of a box of its own.
#[derive(Debug, PartialEq, Eq)]
pub enum IndependentFormattingContextContents {
    Flow(BlockFormattingContext),
    Replaced(ReplacedContent),
}

/// An absolutely positioned box, out of flow.
#[derive(Debug, PartialEq, Eq)]
pub struct AbsolutelyPositionedBox {
    pub contents: IndependentFormattingContext,
}

/// A float, out of flow.
#[derive(Debug, PartialEq, Eq)]
pub struct FloatBox {
    pub contents: IndependentFormattingContext,
}

/// A block formatting context: the contents of its root, and whether a
/// float is in it.
#[derive(Debug, PartialEq, Eq)]
pub struct BlockFormattingContext {
    pub contents: BlockContainer,
    pub contains_floats: bool,
}

/// The contents of a block box: block-level boxes in document order, or an
/// inline formatting context that is not empty.
#[derive(Debug, PartialEq, Eq)]
pub enum BlockContainer {
    BlockLevelBoxes(Vec<Arc<BlockLevelBox>>),
    InlineFormattingContext(InlineFormattingContext),
}

/// A box that takes part in a block formatting context.
#[derive(Debug, PartialEq, Eq)]
pub enum BlockLevelBox {
    SameFormattingContextBlock { style: servo_arc::Arc<ComputedStyle>, contents: BlockContainer },
    Independent(IndependentFormattingContext),
    OutOfFlowAbsolutelyPositionedBox(AbsolutelyPositionedBox),
    OutOfFlowFloatBox(FloatBox),
}

/// The box that an element generated, as its output slot receives it.
#[derive(Debug, PartialEq, Eq)]
pub enum LayoutBox {
    BlockLevel(Arc<BlockLevelBox>),
    InlineLevel(Arc<InlineLevelBox>),
}

pub ghost struct TextRunView {
    pub parent_style: ComputedStyle,
    pub text: Seq<char>,
}

pub ghost struct InlineBoxView {
    pub style: ComputedStyle,
    pub first_fragment: bool,
    pub last_fragment: bool,
    pub children: Seq<InlineLevelBoxView>,
}

pub ghost enum InlineLevelBoxView {
    InlineBox(InlineBoxView),
    TextRun(TextRunView),
    Atomic(IndependentFormattingContextView),
    OutOfFlowAbsolutelyPositionedBox(IndependentFormattingContextView),
    OutOfFlowFloatBox(IndependentFormattingContextView),
}

pub ghost struct IndependentFormattingContextView {
    pub style: ComputedStyle,
    pub content_sizes: BoxContentSizes,
    pub contents: IndependentContentsView,
}

pub ghost enum IndependentContentsView {
    Flow(BlockFormattingContextView),
    Replaced(ReplacedContent),
}

pub ghost struct BlockFormattingContextView {
    pub contents: BlockContainerView,
    pub contains_floats: bool,
}

pub ghost enum BlockContainerView {
    BlockLevelBoxes(Seq<BlockLevelBoxView>),
    InlineFormattingContext(Seq<InlineLevelBoxView>),
}

pub ghost enum BlockLevelBoxView {
    SameFormattingContextBlock { style: ComputedStyle, contents: BlockContainerView },
    Independent(IndependentFormattingContextView),
    OutOfFlowAbsolutelyPositionedBox(IndependentFormattingContextView),
    OutOfFlowFloatBox(IndependentFormattingContextView),
}

pub ghost enum LayoutBoxView {
    BlockLevel(BlockLevelBoxView),
    InlineLevel(InlineLevelBoxView),
}

/// The view of a sequence of inline-level boxes.
pub type InlineLevelBoxViews = Seq<InlineLevelBoxView>;

/// The views of the boxes of `boxes`, in the same order.
pub open spec fn inline_views(boxes: Seq<Arc<InlineLevelBox>>) -> Seq<InlineLevelBoxView>
    decreases boxes,
{
    Seq::new(
        boxes.len(),
        |i: int|
            if 0 <= i < boxes.len() {
                (*boxes[i]).model()
            } else {
                arbitrary()
            },
    )
}

/// The views of the boxes of `boxes`, in the same order.
pub open spec fn block_views(boxes: Seq<Arc<BlockLevelBox>>) -> Seq<BlockLevelBoxView>
    decreases boxes,
{
    Seq::new(
        boxes.len(),
        |i: int|
            if 0 <= i < boxes.len() {
                (*boxes[i]).model()
            } else {
                arbitrary()
            },
    )
}

impl InlineBox {
    pub open spec fn model(self) -> InlineBoxView
        decreases self,
    {
        InlineBoxView {
            style: style_of(self.style),
            first_fragment: self.first_fragment,
            last_fragment: self.last_fragment,
            children: inline_views(self.children@),
        }
    }
}

impl InlineLevelBox {
    pub open spec fn model(self) -> InlineLevelBoxView
        decreases self,
    {
        match self {
            InlineLevelBox::InlineBox(inline_box) => InlineLevelBoxView::InlineBox(
                inline_box.model(),
            ),
            InlineLevelBox::TextRun(run) => InlineLevelBoxView::TextRun(run@),
            InlineLevelBox::Atomic(contents) => InlineLevelBoxView::Atomic(contents.model()),
            InlineLevelBox::OutOfFlowAbsolutelyPositionedBox(positioned) =>
                InlineLevelBoxView::OutOfFlowAbsolutelyPositionedBox(positioned.contents.model()),
            InlineLevelBox::OutOfFlowFloatBox(float) => InlineLevelBoxView::OutOfFlowFloatBox(
                float.contents.model(),
            ),
        }
    }
}

impl IndependentFormattingContext {
    pub open spec fn model(self) -> IndependentFormattingContextView
        decreases self,
    {
        IndependentFormattingContextView {
            style: style_of(self.style),
            content_sizes: self.content_sizes,
            contents: match self.contents {
                IndependentFormattingContextContents::Flow(flow) => IndependentContentsView::Flow(
                    flow.model(),
                ),
                IndependentFormattingContextContents::Replaced(replaced) =>
                    IndependentContentsView::Replaced(replaced),
            },
        }
    }
}

impl BlockFormattingContext {
    pub open spec fn model(self) -> BlockFormattingContextView
        decreases self,
    {
        BlockFormattingContextView {
            contents: self.contents.model(),
            contains_floats: self.contains_floats,
        }
    }
}

impl BlockContainer {
    pub open spec fn model(self) -> BlockContainerView
        decreases self,
    {
        match self {
            BlockContainer::BlockLevelBoxes(boxes) => BlockContainerView::BlockLevelBoxes(
                block_views(boxes@),
            ),
            BlockContainer::InlineFormattingContext(ifc) =>
                BlockContainerView::InlineFormattingContext(inline_views(ifc.inline_level_boxes@)),
        }
    }
}

impl BlockLevelBox {
    pub open spec fn model(self) -> BlockLevelBoxView
        decreases self,
    {
        match self {
            BlockLevelBox::SameFormattingContextBlock { style, contents } =>
                BlockLevelBoxView::SameFormattingContextBlock {
                    style: style_of(style),
                    contents: contents.model(),
                },
            BlockLevelBox::Independent(contents) => BlockLevelBoxView::Independent(
                contents.model(),
            ),
            BlockLevelBox::OutOfFlowAbsolutelyPositionedBox(positioned) =>
                BlockLevelBoxView::OutOfFlowAbsolutelyPositionedBox(positioned.contents.model()),
            BlockLevelBox::OutOfFlowFloatBox(float) => BlockLevelBoxView::OutOfFlowFloatBox(
                float.contents.model(),
            ),
        }
    }
}

impl View for TextRun {
    type V = TextRunView;

    open spec fn view(&self) -> TextRunView {
        TextRunView { parent_style: style_of(self.parent_style), text: self.text@ }
    }
}

impl View for InlineBox {
    type V = InlineBoxView;

    open spec fn view(&self) -> InlineBoxView {
        self.model()
    }
}

impl View for InlineLevelBox {
    type V = InlineLevelBoxView;

    open spec fn view(&self) -> InlineLevelBoxView {
        self.model()
    }
}

impl View for InlineFormattingContext {
    type V = Seq<InlineLevelBoxView>;

    open spec fn view(&self) -> Seq<InlineLevelBoxView> {
        inline_views(self.inline_level_boxes@)
    }
}

impl View for IndependentFormattingContext {
    type V = IndependentFormattingContextView;

    open spec fn view(&self) -> IndependentFormattingContextView {
        self.model()
    }
}

impl View for AbsolutelyPositionedBox {
    type V = IndependentFormattingContextView;

    open spec fn view(&self) -> IndependentFormattingContextView {
        self.contents.model()
    }
}

impl View for FloatBox {
    type V = IndependentFormattingContextView;

    open spec fn view(&self) -> IndependentFormattingContextView {
        self.contents.model()
    }
}

impl View for BlockFormattingContext {
    type V = BlockFormattingContextView;

    open spec fn view(&self) -> BlockFormattingContextView {
        self.model()
    }
}

impl View for BlockContainer {
    type V = BlockContainerView;

    open spec fn view(&self) -> BlockContainerView {
        self.model()
    }
}

impl View for BlockLevelBox {
    type V = BlockLevelBoxView;

    open spec fn view(&self) -> BlockLevelBoxView {
        self.model()
    }
}

impl View for LayoutBox {
    type V = LayoutBoxView;

    open spec fn view(&self) -> LayoutBoxView {
        match self {
            LayoutBox::BlockLevel(block) => LayoutBoxView::BlockLevel((**block).model()),
            LayoutBox::InlineLevel(inline) => LayoutBoxView::InlineLevel((**inline).model()),
        }
    }
}

} // verus!
