//! What box construction asks of the layout engine around it.
use vstd::prelude::*;
use vstd::std_specs::iter::IteratorSpec;
use vstd::string::StrSliceExecFns;
use std::sync::Arc;
use crate::flow::{
    inline_views,
    IndependentFormattingContextView,
    InlineFormattingContext,
    InlineLevelBox,
    InlineLevelBoxView,
    InlineLevelBoxViews,
};
use crate::sizing::{max_u32, saturating_sum, BoxContentSizes, ContentSizes};
use crate::style::{arc_deref, arc_new, style_of, ComputedStyle, Float, Position};

verus! {

broadcast use vstd::string::group_string_axioms;

/// The style system and the text measurement of the embedding engine.
///
/// Each answer is a function of the question alone, and a context can be
/// asked from several threads at once.  What is proved of box construction
/// holds for every context that keeps to this; for `UnshapedText` that is
/// proved, for a context of an embedder it is taken on trust.
pub trait LayoutContext: Sync {
    /// The style of the anonymous boxes that wrap inline content in a block
    /// container of style `parent`.
    spec fn anonymous_style(&self, parent: ComputedStyle) -> ComputedStyle;

    fn style_for_anonymous(&self, parent: &servo_arc::Arc<ComputedStyle>) -> (style:
        servo_arc::Arc<ComputedStyle>)
        ensures
            style_of(style) == self.anonymous_style(style_of(*parent)),
    ;

    /// The min- and max-content sizes of an inline formatting context that
    /// holds `boxes`.
    spec fn inline_sizes(&self, boxes: InlineLevelBoxViews) -> ContentSizes;

    fn inline_content_sizes(&self, ifc: &InlineFormattingContext) -> (sizes: ContentSizes)
        ensures
            sizes == self.inline_sizes(ifc@),
    ;
}



/// The number of characters after the last space of `text`.
pub open spec fn trailing_word(text: Seq<char>) -> nat
    decreases text.len(),
{
    if text.len() == 0 || text.last() == ' ' {
        0
    } else {
        trailing_word(text.drop_last()) + 1
    }
}

/// The number of characters of the longest piece of `text` without a
/// space.
pub open spec fn longest_word(text: Seq<char>) -> nat
    decreases text.len(),
{
    if text.len() == 0 {
        0
    } else if longest_word(text.drop_last()) >= trailing_word(text) {
        longest_word(text.drop_last())
    } else {
        trailing_word(text)
    }
}

/// The width of `count` characters of width `advance`, at most `u32::MAX`.
pub open spec fn width(count: nat, advance: u32) -> u32 {
    if count * advance > u32::MAX {
        u32::MAX
    } else {
        (count * advance) as u32
    }
}

/// The outer sizes of an atomic box; zero where it is `auto` wide and has
/// no content sizes.
pub open spec fn atomic_sizes(atomic: IndependentFormattingContextView) -> ContentSizes {
    if atomic.style.inline_size_is_auto() && !(atomic.content_sizes is Inline) {
        ContentSizes::zero()
    } else {
        atomic.content_sizes.outer_inline(&atomic.style)
    }
}

/// A line that holds both: as wide as the two together without a break,
/// and at least as wide as the wider of their widest pieces.
pub open spec fn joined(before: ContentSizes, after: ContentSizes) -> ContentSizes {
    ContentSizes {
        min_content: max_u32(before.min_content, after.min_content),
        max_content: saturating_sum(before.max_content, after.max_content),
    }
}

/// The sizes of one inline-level box where every character is `advance`
/// wide and lines break at spaces: a text run is as wide as its longest
/// word at least and as all its characters at most; an inline box is as
/// its children are; an atomic box has its outer sizes; a box that is out
/// of flow takes no room.
pub open spec fn unshaped_box_sizes(advance: u32, inline: InlineLevelBoxView) -> ContentSizes
    decreases inline,
{
    match inline {
        InlineLevelBoxView::TextRun(run) => ContentSizes {
            min_content: width(longest_word(run.text), advance),
            max_content: width(run.text.len(), advance),
        },
        InlineLevelBoxView::InlineBox(inline_box) => unshaped_sizes(advance, inline_box.children),
        InlineLevelBoxView::Atomic(atomic) => atomic_sizes(atomic),
        InlineLevelBoxView::OutOfFlowAbsolutelyPositionedBox(_) => ContentSizes::zero(),
        InlineLevelBoxView::OutOfFlowFloatBox(_) => ContentSizes::zero(),
    }
}

/// The sizes of `boxes` on one line.
pub open spec fn unshaped_sizes(advance: u32, boxes: Seq<InlineLevelBoxView>) -> ContentSizes
    decreases boxes,
{
    if boxes.len() == 0 {
        ContentSizes::zero()
    } else {
        joined(
            unshaped_sizes(advance, boxes.drop_last()),
            unshaped_box_sizes(advance, boxes.last()),
        )
    }
}

/// A layout context for text that is not shaped: every character is
/// `advance` app units wide, and a line can break at a space and nowhere
/// else.  Anonymous boxes have the initial values of every property that
/// box construction reads, under the name of their parent's style.
#[derive(Clone, Copy, PartialEq, Eq, Structural, Debug)]
pub struct UnshapedText {
    pub advance: u32,
}

/// The width of `count` characters.
fn width_of(count: usize, advance: u32) -> (r: u32)
    ensures
        r == width(count as nat, advance),
{
    assert(count * advance <= 0xffff_ffff_ffff_ffff * 0xffff_ffff) by (nonlinear_arith)
        requires
            0 <= count <= 0xffff_ffff_ffff_ffff,
            0 <= advance <= 0xffff_ffff,
    ;
    let product: u128 = (count as u128) * (advance as u128);
    if product > u32::MAX as u128 {
        u32::MAX
    } else {
        product as u32
    }
}

/// The sizes of a text run.
fn text_sizes(advance: u32, text: &str) -> (r: ContentSizes)
    ensures
        r == (ContentSizes {
            min_content: width(longest_word(text@), advance),
            max_content: width(text@.len(), advance),
        }),
{
    let total = text.unicode_len();
    let mut chars = text.chars();
    let mut count: usize = 0;
    let mut word: usize = 0;
    let mut longest: usize = 0;
    assert(text@.take(0) =~= Seq::empty());
    loop
        invariant
            0 <= count <= total == text@.len(),
            chars.remaining() == text@.skip(count as int),
            chars.obeys_prophetic_iter_laws(),
            word == trailing_word(text@.take(count as int)),
            longest == longest_word(text@.take(count as int)),
            word <= count,
            longest <= count,
        ensures
            count == total == text@.len(),
            longest == longest_word(text@),
        decreases total - count,
    {
        match chars.next() {
            Some(c) => {
                proof {
                    assert(text@.skip(count as int)[0] == text@[count as int]);
                    assert(text@.skip(count as int).drop_first() =~= text@.skip(count + 1));
                    assert(text@.take(count + 1).drop_last() =~= text@.take(count as int));
                    assert(text@.take(count + 1).last() == c);
                }
                if c == ' ' {
                    word = 0;
                } else {
                    word = word + 1;
                }
                if word > longest {
                    longest = word;
                }
                count = count + 1;
            },
            None => {
                assert(count == total);
                assert(text@.take(count as int) =~= text@);
                break ;
            },
        }
    }
    ContentSizes { min_content: width_of(longest, advance), max_content: width_of(total, advance) }
}

/// The sizes of `boxes` on one line.
fn sizes_of_boxes(advance: u32, boxes: &Vec<Arc<InlineLevelBox>>) -> (r: ContentSizes)
    ensures
        r == unshaped_sizes(advance, inline_views(boxes@)),
    decreases boxes,
{
    let ghost views = inline_views(boxes@);
    let mut sizes = ContentSizes::zero();
    let mut i: usize = 0;
    assert(views.take(0) =~= Seq::empty());
    while i < boxes.len()
        invariant
            i <= boxes.len(),
            views == inline_views(boxes@),
            sizes == unshaped_sizes(advance, views.take(i as int)),
        decreases boxes.len() - i,
    {
        proof {
            assert(views.take(i + 1).drop_last() =~= views.take(i as int));
            assert(views.take(i + 1).last() == views[i as int]);
        }
        let inline: &Arc<InlineLevelBox> = &boxes[i];
        let next = match &**inline {
            InlineLevelBox::TextRun(run) => text_sizes(advance, run.text.as_str()),
            InlineLevelBox::InlineBox(inline_box) => sizes_of_boxes(advance, &inline_box.children),
            InlineLevelBox::Atomic(atomic) => {
                let style = arc_deref(&atomic.style);
                match atomic.content_sizes {
                    BoxContentSizes::NoneWereRequested if style.inline_size_is_auto() =>
                        ContentSizes::zero(),
                    _ => atomic.content_sizes.outer_inline(style),
                }
            },
            InlineLevelBox::OutOfFlowAbsolutelyPositionedBox(_) => ContentSizes::zero(),
            InlineLevelBox::OutOfFlowFloatBox(_) => ContentSizes::zero(),
        };
        assert(next == unshaped_box_sizes(advance, views[i as int]));
        if next.min_content > sizes.min_content {
            sizes.min_content = next.min_content;
        }
        sizes.max_content = sizes.max_content.saturating_add(next.max_content);
        i = i + 1;
    }
    assert(views.take(views.len() as int) =~= views);
    sizes
}

impl LayoutContext for UnshapedText {
    open spec fn anonymous_style(&self, parent: ComputedStyle) -> ComputedStyle {
        ComputedStyle {
            id: parent.id,
            position: Position::Static,
            float: Float::NotFloating,
            inline_size: None,
            inline_padding_border_margin: 0,
        }
    }

    fn style_for_anonymous(&self, parent: &servo_arc::Arc<ComputedStyle>) -> (style:
        servo_arc::Arc<ComputedStyle>) {
        arc_new(
            ComputedStyle {
                id: arc_deref(parent).id,
                position: Position::Static,
                float: Float::NotFloating,
                inline_size: None,
                inline_padding_border_margin: 0,
            },
        )
    }

    open spec fn inline_sizes(&self, boxes: InlineLevelBoxViews) -> ContentSizes {
        unshaped_sizes(self.advance, boxes)
    }

    fn inline_content_sizes(&self, ifc: &InlineFormattingContext) -> (sizes: ContentSizes) {
        sizes_of_boxes(self.advance, &ifc.inline_level_boxes)
    }
}

} // verus!
