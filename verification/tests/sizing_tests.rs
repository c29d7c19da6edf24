use box_tree::sizing::{BoxContentSizes, ContentSizes, ContentSizesRequest};
use box_tree::style::{computed, share, ComputedStyle, Float, Position};
use std::cell::Cell;

fn style(inline_size: Option<u32>, pbm: u32) -> ComputedStyle {
    ComputedStyle {
        id: 3,
        position: Position::Static,
        float: Float::NotFloating,
        inline_size,
        inline_padding_border_margin: pbm,
    }
}

fn sizes(min_content: u32, max_content: u32) -> ContentSizes {
    ContentSizes { min_content, max_content }
}

#[test]
fn request_inline_if() {
    assert_eq!(ContentSizesRequest::inline_if(true), ContentSizesRequest::Inline);
    assert_eq!(ContentSizesRequest::inline_if(false), ContentSizesRequest::NoneRequested);
    assert!(ContentSizesRequest::Inline.requests_inline());
    assert!(!ContentSizesRequest::NoneRequested.requests_inline());
}

#[test]
fn compute_runs_only_when_requested() {
    let calls = Cell::new(0);
    let result = ContentSizesRequest::Inline.compute(|| {
        calls.set(calls.get() + 1);
        sizes(3, 9)
    });
    assert_eq!(result, BoxContentSizes::Inline(sizes(3, 9)));
    assert_eq!(calls.get(), 1);
    let result = ContentSizesRequest::NoneRequested.compute(|| {
        calls.set(calls.get() + 1);
        sizes(3, 9)
    });
    assert_eq!(result, BoxContentSizes::NoneWereRequested);
    assert_eq!(calls.get(), 1);
}

#[test]
fn if_requests_inline_runs_only_when_requested() {
    let calls = Cell::new(0);
    let some = ContentSizesRequest::Inline.if_requests_inline(|| {
        calls.set(calls.get() + 1);
        7
    });
    assert_eq!(some, Some(7));
    let none = ContentSizesRequest::NoneRequested.if_requests_inline(|| {
        calls.set(calls.get() + 1);
        7
    });
    assert_eq!(none, None);
    assert_eq!(calls.get(), 1);
}

#[test]
fn max_assign_is_componentwise() {
    let mut a = sizes(5, 10);
    a.max_assign(&sizes(7, 8));
    assert_eq!(a, sizes(7, 10));
    a.max_assign(&ContentSizes::zero());
    assert_eq!(a, sizes(7, 10));
    let mut zero = ContentSizes::zero();
    assert_eq!(zero, sizes(0, 0));
    zero.max_assign(&sizes(1, 2));
    assert_eq!(zero, sizes(1, 2));
}

#[test]
fn max_assign_in_any_order() {
    let parts = [sizes(1, 9), sizes(4, 4), sizes(3, 12)];
    let mut forward = ContentSizes::zero();
    for part in parts.iter() {
        forward.max_assign(part);
    }
    let mut backward = ContentSizes::zero();
    for part in parts.iter().rev() {
        backward.max_assign(part);
    }
    assert_eq!(forward, sizes(4, 12));
    assert_eq!(backward, forward);
}

#[test]
fn outer_inline_of_auto_adds_padding_border_margin() {
    let content = BoxContentSizes::Inline(sizes(20, 50));
    assert_eq!(content.outer_inline(&style(None, 6)), sizes(26, 56));
    assert_eq!(content.outer_inline(&style(None, 0)), sizes(20, 50));
}

#[test]
fn outer_inline_of_fixed_size_ignores_content() {
    let content = BoxContentSizes::Inline(sizes(20, 50));
    assert_eq!(content.outer_inline(&style(Some(100), 6)), sizes(106, 106));
    assert_eq!(
        BoxContentSizes::NoneWereRequested.outer_inline(&style(Some(100), 6)),
        sizes(106, 106)
    );
}

#[test]
fn outer_inline_saturates() {
    let content = BoxContentSizes::Inline(sizes(u32::MAX - 1, u32::MAX));
    assert_eq!(content.outer_inline(&style(None, 5)), sizes(u32::MAX, u32::MAX));
    assert_eq!(content.outer_inline(&style(None, 1)), sizes(u32::MAX, u32::MAX));
}

#[test]
fn expect_inline_returns_the_sizes() {
    assert_eq!(*BoxContentSizes::Inline(sizes(1, 2)).expect_inline(), sizes(1, 2));
}

#[test]
fn style_predicates() {
    for (position, out_of_flow) in [
        (Position::Static, false),
        (Position::Relative, false),
        (Position::Absolute, true),
        (Position::Fixed, true),
        (Position::Sticky, false),
    ] {
        assert_eq!(position.is_absolutely_positioned(), out_of_flow);
    }
    assert!(!Float::NotFloating.is_floating());
    assert!(Float::Left.is_floating());
    assert!(Float::Right.is_floating());
    assert!(Float::InlineStart.is_floating());
    assert!(Float::InlineEnd.is_floating());
    assert!(style(None, 0).inline_size_is_auto());
    assert!(!style(Some(0), 0).inline_size_is_auto());
}

#[test]
fn shared_style_keeps_its_values() {
    let first = style(Some(12), 4);
    let shared = share(first);
    assert_eq!(computed(&shared), first);
    let other = shared.clone();
    assert_eq!(computed(&other), first);
    assert_eq!(*shared, first);
}
