//! Requests for, and results of, intrinsic inline-size computation.
use vstd::prelude::*;
use crate::style::ComputedStyle;

verus! {

/// Whether the caller needs min- and max-content inline sizes.
#[derive(Clone, Copy, PartialEq, Eq, Structural, Debug)]
pub enum ContentSizesRequest {
    Inline,
    NoneRequested,
}

impl ContentSizesRequest {
    pub open spec fn spec_inline_if(condition: bool) -> Self {
        if condition {
            ContentSizesRequest::Inline
        } else {
            ContentSizesRequest::NoneRequested
        }
    }

    /// A request for inline sizes if `condition` holds, else for nothing.
    #[verifier::when_used_as_spec(spec_inline_if)]
    pub fn inline_if(condition: bool) -> (r: Self)
        ensures
            r == Self::spec_inline_if(condition),
    {
        if condition {
            ContentSizesRequest::Inline
        } else {
            ContentSizesRequest::NoneRequested
        }
    }

    pub open spec fn spec_requests_inline(self) -> bool {
        self == ContentSizesRequest::Inline
    }

    /// Whether inline sizes are asked for.
    #[verifier::when_used_as_spec(spec_requests_inline)]
    pub fn requests_inline(self) -> (r: bool)
        ensures
            r == self.spec_requests_inline(),
    {
        match self {
            ContentSizesRequest::Inline => true,
            ContentSizesRequest::NoneRequested => false,
        }
    }

    /// Runs `f` only where inline sizes are requested.  Nothing is asked of
    /// `f` where they are not, so it is not called there.
    pub fn if_requests_inline<T, F: FnOnce() -> T>(self, f: F) -> (r: Option<T>)
        requires
            self.requests_inline() ==> f.requires(()),
        ensures
            self.requests_inline() ==> r is Some && f.ensures((), r->0),
            !self.requests_inline() ==> r is None,
    {
        match self {
            ContentSizesRequest::Inline => Some(f()),
            ContentSizesRequest::NoneRequested => None,
        }
    }

    /// The sizes that `compute_inline` gives where they are requested, and
    /// the placeholder, without calling it, where they are not.
    pub fn compute<F: FnOnce() -> ContentSizes>(self, compute_inline: F) -> (r: BoxContentSizes)
        requires
            self.requests_inline() ==> compute_inline.requires(()),
        ensures
            self.requests_inline() ==> r is Inline && compute_inline.ensures((), r->0),
            !self.requests_inline() ==> r is NoneWereRequested,
    {
        match self {
            ContentSizesRequest::Inline => BoxContentSizes::Inline(compute_inline()),
            ContentSizesRequest::NoneRequested => BoxContentSizes::NoneWereRequested,
        }
    }

    /// What `compute` returns for sizes already at hand.
    pub open spec fn answer(self, sizes: ContentSizes) -> BoxContentSizes {
        if self.requests_inline() {
            BoxContentSizes::Inline(sizes)
        } else {
            BoxContentSizes::NoneWereRequested
        }
    }
}

/// The larger of two lengths.
pub open spec fn max_u32(a: u32, b: u32) -> u32 {
    if a >= b {
        a
    } else {
        b
    }
}

/// The sum of two lengths, at most `u32::MAX`.
pub open spec fn saturating_sum(a: u32, b: u32) -> u32 {
    if a + b > u32::MAX {
        u32::MAX
    } else {
        (a + b) as u32
    }
}

/// Min- and max-content inline sizes, in app units.
#[derive(Clone, Copy, PartialEq, Eq, Structural, Debug)]
pub struct ContentSizes {
    pub min_content: u32,
    pub max_content: u32,
}

impl ContentSizes {
    pub open spec fn spec_zero() -> Self {
        ContentSizes { min_content: 0, max_content: 0 }
    }

    /// No size: the neutral element of `max`.
    #[verifier::when_used_as_spec(spec_zero)]
    pub fn zero() -> (r: Self)
        ensures
            r == Self::spec_zero(),
    {
        ContentSizes { min_content: 0, max_content: 0 }
    }

    /// The componentwise maximum.
    pub open spec fn max(self, other: Self) -> Self {
        ContentSizes {
            min_content: max_u32(self.min_content, other.min_content),
            max_content: max_u32(self.max_content, other.max_content),
        }
    }

    /// Grows to the componentwise maximum with `other`.
    pub fn max_assign(&mut self, other: &Self)
        ensures
            *final(self) == old(self).max(*other),
    {
        if other.min_content > self.min_content {
            self.min_content = other.min_content;
        }
        if other.max_content > self.max_content {
            self.max_content = other.max_content;
        }
    }

    /// Both sizes grown by `length`, saturating at `u32::MAX`.
    pub open spec fn grown_by(self, length: u32) -> Self {
        ContentSizes {
            min_content: saturating_sum(self.min_content, length),
            max_content: saturating_sum(self.max_content, length),
        }
    }

    /// `max` is commutative.
    pub proof fn lemma_max_commutative(a: Self, b: Self)
        ensures
            a.max(b) == b.max(a),
    {
    }

    /// `max` is associative.
    pub proof fn lemma_max_associative(a: Self, b: Self, c: Self)
        ensures
            a.max(b).max(c) == a.max(b.max(c)),
    {
    }

    /// `zero` is neutral for `max`, and `max` is idempotent.
    pub proof fn lemma_max_neutral(a: Self)
        ensures
            a.max(Self::zero()) == a,
            Self::zero().max(a) == a,
            a.max(a) == a,
    {
    }
}

/// The content sizes of a box, if they were requested while it was built.
#[derive(Clone, Copy, PartialEq, Eq, Structural, Debug)]
pub enum BoxContentSizes {
    NoneWereRequested,
    Inline(ContentSizes),
}

impl BoxContentSizes {
    /// The sizes, which must have been requested.
    pub fn expect_inline(&self) -> (r: &ContentSizes)
        requires
            self is Inline,
        ensures
            *r == self->0,
    {
        match self {
            BoxContentSizes::Inline(sizes) => sizes,
            BoxContentSizes::NoneWereRequested => vstd::pervasive::unreached(),
        }
    }

    /// The outer sizes of a box with these content sizes and this style: a
    /// fixed inline size stands for both content sizes, `auto` takes the
    /// content sizes; padding, border and margin are added on top.
    pub open spec fn spec_outer_inline(&self, style: &ComputedStyle) -> ContentSizes {
        let inner = match style.inline_size {
            Some(length) => ContentSizes { min_content: length, max_content: length },
            None => self->0,
        };
        inner.grown_by(style.inline_padding_border_margin)
    }

    #[verifier::when_used_as_spec(spec_outer_inline)]
    pub fn outer_inline(&self, style: &ComputedStyle) -> (r: ContentSizes)
        requires
            style.inline_size_is_auto() ==> self is Inline,
        ensures
            r == self.spec_outer_inline(style),
    {
        let inner = match style.inline_size {
            Some(length) => ContentSizes { min_content: length, max_content: length },
            None => *self.expect_inline(),
        };
        ContentSizes {
            min_content: inner.min_content.saturating_add(style.inline_padding_border_margin),
            max_content: inner.max_content.saturating_add(style.inline_padding_border_margin),
        }
    }
}

} // verus!
