//! The part of a box's computed style that box construction reads, the
//! display classification of an element, and shared ownership of styles.
use vstd::prelude::*;

verus! {

/// The `position` property.
#[derive(Clone, Copy, PartialEq, Eq, Structural, Debug)]
pub enum Position {
    Static,
    Relative,
    Absolute,
    Fixed,
    Sticky,
}

impl Position {
    pub open spec fn spec_is_absolutely_positioned(self) -> bool {
        self == Position::Absolute || self == Position::Fixed
    }

    /// Whether the box is taken out of flow by its position.
    #[verifier::when_used_as_spec(spec_is_absolutely_positioned)]
    pub fn is_absolutely_positioned(self) -> (r: bool)
        ensures
            r == self.spec_is_absolutely_positioned(),
    {
        match self {
            Position::Absolute | Position::Fixed => true,
            Position::Static | Position::Relative | Position::Sticky => false,
        }
    }
}

/// The `float` property.
#[derive(Clone, Copy, PartialEq, Eq, Structural, Debug)]
pub enum Float {
    NotFloating,
    Left,
    Right,
    InlineStart,
    InlineEnd,
}

impl Float {
    pub open spec fn spec_is_floating(self) -> bool {
        self != Float::NotFloating
    }

    /// Whether the box is a float.
    #[verifier::when_used_as_spec(spec_is_floating)]
    pub fn is_floating(self) -> (r: bool)
        ensures
            r == self.spec_is_floating(),
    {
        match self {
            Float::NotFloating => false,
            Float::Left | Float::Right | Float::InlineStart | Float::InlineEnd => true,
        }
    }
}

/// The computed values of one box, as far as box construction reads them.
/// Lengths are in app units.
#[derive(Clone, Copy, PartialEq, Eq, Structural, Debug)]
pub struct ComputedStyle {
    /// Names the full set of computed values in the style system.
    pub id: u32,
    pub position: Position,
    pub float: Float,
    /// The box's own inline size; `None` is `auto`.
    pub inline_size: Option<u32>,
    /// Padding, border and margin of both inline sides, added up.
    pub inline_padding_border_margin: u32,
}

impl ComputedStyle {
    pub open spec fn spec_inline_size_is_auto(&self) -> bool {
        self.inline_size is None
    }

    /// Whether the box takes its inline size from its contents and its
    /// container.
    #[verifier::when_used_as_spec(spec_inline_size_is_auto)]
    pub fn inline_size_is_auto(&self) -> (r: bool)
        ensures
            r == self.spec_inline_size_is_auto(),
    {
        self.inline_size.is_none()
    }
}

/// How a box takes part in the formatting context around it.
#[derive(Clone, Copy, PartialEq, Eq, Structural, Debug)]
pub enum DisplayOutside {
    Block,
    Inline,
}

/// How a box lays out its contents.
#[derive(Clone, Copy, PartialEq, Eq, Structural, Debug)]
pub enum DisplayInside {
    Flow,
    FlowRoot,
}

/// The display of an element that generates a box.
#[derive(Clone, Copy, PartialEq, Eq, Structural, Debug)]
pub enum DisplayGeneratingBox {
    OutsideInside { outside: DisplayOutside, inside: DisplayInside },
}

/// `servo_arc::Arc`, an atomically counted shared pointer.  Its inside is
/// not looked into: a pointer to a style is known by `style_of` alone.
#[verifier::external_type_specification]
#[verifier::external_body]
#[verifier::reject_recursive_types(T)]
pub struct ExServoArc<T: ?Sized>(servo_arc::Arc<T>);

/// The style that a `servo_arc::Arc` points to.  The value behind such a
/// pointer never changes, so it is a function of the pointer.
pub uninterp spec fn style_of(shared: servo_arc::Arc<ComputedStyle>) -> ComputedStyle;

/// `servo_arc::Arc::new`: the new pointer points to the value given.
#[verifier::external_body]
pub(crate) fn arc_new(style: ComputedStyle) -> (shared: servo_arc::Arc<ComputedStyle>)
    ensures
        style_of(shared) == style,
{
    servo_arc::Arc::new(style)
}

/// `Clone::clone` of `servo_arc::Arc`: the clone points to the same value.
#[verifier::external_body]
pub(crate) fn arc_clone(shared: &servo_arc::Arc<ComputedStyle>) -> (other: servo_arc::Arc<
    ComputedStyle,
>)
    ensures
        style_of(other) == style_of(*shared),
{
    shared.clone()
}

/// `Deref::deref` of `servo_arc::Arc`: a reference to the value pointed to.
#[verifier::external_body]
pub(crate) fn arc_deref(shared: &servo_arc::Arc<ComputedStyle>) -> (style: &ComputedStyle)
    ensures
        *style == style_of(*shared),
{
    &**shared
}

/// Puts a style behind a shared pointer.
pub fn share(style: ComputedStyle) -> (shared: servo_arc::Arc<ComputedStyle>)
    ensures
        style_of(shared) == style,
{
    arc_new(style)
}

/// Reads the style behind a shared pointer.
pub fn computed(shared: &servo_arc::Arc<ComputedStyle>) -> (style: ComputedStyle)
    ensures
        style == style_of(*shared),
{
    *arc_deref(shared)
}

} // verus!
