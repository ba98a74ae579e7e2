use vstd::prelude::*;

verus! {

/// Lowest port shown by default: system ports are hidden.
pub const DEFAULT_PORT_RANGE_MIN: u16 = 1024;

/// Highest port shown by default.
pub const DEFAULT_PORT_RANGE_MAX: u16 = 65535;

/// Colour scheme of the window.
#[derive(Debug, Clone, Copy, PartialEq, Eq, Structural)]
pub enum Appearance {
    /// Follow the operating system's light or dark mode.
    System,
    Light,
    Dark,
}

impl Default for Appearance {
    fn default() -> (a: Appearance)
        ensures
            a == Appearance::System,
    {
        Appearance::System
    }
}

/// Whether an appearance fixes dark mode by itself: `Some(true)` for dark,
/// `Some(false)` for light, `None` when the operating system decides.
pub fn fixed_dark_mode(appearance: Appearance) -> (dark: Option<bool>)
    ensures
        dark == match appearance {
            Appearance::Light => Some(false),
            Appearance::Dark => Some(true),
            Appearance::System => None::<bool>,
        },
{
    match appearance {
        Appearance::Light => Some(false),
        Appearance::Dark => Some(true),
        Appearance::System => None,
    }
}

/// The port range with its bounds in order: an inverted range is swapped.
pub open spec fn ordered_range(min: u16, max: u16) -> (u16, u16) {
    if min > max {
        (max, min)
    } else {
        (min, max)
    }
}

/// Normalizes a port range so that its lower bound does not exceed its upper
/// bound, swapping the two when they are inverted.
pub fn normalized_range(min: u16, max: u16) -> (range: (u16, u16))
    ensures
        range == ordered_range(min, max),
{
    if min > max {
        (max, min)
    } else {
        (min, max)
    }
}

/// A normalized range is in order, holds the same two bounds, and is left
/// alone by normalizing it again.
pub proof fn law_normalized_range(min: u16, max: u16)
    ensures
        ordered_range(min, max).0 <= ordered_range(min, max).1,
        ordered_range(min, max) == (min, max) || ordered_range(min, max) == (max, min),
        ordered_range(ordered_range(min, max).0, ordered_range(min, max).1) == ordered_range(min, max),
        min <= max ==> ordered_range(min, max) == (min, max),
{
}

} // verus!
