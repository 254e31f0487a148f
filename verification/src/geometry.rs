use vstd::prelude::*;

verus! {

/// A size in terminal cells.
#[derive(Clone, Copy, PartialEq, Eq, Structural, Debug)]
pub struct Size {
    pub width: u16,
    pub height: u16,
}

/// A position in terminal cells, measured from the top-left corner.
#[derive(Clone, Copy, PartialEq, Eq, Structural, Debug)]
pub struct Point {
    pub x: u16,
    pub y: u16,
}

/// The space a node is offered during layout: it must answer with a size
/// between `min` and `max` in both axes.
#[derive(Clone, Copy, PartialEq, Eq, Structural, Debug)]
pub struct BoxConstraints {
    pub min: Size,
    pub max: Size,
}

impl BoxConstraints {
    /// Constraints that admit exactly one size.
    pub fn tight(size: Size) -> (bc: BoxConstraints)
        ensures
            bc == (BoxConstraints { min: size, max: size }),
    {
        BoxConstraints { min: size, max: size }
    }
}

pub open spec fn add_sat_spec(a: u16, b: u16) -> u16 {
    if a + b > u16::MAX {
        u16::MAX
    } else {
        (a + b) as u16
    }
}

pub open spec fn sub_sat_spec(a: u16, b: u16) -> u16 {
    if a < b {
        0
    } else {
        (a - b) as u16
    }
}

/// `x` forced into `[lo, hi]`; when the interval is empty, `hi` wins.
pub open spec fn clamp_spec(x: u16, lo: u16, hi: u16) -> u16 {
    if (if x < lo {
        lo
    } else {
        x
    }) > hi {
        hi
    } else {
        if x < lo {
            lo
        } else {
            x
        }
    }
}

pub fn add_sat(a: u16, b: u16) -> (r: u16)
    ensures
        r == add_sat_spec(a, b),
{
    if a > u16::MAX - b {
        u16::MAX
    } else {
        a + b
    }
}

pub fn sub_sat(a: u16, b: u16) -> (r: u16)
    ensures
        r == sub_sat_spec(a, b),
{
    if a < b {
        0
    } else {
        a - b
    }
}

pub fn clamp(x: u16, lo: u16, hi: u16) -> (r: u16)
    ensures
        r == clamp_spec(x, lo, hi),
{
    let raised: u16 = if x < lo {
        lo
    } else {
        x
    };
    if raised > hi {
        hi
    } else {
        raised
    }
}

} // verus!
