//! Selection of the visual transform, and the bounds of the frequency-range
//! slider.
use vstd::prelude::*;

verus! {

/// The visual transform that runs on each frame.
#[derive(Clone, Copy, Debug, PartialEq, Eq, Structural)]
pub enum Preset {
    Scroll,
    Power,
    Spectrum,
}

/// The display modes offered to the user, one per transform.
#[derive(Clone, Copy, Debug, PartialEq, Eq, Structural)]
pub enum DisplayMode {
    Rolling,
    Power,
    Frequency,
}

impl DisplayMode {
    /// Every mode, in the order in which a picker lists them.
    pub fn all() -> (r: Vec<DisplayMode>)
        ensures
            r@ == seq![DisplayMode::Rolling, DisplayMode::Power, DisplayMode::Frequency],
    {
        let v = vec![DisplayMode::Rolling, DisplayMode::Power, DisplayMode::Frequency];
        proof {
            assert(v@ =~= seq![DisplayMode::Rolling, DisplayMode::Power, DisplayMode::Frequency]);
        }
        v
    }

    /// The name shown for the mode.
    pub fn label(&self) -> (r: &'static str)
        ensures
            r@ == (match self {
                DisplayMode::Rolling => "Rolling"@,
                DisplayMode::Power => "Power"@,
                DisplayMode::Frequency => "Frequency"@,
            }),
    {
        match self {
            DisplayMode::Rolling => "Rolling",
            DisplayMode::Power => "Power",
            DisplayMode::Frequency => "Frequency",
        }
    }

    /// The transform that the mode selects.
    pub fn preset(&self) -> (r: Preset)
        ensures
            r == (match self {
                DisplayMode::Rolling => Preset::Scroll,
                DisplayMode::Power => Preset::Power,
                DisplayMode::Frequency => Preset::Spectrum,
            }),
    {
        match self {
            DisplayMode::Rolling => Preset::Scroll,
            DisplayMode::Power => Preset::Power,
            DisplayMode::Frequency => Preset::Spectrum,
        }
    }
}

/// One of the two handles of the frequency-range slider.
#[derive(Clone, Copy, Debug, PartialEq, Eq, Structural)]
pub enum SliderSide {
    Left,
    Right,
}

/// `x` raised to `start` if below it, then lowered to `end` if above it.
pub open spec fn clamp_to(x: u32, start: u32, end: u32) -> u32 {
    let y = if x >= start {
        x
    } else {
        start
    };
    if y <= end {
        y
    } else {
        end
    }
}

/// The handle positions of a slider over `start..=end`: each value clamped
/// into the range, and the left one no further right than the right one.
pub fn clamp_slider_values(start: u32, end: u32, left: u32, right: u32) -> (r: (u32, u32))
    ensures
        r.1 == clamp_to(right, start, end),
        r.0 == if clamp_to(left, start, end) <= r.1 {
            clamp_to(left, start, end)
        } else {
            r.1
        },
        r.0 <= r.1,
        start <= end ==> start <= r.0 && r.1 <= end,
{
    let l = if left >= start {
        left
    } else {
        start
    };
    let l = if l <= end {
        l
    } else {
        end
    };
    let r = if right >= start {
        right
    } else {
        start
    };
    let r = if r <= end {
        r
    } else {
        end
    };
    let l = if l <= r {
        l
    } else {
        r
    };
    (l, r)
}

} // verus!
