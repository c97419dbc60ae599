//! Linear gains in fixed point.
//!
//! A gain is a whole number of millionths between zero and one million, so
//! that the product of two gains is an exact integer: a whole number of
//! million-millionths, which is what a sink is driven with.

use vstd::prelude::*;

verus! {

/// Number of steps that make up a gain of one.
pub const GAIN_UNIT: u32 = 1_000_000;

/// Number of steps that make up a composed volume of one: `GAIN_UNIT` squared.
pub const VOLUME_UNIT: u64 = 1_000_000_000_000;

/// The nearest value to `raw` between zero and `GAIN_UNIT`.
pub open spec fn clamp_to_unit(raw: int) -> int {
    if raw < 0 {
        0
    } else if raw > GAIN_UNIT as int {
        GAIN_UNIT as int
    } else {
        raw
    }
}

/// A linear gain between zero and one, held in millionths.
#[derive(Clone, Copy, Debug, PartialEq, Eq, Structural)]
pub struct Gain {
    millionths: u32,
}

impl Gain {
    /// The gain as a number of millionths.
    pub closed spec fn view(&self) -> int {
        self.millionths as int
    }

    /// A gain never leaves the range from zero to one.
    #[verifier::type_invariant]
    pub closed spec fn wf(&self) -> bool {
        self.millionths <= GAIN_UNIT
    }

    /// A well-formed gain lies between zero and `GAIN_UNIT`.
    pub proof fn lemma_bounded(g: Gain)
        requires
            g.wf(),
        ensures
            0 <= g@ <= GAIN_UNIT,
    {
    }

    /// Unity gain.
    pub fn full() -> (g: Gain)
        ensures
            g.wf(),
            g@ == GAIN_UNIT,
    {
        Gain { millionths: GAIN_UNIT }
    }

    /// Zero gain.
    pub fn silent() -> (g: Gain)
        ensures
            g.wf(),
            g@ == 0,
    {
        Gain { millionths: 0 }
    }

    /// The gain nearest to `millionths`: values below zero become zero and
    /// values above one million become one million.
    pub fn clamped(millionths: i64) -> (g: Gain)
        ensures
            g.wf(),
            g@ == clamp_to_unit(millionths as int),
    {
        if millionths < 0 {
            Gain { millionths: 0 }
        } else if millionths > 1_000_000 {
            Gain { millionths: GAIN_UNIT }
        } else {
            Gain { millionths: millionths as u32 }
        }
    }

    /// The gain in millionths.
    pub fn millionths(&self) -> (m: u32)
        ensures
            m == self@,
            m <= GAIN_UNIT,
    {
        proof {
            use_type_invariant(self);
        }
        self.millionths
    }
}

/// The volume a sink is driven with: the product of a device gain and a
/// sound gain, held in million-millionths.
#[derive(Clone, Copy, Debug, PartialEq, Eq, Structural)]
pub struct Volume {
    trillionths: u64,
}

impl Volume {
    /// The volume as a number of million-millionths.
    pub closed spec fn view(&self) -> int {
        self.trillionths as int
    }

    /// A volume never leaves the range from zero to one.
    #[verifier::type_invariant]
    pub closed spec fn wf(&self) -> bool {
        self.trillionths <= VOLUME_UNIT
    }

    /// The volume in million-millionths.
    pub fn trillionths(&self) -> (t: u64)
        ensures
            t == self@,
            t <= VOLUME_UNIT,
    {
        proof {
            use_type_invariant(self);
        }
        self.trillionths
    }
}

/// The composed volume of two gains as a number of million-millionths.
pub open spec fn composed_volume(device: Gain, sound: Gain) -> int {
    device@ * sound@
}

/// The product of two gains between zero and one lies between zero and one.
pub proof fn lemma_composed_volume_in_range(a: Gain, b: Gain)
    requires
        a.wf(),
        b.wf(),
    ensures
        composed_volume(a, b) == a@ * b@,
        0 <= composed_volume(a, b) <= VOLUME_UNIT,
{
    Gain::lemma_bounded(a);
    Gain::lemma_bounded(b);
    assert(0 <= a@ * b@ <= 1_000_000 * 1_000_000) by (nonlinear_arith)
        requires
            0 <= a@ <= 1_000_000,
            0 <= b@ <= 1_000_000,
    ;
}

/// Composes a device gain with a sound gain.
pub fn combine_volume(volume1: Gain, volume2: Gain) -> (v: Volume)
    ensures
        v.wf(),
        v@ == composed_volume(volume1, volume2),
        0 <= v@ <= VOLUME_UNIT,
{
    proof {
        use_type_invariant(volume1);
        use_type_invariant(volume2);
        lemma_composed_volume_in_range(volume1, volume2);
    }
    let a: u64 = volume1.millionths as u64;
    let b: u64 = volume2.millionths as u64;
    Volume { trillionths: a * b }
}

} // verus!
