//! Mixing the primary colours of the red-yellow-blue colour model.
use vstd::prelude::*;

verus! {

/// A colour of the red-yellow-blue model.
#[derive(Debug, PartialEq, Eq, Structural, Clone, Copy)]
pub enum RYB {
    Primary(PrimaryColor),
    Secondary(SecondaryColor),
}

/// A colour that mixes no other.
#[derive(Debug, PartialEq, Eq, Structural, Clone, Copy)]
pub enum PrimaryColor {
    Red,
    Yellow,
    Blue,
}

/// A colour that mixes two different primary colours.
#[derive(Debug, PartialEq, Eq, Structural, Clone, Copy)]
pub enum SecondaryColor {
    Orange,
    Green,
    Purple,
}

/// The colour that mixing `c1` with `c2` gives: a colour with itself stays
/// as it is; two different ones give the secondary colour between them.
pub open spec fn mixed(c1: PrimaryColor, c2: PrimaryColor) -> RYB {
    if c1 == c2 {
        RYB::Primary(c1)
    } else if c1 != PrimaryColor::Blue && c2 != PrimaryColor::Blue {
        RYB::Secondary(SecondaryColor::Orange)
    } else if c1 != PrimaryColor::Red && c2 != PrimaryColor::Red {
        RYB::Secondary(SecondaryColor::Green)
    } else {
        RYB::Secondary(SecondaryColor::Purple)
    }
}

/// Mixes two primary colours.
pub fn mix(c1: PrimaryColor, c2: PrimaryColor) -> (r: RYB)
    ensures
        r == mixed(c1, c2),
{
    match c1 {
        PrimaryColor::Red => match c2 {
            PrimaryColor::Red => RYB::Primary(PrimaryColor::Red),
            PrimaryColor::Yellow => RYB::Secondary(SecondaryColor::Orange),
            PrimaryColor::Blue => RYB::Secondary(SecondaryColor::Purple),
        },
        PrimaryColor::Yellow => match c2 {
            PrimaryColor::Red => RYB::Secondary(SecondaryColor::Orange),
            PrimaryColor::Yellow => RYB::Primary(PrimaryColor::Yellow),
            PrimaryColor::Blue => RYB::Secondary(SecondaryColor::Green),
        },
        PrimaryColor::Blue => match c2 {
            PrimaryColor::Red => RYB::Secondary(SecondaryColor::Purple),
            PrimaryColor::Yellow => RYB::Secondary(SecondaryColor::Green),
            PrimaryColor::Blue => RYB::Primary(PrimaryColor::Blue),
        },
    }
}

/// Mixing does not depend on the order of the two colours.
pub proof fn lemma_mix_commutes(c1: PrimaryColor, c2: PrimaryColor)
    ensures
        mixed(c1, c2) == mixed(c2, c1),
{
}

} // verus!
