use vstd::prelude::*;

verus! {

/// The named display colours the game logic picks from. The display layer
/// decides the actual colour values.
#[derive(Clone, Copy, Debug, PartialEq, Eq, Structural)]
pub enum Tint {
    White,
    Yellow,
    Red,
    DarkRed,
    DarkerRed,
    LighterRed,
    Orange,
    Green,
    DesaturatedGreen,
    Blue,
    LightBlue,
    Violet,
    LightViolet,
    LightYellow,
}

} // verus!
