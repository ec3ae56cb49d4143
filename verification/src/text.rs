//! Text drawn on the screen and how it lines up with the point it is drawn at.
use vstd::prelude::*;

verus! {

/// Justification flag: centred horizontally.
pub const CENTER: u8 = 0b_0000_0001;
/// Justification flag: starts at the point.
pub const LEFT: u8 = 0b_0000_0010;
/// Justification flag: ends at the point.
pub const RIGHT: u8 = 0b_0000_0100;
/// Justification flag: centred vertically.
pub const MIDDLE: u8 = 0b_0000_1000;
/// Justification flag: sits on the point.
pub const BOTTOM: u8 = 0b_0001_0000;
/// Justification flag: hangs from the point.
pub const TOP: u8 = 0b_0010_0000;

/// A line of text and its justification flags.
#[derive(Clone, Debug, PartialEq, Eq)]
pub struct Text {
    pub text: String,
    pub justification: u8,
}

/// Where text sits across from the point it is drawn at.
#[derive(Clone, Copy, Debug, PartialEq, Eq, Structural)]
pub enum Horizontal {
    /// The text starts at the point.
    Left,
    /// The text ends at the point.
    Right,
    /// The text is centred on the point.
    Centre,
}

/// Where text sits up and down from the point it is drawn at.
#[derive(Clone, Copy, Debug, PartialEq, Eq, Structural)]
pub enum Vertical {
    /// The text sits on the point.
    Bottom,
    /// The text hangs from the point.
    Top,
    /// The text is centred on the point.
    Middle,
}

/// The horizontal placement that justification flags ask for: left or
/// right when exactly one of those flags is set, centred otherwise.
pub open spec fn horizontal_of(justification: u8) -> Horizontal {
    let left = justification & LEFT > 0;
    let right = justification & RIGHT > 0;
    if left && !right {
        Horizontal::Left
    } else if !left && right {
        Horizontal::Right
    } else {
        Horizontal::Centre
    }
}

/// The vertical placement that justification flags ask for: bottom or top
/// when exactly one of those flags is set, centred otherwise.
pub open spec fn vertical_of(justification: u8) -> Vertical {
    let bottom = justification & BOTTOM > 0;
    let top = justification & TOP > 0;
    if bottom && !top {
        Vertical::Bottom
    } else if !bottom && top {
        Vertical::Top
    } else {
        Vertical::Middle
    }
}

impl Text {
    /// Where the text sits across from its point.
    pub fn horizontal(&self) -> (h: Horizontal)
        ensures
            h == horizontal_of(self.justification),
    {
        match (self.justification & LEFT > 0, self.justification & RIGHT > 0) {
            (true, false) => Horizontal::Left,
            (false, true) => Horizontal::Right,
            _ => Horizontal::Centre,
        }
    }

    /// Where the text sits up and down from its point.
    pub fn vertical(&self) -> (v: Vertical)
        ensures
            v == vertical_of(self.justification),
    {
        match (self.justification & BOTTOM > 0, self.justification & TOP > 0) {
            (true, false) => Vertical::Bottom,
            (false, true) => Vertical::Top,
            _ => Vertical::Middle,
        }
    }
}


/// Law: whatever other flags are set, the LEFT flag without the RIGHT one
/// starts text at its point, the RIGHT flag without the LEFT one ends it
/// there, and both or neither centre it; likewise BOTTOM without TOP sets
/// text on its point, TOP without BOTTOM hangs it from the point, and both
/// or neither centre it. So LEFT alone gives `Left`, and RIGHT with MIDDLE,
/// as the score is drawn, gives `Right` and `Middle`.
pub proof fn law_flags_place_text(j: u8)
    ensures
        j & LEFT != 0 && j & RIGHT == 0 ==> horizontal_of(j) == Horizontal::Left,
        j & RIGHT != 0 && j & LEFT == 0 ==> horizontal_of(j) == Horizontal::Right,
        (j & LEFT != 0) == (j & RIGHT != 0) ==> horizontal_of(j) == Horizontal::Centre,
        j & BOTTOM != 0 && j & TOP == 0 ==> vertical_of(j) == Vertical::Bottom,
        j & TOP != 0 && j & BOTTOM == 0 ==> vertical_of(j) == Vertical::Top,
        (j & BOTTOM != 0) == (j & TOP != 0) ==> vertical_of(j) == Vertical::Middle,
        horizontal_of(LEFT) == Horizontal::Left,
        horizontal_of(RIGHT) == Horizontal::Right,
        horizontal_of(RIGHT | MIDDLE) == Horizontal::Right,
        vertical_of(RIGHT | MIDDLE) == Vertical::Middle,
{
    assert(LEFT & LEFT != 0 && LEFT & RIGHT == 0) by (bit_vector);
    assert(RIGHT & RIGHT != 0 && RIGHT & LEFT == 0) by (bit_vector);
    assert((RIGHT | MIDDLE) & RIGHT != 0 && (RIGHT | MIDDLE) & LEFT == 0) by (bit_vector);
    assert((RIGHT | MIDDLE) & BOTTOM == 0 && (RIGHT | MIDDLE) & TOP == 0) by (bit_vector);
}

} // verus!
