//! The flash bulbs round the edge of the screen, which light one after
//! another as time runs and turn yellow, then red, as it runs out.
use vstd::prelude::*;

verus! {

/// The colour of a flash bulb, or a bulb that is off.
#[derive(Clone, Copy, Debug, PartialEq, Eq, Structural)]
pub enum FBColor {
    GREEN,
    YELLOW,
    RED,
    OFF,
}

/// The colour a bulb lights up in.
#[derive(Clone, Copy, Debug, PartialEq, Eq)]
pub struct FlashbulbColor(pub FBColor);

/// Whether a bulb has lit up.
#[derive(Clone, Copy, Debug, PartialEq, Eq)]
pub struct FlashbulbLit(pub bool);

/// The bulb with this entity id lights up.
#[derive(Clone, Copy, Debug, PartialEq, Eq)]
pub struct LightFlashbulb(pub u64);

/// Every bulb turns yellow.
#[derive(Clone, Copy, Debug, PartialEq, Eq)]
pub struct TurnFlashbulbsYellow;

/// Every bulb turns red.
#[derive(Clone, Copy, Debug, PartialEq, Eq)]
pub struct TurnFlashbulbsRed;

/// The events that bulbs react to.
#[derive(Clone, Copy, Debug, PartialEq, Eq)]
pub enum FlashbulbEvent {
    Light(LightFlashbulb),
    TurnYellow(TurnFlashbulbsYellow),
    TurnRed(TurnFlashbulbsRed),
}

/// One bulb: its entity id, whether it is lit, the colour it lights up in,
/// and the colour its sprite shows.
#[derive(Clone, Copy, Debug, PartialEq, Eq)]
pub struct Flashbulb {
    pub id: u64,
    pub lit: FlashbulbLit,
    pub color: FlashbulbColor,
    pub shown: FBColor,
}

/// A new bulb: not lit, lighting up green, showing the sprite of a bulb that is off.
pub fn new_flashbulb(id: u64) -> (b: Flashbulb)
    ensures
        b == (Flashbulb {
            id,
            lit: FlashbulbLit(false),
            color: FlashbulbColor(FBColor::GREEN),
            shown: FBColor::OFF,
        }),
{
    Flashbulb { id, lit: FlashbulbLit(false), color: FlashbulbColor(FBColor::GREEN), shown: FBColor::OFF }
}

/// A bulb after an event: turning yellow or red sets the colour of every
/// bulb, and a lit one shows it at once; lighting a bulb makes it show its
/// colour and mark it lit; other bulbs are left as they are.
pub open spec fn bulb_after(b: Flashbulb, event: FlashbulbEvent) -> Flashbulb {
    match event {
        FlashbulbEvent::TurnYellow(_) => Flashbulb {
            color: FlashbulbColor(FBColor::YELLOW),
            shown: if b.lit.0 { FBColor::YELLOW } else { b.shown },
            ..b
        },
        FlashbulbEvent::TurnRed(_) => Flashbulb {
            color: FlashbulbColor(FBColor::RED),
            shown: if b.lit.0 { FBColor::RED } else { b.shown },
            ..b
        },
        FlashbulbEvent::Light(LightFlashbulb(id)) => if id == b.id {
            Flashbulb { lit: FlashbulbLit(true), shown: b.color.0, ..b }
        } else {
            b
        },
    }
}

/// What an event does to one bulb (see [`bulb_after`]).
pub fn flashbulb_events(bulb: &Flashbulb, event: &FlashbulbEvent) -> (r: Flashbulb)
    ensures
        r == bulb_after(*bulb, *event),
{
    match event {
        FlashbulbEvent::TurnYellow(_) => Flashbulb {
            color: FlashbulbColor(FBColor::YELLOW),
            shown: if bulb.lit.0 { FBColor::YELLOW } else { bulb.shown },
            ..*bulb
        },
        FlashbulbEvent::TurnRed(_) => Flashbulb {
            color: FlashbulbColor(FBColor::RED),
            shown: if bulb.lit.0 { FBColor::RED } else { bulb.shown },
            ..*bulb
        },
        FlashbulbEvent::Light(LightFlashbulb(id)) => if *id == bulb.id {
            Flashbulb { lit: FlashbulbLit(true), shown: bulb.color.0, ..*bulb }
        } else {
            *bulb
        },
    }
}

/// The tile of the sprite that shows a bulb of the given colour.
pub fn flashbulb_tile(color: FBColor) -> (r: (i32, i32))
    ensures
        color == FBColor::GREEN ==> r == (7i32, 4i32),
        color == FBColor::YELLOW ==> r == (7i32, 5i32),
        color == FBColor::RED ==> r == (7i32, 6i32),
        color == FBColor::OFF ==> r == (6i32, 4i32),
{
    match color {
        FBColor::GREEN => (7, 4),
        FBColor::YELLOW => (7, 5),
        FBColor::RED => (7, 6),
        FBColor::OFF => (6, 4),
    }
}

/// A bulb shows its colour once lit, and the sprite of a bulb that is off before.
pub open spec fn shows_its_state(b: Flashbulb) -> bool {
    &&& b.lit.0 ==> b.shown == b.color.0
    &&& !b.lit.0 ==> b.shown == FBColor::OFF
}

/// Law: every event keeps a bulb showing its state, a lit bulb stays lit,
/// and the bulb keeps its id.
pub proof fn law_bulbs_show_their_state(b: Flashbulb, event: FlashbulbEvent)
    requires
        shows_its_state(b),
    ensures
        shows_its_state(bulb_after(b, event)),
        b.lit.0 ==> bulb_after(b, event).lit.0,
        bulb_after(b, event).id == b.id,
{
}


/// Law: turning yellow, or red, gives every bulb that colour, whatever
/// colour it had and whether or not it is lit; a lit bulb shows the new
/// colour at once and an unlit one keeps showing what it showed. Lighting
/// a bulb makes it lit and show its own colour, and leaves every other
/// bulb as it was. No event changes a bulb's id.
pub proof fn law_bulbs_change_colour_together(
    b: Flashbulb,
    yellow: TurnFlashbulbsYellow,
    red: TurnFlashbulbsRed,
    id: u64,
)
    ensures
        bulb_after(b, FlashbulbEvent::TurnYellow(yellow)).color == FlashbulbColor(FBColor::YELLOW),
        bulb_after(b, FlashbulbEvent::TurnRed(red)).color == FlashbulbColor(FBColor::RED),
        b.lit.0 ==> bulb_after(b, FlashbulbEvent::TurnYellow(yellow)).shown == FBColor::YELLOW,
        b.lit.0 ==> bulb_after(b, FlashbulbEvent::TurnRed(red)).shown == FBColor::RED,
        !b.lit.0 ==> bulb_after(b, FlashbulbEvent::TurnYellow(yellow)).shown == b.shown,
        !b.lit.0 ==> bulb_after(b, FlashbulbEvent::TurnRed(red)).shown == b.shown,
        bulb_after(b, FlashbulbEvent::TurnYellow(yellow)).lit == b.lit,
        bulb_after(b, FlashbulbEvent::TurnRed(red)).lit == b.lit,
        bulb_after(b, FlashbulbEvent::Light(LightFlashbulb(b.id))).lit.0,
        bulb_after(b, FlashbulbEvent::Light(LightFlashbulb(b.id))).shown == b.color.0,
        bulb_after(b, FlashbulbEvent::Light(LightFlashbulb(b.id))).color == b.color,
        id != b.id ==> bulb_after(b, FlashbulbEvent::Light(LightFlashbulb(id))) == b,
        bulb_after(b, FlashbulbEvent::TurnYellow(yellow)).id == b.id,
        bulb_after(b, FlashbulbEvent::TurnRed(red)).id == b.id,
{
}

} // verus!
