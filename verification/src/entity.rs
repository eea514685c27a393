//! What a room holds: flags and room objects, reduced to the fields that
//! placing and stacking them reads.

use vstd::prelude::*;
use crate::kinds::RoomObjectType;

verus! {

/// The ten flag colours.
#[derive(Copy, Clone, Debug, Hash, PartialEq, Eq, Structural)]
pub enum FlagColor {
    Red,
    Purple,
    Blue,
    Cyan,
    Green,
    Yellow,
    Orange,
    Brown,
    Grey,
    White,
}

/// A user's flag, placed on one tile.
#[derive(Debug, Hash, PartialEq, Eq)]
pub struct Flag {
    pub name: String,
    pub primary_color: FlagColor,
    pub secondary_color: FlagColor,
    pub x: u32,
    pub y: u32,
}

impl Clone for Flag {
    fn clone(&self) -> (r: Self)
        ensures
            r == *self,
    {
        Flag {
            name: self.name.clone(),
            primary_color: self.primary_color,
            secondary_color: self.secondary_color,
            x: self.x,
            y: self.y,
        }
    }
}

/// A room object as the room tracks it: its kind, its identity and the
/// tile it stands on.
#[derive(Debug, Hash, PartialEq, Eq)]
pub struct RoomObject {
    pub kind: RoomObjectType,
    pub id: String,
    pub x: u32,
    pub y: u32,
}

impl Clone for RoomObject {
    fn clone(&self) -> (r: Self)
        ensures
            r == *self,
    {
        RoomObject { kind: self.kind, id: self.id.clone(), x: self.x, y: self.y }
    }
}

} // verus!
