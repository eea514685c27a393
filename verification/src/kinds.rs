//! The small closed enumerations of the room model.

use vstd::prelude::*;
use screeps_api::websocket::objects::KnownRoomObject;

verus! {

/// Connection lifecycle of the stream that feeds a room.
#[derive(Copy, Clone, Debug, PartialEq, Eq, Structural)]
pub enum ConnectionState {
    Disconnected,
    Authenticating,
    Connected,
    Error,
}

impl Default for ConnectionState {
    /// A connection starts out disconnected.
    fn default() -> (s: ConnectionState)
        ensures
            s == ConnectionState::Disconnected,
    {
        ConnectionState::Disconnected
    }
}

impl ConnectionState {
    /// The words that a state is shown with.
    pub open spec fn words(self) -> Seq<char> {
        match self {
            ConnectionState::Disconnected => "disconnected"@,
            ConnectionState::Authenticating => "authenticating..."@,
            ConnectionState::Connected => "connected"@,
            ConnectionState::Error => "error!"@,
        }
    }

    /// The state as text.
    pub fn to_text(&self) -> (r: String)
        ensures
            r@ == self.words(),
    {
        match self {
            ConnectionState::Disconnected => "disconnected".to_owned(),
            ConnectionState::Authenticating => "authenticating...".to_owned(),
            ConnectionState::Connected => "connected".to_owned(),
            ConnectionState::Error => "error!".to_owned(),
        }
    }
}

/// Walkability of one tile.
#[derive(Copy, Clone, Debug, PartialEq, Eq, Structural)]
pub enum TerrainType {
    Plains,
    Swamp,
    Wall,
    SwampyWall,
}

/// The terrain kinds that are drawn. Declared in drawing order.
#[derive(Copy, Clone, Debug, Hash, PartialEq, Eq, PartialOrd, Ord, Structural)]
pub enum InterestingTerrainType {
    Swamp,
    Wall,
}

impl InterestingTerrainType {
    /// What is drawn for a tile of the given terrain, if anything.
    pub open spec fn of_terrain(terrain: TerrainType) -> Option<InterestingTerrainType> {
        match terrain {
            TerrainType::Plains => None,
            TerrainType::Swamp => Some(InterestingTerrainType::Swamp),
            TerrainType::Wall => Some(InterestingTerrainType::Wall),
            TerrainType::SwampyWall => Some(InterestingTerrainType::Wall),
        }
    }

    /// Plains are not drawn, a swamp is drawn as a swamp, and both kinds
    /// of wall are drawn as a wall.
    pub fn from_terrain(terrain: TerrainType) -> (r: Option<InterestingTerrainType>)
        ensures
            r == Self::of_terrain(terrain),
    {
        match terrain {
            TerrainType::Plains => None,
            TerrainType::Swamp => Some(InterestingTerrainType::Swamp),
            TerrainType::Wall | TerrainType::SwampyWall => Some(InterestingTerrainType::Wall),
        }
    }

    /// Position in drawing order.
    pub open spec fn rank(self) -> u8 {
        match self {
            InterestingTerrainType::Swamp => 0u8,
            InterestingTerrainType::Wall => 1u8,
        }
    }

    pub fn rank_of(&self) -> (r: u8)
        ensures
            r == self.rank(),
    {
        match self {
            InterestingTerrainType::Swamp => 0u8,
            InterestingTerrainType::Wall => 1u8,
        }
    }
}

/// The kinds of room object. Declared in drawing order.
#[derive(Copy, Clone, Debug, Hash, PartialEq, Eq, PartialOrd, Ord, Structural)]
pub enum RoomObjectType {
    Road,
    Container,
    Tombstone,
    Resource,
    Rampart,
    Wall,
    Source,
    Mineral,
    KeeperLair,
    Controller,
    Extractor,
    Extension,
    Spawn,
    Portal,
    Link,
    Storage,
    Tower,
    Observer,
    PowerBank,
    PowerSpawn,
    Lab,
    Terminal,
    Nuker,
    Creep,
}

impl RoomObjectType {
    /// The kind of a decoded room object. A construction site is decoded
    /// but has no place among the kinds that are drawn.
    pub open spec fn kind_of(obj: KnownRoomObject) -> Option<RoomObjectType> {
        match obj {
            KnownRoomObject::Road(_) => Some(RoomObjectType::Road),
            KnownRoomObject::Container(_) => Some(RoomObjectType::Container),
            KnownRoomObject::Tombstone(_) => Some(RoomObjectType::Tombstone),
            KnownRoomObject::Resource(_) => Some(RoomObjectType::Resource),
            KnownRoomObject::Rampart(_) => Some(RoomObjectType::Rampart),
            KnownRoomObject::Wall(_) => Some(RoomObjectType::Wall),
            KnownRoomObject::Source(_) => Some(RoomObjectType::Source),
            KnownRoomObject::Mineral(_) => Some(RoomObjectType::Mineral),
            KnownRoomObject::KeeperLair(_) => Some(RoomObjectType::KeeperLair),
            KnownRoomObject::Controller(_) => Some(RoomObjectType::Controller),
            KnownRoomObject::Extractor(_) => Some(RoomObjectType::Extractor),
            KnownRoomObject::Extension(_) => Some(RoomObjectType::Extension),
            KnownRoomObject::Spawn(_) => Some(RoomObjectType::Spawn),
            KnownRoomObject::Portal(_) => Some(RoomObjectType::Portal),
            KnownRoomObject::Link(_) => Some(RoomObjectType::Link),
            KnownRoomObject::Storage(_) => Some(RoomObjectType::Storage),
            KnownRoomObject::Tower(_) => Some(RoomObjectType::Tower),
            KnownRoomObject::Observer(_) => Some(RoomObjectType::Observer),
            KnownRoomObject::PowerBank(_) => Some(RoomObjectType::PowerBank),
            KnownRoomObject::PowerSpawn(_) => Some(RoomObjectType::PowerSpawn),
            KnownRoomObject::Lab(_) => Some(RoomObjectType::Lab),
            KnownRoomObject::Terminal(_) => Some(RoomObjectType::Terminal),
            KnownRoomObject::Nuker(_) => Some(RoomObjectType::Nuker),
            KnownRoomObject::Creep(_) => Some(RoomObjectType::Creep),
            KnownRoomObject::ConstructionSite(_) => None,
        }
    }

    /// The kind of a decoded room object, where it has one.
    pub fn of(obj: &KnownRoomObject) -> (r: Option<RoomObjectType>)
        ensures
            r == Self::kind_of(*obj),
    {
        match obj {
            KnownRoomObject::Road(_) => Some(RoomObjectType::Road),
            KnownRoomObject::Container(_) => Some(RoomObjectType::Container),
            KnownRoomObject::Tombstone(_) => Some(RoomObjectType::Tombstone),
            KnownRoomObject::Resource(_) => Some(RoomObjectType::Resource),
            KnownRoomObject::Rampart(_) => Some(RoomObjectType::Rampart),
            KnownRoomObject::Wall(_) => Some(RoomObjectType::Wall),
            KnownRoomObject::Source(_) => Some(RoomObjectType::Source),
            KnownRoomObject::Mineral(_) => Some(RoomObjectType::Mineral),
            KnownRoomObject::KeeperLair(_) => Some(RoomObjectType::KeeperLair),
            KnownRoomObject::Controller(_) => Some(RoomObjectType::Controller),
            KnownRoomObject::Extractor(_) => Some(RoomObjectType::Extractor),
            KnownRoomObject::Extension(_) => Some(RoomObjectType::Extension),
            KnownRoomObject::Spawn(_) => Some(RoomObjectType::Spawn),
            KnownRoomObject::Portal(_) => Some(RoomObjectType::Portal),
            KnownRoomObject::Link(_) => Some(RoomObjectType::Link),
            KnownRoomObject::Storage(_) => Some(RoomObjectType::Storage),
            KnownRoomObject::Tower(_) => Some(RoomObjectType::Tower),
            KnownRoomObject::Observer(_) => Some(RoomObjectType::Observer),
            KnownRoomObject::PowerBank(_) => Some(RoomObjectType::PowerBank),
            KnownRoomObject::PowerSpawn(_) => Some(RoomObjectType::PowerSpawn),
            KnownRoomObject::Lab(_) => Some(RoomObjectType::Lab),
            KnownRoomObject::Terminal(_) => Some(RoomObjectType::Terminal),
            KnownRoomObject::Nuker(_) => Some(RoomObjectType::Nuker),
            KnownRoomObject::Creep(_) => Some(RoomObjectType::Creep),
            KnownRoomObject::ConstructionSite(_) => None,
        }
    }

    /// Position in drawing order: roads lowest, creeps on top.
    pub open spec fn rank(self) -> u8 {
        match self {
            RoomObjectType::Road => 0u8,
            RoomObjectType::Container => 1u8,
            RoomObjectType::Tombstone => 2u8,
            RoomObjectType::Resource => 3u8,
            RoomObjectType::Rampart => 4u8,
            RoomObjectType::Wall => 5u8,
            RoomObjectType::Source => 6u8,
            RoomObjectType::Mineral => 7u8,
            RoomObjectType::KeeperLair => 8u8,
            RoomObjectType::Controller => 9u8,
            RoomObjectType::Extractor => 10u8,
            RoomObjectType::Extension => 11u8,
            RoomObjectType::Spawn => 12u8,
            RoomObjectType::Portal => 13u8,
            RoomObjectType::Link => 14u8,
            RoomObjectType::Storage => 15u8,
            RoomObjectType::Tower => 16u8,
            RoomObjectType::Observer => 17u8,
            RoomObjectType::PowerBank => 18u8,
            RoomObjectType::PowerSpawn => 19u8,
            RoomObjectType::Lab => 20u8,
            RoomObjectType::Terminal => 21u8,
            RoomObjectType::Nuker => 22u8,
            RoomObjectType::Creep => 23u8,
        }
    }

    pub fn rank_of(&self) -> (r: u8)
        ensures
            r == self.rank(),
    {
        match self {
            RoomObjectType::Road => 0u8,
            RoomObjectType::Container => 1u8,
            RoomObjectType::Tombstone => 2u8,
            RoomObjectType::Resource => 3u8,
            RoomObjectType::Rampart => 4u8,
            RoomObjectType::Wall => 5u8,
            RoomObjectType::Source => 6u8,
            RoomObjectType::Mineral => 7u8,
            RoomObjectType::KeeperLair => 8u8,
            RoomObjectType::Controller => 9u8,
            RoomObjectType::Extractor => 10u8,
            RoomObjectType::Extension => 11u8,
            RoomObjectType::Spawn => 12u8,
            RoomObjectType::Portal => 13u8,
            RoomObjectType::Link => 14u8,
            RoomObjectType::Storage => 15u8,
            RoomObjectType::Tower => 16u8,
            RoomObjectType::Observer => 17u8,
            RoomObjectType::PowerBank => 18u8,
            RoomObjectType::PowerSpawn => 19u8,
            RoomObjectType::Lab => 20u8,
            RoomObjectType::Terminal => 21u8,
            RoomObjectType::Nuker => 22u8,
            RoomObjectType::Creep => 23u8,
        }
    }

    /// Two kinds with the same position are the same kind.
    pub proof fn lemma_rank_injective(a: RoomObjectType, b: RoomObjectType)
        requires
            a.rank() == b.rank(),
        ensures
            a == b,
    {
    }
}

} // verus!
