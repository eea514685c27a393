//! The wire types of the game's client library and the calls into it, as
//! far as the room store needs them.
//!
//! Nothing here is proved. A declaration makes a type of that library
//! known, so that values of it can be held and handed on. A function here
//! makes one call into that library or into the JSON library, and its
//! contract is taken on trust from what the called function's source
//! shows. What a call computes is given a name where the room store's
//! contracts speak of it.

use vstd::prelude::*;
use screeps_api::websocket::objects::KnownRoomObject;
use screeps_api::websocket::{RoomUserInfo, RoomUserInfoUpdate};
use serde_json::Value;

verus! {

/// A JSON value. Opaque: payloads are carried, never inspected.
#[verifier::external_type_specification]
#[verifier::external_body]
pub struct ExJsonValue(serde_json::Value);

/// The error of a failed JSON decode. Opaque.
#[verifier::external_type_specification]
#[verifier::external_body]
pub struct ExJsonError(serde_json::Error);

/// A room object as decoded from the wire: one variant per kind, each
/// holding that kind's own record. The variants are known; the records
/// are opaque.
#[verifier::external_type_specification]
pub struct ExKnownRoomObject(screeps_api::websocket::objects::KnownRoomObject);

/// What the wire says of a user who has something in the room. Opaque.
#[verifier::external_type_specification]
#[verifier::external_body]
pub struct ExRoomUserInfo(screeps_api::websocket::RoomUserInfo);

/// A partial update of a user's record. Opaque.
#[verifier::external_type_specification]
#[verifier::external_body]
pub struct ExRoomUserInfoUpdate(screeps_api::websocket::RoomUserInfoUpdate);

/// The record of one kind of room object. Opaque.
#[verifier::external_type_specification]
#[verifier::external_body]
pub struct ExSourceRecord(screeps_api::websocket::objects::Source);

/// The record of one kind of room object. Opaque.
#[verifier::external_type_specification]
#[verifier::external_body]
pub struct ExMineralRecord(screeps_api::websocket::objects::Mineral);

/// The record of one kind of room object. Opaque.
#[verifier::external_type_specification]
#[verifier::external_body]
pub struct ExStructureSpawnRecord(screeps_api::websocket::objects::StructureSpawn);

/// The record of one kind of room object. Opaque.
#[verifier::external_type_specification]
#[verifier::external_body]
pub struct ExStructureExtensionRecord(screeps_api::websocket::objects::StructureExtension);

/// The record of one kind of room object. Opaque.
#[verifier::external_type_specification]
#[verifier::external_body]
pub struct ExStructureExtractorRecord(screeps_api::websocket::objects::StructureExtractor);

/// The record of one kind of room object. Opaque.
#[verifier::external_type_specification]
#[verifier::external_body]
pub struct ExStructureWallRecord(screeps_api::websocket::objects::StructureWall);

/// The record of one kind of room object. Opaque.
#[verifier::external_type_specification]
#[verifier::external_body]
pub struct ExStructureRoadRecord(screeps_api::websocket::objects::StructureRoad);

/// The record of one kind of room object. Opaque.
#[verifier::external_type_specification]
#[verifier::external_body]
pub struct ExStructureRampartRecord(screeps_api::websocket::objects::StructureRampart);

/// The record of one kind of room object. Opaque.
#[verifier::external_type_specification]
#[verifier::external_body]
pub struct ExStructureKeeperLairRecord(screeps_api::websocket::objects::StructureKeeperLair);

/// The record of one kind of room object. Opaque.
#[verifier::external_type_specification]
#[verifier::external_body]
pub struct ExStructureControllerRecord(screeps_api::websocket::objects::StructureController);

/// The record of one kind of room object. Opaque.
#[verifier::external_type_specification]
#[verifier::external_body]
pub struct ExStructurePortalRecord(screeps_api::websocket::objects::StructurePortal);

/// The record of one kind of room object. Opaque.
#[verifier::external_type_specification]
#[verifier::external_body]
pub struct ExStructureLinkRecord(screeps_api::websocket::objects::StructureLink);

/// The record of one kind of room object. Opaque.
#[verifier::external_type_specification]
#[verifier::external_body]
pub struct ExStructureStorageRecord(screeps_api::websocket::objects::StructureStorage);

/// The record of one kind of room object. Opaque.
#[verifier::external_type_specification]
#[verifier::external_body]
pub struct ExStructureTowerRecord(screeps_api::websocket::objects::StructureTower);

/// The record of one kind of room object. Opaque.
#[verifier::external_type_specification]
#[verifier::external_body]
pub struct ExStructureObserverRecord(screeps_api::websocket::objects::StructureObserver);

/// The record of one kind of room object. Opaque.
#[verifier::external_type_specification]
#[verifier::external_body]
pub struct ExStructurePowerBankRecord(screeps_api::websocket::objects::StructurePowerBank);

/// The record of one kind of room object. Opaque.
#[verifier::external_type_specification]
#[verifier::external_body]
pub struct ExStructurePowerSpawnRecord(screeps_api::websocket::objects::StructurePowerSpawn);

/// The record of one kind of room object. Opaque.
#[verifier::external_type_specification]
#[verifier::external_body]
pub struct ExStructureLabRecord(screeps_api::websocket::objects::StructureLab);

/// The record of one kind of room object. Opaque.
#[verifier::external_type_specification]
#[verifier::external_body]
pub struct ExStructureTerminalRecord(screeps_api::websocket::objects::StructureTerminal);

/// The record of one kind of room object. Opaque.
#[verifier::external_type_specification]
#[verifier::external_body]
pub struct ExStructureContainerRecord(screeps_api::websocket::objects::StructureContainer);

/// The record of one kind of room object. Opaque.
#[verifier::external_type_specification]
#[verifier::external_body]
pub struct ExStructureNukerRecord(screeps_api::websocket::objects::StructureNuker);

/// The record of one kind of room object. Opaque.
#[verifier::external_type_specification]
#[verifier::external_body]
pub struct ExTombstoneRecord(screeps_api::websocket::objects::Tombstone);

/// The record of one kind of room object. Opaque.
#[verifier::external_type_specification]
#[verifier::external_body]
pub struct ExCreepRecord(screeps_api::websocket::objects::Creep);

/// The record of one kind of room object. Opaque.
#[verifier::external_type_specification]
#[verifier::external_body]
pub struct ExResourceRecord(screeps_api::websocket::objects::Resource);

/// The record of one kind of room object. Opaque.
#[verifier::external_type_specification]
#[verifier::external_body]
pub struct ExConstructionSiteRecord(screeps_api::websocket::objects::ConstructionSite);

/// Whether a JSON value is `null`.
pub uninterp spec fn json_is_null(v: Value) -> bool;

/// The id that a decoded room object carries.
pub uninterp spec fn wire_id(o: KnownRoomObject) -> Seq<char>;

/// The column that a decoded room object stands on.
pub uninterp spec fn wire_x(o: KnownRoomObject) -> u32;

/// The row that a decoded room object stands on.
pub uninterp spec fn wire_y(o: KnownRoomObject) -> u32;

/// `serde_json::Value::is_null`: tells the JSON `null` from every other
/// value.
#[verifier::external_body]
pub(crate) fn value_is_null(v: &Value) -> (r: bool)
    ensures
        r == json_is_null(*v),
{
    v.is_null()
}

/// `KnownRoomObject::id`, as an owned text.
#[verifier::external_body]
pub(crate) fn object_id(o: &KnownRoomObject) -> (r: String)
    ensures
        r@ == wire_id(*o),
{
    o.id().to_owned()
}

/// `KnownRoomObject::x`.
#[verifier::external_body]
pub(crate) fn object_x(o: &KnownRoomObject) -> (r: u32)
    ensures
        r == wire_x(*o),
{
    o.x()
}

/// `KnownRoomObject::y`.
#[verifier::external_body]
pub(crate) fn object_y(o: &KnownRoomObject) -> (r: u32)
    ensures
        r == wire_y(*o),
{
    o.y()
}

/// The room object that a payload decodes to, where it decodes as a
/// complete room object.
pub uninterp spec fn decoded_object(data: Value) -> Option<KnownRoomObject>;

/// What a room object becomes when a payload is merged into it, where
/// the payload decodes as a partial object of its kind.
pub uninterp spec fn merged_object(o: KnownRoomObject, data: Value) -> Option<KnownRoomObject>;

/// The user record that a payload decodes to, where it decodes as a
/// complete record.
pub uninterp spec fn decoded_user(data: Value) -> Option<RoomUserInfo>;

/// The partial user record that a payload decodes to, where it decodes
/// as one.
pub uninterp spec fn decoded_user_update(data: Value) -> Option<RoomUserInfoUpdate>;

/// What a user record becomes when a partial record is merged into it.
pub uninterp spec fn merged_user(info: RoomUserInfo, update: RoomUserInfoUpdate) -> RoomUserInfo;

/// `serde_json::from_value` at `KnownRoomObject`: decodes a complete room
/// object from a payload, or fails. The outcome is a function of the
/// payload.
#[verifier::external_body]
pub(crate) fn decode_object(data: &Value) -> (r: Result<KnownRoomObject, serde_json::Error>)
    ensures
        match r {
            Ok(o) => decoded_object(*data) == Some(o),
            Err(_) => decoded_object(*data) is None,
        },
{
    serde_json::from_value(data.clone())
}

/// `KnownRoomObject::update`: merges a partial payload into a room object.
/// The outcome is a function of the object and the payload. The payload
/// is decoded before anything is written, so a failure leaves the object
/// as it was; and the merge goes to the record inside the variant, so the
/// variant stays.
#[verifier::external_body]
pub(crate) fn merge_object(o: &mut KnownRoomObject, data: &Value) -> (r: Result<
    (),
    serde_json::Error,
>)
    ensures
        match r {
            Ok(_) => merged_object(*old(o), *data) == Some(*final(o)),
            Err(_) => merged_object(*old(o), *data) is None && *final(o) == *old(o),
        },
        crate::kinds::RoomObjectType::kind_of(*final(o)) == crate::kinds::RoomObjectType::kind_of(
            *old(o),
        ),
{
    o.update(data.clone())
}

/// `serde_json::from_value` at `RoomUserInfo`: decodes a complete user
/// record, or fails. The outcome is a function of the payload.
#[verifier::external_body]
pub(crate) fn decode_user(data: &Value) -> (r: Result<RoomUserInfo, serde_json::Error>)
    ensures
        match r {
            Ok(info) => decoded_user(*data) == Some(info),
            Err(_) => decoded_user(*data) is None,
        },
{
    serde_json::from_value(data.clone())
}

/// `serde_json::from_value` at `RoomUserInfoUpdate`: decodes a partial
/// user record, or fails. The outcome is a function of the payload.
#[verifier::external_body]
pub(crate) fn decode_user_update(data: &Value) -> (r: Result<
    RoomUserInfoUpdate,
    serde_json::Error,
>)
    ensures
        match r {
            Ok(update) => decoded_user_update(*data) == Some(update),
            Err(_) => decoded_user_update(*data) is None,
        },
{
    serde_json::from_value(data.clone())
}

/// `RoomUserInfo::update`: writes the fields that a partial record holds
/// over those of a user record. The outcome is a function of the two.
#[verifier::external_body]
pub(crate) fn merge_user(info: &mut RoomUserInfo, update: RoomUserInfoUpdate)
    ensures
        *final(info) == merged_user(*old(info), update),
{
    info.update(update)
}

} // verus!
