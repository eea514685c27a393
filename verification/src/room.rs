//! A room: its terrain, and the objects, flags and users that updates
//! keep current.

use vstd::prelude::*;
use screeps_api::websocket::objects::KnownRoomObject;
use screeps_api::websocket::RoomUserInfo;
use crate::delta::{
    given, lemma_settled_start, lemma_settled_step, settled, stepped, Change, RoomDelta,
};
use crate::entity::{Flag, RoomObject};
use crate::kinds::{RoomObjectType, TerrainType};
use crate::store::{
    distinct_keys, find, has_key, lemma_place, lemma_replace, place, put, same_but, take, Entry,
};
use crate::wire::{
    decode_object, decode_user, decode_user_update, decoded_object, decoded_user,
    decoded_user_update, merge_object, merge_user, merged_object, merged_user, object_id, object_x,
    object_y, wire_id, wire_x, wire_y,
};

verus! {

/// Names a room: its name, and the shard it lies on where there are
/// several.
#[derive(Debug, PartialEq, Eq)]
pub struct RoomId {
    pub shard: Option<String>,
    pub room_name: String,
}

impl Clone for RoomId {
    fn clone(&self) -> (r: Self)
        ensures
            r == *self,
    {
        let shard = match &self.shard {
            Some(s) => Some(s.clone()),
            None => None,
        };
        RoomId { shard, room_name: self.room_name.clone() }
    }
}

/// `format!` with two texts and a colon between them.
#[verifier::external_body]
fn joined(shard: &String, room_name: &String) -> (r: String)
    ensures
        r@ == shard@ + seq![':'] + room_name@,
{
    format!("{}:{}", shard, room_name)
}

impl RoomId {
    pub fn new(shard: Option<String>, room_name: String) -> (r: Self)
        ensures
            r.shard == shard,
            r.room_name == room_name,
    {
        RoomId { shard, room_name }
    }

    /// The text that names the room: `shard:room`, or the bare room name
    /// where there is no shard.
    pub open spec fn label(self) -> Seq<char> {
        match self.shard {
            Some(s) => s@ + seq![':'] + self.room_name@,
            None => self.room_name@,
        }
    }

    /// Whether two ids name the same room: the same shard, or none on
    /// both sides, and the same room name.
    pub open spec fn same(self, other: RoomId) -> bool {
        &&& self.room_name@ == other.room_name@
        &&& match (self.shard, other.shard) {
            (Some(a), Some(b)) => a@ == b@,
            (None, None) => true,
            _ => false,
        }
    }

    /// The id as text.
    pub fn to_text(&self) -> (r: String)
        ensures
            r@ == self.label(),
    {
        match &self.shard {
            Some(s) => joined(s, &self.room_name),
            None => self.room_name.clone(),
        }
    }

    /// Whether two ids name the same room.
    pub fn same_as(&self, other: &RoomId) -> (r: bool)
        ensures
            r == self.same(*other),
    {
        if self.room_name != other.room_name {
            return false;
        }
        match (&self.shard, &other.shard) {
            (Some(a), Some(b)) => *a == *b,
            (None, None) => true,
            _ => false,
        }
    }
}

/// The terrain of a room: 50 rows of 50 tiles, tile `(x, y)` at
/// `tiles[y][x]`.
#[derive(Clone, Debug, PartialEq, Eq)]
pub struct Terrain {
    pub room_name: String,
    pub tiles: Vec<Vec<TerrainType>>,
}

impl Terrain {
    /// Whether the terrain has its 50 rows of 50 tiles.
    pub open spec fn complete(self) -> bool {
        &&& self.tiles@.len() == 50
        &&& forall|y: int| 0 <= y < 50 ==> (#[trigger] self.tiles@[y])@.len() == 50
    }

    /// Whether the terrain has its 50 rows of 50 tiles.
    pub fn is_complete(&self) -> (r: bool)
        ensures
            r == self.complete(),
    {
        if self.tiles.len() != 50 {
            return false;
        }
        let mut y: usize = 0;
        while y < 50
            invariant
                y <= 50,
                self.tiles@.len() == 50,
                forall|k: int| 0 <= k < y ==> (#[trigger] self.tiles@[k])@.len() == 50,
            decreases 50 - y,
        {
            if self.tiles[y].len() != 50 {
                return false;
            }
            y += 1;
        }
        true
    }
}

/// A room object as the room keeps it: the decoded object, and beside it
/// what placing and stacking read of it.
#[derive(Debug)]
pub struct Kept {
    pub shown: RoomObject,
    pub body: KnownRoomObject,
}

impl Kept {
    /// Whether what is shown is what the decoded object holds.
    pub open spec fn faithful(self) -> bool {
        &&& RoomObjectType::kind_of(self.body) == Some(self.shown.kind)
        &&& self.shown.id@ == wire_id(self.body)
        &&& self.shown.x == wire_x(self.body)
        &&& self.shown.y == wire_y(self.body)
    }

    /// Keeps a decoded object, where it is of a kind that is drawn.
    pub fn of(body: KnownRoomObject) -> (r: Option<Kept>)
        ensures
            r is Some == RoomObjectType::kind_of(body) is Some,
            r is Some ==> r.unwrap().body == body && r.unwrap().faithful(),
    {
        match RoomObjectType::of(&body) {
            None => None,
            Some(kind) => {
                let shown = RoomObject {
                    kind,
                    id: object_id(&body),
                    x: object_x(&body),
                    y: object_y(&body),
                };
                Some(Kept { shown, body })
            },
        }
    }
}

/// Why a room could not be made.
#[derive(Copy, Clone, Debug, PartialEq, Eq, Structural)]
pub enum RoomError {
    /// The terrain is that of a room of another name.
    TerrainOfOtherRoom,
    /// The terrain lacks tiles, or has too many.
    TerrainIncomplete,
}

/// Why an update failed.
#[derive(Debug)]
pub enum MergeError {
    /// The payload for a room object did not decode.
    MalformedObject(serde_json::Error),
    /// The payload made a room object of a kind that is not drawn.
    UnsupportedKind,
    /// The payload for a user did not decode.
    MalformedUser(serde_json::Error),
}

/// The room object that a payload leaves under a key: the kept object
/// with the payload merged in, or the object that the payload decodes to
/// where none is kept and it is of a kind that is drawn. Nothing where
/// the payload fails.
pub open spec fn object_after(
    before: Seq<Entry<Kept>>,
    key: Seq<char>,
    data: serde_json::Value,
) -> Option<KnownRoomObject> {
    if has_key(before, key) {
        merged_object(before[place(before, key)].value.body, data)
    } else {
        match decoded_object(data) {
            Some(o) => if RoomObjectType::kind_of(o) is Some {
                Some(o)
            } else {
                None
            },
            None => None,
        }
    }
}

/// Whether `after` is `before` with a room object put under a key: in
/// the place of the one kept there, or behind all others where none is.
pub open spec fn object_put(
    before: Seq<Entry<Kept>>,
    after: Seq<Entry<Kept>>,
    key: Seq<char>,
    body: KnownRoomObject,
) -> bool {
    if has_key(before, key) {
        let i = place(before, key);
        &&& after.len() == before.len()
        &&& after == before.update(i, after[i])
        &&& after[i].key == before[i].key
        &&& after[i].value.body == body
        &&& after[i].value.faithful()
    } else {
        &&& after.len() == before.len() + 1
        &&& after == before.push(after.last())
        &&& after.last().key@ == key
        &&& after.last().value.body == body
        &&& after.last().value.faithful()
    }
}

/// The users that a payload leaves, where it decodes: the record under
/// the key with the payload merged in, or the record that the payload
/// decodes to behind all others where none is kept.
pub open spec fn users_after(
    before: Seq<Entry<RoomUserInfo>>,
    key: String,
    data: serde_json::Value,
) -> Option<Seq<Entry<RoomUserInfo>>> {
    if has_key(before, key@) {
        let i = place(before, key@);
        match decoded_user_update(data) {
            Some(update) => Some(
                before.update(
                    i,
                    Entry { key: before[i].key, value: merged_user(before[i].value, update) },
                ),
            ),
            None => None,
        }
    } else {
        match decoded_user(data) {
            Some(info) => Some(before.push(Entry { key, value: info })),
            None => None,
        }
    }
}

/// A store without the entry under a key.
pub open spec fn without<T>(before: Seq<Entry<T>>, key: Seq<char>) -> Seq<Entry<T>> {
    if has_key(before, key) {
        before.remove(place(before, key))
    } else {
        before
    }
}

/// Whether one change to the objects, applied with success, leads from
/// `before` to `after`.
pub open spec fn object_step(
    before: Seq<Entry<Kept>>,
    after: Seq<Entry<Kept>>,
    change: (String, Change),
) -> bool {
    match change.1 {
        Change::Delete => after == without(before, change.0@),
        Change::Upsert(data) => {
            &&& object_after(before, change.0@, data) is Some
            &&& object_put(before, after, change.0@, object_after(before, change.0@, data).unwrap())
        },
    }
}

/// Whether a run of changes to the objects, each applied with success
/// and in its turn, leads from `before` to `after`.
pub open spec fn objects_ran(
    before: Seq<Entry<Kept>>,
    after: Seq<Entry<Kept>>,
    changes: Seq<(String, Change)>,
) -> bool
    decreases changes.len(),
{
    if changes.len() == 0 {
        after == before
    } else {
        exists|mid: Seq<Entry<Kept>>|
            objects_ran(before, mid, changes.drop_last()) && #[trigger] object_step(
                mid,
                after,
                changes.last(),
            )
    }
}

/// A run that has led to `mid` leads on to `after` with one more change.
pub proof fn lemma_objects_ran_on(
    before: Seq<Entry<Kept>>,
    mid: Seq<Entry<Kept>>,
    after: Seq<Entry<Kept>>,
    changes: Seq<(String, Change)>,
    next: (String, Change),
)
    requires
        objects_ran(before, mid, changes),
        object_step(mid, after, next),
    ensures
        objects_ran(before, after, changes.push(next)),
{
    let longer = changes.push(next);
    assert(longer.drop_last() == changes);
    assert(longer.last() == next);
    assert(objects_ran(before, mid, longer.drop_last()) && object_step(mid, after, longer.last()));
}

/// Whether a run of changes to the objects stops at a payload that
/// fails, with `after` what the changes before it lead to.
pub open spec fn objects_stopped(
    before: Seq<Entry<Kept>>,
    after: Seq<Entry<Kept>>,
    changes: Seq<(String, Change)>,
) -> bool {
    exists|n: int|
        {
            &&& 0 <= n < changes.len()
            &&& objects_ran(before, after, #[trigger] changes.take(n))
            &&& changes[n].1 matches Change::Upsert(data) && object_after(
                after,
                changes[n].0@,
                data,
            ) is None
        }
}

/// Whether one change to the users, applied with success, leads from
/// `before` to `after`.
pub open spec fn user_step(
    before: Seq<Entry<RoomUserInfo>>,
    after: Seq<Entry<RoomUserInfo>>,
    change: (String, Change),
) -> bool {
    match change.1 {
        Change::Delete => after == without(before, change.0@),
        Change::Upsert(data) => users_after(before, change.0, data) == Some(after),
    }
}

/// Whether a run of changes to the users, each applied with success and
/// in its turn, leads from `before` to `after`.
pub open spec fn users_ran(
    before: Seq<Entry<RoomUserInfo>>,
    after: Seq<Entry<RoomUserInfo>>,
    changes: Seq<(String, Change)>,
) -> bool
    decreases changes.len(),
{
    if changes.len() == 0 {
        after == before
    } else {
        exists|mid: Seq<Entry<RoomUserInfo>>|
            users_ran(before, mid, changes.drop_last()) && #[trigger] user_step(
                mid,
                after,
                changes.last(),
            )
    }
}

/// A run that has led to `mid` leads on to `after` with one more change.
pub proof fn lemma_users_ran_on(
    before: Seq<Entry<RoomUserInfo>>,
    mid: Seq<Entry<RoomUserInfo>>,
    after: Seq<Entry<RoomUserInfo>>,
    changes: Seq<(String, Change)>,
    next: (String, Change),
)
    requires
        users_ran(before, mid, changes),
        user_step(mid, after, next),
    ensures
        users_ran(before, after, changes.push(next)),
{
    let longer = changes.push(next);
    assert(longer.drop_last() == changes);
    assert(longer.last() == next);
    assert(users_ran(before, mid, longer.drop_last()) && user_step(mid, after, longer.last()));
}

/// Whether a run of changes to the users stops at a payload that fails,
/// with `after` what the changes before it lead to.
pub open spec fn users_stopped(
    before: Seq<Entry<RoomUserInfo>>,
    after: Seq<Entry<RoomUserInfo>>,
    changes: Seq<(String, Change)>,
) -> bool {
    exists|n: int|
        {
            &&& 0 <= n < changes.len()
            &&& users_ran(before, after, #[trigger] changes.take(n))
            &&& changes[n].1 matches Change::Upsert(data) && users_after(
                after,
                changes[n].0,
                data,
            ) is None
        }
}

/// The state of one room.
#[derive(Debug)]
pub struct Room {
    last_update_time: Option<u32>,
    room: RoomId,
    terrain: Terrain,
    objects: Vec<Entry<Kept>>,
    flags: Vec<Flag>,
    users: Vec<Entry<RoomUserInfo>>,
}

impl Room {
    pub closed spec fn time(self) -> Option<u32> {
        self.last_update_time
    }

    pub closed spec fn id(self) -> RoomId {
        self.room
    }

    pub closed spec fn land(self) -> Terrain {
        self.terrain
    }

    pub closed spec fn kept(self) -> Seq<Entry<Kept>> {
        self.objects@
    }

    pub closed spec fn flagged(self) -> Seq<Flag> {
        self.flags@
    }

    pub closed spec fn known_users(self) -> Seq<Entry<RoomUserInfo>> {
        self.users@
    }

    /// What holds of every room: the terrain is complete and is that of
    /// this room, no object or user is kept twice, and of each object is
    /// shown what it holds.
    pub open spec fn wf(self) -> bool {
        &&& self.land().complete()
        &&& self.land().room_name@ == self.id().room_name@
        &&& distinct_keys(self.kept())
        &&& distinct_keys(self.known_users())
        &&& forall|i: int| 0 <= i < self.kept().len() ==> (#[trigger] self.kept()[i]).value.faithful()
    }

    /// Whether a room is as it is made: nothing in it but the terrain.
    pub open spec fn fresh(self, room: RoomId, terrain: Terrain) -> bool {
        &&& self.id() == room
        &&& self.land() == terrain
        &&& self.time() is None
        &&& self.kept().len() == 0
        &&& self.flagged().len() == 0
        &&& self.known_users().len() == 0
    }

    /// Makes a room from its terrain.
    pub fn new(room: RoomId, terrain: Terrain) -> (r: Room)
        requires
            room.room_name@ == terrain.room_name@,
            terrain.complete(),
        ensures
            r.wf(),
            r.fresh(room, terrain),
    {
        Room {
            last_update_time: None,
            room,
            terrain,
            objects: Vec::new(),
            flags: Vec::new(),
            users: Vec::new(),
        }
    }

    /// Makes a room from its terrain, unless the terrain is that of
    /// another room or is not complete.
    pub fn try_new(room: RoomId, terrain: Terrain) -> (r: Result<Room, RoomError>)
        ensures
            room.room_name@ != terrain.room_name@ ==> r == Err::<Room, RoomError>(
                RoomError::TerrainOfOtherRoom,
            ),
            room.room_name@ == terrain.room_name@ && !terrain.complete() ==> r == Err::<
                Room,
                RoomError,
            >(RoomError::TerrainIncomplete),
            room.room_name@ == terrain.room_name@ && terrain.complete() ==> r is Ok
                && r.unwrap().wf() && r.unwrap().fresh(room, terrain),
    {
        if room.room_name != terrain.room_name {
            return Err(RoomError::TerrainOfOtherRoom);
        }
        if !terrain.is_complete() {
            return Err(RoomError::TerrainIncomplete);
        }
        Ok(Room::new(room, terrain))
    }

    /// The game time of the last update that carried one.
    pub fn last_update_time(&self) -> (r: Option<u32>)
        ensures
            r == self.time(),
    {
        self.last_update_time
    }

    pub fn room_id(&self) -> (r: &RoomId)
        ensures
            *r == self.id(),
    {
        &self.room
    }

    pub fn terrain(&self) -> (r: &Terrain)
        ensures
            *r == self.land(),
    {
        &self.terrain
    }

    pub fn flags(&self) -> (r: &Vec<Flag>)
        ensures
            r@ == self.flagged(),
    {
        &self.flags
    }

    pub fn objects(&self) -> (r: &Vec<Entry<Kept>>)
        ensures
            r@ == self.kept(),
    {
        &self.objects
    }

    pub fn users(&self) -> (r: &Vec<Entry<RoomUserInfo>>)
        ensures
            r@ == self.known_users(),
    {
        &self.users
    }

    /// Whether an object is kept under the id.
    pub fn has_object(&self, id: &String) -> (r: bool)
        ensures
            r == has_key(self.kept(), id@),
    {
        find(&self.objects, id).is_some()
    }

    /// Whether a user is kept under the id.
    pub fn has_user(&self, id: &String) -> (r: bool)
        ensures
            r == has_key(self.known_users(), id@),
    {
        find(&self.users, id).is_some()
    }

    /// Whether two rooms differ in their objects at most.
    pub open spec fn same_but_objects(self, other: Room) -> bool {
        &&& self.time() == other.time()
        &&& self.id() == other.id()
        &&& self.land() == other.land()
        &&& self.flagged() == other.flagged()
        &&& self.known_users() == other.known_users()
    }

    /// Whether two rooms differ in their users at most.
    pub open spec fn same_but_users(self, other: Room) -> bool {
        &&& self.time() == other.time()
        &&& self.id() == other.id()
        &&& self.land() == other.land()
        &&& self.flagged() == other.flagged()
        &&& self.kept() == other.kept()
    }

    /// Drops the object kept under an id, if there is one.
    pub fn remove_object(&mut self, id: &String)
        requires
            old(self).wf(),
        ensures
            final(self).wf(),
            final(self).same_but_objects(*old(self)),
            stepped(old(self).kept(), final(self).kept(), id@, Change::Delete),
            final(self).kept() == without(old(self).kept(), id@),
    {
        let _ = take(&mut self.objects, id);
        proof {
            lemma_faithful_kept(old(self).kept(), self.kept());
        }
    }

    /// Keeps what a payload decoded to under an id that nothing is kept
    /// under yet. A payload that did not decode, or that decoded to a
    /// kind that is not drawn, is an error and changes nothing.
    pub fn insert_decoded(
        &mut self,
        id: String,
        decoded: Result<KnownRoomObject, serde_json::Error>,
    ) -> (r: Result<(), MergeError>)
        requires
            old(self).wf(),
            !has_key(old(self).kept(), id@),
        ensures
            final(self).wf(),
            final(self).same_but_objects(*old(self)),
            match decoded {
                Err(e) => r == Err::<(), MergeError>(MergeError::MalformedObject(e))
                    && final(self).kept() == old(self).kept(),
                Ok(body) => if RoomObjectType::kind_of(body) is None {
                    r == Err::<(), MergeError>(MergeError::UnsupportedKind) && final(self).kept()
                        == old(self).kept()
                } else {
                    &&& r is Ok
                    &&& final(self).kept().len() == old(self).kept().len() + 1
                    &&& final(self).kept() == old(self).kept().push(final(self).kept().last())
                    &&& final(self).kept().last().key == id
                    &&& final(self).kept().last().value.body == body
                    &&& final(self).kept().last().value.faithful()
                    &&& stepped(old(self).kept(), final(self).kept(), id@, Change::Upsert(arbitrary()))
                },
            },
    {
        match decoded {
            Err(e) => Err(MergeError::MalformedObject(e)),
            Ok(body) => match Kept::of(body) {
                None => Err(MergeError::UnsupportedKind),
                Some(kept) => {
                    put(&mut self.objects, Entry { key: id, value: kept });
                    Ok(())
                },
            },
        }
    }

    /// Applies a payload to the object kept under an id: merged into the
    /// object where one is kept, decoded as a new object where none is.
    /// A payload that does not decode is an error and leaves the room as
    /// it was. A kept object stays in its place and keeps its kind.
    pub fn upsert_object(&mut self, id: &String, data: &serde_json::Value) -> (r: Result<
        (),
        MergeError,
    >)
        requires
            old(self).wf(),
        ensures
            final(self).wf(),
            final(self).same_but_objects(*old(self)),
            same_but(old(self).kept(), final(self).kept(), id@),
            r is Ok ==> has_key(final(self).kept(), id@),
            r is Ok == object_after(old(self).kept(), id@, *data) is Some,
            r is Ok ==> object_put(
                old(self).kept(),
                final(self).kept(),
                id@,
                object_after(old(self).kept(), id@, *data).unwrap(),
            ),
            r is Err ==> final(self).kept() == old(self).kept(),
            r matches Err(e) ==> (if !has_key(old(self).kept(), id@) && decoded_object(*data) is Some {
                e is UnsupportedKind
            } else {
                e is MalformedObject
            }),
    {
        let ghost before = self.kept();
        match find(&self.objects, id) {
            None => self.insert_decoded(id.clone(), decode_object(data)),
            Some(i) => {
                let entry = self.objects.remove(i);
                let Entry { key, value } = entry;
                let (value, outcome) = merged(value, data);
                let back = Entry { key, value };
                self.objects.insert(i, back);
                proof {
                    assert(self.kept() =~= before.update(i as int, back));
                    lemma_replace(before, i as int, back);
                    lemma_place(before, i as int);
                    if outcome is Err {
                        assert(back == entry);
                        assert(self.kept() =~= before);
                    }
                }
                match outcome {
                    Ok(()) => Ok(()),
                    Err(e) => Err(MergeError::MalformedObject(e)),
                }
            },
        }
    }

    /// Applies one change to the objects.
    pub fn apply_object(&mut self, id: &String, change: &Change) -> (r: Result<(), MergeError>)
        requires
            old(self).wf(),
        ensures
            final(self).wf(),
            final(self).same_but_objects(*old(self)),
            same_but(old(self).kept(), final(self).kept(), id@),
            r is Ok ==> stepped(old(self).kept(), final(self).kept(), id@, *change),
            *change is Delete ==> r is Ok,
            r is Err ==> final(self).kept() == old(self).kept(),
            !(r matches Err(MergeError::MalformedUser(_))),
            match *change {
                Change::Delete => final(self).kept() == without(old(self).kept(), id@),
                Change::Upsert(data) => {
                    &&& r is Ok == object_after(old(self).kept(), id@, data) is Some
                    &&& r is Ok ==> object_put(
                        old(self).kept(),
                        final(self).kept(),
                        id@,
                        object_after(old(self).kept(), id@, data).unwrap(),
                    )
                },
            },
    {
        match change {
            Change::Delete => {
                self.remove_object(id);
                Ok(())
            },
            Change::Upsert(data) => self.upsert_object(id, data),
        }
    }

    /// Drops the user kept under an id, if there is one.
    pub fn remove_user(&mut self, id: &String)
        requires
            old(self).wf(),
        ensures
            final(self).wf(),
            final(self).same_but_users(*old(self)),
            stepped(old(self).known_users(), final(self).known_users(), id@, Change::Delete),
            final(self).known_users() == without(old(self).known_users(), id@),
    {
        let _ = take(&mut self.users, id);
    }

    /// Applies a payload to the user kept under an id: merged into the
    /// record where one is kept, decoded as a new record where none is.
    /// A payload that does not decode is an error and leaves the room as
    /// it was. A kept record stays in its place.
    pub fn upsert_user(&mut self, id: &String, data: &serde_json::Value) -> (r: Result<
        (),
        MergeError,
    >)
        requires
            old(self).wf(),
        ensures
            final(self).wf(),
            final(self).same_but_users(*old(self)),
            same_but(old(self).known_users(), final(self).known_users(), id@),
            r is Ok ==> has_key(final(self).known_users(), id@),
            r is Err ==> final(self).known_users() == old(self).known_users(),
            r is Err ==> r matches Err(MergeError::MalformedUser(_)),
            r is Ok == users_after(old(self).known_users(), *id, *data) is Some,
            r is Ok ==> final(self).known_users() == users_after(
                old(self).known_users(),
                *id,
                *data,
            ).unwrap(),
    {
        let ghost before = self.known_users();
        match find(&self.users, id) {
            None => match decode_user(data) {
                Err(e) => Err(MergeError::MalformedUser(e)),
                Ok(info) => {
                    put(&mut self.users, Entry { key: id.clone(), value: info });
                    Ok(())
                },
            },
            Some(i) => match decode_user_update(data) {
                Err(e) => Err(MergeError::MalformedUser(e)),
                Ok(update) => {
                    let Entry { key, value } = self.users.remove(i);
                    let mut info = value;
                    merge_user(&mut info, update);
                    let back = Entry { key, value: info };
                    self.users.insert(i, back);
                    proof {
                        assert(self.known_users() =~= before.update(i as int, back));
                        lemma_replace(before, i as int, back);
                        lemma_place(before, i as int);
                    }
                    Ok(())
                },
            },
        }
    }

    /// Applies one change to the users.
    pub fn apply_user(&mut self, id: &String, change: &Change) -> (r: Result<(), MergeError>)
        requires
            old(self).wf(),
        ensures
            final(self).wf(),
            final(self).same_but_users(*old(self)),
            same_but(old(self).known_users(), final(self).known_users(), id@),
            r is Ok ==> stepped(old(self).known_users(), final(self).known_users(), id@, *change),
            *change is Delete ==> r is Ok,
            r is Err ==> final(self).known_users() == old(self).known_users(),
            r is Err ==> r matches Err(MergeError::MalformedUser(_)),
            match *change {
                Change::Delete => final(self).known_users() == without(
                    old(self).known_users(),
                    id@,
                ),
                Change::Upsert(data) => {
                    &&& r is Ok == users_after(old(self).known_users(), *id, data) is Some
                    &&& r is Ok ==> final(self).known_users() == users_after(
                        old(self).known_users(),
                        *id,
                        data,
                    ).unwrap()
                },
            },
    {
        match change {
            Change::Delete => {
                self.remove_user(id);
                Ok(())
            },
            Change::Upsert(data) => self.upsert_user(id, data),
        }
    }

    /// Whether a list of changes holds deletions only.
    pub open spec fn only_deletes(changes: Seq<(String, Change)>) -> bool {
        forall|i: int| 0 <= i < changes.len() ==> (#[trigger] changes[i]).1 is Delete
    }

    /// What an update says of users, as a list of changes.
    pub open spec fn user_changes(delta: RoomDelta) -> Seq<(String, Change)> {
        match delta.users {
            Some(changes) => given(changes@),
            None => Seq::empty(),
        }
    }

    /// Applies an update to the room.
    ///
    /// A game time that the update carries replaces the room's. The
    /// changes to objects apply in their order, then the flags are
    /// replaced by the update's, then the changes to users apply in their
    /// order. The first payload that does not decode ends the update with
    /// its error; what was applied before it stays applied. An update
    /// without payloads cannot fail.
    #[verifier::loop_isolation(false)]
    pub fn update(&mut self, delta: RoomDelta) -> (r: Result<(), MergeError>)
        requires
            old(self).wf(),
        ensures
            final(self).wf(),
            final(self).id() == old(self).id(),
            final(self).land() == old(self).land(),
            final(self).time() == (if delta.game_time is Some {
                delta.game_time
            } else {
                old(self).time()
            }),
            r is Ok ==> final(self).flagged() == delta.flags@,
            r is Ok ==> objects_ran(old(self).kept(), final(self).kept(), delta.objects@),
            r is Ok ==> users_ran(
                old(self).known_users(),
                final(self).known_users(),
                Self::user_changes(delta),
            ),
            r is Ok ==> settled(old(self).kept(), final(self).kept(), delta.objects@),
            r is Ok ==> settled(
                old(self).known_users(),
                final(self).known_users(),
                Self::user_changes(delta),
            ),
            Self::only_deletes(delta.objects@) && Self::only_deletes(Self::user_changes(delta))
                ==> r is Ok,
            r is Err ==> (if r matches Err(MergeError::MalformedUser(_)) {
                &&& final(self).flagged() == delta.flags@
                &&& objects_ran(old(self).kept(), final(self).kept(), delta.objects@)
                &&& users_stopped(
                    old(self).known_users(),
                    final(self).known_users(),
                    Self::user_changes(delta),
                )
            } else {
                &&& final(self).flagged() == old(self).flagged()
                &&& final(self).known_users() == old(self).known_users()
                &&& objects_stopped(old(self).kept(), final(self).kept(), delta.objects@)
            }),
    {
        let RoomDelta { game_time, objects, flags, users } = delta;
        if let Some(time) = game_time {
            self.last_update_time = Some(time);
        }
        let ghost start = self.kept();
        let mut n: usize = 0;
        proof {
            lemma_settled_start(start);
            assert(objects@.take(0) =~= Seq::<(String, Change)>::empty());
        }
        while n < objects.len()
            invariant
                n <= objects.len(),
                self.wf(),
                self.id() == old(self).id(),
                self.land() == old(self).land(),
                self.flagged() == old(self).flagged(),
                self.known_users() == old(self).known_users(),
                start == old(self).kept(),
                self.time() == (if game_time is Some {
                    game_time
                } else {
                    old(self).time()
                }),
                settled(start, self.kept(), objects@.take(n as int)),
                objects_ran(start, self.kept(), objects@.take(n as int)),
            decreases objects.len() - n,
        {
            let ghost mid = self.kept();
            let outcome = self.apply_object(&objects[n].0, &objects[n].1);
            if outcome.is_err() {
                proof {
                    assert(!(objects@[n as int].1 is Delete));
                }
                return outcome;
            }
            proof {
                let longer = objects@.take(n + 1);
                assert(longer =~= objects@.take(n as int).push(objects@[n as int]));
                assert(longer.drop_last() =~= objects@.take(n as int));
                lemma_settled_step(start, mid, self.kept(), objects@.take(n as int), objects@[n as int]);
                lemma_objects_ran_on(
                    start,
                    mid,
                    self.kept(),
                    objects@.take(n as int),
                    objects@[n as int],
                );
            }
            n += 1;
        }
        proof {
            assert(objects@.take(n as int) =~= objects@);
        }
        self.flags = flags;
        let ghost first = self.known_users();
        proof {
            lemma_settled_start(first);
        }
        if let Some(changes) = users {
            let mut k: usize = 0;
            proof {
                assert(changes@.take(0) =~= Seq::<(String, Option<Change>)>::empty());
            }
            while k < changes.len()
                invariant
                    k <= changes.len(),
                    self.wf(),
                    self.id() == old(self).id(),
                    self.land() == old(self).land(),
                    self.flagged() == flags@,
                    first == old(self).known_users(),
                    settled(old(self).kept(), self.kept(), objects@),
                    objects_ran(old(self).kept(), self.kept(), objects@),
                    self.time() == (if game_time is Some {
                        game_time
                    } else {
                        old(self).time()
                    }),
                    settled(first, self.known_users(), given(changes@.take(k as int))),
                    users_ran(first, self.known_users(), given(changes@.take(k as int))),
                decreases changes.len() - k,
            {
                let ghost mid = self.known_users();
                proof {
                    assert(changes@.take(k + 1) =~= changes@.take(k as int).push(changes@[k as int]));
                    assert(changes@.take(k + 1).drop_last() =~= changes@.take(k as int));
                    lemma_given_prefix(changes@, k + 1);
                }
                if let Some(change) = &changes[k].1 {
                    let outcome = self.apply_user(&changes[k].0, change);
                    if outcome.is_err() {
                        proof {
                            let run = given(changes@.take(k + 1));
                            let all = given(changes@);
                            let done = given(changes@.take(k as int));
                            assert(run.last().1 == *change);
                            assert(all[run.len() - 1] == run.last());
                            assert(!(all[run.len() - 1].1 is Delete));
                            lemma_given_prefix(changes@, k as int);
                            assert(all.take(done.len() as int) == done);
                            assert(run.len() - 1 == done.len());
                        }
                        return outcome;
                    }
                    proof {
                        let done = given(changes@.take(k as int));
                        let next = (changes@[k as int].0, *change);
                        lemma_settled_step(first, mid, self.known_users(), done, next);
                        let longer = given(changes@.take(k + 1));
                        assert(longer == done.push(next));
                        assert(longer.drop_last() =~= done);
                        lemma_users_ran_on(first, mid, self.known_users(), done, next);
                    }
                }
                k += 1;
            }
            proof {
                assert(changes@.take(k as int) =~= changes@);
            }
        }
        Ok(())
    }
}

/// The changes given by the front of a list are the front of the changes
/// given by the list.
pub proof fn lemma_given_prefix(changes: Seq<(String, Option<Change>)>, n: int)
    requires
        0 <= n <= changes.len(),
    ensures
        given(changes.take(n)).len() <= given(changes).len(),
        given(changes.take(n)) == given(changes).take(given(changes.take(n)).len() as int),
    decreases changes.len() - n,
{
    if n == changes.len() {
        assert(changes.take(n) =~= changes);
    } else {
        lemma_given_prefix(changes, n + 1);
        let longer = changes.take(n + 1);
        assert(longer.drop_last() =~= changes.take(n));
    }
}

/// Merges a payload into a kept object and reads anew what is shown of
/// it. Where the payload does not decode, the object comes back as it
/// was.
pub fn merged(kept: Kept, data: &serde_json::Value) -> (r: (Kept, Result<(), serde_json::Error>))
    requires
        kept.faithful(),
    ensures
        r.0.faithful(),
        r.0.shown.kind == kept.shown.kind,
        match merged_object(kept.body, *data) {
            Some(body) => r.1 is Ok && r.0.body == body,
            None => r.1 is Err && r.0 == kept,
        },
{
    let Kept { shown, body } = kept;
    let mut body = body;
    let outcome = merge_object(&mut body, data);
    match outcome {
        Err(e) => (Kept { shown, body }, Err(e)),
        Ok(()) => match RoomObjectType::of(&body) {
            Some(kind) => {
                let shown = RoomObject {
                    kind,
                    id: object_id(&body),
                    x: object_x(&body),
                    y: object_y(&body),
                };
                (Kept { shown, body }, Ok(()))
            },
            None => (Kept { shown, body }, Ok(())),
        },
    }
}

/// Objects that come from a store of faithful objects are faithful.
pub proof fn lemma_faithful_kept(before: Seq<Entry<Kept>>, after: Seq<Entry<Kept>>)
    requires
        forall|i: int| 0 <= i < before.len() ==> (#[trigger] before[i]).value.faithful(),
        forall|e: Entry<Kept>| after.contains(e) ==> before.contains(e),
    ensures
        forall|i: int| 0 <= i < after.len() ==> (#[trigger] after[i]).value.faithful(),
{
    assert forall|i: int| 0 <= i < after.len() implies (#[trigger] after[i]).value.faithful() by {
        assert(after.contains(after[i]));
        let k = choose|k: int| 0 <= k < before.len() && before[k] == after[i];
        assert(before[k].value.faithful());
    }
}

} // verus!
