//! The picture of a room: every tile with the stack of what is drawn on
//! it, from bottom to top.

use vstd::prelude::*;
use crate::entity::Flag;
use crate::grid::{grid_stacks, slot, Grid};
use crate::kinds::InterestingTerrainType;
use crate::order::VisualObject;
use crate::room::{Kept, Room, RoomId, Terrain};
use crate::stack::{is_sorted, sort_stack};
use crate::store::Entry;

verus! {

/// Whether a thing stands on a tile of the room.
pub open spec fn in_room(item: VisualObject) -> bool {
    item.col() < 50 && item.row() < 50
}

/// The position of a thing's tile among the stacks.
pub open spec fn slot_of(item: VisualObject) -> int {
    slot(item.col() as int, item.row() as int)
}

/// Those of a list of things that stand on one tile, in the order of the
/// list.
pub open spec fn placed(things: Seq<VisualObject>, s: int) -> Seq<VisualObject>
    decreases things.len(),
{
    if things.len() == 0 {
        Seq::empty()
    } else {
        let rest = placed(things.drop_last(), s);
        if slot_of(things.last()) == s {
            rest.push(things.last())
        } else {
            rest
        }
    }
}

/// The terrain markers of the first `n` tiles, counted row by row.
pub open spec fn markers(terrain: Terrain, n: int) -> Seq<VisualObject>
    decreases n,
{
    if n <= 0 {
        Seq::empty()
    } else {
        let rest = markers(terrain, n - 1);
        let y = (n - 1) / 50;
        let x = (n - 1) % 50;
        match InterestingTerrainType::of_terrain(terrain.tiles@[y]@[x]) {
            Some(ty) => rest.push(VisualObject::InterestingTerrain { x: x as u32, y: y as u32, ty }),
            None => rest,
        }
    }
}

/// Every terrain marker stands on a tile of the room.
pub proof fn lemma_markers_in_room(terrain: Terrain, n: int)
    requires
        n <= 2500,
    ensures
        forall|i: int| 0 <= i < markers(terrain, n).len() ==> in_room(#[trigger] markers(terrain, n)[i]),
    decreases n,
{
    if n > 0 {
        lemma_markers_in_room(terrain, n - 1);
        let rest = markers(terrain, n - 1);
        let y = (n - 1) / 50;
        let x = (n - 1) % 50;
        assert(0 <= x < 50 && 0 <= y < 50);
        assert forall|i: int| 0 <= i < markers(terrain, n).len() implies in_room(
            #[trigger] markers(terrain, n)[i],
        ) by {
            if i < rest.len() {
                assert(markers(terrain, n)[i] == rest[i]);
            }
        }
    }
}

/// Every terrain marker is a terrain marker.
pub proof fn lemma_markers_are_terrain(terrain: Terrain, n: int)
    ensures
        forall|i: int|
            0 <= i < markers(terrain, n).len() ==> (#[trigger] markers(
                terrain,
                n,
            )[i]) is InterestingTerrain,
    decreases n,
{
    if n > 0 {
        lemma_markers_are_terrain(terrain, n - 1);
        let rest = markers(terrain, n - 1);
        assert forall|i: int| 0 <= i < markers(terrain, n).len() implies (#[trigger] markers(
            terrain,
            n,
        )[i]) is InterestingTerrain by {
            if i < rest.len() {
                assert(markers(terrain, n)[i] == rest[i]);
            }
        }
    }
}

/// What is placed on a tile is one of the things, and stands on that
/// tile.
pub proof fn lemma_placed_is_listed(things: Seq<VisualObject>, s: int)
    ensures
        forall|t: VisualObject| #[trigger]
            placed(things, s).contains(t) ==> things.contains(t) && slot_of(t) == s,
    decreases things.len(),
{
    if things.len() > 0 {
        let front = things.drop_last();
        lemma_placed_is_listed(front, s);
        assert forall|t: VisualObject| #[trigger] placed(things, s).contains(t) implies things.contains(
            t,
        ) && slot_of(t) == s by {
            let here = placed(things, s);
            let k = choose|k: int| 0 <= k < here.len() && here[k] == t;
            if k < placed(front, s).len() {
                assert(placed(front, s)[k] == t);
                assert(placed(front, s).contains(t));
                let j = choose|j: int| 0 <= j < front.len() && front[j] == t;
                assert(things[j] == t);
            } else {
                assert(things[things.len() - 1] == t);
            }
        }
    }
}

/// The flags of a list as things to draw.
pub open spec fn flag_things(flags: Seq<Flag>) -> Seq<VisualObject> {
    Seq::new(flags.len(), |i: int| VisualObject::Flag(flags[i]))
}

/// The kept objects as things to draw.
pub open spec fn object_things(kept: Seq<Entry<Kept>>) -> Seq<VisualObject> {
    Seq::new(kept.len(), |i: int| VisualObject::RoomObject(kept[i].value.shown))
}

/// Everything that is drawn of a room: the terrain markers row by row,
/// then the flags, then the objects.
pub open spec fn things_of(room: Room) -> Seq<VisualObject> {
    markers(room.land(), 2500) + flag_things(room.flagged()) + object_things(room.kept())
}

/// Whether every flag and object of a room stands on a tile of the room.
pub open spec fn drawable(room: Room) -> bool {
    &&& forall|i: int|
        0 <= i < room.flagged().len() ==> in_room(
            VisualObject::Flag(#[trigger] room.flagged()[i]),
        )
    &&& forall|i: int|
        0 <= i < room.kept().len() ==> in_room(
            VisualObject::RoomObject((#[trigger] room.kept()[i]).value.shown),
        )
}

/// A flag or an object stands outside the room.
#[derive(Copy, Clone, Debug, PartialEq, Eq, Structural)]
pub struct OutOfRoom;

/// The picture of a room at one time.
#[derive(Debug)]
pub struct VisualRoom {
    pub last_update_time: Option<u32>,
    pub room_id: RoomId,
    pub objs: Grid,
}

impl VisualRoom {
    /// The stacks, that of tile `(x, y)` at position `slot(x, y)`.
    pub open spec fn stacks(self) -> Seq<Seq<VisualObject>> {
        grid_stacks(self.objs)
    }

    /// Whether the picture shows the given things and no others, each on
    /// its tile and each stack in drawing order.
    pub open spec fn shows(self, things: Seq<VisualObject>) -> bool {
        &&& self.stacks().len() == 2500
        &&& forall|s: int|
            0 <= s < 2500 ==> is_sorted(#[trigger] self.stacks()[s]) && self.stacks()[s].to_multiset()
                == placed(things, s).to_multiset()
    }

    /// A picture with nothing on any tile.
    pub fn new(last_update_time: Option<u32>, room_id: RoomId) -> (r: VisualRoom)
        ensures
            r.last_update_time == last_update_time,
            r.room_id == room_id,
            r.stacks() == Seq::new(2500, |i: int| Seq::<VisualObject>::empty()),
    {
        VisualRoom { last_update_time, room_id, objs: Grid::empty() }
    }

    /// Puts a thing on top of the stack of its tile.
    pub fn push_top(&mut self, item: VisualObject)
        requires
            in_room(item),
        ensures
            final(self).last_update_time == old(self).last_update_time,
            final(self).room_id == old(self).room_id,
            final(self).stacks() == old(self).stacks().update(
                slot_of(item),
                old(self).stacks()[slot_of(item)].push(item),
            ),
    {
        let x = item.x() as usize;
        let y = item.y() as usize;
        let stack = self.objs.stack_mut(x, y);
        stack.push(item);
    }

    /// The stack of tile `(x, y)`, from bottom to top; nothing where the
    /// tile lies outside the room.
    pub fn stack(&self, x: usize, y: usize) -> (r: Option<&Vec<VisualObject>>)
        ensures
            r is Some == (x < 50 && y < 50),
            r is Some ==> r.unwrap()@ == self.stacks()[slot(x as int, y as int)],
    {
        self.objs.stack_at(x, y)
    }

    /// Draws a list of things: each goes on the stack of its tile, and
    /// every stack is sorted into drawing order.
    pub fn lay_out(last_update_time: Option<u32>, room_id: RoomId, things: &Vec<VisualObject>) -> (r:
        VisualRoom)
        requires
            forall|i: int| 0 <= i < things@.len() ==> in_room(#[trigger] things@[i]),
        ensures
            r.last_update_time == last_update_time,
            r.room_id == room_id,
            r.shows(things@),
    {
        let mut room = VisualRoom::new(last_update_time, room_id);
        let mut n: usize = 0;
        proof {
            assert(things@.take(0) =~= Seq::<VisualObject>::empty());
        }
        while n < things.len()
            invariant
                n <= things.len(),
                forall|i: int| 0 <= i < things@.len() ==> in_room(#[trigger] things@[i]),
                room.last_update_time == last_update_time,
                room.room_id == room_id,
                room.stacks().len() == 2500,
                forall|s: int|
                    0 <= s < 2500 ==> #[trigger] room.stacks()[s] == placed(
                        things@.take(n as int),
                        s,
                    ),
            decreases things.len() - n,
        {
            let item = things[n].clone();
            proof {
                let longer = things@.take(n + 1);
                assert(longer.drop_last() =~= things@.take(n as int));
                assert(longer.last() == item);
                assert(0 <= slot_of(item) < 2500);
            }
            room.push_top(item);
            n += 1;
        }
        proof {
            assert(things@.take(n as int) =~= things@);
        }
        let mut x: usize = 0;
        while x < 50
            invariant
                x <= 50,
                room.last_update_time == last_update_time,
                room.room_id == room_id,
                room.stacks().len() == 2500,
                forall|s: int|
                    0 <= s < x * 50 ==> is_sorted(#[trigger] room.stacks()[s])
                        && room.stacks()[s].to_multiset() == placed(things@, s).to_multiset(),
                forall|s: int| x * 50 <= s < 2500 ==> #[trigger] room.stacks()[s] == placed(things@, s),
            decreases 50 - x,
        {
            let mut y: usize = 0;
            while y < 50
                invariant
                    x < 50,
                    y <= 50,
                    room.last_update_time == last_update_time,
                    room.room_id == room_id,
                    room.stacks().len() == 2500,
                    forall|s: int|
                        0 <= s < x * 50 + y ==> is_sorted(#[trigger] room.stacks()[s])
                            && room.stacks()[s].to_multiset() == placed(things@, s).to_multiset(),
                    forall|s: int|
                        x * 50 + y <= s < 2500 ==> #[trigger] room.stacks()[s] == placed(things@, s),
                decreases 50 - y,
            {
                let stack = room.objs.stack_mut(x, y);
                sort_stack(stack);
                y += 1;
            }
            x += 1;
        }
        room
    }
}

impl Room {
    /// The terrain markers of the room, row by row.
    pub fn terrain_markers(&self) -> (r: Vec<VisualObject>)
        requires
            self.wf(),
        ensures
            r@ == markers(self.land(), 2500),
            forall|i: int| 0 <= i < r@.len() ==> in_room(#[trigger] r@[i]),
    {
        let terrain = self.terrain();
        let mut out: Vec<VisualObject> = Vec::new();
        let mut y: usize = 0;
        while y < 50
            invariant
                y <= 50,
                terrain.complete(),
                *terrain == self.land(),
                out@ == markers(*terrain, y * 50),
                forall|i: int| 0 <= i < out@.len() ==> in_room(#[trigger] out@[i]),
            decreases 50 - y,
        {
            let mut x: usize = 0;
            while x < 50
                invariant
                    y < 50,
                    x <= 50,
                    terrain.complete(),
                    *terrain == self.land(),
                    out@ == markers(*terrain, y * 50 + x),
                    forall|i: int| 0 <= i < out@.len() ==> in_room(#[trigger] out@[i]),
                decreases 50 - x,
            {
                proof {
                    let n = y * 50 + x + 1;
                    assert((n - 1) / 50 == y && (n - 1) % 50 == x);
                }
                if let Some(ty) = InterestingTerrainType::from_terrain(terrain.tiles[y][x]) {
                    out.push(VisualObject::InterestingTerrain { x: x as u32, y: y as u32, ty });
                }
                x += 1;
            }
            y += 1;
        }
        out
    }

    /// Everything that is drawn of the room: the terrain markers, then
    /// the flags, then the objects.
    pub fn things(&self) -> (r: Vec<VisualObject>)
        requires
            self.wf(),
        ensures
            r@ == things_of(*self),
    {
        let mut out = self.terrain_markers();
        let flags = self.flags();
        let mut i: usize = 0;
        while i < flags.len()
            invariant
                i <= flags.len(),
                flags@ == self.flagged(),
                out@ == markers(self.land(), 2500) + flag_things(flags@.take(i as int)),
            decreases flags.len() - i,
        {
            out.push(VisualObject::Flag(flags[i].clone()));
            proof {
                assert(flag_things(flags@.take(i + 1)) =~= flag_things(flags@.take(i as int)).push(
                    VisualObject::Flag(flags@[i as int]),
                ));
                assert(out@ =~= markers(self.land(), 2500) + flag_things(flags@.take(i + 1)));
            }
            i += 1;
        }
        proof {
            assert(flags@.take(i as int) =~= flags@);
        }
        let objects = self.objects();
        let mut k: usize = 0;
        while k < objects.len()
            invariant
                k <= objects.len(),
                objects@ == self.kept(),
                out@ == markers(self.land(), 2500) + flag_things(self.flagged()) + object_things(
                    objects@.take(k as int),
                ),
            decreases objects.len() - k,
        {
            out.push(VisualObject::RoomObject(objects[k].value.shown.clone()));
            proof {
                assert(object_things(objects@.take(k + 1)) =~= object_things(
                    objects@.take(k as int),
                ).push(VisualObject::RoomObject(objects@[k as int].value.shown)));
                assert(out@ =~= markers(self.land(), 2500) + flag_things(self.flagged())
                    + object_things(objects@.take(k + 1)));
            }
            k += 1;
        }
        proof {
            assert(objects@.take(k as int) =~= objects@);
        }
        out
    }

    /// Whether every flag and object stands on a tile of the room.
    pub fn is_drawable(&self) -> (r: bool)
        ensures
            r == drawable(*self),
    {
        let flags = self.flags();
        let mut i: usize = 0;
        while i < flags.len()
            invariant
                i <= flags.len(),
                flags@ == self.flagged(),
                forall|j: int| 0 <= j < i ==> in_room(VisualObject::Flag(#[trigger] flags@[j])),
            decreases flags.len() - i,
        {
            if flags[i].x >= 50 || flags[i].y >= 50 {
                return false;
            }
            i += 1;
        }
        let objects = self.objects();
        let mut k: usize = 0;
        while k < objects.len()
            invariant
                k <= objects.len(),
                objects@ == self.kept(),
                forall|j: int| 0 <= j < flags@.len() ==> in_room(VisualObject::Flag(#[trigger] flags@[j])),
                forall|j: int|
                    0 <= j < k ==> in_room(
                        VisualObject::RoomObject((#[trigger] objects@[j]).value.shown),
                    ),
            decreases objects.len() - k,
        {
            if objects[k].value.shown.x >= 50 || objects[k].value.shown.y >= 50 {
                return false;
            }
            k += 1;
        }
        true
    }

    /// Draws the room: every terrain marker, flag and object on the stack
    /// of its tile, every stack in drawing order, under the room's id and
    /// the time of its last update. The room stays as it is.
    pub fn visualize(&self) -> (r: VisualRoom)
        requires
            self.wf(),
            drawable(*self),
        ensures
            r.last_update_time == self.time(),
            r.room_id == self.id(),
            r.shows(things_of(*self)),
    {
        let things = self.things();
        proof {
            let m = markers(self.land(), 2500);
            let f = flag_things(self.flagged());
            assert forall|i: int| 0 <= i < things@.len() implies in_room(#[trigger] things@[i]) by {
                if i < m.len() {
                    lemma_markers_in_room(self.land(), 2500);
                    assert(things@[i] == m[i]);
                } else if i < m.len() + f.len() {
                    assert(things@[i] == f[i - m.len()]);
                } else {
                    assert(things@[i] == object_things(self.kept())[i - m.len() - f.len()]);
                }
            }
        }
        VisualRoom::lay_out(self.last_update_time(), self.room_id().clone(), &things)
    }

    /// Draws the room, unless a flag or an object stands outside it.
    pub fn try_visualize(&self) -> (r: Result<VisualRoom, OutOfRoom>)
        requires
            self.wf(),
        ensures
            r is Ok == drawable(*self),
            r is Ok ==> r.unwrap().last_update_time == self.time() && r.unwrap().room_id
                == self.id() && r.unwrap().shows(things_of(*self)),
    {
        if self.is_drawable() {
            Ok(self.visualize())
        } else {
            Err(OutOfRoom)
        }
    }
}

/// Nothing is drawn of a room but what the room holds: a room object on
/// some stack of a picture of the room is what is shown of an object that
/// the room keeps, and it lies on the stack of its own tile. So what an
/// update has removed is in no picture drawn afterwards.
pub proof fn lemma_drawn_is_kept(room: Room, picture: VisualRoom, s: int, i: int)
    requires
        picture.shows(things_of(room)),
        0 <= s < 2500,
        0 <= i < picture.stacks()[s].len(),
        picture.stacks()[s][i] is RoomObject,
    ensures
        slot_of(picture.stacks()[s][i]) == s,
        exists|k: int|
            0 <= k < room.kept().len() && VisualObject::RoomObject(
                (#[trigger] room.kept()[k]).value.shown,
            ) == picture.stacks()[s][i],
{
    broadcast use vstd::seq_lib::group_to_multiset_ensures;

    let stack = picture.stacks()[s];
    let item = stack[i];
    let things = things_of(room);
    assert(is_sorted(stack) && stack.to_multiset() == placed(things, s).to_multiset());
    assert(stack.contains(item));
    assert(stack.to_multiset().count(item) > 0);
    assert(placed(things, s).contains(item));
    lemma_placed_is_listed(things, s);
    assert(things.contains(item));
    let j = choose|j: int| 0 <= j < things.len() && things[j] == item;
    let m = markers(room.land(), 2500);
    let f = flag_things(room.flagged());
    lemma_markers_are_terrain(room.land(), 2500);
    if j < m.len() {
        assert(things[j] == m[j]);
    } else if j < m.len() + f.len() {
        assert(things[j] == f[j - m.len()]);
    } else {
        let k = j - m.len() - f.len();
        assert(things[j] == object_things(room.kept())[k]);
        assert(VisualObject::RoomObject(room.kept()[k].value.shown) == item);
    }
}

} // verus!
