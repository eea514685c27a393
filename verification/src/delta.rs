//! Partial updates of a room, and what a run of them leaves behind.

use vstd::prelude::*;
use serde_json::Value;
use crate::entity::Flag;
use crate::store::{has_key, same_but, Entry};
use crate::wire::{json_is_null, value_is_null};

verus! {

/// What an update says of one key.
#[derive(Debug)]
pub enum Change {
    /// The entry under the key goes.
    Delete,
    /// The payload is merged into the entry under the key, or makes a new
    /// entry where there is none.
    Upsert(Value),
}

impl Change {
    /// Reads an update's value for a key: `null` deletes, anything else
    /// is a payload.
    pub fn classify(value: Value) -> (c: Change)
        ensures
            c == (if json_is_null(value) {
                Change::Delete
            } else {
                Change::Upsert(value)
            }),
    {
        if value_is_null(&value) {
            Change::Delete
        } else {
            Change::Upsert(value)
        }
    }
}

/// One update of a room.
#[derive(Debug)]
pub struct RoomDelta {
    /// The game time of the update, where it carries one.
    pub game_time: Option<u32>,
    /// Changes to room objects, in the order in which they apply.
    pub objects: Vec<(String, Change)>,
    /// The room's flags, all of them.
    pub flags: Vec<Flag>,
    /// Changes to users, where the update speaks of users at all. A key
    /// without a change is passed over.
    pub users: Option<Vec<(String, Option<Change>)>>,
}

/// The changes that a list of user changes holds, those passed over
/// left out.
pub open spec fn given(changes: Seq<(String, Option<Change>)>) -> Seq<(String, Change)>
    decreases changes.len(),
{
    if changes.len() == 0 {
        Seq::empty()
    } else {
        let front = given(changes.drop_last());
        match changes.last().1 {
            Some(c) => front.push((changes.last().0, c)),
            None => front,
        }
    }
}

/// The last change that a list holds for a key.
pub open spec fn last_change(changes: Seq<(String, Change)>, key: Seq<char>) -> Option<Change>
    decreases changes.len(),
{
    if changes.len() == 0 {
        None
    } else if changes.last().0@ == key {
        Some(changes.last().1)
    } else {
        last_change(changes.drop_last(), key)
    }
}

/// Whether two stores hold the same entries under a key.
pub open spec fn keeps<T>(before: Seq<Entry<T>>, after: Seq<Entry<T>>, key: Seq<char>) -> bool {
    forall|e: Entry<T>| e.key@ == key ==> (before.contains(e) == after.contains(e))
}

/// What one key looks like after a run of changes: untouched where no
/// change names it, gone where the last change for it deletes, present
/// where the last change for it is a payload.
pub open spec fn settled_at<T>(
    before: Seq<Entry<T>>,
    after: Seq<Entry<T>>,
    changes: Seq<(String, Change)>,
    key: Seq<char>,
) -> bool {
    match last_change(changes, key) {
        None => keeps(before, after, key),
        Some(Change::Delete) => !has_key(after, key),
        Some(Change::Upsert(_)) => has_key(after, key),
    }
}

/// Whether `after` is what a run of changes, all of them applied, leaves
/// of `before`, as far as the changes alone decide it.
pub open spec fn settled<T>(
    before: Seq<Entry<T>>,
    after: Seq<Entry<T>>,
    changes: Seq<(String, Change)>,
) -> bool {
    forall|key: Seq<char>| #[trigger] settled_at(before, after, changes, key)
}

/// Whether one change, applied, leads from `before` to `after`.
pub open spec fn stepped<T>(
    before: Seq<Entry<T>>,
    after: Seq<Entry<T>>,
    key: Seq<char>,
    change: Change,
) -> bool {
    &&& same_but(before, after, key)
    &&& match change {
        Change::Delete => !has_key(after, key),
        Change::Upsert(_) => has_key(after, key),
    }
}

/// Nothing has changed before the first change.
pub proof fn lemma_settled_start<T>(before: Seq<Entry<T>>)
    ensures
        settled(before, before, Seq::<(String, Change)>::empty()),
{
    assert forall|key: Seq<char>| #[trigger]
        settled_at(before, before, Seq::<(String, Change)>::empty(), key) by {}
}

/// One more change applied leaves the store settled for the longer run.
pub proof fn lemma_settled_step<T>(
    before: Seq<Entry<T>>,
    mid: Seq<Entry<T>>,
    after: Seq<Entry<T>>,
    changes: Seq<(String, Change)>,
    next: (String, Change),
)
    requires
        settled(before, mid, changes),
        stepped(mid, after, next.0@, next.1),
    ensures
        settled(before, after, changes.push(next)),
{
    let longer = changes.push(next);
    assert(longer.drop_last() =~= changes);
    assert(longer.last() == next);
    assert forall|key: Seq<char>| #[trigger] settled_at(before, after, longer, key) by {
        if key != next.0@ {
            assert(settled_at(before, mid, changes, key));
            assert(last_change(longer, key) == last_change(changes, key));
            if has_key(after, key) {
                let i = choose|i: int| 0 <= i < after.len() && (#[trigger] after[i]).key@ == key;
                assert(after.contains(after[i]));
                let k = choose|k: int| 0 <= k < mid.len() && mid[k] == after[i];
                assert(has_key(mid, key));
            }
            if has_key(mid, key) {
                let i = choose|i: int| 0 <= i < mid.len() && (#[trigger] mid[i]).key@ == key;
                assert(mid.contains(mid[i]));
                let k = choose|k: int| 0 <= k < after.len() && after[k] == mid[i];
                assert(has_key(after, key));
            }
        }
    }
}

/// A key whose last change in a run deletes is gone once the run has
/// been applied, whatever stood under it before.
pub proof fn lemma_deleted_is_gone<T>(
    before: Seq<Entry<T>>,
    after: Seq<Entry<T>>,
    changes: Seq<(String, Change)>,
    key: Seq<char>,
)
    requires
        settled(before, after, changes),
        last_change(changes, key) == Some(Change::Delete),
    ensures
        !has_key(after, key),
{
    assert(settled_at(before, after, changes, key));
}

/// A key that no change of a run names holds after the run what it held
/// before.
pub proof fn lemma_unnamed_is_kept<T>(
    before: Seq<Entry<T>>,
    after: Seq<Entry<T>>,
    changes: Seq<(String, Change)>,
    key: Seq<char>,
)
    requires
        settled(before, after, changes),
        forall|i: int| 0 <= i < changes.len() ==> (#[trigger] changes[i]).0@ != key,
    ensures
        keeps(before, after, key),
{
    lemma_unnamed_has_no_change(changes, key);
    assert(settled_at(before, after, changes, key));
}

/// A run holds no last change for a key that none of its changes names.
pub proof fn lemma_unnamed_has_no_change(changes: Seq<(String, Change)>, key: Seq<char>)
    requires
        forall|i: int| 0 <= i < changes.len() ==> (#[trigger] changes[i]).0@ != key,
    ensures
        last_change(changes, key) is None,
    decreases changes.len(),
{
    if changes.len() > 0 {
        let front = changes.drop_last();
        assert forall|i: int| 0 <= i < front.len() implies (#[trigger] front[i]).0@ != key by {
            assert(front[i] == changes[i]);
        }
        lemma_unnamed_has_no_change(front, key);
        assert(changes.last() == changes[changes.len() - 1]);
    }
}

} // verus!
