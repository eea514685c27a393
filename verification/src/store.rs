//! A small keyed store: entries in a vector, no key twice.

use vstd::prelude::*;

verus! {

/// One entry of a store: a value under its key.
#[derive(Clone, Debug)]
pub struct Entry<T> {
    pub key: String,
    pub value: T,
}

/// Whether no key occurs twice.
pub open spec fn distinct_keys<T>(entries: Seq<Entry<T>>) -> bool {
    forall|i: int, j: int|
        0 <= i < entries.len() && 0 <= j < entries.len() && i != j ==> (#[trigger] entries[i]).key@
            != (#[trigger] entries[j]).key@
}

/// Whether some entry stands under the key.
pub open spec fn has_key<T>(entries: Seq<Entry<T>>, key: Seq<char>) -> bool {
    exists|i: int| 0 <= i < entries.len() && (#[trigger] entries[i]).key@ == key
}

/// Where the entry under a key stands, in a store that has one.
pub open spec fn place<T>(entries: Seq<Entry<T>>, key: Seq<char>) -> int {
    choose|i: int| 0 <= i < entries.len() && (#[trigger] entries[i]).key@ == key
}

/// In a store without a key twice, an entry under a key stands at the
/// key's place.
pub proof fn lemma_place<T>(entries: Seq<Entry<T>>, i: int)
    requires
        distinct_keys(entries),
        0 <= i < entries.len(),
    ensures
        place(entries, entries[i].key@) == i,
        has_key(entries, entries[i].key@),
{
    let p = place(entries, entries[i].key@);
    assert(0 <= p < entries.len() && entries[p].key@ == entries[i].key@);
}

/// Whether two stores hold the same entries under every key but `key`.
pub open spec fn same_but<T>(before: Seq<Entry<T>>, after: Seq<Entry<T>>, key: Seq<char>) -> bool {
    forall|e: Entry<T>| e.key@ != key ==> (before.contains(e) == after.contains(e))
}

/// Where the entry under a key stands, if there is one.
pub fn find<T>(entries: &Vec<Entry<T>>, key: &String) -> (r: Option<usize>)
    ensures
        r is Some == has_key(entries@, key@),
        r is Some ==> r.unwrap() < entries.len() && entries@[r.unwrap() as int].key@ == key@,
{
    let mut i: usize = 0;
    while i < entries.len()
        invariant
            i <= entries.len(),
            forall|j: int| 0 <= j < i ==> (#[trigger] entries@[j]).key@ != key@,
        decreases entries.len() - i,
    {
        if entries[i].key == *key {
            return Some(i);
        }
        i += 1;
    }
    None
}

/// Takes the entry under a key out of the store, if there is one. The
/// other entries stay, in their order.
pub fn take<T>(entries: &mut Vec<Entry<T>>, key: &String) -> (r: Option<Entry<T>>)
    requires
        distinct_keys(old(entries)@),
    ensures
        distinct_keys(final(entries)@),
        !has_key(final(entries)@, key@),
        same_but(old(entries)@, final(entries)@, key@),
        r is Some == has_key(old(entries)@, key@),
        r is Some ==> r.unwrap() == old(entries)@[place(old(entries)@, key@)] && final(entries)@
            == old(entries)@.remove(place(old(entries)@, key@)),
        r is None ==> final(entries)@ == old(entries)@,
        forall|e: Entry<T>| final(entries)@.contains(e) ==> old(entries)@.contains(e),
{
    match find(entries, key) {
        None => None,
        Some(i) => {
            let ghost before = entries@;
            let taken = entries.remove(i);
            proof {
                let after = entries@;
                assert(after == before.remove(i as int));
                assert(before[i as int] == taken);
                lemma_place(before, i as int);
                assert forall|k: int| 0 <= k < after.len() implies (#[trigger] after[k]).key@
                    != key@ by {
                    if k < i {
                        assert(after[k] == before[k]);
                    } else {
                        assert(after[k] == before[k + 1]);
                    }
                }
                assert forall|e: Entry<T>| e.key@ != key@ implies (before.contains(e)
                    == after.contains(e)) by {
                    if before.contains(e) {
                        let k = choose|k: int| 0 <= k < before.len() && before[k] == e;
                        if k < i {
                            assert(after[k] == e);
                        } else {
                            assert(after[k - 1] == e);
                        }
                    }
                    if after.contains(e) {
                        let k = choose|k: int| 0 <= k < after.len() && after[k] == e;
                        if k < i {
                            assert(before[k] == e);
                        } else {
                            assert(before[k + 1] == e);
                        }
                    }
                }
                assert forall|e: Entry<T>| after.contains(e) implies before.contains(e) by {
                    let k = choose|k: int| 0 <= k < after.len() && after[k] == e;
                    if k < i {
                        assert(before[k] == e);
                    } else {
                        assert(before[k + 1] == e);
                    }
                }
                assert forall|a: int, b: int|
                    0 <= a < after.len() && 0 <= b < after.len() && a != b implies (
                #[trigger] after[a]).key@ != (#[trigger] after[b]).key@ by {
                    let a0 = if a < i { a } else { a + 1 };
                    let b0 = if b < i { b } else { b + 1 };
                    assert(after[a] == before[a0] && after[b] == before[b0]);
                }
            }
            Some(taken)
        },
    }
}

/// Puts an entry into a store that holds nothing under its key.
pub fn put<T>(entries: &mut Vec<Entry<T>>, entry: Entry<T>)
    requires
        distinct_keys(old(entries)@),
        !has_key(old(entries)@, entry.key@),
    ensures
        distinct_keys(final(entries)@),
        final(entries)@ == old(entries)@.push(entry),
        has_key(final(entries)@, entry.key@),
        same_but(old(entries)@, final(entries)@, entry.key@),
{
    let ghost before = entries@;
    entries.push(entry);
    proof {
        let after = entries@;
        assert(after[before.len() as int] == entry);
        assert forall|e: Entry<T>| e.key@ != entry.key@ implies (before.contains(e)
            == after.contains(e)) by {
            if before.contains(e) {
                let k = choose|k: int| 0 <= k < before.len() && before[k] == e;
                assert(after[k] == e);
            }
            if after.contains(e) {
                let k = choose|k: int| 0 <= k < after.len() && after[k] == e;
                assert(before[k] == e);
            }
        }
        assert forall|a: int, b: int|
            0 <= a < after.len() && 0 <= b < after.len() && a != b implies (#[trigger] after[a]).key@
            != (#[trigger] after[b]).key@ by {
            if a < before.len() {
                assert(after[a] == before[a]);
            }
            if b < before.len() {
                assert(after[b] == before[b]);
            }
        }
    }
}

/// Putting another entry in the place of one with the same key changes
/// nothing under any other key, and keeps the keys distinct.
pub proof fn lemma_replace<T>(before: Seq<Entry<T>>, i: int, entry: Entry<T>)
    requires
        distinct_keys(before),
        0 <= i < before.len(),
        entry.key@ == before[i].key@,
    ensures
        distinct_keys(before.update(i, entry)),
        same_but(before, before.update(i, entry), entry.key@),
        has_key(before.update(i, entry), entry.key@),
{
    let after = before.update(i, entry);
    assert(after[i].key@ == entry.key@);
    assert forall|a: int, b: int|
        0 <= a < after.len() && 0 <= b < after.len() && a != b implies (#[trigger] after[a]).key@ != (
    #[trigger] after[b]).key@ by {
        assert(after[a].key@ == before[a].key@);
        assert(after[b].key@ == before[b].key@);
    }
    assert forall|e: Entry<T>| e.key@ != entry.key@ implies (before.contains(e) == after.contains(
        e,
    )) by {
        if before.contains(e) {
            let k = choose|k: int| 0 <= k < before.len() && before[k] == e;
            assert(after[k] == e);
        }
        if after.contains(e) {
            let k = choose|k: int| 0 <= k < after.len() && after[k] == e;
            assert(before[k] == e);
        }
    }
}

} // verus!
