//! The drawing order of everything that can stand on a tile.
//!
//! Terrain markers lie at the bottom, flags above them, room objects on
//! top. Within a category a key decides: kind and position for a marker,
//! the name for a flag, kind and id for a room object. Texts are ordered
//! by their UTF-8 bytes.

use std::cmp::Ordering;
use vstd::prelude::*;
use vstd::utf8::encode_utf8;
use crate::entity::{Flag, RoomObject};
use crate::kinds::{InterestingTerrainType, RoomObjectType};

verus! {

/// The order of two numbers.
pub open spec fn num_order(a: u32, b: u32) -> Ordering {
    if a < b {
        Ordering::Less
    } else if a == b {
        Ordering::Equal
    } else {
        Ordering::Greater
    }
}

/// The order of two positions in a drawing order.
pub open spec fn rank_order(a: u8, b: u8) -> Ordering {
    if a < b {
        Ordering::Less
    } else if a == b {
        Ordering::Equal
    } else {
        Ordering::Greater
    }
}

/// The order of two byte strings from position `i` on, given that they
/// agree before it: the first differing byte decides, and a proper prefix
/// comes first.
pub open spec fn bytes_order_from(a: Seq<u8>, b: Seq<u8>, i: int) -> Ordering
    decreases a.len() - i,
{
    if i >= a.len() && i >= b.len() {
        Ordering::Equal
    } else if i >= a.len() {
        Ordering::Less
    } else if i >= b.len() {
        Ordering::Greater
    } else if a[i] < b[i] {
        Ordering::Less
    } else if a[i] > b[i] {
        Ordering::Greater
    } else {
        bytes_order_from(a, b, i + 1)
    }
}

/// Lexical order of two byte strings.
pub open spec fn bytes_order(a: Seq<u8>, b: Seq<u8>) -> Ordering {
    bytes_order_from(a, b, 0)
}

/// Lexical byte order of two texts.
pub open spec fn text_order(a: Seq<char>, b: Seq<char>) -> Ordering {
    bytes_order(encode_utf8(a), encode_utf8(b))
}

/// The first order where it decides, the second where the first ties.
pub open spec fn and_then(first: Ordering, second: Ordering) -> Ordering {
    if first == Ordering::Equal {
        second
    } else {
        first
    }
}

/// The order with its arguments exchanged.
pub open spec fn flipped(o: Ordering) -> Ordering {
    match o {
        Ordering::Less => Ordering::Greater,
        Ordering::Equal => Ordering::Equal,
        Ordering::Greater => Ordering::Less,
    }
}

pub fn compare_num(a: u32, b: u32) -> (r: Ordering)
    ensures
        r == num_order(a, b),
{
    if a < b {
        Ordering::Less
    } else if a == b {
        Ordering::Equal
    } else {
        Ordering::Greater
    }
}

/// Whether an order is a tie.
pub fn is_tie(o: Ordering) -> (r: bool)
    ensures
        r == (o == Ordering::Equal),
{
    match o {
        Ordering::Equal => true,
        _ => false,
    }
}

pub fn compare_rank(a: u8, b: u8) -> (r: Ordering)
    ensures
        r == rank_order(a, b),
{
    if a < b {
        Ordering::Less
    } else if a == b {
        Ordering::Equal
    } else {
        Ordering::Greater
    }
}

/// Compares two byte strings lexically.
pub fn compare_bytes(a: &[u8], b: &[u8]) -> (r: Ordering)
    ensures
        r == bytes_order(a@, b@),
{
    let mut i: usize = 0;
    let ghost mut at: int = 0;
    while i < a.len() && i < b.len()
        invariant
            at == i,
            i <= a.len(),
            i <= b.len(),
            bytes_order_from(a@, b@, at) == bytes_order(a@, b@),
        decreases a.len() - i,
    {
        if a[i] < b[i] {
            return Ordering::Less;
        }
        if a[i] > b[i] {
            return Ordering::Greater;
        }
        i += 1;
        proof {
            at = at + 1;
        }
    }
    if i < b.len() {
        Ordering::Less
    } else if i < a.len() {
        Ordering::Greater
    } else {
        Ordering::Equal
    }
}

/// Compares two texts by their bytes.
pub fn compare_text(a: &String, b: &String) -> (r: Ordering)
    ensures
        r == text_order(a@, b@),
{
    compare_bytes(a.as_str().as_bytes(), b.as_str().as_bytes())
}

/// Something that is drawn on a tile.
#[derive(Debug)]
pub enum VisualObject {
    InterestingTerrain { x: u32, y: u32, ty: InterestingTerrainType },
    Flag(Flag),
    RoomObject(RoomObject),
}

impl Clone for VisualObject {
    fn clone(&self) -> (r: Self)
        ensures
            r == *self,
    {
        match self {
            VisualObject::InterestingTerrain { x, y, ty } => VisualObject::InterestingTerrain {
                x: *x,
                y: *y,
                ty: *ty,
            },
            VisualObject::Flag(f) => VisualObject::Flag(f.clone()),
            VisualObject::RoomObject(o) => VisualObject::RoomObject(o.clone()),
        }
    }
}

impl VisualObject {
    /// The column of the tile it stands on.
    pub open spec fn col(self) -> u32 {
        match self {
            VisualObject::InterestingTerrain { x, .. } => x,
            VisualObject::Flag(f) => f.x,
            VisualObject::RoomObject(o) => o.x,
        }
    }

    /// The row of the tile it stands on.
    pub open spec fn row(self) -> u32 {
        match self {
            VisualObject::InterestingTerrain { y, .. } => y,
            VisualObject::Flag(f) => f.y,
            VisualObject::RoomObject(o) => o.y,
        }
    }

    /// The drawing order of two things: by category, and within a
    /// category by its key.
    #[verifier::opaque]
    pub open spec fn order(self, other: VisualObject) -> Ordering {
        match (self, other) {
            (
                VisualObject::InterestingTerrain { x: x1, y: y1, ty: ty1 },
                VisualObject::InterestingTerrain { x: x2, y: y2, ty: ty2 },
            ) => and_then(
                rank_order(ty1.rank(), ty2.rank()),
                and_then(num_order(x1, x2), num_order(y1, y2)),
            ),
            (VisualObject::InterestingTerrain { .. }, _) => Ordering::Less,
            (_, VisualObject::InterestingTerrain { .. }) => Ordering::Greater,
            (VisualObject::Flag(a), VisualObject::Flag(b)) => text_order(a.name@, b.name@),
            (VisualObject::Flag(_), _) => Ordering::Less,
            (_, VisualObject::Flag(_)) => Ordering::Greater,
            (VisualObject::RoomObject(a), VisualObject::RoomObject(b)) => and_then(
                rank_order(a.kind.rank(), b.kind.rank()),
                text_order(a.id@, b.id@),
            ),
        }
    }

    /// Whether two things have the same place in the drawing order: the
    /// same category and the same key. For room objects that is the same
    /// kind and id, whatever else they hold.
    pub open spec fn same_key(self, other: VisualObject) -> bool {
        match (self, other) {
            (
                VisualObject::InterestingTerrain { x: x1, y: y1, ty: ty1 },
                VisualObject::InterestingTerrain { x: x2, y: y2, ty: ty2 },
            ) => ty1 == ty2 && x1 == x2 && y1 == y2,
            (VisualObject::Flag(a), VisualObject::Flag(b)) => a.name@ == b.name@,
            (VisualObject::RoomObject(a), VisualObject::RoomObject(b)) => a.kind == b.kind && a.id@
                == b.id@,
            _ => false,
        }
    }

    /// Whether `self` is drawn strictly below `other`.
    pub open spec fn is_below(self, other: VisualObject) -> bool {
        self.order(other) == Ordering::Less
    }

    /// Whether `self` may be drawn below `other`: it is below it or ties
    /// with it.
    pub open spec fn not_above(self, other: VisualObject) -> bool {
        self.order(other) != Ordering::Greater
    }

    pub fn x(&self) -> (r: u32)
        ensures
            r == self.col(),
    {
        match self {
            VisualObject::InterestingTerrain { x, .. } => *x,
            VisualObject::Flag(f) => f.x,
            VisualObject::RoomObject(o) => o.x,
        }
    }

    pub fn y(&self) -> (r: u32)
        ensures
            r == self.row(),
    {
        match self {
            VisualObject::InterestingTerrain { y, .. } => *y,
            VisualObject::Flag(f) => f.y,
            VisualObject::RoomObject(o) => o.y,
        }
    }

    /// Compares two things in drawing order.
    pub fn cmp(&self, other: &VisualObject) -> (r: Ordering)
        ensures
            r == self.order(*other),
            (r == Ordering::Equal) == self.same_key(*other),
    {
        proof {
            reveal(VisualObject::order);
            lemma_equal_is_same_key(*self, *other);
        }
        match (self, other) {
            (
                VisualObject::InterestingTerrain { x: x1, y: y1, ty: ty1 },
                VisualObject::InterestingTerrain { x: x2, y: y2, ty: ty2 },
            ) => {
                let by_kind = compare_rank(ty1.rank_of(), ty2.rank_of());
                if !is_tie(by_kind) {
                    return by_kind;
                }
                let by_col = compare_num(*x1, *x2);
                if !is_tie(by_col) {
                    return by_col;
                }
                compare_num(*y1, *y2)
            },
            (VisualObject::InterestingTerrain { .. }, _) => Ordering::Less,
            (_, VisualObject::InterestingTerrain { .. }) => Ordering::Greater,
            (VisualObject::Flag(a), VisualObject::Flag(b)) => compare_text(&a.name, &b.name),
            (VisualObject::Flag(_), _) => Ordering::Less,
            (_, VisualObject::Flag(_)) => Ordering::Greater,
            (VisualObject::RoomObject(a), VisualObject::RoomObject(b)) => {
                let by_kind = compare_rank(a.kind.rank_of(), b.kind.rank_of());
                if !is_tie(by_kind) {
                    return by_kind;
                }
                compare_text(&a.id, &b.id)
            },
        }
    }

    /// Whether `self` is drawn strictly below `other`.
    pub fn below(&self, other: &VisualObject) -> (r: bool)
        ensures
            r == self.is_below(*other),
    {
        match self.cmp(other) {
            Ordering::Less => true,
            _ => false,
        }
    }
}

/// Two things are equal when they have the same place in the drawing
/// order.
impl PartialEq for VisualObject {
    fn eq(&self, other: &VisualObject) -> (r: bool) {
        is_tie(self.cmp(other))
    }
}

impl Eq for VisualObject {

}

impl vstd::std_specs::cmp::PartialEqSpecImpl for VisualObject {
    open spec fn obeys_eq_spec() -> bool {
        true
    }

    open spec fn eq_spec(&self, other: &VisualObject) -> bool {
        self.same_key(*other)
    }
}

/// Things compare as the drawing order has them.
impl PartialOrd for VisualObject {
    fn partial_cmp(&self, other: &VisualObject) -> (r: Option<Ordering>) {
        Some(self.cmp(other))
    }
}

impl vstd::std_specs::cmp::PartialOrdSpecImpl for VisualObject {
    open spec fn obeys_partial_cmp_spec() -> bool {
        true
    }

    open spec fn partial_cmp_spec(&self, other: &VisualObject) -> Option<Ordering> {
        Some(self.order(*other))
    }
}

/// Exchanging two byte strings flips their order.
pub proof fn lemma_bytes_flip(a: Seq<u8>, b: Seq<u8>, i: int)
    requires
        0 <= i,
    ensures
        bytes_order_from(b, a, i) == flipped(bytes_order_from(a, b, i)),
    decreases a.len() - i,
{
    if i < a.len() && i < b.len() && a[i] == b[i] {
        lemma_bytes_flip(a, b, i + 1);
    }
}

/// Two byte strings that agree before `i` tie from `i` on exactly when
/// they are the same string.
pub proof fn lemma_bytes_equal(a: Seq<u8>, b: Seq<u8>, i: int)
    requires
        0 <= i <= a.len(),
        i <= b.len(),
        forall|j: int| 0 <= j < i ==> a[j] == b[j],
    ensures
        (bytes_order_from(a, b, i) == Ordering::Equal) == (a == b),
    decreases a.len() - i,
{
    if i < a.len() && i < b.len() && a[i] == b[i] {
        lemma_bytes_equal(a, b, i + 1);
    } else if i >= a.len() && i >= b.len() {
        assert(a =~= b);
    }
}

/// The order of byte strings is transitive, ties included.
pub proof fn lemma_bytes_transitive(a: Seq<u8>, b: Seq<u8>, c: Seq<u8>, i: int)
    requires
        0 <= i,
        bytes_order_from(a, b, i) != Ordering::Greater,
        bytes_order_from(b, c, i) != Ordering::Greater,
    ensures
        bytes_order_from(a, c, i) != Ordering::Greater,
        bytes_order_from(a, c, i) == Ordering::Equal ==> bytes_order_from(a, b, i)
            == Ordering::Equal && bytes_order_from(b, c, i) == Ordering::Equal,
    decreases a.len() - i,
{
    if i < a.len() && i < b.len() && i < c.len() && a[i] == b[i] && b[i] == c[i] {
        lemma_bytes_transitive(a, b, c, i + 1);
    }
}

/// Two texts tie in byte order exactly when they are the same text.
pub proof fn lemma_text_equal(a: Seq<char>, b: Seq<char>)
    ensures
        (text_order(a, b) == Ordering::Equal) == (a == b),
{
    lemma_bytes_equal(encode_utf8(a), encode_utf8(b), 0);
    vstd::utf8::encode_utf8_decode_utf8(a);
    vstd::utf8::encode_utf8_decode_utf8(b);
}

/// Two things tie in drawing order exactly when they have the same key.
pub proof fn lemma_equal_is_same_key(a: VisualObject, b: VisualObject)
    ensures
        (a.order(b) == Ordering::Equal) == a.same_key(b),
{
    reveal(VisualObject::order);
    match (a, b) {
        (VisualObject::Flag(f), VisualObject::Flag(g)) => {
            lemma_text_equal(f.name@, g.name@);
        },
        (VisualObject::RoomObject(o), VisualObject::RoomObject(p)) => {
            lemma_text_equal(o.id@, p.id@);
            if o.kind.rank() == p.kind.rank() {
                RoomObjectType::lemma_rank_injective(o.kind, p.kind);
            }
        },
        _ => {},
    }
}

/// The drawing order is antisymmetric and total: exchanging the two
/// things flips the answer, so exactly one of below, tied and above
/// holds of any two.
pub proof fn lemma_order_antisymmetric(a: VisualObject, b: VisualObject)
    ensures
        b.order(a) == flipped(a.order(b)),
{
    reveal(VisualObject::order);
    match (a, b) {
        (VisualObject::Flag(f), VisualObject::Flag(g)) => {
            lemma_bytes_flip(encode_utf8(f.name@), encode_utf8(g.name@), 0);
        },
        (VisualObject::RoomObject(o), VisualObject::RoomObject(p)) => {
            lemma_bytes_flip(encode_utf8(o.id@), encode_utf8(p.id@), 0);
        },
        _ => {},
    }
}

/// The drawing order is transitive: what is not above `b`, while `b` is
/// not above `c`, is not above `c`; and it ties with `c` only if all
/// three tie.
pub proof fn lemma_order_transitive(a: VisualObject, b: VisualObject, c: VisualObject)
    requires
        a.order(b) != Ordering::Greater,
        b.order(c) != Ordering::Greater,
    ensures
        a.order(c) != Ordering::Greater,
        a.order(c) == Ordering::Equal ==> a.order(b) == Ordering::Equal && b.order(c)
            == Ordering::Equal,
{
    reveal(VisualObject::order);
    match (a, b, c) {
        (VisualObject::Flag(f), VisualObject::Flag(g), VisualObject::Flag(h)) => {
            lemma_bytes_transitive(
                encode_utf8(f.name@),
                encode_utf8(g.name@),
                encode_utf8(h.name@),
                0,
            );
        },
        (VisualObject::RoomObject(o), VisualObject::RoomObject(p), VisualObject::RoomObject(q)) => {
            if o.kind.rank() == p.kind.rank() && p.kind.rank() == q.kind.rank() {
                lemma_bytes_transitive(
                    encode_utf8(o.id@),
                    encode_utf8(p.id@),
                    encode_utf8(q.id@),
                    0,
                );
            }
        },
        _ => {},
    }
}

/// Strictly below is transitive.
pub proof fn lemma_below_transitive(a: VisualObject, b: VisualObject, c: VisualObject)
    requires
        a.order(b) == Ordering::Less,
        b.order(c) == Ordering::Less,
    ensures
        a.order(c) == Ordering::Less,
{
    lemma_order_transitive(a, b, c);
}

/// Everything ties with itself, so nothing is below itself.
pub proof fn lemma_order_irreflexive(a: VisualObject)
    ensures
        a.order(a) == Ordering::Equal,
{
    lemma_equal_is_same_key(a, a);
}

/// Of two things, one is strictly below the other or the other may lie
/// below it, never both.
pub proof fn lemma_below_or_not_above(a: VisualObject, b: VisualObject)
    ensures
        a.is_below(b) != b.not_above(a),
{
    lemma_order_antisymmetric(a, b);
}

/// What is strictly below `b` is strictly below all that `b` may lie
/// below.
pub proof fn lemma_below_chain(a: VisualObject, b: VisualObject, c: VisualObject)
    requires
        a.is_below(b),
        b.not_above(c),
    ensures
        a.is_below(c),
{
    lemma_order_transitive(a, b, c);
}

} // verus!
