//! The physical key grid and the static classification of each key.
//!
//! Grid positions, left hand and right hand:
//!
//! ```text
//!  0  1  2  3  4 |  5  6  7  8  9 10
//! 11 12 13 14 15 | 16 17 18 19 20 21
//! 22 23 24 25 26 | 27 28 29 30 31
//!
//!             32 (thumb key)
//! ```

use vstd::prelude::*;

verus! {


/// A fixed-length grid holding one value per key position.
pub struct KeyMap<T>(pub [T; 33]);

impl<T: Copy> Clone for KeyMap<T> {
    fn clone(&self) -> (r: KeyMap<T>)
        ensures
            r.0@ == self.0@,
    {
        KeyMap(self.0)
    }
}

#[derive(Clone, Copy, Debug, PartialEq, Eq, Structural)]
pub enum Finger {
    Thumb,
    Index,
    Middle,
    Ring,
    Pinky,
}

#[derive(Clone, Copy, Debug, PartialEq, Eq, Structural)]
pub enum Hand {
    Left,
    Right,
}

#[derive(Clone, Copy, Debug, PartialEq, Eq, Structural)]
pub enum Row {
    Top,
    Home,
    Bottom,
    Thumb,
}

/// The row of key position `p`.
pub open spec fn row_of(p: int) -> Row {
    if p < 11 {
        Row::Top
    } else if p < 22 {
        Row::Home
    } else if p < 32 {
        Row::Bottom
    } else {
        Row::Thumb
    }
}

/// The column of key position `p` within its row, counted from the left.
pub open spec fn column_of(p: int) -> int {
    if p < 11 {
        p
    } else if p < 22 {
        p - 11
    } else if p < 32 {
        p - 22
    } else {
        0
    }
}

/// The finger that strikes key position `p`: pinky, ring and middle on the
/// outer columns, index on the two inner columns of each hand, pinky again
/// on the extra right-hand columns, and the thumb on the thumb key.
pub open spec fn finger_of(p: int) -> Finger {
    if p == 32 {
        Finger::Thumb
    } else {
        let c = column_of(p);
        if c == 0 || c >= 9 {
            Finger::Pinky
        } else if c == 1 || c == 8 {
            Finger::Ring
        } else if c == 2 || c == 7 {
            Finger::Middle
        } else {
            Finger::Index
        }
    }
}

/// The hand that strikes key position `p`: the first five columns and the
/// thumb key are left-hand keys.
pub open spec fn hand_of(p: int) -> Hand {
    if p == 32 || column_of(p) < 5 {
        Hand::Left
    } else {
        Hand::Right
    }
}

/// The finger table of the grid.
pub fn key_fingers() -> (r: KeyMap<Finger>)
    ensures
        forall|p: int| 0 <= p < 33 ==> r.0@[p] == finger_of(p),
{
    let t = [
        Finger::Pinky, Finger::Ring, Finger::Middle, Finger::Index, Finger::Index,
        Finger::Index, Finger::Index, Finger::Middle, Finger::Ring, Finger::Pinky, Finger::Pinky,
        Finger::Pinky, Finger::Ring, Finger::Middle, Finger::Index, Finger::Index,
        Finger::Index, Finger::Index, Finger::Middle, Finger::Ring, Finger::Pinky, Finger::Pinky,
        Finger::Pinky, Finger::Ring, Finger::Middle, Finger::Index, Finger::Index,
        Finger::Index, Finger::Index, Finger::Middle, Finger::Ring, Finger::Pinky,
        Finger::Thumb,
    ];
    KeyMap(t)
}

/// The hand table of the grid.
pub fn key_hands() -> (r: KeyMap<Hand>)
    ensures
        forall|p: int| 0 <= p < 33 ==> r.0@[p] == hand_of(p),
{
    let t = [
        Hand::Left, Hand::Left, Hand::Left, Hand::Left, Hand::Left,
        Hand::Right, Hand::Right, Hand::Right, Hand::Right, Hand::Right, Hand::Right,
        Hand::Left, Hand::Left, Hand::Left, Hand::Left, Hand::Left,
        Hand::Right, Hand::Right, Hand::Right, Hand::Right, Hand::Right, Hand::Right,
        Hand::Left, Hand::Left, Hand::Left, Hand::Left, Hand::Left,
        Hand::Right, Hand::Right, Hand::Right, Hand::Right, Hand::Right,
        Hand::Left,
    ];
    KeyMap(t)
}

/// The row table of the grid.
pub fn key_rows() -> (r: KeyMap<Row>)
    ensures
        forall|p: int| 0 <= p < 33 ==> r.0@[p] == row_of(p),
{
    let t = [
        Row::Top, Row::Top, Row::Top, Row::Top, Row::Top,
        Row::Top, Row::Top, Row::Top, Row::Top, Row::Top, Row::Top,
        Row::Home, Row::Home, Row::Home, Row::Home, Row::Home,
        Row::Home, Row::Home, Row::Home, Row::Home, Row::Home, Row::Home,
        Row::Bottom, Row::Bottom, Row::Bottom, Row::Bottom, Row::Bottom,
        Row::Bottom, Row::Bottom, Row::Bottom, Row::Bottom, Row::Bottom,
        Row::Thumb,
    ];
    KeyMap(t)
}

} // verus!
