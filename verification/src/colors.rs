//! The user color assignor: a deterministic, stateful mapping from
//! username to display color. The reserved name always gets the fixed
//! sentinel color and never enters the table; every other name is
//! assigned the next palette color at first sighting and keeps it for
//! the lifetime of the table.

use vstd::prelude::*;
use crate::text::{chars_eq, is_reserved, is_reserved_name, normalize, normalized};

verus! {

/// A display color, one byte per channel.
#[derive(Clone, Copy, Debug, PartialEq, Eq, Structural)]
pub struct Color {
    pub red: u8,
    pub green: u8,
    pub blue: u8,
}

/// The fixed, ordered palette that user colors cycle through.
pub open spec fn palette() -> Seq<Color> {
    seq![
        (Color { red: 255, green: 0, blue: 0 }),
        (Color { red: 0, green: 255, blue: 0 }),
        (Color { red: 255, green: 255, blue: 0 }),
        (Color { red: 255, green: 0, blue: 255 }),
        (Color { red: 0, green: 255, blue: 255 }),
        (Color { red: 255, green: 100, blue: 100 }),
        (Color { red: 255, green: 255, blue: 100 }),
        (Color { red: 255, green: 100, blue: 255 }),
        (Color { red: 100, green: 255, blue: 255 }),
    ]
}

/// The sentinel color of the reserved name.
pub open spec fn sentinel() -> Color {
    Color { red: 135, green: 206, blue: 235 }
}

/// The reserved name in its normalized form.
pub open spec fn reserved_key() -> Seq<char> {
    seq!['s', 'e', 'r', 'v', 'e', 'r']
}

/// The color table. Keys are normalized usernames in first-sighting
/// order; the position of a key determines its color.
pub struct UserColors {
    pub colors: Vec<Color>,
    pub assigned: Vec<(Vec<char>, Color)>,
}

impl UserColors {
    /// The normalized names in first-sighting order.
    pub open spec fn keys(self) -> Seq<Seq<char>> {
        Seq::new(self.assigned@.len(), |i: int| self.assigned@[i].0@)
    }

    /// The color stored at position `i` of the table.
    pub open spec fn color_at(self, i: int) -> Color {
        self.assigned@[i].1
    }

    /// Whether `key` is already in the table.
    pub open spec fn has_key(self, key: Seq<char>) -> bool {
        exists|i: int| 0 <= i < self.keys().len() && self.keys()[i] == key
    }

    /// The table's invariant: the palette is the fixed one, keys are
    /// distinct normalized non-reserved names, and the color at each
    /// position cycles through the palette.
    pub open spec fn wf(self) -> bool {
        &&& self.colors@ == palette()
        &&& forall|i: int, j: int|
            0 <= i < j < self.keys().len() ==> self.keys()[i] != self.keys()[j]
        &&& forall|i: int| 0 <= i < self.keys().len() ==> self.keys()[i] != reserved_key()
        &&& forall|i: int|
            0 <= i < self.keys().len() ==> self.color_at(i) == palette()[i % palette().len() as int]
    }

    /// An empty table over the fixed palette.
    pub fn new() -> (r: UserColors)
        ensures
            r.wf(),
            r.keys().len() == 0,
    {
        let colors = vec![
            (Color { red: 255, green: 0, blue: 0 }),
            (Color { red: 0, green: 255, blue: 0 }),
            (Color { red: 255, green: 255, blue: 0 }),
            (Color { red: 255, green: 0, blue: 255 }),
            (Color { red: 0, green: 255, blue: 255 }),
            (Color { red: 255, green: 100, blue: 100 }),
            (Color { red: 255, green: 255, blue: 100 }),
            (Color { red: 255, green: 100, blue: 255 }),
            (Color { red: 100, green: 255, blue: 255 }),
        ];
        proof {
            assert(colors@ =~= palette());
        }
        let r = UserColors { colors, assigned: Vec::new() };
        proof {
            assert(r.keys() =~= Seq::<Seq<char>>::empty());
        }
        r
    }

    /// The display color for `username`.
    ///
    /// The reserved name gets the sentinel color and the table is left
    /// untouched. A name already in the table keeps its stored color. A
    /// new name is appended and assigned the next palette color in the
    /// cycle.
    pub fn get_color(&mut self, username: &str) -> (c: Color)
        requires
            old(self).wf(),
        ensures
            final(self).wf(),
            is_reserved_name(username@) ==> c == sentinel() && *final(self) == *old(self),
            (!is_reserved_name(username@) && old(self).has_key(normalized(username@)))
                ==> *final(self) == *old(self) && (exists|i: int|
                0 <= i < old(self).keys().len() && old(self).keys()[i] == normalized(username@)
                    && c == old(self).color_at(i)),
            (!is_reserved_name(username@) && !old(self).has_key(normalized(username@)))
                ==> final(self).keys() == old(self).keys().push(normalized(username@)) && (forall|
                i: int,
            |
                0 <= i < old(self).keys().len() ==> final(self).color_at(i) == old(self).color_at(
                    i,
                )) && c == palette()[old(self).keys().len() as int % palette().len() as int]
                && final(self).color_at(old(self).keys().len() as int) == c,
    {
        if is_reserved(username) {
            return Color { red: 135, green: 206, blue: 235 };
        }
        let key = normalize(username);
        let mut i: usize = 0;
        while i < self.assigned.len()
            invariant
                *self == *old(self),
                self.wf(),
                !is_reserved_name(username@),
                key@ == normalized(username@),
                i <= self.assigned@.len(),
                forall|k: int| 0 <= k < i ==> self.keys()[k] != key@,
            decreases self.assigned@.len() - i,
        {
            if chars_eq(&self.assigned[i].0, &key) {
                let c = self.assigned[i].1;
                proof {
                    assert(self.keys()[i as int] == key@);
                    assert(0 <= i < old(self).keys().len() && old(self).keys()[i as int]
                        == normalized(username@) && c == old(self).color_at(i as int));
                }
                return c;
            }
            i = i + 1;
        }
        proof {
            assert(!self.has_key(key@));
            assert(palette().len() == 9);
            assert(!is_reserved_name(username@));
            assert(normalized(username@) != reserved_key());
        }
        let idx = self.assigned.len() % self.colors.len();
        let c = self.colors[idx];
        self.assigned.push((key, c));
        proof {
            assert(self.keys() =~= old(self).keys().push(normalized(username@)));
            assert(forall|k: int|
                0 <= k < old(self).assigned@.len() ==> self.assigned@[k] == old(
                    self,
                ).assigned@[k]);
            assert forall|t: int| 0 <= t < self.keys().len() implies self.color_at(t) == palette()[
                t % palette().len() as int
            ] by {
                if t < old(self).keys().len() {
                    assert(self.color_at(t) == old(self).color_at(t));
                } else {
                    assert(t == old(self).keys().len());
                    assert(self.color_at(t) == c);
                }
            }
            assert(self.wf());
        }
        c
    }
}

/// The color assigned at position `i` of first-sighting order is fully
/// determined: it is the palette color at `i` modulo the palette
/// length, whatever the names were.
pub proof fn lemma_color_by_order(t: &UserColors, i: int)
    requires
        t.wf(),
        0 <= i < t.keys().len(),
    ensures
        t.color_at(i) == palette()[i % palette().len() as int],
{
}

/// The color at a table position cycles through the palette: positions
/// whose distance is a multiple of the palette length share a color.
pub proof fn lemma_palette_cycle(t: &UserColors, i: int, j: int)
    requires
        t.wf(),
        0 <= i < t.keys().len(),
        0 <= j < t.keys().len(),
        i % palette().len() as int == j % palette().len() as int,
    ensures
        t.color_at(i) == t.color_at(j),
{
}

} // verus!
