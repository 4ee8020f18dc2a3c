//! Static level data: rooms, affordances, items and characters, looked up
//! by grid position.

use vstd::prelude::*;
use crate::geometry::{SpriteDimension, SpritePosition};
use crate::quest::Item;

verus! {

/// A named room made of one or more rectangles.
#[derive(Debug)]
pub struct Room {
    pub name: String,
    pub description: String,
    pub dimensions: Vec<SpriteDimension>,
}

/// An interactable hotspot of the level (a mirror, a fountain).
#[derive(Debug)]
pub struct Affordance {
    pub name: String,
    pub description: String,
    pub dimension: SpriteDimension,
}

/// The player walked into the named affordance.
#[derive(Debug, Clone)]
pub struct AffordanceEvent(pub String);

/// The player picked up the named consumable item.
#[derive(Debug, Clone)]
pub struct ItemEvent(pub String);

/// The player walked into the named character.
#[derive(Debug, Clone)]
pub struct CharacterEvent(pub String);

/// A character standing on the level.
#[derive(Debug)]
pub struct Character {
    pub name: String,
    pub description: String,
    pub sprite: String,
    pub position: SpritePosition,
}

/// The level: its rooms, and what stands where. Where two affordances,
/// items or characters were placed on one cell, the later one counts.
#[derive(Debug)]
pub struct Area {
    pub name: String,
    pub map_index: usize,
    pub start: SpritePosition,
    pub rooms: Vec<Room>,
    pub affordances: Vec<Affordance>,
    pub items: Vec<Item>,
    pub characters: Vec<Character>,
}

impl Room {
    /// Whether `pos` lies in one of the room's rectangles.
    pub open spec fn spec_contains(&self, pos: SpritePosition) -> bool {
        exists|i: int|
            0 <= i < self.dimensions@.len() && #[trigger] self.dimensions@[i].spec_contains(pos)
    }

    pub fn new(name: &str, description: &str, x1: i32, y1: i32, x2: i32, y2: i32) -> (r: Room)
        ensures
            r.name@ == name@,
            r.description@ == description@,
            r.dimensions@ == seq![
                SpriteDimension {
                    topleft: SpritePosition { x: x1, y: y1 },
                    bottomright: SpritePosition { x: x2, y: y2 },
                },
            ],
    {
        let mut dimensions: Vec<SpriteDimension> = Vec::new();
        dimensions.push(
            SpriteDimension::new(SpritePosition::new(x1, y1), SpritePosition::new(x2, y2)),
        );
        Room { name: name.to_owned(), description: description.to_owned(), dimensions }
    }

    /// The room grown by one more rectangle.
    pub fn add_dimensions(self, x1: i32, y1: i32, x2: i32, y2: i32) -> (r: Room)
        ensures
            r.name@ == self.name@,
            r.description@ == self.description@,
            r.dimensions@ == self.dimensions@.push(
                SpriteDimension {
                    topleft: SpritePosition { x: x1, y: y1 },
                    bottomright: SpritePosition { x: x2, y: y2 },
                },
            ),
    {
        let mut r = self;
        r.dimensions.push(
            SpriteDimension::new(SpritePosition::new(x1, y1), SpritePosition::new(x2, y2)),
        );
        r
    }

    pub fn contains(&self, pos: &SpritePosition) -> (r: bool)
        ensures
            r == self.spec_contains(*pos),
    {
        let mut i: usize = 0;
        while i < self.dimensions.len()
            invariant
                i <= self.dimensions@.len(),
                forall|j: int| 0 <= j < i ==> !#[trigger] self.dimensions@[j].spec_contains(*pos),
            decreases self.dimensions@.len() - i,
        {
            if self.dimensions[i].contains(pos) {
                return true;
            }
            i = i + 1;
        }
        false
    }
}

impl Affordance {
    /// An affordance on the single cell `(x1, y1)`.
    pub fn new(name: &str, description: &str, x1: i32, y1: i32) -> (r: Affordance)
        ensures
            r.name@ == name@,
            r.description@ == description@,
            r.dimension == (SpriteDimension {
                topleft: SpritePosition { x: x1, y: y1 },
                bottomright: SpritePosition { x: x1, y: y1 },
            }),
    {
        Affordance {
            name: name.to_owned(),
            description: description.to_owned(),
            dimension: SpriteDimension::new(SpritePosition::new(x1, y1), SpritePosition::new(x1, y1)),
        }
    }
}

impl Character {
    pub fn new(name: &str, description: &str, sprite: &str, x1: i32, y1: i32) -> (r: Character)
        ensures
            r.name@ == name@,
            r.description@ == description@,
            r.sprite@ == sprite@,
            r.position == (SpritePosition { x: x1, y: y1 }),
    {
        Character {
            name: name.to_owned(),
            description: description.to_owned(),
            sprite: sprite.to_owned(),
            position: SpritePosition::new(x1, y1),
        }
    }
}

/// Index of the last entry of `s` that `pred` accepts, if any.
pub open spec fn last_index<T>(s: Seq<T>, pred: spec_fn(T) -> bool) -> Option<int> {
    if exists|i: int| 0 <= i < s.len() && pred(s[i]) {
        Some(choose|i: int| 0 <= i < s.len() && pred(s[i]) && forall|j: int| i < j < s.len() ==> !pred(#[trigger] s[j]))
    } else {
        None
    }
}

/// The index `last_index` finds holds an accepted entry.
pub proof fn lemma_last_index<T>(s: Seq<T>, pred: spec_fn(T) -> bool)
    ensures
        match last_index(s, pred) {
            Some(k) => 0 <= k < s.len() && pred(s[k]),
            None => forall|i: int| 0 <= i < s.len() ==> !pred(#[trigger] s[i]),
        },
{
    if exists|i: int| 0 <= i < s.len() && pred(s[i]) {
        lemma_last_exists(s, pred);
    }
}

/// Where some entry is accepted, a last accepted entry exists.
proof fn lemma_last_exists<T>(s: Seq<T>, pred: spec_fn(T) -> bool)
    requires
        exists|i: int| 0 <= i < s.len() && pred(s[i]),
    ensures
        exists|k: int|
            0 <= k < s.len() && pred(s[k]) && forall|j: int| k < j < s.len() ==> !pred(#[trigger] s[j]),
    decreases s.len(),
{
    let n = s.len() - 1;
    if pred(s[n]) {
        assert(forall|j: int| n < j < s.len() ==> !pred(#[trigger] s[j]));
    } else {
        let i = choose|i: int| 0 <= i < s.len() && pred(s[i]);
        let t = s.drop_last();
        assert(t[i] == s[i]);
        lemma_last_exists(t, pred);
        let k = choose|k: int|
            0 <= k < t.len() && pred(t[k]) && forall|j: int| k < j < t.len() ==> !pred(#[trigger] t[j]);
        assert(t[k] == s[k]);
        assert forall|j: int| k < j < s.len() implies !pred(#[trigger] s[j]) by {
            if j < n {
                assert(t[j] == s[j]);
            }
        }
    }
}

impl Area {
    /// The affordance that covers `pos`, if any.
    pub open spec fn affordance_at(&self, pos: SpritePosition) -> Option<int> {
        last_index(self.affordances@, |a: Affordance| a.dimension.spec_contains(pos))
    }

    /// The character standing on `pos`, if any.
    pub open spec fn character_at(&self, pos: SpritePosition) -> Option<int> {
        last_index(self.characters@, |c: Character| c.position == pos)
    }

    /// The item lying on `pos`, if any.
    pub open spec fn item_at(&self, pos: SpritePosition) -> Option<int> {
        last_index(self.items@, |i: Item| i.position == pos)
    }

    /// The item found on `pos` lies there.
    pub proof fn lemma_item_at(&self, pos: SpritePosition)
        ensures
            match self.item_at(pos) {
                Some(k) => 0 <= k < self.items@.len() && self.items@[k].position == pos,
                None => true,
            },
    {
        lemma_last_index(self.items@, |i: Item| i.position == pos);
    }

    /// Whether some room contains `pos`.
    pub open spec fn in_some_room(&self, pos: SpritePosition) -> bool {
        exists|i: int| 0 <= i < self.rooms@.len() && #[trigger] self.rooms@[i].spec_contains(pos)
    }

    pub fn new(name: &str, map_index: usize, start: SpritePosition) -> (r: Area)
        ensures
            r.name@ == name@,
            r.map_index == map_index,
            r.start == start,
            r.rooms@.len() == 0,
            r.affordances@.len() == 0,
            r.items@.len() == 0,
            r.characters@.len() == 0,
    {
        Area {
            name: name.to_owned(),
            map_index,
            start,
            rooms: Vec::new(),
            affordances: Vec::new(),
            items: Vec::new(),
            characters: Vec::new(),
        }
    }

    pub fn add_room(&mut self, room: Room)
        ensures
            final(self).rooms@ == old(self).rooms@.push(room),
            final(self).affordances@ == old(self).affordances@,
            final(self).items@ == old(self).items@,
            final(self).characters@ == old(self).characters@,
            final(self).start == old(self).start,
            final(self).name@ == old(self).name@,
            final(self).map_index == old(self).map_index,
    {
        self.rooms.push(room);
    }

    /// The first room that contains `pos`.
    pub fn room_from_position(&self, pos: &SpritePosition) -> (r: Option<&Room>)
        ensures
            match r {
                Some(room) => exists|i: int|
                    0 <= i < self.rooms@.len() && self.rooms@[i] == *room
                        && room.spec_contains(*pos),
                None => !self.in_some_room(*pos),
            },
    {
        let mut i: usize = 0;
        while i < self.rooms.len()
            invariant
                i <= self.rooms@.len(),
                forall|j: int| 0 <= j < i ==> !#[trigger] self.rooms@[j].spec_contains(*pos),
            decreases self.rooms@.len() - i,
        {
            if self.rooms[i].contains(pos) {
                return Some(&self.rooms[i]);
            }
            i = i + 1;
        }
        None
    }

    /// Places an affordance on every cell of its rectangle.
    pub fn add_affordance(&mut self, aff: Affordance)
        ensures
            final(self).affordances@ == old(self).affordances@.push(aff),
            final(self).rooms@ == old(self).rooms@,
            final(self).items@ == old(self).items@,
            final(self).characters@ == old(self).characters@,
            final(self).start == old(self).start,
            final(self).name@ == old(self).name@,
            final(self).map_index == old(self).map_index,
    {
        self.affordances.push(aff);
    }

    pub fn affordance_from_position(&self, pos: &SpritePosition) -> (r: Option<&Affordance>)
        ensures
            match self.affordance_at(*pos) {
                Some(i) => r == Some(&self.affordances@[i]),
                None => r is None,
            },
    {
        let mut i: usize = self.affordances.len();
        while i > 0
            invariant
                i <= self.affordances@.len(),
                forall|j: int|
                    i <= j < self.affordances@.len() ==> !#[trigger] self.affordances@[j].dimension.spec_contains(*pos),
            decreases i,
        {
            if self.affordances[i - 1].dimension.contains(pos) {
                proof {
                    let k = (i - 1) as int;
                    assert(self.affordances@[k].dimension.spec_contains(*pos));
                    let f = |a: Affordance| a.dimension.spec_contains(*pos);
                    assert(f(self.affordances@[k]));
                    let c = self.affordance_at(*pos)->Some_0;
                    if c < k {
                        assert(!f(self.affordances@[k]));
                    }
                }
                return Some(&self.affordances[i - 1]);
            }
            i = i - 1;
        }
        None
    }

    pub fn add_character(&mut self, chr: Character)
        ensures
            final(self).characters@ == old(self).characters@.push(chr),
            final(self).rooms@ == old(self).rooms@,
            final(self).items@ == old(self).items@,
            final(self).affordances@ == old(self).affordances@,
            final(self).start == old(self).start,
            final(self).name@ == old(self).name@,
            final(self).map_index == old(self).map_index,
    {
        self.characters.push(chr);
    }

    pub fn character_from_position(&self, pos: &SpritePosition) -> (r: Option<&Character>)
        ensures
            match self.character_at(*pos) {
                Some(i) => r == Some(&self.characters@[i]),
                None => r is None,
            },
    {
        let mut i: usize = self.characters.len();
        while i > 0
            invariant
                i <= self.characters@.len(),
                forall|j: int|
                    i <= j < self.characters@.len() ==> #[trigger] self.characters@[j].position != *pos,
            decreases i,
        {
            if self.characters[i - 1].position == *pos {
                proof {
                    let k = (i - 1) as int;
                    let f = |c: Character| c.position == *pos;
                    assert(f(self.characters@[k]));
                    let c = self.character_at(*pos)->Some_0;
                    if c < k {
                        assert(!f(self.characters@[k]));
                    }
                }
                return Some(&self.characters[i - 1]);
            }
            i = i - 1;
        }
        None
    }

    pub fn add_item(&mut self, item: Item)
        ensures
            final(self).items@ == old(self).items@.push(item),
            final(self).rooms@ == old(self).rooms@,
            final(self).characters@ == old(self).characters@,
            final(self).affordances@ == old(self).affordances@,
            final(self).start == old(self).start,
            final(self).name@ == old(self).name@,
            final(self).map_index == old(self).map_index,
    {
        self.items.push(item);
    }

    pub fn item_from_position(&self, pos: &SpritePosition) -> (r: Option<&Item>)
        ensures
            match self.item_at(*pos) {
                Some(i) => r == Some(&self.items@[i]),
                None => r is None,
            },
    {
        let mut i: usize = self.items.len();
        while i > 0
            invariant
                i <= self.items@.len(),
                forall|j: int| i <= j < self.items@.len() ==> #[trigger] self.items@[j].position != *pos,
            decreases i,
        {
            if self.items[i - 1].position == *pos {
                proof {
                    let k = (i - 1) as int;
                    let f = |it: Item| it.position == *pos;
                    assert(f(self.items@[k]));
                    let c = self.item_at(*pos)->Some_0;
                    if c < k {
                        assert(!f(self.items@[k]));
                    }
                }
                return Some(&self.items[i - 1]);
            }
            i = i - 1;
        }
        None
    }
}

} // verus!
