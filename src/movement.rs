//! Turning key presses, planned steps and clicks into moves of the player,
//! one per tick at most.

use vstd::prelude::*;
use crate::geometry::SpritePosition;
use crate::path::{is_plan, path, reachable};
use crate::quest::{Inventory, Item, item_descriptions, insertion_point};
use crate::state::{AntheaState, RemoveTileEvent, removed};
use crate::menu::GameState;
use crate::quest::EventMemory;
use crate::world::Area;

verus! {

/// Milliseconds that must pass between two moves.
pub const MOVE_DELAY: u128 = 200;

/// Milliseconds within which a second click on a cell is a double click.
pub const DOUBLE_CLICK_DELAY: u128 = 500;

/// Request to move the player to a cell.
#[derive(Debug, Clone, Copy, PartialEq, Eq, Structural)]
pub struct MoveEvent(pub SpritePosition);

/// The steps still to take, the next one last.
#[derive(Debug)]
pub struct MovementPlan(pub Vec<SpritePosition>);

/// The last click on the map, and when it came.
#[derive(Debug, Clone, Copy, PartialEq, Eq, Structural)]
pub struct MouseLocation {
    pub coords: Option<SpritePosition>,
    pub last_click: Option<SpritePosition>,
    pub last_click_time: u128,
}

/// An arrow key.
#[derive(Debug, Clone, Copy, PartialEq, Eq, Structural)]
pub enum Direction {
    Up,
    Down,
    Left,
    Right,
}

/// The cell one step from `p` in direction `d`; `y` grows downward.
pub open spec fn step_from(p: SpritePosition, d: Direction) -> (int, int) {
    match d {
        Direction::Right => (p.x + 1, p.y as int),
        Direction::Left => (p.x - 1, p.y as int),
        Direction::Up => (p.x as int, p.y - 1),
        Direction::Down => (p.x as int, p.y + 1),
    }
}

/// What a move request led to.
#[derive(Debug)]
pub enum MoveOutcome {
    /// The request was for the cell the player stands on.
    Stayed,
    /// The cell blocks the way: the player stays, the delay starts again.
    Blocked,
    /// The player interacts with the named affordance without moving.
    Affordance(String),
    /// The player interacts with the named character without moving.
    Character(String),
    /// The player moved; these tiles were revealed by it.
    Moved(Vec<SpritePosition>),
}

impl MovementPlan {
    pub fn new() -> (r: MovementPlan)
        ensures
            r.0@.len() == 0,
    {
        MovementPlan(Vec::new())
    }
}

impl MouseLocation {
    pub fn new() -> (r: MouseLocation)
        ensures
            r.coords is None,
            r.last_click is None,
            r.last_click_time == 0,
    {
        MouseLocation { coords: None, last_click: None, last_click_time: 0 }
    }
}

impl AntheaState {
    /// Adds the time elapsed since the last tick; returns whether a move
    /// may be made now.
    pub fn tick(&mut self, elapsed: u128) -> (r: bool)
        requires
            old(self).last_move + elapsed <= u128::MAX,
        ensures
            final(self).last_move == old(self).last_move + elapsed,
            r == (final(self).last_move >= MOVE_DELAY),
            final(self).map_position == old(self).map_position,
            final(self).positions@ == old(self).positions@,
            final(self).revealed@ == old(self).revealed@,
    {
        self.last_move = self.last_move + elapsed;
        self.last_move >= MOVE_DELAY
    }

    /// The cell to try next, once the move delay has passed: one step in
    /// the direction of a held key, which also drops any plan, or else the
    /// next planned step.
    pub fn next_move(&self, plan: &mut MovementPlan, key: Option<Direction>) -> (r: Option<
        MoveEvent,
    >)
        ensures
            self.last_move < MOVE_DELAY ==> r is None && final(plan).0@ == old(plan).0@,
            self.last_move >= MOVE_DELAY && key is Some ==> final(plan).0@.len() == 0 && r is Some
                && {
                let (x, y) = step_from(self.map_position, key->0);
                if i32::MIN <= x <= i32::MAX && i32::MIN <= y <= i32::MAX {
                    r == Some(MoveEvent(SpritePosition { x: x as i32, y: y as i32 }))
                } else {
                    r == Some(MoveEvent(self.map_position))
                }
            },
            self.last_move >= MOVE_DELAY && key is None && old(plan).0@.len() > 0 ==> r == Some(
                MoveEvent(old(plan).0@.last()),
            ) && final(plan).0@ == old(plan).0@.drop_last(),
            self.last_move >= MOVE_DELAY && key is None && old(plan).0@.len() == 0 ==> r is None
                && final(plan).0@ == old(plan).0@,
    {
        if self.last_move < MOVE_DELAY {
            return None;
        }
        match key {
            Some(d) => {
                plan.0.clear();
                let p = self.map_position;
                let target = match d {
                    Direction::Right => if p.x < i32::MAX {
                        SpritePosition { x: p.x + 1, y: p.y }
                    } else {
                        p
                    },
                    Direction::Left => if p.x > i32::MIN {
                        SpritePosition { x: p.x - 1, y: p.y }
                    } else {
                        p
                    },
                    Direction::Up => if p.y > i32::MIN {
                        SpritePosition { x: p.x, y: p.y - 1 }
                    } else {
                        p
                    },
                    Direction::Down => if p.y < i32::MAX {
                        SpritePosition { x: p.x, y: p.y + 1 }
                    } else {
                        p
                    },
                };
                Some(MoveEvent(target))
            },
            None => match plan.0.pop() {
                Some(p) => Some(MoveEvent(p)),
                None => None,
            },
        }
    }

    /// Carries out a move request. A request for the current cell does
    /// nothing. Otherwise the delay starts again, and: a blocked cell keeps
    /// the player in place; an affordance, or else a character, on the cell
    /// is interacted with and the player stays; else the player moves there
    /// and reveals every tile among `candidates` now in sight.
    pub fn move_player(&mut self, area: &Area, ev: &MoveEvent, candidates: &Vec<SpritePosition>) -> (r:
        MoveOutcome)
        ensures
            final(self).positions@ == old(self).positions@,
            old(self).revealed@.subset_of(final(self).revealed@),
            ev.0 == old(self).map_position ==> r is Stayed && final(self).last_move == old(
                self,
            ).last_move && final(self).revealed@ == old(self).revealed@
                && final(self).map_position == old(self).map_position,
            ev.0 != old(self).map_position ==> final(self).last_move == 0,
            ev.0 != old(self).map_position && old(self).blocked_at(ev.0) ==> r is Blocked
                && final(self).map_position == old(self).map_position && final(self).revealed@
                == old(self).revealed@,
            ev.0 != old(self).map_position && !old(self).blocked_at(ev.0) && area.affordance_at(
                ev.0,
            ) is Some ==> final(self).map_position == old(self).map_position
                && final(self).revealed@ == old(self).revealed@ && r is Affordance
                && r->Affordance_0@ == area.affordances@[area.affordance_at(ev.0)->0].name@,
            ev.0 != old(self).map_position && !old(self).blocked_at(ev.0) && area.affordance_at(
                ev.0,
            ) is None && area.character_at(ev.0) is Some ==> final(self).map_position == old(
                self,
            ).map_position && final(self).revealed@ == old(self).revealed@ && r is Character
                && r->Character_0@ == area.characters@[area.character_at(ev.0)->0].name@,
            ev.0 != old(self).map_position && !old(self).blocked_at(ev.0) && area.affordance_at(
                ev.0,
            ) is None && area.character_at(ev.0) is None ==> final(self).map_position == ev.0
                && r is Moved && (forall|p: SpritePosition| #[trigger]
                final(self).is_revealed(p) <==> (old(self).is_revealed(p) || (
                candidates@.contains(p) && final(self).sees(p)))) && (forall|p: SpritePosition|
                #[trigger] r->Moved_0@.contains(p) <==> (candidates@.contains(p)
                    && !old(self).is_revealed(p) && final(self).sees(p))),
    {
        let target = ev.0;
        if target == self.map_position {
            return MoveOutcome::Stayed;
        }
        self.last_move = 0;
        let blocked = match self.tile_at(&target) {
            Some(t) => !t.passable,
            None => false,
        };
        if blocked {
            return MoveOutcome::Blocked;
        }
        match area.affordance_from_position(&target) {
            Some(a) => {
                return MoveOutcome::Affordance(a.name.clone());
            },
            None => {},
        }
        match area.character_from_position(&target) {
            Some(c) => {
                return MoveOutcome::Character(c.name.clone());
            },
            None => {},
        }
        self.map_position = target;
        let revealed = self.reveal_visible(candidates);
        MoveOutcome::Moved(revealed)
    }
}

/// What stepping onto a cell with an item led to.
#[derive(Debug)]
pub enum Pickup {
    /// No item lies here.
    Nothing,
    /// The named consumable item was used up.
    Consumed(String),
    /// The item, with this description, went into the inventory.
    Taken(String),
}

impl Area {
    /// Takes the item placed last on the cell `pos` off the level.
    pub fn take_item(&mut self, pos: &SpritePosition) -> (r: Option<Item>)
        ensures
            final(self).rooms@ == old(self).rooms@,
            final(self).affordances@ == old(self).affordances@,
            final(self).characters@ == old(self).characters@,
            final(self).start == old(self).start,
            match old(self).item_at(*pos) {
                Some(i) => r == Some(old(self).items@[i]) && final(self).items@ == old(
                    self,
                ).items@.remove(i),
                None => r is None && final(self).items@ == old(self).items@,
            },
    {
        let mut i: usize = self.items.len();
        while i > 0
            invariant
                i <= self.items@.len(),
                *self == *old(self),
                forall|j: int| i <= j < self.items@.len() ==> #[trigger] self.items@[j].position != *pos,
            decreases i,
        {
            if self.items[i - 1].position == *pos {
                proof {
                    let k = (i - 1) as int;
                    let f = |it: Item| it.position == *pos;
                    assert(f(self.items@[k]));
                    let c = self.item_at(*pos)->Some_0;
                    if c < k {
                        assert(!f(self.items@[k]));
                    }
                }
                let it = self.items.remove(i - 1);
                return Some(it);
            }
            i = i - 1;
        }
        None
    }
}

/// Picks up the item on the player's cell, if any: a consumable one is
/// used up, another goes into the inventory.
pub fn pickup_item(state: &AntheaState, area: &mut Area, inventory: &mut Inventory) -> (r: Pickup)
    requires
        old(inventory).well_formed(),
        forall|i: int|
            0 <= i < old(area).items@.len() && (#[trigger] old(area).items@[i]).position
                == state.map_position ==> !old(inventory).holds(old(area).items@[i].name@),
    ensures
        final(inventory).well_formed(),
        match old(area).item_at(state.map_position) {
            None => r is Nothing && final(inventory).items@ == old(inventory).items@
                && final(area).items@ == old(area).items@,
            Some(i) => {
                let item = old(area).items@[i];
                &&& final(area).items@ == old(area).items@.remove(i)
                &&& if item.consumable {
                    r is Consumed && r->Consumed_0@ == item.name@ && final(inventory).items@
                        == old(inventory).items@
                } else {
                    r is Taken && r->Taken_0@ == item.description@ && exists|k: int|
                        insertion_point(
                            item_descriptions(old(inventory).items@),
                            item.description@,
                            k,
                        ) && final(inventory).items@ == old(inventory).items@.insert(k, item)
                }
            },
        },
{
    let ghost before = *area;
    match area.take_item(&state.map_position) {
        None => Pickup::Nothing,
        Some(i) => {
            if i.consumable {
                Pickup::Consumed(i.name.clone())
            } else {
                let d = i.description.clone();
                proof {
                    before.lemma_item_at(state.map_position);
                    let k = before.item_at(state.map_position)->0;
                    assert(before.items@[k].position == state.map_position);
                }
                inventory.add_item(i);
                Pickup::Taken(d)
            }
        },
    }
}

/// What a click on the map asks for.
#[derive(Debug)]
pub enum ClickOutcome {
    /// The system menu (the corner of the screen was clicked).
    SystemMenu,
    /// The player's own menu (the player was clicked).
    MainMenu,
    /// The description of what was clicked.
    Describe(String),
    /// Nothing to say: clear the display.
    Clear,
}

/// `r` is what a click on the revealed cell `p` shows: the description of
/// the character there, else of the affordance, else of the item, else of
/// a room containing it; else nothing.
pub open spec fn describes(area: Area, p: SpritePosition, r: ClickOutcome) -> bool {
    if area.character_at(p) is Some {
        r is Describe && r->Describe_0@ == area.characters@[area.character_at(p)->0].description@
    } else if area.affordance_at(p) is Some {
        r is Describe && r->Describe_0@ == area.affordances@[area.affordance_at(
            p,
        )->0].description@
    } else if area.item_at(p) is Some {
        r is Describe && r->Describe_0@ == area.items@[area.item_at(p)->0].description@
    } else if area.in_some_room(p) {
        r is Describe && exists|i: int|
            0 <= i < area.rooms@.len() && area.rooms@[i].spec_contains(p) && r->Describe_0@
                == area.rooms@[i].description@
    } else {
        r is Clear
    }
}

/// A click on `p` at time `now` is the second of a double click.
pub open spec fn is_double_click(loc: MouseLocation, p: SpritePosition, now: u128) -> bool {
    loc.last_click == Some(p) && loc.last_click_time <= now && now - loc.last_click_time
        < DOUBLE_CLICK_DELAY
}

/// A left click on the map at `rel_pos` from the player, at time `now`.
/// The top-left corner opens the system menu; an unrevealed cell clears
/// the display; the player's own cell opens the player's menu; another cell
/// is described, and a double click on it drops the current plan and plans
/// a walk there when the cell can be walked through.
pub fn click(
    state: &AntheaState,
    area: &Area,
    location: &mut MouseLocation,
    plan: &mut MovementPlan,
    rel_pos: SpritePosition,
    now: u128,
) -> (r: ClickOutcome)
    requires
        i32::MIN <= state.map_position.x + rel_pos.x <= i32::MAX,
        i32::MIN <= state.map_position.y + rel_pos.y <= i32::MAX,
    ensures
        ({
            let p = SpritePosition {
                x: (state.map_position.x + rel_pos.x) as i32,
                y: (state.map_position.y + rel_pos.y) as i32,
            };
            let dbl = is_double_click(*old(location), p, now);
            &&& final(location).last_click == Some(p)
            &&& final(location).last_click_time == now
            &&& if rel_pos.x <= -9 && rel_pos.y == -7 {
                r is SystemMenu && final(plan).0@ == old(plan).0@ && final(location).coords is None
            } else if !state.is_revealed(p) {
                r is Clear && final(plan).0@ == old(plan).0@
            } else if p == state.map_position {
                r is MainMenu && final(plan).0@ == old(plan).0@ && final(location).coords is None
            } else {
                &&& describes(*area, p, r)
                &&& !dbl ==> final(plan).0@ == old(plan).0@
                &&& dbl && !state.passable_at(p) ==> final(plan).0@.len() == 0
                &&& dbl && state.passable_at(p) ==> final(plan).0@.no_duplicates() && (final(plan).0@.len() == 0 <==> !reachable(
                    *state,
                    state.map_position,
                    p,
                )) && (final(plan).0@.len() > 0 ==> is_plan(*state, final(plan).0@, p))
            }
        }),
{
    let p = state.map_position.add(&rel_pos);
    let dbl = match location.last_click {
        Some(prev) => prev == p && location.last_click_time <= now && now
            - location.last_click_time < DOUBLE_CLICK_DELAY,
        None => false,
    };
    location.last_click = Some(p);
    location.last_click_time = now;
    if rel_pos.x <= -9 && rel_pos.y == -7 {
        location.coords = None;
        return ClickOutcome::SystemMenu;
    }
    if !state.revealed_at(&p) {
        return ClickOutcome::Clear;
    }
    if p == state.map_position {
        location.coords = None;
        return ClickOutcome::MainMenu;
    }
    let shown = match area.character_from_position(&p) {
        Some(c) => ClickOutcome::Describe(c.description.clone()),
        None => match area.affordance_from_position(&p) {
            Some(a) => ClickOutcome::Describe(a.description.clone()),
            None => match area.item_from_position(&p) {
                Some(i) => ClickOutcome::Describe(i.description.clone()),
                None => match area.room_from_position(&p) {
                    Some(room) => ClickOutcome::Describe(room.description.clone()),
                    None => ClickOutcome::Clear,
                },
            },
        },
    };
    if dbl {
        plan.0.clear();
        let passable = match state.tile_at(&p) {
            Some(t) => t.passable,
            None => false,
        };
        if passable {
            plan.0 = path(state, &p);
        }
    }
    shown
}

impl AntheaState {
    /// The first click on the title screen: the game runs, and the player
    /// sees what lies in sight of the starting cell.
    pub fn start(&mut self, state: &mut GameState, candidates: &Vec<SpritePosition>) -> (r: Vec<
        SpritePosition,
    >)
        ensures
            *final(state) == GameState::Running,
            final(self).positions@ == old(self).positions@,
            final(self).map_position == old(self).map_position,
            forall|p: SpritePosition| #[trigger]
                final(self).is_revealed(p) <==> (old(self).is_revealed(p) || (
                candidates@.contains(p) && old(self).sees(p))),
            forall|p: SpritePosition| #[trigger]
                r@.contains(p) <==> (candidates@.contains(p) && !old(self).is_revealed(p)
                    && old(self).sees(p)),
    {
        *state = GameState::Running;
        self.reveal_visible(candidates)
    }

    /// Carries out a tile removal and, where a tile went, remembers it so
    /// that a saved game can replay it.
    pub fn remove_tile_remembered(&mut self, memory: &mut EventMemory, ev: &RemoveTileEvent) -> (r:
        bool)
        ensures
            r == old(self).occupied_at_layer(ev.position, ev.layer),
            removed(*old(self), *final(self), *ev),
            final(self).revealed@ == old(self).revealed@,
            final(self).map_position == old(self).map_position,
            final(memory).body@ == old(memory).body@,
            r ==> final(memory).removed_tiles@ == old(memory).removed_tiles@.push(*ev),
            !r ==> final(memory).removed_tiles@ == old(memory).removed_tiles@,
    {
        let r = self.remove_tile(ev);
        if r {
            memory.removed_tiles.push(*ev);
        }
        r
    }

    /// Replays the remembered tile removals on a freshly laid map, in order.
    pub fn replay_removed_tiles(&mut self, memory: &EventMemory)
        ensures
            final(self).revealed@ == old(self).revealed@,
            final(self).map_position == old(self).map_position,
            exists|states: Seq<AntheaState>|
                states.len() == memory.removed_tiles@.len() + 1 && states[0] == *old(self)
                    && states.last() == *final(self) && forall|i: int|
                    0 <= i < memory.removed_tiles@.len() ==> removed(
                        states[i],
                        #[trigger] states[i + 1],
                        memory.removed_tiles@[i],
                    ),
    {
        let ghost states: Seq<AntheaState> = seq![*self];
        let mut i: usize = 0;
        while i < memory.removed_tiles.len()
            invariant
                i <= memory.removed_tiles@.len(),
                self.revealed@ == old(self).revealed@,
                self.map_position == old(self).map_position,
                states.len() == i + 1,
                states[0] == *old(self),
                states.last() == *self,
                forall|j: int|
                    0 <= j < i ==> removed(
                        states[j],
                        #[trigger] states[j + 1],
                        memory.removed_tiles@[j],
                    ),
            decreases memory.removed_tiles@.len() - i,
        {
            let ev = memory.removed_tiles[i];
            self.remove_tile(&ev);
            proof {
                let next = states.push(*self);
                assert forall|j: int|
                    0 <= j < i + 1 implies removed(
                        next[j],
                        #[trigger] next[j + 1],
                        memory.removed_tiles@[j],
                    ) by {
                    assert(next[j] == states[j] || j == i);
                    if j < i {
                        assert(next[j + 1] == states[j + 1]);
                    }
                }
                states = next;
            }
            i = i + 1;
        }
    }
}

} // verus!
