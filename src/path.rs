//! Click-to-walk planning: A* over the revealed, passable cells.

use pathfinding::prelude::astar;
use vstd::prelude::*;
use crate::geometry::{SpritePosition, manhattan, abs_diff};
use crate::state::AntheaState;

verus! {

/// `q` is one of the four cells next to `p`.
pub open spec fn adjacent(p: SpritePosition, q: SpritePosition) -> bool {
    manhattan(p, q) == 1
}

/// The player may plan a step from `p` to `q`: the two are adjacent and
/// `q` has been seen and can be walked through.
pub open spec fn step_ok(s: AntheaState, p: SpritePosition, q: SpritePosition) -> bool {
    adjacent(p, q) && s.is_revealed(q) && s.passable_at(q)
}

/// A non-empty sequence of cells, each a permitted step from the one before.
pub open spec fn is_walk(s: AntheaState, w: Seq<SpritePosition>) -> bool {
    w.len() > 0 && forall|i: int| 0 <= i < w.len() - 1 ==> step_ok(s, w[i], #[trigger] w[i + 1])
}

/// Some walk leads from `from` to `to`.
pub open spec fn reachable(s: AntheaState, from: SpritePosition, to: SpritePosition) -> bool {
    exists|w: Seq<SpritePosition>| is_walk(s, w) && w[0] == from && w.last() == to
}

/// A movement plan to `to`, to be taken from its end: its last cell is
/// where the player stands, its first is `to`, and each cell is a permitted
/// step from the one after it.
pub open spec fn is_plan(s: AntheaState, plan: Seq<SpritePosition>, to: SpritePosition) -> bool {
    &&& plan.len() > 0
    &&& plan[0] == to
    &&& plan.last() == s.map_position
    &&& forall|i: int| 0 <= i < plan.len() - 1 ==> step_ok(s, #[trigger] plan[i + 1], plan[i])
}

/// The neighbours of `pos` that the player may step to, each at cost 1.
pub fn successors(pos: &SpritePosition, state: &AntheaState) -> (r: Vec<(SpritePosition, u32)>)
    ensures
        forall|q: SpritePosition, c: u32| #[trigger]
            r@.contains((q, c)) <==> (step_ok(*state, *pos, q) && c == 1),
{
    let mut cands: Vec<SpritePosition> = Vec::new();
    if pos.x > i32::MIN {
        cands.push(SpritePosition { x: pos.x - 1, y: pos.y });
    }
    if pos.x < i32::MAX {
        cands.push(SpritePosition { x: pos.x + 1, y: pos.y });
    }
    if pos.y > i32::MIN {
        cands.push(SpritePosition { x: pos.x, y: pos.y - 1 });
    }
    if pos.y < i32::MAX {
        cands.push(SpritePosition { x: pos.x, y: pos.y + 1 });
    }
    assert forall|q: SpritePosition| adjacent(*pos, q) implies #[trigger] cands@.contains(q) by {
        if q.x == pos.x - 1 {
            assert(q == cands@[0]);
        } else if q.x == pos.x + 1 {
            let k = if pos.x > i32::MIN { 1int } else { 0int };
            assert(q == cands@[k]);
        } else if q.y == pos.y - 1 {
            let k = (if pos.x > i32::MIN { 1int } else { 0int }) + (if pos.x < i32::MAX {
                1int
            } else {
                0int
            });
            assert(q == cands@[k]);
        } else {
            let k = (if pos.x > i32::MIN { 1int } else { 0int }) + (if pos.x < i32::MAX {
                1int
            } else {
                0int
            }) + (if pos.y > i32::MIN { 1int } else { 0int });
            assert(q == cands@[k]);
        }
    }
    let mut r: Vec<(SpritePosition, u32)> = Vec::new();
    let mut i: usize = 0;
    while i < cands.len()
        invariant
            i <= cands@.len(),
            forall|k: int| 0 <= k < cands@.len() ==> adjacent(*pos, #[trigger] cands@[k]),
            forall|q: SpritePosition, c: u32| #[trigger]
                r@.contains((q, c)) <==> (cands@.subrange(0, i as int).contains(q) && step_ok(
                    *state,
                    *pos,
                    q,
                ) && c == 1),
        decreases cands@.len() - i,
    {
        let q = cands[i];
        let ghost old_r = r@;
        let ghost sub = cands@.subrange(0, i + 1);
        let ok = match state.tile_at(&q) {
            Some(t) => t.passable,
            None => false,
        };
        if state.revealed_at(&q) && ok {
            r.push((q, 1));
        }
        assert forall|p: SpritePosition, c: u32| #[trigger]
            r@.contains((p, c)) <==> (sub.contains(p) && step_ok(*state, *pos, p) && c == 1) by {
            if sub.contains(p) && p != q {
                let j = choose|j: int| 0 <= j < i + 1 && sub[j] == p;
                assert(cands@.subrange(0, i as int)[j] == p);
            }
            if cands@.subrange(0, i as int).contains(p) {
                let j = choose|j: int| 0 <= j < i && cands@.subrange(0, i as int)[j] == p;
                assert(sub[j] == p);
            }
            if p == q {
                assert(sub[i as int] == p);
            }
            if r@.contains((p, c)) && (p, c) != (q, 1u32) {
                let j = choose|j: int| 0 <= j < r@.len() && r@[j] == (p, c);
                assert(old_r[j] == (p, c));
            }
            if old_r.contains((p, c)) {
                let j = choose|j: int| 0 <= j < old_r.len() && old_r[j] == (p, c);
                assert(r@[j] == (p, c));
            }
            if r@.len() > old_r.len() {
                assert(r@[r@.len() - 1] == (q, 1u32));
            }
        }
        i = i + 1;
    }
    assert(cands@.subrange(0, cands@.len() as int) =~= cands@);
    r
}

/// A third of the Manhattan distance from `p` to `to`: the search's
/// estimate of the remaining cost, kept low so that paths bend naturally.
pub fn heuristic(p: &SpritePosition, to: &SpritePosition) -> (r: u32)
    ensures
        r == manhattan(*p, *to) / 3,
{
    let d: u64 = abs_diff(p.x, to.x) + abs_diff(p.y, to.y);
    (d / 3) as u32
}

/// Whether the search has reached `to`.
pub fn is_goal(p: &SpritePosition, to: &SpritePosition) -> (r: bool)
    ensures
        r == (*p == *to),
{
    *p == *to
}

/// Relies on `pathfinding::directed::astar::astar`: it returns a path that
/// starts at `start`, ends at a node that passes the goal test, takes each
/// node from the successors of the one before and never repeats a node; it
/// returns `None` only when no such path exists.
#[verifier::external_body]
fn astar_search(start: &SpritePosition, to: &SpritePosition, state: &AntheaState) -> (r: Option<
    Vec<SpritePosition>,
>)
    ensures
        match r {
            Some(w) => is_walk(*state, w@) && w@[0] == *start && w@.last() == *to
                && w@.no_duplicates(),
            None => !reachable(*state, *start, *to),
        },
{
    astar(start, |p| successors(p, state), |p| heuristic(p, to), |p| is_goal(p, to)).map(|t| t.0)
}

/// A plan to walk from the player's cell to the revealed cell `to` through
/// revealed, passable cells, to be taken from its end, never passing a cell
/// twice; empty where `to` is unrevealed or no walk exists.
pub fn path(state: &AntheaState, to: &SpritePosition) -> (r: Vec<SpritePosition>)
    ensures
        r@.len() == 0 <==> (!state.is_revealed(*to) || !reachable(
            *state,
            state.map_position,
            *to,
        )),
        r@.len() > 0 ==> is_plan(*state, r@, *to) && r@.no_duplicates(),
        !state.is_revealed(*to) ==> r@.len() == 0,
{
    if !state.revealed_at(to) {
        return Vec::new();
    }
    match astar_search(&state.map_position, to, state) {
        None => Vec::new(),
        Some(w) => {
            let n = w.len();
            let mut r: Vec<SpritePosition> = Vec::new();
            let mut i: usize = 0;
            while i < n
                invariant
                    n == w@.len(),
                    i <= n,
                    r@.len() == i,
                    forall|k: int| 0 <= k < i ==> #[trigger] r@[k] == w@[n - 1 - k],
                decreases n - i,
            {
                r.push(w[n - 1 - i]);
                i = i + 1;
            }
            assert(reachable(*state, state.map_position, *to));
            assert forall|k: int| 0 <= k < r@.len() - 1 implies step_ok(
                *state,
                #[trigger] r@[k + 1],
                r@[k],
            ) by {
                let j = n - 2 - k;
                assert(step_ok(*state, w@[j], w@[j + 1]));
            }
            assert forall|a: int, b: int| 0 <= a < b < r@.len() implies r@[a] != r@[b] by {
                assert(r@[a] == w@[n - 1 - a] && r@[b] == w@[n - 1 - b]);
            }
            r
        },
    }
}

} // verus!
