//! Properties that hold across several operations.

use vstd::prelude::*;
use crate::geometry::SpritePosition;
use crate::menu::{GameState, Menu, spec_close, spec_push_child};
use crate::state::{AntheaState, RemoveTileEvent, removed, stacked, built_cell};
use crate::tiles::{TileMap, TileSet, passable_path};

verus! {

/// The removal `ev` takes a tile off the cell `p` in `s`.
pub open spec fn opens(s: AntheaState, ev: RemoveTileEvent, p: SpritePosition) -> bool {
    ev.position == p && s.occupied_at_layer(p, ev.layer)
}

/// A cell that blocks the way keeps blocking it through any sequence of
/// tile removals, unless one of them takes a tile off that very cell; and
/// one that does so leaves the cell passable.
pub proof fn lemma_passability_monotone(
    states: Seq<AntheaState>,
    evs: Seq<RemoveTileEvent>,
    p: SpritePosition,
)
    requires
        states.len() == evs.len() + 1,
        forall|i: int| 0 <= i < evs.len() ==> removed(states[i], #[trigger] states[i + 1], evs[i]),
        states[0].blocked_at(p),
    ensures
        (forall|i: int| 0 <= i < evs.len() ==> !opens(states[i], #[trigger] evs[i], p))
            ==> states.last().blocked_at(p),
        forall|i: int|
            0 <= i < evs.len() && opens(states[i], #[trigger] evs[i], p) ==> states[i
                + 1].passable_at(p),
    decreases evs.len(),
{
    if evs.len() > 0 {
        let n = evs.len() - 1;
        lemma_passability_monotone(states.drop_last(), evs.drop_last(), p);
        assert(removed(states[n], states[n + 1], evs[n]));
        assert forall|i: int|
            0 <= i < evs.len() && opens(states[i], #[trigger] evs[i], p) implies states[i
            + 1].passable_at(p) by {
            assert(removed(states[i], states[i + 1], evs[i]));
        }
        if forall|i: int| 0 <= i < evs.len() ==> !opens(states[i], #[trigger] evs[i], p) {
            assert forall|i: int| 0 <= i < evs.drop_last().len() implies !opens(
                states.drop_last()[i],
                #[trigger] evs.drop_last()[i],
                p,
            ) by {
                assert(!opens(states[i], evs[i], p));
            }
            assert(states.drop_last().last() == states[n]);
            assert(!opens(states[n], evs[n], p));
        }
    }
}

/// After the first `n` layers, a cell with a base-layer tile exists and
/// is transparent exactly when that tile can be walked through.
proof fn lemma_stacked_transparency(map: TileMap, ts: TileSet, n: int, p: SpritePosition)
    requires
        1 <= n <= map.layers@.len(),
        map.layers@[0].tile_id_at(p.x as int, p.y as int) > 0,
    ensures
        stacked(map, ts, n, p).0.len() > 0,
        stacked(map, ts, n, p).2 == passable_path(
            ts.tiles@[map.layers@[0].tile_id_at(p.x as int, p.y as int) - 1]@,
        ),
    decreases n,
{
    if n > 1 {
        lemma_stacked_transparency(map, ts, n - 1, p);
    } else {
        reveal_with_fuel(stacked, 2);
    }
}

/// Only the base layer decides whether a cell lets sight through: a cell
/// whose base tile can be walked through is transparent whatever lies over
/// it, and one whose base tile blocks the way is opaque.
pub proof fn lemma_transparency_from_base_layer(map: TileMap, ts: TileSet, p: SpritePosition)
    requires
        map.well_formed(ts),
        map.layers@.len() >= 1,
        map.layers@[0].tile_id_at(p.x as int, p.y as int) > 0,
    ensures
        match built_cell(map, ts, p) {
            Some(v) => v.2 == passable_path(
                ts.tiles@[map.layers@[0].tile_id_at(p.x as int, p.y as int) - 1]@,
            ),
            None => false,
        },
{
    lemma_stacked_transparency(map, ts, map.layers@.len() as int, p);
}

/// The revealed tiles only grow along any sequence of states in which each
/// step keeps what was revealed (as every move does).
pub proof fn lemma_revealed_grows(states: Seq<AntheaState>)
    requires
        states.len() > 0,
        forall|i: int|
            0 <= i < states.len() - 1 ==> states[i].revealed@.subset_of(
                #[trigger] states[i + 1].revealed@,
            ),
        states.last().revealed@.finite(),
    ensures
        states[0].revealed@.subset_of(states.last().revealed@),
        states[0].revealed@.len() <= states.last().revealed@.len(),
    decreases states.len(),
{
    if states.len() > 1 {
        let n = states.len() - 1;
        let k = n - 1;
        assert(states[k].revealed@.subset_of(states[k + 1].revealed@));
        vstd::set_lib::lemma_set_subset_finite(states[n].revealed@, states[n - 1].revealed@);
        lemma_revealed_grows(states.drop_last());
        vstd::set_lib::lemma_len_subset(states[0].revealed@, states.last().revealed@);
    }
}

/// An operation on the menu stack.
pub enum MenuOp {
    PushChild(Menu),
    Close,
}

/// The menu stack and game state after a sequence of operations.
pub open spec fn run_menu_ops(stack: Seq<Menu>, state: GameState, ops: Seq<MenuOp>) -> (
    Seq<Menu>,
    GameState,
)
    decreases ops.len(),
{
    if ops.len() == 0 {
        (stack, state)
    } else {
        let next = match ops[0] {
            MenuOp::PushChild(m) => spec_push_child(stack, m),
            MenuOp::Close => spec_close(stack, state),
        };
        run_menu_ops(next.0, next.1, ops.drop_first())
    }
}

/// Whatever menus are pushed and closed, the game is in menu mode exactly
/// while menus are open, and closing the last one returns to the running
/// game.
pub proof fn lemma_menu_stack_balance(stack: Seq<Menu>, state: GameState, ops: Seq<MenuOp>)
    requires
        state == GameState::Menu <==> stack.len() > 0,
    ensures
        ({
            let (s, st) = run_menu_ops(stack, state, ops);
            &&& st == GameState::Menu <==> s.len() > 0
            &&& ops.len() > 0 && s.len() == 0 ==> st == GameState::Running
        }),
    decreases ops.len(),
{
    if ops.len() > 0 {
        let next = match ops[0] {
            MenuOp::PushChild(m) => spec_push_child(stack, m),
            MenuOp::Close => spec_close(stack, state),
        };
        lemma_menu_stack_balance(next.0, next.1, ops.drop_first());
    }
}

} // verus!
