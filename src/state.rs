//! The world map model: per-tile passability, transparency and occupants,
//! the player's position, the revealed tiles, and line-of-sight visibility.

use std::collections::{HashMap, HashSet};
use vstd::prelude::*;
use crate::geometry::{
    SpritePosition, abs, pos_key, lemma_pos_key_eq, lemma_pos_key_injective, VISIBILITY_DISTANCE,
};
use crate::tiles::{TileMap, TileSet, is_tile_passable, passable_path};

verus! {

broadcast use vstd::std_specs::hash::group_hash_axioms, lemma_pos_key_eq;

/// Marks a tile sprite with the layer it was drawn from.
#[derive(Debug, Clone, Copy, PartialEq, Eq, Structural)]
pub struct MapTile(pub usize);

/// What is known of one grid cell: the tile sprites on it, and whether it
/// can be walked through and seen through.
#[derive(Debug)]
pub struct TileEntityState {
    pub entities: Vec<MapTile>,
    pub passable: bool,
    pub transparent: bool,
}

/// A cell as a value: its occupants, passability and transparency.
pub type TileView = (Seq<MapTile>, bool, bool);

impl View for TileEntityState {
    type V = TileView;

    open spec fn view(&self) -> TileView {
        (self.entities@, self.passable, self.transparent)
    }
}

impl Default for TileEntityState {
    fn default() -> (r: TileEntityState)
        ensures
            r@ == (Seq::<MapTile>::empty(), true, true),
    {
        TileEntityState { entities: Vec::new(), passable: true, transparent: true }
    }
}

/// A tile removal: the sprite of `layer` at `position` goes away (a door
/// opens) and the cell becomes passable.
#[derive(Debug, Clone, Copy, PartialEq, Eq, Structural)]
pub struct RemoveTileEvent {
    pub position: SpritePosition,
    pub layer: usize,
}

impl RemoveTileEvent {
    pub fn new(position: SpritePosition, layer: usize) -> (r: RemoveTileEvent)
        ensures
            r.position == position,
            r.layer == layer,
    {
        RemoveTileEvent { position, layer }
    }
}

/// The cell as it stands in a table keyed by `pos_key`.
pub open spec fn cell_of(m: Map<u64, TileEntityState>, p: SpritePosition) -> Option<TileView> {
    if m.contains_key(pos_key(p)) {
        Some(m[pos_key(p)]@)
    } else {
        None
    }
}

/// Adds the tile of layer `li`, passable or not, to a cell. Only the base
/// layer decides whether the cell can be seen through.
pub open spec fn fold_layer(s: TileView, pass: bool, li: int) -> TileView {
    (s.0.push(MapTile(li as usize)), s.1 && pass, if li == 0 && !pass {
        false
    } else {
        s.2
    })
}

/// The cell at `p` after the first `n` layers of `map` are laid.
pub open spec fn stacked(map: TileMap, ts: TileSet, n: int, p: SpritePosition) -> TileView
    decreases n,
{
    if n <= 0 {
        (Seq::empty(), true, true)
    } else {
        let prev = stacked(map, ts, n - 1, p);
        let id = map.layers@[n - 1].tile_id_at(p.x as int, p.y as int);
        if id > 0 {
            fold_layer(prev, passable_path(ts.tiles@[id - 1]@), n - 1)
        } else {
            prev
        }
    }
}

/// The cell at `p` once every layer of `map` is laid; `None` where no layer
/// has a tile there.
pub open spec fn built_cell(map: TileMap, ts: TileSet, p: SpritePosition) -> Option<TileView> {
    let s = stacked(map, ts, map.layers@.len() as int, p);
    if s.0.len() > 0 {
        Some(s)
    } else {
        None
    }
}

/// The cell at `p` while layer `li` is laid up to (not including) its
/// tile number `i`.
pub open spec fn partly_stacked(map: TileMap, ts: TileSet, li: int, i: int, p: SpritePosition) -> TileView {
    let prev = stacked(map, ts, li, p);
    let layer = map.layers@[li];
    let id = layer.tile_id_at(p.x as int, p.y as int);
    if id > 0 && p.y * layer.width + p.x < i {
        fold_layer(prev, passable_path(ts.tiles@[id - 1]@), li)
    } else {
        prev
    }
}

pub open spec fn as_cell(s: TileView) -> Option<TileView> {
    if s.0.len() > 0 {
        Some(s)
    } else {
        None
    }
}

/// The occupants of a cell without those of one layer.
pub open spec fn without_layer(s: Seq<MapTile>, layer: usize) -> Seq<MapTile>
    decreases s.len(),
{
    if s.len() == 0 {
        s
    } else {
        let r = without_layer(s.drop_last(), layer);
        if s.last().0 == layer {
            r
        } else {
            r.push(s.last())
        }
    }
}

/// `-1`, `0` or `1`, the sign of `a`.
pub open spec fn sign(a: int) -> int {
    if a < 0 {
        -1
    } else if a > 0 {
        1
    } else {
        0
    }
}

/// One step of a sight line from an offset back toward the viewer: along
/// the axis with the larger remaining distance, along both on a tie.
pub open spec fn step_back(dx: int, dy: int) -> (int, int) {
    (
        if dx != 0 && abs(dx) >= abs(dy) {
            dx - sign(dx)
        } else {
            dx
        },
        if dy != 0 && abs(dx) <= abs(dy) {
            dy - sign(dy)
        } else {
            dy
        },
    )
}

/// Whether sight passes through the cell `(x, y)` of `cells`; unknown
/// cells do not block it.
pub open spec fn transparent_in(cells: Map<u64, TileEntityState>, x: int, y: int) -> bool {
    if i32::MIN <= x <= i32::MAX && i32::MIN <= y <= i32::MAX {
        match cell_of(cells, SpritePosition { x: x as i32, y: y as i32 }) {
            Some(v) => v.2,
            None => true,
        }
    } else {
        true
    }
}

/// Whether every cell on the sight line from `origin` to the offset
/// `(dx, dy)` lets sight through; the target cell itself is not looked
/// at, the cell at `origin` is.
pub open spec fn line_clear_in(
    cells: Map<u64, TileEntityState>,
    origin: SpritePosition,
    dx: int,
    dy: int,
) -> bool
    decreases abs(dx) + abs(dy),
{
    if dx == 0 && dy == 0 {
        true
    } else {
        let (nx, ny) = step_back(dx, dy);
        transparent_in(cells, origin.x + nx, origin.y + ny) && line_clear_in(cells, origin, nx, ny)
    }
}

/// The player's view of the world map.
#[derive(Debug)]
pub struct AntheaState {
    pub map_position: SpritePosition,
    pub positions: HashMap<u64, TileEntityState>,
    pub revealed: HashSet<u64>,
    pub last_move: u128,
}

impl AntheaState {
    /// The cell at `p`, if any layer has a tile there.
    pub open spec fn cell(self, p: SpritePosition) -> Option<TileView> {
        cell_of(self.positions@, p)
    }

    /// Whether the player has seen `p`.
    pub open spec fn is_revealed(self, p: SpritePosition) -> bool {
        self.revealed@.contains(pos_key(p))
    }

    /// A known cell that can be walked through.
    pub open spec fn passable_at(self, p: SpritePosition) -> bool {
        match self.cell(p) {
            Some(v) => v.1,
            None => false,
        }
    }

    /// A known cell that blocks the way.
    pub open spec fn blocked_at(self, p: SpritePosition) -> bool {
        match self.cell(p) {
            Some(v) => !v.1,
            None => false,
        }
    }

    /// Whether sight passes through the cell `(x, y)`; unknown cells do not
    /// block it.
    pub open spec fn transparent_at(self, x: int, y: int) -> bool {
        transparent_in(self.positions@, x, y)
    }

    /// Whether every cell on the sight line from the player to the offset
    /// `(dx, dy)` lets sight through.
    pub open spec fn line_clear(self, dx: int, dy: int) -> bool {
        line_clear_in(self.positions@, self.map_position, dx, dy)
    }

    /// Whether the player sees the tile at `p` from where they stand.
    pub open spec fn sees(self, p: SpritePosition) -> bool {
        let dx = p.x - self.map_position.x;
        let dy = p.y - self.map_position.y;
        abs(dx) < VISIBILITY_DISTANCE && abs(dy) < VISIBILITY_DISTANCE && self.line_clear(dx, dy)
    }

    /// Whether a tile of `layer` stands at `p`.
    pub open spec fn occupied_at_layer(self, p: SpritePosition, layer: usize) -> bool {
        match self.cell(p) {
            Some(v) => v.0.contains(MapTile(layer)),
            None => false,
        }
    }

    /// The state at spawn time: at `start`, nothing known and nothing seen.
    pub fn new(start: SpritePosition) -> (r: AntheaState)
        ensures
            r.map_position == start,
            r.positions@ == Map::<u64, TileEntityState>::empty(),
            r.revealed@ == Set::<u64>::empty(),
            r.last_move == 0,
    {
        AntheaState {
            map_position: start,
            positions: HashMap::new(),
            revealed: HashSet::new(),
            last_move: 0,
        }
    }

    /// The cell at `p`.
    pub fn tile_at(&self, p: &SpritePosition) -> (r: Option<&TileEntityState>)
        ensures
            match r {
                Some(t) => self.cell(*p) == Some(t@),
                None => self.cell(*p) is None,
            },
    {
        self.positions.get(&p.key())
    }

    /// Whether the player has seen `p`.
    pub fn revealed_at(&self, p: &SpritePosition) -> (r: bool)
        ensures
            r == self.is_revealed(*p),
    {
        self.revealed.contains(&p.key())
    }

    /// Marks `p` as seen.
    pub fn reveal_position(&mut self, p: &SpritePosition)
        ensures
            final(self).revealed@ == old(self).revealed@.insert(pos_key(*p)),
            final(self).positions@ == old(self).positions@,
            final(self).map_position == old(self).map_position,
            final(self).last_move == old(self).last_move,
    {
        self.revealed.insert(p.key());
    }
}


/// A cell that no layer reached is passable and transparent.
proof fn lemma_stacked_empty(map: TileMap, ts: TileSet, n: int, p: SpritePosition)
    ensures
        stacked(map, ts, n, p).0.len() == 0 ==> stacked(map, ts, n, p) == (
            Seq::<MapTile>::empty(),
            true,
            true,
        ),
    decreases n,
{
    if n > 0 {
        lemma_stacked_empty(map, ts, n - 1, p);
    }
}

/// Two cells of a layer `w` wide share an index only if they are one.
proof fn lemma_cell_index_unique(w: int, x1: int, y1: int, x2: int, y2: int)
    requires
        0 <= x1 < w,
        0 <= x2 < w,
        0 <= y1,
        0 <= y2,
        y1 * w + x1 == y2 * w + x2,
    ensures
        x1 == x2,
        y1 == y2,
{
    if y1 < y2 {
        assert(y1 * w + w <= y2 * w) by (nonlinear_arith)
            requires
                y1 < y2,
                0 < w,
        ;
    } else if y2 < y1 {
        assert(y2 * w + w <= y1 * w) by (nonlinear_arith)
            requires
                y2 < y1,
                0 < w,
        ;
    }
}

impl AntheaState {
    /// Lays out the cells of a level: a cell exists where some layer has a
    /// tile, it is passable where every layer's tile is, and it is
    /// transparent unless its base-layer tile blocks the way.
    pub fn setup_map(&mut self, map: &TileMap, ts: &TileSet)
        requires
            map.well_formed(*ts),
        ensures
            forall|p: SpritePosition| #[trigger]
                final(self).cell(p) == built_cell(*map, *ts, p),
            final(self).revealed@ == old(self).revealed@,
            final(self).map_position == old(self).map_position,
            final(self).last_move == old(self).last_move,
    {
        let mut positions: HashMap<u64, TileEntityState> = HashMap::new();
        let nl = map.layers.len();
        let mut li: usize = 0;
        while li < nl
            invariant
                nl == map.layers@.len(),
                li <= nl,
                map.well_formed(*ts),
                forall|p: SpritePosition| #[trigger]
                    cell_of(positions@, p) == as_cell(stacked(*map, *ts, li as int, p)),
            decreases nl - li,
        {
            let layer = &map.layers[li];
            assert(0 < layer.width <= i32::MAX && layer.tiles@.len() <= i32::MAX);
            let w = layer.width;
            let n = layer.tiles.len();
            let mut i: usize = 0;
            let mut x: usize = 0;
            let mut y: usize = 0;
            while i < n
                invariant
                    nl == map.layers@.len(),
                    li < nl,
                    *layer == map.layers@[li as int],
                    map.well_formed(*ts),
                    w == layer.width,
                    0 < w <= i32::MAX,
                    n == layer.tiles@.len(),
                    n <= i32::MAX,
                    i <= n,
                    x < w,
                    i == y * w + x,
                    forall|p: SpritePosition| #[trigger]
                        cell_of(positions@, p) == as_cell(
                            partly_stacked(*map, *ts, li as int, i as int, p),
                        ),
                decreases n - i,
            {
                assert(y <= i) by (nonlinear_arith)
                    requires
                        i == y * w + x,
                        0 < w,
                ;
                let t = layer.tiles[i];
                let here = SpritePosition { x: x as i32, y: y as i32 };
                assert(layer.tile_id_at(here.x as int, here.y as int) == t);
                let ghost before = positions@;
                assert(cell_of(before, here) == as_cell(
                    partly_stacked(*map, *ts, li as int, i as int, here),
                ));
                if t > 0 {
                    assert(t <= ts.tiles@.len());
                    let pass = is_tile_passable(ts.tiles[t - 1].as_str());
                    let key = here.key();
                    let mut tes = match positions.remove(&key) {
                        Some(e) => e,
                        None => TileEntityState::default(),
                    };
                    proof {
                        lemma_stacked_empty(*map, *ts, li as int, here);
                        assert(partly_stacked(*map, *ts, li as int, i as int, here) == stacked(
                            *map,
                            *ts,
                            li as int,
                            here,
                        ));
                    }
                    assert(tes@ == stacked(*map, *ts, li as int, here));
                    tes.entities.push(MapTile(li));
                    tes.passable = tes.passable && pass;
                    if li == 0 && !pass {
                        tes.transparent = false;
                    }
                    positions.insert(key, tes);
                }
                assert forall|p: SpritePosition| #[trigger]
                    cell_of(positions@, p) == as_cell(
                        partly_stacked(*map, *ts, li as int, i + 1, p),
                    ) by {
                    lemma_pos_key_injective(p, here);
                    if p != here {
                        assert(cell_of(positions@, p) == cell_of(before, p));
                        let id = layer.tile_id_at(p.x as int, p.y as int);
                        if id > 0 && p.y * layer.width + p.x == i {
                            lemma_cell_index_unique(
                                w as int,
                                p.x as int,
                                p.y as int,
                                x as int,
                                y as int,
                            );
                        }
                        assert(partly_stacked(*map, *ts, li as int, i + 1, p) == partly_stacked(
                            *map,
                            *ts,
                            li as int,
                            i as int,
                            p,
                        ));
                    } else if t == 0 {
                        assert(partly_stacked(*map, *ts, li as int, i + 1, p) == partly_stacked(
                            *map,
                            *ts,
                            li as int,
                            i as int,
                            p,
                        ));
                    }
                }
                assert((y + 1) * w == y * w + w) by (nonlinear_arith);
                i = i + 1;
                if x + 1 == w {
                    x = 0;
                    y = y + 1;
                } else {
                    x = x + 1;
                }
            }
            assert forall|p: SpritePosition| #[trigger]
                cell_of(positions@, p) == as_cell(stacked(*map, *ts, li + 1, p)) by {
                assert(partly_stacked(*map, *ts, li as int, i as int, p) == stacked(*map, *ts, li + 1, p));
            }
            li = li + 1;
        }
        self.positions = positions;
    }
}

/// `after` is `before` once the tile removal `ev` is carried out: where a
/// tile of `ev.layer` stands at `ev.position` it goes and the cell becomes
/// passable; no other cell changes.
pub open spec fn removed(before: AntheaState, after: AntheaState, ev: RemoveTileEvent) -> bool {
    &&& forall|p: SpritePosition| p != ev.position ==> #[trigger] after.cell(p) == before.cell(p)
    &&& if before.occupied_at_layer(ev.position, ev.layer) {
        match before.cell(ev.position) {
            Some(v) => after.cell(ev.position) == Some(cleared(v, ev.layer)),
            None => false,
        }
    } else {
        after.cell(ev.position) == before.cell(ev.position)
    }
}

/// A cell once the tiles of `layer` are taken off it.
pub open spec fn cleared(v: TileView, layer: usize) -> TileView {
    (without_layer(v.0, layer), true, v.2)
}

impl AntheaState {
    /// Takes the tiles of `ev.layer` off the cell at `ev.position` and makes
    /// it passable, where such a tile stands; otherwise changes nothing.
    /// Returns whether a tile was taken off.
    pub fn remove_tile(&mut self, ev: &RemoveTileEvent) -> (r: bool)
        ensures
            r == old(self).occupied_at_layer(ev.position, ev.layer),
            removed(*old(self), *final(self), *ev),
            r ==> match old(self).cell(ev.position) {
                Some(v) => final(self).cell(ev.position) == Some(cleared(v, ev.layer)),
                None => false,
            },
            !r ==> final(self).positions@ == old(self).positions@,
            forall|p: SpritePosition|
                p != ev.position ==> #[trigger] final(self).cell(p) == old(self).cell(p),
            final(self).revealed@ == old(self).revealed@,
            final(self).map_position == old(self).map_position,
            final(self).last_move == old(self).last_move,
    {
        let key = ev.position.key();
        let ghost before = self.positions@;
        match self.positions.remove(&key) {
            None => {
                assert(self.positions@ =~= before);
                false
            },
            Some(mut tes) => {
                let ghost orig = tes@;
                let n = tes.entities.len();
                let mut found = false;
                let mut kept: Vec<MapTile> = Vec::new();
                let mut i: usize = 0;
                while i < n
                    invariant
                        n == tes.entities@.len(),
                        tes@ == orig,
                        i <= n,
                        kept@ == without_layer(tes.entities@.subrange(0, i as int), ev.layer),
                        found == tes.entities@.subrange(0, i as int).contains(MapTile(ev.layer)),
                    decreases n - i,
                {
                    let e = tes.entities[i];
                    let ghost sub = tes.entities@.subrange(0, i + 1);
                    assert(sub.drop_last() =~= tes.entities@.subrange(0, i as int));
                    proof {
                        if tes.entities@.subrange(0, i as int).contains(MapTile(ev.layer)) {
                            let j = choose|j: int|
                                0 <= j < i && tes.entities@.subrange(0, i as int)[j] == MapTile(
                                    ev.layer,
                                );
                            assert(sub[j] == MapTile(ev.layer));
                        }
                        if sub.contains(MapTile(ev.layer)) && e != MapTile(ev.layer) {
                            let j = choose|j: int| 0 <= j < i + 1 && sub[j] == MapTile(ev.layer);
                            assert(tes.entities@.subrange(0, i as int)[j] == MapTile(ev.layer));
                        }
                        if e == MapTile(ev.layer) {
                            assert(sub[i as int] == e);
                        }
                    }
                    if e.0 == ev.layer {
                        found = true;
                    } else {
                        kept.push(e);
                    }
                    i = i + 1;
                }
                assert(tes.entities@.subrange(0, n as int) =~= tes.entities@);
                if found {
                    tes.entities = kept;
                    tes.passable = true;
                }
                self.positions.insert(key, tes);
                if !found {
                    assert(self.positions@ =~= before);
                }
                found
            },
        }
    }
}

/// Whether sight passes through the cell `(x, y)`.
fn transparent_cell(s: &AntheaState, x: i64, y: i64) -> (r: bool)
    ensures
        r == s.transparent_at(x as int, y as int),
{
    if x < i32::MIN as i64 || x > i32::MAX as i64 || y < i32::MIN as i64 || y > i32::MAX as i64 {
        return true;
    }
    let p = SpritePosition { x: x as i32, y: y as i32 };
    match s.tile_at(&p) {
        Some(t) => t.transparent,
        None => true,
    }
}

/// Whether the tile at `offset` from the player can be seen: it must lie
/// less than `VISIBILITY_DISTANCE` tiles away on both axes, and, where the
/// world is given, every cell on the sight line back to the player must
/// let sight through.
pub fn is_visible(offset: &SpritePosition, ostate: Option<&AntheaState>) -> (r: bool)
    ensures
        r == (abs(offset.x as int) < VISIBILITY_DISTANCE && abs(offset.y as int)
            < VISIBILITY_DISTANCE && match ostate {
            Some(s) => s.line_clear(offset.x as int, offset.y as int),
            None => true,
        }),
{
    let ox = offset.x as i64;
    let oy = offset.y as i64;
    let d = VISIBILITY_DISTANCE as i64;
    if ox <= -d || ox >= d || oy <= -d || oy >= d {
        return false;
    }
    match ostate {
        None => true,
        Some(s) => {
            let mut dx: i64 = ox;
            let mut dy: i64 = oy;
            while dx != 0 || dy != 0
                invariant
                    ostate == Some(s),
                    ox == offset.x,
                    oy == offset.y,
                    -4 < ox < 4,
                    -4 < oy < 4,
                    -4 < dx < 4,
                    -4 < dy < 4,
                    s.line_clear(ox as int, oy as int) == s.line_clear(dx as int, dy as int),
                decreases abs(dx as int) + abs(dy as int),
            {
                let ax = if dx < 0 { -dx } else { dx };
                let ay = if dy < 0 { -dy } else { dy };
                let mut nx = dx;
                if dx != 0 && ax >= ay {
                    nx = if dx < 0 { dx + 1 } else { dx - 1 };
                }
                let mut ny = dy;
                if dy != 0 && ax <= ay {
                    ny = if dy < 0 { dy + 1 } else { dy - 1 };
                }
                assert(step_back(dx as int, dy as int) == (nx as int, ny as int));
                assert(abs(nx as int) + abs(ny as int) < abs(dx as int) + abs(dy as int));
                let tx = s.map_position.x as i64 + nx;
                let ty = s.map_position.y as i64 + ny;
                assert(s.line_clear(dx as int, dy as int) == (s.transparent_at(tx as int, ty as int)
                    && s.line_clear(nx as int, ny as int)));
                if !transparent_cell(s, tx, ty) {
                    return false;
                }
                dx = nx;
                dy = ny;
            }
            true
        },
    }
}

impl AntheaState {
    /// Whether the player sees the tile at `p`.
    pub fn can_see(&self, p: &SpritePosition) -> (r: bool)
        ensures
            r == self.sees(*p),
    {
        let dx = p.x as i64 - self.map_position.x as i64;
        let dy = p.y as i64 - self.map_position.y as i64;
        let d = VISIBILITY_DISTANCE as i64;
        if dx <= -d || dx >= d || dy <= -d || dy >= d {
            return false;
        }
        is_visible(&SpritePosition { x: dx as i32, y: dy as i32 }, Some(self))
    }

    /// The tiles among `candidates` that the player sees now and had not
    /// seen before.
    pub fn newly_visible(&self, candidates: &Vec<SpritePosition>) -> (v: Vec<SpritePosition>)
        ensures
            forall|p: SpritePosition| #[trigger]
                v@.contains(p) <==> (candidates@.contains(p) && !self.is_revealed(p)
                    && self.sees(p)),
    {
        let mut v: Vec<SpritePosition> = Vec::new();
        let mut i: usize = 0;
        while i < candidates.len()
            invariant
                i <= candidates@.len(),
                forall|p: SpritePosition| #[trigger]
                    v@.contains(p) <==> (candidates@.subrange(0, i as int).contains(p)
                        && !self.is_revealed(p) && self.sees(p)),
            decreases candidates@.len() - i,
        {
            let p = candidates[i];
            let ghost old_v = v@;
            let ghost sub = candidates@.subrange(0, i + 1);
            assert(sub.drop_last() =~= candidates@.subrange(0, i as int));
            if !self.revealed_at(&p) && self.can_see(&p) {
                v.push(p);
            }
            assert forall|q: SpritePosition| #[trigger]
                v@.contains(q) <==> (sub.contains(q) && !self.is_revealed(q) && self.sees(q)) by {
                if sub.contains(q) && q != p {
                    let j = choose|j: int| 0 <= j < i + 1 && sub[j] == q;
                    assert(candidates@.subrange(0, i as int)[j] == q);
                }
                if candidates@.subrange(0, i as int).contains(q) {
                    let j = choose|j: int| 0 <= j < i && candidates@.subrange(0, i as int)[j] == q;
                    assert(sub[j] == q);
                }
                if q == p {
                    assert(sub[i as int] == q);
                }
                if v@.contains(q) && q != p {
                    let j = choose|j: int| 0 <= j < v@.len() && v@[j] == q;
                    assert(old_v[j] == q);
                }
                if old_v.contains(q) {
                    let j = choose|j: int| 0 <= j < old_v.len() && old_v[j] == q;
                    assert(v@[j] == q);
                }
                if v@.len() > old_v.len() {
                    assert(v@[v@.len() - 1] == p);
                }
            }
            i = i + 1;
        }
        assert(candidates@.subrange(0, candidates@.len() as int) =~= candidates@);
        v
    }

    /// Reveals every tile among `candidates` that the player sees now, and
    /// returns those that were not revealed before.
    pub fn reveal_visible(&mut self, candidates: &Vec<SpritePosition>) -> (v: Vec<SpritePosition>)
        ensures
            forall|p: SpritePosition| #[trigger]
                final(self).is_revealed(p) <==> (old(self).is_revealed(p) || (
                candidates@.contains(p) && old(self).sees(p))),
            old(self).revealed@.subset_of(final(self).revealed@),
            forall|p: SpritePosition| #[trigger]
                v@.contains(p) <==> (candidates@.contains(p) && !old(self).is_revealed(p)
                    && old(self).sees(p)),
            final(self).positions@ == old(self).positions@,
            final(self).map_position == old(self).map_position,
            final(self).last_move == old(self).last_move,
    {
        let v = self.newly_visible(candidates);
        let mut i: usize = 0;
        while i < v.len()
            invariant
                i <= v@.len(),
                self.positions@ == old(self).positions@,
                self.map_position == old(self).map_position,
                self.last_move == old(self).last_move,
                old(self).revealed@.subset_of(self.revealed@),
                forall|p: SpritePosition| #[trigger]
                    self.is_revealed(p) <==> (old(self).is_revealed(p) || v@.subrange(
                        0,
                        i as int,
                    ).contains(p)),
            decreases v@.len() - i,
        {
            let p = v[i];
            let ghost sub = v@.subrange(0, i + 1);
            let ghost prev = *self;
            self.reveal_position(&p);
            assert forall|q: SpritePosition| #[trigger]
                self.is_revealed(q) <==> (old(self).is_revealed(q) || sub.contains(q)) by {
                lemma_pos_key_injective(q, p);
                assert(prev.is_revealed(q) <==> (old(self).is_revealed(q) || v@.subrange(
                    0,
                    i as int,
                ).contains(q)));
                if sub.contains(q) && q != p {
                    let j = choose|j: int| 0 <= j < i + 1 && sub[j] == q;
                    assert(v@.subrange(0, i as int)[j] == q);
                }
                if v@.subrange(0, i as int).contains(q) {
                    let j = choose|j: int| 0 <= j < i && v@.subrange(0, i as int)[j] == q;
                    assert(sub[j] == q);
                }
                if q == p {
                    assert(sub[i as int] == q);
                }
            }
            i = i + 1;
        }
        assert(v@.subrange(0, v@.len() as int) =~= v@);
        v
    }
}

} // verus!
