//! Grid positions and rectangular regions of the tile grid.

use vstd::prelude::*;

verus! {

/// Number of tiles, on each axis, within which a tile can be seen.
pub const VISIBILITY_DISTANCE: i32 = 4;

/// A tile coordinate on the grid (not a pixel coordinate).
#[derive(Debug, Default, Clone, Copy, PartialEq, Eq, Structural, PartialOrd, Ord, Hash)]
pub struct SpritePosition {
    pub x: i32,
    pub y: i32,
}

/// Absolute value over mathematical integers.
pub open spec fn abs(a: int) -> int {
    if a < 0 { -a } else { a }
}

/// Manhattan distance between two positions.
pub open spec fn manhattan(a: SpritePosition, b: SpritePosition) -> int {
    abs(a.x - b.x) + abs(a.y - b.y)
}

/// The hash key of a position: both coordinates shifted into `u32` range
/// and packed into one `u64`, `x` in the high half.
pub open spec fn pos_key(p: SpritePosition) -> u64 {
    ((p.x + 0x8000_0000) * 0x1_0000_0000 + (p.y + 0x8000_0000)) as u64
}

/// Packing a position into a key loses nothing.
pub proof fn lemma_pos_key_injective(a: SpritePosition, b: SpritePosition)
    ensures
        pos_key(a) == pos_key(b) <==> a == b,
{
    let ka = (a.x + 0x8000_0000) * 0x1_0000_0000 + (a.y + 0x8000_0000);
    let kb = (b.x + 0x8000_0000) * 0x1_0000_0000 + (b.y + 0x8000_0000);
    assert(0 <= ka < 0x1_0000_0000_0000_0000) by (nonlinear_arith)
        requires
            ka == (a.x + 0x8000_0000) * 0x1_0000_0000 + (a.y + 0x8000_0000),
            -0x8000_0000 <= a.x < 0x8000_0000,
            -0x8000_0000 <= a.y < 0x8000_0000,
    ;
    assert(0 <= kb < 0x1_0000_0000_0000_0000) by (nonlinear_arith)
        requires
            kb == (b.x + 0x8000_0000) * 0x1_0000_0000 + (b.y + 0x8000_0000),
            -0x8000_0000 <= b.x < 0x8000_0000,
            -0x8000_0000 <= b.y < 0x8000_0000,
    ;
    if ka == kb {
        assert(a.x == b.x && a.y == b.y) by (nonlinear_arith)
            requires
                ka == (a.x + 0x8000_0000) * 0x1_0000_0000 + (a.y + 0x8000_0000),
                kb == (b.x + 0x8000_0000) * 0x1_0000_0000 + (b.y + 0x8000_0000),
                ka == kb,
                -0x8000_0000 <= a.y < 0x8000_0000,
                -0x8000_0000 <= b.y < 0x8000_0000,
        ;
    }
}

/// Every key lies in a table keyed by `pos_key` under at most one position.
pub broadcast proof fn lemma_pos_key_eq(a: SpritePosition, b: SpritePosition)
    ensures
        #[trigger] pos_key(a) == #[trigger] pos_key(b) <==> a == b,
{
    lemma_pos_key_injective(a, b);
}

impl SpritePosition {
    pub fn new(x: i32, y: i32) -> (r: SpritePosition)
        ensures
            r.x == x,
            r.y == y,
    {
        SpritePosition { x, y }
    }

    /// Overwrites this position with another.
    pub fn copy(&mut self, pos: &SpritePosition)
        ensures
            *final(self) == *pos,
    {
        self.x = pos.x;
        self.y = pos.y;
    }

    /// This position seen from `pos`: the offset `self - pos`.
    pub fn to_relative(&self, pos: &SpritePosition) -> (r: SpritePosition)
        requires
            i32::MIN <= self.x - pos.x <= i32::MAX,
            i32::MIN <= self.y - pos.y <= i32::MAX,
        ensures
            r.x == self.x - pos.x,
            r.y == self.y - pos.y,
    {
        SpritePosition { x: self.x - pos.x, y: self.y - pos.y }
    }

    /// The position displaced by the offset `pos`.
    pub fn add(&self, pos: &SpritePosition) -> (r: SpritePosition)
        requires
            i32::MIN <= self.x + pos.x <= i32::MAX,
            i32::MIN <= self.y + pos.y <= i32::MAX,
        ensures
            r.x == self.x + pos.x,
            r.y == self.y + pos.y,
    {
        SpritePosition { x: self.x + pos.x, y: self.y + pos.y }
    }

    /// Manhattan distance to `other`.
    pub fn distance(&self, other: &SpritePosition) -> (r: u32)
        requires
            manhattan(*self, *other) <= u32::MAX,
        ensures
            r == manhattan(*self, *other),
    {
        let dx: u64 = abs_diff(self.x, other.x);
        let dy: u64 = abs_diff(self.y, other.y);
        (dx + dy) as u32
    }

    /// The key under which this position is stored in hash tables.
    pub fn key(&self) -> (r: u64)
        ensures
            r == pos_key(*self),
    {
        proof {
            lemma_pos_key_injective(*self, *self);
        }
        let hi: u64 = (self.x as i64 + 0x8000_0000) as u64;
        let lo: u64 = (self.y as i64 + 0x8000_0000) as u64;
        assert(hi * 0x1_0000_0000 + lo < 0x1_0000_0000_0000_0000) by (nonlinear_arith)
            requires
                hi < 0x1_0000_0000,
                lo < 0x1_0000_0000,
        ;
        hi * 0x1_0000_0000 + lo
    }
}

/// The position stored under hash key `k`.
pub fn position_of_key(k: u64) -> (r: SpritePosition)
    ensures
        pos_key(r) == k,
{
    let hi: u64 = k / 0x1_0000_0000;
    let lo: u64 = k % 0x1_0000_0000;
    assert(hi * 0x1_0000_0000 + lo == k && hi < 0x1_0000_0000) by (nonlinear_arith)
        requires
            hi == k / 0x1_0000_0000,
            lo == k % 0x1_0000_0000,
    ;
    let r = SpritePosition {
        x: (hi as i64 - 0x8000_0000) as i32,
        y: (lo as i64 - 0x8000_0000) as i32,
    };
    assert((r.x + 0x8000_0000) * 0x1_0000_0000 + (r.y + 0x8000_0000) == k);
    r
}

/// `|a - b|` for two 32-bit integers.
pub fn abs_diff(a: i32, b: i32) -> (r: u64)
    ensures
        r == abs(a - b),
{
    if a >= b {
        (a as i64 - b as i64) as u64
    } else {
        (b as i64 - a as i64) as u64
    }
}

/// `a` comes before `b` column by column: by `x`, then by `y`.
pub open spec fn column_order(a: SpritePosition, b: SpritePosition) -> bool {
    a.x < b.x || (a.x == b.x && a.y < b.y)
}

/// An axis-aligned rectangle of tiles, bounds included.
#[derive(Debug, Default, Clone, Copy, PartialEq, Eq, Structural, PartialOrd, Ord, Hash)]
pub struct SpriteDimension {
    pub topleft: SpritePosition,
    pub bottomright: SpritePosition,
}

impl SpriteDimension {
    /// Whether `pos` lies inside the rectangle.
    pub open spec fn spec_contains(self, pos: SpritePosition) -> bool {
        self.topleft.x <= pos.x <= self.bottomright.x && self.topleft.y <= pos.y
            <= self.bottomright.y
    }

    pub fn new(topleft: SpritePosition, bottomright: SpritePosition) -> (r: SpriteDimension)
        ensures
            r.topleft == topleft,
            r.bottomright == bottomright,
    {
        SpriteDimension { topleft, bottomright }
    }

    pub fn contains(&self, pos: &SpritePosition) -> (r: bool)
        ensures
            r == self.spec_contains(*pos),
    {
        pos.x >= self.topleft.x && pos.x <= self.bottomright.x && pos.y >= self.topleft.y
            && pos.y <= self.bottomright.y
    }

    /// All tiles of the rectangle, column by column, each once.
    pub fn positions(&self) -> (v: Vec<SpritePosition>)
        ensures
            forall|p: SpritePosition| #[trigger] v@.contains(p) <==> self.spec_contains(p),
            forall|a: int, b: int| 0 <= a < b < v@.len() ==> column_order(v@[a], v@[b]),
            v@.no_duplicates(),
            v@.len() == if self.topleft.x <= self.bottomright.x && self.topleft.y
                <= self.bottomright.y {
                (self.bottomright.x - self.topleft.x + 1) * (self.bottomright.y - self.topleft.y
                    + 1)
            } else {
                0
            },
    {
        let mut v: Vec<SpritePosition> = Vec::new();
        if self.topleft.x > self.bottomright.x || self.topleft.y > self.bottomright.y {
            assert forall|p: SpritePosition| #[trigger] v@.contains(p) <==> self.spec_contains(
                p,
            ) by {}
            return v;
        }
        let ghost h: int = self.bottomright.y - self.topleft.y + 1;
        let mut x: i64 = self.topleft.x as i64;
        while x <= self.bottomright.x as i64
            invariant
                self.topleft.x <= x <= self.bottomright.x + 1,
                self.topleft.y <= self.bottomright.y,
                h == self.bottomright.y - self.topleft.y + 1,
                v@.len() == (x - self.topleft.x) * h,
                forall|a: int, b: int| 0 <= a < b < v@.len() ==> column_order(v@[a], v@[b]),
                forall|p: SpritePosition| #[trigger]
                    v@.contains(p) <==> (self.spec_contains(p) && p.x < x),
            decreases self.bottomright.x + 1 - x,
        {
            let mut y: i64 = self.topleft.y as i64;
            while y <= self.bottomright.y as i64
                invariant
                    self.topleft.x <= x <= self.bottomright.x,
                    self.topleft.y <= y <= self.bottomright.y + 1,
                    h == self.bottomright.y - self.topleft.y + 1,
                    v@.len() == (x - self.topleft.x) * h + (y - self.topleft.y),
                    forall|a: int, b: int| 0 <= a < b < v@.len() ==> column_order(v@[a], v@[b]),
                    forall|p: SpritePosition| #[trigger]
                        v@.contains(p) <==> (self.spec_contains(p) && (p.x < x || (p.x == x
                            && p.y < y))),
                decreases self.bottomright.y + 1 - y,
            {
                let ghost old_v = v@;
                let q = SpritePosition { x: x as i32, y: y as i32 };
                v.push(q);
                assert forall|a: int, b: int| 0 <= a < b < v@.len() implies column_order(
                    v@[a],
                    v@[b],
                ) by {
                    if b == v@.len() - 1 {
                        assert(old_v[a] == v@[a]);
                        assert(old_v.contains(v@[a]));
                    } else {
                        assert(old_v[a] == v@[a] && old_v[b] == v@[b]);
                    }
                }
                assert forall|p: SpritePosition| #[trigger]
                    v@.contains(p) <==> (self.spec_contains(p) && (p.x < x || (p.x == x
                        && p.y <= y))) by {
                    if v@.contains(p) && p != q {
                        let i = choose|i: int| 0 <= i < v@.len() && v@[i] == p;
                        assert(old_v[i] == p);
                    }
                    if p == q {
                        assert(v@[v@.len() - 1] == p);
                    } else if old_v.contains(p) {
                        let i = choose|i: int| 0 <= i < old_v.len() && old_v[i] == p;
                        assert(v@[i] == p);
                    }
                }
                y = y + 1;
            }
            assert((x - self.topleft.x) * h + h == (x + 1 - self.topleft.x) * h) by (nonlinear_arith);
            x = x + 1;
        }
        assert forall|a: int, b: int| 0 <= a < b < v@.len() implies v@[a] != v@[b] by {
            assert(column_order(v@[a], v@[b]));
        }
        v
    }
}

} // verus!
