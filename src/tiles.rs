//! Tile layers as read from a level file, and how a tile's sprite decides
//! whether it can be walked through.

use vstd::prelude::*;
use crate::text::{chars_of, contains_str, has_substring};

verus! {

/// One layer of a level: `width` tiles per row, tile ids row by row, where
/// `0` is an empty cell and `t > 0` names the tileset's sprite `t - 1`.
#[derive(Debug, PartialEq, Eq)]
pub struct Layer {
    pub width: usize,
    pub height: usize,
    pub tiles: Vec<usize>,
}

/// The sprite paths of a tileset, indexed by tile id minus one.
#[derive(Debug, PartialEq, Eq)]
pub struct TileSet {
    pub tiles: Vec<String>,
}

/// A level: its size in tiles and its layers, base layer first.
#[derive(Debug, PartialEq, Eq)]
pub struct TileMap {
    pub width: usize,
    pub height: usize,
    pub layers: Vec<Layer>,
}

/// What can be missing from a level or tileset file.
#[derive(Debug, Clone, Copy, PartialEq, Eq, Structural)]
pub enum TiledError {
    NoMapWidth,
    NoMapHeight,
    NoLayerWidth,
    NoLayerHeight,
    NoLayerData,
    NoImageSource,
}

impl Layer {
    pub fn new(width: usize, height: usize, tiles: Vec<usize>) -> (r: Layer)
        ensures
            r.width == width,
            r.height == height,
            r.tiles@ == tiles@,
    {
        Layer { width, height, tiles }
    }

    /// The id of the tile at `p`, or `0` where the layer has none.
    pub open spec fn tile_id_at(self, x: int, y: int) -> usize {
        if 0 <= x < self.width && 0 <= y && y * self.width + x < self.tiles@.len() {
            self.tiles@[y * self.width + x]
        } else {
            0
        }
    }
}

impl TileMap {
    /// Every layer is laid out in rows of at least one tile, every tile id
    /// names a sprite of `ts`, and every cell has a coordinate that fits in
    /// an `i32`.
    pub open spec fn well_formed(self, ts: TileSet) -> bool {
        forall|l: int|
            0 <= l < self.layers@.len() ==> {
                let layer = #[trigger] self.layers@[l];
                &&& 0 < layer.width <= i32::MAX
                &&& layer.tiles@.len() <= i32::MAX
                &&& forall|i: int|
                    0 <= i < layer.tiles@.len() ==> #[trigger] layer.tiles@[i] <= ts.tiles@.len()
            }
    }
}

/// Index just after the last `/` of `s`, or `0` where there is none.
pub open spec fn name_start(s: Seq<char>) -> int
    decreases s.len(),
{
    if s.len() == 0 {
        0
    } else if s.last() == '/' {
        s.len() as int
    } else {
        name_start(s.drop_last())
    }
}

/// The file name of a sprite path: what follows its last `/`.
pub open spec fn file_name(s: Seq<char>) -> Seq<char> {
    s.subrange(name_start(s), s.len() as int)
}

/// Walls, bricks, gates, columns and fountains block the way; a name that
/// says "open" overrides the last three of these.
pub open spec fn passable_name(img: Seq<char>) -> bool {
    if has_substring(img, "wall"@) {
        false
    } else if has_substring(img, "brick"@) {
        false
    } else if has_substring(img, "open"@) {
        true
    } else {
        !has_substring(img, "gate"@) && !has_substring(img, "column"@) && !has_substring(
            img,
            "fountain"@,
        )
    }
}

/// Whether the tile with sprite `path` can be walked through.
pub open spec fn passable_path(path: Seq<char>) -> bool {
    passable_name(file_name(path))
}

proof fn lemma_name_start_bounds(s: Seq<char>)
    ensures
        0 <= name_start(s) <= s.len(),
    decreases s.len(),
{
    if s.len() > 0 && s.last() != '/' {
        lemma_name_start_bounds(s.drop_last());
    }
}

/// Whether the tile with sprite `path` can be walked through.
pub fn is_tile_passable(path: &str) -> (r: bool)
    ensures
        r == passable_path(path@),
{
    let all = chars_of(path);
    let n = all.len();
    let mut start: usize = n;
    assert(all@.subrange(0, n as int) =~= all@);
    while start > 0 && all[start - 1] != '/'
        invariant
            n == all@.len(),
            start <= n,
            name_start(all@) == name_start(all@.subrange(0, start as int)),
            forall|k: int| start <= k < n ==> all@[k] != '/',
        decreases start,
    {
        let ghost s = all@.subrange(0, start as int);
        assert(s.drop_last() =~= all@.subrange(0, start - 1));
        start = start - 1;
    }
    proof {
        let s = all@.subrange(0, start as int);
        if start > 0 {
            assert(s.last() == '/');
        }
        assert(name_start(s) == start);
    }
    let mut img: Vec<char> = Vec::new();
    let mut i: usize = start;
    while i < n
        invariant
            n == all@.len(),
            start <= i <= n,
            img@ == all@.subrange(start as int, i as int),
        decreases n - i,
    {
        img.push(all[i]);
        i = i + 1;
    }
    assert(img@ == file_name(path@));
    if contains_str(&img, "wall") {
        return false;
    }
    if contains_str(&img, "brick") {
        return false;
    }
    if contains_str(&img, "open") {
        return true;
    }
    if contains_str(&img, "gate") {
        return false;
    }
    if contains_str(&img, "column") {
        return false;
    }
    if contains_str(&img, "fountain") {
        return false;
    }
    true
}

/// The value of a string of decimal digits.
pub open spec fn digits_value(t: Seq<char>) -> int
    decreases t.len(),
{
    if t.len() == 0 {
        0
    } else {
        digits_value(t.drop_last()) * 10 + (t.last() as int - '0' as int)
    }
}

/// Every character of `t` is a decimal digit.
pub open spec fn all_digits(t: Seq<char>) -> bool {
    forall|i: int| 0 <= i < t.len() ==> '0' <= #[trigger] t[i] <= '9'
}

/// The number a tile id is written as: decimal digits, optionally after a
/// `+`, of a value that fits a `usize`.
pub open spec fn token_number(t: Seq<char>) -> Option<int> {
    let d = if t.len() > 0 && t[0] == '+' {
        t.drop_first()
    } else {
        t
    };
    if d.len() > 0 && all_digits(d) && digits_value(d) <= usize::MAX {
        Some(digits_value(d))
    } else {
        None
    }
}

/// The pieces of a layer's data between commas and line ends, empty ones
/// included; a carriage return that ends a line is dropped.
pub open spec fn data_pieces(s: Seq<char>) -> Seq<Seq<char>>
    decreases s.len(),
{
    if s.len() == 0 {
        seq![Seq::empty()]
    } else {
        let prev = data_pieces(s.drop_last());
        let c = s.last();
        let cur = prev.last();
        if c == ',' {
            prev.push(Seq::empty())
        } else if c == '\n' {
            let ended = if cur.len() > 0 && cur.last() == '\r' {
                cur.drop_last()
            } else {
                cur
            };
            prev.update(prev.len() - 1, ended).push(Seq::empty())
        } else {
            prev.update(prev.len() - 1, cur.push(c))
        }
    }
}

/// The tile ids written in `pieces`, skipping empty pieces; `None` where a
/// piece is not a number.
pub open spec fn piece_numbers(pieces: Seq<Seq<char>>) -> Option<Seq<usize>>
    decreases pieces.len(),
{
    if pieces.len() == 0 {
        Some(Seq::empty())
    } else {
        match piece_numbers(pieces.drop_last()) {
            None => None,
            Some(prev) => if pieces.last().len() == 0 {
                Some(prev)
            } else {
                match token_number(pieces.last()) {
                    Some(n) => Some(prev.push(n as usize)),
                    None => None,
                }
            },
        }
    }
}

proof fn lemma_data_pieces_nonempty(s: Seq<char>)
    ensures
        data_pieces(s).len() > 0,
    decreases s.len(),
{
    if s.len() > 0 {
        lemma_data_pieces_nonempty(s.drop_last());
    }
}

/// The number written in the digits `d`, where it fits a `usize`.
fn digits_number(d: &Vec<char>, start: usize) -> (r: Option<usize>)
    requires
        start <= d@.len(),
    ensures
        ({
            let t = d@.subrange(start as int, d@.len() as int);
            match r {
                Some(n) => t.len() > 0 && all_digits(t) && digits_value(t) == n,
                None => !(t.len() > 0 && all_digits(t) && digits_value(t) <= usize::MAX),
            }
        }),
{
    let n = d.len();
    if start == n {
        return None;
    }
    let mut v: usize = 0;
    let mut i: usize = start;
    while i < n
        invariant
            n == d@.len(),
            start < n,
            start <= i <= n,
            forall|k: int| start <= k < i ==> '0' <= #[trigger] d@[k] <= '9',
            v == digits_value(d@.subrange(start as int, i as int)),
        decreases n - i,
    {
        let c = d[i];
        let ghost t = d@.subrange(start as int, i + 1);
        assert(t.drop_last() =~= d@.subrange(start as int, i as int));
        if c < '0' || c > '9' {
            assert(d@.subrange(start as int, n as int)[i - start] == c);
            return None;
        }
        let digit = (c as u32 - '0' as u32) as usize;
        if v > (usize::MAX - digit) / 10 {
            proof {
                assert(digits_value(t) == v * 10 + digit);
                assert(v * 10 + digit > usize::MAX) by (nonlinear_arith)
                    requires
                        v > (usize::MAX - digit) / 10,
                        digit <= 9,
                ;
                let whole = d@.subrange(start as int, n as int);
                if forall|k: int| 0 <= k < whole.len() ==> '0' <= #[trigger] whole[k] <= '9' {
                    lemma_digits_value_grows(whole, i + 1 - start);
                    assert(whole.subrange(0, i + 1 - start) =~= t);
                }
            }
            return None;
        }
        v = v * 10 + digit;
        i = i + 1;
    }
    Some(v)
}

/// A prefix of a string of digits is worth no more than the whole.
proof fn lemma_digits_value_grows(t: Seq<char>, k: int)
    requires
        0 <= k <= t.len(),
        forall|i: int| 0 <= i < t.len() ==> '0' <= #[trigger] t[i] <= '9',
    ensures
        digits_value(t.subrange(0, k)) <= digits_value(t),
        0 <= digits_value(t.subrange(0, k)),
    decreases t.len(),
{
    if k < t.len() {
        assert(t.drop_last().subrange(0, k) =~= t.subrange(0, k));
        lemma_digits_value_grows(t.drop_last(), k);
    } else {
        assert(t.subrange(0, k) =~= t);
        if t.len() > 0 {
            lemma_digits_value_grows(t.drop_last(), k - 1);
            assert(t.drop_last().subrange(0, k - 1) =~= t.drop_last());
        }
    }
}

/// The tile id a piece of layer data is written as.
fn piece_number(t: &Vec<char>) -> (r: Option<usize>)
    ensures
        match token_number(t@) {
            Some(n) => r == Some(n as usize),
            None => r is None,
        },
{
    if t.len() > 0 && t[0] == '+' {
        let ghost d = t@.drop_first();
        assert(t@.subrange(1, t@.len() as int) =~= d);
        let r = digits_number(t, 1);
        r
    } else {
        assert(t@.subrange(0, t@.len() as int) =~= t@);
        let r = digits_number(t, 0);
        r
    }
}

/// The tile ids of a layer's data: numbers separated by commas and line
/// ends, as a level file writes them (the text already trimmed); `None`
/// where a piece is not a number.
pub fn parse_layer_data(data: &str) -> (r: Option<Vec<usize>>)
    ensures
        match piece_numbers(data_pieces(data@)) {
            Some(ns) => r is Some && r->0@ == ns,
            None => r is None,
        },
{
    let s = crate::text::chars_of(data);
    let n = s.len();
    let mut out: Vec<usize> = Vec::new();
    let mut failed = false;
    let mut cur: Vec<char> = Vec::new();
    let mut i: usize = 0;
    assert(s@.subrange(0, 0) =~= Seq::<char>::empty());
    while i < n
        invariant
            n == s@.len(),
            s@ == data@,
            i <= n,
            data_pieces(s@.subrange(0, i as int)).last() == cur@,
            piece_numbers(data_pieces(s@.subrange(0, i as int)).drop_last()) == if failed {
                None
            } else {
                Some(out@)
            },
        decreases n - i,
    {
        let ghost pre = s@.subrange(0, i as int);
        let ghost next = s@.subrange(0, i + 1);
        assert(next.drop_last() =~= pre);
        proof {
            lemma_data_pieces_nonempty(pre);
        }
        let c = s[i];
        if c == ',' || c == '\n' {
            if c == '\n' && cur.len() > 0 && cur[cur.len() - 1] == '\r' {
                cur.pop();
            }
            assert(data_pieces(next).drop_last() =~= data_pieces(pre).drop_last().push(cur@));
            assert(data_pieces(next).drop_last().drop_last() =~= data_pieces(pre).drop_last());
            assert(data_pieces(next).drop_last().last() == cur@);
            assert(data_pieces(next).last() == Seq::<char>::empty());
            if cur.len() > 0 && !failed {
                match piece_number(&cur) {
                    Some(v) => {
                        out.push(v);
                    },
                    None => {
                        failed = true;
                    },
                }
            }
            cur = Vec::new();
        } else {
            cur.push(c);
            assert(data_pieces(next).drop_last() =~= data_pieces(pre).drop_last());
        }
        i = i + 1;
    }
    assert(s@.subrange(0, n as int) =~= s@);
    proof {
        lemma_data_pieces_nonempty(s@);
        assert(data_pieces(s@).drop_last() =~= data_pieces(s@).subrange(
            0,
            data_pieces(s@).len() - 1,
        ));
    }
    if failed {
        return None;
    }
    if cur.len() > 0 {
        match piece_number(&cur) {
            Some(v) => {
                out.push(v);
            },
            None => {
                return None;
            },
        }
    }
    Some(out)
}

} // verus!
