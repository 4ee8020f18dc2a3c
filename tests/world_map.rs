use anthea::geometry::{SpriteDimension, SpritePosition};
use anthea::path::path;
use anthea::state::{is_visible, AntheaState, MapTile, RemoveTileEvent};
use anthea::geometry::position_of_key;
use anthea::tiles::{is_tile_passable, parse_layer_data, Layer, TileMap, TileSet};

fn tileset() -> TileSet {
    TileSet {
        tiles: vec![
            "sprites/tiles/floor_sand.png".to_string(),
            "sprites/tiles/brick_gray0.png".to_string(),
            "sprites/tiles/column_stone.png".to_string(),
            "sprites/tiles/gate_runed_right.png".to_string(),
            "sprites/tiles/open_gate.png".to_string(),
        ],
    }
}

fn grid(width: usize, height: usize, tiles: Vec<usize>) -> TileMap {
    TileMap {
        width,
        height,
        layers: vec![Layer::new(width, height, tiles)],
    }
}

fn revealed_state(map: &TileMap, start: SpritePosition) -> AntheaState {
    let mut s = AntheaState::new(start);
    s.setup_map(map, &tileset());
    for y in 0..map.height as i32 {
        for x in 0..map.width as i32 {
            s.reveal_position(&SpritePosition::new(x, y));
        }
    }
    s
}

#[test]
fn distance_is_manhattan() {
    let a = SpritePosition::new(1, 2);
    let b = SpritePosition::new(-3, 5);
    assert_eq!(7, a.distance(&b));
    assert_eq!(0, a.distance(&a));
    assert_eq!(SpritePosition::new(4, -3), a.to_relative(&b));
    assert_eq!(SpritePosition::new(-2, 7), a.add(&b));
}

#[test]
fn rectangle_positions_cover_exactly_the_rectangle() {
    let d = SpriteDimension::new(SpritePosition::new(1, 1), SpritePosition::new(2, 3));
    let ps = d.positions();
    assert_eq!(6, ps.len());
    for p in ps.iter() {
        assert!(d.contains(p));
    }
    assert!(!d.contains(&SpritePosition::new(3, 1)));
    assert!(!d.contains(&SpritePosition::new(0, 2)));
    let single = SpriteDimension::new(SpritePosition::new(5, 5), SpritePosition::new(5, 5));
    assert_eq!(vec![SpritePosition::new(5, 5)], single.positions());
    assert_eq!(
        vec![
            SpritePosition::new(1, 1),
            SpritePosition::new(1, 2),
            SpritePosition::new(1, 3),
            SpritePosition::new(2, 1),
            SpritePosition::new(2, 2),
            SpritePosition::new(2, 3),
        ],
        ps
    );
    let empty = SpriteDimension::new(SpritePosition::new(2, 2), SpritePosition::new(1, 2));
    assert!(empty.positions().is_empty());
}

#[test]
fn tile_passability_by_file_name() {
    assert!(!is_tile_passable("sprites/tiles/brick_gray0.png"));
    assert!(!is_tile_passable("sprites/tiles/stone_wall.png"));
    assert!(!is_tile_passable("sprites/tiles/gate_runed_right.png"));
    assert!(!is_tile_passable("sprites/tiles/column_stone.png"));
    assert!(!is_tile_passable("sprites/tiles/fountain.png"));
    assert!(is_tile_passable("sprites/tiles/open_gate.png"));
    assert!(is_tile_passable("sprites/tiles/floor_sand.png"));
    // only the file name counts, not the directories
    assert!(is_tile_passable("sprites/wall/floor.png"));
    // a wall stays a wall even when open
    assert!(!is_tile_passable("open_wall.png"));
}

#[test]
fn layers_and_passability() {
    // base layer: floor, brick; upper layer: column over the floor
    let map = TileMap {
        width: 2,
        height: 1,
        layers: vec![Layer::new(2, 1, vec![1, 2]), Layer::new(2, 1, vec![3, 0])],
    };
    let mut s = AntheaState::new(SpritePosition::new(0, 0));
    s.setup_map(&map, &tileset());
    let a = s.tile_at(&SpritePosition::new(0, 0)).unwrap();
    assert!(!a.passable);
    assert!(a.transparent);
    assert_eq!(vec![MapTile(0), MapTile(1)], a.entities);
    let b = s.tile_at(&SpritePosition::new(1, 0)).unwrap();
    assert!(!b.passable);
    assert!(!b.transparent);
    assert_eq!(vec![MapTile(0)], b.entities);
    assert!(s.tile_at(&SpritePosition::new(2, 0)).is_none());
    assert!(s.tile_at(&SpritePosition::new(0, 1)).is_none());
}

#[test]
fn transparency_comes_from_the_base_layer() {
    // cell 0: clear base, opaque overlay; cell 1: opaque base, clear overlay
    let map = TileMap {
        width: 2,
        height: 1,
        layers: vec![Layer::new(2, 1, vec![1, 2]), Layer::new(2, 1, vec![2, 1])],
    };
    let mut s = AntheaState::new(SpritePosition::new(0, 0));
    s.setup_map(&map, &tileset());
    assert!(s.tile_at(&SpritePosition::new(0, 0)).unwrap().transparent);
    assert!(!s.tile_at(&SpritePosition::new(1, 0)).unwrap().transparent);
}

#[test]
fn rows_follow_the_layer_width() {
    let map = grid(3, 2, vec![1, 0, 2, 0, 4, 1]);
    let mut s = AntheaState::new(SpritePosition::new(0, 0));
    s.setup_map(&map, &tileset());
    assert!(s.tile_at(&SpritePosition::new(1, 0)).is_none());
    assert!(!s.tile_at(&SpritePosition::new(2, 0)).unwrap().passable);
    assert!(s.tile_at(&SpritePosition::new(0, 1)).is_none());
    assert!(!s.tile_at(&SpritePosition::new(1, 1)).unwrap().passable);
    assert!(s.tile_at(&SpritePosition::new(2, 1)).unwrap().passable);
}

#[test]
fn gate_stays_closed_until_its_tile_is_removed() {
    let map = TileMap {
        width: 1,
        height: 1,
        layers: vec![Layer::new(1, 1, vec![1]), Layer::new(1, 1, vec![4])],
    };
    let mut s = AntheaState::new(SpritePosition::new(0, 0));
    s.setup_map(&map, &tileset());
    let gate = SpritePosition::new(0, 0);
    assert!(!s.tile_at(&gate).unwrap().passable);
    // wrong layer: nothing happens
    assert!(!s.remove_tile(&RemoveTileEvent::new(gate, 2)));
    assert!(!s.tile_at(&gate).unwrap().passable);
    // another cell: nothing happens
    assert!(!s.remove_tile(&RemoveTileEvent::new(SpritePosition::new(5, 5), 1)));
    assert!(!s.tile_at(&gate).unwrap().passable);
    // the layer of the door tile
    assert!(s.remove_tile(&RemoveTileEvent::new(gate, 1)));
    let t = s.tile_at(&gate).unwrap();
    assert!(t.passable);
    assert_eq!(vec![MapTile(0)], t.entities);
}

#[test]
fn visibility_is_gated_by_distance() {
    assert!(!is_visible(&SpritePosition::new(4, 0), None));
    assert!(!is_visible(&SpritePosition::new(0, -4), None));
    assert!(!is_visible(&SpritePosition::new(-7, 1), None));
    assert!(is_visible(&SpritePosition::new(3, -3), None));
    assert!(is_visible(&SpritePosition::new(0, 0), None));
    let s = AntheaState::new(SpritePosition::new(0, 0));
    assert!(!is_visible(&SpritePosition::new(4, 4), Some(&s)));
    assert!(is_visible(&SpritePosition::new(-3, 2), Some(&s)));
}

#[test]
fn walls_block_the_sight_line() {
    // a row: floor, brick, floor, floor; the player stands on the first cell
    let map = grid(4, 1, vec![1, 2, 1, 1]);
    let mut s = AntheaState::new(SpritePosition::new(0, 0));
    s.setup_map(&map, &tileset());
    // the wall itself is seen, what lies behind it is not
    assert!(is_visible(&SpritePosition::new(1, 0), Some(&s)));
    assert!(!is_visible(&SpritePosition::new(2, 0), Some(&s)));
    assert!(!is_visible(&SpritePosition::new(3, 0), Some(&s)));
    // beyond the distance, even an open line is not seen
    assert!(!is_visible(&SpritePosition::new(4, 0), Some(&s)));
}

#[test]
fn diagonal_steps_on_ties() {
    // 3x3 with a brick in the middle; the player stands in a corner
    let map = grid(3, 3, vec![1, 1, 1, 1, 2, 1, 1, 1, 1]);
    let mut s = AntheaState::new(SpritePosition::new(0, 0));
    s.setup_map(&map, &tileset());
    assert!(!is_visible(&SpritePosition::new(2, 2), Some(&s)));
    assert!(!is_visible(&SpritePosition::new(2, 1), Some(&s)));
    assert!(is_visible(&SpritePosition::new(2, 0), Some(&s)));
    assert!(!is_visible(&SpritePosition::new(1, 2), Some(&s)));
    assert!(is_visible(&SpritePosition::new(0, 2), Some(&s)));
}

#[test]
fn revealing_only_grows() {
    let map = grid(4, 1, vec![1, 2, 1, 1]);
    let mut s = AntheaState::new(SpritePosition::new(0, 0));
    s.setup_map(&map, &tileset());
    let cands: Vec<SpritePosition> = (0..4).map(|x| SpritePosition::new(x, 0)).collect();
    let first = s.reveal_visible(&cands);
    assert_eq!(vec![SpritePosition::new(0, 0), SpritePosition::new(1, 0)], first);
    let before = s.revealed.len();
    let second = s.reveal_visible(&cands);
    assert!(second.is_empty());
    assert_eq!(before, s.revealed.len());
    assert!(s.revealed_at(&SpritePosition::new(1, 0)));
    assert!(!s.revealed_at(&SpritePosition::new(2, 0)));
}

#[test]
fn path_goes_around_a_wall() {
    let map = grid(3, 3, vec![1, 1, 1, 1, 2, 1, 1, 1, 1]);
    let s = revealed_state(&map, SpritePosition::new(0, 0));
    let plan = path(&s, &SpritePosition::new(2, 2));
    assert_eq!(5, plan.len());
    assert_eq!(SpritePosition::new(2, 2), plan[0]);
    assert_eq!(SpritePosition::new(0, 0), plan[4]);
    assert!(!plan.contains(&SpritePosition::new(1, 1)));
    let right = vec![
        SpritePosition::new(2, 2),
        SpritePosition::new(2, 1),
        SpritePosition::new(2, 0),
        SpritePosition::new(1, 0),
        SpritePosition::new(0, 0),
    ];
    let down = vec![
        SpritePosition::new(2, 2),
        SpritePosition::new(1, 2),
        SpritePosition::new(0, 2),
        SpritePosition::new(0, 1),
        SpritePosition::new(0, 0),
    ];
    assert!(plan == right || plan == down);
    for w in plan.windows(2) {
        assert_eq!(1, w[0].distance(&w[1]));
    }
}

#[test]
fn path_stays_in_revealed_ground() {
    let map = grid(3, 1, vec![1, 1, 1]);
    let mut s = AntheaState::new(SpritePosition::new(0, 0));
    s.setup_map(&map, &tileset());
    s.reveal_position(&SpritePosition::new(0, 0));
    s.reveal_position(&SpritePosition::new(1, 0));
    assert!(path(&s, &SpritePosition::new(2, 0)).is_empty());
    // the player's own cell, never revealed, gives no plan either
    let fresh = AntheaState::new(SpritePosition::new(0, 0));
    assert!(path(&fresh, &SpritePosition::new(0, 0)).is_empty());
    assert_eq!(vec![SpritePosition::new(0, 0)], path(&s, &SpritePosition::new(0, 0)));
    assert_eq!(
        vec![SpritePosition::new(1, 0), SpritePosition::new(0, 0)],
        path(&s, &SpritePosition::new(1, 0))
    );
}

#[test]
fn path_to_an_unreachable_cell_is_empty() {
    // the middle of the row is a wall
    let map = grid(3, 1, vec![1, 2, 1]);
    let s = revealed_state(&map, SpritePosition::new(0, 0));
    assert!(path(&s, &SpritePosition::new(2, 0)).is_empty());
    assert!(path(&s, &SpritePosition::new(1, 0)).is_empty());
}

#[test]
fn layer_data_is_parsed() {
    assert_eq!(Some(vec![1, 0, 12, 3]), parse_layer_data("1,0,12,\n3"));
    assert_eq!(Some(vec![1, 2, 3, 4]), parse_layer_data("1,2,\r\n3,4"));
    assert_eq!(Some(vec![7]), parse_layer_data("+7,"));
    assert_eq!(Some(vec![]), parse_layer_data(""));
    assert_eq!(None, parse_layer_data("1,x,2"));
    assert_eq!(None, parse_layer_data("1, 2"));
    assert_eq!(None, parse_layer_data("-1"));
    assert_eq!(None, parse_layer_data("99999999999999999999999"));
    assert_eq!(Some(vec![usize::MAX]), parse_layer_data(&usize::MAX.to_string()));
}

#[test]
fn keys_give_back_positions() {
    for p in [
        SpritePosition::new(0, 0),
        SpritePosition::new(-5, 7),
        SpritePosition::new(i32::MIN, i32::MAX),
        SpritePosition::new(i32::MAX, i32::MIN),
    ] {
        assert_eq!(p, position_of_key(p.key()));
    }
    assert_ne!(SpritePosition::new(1, 0).key(), SpritePosition::new(0, 1).key());
}
