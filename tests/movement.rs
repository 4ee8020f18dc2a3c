use anthea::geometry::SpritePosition;
use anthea::menu::GameState;
use anthea::movement::{
    click, pickup_item, ClickOutcome, Direction, MouseLocation, MoveEvent, MoveOutcome,
    MovementPlan, Pickup,
};
use anthea::quest::{EventMemory, Inventory, Item};
use anthea::state::{AntheaState, RemoveTileEvent};
use anthea::tiles::{Layer, TileMap, TileSet};
use anthea::world::{Affordance, Area, Character};

fn tileset() -> TileSet {
    TileSet {
        tiles: vec![
            "sprites/tiles/floor_sand.png".to_string(),
            "sprites/tiles/brick_gray0.png".to_string(),
            "sprites/tiles/gate_runed_right.png".to_string(),
        ],
    }
}

/// A 3x3 floor with the player in the top-left corner, everything seen.
fn open_room(tiles: Vec<usize>) -> AntheaState {
    let map = TileMap { width: 3, height: 3, layers: vec![Layer::new(3, 3, tiles)] };
    let mut s = AntheaState::new(SpritePosition::new(0, 0));
    s.setup_map(&map, &tileset());
    for y in 0..3 {
        for x in 0..3 {
            s.reveal_position(&SpritePosition::new(x, y));
        }
    }
    s
}

fn empty_area() -> Area {
    Area::new("test", 0, SpritePosition::new(0, 0))
}

#[test]
fn moves_wait_for_the_delay() {
    let mut s = open_room(vec![1; 9]);
    let mut plan = MovementPlan::new();
    assert!(!s.tick(150));
    assert!(s.next_move(&mut plan, Some(Direction::Right)).is_none());
    assert!(s.tick(50));
    assert_eq!(200, s.last_move);
    let ev = s.next_move(&mut plan, Some(Direction::Down)).unwrap();
    assert_eq!(MoveEvent(SpritePosition::new(0, 1)), ev);
}

#[test]
fn keys_drop_the_plan() {
    let mut s = open_room(vec![1; 9]);
    s.tick(300);
    let mut plan = MovementPlan(vec![SpritePosition::new(1, 0), SpritePosition::new(0, 1)]);
    let ev = s.next_move(&mut plan, None).unwrap();
    assert_eq!(SpritePosition::new(0, 1), ev.0);
    assert_eq!(1, plan.0.len());
    let ev = s.next_move(&mut plan, Some(Direction::Left)).unwrap();
    assert_eq!(SpritePosition::new(-1, 0), ev.0);
    assert!(plan.0.is_empty());
    assert!(s.next_move(&mut plan, None).is_none());
}

#[test]
fn walking_blocking_and_interacting() {
    // brick at (1,0)
    let mut s = open_room(vec![1, 2, 1, 1, 1, 1, 1, 1, 1]);
    let mut area = empty_area();
    area.add_affordance(Affordance::new("well", "A well", 0, 2));
    area.add_character(Character::new("Ann", "Ann, a friend", "s.png", 1, 1));
    area.add_character(Character::new("Bob", "Bob", "s.png", 0, 2));
    let cands = vec![];

    s.last_move = 500;
    match s.move_player(&area, &MoveEvent(SpritePosition::new(0, 0)), &cands) {
        MoveOutcome::Stayed => {}
        other => panic!("{:?}", other),
    }
    assert_eq!(500, s.last_move);
    match s.move_player(&area, &MoveEvent(SpritePosition::new(1, 0)), &cands) {
        MoveOutcome::Blocked => {}
        other => panic!("{:?}", other),
    }
    assert_eq!(0, s.last_move);
    assert_eq!(SpritePosition::new(0, 0), s.map_position);
    match s.move_player(&area, &MoveEvent(SpritePosition::new(0, 1)), &cands) {
        MoveOutcome::Moved(_) => {}
        other => panic!("{:?}", other),
    }
    assert_eq!(SpritePosition::new(0, 1), s.map_position);
    match s.move_player(&area, &MoveEvent(SpritePosition::new(1, 1)), &cands) {
        MoveOutcome::Character(name) => assert_eq!("Ann", name),
        other => panic!("{:?}", other),
    }
    assert_eq!(SpritePosition::new(0, 1), s.map_position);
    // the affordance wins over the character on the same cell
    match s.move_player(&area, &MoveEvent(SpritePosition::new(0, 2)), &cands) {
        MoveOutcome::Affordance(name) => assert_eq!("well", name),
        other => panic!("{:?}", other),
    }
}

#[test]
fn moving_reveals_what_comes_in_sight() {
    let map = TileMap { width: 8, height: 1, layers: vec![Layer::new(8, 1, vec![1; 8])] };
    let mut s = AntheaState::new(SpritePosition::new(0, 0));
    s.setup_map(&map, &tileset());
    let cands: Vec<SpritePosition> = (0..8).map(|x| SpritePosition::new(x, 0)).collect();
    let mut state = GameState::Start;
    let first = s.start(&mut state, &cands);
    assert_eq!(GameState::Running, state);
    assert_eq!(4, first.len());
    let before = s.revealed.len();
    match s.move_player(&empty_area(), &MoveEvent(SpritePosition::new(1, 0)), &cands) {
        MoveOutcome::Moved(new) => assert_eq!(vec![SpritePosition::new(4, 0)], new),
        other => panic!("{:?}", other),
    }
    assert_eq!(before + 1, s.revealed.len());
    assert!(s.revealed_at(&SpritePosition::new(0, 0)));
}

#[test]
fn double_click_replaces_the_plan() {
    let s = open_room(vec![1; 9]);
    let area = empty_area();
    let old_step = SpritePosition::new(7, 7);
    let mut plan = MovementPlan(vec![old_step, SpritePosition::new(8, 8)]);
    let mut loc = MouseLocation::new();
    // a single click describes, and keeps the plan
    match click(&s, &area, &mut loc, &mut plan, SpritePosition::new(2, 0), 1000) {
        ClickOutcome::Clear => {}
        other => panic!("{:?}", other),
    }
    assert_eq!(2, plan.0.len());
    // the second click within the delay plans a walk there
    click(&s, &area, &mut loc, &mut plan, SpritePosition::new(2, 0), 1300);
    assert!(!plan.0.contains(&old_step));
    assert_eq!(
        vec![SpritePosition::new(2, 0), SpritePosition::new(1, 0), SpritePosition::new(0, 0)],
        plan.0
    );
}

#[test]
fn slow_clicks_are_not_double() {
    let s = open_room(vec![1; 9]);
    let area = empty_area();
    let mut plan = MovementPlan(vec![SpritePosition::new(7, 7)]);
    let mut loc = MouseLocation::new();
    click(&s, &area, &mut loc, &mut plan, SpritePosition::new(2, 0), 1000);
    click(&s, &area, &mut loc, &mut plan, SpritePosition::new(2, 0), 1500);
    assert_eq!(vec![SpritePosition::new(7, 7)], plan.0);
    assert_eq!(1500, loc.last_click_time);
}

#[test]
fn clicks_on_special_places() {
    let s = open_room(vec![1; 9]);
    let mut area = empty_area();
    area.add_character(Character::new("Ann", "Ann, a friend", "s.png", 1, 1));
    let mut plan = MovementPlan::new();
    let mut loc = MouseLocation::new();
    match click(&s, &area, &mut loc, &mut plan, SpritePosition::new(-9, -7), 0) {
        ClickOutcome::SystemMenu => {}
        other => panic!("{:?}", other),
    }
    match click(&s, &area, &mut loc, &mut plan, SpritePosition::new(0, 0), 0) {
        ClickOutcome::MainMenu => {}
        other => panic!("{:?}", other),
    }
    match click(&s, &area, &mut loc, &mut plan, SpritePosition::new(1, 1), 0) {
        ClickOutcome::Describe(text) => assert_eq!("Ann, a friend", text),
        other => panic!("{:?}", other),
    }
    match click(&s, &area, &mut loc, &mut plan, SpritePosition::new(5, 5), 0) {
        ClickOutcome::Clear => {}
        other => panic!("{:?}", other),
    }
}

#[test]
fn picking_up_items() {
    let s = AntheaState::new(SpritePosition::new(3, 3));
    let mut area = empty_area();
    area.add_item(Item::new("key", "A key", "k.png", 3, 3));
    area.add_item(Item::new_consumable("apple", "An apple", "a.png", 4, 4));
    let mut inv = Inventory::new();
    match pickup_item(&s, &mut area, &mut inv) {
        Pickup::Taken(d) => assert_eq!("A key", d),
        other => panic!("{:?}", other),
    }
    assert!(inv.contains_item("key"));
    assert!(area.item_from_position(&SpritePosition::new(3, 3)).is_none());
    match pickup_item(&s, &mut area, &mut inv) {
        Pickup::Nothing => {}
        other => panic!("{:?}", other),
    }
    let s2 = AntheaState::new(SpritePosition::new(4, 4));
    match pickup_item(&s2, &mut area, &mut inv) {
        Pickup::Consumed(n) => assert_eq!("apple", n),
        other => panic!("{:?}", other),
    }
    assert_eq!(1, inv.items.len());
}

#[test]
fn removed_tiles_are_remembered_and_replayed() {
    let map = TileMap {
        width: 1,
        height: 1,
        layers: vec![Layer::new(1, 1, vec![1]), Layer::new(1, 1, vec![3])],
    };
    let mut s = AntheaState::new(SpritePosition::new(0, 0));
    s.setup_map(&map, &tileset());
    let mut memory = EventMemory::new();
    let gate = SpritePosition::new(0, 0);
    assert!(!s.remove_tile_remembered(&mut memory, &RemoveTileEvent::new(gate, 0 + 2)));
    assert!(memory.removed_tiles.is_empty());
    assert!(s.remove_tile_remembered(&mut memory, &RemoveTileEvent::new(gate, 1)));
    assert_eq!(1, memory.removed_tiles.len());
    // a fresh map, as after a load
    let mut fresh = AntheaState::new(SpritePosition::new(0, 0));
    fresh.setup_map(&map, &tileset());
    assert!(!fresh.tile_at(&gate).unwrap().passable);
    fresh.replay_removed_tiles(&memory);
    assert!(fresh.tile_at(&gate).unwrap().passable);
}

#[test]
fn only_the_last_item_on_a_cell_is_taken() {
    let s = AntheaState::new(SpritePosition::new(1, 1));
    let mut area = empty_area();
    area.add_item(Item::new("cup", "A cup", "c.png", 1, 1));
    area.add_item(Item::new("plate", "A plate", "p.png", 1, 1));
    let mut inv = Inventory::new();
    match pickup_item(&s, &mut area, &mut inv) {
        Pickup::Taken(d) => assert_eq!("A plate", d),
        other => panic!("{:?}", other),
    }
    assert_eq!("cup", area.item_from_position(&SpritePosition::new(1, 1)).unwrap().name);
    match pickup_item(&s, &mut area, &mut inv) {
        Pickup::Taken(d) => assert_eq!("A cup", d),
        other => panic!("{:?}", other),
    }
    assert_eq!(2, inv.items.len());
}
