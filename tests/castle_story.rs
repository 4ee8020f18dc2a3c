use anthea::castle::{castle_area, on_affordance, on_character, on_item, on_menu_item, Story};
use anthea::geometry::SpritePosition;
use anthea::menu::MenuItemEvent;
use anthea::quest::{Item, PlayerPart, QuestFlags};

fn scissors() -> Item {
    Item::new("scissors", "Sharpish scissors", "sprites/items/double_sword.png", 14, 12)
}

fn choice(menu: &str, item: &str) -> MenuItemEvent {
    MenuItemEvent { menu: menu.to_string(), item: item.to_string() }
}

#[test]
fn hair_cut_at_the_mirror() {
    let mut story = Story::new();
    let mut area = castle_area();
    story.inventory.add_item(scissors());
    assert!(!story.flags.has_flag("main", "hair_cut"));
    let entries = story.journal.entries.len();

    let offer = on_affordance(&story, "mirror");
    let menu = offer.menu.expect("the mirror offers a hair cut");
    assert_eq!("mirror", menu.code);
    assert_eq!("cut", menu.items[0].code);

    let r = on_menu_item(&mut story, &mut area, &choice("mirror", "cut"));
    assert!(!story.inventory.contains_item("scissors"));
    assert_eq!(2, story.talents.people);
    assert!(story.flags.has_flag("main", "hair_cut"));
    assert_eq!(entries + 1, story.journal.entries.len());
    let last = story.journal.entries.last().unwrap();
    assert_eq!("main", last.quest);
    assert_eq!("I cut my hair short using the bedroom mirror.", last.text);
    assert_eq!(1, r.body_changes.len());
    assert_eq!(PlayerPart::Hair, r.body_changes[0].part);
    assert_eq!("sprites/people/hair_short.png", r.body_changes[0].sprite);
    assert!(r.close_menu);
}

#[test]
fn mirror_without_scissors() {
    let mut story = Story::new();
    let r = on_affordance(&story, "mirror");
    assert!(r.menu.is_none());
    assert_eq!("You look at yourself in the mirror", r.messages[0].messages[0].contents);
    story.flags.set_flag("main", "hair_cut");
    let r = on_affordance(&story, "mirror");
    assert_eq!("Your look at yourself and your short hair...", r.messages[0].messages[0].contents);
}

#[test]
fn fountain_cut_is_self_made_and_nerita_fixes_it() {
    let mut story = Story::new();
    let mut area = castle_area();
    story.inventory.add_item(scissors());
    on_menu_item(&mut story, &mut area, &choice("fountain", "cut"));
    assert_eq!(1, story.talents.people);
    assert!(story.flags.has_flag("main", "hair_cut_self"));
    let offer = on_character(&mut story, &mut area, "Nerita");
    assert_eq!("fix", offer.menu.unwrap().items[0].code);
    on_menu_item(&mut story, &mut area, &choice("Nerita", "fix"));
    assert_eq!(2, story.talents.people);
    assert!(!story.flags.has_flag("main", "hair_cut_self"));
    assert!(story.flags.has_flag("main", "hair_cut"));
}

#[test]
fn locked_door_before_leave() {
    let mut story = Story::new();
    let mut area = castle_area();
    let affordances = area.affordances.len();
    let r = on_character(&mut story, &mut area, "Theon");
    assert_eq!(
        " You are forbidden to go outside. I'm sorry my lady, your brother's orders.",
        r.messages[0].messages[0].contents
    );
    assert!(!story.flags.has_flag("main", "opened_exit"));
    assert!(r.removed_tiles.is_empty());
    assert_eq!(affordances, area.affordances.len());
}

#[test]
fn the_way_out_opens() {
    let mut story = Story::new();
    let mut area = castle_area();
    // Peleus first forbids, then allows once the hair is short
    on_character(&mut story, &mut area, "Peleus");
    assert!(story.flags.has_flag("main", "peleus_forbidden"));
    story.flags.set_flag("main", "hair_cut");
    on_character(&mut story, &mut area, "Peleus");
    assert!(story.flags.has_flag("main", "allowed_to_leave"));

    let r = on_character(&mut story, &mut area, "Theon");
    assert!(story.flags.has_flag("main", "opened_exit"));
    assert_eq!(3, r.removed_tiles.len());
    assert_eq!(SpritePosition::new(20, 29), r.removed_tiles[0].position);
    assert_eq!(1, r.removed_tiles[0].layer);
    let gate = area.affordance_from_position(&SpritePosition::new(21, 29)).unwrap();
    assert_eq!("outside_21", gate.name);

    // without food the way out is refused
    let r = on_affordance(&story, "outside_21");
    assert!(!r.end);
    assert_eq!("You should get food before venturing outside", r.messages[0].messages[0].contents);
    story.flags.set_flag("main", "obtained_food");
    let r = on_affordance(&story, "outside_21");
    assert!(!r.end);
    on_item(&mut story, "sword");
    assert_eq!(1, story.talents.weapons);
    let r = on_affordance(&story, "outside_20");
    assert!(r.end);
    assert_eq!("Success!", r.messages[0].messages[0].contents);
}

#[test]
fn rats_quest() {
    let mut story = Story::new();
    let mut area = castle_area();
    let r = on_character(&mut story, &mut area, "Rats");
    assert_eq!("The rats are not afraid of you.", r.messages[0].messages[0].contents);
    on_character(&mut story, &mut area, "Cherise");
    assert!(story.flags.has_flag("Rats", "started"));
    assert_eq!(2, story.journal.quests.len());
    // not strong enough yet
    let r = on_character(&mut story, &mut area, "Rats");
    assert!(r.menu.is_none());
    story.talents.weapons = 2;
    let r = on_character(&mut story, &mut area, "Rats");
    let menu = r.menu.unwrap();
    assert_eq!(2, menu.items.len());
    assert_eq!("fight", menu.items[0].code);
    assert_eq!("", menu.items[1].code);
    let rats = SpritePosition::new(2, 24);
    assert!(area.character_from_position(&rats).is_some());
    on_menu_item(&mut story, &mut area, &choice("Rats", "fight"));
    assert!(story.flags.has_flag("Rats", "rats_gone"));
    assert!(area.character_from_position(&rats).is_none());
    assert_eq!(6, area.characters.len());
    on_character(&mut story, &mut area, "Cherise");
    assert!(story.flags.has_flag("Rats", "completed"));
    assert!(story.flags.has_flag("main", "obtained_food"));
}

#[test]
fn cretien_teaches_a_spell() {
    let mut story = Story::new();
    let mut area = castle_area();
    story
        .inventory
        .add_item(Item::new("scroll", "Undecipherable scroll", "sprites/items/scroll-brown.png", 4, 20));
    on_character(&mut story, &mut area, "Cretien");
    assert!(!story.inventory.contains_item("scroll"));
    assert!(story.spells.contains_spell("cat"));
}

#[test]
fn unknown_names_do_nothing() {
    let mut story = Story::new();
    let mut area = castle_area();
    let r = on_character(&mut story, &mut area, "Nobody");
    assert!(r.messages.is_empty() && r.menu.is_none());
    let r = on_affordance(&story, "window");
    assert!(r.messages.is_empty());
    let r = on_item(&mut story, "stone");
    assert!(r.body_changes.is_empty());
}

#[test]
fn quest_flags_set_and_unset() {
    let mut f = QuestFlags::new();
    assert!(!f.has_flag("main", "x"));
    f.set_flag("main", "x");
    f.set_flag("main", "x");
    assert!(f.has_flag("main", "x"));
    assert!(!f.has_flag("other", "x"));
    f.unset_flag("main", "x");
    assert!(!f.has_flag("main", "x"));
}

#[test]
fn inventory_is_ordered_by_description() {
    let mut story = Story::new();
    story.inventory.add_item(Item::new("b", "Bravo", "s", 0, 0));
    story.inventory.add_item(Item::new("a", "Alpha", "s", 0, 0));
    story.inventory.add_item(Item::new("c", "Charlie", "s", 0, 0));
    story.inventory.add_item(Item::new("a2", "Alpha", "s", 0, 0));
    let names: Vec<&str> = story.inventory.items.iter().map(|i| i.name.as_str()).collect();
    assert_eq!(vec!["a", "a2", "b", "c"], names);
    story.inventory.remove_item("b");
    assert!(!story.inventory.contains_item("b"));
    assert_eq!(3, story.inventory.items.len());
}

#[test]
fn castle_layout() {
    let area = castle_area();
    assert_eq!(SpritePosition::new(20, 4), area.start);
    let room = area.room_from_position(&SpritePosition::new(16, 10)).unwrap();
    assert_eq!("garden", room.name);
    assert!(area.room_from_position(&SpritePosition::new(0, 0)).is_none());
    assert_eq!("mirror", area.affordance_from_position(&SpritePosition::new(9, 3)).unwrap().name);
    assert_eq!("Theon", area.character_from_position(&SpritePosition::new(21, 27)).unwrap().name);
    assert!(area.item_from_position(&SpritePosition::new(34, 15)).unwrap().consumable);
}
