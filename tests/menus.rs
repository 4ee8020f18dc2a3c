use anthea::menu::{
    after_work, journal_menu, main_menu, system_menu, talents_menu, GameState, Menu, MenuClick,
    MenuItem, MenuItemEvent, Menus, NavigationPart, CLOSE,
};
use anthea::quest::{Inventory, Journal, Spells, Talents};
use anthea::ui::MessageStyle;

fn simple(code: &str) -> Menu {
    Menu::new(code, "Title", vec![MenuItem::new("a", "A")])
}

#[test]
fn menu_mode_follows_the_stack() {
    let mut menus = Menus::new();
    let mut state = GameState::Running;
    menus.open(&mut state, main_menu());
    assert_eq!(GameState::Menu, state);
    menus.push_child(&mut state, simple("one"));
    menus.push_child(&mut state, simple("two"));
    assert_eq!(3, menus.menus.len());
    match menus.click(&mut state, CLOSE) {
        MenuClick::Closed(Some(m)) => assert_eq!("Title", m.messages[0].contents),
        _ => panic!("the menu below is shown"),
    }
    menus.push_child(&mut state, simple("two"));
    let shown = menus.close(&mut state).unwrap();
    assert_eq!(GameState::Menu, state);
    assert_eq!("one", menus.current().as_str());
    assert_eq!("Title", shown.messages[0].contents);
    assert!(menus.close(&mut state).is_some());
    assert_eq!(GameState::Menu, state);
    assert!(menus.close(&mut state).is_none());
    assert_eq!(GameState::Running, state);
    assert!(menus.menus.is_empty());
}

#[test]
fn escape_closes_and_clicks_become_choices() {
    let mut menus = Menus::new();
    let mut state = GameState::Running;
    menus.open(&mut state, system_menu());
    match menus.click(&mut state, "save") {
        MenuClick::Chosen(ev) => {
            assert_eq!("system", ev.menu);
            assert_eq!("save", ev.item);
        }
        _ => panic!("expected a choice"),
    }
    assert_eq!(GameState::Menu, state);
    match menus.click(&mut state, CLOSE) {
        MenuClick::Closed(None) => {}
        _ => panic!("expected the menu to close"),
    }
    assert_eq!(GameState::Running, state);
    match menus.click(&mut state, "save") {
        MenuClick::Ignored => {}
        _ => panic!("no menu is open"),
    }
}

#[test]
fn opening_replaces_the_stack() {
    let mut menus = Menus::new();
    let mut state = GameState::Running;
    menus.open(&mut state, simple("one"));
    menus.push_child(&mut state, simple("two"));
    menus.journal_index = Some(0);
    menus.open(&mut state, simple("three"));
    assert_eq!(1, menus.menus.len());
    assert_eq!("three", menus.current().as_str());
    assert_eq!(None, menus.journal_index);
}

#[test]
fn shown_menu_lines() {
    let m = talents_menu(&Talents { animals: 0, people: 2, weapons: 15 });
    let shown = anthea::menu::show_menu(&m);
    assert_eq!(4, shown.messages.len());
    assert_eq!(MessageStyle::MenuTitle, shown.messages[0].style);
    assert_eq!("People:", shown.messages[2].contents);
    assert_eq!(MessageStyle::Table(vec!["  2".to_string()]), shown.messages[2].style);
    assert_eq!(MessageStyle::Table(vec![" 15".to_string()]), shown.messages[3].style);
    let main = anthea::menu::show_menu(&main_menu());
    assert_eq!(5, main.messages.len());
    assert_eq!(MessageStyle::Interaction("journal".to_string()), main.messages[1].style);
    assert_eq!(MessageStyle::Interaction("talents".to_string()), main.messages[4].style);
}

#[test]
fn talent_values_are_right_aligned() {
    assert_eq!("  0", anthea::menu::talent_value(0));
    assert_eq!(" 42", anthea::menu::talent_value(42));
    assert_eq!("123", anthea::menu::talent_value(123));
    assert_eq!("4567", anthea::menu::talent_value(4567));
}

#[test]
fn journal_pages() {
    let mut journal = Journal::default();
    journal.add_entry("main", "second");
    journal.add_entry("main", "third");
    let last = journal_menu(&journal, None);
    assert_eq!("third", last.items[0].text);
    assert_eq!(Some((true, false)), last.navigation);
    let first = journal_menu(&journal, Some(0));
    assert_eq!(Some((false, true)), first.navigation);

    let mut menus = Menus::new();
    let mut state = GameState::Running;
    menus.open(&mut state, main_menu());
    let ev = MenuItemEvent { menu: "main".to_string(), item: "journal".to_string() };
    let shown = menus
        .handle_menu_item(&mut state, &ev, &journal, &Inventory::new(), &Talents::default(), &Spells::new())
        .unwrap();
    assert_eq!(MessageStyle::Navigation(true, false), shown.messages[1].style);
    assert_eq!(2, menus.menus.len());
    let back = menus.navigate_journal(&journal, NavigationPart::Back);
    assert_eq!("second", back.messages[2].contents);
    assert_eq!(MessageStyle::Navigation(true, true), back.messages[1].style);
    assert_eq!("", back.messages[1].contents);
    assert_eq!(Some((true, true)), menus.menus[1].navigation);
    assert_eq!(Some(1), menus.journal_index);
    assert_eq!(2, menus.menus.len());
    menus.navigate_journal(&journal, NavigationPart::Forward);
    assert_eq!(Some(2), menus.journal_index);
}

#[test]
fn save_and_load_choices_change_state() {
    let journal = Journal::default();
    let mut menus = Menus::new();
    let mut state = GameState::Running;
    menus.open(&mut state, system_menu());
    let save = MenuItemEvent { menu: "system".to_string(), item: "save".to_string() };
    assert!(menus
        .handle_menu_item(&mut state, &save, &journal, &Inventory::new(), &Talents::default(), &Spells::new())
        .is_none());
    assert_eq!(GameState::Save, state);
    let load = MenuItemEvent { menu: "system".to_string(), item: "load".to_string() };
    menus.handle_menu_item(&mut state, &load, &journal, &Inventory::new(), &Talents::default(), &Spells::new());
    assert_eq!(GameState::Clean, state);
    let other = MenuItemEvent { menu: "main".to_string(), item: "save".to_string() };
    menus.handle_menu_item(&mut state, &other, &journal, &Inventory::new(), &Talents::default(), &Spells::new());
    assert_eq!(GameState::Clean, state);
    assert_eq!(1, menus.menus.len());
}

#[test]
fn work_states_lead_on() {
    assert_eq!(GameState::Reset, after_work(GameState::Clean));
    assert_eq!(GameState::Load, after_work(GameState::Reset));
    assert_eq!(GameState::Running, after_work(GameState::Load));
    assert_eq!(GameState::Running, after_work(GameState::Save));
    assert_eq!(GameState::Title, after_work(GameState::Setup));
    assert_eq!(GameState::Menu, after_work(GameState::Menu));
    assert_eq!(GameState::End, after_work(GameState::End));
}

#[test]
fn empty_inventory_and_spells() {
    let inv = anthea::menu::inventory_menu(&Inventory::new());
    assert_eq!("Empty hands!", inv.items[0].text);
    let sp = anthea::menu::spells_menu(&Spells::new());
    assert_eq!("Empty head!", sp.items[0].text);
}
