//! The menu stack: modal menus layered over the running game, driven by
//! clicks on their items and by the escape key.

use vstd::prelude::*;
use crate::quest::{Inventory, Journal, Spells, Talents};
use crate::ui::{Message, MessageEvent, MessageStyle};

verus! {

pub const MAIN: &'static str = "main";

pub const JOURNAL: &'static str = "journal";

pub const INVENTORY: &'static str = "inventory";

pub const TALENTS: &'static str = "talents";

pub const SPELLS: &'static str = "spells";

pub const SYSTEM: &'static str = "system";

pub const HELP: &'static str = "help";

pub const SAVE: &'static str = "save";

pub const LOAD: &'static str = "load";

/// The item code that closes the current menu.
pub const CLOSE: &'static str = "Close";

/// The game's top-level mode.
#[derive(Debug, Clone, Copy, PartialEq, Eq, Structural, PartialOrd, Ord, Hash)]
pub enum GameState {
    Setup,
    Title,
    Background,
    Start,
    Running,
    Menu,
    Pause,
    Save,
    Clean,
    Reset,
    Load,
    End,
}

/// The state that follows one whose work is done without waiting for the
/// player: loading leads to the title, the title to the map, saving back
/// to the game, and a load goes through cleaning, rebuilding the map and
/// restoring before play resumes. Other states stay as they are.
pub fn after_work(state: GameState) -> (r: GameState)
    ensures
        r == match state {
            GameState::Setup => GameState::Title,
            GameState::Title => GameState::Background,
            GameState::Background => GameState::Start,
            GameState::Save => GameState::Running,
            GameState::Clean => GameState::Reset,
            GameState::Reset => GameState::Load,
            GameState::Load => GameState::Running,
            s => s,
        },
{
    match state {
        GameState::Setup => GameState::Title,
        GameState::Title => GameState::Background,
        GameState::Background => GameState::Start,
        GameState::Save => GameState::Running,
        GameState::Clean => GameState::Reset,
        GameState::Reset => GameState::Load,
        GameState::Load => GameState::Running,
        s => s,
    }
}

/// A line of a menu: a choice where `extra` is `None`, a display row
/// (label and value, no code) otherwise.
#[derive(Debug)]
pub struct MenuItem {
    pub code: String,
    pub text: String,
    pub extra: Option<String>,
}

impl MenuItem {
    pub fn new(code: &str, text: &str) -> (r: MenuItem)
        ensures
            r.code@ == code@,
            r.text@ == text@,
            r.extra is None,
    {
        MenuItem { code: code.to_owned(), text: text.to_owned(), extra: None }
    }

    pub fn new_table(text: &str, extra: &str) -> (r: MenuItem)
        ensures
            r.code@.len() == 0,
            r.text@ == text@,
            r.extra is Some && r.extra->0@ == extra@,
    {
        MenuItem { code: String::new(), text: text.to_owned(), extra: Some(extra.to_owned()) }
    }
}

/// A menu: its code, title, pager state and lines.
#[derive(Debug)]
pub struct Menu {
    pub code: String,
    pub title: String,
    pub navigation: Option<(bool, bool)>,
    pub items: Vec<MenuItem>,
}

impl Menu {
    pub fn new(code: &str, title: &str, items: Vec<MenuItem>) -> (r: Menu)
        ensures
            r.code@ == code@,
            r.title@ == title@,
            r.navigation is None,
            r.items@ == items@,
    {
        Menu { code: code.to_owned(), title: title.to_owned(), navigation: None, items }
    }

    /// The codes of the menu's lines.
    pub open spec fn codes(&self) -> Seq<Seq<char>> {
        self.items@.map_values(|i: MenuItem| i.code@)
    }

    /// The code and text of each line.
    pub open spec fn lines(&self) -> Seq<(Seq<char>, Seq<char>)> {
        self.items@.map_values(|i: MenuItem| (i.code@, i.text@))
    }

    /// A menu of choices only: no pager, no display rows.
    pub open spec fn plain(&self) -> bool {
        self.navigation is None && forall|i: int|
            0 <= i < self.items@.len() ==> (#[trigger] self.items@[i]).extra is None
    }
}

fn help_item() -> (r: MenuItem)
    ensures
        r.code@ == HELP@,
{
    MenuItem::new(HELP, "Help")
}

fn save_item() -> (r: MenuItem)
    ensures
        r.code@ == SAVE@,
{
    MenuItem::new(SAVE, "Save")
}

fn load_item() -> (r: MenuItem)
    ensures
        r.code@ == LOAD@,
{
    MenuItem::new(LOAD, "Load")
}

/// Help, save and load.
pub fn system_menu() -> (r: Menu)
    ensures
        r.code@ == SYSTEM@,
        r.navigation is None,
        r.codes() == seq![HELP@, SAVE@, LOAD@],
{
    let mut items: Vec<MenuItem> = Vec::new();
    items.push(help_item());
    items.push(save_item());
    items.push(load_item());
    let r = Menu::new(SYSTEM, "System", items);
    assert(r.codes() =~= seq![HELP@, SAVE@, LOAD@]);
    r
}

fn journal_item() -> (r: MenuItem)
    ensures
        r.code@ == JOURNAL@,
{
    MenuItem::new(JOURNAL, "Journal")
}

fn inventory_item() -> (r: MenuItem)
    ensures
        r.code@ == INVENTORY@,
{
    MenuItem::new(INVENTORY, "Inventory")
}

fn talents_item() -> (r: MenuItem)
    ensures
        r.code@ == TALENTS@,
{
    MenuItem::new(TALENTS, "Talents")
}

fn spells_item() -> (r: MenuItem)
    ensures
        r.code@ == SPELLS@,
{
    MenuItem::new(SPELLS, "Spells")
}

/// The player's own menu: journal, inventory, spells and talents.
pub fn main_menu() -> (r: Menu)
    ensures
        r.code@ == MAIN@,
        r.navigation is None,
        r.codes() == seq![JOURNAL@, INVENTORY@, SPELLS@, TALENTS@],
{
    let mut items: Vec<MenuItem> = Vec::new();
    items.push(journal_item());
    items.push(inventory_item());
    items.push(spells_item());
    items.push(talents_item());
    let r = Menu::new(MAIN, "Anthea", items);
    assert(r.codes() =~= seq![JOURNAL@, INVENTORY@, SPELLS@, TALENTS@]);
    r
}

/// How to play.
pub fn help_menu() -> (r: Menu)
    ensures
        r.code@ == HELP@,
        r.items@.len() == 1,
{
    let mut items: Vec<MenuItem> = Vec::new();
    items.push(
        MenuItem::new(
            "",
            "Click on your character in the middle of screen for journal, inventory, spells and talents.\nClick everywhere else to see a description.\nUse arrow keys to move.\nMove over an item to pick it up, move into characters and other things to interact.",
        ),
    );
    Menu::new(HELP, "Help", items)
}

/// The journal page at `index` (the last page where there is none), with
/// pager buttons for the pages before and after it.
pub fn journal_menu(journal: &Journal, index: Option<usize>) -> (r: Menu)
    requires
        journal.entries@.len() > 0,
        index is Some ==> index->0 < journal.entries@.len(),
    ensures
        ({
            let n = journal.entries@.len();
            let idx = match index {
                Some(i) => i as int,
                None => n - 1,
            };
            &&& r.code@ == JOURNAL@
            &&& r.items@.len() == 1
            &&& r.items@[0].text@ == journal.entries@[idx].text@
            &&& r.navigation == Some((idx > 0, idx < n - 1))
        }),
{
    let n = journal.entries.len();
    let idx = match index {
        Some(i) => i,
        None => n - 1,
    };
    let mut items: Vec<MenuItem> = Vec::new();
    items.push(MenuItem::new("", journal.entries[idx].text.as_str()));
    let mut m = Menu::new(JOURNAL, "Journal", items);
    m.navigation = Some((idx > 0, idx < n - 1));
    m
}

/// One line per carried item, with its description.
pub fn inventory_menu(inventory: &Inventory) -> (r: Menu)
    ensures
        r.code@ == INVENTORY@,
        inventory.items@.len() == 0 ==> r.items@.len() == 1 && r.items@[0].text@
            == "Empty hands!"@,
        inventory.items@.len() > 0 ==> r.items@.len() == inventory.items@.len() && forall|i: int|
            0 <= i < r.items@.len() ==> (#[trigger] r.items@[i]).text@
                == inventory.items@[i].description@ && r.items@[i].extra is None,
{
    let mut msgs: Vec<MenuItem> = Vec::new();
    let mut i: usize = 0;
    while i < inventory.items.len()
        invariant
            i <= inventory.items@.len(),
            msgs@.len() == i,
            forall|j: int|
                0 <= j < i ==> (#[trigger] msgs@[j]).text@ == inventory.items@[j].description@
                    && msgs@[j].extra is None,
        decreases inventory.items@.len() - i,
    {
        msgs.push(MenuItem::new("", inventory.items[i].description.as_str()));
        i = i + 1;
    }
    if msgs.len() == 0 {
        msgs.push(MenuItem::new("", "Empty hands!"));
    }
    Menu::new(INVENTORY, "Inventory", msgs)
}

/// One line per known spell, with its description.
pub fn spells_menu(spells: &Spells) -> (r: Menu)
    ensures
        r.code@ == SPELLS@,
        spells.spells@.len() == 0 ==> r.items@.len() == 1 && r.items@[0].text@
            == "Empty head!"@,
        spells.spells@.len() > 0 ==> r.items@.len() == spells.spells@.len() && forall|i: int|
            0 <= i < r.items@.len() ==> (#[trigger] r.items@[i]).text@
                == spells.spells@[i].description@ && r.items@[i].extra is None,
{
    let mut msgs: Vec<MenuItem> = Vec::new();
    let mut i: usize = 0;
    while i < spells.spells.len()
        invariant
            i <= spells.spells@.len(),
            msgs@.len() == i,
            forall|j: int|
                0 <= j < i ==> (#[trigger] msgs@[j]).text@ == spells.spells@[j].description@
                    && msgs@[j].extra is None,
        decreases spells.spells@.len() - i,
    {
        msgs.push(MenuItem::new("", spells.spells[i].description.as_str()));
        i = i + 1;
    }
    if msgs.len() == 0 {
        msgs.push(MenuItem::new("", "Empty head!"));
    }
    Menu::new(SPELLS, "Spells", msgs)
}

/// The character of the decimal digit `d`.
pub open spec fn digit_char(d: int) -> char {
    if d == 0 {
        '0'
    } else if d == 1 {
        '1'
    } else if d == 2 {
        '2'
    } else if d == 3 {
        '3'
    } else if d == 4 {
        '4'
    } else if d == 5 {
        '5'
    } else if d == 6 {
        '6'
    } else if d == 7 {
        '7'
    } else if d == 8 {
        '8'
    } else {
        '9'
    }
}

/// The decimal digits of `n`.
pub open spec fn decimal(n: nat) -> Seq<char>
    decreases n,
{
    if n < 10 {
        seq![digit_char(n as int)]
    } else {
        decimal(n / 10).push(digit_char((n % 10) as int))
    }
}

/// `s` right-aligned in a field of three characters.
pub open spec fn right_aligned3(s: Seq<char>) -> Seq<char> {
    if s.len() >= 3 {
        s
    } else {
        Seq::new((3 - s.len()) as nat, |i: int| ' ') + s
    }
}

fn digit_text(d: u32) -> (r: &'static str)
    requires
        d < 10,
    ensures
        r@ == seq![digit_char(d as int)],
{
    if d == 0 {
        proof { reveal_strlit("0"); }
        "0"
    } else if d == 1 {
        proof { reveal_strlit("1"); }
        "1"
    } else if d == 2 {
        proof { reveal_strlit("2"); }
        "2"
    } else if d == 3 {
        proof { reveal_strlit("3"); }
        "3"
    } else if d == 4 {
        proof { reveal_strlit("4"); }
        "4"
    } else if d == 5 {
        proof { reveal_strlit("5"); }
        "5"
    } else if d == 6 {
        proof { reveal_strlit("6"); }
        "6"
    } else if d == 7 {
        proof { reveal_strlit("7"); }
        "7"
    } else if d == 8 {
        proof { reveal_strlit("8"); }
        "8"
    } else {
        proof { reveal_strlit("9"); }
        "9"
    }
}

/// The decimal digits of `n`.
pub fn decimal_text(n: u32) -> (r: String)
    ensures
        r@ == decimal(n as nat),
    decreases n,
{
    if n < 10 {
        digit_text(n).to_owned()
    } else {
        let mut s = decimal_text(n / 10);
        s.append(digit_text(n % 10));
        s
    }
}

/// `n` in decimal, right-aligned in a field of three characters.
pub fn talent_value(n: u32) -> (r: String)
    ensures
        r@ == right_aligned3(decimal(n as nat)),
{
    let d = decimal_text(n);
    let len = d.as_str().unicode_len();
    if len >= 3 {
        return d;
    }
    let mut s = String::new();
    let mut k: usize = len;
    while k < 3
        invariant
            len <= k <= 3,
            len == d@.len(),
            s@ == Seq::new((k - len) as nat, |i: int| ' '),
        decreases 3 - k,
    {
        proof { reveal_strlit(" "); }
        s.append(" ");
        assert(s@ =~= Seq::new((k + 1 - len) as nat, |i: int| ' '));
        k = k + 1;
    }
    s.append(d.as_str());
    s
}

/// The talents as display rows.
pub fn talents_menu(talents: &Talents) -> (r: Menu)
    ensures
        r.code@ == TALENTS@,
        r.items@.len() == 3,
        r.items@[0].text@ == "Animals:"@,
        r.items@[0].extra == Some(r.items@[0].extra->0) && r.items@[0].extra->0@ == right_aligned3(
            decimal(talents.animals as nat),
        ),
        r.items@[1].text@ == "People:"@,
        r.items@[1].extra == Some(r.items@[1].extra->0) && r.items@[1].extra->0@ == right_aligned3(
            decimal(talents.people as nat),
        ),
        r.items@[2].text@ == "Weapons:"@,
        r.items@[2].extra == Some(r.items@[2].extra->0) && r.items@[2].extra->0@ == right_aligned3(
            decimal(talents.weapons as nat),
        ),
{
    let mut items: Vec<MenuItem> = Vec::new();
    let a = talent_value(talents.animals);
    items.push(MenuItem::new_table("Animals:", a.as_str()));
    let p = talent_value(talents.people);
    items.push(MenuItem::new_table("People:", p.as_str()));
    let w = talent_value(talents.weapons);
    items.push(MenuItem::new_table("Weapons:", w.as_str()));
    Menu::new(TALENTS, "Talents", items)
}

/// `r` displays `menu`: its title, its pager buttons if it has them, then
/// one line per item, a table row for display rows and a clickable choice
/// for the others.
pub open spec fn shows_menu(menu: Menu, r: MessageEvent) -> bool {
    let off: int = if menu.navigation is Some { 2 } else { 1 };
    &&& r.messages@.len() == off + menu.items@.len()
    &&& r.messages@[0].contents@ == menu.title@
    &&& r.messages@[0].style == MessageStyle::MenuTitle
    &&& match menu.navigation {
        Some(n) => r.messages@[1].contents@.len() == 0 && r.messages@[1].style
            == MessageStyle::Navigation(n.0, n.1),
        None => true,
    }
    &&& forall|i: int|
        0 <= i < menu.items@.len() ==> {
            let m = #[trigger] r.messages@[off + i];
            let it = menu.items@[i];
            &&& m.contents@ == it.text@
            &&& match it.extra {
                Some(e) => m.style is Table && m.style->Table_0@.len() == 1
                    && m.style->Table_0@[0]@ == e@,
                None => m.style is Interaction && m.style->Interaction_0@ == it.code@,
            }
        }
}

/// The messages that display a menu: its title, its pager buttons if it
/// has them, then one line per item, a table row for display rows and a
/// clickable choice for the others.
pub fn show_menu(menu: &Menu) -> (r: MessageEvent)
    ensures
        shows_menu(*menu, r),
{
    let mut msgs: Vec<Message> = Vec::new();
    msgs.push(Message::new(menu.title.as_str(), MessageStyle::MenuTitle));
    match menu.navigation {
        Some((backward, forward)) => {
            proof {
                reveal_strlit("");
            }
            msgs.push(Message::new("", MessageStyle::Navigation(backward, forward)));
        },
        None => {},
    }
    let ghost off: int = if menu.navigation is Some { 2 } else { 1 };
    let mut i: usize = 0;
    while i < menu.items.len()
        invariant
            off == (if menu.navigation is Some { 2int } else { 1int }),
            i <= menu.items@.len(),
            msgs@.len() == off + i,
            msgs@[0].contents@ == menu.title@,
            msgs@[0].style == MessageStyle::MenuTitle,
            match menu.navigation {
                Some(n) => msgs@[1].contents@.len() == 0 && msgs@[1].style
                    == MessageStyle::Navigation(n.0, n.1),
                None => true,
            },
            forall|j: int|
                0 <= j < i ==> {
                    let m = #[trigger] msgs@[off + j];
                    let it = menu.items@[j];
                    &&& m.contents@ == it.text@
                    &&& match it.extra {
                        Some(e) => m.style is Table && m.style->Table_0@.len() == 1
                            && m.style->Table_0@[0]@ == e@,
                        None => m.style is Interaction && m.style->Interaction_0@ == it.code@,
                    }
                },
        decreases menu.items@.len() - i,
    {
        let mi = &menu.items[i];
        match &mi.extra {
            Some(extra) => {
                let mut row: Vec<String> = Vec::new();
                row.push(extra.clone());
                msgs.push(Message::new(mi.text.as_str(), MessageStyle::Table(row)));
            },
            None => {
                msgs.push(Message::new(mi.text.as_str(), MessageStyle::Interaction(mi.code.clone())));
            },
        }
        assert(msgs@[off + i] == msgs@[msgs@.len() - 1]);
        i = i + 1;
    }
    MessageEvent::new_multi(msgs)
}

/// Request to open a menu as the only one.
#[derive(Debug)]
pub struct MenuEvent {
    pub menu: Menu,
}

impl MenuEvent {
    pub fn new(m: Menu) -> (r: MenuEvent)
        ensures
            r.menu == m,
    {
        MenuEvent { menu: m }
    }
}

/// Request to leave menu mode.
#[derive(Debug, Clone, Copy, PartialEq, Eq, Structural)]
pub struct CloseMenuEvent;

/// The player chose item `item` of menu `menu`.
#[derive(Debug)]
pub struct MenuItemEvent {
    pub menu: String,
    pub item: String,
}

/// What a click on a menu line did.
#[derive(Debug)]
pub enum MenuClick {
    /// The top menu was closed; the one below is to be shown, or, with
    /// `None`, the game runs again and the display is to be cleared.
    Closed(Option<MessageEvent>),
    /// A choice to be handled by whoever owns the menu.
    Chosen(MenuItemEvent),
    /// No menu was open.
    Ignored,
}

/// The menu stack after a menu is layered over the current one.
pub open spec fn spec_push_child(stack: Seq<Menu>, m: Menu) -> (Seq<Menu>, GameState) {
    (stack.push(m), GameState::Menu)
}

/// The menu stack after the top menu is closed: closing the last one
/// returns to the running game.
pub open spec fn spec_close(stack: Seq<Menu>, state: GameState) -> (Seq<Menu>, GameState) {
    if stack.len() <= 1 {
        (Seq::empty(), GameState::Running)
    } else {
        (stack.drop_last(), state)
    }
}

/// The pager buttons of the journal.
#[derive(Debug, Clone, Copy, PartialEq, Eq, Structural)]
pub enum NavigationPart {
    Back,
    Forward,
}

/// The stack of open menus, top last, and the journal page being read.
#[derive(Debug)]
pub struct Menus {
    pub menus: Vec<Menu>,
    pub journal_index: Option<usize>,
}

impl Menus {
    pub fn new() -> (r: Menus)
        ensures
            r.menus@.len() == 0,
            r.journal_index is None,
    {
        Menus { menus: Vec::new(), journal_index: None }
    }

    pub fn push(&mut self, m: Menu)
        ensures
            final(self).menus@ == old(self).menus@.push(m),
            final(self).journal_index == old(self).journal_index,
    {
        self.menus.push(m);
    }

    pub fn pop(&mut self) -> (r: Option<Menu>)
        ensures
            old(self).menus@.len() == 0 ==> r is None && final(self).menus@ == old(self).menus@,
            old(self).menus@.len() > 0 ==> r == Some(old(self).menus@.last())
                && final(self).menus@ == old(self).menus@.drop_last(),
            final(self).journal_index == old(self).journal_index,
    {
        self.menus.pop()
    }

    /// Closes every menu and forgets the journal page.
    pub fn clear(&mut self)
        ensures
            final(self).menus@.len() == 0,
            final(self).journal_index is None,
    {
        self.menus.clear();
        self.journal_index = None;
    }

    /// The code of the menu on top.
    pub fn current(&self) -> (r: &String)
        requires
            self.menus@.len() > 0,
        ensures
            r@ == self.menus@.last().code@,
    {
        &self.menus[self.menus.len() - 1].code
    }

    /// Opens `m` as the only menu and enters menu mode; returns the
    /// messages that show it.
    pub fn open(&mut self, state: &mut GameState, m: Menu) -> (r: MessageEvent)
        ensures
            final(self).menus@ == seq![m],
            final(self).journal_index is None,
            *final(state) == GameState::Menu,
            shows_menu(m, r),
    {
        *state = GameState::Menu;
        self.clear();
        self.push_child(state, m)
    }

    /// Layers `m` over the open menus; returns the messages that show it.
    pub fn push_child(&mut self, state: &mut GameState, m: Menu) -> (r: MessageEvent)
        ensures
            (final(self).menus@, *final(state)) == spec_push_child(old(self).menus@, m),
            final(self).journal_index == old(self).journal_index,
            shows_menu(m, r),
    {
        let r = show_menu(&m);
        self.push(m);
        *state = GameState::Menu;
        r
    }

    /// Closes the top menu. Returns the messages that show the menu below
    /// it, or `None` where none is left: the game then runs again.
    pub fn close(&mut self, state: &mut GameState) -> (r: Option<MessageEvent>)
        ensures
            (final(self).menus@, *final(state)) == spec_close(old(self).menus@, *old(state)),
            final(self).menus@.len() > 0 ==> final(self).journal_index == old(self).journal_index
                && r is Some && shows_menu(final(self).menus@.last(), r->0),
            final(self).menus@.len() == 0 ==> final(self).journal_index is None && r is None,
    {
        self.pop();
        if self.menus.len() > 0 {
            let r = show_menu(&self.menus[self.menus.len() - 1]);
            Some(r)
        } else {
            self.clear();
            *state = GameState::Running;
            None
        }
    }

    /// Leaves menu mode at once.
    pub fn exit(&mut self, state: &mut GameState)
        ensures
            final(self).menus@.len() == 0,
            final(self).journal_index is None,
            *final(state) == GameState::Running,
    {
        self.clear();
        *state = GameState::Running;
    }

    /// A click on the line with code `code` of the top menu; the escape key
    /// is a click on `CLOSE`.
    pub fn click(&mut self, state: &mut GameState, code: &str) -> (r: MenuClick)
        ensures
            code@ == CLOSE@ ==> (final(self).menus@, *final(state)) == spec_close(
                old(self).menus@,
                *old(state),
            ) && r is Closed && (final(self).menus@.len() > 0 ==> r->Closed_0 is Some
                && shows_menu(final(self).menus@.last(), r->Closed_0->0)) && (
            final(self).menus@.len() == 0 ==> r->Closed_0 is None),
            code@ != CLOSE@ && old(self).menus@.len() > 0 ==> *final(self) == *old(self)
                && *final(state) == *old(state) && r is Chosen && r->Chosen_0.menu@ == old(
                self,
            ).menus@.last().code@ && r->Chosen_0.item@ == code@,
            code@ != CLOSE@ && old(self).menus@.len() == 0 ==> *final(self) == *old(self)
                && *final(state) == *old(state) && r is Ignored,
    {
        proof { reveal_strlit("Close"); }
        if crate::text::same_text(code, CLOSE) {
            let shown = self.close(state);
            MenuClick::Closed(shown)
        } else if self.menus.len() > 0 {
            let top = &self.menus[self.menus.len() - 1];
            MenuClick::Chosen(MenuItemEvent { menu: top.code.clone(), item: code.to_owned() })
        } else {
            MenuClick::Ignored
        }
    }

    /// Turns the journal one page back or forward, replacing the journal
    /// menu on top; returns the messages that show the new page.
    pub fn navigate_journal(&mut self, journal: &Journal, part: NavigationPart) -> (r: MessageEvent)
        requires
            old(self).menus@.len() > 0,
            old(self).menus@.last().code@ == JOURNAL@,
            journal.entries@.len() > 0,
            old(self).journal_index is Some ==> old(self).journal_index->0
                < journal.entries@.len(),
            part == NavigationPart::Back ==> page_of(
                old(self).journal_index,
                journal.entries@.len() as int,
            ) > 0,
            part == NavigationPart::Forward ==> page_of(old(self).journal_index, journal.entries@.len() as int) + 1
                < journal.entries@.len(),
        ensures
            ({
                let p = page_of(old(self).journal_index, journal.entries@.len() as int);
                let q = if part == NavigationPart::Back {
                    p - 1
                } else {
                    p + 1
                };
                &&& final(self).journal_index == Some(q as usize)
                &&& final(self).menus@.len() == old(self).menus@.len()
                &&& final(self).menus@.drop_last() == old(self).menus@.drop_last()
                &&& final(self).menus@.last().code@ == JOURNAL@
                &&& final(self).menus@.last().items@.len() == 1
                &&& final(self).menus@.last().items@[0].text@ == journal.entries@[q].text@
                &&& final(self).menus@.last().navigation == Some(
                    (q > 0, q < journal.entries@.len() - 1),
                )
                &&& shows_menu(final(self).menus@.last(), r)
            }),
    {
        let n = journal.entries.len();
        let idx = match self.journal_index {
            Some(i) => i,
            None => n - 1,
        };
        match part {
            NavigationPart::Back => self.journal_index = Some(idx - 1),
            NavigationPart::Forward => self.journal_index = Some(idx + 1),
        }
        self.pop();
        let m = journal_menu(journal, self.journal_index);
        let r = show_menu(&m);
        self.push(m);
        r
    }
}

/// The journal page shown for a cursor: the last page where there is none.
pub open spec fn page_of(index: Option<usize>, n: int) -> int {
    match index {
        Some(i) => i as int,
        None => n - 1,
    }
}

/// Whether `ev` is item `item` of menu `menu`.
pub open spec fn chose(ev: MenuItemEvent, menu: &str, item: &str) -> bool {
    ev.menu@ == menu@ && ev.item@ == item@
}

impl Menus {
    /// Handles the choices of the main and system menus: the journal,
    /// inventory, spells, talents and help open a menu over the current
    /// one (whose messages are returned); save and load leave for their
    /// states. Any other choice changes nothing.
    pub fn handle_menu_item(
        &mut self,
        state: &mut GameState,
        ev: &MenuItemEvent,
        journal: &Journal,
        inventory: &Inventory,
        talents: &Talents,
        spells: &Spells,
    ) -> (r: Option<MessageEvent>)
        requires
            chose(*ev, MAIN, JOURNAL) ==> journal.entries@.len() > 0 && (old(
                self,
            ).journal_index is Some ==> old(self).journal_index->0 < journal.entries@.len()),
        ensures
            final(self).journal_index == old(self).journal_index,
            chose(*ev, MAIN, JOURNAL) || chose(*ev, MAIN, INVENTORY) || chose(*ev, MAIN, SPELLS)
                || chose(*ev, MAIN, TALENTS) || chose(*ev, SYSTEM, HELP) ==> {
                &&& final(self).menus@.drop_last() == old(self).menus@
                &&& final(self).menus@.len() == old(self).menus@.len() + 1
                &&& *final(state) == GameState::Menu
                &&& r is Some && shows_menu(final(self).menus@.last(), r->0)
                &&& final(self).menus@.last().code@ == if chose(*ev, MAIN, JOURNAL) {
                    JOURNAL@
                } else if chose(*ev, MAIN, INVENTORY) {
                    INVENTORY@
                } else if chose(*ev, MAIN, SPELLS) {
                    SPELLS@
                } else if chose(*ev, MAIN, TALENTS) {
                    TALENTS@
                } else {
                    HELP@
                }
            },
            chose(*ev, SYSTEM, SAVE) ==> *final(state) == GameState::Save && r is None
                && final(self).menus@ == old(self).menus@,
            chose(*ev, SYSTEM, LOAD) ==> *final(state) == GameState::Clean && r is None
                && final(self).menus@ == old(self).menus@,
            !(chose(*ev, MAIN, JOURNAL) || chose(*ev, MAIN, INVENTORY) || chose(*ev, MAIN, SPELLS)
                || chose(*ev, MAIN, TALENTS) || chose(*ev, SYSTEM, HELP) || chose(
                *ev,
                SYSTEM,
                SAVE,
            ) || chose(*ev, SYSTEM, LOAD)) ==> *final(state) == *old(state) && r is None
                && final(self).menus@ == old(self).menus@,
    {
        proof {
            reveal_strlit("main");
            reveal_strlit("system");
            reveal_strlit("journal");
            reveal_strlit("inventory");
            reveal_strlit("spells");
            reveal_strlit("talents");
            reveal_strlit("help");
            reveal_strlit("save");
            reveal_strlit("load");
            assert(MAIN@.len() != SYSTEM@.len());
            assert(MAIN@ != SYSTEM@);
            assert(HELP@[0] != SAVE@[0] && HELP@[0] != LOAD@[0] && SAVE@[0] != LOAD@[0]);
            assert(HELP@ != SAVE@ && HELP@ != LOAD@ && SAVE@ != LOAD@);
            assert(JOURNAL@[0] != TALENTS@[0] && JOURNAL@ != TALENTS@);
        }
        let ghost before = self.menus@;
        let in_main = crate::text::same_text(ev.menu.as_str(), MAIN);
        let in_system = crate::text::same_text(ev.menu.as_str(), SYSTEM);
        let item = ev.item.as_str();
        if in_main && crate::text::same_text(item, JOURNAL) {
            let m = journal_menu(journal, self.journal_index);
            let r = self.push_child(state, m);
            assert(self.menus@.drop_last() =~= before);
            Some(r)
        } else if in_main && crate::text::same_text(item, INVENTORY) {
            let m = inventory_menu(inventory);
            let r = self.push_child(state, m);
            assert(self.menus@.drop_last() =~= before);
            Some(r)
        } else if in_main && crate::text::same_text(item, SPELLS) {
            let m = spells_menu(spells);
            let r = self.push_child(state, m);
            assert(self.menus@.drop_last() =~= before);
            Some(r)
        } else if in_main && crate::text::same_text(item, TALENTS) {
            let m = talents_menu(talents);
            let r = self.push_child(state, m);
            assert(self.menus@.drop_last() =~= before);
            Some(r)
        } else if in_system && crate::text::same_text(item, HELP) {
            let m = help_menu();
            let r = self.push_child(state, m);
            assert(self.menus@.drop_last() =~= before);
            Some(r)
        } else if in_system && crate::text::same_text(item, SAVE) {
            *state = GameState::Save;
            None
        } else if in_system && crate::text::same_text(item, LOAD) {
            *state = GameState::Clean;
            None
        } else {
            None
        }
    }
}

} // verus!
