//! The castle level: its layout, and how its affordances, characters and
//! items react to the player.

use vstd::prelude::*;
use crate::geometry::{SpriteDimension, SpritePosition};
use crate::menu::{Menu, MenuItem, MenuItemEvent};
use crate::quest::{
    BodyChangeEvent, Inventory, Item, Journal, PlayerPart, Quest, QuestFlags, Spell, Spells,
    Talents, QUEST_COMPLETED, QUEST_MAIN, QUEST_STARTED,
};
use crate::state::RemoveTileEvent;
use crate::text::{same_text, starts_with, has_prefix};
use crate::ui::{Message, MessageEvent, MessageStyle};
use crate::world::{Affordance, Area, Character, Room};

verus! {

pub const MIRROR: &'static str = "mirror";

pub const FOUNTAIN: &'static str = "fountain";

pub const SCISSORS: &'static str = "scissors";

pub const SCROLL: &'static str = "scroll";

pub const SWORD: &'static str = "sword";

pub const OUTSIDE: &'static str = "outside";

pub const CUT: &'static str = "cut";

pub const FIX: &'static str = "fix";

pub const FIGHT: &'static str = "fight";

pub const SCARE: &'static str = "scare";

pub const HAIR_CUT: &'static str = "hair_cut";

pub const HAIR_CUT_SELF: &'static str = "hair_cut_self";

pub const PELEUS_FORBIDDEN: &'static str = "peleus_forbidden";

pub const ALLOWED_TO_LEAVE: &'static str = "allowed_to_leave";

pub const OPENED_EXIT: &'static str = "opened_exit";

pub const TRAINED_BY_SCOPAS: &'static str = "trained_by_scopas";

pub const OBTAINED_FOOD: &'static str = "obtained_food";

pub const PELEUS: &'static str = "Peleus";

pub const NERITA: &'static str = "Nerita";

pub const CRETIEN: &'static str = "Cretien";

pub const SCOPAS: &'static str = "Scopas";

pub const CHERISE: &'static str = "Cherise";

pub const THEON: &'static str = "Theon";

pub const RATS: &'static str = "Rats";

pub const CAT: &'static str = "cat";

pub const QUEST_RATS: &'static str = "Rats";

pub const RATS_GONE: &'static str = "rats_gone";

/// The sprite of short hair.
pub const SHORT_HAIR: &'static str = "sprites/people/hair_short.png";

/// The sprite of a sword in hand.
pub const SHORT_SWORD: &'static str = "sprites/people/short_sword.png";

/// The player's belongings and the state of the story.
#[derive(Debug)]
pub struct Story {
    pub inventory: Inventory,
    pub talents: Talents,
    pub flags: QuestFlags,
    pub spells: Spells,
    pub journal: Journal,
}

impl Story {
    pub open spec fn well_formed(&self) -> bool {
        self.inventory.well_formed() && self.spells.well_formed()
    }

    pub open spec fn has(&self, quest: &str, flag: &str) -> bool {
        self.flags.spec_has(quest@, flag@)
    }

    /// The story at the start of the game.
    pub fn new() -> (r: Story)
        ensures
            r.well_formed(),
            r.inventory.items@.len() == 0,
            r.spells.spells@.len() == 0,
            r.talents == (Talents { animals: 0, people: 0, weapons: 0 }),
            r.flags.flag_set() == Set::<(Seq<char>, Seq<char>)>::empty(),
            r.journal.entries@.len() == 1,
    {
        Story {
            inventory: Inventory::new(),
            talents: Talents::default(),
            flags: QuestFlags::new(),
            spells: Spells::new(),
            journal: Journal::default(),
        }
    }
}

/// What a reaction asks of the rest of the game.
#[derive(Debug)]
pub struct Reaction {
    /// Messages to show.
    pub messages: Vec<MessageEvent>,
    /// A menu to open as the only one.
    pub menu: Option<Menu>,
    /// Whether menu mode ends.
    pub close_menu: bool,
    /// Changes to the player's sprite.
    pub body_changes: Vec<BodyChangeEvent>,
    /// Tiles to take off the map.
    pub removed_tiles: Vec<RemoveTileEvent>,
    /// Whether the game is won.
    pub end: bool,
}

impl Reaction {
    /// No reaction at all.
    pub fn none() -> (r: Reaction)
        ensures
            is_silent(r),
    {
        Reaction {
            messages: Vec::new(),
            menu: None,
            close_menu: false,
            body_changes: Vec::new(),
            removed_tiles: Vec::new(),
            end: false,
        }
    }

    /// Only a message.
    pub fn say(text: &str) -> (r: Reaction)
        ensures
            only_says(r, text),
    {
        let mut messages: Vec<MessageEvent> = Vec::new();
        messages.push(MessageEvent::info(text));
        Reaction {
            messages,
            menu: None,
            close_menu: false,
            body_changes: Vec::new(),
            removed_tiles: Vec::new(),
            end: false,
        }
    }

    /// Only a menu to open.
    pub fn ask(m: Menu) -> (r: Reaction)
        ensures
            r.menu == Some(m),
            r.messages@.len() == 0,
            !r.close_menu,
            r.body_changes@.len() == 0,
            r.removed_tiles@.len() == 0,
            !r.end,
    {
        Reaction {
            messages: Vec::new(),
            menu: Some(m),
            close_menu: false,
            body_changes: Vec::new(),
            removed_tiles: Vec::new(),
            end: false,
        }
    }
}

/// The reaction does nothing.
pub open spec fn is_silent(r: Reaction) -> bool {
    &&& r.messages@.len() == 0
    &&& r.menu is None
    &&& !r.close_menu
    &&& r.body_changes@.len() == 0
    &&& r.removed_tiles@.len() == 0
    &&& !r.end
}

/// The reaction shows one informational message, `text`, and nothing else.
pub open spec fn only_says(r: Reaction, text: &str) -> bool {
    &&& r.messages@.len() == 1
    &&& r.messages@[0].messages@.len() == 1
    &&& r.messages@[0].messages@[0].contents@ == text@
    &&& r.messages@[0].messages@[0].style == MessageStyle::Info
    &&& r.menu is None
    &&& !r.close_menu
    &&& r.body_changes@.len() == 0
    &&& r.removed_tiles@.len() == 0
    &&& !r.end
}

/// The reaction opens the menu `code` titled `title` whose choices are
/// `lines` (code and text), and does nothing else.
pub open spec fn only_asks(
    r: Reaction,
    code: &str,
    title: &str,
    lines: Seq<(Seq<char>, Seq<char>)>,
) -> bool {
    &&& r.menu is Some
    &&& r.menu->0.code@ == code@
    &&& r.menu->0.title@ == title@
    &&& r.menu->0.lines() == lines
    &&& r.menu->0.plain()
    &&& r.messages@.len() == 0
    &&& !r.close_menu
    &&& r.body_changes@.len() == 0
    &&& r.removed_tiles@.len() == 0
    &&& !r.end
}

/// Nothing of the story changed.
pub open spec fn unchanged(a: Story, b: Story) -> bool {
    &&& b.inventory.items@ == a.inventory.items@
    &&& b.talents == a.talents
    &&& b.flags.flag_set() == a.flags.flag_set()
    &&& b.spells.spells@ == a.spells.spells@
    &&& b.journal.entries@ == a.journal.entries@
    &&& b.journal.quests@ == a.journal.quests@
}

/// `b`'s journal is `a`'s with one more line, `text`, filed under `quest`.
pub open spec fn wrote(a: Story, b: Story, quest: &str, text: &str) -> bool {
    &&& b.journal.quests@ == a.journal.quests@
    &&& b.journal.entries@.len() == a.journal.entries@.len() + 1
    &&& b.journal.entries@.drop_last() == a.journal.entries@
    &&& b.journal.entries@.last().quest@ == quest@
    &&& b.journal.entries@.last().text@ == text@
}

/// `b`'s inventory is `a`'s without the first item called `name`.
pub open spec fn dropped(a: Story, b: Story, name: &str) -> bool {
    &&& a.inventory.holds(name@) ==> exists|k: int|
        crate::quest::first_named(a.inventory.names(), name@, k) && b.inventory.items@
            == a.inventory.items@.remove(k)
    &&& !a.inventory.holds(name@) ==> b.inventory.items@ == a.inventory.items@
}

/// The reaction shows exactly one informational message, `text`.
pub open spec fn tells(r: Reaction, text: &str) -> bool {
    &&& r.messages@.len() == 1
    &&& r.messages@[0].messages@.len() == 1
    &&& r.messages@[0].messages@[0].contents@ == text@
    &&& r.messages@[0].messages@[0].style == MessageStyle::Info
}

/// The reaction ends menu mode and redraws one part of the player, and
/// opens no menu, removes no tile and does not end the game.
pub open spec fn closes_with_body(r: Reaction, part: PlayerPart, sprite: &str) -> bool {
    &&& r.close_menu
    &&& r.body_changes@.len() == 1
    &&& r.body_changes@[0].part == part
    &&& r.body_changes@[0].sprite@ == sprite@
    &&& r.menu is None
    &&& r.removed_tiles@.len() == 0
    &&& !r.end
}

/// Talents after a gain in people skills.
pub open spec fn more_people(t: Talents, n: int) -> Talents {
    Talents { people: (t.people + n) as u32, ..t }
}

fn reaction(
    text: &str,
    close_menu: bool,
    body: Option<(PlayerPart, &str)>,
) -> (r: Reaction)
    ensures
        tells(r, text),
        r.close_menu == close_menu,
        r.menu is None,
        r.removed_tiles@.len() == 0,
        !r.end,
        match body {
            Some(b) => r.body_changes@.len() == 1 && r.body_changes@[0].part == b.0
                && r.body_changes@[0].sprite@ == b.1@,
            None => r.body_changes@.len() == 0,
        },
{
    let mut r = Reaction::say(text);
    r.close_menu = close_menu;
    match body {
        Some((part, sprite)) => {
            r.body_changes.push(BodyChangeEvent::new(part, sprite));
        },
        None => {},
    }
    r
}

/// A menu of the given code and title with one choice.
fn one_choice_menu(code: &str, title: &str, item: &str, text: &str) -> (r: Menu)
    ensures
        r.code@ == code@,
        r.title@ == title@,
        r.lines() == seq![(item@, text@)],
        r.plain(),
{
    let mut items: Vec<MenuItem> = Vec::new();
    items.push(MenuItem::new(item, text));
    let m = Menu::new(code, title, items);
    assert(m.lines() =~= seq![(item@, text@)]);
    m
}

// ---- the mirror and the fountain ----

/// Looking into a reflecting affordance: with scissors in hand the player
/// is offered a hair cut (menu `code`), else a remark depending on whether
/// the hair is already short.
pub open spec fn reflection_reacts(
    a: Story,
    b: Story,
    r: Reaction,
    code: &str,
    title: &str,
    offer: &str,
    short: &str,
    long: &str,
) -> bool {
    &&& unchanged(a, b)
    &&& if a.inventory.holds(SCISSORS@) {
        only_asks(r, code, title, seq![(CUT@, offer@)])
    } else if a.has(QUEST_MAIN, HAIR_CUT) {
        only_says(r, short)
    } else {
        only_says(r, long)
    }
}

pub open spec fn mirror_reacts(a: Story, b: Story, r: Reaction) -> bool {
    reflection_reacts(
        a,
        b,
        r,
        MIRROR,
        "Mirror",
        "Cut your hair with the scissors?",
        "Your look at yourself and your short hair...",
        "You look at yourself in the mirror",
    )
}

pub open spec fn fountain_reacts(a: Story, b: Story, r: Reaction) -> bool {
    reflection_reacts(
        a,
        b,
        r,
        FOUNTAIN,
        "Fountain",
        "Cut your hair with the scissors, using the fountain as a mirror?",
        "Your reflection in the water looks like a grinning boy...",
        "The water is refreshing.",
    )
}

pub fn affordance_mirror(story: &Story) -> (r: Reaction)
    ensures
        mirror_reacts(*story, *story, r),
{
    if story.inventory.contains_item(SCISSORS) {
        Reaction::ask(one_choice_menu(MIRROR, "Mirror", CUT, "Cut your hair with the scissors?"))
    } else if story.flags.has_flag(QUEST_MAIN, HAIR_CUT) {
        Reaction::say("Your look at yourself and your short hair...")
    } else {
        Reaction::say("You look at yourself in the mirror")
    }
}

pub fn affordance_fountain(story: &Story) -> (r: Reaction)
    ensures
        fountain_reacts(*story, *story, r),
{
    if story.inventory.contains_item(SCISSORS) {
        Reaction::ask(
            one_choice_menu(
                FOUNTAIN,
                "Fountain",
                CUT,
                "Cut your hair with the scissors, using the fountain as a mirror?",
            ),
        )
    } else if story.flags.has_flag(QUEST_MAIN, HAIR_CUT) {
        Reaction::say("Your reflection in the water looks like a grinning boy...")
    } else {
        Reaction::say("The water is refreshing.")
    }
}

/// Cutting the hair at the mirror: the scissors are used up, people skills
/// gain two, the hair is cut short, the journal says so.
pub open spec fn mirror_cut_reacts(a: Story, b: Story, r: Reaction) -> bool {
    &&& dropped(a, b, SCISSORS)
    &&& b.talents == more_people(a.talents, 2)
    &&& b.flags.flag_set() == a.flags.flag_set().insert((QUEST_MAIN@, HAIR_CUT@))
    &&& b.spells.spells@ == a.spells.spells@
    &&& wrote(a, b, QUEST_MAIN, "I cut my hair short using the bedroom mirror.")
    &&& tells(r, "You carefully cut your hair short (People +2).")
    &&& closes_with_body(r, PlayerPart::Hair, SHORT_HAIR)
}

/// Cutting the hair at the fountain: as at the mirror, but a worse job:
/// people skills gain one and the cut is marked as self-made.
pub open spec fn fountain_cut_reacts(a: Story, b: Story, r: Reaction) -> bool {
    &&& dropped(a, b, SCISSORS)
    &&& b.talents == more_people(a.talents, 1)
    &&& b.flags.flag_set() == a.flags.flag_set().insert((QUEST_MAIN@, HAIR_CUT@)).insert(
        (QUEST_MAIN@, HAIR_CUT_SELF@),
    )
    &&& b.spells.spells@ == a.spells.spells@
    &&& wrote(
        a,
        b,
        QUEST_MAIN,
        "I cut my hair short using the fountain as a mirror. Not sure I did a great job.",
    )
    &&& tells(r, "You feel you've made a mess, but you cut your hair short (People +1).")
    &&& closes_with_body(r, PlayerPart::Hair, SHORT_HAIR)
}

pub fn action_mirror(story: &mut Story) -> (r: Reaction)
    requires
        old(story).well_formed(),
        old(story).talents.people <= u32::MAX - 2,
    ensures
        final(story).well_formed(),
        mirror_cut_reacts(*old(story), *final(story), r),
{
    story.inventory.remove_item(SCISSORS);
    story.talents.people = story.talents.people + 2;
    story.journal.add_entry(QUEST_MAIN, "I cut my hair short using the bedroom mirror.");
    story.flags.set_flag(QUEST_MAIN, HAIR_CUT);
    let r = reaction(
        "You carefully cut your hair short (People +2).",
        true,
        Some((PlayerPart::Hair, SHORT_HAIR)),
    );
    assert(story.journal.entries@.drop_last() =~= old(story).journal.entries@);
    r
}

pub fn action_fountain(story: &mut Story) -> (r: Reaction)
    requires
        old(story).well_formed(),
        old(story).talents.people <= u32::MAX - 1,
    ensures
        final(story).well_formed(),
        fountain_cut_reacts(*old(story), *final(story), r),
{
    story.inventory.remove_item(SCISSORS);
    story.talents.people = story.talents.people + 1;
    story.journal.add_entry(
        QUEST_MAIN,
        "I cut my hair short using the fountain as a mirror. Not sure I did a great job.",
    );
    story.flags.set_flag(QUEST_MAIN, HAIR_CUT);
    story.flags.set_flag(QUEST_MAIN, HAIR_CUT_SELF);
    let r = reaction(
        "You feel you've made a mess, but you cut your hair short (People +1).",
        true,
        Some((PlayerPart::Hair, SHORT_HAIR)),
    );
    assert(story.journal.entries@.drop_last() =~= old(story).journal.entries@);
    r
}

// ---- Peleus ----

/// Peleus forbids the journey at first, and allows it once the hair is cut.
pub open spec fn peleus_reacts(a: Story, b: Story, r: Reaction) -> bool {
    &&& b.inventory.items@ == a.inventory.items@
    &&& b.talents == a.talents
    &&& b.spells.spells@ == a.spells.spells@
    &&& if a.has(QUEST_MAIN, HAIR_CUT) {
        if a.has(QUEST_MAIN, ALLOWED_TO_LEAVE) {
            unchanged(a, b) && only_says(r, "You haven't left yet?")
        } else {
            &&& b.flags.flag_set() == a.flags.flag_set().insert((QUEST_MAIN@, ALLOWED_TO_LEAVE@))
            &&& wrote(a, b, QUEST_MAIN, "Peleus has allowed me to leave on my quest for Father!")
            &&& only_says(
                r,
                "I see you're determined enough get rid of the hair you were so proud of.\nAllright, I will give orders that you're allowed to leave.",
            )
        }
    } else if a.has(QUEST_MAIN, PELEUS_FORBIDDEN) {
        unchanged(a, b) && only_says(
            r,
            "Once again, I am NOT going to let a girl go chasing a ghost.\nYour duty is to stay here and marry to strenghten my kingdom.\nDon't insist!",
        )
    } else {
        &&& b.flags.flag_set() == a.flags.flag_set().insert((QUEST_MAIN@, PELEUS_FORBIDDEN@))
        &&& wrote(a, b, QUEST_MAIN, "Peleus forbids me to leave. He'll see!")
        &&& only_says(
            r,
            "I am NOT going to let a girl go chasing a ghost.\nYour duty is to stay here and marry to strenghten my kingdom.",
        )
    }
}

pub fn character_peleus(story: &mut Story) -> (r: Reaction)
    requires
        old(story).well_formed(),
    ensures
        final(story).well_formed(),
        peleus_reacts(*old(story), *final(story), r),
{
    if story.flags.has_flag(QUEST_MAIN, HAIR_CUT) {
        if story.flags.has_flag(QUEST_MAIN, ALLOWED_TO_LEAVE) {
            Reaction::say("You haven't left yet?")
        } else {
            story.flags.set_flag(QUEST_MAIN, ALLOWED_TO_LEAVE);
            story.journal.add_entry(
                QUEST_MAIN,
                "Peleus has allowed me to leave on my quest for Father!",
            );
            assert(story.journal.entries@.drop_last() =~= old(story).journal.entries@);
            Reaction::say(
                "I see you're determined enough get rid of the hair you were so proud of.\nAllright, I will give orders that you're allowed to leave.",
            )
        }
    } else if story.flags.has_flag(QUEST_MAIN, PELEUS_FORBIDDEN) {
        Reaction::say(
            "Once again, I am NOT going to let a girl go chasing a ghost.\nYour duty is to stay here and marry to strenghten my kingdom.\nDon't insist!",
        )
    } else {
        story.flags.set_flag(QUEST_MAIN, PELEUS_FORBIDDEN);
        story.journal.add_entry(QUEST_MAIN, "Peleus forbids me to leave. He'll see!");
        assert(story.journal.entries@.drop_last() =~= old(story).journal.entries@);
        Reaction::say(
            "I am NOT going to let a girl go chasing a ghost.\nYour duty is to stay here and marry to strenghten my kingdom.",
        )
    }
}

// ---- Nerita ----

/// Nerita offers to cut the hair when the player has scissors, and to fix
/// a self-made cut.
pub open spec fn nerita_reacts(a: Story, b: Story, r: Reaction) -> bool {
    &&& unchanged(a, b)
    &&& if a.inventory.holds(SCISSORS@) {
        only_asks(
            r,
            NERITA,
            "Nerita, your maid",
            seq![(CUT@, "You really want me to cut your hair with these scissors?"@)],
        )
    } else if a.has(QUEST_MAIN, HAIR_CUT) {
        if a.has(QUEST_MAIN, HAIR_CUT_SELF) {
            only_asks(
                r,
                NERITA,
                "Nerita, your maid",
                seq![(FIX@, "What have you done to your hair? Shall I fix it for you?"@)],
            )
        } else {
            only_says(r, "You look like a boy now! A pretty boy!")
        }
    } else {
        only_says(r, "You'll always be a little girl to me. Let me comb your hair!")
    }
}

pub fn character_nerita(story: &Story) -> (r: Reaction)
    ensures
        nerita_reacts(*story, *story, r),
{
    if story.inventory.contains_item(SCISSORS) {
        Reaction::ask(
            one_choice_menu(
                NERITA,
                "Nerita, your maid",
                CUT,
                "You really want me to cut your hair with these scissors?",
            ),
        )
    } else if story.flags.has_flag(QUEST_MAIN, HAIR_CUT) {
        if story.flags.has_flag(QUEST_MAIN, HAIR_CUT_SELF) {
            Reaction::ask(
                one_choice_menu(
                    NERITA,
                    "Nerita, your maid",
                    FIX,
                    "What have you done to your hair? Shall I fix it for you?",
                ),
            )
        } else {
            Reaction::say("You look like a boy now! A pretty boy!")
        }
    } else {
        Reaction::say("You'll always be a little girl to me. Let me comb your hair!")
    }
}

/// Nerita cuts the hair (as the mirror does, in other words) or fixes a
/// self-made cut (people skills gain one, the cut is no longer self-made).
pub open spec fn nerita_action_reacts(a: Story, b: Story, item: Seq<char>, r: Reaction) -> bool {
    if item == CUT@ {
        &&& dropped(a, b, SCISSORS)
        &&& b.talents == more_people(a.talents, 2)
        &&& b.flags.flag_set() == a.flags.flag_set().insert((QUEST_MAIN@, HAIR_CUT@))
        &&& b.spells.spells@ == a.spells.spells@
        &&& wrote(
            a,
            b,
            QUEST_MAIN,
            "Nerita cut my hair so I don't look too much like a girl now. I think it suits me.",
        )
        &&& tells(r, "Really a shame to cut such beautiful hair (People +2)!")
        &&& closes_with_body(r, PlayerPart::Hair, SHORT_HAIR)
    } else if item == FIX@ {
        &&& b.inventory.items@ == a.inventory.items@
        &&& b.talents == more_people(a.talents, 1)
        &&& b.flags.flag_set() == a.flags.flag_set().remove((QUEST_MAIN@, HAIR_CUT_SELF@))
        &&& b.spells.spells@ == a.spells.spells@
        &&& wrote(
            a,
            b,
            QUEST_MAIN,
            "Nerita fixed my hair so it doesn't look as bad as it used to.",
        )
        &&& tells(r, "Now, you look a bit better now (People +1)!")
        &&& r.close_menu && r.body_changes@.len() == 0 && r.menu is None
        &&& r.removed_tiles@.len() == 0 && !r.end
    } else {
        unchanged(a, b) && is_silent(r)
    }
}

pub fn action_nerita(story: &mut Story, item: &str) -> (r: Reaction)
    requires
        old(story).well_formed(),
        item@ == CUT@ ==> old(story).talents.people <= u32::MAX - 2,
        item@ == FIX@ ==> old(story).talents.people <= u32::MAX - 1,
    ensures
        final(story).well_formed(),
        nerita_action_reacts(*old(story), *final(story), item@, r),
{
    if same_text(item, CUT) {
        story.inventory.remove_item(SCISSORS);
        story.talents.people = story.talents.people + 2;
        story.journal.add_entry(
            QUEST_MAIN,
            "Nerita cut my hair so I don't look too much like a girl now. I think it suits me.",
        );
        story.flags.set_flag(QUEST_MAIN, HAIR_CUT);
        assert(story.journal.entries@.drop_last() =~= old(story).journal.entries@);
        reaction(
            "Really a shame to cut such beautiful hair (People +2)!",
            true,
            Some((PlayerPart::Hair, SHORT_HAIR)),
        )
    } else if same_text(item, FIX) {
        story.talents.people = story.talents.people + 1;
        story.journal.add_entry(
            QUEST_MAIN,
            "Nerita fixed my hair so it doesn't look as bad as it used to.",
        );
        story.flags.unset_flag(QUEST_MAIN, HAIR_CUT_SELF);
        assert(story.journal.entries@.drop_last() =~= old(story).journal.entries@);
        reaction("Now, you look a bit better now (People +1)!", true, None)
    } else {
        Reaction::none()
    }
}

// ---- Cretien, Scopas and the sword ----

/// Cretien turns a scroll into a spell.
pub open spec fn cretien_reacts(a: Story, b: Story, r: Reaction) -> bool {
    &&& b.talents == a.talents
    &&& b.flags.flag_set() == a.flags.flag_set()
    &&& if a.inventory.holds(SCROLL@) {
        &&& dropped(a, b, SCROLL)
        &&& exists|k: int|
            crate::quest::insertion_point(
                crate::quest::spell_descriptions(a.spells.spells@),
                "Create the illusion of a cat!"@,
                k,
            ) && b.spells.spells@.len() == a.spells.spells@.len() + 1 && b.spells.spells@[k].name@
                == CAT@ && b.spells.spells@.remove(k) == a.spells.spells@
        &&& wrote(a, b, QUEST_MAIN, "Cretien taught me a little spell, not sure if it'll be useful...")
        &&& only_says(
            r,
            "Ooohh, this scroll is a magic spell! Let me see if I can teach you the incantation (Spell gained)...",
        )
    } else {
        unchanged(a, b) && only_says(r, "I'm always on the lookout for new knowledge!")
    }
}

pub fn character_cretien(story: &mut Story) -> (r: Reaction)
    requires
        old(story).well_formed(),
    ensures
        final(story).well_formed(),
        cretien_reacts(*old(story), *final(story), r),
{
    if story.inventory.contains_item(SCROLL) {
        story.inventory.remove_item(SCROLL);
        let spell = Spell::new(CAT, "Create the illusion of a cat!");
        let ghost sp = spell;
        story.spells.add_spell(spell);
        story.journal.add_entry(
            QUEST_MAIN,
            "Cretien taught me a little spell, not sure if it'll be useful...",
        );
        proof {
            let k = choose|k: int|
                crate::quest::insertion_point(
                    crate::quest::spell_descriptions(old(story).spells.spells@),
                    sp.description@,
                    k,
                ) && story.spells.spells@ == old(story).spells.spells@.insert(k, sp);
            assert(story.spells.spells@.remove(k) =~= old(story).spells.spells@);
            assert(story.spells.spells@[k] == sp);
            assert(crate::quest::insertion_point(
                crate::quest::spell_descriptions(old(story).spells.spells@),
                "Create the illusion of a cat!"@,
                k,
            ) && story.spells.spells@.len() == old(story).spells.spells@.len() + 1
                && story.spells.spells@[k].name@ == CAT@ && story.spells.spells@.remove(k)
                == old(story).spells.spells@);
        }
        assert(story.journal.entries@.drop_last() =~= old(story).journal.entries@);
        Reaction::say(
            "Ooohh, this scroll is a magic spell! Let me see if I can teach you the incantation (Spell gained)...",
        )
    } else {
        Reaction::say("I'm always on the lookout for new knowledge!")
    }
}

/// Scopas trains a player who has a weapon, once.
pub open spec fn scopas_reacts(a: Story, b: Story, r: Reaction) -> bool {
    &&& b.inventory.items@ == a.inventory.items@
    &&& b.spells.spells@ == a.spells.spells@
    &&& if a.talents.weapons > 0 {
        if a.has(QUEST_MAIN, TRAINED_BY_SCOPAS) {
            unchanged(a, b) && only_says(r, "Don't tire yourself out!")
        } else {
            &&& b.flags.flag_set() == a.flags.flag_set().insert(
                (QUEST_MAIN@, TRAINED_BY_SCOPAS@),
            )
            &&& b.talents == Talents { weapons: (a.talents.weapons + 1) as u32, ..a.talents }
            &&& wrote(a, b, QUEST_MAIN, "Scopas gave me a hard fighting lesson.")
            &&& only_says(
                r,
                "You're getting better with a weapon, but you still need to practise (Weapons +1)!",
            )
        }
    } else {
        unchanged(a, b) && only_says(r, "Get a weapon and come back to me to train.")
    }
}

pub fn character_scopas(story: &mut Story) -> (r: Reaction)
    requires
        old(story).well_formed(),
        old(story).talents.weapons < u32::MAX,
    ensures
        final(story).well_formed(),
        scopas_reacts(*old(story), *final(story), r),
{
    if story.talents.weapons > 0 {
        if story.flags.has_flag(QUEST_MAIN, TRAINED_BY_SCOPAS) {
            Reaction::say("Don't tire yourself out!")
        } else {
            story.flags.set_flag(QUEST_MAIN, TRAINED_BY_SCOPAS);
            story.journal.add_entry(QUEST_MAIN, "Scopas gave me a hard fighting lesson.");
            story.talents.weapons = story.talents.weapons + 1;
            assert(story.journal.entries@.drop_last() =~= old(story).journal.entries@);
            Reaction::say(
                "You're getting better with a weapon, but you still need to practise (Weapons +1)!",
            )
        }
    } else {
        Reaction::say("Get a weapon and come back to me to train.")
    }
}

/// Picking up the sword arms the player.
pub open spec fn sword_reacts(a: Story, b: Story, r: Reaction) -> bool {
    &&& b.inventory.items@ == a.inventory.items@
    &&& b.spells.spells@ == a.spells.spells@
    &&& b.flags.flag_set() == a.flags.flag_set()
    &&& b.journal.entries@ == a.journal.entries@
    &&& b.journal.quests@ == a.journal.quests@
    &&& b.talents == Talents { weapons: (a.talents.weapons + 1) as u32, ..a.talents }
    &&& tells(r, "You now have a weapon (Weapons +1)!")
    &&& r.body_changes@.len() == 1
    &&& r.body_changes@[0].part == PlayerPart::RightHand
    &&& r.body_changes@[0].sprite@ == SHORT_SWORD@
    &&& !r.close_menu && r.menu is None && r.removed_tiles@.len() == 0 && !r.end
}

pub fn consume_sword(story: &mut Story) -> (r: Reaction)
    requires
        old(story).talents.weapons < u32::MAX,
    ensures
        sword_reacts(*old(story), *final(story), r),
        final(story).well_formed() == old(story).well_formed(),
{
    story.talents.weapons = story.talents.weapons + 1;
    reaction("You now have a weapon (Weapons +1)!", false, Some((PlayerPart::RightHand, SHORT_SWORD)))
}

// ---- Cherise and the rats ----

/// Cherise gives the rats quest, and food once the rats are gone.
pub open spec fn cherise_reacts(a: Story, b: Story, r: Reaction) -> bool {
    &&& b.inventory.items@ == a.inventory.items@
    &&& b.talents == a.talents
    &&& b.spells.spells@ == a.spells.spells@
    &&& if a.has(QUEST_RATS, QUEST_STARTED) {
        if a.has(QUEST_RATS, QUEST_COMPLETED) {
            unchanged(a, b) && only_says(r, "Thanks again for killing these rats!")
        } else if a.has(QUEST_RATS, RATS_GONE) {
            &&& b.flags.flag_set() == a.flags.flag_set().insert(
                (QUEST_RATS@, QUEST_COMPLETED@),
            ).insert((QUEST_MAIN@, OBTAINED_FOOD@))
            &&& wrote(
                a,
                b,
                QUEST_MAIN,
                "Cherise gave me some food to thank me for getting rid of the rats in the cellar",
            )
            &&& only_says(r, "You got rid of the rats? Great! Here's some food for you...")
        } else {
            unchanged(a, b) && only_says(r, "These rats are driving me crazy!")
        }
    } else {
        &&& b.flags.flag_set() == a.flags.flag_set().insert((QUEST_RATS@, QUEST_STARTED@))
        &&& exists|k: int|
            0 <= k < b.journal.quests@.len() && b.journal.quests@[k].code@ == QUEST_RATS@
        &&& b.journal.entries@.len() == a.journal.entries@.len() + 1
        &&& b.journal.entries@.drop_last() == a.journal.entries@
        &&& b.journal.entries@.last().quest@ == QUEST_RATS@
        &&& b.journal.entries@.last().text@
            == "Cherise would like somebody to kill the rats in the cellar."@
        &&& only_says(
            r,
            "Don't tell your brother, but there are rats in the cellar. I can't get rid of them, I wish somebody would kill them all!",
        )
    }
}

pub fn character_cherise(story: &mut Story) -> (r: Reaction)
    requires
        old(story).well_formed(),
    ensures
        final(story).well_formed(),
        cherise_reacts(*old(story), *final(story), r),
{
    if story.flags.has_flag(QUEST_RATS, QUEST_STARTED) {
        if story.flags.has_flag(QUEST_RATS, QUEST_COMPLETED) {
            Reaction::say("Thanks again for killing these rats!")
        } else if story.flags.has_flag(QUEST_RATS, RATS_GONE) {
            story.flags.set_flag(QUEST_RATS, QUEST_COMPLETED);
            story.journal.add_entry(
                QUEST_MAIN,
                "Cherise gave me some food to thank me for getting rid of the rats in the cellar",
            );
            story.flags.set_flag(QUEST_MAIN, OBTAINED_FOOD);
            assert(story.journal.entries@.drop_last() =~= old(story).journal.entries@);
            Reaction::say("You got rid of the rats? Great! Here's some food for you...")
        } else {
            Reaction::say("These rats are driving me crazy!")
        }
    } else {
        story.flags.set_flag(QUEST_RATS, QUEST_STARTED);
        let q = Quest::new(QUEST_RATS, "Get rid of the rats in the cellar");
        let ghost qv = q;
        let ghost before = story.journal.quests@;
        story.journal.add_quest(q);
        proof {
            if exists|k: int|
                crate::quest::first_named(before.map_values(|q: Quest| q.code@), qv.code@, k)
                    && story.journal.quests@ == before.update(k, qv) {
                let k = choose|k: int|
                    crate::quest::first_named(before.map_values(|q: Quest| q.code@), qv.code@, k)
                        && story.journal.quests@ == before.update(k, qv);
                assert(story.journal.quests@[k] == qv);
            } else {
                assert(story.journal.quests@[before.len() as int] == qv);
            }
        }
        story.journal.add_entry(
            QUEST_RATS,
            "Cherise would like somebody to kill the rats in the cellar.",
        );
        assert(story.journal.entries@.drop_last() =~= old(story).journal.entries@);
        Reaction::say(
            "Don't tell your brother, but there are rats in the cellar. I can't get rid of them, I wish somebody would kill them all!",
        )
    }
}

/// Once the rats quest is on, the rats can be fought with enough weapon
/// skill, or scared with the cat spell; a lone option comes with a hint
/// that there may be more.
pub open spec fn rats_reacts(a: Story, b: Story, r: Reaction) -> bool {
    &&& unchanged(a, b)
    &&& if a.has(QUEST_RATS, QUEST_STARTED) && (a.talents.weapons > 1 || a.spells.knows(CAT@)) {
        let fight: Seq<(Seq<char>, Seq<char>)> = if a.talents.weapons > 1 {
            seq![(FIGHT@, "Kill the rats!"@)]
        } else {
            seq![]
        };
        let scare: Seq<(Seq<char>, Seq<char>)> = if a.spells.knows(CAT@) {
            seq![(SCARE@, "Create the illusion of a cat"@)]
        } else {
            seq![]
        };
        let hint: Seq<(Seq<char>, Seq<char>)> = if fight.len() + scare.len() < 2 {
            seq![(""@, "(More options could be available)"@)]
        } else {
            seq![]
        };
        only_asks(r, RATS, "Big cellar rats", fight + scare + hint)
    } else {
        only_says(r, "The rats are not afraid of you.")
    }
}

pub fn character_rats(story: &Story) -> (r: Reaction)
    ensures
        rats_reacts(*story, *story, r),
{
    if story.flags.has_flag(QUEST_RATS, QUEST_STARTED) {
        let ghost fight: Seq<(Seq<char>, Seq<char>)> = if story.talents.weapons > 1 {
            seq![(FIGHT@, "Kill the rats!"@)]
        } else {
            seq![]
        };
        let ghost scare: Seq<(Seq<char>, Seq<char>)> = if story.spells.knows(CAT@) {
            seq![(SCARE@, "Create the illusion of a cat"@)]
        } else {
            seq![]
        };
        let ghost hint: Seq<(Seq<char>, Seq<char>)> = if fight.len() + scare.len() < 2 {
            seq![(""@, "(More options could be available)"@)]
        } else {
            seq![]
        };
        let mut mis: Vec<MenuItem> = Vec::new();
        if story.talents.weapons > 1 {
            mis.push(MenuItem::new(FIGHT, "Kill the rats!"));
        }
        assert(mis@.map_values(|i: MenuItem| (i.code@, i.text@)) =~= fight);
        if story.spells.contains_spell(CAT) {
            mis.push(MenuItem::new(SCARE, "Create the illusion of a cat"));
        }
        assert(mis@.map_values(|i: MenuItem| (i.code@, i.text@)) =~= fight + scare);
        assert(forall|i: int| 0 <= i < mis@.len() ==> (#[trigger] mis@[i]).extra is None);
        if mis.len() == 0 {
            Reaction::say("The rats are not afraid of you.")
        } else {
            if mis.len() < 2 {
                mis.push(MenuItem::new("", "(More options could be available)"));
            }
            assert(mis@.map_values(|i: MenuItem| (i.code@, i.text@)) =~= fight + scare + hint);
            assert(forall|i: int| 0 <= i < mis@.len() ==> (#[trigger] mis@[i]).extra is None);
            let m = Menu::new(RATS, "Big cellar rats", mis);
            Reaction::ask(m)
        }
    } else {
        Reaction::say("The rats are not afraid of you.")
    }
}

/// `s` without the characters called `name`.
pub open spec fn without_named(s: Seq<Character>, name: Seq<char>) -> Seq<Character>
    decreases s.len(),
{
    if s.len() == 0 {
        s
    } else {
        let r = without_named(s.drop_first(), name);
        if s[0].name@ == name {
            r
        } else {
            seq![s[0]] + r
        }
    }
}

impl Area {
    /// Takes every character called `name` off the level.
    pub fn remove_characters_named(&mut self, name: &str)
        ensures
            final(self).characters@ == without_named(old(self).characters@, name@),
            final(self).rooms@ == old(self).rooms@,
            final(self).affordances@ == old(self).affordances@,
            final(self).items@ == old(self).items@,
            final(self).start == old(self).start,
    {
        let ghost before = self.characters@;
        let mut i: usize = self.characters.len();
        assert(self.characters@ =~= before.subrange(0, i as int) + without_named(
            before.subrange(i as int, before.len() as int),
            name@,
        ));
        while i > 0
            invariant
                i <= before.len(),
                before == old(self).characters@,
                self.rooms@ == old(self).rooms@,
                self.affordances@ == old(self).affordances@,
                self.items@ == old(self).items@,
                self.start == old(self).start,
                self.characters@ == before.subrange(0, i as int) + without_named(
                    before.subrange(i as int, before.len() as int),
                    name@,
                ),
            decreases i,
        {
            i = i - 1;
            let ghost tail = before.subrange(i as int, before.len() as int);
            assert(tail.drop_first() =~= before.subrange(i + 1, before.len() as int));
            assert(self.characters@[i as int] == before[i as int]);
            if same_text(self.characters[i].name.as_str(), name) {
                let _gone = self.characters.remove(i);
            }
            assert(self.characters@ =~= before.subrange(0, i as int) + without_named(tail, name@));
        }
        assert(before.subrange(0, before.len() as int) =~= before);
    }
}

/// Fighting or scaring the rats away ends them: they leave the level.
pub open spec fn rats_action_reacts(
    a: Story,
    b: Story,
    area_a: Area,
    area_b: Area,
    item: Seq<char>,
    r: Reaction,
) -> bool {
    &&& b.inventory.items@ == a.inventory.items@
    &&& b.spells.spells@ == a.spells.spells@
    &&& b.journal.entries@ == a.journal.entries@
    &&& b.journal.quests@ == a.journal.quests@
    &&& if item == FIGHT@ || item == SCARE@ {
        &&& b.talents == if item == SCARE@ {
            Talents { animals: (a.talents.animals + 1) as u32, ..a.talents }
        } else {
            a.talents
        }
        &&& b.flags.flag_set() == a.flags.flag_set().insert((QUEST_RATS@, RATS_GONE@))
        &&& area_b.characters@ == without_named(area_a.characters@, RATS@)
        &&& tells(
            r,
            if item == FIGHT@ {
                "You massacre the rats."
            } else {
                "You pronounce the incantation, a big cat appears, scaring the rats away (Animals+1)."
            },
        )
        &&& r.close_menu && r.menu is None && r.body_changes@.len() == 0
        &&& r.removed_tiles@.len() == 0 && !r.end
    } else {
        unchanged(a, b) && area_b.characters@ == area_a.characters@ && is_silent(r)
    }
}

pub fn action_rats(story: &mut Story, area: &mut Area, item: &str) -> (r: Reaction)
    requires
        item@ == SCARE@ ==> old(story).talents.animals < u32::MAX,
    ensures
        final(story).well_formed() == old(story).well_formed(),
        rats_action_reacts(*old(story), *final(story), *old(area), *final(area), item@, r),
        final(area).rooms@ == old(area).rooms@,
        final(area).affordances@ == old(area).affordances@,
        final(area).items@ == old(area).items@,
        final(area).start == old(area).start,
{
    proof {
        reveal_strlit("fight");
        reveal_strlit("scare");
        assert(FIGHT@[0] != SCARE@[0]);
        assert(FIGHT@ != SCARE@);
    }
    let mut r: Reaction;
    if same_text(item, FIGHT) {
        r = reaction("You massacre the rats.", true, None);
    } else if same_text(item, SCARE) {
        story.talents.animals = story.talents.animals + 1;
        r = reaction(
            "You pronounce the incantation, a big cat appears, scaring the rats away (Animals+1).",
            true,
            None,
        );
    } else {
        return Reaction::none();
    }
    story.flags.set_flag(QUEST_RATS, RATS_GONE);
    area.remove_characters_named(RATS);
    r
}

// ---- Theon and the way out ----

/// `aff` is the single cell `(x, 29)` of the way out, called `name`.
pub open spec fn is_exit(aff: Affordance, name: &str, x: i32) -> bool {
    &&& aff.name@ == name@
    &&& aff.description@ == "The outside world"@
    &&& aff.dimension.topleft == SpritePosition { x: x, y: 29 }
    &&& aff.dimension.bottomright == aff.dimension.topleft
}

/// Theon opens the palace door once Peleus has allowed the journey: its
/// tiles go and the cells beyond become the way out.
pub open spec fn theon_reacts(a: Story, b: Story, area_a: Area, area_b: Area, r: Reaction) -> bool {
    &&& b.inventory.items@ == a.inventory.items@
    &&& b.talents == a.talents
    &&& b.spells.spells@ == a.spells.spells@
    &&& if a.has(QUEST_MAIN, ALLOWED_TO_LEAVE) && !a.has(QUEST_MAIN, OPENED_EXIT) {
        &&& b.flags.flag_set() == a.flags.flag_set().insert((QUEST_MAIN@, OPENED_EXIT@))
        &&& wrote(a, b, QUEST_MAIN, "I can now go out of the palace")
        &&& tells(r, "Peleus told us we could let you go. Careful out there, my lady.")
        &&& r.removed_tiles@ == seq![
            RemoveTileEvent { position: SpritePosition { x: 20, y: 29 }, layer: 1 },
            RemoveTileEvent { position: SpritePosition { x: 21, y: 29 }, layer: 1 },
            RemoveTileEvent { position: SpritePosition { x: 22, y: 29 }, layer: 1 },
        ]
        &&& area_b.affordances@.len() == area_a.affordances@.len() + 3
        &&& area_b.affordances@.subrange(0, area_a.affordances@.len() as int)
            == area_a.affordances@
        &&& is_exit(area_b.affordances@[area_a.affordances@.len() as int], "outside_20", 20)
        &&& is_exit(area_b.affordances@[area_a.affordances@.len() + 1int], "outside_21", 21)
        &&& is_exit(area_b.affordances@[area_a.affordances@.len() + 2int], "outside_22", 22)
        &&& r.menu is None && !r.close_menu && r.body_changes@.len() == 0 && !r.end
    } else {
        &&& unchanged(a, b)
        &&& area_b.affordances@ == area_a.affordances@
        &&& only_says(
            r,
            if a.has(QUEST_MAIN, ALLOWED_TO_LEAVE) {
                "Good day, my lady."
            } else {
                " You are forbidden to go outside. I'm sorry my lady, your brother's orders."
            },
        )
    }
}

pub fn character_theon(story: &mut Story, area: &mut Area) -> (r: Reaction)
    ensures
        final(story).well_formed() == old(story).well_formed(),
        theon_reacts(*old(story), *final(story), *old(area), *final(area), r),
        final(area).rooms@ == old(area).rooms@,
        final(area).characters@ == old(area).characters@,
        final(area).items@ == old(area).items@,
        final(area).start == old(area).start,
{
    if story.flags.has_flag(QUEST_MAIN, ALLOWED_TO_LEAVE) {
        if story.flags.has_flag(QUEST_MAIN, OPENED_EXIT) {
            Reaction::say("Good day, my lady.")
        } else {
            story.flags.set_flag(QUEST_MAIN, OPENED_EXIT);
            story.journal.add_entry(QUEST_MAIN, "I can now go out of the palace");
            assert(story.journal.entries@.drop_last() =~= old(story).journal.entries@);
            let mut r = Reaction::say(
                "Peleus told us we could let you go. Careful out there, my lady.",
            );
            let mut x: i32 = 20;
            while x <= 22
                invariant
                    20 <= x <= 23,
                    tells(r, "Peleus told us we could let you go. Careful out there, my lady."),
                    r.menu is None && !r.close_menu && r.body_changes@.len() == 0 && !r.end,
                    r.removed_tiles@.len() == x - 20,
                    forall|k: int|
                        0 <= k < x - 20 ==> #[trigger] r.removed_tiles@[k] == (RemoveTileEvent {
                            position: SpritePosition { x: (20 + k) as i32, y: 29 },
                            layer: 1,
                        }),
                decreases 23 - x,
            {
                r.removed_tiles.push(RemoveTileEvent::new(SpritePosition::new(x, 29), 1));
                x = x + 1;
            }
            assert(r.removed_tiles@ =~= seq![
                RemoveTileEvent { position: SpritePosition { x: 20, y: 29 }, layer: 1 },
                RemoveTileEvent { position: SpritePosition { x: 21, y: 29 }, layer: 1 },
                RemoveTileEvent { position: SpritePosition { x: 22, y: 29 }, layer: 1 },
            ]);
            let n0 = area.affordances.len();
            area.add_affordance(Affordance::new("outside_20", "The outside world", 20, 29));
            area.add_affordance(Affordance::new("outside_21", "The outside world", 21, 29));
            area.add_affordance(Affordance::new("outside_22", "The outside world", 22, 29));
            assert(area.affordances@.subrange(0, n0 as int) =~= old(area).affordances@);
            r
        }
    } else {
        Reaction::say(" You are forbidden to go outside. I'm sorry my lady, your brother's orders.")
    }
}

/// The way out: the game is won with food and a weapon.
pub open spec fn outside_reacts(a: Story, b: Story, r: Reaction) -> bool {
    &&& unchanged(a, b)
    &&& if !a.has(QUEST_MAIN, OBTAINED_FOOD) {
        only_says(r, "You should get food before venturing outside")
    } else if a.talents.weapons < 1 {
        only_says(r, "You should get a weapon, the outside world is not safe")
    } else {
        &&& r.end
        &&& r.messages@.len() == 1
        &&& r.messages@[0].messages@.len() == 2
        &&& r.messages@[0].messages@[0].contents@ == "Success!"@
        &&& r.messages@[0].messages@[0].style == MessageStyle::Title
        &&& r.messages@[0].messages@[1].contents@
            == "You pass the castle gate. Your adventure truly begins!"@
        &&& r.messages@[0].messages@[1].style == MessageStyle::Info
        &&& r.menu is None && !r.close_menu && r.body_changes@.len() == 0
        &&& r.removed_tiles@.len() == 0
    }
}

pub fn affordance_outside(story: &Story) -> (r: Reaction)
    ensures
        outside_reacts(*story, *story, r),
{
    if !story.flags.has_flag(QUEST_MAIN, OBTAINED_FOOD) {
        Reaction::say("You should get food before venturing outside")
    } else if story.talents.weapons < 1 {
        Reaction::say("You should get a weapon, the outside world is not safe")
    } else {
        let mut msgs: Vec<Message> = Vec::new();
        msgs.push(Message::new("Success!", MessageStyle::Title));
        msgs.push(
            Message::new("You pass the castle gate. Your adventure truly begins!", MessageStyle::Info),
        );
        let mut r = Reaction::none();
        r.messages.push(MessageEvent::new_multi(msgs));
        r.end = true;
        r
    }
}

// ---- the level and its event routing ----

/// The names that the castle's reactions are looked up by differ.
proof fn lemma_names_differ()
    ensures
        MIRROR@ != FOUNTAIN@,
        !has_prefix(MIRROR@, OUTSIDE@),
        !has_prefix(FOUNTAIN@, OUTSIDE@),
        PELEUS@ != NERITA@ && PELEUS@ != CRETIEN@ && PELEUS@ != SCOPAS@ && PELEUS@ != CHERISE@
            && PELEUS@ != RATS@ && PELEUS@ != THEON@,
        NERITA@ != CRETIEN@ && NERITA@ != SCOPAS@ && NERITA@ != CHERISE@ && NERITA@ != RATS@
            && NERITA@ != THEON@,
        CRETIEN@ != SCOPAS@ && CRETIEN@ != CHERISE@ && CRETIEN@ != RATS@ && CRETIEN@ != THEON@,
        SCOPAS@ != CHERISE@ && SCOPAS@ != RATS@ && SCOPAS@ != THEON@,
        CHERISE@ != RATS@ && CHERISE@ != THEON@,
        RATS@ != THEON@,
        FOUNTAIN@ != MIRROR@ && FOUNTAIN@ != NERITA@ && FOUNTAIN@ != RATS@,
        MIRROR@ != NERITA@ && MIRROR@ != RATS@,
        NERITA@ != RATS@,
{
    reveal_strlit("mirror");
    reveal_strlit("fountain");
    reveal_strlit("outside");
    reveal_strlit("Peleus");
    reveal_strlit("Nerita");
    reveal_strlit("Cretien");
    reveal_strlit("Scopas");
    reveal_strlit("Cherise");
    reveal_strlit("Rats");
    reveal_strlit("Theon");
    assert(MIRROR@[0] != FOUNTAIN@[0]);
    assert(FOUNTAIN@.subrange(0, 7)[0] != OUTSIDE@[0]);
    assert(PELEUS@[0] != NERITA@[0] && PELEUS@[0] != CRETIEN@[0] && PELEUS@[0] != SCOPAS@[0]);
    assert(PELEUS@[0] != CHERISE@[0] && PELEUS@[0] != RATS@[0] && PELEUS@[0] != THEON@[0]);
    assert(NERITA@[0] != CRETIEN@[0] && NERITA@[0] != SCOPAS@[0] && NERITA@[0] != CHERISE@[0]);
    assert(NERITA@[0] != RATS@[0] && NERITA@[0] != THEON@[0]);
    assert(CRETIEN@[0] != SCOPAS@[0] && CRETIEN@[1] != CHERISE@[1] && CRETIEN@[0] != RATS@[0]);
    assert(CRETIEN@[0] != THEON@[0]);
    assert(SCOPAS@[0] != CHERISE@[0] && SCOPAS@[0] != RATS@[0] && SCOPAS@[0] != THEON@[0]);
    assert(CHERISE@[0] != RATS@[0] && CHERISE@[0] != THEON@[0] && RATS@[0] != THEON@[0]);
    assert(FOUNTAIN@[0] != NERITA@[0] && FOUNTAIN@[0] != RATS@[0]);
    assert(MIRROR@[0] != NERITA@[0] && MIRROR@[0] != RATS@[0]);
}

/// Routes an affordance event to its reaction: the mirror, the fountain,
/// or one of the cells of the way out.
pub fn on_affordance(story: &Story, name: &str) -> (r: Reaction)
    ensures
        name@ == MIRROR@ ==> mirror_reacts(*story, *story, r),
        name@ == FOUNTAIN@ ==> fountain_reacts(*story, *story, r),
        has_prefix(name@, OUTSIDE@) ==> outside_reacts(*story, *story, r),
        name@ != MIRROR@ && name@ != FOUNTAIN@ && !has_prefix(name@, OUTSIDE@) ==> is_silent(r),
{
    proof {
        lemma_names_differ();
    }
    if same_text(name, MIRROR) {
        affordance_mirror(story)
    } else if same_text(name, FOUNTAIN) {
        affordance_fountain(story)
    } else if starts_with(&name.to_owned(), OUTSIDE) {
        affordance_outside(story)
    } else {
        Reaction::none()
    }
}

/// Routes a character event to the character's reaction.
pub fn on_character(story: &mut Story, area: &mut Area, name: &str) -> (r: Reaction)
    requires
        old(story).well_formed(),
        name@ == SCOPAS@ ==> old(story).talents.weapons < u32::MAX,
    ensures
        final(story).well_formed(),
        final(area).rooms@ == old(area).rooms@,
        final(area).characters@ == old(area).characters@,
        final(area).items@ == old(area).items@,
        final(area).start == old(area).start,
        name@ != THEON@ ==> final(area).affordances@ == old(area).affordances@,
        name@ == PELEUS@ ==> peleus_reacts(*old(story), *final(story), r),
        name@ == NERITA@ ==> nerita_reacts(*old(story), *final(story), r),
        name@ == CRETIEN@ ==> cretien_reacts(*old(story), *final(story), r),
        name@ == SCOPAS@ ==> scopas_reacts(*old(story), *final(story), r),
        name@ == CHERISE@ ==> cherise_reacts(*old(story), *final(story), r),
        name@ == RATS@ ==> rats_reacts(*old(story), *final(story), r),
        name@ == THEON@ ==> theon_reacts(*old(story), *final(story), *old(area), *final(area), r),
        name@ != PELEUS@ && name@ != NERITA@ && name@ != CRETIEN@ && name@ != SCOPAS@ && name@
            != CHERISE@ && name@ != RATS@ && name@ != THEON@ ==> unchanged(
            *old(story),
            *final(story),
        ) && is_silent(r),
{
    proof {
        lemma_names_differ();
    }
    if same_text(name, PELEUS) {
        character_peleus(story)
    } else if same_text(name, NERITA) {
        character_nerita(story)
    } else if same_text(name, CRETIEN) {
        character_cretien(story)
    } else if same_text(name, SCOPAS) {
        character_scopas(story)
    } else if same_text(name, CHERISE) {
        character_cherise(story)
    } else if same_text(name, RATS) {
        character_rats(story)
    } else if same_text(name, THEON) {
        character_theon(story, area)
    } else {
        Reaction::none()
    }
}

/// Routes an item event (a consumable was picked up) to its reaction.
pub fn on_item(story: &mut Story, name: &str) -> (r: Reaction)
    requires
        name@ == SWORD@ ==> old(story).talents.weapons < u32::MAX,
    ensures
        final(story).well_formed() == old(story).well_formed(),
        name@ == SWORD@ ==> sword_reacts(*old(story), *final(story), r),
        name@ != SWORD@ ==> unchanged(*old(story), *final(story)) && is_silent(r),
{
    if same_text(name, SWORD) {
        consume_sword(story)
    } else {
        Reaction::none()
    }
}

/// Routes a menu choice to the reaction of the menu's owner: cutting the
/// hair at the mirror or the fountain, Nerita's services, or the fight
/// with the rats.
pub fn on_menu_item(story: &mut Story, area: &mut Area, ev: &MenuItemEvent) -> (r: Reaction)
    requires
        old(story).well_formed(),
        ev.menu@ == MIRROR@ && ev.item@ == CUT@ ==> old(story).talents.people <= u32::MAX - 2,
        ev.menu@ == FOUNTAIN@ && ev.item@ == CUT@ ==> old(story).talents.people <= u32::MAX
            - 1,
        ev.menu@ == NERITA@ && ev.item@ == CUT@ ==> old(story).talents.people <= u32::MAX - 2,
        ev.menu@ == NERITA@ && ev.item@ == FIX@ ==> old(story).talents.people <= u32::MAX - 1,
        ev.menu@ == RATS@ && ev.item@ == SCARE@ ==> old(story).talents.animals < u32::MAX,
    ensures
        final(story).well_formed(),
        final(area).rooms@ == old(area).rooms@,
        final(area).affordances@ == old(area).affordances@,
        final(area).items@ == old(area).items@,
        final(area).start == old(area).start,
        ev.menu@ != RATS@ ==> final(area).characters@ == old(area).characters@,
        ev.menu@ == MIRROR@ && ev.item@ == CUT@ ==> mirror_cut_reacts(
            *old(story),
            *final(story),
            r,
        ),
        ev.menu@ == FOUNTAIN@ && ev.item@ == CUT@ ==> fountain_cut_reacts(
            *old(story),
            *final(story),
            r,
        ),
        ev.menu@ == NERITA@ ==> nerita_action_reacts(*old(story), *final(story), ev.item@, r),
        ev.menu@ == RATS@ ==> rats_action_reacts(
            *old(story),
            *final(story),
            *old(area),
            *final(area),
            ev.item@,
            r,
        ),
        !(ev.menu@ == MIRROR@ && ev.item@ == CUT@) && !(ev.menu@ == FOUNTAIN@ && ev.item@
            == CUT@) && ev.menu@ != NERITA@ && ev.menu@ != RATS@ ==> unchanged(
            *old(story),
            *final(story),
        ) && is_silent(r),
{
    proof {
        lemma_names_differ();
    }
    let menu = ev.menu.as_str();
    let item = ev.item.as_str();
    if same_text(menu, MIRROR) && same_text(item, CUT) {
        action_mirror(story)
    } else if same_text(menu, FOUNTAIN) && same_text(item, CUT) {
        action_fountain(story)
    } else if same_text(menu, NERITA) {
        action_nerita(story, item)
    } else if same_text(menu, RATS) {
        action_rats(story, area, item)
    } else {
        Reaction::none()
    }
}

/// The rectangle from `(x1, y1)` to `(x2, y2)`.
pub open spec fn rect(x1: i32, y1: i32, x2: i32, y2: i32) -> SpriteDimension {
    SpriteDimension {
        topleft: SpritePosition { x: x1, y: y1 },
        bottomright: SpritePosition { x: x2, y: y2 },
    }
}

pub open spec fn room_is(r: Room, name: &str, description: &str, dims: Seq<SpriteDimension>) -> bool {
    r.name@ == name@ && r.description@ == description@ && r.dimensions@ == dims
}

pub open spec fn affordance_is(a: Affordance, name: &str, description: &str, x: i32, y: i32) -> bool {
    a.name@ == name@ && a.description@ == description@ && a.dimension == rect(x, y, x, y)
}

pub open spec fn item_is(
    i: Item,
    name: &str,
    description: &str,
    sprite: &str,
    x: i32,
    y: i32,
    consumable: bool,
) -> bool {
    &&& i.name@ == name@
    &&& i.description@ == description@
    &&& i.sprite@ == sprite@
    &&& i.position == SpritePosition { x: x, y: y }
    &&& i.consumable == consumable
}

pub open spec fn character_is(
    c: Character,
    name: &str,
    description: &str,
    sprite: &str,
    x: i32,
    y: i32,
) -> bool {
    &&& c.name@ == name@
    &&& c.description@ == description@
    &&& c.sprite@ == sprite@
    &&& c.position == SpritePosition { x: x, y: y }
}

/// The castle of Selaion: its rooms, the mirror and the fountain, three
/// items and seven characters.
pub fn castle_area() -> (r: Area)
    ensures
        r.name@ == "Selaion Palace"@,
        r.map_index == 0,
        r.start == (SpritePosition { x: 20, y: 4 }),
        r.rooms@.len() == 10,
        room_is(r.rooms@[0], "bedroom", "Your bedroom", seq![rect(6, 3, 9, 6)]),
        room_is(r.rooms@[1], "throne", "Selaion throne room", seq![rect(11, 2, 26, 6)]),
        room_is(
            r.rooms@[2],
            "garden",
            "The royal garden",
            seq![rect(7, 8, 15, 12), rect(16, 9, 16, 11)],
        ),
        room_is(r.rooms@[3], "study", "The study", seq![rect(28, 2, 32, 5)]),
        room_is(
            r.rooms@[4],
            "courtyard",
            "The courtyard",
            seq![rect(17, 8, 25, 28), rect(26, 8, 26, 26), rect(27, 19, 35, 26)],
        ),
        room_is(r.rooms@[5], "kitchen", "The kitchen", seq![rect(9, 19, 15, 24)]),
        room_is(r.rooms@[6], "cellar", "The cellar", seq![rect(2, 20, 4, 24)]),
        room_is(r.rooms@[7], "corridor", "A dark corridor", seq![rect(5, 22, 8, 22)]),
        room_is(r.rooms@[8], "armory", "The armory", seq![rect(31, 15, 35, 17)]),
        room_is(r.rooms@[9], "gates", "The palace gates", seq![rect(20, 29, 22, 29)]),
        r.affordances@.len() == 2,
        affordance_is(r.affordances@[0], MIRROR, "Your bedside mirror", 9, 3),
        affordance_is(r.affordances@[1], FOUNTAIN, "The garden fountain", 11, 10),
        r.items@.len() == 3,
        item_is(
            r.items@[0],
            SCISSORS,
            "Sharpish scissors",
            "sprites/items/double_sword.png",
            14,
            12,
            false,
        ),
        item_is(
            r.items@[1],
            SCROLL,
            "Undecipherable scroll",
            "sprites/items/scroll-brown.png",
            4,
            20,
            false,
        ),
        item_is(r.items@[2], SWORD, "Small sword", "sprites/items/long_sword1.png", 34, 15, true),
        r.characters@.len() == 7,
        character_is(
            r.characters@[0],
            PELEUS,
            "Peleus, your brother",
            "sprites/people/peleus.png",
            19,
            2,
        ),
        character_is(r.characters@[1], NERITA, "Nerita, your maid", "sprites/people/nerita.png", 6, 4),
        character_is(
            r.characters@[2],
            CRETIEN,
            "Cretien, your old teacher",
            "sprites/people/cretien.png",
            30,
            5,
        ),
        character_is(
            r.characters@[3],
            SCOPAS,
            "Scopas, the weapons master",
            "sprites/people/scopas.png",
            22,
            19,
        ),
        character_is(
            r.characters@[4],
            CHERISE,
            "Cherise, the cook",
            "sprites/people/cherise.png",
            12,
            21,
        ),
        character_is(
            r.characters@[5],
            THEON,
            "Theon, a palace guard",
            "sprites/people/theon.png",
            21,
            27,
        ),
        character_is(r.characters@[6], RATS, "Big rats", "sprites/people/rat.png", 2, 24),
{
    let mut stage = Area::new("Selaion Palace", 0, SpritePosition::new(20, 4));
    stage.add_room(Room::new("bedroom", "Your bedroom", 6, 3, 9, 6));
    stage.add_room(Room::new("throne", "Selaion throne room", 11, 2, 26, 6));
    let garden = Room::new("garden", "The royal garden", 7, 8, 15, 12).add_dimensions(
        16,
        9,
        16,
        11,
    );
    assert(garden.dimensions@ =~= seq![rect(7, 8, 15, 12), rect(16, 9, 16, 11)]);
    stage.add_room(garden);
    stage.add_room(Room::new("study", "The study", 28, 2, 32, 5));
    let courtyard = Room::new("courtyard", "The courtyard", 17, 8, 25, 28).add_dimensions(
        26,
        8,
        26,
        26,
    ).add_dimensions(27, 19, 35, 26);
    assert(courtyard.dimensions@ =~= seq![
        rect(17, 8, 25, 28),
        rect(26, 8, 26, 26),
        rect(27, 19, 35, 26),
    ]);
    stage.add_room(courtyard);
    stage.add_room(Room::new("kitchen", "The kitchen", 9, 19, 15, 24));
    stage.add_room(Room::new("cellar", "The cellar", 2, 20, 4, 24));
    stage.add_room(Room::new("corridor", "A dark corridor", 5, 22, 8, 22));
    stage.add_room(Room::new("armory", "The armory", 31, 15, 35, 17));
    stage.add_room(Room::new("gates", "The palace gates", 20, 29, 22, 29));

    stage.add_affordance(Affordance::new(MIRROR, "Your bedside mirror", 9, 3));
    stage.add_affordance(Affordance::new(FOUNTAIN, "The garden fountain", 11, 10));

    stage.add_item(
        Item::new(SCISSORS, "Sharpish scissors", "sprites/items/double_sword.png", 14, 12),
    );
    stage.add_item(
        Item::new(SCROLL, "Undecipherable scroll", "sprites/items/scroll-brown.png", 4, 20),
    );
    stage.add_item(
        Item::new_consumable(SWORD, "Small sword", "sprites/items/long_sword1.png", 34, 15),
    );

    stage.add_character(
        Character::new(PELEUS, "Peleus, your brother", "sprites/people/peleus.png", 19, 2),
    );
    stage.add_character(
        Character::new(NERITA, "Nerita, your maid", "sprites/people/nerita.png", 6, 4),
    );
    stage.add_character(
        Character::new(CRETIEN, "Cretien, your old teacher", "sprites/people/cretien.png", 30, 5),
    );
    stage.add_character(
        Character::new(SCOPAS, "Scopas, the weapons master", "sprites/people/scopas.png", 22, 19),
    );
    stage.add_character(
        Character::new(CHERISE, "Cherise, the cook", "sprites/people/cherise.png", 12, 21),
    );
    stage.add_character(
        Character::new(THEON, "Theon, a palace guard", "sprites/people/theon.png", 21, 27),
    );
    stage.add_character(Character::new(RATS, "Big rats", "sprites/people/rat.png", 2, 24));
    stage
}

} // verus!
