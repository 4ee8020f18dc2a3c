//! The player's belongings and story state: items, inventory, spells,
//! talents, quest flags and the journal.

use vstd::prelude::*;
use crate::geometry::SpritePosition;
use crate::state::RemoveTileEvent;
use crate::text::same_text;

verus! {

/// The main quest's code.
pub const QUEST_MAIN: &'static str = "main";

pub const QUEST_STARTED: &'static str = "started";

pub const QUEST_COMPLETED: &'static str = "completed";

/// Lexicographic order on texts, character by character.
pub open spec fn text_lt(a: Seq<char>, b: Seq<char>) -> bool
    decreases a.len(),
{
    if a.len() == 0 {
        b.len() > 0
    } else if b.len() == 0 {
        false
    } else if a[0] != b[0] {
        a[0] < b[0]
    } else {
        text_lt(a.drop_first(), b.drop_first())
    }
}

pub proof fn lemma_text_lt_asym(a: Seq<char>, b: Seq<char>)
    ensures
        text_lt(a, b) ==> !text_lt(b, a),
    decreases a.len(),
{
    if a.len() > 0 && b.len() > 0 && a[0] == b[0] {
        lemma_text_lt_asym(a.drop_first(), b.drop_first());
    }
}

pub proof fn lemma_text_lt_total(a: Seq<char>, b: Seq<char>)
    ensures
        text_lt(a, b) || text_lt(b, a) || a == b,
    decreases a.len(),
{
    if a.len() > 0 && b.len() > 0 && a[0] == b[0] {
        lemma_text_lt_total(a.drop_first(), b.drop_first());
        if a.drop_first() == b.drop_first() {
            assert(a =~= seq![a[0]] + a.drop_first());
            assert(b =~= seq![b[0]] + b.drop_first());
        }
    }
}

pub proof fn lemma_text_lt_trans(a: Seq<char>, b: Seq<char>, c: Seq<char>)
    requires
        text_lt(a, b),
        text_lt(b, c),
    ensures
        text_lt(a, c),
    decreases a.len(),
{
    if a.len() > 0 && a[0] == b[0] && b[0] == c[0] {
        lemma_text_lt_trans(a.drop_first(), b.drop_first(), c.drop_first());
    }
}

/// Whether `a` comes before `b`.
pub fn text_less(a: &str, b: &str) -> (r: bool)
    ensures
        r == text_lt(a@, b@),
{
    let x = crate::text::chars_of(a);
    let y = crate::text::chars_of(b);
    let mut i: usize = 0;
    assert(x@.subrange(0, x@.len() as int) =~= x@);
    assert(y@.subrange(0, y@.len() as int) =~= y@);
    while i < x.len() && i < y.len() && x[i] == y[i]
        invariant
            i <= x@.len(),
            i <= y@.len(),
            x@.subrange(0, i as int) == y@.subrange(0, i as int),
            text_lt(a@, b@) == text_lt(x@.subrange(i as int, x@.len() as int), y@.subrange(
                i as int,
                y@.len() as int,
            )),
        decreases x@.len() - i,
    {
        let ghost xs = x@.subrange(i as int, x@.len() as int);
        let ghost ys = y@.subrange(i as int, y@.len() as int);
        assert(xs.drop_first() =~= x@.subrange(i + 1, x@.len() as int));
        assert(ys.drop_first() =~= y@.subrange(i + 1, y@.len() as int));
        assert(x@.subrange(0, i + 1) =~= x@.subrange(0, i as int).push(x@[i as int]));
        assert(y@.subrange(0, i + 1) =~= y@.subrange(0, i as int).push(y@[i as int]));
        i = i + 1;
    }
    if i == x.len() {
        i < y.len()
    } else if i == y.len() {
        false
    } else {
        x[i] < y[i]
    }
}

/// A thing the player can find on the ground and carry.
#[derive(Debug)]
pub struct Item {
    pub name: String,
    pub description: String,
    pub sprite: String,
    pub position: SpritePosition,
    pub consumable: bool,
}

impl Item {
    pub fn new(name: &str, description: &str, sprite: &str, x1: i32, y1: i32) -> (r: Item)
        ensures
            r.name@ == name@,
            r.description@ == description@,
            r.sprite@ == sprite@,
            r.position == (SpritePosition { x: x1, y: y1 }),
            !r.consumable,
    {
        Item {
            name: name.to_owned(),
            description: description.to_owned(),
            sprite: sprite.to_owned(),
            position: SpritePosition::new(x1, y1),
            consumable: false,
        }
    }

    /// An item that is used up on pick-up rather than carried.
    pub fn new_consumable(name: &str, description: &str, sprite: &str, x1: i32, y1: i32) -> (r:
        Item)
        ensures
            r.name@ == name@,
            r.description@ == description@,
            r.sprite@ == sprite@,
            r.position == (SpritePosition { x: x1, y: y1 }),
            r.consumable,
    {
        let mut s = Item::new(name, description, sprite, x1, y1);
        s.consumable = true;
        s
    }
}

/// Descriptions in order: no entry comes before an earlier one.
pub open spec fn ordered(descs: Seq<Seq<char>>) -> bool {
    forall|i: int, j: int| 0 <= i < j < descs.len() ==> !text_lt(descs[j], descs[i])
}

/// Where a new entry with description `d` goes in a list ordered by
/// description: after every entry that does not come after it.
pub open spec fn insertion_point(descs: Seq<Seq<char>>, d: Seq<char>, k: int) -> bool {
    &&& 0 <= k <= descs.len()
    &&& forall|j: int| 0 <= j < k ==> !text_lt(d, #[trigger] descs[j])
    &&& k < descs.len() ==> text_lt(d, descs[k])
}

/// First index in `descs` whose entry comes after `d`, or its length.
fn find_insertion_point(descs: &Vec<&str>, d: &str) -> (k: usize)
    ensures
        insertion_point(descs@.map_values(|s: &str| s@), d@, k as int),
{
    let ghost dv = descs@.map_values(|s: &str| s@);
    let mut k: usize = 0;
    while k < descs.len()
        invariant
            k <= descs@.len(),
            dv == descs@.map_values(|s: &str| s@),
            forall|j: int| 0 <= j < k ==> !text_lt(d@, #[trigger] dv[j]),
        decreases descs@.len() - k,
    {
        if text_less(d, descs[k]) {
            return k;
        }
        k = k + 1;
    }
    k
}

/// Inserting at an insertion point keeps a list ordered.
proof fn lemma_insert_ordered(descs: Seq<Seq<char>>, d: Seq<char>, k: int)
    requires
        ordered(descs),
        insertion_point(descs, d, k),
    ensures
        ordered(descs.insert(k, d)),
{
    let n = descs.insert(k, d);
    assert forall|i: int, j: int| 0 <= i < j < n.len() implies !text_lt(n[j], n[i]) by {
        if j == k {
            lemma_text_lt_asym(n[i], d);
            lemma_text_lt_total(n[i], d);
        } else if i == k {
            if j - 1 > k {
                lemma_text_lt_total(descs[k], descs[j - 1]);
                if text_lt(descs[k], descs[j - 1]) {
                    lemma_text_lt_trans(d, descs[k], descs[j - 1]);
                }
            }
            lemma_text_lt_asym(d, descs[j - 1]);
        }
    }
}

/// Dropping an entry keeps a list ordered.
proof fn lemma_remove_ordered(descs: Seq<Seq<char>>, k: int)
    requires
        ordered(descs),
        0 <= k < descs.len(),
    ensures
        ordered(descs.remove(k)),
{
    let n = descs.remove(k);
    assert forall|i: int, j: int| 0 <= i < j < n.len() implies !text_lt(n[j], n[i]) by {
        let oi = if i < k { i } else { i + 1 };
        let oj = if j < k { j } else { j + 1 };
        assert(n[i] == descs[oi] && n[j] == descs[oj]);
    }
}

/// What the player carries, ordered by description.
#[derive(Debug)]
pub struct Inventory {
    pub items: Vec<Item>,
}

pub open spec fn item_descriptions(s: Seq<Item>) -> Seq<Seq<char>> {
    s.map_values(|i: Item| i.description@)
}

/// Index of the first entry of `names` equal to `name`.
pub open spec fn first_named(names: Seq<Seq<char>>, name: Seq<char>, k: int) -> bool {
    &&& 0 <= k < names.len()
    &&& names[k] == name
    &&& forall|j: int| 0 <= j < k ==> #[trigger] names[j] != name
}

impl Inventory {
    /// Ordered by description, and no two items share a name.
    pub open spec fn well_formed(&self) -> bool {
        ordered(item_descriptions(self.items@)) && self.names().no_duplicates()
    }

    pub open spec fn names(&self) -> Seq<Seq<char>> {
        self.items@.map_values(|i: Item| i.name@)
    }

    pub open spec fn holds(&self, name: Seq<char>) -> bool {
        self.names().contains(name)
    }

    pub fn new() -> (r: Inventory)
        ensures
            r.items@.len() == 0,
            r.well_formed(),
    {
        Inventory { items: Vec::new() }
    }

    /// Adds an item after every carried item whose description does not
    /// come after its own.
    pub fn add_item(&mut self, item: Item)
        requires
            old(self).well_formed(),
            !old(self).holds(item.name@),
        ensures
            final(self).well_formed(),
            exists|k: int|
                insertion_point(item_descriptions(old(self).items@), item.description@, k)
                    && final(self).items@ == old(self).items@.insert(k, item),
    {
        let mut descs: Vec<&str> = Vec::new();
        let mut i: usize = 0;
        while i < self.items.len()
            invariant
                i <= self.items@.len(),
                descs@.len() == i,
                forall|j: int| 0 <= j < i ==> (#[trigger] descs@[j])@ == self.items@[j].description@,
            decreases self.items@.len() - i,
        {
            descs.push(self.items[i].description.as_str());
            i = i + 1;
        }
        assert(descs@.map_values(|s: &str| s@) =~= item_descriptions(self.items@));
        let k = find_insertion_point(&descs, item.description.as_str());
        let ghost before = self.items@;
        proof {
            lemma_insert_ordered(item_descriptions(before), item.description@, k as int);
        }
        let ghost it = item;
        self.items.insert(k, item);
        assert(item_descriptions(self.items@) =~= item_descriptions(before).insert(
            k as int,
            it.description@,
        ));
        proof {
            let old_names = before.map_values(|i: Item| i.name@);
            assert(self.names() =~= old_names.insert(k as int, it.name@));
            assert forall|a: int, b: int|
                0 <= a < b < self.names().len() implies self.names()[a] != self.names()[b] by {
                let oa = if a < k { a } else { a - 1 };
                let ob = if b < k { b } else { b - 1 };
                if a == k {
                    assert(old_names[ob] == self.names()[b]);
                } else if b == k {
                    assert(old_names[oa] == self.names()[a]);
                } else {
                    assert(old_names[oa] == self.names()[a] && old_names[ob] == self.names()[b]);
                }
            }
        }
    }

    pub fn contains_item(&self, item: &str) -> (r: bool)
        ensures
            r == self.holds(item@),
    {
        let mut i: usize = 0;
        while i < self.items.len()
            invariant
                i <= self.items@.len(),
                forall|j: int| 0 <= j < i ==> #[trigger] self.names()[j] != item@,
            decreases self.items@.len() - i,
        {
            if same_text(self.items[i].name.as_str(), item) {
                assert(self.names()[i as int] == item@);
                return true;
            }
            i = i + 1;
        }
        false
    }

    /// Drops the first carried item of that name, if any.
    pub fn remove_item(&mut self, item: &str)
        requires
            old(self).well_formed(),
        ensures
            final(self).well_formed(),
            old(self).holds(item@) ==> exists|k: int|
                first_named(old(self).names(), item@, k) && final(self).items@ == old(
                    self,
                ).items@.remove(k),
            !old(self).holds(item@) ==> final(self).items@ == old(self).items@,
    {
        let mut i: usize = 0;
        while i < self.items.len()
            invariant
                i <= self.items@.len(),
                self.items@ == old(self).items@,
                old(self).well_formed(),
                forall|j: int| 0 <= j < i ==> #[trigger] old(self).names()[j] != item@,
            decreases self.items@.len() - i,
        {
            if same_text(self.items[i].name.as_str(), item) {
                let ghost before = self.items@;
                assert(self.names()[i as int] == item@);
                assert(first_named(old(self).names(), item@, i as int));
                self.items.remove(i);
                assert(item_descriptions(self.items@) =~= item_descriptions(before).remove(
                    i as int,
                ));
                proof {
                    lemma_remove_ordered(item_descriptions(before), i as int);
                    let old_names = before.map_values(|i: Item| i.name@);
                    assert(self.names() =~= old_names.remove(i as int));
                    assert forall|a: int, b: int|
                        0 <= a < b < self.names().len() implies self.names()[a]
                        != self.names()[b] by {
                        let oa = if a < i { a } else { a + 1 };
                        let ob = if b < i { b } else { b + 1 };
                        assert(old_names[oa] == self.names()[a] && old_names[ob]
                            == self.names()[b]);
                    }
                }
                return;
            }
            i = i + 1;
        }
    }
}

/// A spell the player has learnt.
#[derive(Debug)]
pub struct Spell {
    pub name: String,
    pub description: String,
}

impl Spell {
    pub fn new(name: &str, description: &str) -> (r: Spell)
        ensures
            r.name@ == name@,
            r.description@ == description@,
    {
        Spell { name: name.to_owned(), description: description.to_owned() }
    }
}

/// The spells the player knows, ordered by description.
#[derive(Debug)]
pub struct Spells {
    pub spells: Vec<Spell>,
}

pub open spec fn spell_descriptions(s: Seq<Spell>) -> Seq<Seq<char>> {
    s.map_values(|i: Spell| i.description@)
}

impl Spells {
    pub open spec fn well_formed(&self) -> bool {
        ordered(spell_descriptions(self.spells@))
    }

    pub open spec fn names(&self) -> Seq<Seq<char>> {
        self.spells@.map_values(|i: Spell| i.name@)
    }

    pub open spec fn knows(&self, name: Seq<char>) -> bool {
        self.names().contains(name)
    }

    pub fn new() -> (r: Spells)
        ensures
            r.spells@.len() == 0,
            r.well_formed(),
    {
        Spells { spells: Vec::new() }
    }

    /// Adds a spell after every known spell whose description does not
    /// come after its own.
    pub fn add_spell(&mut self, spell: Spell)
        requires
            old(self).well_formed(),
        ensures
            final(self).well_formed(),
            exists|k: int|
                insertion_point(spell_descriptions(old(self).spells@), spell.description@, k)
                    && final(self).spells@ == old(self).spells@.insert(k, spell),
    {
        let mut descs: Vec<&str> = Vec::new();
        let mut i: usize = 0;
        while i < self.spells.len()
            invariant
                i <= self.spells@.len(),
                descs@.len() == i,
                forall|j: int| 0 <= j < i ==> (#[trigger] descs@[j])@ == self.spells@[j].description@,
            decreases self.spells@.len() - i,
        {
            descs.push(self.spells[i].description.as_str());
            i = i + 1;
        }
        assert(descs@.map_values(|s: &str| s@) =~= spell_descriptions(self.spells@));
        let k = find_insertion_point(&descs, spell.description.as_str());
        let ghost before = self.spells@;
        proof {
            lemma_insert_ordered(spell_descriptions(before), spell.description@, k as int);
        }
        self.spells.insert(k, spell);
        assert(spell_descriptions(self.spells@) =~= spell_descriptions(before).insert(
            k as int,
            spell.description@,
        ));
    }

    pub fn contains_spell(&self, spell: &str) -> (r: bool)
        ensures
            r == self.knows(spell@),
    {
        let mut i: usize = 0;
        while i < self.spells.len()
            invariant
                i <= self.spells@.len(),
                forall|j: int| 0 <= j < i ==> #[trigger] self.names()[j] != spell@,
            decreases self.spells@.len() - i,
        {
            if same_text(self.spells[i].name.as_str(), spell) {
                assert(self.names()[i as int] == spell@);
                return true;
            }
            i = i + 1;
        }
        false
    }

    /// Forgets the first known spell of that name, if any.
    pub fn remove_spell(&mut self, spell: &str)
        requires
            old(self).well_formed(),
        ensures
            final(self).well_formed(),
            old(self).knows(spell@) ==> exists|k: int|
                first_named(old(self).names(), spell@, k) && final(self).spells@ == old(
                    self,
                ).spells@.remove(k),
            !old(self).knows(spell@) ==> final(self).spells@ == old(self).spells@,
    {
        let mut i: usize = 0;
        while i < self.spells.len()
            invariant
                i <= self.spells@.len(),
                self.spells@ == old(self).spells@,
                old(self).well_formed(),
                forall|j: int| 0 <= j < i ==> #[trigger] old(self).names()[j] != spell@,
            decreases self.spells@.len() - i,
        {
            if same_text(self.spells[i].name.as_str(), spell) {
                let ghost before = self.spells@;
                assert(self.names()[i as int] == spell@);
                assert(first_named(old(self).names(), spell@, i as int));
                self.spells.remove(i);
                assert(spell_descriptions(self.spells@) =~= spell_descriptions(before).remove(
                    i as int,
                ));
                proof {
                    lemma_remove_ordered(spell_descriptions(before), i as int);
                }
                return;
            }
            i = i + 1;
        }
    }
}

/// The player's skills; each only grows.
#[derive(Debug, Clone, Copy, PartialEq, Eq, Structural)]
pub struct Talents {
    pub animals: u32,
    pub people: u32,
    pub weapons: u32,
}

impl Default for Talents {
    fn default() -> (r: Talents)
        ensures
            r == (Talents { animals: 0, people: 0, weapons: 0 }),
    {
        Talents { animals: 0, people: 0, weapons: 0 }
    }
}

/// Whether the pair `f` is among the texts of `s`.
pub open spec fn listed(s: Seq<(String, String)>, f: (Seq<char>, Seq<char>)) -> bool {
    exists|i: int| 0 <= i < s.len() && (#[trigger] s[i]).0@ == f.0 && s[i].1@ == f.1
}

/// The boolean facts of the story, each a quest code and a flag name.
#[derive(Debug)]
pub struct QuestFlags {
    flags: Vec<(String, String)>,
}

impl QuestFlags {
    /// The set flags.
    pub closed spec fn flag_set(&self) -> Set<(Seq<char>, Seq<char>)> {
        Set::new(|f: (Seq<char>, Seq<char>)| listed(self.flags@, f))
    }

    pub open spec fn spec_has(&self, quest: Seq<char>, flag: Seq<char>) -> bool {
        self.flag_set().contains((quest, flag))
    }

    pub fn new() -> (r: QuestFlags)
        ensures
            r.flag_set() == Set::<(Seq<char>, Seq<char>)>::empty(),
    {
        let r = QuestFlags { flags: Vec::new() };
        assert(r.flag_set() =~= Set::<(Seq<char>, Seq<char>)>::empty());
        r
    }

    pub fn set_flag(&mut self, quest: &str, flag: &str)
        ensures
            final(self).flag_set() == old(self).flag_set().insert((quest@, flag@)),
    {
        if !self.has_flag(quest, flag) {
            let ghost before = self.flags@;
            self.flags.push((quest.to_owned(), flag.to_owned()));
            assert forall|f: (Seq<char>, Seq<char>)| #[trigger]
                listed(self.flags@, f) == (listed(before, f) || f == (quest@, flag@)) by {
                if listed(before, f) {
                    let i = choose|i: int|
                        0 <= i < before.len() && (#[trigger] before[i]).0@ == f.0 && before[i].1@
                            == f.1;
                    assert(self.flags@[i] == before[i]);
                }
                if f == (quest@, flag@) {
                    assert(self.flags@[before.len() as int].0@ == f.0);
                }
                if listed(self.flags@, f) && f != (quest@, flag@) {
                    let i = choose|i: int|
                        0 <= i < self.flags@.len() && (#[trigger] self.flags@[i]).0@ == f.0
                            && self.flags@[i].1@ == f.1;
                    assert(before[i] == self.flags@[i]);
                }
            }
            assert(self.flag_set() =~= old(self).flag_set().insert((quest@, flag@)));
        } else {
            assert(self.flag_set() =~= old(self).flag_set().insert((quest@, flag@)));
        }
    }

    pub fn unset_flag(&mut self, quest: &str, flag: &str)
        ensures
            final(self).flag_set() == old(self).flag_set().remove((quest@, flag@)),
    {
        let mut kept: Vec<(String, String)> = Vec::new();
        let n = self.flags.len();
        let mut i: usize = 0;
        while i < n
            invariant
                n == self.flags@.len(),
                i <= n,
                forall|f: (Seq<char>, Seq<char>)| #[trigger]
                    listed(kept@, f) <==> (f != (quest@, flag@) && listed(
                        self.flags@.subrange(0, i as int),
                        f,
                    )),
            decreases n - i,
        {
            let ghost old_kept = kept@;
            let ghost sub = self.flags@.subrange(0, i as int);
            let ghost sub1 = self.flags@.subrange(0, i + 1);
            let matched = same_text(self.flags[i].0.as_str(), quest) && same_text(
                self.flags[i].1.as_str(),
                flag,
            );
            if !matched {
                kept.push((self.flags[i].0.clone(), self.flags[i].1.clone()));
            }
            assert forall|f: (Seq<char>, Seq<char>)| #[trigger]
                listed(kept@, f) <==> (f != (quest@, flag@) && listed(sub1, f)) by {
                if listed(kept@, f) {
                    let j = choose|j: int|
                        0 <= j < kept@.len() && (#[trigger] kept@[j]).0@ == f.0 && kept@[j].1@
                            == f.1;
                    if j < old_kept.len() {
                        assert(old_kept[j] == kept@[j]);
                        assert(listed(old_kept, f));
                        let m = choose|m: int|
                            0 <= m < sub.len() && (#[trigger] sub[m]).0@ == f.0 && sub[m].1@
                                == f.1;
                        assert(sub1[m] == sub[m]);
                    } else {
                        assert(sub1[i as int] == self.flags@[i as int]);
                    }
                }
                if f != (quest@, flag@) && listed(sub1, f) {
                    let j = choose|j: int|
                        0 <= j < sub1.len() && (#[trigger] sub1[j]).0@ == f.0 && sub1[j].1@
                            == f.1;
                    if j < i {
                        assert(sub[j] == sub1[j]);
                        assert(listed(sub, f));
                        assert(listed(old_kept, f));
                        let m = choose|m: int|
                            0 <= m < old_kept.len() && (#[trigger] old_kept[m]).0@ == f.0
                                && old_kept[m].1@ == f.1;
                        assert(kept@[m] == old_kept[m]);
                    } else {
                        assert(kept@[kept@.len() - 1].0@ == f.0);
                    }
                }
            }
            i = i + 1;
        }
        assert(self.flags@.subrange(0, n as int) =~= self.flags@);
        let ghost old_set = self.flag_set();
        self.flags = kept;
        assert(self.flag_set() =~= old_set.remove((quest@, flag@)));
    }

    /// The set flags, each once or more.
    pub fn pairs(&self) -> (r: &Vec<(String, String)>)
        ensures
            forall|f: (Seq<char>, Seq<char>)| #[trigger] listed(r@, f) <==> self.flag_set().contains(f),
    {
        &self.flags
    }

    pub fn has_flag(&self, quest: &str, flag: &str) -> (r: bool)
        ensures
            r == self.spec_has(quest@, flag@),
    {
        let mut i: usize = 0;
        while i < self.flags.len()
            invariant
                i <= self.flags@.len(),
                forall|j: int|
                    0 <= j < i ==> !((#[trigger] self.flags@[j]).0@ == quest@ && self.flags@[j].1@
                        == flag@),
            decreases self.flags@.len() - i,
        {
            if same_text(self.flags[i].0.as_str(), quest) && same_text(
                self.flags[i].1.as_str(),
                flag,
            ) {
                assert(listed(self.flags@, (quest@, flag@)));
                return true;
            }
            i = i + 1;
        }
        false
    }
}

/// A quest of the journal.
#[derive(Debug)]
pub struct Quest {
    pub code: String,
    pub text: String,
}

impl Quest {
    pub fn new(code: &str, text: &str) -> (r: Quest)
        ensures
            r.code@ == code@,
            r.text@ == text@,
    {
        Quest { code: code.to_owned(), text: text.to_owned() }
    }
}

/// One line of the journal, filed under a quest.
#[derive(Debug)]
pub struct JournalEntry {
    pub quest: String,
    pub text: String,
}

impl JournalEntry {
    pub fn new(quest: &str, text: &str) -> (r: JournalEntry)
        ensures
            r.quest@ == quest@,
            r.text@ == text@,
    {
        JournalEntry { quest: quest.to_owned(), text: text.to_owned() }
    }
}

/// A request to write a journal line.
#[derive(Debug)]
pub struct JournalEvent {
    pub quest: String,
    pub text: String,
}

impl JournalEvent {
    pub fn new(quest: &str, text: &str) -> (r: JournalEvent)
        ensures
            r.quest@ == quest@,
            r.text@ == text@,
    {
        JournalEvent { quest: quest.to_owned(), text: text.to_owned() }
    }
}

/// The quests known to the player and the journal lines, oldest first.
#[derive(Debug)]
pub struct Journal {
    pub quests: Vec<Quest>,
    pub entries: Vec<JournalEntry>,
}

impl Default for Journal {
    /// The journal at the start of the game: the main quest and the
    /// resolution that opens it.
    fn default() -> (r: Journal)
        ensures
            r.quests@.len() == 1,
            r.quests@[0].code@ == QUEST_MAIN@,
            r.entries@.len() == 1,
            r.entries@[0].quest@ == QUEST_MAIN@,
    {
        let mut j = Journal { quests: Vec::new(), entries: Vec::new() };
        j.add_quest(Quest::new(QUEST_MAIN, "Main Quest"));
        j.add_entry(
            QUEST_MAIN,
            "I have decided it, and nothing will alter my resolve. I will set up in search for Father. Peleus cannot stop me.",
        );
        j
    }
}

impl Journal {
    /// Adds a quest, or replaces the quest with the same code.
    pub fn add_quest(&mut self, quest: Quest)
        ensures
            final(self).entries@ == old(self).entries@,
            (exists|k: int|
                first_named(old(self).quests@.map_values(|q: Quest| q.code@), quest.code@, k)
                    && final(self).quests@ == old(self).quests@.update(k, quest)) || (
            !old(self).quests@.map_values(|q: Quest| q.code@).contains(quest.code@)
                && final(self).quests@ == old(self).quests@.push(quest)),
    {
        let ghost codes = self.quests@.map_values(|q: Quest| q.code@);
        let mut i: usize = 0;
        while i < self.quests.len()
            invariant
                i <= self.quests@.len(),
                self.quests@ == old(self).quests@,
                self.entries@ == old(self).entries@,
                codes == old(self).quests@.map_values(|q: Quest| q.code@),
                forall|j: int| 0 <= j < i ==> #[trigger] codes[j] != quest.code@,
            decreases self.quests@.len() - i,
        {
            if self.quests[i].code == quest.code {
                assert(first_named(codes, quest.code@, i as int));
                self.quests.set(i, quest);
                return;
            }
            i = i + 1;
        }
        self.quests.push(quest);
    }

    /// Writes the line that `ev` asks for.
    pub fn record(&mut self, ev: &JournalEvent)
        ensures
            final(self).quests@ == old(self).quests@,
            final(self).entries@.len() == old(self).entries@.len() + 1,
            final(self).entries@.subrange(0, old(self).entries@.len() as int)
                == old(self).entries@,
            final(self).entries@.last().quest@ == ev.quest@,
            final(self).entries@.last().text@ == ev.text@,
    {
        self.add_entry(ev.quest.as_str(), ev.text.as_str());
    }

    /// Appends a journal line.
    pub fn add_entry(&mut self, quest: &str, text: &str)
        ensures
            final(self).quests@ == old(self).quests@,
            final(self).entries@.len() == old(self).entries@.len() + 1,
            final(self).entries@.subrange(0, old(self).entries@.len() as int)
                == old(self).entries@,
            final(self).entries@.last().quest@ == quest@,
            final(self).entries@.last().text@ == text@,
    {
        self.entries.push(JournalEntry::new(quest, text));
        assert(self.entries@.subrange(0, old(self).entries@.len() as int) =~= old(self).entries@);
    }
}

/// A slot of the player's sprite that can be changed.
#[derive(Debug, Clone, Copy, PartialEq, Eq, Structural)]
pub enum PlayerPart {
    Body,
    Pants,
    Top,
    Hair,
    RightHand,
}

/// Request to draw a part of the player with another sprite.
#[derive(Debug)]
pub struct BodyChangeEvent {
    pub part: PlayerPart,
    pub sprite: String,
}

impl BodyChangeEvent {
    pub fn new(part: PlayerPart, sprite: &str) -> (r: BodyChangeEvent)
        ensures
            r.part == part,
            r.sprite@ == sprite@,
    {
        BodyChangeEvent { part, sprite: sprite.to_owned() }
    }
}

/// What changed the world during play, to be replayed after a load.
#[derive(Debug)]
pub struct EventMemory {
    pub body: Vec<BodyChangeEvent>,
    pub removed_tiles: Vec<RemoveTileEvent>,
}

impl EventMemory {
    pub fn new() -> (r: EventMemory)
        ensures
            r.body@.len() == 0,
            r.removed_tiles@.len() == 0,
    {
        EventMemory { body: Vec::new(), removed_tiles: Vec::new() }
    }
}

} // verus!
