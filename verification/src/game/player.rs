//! The player: numbers, inventory, equipment, position, quests and the
//! treasures already opened.

use crate::data::lookup::{
    first_true, lemma_first_true, lemma_first_true_none, lemma_first_true_some,
};
use crate::data::types::{
    lemma_views_push, lemma_views_remove, views, GameMap, GameMapView, Item, ItemKind, ItemView,
    PlayerStats, QuestProgress, QuestProgressView,
};
use crate::game::combat::Direction;
use crate::num::{checked_offset, clamp_usize, offset, sat_offset};
use crate::text::str_eq;
use vstd::prelude::*;
use vstd::string::StringExecFns;

verus! {

/// An equipment slot after the inventory item at `removed` is gone: a slot
/// that held a later item holds it under its new position, and a slot that
/// held the item itself is empty.
pub open spec fn shifted(slot: Option<usize>, removed: usize) -> Option<usize> {
    match slot {
        Some(i) => if i > removed {
            Some((i - 1) as usize)
        } else if i == removed {
            None
        } else {
            slot
        },
        None => None,
    }
}

/// Whether `slot` is empty or names an item of `inventory` of kind `kind`.
pub open spec fn slot_ok(slot: Option<usize>, inventory: Seq<ItemView>, kind: ItemKind) -> bool {
    match slot {
        Some(i) => i < inventory.len() && inventory[i as int].kind == kind,
        None => true,
    }
}

/// The direction a step of `(dx, dy)` faces; `facing` where it is no
/// single step along one axis.
pub open spec fn facing_after(facing: Direction, dx: i32, dy: i32) -> Direction {
    if dx == 0 && dy == -1 {
        Direction::Up
    } else if dx == 0 && dy == 1 {
        Direction::Down
    } else if dx == -1 && dy == 0 {
        Direction::Left
    } else if dx == 1 && dy == 0 {
        Direction::Right
    } else {
        facing
    }
}

/// The progress of a quest that was just taken on.
pub open spec fn fresh_quest(id: Seq<char>) -> QuestProgressView {
    QuestProgressView { quest_id: id, current_count: 0, completed: false, rewarded: false }
}

/// The position of the first entry of `quests` for the quest `id`.
pub open spec fn quest_position(quests: Seq<QuestProgressView>, id: Seq<char>) -> Option<int> {
    first_true(Seq::new(quests.len(), |i: int| quests[i].quest_id == id))
}

/// The position of the first item of `inventory` known by `id`.
pub open spec fn item_position(inventory: Seq<ItemView>, id: Seq<char>) -> Option<int> {
    first_true(Seq::new(inventory.len(), |i: int| inventory[i].id == id))
}

/// The player.
pub struct Player {
    pub name: String,
    pub stats: PlayerStats,
    pub inventory: Vec<Item>,
    pub equipped_weapon: Option<usize>,
    pub equipped_armor: Option<usize>,
    pub equipped_accessory: Option<usize>,
    pub current_map_id: String,
    pub x: usize,
    pub y: usize,
    pub facing: Direction,
    pub quests: Vec<QuestProgress>,
    pub opened_treasures: Vec<(String, usize, usize)>,
}

/// Model of a [`Player`].
pub struct PlayerView {
    pub name: Seq<char>,
    pub stats: PlayerStats,
    pub inventory: Seq<ItemView>,
    pub equipped_weapon: Option<usize>,
    pub equipped_armor: Option<usize>,
    pub equipped_accessory: Option<usize>,
    pub current_map_id: Seq<char>,
    pub x: usize,
    pub y: usize,
    pub facing: Direction,
    pub quests: Seq<QuestProgressView>,
    pub opened_treasures: Seq<(Seq<char>, usize, usize)>,
}

impl View for Player {
    type V = PlayerView;

    open spec fn view(&self) -> PlayerView {
        PlayerView {
            name: self.name@,
            stats: self.stats,
            inventory: views(self.inventory@),
            equipped_weapon: self.equipped_weapon,
            equipped_armor: self.equipped_armor,
            equipped_accessory: self.equipped_accessory,
            current_map_id: self.current_map_id@,
            x: self.x,
            y: self.y,
            facing: self.facing,
            quests: views(self.quests@),
            opened_treasures: views(self.opened_treasures@),
        }
    }
}

impl PlayerView {
    /// A new player called `name` on the map `start_map`: the starting
    /// numbers, nothing owned, nothing equipped, at the origin, facing down.
    pub open spec fn initial(name: Seq<char>, start_map: Seq<char>) -> PlayerView {
        PlayerView {
            name,
            stats: PlayerStats::initial(),
            inventory: Seq::empty(),
            equipped_weapon: None,
            equipped_armor: None,
            equipped_accessory: None,
            current_map_id: start_map,
            x: 0,
            y: 0,
            facing: Direction::Down,
            quests: Seq::empty(),
            opened_treasures: Seq::empty(),
        }
    }

    /// Each equipment slot is empty or names an item of the inventory of
    /// the slot's kind.
    pub open spec fn equip_ok(self) -> bool {
        &&& slot_ok(self.equipped_weapon, self.inventory, ItemKind::Weapon)
        &&& slot_ok(self.equipped_armor, self.inventory, ItemKind::Armor)
        &&& slot_ok(self.equipped_accessory, self.inventory, ItemKind::Accessory)
    }

    /// Whether the treasure at `(x, y)` of the map `map_id` was opened.
    pub open spec fn treasure_opened(self, map_id: Seq<char>, x: usize, y: usize) -> bool {
        self.opened_treasures.contains((map_id, x, y))
    }

    /// The player after the treasure at `(x, y)` of `map_id` was opened.
    pub open spec fn with_treasure(self, map_id: Seq<char>, x: usize, y: usize) -> PlayerView {
        if self.treasure_opened(map_id, x, y) {
            self
        } else {
            PlayerView { opened_treasures: self.opened_treasures.push((map_id, x, y)), ..self }
        }
    }

    /// The player after arriving on `map`: at its start tile if it has
    /// one, else where the player stood.
    pub open spec fn spawned_at(self, map: GameMapView) -> PlayerView {
        match map.player_start() {
            Some(cell) => PlayerView { x: cell.0, y: cell.1, current_map_id: map.id, ..self },
            None => PlayerView { current_map_id: map.id, ..self },
        }
    }

    /// The item that `slot` names, if it names one.
    pub open spec fn item_in(self, slot: Option<usize>) -> Option<ItemView> {
        match slot {
            Some(i) => if i < self.inventory.len() {
                Some(self.inventory[i as int])
            } else {
                None
            },
            None => None,
        }
    }

    pub open spec fn weapon(self) -> Option<ItemView> {
        self.item_in(self.equipped_weapon)
    }

    pub open spec fn armor(self) -> Option<ItemView> {
        self.item_in(self.equipped_armor)
    }

    pub open spec fn total_atk(self) -> i32 {
        self.stats.atk_with(self.weapon())
    }

    pub open spec fn total_def(self) -> i32 {
        self.stats.def_with(self.armor())
    }

    /// The player with `item` added at the end of the inventory.
    pub open spec fn with_item(self, item: ItemView) -> PlayerView {
        PlayerView { inventory: self.inventory.push(item), ..self }
    }

    /// The player without the inventory item at `index`, the equipment
    /// slots following the items they named.
    pub open spec fn without_item_at(self, index: usize) -> PlayerView {
        PlayerView {
            inventory: self.inventory.remove(index as int),
            equipped_weapon: shifted(self.equipped_weapon, index),
            equipped_armor: shifted(self.equipped_armor, index),
            equipped_accessory: shifted(self.equipped_accessory, index),
            ..self
        }
    }

    /// The player after the inventory item at `index` was used: a
    /// consumable heals by its first parameter and is gone; a weapon, an
    /// armor or an accessory is put into its slot.
    pub open spec fn item_used(self, index: usize) -> PlayerView {
        if index >= self.inventory.len() {
            self
        } else {
            let item = self.inventory[index as int];
            match item.kind {
                ItemKind::Consumable => PlayerView {
                    stats: self.stats.healed(item.param1),
                    ..self
                }.without_item_at(index),
                ItemKind::Weapon => PlayerView { equipped_weapon: Some(index), ..self },
                ItemKind::Armor => PlayerView { equipped_armor: Some(index), ..self },
                ItemKind::Accessory => PlayerView { equipped_accessory: Some(index), ..self },
            }
        }
    }

    /// Whether the player can step by `(dx, dy)` on `map`: the cell there
    /// can be walked on. A cell outside the grid is wall.
    pub open spec fn can_move(self, map: GameMapView, dx: i32, dy: i32) -> bool {
        match (offset(self.x, dx), offset(self.y, dy)) {
            (Some(nx), Some(ny)) => map.tile_at(nx, ny).passable(),
            _ => false,
        }
    }

    /// The player after a step of `(dx, dy)`, facing that way.
    pub open spec fn moved_by(self, dx: i32, dy: i32) -> PlayerView {
        PlayerView {
            x: clamp_usize(self.x + dx),
            y: clamp_usize(self.y + dy),
            facing: facing_after(self.facing, dx, dy),
            ..self
        }
    }

    /// The player facing the way of a step of `(dx, dy)`.
    pub open spec fn turned(self, dx: i32, dy: i32) -> PlayerView {
        PlayerView { facing: facing_after(self.facing, dx, dy), ..self }
    }

    /// Whether the player has taken on the quest `id` and was not yet
    /// rewarded for it.
    pub open spec fn has_quest(self, id: Seq<char>) -> bool {
        exists|i: int|
            0 <= i < self.quests.len() && self.quests[i].quest_id == id && !self.quests[i].rewarded
    }

    /// Whether some entry for the quest `id` is completed.
    pub open spec fn quest_complete(self, id: Seq<char>) -> bool {
        exists|i: int|
            0 <= i < self.quests.len() && self.quests[i].quest_id == id && self.quests[i].completed
    }

    /// Whether the player has an entry for the quest `id`, rewarded or not.
    pub open spec fn knows_quest(self, id: Seq<char>) -> bool {
        exists|i: int| 0 <= i < self.quests.len() && self.quests[i].quest_id == id
    }

    /// The player after taking on the quest `id`: a fresh entry, unless
    /// there is an entry for the quest already.
    pub open spec fn with_quest(self, id: Seq<char>) -> PlayerView {
        if self.knows_quest(id) {
            self
        } else {
            PlayerView { quests: self.quests.push(fresh_quest(id)), ..self }
        }
    }

    /// The player after the first entry for the quest `id` was marked as
    /// rewarded.
    pub open spec fn quest_rewarded(self, id: Seq<char>) -> PlayerView {
        match quest_position(self.quests, id) {
            Some(i) => PlayerView {
                quests: self.quests.update(
                    i,
                    QuestProgressView { rewarded: true, ..self.quests[i] },
                ),
                ..self
            },
            None => self,
        }
    }

    /// Whether the player was rewarded for the quest `id`: some entry for
    /// it is marked as rewarded.
    pub open spec fn was_rewarded(self, id: Seq<char>) -> bool {
        exists|i: int|
            0 <= i < self.quests.len() && self.quests[i].quest_id == id && self.quests[i].rewarded
    }

    /// Whether the inventory holds an item known by `id`.
    pub open spec fn has_item(self, id: Seq<char>) -> bool {
        exists|i: int| 0 <= i < self.inventory.len() && self.inventory[i].id == id
    }

    /// The player without the first inventory item known by `id`.
    pub open spec fn without_item(self, id: Seq<char>) -> PlayerView {
        match item_position(self.inventory, id) {
            Some(i) => self.without_item_at(i as usize),
            None => self,
        }
    }
}

/// The number of entries of `quests` for the quest `id`.
pub open spec fn quest_entries(quests: Seq<QuestProgressView>, id: Seq<char>) -> nat
    decreases quests.len(),
{
    if quests.len() == 0 {
        0
    } else if quests.last().quest_id == id {
        quest_entries(quests.drop_last(), id) + 1
    } else {
        quest_entries(quests.drop_last(), id)
    }
}

/// A list counts no entry for a quest exactly if it has none.
pub proof fn lemma_quest_entries(quests: Seq<QuestProgressView>, id: Seq<char>)
    ensures
        quest_entries(quests, id) == 0 <==> forall|i: int|
            0 <= i < quests.len() ==> quests[i].quest_id != id,
    decreases quests.len(),
{
    if quests.len() > 0 {
        let front = quests.drop_last();
        lemma_quest_entries(front, id);
        assert(quests.last() == quests[quests.len() - 1]);
        if forall|i: int| 0 <= i < quests.len() ==> quests[i].quest_id != id {
            assert forall|i: int| 0 <= i < front.len() implies front[i].quest_id != id by {
                assert(front[i] == quests[i]);
            }
        }
        if quest_entries(quests, id) == 0 {
            assert forall|i: int| 0 <= i < quests.len() implies quests[i].quest_id != id by {
                if i < front.len() {
                    assert(front[i] == quests[i]);
                }
            }
        }
    }
}

/// Taking on a quest is idempotent: a player who takes on a quest twice is
/// the player who took it on once, and has exactly one entry for it,
/// unless there was more than one before.
pub proof fn lemma_with_quest_idempotent(p: PlayerView, id: Seq<char>)
    ensures
        p.with_quest(id).knows_quest(id),
        p.with_quest(id).with_quest(id) == p.with_quest(id),
        quest_entries(p.quests, id) <= 1 ==> quest_entries(
            p.with_quest(id).with_quest(id).quests,
            id,
        ) == 1,
{
    let once = p.with_quest(id);
    lemma_quest_entries(p.quests, id);
    if !p.knows_quest(id) {
        let last = p.quests.len() as int;
        assert(once.quests[last] == fresh_quest(id));
        assert(once.quests[last].quest_id == id);
        assert(once.quests.drop_last() =~= p.quests);
    }
    assert(once.knows_quest(id));
}

/// Opening a treasure is idempotent: a treasure that was opened is
/// opened, and opening it again changes nothing.
pub proof fn lemma_with_treasure_idempotent(p: PlayerView, map_id: Seq<char>, x: usize, y: usize)
    ensures
        p.with_treasure(map_id, x, y).treasure_opened(map_id, x, y),
        p.with_treasure(map_id, x, y).with_treasure(map_id, x, y) == p.with_treasure(map_id, x, y),
{
    let once = p.with_treasure(map_id, x, y);
    if !p.treasure_opened(map_id, x, y) {
        let last = p.opened_treasures.len() as int;
        assert(once.opened_treasures[last] == (map_id, x, y));
    }
}

/// Changes of the inventory keep the equipment sound: where each slot was
/// empty or named an item of its kind, it is so after an item was added,
/// after an item was removed, by position or by name, and after an item
/// was used. What a used consumable leaves behind is the inventory without
/// it, each slot following the item it named.
pub proof fn lemma_equipment_kept(p: PlayerView, item: ItemView, index: usize, id: Seq<char>)
    requires
        p.equip_ok(),
    ensures
        p.with_item(item).equip_ok(),
        index < p.inventory.len() ==> p.without_item_at(index).equip_ok(),
        p.without_item(id).equip_ok(),
        p.item_used(index).equip_ok(),
        index < p.inventory.len() && p.inventory[index as int].kind == ItemKind::Consumable ==> {
            let q = p.item_used(index);
            &&& q.inventory == p.inventory.remove(index as int)
            &&& q.equipped_weapon == shifted(p.equipped_weapon, index)
            &&& q.equipped_armor == shifted(p.equipped_armor, index)
            &&& q.equipped_accessory == shifted(p.equipped_accessory, index)
        },
{
    let flags = Seq::new(p.inventory.len(), |i: int| p.inventory[i].id == id);
    lemma_first_true(flags);
}

/// The slot after the item at `removed` is gone.
fn shift_slot(slot: Option<usize>, removed: usize) -> (r: Option<usize>)
    ensures
        r == shifted(slot, removed),
{
    match slot {
        Some(i) => if i > removed {
            Some(i - 1)
        } else if i == removed {
            None
        } else {
            slot
        },
        None => None,
    }
}

/// The direction a step of `(dx, dy)` faces.
fn face(facing: Direction, dx: i32, dy: i32) -> (r: Direction)
    ensures
        r == facing_after(facing, dx, dy),
{
    if dx == 0 && dy == -1 {
        Direction::Up
    } else if dx == 0 && dy == 1 {
        Direction::Down
    } else if dx == -1 && dy == 0 {
        Direction::Left
    } else if dx == 1 && dy == 0 {
        Direction::Right
    } else {
        facing
    }
}

impl Player {
    pub fn new(name: String, start_map: &str) -> (r: Self)
        ensures
            r@ == PlayerView::initial(name@, start_map@),
    {
        let r = Player {
            name,
            stats: PlayerStats::default(),
            inventory: Vec::new(),
            equipped_weapon: None,
            equipped_armor: None,
            equipped_accessory: None,
            current_map_id: String::from_str(start_map),
            x: 0,
            y: 0,
            facing: Direction::Down,
            quests: Vec::new(),
            opened_treasures: Vec::new(),
        };
        assert(r@.inventory =~= Seq::empty());
        assert(r@.quests =~= Seq::empty());
        assert(r@.opened_treasures =~= Seq::empty());
        r
    }

    pub fn is_treasure_opened(&self, map_id: &str, x: usize, y: usize) -> (r: bool)
        ensures
            r == self@.treasure_opened(map_id@, x, y),
    {
        let mut i: usize = 0;
        while i < self.opened_treasures.len()
            invariant
                i <= self.opened_treasures.len(),
                forall|j: int| 0 <= j < i ==> self@.opened_treasures[j] != (map_id@, x, y),
            decreases self.opened_treasures.len() - i,
        {
            let t = &self.opened_treasures[i];
            if str_eq(t.0.as_str(), map_id) && t.1 == x && t.2 == y {
                assert(self@.opened_treasures[i as int] == (map_id@, x, y));
                return true;
            }
            i += 1;
        }
        false
    }

    pub fn open_treasure(&mut self, map_id: &str, x: usize, y: usize)
        ensures
            final(self)@ == old(self)@.with_treasure(map_id@, x, y),
    {
        if !self.is_treasure_opened(map_id, x, y) {
            let entry = (String::from_str(map_id), x, y);
            proof {
                lemma_views_push(self.opened_treasures@, entry);
            }
            self.opened_treasures.push(entry);
        }
    }

    pub fn spawn_at_map(&mut self, map: &GameMap)
        ensures
            final(self)@ == old(self)@.spawned_at(map@),
    {
        match map.find_player_start() {
            Some((x, y)) => {
                self.x = x;
                self.y = y;
            },
            None => {},
        }
        self.current_map_id = map.id.clone();
    }

    /// The item in `slot`, if the slot names one.
    fn item_in(&self, slot: Option<usize>) -> (r: Option<&Item>)
        ensures
            match r {
                Some(item) => self@.item_in(slot) == Some(item@),
                None => self@.item_in(slot) is None,
            },
    {
        match slot {
            Some(i) => if i < self.inventory.len() {
                Some(&self.inventory[i])
            } else {
                None
            },
            None => None,
        }
    }

    pub fn get_weapon(&self) -> (r: Option<&Item>)
        ensures
            match r {
                Some(item) => self@.weapon() == Some(item@),
                None => self@.weapon() is None,
            },
    {
        self.item_in(self.equipped_weapon)
    }

    pub fn get_armor(&self) -> (r: Option<&Item>)
        ensures
            match r {
                Some(item) => self@.armor() == Some(item@),
                None => self@.armor() is None,
            },
    {
        self.item_in(self.equipped_armor)
    }

    pub fn total_atk(&self) -> (r: i32)
        ensures
            r == self@.total_atk(),
    {
        self.stats.total_atk(self.get_weapon())
    }

    pub fn total_def(&self) -> (r: i32)
        ensures
            r == self@.total_def(),
    {
        self.stats.total_def(self.get_armor())
    }

    pub fn add_item(&mut self, item: Item)
        ensures
            final(self)@ == old(self)@.with_item(item@),
            old(self)@.equip_ok() ==> final(self)@.equip_ok(),
    {
        proof {
            lemma_views_push(self.inventory@, item);
        }
        self.inventory.push(item);
    }

    /// Takes the item at `index` out of the inventory; the equipment slots
    /// follow the items they named.
    pub(crate) fn remove_item_at(&mut self, index: usize) -> (item: Item)
        requires
            index < old(self).inventory.len(),
        ensures
            final(self)@ == old(self)@.without_item_at(index),
            item@ == old(self)@.inventory[index as int],
            old(self)@.equip_ok() ==> final(self)@.equip_ok(),
    {
        proof {
            lemma_views_remove(self.inventory@, index as int);
        }
        let item = self.inventory.remove(index);
        self.fix_equipped_indices(index);
        item
    }

    /// Uses the item at `index`, and says whether there was one.
    pub fn use_item(&mut self, index: usize) -> (used: bool)
        ensures
            used == (index < old(self).inventory.len()),
            final(self)@ == old(self)@.item_used(index),
            old(self)@.equip_ok() ==> final(self)@.equip_ok(),
    {
        if index >= self.inventory.len() {
            return false;
        }
        match self.inventory[index].kind {
            ItemKind::Consumable => {
                let heal = self.inventory[index].param1;
                self.stats.heal(heal);
                let _ = self.remove_item_at(index);
            },
            ItemKind::Weapon => {
                self.equipped_weapon = Some(index);
            },
            ItemKind::Armor => {
                self.equipped_armor = Some(index);
            },
            ItemKind::Accessory => {
                self.equipped_accessory = Some(index);
            },
        }
        true
    }

    fn fix_equipped_indices(&mut self, removed: usize)
        ensures
            final(self).equipped_weapon == shifted(old(self).equipped_weapon, removed),
            final(self).equipped_armor == shifted(old(self).equipped_armor, removed),
            final(self).equipped_accessory == shifted(old(self).equipped_accessory, removed),
            final(self).name == old(self).name,
            final(self).stats == old(self).stats,
            final(self).inventory == old(self).inventory,
            final(self).current_map_id == old(self).current_map_id,
            final(self).x == old(self).x,
            final(self).y == old(self).y,
            final(self).facing == old(self).facing,
            final(self).quests == old(self).quests,
            final(self).opened_treasures == old(self).opened_treasures,
    {
        self.equipped_weapon = shift_slot(self.equipped_weapon, removed);
        self.equipped_armor = shift_slot(self.equipped_armor, removed);
        self.equipped_accessory = shift_slot(self.equipped_accessory, removed);
    }

    pub fn can_move(&self, map: &GameMap, dx: i32, dy: i32) -> (r: bool)
        ensures
            r == self@.can_move(map@, dx, dy),
    {
        match (checked_offset(self.x, dx), checked_offset(self.y, dy)) {
            (Some(nx), Some(ny)) => map.get_tile(nx, ny).is_passable(),
            _ => false,
        }
    }

    pub fn move_by(&mut self, dx: i32, dy: i32)
        ensures
            final(self)@ == old(self)@.moved_by(dx, dy),
    {
        self.x = sat_offset(self.x, dx);
        self.y = sat_offset(self.y, dy);
        self.facing = face(self.facing, dx, dy);
    }

    pub fn set_facing(&mut self, dx: i32, dy: i32)
        ensures
            final(self)@ == old(self)@.turned(dx, dy),
    {
        self.facing = face(self.facing, dx, dy);
    }

    pub fn has_quest(&self, quest_id: &str) -> (r: bool)
        ensures
            r == self@.has_quest(quest_id@),
    {
        let mut i: usize = 0;
        while i < self.quests.len()
            invariant
                i <= self.quests.len(),
                forall|j: int|
                    0 <= j < i ==> !(self@.quests[j].quest_id == quest_id@
                        && !self@.quests[j].rewarded),
            decreases self.quests.len() - i,
        {
            if str_eq(self.quests[i].quest_id.as_str(), quest_id) && !self.quests[i].rewarded {
                assert(self@.quests[i as int].quest_id == quest_id@);
                return true;
            }
            i += 1;
        }
        false
    }

    pub fn is_quest_complete(&self, quest_id: &str) -> (r: bool)
        ensures
            r == self@.quest_complete(quest_id@),
    {
        let mut i: usize = 0;
        while i < self.quests.len()
            invariant
                i <= self.quests.len(),
                forall|j: int|
                    0 <= j < i ==> !(self@.quests[j].quest_id == quest_id@
                        && self@.quests[j].completed),
            decreases self.quests.len() - i,
        {
            if str_eq(self.quests[i].quest_id.as_str(), quest_id) && self.quests[i].completed {
                assert(self@.quests[i as int].quest_id == quest_id@);
                return true;
            }
            i += 1;
        }
        false
    }

    /// Whether the player has an entry for the quest `quest_id`, rewarded
    /// or not.
    pub fn knows_quest(&self, quest_id: &str) -> (r: bool)
        ensures
            r == self@.knows_quest(quest_id@),
    {
        let mut i: usize = 0;
        while i < self.quests.len()
            invariant
                i <= self.quests.len(),
                forall|j: int| 0 <= j < i ==> self@.quests[j].quest_id != quest_id@,
            decreases self.quests.len() - i,
        {
            if str_eq(self.quests[i].quest_id.as_str(), quest_id) {
                assert(self@.quests[i as int].quest_id == quest_id@);
                return true;
            }
            i += 1;
        }
        false
    }

    /// Takes on the quest `quest_id`, unless the player has an entry for it
    /// already.
    pub fn add_quest(&mut self, quest_id: &str)
        ensures
            final(self)@ == old(self)@.with_quest(quest_id@),
    {
        if !self.knows_quest(quest_id) {
            let entry = QuestProgress {
                quest_id: String::from_str(quest_id),
                current_count: 0,
                completed: false,
                rewarded: false,
            };
            proof {
                lemma_views_push(self.quests@, entry);
            }
            self.quests.push(entry);
        }
    }

    /// Whether the player was rewarded for the quest `quest_id`.
    pub fn is_quest_rewarded(&self, quest_id: &str) -> (r: bool)
        ensures
            r == self@.was_rewarded(quest_id@),
    {
        let mut i: usize = 0;
        while i < self.quests.len()
            invariant
                i <= self.quests.len(),
                forall|j: int|
                    0 <= j < i ==> !(self@.quests[j].quest_id == quest_id@
                        && self@.quests[j].rewarded),
            decreases self.quests.len() - i,
        {
            if str_eq(self.quests[i].quest_id.as_str(), quest_id) && self.quests[i].rewarded {
                assert(self@.quests[i as int].quest_id == quest_id@);
                return true;
            }
            i += 1;
        }
        false
    }

    /// Marks the first entry for the quest `quest_id` as rewarded.
    pub fn complete_quest(&mut self, quest_id: &str)
        ensures
            final(self)@ == old(self)@.quest_rewarded(quest_id@),
    {
        let ghost flags = Seq::new(
            self@.quests.len(),
            |i: int| self@.quests[i].quest_id == quest_id@,
        );
        let mut i: usize = 0;
        while i < self.quests.len()
            invariant
                i <= self.quests.len(),
                *self == *old(self),
                flags == Seq::new(
                    self@.quests.len(),
                    |i: int| self@.quests[i].quest_id == quest_id@,
                ),
                forall|j: int| 0 <= j < i ==> !flags[j],
            decreases self.quests.len() - i,
        {
            if str_eq(self.quests[i].quest_id.as_str(), quest_id) {
                proof {
                    lemma_first_true_some(flags, i as int);
                }
                self.quests[i].rewarded = true;
                assert(self@.quests =~= old(self)@.quests.update(
                    i as int,
                    QuestProgressView { rewarded: true, ..old(self)@.quests[i as int] },
                ));
                return ;
            }
            i += 1;
        }
        proof {
            lemma_first_true_none(flags);
        }
    }

    pub fn has_item(&self, item_id: &str) -> (r: bool)
        ensures
            r == self@.has_item(item_id@),
    {
        let mut i: usize = 0;
        while i < self.inventory.len()
            invariant
                i <= self.inventory.len(),
                forall|j: int| 0 <= j < i ==> self@.inventory[j].id != item_id@,
            decreases self.inventory.len() - i,
        {
            if str_eq(self.inventory[i].id.as_str(), item_id) {
                assert(self@.inventory[i as int].id == item_id@);
                return true;
            }
            i += 1;
        }
        false
    }

    /// Removes the first item known by `item_id`, and says whether there
    /// was one.
    pub fn remove_item(&mut self, item_id: &str) -> (removed: bool)
        ensures
            removed == old(self)@.has_item(item_id@),
            final(self)@ == old(self)@.without_item(item_id@),
            old(self)@.equip_ok() ==> final(self)@.equip_ok(),
    {
        let ghost flags = Seq::new(
            self@.inventory.len(),
            |i: int| self@.inventory[i].id == item_id@,
        );
        let mut i: usize = 0;
        while i < self.inventory.len()
            invariant
                i <= self.inventory.len(),
                *self == *old(self),
                flags == Seq::new(
                    self@.inventory.len(),
                    |i: int| self@.inventory[i].id == item_id@,
                ),
                forall|j: int| 0 <= j < i ==> !flags[j],
            decreases self.inventory.len() - i,
        {
            if str_eq(self.inventory[i].id.as_str(), item_id) {
                proof {
                    lemma_first_true_some(flags, i as int);
                    assert(self@.inventory[i as int].id == item_id@);
                }
                let _ = self.remove_item_at(i);
                return true;
            }
            i += 1;
        }
        proof {
            lemma_first_true_none(flags);
            assert forall|j: int| 0 <= j < self@.inventory.len() implies self@.inventory[j].id
                != item_id@ by {
                assert(!flags[j]);
            }
        }
        false
    }
}

} // verus!
