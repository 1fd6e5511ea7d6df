//! The line-oriented text formats of the game content.
//!
//! A text is read record by record: line by line, each line without the
//! white space at either end. An empty record and one that starts with `#`
//! are passed over, and so is a record that cannot be read; a number that
//! cannot be read has a default.

pub mod dialogs;
pub mod maps;

use crate::data::types::{
    lemma_views_push, views, Enemy, EnemyView, Item, ItemKind, ItemView, Npc, NpcType, NpcView,
    Quest, QuestType, QuestView, Shop, ShopView,
};
use crate::text::{
    number_or, position_or_zero, read_number, read_position, reads, records, records_of, split,
    split_at, string_of, texts,
};
use vstd::prelude::*;

verus! {

/// What the records `lines` hold, in order: for each record that `read`
/// can read, what it reads.
pub open spec fn collected<T>(lines: Seq<Seq<char>>, read: spec_fn(Seq<char>) -> Option<T>) -> Seq<T>
    decreases lines.len(),
{
    if lines.len() == 0 {
        Seq::empty()
    } else {
        match read(lines.last()) {
            Some(x) => collected(lines.drop_last(), read).push(x),
            None => collected(lines.drop_last(), read),
        }
    }
}

/// One more record read.
pub proof fn lemma_collected_step<T>(
    lines: Seq<Seq<char>>,
    read: spec_fn(Seq<char>) -> Option<T>,
    i: int,
)
    requires
        0 <= i < lines.len(),
    ensures
        collected(lines.take(i + 1), read) == match read(lines[i]) {
            Some(x) => collected(lines.take(i), read).push(x),
            None => collected(lines.take(i), read),
        },
{
    assert(lines.take(i + 1).drop_last() =~= lines.take(i));
    assert(lines.take(i + 1).last() == lines[i]);
}

/// Whether the record `line` holds content: it is not empty and does not
/// start with `#`.
pub open spec fn is_content(line: Seq<char>) -> bool {
    line.len() > 0 && line[0] != '#'
}

/// Whether the record `line` holds content.
pub fn holds_content(line: &Vec<char>) -> (r: bool)
    ensures
        r == is_content(line@),
{
    line.len() > 0 && line[0] != '#'
}

/// The fields of a record: its pieces between colons.
pub fn fields_of(line: &Vec<char>) -> (parts: Vec<Vec<char>>)
    ensures
        parts.len() == split(line@, ':').len(),
        parts.len() >= 1,
        forall|i: int| 0 <= i < parts.len() ==> (#[trigger] parts@[i])@ == split(line@, ':')[i],
{
    let parts = split_at(line, ':');
    assert forall|i: int| 0 <= i < parts.len() implies (#[trigger] parts@[i])@ == split(
        line@,
        ':',
    )[i] by {
        assert(texts(parts@)[i] == parts@[i]@);
    }
    parts
}

/// The item kind that the letter `s` stands for.
pub open spec fn item_kind_of(s: Seq<char>) -> Option<ItemKind> {
    if s == "W"@ {
        Some(ItemKind::Weapon)
    } else if s == "A"@ {
        Some(ItemKind::Armor)
    } else if s == "C"@ {
        Some(ItemKind::Accessory)
    } else if s == "I"@ {
        Some(ItemKind::Consumable)
    } else {
        None
    }
}

/// The item kind that the letter `s` stands for.
pub fn read_item_kind(s: &Vec<char>) -> (r: Option<ItemKind>)
    ensures
        r == item_kind_of(s@),
{
    if reads(s, "W") {
        Some(ItemKind::Weapon)
    } else if reads(s, "A") {
        Some(ItemKind::Armor)
    } else if reads(s, "C") {
        Some(ItemKind::Accessory)
    } else if reads(s, "I") {
        Some(ItemKind::Consumable)
    } else {
        None
    }
}

/// The item that the record `line` holds: `kind:id:name:param1:param2`
/// and, but for a consumable, `:price`. A consumable's price is its fifth
/// field, and its second and third parameters are zero; any other item's
/// third parameter repeats its second.
pub open spec fn item_in(line: Seq<char>) -> Option<ItemView> {
    let parts = split(line, ':');
    if !is_content(line) || parts.len() < 5 {
        None
    } else {
        match item_kind_of(parts[0]) {
            Some(kind) => {
                let second = number_or(parts[4], 0);
                Some(
                    ItemView {
                        id: parts[1],
                        name: parts[2],
                        kind,
                        param1: number_or(parts[3], 0),
                        param2: if kind == ItemKind::Consumable {
                            0
                        } else {
                            second
                        },
                        param3: if kind == ItemKind::Consumable {
                            0
                        } else {
                            second
                        },
                        price: if kind == ItemKind::Consumable {
                            second
                        } else if parts.len() > 5 {
                            number_or(parts[5], 0)
                        } else {
                            0
                        },
                    },
                )
            },
            None => None,
        }
    }
}

/// The items that the text `data` holds.
pub open spec fn items_in(data: Seq<char>) -> Seq<ItemView> {
    collected(records(data), |line: Seq<char>| item_in(line))
}

/// The item that the record `line` holds.
pub fn parse_item(line: &Vec<char>) -> (r: Option<Item>)
    ensures
        match r {
            Some(item) => item_in(line@) == Some(item@),
            None => item_in(line@) is None,
        },
{
    if !holds_content(line) {
        return None;
    }
    let parts = fields_of(line);
    if parts.len() < 5 {
        return None;
    }
    let kind = match read_item_kind(&parts[0]) {
        Some(kind) => kind,
        None => {
            return None;
        },
    };
    let second = read_number(&parts[4], 0);
    let consumable = kind == ItemKind::Consumable;
    let price = if consumable {
        second
    } else if parts.len() > 5 {
        read_number(&parts[5], 0)
    } else {
        0
    };
    Some(
        Item {
            id: string_of(&parts[1]),
            name: string_of(&parts[2]),
            kind,
            param1: read_number(&parts[3], 0),
            param2: if consumable {
                0
            } else {
                second
            },
            param3: if consumable {
                0
            } else {
                second
            },
            price,
        },
    )
}

/// The items that the text `data` holds.
pub fn parse_items(data: &str) -> (items: Vec<Item>)
    ensures
        views(items@) == items_in(data@),
{
    let lines = records_of(data);
    let ghost read = |line: Seq<char>| item_in(line);
    let mut items: Vec<Item> = Vec::new();
    let mut i: usize = 0;
    assert(views(items@) =~= collected(records(data@).take(0), read));
    while i < lines.len()
        invariant
            i <= lines.len(),
            texts(lines@) == records(data@),
            read == (|line: Seq<char>| item_in(line)),
            views(items@) == collected(records(data@).take(i as int), read),
        decreases lines.len() - i,
    {
        proof {
            lemma_collected_step(records(data@), read, i as int);
            assert(texts(lines@)[i as int] == lines@[i as int]@);
        }
        match parse_item(&lines[i]) {
            Some(item) => {
                proof {
                    lemma_views_push(items@, item);
                }
                items.push(item);
            },
            None => {},
        }
        i += 1;
    }
    assert(records(data@).take(lines.len() as int) =~= records(data@));
    items
}

/// The enemy that the record `line` holds: `id:name:hp:atk:def:exp:gold`.
pub open spec fn enemy_in(line: Seq<char>) -> Option<EnemyView> {
    let parts = split(line, ':');
    if !is_content(line) || parts.len() < 7 {
        None
    } else {
        Some(
            EnemyView {
                id: parts[0],
                name: parts[1],
                hp: number_or(parts[2], 0),
                atk: number_or(parts[3], 0),
                def: number_or(parts[4], 0),
                exp: number_or(parts[5], 0),
                gold: number_or(parts[6], 0),
            },
        )
    }
}

/// The enemies that the text `data` holds.
pub open spec fn enemies_in(data: Seq<char>) -> Seq<EnemyView> {
    collected(records(data), |line: Seq<char>| enemy_in(line))
}

/// The enemy that the record `line` holds.
pub fn parse_enemy(line: &Vec<char>) -> (r: Option<Enemy>)
    ensures
        match r {
            Some(enemy) => enemy_in(line@) == Some(enemy@),
            None => enemy_in(line@) is None,
        },
{
    if !holds_content(line) {
        return None;
    }
    let parts = fields_of(line);
    if parts.len() < 7 {
        return None;
    }
    Some(
        Enemy {
            id: string_of(&parts[0]),
            name: string_of(&parts[1]),
            hp: read_number(&parts[2], 0),
            atk: read_number(&parts[3], 0),
            def: read_number(&parts[4], 0),
            exp: read_number(&parts[5], 0),
            gold: read_number(&parts[6], 0),
        },
    )
}

/// The enemies that the text `data` holds.
pub fn parse_enemies(data: &str) -> (enemies: Vec<Enemy>)
    ensures
        views(enemies@) == enemies_in(data@),
{
    let lines = records_of(data);
    let ghost read = |line: Seq<char>| enemy_in(line);
    let mut enemies: Vec<Enemy> = Vec::new();
    let mut i: usize = 0;
    assert(views(enemies@) =~= collected(records(data@).take(0), read));
    while i < lines.len()
        invariant
            i <= lines.len(),
            texts(lines@) == records(data@),
            read == (|line: Seq<char>| enemy_in(line)),
            views(enemies@) == collected(records(data@).take(i as int), read),
        decreases lines.len() - i,
    {
        proof {
            lemma_collected_step(records(data@), read, i as int);
            assert(texts(lines@)[i as int] == lines@[i as int]@);
        }
        match parse_enemy(&lines[i]) {
            Some(enemy) => {
                proof {
                    lemma_views_push(enemies@, enemy);
                }
                enemies.push(enemy);
            },
            None => {},
        }
        i += 1;
    }
    assert(records(data@).take(lines.len() as int) =~= records(data@));
    enemies
}

/// What the letter `s` says a character does; a villager where it is not
/// known.
pub open spec fn npc_type_of(s: Seq<char>) -> NpcType {
    if s == "V"@ {
        NpcType::Villager
    } else if s == "S"@ {
        NpcType::ShopKeeper
    } else if s == "Q"@ {
        NpcType::QuestGiver
    } else if s == "H"@ {
        NpcType::Healer
    } else {
        NpcType::Villager
    }
}

/// The character that the record `line` holds:
/// `id:name:map:type:x:y` and then, if they are there, `:dialog` and
/// `:shop`.
pub open spec fn npc_in(line: Seq<char>) -> Option<NpcView> {
    let parts = split(line, ':');
    if !is_content(line) || parts.len() < 6 {
        None
    } else {
        Some(
            NpcView {
                name: parts[1],
                map_id: parts[2],
                x: position_or_zero(parts[4]),
                y: position_or_zero(parts[5]),
                npc_type: npc_type_of(parts[3]),
                dialog_id: if parts.len() > 6 {
                    parts[6]
                } else {
                    Seq::empty()
                },
                shop_id: if parts.len() > 7 {
                    Some(parts[7])
                } else {
                    None
                },
            },
        )
    }
}

/// The characters that the text `data` holds.
pub open spec fn npcs_in(data: Seq<char>) -> Seq<NpcView> {
    collected(records(data), |line: Seq<char>| npc_in(line))
}

/// The character that the record `line` holds.
pub fn parse_npc(line: &Vec<char>) -> (r: Option<Npc>)
    ensures
        match r {
            Some(npc) => npc_in(line@) == Some(npc@),
            None => npc_in(line@) is None,
        },
{
    if !holds_content(line) {
        return None;
    }
    let parts = fields_of(line);
    if parts.len() < 6 {
        return None;
    }
    let npc_type = if reads(&parts[3], "V") {
        NpcType::Villager
    } else if reads(&parts[3], "S") {
        NpcType::ShopKeeper
    } else if reads(&parts[3], "Q") {
        NpcType::QuestGiver
    } else if reads(&parts[3], "H") {
        NpcType::Healer
    } else {
        NpcType::Villager
    };
    Some(
        Npc {
            name: string_of(&parts[1]),
            map_id: string_of(&parts[2]),
            x: read_position(&parts[4]),
            y: read_position(&parts[5]),
            npc_type,
            dialog_id: if parts.len() > 6 {
                string_of(&parts[6])
            } else {
                String::new()
            },
            shop_id: if parts.len() > 7 {
                Some(string_of(&parts[7]))
            } else {
                None
            },
        },
    )
}

/// The characters that the text `data` holds.
pub fn parse_npcs(data: &str) -> (npcs: Vec<Npc>)
    ensures
        views(npcs@) == npcs_in(data@),
{
    let lines = records_of(data);
    let ghost read = |line: Seq<char>| npc_in(line);
    let mut npcs: Vec<Npc> = Vec::new();
    let mut i: usize = 0;
    assert(views(npcs@) =~= collected(records(data@).take(0), read));
    while i < lines.len()
        invariant
            i <= lines.len(),
            texts(lines@) == records(data@),
            read == (|line: Seq<char>| npc_in(line)),
            views(npcs@) == collected(records(data@).take(i as int), read),
        decreases lines.len() - i,
    {
        proof {
            lemma_collected_step(records(data@), read, i as int);
            assert(texts(lines@)[i as int] == lines@[i as int]@);
        }
        match parse_npc(&lines[i]) {
            Some(npc) => {
                proof {
                    lemma_views_push(npcs@, npc);
                }
                npcs.push(npc);
            },
            None => {},
        }
        i += 1;
    }
    assert(records(data@).take(lines.len() as int) =~= records(data@));
    npcs
}

/// How the word `s` says a quest is fulfilled; by kills where it is not
/// known.
pub open spec fn quest_type_of(s: Seq<char>) -> QuestType {
    if s == "KILL"@ {
        QuestType::Kill
    } else if s == "COLLECT"@ {
        QuestType::Collect
    } else if s == "TALK"@ {
        QuestType::Talk
    } else if s == "REACH"@ {
        QuestType::Reach
    } else {
        QuestType::Kill
    }
}

/// The quest that the record `line` holds:
/// `id:name:type:target:count:exp:gold:description` and then, if it is
/// there, `:item`. A number that cannot be read is zero.
pub open spec fn quest_in(line: Seq<char>) -> Option<QuestView> {
    let parts = split(line, ':');
    if !is_content(line) || parts.len() < 8 {
        None
    } else {
        Some(
            QuestView {
                id: parts[0],
                name: parts[1],
                description: parts[7],
                quest_type: quest_type_of(parts[2]),
                target_id: parts[3],
                target_count: number_or(parts[4], 0),
                reward_exp: number_or(parts[5], 0),
                reward_gold: number_or(parts[6], 0),
                reward_item: if parts.len() > 8 {
                    Some(parts[8])
                } else {
                    None
                },
            },
        )
    }
}

/// The quests that the text `data` holds.
pub open spec fn quests_in(data: Seq<char>) -> Seq<QuestView> {
    collected(records(data), |line: Seq<char>| quest_in(line))
}

/// The quest that the record `line` holds.
pub fn parse_quest(line: &Vec<char>) -> (r: Option<Quest>)
    ensures
        match r {
            Some(quest) => quest_in(line@) == Some(quest@),
            None => quest_in(line@) is None,
        },
{
    if !holds_content(line) {
        return None;
    }
    let parts = fields_of(line);
    if parts.len() < 8 {
        return None;
    }
    let quest_type = if reads(&parts[2], "KILL") {
        QuestType::Kill
    } else if reads(&parts[2], "COLLECT") {
        QuestType::Collect
    } else if reads(&parts[2], "TALK") {
        QuestType::Talk
    } else if reads(&parts[2], "REACH") {
        QuestType::Reach
    } else {
        QuestType::Kill
    };
    Some(
        Quest {
            id: string_of(&parts[0]),
            name: string_of(&parts[1]),
            description: string_of(&parts[7]),
            quest_type,
            target_id: string_of(&parts[3]),
            target_count: read_number(&parts[4], 0),
            reward_exp: read_number(&parts[5], 0),
            reward_gold: read_number(&parts[6], 0),
            reward_item: if parts.len() > 8 {
                Some(string_of(&parts[8]))
            } else {
                None
            },
        },
    )
}

/// The quests that the text `data` holds.
pub fn parse_quests(data: &str) -> (quests: Vec<Quest>)
    ensures
        views(quests@) == quests_in(data@),
{
    let lines = records_of(data);
    let ghost read = |line: Seq<char>| quest_in(line);
    let mut quests: Vec<Quest> = Vec::new();
    let mut i: usize = 0;
    assert(views(quests@) =~= collected(records(data@).take(0), read));
    while i < lines.len()
        invariant
            i <= lines.len(),
            texts(lines@) == records(data@),
            read == (|line: Seq<char>| quest_in(line)),
            views(quests@) == collected(records(data@).take(i as int), read),
        decreases lines.len() - i,
    {
        proof {
            lemma_collected_step(records(data@), read, i as int);
            assert(texts(lines@)[i as int] == lines@[i as int]@);
        }
        match parse_quest(&lines[i]) {
            Some(quest) => {
                proof {
                    lemma_views_push(quests@, quest);
                }
                quests.push(quest);
            },
            None => {},
        }
        i += 1;
    }
    assert(records(data@).take(lines.len() as int) =~= records(data@));
    quests
}

/// The shop that the record `line` holds: `id:name` and the identifiers
/// of its items, at least one field of them.
pub open spec fn shop_in(line: Seq<char>) -> Option<ShopView> {
    let parts = split(line, ':');
    if !is_content(line) || parts.len() < 3 {
        None
    } else {
        Some(ShopView { id: parts[0], name: parts[1], items: parts.skip(2) })
    }
}

/// The shops that the text `data` holds.
pub open spec fn shops_in(data: Seq<char>) -> Seq<ShopView> {
    collected(records(data), |line: Seq<char>| shop_in(line))
}

/// The shop that the record `line` holds.
pub fn parse_shop(line: &Vec<char>) -> (r: Option<Shop>)
    ensures
        match r {
            Some(shop) => shop_in(line@) == Some(shop@),
            None => shop_in(line@) is None,
        },
{
    if !holds_content(line) {
        return None;
    }
    let parts = fields_of(line);
    if parts.len() < 3 {
        return None;
    }
    let mut items: Vec<String> = Vec::new();
    let mut k: usize = 2;
    while k < parts.len()
        invariant
            2 <= k <= parts.len(),
            items.len() == k - 2,
            forall|j: int| 0 <= j < items.len() ==> (#[trigger] items@[j])@ == parts@[j + 2]@,
        decreases parts.len() - k,
    {
        items.push(string_of(&parts[k]));
        k += 1;
    }
    assert(views(items@) =~= split(line@, ':').skip(2));
    Some(Shop { id: string_of(&parts[0]), name: string_of(&parts[1]), items })
}

/// The shops that the text `data` holds.
pub fn parse_shops(data: &str) -> (shops: Vec<Shop>)
    ensures
        views(shops@) == shops_in(data@),
{
    let lines = records_of(data);
    let ghost read = |line: Seq<char>| shop_in(line);
    let mut shops: Vec<Shop> = Vec::new();
    let mut i: usize = 0;
    assert(views(shops@) =~= collected(records(data@).take(0), read));
    while i < lines.len()
        invariant
            i <= lines.len(),
            texts(lines@) == records(data@),
            read == (|line: Seq<char>| shop_in(line)),
            views(shops@) == collected(records(data@).take(i as int), read),
        decreases lines.len() - i,
    {
        proof {
            lemma_collected_step(records(data@), read, i as int);
            assert(texts(lines@)[i as int] == lines@[i as int]@);
        }
        match parse_shop(&lines[i]) {
            Some(shop) => {
                proof {
                    lemma_views_push(shops@, shop);
                }
                shops.push(shop);
            },
            None => {},
        }
        i += 1;
    }
    assert(records(data@).take(lines.len() as int) =~= records(data@));
    shops
}

} // verus!
