//! The saved game: a text of records, one to a line, each a tag and its
//! fields with colons between them.
//!
//! ```text
//! PLAYER:name:map:x:y
//! STATS:level:exp:max_hp:hp:max_mp:mp:atk:def:gold
//! EQUIP:weapon:armor:accessory
//! ITEM:kind:id:name:param1:param2:param3:price
//! QUEST:id:count:completed:rewarded
//! TREASURE:map:x:y
//! ```
//!
//! An empty equipment slot is written as `-1`. Writing and reading the
//! text is left to the caller.

use crate::data::parser::{item_kind_of, read_item_kind};
use crate::data::types::{
    lemma_views_push, views, Item, ItemKind, ItemView, PlayerStats, QuestProgress,
    QuestProgressView,
};
use crate::game::player::{Player, PlayerView};
use crate::num::{clamp_i32, sat_mul};
use crate::text::{
    number_or, parse_i32, parsed_i32, position_or_zero, push_char, push_i32, push_usize,
    read_number, read_position, reads, records, records_of, split, split_at, string_of, texts,
    written,
};
use vstd::prelude::*;
use vstd::string::StringExecFns;

verus! {

/// The texts `parts` with a colon between each two.
pub open spec fn joined(parts: Seq<Seq<char>>) -> Seq<char>
    decreases parts.len(),
{
    if parts.len() == 0 {
        Seq::empty()
    } else if parts.len() == 1 {
        parts[0]
    } else {
        joined(parts.drop_last()) + seq![':'] + parts.last()
    }
}

/// The texts `parts` with a colon between each two.
pub fn format_args_to_string(parts: &[&str]) -> (s: String)
    ensures
        s@ == joined(views(parts@)),
{
    let mut s = String::new();
    let mut i: usize = 0;
    assert(views(parts@).take(0) =~= Seq::<Seq<char>>::empty());
    while i < parts.len()
        invariant
            i <= parts.len(),
            s@ == joined(views(parts@).take(i as int)),
        decreases parts.len() - i,
    {
        proof {
            let all = views(parts@);
            assert(all.take(i + 1).drop_last() =~= all.take(i as int));
            assert(all.take(i + 1).last() == parts@[i as int]@);
        }
        if i > 0 {
            push_char(&mut s, ':');
        }
        s.append(parts[i]);
        proof {
            let all = views(parts@);
            if i == 0 {
                assert(s@ =~= all.take(1)[0]);
            } else {
                assert(s@ =~= joined(all.take(i as int)) + seq![':'] + all.take(i + 1).last());
            }
        }
        i += 1;
    }
    proof {
        let all = views(parts@);
        assert(all.take(all.len() as int) =~= all);
    }
    s
}

/// A record: its fields with colons between them, and a line feed.
pub open spec fn record(parts: Seq<Seq<char>>) -> Seq<char> {
    joined(parts) + seq!['\n']
}

/// The letter that stands for an item kind.
pub open spec fn kind_letter(kind: ItemKind) -> Seq<char> {
    match kind {
        ItemKind::Weapon => "W"@,
        ItemKind::Armor => "A"@,
        ItemKind::Accessory => "C"@,
        ItemKind::Consumable => "I"@,
    }
}

/// How an equipment slot is written: its position, or `-1` if it is empty.
pub open spec fn slot_text(slot: Option<usize>) -> Seq<char> {
    match slot {
        Some(i) => written(i as int),
        None => "-1"@,
    }
}

/// How a flag is written.
pub open spec fn flag_text(flag: bool) -> Seq<char> {
    if flag {
        "1"@
    } else {
        "0"@
    }
}

/// The fields of the record of the player's name and place.
pub open spec fn player_fields(p: PlayerView) -> Seq<Seq<char>> {
    seq!["PLAYER"@, p.name, p.current_map_id, written(p.x as int), written(p.y as int)]
}

/// The fields of the record of the player's numbers.
pub open spec fn stats_fields(s: PlayerStats) -> Seq<Seq<char>> {
    seq![
        "STATS"@,
        written(s.level as int),
        written(s.exp as int),
        written(s.max_hp as int),
        written(s.current_hp as int),
        written(s.max_mp as int),
        written(s.current_mp as int),
        written(s.base_atk as int),
        written(s.base_def as int),
        written(s.gold as int),
    ]
}

/// The fields of the record of the player's equipment.
pub open spec fn equip_fields(p: PlayerView) -> Seq<Seq<char>> {
    seq![
        "EQUIP"@,
        slot_text(p.equipped_weapon),
        slot_text(p.equipped_armor),
        slot_text(p.equipped_accessory),
    ]
}

/// The fields of the record of an item.
pub open spec fn item_fields(item: ItemView) -> Seq<Seq<char>> {
    seq![
        "ITEM"@,
        kind_letter(item.kind),
        item.id,
        item.name,
        written(item.param1 as int),
        written(item.param2 as int),
        written(item.param3 as int),
        written(item.price as int),
    ]
}

/// The fields of the record of a quest.
pub open spec fn quest_fields(q: QuestProgressView) -> Seq<Seq<char>> {
    seq![
        "QUEST"@,
        q.quest_id,
        written(q.current_count as int),
        flag_text(q.completed),
        flag_text(q.rewarded),
    ]
}

/// The fields of the record of an opened treasure.
pub open spec fn treasure_fields(t: (Seq<char>, usize, usize)) -> Seq<Seq<char>> {
    seq!["TREASURE"@, t.0, written(t.1 as int), written(t.2 as int)]
}

pub open spec fn player_record(p: PlayerView) -> Seq<char> {
    record(player_fields(p))
}

pub open spec fn stats_record(s: PlayerStats) -> Seq<char> {
    record(stats_fields(s))
}

pub open spec fn equip_record(p: PlayerView) -> Seq<char> {
    record(equip_fields(p))
}

pub open spec fn item_record(item: ItemView) -> Seq<char> {
    record(item_fields(item))
}

pub open spec fn quest_record(q: QuestProgressView) -> Seq<char> {
    record(quest_fields(q))
}

pub open spec fn treasure_record(t: (Seq<char>, usize, usize)) -> Seq<char> {
    record(treasure_fields(t))
}

/// The records of `items`, in order.
pub open spec fn item_records(items: Seq<ItemView>) -> Seq<char>
    decreases items.len(),
{
    if items.len() == 0 {
        Seq::empty()
    } else {
        item_records(items.drop_last()) + item_record(items.last())
    }
}

/// The records of `quests`, in order.
pub open spec fn quest_records(quests: Seq<QuestProgressView>) -> Seq<char>
    decreases quests.len(),
{
    if quests.len() == 0 {
        Seq::empty()
    } else {
        quest_records(quests.drop_last()) + quest_record(quests.last())
    }
}

/// The records of `treasures`, in order.
pub open spec fn treasure_records(treasures: Seq<(Seq<char>, usize, usize)>) -> Seq<char>
    decreases treasures.len(),
{
    if treasures.len() == 0 {
        Seq::empty()
    } else {
        treasure_records(treasures.drop_last()) + treasure_record(treasures.last())
    }
}

/// The saved game of `p`: the player, the numbers, the equipment, then
/// each item, each quest and each opened treasure.
pub open spec fn saved(p: PlayerView) -> Seq<char> {
    player_record(p) + stats_record(p.stats) + equip_record(p) + item_records(p.inventory)
        + quest_records(p.quests) + treasure_records(p.opened_treasures)
}

/// `x` written in decimal.
fn i32_text(x: i32) -> (s: String)
    ensures
        s@ == written(x as int),
{
    let mut s = String::new();
    push_i32(&mut s, x);
    assert(s@ =~= written(x as int));
    s
}

/// `x` written in decimal.
fn usize_text(x: usize) -> (s: String)
    ensures
        s@ == written(x as int),
{
    let mut s = String::new();
    push_usize(&mut s, x);
    assert(s@ =~= written(x as int));
    s
}

/// An equipment slot as it is written.
fn slot_string(slot: Option<usize>) -> (s: String)
    ensures
        s@ == slot_text(slot),
{
    match slot {
        Some(i) => usize_text(i),
        None => String::from_str("-1"),
    }
}

/// A flag as it is written.
fn flag_str(flag: bool) -> (s: &'static str)
    ensures
        s@ == flag_text(flag),
{
    if flag {
        "1"
    } else {
        "0"
    }
}

/// Appends the record with the fields `parts` to `out`.
fn push_record(out: &mut String, parts: &[&str])
    ensures
        final(out)@ == old(out)@ + record(views(parts@)),
{
    let line = format_args_to_string(parts);
    out.append(line.as_str());
    push_char(out, '\n');
    assert(final(out)@ =~= old(out)@ + record(views(parts@)));
}

/// The saved game of `player`.
pub fn serialize_save(player: &Player) -> (s: String)
    ensures
        s@ == saved(player@),
{
    let mut out = String::new();
    let x = usize_text(player.x);
    let y = usize_text(player.y);
    let fields = vec!["PLAYER", player.name.as_str(), player.current_map_id.as_str(), x.as_str(), y.as_str()];
    assert(views(fields@) =~= seq![
        "PLAYER"@,
        player@.name,
        player@.current_map_id,
        written(player.x as int),
        written(player.y as int),
    ]);
    push_record(&mut out, fields.as_slice());
    assert(out@ =~= player_record(player@));

    let stats = &player.stats;
    let level = i32_text(stats.level);
    let exp = i32_text(stats.exp);
    let max_hp = i32_text(stats.max_hp);
    let current_hp = i32_text(stats.current_hp);
    let max_mp = i32_text(stats.max_mp);
    let current_mp = i32_text(stats.current_mp);
    let base_atk = i32_text(stats.base_atk);
    let base_def = i32_text(stats.base_def);
    let gold = i32_text(stats.gold);
    let fields = vec![
        "STATS",
        level.as_str(),
        exp.as_str(),
        max_hp.as_str(),
        current_hp.as_str(),
        max_mp.as_str(),
        current_mp.as_str(),
        base_atk.as_str(),
        base_def.as_str(),
        gold.as_str(),
    ];
    assert(views(fields@) =~= seq![
        "STATS"@,
        written(stats.level as int),
        written(stats.exp as int),
        written(stats.max_hp as int),
        written(stats.current_hp as int),
        written(stats.max_mp as int),
        written(stats.current_mp as int),
        written(stats.base_atk as int),
        written(stats.base_def as int),
        written(stats.gold as int),
    ]);
    push_record(&mut out, fields.as_slice());

    let weapon = slot_string(player.equipped_weapon);
    let armor = slot_string(player.equipped_armor);
    let accessory = slot_string(player.equipped_accessory);
    let fields = vec!["EQUIP", weapon.as_str(), armor.as_str(), accessory.as_str()];
    assert(views(fields@) =~= seq![
        "EQUIP"@,
        slot_text(player.equipped_weapon),
        slot_text(player.equipped_armor),
        slot_text(player.equipped_accessory),
    ]);
    push_record(&mut out, fields.as_slice());
    let ghost head = player_record(player@) + stats_record(player.stats) + equip_record(player@);
    assert(out@ =~= head);

    let mut i: usize = 0;
    while i < player.inventory.len()
        invariant
            i <= player.inventory.len(),
            out@ == head + item_records(player@.inventory.take(i as int)),
        decreases player.inventory.len() - i,
    {
        let item = &player.inventory[i];
        proof {
            let all = player@.inventory;
            assert(all.take(i + 1).drop_last() =~= all.take(i as int));
            assert(all.take(i + 1).last() == item@);
        }
        let kind = match item.kind {
            ItemKind::Weapon => "W",
            ItemKind::Armor => "A",
            ItemKind::Accessory => "C",
            ItemKind::Consumable => "I",
        };
        let param1 = i32_text(item.param1);
        let param2 = i32_text(item.param2);
        let param3 = i32_text(item.param3);
        let price = i32_text(item.price);
        let fields = vec![
            "ITEM",
            kind,
            item.id.as_str(),
            item.name.as_str(),
            param1.as_str(),
            param2.as_str(),
            param3.as_str(),
            price.as_str(),
        ];
        assert(views(fields@) =~= seq![
            "ITEM"@,
            kind_letter(item.kind),
            item@.id,
            item@.name,
            written(item.param1 as int),
            written(item.param2 as int),
            written(item.param3 as int),
            written(item.price as int),
        ]);
        push_record(&mut out, fields.as_slice());
        assert(out@ =~= head + (item_records(player@.inventory.take(i as int)) + item_record(
            item@,
        )));
        i += 1;
    }
    assert(player@.inventory.take(player.inventory.len() as int) =~= player@.inventory);
    let ghost head = head + item_records(player@.inventory);

    let mut i: usize = 0;
    while i < player.quests.len()
        invariant
            i <= player.quests.len(),
            out@ == head + quest_records(player@.quests.take(i as int)),
        decreases player.quests.len() - i,
    {
        let quest = &player.quests[i];
        proof {
            let all = player@.quests;
            assert(all.take(i + 1).drop_last() =~= all.take(i as int));
            assert(all.take(i + 1).last() == quest@);
        }
        let count = i32_text(quest.current_count);
        let fields = vec![
            "QUEST",
            quest.quest_id.as_str(),
            count.as_str(),
            flag_str(quest.completed),
            flag_str(quest.rewarded),
        ];
        assert(views(fields@) =~= seq![
            "QUEST"@,
            quest@.quest_id,
            written(quest.current_count as int),
            flag_text(quest.completed),
            flag_text(quest.rewarded),
        ]);
        push_record(&mut out, fields.as_slice());
        assert(out@ =~= head + (quest_records(player@.quests.take(i as int)) + quest_record(
            quest@,
        )));
        i += 1;
    }
    assert(player@.quests.take(player.quests.len() as int) =~= player@.quests);
    let ghost head = head + quest_records(player@.quests);

    let mut i: usize = 0;
    while i < player.opened_treasures.len()
        invariant
            i <= player.opened_treasures.len(),
            out@ == head + treasure_records(player@.opened_treasures.take(i as int)),
        decreases player.opened_treasures.len() - i,
    {
        let treasure = &player.opened_treasures[i];
        proof {
            let all = player@.opened_treasures;
            assert(all.take(i + 1).drop_last() =~= all.take(i as int));
            assert(all.take(i + 1).last() == treasure@);
        }
        let x = usize_text(treasure.1);
        let y = usize_text(treasure.2);
        let fields = vec!["TREASURE", treasure.0.as_str(), x.as_str(), y.as_str()];
        assert(views(fields@) =~= seq![
            "TREASURE"@,
            treasure@.0,
            written(treasure.1 as int),
            written(treasure.2 as int),
        ]);
        push_record(&mut out, fields.as_slice());
        assert(out@ =~= head + (treasure_records(player@.opened_treasures.take(i as int))
            + treasure_record(treasure@)));
        i += 1;
    }
    assert(player@.opened_treasures.take(player.opened_treasures.len() as int)
        =~= player@.opened_treasures);
    assert(out@ =~= saved(player@));
    out
}

/// The equipment slot that `s` writes: the position, or empty where `s`
/// writes a negative number or none.
pub open spec fn slot_of(s: Seq<char>) -> Option<usize> {
    match parsed_i32(s) {
        Some(v) => if v >= 0 {
            Some(v as usize)
        } else {
            None
        },
        None => None,
    }
}

/// The numbers that a `STATS` record with the fields `parts` holds; the
/// experience for the next level is a hundred times the level, stopped
/// at the bounds of `i32`.
pub open spec fn stats_of(parts: Seq<Seq<char>>) -> PlayerStats {
    let level = number_or(parts[1], 1);
    PlayerStats {
        level,
        exp: number_or(parts[2], 0),
        exp_to_next: clamp_i32(level * 100),
        max_hp: number_or(parts[3], 50),
        current_hp: number_or(parts[4], 50),
        max_mp: number_or(parts[5], 20),
        current_mp: number_or(parts[6], 20),
        base_atk: number_or(parts[7], 10),
        base_def: number_or(parts[8], 5),
        gold: number_or(parts[9], 0),
    }
}

/// The item that an `ITEM` record with the fields `parts` and the kind
/// `kind` holds.
pub open spec fn item_of(parts: Seq<Seq<char>>, kind: ItemKind) -> ItemView {
    ItemView {
        id: parts[2],
        name: parts[3],
        kind,
        param1: number_or(parts[4], 0),
        param2: number_or(parts[5], 0),
        param3: number_or(parts[6], 0),
        price: number_or(parts[7], 0),
    }
}

/// The player after the record `line` was read. A record sets what its
/// tag names, with a default for each number that cannot be read; an
/// empty line, a tag that is not known, a record with too few fields and
/// an item of no known kind change nothing.
pub open spec fn load_record(p: PlayerView, line: Seq<char>) -> PlayerView {
    let parts = split(line, ':');
    let tag = parts[0];
    if line.len() == 0 {
        p
    } else if tag == "PLAYER"@ && parts.len() >= 5 {
        PlayerView {
            name: parts[1],
            current_map_id: parts[2],
            x: position_or_zero(parts[3]),
            y: position_or_zero(parts[4]),
            ..p
        }
    } else if tag == "STATS"@ && parts.len() >= 10 {
        PlayerView { stats: stats_of(parts), ..p }
    } else if tag == "EQUIP"@ && parts.len() >= 4 {
        PlayerView {
            equipped_weapon: slot_of(parts[1]),
            equipped_armor: slot_of(parts[2]),
            equipped_accessory: slot_of(parts[3]),
            ..p
        }
    } else if tag == "ITEM"@ && parts.len() >= 8 {
        match item_kind_of(parts[1]) {
            Some(kind) => p.with_item(item_of(parts, kind)),
            None => p,
        }
    } else if tag == "QUEST"@ && parts.len() >= 5 {
        PlayerView {
            quests: p.quests.push(
                QuestProgressView {
                    quest_id: parts[1],
                    current_count: number_or(parts[2], 0),
                    completed: parts[3] == "1"@,
                    rewarded: parts[4] == "1"@,
                },
            ),
            ..p
        }
    } else if tag == "TREASURE"@ && parts.len() >= 4 {
        PlayerView {
            opened_treasures: p.opened_treasures.push(
                (parts[1], position_or_zero(parts[2]), position_or_zero(parts[3])),
            ),
            ..p
        }
    } else {
        p
    }
}

/// The player after the records `lines` were read, in order.
pub open spec fn load_records(p: PlayerView, lines: Seq<Seq<char>>) -> PlayerView
    decreases lines.len(),
{
    if lines.len() == 0 {
        p
    } else {
        load_record(load_records(p, lines.drop_last()), lines.last())
    }
}

/// The player after the saved game `data` was read: inventory, quests
/// and opened treasures are those of the saved game, and everything
/// else is as the records set it or, without a record, as it was.
pub open spec fn loaded(p: PlayerView, data: Seq<char>) -> PlayerView {
    load_records(
        PlayerView {
            inventory: Seq::empty(),
            quests: Seq::empty(),
            opened_treasures: Seq::empty(),
            ..p
        },
        records(data),
    )
}

/// The equipment slot that `s` writes.
fn read_slot(s: &Vec<char>) -> (r: Option<usize>)
    ensures
        r == slot_of(s@),
{
    match parse_i32(s) {
        Some(v) => if v >= 0 {
            Some(v as usize)
        } else {
            None
        },
        None => None,
    }
}

/// Reads one record into `player`.
fn read_record(line: &Vec<char>, player: &mut Player)
    ensures
        final(player)@ == load_record(old(player)@, line@),
{
    if line.len() == 0 {
        return ;
    }
    let parts = split_at(line, ':');
    let ghost fields = split(line@, ':');
    assert(forall|i: int| 0 <= i < parts.len() ==> (#[trigger] parts@[i])@ == fields[i]) by {
        assert forall|i: int| 0 <= i < parts.len() implies (#[trigger] parts@[i])@ == fields[i] by {
            assert(texts(parts@)[i] == parts@[i]@);
        }
    }
    let n = parts.len();
    if reads(&parts[0], "PLAYER") && n >= 5 {
        player.name = string_of(&parts[1]);
        player.current_map_id = string_of(&parts[2]);
        player.x = read_position(&parts[3]);
        player.y = read_position(&parts[4]);
    } else if reads(&parts[0], "STATS") && n >= 10 {
        let level = read_number(&parts[1], 1);
        player.stats = PlayerStats {
            level,
            exp: read_number(&parts[2], 0),
            exp_to_next: sat_mul(level, 100),
            max_hp: read_number(&parts[3], 50),
            current_hp: read_number(&parts[4], 50),
            max_mp: read_number(&parts[5], 20),
            current_mp: read_number(&parts[6], 20),
            base_atk: read_number(&parts[7], 10),
            base_def: read_number(&parts[8], 5),
            gold: read_number(&parts[9], 0),
        };
    } else if reads(&parts[0], "EQUIP") && n >= 4 {
        player.equipped_weapon = read_slot(&parts[1]);
        player.equipped_armor = read_slot(&parts[2]);
        player.equipped_accessory = read_slot(&parts[3]);
    } else if reads(&parts[0], "ITEM") && n >= 8 {
        match read_item_kind(&parts[1]) {
            Some(kind) => {
                player.add_item(
                    Item {
                        id: string_of(&parts[2]),
                        name: string_of(&parts[3]),
                        kind,
                        param1: read_number(&parts[4], 0),
                        param2: read_number(&parts[5], 0),
                        param3: read_number(&parts[6], 0),
                        price: read_number(&parts[7], 0),
                    },
                );
            },
            None => {},
        }
    } else if reads(&parts[0], "QUEST") && n >= 5 {
        let entry = QuestProgress {
            quest_id: string_of(&parts[1]),
            current_count: read_number(&parts[2], 0),
            completed: reads(&parts[3], "1"),
            rewarded: reads(&parts[4], "1"),
        };
        proof {
            lemma_views_push(player.quests@, entry);
        }
        player.quests.push(entry);
    } else if reads(&parts[0], "TREASURE") && n >= 4 {
        let entry = (string_of(&parts[1]), read_position(&parts[2]), read_position(&parts[3]));
        proof {
            lemma_views_push(player.opened_treasures@, entry);
        }
        player.opened_treasures.push(entry);
    }
}

/// Reads the saved game `data` into `player`. Always succeeds: what cannot
/// be read is passed over.
pub fn deserialize_save(data: &str, player: &mut Player) -> (ok: bool)
    ensures
        ok,
        final(player)@ == loaded(old(player)@, data@),
{
    player.inventory.clear();
    player.quests.clear();
    player.opened_treasures.clear();
    let ghost cleared = player@;
    assert(cleared.inventory =~= Seq::empty());
    assert(cleared.quests =~= Seq::empty());
    assert(cleared.opened_treasures =~= Seq::empty());
    let lines = records_of(data);
    let mut i: usize = 0;
    while i < lines.len()
        invariant
            i <= lines.len(),
            texts(lines@) == records(data@),
            player@ == load_records(cleared, records(data@).take(i as int)),
        decreases lines.len() - i,
    {
        proof {
            let all = records(data@);
            assert(all.take(i + 1).drop_last() =~= all.take(i as int));
            assert(all.take(i + 1).last() == texts(lines@)[i as int]);
        }
        read_record(&lines[i], player);
        i += 1;
    }
    proof {
        let all = records(data@);
        assert(all.take(all.len() as int) =~= all);
    }
    true
}

} // verus!
