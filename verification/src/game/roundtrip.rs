//! What is saved can be loaded: the saved game of a player, read back,
//! gives the player again.

use crate::data::parser::item_kind_of;
use crate::data::types::{ItemView, PlayerStats, QuestProgressView};
use crate::game::player::PlayerView;
use crate::game::save::{
    equip_fields, flag_text, item_fields, item_of, item_records, joined, kind_letter,
    load_record, load_records, loaded, player_fields, quest_fields, quest_records, record, saved,
    slot_of, slot_text, stats_fields, stats_of, treasure_fields, treasure_records,
};
use crate::num::clamp_i32;
use crate::text::{
    all_digits, decimal_value, digit_value, free_of, is_digit, is_space, lemma_pieces_cut,
    lemma_pieces_grow, lemma_trimmed_same, lemma_written, parsed_i32, parsed_int, parsed_usize,
    records, split, trimmed, written,
};
use vstd::prelude::*;

verus! {

/// Whether `s` can stand as a field of a record: it holds no colon and no
/// line feed.
pub open spec fn is_field(s: Seq<char>) -> bool {
    free_of(s, ':') && free_of(s, '\n')
}

/// The text of the lines `lines`, each ended by a line feed.
pub open spec fn lines_text(lines: Seq<Seq<char>>) -> Seq<char>
    decreases lines.len(),
{
    if lines.len() == 0 {
        Seq::empty()
    } else {
        lines_text(lines.drop_last()) + lines.last() + seq!['\n']
    }
}

/// The text of two lists of lines is the text of the one and the text of
/// the other.
pub proof fn lemma_lines_text_add(a: Seq<Seq<char>>, b: Seq<Seq<char>>)
    ensures
        lines_text(a + b) == lines_text(a) + lines_text(b),
    decreases b.len(),
{
    if b.len() == 0 {
        assert(a + b =~= a);
        assert(lines_text(a) + lines_text(b) =~= lines_text(a));
    } else {
        lemma_lines_text_add(a, b.drop_last());
        assert((a + b).drop_last() =~= a + b.drop_last());
        assert((a + b).last() == b.last());
        assert(lines_text(a + b) =~= lines_text(a) + lines_text(b));
    }
}

/// A text of lines splits at its line feeds into those lines and an empty
/// rest.
pub proof fn lemma_lines_split(lines: Seq<Seq<char>>)
    requires
        forall|i: int| 0 <= i < lines.len() ==> free_of(#[trigger] lines[i], '\n'),
    ensures
        split(lines_text(lines), '\n') == lines.push(Seq::empty()),
    decreases lines.len(),
{
    if lines.len() == 0 {
        assert(split(lines_text(lines), '\n') =~= lines.push(Seq::empty()));
    } else {
        let front = lines.drop_last();
        assert forall|i: int| 0 <= i < front.len() implies free_of(#[trigger] front[i], '\n') by {
            assert(front[i] == lines[i]);
        }
        lemma_lines_split(front);
        let start = lines_text(front);
        lemma_pieces_grow(start, lines.last(), '\n');
        lemma_pieces_cut(start + lines.last(), '\n');
        assert(Seq::<char>::empty() + lines.last() =~= lines.last());
        assert(split(start + lines.last(), '\n') =~= lines);
    }
}

/// Fields joined by colons split at the colons into those fields.
pub proof fn lemma_split_joined(parts: Seq<Seq<char>>)
    requires
        parts.len() >= 1,
        forall|i: int| 0 <= i < parts.len() ==> free_of(#[trigger] parts[i], ':'),
    ensures
        split(joined(parts), ':') == parts,
    decreases parts.len(),
{
    if parts.len() == 1 {
        let none = Seq::<char>::empty();
        lemma_pieces_grow(none, parts[0], ':');
        assert(none + parts[0] =~= parts[0]);
        assert(split(none, ':') =~= seq![none]);
        assert(split(parts[0], ':') =~= parts);
    } else {
        let front = parts.drop_last();
        assert forall|i: int| 0 <= i < front.len() implies free_of(#[trigger] front[i], ':') by {
            assert(front[i] == parts[i]);
        }
        lemma_split_joined(front);
        let start = joined(front);
        lemma_pieces_cut(start, ':');
        lemma_pieces_grow(start + seq![':'], parts.last(), ':');
        assert(Seq::<char>::empty() + parts.last() =~= parts.last());
        assert(split(joined(parts), ':') =~= parts);
    }
}

/// Fields joined by colons start as the first field starts and end as the
/// last field ends, and hold a line feed only if a field does.
pub proof fn lemma_joined_shape(parts: Seq<Seq<char>>)
    requires
        parts.len() >= 1,
        parts[0].len() >= 1,
        parts.last().len() >= 1,
        forall|i: int| 0 <= i < parts.len() ==> free_of(#[trigger] parts[i], '\n'),
    ensures
        joined(parts).len() >= 1,
        joined(parts)[0] == parts[0][0],
        joined(parts).last() == parts.last().last(),
        free_of(joined(parts), '\n'),
    decreases parts.len(),
{
    if parts.len() > 1 {
        let front = parts.drop_last();
        assert forall|i: int| 0 <= i < front.len() implies free_of(#[trigger] front[i], '\n') by {
            assert(front[i] == parts[i]);
        }
        assert(front[0] == parts[0]);
        lemma_joined_prefix(front);
        let start = joined(front);
        let whole = joined(parts);
        assert(whole[0] == start[0]);
        assert forall|i: int| 0 <= i < whole.len() implies whole[i] != '\n' by {
            if i < start.len() {
                assert(whole[i] == start[i]);
            } else if i > start.len() {
                assert(whole[i] == parts.last()[i - start.len() - 1]);
            }
        }
    }
}

/// Fields joined by colons start as the first field starts, and hold a
/// line feed only if a field does.
proof fn lemma_joined_prefix(parts: Seq<Seq<char>>)
    requires
        parts.len() >= 1,
        parts[0].len() >= 1,
        forall|i: int| 0 <= i < parts.len() ==> free_of(#[trigger] parts[i], '\n'),
    ensures
        joined(parts).len() >= 1,
        joined(parts)[0] == parts[0][0],
        free_of(joined(parts), '\n'),
    decreases parts.len(),
{
    if parts.len() > 1 {
        let front = parts.drop_last();
        assert forall|i: int| 0 <= i < front.len() implies free_of(#[trigger] front[i], '\n') by {
            assert(front[i] == parts[i]);
        }
        assert(front[0] == parts[0]);
        lemma_joined_prefix(front);
        let start = joined(front);
        let whole = joined(parts);
        assert(whole[0] == start[0]);
        assert forall|i: int| 0 <= i < whole.len() implies whole[i] != '\n' by {
            if i < start.len() {
                assert(whole[i] == start[i]);
            } else if i > start.len() {
                assert(whole[i] == parts.last()[i - start.len() - 1]);
            }
        }
    }
}

/// Whether `s` starts with `c`, is not empty, and can stand as a field.
spec fn word(s: Seq<char>, c: char) -> bool {
    s.len() >= 1 && s[0] == c && is_field(s) && !is_space(s.last())
}

/// What the words of the saved game are made of.
proof fn lemma_words()
    ensures
        word("PLAYER"@, 'P'),
        word("STATS"@, 'S'),
        word("EQUIP"@, 'E'),
        word("ITEM"@, 'I'),
        word("QUEST"@, 'Q'),
        word("TREASURE"@, 'T'),
        "W"@ == seq!['W'],
        "A"@ == seq!['A'],
        "C"@ == seq!['C'],
        "I"@ == seq!['I'],
        "0"@ == seq!['0'],
        "1"@ == seq!['1'],
        "-1"@ == seq!['-', '1'],
{
    reveal_strlit("PLAYER");
    reveal_strlit("STATS");
    reveal_strlit("EQUIP");
    reveal_strlit("ITEM");
    reveal_strlit("QUEST");
    reveal_strlit("TREASURE");
    reveal_strlit("W");
    reveal_strlit("A");
    reveal_strlit("C");
    reveal_strlit("I");
    reveal_strlit("0");
    reveal_strlit("1");
    reveal_strlit("-1");
    assert("W"@ =~= seq!['W']);
    assert("A"@ =~= seq!['A']);
    assert("C"@ =~= seq!['C']);
    assert("I"@ =~= seq!['I']);
    assert("0"@ =~= seq!['0']);
    assert("1"@ =~= seq!['1']);
    assert("-1"@ =~= seq!['-', '1']);
}

/// What is written of a number can stand as a field, and ends with no
/// white space.
proof fn lemma_written_field(x: int)
    ensures
        is_field(written(x)),
        written(x).len() >= 1,
        !is_space(written(x).last()),
        !is_space(written(x)[0]),
        parsed_i32(written(x)) == if i32::MIN <= x <= i32::MAX {
            Some(x as i32)
        } else {
            None
        },
        0 <= x <= usize::MAX ==> parsed_usize(written(x)) == Some(x as usize),
{
    lemma_written(x);
    let w = written(x);
    assert forall|i: int| 0 <= i < w.len() implies w[i] != ':' && w[i] != '\n' by {
        assert(is_digit(w[i]) || w[i] == '-');
    }
    assert(is_digit(w[0]) || w[0] == '-');
}

/// An equipment slot that is empty or holds a position that an `i32`
/// holds reads back as it was written.
proof fn lemma_slot(slot: Option<usize>)
    requires
        slot matches Some(i) ==> i <= i32::MAX,
    ensures
        slot_of(slot_text(slot)) == slot,
        is_field(slot_text(slot)),
        slot_text(slot).len() >= 1,
        !is_space(slot_text(slot).last()),
{
    lemma_words();
    match slot {
        Some(i) => {
            lemma_written_field(i as int);
        },
        None => {
            let minus_one = seq!['-', '1'];
            assert(minus_one.drop_first() =~= seq!['1']);
            let one = seq!['1'];
            assert(one.drop_last() =~= Seq::<char>::empty());
            assert(decimal_value(one) == decimal_value(one.drop_last())
                * 10 + digit_value(one.last()));
            assert(decimal_value(Seq::<char>::empty()) == 0);
            assert(all_digits(one));
            assert(parsed_int(minus_one, true) == Some(-1int));
        },
    }
}

/// Whether `line` is a record as it is written: not empty, without white
/// space at either end, and without a line feed.
pub open spec fn is_record(line: Seq<char>) -> bool {
    &&& line.len() >= 1
    &&& !is_space(line[0])
    &&& !is_space(line.last())
    &&& free_of(line, '\n')
}

/// Each of `parts` can stand as a field.
spec fn fields_ok(parts: Seq<Seq<char>>) -> bool {
    forall|i: int| 0 <= i < parts.len() ==> is_field(#[trigger] parts[i])
}

/// Fields that start with a word and end with something written make a
/// record that splits into them.
proof fn lemma_record_line(parts: Seq<Seq<char>>, c: char)
    requires
        parts.len() >= 2,
        word(parts[0], c),
        !is_space(c),
        parts.last().len() >= 1,
        !is_space(parts.last().last()),
        fields_ok(parts),
    ensures
        is_record(joined(parts)),
        split(joined(parts), ':') == parts,
        joined(parts)[0] == c,
{
    assert forall|i: int| 0 <= i < parts.len() implies free_of(#[trigger] parts[i], ':') by {
        assert(is_field(parts[i]));
    }
    assert forall|i: int| 0 <= i < parts.len() implies free_of(#[trigger] parts[i], '\n') by {
        assert(is_field(parts[i]));
    }
    lemma_split_joined(parts);
    lemma_joined_shape(parts);
}

/// The record of the player's name and place reads back.
proof fn lemma_player_line(q: PlayerView, p: PlayerView)
    requires
        is_field(p.name),
        is_field(p.current_map_id),
    ensures
        is_record(joined(player_fields(p))),
        load_record(q, joined(player_fields(p))) == (PlayerView {
            name: p.name,
            current_map_id: p.current_map_id,
            x: p.x,
            y: p.y,
            ..q
        }),
{
    lemma_words();
    lemma_written_field(p.x as int);
    lemma_written_field(p.y as int);
    let parts = player_fields(p);
    assert(fields_ok(parts)) by {
        assert forall|i: int| 0 <= i < parts.len() implies is_field(#[trigger] parts[i]) by {
            if i == 0 {
            } else if i == 1 {
            } else if i == 2 {
            } else if i == 3 {
            } else {
            }
        }
    }
    lemma_record_line(parts, 'P');
}

/// What the numbers are after they were written and read back: the
/// experience for the next level is a hundred times the level, stopped
/// at the bounds of `i32`.
pub open spec fn stats_reloaded(s: PlayerStats) -> PlayerStats {
    PlayerStats { exp_to_next: clamp_i32(s.level * 100), ..s }
}

/// The record of the player's numbers reads back.
proof fn lemma_stats_line(q: PlayerView, s: PlayerStats)
    ensures
        is_record(joined(stats_fields(s))),
        load_record(q, joined(stats_fields(s))) == (PlayerView { stats: stats_reloaded(s), ..q }),
{
    lemma_words();
    lemma_written_field(s.level as int);
    lemma_written_field(s.exp as int);
    lemma_written_field(s.max_hp as int);
    lemma_written_field(s.current_hp as int);
    lemma_written_field(s.max_mp as int);
    lemma_written_field(s.current_mp as int);
    lemma_written_field(s.base_atk as int);
    lemma_written_field(s.base_def as int);
    lemma_written_field(s.gold as int);
    let parts = stats_fields(s);
    assert(fields_ok(parts)) by {
        assert forall|i: int| 0 <= i < parts.len() implies is_field(#[trigger] parts[i]) by {
            if i == 0 {
            } else if i == 1 {
            } else if i == 2 {
            } else if i == 3 {
            } else if i == 4 {
            } else if i == 5 {
            } else if i == 6 {
            } else if i == 7 {
            } else if i == 8 {
            } else {
            }
        }
    }
    lemma_record_line(parts, 'S');
    assert(stats_of(parts) == stats_reloaded(s));
}

/// Whether the slot is empty or holds a position that can be written and
/// read back.
pub open spec fn slot_small(slot: Option<usize>) -> bool {
    slot matches Some(i) ==> i <= i32::MAX
}

/// The record of the player's equipment reads back.
proof fn lemma_equip_line(q: PlayerView, p: PlayerView)
    requires
        slot_small(p.equipped_weapon),
        slot_small(p.equipped_armor),
        slot_small(p.equipped_accessory),
    ensures
        is_record(joined(equip_fields(p))),
        load_record(q, joined(equip_fields(p))) == (PlayerView {
            equipped_weapon: p.equipped_weapon,
            equipped_armor: p.equipped_armor,
            equipped_accessory: p.equipped_accessory,
            ..q
        }),
{
    lemma_words();
    lemma_slot(p.equipped_weapon);
    lemma_slot(p.equipped_armor);
    lemma_slot(p.equipped_accessory);
    let parts = equip_fields(p);
    assert(fields_ok(parts)) by {
        assert forall|i: int| 0 <= i < parts.len() implies is_field(#[trigger] parts[i]) by {
            if i == 0 {
            } else if i == 1 {
            } else if i == 2 {
            } else {
            }
        }
    }
    lemma_record_line(parts, 'E');
}

/// The record of an item reads back.
proof fn lemma_item_line(q: PlayerView, item: ItemView)
    requires
        is_field(item.id),
        is_field(item.name),
    ensures
        is_record(joined(item_fields(item))),
        load_record(q, joined(item_fields(item))) == q.with_item(item),
{
    lemma_words();
    lemma_written_field(item.param1 as int);
    lemma_written_field(item.param2 as int);
    lemma_written_field(item.param3 as int);
    lemma_written_field(item.price as int);
    let parts = item_fields(item);
    assert(is_field(kind_letter(item.kind)));
    assert(item_kind_of(kind_letter(item.kind)) == Some(item.kind)) by {
        assert(seq!['W'][0] == 'W');
        assert(seq!['A'][0] == 'A');
        assert(seq!['C'][0] == 'C');
        assert(seq!['I'][0] == 'I');
    }
    assert(fields_ok(parts)) by {
        assert forall|i: int| 0 <= i < parts.len() implies is_field(#[trigger] parts[i]) by {
            if i == 0 {
            } else if i == 1 {
            } else if i == 2 {
            } else if i == 3 {
            } else if i == 4 {
            } else if i == 5 {
            } else if i == 6 {
            } else {
            }
        }
    }
    lemma_record_line(parts, 'I');
    assert(item_of(parts, item.kind) == item);
}

/// The record of a quest reads back.
proof fn lemma_quest_line(q: PlayerView, quest: QuestProgressView)
    requires
        is_field(quest.quest_id),
    ensures
        is_record(joined(quest_fields(quest))),
        load_record(q, joined(quest_fields(quest))) == (PlayerView {
            quests: q.quests.push(quest),
            ..q
        }),
{
    lemma_words();
    lemma_written_field(quest.current_count as int);
    let parts = quest_fields(quest);
    assert(seq!['0'][0] == '0');
    assert(seq!['1'][0] == '1');
    assert(is_field(flag_text(quest.completed)));
    assert(is_field(flag_text(quest.rewarded)));
    assert((flag_text(quest.completed) == "1"@) == quest.completed);
    assert((flag_text(quest.rewarded) == "1"@) == quest.rewarded);
    assert(fields_ok(parts)) by {
        assert forall|i: int| 0 <= i < parts.len() implies is_field(#[trigger] parts[i]) by {
            if i == 0 {
            } else if i == 1 {
            } else if i == 2 {
            } else if i == 3 {
            } else {
            }
        }
    }
    lemma_record_line(parts, 'Q');
}

/// The record of an opened treasure reads back.
proof fn lemma_treasure_line(q: PlayerView, t: (Seq<char>, usize, usize))
    requires
        is_field(t.0),
    ensures
        is_record(joined(treasure_fields(t))),
        load_record(q, joined(treasure_fields(t))) == (PlayerView {
            opened_treasures: q.opened_treasures.push(t),
            ..q
        }),
{
    lemma_words();
    lemma_written_field(t.1 as int);
    lemma_written_field(t.2 as int);
    let parts = treasure_fields(t);
    assert(fields_ok(parts)) by {
        assert forall|i: int| 0 <= i < parts.len() implies is_field(#[trigger] parts[i]) by {
            if i == 0 {
            } else if i == 1 {
            } else if i == 2 {
            } else {
            }
        }
    }
    lemma_record_line(parts, 'T');
}

/// The lines of the records of `items`.
pub open spec fn item_lines(items: Seq<ItemView>) -> Seq<Seq<char>> {
    Seq::new(items.len(), |i: int| joined(item_fields(items[i])))
}

/// The lines of the records of `quests`.
pub open spec fn quest_lines(quests: Seq<QuestProgressView>) -> Seq<Seq<char>> {
    Seq::new(quests.len(), |i: int| joined(quest_fields(quests[i])))
}

/// The lines of the records of `treasures`.
pub open spec fn treasure_lines(treasures: Seq<(Seq<char>, usize, usize)>) -> Seq<Seq<char>> {
    Seq::new(treasures.len(), |i: int| joined(treasure_fields(treasures[i])))
}

/// The first lines of the saved game of `p`: name and place, numbers,
/// equipment.
pub open spec fn head_lines(p: PlayerView) -> Seq<Seq<char>> {
    seq![joined(player_fields(p))] + seq![joined(stats_fields(p.stats))] + seq![
        joined(equip_fields(p)),
    ]
}

/// The lines of the saved game of `p`.
pub open spec fn saved_lines(p: PlayerView) -> Seq<Seq<char>> {
    head_lines(p) + item_lines(p.inventory) + quest_lines(p.quests) + treasure_lines(
        p.opened_treasures,
    )
}

/// The text of one line is the line and a line feed, and reading one
/// record is reading it.
proof fn lemma_one_line(q: PlayerView, line: Seq<char>)
    ensures
        lines_text(seq![line]) == line + seq!['\n'],
        load_records(q, seq![line]) == load_record(q, line),
{
    let one = seq![line];
    assert(one.drop_last() =~= Seq::<Seq<char>>::empty());
    assert(one.last() == line);
    assert(lines_text(one.drop_last()) =~= Seq::<char>::empty());
    assert(lines_text(one) =~= line + seq!['\n']);
    assert(load_records(q, one.drop_last()) == q);
}

/// The first lines of the saved game read back.
proof fn lemma_head(q: PlayerView, p: PlayerView)
    requires
        is_field(p.name),
        is_field(p.current_map_id),
        slot_small(p.equipped_weapon),
        slot_small(p.equipped_armor),
        slot_small(p.equipped_accessory),
    ensures
        load_records(q, head_lines(p)) == (PlayerView {
            name: p.name,
            current_map_id: p.current_map_id,
            x: p.x,
            y: p.y,
            stats: stats_reloaded(p.stats),
            equipped_weapon: p.equipped_weapon,
            equipped_armor: p.equipped_armor,
            equipped_accessory: p.equipped_accessory,
            ..q
        }),
        head_lines(p).len() == 3,
        forall|i: int| 0 <= i < 3 ==> is_record(#[trigger] head_lines(p)[i]),
        lines_text(head_lines(p)) == record(player_fields(p)) + record(stats_fields(p.stats))
            + record(equip_fields(p)),
{
    let a = joined(player_fields(p));
    let b = joined(stats_fields(p.stats));
    let c = joined(equip_fields(p));
    lemma_player_line(q, p);
    let named = load_record(q, a);
    lemma_stats_line(named, p.stats);
    let counted = load_record(named, b);
    lemma_equip_line(counted, p);
    lemma_one_line(q, a);
    lemma_one_line(named, b);
    lemma_one_line(counted, c);
    lemma_load_add(q, seq![a], seq![b]);
    lemma_load_add(q, seq![a] + seq![b], seq![c]);
    lemma_lines_text_add(seq![a], seq![b]);
    lemma_lines_text_add(seq![a] + seq![b], seq![c]);
    assert forall|i: int| 0 <= i < 3 implies is_record(#[trigger] head_lines(p)[i]) by {
        if i == 0 {
            assert(head_lines(p)[0] == a);
        } else if i == 1 {
            assert(head_lines(p)[1] == b);
        } else {
            assert(head_lines(p)[2] == c);
        }
    }
    assert(lines_text(head_lines(p)) =~= record(player_fields(p)) + record(
        stats_fields(p.stats),
    ) + record(equip_fields(p)));
}

/// The records of items are the text of their lines.
proof fn lemma_item_text(items: Seq<ItemView>)
    ensures
        item_records(items) == lines_text(item_lines(items)),
    decreases items.len(),
{
    if items.len() > 0 {
        lemma_item_text(items.drop_last());
        assert(item_lines(items).drop_last() =~= item_lines(items.drop_last()));
        assert(item_records(items) =~= lines_text(item_lines(items)));
    }
}

/// The records of quests are the text of their lines.
proof fn lemma_quest_text(quests: Seq<QuestProgressView>)
    ensures
        quest_records(quests) == lines_text(quest_lines(quests)),
    decreases quests.len(),
{
    if quests.len() > 0 {
        lemma_quest_text(quests.drop_last());
        assert(quest_lines(quests).drop_last() =~= quest_lines(quests.drop_last()));
        assert(quest_records(quests) =~= lines_text(quest_lines(quests)));
    }
}

/// The records of treasures are the text of their lines.
proof fn lemma_treasure_text(treasures: Seq<(Seq<char>, usize, usize)>)
    ensures
        treasure_records(treasures) == lines_text(treasure_lines(treasures)),
    decreases treasures.len(),
{
    if treasures.len() > 0 {
        lemma_treasure_text(treasures.drop_last());
        assert(treasure_lines(treasures).drop_last() =~= treasure_lines(treasures.drop_last()));
        assert(treasure_records(treasures) =~= lines_text(treasure_lines(treasures)));
    }
}

/// The saved game is the text of its lines.
proof fn lemma_saved_text(p: PlayerView)
    requires
        lines_text(head_lines(p)) == record(player_fields(p)) + record(stats_fields(p.stats))
            + record(equip_fields(p)),
    ensures
        saved(p) == lines_text(saved_lines(p)),
{
    let head = head_lines(p);
    lemma_item_text(p.inventory);
    lemma_quest_text(p.quests);
    lemma_treasure_text(p.opened_treasures);
    lemma_lines_text_add(head, item_lines(p.inventory));
    lemma_lines_text_add(head + item_lines(p.inventory), quest_lines(p.quests));
    lemma_lines_text_add(
        head + item_lines(p.inventory) + quest_lines(p.quests),
        treasure_lines(p.opened_treasures),
    );
}

/// Reading two lists of records is reading the one and then the other.
pub proof fn lemma_load_add(q: PlayerView, a: Seq<Seq<char>>, b: Seq<Seq<char>>)
    ensures
        load_records(q, a + b) == load_records(load_records(q, a), b),
    decreases b.len(),
{
    if b.len() == 0 {
        assert(a + b =~= a);
    } else {
        lemma_load_add(q, a, b.drop_last());
        assert((a + b).drop_last() =~= a + b.drop_last());
        assert((a + b).last() == b.last());
    }
}

/// The text of records as they are written has those records, and an
/// empty one at its end.
proof fn lemma_records_of_lines(lines: Seq<Seq<char>>)
    requires
        forall|i: int| 0 <= i < lines.len() ==> is_record(#[trigger] lines[i]),
    ensures
        records(lines_text(lines)) == lines.push(Seq::empty()),
{
    assert forall|i: int| 0 <= i < lines.len() implies free_of(#[trigger] lines[i], '\n') by {
        assert(is_record(lines[i]));
    }
    lemma_lines_split(lines);
    let pieces = split(lines_text(lines), '\n');
    assert forall|i: int| 0 <= i < pieces.len() implies trimmed(pieces[i]) == pieces[i] by {
        if i < lines.len() {
            assert(is_record(lines[i]));
        }
        lemma_trimmed_same(pieces[i]);
    }
    assert(records(lines_text(lines)) =~= lines.push(Seq::empty()));
}

/// The records of items read back as those items, added to the
/// inventory.
proof fn lemma_load_items(q: PlayerView, items: Seq<ItemView>)
    requires
        forall|i: int| 0 <= i < items.len() ==> is_field(#[trigger] items[i].id) && is_field(items[i].name),
    ensures
        load_records(q, item_lines(items)) == (PlayerView {
            inventory: q.inventory + items,
            ..q
        }),
        forall|i: int| 0 <= i < items.len() ==> is_record(#[trigger] item_lines(items)[i]),
    decreases items.len(),
{
    if items.len() == 0 {
        assert(q.inventory + items =~= q.inventory);
    } else {
        let front = items.drop_last();
        assert forall|i: int| 0 <= i < front.len() implies is_field(#[trigger] front[i].id)
            && is_field(front[i].name) by {
            assert(front[i] == items[i]);
        }
        lemma_load_items(q, front);
        assert(item_lines(items).drop_last() =~= item_lines(front));
        let before = load_records(q, item_lines(front));
        assert(is_field(items.last().id) && is_field(items.last().name)) by {
            assert(items.last() == items[items.len() - 1]);
        }
        lemma_item_line(before, items.last());
        assert((q.inventory + front).push(items.last()) =~= q.inventory + items);
        assert forall|i: int| 0 <= i < items.len() implies is_record(
            #[trigger] item_lines(items)[i],
        ) by {
            if i < front.len() {
                assert(item_lines(items)[i] == item_lines(front)[i]);
            }
        }
    }
}

/// The records of quests read back as those quests, added to the
/// player's.
proof fn lemma_load_quests(q: PlayerView, quests: Seq<QuestProgressView>)
    requires
        forall|i: int| 0 <= i < quests.len() ==> is_field(#[trigger] quests[i].quest_id),
    ensures
        load_records(q, quest_lines(quests)) == (PlayerView { quests: q.quests + quests, ..q }),
        forall|i: int| 0 <= i < quests.len() ==> is_record(#[trigger] quest_lines(quests)[i]),
    decreases quests.len(),
{
    if quests.len() == 0 {
        assert(q.quests + quests =~= q.quests);
    } else {
        let front = quests.drop_last();
        assert forall|i: int| 0 <= i < front.len() implies is_field(#[trigger] front[i].quest_id) by {
            assert(front[i] == quests[i]);
        }
        lemma_load_quests(q, front);
        assert(quest_lines(quests).drop_last() =~= quest_lines(front));
        let before = load_records(q, quest_lines(front));
        assert(is_field(quests.last().quest_id)) by {
            assert(quests.last() == quests[quests.len() - 1]);
        }
        lemma_quest_line(before, quests.last());
        assert((q.quests + front).push(quests.last()) =~= q.quests + quests);
        assert forall|i: int| 0 <= i < quests.len() implies is_record(
            #[trigger] quest_lines(quests)[i],
        ) by {
            if i < front.len() {
                assert(quest_lines(quests)[i] == quest_lines(front)[i]);
            }
        }
    }
}

/// The records of treasures read back as those treasures, added to the
/// player's.
proof fn lemma_load_treasures(q: PlayerView, treasures: Seq<(Seq<char>, usize, usize)>)
    requires
        forall|i: int| 0 <= i < treasures.len() ==> is_field(#[trigger] treasures[i].0),
    ensures
        load_records(q, treasure_lines(treasures)) == (PlayerView {
            opened_treasures: q.opened_treasures + treasures,
            ..q
        }),
        forall|i: int|
            0 <= i < treasures.len() ==> is_record(#[trigger] treasure_lines(treasures)[i]),
    decreases treasures.len(),
{
    if treasures.len() == 0 {
        assert(q.opened_treasures + treasures =~= q.opened_treasures);
    } else {
        let front = treasures.drop_last();
        assert forall|i: int| 0 <= i < front.len() implies is_field(#[trigger] front[i].0) by {
            assert(front[i] == treasures[i]);
        }
        lemma_load_treasures(q, front);
        assert(treasure_lines(treasures).drop_last() =~= treasure_lines(front));
        let before = load_records(q, treasure_lines(front));
        assert(is_field(treasures.last().0)) by {
            assert(treasures.last() == treasures[treasures.len() - 1]);
        }
        lemma_treasure_line(before, treasures.last());
        assert((q.opened_treasures + front).push(treasures.last()) =~= q.opened_treasures
            + treasures);
        assert forall|i: int| 0 <= i < treasures.len() implies is_record(
            #[trigger] treasure_lines(treasures)[i],
        ) by {
            if i < front.len() {
                assert(treasure_lines(treasures)[i] == treasure_lines(front)[i]);
            }
        }
    }
}

/// Whether the saved game of `p` holds all of `p`: no name in it holds a
/// colon or a line feed, and each equipment slot is empty or holds a
/// position that an `i32` holds.
pub open spec fn saves_whole(p: PlayerView) -> bool {
    &&& is_field(p.name)
    &&& is_field(p.current_map_id)
    &&& slot_small(p.equipped_weapon)
    &&& slot_small(p.equipped_armor)
    &&& slot_small(p.equipped_accessory)
    &&& forall|i: int|
        0 <= i < p.inventory.len() ==> is_field(#[trigger] p.inventory[i].id) && is_field(
            p.inventory[i].name,
        )
    &&& forall|i: int| 0 <= i < p.quests.len() ==> is_field(#[trigger] p.quests[i].quest_id)
    &&& forall|i: int|
        0 <= i < p.opened_treasures.len() ==> is_field(#[trigger] p.opened_treasures[i].0)
}

/// The player `p` as a saved game gives it back when it is read into
/// `q`: all of `p` but the experience for the next level, which is a
/// hundred times the level (stopped at the bounds of `i32`), and the way
/// the player faces, which is not saved and stays as `q` has it.
pub open spec fn reloaded(p: PlayerView, q: PlayerView) -> PlayerView {
    PlayerView { stats: stats_reloaded(p.stats), facing: q.facing, ..p }
}

/// The lines of the saved game read back.
proof fn lemma_load_lines(p: PlayerView, start: PlayerView)
    requires
        saves_whole(p),
        start.inventory == Seq::<ItemView>::empty(),
        start.quests == Seq::<QuestProgressView>::empty(),
        start.opened_treasures == Seq::<(Seq<char>, usize, usize)>::empty(),
    ensures
        load_records(start, saved_lines(p)) == reloaded(p, start),
        forall|i: int| 0 <= i < saved_lines(p).len() ==> is_record(#[trigger] saved_lines(p)[i]),
        saved(p) == lines_text(saved_lines(p)),
{
    let head = head_lines(p);
    let items = item_lines(p.inventory);
    let quests = quest_lines(p.quests);
    let treasures = treasure_lines(p.opened_treasures);
    let lines = saved_lines(p);
    lemma_head(start, p);
    let dressed = load_records(start, head);
    lemma_load_items(dressed, p.inventory);
    lemma_load_add(start, head, items);
    let stocked = load_records(start, head + items);
    assert(start.inventory + p.inventory =~= p.inventory);
    lemma_load_quests(stocked, p.quests);
    lemma_load_add(start, head + items, quests);
    let tasked = load_records(start, head + items + quests);
    assert(start.quests + p.quests =~= p.quests);
    lemma_load_treasures(tasked, p.opened_treasures);
    lemma_load_add(start, head + items + quests, treasures);
    assert(start.opened_treasures + p.opened_treasures =~= p.opened_treasures);
    assert forall|i: int| 0 <= i < lines.len() implies is_record(#[trigger] lines[i]) by {
        if i < 3 {
            assert(lines[i] == head[i]);
        } else if i < 3 + items.len() {
            assert(lines[i] == items[i - 3]);
        } else if i < 3 + items.len() + quests.len() {
            assert(lines[i] == quests[i - 3 - items.len()]);
        } else {
            assert(lines[i] == treasures[i - 3 - items.len() - quests.len()]);
        }
    }
    lemma_saved_text(p);
}

/// Saving and loading gives the player back: the saved game of a player
/// whose names hold no colon and no line feed, read into any player,
/// makes that player the one who was saved.
pub proof fn lemma_save_then_load(p: PlayerView, q: PlayerView)
    requires
        saves_whole(p),
    ensures
        loaded(q, saved(p)) == reloaded(p, q),
{
    let start = PlayerView {
        inventory: Seq::empty(),
        quests: Seq::empty(),
        opened_treasures: Seq::empty(),
        ..q
    };
    let lines = saved_lines(p);
    lemma_load_lines(p, start);
    lemma_records_of_lines(lines);
    let all = lines.push(Seq::empty());
    assert(all.drop_last() =~= lines);
    assert(all.last().len() == 0);
    assert(load_records(start, all) == load_record(load_records(start, lines), all.last()));
}

} // verus!
