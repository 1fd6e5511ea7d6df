use lost_kingdom::data::{Item, ItemKind, QuestProgress};
use lost_kingdom::game::{
    deserialize_save, format_args_to_string, serialize_save, Direction, Player,
};

fn saved_hero() -> Player {
    let mut p = Player::new("Hero".to_string(), "village");
    p.stats.level = 3;
    p.stats.exp = 40;
    p.stats.exp_to_next = 300;
    p.stats.max_hp = 70;
    p.stats.current_hp = 65;
    p.stats.max_mp = 30;
    p.stats.current_mp = 12;
    p.stats.base_atk = 14;
    p.stats.base_def = 7;
    p.stats.gold = 250;
    p.add_item(Item {
        id: "sword".to_string(),
        name: "Iron Sword".to_string(),
        kind: ItemKind::Weapon,
        param1: 5,
        param2: 1,
        param3: 1,
        price: 100,
    });
    p.add_item(Item {
        id: "potion".to_string(),
        name: "Potion".to_string(),
        kind: ItemKind::Consumable,
        param1: 30,
        param2: 0,
        param3: 0,
        price: 50,
    });
    p.equipped_weapon = Some(0);
    p.quests.push(QuestProgress {
        quest_id: "rats".to_string(),
        current_count: 3,
        completed: true,
        rewarded: false,
    });
    p.opened_treasures.push(("cave".to_string(), 2, 3));
    p.current_map_id = "forest".to_string();
    p.x = 3;
    p.y = 4;
    p
}

#[test]
fn fields_are_joined_by_colons() {
    assert_eq!(format_args_to_string(&["PLAYER", "Hero", "village", "3", "4"]), "PLAYER:Hero:village:3:4");
    assert_eq!(format_args_to_string(&["one"]), "one");
    assert_eq!(format_args_to_string(&["", ""]), ":");
    assert_eq!(format_args_to_string(&[]), "");
}

#[test]
fn the_saved_game_is_written_record_by_record() {
    let text = serialize_save(&saved_hero());
    assert_eq!(
        text,
        "PLAYER:Hero:forest:3:4\n\
         STATS:3:40:70:65:30:12:14:7:250\n\
         EQUIP:0:-1:-1\n\
         ITEM:W:sword:Iron Sword:5:1:1:100\n\
         ITEM:I:potion:Potion:30:0:0:50\n\
         QUEST:rats:3:1:0\n\
         TREASURE:cave:2:3\n"
    );
}

#[test]
fn a_new_player_is_saved_in_three_records() {
    let text = serialize_save(&Player::new("Hero".to_string(), "village"));
    assert_eq!(text, "PLAYER:Hero:village:0:0\nSTATS:1:0:50:50:20:20:10:5:0\nEQUIP:-1:-1:-1\n");
}

#[test]
fn save_then_load_gives_the_player_back() {
    let saved = saved_hero();
    let text = serialize_save(&saved);
    let mut p = Player::new("Nobody".to_string(), "nowhere");
    p.add_item(Item {
        id: "junk".to_string(),
        name: "Junk".to_string(),
        kind: ItemKind::Accessory,
        param1: 0,
        param2: 0,
        param3: 0,
        price: 0,
    });
    p.equipped_accessory = Some(0);
    p.add_quest("old");
    p.open_treasure("old", 1, 1);
    p.stats.exp_to_next = 12345;
    assert!(deserialize_save(&text, &mut p));
    assert_eq!(p.name, "Hero");
    assert_eq!(p.current_map_id, "forest");
    assert_eq!((p.x, p.y), (3, 4));
    assert_eq!(p.stats.level, 3);
    assert_eq!(p.stats.exp, 40);
    assert_eq!(p.stats.exp_to_next, 300);
    assert_eq!((p.stats.max_hp, p.stats.current_hp), (70, 65));
    assert_eq!((p.stats.max_mp, p.stats.current_mp), (30, 12));
    assert_eq!((p.stats.base_atk, p.stats.base_def), (14, 7));
    assert_eq!(p.stats.gold, 250);
    assert_eq!((p.equipped_weapon, p.equipped_armor, p.equipped_accessory), (Some(0), None, None));
    assert_eq!(p.inventory.len(), 2);
    let sword = &p.inventory[0];
    assert_eq!((sword.id.as_str(), sword.name.as_str(), sword.kind), ("sword", "Iron Sword", ItemKind::Weapon));
    assert_eq!((sword.param1, sword.param2, sword.param3, sword.price), (5, 1, 1, 100));
    let potion = &p.inventory[1];
    assert_eq!((potion.id.as_str(), potion.name.as_str(), potion.kind), ("potion", "Potion", ItemKind::Consumable));
    assert_eq!((potion.param1, potion.param2, potion.param3, potion.price), (30, 0, 0, 50));
    assert_eq!(p.quests.len(), 1);
    let q = &p.quests[0];
    assert_eq!((q.quest_id.as_str(), q.current_count, q.completed, q.rewarded), ("rats", 3, true, false));
    assert_eq!(p.opened_treasures, vec![("cave".to_string(), 2, 3)]);
    assert_eq!(serialize_save(&p), text);
}

#[test]
fn the_experience_for_the_next_level_is_recomputed() {
    let mut saved = saved_hero();
    saved.stats.exp_to_next = 999;
    let text = serialize_save(&saved);
    let mut p = Player::new("Hero".to_string(), "village");
    assert!(deserialize_save(&text, &mut p));
    assert_eq!(p.stats.exp_to_next, 300);
}

#[test]
fn what_cannot_be_read_has_a_default() {
    let mut p = Player::new("Hero".to_string(), "village");
    p.facing = Direction::Left;
    let text = "PLAYER:Ann:cave:x:-2\nSTATS:a:b:c:d:e:f:g:h:i\nEQUIP:-1:two:3\nITEM:I:herb:Herb:q:w:e:r\nQUEST:q1:z:yes:1\nTREASURE:cave:a:7\n";
    assert!(deserialize_save(text, &mut p));
    assert_eq!((p.name.as_str(), p.current_map_id.as_str(), p.x, p.y), ("Ann", "cave", 0, 0));
    let s = &p.stats;
    assert_eq!((s.level, s.exp, s.exp_to_next, s.max_hp, s.current_hp), (1, 0, 100, 50, 50));
    assert_eq!((s.max_mp, s.current_mp, s.base_atk, s.base_def, s.gold), (20, 20, 10, 5, 0));
    assert_eq!((p.equipped_weapon, p.equipped_armor, p.equipped_accessory), (None, None, Some(3)));
    assert_eq!(p.inventory.len(), 1);
    assert_eq!((p.inventory[0].param1, p.inventory[0].price), (0, 0));
    assert_eq!((p.quests[0].current_count, p.quests[0].completed, p.quests[0].rewarded), (0, false, true));
    assert_eq!(p.opened_treasures, vec![("cave".to_string(), 0, 7)]);
    assert_eq!(p.facing, Direction::Left);
}

#[test]
fn records_that_cannot_be_read_are_passed_over() {
    let mut p = Player::new("Hero".to_string(), "village");
    p.stats.gold = 77;
    p.equipped_armor = Some(4);
    let text = "\n  \nPLAYER:Ann:cave:1\nSTATS:1:2:3\nEQUIP:1:2\nITEM:X:a:A:1:2:3:4\nITEM:W:a:A:1:2:3\nQUEST:q:1:1\nTREASURE:m:1\nNOTE:hello\nplayer:Bob:b:1:1\n  ITEM:A:mail:Mail:1:2:3:4:extra  \r\n";
    assert!(deserialize_save(text, &mut p));
    assert_eq!((p.name.as_str(), p.current_map_id.as_str()), ("Hero", "village"));
    assert_eq!(p.stats.gold, 77);
    assert_eq!(p.equipped_armor, Some(4));
    assert_eq!(p.inventory.len(), 1);
    assert_eq!((p.inventory[0].id.as_str(), p.inventory[0].kind, p.inventory[0].price), ("mail", ItemKind::Armor, 4));
    assert!(p.quests.is_empty() && p.opened_treasures.is_empty());
}

#[test]
fn loading_an_empty_text_empties_the_lists() {
    let mut p = saved_hero();
    assert!(deserialize_save("", &mut p));
    assert!(p.inventory.is_empty() && p.quests.is_empty() && p.opened_treasures.is_empty());
    assert_eq!(p.name, "Hero");
    assert_eq!(p.stats.gold, 250);
    assert_eq!(p.equipped_weapon, Some(0));
}

#[test]
fn a_level_too_high_to_multiply_stops_at_the_largest_number() {
    let mut p = Player::new("Hero".to_string(), "village");
    assert!(deserialize_save("STATS:2147483647:0:1:1:1:1:1:1:1\n", &mut p));
    assert_eq!(p.stats.level, i32::MAX);
    assert_eq!(p.stats.exp_to_next, i32::MAX);
}
