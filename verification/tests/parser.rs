use lost_kingdom::data::{
    parse_dialogs, parse_enemies, parse_items, parse_maps, parse_npcs, parse_quests, parse_shops,
    DialogAction, DialogBuilder, DialogCondition, ItemKind, MapBuilder, NpcType, QuestType, Tile,
};

#[test]
fn items_of_each_kind() {
    let items = parse_items(
        "# items\n\nW:sword:Rusty Sword:5:1:100\n  A:leather:Leather:3:2:150  \nC:ring:Ring:2:4:200\nI:potion:Potion:30:50\n",
    );
    assert_eq!(items.len(), 4);
    let sword = &items[0];
    assert_eq!((sword.id.as_str(), sword.name.as_str(), sword.kind), ("sword", "Rusty Sword", ItemKind::Weapon));
    assert_eq!((sword.param1, sword.param2, sword.param3, sword.price), (5, 1, 1, 100));
    assert_eq!(items[1].kind, ItemKind::Armor);
    assert_eq!((items[1].param1, items[1].param2, items[1].param3, items[1].price), (3, 2, 2, 150));
    assert_eq!(items[2].kind, ItemKind::Accessory);
    assert_eq!((items[2].param1, items[2].param2, items[2].param3, items[2].price), (2, 4, 4, 200));
    let potion = &items[3];
    assert_eq!(potion.kind, ItemKind::Consumable);
    assert_eq!((potion.param1, potion.param2, potion.param3, potion.price), (30, 0, 0, 50));
}

#[test]
fn items_that_cannot_be_read_are_passed_over() {
    let items = parse_items("X:a:b:1:2:3\nW:short:b:1\nW:ok:Ok:x:y\nW:nop:No Price:4:5\n#W:c:C:1:2:3");
    assert_eq!(items.len(), 2);
    assert_eq!(items[0].id, "ok");
    assert_eq!((items[0].param1, items[0].param2, items[0].param3, items[0].price), (0, 0, 0, 0));
    assert_eq!(items[1].id, "nop");
    assert_eq!((items[1].param1, items[1].param2, items[1].param3, items[1].price), (4, 5, 5, 0));
    assert!(parse_items("").is_empty());
}

#[test]
fn enemies() {
    let enemies = parse_enemies("slime:Slime:20:5:2:10:5\nbad:row\n# no\nbat:Bat:x:-3:+4:1:2:extra\n");
    assert_eq!(enemies.len(), 2);
    let s = &enemies[0];
    assert_eq!((s.id.as_str(), s.name.as_str()), ("slime", "Slime"));
    assert_eq!((s.hp, s.atk, s.def, s.exp, s.gold), (20, 5, 2, 10, 5));
    let b = &enemies[1];
    assert_eq!((b.hp, b.atk, b.def, b.exp, b.gold), (0, -3, 4, 1, 2));
}

#[test]
fn npcs() {
    let npcs = parse_npcs(
        "n1:Elder:village:Q:2:0:elder_talk\nn2:Merchant:village:S:0:1:merchant_talk:general\nn3:Priest:temple:H:x:4\nn4:Someone:village:Z:1:1\nshort:row:a:V:1\n",
    );
    assert_eq!(npcs.len(), 4);
    assert_eq!((npcs[0].name.as_str(), npcs[0].map_id.as_str()), ("Elder", "village"));
    assert_eq!((npcs[0].npc_type, npcs[0].x, npcs[0].y), (NpcType::QuestGiver, 2, 0));
    assert_eq!(npcs[0].dialog_id, "elder_talk");
    assert_eq!(npcs[0].shop_id, None);
    assert_eq!(npcs[1].npc_type, NpcType::ShopKeeper);
    assert_eq!(npcs[1].shop_id.as_deref(), Some("general"));
    assert_eq!((npcs[2].npc_type, npcs[2].x, npcs[2].y), (NpcType::Healer, 0, 4));
    assert_eq!(npcs[2].dialog_id, "");
    assert_eq!(npcs[3].npc_type, NpcType::Villager);
}

#[test]
fn quests() {
    let quests = parse_quests(
        "rats:Rat Hunt:KILL:slime:2:50:30:Kill two slimes:potion\nherbs:Herbs:COLLECT:herb:x:5:6:Bring herbs\nt:T:TALK:elder:1:0:0:Talk\nr:R:REACH:cave:1:0:0:Go\nu:U:WHAT:x:1:0:0:Eh\nshort:Q:KILL:x:1:2:3\n",
    );
    assert_eq!(quests.len(), 5);
    let q = &quests[0];
    assert_eq!((q.id.as_str(), q.name.as_str(), q.description.as_str()), ("rats", "Rat Hunt", "Kill two slimes"));
    assert_eq!((q.quest_type, q.target_id.as_str(), q.target_count), (QuestType::Kill, "slime", 2));
    assert_eq!((q.reward_exp, q.reward_gold), (50, 30));
    assert_eq!(q.reward_item.as_deref(), Some("potion"));
    assert_eq!((quests[1].quest_type, quests[1].target_count), (QuestType::Collect, 0));
    assert_eq!(quests[1].reward_item, None);
    assert_eq!(quests[2].quest_type, QuestType::Talk);
    assert_eq!(quests[3].quest_type, QuestType::Reach);
    assert_eq!(quests[4].quest_type, QuestType::Kill);
}

#[test]
fn a_quest_count_that_cannot_be_read_is_zero() {
    let quests = parse_quests("q1:Hunt:KILL:slime:abc:50:20:Kill slimes");
    assert_eq!(quests.len(), 1);
    let q = &quests[0];
    assert_eq!((q.id.as_str(), q.name.as_str(), q.quest_type), ("q1", "Hunt", QuestType::Kill));
    assert_eq!((q.target_id.as_str(), q.target_count), ("slime", 0));
    assert_eq!((q.reward_exp, q.reward_gold), (50, 20));
    assert_eq!(q.description, "Kill slimes");
    assert_eq!(q.reward_item, None);
}

#[test]
fn shops() {
    let shops = parse_shops("general:General Store:potion:cloth\nempty:Empty:\nshort:Row\n");
    assert_eq!(shops.len(), 2);
    assert_eq!((shops[0].id.as_str(), shops[0].name.as_str()), ("general", "General Store"));
    assert_eq!(shops[0].items, vec!["potion".to_string(), "cloth".to_string()]);
    assert_eq!(shops[1].items, vec!["".to_string()]);
}

#[test]
fn conditions() {
    assert!(matches!(DialogBuilder::parse_condition("HAS_QUEST=rats"), Some(DialogCondition::HasQuest(id)) if id == "rats"));
    assert!(matches!(DialogBuilder::parse_condition("QUEST_DONE=rats"), Some(DialogCondition::QuestComplete(id)) if id == "rats"));
    assert!(matches!(DialogBuilder::parse_condition("HAS_ITEM=key"), Some(DialogCondition::HasItem(id)) if id == "key"));
    assert!(matches!(DialogBuilder::parse_condition("HAS_GOLD=100"), Some(DialogCondition::HasGold(100))));
    assert!(DialogBuilder::parse_condition("HAS_GOLD=much").is_none());
    assert!(DialogBuilder::parse_condition("HAS_QUEST").is_none());
    assert!(DialogBuilder::parse_condition("HAS_QUEST=a=b").is_none());
    assert!(DialogBuilder::parse_condition("OTHER=a").is_none());
    assert!(DialogBuilder::parse_condition("").is_none());
}

#[test]
fn actions() {
    assert!(matches!(DialogBuilder::parse_action("GIVE_QUEST=rats"), Some(DialogAction::GiveQuest(id)) if id == "rats"));
    assert!(matches!(DialogBuilder::parse_action("COMPLETE_QUEST=rats"), Some(DialogAction::CompleteQuest(id)) if id == "rats"));
    assert!(matches!(DialogBuilder::parse_action("GIVE_ITEM=key"), Some(DialogAction::GiveItem(id)) if id == "key"));
    assert!(matches!(DialogBuilder::parse_action("TAKE_ITEM=key=x"), Some(DialogAction::TakeItem(id)) if id == "key"));
    assert!(matches!(DialogBuilder::parse_action("GIVE_GOLD=5"), Some(DialogAction::GiveGold(5))));
    assert!(matches!(DialogBuilder::parse_action("TAKE_GOLD=-5"), Some(DialogAction::TakeGold(-5))));
    assert!(matches!(DialogBuilder::parse_action("OPEN_SHOP=general"), Some(DialogAction::OpenShop(id)) if id == "general"));
    assert!(matches!(DialogBuilder::parse_action("HEAL"), Some(DialogAction::Heal)));
    assert!(matches!(DialogBuilder::parse_action("HEAL=now"), Some(DialogAction::Heal)));
    assert!(DialogBuilder::parse_action("GIVE_GOLD=lots").is_none());
    assert!(DialogBuilder::parse_action("GIVE_GOLD").is_none());
    assert!(DialogBuilder::parse_action("GIVE_QUEST").is_none());
    assert!(DialogBuilder::parse_action("DANCE=1").is_none());
    assert!(DialogBuilder::parse_action("").is_none());
}

#[test]
fn dialog_lines() {
    let mut b = DialogBuilder::new("d".to_string());
    b.add_line("Hello there");
    b.add_line("GIVE_QUEST=rats:Please help");
    b.add_line("HAS_GOLD=10:TAKE_GOLD=10:Pay up: now");
    b.add_line("::Plain");
    b.add_line("nonsense:Text");
    let d = b.build();
    assert_eq!(d.id, "d");
    assert_eq!(d.lines.len(), 5);
    assert_eq!(d.lines[0].text, "Hello there");
    assert!(d.lines[0].condition.is_none() && d.lines[0].action.is_none());
    assert_eq!(d.lines[1].text, "Please help");
    assert!(d.lines[1].condition.is_none());
    assert!(matches!(&d.lines[1].action, Some(DialogAction::GiveQuest(id)) if id == "rats"));
    assert_eq!(d.lines[2].text, "Pay up: now");
    assert!(matches!(&d.lines[2].condition, Some(DialogCondition::HasGold(10))));
    assert!(matches!(&d.lines[2].action, Some(DialogAction::TakeGold(10))));
    assert_eq!(d.lines[3].text, "Plain");
    assert!(d.lines[3].condition.is_none() && d.lines[3].action.is_none());
    assert_eq!(d.lines[4].text, "Text");
    assert!(d.lines[4].action.is_none());
}

#[test]
fn dialogs() {
    let dialogs = parse_dialogs(
        "stray line\n@DIALOG:a\nOne\n# comment\n\nTwo\n@END\nbetween\n@DIALOG:b\n@DIALOG:c\nThree\n",
    );
    assert_eq!(dialogs.len(), 3);
    assert_eq!(dialogs[0].id, "a");
    assert_eq!(dialogs[0].lines.len(), 2);
    assert_eq!(dialogs[0].lines[1].text, "Two");
    assert_eq!(dialogs[1].id, "b");
    assert!(dialogs[1].lines.is_empty());
    assert_eq!(dialogs[2].id, "c");
    assert_eq!(dialogs[2].lines[0].text, "Three");
    assert!(parse_dialogs("@END\nx\n").is_empty());
}

#[test]
fn a_map_is_as_wide_as_its_widest_row() {
    let mut b = MapBuilder::new("m".to_string(), "Map".to_string());
    b.add_row(".P");
    b.add_row("~>.T");
    b.add_row("*");
    let map = b.build().unwrap();
    assert_eq!((map.width, map.height), (4, 3));
    assert_eq!(map.tiles.len(), 12);
    assert_eq!(
        map.tiles,
        vec![
            Tile::Floor,
            Tile::PlayerStart,
            Tile::Floor,
            Tile::Floor,
            Tile::Water,
            Tile::Exit,
            Tile::Floor,
            Tile::Treasure,
            Tile::Tree,
            Tile::Floor,
            Tile::Floor,
            Tile::Floor,
        ]
    );
    assert_eq!(map.exits, vec![(1, 1, String::new())]);
    assert!(MapBuilder::new("e".to_string(), "E".to_string()).build().is_none());
}

#[test]
fn each_exit_tile_has_an_exit() {
    let maps = parse_maps(
        "@MAP:a:Alpha\n>.>\n.>.\n@NEXT:2:0:beta\n@NEXT:9:9:gamma\n@NEXT:1:1\n@DUNGEON:0:1:cave\n@ENCOUNTERS:slime:3:bat:x:odd\n@END\n",
    );
    assert_eq!(maps.len(), 1);
    let m = &maps[0];
    assert_eq!((m.id.as_str(), m.name.as_str()), ("a", "Alpha"));
    assert_eq!(
        m.exits,
        vec![
            (2, 0, "beta".to_string()),
            (9, 9, "gamma".to_string()),
            (0, 0, String::new()),
            (1, 1, String::new()),
        ]
    );
    assert_eq!(m.dungeons, vec![(0, 1, "cave".to_string())]);
    assert_eq!(m.encounters, vec![("slime".to_string(), 3), ("bat".to_string(), 0)]);
}

#[test]
fn maps() {
    let maps = parse_maps(
        "...\n@ENCOUNTERS:a:1\n@MAP:one\n.P.\n# comment\n#..\n\n...\n@MAP:none:Nothing\n@END\n@END\n@MAP:two:Second\n~~\n",
    );
    assert_eq!(maps.len(), 2);
    assert_eq!((maps[0].id.as_str(), maps[0].name.as_str()), ("one", "one"));
    assert_eq!((maps[0].width, maps[0].height), (3, 2));
    assert!(maps[0].encounters.is_empty());
    assert_eq!((maps[1].id.as_str(), maps[1].name.as_str()), ("two", "Second"));
    assert_eq!(maps[1].tiles, vec![Tile::Water, Tile::Water]);
}
