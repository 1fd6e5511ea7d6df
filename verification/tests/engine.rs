use lost_kingdom::data::{
    parse_dialogs, parse_enemies, parse_items, parse_maps, parse_npcs, parse_quests, parse_shops,
    ItemKind,
};
use lost_kingdom::game::{
    Direction, FieldEnemy, GameState, InventoryState, Key, MenuState, Request, RpgGame, ShopMode,
};

const ITEMS: &str = "W:wooden_sword:Wooden Sword:3:0:50\nA:cloth:Cloth:2:0:41\nI:potion:Potion:30:25\nC:ring:Ring:1:1:500\n";
const ENEMIES: &str = "slime:Slime:20:5:2:10:5\n";
const MAPS: &str = "@MAP:village:Village\n.....\n.P.T>\n..H..\nD....\n@NEXT:4:1:forest\n@DUNGEON:0:3:cave\n@END\n\
@MAP:forest:Forest\n....\n.E.P\n...>\n@ENCOUNTERS:slime:1\n@END\n\
@MAP:cave:Cave\n..D\n.P.\n@DUNGEON:2:0:\n@END\n";
const NPCS: &str = "n1:Elder:village:Q:2:0:elder_talk\nn2:Merchant:village:S:0:1:merchant_talk:general\nn3:Priest:village:H:1:3:missing\nn4:Nun:village:H:3:3:blessing\nn5:Hermit:forest:V:3:0:elder_talk\n";
const DIALOGS: &str = "@DIALOG:elder_talk\nHello traveller\nGIVE_QUEST=rats:Please slay the slimes\nHAS_QUEST=rats::You have work to do\nQUEST_DONE=rats:COMPLETE_QUEST=rats:Well done\n@END\n\
@DIALOG:blessing\nGIVE_GOLD=7:Be blessed\nGIVE_ITEM=ring:Take this\nTAKE_ITEM=potion:I take that\nTAKE_GOLD=1000:And that\nHEAL:Rest\nOPEN_SHOP=general:Have a look\nnever reached\n@END\n\
@DIALOG:secret\nHAS_ITEM=key::Psst\n@END\n";
const QUESTS: &str = "rats:Slime Hunt:KILL:slime:2:50:30:Kill two slimes:ring\n";
const SHOPS: &str = "general:General Store:potion:unknown:cloth\n";

fn game(has_save: bool) -> RpgGame {
    RpgGame::new(
        parse_items(ITEMS),
        parse_enemies(ENEMIES),
        parse_maps(MAPS),
        parse_npcs(NPCS),
        parse_dialogs(DIALOGS),
        parse_quests(QUESTS),
        parse_shops(SHOPS),
        has_save,
    )
}

fn started() -> RpgGame {
    let mut g = game(false);
    assert_eq!(g.on_keydown(Key::Confirm), Request::Nothing);
    g
}

fn ids(g: &RpgGame) -> Vec<&str> {
    g.player.inventory.iter().map(|i| i.id.as_str()).collect()
}

#[test]
fn the_game_starts_in_the_menu() {
    let g = game(true);
    assert!(matches!(g.state, GameState::Menu(MenuState { selected: 0, has_save: true })));
    assert_eq!(g.player.name, "Hero");
    assert_eq!(g.player.current_map_id, "village");
    assert_eq!(g.maps.len(), 3);
    assert!(g.combat.enemies.is_empty());
}

#[test]
fn the_menu_cursor_stays_in_the_menu() {
    let mut m = MenuState { selected: 0, has_save: false };
    assert_eq!(m.menu_count(), 2);
    m.move_up();
    assert_eq!(m.selected, 0);
    m.move_down();
    m.move_down();
    assert_eq!(m.selected, 1);
    let mut m = MenuState { selected: 0, has_save: true };
    assert_eq!(m.menu_count(), 3);
    m.move_down();
    m.move_down();
    m.move_down();
    assert_eq!(m.selected, 2);
    m.move_up();
    assert_eq!(m.selected, 1);
}

#[test]
fn the_menu_asks_for_what_it_cannot_do_itself() {
    let mut g = game(false);
    assert_eq!(g.on_keydown(Key::Down), Request::Nothing);
    assert!(matches!(g.state, GameState::Menu(MenuState { selected: 1, has_save: false })));
    assert_eq!(g.on_keydown(Key::Confirm), Request::Exit);
    assert_eq!(g.on_keydown(Key::Cancel), Request::Nothing);
    let mut g = game(true);
    g.on_keydown(Key::Down);
    assert_eq!(g.on_keydown(Key::Confirm), Request::Load);
    assert!(matches!(g.state, GameState::Menu(_)));
    g.on_keydown(Key::Down);
    g.on_keydown(Key::Down);
    assert_eq!(g.on_keydown(Key::Confirm), Request::Exit);
    g.on_keydown(Key::Up);
    g.on_keydown(Key::Up);
    assert_eq!(g.on_keydown(Key::Confirm), Request::Nothing);
    assert!(matches!(g.state, GameState::Explore));
}

#[test]
fn a_new_game_equips_the_hero() {
    let g = started();
    assert!(matches!(g.state, GameState::Explore));
    assert_eq!(ids(&g), vec!["wooden_sword", "cloth", "potion", "potion"]);
    assert_eq!(g.player.equipped_weapon, Some(0));
    assert_eq!(g.player.equipped_armor, Some(1));
    assert_eq!(g.player.equipped_accessory, None);
    assert_eq!((g.player.x, g.player.y), (1, 1));
    assert_eq!(g.player.current_map_id, "village");
    assert_eq!(g.player.total_atk(), 13);
    assert_eq!(g.player.total_def(), 7);
    assert!(g.combat.enemies.is_empty());
    assert_eq!(g.current_map().unwrap().name, "Village");
}

#[test]
fn a_new_game_without_content_still_starts() {
    let mut g = RpgGame::new(
        parse_items("A:cloth:Cloth:2:0:41\n"),
        Vec::new(),
        Vec::new(),
        Vec::new(),
        Vec::new(),
        Vec::new(),
        Vec::new(),
        false,
    );
    g.start_new_game();
    assert!(matches!(g.state, GameState::Explore));
    assert_eq!(ids(&g), vec!["cloth"]);
    assert_eq!(g.player.equipped_weapon, None);
    assert_eq!(g.player.equipped_armor, Some(0));
    assert_eq!((g.player.x, g.player.y), (0, 0));
    assert!(g.current_map().is_none());
    assert_eq!(g.on_keydown(Key::Right), Request::Nothing);
    assert_eq!((g.player.x, g.player.y, g.player.facing), (0, 0, Direction::Right));
    g.update_combat();
    assert!(matches!(g.state, GameState::Explore));
}

#[test]
fn an_exit_with_a_target_leads_to_that_map() {
    let mut g = started();
    g.on_keydown(Key::Right);
    assert_eq!((g.player.x, g.player.y), (2, 1));
    g.on_keydown(Key::Right);
    assert_eq!((g.player.x, g.player.y), (3, 1));
    g.on_keydown(Key::Right);
    assert_eq!(g.player.current_map_id, "forest");
    assert_eq!((g.player.x, g.player.y), (3, 1));
    assert_eq!(g.player.facing, Direction::Right);
    assert_eq!(g.combat.enemies.len(), 1);
    assert_eq!(g.combat.enemies[0].data.id, "slime");
    assert_eq!((g.combat.enemies[0].x, g.combat.enemies[0].y), (1, 1));
    assert!(matches!(g.state, GameState::Explore));
}

#[test]
fn an_exit_without_a_target_leads_nowhere() {
    let mut g = started();
    g.change_map("forest");
    assert_eq!(g.current_map().unwrap().exits, vec![(3, 2, String::new())]);
    g.on_keydown(Key::Down);
    assert_eq!(g.player.current_map_id, "forest");
    assert_eq!((g.player.x, g.player.y), (3, 2));
    assert_eq!(g.combat.enemies.len(), 1);
}

#[test]
fn a_dungeon_entrance_leads_to_its_map() {
    let mut g = started();
    g.on_keydown(Key::Left);
    g.on_keydown(Key::Down);
    g.on_keydown(Key::Down);
    assert_eq!(g.player.current_map_id, "cave");
    assert_eq!((g.player.x, g.player.y), (1, 1));
    g.on_keydown(Key::Up);
    g.on_keydown(Key::Right);
    assert_eq!(g.player.current_map_id, "cave");
    assert_eq!((g.player.x, g.player.y), (2, 0));
}

#[test]
fn a_map_that_is_not_there_changes_nothing() {
    let mut g = started();
    g.change_map("moon");
    assert_eq!(g.player.current_map_id, "village");
    assert_eq!((g.player.x, g.player.y), (1, 1));
}

#[test]
fn a_treasure_is_taken_once() {
    let mut g = started();
    g.on_keydown(Key::Right);
    g.on_keydown(Key::Right);
    assert_eq!((g.player.x, g.player.y), (3, 1));
    assert_eq!(ids(&g), vec!["wooden_sword", "cloth", "potion", "potion", "potion"]);
    assert_eq!(g.player.opened_treasures, vec![("village".to_string(), 3, 1)]);
    g.on_keydown(Key::Left);
    g.on_keydown(Key::Right);
    assert_eq!((g.player.x, g.player.y), (3, 1));
    assert_eq!(g.player.inventory.len(), 5);
    assert_eq!(g.player.opened_treasures.len(), 1);
    g.check_tile_events();
    assert_eq!(g.player.inventory.len(), 5);
}

#[test]
fn a_blocked_step_still_turns_the_player() {
    let mut g = started();
    g.on_keydown(Key::Left);
    assert_eq!((g.player.x, g.player.y, g.player.facing), (0, 1, Direction::Left));
    g.on_keydown(Key::Left);
    assert_eq!((g.player.x, g.player.y, g.player.facing), (0, 1, Direction::Left));
    g.on_keydown(Key::Up);
    g.on_keydown(Key::Up);
    assert_eq!((g.player.x, g.player.y, g.player.facing), (0, 0, Direction::Up));
}

#[test]
fn an_enemy_alive_blocks_the_way() {
    let mut g = started();
    g.change_map("forest");
    g.on_keydown(Key::Left);
    assert_eq!((g.player.x, g.player.y), (2, 1));
    g.on_keydown(Key::Left);
    assert_eq!((g.player.x, g.player.y, g.player.facing), (2, 1, Direction::Left));
    g.combat.enemies[0].hp = 0;
    g.on_keydown(Key::Left);
    assert_eq!((g.player.x, g.player.y), (1, 1));
}

#[test]
fn a_kill_pays_and_counts_for_the_quest() {
    let mut g = started();
    g.player.add_quest("rats");
    g.player.add_quest("other");
    g.change_map("forest");
    g.on_keydown(Key::Left);
    g.on_keydown(Key::Left);
    assert_eq!(g.on_keydown(Key::Confirm), Request::Nothing);
    assert_eq!(g.combat.enemies[0].hp, 8);
    assert_eq!(g.combat.player_attack_cooldown, 15);
    assert_eq!((g.player.stats.exp, g.player.stats.gold), (0, 0));
    g.on_keydown(Key::Confirm);
    assert_eq!(g.combat.enemies[0].hp, 8);
    g.combat.player_attack_cooldown = 0;
    g.on_keydown(Key::Confirm);
    assert_eq!(g.combat.enemies[0].hp, 0);
    assert_eq!((g.player.stats.exp, g.player.stats.gold), (10, 5));
    assert_eq!(g.player.quests[0].current_count, 1);
    assert!(!g.player.quests[0].completed);
    assert_eq!(g.player.quests[1].current_count, 0);
    g.update_kill_quest("slime");
    assert_eq!(g.player.quests[0].current_count, 2);
    assert!(g.player.quests[0].completed);
    g.update_kill_quest("slime");
    assert_eq!(g.player.quests[0].current_count, 2);
    g.update_kill_quest("bat");
    assert_eq!(g.player.quests[1].current_count, 0);
}

#[test]
fn talking_takes_on_and_completes_a_quest() {
    let mut g = started();
    g.on_keydown(Key::Right);
    g.on_keydown(Key::Up);
    assert_eq!((g.player.x, g.player.y), (2, 0));
    g.on_keydown(Key::Down);
    g.on_keydown(Key::Up);
    assert_eq!((g.player.x, g.player.y, g.player.facing), (2, 0, Direction::Up));
    g.on_keydown(Key::Down);
    g.player.set_facing(0, -1);
    assert_eq!((g.player.x, g.player.y), (2, 1));
    g.on_keydown(Key::Confirm);
    match &g.state {
        GameState::Dialog(d) => {
            assert_eq!(d.npc_name, "Elder");
            assert_eq!(d.lines.len(), 2);
            assert_eq!(d.current_text(), Some("Hello traveller"));
        }
        _ => panic!("no dialog"),
    }
    assert_eq!(g.combat.player_attack_cooldown, 0);
    g.on_keydown(Key::Confirm);
    assert!(g.player.quests.is_empty());
    match &g.state {
        GameState::Dialog(d) => assert_eq!(d.current_text(), Some("Please slay the slimes")),
        _ => panic!("no dialog"),
    }
    g.on_keydown(Key::Confirm);
    assert!(matches!(g.state, GameState::Explore));
    assert!(g.player.has_quest("rats"));
    g.on_keydown(Key::Confirm);
    match &g.state {
        GameState::Dialog(d) => assert_eq!(d.lines.len(), 3),
        _ => panic!("no dialog"),
    }
    g.on_keydown(Key::Confirm);
    g.on_keydown(Key::Confirm);
    g.on_keydown(Key::Cancel);
    assert!(matches!(g.state, GameState::Explore));
    assert_eq!(g.player.quests.len(), 1);
    g.update_kill_quest("slime");
    g.update_kill_quest("slime");
    g.on_keydown(Key::Confirm);
    match &g.state {
        GameState::Dialog(d) => {
            assert_eq!(d.lines.len(), 4);
            assert_eq!(d.lines[3].text, "Well done");
        }
        _ => panic!("no dialog"),
    }
    for _ in 0..4 {
        g.on_keydown(Key::Confirm);
    }
    assert!(matches!(g.state, GameState::Explore));
    assert!(g.player.quests[0].rewarded);
    assert_eq!((g.player.stats.exp, g.player.stats.gold), (50, 30));
    assert_eq!(ids(&g), vec!["wooden_sword", "cloth", "potion", "potion", "ring"]);
    assert!(!g.player.has_quest("rats"));
}

#[test]
fn a_reward_does_not_wait_for_the_quest() {
    let mut g = started();
    g.player.add_quest("rats");
    let lines = parse_dialogs("@DIALOG:x\nCOMPLETE_QUEST=rats:Here\nCOMPLETE_QUEST=nothing:There\n@END\n");
    g.state = GameState::Dialog(lost_kingdom::game::DialogState::new("X".to_string(), &lines[0]));
    g.process_dialog_action();
    assert!(g.player.quests[0].rewarded && !g.player.quests[0].completed);
    assert_eq!((g.player.stats.exp, g.player.stats.gold), (50, 30));
    assert_eq!(g.player.inventory.len(), 5);
    g.on_keydown(Key::Confirm);
    assert_eq!((g.player.stats.exp, g.player.stats.gold), (50, 30));
    assert_eq!(g.player.stats.level, 1);
    assert_eq!(g.player.inventory.len(), 5);
    g.on_keydown(Key::Confirm);
    assert!(matches!(g.state, GameState::Explore));
    assert_eq!(g.player.stats.gold, 30);
}

#[test]
fn a_quest_is_rewarded_once() {
    let mut g = started();
    g.player.add_quest("rats");
    g.player.quests[0].completed = true;
    g.player.quests[0].rewarded = true;
    g.player.stats.gold = 7;
    let lines = parse_dialogs("@DIALOG:x\nCOMPLETE_QUEST=rats:Here\n@END\n");
    g.state = GameState::Dialog(lost_kingdom::game::DialogState::new("X".to_string(), &lines[0]));
    assert!(g.player.is_quest_rewarded("rats"));
    assert!(!g.player.is_quest_rewarded("wolves"));
    g.process_dialog_action();
    assert_eq!((g.player.stats.exp, g.player.stats.gold, g.player.stats.level), (0, 7, 1));
    assert_eq!(ids(&g), vec!["wooden_sword", "cloth", "potion", "potion"]);
    assert_eq!(g.player.quests.len(), 1);
    assert!(g.player.quests[0].rewarded && g.player.quests[0].completed);
    assert!(matches!(g.state, GameState::Dialog(_)));
}

#[test]
fn a_quest_never_taken_on_pays_each_time() {
    let mut g = started();
    let lines = parse_dialogs("@DIALOG:x\nCOMPLETE_QUEST=rats:Here\n@END\n");
    g.state = GameState::Dialog(lost_kingdom::game::DialogState::new("X".to_string(), &lines[0]));
    g.process_dialog_action();
    assert_eq!((g.player.stats.exp, g.player.stats.gold), (50, 30));
    assert!(g.player.quests.is_empty());
    g.process_dialog_action();
    assert_eq!((g.player.stats.exp, g.player.stats.gold, g.player.stats.level), (0, 60, 2));
    assert_eq!(g.player.inventory.len(), 6);
}

#[test]
fn dialog_actions() {
    let mut g = started();
    g.player.stats.current_hp = 1;
    g.player.stats.current_mp = 2;
    g.player.x = 3;
    g.player.y = 2;
    g.player.facing = Direction::Down;
    g.on_keydown(Key::Confirm);
    assert_eq!((g.player.stats.current_hp, g.player.stats.current_mp), (50, 20));
    match &g.state {
        GameState::Dialog(d) => assert_eq!((d.npc_name.as_str(), d.lines.len()), ("Nun", 7)),
        _ => panic!("no dialog"),
    }
    g.on_keydown(Key::Confirm);
    assert_eq!(g.player.stats.gold, 7);
    g.on_keydown(Key::Confirm);
    assert_eq!(ids(&g), vec!["wooden_sword", "cloth", "potion", "potion", "ring"]);
    g.on_keydown(Key::Confirm);
    assert_eq!(ids(&g), vec!["wooden_sword", "cloth", "potion", "ring"]);
    g.on_keydown(Key::Confirm);
    assert_eq!(g.player.stats.gold, 0);
    g.player.stats.current_hp = 3;
    g.on_keydown(Key::Confirm);
    assert_eq!(g.player.stats.current_hp, 50);
    match &g.state {
        GameState::Dialog(d) => assert_eq!(d.current_line, 5),
        _ => panic!("no dialog"),
    }
    g.on_keydown(Key::Confirm);
    match &g.state {
        GameState::Shop(s) => {
            assert_eq!(s.shop.id, "general");
            assert_eq!(s.items.len(), 2);
            assert_eq!((s.selected, s.mode), (0, ShopMode::Select));
        }
        _ => panic!("no shop"),
    }
}

#[test]
fn a_healer_without_a_dialog_heals_and_the_player_strikes() {
    let mut g = started();
    g.player.stats.current_hp = 1;
    g.player.x = 1;
    g.player.y = 2;
    g.player.facing = Direction::Down;
    g.on_keydown(Key::Confirm);
    assert!(matches!(g.state, GameState::Explore));
    assert_eq!(g.player.stats.current_hp, 50);
    assert_eq!(g.combat.player_attack_cooldown, 15);
}

#[test]
fn nobody_there_means_a_strike() {
    let mut g = started();
    g.on_keydown(Key::Confirm);
    assert!(matches!(g.state, GameState::Explore));
    assert_eq!(g.combat.player_attack_cooldown, 15);
    assert!(g.find_npc_at(1, 2).is_none());
    assert_eq!(g.find_npc_at(2, 0).unwrap().name, "Elder");
    assert!(g.find_npc_at(3, 0).is_none());
}

#[test]
fn a_dialog_with_nothing_to_say_does_not_open() {
    let mut g = started();
    let mut npcs = parse_npcs("n:Spy:village:V:1:0:secret\n");
    g.npcs.push(npcs.remove(0));
    g.player.facing = Direction::Up;
    g.try_interact_with_npc();
    assert!(matches!(g.state, GameState::Explore));
    assert_eq!(g.filter_dialog_lines(&g.dialogs[2]).lines.len(), 0);
}

#[test]
fn buying_and_selling() {
    let mut g = started();
    g.player.facing = Direction::Left;
    g.on_keydown(Key::Confirm);
    assert_eq!(g.combat.player_attack_cooldown, 0);
    match &g.state {
        GameState::Shop(s) => {
            assert_eq!(s.shop.name, "General Store");
            let offered: Vec<&str> = s.items.iter().map(|i| i.id.as_str()).collect();
            assert_eq!(offered, vec!["potion", "cloth"]);
            assert_eq!((s.selected, s.mode), (0, ShopMode::Select));
        }
        _ => panic!("no shop"),
    }
    g.on_keydown(Key::Down);
    g.on_keydown(Key::Down);
    assert!(matches!(&g.state, GameState::Shop(s) if s.selected == 1));
    g.on_keydown(Key::Up);
    g.on_keydown(Key::Confirm);
    assert!(matches!(&g.state, GameState::Shop(s) if s.mode == ShopMode::Buy && s.selected == 0));
    g.on_keydown(Key::Confirm);
    assert_eq!(g.player.inventory.len(), 4);
    g.player.stats.gold = 66;
    g.on_keydown(Key::Confirm);
    assert_eq!(g.player.stats.gold, 41);
    assert_eq!(g.player.inventory.len(), 5);
    g.on_keydown(Key::Down);
    g.on_keydown(Key::Down);
    assert!(matches!(&g.state, GameState::Shop(s) if s.selected == 1));
    g.on_keydown(Key::Confirm);
    assert_eq!(g.player.stats.gold, 0);
    assert_eq!(ids(&g), vec!["wooden_sword", "cloth", "potion", "potion", "potion", "cloth"]);
    g.on_keydown(Key::Confirm);
    assert_eq!(g.player.inventory.len(), 6);
    g.on_keydown(Key::Cancel);
    assert!(matches!(&g.state, GameState::Shop(s) if s.mode == ShopMode::Select && s.selected == 0));
    g.on_keydown(Key::Down);
    g.on_keydown(Key::Confirm);
    assert!(matches!(&g.state, GameState::Shop(s) if s.mode == ShopMode::Sell && s.selected == 0));
    g.on_keydown(Key::Confirm);
    assert_eq!(g.player.stats.gold, 25);
    assert_eq!(ids(&g), vec!["cloth", "potion", "potion", "potion", "cloth"]);
    assert_eq!(g.player.equipped_weapon, None);
    assert_eq!(g.player.equipped_armor, Some(0));
    for _ in 0..9 {
        g.on_keydown(Key::Down);
    }
    assert!(matches!(&g.state, GameState::Shop(s) if s.selected == 4));
    g.on_keydown(Key::Confirm);
    assert_eq!(g.player.stats.gold, 45);
    assert!(matches!(&g.state, GameState::Shop(s) if s.selected == 3));
    g.on_keydown(Key::Confirm);
    assert_eq!(g.player.stats.gold, 57);
    assert!(matches!(&g.state, GameState::Shop(s) if s.selected == 2));
    g.on_keydown(Key::Cancel);
    g.on_keydown(Key::Cancel);
    assert!(matches!(g.state, GameState::Explore));
}

#[test]
fn selling_the_last_item_leaves_the_cursor_at_the_top() {
    let mut g = started();
    g.player.facing = Direction::Left;
    g.on_keydown(Key::Confirm);
    g.on_keydown(Key::Down);
    g.on_keydown(Key::Confirm);
    for _ in 0..4 {
        g.on_keydown(Key::Confirm);
    }
    assert!(g.player.inventory.is_empty());
    assert_eq!(g.player.stats.gold, 25 + 20 + 12 + 12);
    assert!(matches!(&g.state, GameState::Shop(s) if s.selected == 0));
    g.on_keydown(Key::Confirm);
    assert_eq!(g.player.stats.gold, 69);
    assert_eq!((g.player.equipped_weapon, g.player.equipped_armor), (None, None));
}

#[test]
fn a_shopkeeper_without_a_named_shop_keeps_the_first() {
    let mut g = started();
    g.npcs[1].shop_id = Some("nowhere".to_string());
    g.player.facing = Direction::Left;
    g.try_interact_with_npc();
    assert!(matches!(&g.state, GameState::Shop(s) if s.shop.id == "general"));
    g.state = GameState::Explore;
    g.npcs[1].shop_id = None;
    g.try_interact_with_npc();
    assert!(matches!(&g.state, GameState::Shop(_)));
    g.state = GameState::Explore;
    g.shops.clear();
    g.try_interact_with_npc();
    assert!(matches!(g.state, GameState::Explore));
}

#[test]
fn the_inventory_screen() {
    let mut g = started();
    g.inventory_state = InventoryState { selected: 3, scroll: 1 };
    assert_eq!(g.on_keydown(Key::Key1), Request::Nothing);
    assert!(matches!(g.state, GameState::Inventory));
    assert_eq!(g.inventory_state, InventoryState { selected: 0, scroll: 0 });
    g.on_keydown(Key::Up);
    assert_eq!(g.inventory_state.selected, 0);
    for _ in 0..9 {
        g.on_keydown(Key::Down);
    }
    assert_eq!(g.inventory_state.selected, 3);
    g.player.stats.current_hp = 10;
    g.on_keydown(Key::Confirm);
    assert_eq!(g.player.stats.current_hp, 40);
    assert_eq!(g.player.inventory.len(), 3);
    assert_eq!(g.inventory_state.selected, 3);
    g.on_keydown(Key::Confirm);
    assert_eq!(g.player.inventory.len(), 3);
    g.on_keydown(Key::Other);
    assert!(matches!(g.state, GameState::Inventory));
    g.on_keydown(Key::Cancel);
    assert!(matches!(g.state, GameState::Explore));
}

#[test]
fn the_inventory_window_follows_the_cursor() {
    let mut s = InventoryState::default();
    for _ in 0..5 {
        s.move_down(10);
    }
    assert_eq!(s, InventoryState { selected: 5, scroll: 0 });
    s.move_down(10);
    assert_eq!(s, InventoryState { selected: 6, scroll: 1 });
    for _ in 0..9 {
        s.move_down(10);
    }
    assert_eq!(s, InventoryState { selected: 9, scroll: 4 });
    for _ in 0..5 {
        s.move_up();
    }
    assert_eq!(s, InventoryState { selected: 4, scroll: 4 });
    s.move_up();
    assert_eq!(s, InventoryState { selected: 3, scroll: 3 });
    let mut s = InventoryState::default();
    s.move_down(0);
    s.move_down(1);
    assert_eq!(s, InventoryState { selected: 0, scroll: 0 });
}

#[test]
fn screens_that_only_close() {
    let mut g = started();
    g.on_keydown(Key::Key2);
    assert!(matches!(g.state, GameState::Stats));
    g.on_keydown(Key::Up);
    assert!(matches!(g.state, GameState::Stats));
    g.on_keydown(Key::Confirm);
    assert!(matches!(g.state, GameState::Explore));
    g.on_keydown(Key::Key3);
    assert!(matches!(g.state, GameState::QuestLog));
    g.on_keydown(Key::Cancel);
    assert!(matches!(g.state, GameState::Explore));
}

#[test]
fn saving_is_asked_of_the_caller() {
    let mut g = started();
    assert_eq!(g.on_keydown(Key::Key0), Request::Save);
    assert!(matches!(g.state, GameState::Explore));
    assert_eq!(g.on_keydown(Key::Cancel), Request::SaveAndOpenMenu);
    assert!(matches!(g.state, GameState::Explore));
    g.open_menu(true);
    assert!(matches!(g.state, GameState::Menu(MenuState { selected: 0, has_save: true })));
    assert_eq!(g.player.inventory.len(), 4);
}

#[test]
fn a_tick_hurts_and_can_end_the_game() {
    let mut g = started();
    g.change_map("forest");
    g.on_keydown(Key::Left);
    g.player.stats.current_hp = 4;
    g.update_combat();
    assert_eq!(g.player.stats.current_hp, 2);
    assert!(matches!(g.state, GameState::Explore));
    assert_eq!(g.combat.player_hit_flash, 10);
    g.combat.enemies[0].attack_cooldown = 0;
    g.update_combat();
    assert_eq!(g.player.stats.current_hp, 0);
    assert!(matches!(g.state, GameState::GameOver));
    g.combat.enemies[0].attack_cooldown = 0;
    g.update_combat();
    assert_eq!(g.combat.update_counter, 2);
    assert_eq!(g.on_keydown(Key::Up), Request::Nothing);
    assert!(matches!(g.state, GameState::GameOver));
    assert_eq!(g.on_keydown(Key::Confirm), Request::OpenMenu);
    assert!(matches!(g.state, GameState::GameOver));
    g.open_menu(false);
    assert!(matches!(g.state, GameState::Menu(MenuState { selected: 0, has_save: false })));
}

#[test]
fn combat_rests_outside_exploring() {
    let mut g = started();
    g.change_map("forest");
    g.on_keydown(Key::Left);
    g.on_keydown(Key::Key2);
    g.update_combat();
    assert_eq!(g.combat.update_counter, 0);
    assert_eq!(g.player.stats.current_hp, 50);
    g.on_keydown(Key::Cancel);
    g.combat.enemies.clear();
    g.update_combat();
    assert_eq!(g.combat.update_counter, 1);
    assert!(matches!(g.state, GameState::Explore));
}

#[test]
fn a_player_without_hit_points_ends_the_game() {
    let mut g = started();
    g.player.stats.current_hp = 0;
    g.update_combat();
    assert!(matches!(g.state, GameState::GameOver));
    assert_eq!(g.on_keydown(Key::Cancel), Request::Nothing);
    assert!(matches!(g.state, GameState::Explore));
    g.update_combat();
    assert!(matches!(g.state, GameState::GameOver));
    g.player.current_map_id = "moon".to_string();
    g.on_keydown(Key::Cancel);
    g.update_combat();
    assert!(matches!(g.state, GameState::Explore));
}

#[test]
fn continuing_a_saved_game() {
    let mut g = game(true);
    g.combat.enemies.push(FieldEnemy::new(parse_enemies(ENEMIES).remove(0), 0, 0));
    g.continue_game(Some(
        "PLAYER:Ann:forest:2:2\nSTATS:3:40:70:65:30:12:14:7:250\nEQUIP:0:-1:-1\nITEM:W:axe:Axe:9:0:0:80\n",
    ));
    assert!(matches!(g.state, GameState::Explore));
    assert_eq!((g.player.name.as_str(), g.player.current_map_id.as_str()), ("Ann", "forest"));
    assert_eq!((g.player.x, g.player.y), (2, 2));
    assert_eq!(g.player.stats.gold, 250);
    assert_eq!(g.player.inventory[0].kind, ItemKind::Weapon);
    assert_eq!(g.player.total_atk(), 23);
    assert_eq!(g.combat.enemies.len(), 1);
    assert_eq!((g.combat.enemies[0].x, g.combat.enemies[0].y), (1, 1));
}

#[test]
fn continuing_on_a_map_that_is_not_there_keeps_the_enemies() {
    let mut g = game(true);
    g.combat.enemies.push(FieldEnemy::new(parse_enemies(ENEMIES).remove(0), 4, 4));
    g.continue_game(Some("PLAYER:Ann:moon:2:2\n"));
    assert!(matches!(g.state, GameState::Explore));
    assert_eq!(g.player.current_map_id, "moon");
    assert_eq!(g.combat.enemies.len(), 1);
    assert_eq!((g.combat.enemies[0].x, g.combat.enemies[0].y), (4, 4));
    assert_eq!(g.player.inventory.len(), 0);
}

#[test]
fn continuing_without_a_saved_game_starts_a_new_one() {
    let mut g = game(true);
    g.continue_game(None);
    assert!(matches!(g.state, GameState::Explore));
    assert_eq!(ids(&g), vec!["wooden_sword", "cloth", "potion", "potion"]);
    assert_eq!((g.player.x, g.player.y), (1, 1));
}

#[test]
fn handlers_leave_other_states_alone() {
    let mut g = started();
    assert_eq!(g.handle_menu_input(Key::Confirm), Request::Nothing);
    g.handle_shop_input(Key::Confirm);
    g.handle_dialog_input(Key::Other);
    g.process_dialog_action();
    assert!(matches!(g.state, GameState::Explore));
    assert_eq!(g.player.inventory.len(), 4);
    assert_eq!(g.handle_gameover_input(Key::Confirm), Request::OpenMenu);
    assert_eq!(g.handle_gameover_input(Key::Other), Request::Nothing);
    g.handle_stats_input(Key::Other);
    g.handle_quest_input(Key::Other);
    g.handle_inventory_input(Key::Other);
    assert_eq!(g.handle_explore_input(Key::Other), Request::Nothing);
    assert!(matches!(g.state, GameState::Explore));
}
