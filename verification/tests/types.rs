use lost_kingdom::data::{parse_maps, Item, ItemKind, PlayerStats, Tile};

fn sample_map() -> lost_kingdom::data::GameMap {
    let maps = parse_maps("@MAP:field:Green Field\n*****\n*P.E#\n*T.>#\n*####\n@END\n");
    assert_eq!(maps.len(), 1);
    maps.into_iter().next().unwrap()
}

#[test]
fn tile_from_char_knows_every_tile() {
    assert_eq!(Tile::from_char('#'), Tile::Wall);
    assert_eq!(Tile::from_char('.'), Tile::Floor);
    assert_eq!(Tile::from_char('P'), Tile::PlayerStart);
    assert_eq!(Tile::from_char('H'), Tile::House);
    assert_eq!(Tile::from_char('D'), Tile::Dungeon);
    assert_eq!(Tile::from_char('T'), Tile::Treasure);
    assert_eq!(Tile::from_char('E'), Tile::Enemy);
    assert_eq!(Tile::from_char('>'), Tile::Exit);
    assert_eq!(Tile::from_char('~'), Tile::Water);
    assert_eq!(Tile::from_char('*'), Tile::Tree);
    assert_eq!(Tile::from_char('?'), Tile::Floor);
}

#[test]
fn only_wall_water_and_tree_block() {
    let all = [
        Tile::Wall,
        Tile::Floor,
        Tile::PlayerStart,
        Tile::House,
        Tile::Dungeon,
        Tile::Treasure,
        Tile::Enemy,
        Tile::Exit,
        Tile::Water,
        Tile::Tree,
    ];
    for tile in all {
        let blocked = matches!(tile, Tile::Wall | Tile::Water | Tile::Tree);
        assert_eq!(tile.is_passable(), !blocked);
    }
}

#[test]
fn get_tile_outside_the_grid_is_wall() {
    let map = sample_map();
    assert_eq!(map.width, 5);
    assert_eq!(map.height, 4);
    assert_eq!(map.get_tile(1, 1), Tile::PlayerStart);
    assert_eq!(map.get_tile(3, 2), Tile::Exit);
    assert_eq!(map.get_tile(0, 0), Tile::Tree);
    assert_eq!(map.get_tile(4, 3), Tile::Wall);
    assert_eq!(map.get_tile(5, 0), Tile::Wall);
    assert_eq!(map.get_tile(0, 4), Tile::Wall);
    assert_eq!(map.get_tile(usize::MAX, usize::MAX), Tile::Wall);
    assert_eq!(map.get_tile(usize::MAX, 1), Tile::Wall);
    assert_eq!(map.get_tile(1, usize::MAX), Tile::Wall);
}

#[test]
fn get_tile_on_a_grid_that_is_too_short_is_wall() {
    let mut map = sample_map();
    map.tiles.truncate(7);
    assert_eq!(map.get_tile(1, 1), Tile::PlayerStart);
    assert_eq!(map.get_tile(2, 1), Tile::Wall);
    assert_eq!(map.get_tile(3, 2), Tile::Wall);
}

#[test]
fn player_start_is_the_first_in_reading_order() {
    let maps = parse_maps("@MAP:a\n..P\nP..\n@END\n@MAP:b\n...\n@END\n");
    assert_eq!(maps[0].find_player_start(), Some((2, 0)));
    assert_eq!(maps[1].find_player_start(), None);
}

fn sword(bonus: i32) -> Item {
    Item {
        id: "sword".to_string(),
        name: "Sword".to_string(),
        kind: ItemKind::Weapon,
        param1: bonus,
        param2: 0,
        param3: 0,
        price: 100,
    }
}

#[test]
fn default_stats() {
    let s = PlayerStats::default();
    assert_eq!(
        (s.level, s.exp, s.exp_to_next, s.max_hp, s.current_hp),
        (1, 0, 100, 50, 50)
    );
    assert_eq!((s.max_mp, s.current_mp, s.base_atk, s.base_def, s.gold), (20, 20, 10, 5, 0));
}

#[test]
fn total_attack_and_defence_add_the_first_parameter() {
    let s = PlayerStats::default();
    assert_eq!(s.total_atk(None), 10);
    assert_eq!(s.total_atk(Some(&sword(5))), 15);
    assert_eq!(s.total_def(None), 5);
    assert_eq!(s.total_def(Some(&sword(3))), 8);
    assert_eq!(s.total_atk(Some(&sword(i32::MAX))), i32::MAX);
}

#[test]
fn heal_stops_at_the_maximum() {
    let mut s = PlayerStats::default();
    s.current_hp = 10;
    s.heal(30);
    assert_eq!(s.current_hp, 40);
    s.heal(30);
    assert_eq!(s.current_hp, 50);
    s.heal(i32::MAX);
    assert_eq!(s.current_hp, 50);
}

#[test]
fn damage_stops_at_zero() {
    let mut s = PlayerStats::default();
    s.take_damage(20);
    assert_eq!(s.current_hp, 30);
    assert!(!s.is_dead());
    s.take_damage(31);
    assert_eq!(s.current_hp, 0);
    assert!(s.is_dead());
}

#[test]
fn experience_carries_over_a_level() {
    let mut s = PlayerStats::default();
    assert!(!s.add_exp(99));
    assert_eq!((s.level, s.exp), (1, 99));
    s.current_hp = 1;
    s.current_mp = 1;
    assert!(s.add_exp(31));
    assert_eq!((s.level, s.exp, s.exp_to_next), (2, 30, 200));
    assert_eq!((s.max_hp, s.current_hp, s.max_mp, s.current_mp), (60, 60, 25, 25));
    assert_eq!((s.base_atk, s.base_def), (12, 6));
}

#[test]
fn one_level_at_a_time() {
    let mut s = PlayerStats::default();
    assert!(s.add_exp(1000));
    assert_eq!((s.level, s.exp, s.exp_to_next), (2, 900, 200));
    assert!(s.add_exp(0));
    assert_eq!((s.level, s.exp, s.exp_to_next), (3, 700, 300));
}

#[test]
fn gold_is_never_taken_below_zero() {
    let mut s = PlayerStats::default();
    s.add_gold(40);
    assert_eq!(s.gold, 40);
    s.take_gold(15);
    assert_eq!(s.gold, 25);
    s.take_gold(100);
    assert_eq!(s.gold, 0);
    s.add_gold(i32::MAX);
    s.add_gold(1);
    assert_eq!(s.gold, i32::MAX);
}
