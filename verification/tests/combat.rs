use lost_kingdom::data::{parse_maps, Enemy, GameMap};
use lost_kingdom::game::combat::blow_damage;
use lost_kingdom::game::{CombatSystem, Direction, FieldEnemy};

fn enemy(id: &str, hp: i32, atk: i32, def: i32, exp: i32, gold: i32) -> Enemy {
    Enemy { id: id.to_string(), name: id.to_uppercase(), hp, atk, def, exp, gold }
}

fn open_map() -> GameMap {
    let mut maps = parse_maps("@MAP:m\n.....\n.....\n.....\n.....\n.....\n@END\n");
    maps.remove(0)
}

fn combat_with(enemies: Vec<FieldEnemy>) -> CombatSystem {
    let mut combat = CombatSystem::new();
    combat.enemies = enemies;
    combat
}

#[test]
fn blow_is_strength_less_half_the_defence() {
    assert_eq!(blow_damage(10, 4), 8);
    assert_eq!(blow_damage(1, 100), 1);
    assert_eq!(blow_damage(5, 20), 1);
    assert_eq!(blow_damage(10, 5), 8);
    assert_eq!(blow_damage(10, -5), 12);
    assert_eq!(blow_damage(i32::MAX, i32::MIN), i32::MAX);
    assert_eq!(blow_damage(i32::MIN, i32::MAX), 1);
}

#[test]
fn player_attack_takes_strength_less_half_the_defence() {
    let mut combat = combat_with(vec![FieldEnemy::new(enemy("slime", 20, 5, 4, 10, 5), 2, 1)]);
    let reward = combat.player_attack(1, 1, 10, Direction::Right);
    assert!(reward.is_none());
    assert_eq!(combat.enemies[0].hp, 12);
    assert_eq!(combat.enemies[0].hit_flash, 10);
    assert_eq!(combat.player_attack_cooldown, 15);
}

#[test]
fn player_attack_does_one_damage_at_least() {
    let mut combat = combat_with(vec![FieldEnemy::new(enemy("golem", 20, 5, 100, 10, 5), 1, 2)]);
    let reward = combat.player_attack(1, 1, 1, Direction::Down);
    assert!(reward.is_none());
    assert_eq!(combat.enemies[0].hp, 19);
}

#[test]
fn enemy_attack_does_one_damage_at_least() {
    let map = open_map();
    let mut combat = combat_with(vec![FieldEnemy::new(enemy("slime", 20, 5, 2, 10, 5), 2, 1)]);
    let result = combat.update(1, 1, 20, &map);
    assert_eq!(result.damage_taken, 1);
    assert_eq!(combat.player_hit_flash, 10);
    assert_eq!(combat.enemies[0].attack_cooldown, 30);
    assert_eq!((combat.enemies[0].x, combat.enemies[0].y), (2, 1));
}

#[test]
fn enemy_attack_takes_strength_less_half_the_defence() {
    let map = open_map();
    let mut combat = combat_with(vec![
        FieldEnemy::new(enemy("a", 20, 9, 2, 10, 5), 2, 1),
        FieldEnemy::new(enemy("b", 20, 4, 2, 10, 5), 1, 0),
        FieldEnemy::new(enemy("far", 20, 50, 2, 10, 5), 3, 3),
    ]);
    let result = combat.update(1, 1, 5, &map);
    assert_eq!(result.damage_taken, 7 + 2);
    assert_eq!(combat.enemies[2].attack_cooldown, 0);
}

#[test]
fn kill_reward_comes_with_the_killing_blow_only() {
    let mut combat = combat_with(vec![FieldEnemy::new(enemy("slime", 9, 5, 4, 10, 5), 2, 1)]);
    assert!(combat.player_attack(1, 1, 10, Direction::Right).is_none());
    assert_eq!(combat.enemies[0].hp, 1);
    combat.player_attack_cooldown = 0;
    let reward = combat.player_attack(1, 1, 10, Direction::Right).unwrap();
    assert_eq!(reward.enemy_id, "slime");
    assert_eq!(reward.exp, 10);
    assert_eq!(reward.gold, 5);
    assert_eq!(combat.enemies[0].hp, 0);
    assert!(combat.enemies[0].is_dead());
}

#[test]
fn kill_reward_when_the_blow_takes_exactly_what_is_left() {
    let mut combat = combat_with(vec![FieldEnemy::new(enemy("slime", 8, 5, 4, 7, 3), 1, 0)]);
    let reward = combat.player_attack(1, 1, 10, Direction::Up).unwrap();
    assert_eq!((reward.exp, reward.gold), (7, 3));
    assert_eq!(combat.player_attack_cooldown, 15);
}

#[test]
fn a_miss_starts_the_countdown_too() {
    let mut combat = combat_with(vec![FieldEnemy::new(enemy("slime", 8, 5, 4, 7, 3), 3, 3)]);
    assert!(combat.player_attack(1, 1, 10, Direction::Left).is_none());
    assert_eq!(combat.player_attack_cooldown, 15);
    assert_eq!(combat.enemies[0].hp, 8);
}

#[test]
fn no_attack_while_the_countdown_runs() {
    let mut combat = combat_with(vec![FieldEnemy::new(enemy("slime", 8, 5, 4, 7, 3), 2, 1)]);
    combat.player_attack_cooldown = 3;
    assert!(combat.player_attack(1, 1, 100, Direction::Right).is_none());
    assert_eq!(combat.player_attack_cooldown, 3);
    assert_eq!(combat.enemies[0].hp, 8);
    assert_eq!(combat.enemies[0].hit_flash, 0);
}

#[test]
fn the_first_living_enemy_on_the_cell_is_hit() {
    let mut dead = FieldEnemy::new(enemy("dead", 5, 5, 0, 1, 1), 2, 1);
    dead.hp = 0;
    let mut combat = combat_with(vec![
        dead,
        FieldEnemy::new(enemy("first", 50, 5, 0, 1, 1), 2, 1),
        FieldEnemy::new(enemy("second", 50, 5, 0, 1, 1), 2, 1),
    ]);
    assert!(combat.player_attack(1, 1, 10, Direction::Right).is_none());
    assert_eq!(combat.enemies[0].hp, 0);
    assert_eq!(combat.enemies[1].hp, 40);
    assert_eq!(combat.enemies[2].hp, 50);
}

#[test]
fn the_dead_are_removed_by_a_tick() {
    let map = open_map();
    let mut combat = combat_with(vec![
        FieldEnemy::new(enemy("a", 5, 5, 0, 1, 1), 4, 4),
        FieldEnemy::new(enemy("b", 5, 5, 0, 1, 1), 4, 3),
        FieldEnemy::new(enemy("c", 5, 5, 0, 1, 1), 4, 2),
    ]);
    combat.enemies[1].hp = 0;
    let result = combat.update(0, 0, 0, &map);
    assert_eq!(result.damage_taken, 0);
    assert_eq!(combat.enemies.len(), 2);
    assert_eq!(combat.enemies[0].data.id, "a");
    assert_eq!(combat.enemies[1].data.id, "c");
}

#[test]
fn the_dead_do_not_strike() {
    let map = open_map();
    let mut combat = combat_with(vec![FieldEnemy::new(enemy("a", 5, 5, 0, 1, 1), 1, 0)]);
    combat.enemies[0].hp = 0;
    let result = combat.update(1, 1, 0, &map);
    assert_eq!(result.damage_taken, 0);
    assert_eq!(combat.player_hit_flash, 0);
    assert!(combat.enemies.is_empty());
}

#[test]
fn enemy_at_sees_the_living_only() {
    let mut combat = combat_with(vec![
        FieldEnemy::new(enemy("a", 5, 5, 0, 1, 1), 1, 0),
        FieldEnemy::new(enemy("b", 5, 5, 0, 1, 1), 2, 2),
    ]);
    combat.enemies[0].hp = 0;
    assert!(!combat.enemy_at(1, 0));
    assert!(combat.enemy_at(2, 2));
    assert!(!combat.enemy_at(2, 1));
}

#[test]
fn countdowns_of_the_player_go_down_each_tick() {
    let map = open_map();
    let mut combat = CombatSystem::new();
    combat.player_attack_cooldown = 2;
    combat.player_hit_flash = 1;
    combat.update(0, 0, 0, &map);
    assert_eq!((combat.player_attack_cooldown, combat.player_hit_flash), (1, 0));
    combat.update(0, 0, 0, &map);
    assert_eq!((combat.player_attack_cooldown, combat.player_hit_flash), (0, 0));
    combat.update(0, 0, 0, &map);
    assert_eq!((combat.player_attack_cooldown, combat.player_hit_flash), (0, 0));
    assert_eq!(combat.update_counter, 3);
}

#[test]
fn enemies_take_their_turn_every_eighth_tick() {
    let map = open_map();
    let mut combat = combat_with(vec![FieldEnemy::new(enemy("a", 5, 5, 0, 1, 1), 4, 0)]);
    combat.enemies[0].hit_flash = 3;
    for _ in 0..7 {
        combat.update(0, 0, 0, &map);
        assert_eq!((combat.enemies[0].x, combat.enemies[0].y), (4, 0));
        assert_eq!(combat.enemies[0].hit_flash, 3);
    }
    combat.update(0, 0, 0, &map);
    assert_eq!((combat.enemies[0].x, combat.enemies[0].y), (3, 0));
    assert_eq!(combat.enemies[0].hit_flash, 2);
    for _ in 0..8 {
        combat.update(0, 0, 0, &map);
    }
    assert_eq!((combat.enemies[0].x, combat.enemies[0].y), (2, 0));
}

#[test]
fn the_tick_counter_starts_again_after_its_largest_value() {
    let map = open_map();
    let mut combat = combat_with(vec![FieldEnemy::new(enemy("a", 5, 5, 0, 1, 1), 4, 0)]);
    combat.update_counter = u32::MAX;
    combat.update(0, 0, 0, &map);
    assert_eq!(combat.update_counter, 0);
    assert_eq!((combat.enemies[0].x, combat.enemies[0].y), (3, 0));
}

#[test]
fn an_enemy_strikes_again_after_thirty_turns() {
    let map = open_map();
    let mut combat = combat_with(vec![FieldEnemy::new(enemy("a", 5, 6, 0, 1, 1), 1, 0)]);
    assert_eq!(combat.update(1, 1, 0, &map).damage_taken, 6);
    let mut total = 0;
    let mut ticks = 0;
    while total == 0 {
        total = combat.update(1, 1, 0, &map).damage_taken;
        ticks += 1;
    }
    assert_eq!(total, 6);
    assert_eq!(ticks, 30 * 8 - 1);
}

#[test]
fn chase_along_the_axis_that_is_farther() {
    let map = open_map();
    let mut e = FieldEnemy::new(enemy("a", 5, 5, 0, 1, 1), 1, 4);
    e.update(0, 0, &map);
    assert_eq!((e.x, e.y), (1, 3));
    let mut e = FieldEnemy::new(enemy("a", 5, 5, 0, 1, 1), 4, 1);
    e.update(0, 0, &map);
    assert_eq!((e.x, e.y), (3, 1));
    let mut e = FieldEnemy::new(enemy("a", 5, 5, 0, 1, 1), 0, 0);
    e.update(3, 4, &map);
    assert_eq!((e.x, e.y), (0, 1));
}

#[test]
fn chase_sideways_first_where_both_are_as_far() {
    let map = open_map();
    let mut e = FieldEnemy::new(enemy("a", 5, 5, 0, 1, 1), 2, 2);
    e.update(0, 0, &map);
    assert_eq!((e.x, e.y), (1, 2));
    let mut e = FieldEnemy::new(enemy("a", 5, 5, 0, 1, 1), 2, 2);
    e.update(4, 4, &map);
    assert_eq!((e.x, e.y), (3, 2));
}

#[test]
fn chase_along_the_other_axis_where_the_way_is_blocked() {
    let mut maps = parse_maps("@MAP:m\n.....\n.~...\n.....\n@END\n");
    let map = maps.remove(0);
    let mut e = FieldEnemy::new(enemy("a", 5, 5, 0, 1, 1), 2, 1);
    e.update(0, 0, &map);
    assert_eq!((e.x, e.y), (2, 0));
    let mut e = FieldEnemy::new(enemy("a", 5, 5, 0, 1, 1), 2, 1);
    e.update(0, 1, &map);
    assert_eq!((e.x, e.y), (2, 1));
    let mut e = FieldEnemy::new(enemy("a", 5, 5, 0, 1, 1), 1, 2);
    e.update(1, 0, &map);
    assert_eq!((e.x, e.y), (1, 2));
    let mut e = FieldEnemy::new(enemy("a", 5, 5, 0, 1, 1), 1, 2);
    e.update(0, 0, &map);
    assert_eq!((e.x, e.y), (0, 2));
}

#[test]
fn an_enemy_next_to_the_player_stays() {
    let map = open_map();
    let mut e = FieldEnemy::new(enemy("a", 5, 5, 0, 1, 1), 2, 1);
    e.attack_cooldown = 4;
    e.hit_flash = 0;
    e.update(1, 1, &map);
    assert_eq!((e.x, e.y), (2, 1));
    assert_eq!((e.attack_cooldown, e.hit_flash), (3, 0));
    assert_eq!(e.distance_to(1, 1), 1);
    assert_eq!(e.distance_to(0, 4), 5);
    assert!(!e.can_attack());
}

#[test]
fn a_fresh_enemy_has_the_hit_points_of_its_template() {
    let mut e = FieldEnemy::new(enemy("a", 25, 7, 3, 1, 1), 3, 4);
    assert_eq!((e.x, e.y, e.hp, e.attack_cooldown, e.hit_flash), (3, 4, 25, 0, 0));
    assert!(e.can_attack());
    assert!(!e.is_dead());
    assert_eq!(e.do_attack(), 7);
    assert_eq!(e.attack_cooldown, 30);
    e.take_damage(30);
    assert_eq!((e.hp, e.hit_flash), (0, 10));
    assert!(e.is_dead());
}

#[test]
fn one_enemy_for_each_encounter_entry() {
    let mut maps =
        parse_maps("@MAP:m\n.E.E\n..E.\n@ENCOUNTERS:slime:3:goblin:1:ghost:2\n@END\n");
    let map = maps.remove(0);
    let templates = vec![enemy("goblin", 30, 8, 3, 1, 1), enemy("slime", 20, 5, 2, 1, 1)];
    let mut combat = combat_with(vec![FieldEnemy::new(enemy("old", 5, 5, 0, 1, 1), 0, 0)]);
    combat.player_attack_cooldown = 7;
    combat.spawn_enemies(&map, &templates);
    assert_eq!(combat.enemies.len(), 2);
    assert_eq!(combat.enemies[0].data.id, "slime");
    assert_eq!((combat.enemies[0].x, combat.enemies[0].y, combat.enemies[0].hp), (1, 0, 20));
    assert_eq!(combat.enemies[1].data.id, "goblin");
    assert_eq!((combat.enemies[1].x, combat.enemies[1].y, combat.enemies[1].hp), (3, 0, 30));
    assert_eq!(combat.player_attack_cooldown, 7);
}

#[test]
fn no_enemy_without_a_free_tile() {
    let mut maps = parse_maps("@MAP:m\n.E.\n..E\n@ENCOUNTERS:slime:1:slime:1:slime:1\n@END\n");
    let map = maps.remove(0);
    let templates = vec![enemy("slime", 20, 5, 2, 1, 1)];
    let mut combat = CombatSystem::new();
    combat.spawn_enemies(&map, &templates);
    assert_eq!(combat.enemies.len(), 2);
    assert_eq!((combat.enemies[0].x, combat.enemies[0].y), (1, 0));
    assert_eq!((combat.enemies[1].x, combat.enemies[1].y), (2, 1));
}

#[test]
fn directions_stop_at_the_edge() {
    assert_eq!(Direction::Up.apply(3, 3), (3, 2));
    assert_eq!(Direction::Down.apply(3, 3), (3, 4));
    assert_eq!(Direction::Left.apply(3, 3), (2, 3));
    assert_eq!(Direction::Right.apply(3, 3), (4, 3));
    assert_eq!(Direction::Up.apply(3, 0), (3, 0));
    assert_eq!(Direction::Left.apply(0, 3), (0, 3));
    assert_eq!(Direction::Down.apply(3, usize::MAX), (3, usize::MAX));
    assert_eq!(Direction::Right.apply(usize::MAX, 3), (usize::MAX, 3));
}
