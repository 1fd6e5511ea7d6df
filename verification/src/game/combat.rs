//! Field combat: the enemies alive on the current map, their pursuit of the
//! player, and the blows exchanged.

use crate::data::lookup::{
    find, first_true, lemma_first_true, lemma_first_true_none, lemma_first_true_some, lookup,
};
use crate::data::types::{
    first_cell, lemma_first_cell_none, lemma_first_cell_some, lemma_views_push, views, Enemy, EnemyView, GameMap,
    GameMapView, Tile,
};
use crate::num::{
    abs_diff, clamp_i32, clamp_usize, distance, half, half_i32, max_i32, max_int, sat_add, sat_sub,
    step_down, step_up,
};
use vstd::prelude::*;

verus! {

/// The hit-flash an enemy shows after it was struck, in ticks.
pub const ENEMY_HIT_FLASH: u32 = 10;

/// The ticks an enemy waits between two attacks.
pub const ENEMY_ATTACK_COOLDOWN: u32 = 30;

/// The ticks the player waits between two attacks.
pub const PLAYER_ATTACK_COOLDOWN: u32 = 15;

/// The hit-flash the player shows after being struck, in ticks.
pub const PLAYER_HIT_FLASH: u32 = 10;

/// Every so many ticks the enemies take a turn.
pub const ENEMY_TURN_PERIOD: u32 = 8;

/// A direction on the map. Rows grow downwards.
#[derive(Debug, Clone, Copy, PartialEq, Eq, Structural)]
pub enum Direction {
    Up,
    Down,
    Left,
    Right,
}

impl Direction {
    /// The cell next to `(x, y)` in this direction; at an edge of the
    /// coordinate range the cell itself.
    pub open spec fn target(self, x: usize, y: usize) -> (usize, usize) {
        match self {
            Direction::Up => (x, clamp_usize(y - 1)),
            Direction::Down => (x, clamp_usize(y + 1)),
            Direction::Left => (clamp_usize(x - 1), y),
            Direction::Right => (clamp_usize(x + 1), y),
        }
    }

    pub fn apply(&self, x: usize, y: usize) -> (r: (usize, usize))
        ensures
            r == self.target(x, y),
    {
        match self {
            Direction::Up => (x, step_down(y)),
            Direction::Down => (x, step_up(y)),
            Direction::Left => (step_down(x), y),
            Direction::Right => (step_up(x), y),
        }
    }
}

/// The damage of a blow of strength `atk` against defence `def`: the
/// strength less half the defence, and never under one.
pub open spec fn blow(atk: i32, def: i32) -> i32 {
    max_int(clamp_i32(atk - half(def)) as int, 1) as i32
}

/// The damage of a blow of strength `atk` against defence `def`.
pub fn blow_damage(atk: i32, def: i32) -> (r: i32)
    ensures
        r == blow(atk, def),
        r >= 1,
{
    max_i32(sat_sub(atk, half_i32(def)), 1)
}

/// `n - 1`, or zero where `n` is zero.
pub open spec fn counted_down(n: u32) -> u32 {
    if n > 0 {
        (n - 1) as u32
    } else {
        0
    }
}

/// An enemy alive on the map: its template, where it stands, the hit points
/// it has left and its two countdowns.
#[derive(Debug)]
pub struct FieldEnemy {
    pub data: Enemy,
    pub x: usize,
    pub y: usize,
    pub hp: i32,
    pub attack_cooldown: u32,
    pub hit_flash: u32,
}

/// Model of a [`FieldEnemy`].
pub struct FieldEnemyView {
    pub data: EnemyView,
    pub x: usize,
    pub y: usize,
    pub hp: i32,
    pub attack_cooldown: u32,
    pub hit_flash: u32,
}

impl View for FieldEnemy {
    type V = FieldEnemyView;

    open spec fn view(&self) -> FieldEnemyView {
        FieldEnemyView {
            data: self.data@,
            x: self.x,
            y: self.y,
            hp: self.hp,
            attack_cooldown: self.attack_cooldown,
            hit_flash: self.hit_flash,
        }
    }
}

impl Clone for FieldEnemy {
    fn clone(&self) -> (r: Self)
        ensures
            r == *self,
    {
        FieldEnemy {
            data: self.data.clone(),
            x: self.x,
            y: self.y,
            hp: self.hp,
            attack_cooldown: self.attack_cooldown,
            hit_flash: self.hit_flash,
        }
    }
}

impl FieldEnemyView {
    /// A fresh copy of the template `data` at `(x, y)`.
    pub open spec fn spawned(data: EnemyView, x: usize, y: usize) -> FieldEnemyView {
        FieldEnemyView { data, x, y, hp: data.hp, attack_cooldown: 0, hit_flash: 0 }
    }

    pub open spec fn dead(self) -> bool {
        self.hp <= 0
    }

    /// The enemy after it lost `damage` hit points: never below zero, and
    /// flashing.
    pub open spec fn hit(self, damage: i32) -> FieldEnemyView {
        FieldEnemyView {
            hp: max_int(clamp_i32(self.hp - damage) as int, 0) as i32,
            hit_flash: ENEMY_HIT_FLASH,
            ..self
        }
    }

    /// The number of orthogonal steps from the enemy to `(px, py)`.
    pub open spec fn distance_to(self, px: usize, py: usize) -> usize {
        clamp_usize(abs_diff(self.x as int, px as int) + abs_diff(self.y as int, py as int))
    }

    /// The enemy after one step towards `(tx, ty)`.
    ///
    /// It steps along the axis on which it is farther from the target,
    /// horizontally where both are equally far; where the tile there cannot
    /// be walked on it steps along the other axis, if it is off the target
    /// on that axis and the tile there can be walked on; else it stays.
    pub open spec fn stepped(self, tx: usize, ty: usize, map: GameMapView) -> FieldEnemyView {
        let nx = if tx > self.x {
            (self.x + 1) as usize
        } else if tx < self.x {
            (self.x - 1) as usize
        } else {
            self.x
        };
        let ny = if ty > self.y {
            (self.y + 1) as usize
        } else if ty < self.y {
            (self.y - 1) as usize
        } else {
            self.y
        };
        let can_x = nx != self.x && map.tile_at(nx, self.y).passable();
        let can_y = ny != self.y && map.tile_at(self.x, ny).passable();
        let x_first = abs_diff(tx as int, self.x as int) >= abs_diff(ty as int, self.y as int);
        if x_first {
            if can_x {
                FieldEnemyView { x: nx, ..self }
            } else if can_y {
                FieldEnemyView { y: ny, ..self }
            } else {
                self
            }
        } else {
            if can_y {
                FieldEnemyView { y: ny, ..self }
            } else if can_x {
                FieldEnemyView { x: nx, ..self }
            } else {
                self
            }
        }
    }

    /// The enemy after one turn: both countdowns go down by one, and where
    /// the player at `(px, py)` is more than one step away it steps towards
    /// the player.
    pub open spec fn ticked(self, px: usize, py: usize, map: GameMapView) -> FieldEnemyView {
        let cooled = FieldEnemyView {
            hit_flash: counted_down(self.hit_flash),
            attack_cooldown: counted_down(self.attack_cooldown),
            ..self
        };
        if cooled.distance_to(px, py) > 1 {
            cooled.stepped(px, py, map)
        } else {
            cooled
        }
    }

    pub open spec fn ready(self) -> bool {
        self.attack_cooldown == 0
    }

    /// The enemy after it attacked.
    pub open spec fn after_attack(self) -> FieldEnemyView {
        FieldEnemyView { attack_cooldown: ENEMY_ATTACK_COOLDOWN, ..self }
    }
}

impl FieldEnemy {
    pub fn new(data: Enemy, x: usize, y: usize) -> (r: Self)
        ensures
            r@ == FieldEnemyView::spawned(data@, x, y),
    {
        let hp = data.hp;
        FieldEnemy { data, x, y, hp, attack_cooldown: 0, hit_flash: 0 }
    }

    pub fn is_dead(&self) -> (r: bool)
        ensures
            r == self@.dead(),
    {
        self.hp <= 0
    }

    pub fn take_damage(&mut self, damage: i32)
        ensures
            final(self)@ == old(self)@.hit(damage),
    {
        self.hp = max_i32(sat_sub(self.hp, damage), 0);
        self.hit_flash = ENEMY_HIT_FLASH;
    }

    pub fn distance_to(&self, px: usize, py: usize) -> (r: usize)
        ensures
            r == self@.distance_to(px, py),
    {
        distance(self.x, px).saturating_add(distance(self.y, py))
    }

    pub fn update(&mut self, player_x: usize, player_y: usize, map: &GameMap)
        ensures
            final(self)@ == old(self)@.ticked(player_x, player_y, map@),
    {
        if self.hit_flash > 0 {
            self.hit_flash -= 1;
        }
        if self.attack_cooldown > 0 {
            self.attack_cooldown -= 1;
        }
        if self.distance_to(player_x, player_y) > 1 {
            self.move_towards(player_x, player_y, map);
        }
    }

    fn move_towards(&mut self, target_x: usize, target_y: usize, map: &GameMap)
        ensures
            final(self)@ == old(self)@.stepped(target_x, target_y, map@),
    {
        let new_x = if target_x > self.x {
            self.x + 1
        } else if target_x < self.x {
            self.x - 1
        } else {
            self.x
        };
        let new_y = if target_y > self.y {
            self.y + 1
        } else if target_y < self.y {
            self.y - 1
        } else {
            self.y
        };
        let can_x = new_x != self.x && map.get_tile(new_x, self.y).is_passable();
        let can_y = new_y != self.y && map.get_tile(self.x, new_y).is_passable();
        if distance(target_x, self.x) >= distance(target_y, self.y) {
            if can_x {
                self.x = new_x;
            } else if can_y {
                self.y = new_y;
            }
        } else {
            if can_y {
                self.y = new_y;
            } else if can_x {
                self.x = new_x;
            }
        }
    }

    pub fn can_attack(&self) -> (r: bool)
        ensures
            r == self@.ready(),
    {
        self.attack_cooldown == 0
    }

    /// Starts the enemy's attack countdown and returns the strength of its
    /// blow.
    pub fn do_attack(&mut self) -> (atk: i32)
        ensures
            final(self)@ == old(self)@.after_attack(),
            atk == old(self).data.atk,
    {
        self.attack_cooldown = ENEMY_ATTACK_COOLDOWN;
        self.data.atk
    }
}

/// What a tick of combat did to the player.
pub struct CombatResult {
    pub damage_taken: i32,
}

/// What the player earns for a kill.
pub struct KillReward {
    pub enemy_id: String,
    pub exp: i32,
    pub gold: i32,
}

/// Model of a [`KillReward`].
pub struct KillRewardView {
    pub enemy_id: Seq<char>,
    pub exp: i32,
    pub gold: i32,
}

impl View for KillReward {
    type V = KillRewardView;

    open spec fn view(&self) -> KillRewardView {
        KillRewardView { enemy_id: self.enemy_id@, exp: self.exp, gold: self.gold }
    }
}

/// Whether an enemy of `enemies` stands at `(x, y)`, alive or not.
pub open spec fn occupied(enemies: Seq<FieldEnemyView>, x: usize, y: usize) -> bool {
    exists|i: int| 0 <= i < enemies.len() && enemies[i].x == x && enemies[i].y == y
}

/// The first cell of `map`, read row by row, that is an enemy tile on which
/// no enemy of `enemies` stands.
pub open spec fn free_spawn_cell(map: GameMapView, enemies: Seq<FieldEnemyView>) -> Option<
    (usize, usize),
> {
    first_cell(
        map.width,
        map.height,
        |x: usize, y: usize| map.tile_at(x, y) == Tile::Enemy && !occupied(enemies, x, y),
    )
}

/// `enemies` after one encounter entry for the enemy `id` was placed: a
/// fresh copy of its template on the first free enemy tile. Without a
/// template of that name, or without a free tile, nothing is placed.
pub open spec fn spawn_one(
    enemies: Seq<FieldEnemyView>,
    map: GameMapView,
    templates: Seq<EnemyView>,
    id: Seq<char>,
) -> Seq<FieldEnemyView> {
    match lookup::<Enemy>(templates, id) {
        Some(data) => match free_spawn_cell(map, enemies) {
            Some(cell) => enemies.push(FieldEnemyView::spawned(data, cell.0, cell.1)),
            None => enemies,
        },
        None => enemies,
    }
}

/// The enemies placed for the first `n` entries of the map's encounter
/// table.
pub open spec fn spawned_upto(map: GameMapView, templates: Seq<EnemyView>, n: int) -> Seq<
    FieldEnemyView,
>
    decreases n,
{
    if n <= 0 {
        Seq::empty()
    } else {
        spawn_one(spawned_upto(map, templates, n - 1), map, templates, map.encounters[n - 1].0)
    }
}

/// The enemies placed for the map's whole encounter table: one for each
/// entry, in the table's order.
pub open spec fn spawned(map: GameMapView, templates: Seq<EnemyView>) -> Seq<FieldEnemyView> {
    spawned_upto(map, templates, map.encounters.len() as int)
}

/// The enemies after a turn: each one alive takes its turn.
pub open spec fn moved(enemies: Seq<FieldEnemyView>, px: usize, py: usize, map: GameMapView) -> Seq<
    FieldEnemyView,
> {
    Seq::new(
        enemies.len(),
        |i: int|
            if enemies[i].dead() {
                enemies[i]
            } else {
                enemies[i].ticked(px, py, map)
            },
    )
}

/// Whether the enemy strikes the player at `(px, py)`: it is alive, at
/// most one step away, and its attack countdown has run out.
pub open spec fn strikes(e: FieldEnemyView, px: usize, py: usize) -> bool {
    !e.dead() && e.distance_to(px, py) <= 1 && e.ready()
}

/// The enemies after each one that strikes has struck.
pub open spec fn after_strikes(enemies: Seq<FieldEnemyView>, px: usize, py: usize) -> Seq<
    FieldEnemyView,
> {
    Seq::new(
        enemies.len(),
        |i: int|
            if strikes(enemies[i], px, py) {
                enemies[i].after_attack()
            } else {
                enemies[i]
            },
    )
}

/// The damage that the enemies that strike do to a player of defence
/// `def`, summed in their order.
pub open spec fn strike_damage(enemies: Seq<FieldEnemyView>, px: usize, py: usize, def: i32) -> i32
    decreases enemies.len(),
{
    if enemies.len() == 0 {
        0
    } else {
        let before = strike_damage(enemies.drop_last(), px, py, def);
        if strikes(enemies.last(), px, py) {
            clamp_i32(before + blow(enemies.last().data.atk, def))
        } else {
            before
        }
    }
}

/// Whether any enemy strikes.
pub open spec fn any_strikes(enemies: Seq<FieldEnemyView>, px: usize, py: usize) -> bool {
    exists|i: int| 0 <= i < enemies.len() && strikes(enemies[i], px, py)
}

/// The enemies that are alive, in order.
pub open spec fn living(enemies: Seq<FieldEnemyView>) -> Seq<FieldEnemyView>
    decreases enemies.len(),
{
    if enemies.len() == 0 {
        Seq::empty()
    } else if enemies.last().dead() {
        living(enemies.drop_last())
    } else {
        living(enemies.drop_last()).push(enemies.last())
    }
}

/// The position of the first enemy alive at `(x, y)`, if any.
pub open spec fn living_at(enemies: Seq<FieldEnemyView>, x: usize, y: usize) -> Option<int> {
    first_true(
        Seq::new(
            enemies.len(),
            |i: int| enemies[i].x == x && enemies[i].y == y && !enemies[i].dead(),
        ),
    )
}

/// Whether any of the first `i + 1` enemies strikes, from whether any of
/// the first `i` does.
proof fn lemma_any_strikes_step(enemies: Seq<FieldEnemyView>, i: int, px: usize, py: usize)
    requires
        0 <= i < enemies.len(),
    ensures
        any_strikes(enemies.take(i + 1), px, py) == (any_strikes(enemies.take(i), px, py)
            || strikes(enemies[i], px, py)),
{
    let a = enemies.take(i);
    let b = enemies.take(i + 1);
    if any_strikes(a, px, py) {
        let j = choose|j: int| 0 <= j < a.len() && strikes(a[j], px, py);
        assert(strikes(b[j], px, py));
    }
    if strikes(enemies[i], px, py) {
        assert(strikes(b[i], px, py));
    }
    if any_strikes(b, px, py) {
        let j = choose|j: int| 0 <= j < b.len() && strikes(b[j], px, py);
        if j < i {
            assert(strikes(a[j], px, py));
        }
    }
}

/// The player's attack earns a reward exactly if the countdown has run
/// out, an enemy alive stands on the cell faced, and the blow leaves the
/// first such enemy no hit points; and with the countdown run out the
/// attack starts it again, whatever it hits.
pub proof fn lemma_kill_reward(c: CombatView, px: usize, py: usize, atk: i32, facing: Direction)
    ensures
        c.kill_reward(px, py, atk, facing) is Some <==> c.player_attack_cooldown == 0
            && c.attack_target(px, py, facing) is Some && c.attacked(
            px,
            py,
            atk,
            facing,
        ).enemies[c.attack_target(px, py, facing)->0].hp <= 0,
        c.player_attack_cooldown == 0 ==> c.attacked(px, py, atk, facing).player_attack_cooldown
            == PLAYER_ATTACK_COOLDOWN,
        c.player_attack_cooldown > 0 ==> c.attacked(px, py, atk, facing) == c,
{
    if c.player_attack_cooldown == 0 {
        let cell = facing.target(px, py);
        let flags = Seq::new(
            c.enemies.len(),
            |i: int| c.enemies[i].x == cell.0 && c.enemies[i].y == cell.1 && !c.enemies[i].dead(),
        );
        lemma_first_true(flags);
    }
}

/// The enemies of the current map and the player's two countdowns.
pub struct CombatSystem {
    pub enemies: Vec<FieldEnemy>,
    pub player_attack_cooldown: u32,
    pub player_hit_flash: u32,
    pub update_counter: u32,
}

/// Model of a [`CombatSystem`].
pub struct CombatView {
    pub enemies: Seq<FieldEnemyView>,
    pub player_attack_cooldown: u32,
    pub player_hit_flash: u32,
    pub update_counter: u32,
}

impl View for CombatSystem {
    type V = CombatView;

    open spec fn view(&self) -> CombatView {
        CombatView {
            enemies: views(self.enemies@),
            player_attack_cooldown: self.player_attack_cooldown,
            player_hit_flash: self.player_hit_flash,
            update_counter: self.update_counter,
        }
    }
}

impl CombatView {
    /// No enemies, no countdown running.
    pub open spec fn initial() -> CombatView {
        CombatView {
            enemies: Seq::empty(),
            player_attack_cooldown: 0,
            player_hit_flash: 0,
            update_counter: 0,
        }
    }

    /// Combat after the enemies of `map` replaced the present ones.
    pub open spec fn respawned(self, map: GameMapView, templates: Seq<EnemyView>) -> CombatView {
        CombatView { enemies: spawned(map, templates), ..self }
    }

    /// The tick counter after one more tick; it starts again from zero
    /// after its largest value.
    pub open spec fn next_counter(self) -> u32 {
        if self.update_counter == u32::MAX {
            0
        } else {
            (self.update_counter + 1) as u32
        }
    }

    /// The enemies as they stand when the strikes of a tick are dealt: on
    /// every eighth tick after their turn, else as they were.
    pub open spec fn enemies_in_tick(self, px: usize, py: usize, map: GameMapView) -> Seq<
        FieldEnemyView,
    > {
        if self.next_counter() % ENEMY_TURN_PERIOD == 0 {
            moved(self.enemies, px, py, map)
        } else {
            self.enemies
        }
    }

    /// The damage a tick does to a player of defence `def` at `(px, py)`.
    pub open spec fn tick_damage(self, px: usize, py: usize, def: i32, map: GameMapView) -> i32 {
        strike_damage(self.enemies_in_tick(px, py, map), px, py, def)
    }

    /// Combat after a tick: the player's countdowns go down by one, on
    /// every eighth tick the enemies take their turn, those that strike
    /// start their countdown and make the player flash, and the dead are
    /// removed.
    pub open spec fn ticked(self, px: usize, py: usize, map: GameMapView) -> CombatView {
        let enemies = self.enemies_in_tick(px, py, map);
        CombatView {
            enemies: living(after_strikes(enemies, px, py)),
            player_attack_cooldown: counted_down(self.player_attack_cooldown),
            player_hit_flash: if any_strikes(enemies, px, py) {
                PLAYER_HIT_FLASH
            } else {
                counted_down(self.player_hit_flash)
            },
            update_counter: self.next_counter(),
        }
    }

    /// The position of the enemy that an attack from `(px, py)` in the
    /// direction `facing` hits: the first one alive on the cell faced.
    pub open spec fn attack_target(self, px: usize, py: usize, facing: Direction) -> Option<int> {
        let cell = facing.target(px, py);
        living_at(self.enemies, cell.0, cell.1)
    }

    /// Combat after the player attacked. While the player's countdown runs
    /// nothing happens; else the countdown starts, and the enemy hit, if
    /// any, takes the blow.
    pub open spec fn attacked(self, px: usize, py: usize, atk: i32, facing: Direction) -> CombatView {
        if self.player_attack_cooldown > 0 {
            self
        } else {
            match self.attack_target(px, py, facing) {
                Some(i) => CombatView {
                    enemies: self.enemies.update(
                        i,
                        self.enemies[i].hit(blow(atk, self.enemies[i].data.def)),
                    ),
                    player_attack_cooldown: PLAYER_ATTACK_COOLDOWN,
                    ..self
                },
                None => CombatView { player_attack_cooldown: PLAYER_ATTACK_COOLDOWN, ..self },
            }
        }
    }

    /// What the player's attack earns: the reward of the enemy hit, if the
    /// blow leaves it no hit points.
    pub open spec fn kill_reward(self, px: usize, py: usize, atk: i32, facing: Direction) -> Option<
        KillRewardView,
    > {
        if self.player_attack_cooldown > 0 {
            None
        } else {
            match self.attack_target(px, py, facing) {
                Some(i) => {
                    let e = self.enemies[i];
                    if e.hit(blow(atk, e.data.def)).dead() {
                        Some(KillRewardView { enemy_id: e.data.id, exp: e.data.exp, gold: e.data.gold })
                    } else {
                        None
                    }
                },
                None => None,
            }
        }
    }

    /// Whether an enemy alive stands at `(x, y)`.
    pub open spec fn enemy_at(self, x: usize, y: usize) -> bool {
        exists|i: int|
            0 <= i < self.enemies.len() && self.enemies[i].x == x && self.enemies[i].y == y
                && !self.enemies[i].dead()
    }
}

impl CombatSystem {
    pub fn new() -> (r: Self)
        ensures
            r@ == CombatView::initial(),
    {
        let r = CombatSystem {
            enemies: Vec::new(),
            player_attack_cooldown: 0,
            player_hit_flash: 0,
            update_counter: 0,
        };
        assert(r@.enemies =~= Seq::empty());
        r
    }

    /// Whether an enemy stands at `(x, y)`, alive or not.
    fn stands_at(&self, x: usize, y: usize) -> (r: bool)
        ensures
            r == occupied(self@.enemies, x, y),
    {
        let mut i: usize = 0;
        while i < self.enemies.len()
            invariant
                i <= self.enemies.len(),
                forall|j: int| 0 <= j < i ==> !(self@.enemies[j].x == x && self@.enemies[j].y == y),
            decreases self.enemies.len() - i,
        {
            if self.enemies[i].x == x && self.enemies[i].y == y {
                assert(self@.enemies[i as int].x == x && self@.enemies[i as int].y == y);
                return true;
            }
            i += 1;
        }
        false
    }

    /// The first enemy tile of `map`, read row by row, on which no enemy
    /// stands.
    fn free_spawn(&self, map: &GameMap) -> (r: Option<(usize, usize)>)
        ensures
            r == free_spawn_cell(map@, self@.enemies),
    {
        let ghost p = |x: usize, y: usize|
            map@.tile_at(x, y) == Tile::Enemy && !occupied(self@.enemies, x, y);
        let mut y: usize = 0;
        while y < map.height
            invariant
                y <= map.height,
                p == (|x: usize, y: usize|
                    map@.tile_at(x, y) == Tile::Enemy && !occupied(self@.enemies, x, y)),
                forall|x2: usize, y2: usize| x2 < map.width && y2 < y ==> !#[trigger] p(x2, y2),
            decreases map.height - y,
        {
            let mut x: usize = 0;
            while x < map.width
                invariant
                    x <= map.width,
                    y < map.height,
                    p == (|x: usize, y: usize|
                        map@.tile_at(x, y) == Tile::Enemy && !occupied(self@.enemies, x, y)),
                    forall|x2: usize, y2: usize|
                        x2 < map.width && y2 < y ==> !#[trigger] p(x2, y2),
                    forall|x2: usize| x2 < x ==> !#[trigger] p(x2, y),
                decreases map.width - x,
            {
                if map.get_tile(x, y) == Tile::Enemy && !self.stands_at(x, y) {
                    proof {
                        assert(p(x, y));
                        lemma_first_cell_some(map.width, map.height, p, x, y);
                    }
                    return Some((x, y));
                }
                x += 1;
            }
            y += 1;
        }
        proof {
            lemma_first_cell_none(map.width, map.height, p);
        }
        None
    }

    /// Replaces the enemies by those of `map`: for each entry of its
    /// encounter table whose enemy is among `enemy_data`, one copy on the
    /// first enemy tile that is still free.
    pub fn spawn_enemies(&mut self, map: &GameMap, enemy_data: &[Enemy])
        ensures
            final(self)@ == old(self)@.respawned(map@, views(enemy_data@)),
    {
        self.enemies.clear();
        let mut k: usize = 0;
        while k < map.encounters.len()
            invariant
                k <= map.encounters.len(),
                self@.enemies == spawned_upto(map@, views(enemy_data@), k as int),
                self.player_attack_cooldown == old(self).player_attack_cooldown,
                self.player_hit_flash == old(self).player_hit_flash,
                self.update_counter == old(self).update_counter,
            decreases map.encounters.len() - k,
        {
            let ghost before = self@.enemies;
            match find(enemy_data, map.encounters[k].0.as_str()) {
                Some(t) => {
                    match self.free_spawn(map) {
                        Some(cell) => {
                            let enemy = FieldEnemy::new(enemy_data[t].clone(), cell.0, cell.1);
                            proof {
                                lemma_views_push(self.enemies@, enemy);
                            }
                            self.enemies.push(enemy);
                        },
                        None => {},
                    }
                },
                None => {},
            }
            assert(self@.enemies == spawn_one(
                before,
                map@,
                views(enemy_data@),
                map@.encounters[k as int].0,
            ));
            k += 1;
        }
    }

    /// One tick of combat around a player of defence `player_def` at
    /// `(player_x, player_y)`; returns the damage the player takes.
    pub fn update(&mut self, player_x: usize, player_y: usize, player_def: i32, map: &GameMap) -> (r:
        CombatResult)
        ensures
            final(self)@ == old(self)@.ticked(player_x, player_y, map@),
            r.damage_taken == old(self)@.tick_damage(player_x, player_y, player_def, map@),
    {
        self.update_counter = self.update_counter.wrapping_add(1);
        if self.player_attack_cooldown > 0 {
            self.player_attack_cooldown -= 1;
        }
        if self.player_hit_flash > 0 {
            self.player_hit_flash -= 1;
        }
        let ghost start = old(self)@.enemies;
        if self.update_counter % ENEMY_TURN_PERIOD == 0 {
            let mut i: usize = 0;
            while i < self.enemies.len()
                invariant
                    i <= self.enemies.len(),
                    self.enemies.len() == start.len(),
                    start == old(self)@.enemies,
                    forall|j: int|
                        0 <= j < i ==> (#[trigger] self.enemies@[j])@ == moved(
                            start,
                            player_x,
                            player_y,
                            map@,
                        )[j],
                    forall|j: int| i <= j < start.len() ==> (#[trigger] self.enemies@[j])@ == start[j],
                    self.player_attack_cooldown == counted_down(old(self).player_attack_cooldown),
                    self.player_hit_flash == counted_down(old(self).player_hit_flash),
                    self.update_counter == old(self)@.next_counter(),
                decreases self.enemies.len() - i,
            {
                if !self.enemies[i].is_dead() {
                    self.enemies[i].update(player_x, player_y, map);
                }
                i += 1;
            }
            assert(self@.enemies =~= moved(start, player_x, player_y, map@));
        }
        let ghost turned = self@.enemies;
        assert(turned == old(self)@.enemies_in_tick(player_x, player_y, map@));
        let mut damage_taken: i32 = 0;
        let mut i: usize = 0;
        while i < self.enemies.len()
            invariant
                i <= self.enemies.len(),
                self.enemies.len() == turned.len(),
                forall|j: int|
                    0 <= j < i ==> (#[trigger] self.enemies@[j])@ == after_strikes(
                        turned,
                        player_x,
                        player_y,
                    )[j],
                forall|j: int| i <= j < turned.len() ==> (#[trigger] self.enemies@[j])@ == turned[j],
                damage_taken == strike_damage(turned.take(i as int), player_x, player_y, player_def),
                self.player_attack_cooldown == counted_down(old(self).player_attack_cooldown),
                self.player_hit_flash == if any_strikes(turned.take(i as int), player_x, player_y) {
                    PLAYER_HIT_FLASH
                } else {
                    counted_down(old(self).player_hit_flash)
                },
                self.update_counter == old(self)@.next_counter(),
            decreases self.enemies.len() - i,
        {
            proof {
                assert(turned.take(i + 1).drop_last() =~= turned.take(i as int));
                assert(turned.take(i + 1).last() == turned[i as int]);
                lemma_any_strikes_step(turned, i as int, player_x, player_y);
            }
            if !self.enemies[i].is_dead() && self.enemies[i].distance_to(player_x, player_y) <= 1
                && self.enemies[i].can_attack() {
                let raw = self.enemies[i].do_attack();
                damage_taken = sat_add(damage_taken, blow_damage(raw, player_def));
                self.player_hit_flash = PLAYER_HIT_FLASH;
            }
            i += 1;
        }
        proof {
            assert(turned.take(turned.len() as int) =~= turned);
            assert(self@.enemies =~= after_strikes(turned, player_x, player_y));
        }
        self.purge();
        CombatResult { damage_taken }
    }

    /// Removes the dead enemies.
    fn purge(&mut self)
        ensures
            final(self)@ == (CombatView { enemies: living(old(self)@.enemies), ..old(self)@ }),
    {
        let mut all: Vec<FieldEnemy> = Vec::new();
        core::mem::swap(&mut self.enemies, &mut all);
        assert(self@.enemies =~= living(views(all@.take(0))));
        for e in it: all
            invariant
                it.seq() == old(self).enemies@,
                self@.enemies == living(views(it.seq().take(it.index() as int))),
                self.player_attack_cooldown == old(self).player_attack_cooldown,
                self.player_hit_flash == old(self).player_hit_flash,
                self.update_counter == old(self).update_counter,
        {
            proof {
                let k = it.index() as int;
                let s = it.seq();
                assert(views(s.take(k + 1)).drop_last() =~= views(s.take(k)));
                assert(views(s.take(k + 1)).last() == e@);
                lemma_views_push(self.enemies@, e);
            }
            if !e.is_dead() {
                self.enemies.push(e);
            }
        }
        proof {
            let s = old(self).enemies@;
            assert(s.take(s.len() as int) =~= s);
        }
    }

    /// The player at `(player_x, player_y)` strikes in the direction
    /// `facing` with strength `player_atk`. Returns the reward if the blow
    /// killed an enemy.
    pub fn player_attack(
        &mut self,
        player_x: usize,
        player_y: usize,
        player_atk: i32,
        facing: Direction,
    ) -> (r: Option<KillReward>)
        ensures
            final(self)@ == old(self)@.attacked(player_x, player_y, player_atk, facing),
            r matches Some(reward) ==> old(self)@.kill_reward(player_x, player_y, player_atk, facing)
                == Some(reward@),
            r is None ==> old(self)@.kill_reward(player_x, player_y, player_atk, facing) is None,
            old(self).player_attack_cooldown == 0 ==> final(self).player_attack_cooldown
                == PLAYER_ATTACK_COOLDOWN,
    {
        if self.player_attack_cooldown > 0 {
            return None;
        }
        let (tx, ty) = facing.apply(player_x, player_y);
        let ghost flags = Seq::new(
            self@.enemies.len(),
            |i: int| self@.enemies[i].x == tx && self@.enemies[i].y == ty && !self@.enemies[i].dead(),
        );
        self.player_attack_cooldown = PLAYER_ATTACK_COOLDOWN;
        let mut i: usize = 0;
        while i < self.enemies.len()
            invariant
                i <= self.enemies.len(),
                self.enemies == old(self).enemies,
                self.player_hit_flash == old(self).player_hit_flash,
                self.update_counter == old(self).update_counter,
                self.player_attack_cooldown == PLAYER_ATTACK_COOLDOWN,
                old(self).player_attack_cooldown == 0,
                (tx, ty) == facing.target(player_x, player_y),
                flags == Seq::new(
                    old(self)@.enemies.len(),
                    |i: int|
                        old(self)@.enemies[i].x == tx && old(self)@.enemies[i].y == ty && !old(
                            self,
                        )@.enemies[i].dead(),
                ),
                forall|j: int| 0 <= j < i ==> !flags[j],
            decreases self.enemies.len() - i,
        {
            if self.enemies[i].x == tx && self.enemies[i].y == ty && !self.enemies[i].is_dead() {
                proof {
                    lemma_first_true_some(flags, i as int);
                }
                let damage = blow_damage(player_atk, self.enemies[i].data.def);
                self.enemies[i].take_damage(damage);
                assert(self@.enemies =~= old(self)@.enemies.update(
                    i as int,
                    old(self)@.enemies[i as int].hit(damage),
                ));
                return if self.enemies[i].is_dead() {
                    Some(
                        KillReward {
                            enemy_id: self.enemies[i].data.id.clone(),
                            exp: self.enemies[i].data.exp,
                            gold: self.enemies[i].data.gold,
                        },
                    )
                } else {
                    None
                };
            }
            i += 1;
        }
        proof {
            lemma_first_true_none(flags);
        }
        None
    }

    /// Whether an enemy alive stands at `(x, y)`.
    pub fn enemy_at(&self, x: usize, y: usize) -> (r: bool)
        ensures
            r == self@.enemy_at(x, y),
    {
        let mut i: usize = 0;
        while i < self.enemies.len()
            invariant
                i <= self.enemies.len(),
                forall|j: int|
                    0 <= j < i ==> !(self@.enemies[j].x == x && self@.enemies[j].y == y
                        && !self@.enemies[j].dead()),
            decreases self.enemies.len() - i,
        {
            if self.enemies[i].x == x && self.enemies[i].y == y && !self.enemies[i].is_dead() {
                assert(self@.enemies[i as int].x == x);
                return true;
            }
            i += 1;
        }
        false
    }
}

impl Default for CombatSystem {
    fn default() -> (r: Self)
        ensures
            r@ == CombatView::initial(),
    {
        CombatSystem::new()
    }
}

} // verus!
