//! Content records and their mathematical models.
//!
//! Each record with text or lists in it has a model (`…View`) in which a
//! string is a sequence of characters and a vector is a sequence; `@` maps a
//! record to its model, and every contract is stated over the models.

use crate::num::{clamp_i32, max_int, min_int, sat_add, sat_mul, sat_sub};
use vstd::prelude::*;

verus! {

/// The models of the elements of `s`, in order.
pub open spec fn views<T: View>(s: Seq<T>) -> Seq<T::V> {
    Seq::new(s.len(), |i: int| s[i]@)
}

/// Pushing an element pushes its model.
pub proof fn lemma_views_push<T: View>(s: Seq<T>, x: T)
    ensures
        views(s.push(x)) == views(s).push(x@),
{
    assert(views(s.push(x)) =~= views(s).push(x@));
}

/// Removing an element removes its model.
pub proof fn lemma_views_remove<T: View>(s: Seq<T>, i: int)
    requires
        0 <= i < s.len(),
    ensures
        views(s.remove(i)) == views(s).remove(i),
{
    assert(views(s.remove(i)) =~= views(s).remove(i));
}

/// What an item is for.
#[derive(Debug, Clone, Copy, PartialEq, Eq, Structural)]
pub enum ItemKind {
    Weapon,
    Armor,
    Accessory,
    Consumable,
}

/// An item: a weapon (attack, critical, price), an armor (defence, magic
/// defence, price), an accessory (attack bonus, defence bonus, price) or a
/// consumable (hit points restored, price).
#[derive(Debug)]
pub struct Item {
    pub id: String,
    pub name: String,
    pub kind: ItemKind,
    pub param1: i32,
    pub param2: i32,
    pub param3: i32,
    pub price: i32,
}

/// Model of an [`Item`].
pub struct ItemView {
    pub id: Seq<char>,
    pub name: Seq<char>,
    pub kind: ItemKind,
    pub param1: i32,
    pub param2: i32,
    pub param3: i32,
    pub price: i32,
}

impl View for Item {
    type V = ItemView;

    open spec fn view(&self) -> ItemView {
        ItemView {
            id: self.id@,
            name: self.name@,
            kind: self.kind,
            param1: self.param1,
            param2: self.param2,
            param3: self.param3,
            price: self.price,
        }
    }
}

impl Clone for Item {
    fn clone(&self) -> (r: Self)
        ensures
            r == *self,
    {
        Item {
            id: self.id.clone(),
            name: self.name.clone(),
            kind: self.kind,
            param1: self.param1,
            param2: self.param2,
            param3: self.param3,
            price: self.price,
        }
    }
}

/// An enemy template.
#[derive(Debug)]
pub struct Enemy {
    pub id: String,
    pub name: String,
    pub hp: i32,
    pub atk: i32,
    pub def: i32,
    pub exp: i32,
    pub gold: i32,
}

/// Model of an [`Enemy`].
pub struct EnemyView {
    pub id: Seq<char>,
    pub name: Seq<char>,
    pub hp: i32,
    pub atk: i32,
    pub def: i32,
    pub exp: i32,
    pub gold: i32,
}

impl View for Enemy {
    type V = EnemyView;

    open spec fn view(&self) -> EnemyView {
        EnemyView {
            id: self.id@,
            name: self.name@,
            hp: self.hp,
            atk: self.atk,
            def: self.def,
            exp: self.exp,
            gold: self.gold,
        }
    }
}

impl Clone for Enemy {
    fn clone(&self) -> (r: Self)
        ensures
            r == *self,
    {
        Enemy {
            id: self.id.clone(),
            name: self.name.clone(),
            hp: self.hp,
            atk: self.atk,
            def: self.def,
            exp: self.exp,
            gold: self.gold,
        }
    }
}

/// A map tile.
#[derive(Debug, Clone, Copy, PartialEq, Eq, Structural)]
pub enum Tile {
    Wall,
    Floor,
    PlayerStart,
    House,
    Dungeon,
    Treasure,
    Enemy,
    Exit,
    Water,
    Tree,
}

impl Tile {
    /// The tile a character of a map row stands for; an unknown character is
    /// floor.
    pub open spec fn of_char(c: char) -> Tile {
        if c == '#' {
            Tile::Wall
        } else if c == '.' {
            Tile::Floor
        } else if c == 'P' {
            Tile::PlayerStart
        } else if c == 'H' {
            Tile::House
        } else if c == 'D' {
            Tile::Dungeon
        } else if c == 'T' {
            Tile::Treasure
        } else if c == 'E' {
            Tile::Enemy
        } else if c == '>' {
            Tile::Exit
        } else if c == '~' {
            Tile::Water
        } else if c == '*' {
            Tile::Tree
        } else {
            Tile::Floor
        }
    }

    /// Whether the tile can be walked on: everything but wall, water and tree.
    pub open spec fn passable(self) -> bool {
        !(self == Tile::Wall || self == Tile::Water || self == Tile::Tree)
    }

    pub fn from_char(c: char) -> (t: Tile)
        ensures
            t == Tile::of_char(c),
    {
        match c {
            '#' => Tile::Wall,
            '.' => Tile::Floor,
            'P' => Tile::PlayerStart,
            'H' => Tile::House,
            'D' => Tile::Dungeon,
            'T' => Tile::Treasure,
            'E' => Tile::Enemy,
            '>' => Tile::Exit,
            '~' => Tile::Water,
            '*' => Tile::Tree,
            _ => Tile::Floor,
        }
    }

    pub fn is_passable(&self) -> (r: bool)
        ensures
            r == self.passable(),
    {
        match self {
            Tile::Wall | Tile::Water | Tile::Tree => false,
            _ => true,
        }
    }
}

/// Whether cell `(x1, y1)` comes before `(x2, y2)` when a grid is read row
/// by row, each row from the left.
pub open spec fn row_major_before(x1: usize, y1: usize, x2: usize, y2: usize) -> bool {
    y1 < y2 || (y1 == y2 && x1 < x2)
}

/// Whether `(x, y)` is the first cell of a `width` by `height` grid, read
/// row by row, of which `p` holds.
pub open spec fn is_first_cell(
    width: usize,
    height: usize,
    p: spec_fn(usize, usize) -> bool,
    x: usize,
    y: usize,
) -> bool {
    &&& x < width
    &&& y < height
    &&& p(x, y)
    &&& forall|x2: usize, y2: usize|
        x2 < width && y2 < height && #[trigger] p(x2, y2) ==> !row_major_before(x2, y2, x, y)
}

/// The first cell of the grid, read row by row, of which `p` holds, if any.
pub open spec fn first_cell(width: usize, height: usize, p: spec_fn(usize, usize) -> bool) -> Option<
    (usize, usize),
> {
    if exists|c: (usize, usize)| is_first_cell(width, height, p, c.0, c.1) {
        Some(choose|c: (usize, usize)| is_first_cell(width, height, p, c.0, c.1))
    } else {
        None
    }
}

/// A cell that is the first of which `p` holds is what `first_cell` names.
pub proof fn lemma_first_cell_some(
    width: usize,
    height: usize,
    p: spec_fn(usize, usize) -> bool,
    x: usize,
    y: usize,
)
    requires
        is_first_cell(width, height, p, x, y),
    ensures
        first_cell(width, height, p) == Some((x, y)),
{
    let c0 = (x, y);
    assert(is_first_cell(width, height, p, c0.0, c0.1));
    let c = choose|c: (usize, usize)| is_first_cell(width, height, p, c.0, c.1);
    assert(is_first_cell(width, height, p, c.0, c.1));
    assert(!row_major_before(c.0, c.1, x, y));
    assert(!row_major_before(x, y, c.0, c.1));
    assert(c == (x, y));
}

/// Where `p` holds of no cell, `first_cell` names none.
pub proof fn lemma_first_cell_none(width: usize, height: usize, p: spec_fn(usize, usize) -> bool)
    requires
        forall|x: usize, y: usize| x < width && y < height ==> !#[trigger] p(x, y),
    ensures
        first_cell(width, height, p) is None,
{
}

/// What `first_cell` names is a first cell; where it names none, `p`
/// holds of no cell of the grid.
pub proof fn lemma_first_cell(width: usize, height: usize, p: spec_fn(usize, usize) -> bool)
    ensures
        match first_cell(width, height, p) {
            Some(c) => is_first_cell(width, height, p, c.0, c.1),
            None => forall|x: usize, y: usize| x < width && y < height ==> !#[trigger] p(x, y),
        },
{
    if first_cell(width, height, p) is None {
        assert forall|x: usize, y: usize| x < width && y < height implies !#[trigger] p(x, y) by {
            if p(x, y) {
                lemma_some_first_cell(width, height, p, x, y);
            }
        }
    }
}

/// Where `p` holds of some cell, there is a first one.
proof fn lemma_some_first_cell(
    width: usize,
    height: usize,
    p: spec_fn(usize, usize) -> bool,
    x: usize,
    y: usize,
)
    requires
        x < width,
        y < height,
        p(x, y),
    ensures
        exists|c: (usize, usize)| is_first_cell(width, height, p, c.0, c.1),
    decreases y, x,
{
    if forall|x2: usize, y2: usize|
        x2 < width && y2 < height && #[trigger] p(x2, y2) ==> !row_major_before(x2, y2, x, y) {
        let c = (x, y);
        assert(is_first_cell(width, height, p, c.0, c.1));
    } else {
        let (x2, y2) = choose|x2: usize, y2: usize|
            x2 < width && y2 < height && #[trigger] p(x2, y2) && row_major_before(x2, y2, x, y);
        lemma_some_first_cell(width, height, p, x2, y2);
    }
}

/// A map: a grid of tiles stored row by row, the enemies met on it, and
/// where its exits and dungeon entrances lead.
#[derive(Debug)]
pub struct GameMap {
    pub id: String,
    pub name: String,
    pub width: usize,
    pub height: usize,
    pub tiles: Vec<Tile>,
    pub encounters: Vec<(String, i32)>,
    pub exits: Vec<(usize, usize, String)>,
    pub dungeons: Vec<(usize, usize, String)>,
}

/// Model of a [`GameMap`].
pub struct GameMapView {
    pub id: Seq<char>,
    pub name: Seq<char>,
    pub width: usize,
    pub height: usize,
    pub tiles: Seq<Tile>,
    pub encounters: Seq<(Seq<char>, i32)>,
    pub exits: Seq<(usize, usize, Seq<char>)>,
    pub dungeons: Seq<(usize, usize, Seq<char>)>,
}

impl GameMapView {
    /// The grid holds exactly `width * height` tiles.
    pub open spec fn wf(self) -> bool {
        self.tiles.len() == self.width * self.height
    }

    /// The tile at column `x` of row `y`; wall outside the grid.
    pub open spec fn tile_at(self, x: usize, y: usize) -> Tile {
        if x < self.width && y < self.height && y * self.width + x < self.tiles.len() {
            self.tiles[y * self.width + x]
        } else {
            Tile::Wall
        }
    }

    /// The first cell, read row by row, that holds the player's start tile.
    pub open spec fn player_start(self) -> Option<(usize, usize)> {
        first_cell(
            self.width,
            self.height,
            |x: usize, y: usize| self.tile_at(x, y) == Tile::PlayerStart,
        )
    }

    /// The target of the first entry of `links` at `(x, y)`, if any.
    pub open spec fn link_at(links: Seq<(usize, usize, Seq<char>)>, x: usize, y: usize) -> Option<
        Seq<char>,
    >
        decreases links.len(),
    {
        if links.len() == 0 {
            None
        } else if links[0].0 == x && links[0].1 == y {
            Some(links[0].2)
        } else {
            Self::link_at(links.drop_first(), x, y)
        }
    }
}

impl View for GameMap {
    type V = GameMapView;

    open spec fn view(&self) -> GameMapView {
        GameMapView {
            id: self.id@,
            name: self.name@,
            width: self.width,
            height: self.height,
            tiles: self.tiles@,
            encounters: views(self.encounters@),
            exits: views(self.exits@),
            dungeons: views(self.dungeons@),
        }
    }
}

/// A copy of a list of links.
fn clone_links(links: &Vec<(usize, usize, String)>) -> (r: Vec<(usize, usize, String)>)
    ensures
        r@ == links@,
{
    let mut r: Vec<(usize, usize, String)> = Vec::new();
    let mut i: usize = 0;
    while i < links.len()
        invariant
            i <= links.len(),
            r@ == links@.take(i as int),
        decreases links.len() - i,
    {
        r.push((links[i].0, links[i].1, links[i].2.clone()));
        i += 1;
    }
    r
}

/// A copy of an encounter table.
fn clone_encounters(table: &Vec<(String, i32)>) -> (r: Vec<(String, i32)>)
    ensures
        r@ == table@,
{
    let mut r: Vec<(String, i32)> = Vec::new();
    let mut i: usize = 0;
    while i < table.len()
        invariant
            i <= table.len(),
            r@ == table@.take(i as int),
        decreases table.len() - i,
    {
        r.push((table[i].0.clone(), table[i].1));
        i += 1;
    }
    r
}

impl Clone for GameMap {
    fn clone(&self) -> (r: Self)
        ensures
            r@ == self@,
    {
        let tiles = self.tiles.clone();
        assert(tiles@ =~= self.tiles@);
        GameMap {
            id: self.id.clone(),
            name: self.name.clone(),
            width: self.width,
            height: self.height,
            tiles,
            encounters: clone_encounters(&self.encounters),
            exits: clone_links(&self.exits),
            dungeons: clone_links(&self.dungeons),
        }
    }
}

/// The target of the first entry of `links` at `(x, y)`, if any.
pub fn link_target(links: &Vec<(usize, usize, String)>, x: usize, y: usize) -> (r: Option<&str>)
    ensures
        match r {
            Some(t) => GameMapView::link_at(views(links@), x, y) == Some(t@),
            None => GameMapView::link_at(views(links@), x, y) is None,
        },
{
    let ghost all = views(links@);
    assert(all.subrange(0, all.len() as int) =~= all);
    let mut i: usize = 0;
    while i < links.len()
        invariant
            i <= links.len(),
            all == views(links@),
            GameMapView::link_at(all, x, y) == GameMapView::link_at(
                all.subrange(i as int, all.len() as int),
                x,
                y,
            ),
        decreases links.len() - i,
    {
        let ghost rest = all.subrange(i as int, all.len() as int);
        assert(rest[0] == all[i as int]);
        assert(rest.drop_first() =~= all.subrange(i + 1, all.len() as int));
        if links[i].0 == x && links[i].1 == y {
            return Some(links[i].2.as_str());
        }
        i += 1;
    }
    None
}

impl GameMap {
    /// The tile at column `x` of row `y`. A cell outside the grid is wall.
    pub fn get_tile(&self, x: usize, y: usize) -> (t: Tile)
        ensures
            t == self@.tile_at(x, y),
            x >= self.width || y >= self.height ==> t == Tile::Wall,
    {
        if x >= self.width || y >= self.height {
            return Tile::Wall;
        }
        let len = self.tiles.len();
        let row = match y.checked_mul(self.width) {
            Some(row) => row,
            None => {
                return Tile::Wall;
            },
        };
        let i = match row.checked_add(x) {
            Some(i) => i,
            None => {
                return Tile::Wall;
            },
        };
        if i < len {
            self.tiles[i]
        } else {
            Tile::Wall
        }
    }

    /// The first cell, read row by row, that holds the player's start tile.
    pub fn find_player_start(&self) -> (r: Option<(usize, usize)>)
        ensures
            r == self@.player_start(),
            match r {
                Some((x, y)) => x < self.width && y < self.height && self@.tile_at(x, y)
                    == Tile::PlayerStart,
                None => forall|x: usize, y: usize| self@.tile_at(x, y) != Tile::PlayerStart,
            },
    {
        let ghost p = |x: usize, y: usize| self@.tile_at(x, y) == Tile::PlayerStart;
        let mut y: usize = 0;
        while y < self.height
            invariant
                y <= self.height,
                p == (|x: usize, y: usize| self@.tile_at(x, y) == Tile::PlayerStart),
                forall|x2: usize, y2: usize| x2 < self.width && y2 < y ==> !#[trigger] p(x2, y2),
            decreases self.height - y,
        {
            let mut x: usize = 0;
            while x < self.width
                invariant
                    x <= self.width,
                    y < self.height,
                    p == (|x: usize, y: usize| self@.tile_at(x, y) == Tile::PlayerStart),
                    forall|x2: usize, y2: usize|
                        x2 < self.width && y2 < y ==> !#[trigger] p(x2, y2),
                    forall|x2: usize| x2 < x ==> !#[trigger] p(x2, y),
                decreases self.width - x,
            {
                if self.get_tile(x, y) == Tile::PlayerStart {
                    proof {
                        assert(p(x, y));
                        lemma_first_cell_some(self.width, self.height, p, x, y);
                    }
                    return Some((x, y));
                }
                x += 1;
            }
            y += 1;
        }
        proof {
            lemma_first_cell_none(self.width, self.height, p);
            assert forall|x: usize, y: usize| self@.tile_at(x, y) != Tile::PlayerStart by {
                if x < self.width && y < self.height {
                    assert(!p(x, y));
                }
            }
        }
        None
    }
}

/// The player's numbers. Sums stop at the bounds of `i32`.
#[derive(Debug, Clone, Copy)]
pub struct PlayerStats {
    pub level: i32,
    pub exp: i32,
    pub exp_to_next: i32,
    pub max_hp: i32,
    pub current_hp: i32,
    pub max_mp: i32,
    pub current_mp: i32,
    pub base_atk: i32,
    pub base_def: i32,
    pub gold: i32,
}

impl PlayerStats {
    /// The numbers a new player starts with.
    pub open spec fn initial() -> PlayerStats {
        PlayerStats {
            level: 1,
            exp: 0,
            exp_to_next: 100,
            max_hp: 50,
            current_hp: 50,
            max_mp: 20,
            current_mp: 20,
            base_atk: 10,
            base_def: 5,
            gold: 0,
        }
    }

    /// Base attack plus the weapon's first parameter.
    pub open spec fn atk_with(self, weapon: Option<ItemView>) -> i32 {
        match weapon {
            Some(w) => clamp_i32(self.base_atk + w.param1),
            None => self.base_atk,
        }
    }

    /// Base defence plus the armor's first parameter.
    pub open spec fn def_with(self, armor: Option<ItemView>) -> i32 {
        match armor {
            Some(a) => clamp_i32(self.base_def + a.param1),
            None => self.base_def,
        }
    }

    /// The numbers after `amount` hit points are restored, up to the maximum.
    pub open spec fn healed(self, amount: i32) -> PlayerStats {
        PlayerStats {
            current_hp: min_int(clamp_i32(self.current_hp + amount) as int, self.max_hp as int) as i32,
            ..self
        }
    }

    /// The numbers after `damage` hit points are lost, down to zero.
    pub open spec fn damaged(self, damage: i32) -> PlayerStats {
        PlayerStats {
            current_hp: max_int(clamp_i32(self.current_hp - damage) as int, 0) as i32,
            ..self
        }
    }

    /// The numbers with hit points and magic points at their maximum.
    pub open spec fn restored(self) -> PlayerStats {
        PlayerStats { current_hp: self.max_hp, current_mp: self.max_mp, ..self }
    }

    /// The numbers after one level is gained: the experience needed for it
    /// is taken off what was earned and the rest is carried over, the next
    /// level costs a hundred times its number, and hit points, magic
    /// points, attack and defence grow by 10, 5, 2 and 1.
    pub open spec fn leveled_up(self) -> PlayerStats {
        let level = clamp_i32(self.level + 1);
        let max_hp = clamp_i32(self.max_hp + 10);
        let max_mp = clamp_i32(self.max_mp + 5);
        PlayerStats {
            level,
            exp: clamp_i32(self.exp - self.exp_to_next),
            exp_to_next: clamp_i32(level * 100),
            max_hp,
            current_hp: max_hp,
            max_mp,
            current_mp: max_mp,
            base_atk: clamp_i32(self.base_atk + 2),
            base_def: clamp_i32(self.base_def + 1),
            gold: self.gold,
        }
    }

    /// Whether earning `exp` experience gains a level.
    pub open spec fn levels_with(self, exp: i32) -> bool {
        clamp_i32(self.exp + exp) >= self.exp_to_next
    }

    /// The numbers after `exp` experience is earned: at most one level is
    /// gained.
    pub open spec fn with_exp(self, exp: i32) -> PlayerStats {
        let earned = PlayerStats { exp: clamp_i32(self.exp + exp), ..self };
        if self.levels_with(exp) {
            earned.leveled_up()
        } else {
            earned
        }
    }

    /// The numbers after `amount` gold is received.
    pub open spec fn with_gold(self, amount: i32) -> PlayerStats {
        PlayerStats { gold: clamp_i32(self.gold + amount), ..self }
    }

    /// The numbers after `amount` gold is taken: never below zero.
    pub open spec fn without_gold(self, amount: i32) -> PlayerStats {
        PlayerStats { gold: max_int(clamp_i32(self.gold - amount) as int, 0) as i32, ..self }
    }

    pub fn total_atk(&self, weapon: Option<&Item>) -> (r: i32)
        ensures
            r == self.atk_with(
                match weapon {
                    Some(w) => Some(w@),
                    None => None,
                },
            ),
    {
        match weapon {
            Some(w) => sat_add(self.base_atk, w.param1),
            None => self.base_atk,
        }
    }

    pub fn total_def(&self, armor: Option<&Item>) -> (r: i32)
        ensures
            r == self.def_with(
                match armor {
                    Some(a) => Some(a@),
                    None => None,
                },
            ),
    {
        match armor {
            Some(a) => sat_add(self.base_def, a.param1),
            None => self.base_def,
        }
    }

    pub fn heal(&mut self, amount: i32)
        ensures
            *final(self) == old(self).healed(amount),
    {
        let sum = sat_add(self.current_hp, amount);
        self.current_hp = if sum <= self.max_hp {
            sum
        } else {
            self.max_hp
        };
    }

    pub fn take_damage(&mut self, damage: i32)
        ensures
            *final(self) == old(self).damaged(damage),
            final(self).current_hp >= 0,
    {
        let rest = sat_sub(self.current_hp, damage);
        self.current_hp = if rest >= 0 {
            rest
        } else {
            0
        };
    }

    pub fn is_dead(&self) -> (r: bool)
        ensures
            r == (self.current_hp <= 0),
    {
        self.current_hp <= 0
    }

    /// Earns `exp` experience and says whether a level was gained.
    pub fn add_exp(&mut self, exp: i32) -> (leveled: bool)
        ensures
            leveled == old(self).levels_with(exp),
            *final(self) == old(self).with_exp(exp),
    {
        self.exp = sat_add(self.exp, exp);
        if self.exp >= self.exp_to_next {
            self.level_up();
            true
        } else {
            false
        }
    }

    fn level_up(&mut self)
        ensures
            *final(self) == old(self).leveled_up(),
    {
        self.exp = sat_sub(self.exp, self.exp_to_next);
        self.level = sat_add(self.level, 1);
        self.exp_to_next = sat_mul(self.level, 100);
        self.max_hp = sat_add(self.max_hp, 10);
        self.current_hp = self.max_hp;
        self.max_mp = sat_add(self.max_mp, 5);
        self.current_mp = self.max_mp;
        self.base_atk = sat_add(self.base_atk, 2);
        self.base_def = sat_add(self.base_def, 1);
    }

    /// Receives `amount` gold.
    pub fn add_gold(&mut self, amount: i32)
        ensures
            *final(self) == old(self).with_gold(amount),
    {
        self.gold = sat_add(self.gold, amount);
    }

    /// Gives up `amount` gold; what is left is never below zero.
    pub fn take_gold(&mut self, amount: i32)
        ensures
            *final(self) == old(self).without_gold(amount),
            final(self).gold >= 0,
    {
        let rest = sat_sub(self.gold, amount);
        self.gold = if rest >= 0 {
            rest
        } else {
            0
        };
    }

    /// Sets hit points and magic points to their maximum.
    pub fn restore(&mut self)
        ensures
            *final(self) == old(self).restored(),
    {
        self.current_hp = self.max_hp;
        self.current_mp = self.max_mp;
    }
}

impl Default for PlayerStats {
    fn default() -> (r: Self)
        ensures
            r == PlayerStats::initial(),
    {
        PlayerStats {
            level: 1,
            exp: 0,
            exp_to_next: 100,
            max_hp: 50,
            current_hp: 50,
            max_mp: 20,
            current_mp: 20,
            base_atk: 10,
            base_def: 5,
            gold: 0,
        }
    }
}

/// The model of an optional string.
pub open spec fn opt_text(o: Option<String>) -> Option<Seq<char>> {
    match o {
        Some(s) => Some(s@),
        None => None,
    }
}

/// What a non-player character does.
#[derive(Debug, Clone, Copy, PartialEq, Eq, Structural)]
pub enum NpcType {
    Villager,
    ShopKeeper,
    QuestGiver,
    Healer,
}

/// A non-player character standing on a map.
#[derive(Debug)]
pub struct Npc {
    pub name: String,
    pub map_id: String,
    pub x: usize,
    pub y: usize,
    pub npc_type: NpcType,
    pub dialog_id: String,
    pub shop_id: Option<String>,
}

/// Model of an [`Npc`].
pub struct NpcView {
    pub name: Seq<char>,
    pub map_id: Seq<char>,
    pub x: usize,
    pub y: usize,
    pub npc_type: NpcType,
    pub dialog_id: Seq<char>,
    pub shop_id: Option<Seq<char>>,
}

impl View for Npc {
    type V = NpcView;

    open spec fn view(&self) -> NpcView {
        NpcView {
            name: self.name@,
            map_id: self.map_id@,
            x: self.x,
            y: self.y,
            npc_type: self.npc_type,
            dialog_id: self.dialog_id@,
            shop_id: opt_text(self.shop_id),
        }
    }
}

impl Clone for Npc {
    fn clone(&self) -> (r: Self)
        ensures
            r == *self,
    {
        Npc {
            name: self.name.clone(),
            map_id: self.map_id.clone(),
            x: self.x,
            y: self.y,
            npc_type: self.npc_type,
            dialog_id: self.dialog_id.clone(),
            shop_id: match &self.shop_id {
                Some(s) => Some(s.clone()),
                None => None,
            },
        }
    }
}

/// What must hold of the player for a dialog line to be shown.
#[derive(Debug)]
pub enum DialogCondition {
    HasQuest(String),
    QuestComplete(String),
    HasItem(String),
    HasGold(i32),
}

/// Model of a [`DialogCondition`].
pub enum DialogConditionView {
    HasQuest(Seq<char>),
    QuestComplete(Seq<char>),
    HasItem(Seq<char>),
    HasGold(i32),
}

impl View for DialogCondition {
    type V = DialogConditionView;

    open spec fn view(&self) -> DialogConditionView {
        match *self {
            DialogCondition::HasQuest(id) => DialogConditionView::HasQuest(id@),
            DialogCondition::QuestComplete(id) => DialogConditionView::QuestComplete(id@),
            DialogCondition::HasItem(id) => DialogConditionView::HasItem(id@),
            DialogCondition::HasGold(n) => DialogConditionView::HasGold(n),
        }
    }
}

impl Clone for DialogCondition {
    fn clone(&self) -> (r: Self)
        ensures
            r == *self,
    {
        match self {
            DialogCondition::HasQuest(id) => DialogCondition::HasQuest(id.clone()),
            DialogCondition::QuestComplete(id) => DialogCondition::QuestComplete(id.clone()),
            DialogCondition::HasItem(id) => DialogCondition::HasItem(id.clone()),
            DialogCondition::HasGold(n) => DialogCondition::HasGold(*n),
        }
    }
}

/// What acknowledging a dialog line does.
#[derive(Debug)]
pub enum DialogAction {
    GiveQuest(String),
    CompleteQuest(String),
    GiveItem(String),
    TakeItem(String),
    GiveGold(i32),
    TakeGold(i32),
    OpenShop(String),
    Heal,
}

/// Model of a [`DialogAction`].
pub enum DialogActionView {
    GiveQuest(Seq<char>),
    CompleteQuest(Seq<char>),
    GiveItem(Seq<char>),
    TakeItem(Seq<char>),
    GiveGold(i32),
    TakeGold(i32),
    OpenShop(Seq<char>),
    Heal,
}

impl View for DialogAction {
    type V = DialogActionView;

    open spec fn view(&self) -> DialogActionView {
        match *self {
            DialogAction::GiveQuest(id) => DialogActionView::GiveQuest(id@),
            DialogAction::CompleteQuest(id) => DialogActionView::CompleteQuest(id@),
            DialogAction::GiveItem(id) => DialogActionView::GiveItem(id@),
            DialogAction::TakeItem(id) => DialogActionView::TakeItem(id@),
            DialogAction::GiveGold(n) => DialogActionView::GiveGold(n),
            DialogAction::TakeGold(n) => DialogActionView::TakeGold(n),
            DialogAction::OpenShop(id) => DialogActionView::OpenShop(id@),
            DialogAction::Heal => DialogActionView::Heal,
        }
    }
}

impl Clone for DialogAction {
    fn clone(&self) -> (r: Self)
        ensures
            r == *self,
    {
        match self {
            DialogAction::GiveQuest(id) => DialogAction::GiveQuest(id.clone()),
            DialogAction::CompleteQuest(id) => DialogAction::CompleteQuest(id.clone()),
            DialogAction::GiveItem(id) => DialogAction::GiveItem(id.clone()),
            DialogAction::TakeItem(id) => DialogAction::TakeItem(id.clone()),
            DialogAction::GiveGold(n) => DialogAction::GiveGold(*n),
            DialogAction::TakeGold(n) => DialogAction::TakeGold(*n),
            DialogAction::OpenShop(id) => DialogAction::OpenShop(id.clone()),
            DialogAction::Heal => DialogAction::Heal,
        }
    }
}

/// One line of a dialog.
#[derive(Debug)]
pub struct DialogLine {
    pub text: String,
    pub condition: Option<DialogCondition>,
    pub action: Option<DialogAction>,
}

/// Model of a [`DialogLine`].
pub struct DialogLineView {
    pub text: Seq<char>,
    pub condition: Option<DialogConditionView>,
    pub action: Option<DialogActionView>,
}

impl View for DialogLine {
    type V = DialogLineView;

    open spec fn view(&self) -> DialogLineView {
        DialogLineView {
            text: self.text@,
            condition: match self.condition {
                Some(c) => Some(c@),
                None => None,
            },
            action: match self.action {
                Some(a) => Some(a@),
                None => None,
            },
        }
    }
}

impl Clone for DialogLine {
    fn clone(&self) -> (r: Self)
        ensures
            r == *self,
    {
        DialogLine {
            text: self.text.clone(),
            condition: match &self.condition {
                Some(c) => Some(c.clone()),
                None => None,
            },
            action: match &self.action {
                Some(a) => Some(a.clone()),
                None => None,
            },
        }
    }
}

/// A copy of a list of dialog lines.
pub fn clone_lines(lines: &Vec<DialogLine>) -> (r: Vec<DialogLine>)
    ensures
        r@ == lines@,
{
    let mut r: Vec<DialogLine> = Vec::new();
    let mut i: usize = 0;
    while i < lines.len()
        invariant
            i <= lines.len(),
            r@ == lines@.take(i as int),
        decreases lines.len() - i,
    {
        r.push(lines[i].clone());
        i += 1;
    }
    r
}

/// A dialog: an identifier and its lines in order.
#[derive(Debug)]
pub struct Dialog {
    pub id: String,
    pub lines: Vec<DialogLine>,
}

/// Model of a [`Dialog`].
pub struct DialogView {
    pub id: Seq<char>,
    pub lines: Seq<DialogLineView>,
}

impl View for Dialog {
    type V = DialogView;

    open spec fn view(&self) -> DialogView {
        DialogView { id: self.id@, lines: views(self.lines@) }
    }
}

impl Clone for Dialog {
    fn clone(&self) -> (r: Self)
        ensures
            r@ == self@,
    {
        Dialog { id: self.id.clone(), lines: clone_lines(&self.lines) }
    }
}

/// How a quest is fulfilled.
#[derive(Debug, Clone, Copy, PartialEq, Eq, Structural)]
pub enum QuestType {
    Kill,
    Collect,
    Talk,
    Reach,
}

/// A quest template.
#[derive(Debug)]
pub struct Quest {
    pub id: String,
    pub name: String,
    pub description: String,
    pub quest_type: QuestType,
    pub target_id: String,
    pub target_count: i32,
    pub reward_exp: i32,
    pub reward_gold: i32,
    pub reward_item: Option<String>,
}

/// Model of a [`Quest`].
pub struct QuestView {
    pub id: Seq<char>,
    pub name: Seq<char>,
    pub description: Seq<char>,
    pub quest_type: QuestType,
    pub target_id: Seq<char>,
    pub target_count: i32,
    pub reward_exp: i32,
    pub reward_gold: i32,
    pub reward_item: Option<Seq<char>>,
}

impl View for Quest {
    type V = QuestView;

    open spec fn view(&self) -> QuestView {
        QuestView {
            id: self.id@,
            name: self.name@,
            description: self.description@,
            quest_type: self.quest_type,
            target_id: self.target_id@,
            target_count: self.target_count,
            reward_exp: self.reward_exp,
            reward_gold: self.reward_gold,
            reward_item: opt_text(self.reward_item),
        }
    }
}

impl Clone for Quest {
    fn clone(&self) -> (r: Self)
        ensures
            r == *self,
    {
        Quest {
            id: self.id.clone(),
            name: self.name.clone(),
            description: self.description.clone(),
            quest_type: self.quest_type,
            target_id: self.target_id.clone(),
            target_count: self.target_count,
            reward_exp: self.reward_exp,
            reward_gold: self.reward_gold,
            reward_item: match &self.reward_item {
                Some(s) => Some(s.clone()),
                None => None,
            },
        }
    }
}

/// How far the player has got with one quest.
#[derive(Debug)]
pub struct QuestProgress {
    pub quest_id: String,
    pub current_count: i32,
    pub completed: bool,
    pub rewarded: bool,
}

/// Model of a [`QuestProgress`].
pub struct QuestProgressView {
    pub quest_id: Seq<char>,
    pub current_count: i32,
    pub completed: bool,
    pub rewarded: bool,
}

impl View for QuestProgress {
    type V = QuestProgressView;

    open spec fn view(&self) -> QuestProgressView {
        QuestProgressView {
            quest_id: self.quest_id@,
            current_count: self.current_count,
            completed: self.completed,
            rewarded: self.rewarded,
        }
    }
}

impl Clone for QuestProgress {
    fn clone(&self) -> (r: Self)
        ensures
            r == *self,
    {
        QuestProgress {
            quest_id: self.quest_id.clone(),
            current_count: self.current_count,
            completed: self.completed,
            rewarded: self.rewarded,
        }
    }
}

impl Default for QuestProgress {
    fn default() -> (r: Self)
        ensures
            r@ == (QuestProgressView {
                quest_id: Seq::empty(),
                current_count: 0,
                completed: false,
                rewarded: false,
            }),
    {
        QuestProgress { quest_id: String::new(), current_count: 0, completed: false, rewarded: false }
    }
}

/// A shop: the identifiers of the items it sells.
#[derive(Debug)]
pub struct Shop {
    pub id: String,
    pub name: String,
    pub items: Vec<String>,
}

/// Model of a [`Shop`].
pub struct ShopView {
    pub id: Seq<char>,
    pub name: Seq<char>,
    pub items: Seq<Seq<char>>,
}

impl View for Shop {
    type V = ShopView;

    open spec fn view(&self) -> ShopView {
        ShopView { id: self.id@, name: self.name@, items: views(self.items@) }
    }
}

impl Clone for Shop {
    fn clone(&self) -> (r: Self)
        ensures
            r@ == self@,
    {
        let mut items: Vec<String> = Vec::new();
        let mut i: usize = 0;
        while i < self.items.len()
            invariant
                i <= self.items.len(),
                items@ == self.items@.take(i as int),
            decreases self.items.len() - i,
        {
            items.push(self.items[i].clone());
            i += 1;
        }
        assert(items@ == self.items@);
        Shop { id: self.id.clone(), name: self.name.clone(), items }
    }
}

} // verus!
