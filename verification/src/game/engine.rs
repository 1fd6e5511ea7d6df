//! The game state machine: one state is active, each key press goes to the
//! handler of that state, and each tick advances combat.
//!
//! The machine does no input or output itself. Where a key press calls for
//! the saved game to be written, read or looked for, or for the program to
//! end, the handler returns a [`Request`] that the caller carries out.

pub mod laws;
pub mod play;

use crate::data::lookup::{first_true, lookup};
use crate::data::types::{
    views, Dialog, DialogActionView, DialogView, Enemy, EnemyView, GameMap, GameMapView, Item,
    ItemView, Npc, NpcType, NpcView, PlayerStats, Quest, QuestProgressView, QuestType, QuestView,
    Shop, ShopView,
};
use crate::game::combat::{CombatSystem, CombatView};
use crate::game::dialog::shown_lines;
use crate::game::explore::{tile_event, TileEventView};
use crate::game::inventory::InventoryState;
use crate::game::player::{Player, PlayerView};
use crate::game::save::loaded;
use crate::game::state::{
    DialogStateView, GameState, GameStateView, MenuState, ShopMode, ShopStateView,
};
use crate::num::{clamp_i32, offset};
use vstd::prelude::*;

verus! {

/// A key of the device.
#[derive(Debug, Clone, Copy, PartialEq, Eq, Structural)]
pub enum Key {
    Up,
    Down,
    Left,
    Right,
    Confirm,
    Cancel,
    Key0,
    Key1,
    Key2,
    Key3,
    Other,
}

/// What the caller has to do after a key press.
#[derive(Debug, Clone, Copy, PartialEq, Eq, Structural)]
pub enum Request {
    /// Nothing.
    Nothing,
    /// End the program.
    Exit,
    /// Write the saved game.
    Save,
    /// Write the saved game, then open the menu with
    /// [`RpgGame::open_menu`], saying whether a saved game exists.
    SaveAndOpenMenu,
    /// Read the saved game and hand it to [`RpgGame::continue_game`].
    Load,
    /// Open the menu with [`RpgGame::open_menu`], saying whether a saved
    /// game exists.
    OpenMenu,
}

/// The step that an arrow key asks for.
pub open spec fn step_of(key: Key) -> Option<(i32, i32)> {
    match key {
        Key::Up => Some((0i32, -1i32)),
        Key::Down => Some((0i32, 1i32)),
        Key::Left => Some((-1i32, 0i32)),
        Key::Right => Some((1i32, 0i32)),
        _ => None,
    }
}

/// The items that the identifiers `ids` name among `items`, in order;
/// an identifier that names none is passed over.
pub open spec fn resolved(ids: Seq<Seq<char>>, items: Seq<ItemView>) -> Seq<ItemView>
    decreases ids.len(),
{
    if ids.len() == 0 {
        Seq::empty()
    } else {
        match lookup::<Item>(items, ids.last()) {
            Some(item) => resolved(ids.drop_last(), items).push(item),
            None => resolved(ids.drop_last(), items),
        }
    }
}

/// The progress `entry` after an enemy known by `killed` fell: where the
/// entry is neither completed nor rewarded and its quest asks for kills of
/// that enemy, the count goes up by one, and the entry is completed once
/// the count reaches the quest's target.
pub open spec fn kill_counted(
    entry: QuestProgressView,
    quests: Seq<QuestView>,
    killed: Seq<char>,
) -> QuestProgressView {
    if entry.completed || entry.rewarded {
        entry
    } else {
        match lookup::<Quest>(quests, entry.quest_id) {
            Some(quest) => if quest.quest_type == QuestType::Kill && quest.target_id == killed {
                let count = clamp_i32(entry.current_count + 1);
                QuestProgressView {
                    current_count: count,
                    completed: count >= quest.target_count,
                    ..entry
                }
            } else {
                entry
            },
            None => entry,
        }
    }
}

/// The position of the first of `npcs` that stands at `(x, y)` of the map
/// `map_id`.
pub open spec fn npc_position(npcs: Seq<NpcView>, map_id: Seq<char>, x: usize, y: usize) -> Option<
    int,
> {
    first_true(
        Seq::new(npcs.len(), |i: int| npcs[i].map_id == map_id && npcs[i].x == x && npcs[i].y == y),
    )
}

/// The game: the active state, the player, the content, and combat.
pub struct RpgGame {
    pub state: GameState,
    pub player: Player,
    pub items: Vec<Item>,
    pub enemies: Vec<Enemy>,
    pub maps: Vec<GameMap>,
    pub npcs: Vec<Npc>,
    pub dialogs: Vec<Dialog>,
    pub quests: Vec<Quest>,
    pub shops: Vec<Shop>,
    pub inventory_state: InventoryState,
    pub combat: CombatSystem,
}

/// Model of an [`RpgGame`].
pub struct GameView {
    pub state: GameStateView,
    pub player: PlayerView,
    pub items: Seq<ItemView>,
    pub enemies: Seq<EnemyView>,
    pub maps: Seq<GameMapView>,
    pub npcs: Seq<NpcView>,
    pub dialogs: Seq<DialogView>,
    pub quests: Seq<QuestView>,
    pub shops: Seq<ShopView>,
    pub inventory_state: InventoryState,
    pub combat: CombatView,
}

impl View for RpgGame {
    type V = GameView;

    open spec fn view(&self) -> GameView {
        GameView {
            state: self.state@,
            player: self.player@,
            items: views(self.items@),
            enemies: views(self.enemies@),
            maps: views(self.maps@),
            npcs: views(self.npcs@),
            dialogs: views(self.dialogs@),
            quests: views(self.quests@),
            shops: views(self.shops@),
            inventory_state: self.inventory_state,
            combat: self.combat@,
        }
    }
}

impl GameView {
    /// The game as it starts: in the menu, with a new player called Hero
    /// bound for the village.
    pub open spec fn initial(
        items: Seq<ItemView>,
        enemies: Seq<EnemyView>,
        maps: Seq<GameMapView>,
        npcs: Seq<NpcView>,
        dialogs: Seq<DialogView>,
        quests: Seq<QuestView>,
        shops: Seq<ShopView>,
        has_save: bool,
    ) -> GameView {
        GameView {
            state: GameStateView::Menu(MenuState { selected: 0, has_save }),
            player: PlayerView::initial("Hero"@, "village"@),
            items,
            enemies,
            maps,
            npcs,
            dialogs,
            quests,
            shops,
            inventory_state: InventoryState { selected: 0, scroll: 0 },
            combat: CombatView::initial(),
        }
    }

    /// The map the player is on, if the content has it.
    pub open spec fn current_map(self) -> Option<GameMapView> {
        lookup::<GameMap>(self.maps, self.player.current_map_id)
    }

    /// The game with `item` in the player's inventory.
    pub open spec fn granted(self, item: Option<ItemView>) -> GameView {
        match item {
            Some(i) => GameView { player: self.player.with_item(i), ..self },
            None => self,
        }
    }

    /// The game after a new game was started: a new player who owns and
    /// wears the wooden sword and the cloth and owns two potions, as far as
    /// the content has them, at the start of the village with its enemies
    /// about, ready to explore.
    #[verifier::opaque]
    pub open spec fn new_game(self) -> GameView {
        let fresh = PlayerView::initial("Hero"@, "village"@);
        let armed = match lookup::<Item>(self.items, "wooden_sword"@) {
            Some(sword) => PlayerView {
                equipped_weapon: Some(fresh.inventory.len() as usize),
                ..fresh.with_item(sword)
            },
            None => fresh,
        };
        let clothed = match lookup::<Item>(self.items, "cloth"@) {
            Some(cloth) => PlayerView {
                equipped_armor: Some(armed.inventory.len() as usize),
                ..armed.with_item(cloth)
            },
            None => armed,
        };
        let stocked = match lookup::<Item>(self.items, "potion"@) {
            Some(potion) => clothed.with_item(potion).with_item(potion),
            None => clothed,
        };
        match lookup::<GameMap>(self.maps, "village"@) {
            Some(map) => GameView {
                player: stocked.spawned_at(map),
                combat: self.combat.respawned(map, self.enemies),
                state: GameStateView::Explore,
                ..self
            },
            None => GameView { player: stocked, state: GameStateView::Explore, ..self },
        }
    }

    /// The game after a saved game was asked for. With the text `data` of
    /// one, a new player is what the text makes of it, the enemies of the
    /// player's map are about, and the game is ready to explore; without
    /// one, a new game starts.
    #[verifier::opaque]
    pub open spec fn continued(self, data: Option<Seq<char>>) -> GameView {
        match data {
            Some(text) => {
                let player = loaded(PlayerView::initial("Hero"@, "village"@), text);
                let g = GameView { player, state: GameStateView::Explore, ..self };
                match g.current_map() {
                    Some(map) => GameView { combat: self.combat.respawned(map, self.enemies), ..g },
                    None => g,
                }
            },
            None => self.new_game(),
        }
    }

    /// The game in the menu, the cursor on its first entry.
    pub open spec fn in_menu(self, has_save: bool) -> GameView {
        GameView { state: GameStateView::Menu(MenuState { selected: 0, has_save }), ..self }
    }

    /// The game in the state `state`.
    pub open spec fn in_state(self, state: GameStateView) -> GameView {
        GameView { state, ..self }
    }

    /// The game after the player went to the map `target`: at its start
    /// tile, with its enemies about. A map that the content lacks changes
    /// nothing.
    #[verifier::opaque]
    pub open spec fn map_changed(self, target: Seq<char>) -> GameView {
        match lookup::<GameMap>(self.maps, target) {
            Some(map) => GameView {
                player: self.player.spawned_at(map),
                combat: self.combat.respawned(map, self.enemies),
                ..self
            },
            None => self,
        }
    }

    /// The game after the player stepped on a treasure tile: the first
    /// time a potion is gained, if the content has one, and the treasure is
    /// noted as opened; after that nothing.
    #[verifier::opaque]
    pub open spec fn treasure_taken(self) -> GameView {
        let p = self.player;
        if p.treasure_opened(p.current_map_id, p.x, p.y) {
            self
        } else {
            let g = self.granted(lookup::<Item>(self.items, "potion"@));
            GameView { player: g.player.with_treasure(p.current_map_id, p.x, p.y), ..g }
        }
    }

    /// The game after the tile under the player had its effect: a treasure
    /// is taken, and an exit or a dungeon entrance with a target that is
    /// not empty leads to that map.
    #[verifier::opaque]
    pub open spec fn tile_events(self) -> GameView {
        match self.current_map() {
            Some(map) => match tile_event(map, self.player.x, self.player.y) {
                Some(TileEventView::MapExit(target)) => if target.len() > 0 {
                    self.map_changed(target)
                } else {
                    self
                },
                Some(TileEventView::DungeonEntrance(target)) => if target.len() > 0 {
                    self.map_changed(target)
                } else {
                    self
                },
                Some(TileEventView::Treasure) => self.treasure_taken(),
                _ => self,
            },
            None => self,
        }
    }

    /// The game after the player tried a step of `(dx, dy)`: the player
    /// faces that way, and where the cell there can be walked on and no
    /// enemy alive stands on it the player moves and the tile there has
    /// its effect.
    #[verifier::opaque]
    pub open spec fn walked(self, dx: i32, dy: i32) -> GameView {
        let turned = GameView { player: self.player.turned(dx, dy), ..self };
        match turned.current_map() {
            Some(map) => if turned.player.can_move(map, dx, dy) && !turned.combat.enemy_at(
                offset(turned.player.x, dx)->0,
                offset(turned.player.y, dy)->0,
            ) {
                (GameView { player: turned.player.moved_by(dx, dy), ..turned }).tile_events()
            } else {
                turned
            },
            None => turned,
        }
    }

    /// The first character at `(x, y)` of the player's map.
    pub open spec fn npc_at(self, x: usize, y: usize) -> Option<NpcView> {
        match npc_position(self.npcs, self.player.current_map_id, x, y) {
            Some(i) => Some(self.npcs[i]),
            None => None,
        }
    }

    /// The shop a shopkeeper keeps: the one it names, else the first.
    pub open spec fn shop_of(self, npc: NpcView) -> Option<ShopView> {
        let named = match npc.shop_id {
            Some(id) => lookup::<Shop>(self.shops, id),
            None => None,
        };
        match named {
            Some(shop) => Some(shop),
            None => if self.shops.len() > 0 {
                Some(self.shops[0])
            } else {
                None
            },
        }
    }

    /// The game in a visit to `shop`.
    #[verifier::opaque]
    pub open spec fn in_shop(self, shop: ShopView) -> GameView {
        GameView {
            state: GameStateView::Shop(ShopStateView::opened(shop, resolved(shop.items, self.items))),
            ..self
        }
    }

    /// The game after the dialog of `npc` was opened: a session on what
    /// the player gets to see of it, if that is any line at all.
    #[verifier::opaque]
    pub open spec fn talked_to(self, npc: NpcView) -> GameView {
        match lookup::<Dialog>(self.dialogs, npc.dialog_id) {
            Some(dialog) => {
                let lines = shown_lines(dialog.lines, self.player);
                if lines.len() > 0 {
                    GameView {
                        state: GameStateView::Dialog(DialogStateView::started(npc.name, lines)),
                        ..self
                    }
                } else {
                    self
                }
            },
            None => self,
        }
    }

    /// The game after the player turned to the character faced, if there
    /// is one: a healer restores the player, a shopkeeper with a shop
    /// opens it, and everyone else, the healer too, opens their dialog.
    #[verifier::opaque]
    pub open spec fn interacted(self) -> GameView {
        let cell = self.player.facing.target(self.player.x, self.player.y);
        match self.npc_at(cell.0, cell.1) {
            Some(npc) => {
                let g = if npc.npc_type == NpcType::Healer {
                    GameView {
                        player: PlayerView { stats: self.player.stats.restored(), ..self.player },
                        ..self
                    }
                } else {
                    self
                };
                let shop = if npc.npc_type == NpcType::ShopKeeper {
                    self.shop_of(npc)
                } else {
                    None
                };
                match shop {
                    Some(s) => g.in_shop(s),
                    None => g.talked_to(npc),
                }
            },
            None => self,
        }
    }

    /// The game after an enemy known by `killed` fell: the player's quests
    /// count it.
    #[verifier::opaque]
    pub open spec fn kill_noted(self, killed: Seq<char>) -> GameView {
        GameView {
            player: PlayerView {
                quests: Seq::new(
                    self.player.quests.len(),
                    |i: int| kill_counted(self.player.quests[i], self.quests, killed),
                ),
                ..self.player
            },
            ..self
        }
    }

    /// The game after the player struck: the blow lands in combat, and a
    /// kill earns its experience and gold and is counted by the quests.
    #[verifier::opaque]
    pub open spec fn struck(self) -> GameView {
        let p = self.player;
        let combat = self.combat.attacked(p.x, p.y, p.total_atk(), p.facing);
        match self.combat.kill_reward(p.x, p.y, p.total_atk(), p.facing) {
            Some(reward) => (GameView {
                combat,
                player: PlayerView { stats: p.stats.with_exp(reward.exp).with_gold(reward.gold), ..p },
                ..self
            }).kill_noted(reward.enemy_id),
            None => GameView { combat, ..self },
        }
    }

    /// The game after the confirm key while exploring: the player turns to
    /// the character faced; where that opens neither a dialog nor a shop,
    /// the player strikes.
    #[verifier::opaque]
    pub open spec fn confirmed(self) -> GameView {
        let g = self.interacted();
        match g.state {
            GameStateView::Dialog(_) => g,
            GameStateView::Shop(_) => g,
            _ => g.struck(),
        }
    }

    /// The game and the request after a key while exploring.
    #[verifier::opaque]
    pub open spec fn explore_key(self, key: Key) -> (GameView, Request) {
        match key {
            Key::Up | Key::Down | Key::Left | Key::Right => {
                let step = step_of(key)->0;
                (self.walked(step.0, step.1), Request::Nothing)
            },
            Key::Confirm => (self.confirmed(), Request::Nothing),
            Key::Key1 => (
                GameView {
                    inventory_state: InventoryState { selected: 0, scroll: 0 },
                    state: GameStateView::Inventory,
                    ..self
                },
                Request::Nothing,
            ),
            Key::Key2 => (self.in_state(GameStateView::Stats), Request::Nothing),
            Key::Key3 => (self.in_state(GameStateView::QuestLog), Request::Nothing),
            Key::Key0 => (self, Request::Save),
            Key::Cancel => (self, Request::SaveAndOpenMenu),
            Key::Other => (self, Request::Nothing),
        }
    }

    /// The game and the request after a key in the menu: the arrows move
    /// the cursor, and confirm starts a new game on the first entry, asks
    /// for the saved game on the second where there is one, and asks to
    /// end the program on the last.
    #[verifier::opaque]
    pub open spec fn menu_key(self, menu: MenuState, key: Key) -> (GameView, Request) {
        match key {
            Key::Up => (self.in_state(GameStateView::Menu(menu.moved_up())), Request::Nothing),
            Key::Down => (self.in_state(GameStateView::Menu(menu.moved_down())), Request::Nothing),
            Key::Confirm => if menu.selected == 0 {
                (self.new_game(), Request::Nothing)
            } else if menu.has_save && menu.selected == 1 {
                (self, Request::Load)
            } else {
                (self, Request::Exit)
            },
            _ => (self, Request::Nothing),
        }
    }

    /// The game after a key on the inventory screen: the arrows move the
    /// cursor, confirm uses the item under it, back returns to exploring.
    #[verifier::opaque]
    pub open spec fn inventory_key(self, key: Key) -> GameView {
        match key {
            Key::Up => GameView { inventory_state: self.inventory_state.moved_up(), ..self },
            Key::Down => GameView {
                inventory_state: self.inventory_state.moved_down(
                    self.player.inventory.len() as usize,
                ),
                ..self
            },
            Key::Confirm => GameView {
                player: self.player.item_used(self.inventory_state.selected),
                ..self
            },
            Key::Cancel => self.in_state(GameStateView::Explore),
            _ => self,
        }
    }

    /// The game after a key on a screen that only closes: confirm and back
    /// return to exploring.
    pub open spec fn closing_key(self, key: Key) -> GameView {
        match key {
            Key::Confirm | Key::Cancel => self.in_state(GameStateView::Explore),
            _ => self,
        }
    }

    /// The game and the request after a key when the game is over: confirm
    /// asks for the menu, back returns to exploring.
    pub open spec fn gameover_key(self, key: Key) -> (GameView, Request) {
        match key {
            Key::Confirm => (self, Request::OpenMenu),
            Key::Cancel => (self.in_state(GameStateView::Explore), Request::Nothing),
            _ => (self, Request::Nothing),
        }
    }

    /// The game after `action` took effect.
    ///
    /// Completing a quest that the content has pays its experience and
    /// gold, gives its reward item if the content has it, and marks the
    /// player's entry as rewarded, whether the entry is completed or not;
    /// a player who was rewarded for the quest before gets nothing more.
    #[verifier::opaque]
    pub open spec fn acted(self, action: DialogActionView) -> GameView {
        let p = self.player;
        match action {
            DialogActionView::GiveQuest(id) => GameView { player: p.with_quest(id), ..self },
            DialogActionView::CompleteQuest(id) => match lookup::<Quest>(self.quests, id) {
                Some(quest) => if p.was_rewarded(id) {
                    self
                } else {
                    let paid = GameView {
                        player: PlayerView {
                            stats: p.stats.with_exp(quest.reward_exp).with_gold(quest.reward_gold),
                            ..p
                        },
                        ..self
                    };
                    let given = match quest.reward_item {
                        Some(item_id) => paid.granted(lookup::<Item>(self.items, item_id)),
                        None => paid,
                    };
                    GameView { player: given.player.quest_rewarded(id), ..given }
                },
                None => self,
            },
            DialogActionView::GiveItem(id) => self.granted(lookup::<Item>(self.items, id)),
            DialogActionView::TakeItem(id) => GameView { player: p.without_item(id), ..self },
            DialogActionView::GiveGold(amount) => GameView {
                player: PlayerView { stats: p.stats.with_gold(amount), ..p },
                ..self
            },
            DialogActionView::TakeGold(amount) => GameView {
                player: PlayerView { stats: p.stats.without_gold(amount), ..p },
                ..self
            },
            DialogActionView::OpenShop(id) => match lookup::<Shop>(self.shops, id) {
                Some(shop) => self.in_shop(shop),
                None => self,
            },
            DialogActionView::Heal => GameView {
                player: PlayerView { stats: p.stats.restored(), ..p },
                ..self
            },
        }
    }

    /// The game after the action of the dialog line shown took effect, if
    /// the line has one.
    #[verifier::opaque]
    pub open spec fn dialog_acted(self) -> GameView {
        match self.state {
            GameStateView::Dialog(session) => match session.current_action() {
                Some(action) => self.acted(action),
                None => self,
            },
            _ => self,
        }
    }

    /// The game after a key in a dialog: confirm lets the action of the
    /// line shown take effect and, unless that opened a shop, shows the
    /// next line or, after the last, returns to exploring; back returns to
    /// exploring.
    #[verifier::opaque]
    pub open spec fn dialog_key(self, key: Key) -> GameView {
        match key {
            Key::Confirm => {
                let g = self.dialog_acted();
                match g.state {
                    GameStateView::Dialog(session) => if session.has_next() {
                        g.in_state(GameStateView::Dialog(session.advanced()))
                    } else {
                        g.in_state(GameStateView::Explore)
                    },
                    _ => g,
                }
            },
            Key::Cancel => self.in_state(GameStateView::Explore),
            _ => self,
        }
    }

    /// The game after the item of the shop under the cursor was bought, if
    /// there is one and the player's gold suffices.
    pub open spec fn bought(self, shop: ShopStateView) -> GameView {
        if shop.selected < shop.items.len() {
            let item = shop.items[shop.selected as int];
            if self.player.stats.gold >= item.price {
                GameView {
                    player: (PlayerView {
                        stats: PlayerStats {
                            gold: clamp_i32(self.player.stats.gold - item.price),
                            ..self.player.stats
                        },
                        ..self.player
                    }).with_item(item),
                    ..self
                }
            } else {
                self
            }
        } else {
            self
        }
    }

    /// The game after the inventory item under the cursor was sold, if
    /// there is one: half its price, rounded down, is gained, the item is
    /// gone, and a cursor left behind the last item goes back by one.
    pub open spec fn sold(self, shop: ShopStateView) -> GameView {
        if shop.selected < self.player.inventory.len() {
            let item = self.player.inventory[shop.selected as int];
            let player = (PlayerView {
                stats: self.player.stats.with_gold((item.price / 2) as i32),
                ..self.player
            }).without_item_at(shop.selected);
            let selected = if shop.selected >= player.inventory.len() && shop.selected > 0 {
                (shop.selected - 1) as usize
            } else {
                shop.selected
            };
            GameView {
                player,
                state: GameStateView::Shop(ShopStateView { selected, ..shop }),
                ..self
            }
        } else {
            self
        }
    }

    /// The game after a key in a shop.
    #[verifier::opaque]
    pub open spec fn shop_key(self, shop: ShopStateView, key: Key) -> GameView {
        match shop.mode {
            ShopMode::Select => match key {
                Key::Up => self.in_state(GameStateView::Shop(shop.moved_up())),
                Key::Down => self.in_state(GameStateView::Shop(shop.moved_down(2))),
                Key::Confirm => self.in_state(
                    GameStateView::Shop(
                        shop.in_mode(
                            if shop.selected == 0 {
                                ShopMode::Buy
                            } else {
                                ShopMode::Sell
                            },
                        ),
                    ),
                ),
                Key::Cancel => self.in_state(GameStateView::Explore),
                _ => self,
            },
            ShopMode::Buy => match key {
                Key::Up => self.in_state(GameStateView::Shop(shop.moved_up())),
                Key::Down => self.in_state(
                    GameStateView::Shop(shop.moved_down(shop.items.len() as usize)),
                ),
                Key::Confirm => self.bought(shop),
                Key::Cancel => self.in_state(GameStateView::Shop(shop.in_mode(ShopMode::Select))),
                _ => self,
            },
            ShopMode::Sell => match key {
                Key::Up => self.in_state(GameStateView::Shop(shop.moved_up())),
                Key::Down => self.in_state(
                    GameStateView::Shop(shop.moved_down(self.player.inventory.len() as usize)),
                ),
                Key::Confirm => self.sold(shop),
                Key::Cancel => self.in_state(GameStateView::Shop(shop.in_mode(ShopMode::Select))),
                _ => self,
            },
        }
    }

    /// The game and the request after a key in the state it is in.
    pub open spec fn key_pressed(self, key: Key) -> (GameView, Request) {
        match self.state {
            GameStateView::Menu(menu) => self.menu_key(menu, key),
            GameStateView::Explore => self.explore_key(key),
            GameStateView::Inventory => (self.inventory_key(key), Request::Nothing),
            GameStateView::Stats => (self.closing_key(key), Request::Nothing),
            GameStateView::Dialog(_) => (self.dialog_key(key), Request::Nothing),
            GameStateView::Shop(shop) => (self.shop_key(shop, key), Request::Nothing),
            GameStateView::QuestLog => (self.closing_key(key), Request::Nothing),
            GameStateView::GameOver => self.gameover_key(key),
        }
    }

    /// The game after a tick: while exploring a map that the content has,
    /// combat advances and the damage done is taken, and a player without
    /// hit points ends the game.
    #[verifier::opaque]
    pub open spec fn ticked(self) -> GameView {
        match (self.state, self.current_map()) {
            (GameStateView::Explore, Some(map)) => {
                let p = self.player;
                let damage = self.combat.tick_damage(p.x, p.y, p.total_def(), map);
                let stats = if damage > 0 {
                    p.stats.damaged(damage)
                } else {
                    p.stats
                };
                GameView {
                    combat: self.combat.ticked(p.x, p.y, map),
                    player: PlayerView { stats, ..p },
                    state: if stats.current_hp <= 0 {
                        GameStateView::GameOver
                    } else {
                        GameStateView::Explore
                    },
                    ..self
                }
            },
            _ => self,
        }
    }
}

} // verus!
