//! The handlers of the state machine.

use crate::data::lookup::{find, lemma_first_true_none, lemma_first_true_some, lookup};
use crate::data::types::{
    lemma_views_push, views, Dialog, DialogAction, Enemy, GameMap, Item, Npc, NpcType,
    PlayerStats, Quest, QuestType, Shop,
};
use crate::game::combat::CombatSystem;
use crate::game::dialog::{filter_dialog, filtered};
use crate::game::engine::{kill_counted, resolved, GameView, Key, Request, RpgGame};
use crate::game::explore::{check_tile_event, TileEvent};
use crate::game::inventory::InventoryState;
use crate::game::player::{Player, PlayerView};
use crate::game::save::deserialize_save;
use crate::game::state::{DialogState, GameState, GameStateView, MenuState, ShopMode, ShopState};
use crate::num::{checked_offset, clamp_i32, floor_half_i32, sat_add, sat_sub};
use crate::text::str_eq;
use vstd::prelude::*;
use vstd::string::{StrSliceExecFns, StringExecFns};

verus! {

impl RpgGame {
    /// The game as it starts, in the menu, over the given content.
    /// `has_save` says whether a saved game exists.
    pub fn new(
        items: Vec<Item>,
        enemies: Vec<Enemy>,
        maps: Vec<GameMap>,
        npcs: Vec<Npc>,
        dialogs: Vec<Dialog>,
        quests: Vec<Quest>,
        shops: Vec<Shop>,
        has_save: bool,
    ) -> (r: Self)
        ensures
            r@ == GameView::initial(
                views(items@),
                views(enemies@),
                views(maps@),
                views(npcs@),
                views(dialogs@),
                views(quests@),
                views(shops@),
                has_save,
            ),
    {
        RpgGame {
            state: GameState::Menu(MenuState { selected: 0, has_save }),
            player: Player::new(String::from_str("Hero"), "village"),
            items,
            enemies,
            maps,
            npcs,
            dialogs,
            quests,
            shops,
            inventory_state: InventoryState::default(),
            combat: CombatSystem::new(),
        }
    }

    /// The map the player is on, if the content has it.
    pub fn current_map(&self) -> (r: Option<&GameMap>)
        ensures
            match r {
                Some(map) => self@.current_map() == Some(map@),
                None => self@.current_map() is None,
            },
    {
        match find(self.maps.as_slice(), self.player.current_map_id.as_str()) {
            Some(i) => Some(&self.maps[i]),
            None => None,
        }
    }

    /// Opens the menu. `has_save` says whether a saved game exists.
    pub fn open_menu(&mut self, has_save: bool)
        ensures
            final(self)@ == old(self)@.in_menu(has_save),
    {
        self.state = GameState::Menu(MenuState { selected: 0, has_save });
    }

    /// Puts a copy of the item known by `id` into the player's inventory,
    /// if the content has one, and says whether it has.
    fn grant(&mut self, id: &str) -> (found: bool)
        ensures
            final(self)@ == old(self)@.granted(lookup::<Item>(old(self)@.items, id@)),
            found == lookup::<Item>(old(self)@.items, id@).is_some(),
    {
        match find(self.items.as_slice(), id) {
            Some(i) => {
                let item = self.items[i].clone();
                self.player.add_item(item);
                true
            },
            None => false,
        }
    }

    /// Starts a new game.
    pub fn start_new_game(&mut self)
        ensures
            final(self)@ == old(self)@.new_game(),
    {
        proof {
            reveal(GameView::new_game);
        }
        self.player = Player::new(String::from_str("Hero"), "village");
        let at = self.player.inventory.len();
        if self.grant("wooden_sword") {
            self.player.equipped_weapon = Some(at);
        }
        let at = self.player.inventory.len();
        if self.grant("cloth") {
            self.player.equipped_armor = Some(at);
        }
        if self.grant("potion") {
            let _ = self.grant("potion");
        }
        match find(self.maps.as_slice(), "village") {
            Some(i) => {
                self.player.spawn_at_map(&self.maps[i]);
                self.combat.spawn_enemies(&self.maps[i], self.enemies.as_slice());
            },
            None => {},
        }
        self.state = GameState::Explore;
    }

    /// Continues the saved game `data`; starts a new game where there is
    /// none.
    pub fn continue_game(&mut self, data: Option<&str>)
        ensures
            final(self)@ == old(self)@.continued(
                match data {
                    Some(text) => Some(text@),
                    None => None,
                },
            ),
    {
        proof {
            reveal(GameView::continued);
        }
        match data {
            Some(text) => {
                self.player = Player::new(String::from_str("Hero"), "village");
                let _ = deserialize_save(text, &mut self.player);
                match find(self.maps.as_slice(), self.player.current_map_id.as_str()) {
                    Some(i) => {
                        self.combat.spawn_enemies(&self.maps[i], self.enemies.as_slice());
                    },
                    None => {},
                }
                self.state = GameState::Explore;
            },
            None => {
                self.start_new_game();
            },
        }
    }

    /// A key in the menu.
    pub fn handle_menu_input(&mut self, key: Key) -> (r: Request)
        ensures
            match old(self)@.state {
                GameStateView::Menu(menu) => (final(self)@, r) == old(self)@.menu_key(menu, key),
                _ => final(self)@ == old(self)@ && r == Request::Nothing,
            },
    {
        proof {
            reveal(GameView::menu_key);
        }
        let menu = match &self.state {
            GameState::Menu(menu) => *menu,
            _ => {
                return Request::Nothing;
            },
        };
        match key {
            Key::Up => {
                let mut m = menu;
                m.move_up();
                self.state = GameState::Menu(m);
                Request::Nothing
            },
            Key::Down => {
                let mut m = menu;
                m.move_down();
                self.state = GameState::Menu(m);
                Request::Nothing
            },
            Key::Confirm => {
                if menu.selected == 0 {
                    self.start_new_game();
                    Request::Nothing
                } else if menu.has_save && menu.selected == 1 {
                    Request::Load
                } else {
                    Request::Exit
                }
            },
            _ => Request::Nothing,
        }
    }

    /// The player goes to the map `target_id`.
    pub fn change_map(&mut self, target_id: &str)
        ensures
            final(self)@ == old(self)@.map_changed(target_id@),
    {
        proof {
            reveal(GameView::map_changed);
        }
        match find(self.maps.as_slice(), target_id) {
            Some(i) => {
                self.player.spawn_at_map(&self.maps[i]);
                self.combat.spawn_enemies(&self.maps[i], self.enemies.as_slice());
            },
            None => {},
        }
    }

    /// The player takes the treasure stood on, unless it was taken before.
    fn take_treasure(&mut self)
        ensures
            final(self)@ == old(self)@.treasure_taken(),
    {
        proof {
            reveal(GameView::treasure_taken);
        }
        let x = self.player.x;
        let y = self.player.y;
        let map_id = self.player.current_map_id.clone();
        if !self.player.is_treasure_opened(map_id.as_str(), x, y) {
            let _ = self.grant("potion");
            self.player.open_treasure(map_id.as_str(), x, y);
        }
    }

    /// The tile under the player has its effect.
    pub fn check_tile_events(&mut self)
        ensures
            final(self)@ == old(self)@.tile_events(),
    {
        proof {
            reveal(GameView::tile_events);
        }
        let event = match self.current_map() {
            Some(map) => check_tile_event(map, &self.player),
            None => None,
        };
        match event {
            Some(TileEvent::MapExit(target)) => {
                if target.as_str().unicode_len() > 0 {
                    self.change_map(target.as_str());
                }
            },
            Some(TileEvent::DungeonEntrance(target)) => {
                if target.as_str().unicode_len() > 0 {
                    self.change_map(target.as_str());
                }
            },
            Some(TileEvent::Treasure) => {
                self.take_treasure();
            },
            _ => {},
        }
    }

    /// The first character at `(x, y)` of the player's map.
    pub fn find_npc_at(&self, x: usize, y: usize) -> (r: Option<&Npc>)
        ensures
            match r {
                Some(npc) => self@.npc_at(x, y) == Some(npc@),
                None => self@.npc_at(x, y) is None,
            },
    {
        let ghost flags = Seq::new(
            self@.npcs.len(),
            |i: int|
                self@.npcs[i].map_id == self@.player.current_map_id && self@.npcs[i].x == x
                    && self@.npcs[i].y == y,
        );
        let mut i: usize = 0;
        while i < self.npcs.len()
            invariant
                i <= self.npcs.len(),
                flags == Seq::new(
                    self@.npcs.len(),
                    |i: int|
                        self@.npcs[i].map_id == self@.player.current_map_id && self@.npcs[i].x == x
                            && self@.npcs[i].y == y,
                ),
                forall|j: int| 0 <= j < i ==> !flags[j],
            decreases self.npcs.len() - i,
        {
            let npc = &self.npcs[i];
            if str_eq(npc.map_id.as_str(), self.player.current_map_id.as_str()) && npc.x == x
                && npc.y == y {
                proof {
                    lemma_first_true_some(flags, i as int);
                }
                return Some(npc);
            }
            i += 1;
        }
        proof {
            lemma_first_true_none(flags);
        }
        None
    }

    /// `dialog` reduced to the lines that the player gets to see.
    pub fn filter_dialog_lines(&self, dialog: &Dialog) -> (r: Dialog)
        ensures
            r@ == filtered(dialog@, self@.player),
    {
        filter_dialog(dialog, &self.player)
    }

    /// Opens a visit to the shop at `index` of the content's shops.
    fn open_shop(&mut self, index: usize)
        requires
            index < old(self).shops.len(),
        ensures
            final(self)@ == old(self)@.in_shop(old(self)@.shops[index as int]),
    {
        proof {
            reveal(GameView::in_shop);
        }
        let shop = self.shops[index].clone();
        let mut offered: Vec<Item> = Vec::new();
        let mut k: usize = 0;
        assert(views(offered@) =~= resolved(shop@.items.take(0), self@.items));
        while k < shop.items.len()
            invariant
                k <= shop.items.len(),
                *self == *old(self),
                views(offered@) == resolved(shop@.items.take(k as int), self@.items),
            decreases shop.items.len() - k,
        {
            proof {
                let ids = shop@.items;
                assert(ids.take(k + 1).drop_last() =~= ids.take(k as int));
                assert(ids.take(k + 1).last() == shop.items@[k as int]@);
            }
            match find(self.items.as_slice(), shop.items[k].as_str()) {
                Some(i) => {
                    let item = self.items[i].clone();
                    proof {
                        lemma_views_push(offered@, item);
                    }
                    offered.push(item);
                },
                None => {},
            }
            k += 1;
        }
        proof {
            let ids = shop@.items;
            assert(ids.take(ids.len() as int) =~= ids);
        }
        self.state = GameState::Shop(ShopState::new(shop, offered));
    }

    /// Opens the dialog of `npc`, if the player gets to see a line of it.
    fn talk_to(&mut self, npc: &Npc)
        ensures
            final(self)@ == old(self)@.talked_to(npc@),
    {
        proof {
            reveal(GameView::talked_to);
        }
        match find(self.dialogs.as_slice(), npc.dialog_id.as_str()) {
            Some(i) => {
                let shown = self.filter_dialog_lines(&self.dialogs[i]);
                if shown.lines.len() > 0 {
                    self.state = GameState::Dialog(DialogState::new(npc.name.clone(), &shown));
                }
            },
            None => {},
        }
    }

    /// The position of the shop that `npc` keeps: the one it names, else
    /// the first.
    fn shop_index_of(&self, npc: &Npc) -> (r: Option<usize>)
        ensures
            match r {
                Some(i) => i < self.shops.len() && self@.shop_of(npc@) == Some(self@.shops[i as int]),
                None => self@.shop_of(npc@) is None,
            },
    {
        let named = match &npc.shop_id {
            Some(id) => find(self.shops.as_slice(), id.as_str()),
            None => None,
        };
        match named {
            Some(i) => Some(i),
            None => if self.shops.len() > 0 {
                Some(0)
            } else {
                None
            },
        }
    }

    /// The player turns to the character faced.
    pub fn try_interact_with_npc(&mut self)
        ensures
            final(self)@ == old(self)@.interacted(),
    {
        proof {
            reveal(GameView::interacted);
        }
        let (tx, ty) = self.player.facing.apply(self.player.x, self.player.y);
        let npc = match self.find_npc_at(tx, ty) {
            Some(npc) => npc.clone(),
            None => {
                return ;
            },
        };
        let shop = match npc.npc_type {
            NpcType::ShopKeeper => self.shop_index_of(&npc),
            _ => None,
        };
        match npc.npc_type {
            NpcType::Healer => {
                self.player.stats.restore();
            },
            _ => {},
        }
        match shop {
            Some(i) => {
                self.open_shop(i);
            },
            None => {
                self.talk_to(&npc);
            },
        }
    }

    /// The player's quests count the fall of an enemy known by
    /// `killed_enemy_id`.
    pub fn update_kill_quest(&mut self, killed_enemy_id: &str)
        ensures
            final(self)@ == old(self)@.kill_noted(killed_enemy_id@),
    {
        proof {
            reveal(GameView::kill_noted);
        }
        let ghost before = old(self)@.player.quests;
        let mut i: usize = 0;
        while i < self.player.quests.len()
            invariant
                i <= self.player.quests.len(),
                self.player.quests.len() == before.len(),
                before == old(self)@.player.quests,
                forall|j: int|
                    0 <= j < i ==> (#[trigger] self.player.quests@[j])@ == kill_counted(
                        before[j],
                        self@.quests,
                        killed_enemy_id@,
                    ),
                forall|j: int| i <= j < before.len() ==> (#[trigger] self.player.quests@[j])@ == before[j],
                self.state == old(self).state,
                self.items == old(self).items,
                self.enemies == old(self).enemies,
                self.maps == old(self).maps,
                self.npcs == old(self).npcs,
                self.dialogs == old(self).dialogs,
                self.quests == old(self).quests,
                self.shops == old(self).shops,
                self.inventory_state == old(self).inventory_state,
                self.combat == old(self).combat,
                self.player.name == old(self).player.name,
                self.player.stats == old(self).player.stats,
                self.player.inventory == old(self).player.inventory,
                self.player.equipped_weapon == old(self).player.equipped_weapon,
                self.player.equipped_armor == old(self).player.equipped_armor,
                self.player.equipped_accessory == old(self).player.equipped_accessory,
                self.player.current_map_id == old(self).player.current_map_id,
                self.player.x == old(self).player.x,
                self.player.y == old(self).player.y,
                self.player.facing == old(self).player.facing,
                self.player.opened_treasures == old(self).player.opened_treasures,
            decreases self.player.quests.len() - i,
        {
            if !self.player.quests[i].completed && !self.player.quests[i].rewarded {
                match find(self.quests.as_slice(), self.player.quests[i].quest_id.as_str()) {
                    Some(q) => {
                        let quest = &self.quests[q];
                        if quest.quest_type == QuestType::Kill && str_eq(
                            quest.target_id.as_str(),
                            killed_enemy_id,
                        ) {
                            let count = sat_add(self.player.quests[i].current_count, 1);
                            let done = count >= quest.target_count;
                            self.player.quests[i].current_count = count;
                            if done {
                                self.player.quests[i].completed = true;
                            }
                        }
                    },
                    None => {},
                }
            }
            i += 1;
        }
        assert(self@.player.quests =~= old(self)@.kill_noted(killed_enemy_id@).player.quests);
    }

    /// The player strikes.
    fn strike(&mut self)
        ensures
            final(self)@ == old(self)@.struck(),
    {
        proof {
            reveal(GameView::struck);
        }
        let atk = self.player.total_atk();
        let reward = self.combat.player_attack(self.player.x, self.player.y, atk, self.player.facing);
        match reward {
            Some(reward) => {
                let _ = self.player.stats.add_exp(reward.exp);
                self.player.stats.add_gold(reward.gold);
                self.update_kill_quest(reward.enemy_id.as_str());
            },
            None => {},
        }
    }

    /// The player tries a step of `(dx, dy)`.
    fn walk(&mut self, dx: i32, dy: i32)
        ensures
            final(self)@ == old(self)@.walked(dx, dy),
    {
        proof {
            reveal(GameView::walked);
        }
        self.player.set_facing(dx, dy);
        let free = match self.current_map() {
            Some(map) => if self.player.can_move(map, dx, dy) {
                match (checked_offset(self.player.x, dx), checked_offset(self.player.y, dy)) {
                    (Some(nx), Some(ny)) => !self.combat.enemy_at(nx, ny),
                    _ => false,
                }
            } else {
                false
            },
            None => false,
        };
        if free {
            self.player.move_by(dx, dy);
            self.check_tile_events();
        }
    }

    /// A key while exploring.
    pub fn handle_explore_input(&mut self, key: Key) -> (r: Request)
        ensures
            (final(self)@, r) == old(self)@.explore_key(key),
    {
        proof {
            reveal(GameView::confirmed);
            reveal(GameView::explore_key);
        }
        match key {
            Key::Up => {
                self.walk(0, -1);
                Request::Nothing
            },
            Key::Down => {
                self.walk(0, 1);
                Request::Nothing
            },
            Key::Left => {
                self.walk(-1, 0);
                Request::Nothing
            },
            Key::Right => {
                self.walk(1, 0);
                Request::Nothing
            },
            Key::Confirm => {
                self.try_interact_with_npc();
                match self.state {
                    GameState::Dialog(_) => {},
                    GameState::Shop(_) => {},
                    _ => {
                        self.strike();
                    },
                }
                Request::Nothing
            },
            Key::Key1 => {
                self.inventory_state = InventoryState::default();
                self.state = GameState::Inventory;
                Request::Nothing
            },
            Key::Key2 => {
                self.state = GameState::Stats;
                Request::Nothing
            },
            Key::Key3 => {
                self.state = GameState::QuestLog;
                Request::Nothing
            },
            Key::Key0 => Request::Save,
            Key::Cancel => Request::SaveAndOpenMenu,
            Key::Other => Request::Nothing,
        }
    }

    /// One tick: combat advances while the player explores.
    pub fn update_combat(&mut self)
        ensures
            final(self)@ == old(self)@.ticked(),
    {
        proof {
            reveal(GameView::ticked);
        }
        match self.state {
            GameState::Explore => {},
            _ => {
                return ;
            },
        }
        match find(self.maps.as_slice(), self.player.current_map_id.as_str()) {
            Some(i) => {
                let def = self.player.total_def();
                let result = self.combat.update(self.player.x, self.player.y, def, &self.maps[i]);
                if result.damage_taken > 0 {
                    self.player.stats.take_damage(result.damage_taken);
                }
                if self.player.stats.is_dead() {
                    self.state = GameState::GameOver;
                }
            },
            None => {},
        }
    }

    /// Lets `action` take effect.
    fn act(&mut self, action: &DialogAction)
        ensures
            final(self)@ == old(self)@.acted(action@),
    {
        proof {
            reveal(GameView::acted);
        }
        match action {
            DialogAction::GiveQuest(id) => {
                self.player.add_quest(id.as_str());
            },
            DialogAction::CompleteQuest(id) => {
                match find(self.quests.as_slice(), id.as_str()) {
                    Some(q) => if !self.player.is_quest_rewarded(id.as_str()) {
                        let exp = self.quests[q].reward_exp;
                        let gold = self.quests[q].reward_gold;
                        let _ = self.player.stats.add_exp(exp);
                        self.player.stats.add_gold(gold);
                        let item_id = match &self.quests[q].reward_item {
                            Some(item_id) => Some(item_id.clone()),
                            None => None,
                        };
                        match item_id {
                            Some(item_id) => {
                                let _ = self.grant(item_id.as_str());
                            },
                            None => {},
                        }
                        self.player.complete_quest(id.as_str());
                    },
                    None => {},
                }
            },
            DialogAction::GiveItem(id) => {
                let _ = self.grant(id.as_str());
            },
            DialogAction::TakeItem(id) => {
                let _ = self.player.remove_item(id.as_str());
            },
            DialogAction::GiveGold(amount) => {
                self.player.stats.add_gold(*amount);
            },
            DialogAction::TakeGold(amount) => {
                self.player.stats.take_gold(*amount);
            },
            DialogAction::OpenShop(id) => {
                match find(self.shops.as_slice(), id.as_str()) {
                    Some(i) => {
                        self.open_shop(i);
                    },
                    None => {},
                }
            },
            DialogAction::Heal => {
                self.player.stats.restore();
            },
        }
    }

    /// Lets the action of the dialog line shown take effect, if the line
    /// has one.
    pub fn process_dialog_action(&mut self)
        ensures
            final(self)@ == old(self)@.dialog_acted(),
    {
        proof {
            reveal(GameView::dialog_acted);
        }
        let action = match &self.state {
            GameState::Dialog(session) => match session.current_action() {
                Some(action) => action.clone(),
                None => {
                    return ;
                },
            },
            _ => {
                return ;
            },
        };
        self.act(&action);
    }

    /// A key on the inventory screen.
    pub fn handle_inventory_input(&mut self, key: Key)
        ensures
            final(self)@ == old(self)@.inventory_key(key),
    {
        proof {
            reveal(GameView::inventory_key);
        }
        match key {
            Key::Up => {
                self.inventory_state.move_up();
            },
            Key::Down => {
                self.inventory_state.move_down(self.player.inventory.len());
            },
            Key::Confirm => {
                let _ = self.player.use_item(self.inventory_state.selected);
            },
            Key::Cancel => {
                self.state = GameState::Explore;
            },
            _ => {},
        }
    }

    /// A key on the stats screen.
    pub fn handle_stats_input(&mut self, key: Key)
        ensures
            final(self)@ == old(self)@.closing_key(key),
    {
        match key {
            Key::Confirm | Key::Cancel => {
                self.state = GameState::Explore;
            },
            _ => {},
        }
    }

    /// A key in the quest log.
    pub fn handle_quest_input(&mut self, key: Key)
        ensures
            final(self)@ == old(self)@.closing_key(key),
    {
        match key {
            Key::Confirm | Key::Cancel => {
                self.state = GameState::Explore;
            },
            _ => {},
        }
    }

    /// A key after the game is over: confirm asks for the menu, back
    /// returns to exploring.
    pub fn handle_gameover_input(&mut self, key: Key) -> (r: Request)
        ensures
            (final(self)@, r) == old(self)@.gameover_key(key),
    {
        match key {
            Key::Confirm => Request::OpenMenu,
            Key::Cancel => {
                self.state = GameState::Explore;
                Request::Nothing
            },
            _ => Request::Nothing,
        }
    }

    /// A key in a dialog.
    pub fn handle_dialog_input(&mut self, key: Key)
        ensures
            final(self)@ == old(self)@.dialog_key(key),
    {
        proof {
            reveal(GameView::dialog_key);
        }
        match key {
            Key::Confirm => {
                self.process_dialog_action();
                let moved = match &mut self.state {
                    GameState::Dialog(session) => session.advance(),
                    _ => true,
                };
                if !moved {
                    self.state = GameState::Explore;
                }
            },
            Key::Cancel => {
                self.state = GameState::Explore;
            },
            _ => {},
        }
    }

    /// Buys `item`, if the gold suffices.
    fn buy(&mut self, item: Item)
        ensures
            final(self).state == old(self).state,
            final(self)@ == if old(self)@.player.stats.gold >= item.price {
                GameView {
                    player: (PlayerView {
                        stats: PlayerStats {
                            gold: clamp_i32(old(self)@.player.stats.gold - item.price),
                            ..old(self)@.player.stats
                        },
                        ..old(self)@.player
                    }).with_item(item@),
                    ..old(self)@
                }
            } else {
                old(self)@
            },
    {
        if self.player.stats.gold >= item.price {
            self.player.stats.gold = sat_sub(self.player.stats.gold, item.price);
            self.player.add_item(item);
        }
    }

    /// A key in a shop.
    pub fn handle_shop_input(&mut self, key: Key)
        ensures
            match old(self)@.state {
                GameStateView::Shop(shop) => final(self)@ == old(self)@.shop_key(shop, key),
                _ => final(self)@ == old(self)@,
            },
    {
        proof {
            reveal(GameView::shop_key);
        }
        let (mode, selected, offered) = match &self.state {
            GameState::Shop(shop) => (shop.mode, shop.selected, shop.items.len()),
            _ => {
                return ;
            },
        };
        let owned = self.player.inventory.len();
        match key {
            Key::Up => {
                match &mut self.state {
                    GameState::Shop(shop) => {
                        shop.move_up();
                    },
                    _ => {},
                }
            },
            Key::Down => {
                let max = match mode {
                    ShopMode::Select => 2,
                    ShopMode::Buy => offered,
                    ShopMode::Sell => owned,
                };
                match &mut self.state {
                    GameState::Shop(shop) => {
                        shop.move_down(max);
                    },
                    _ => {},
                }
            },
            Key::Confirm => {
                match mode {
                    ShopMode::Select => {
                        match &mut self.state {
                            GameState::Shop(shop) => {
                                shop.mode = if selected == 0 {
                                    ShopMode::Buy
                                } else {
                                    ShopMode::Sell
                                };
                                shop.selected = 0;
                            },
                            _ => {},
                        }
                    },
                    ShopMode::Buy => {
                        let item = match &self.state {
                            GameState::Shop(shop) => if selected < shop.items.len() {
                                Some(shop.items[selected].clone())
                            } else {
                                None
                            },
                            _ => None,
                        };
                        match item {
                            Some(item) => {
                                self.buy(item);
                            },
                            None => {},
                        }
                    },
                    ShopMode::Sell => {
                        if selected < owned {
                            let price = floor_half_i32(self.player.inventory[selected].price);
                            self.player.stats.add_gold(price);
                            let _ = self.player.remove_item_at(selected);
                            if selected >= self.player.inventory.len() && selected > 0 {
                                match &mut self.state {
                                    GameState::Shop(shop) => {
                                        shop.selected = selected - 1;
                                    },
                                    _ => {},
                                }
                            }
                        }
                    },
                }
            },
            Key::Cancel => {
                match mode {
                    ShopMode::Select => {
                        self.state = GameState::Explore;
                    },
                    _ => {
                        match &mut self.state {
                            GameState::Shop(shop) => {
                                shop.mode = ShopMode::Select;
                                shop.selected = 0;
                            },
                            _ => {},
                        }
                    },
                }
            },
            _ => {},
        }
    }

    /// A key press: it goes to the handler of the active state. Returns
    /// what the caller has to do.
    pub fn on_keydown(&mut self, key: Key) -> (r: Request)
        ensures
            (final(self)@, r) == old(self)@.key_pressed(key),
    {
        match self.state {
            GameState::Menu(_) => self.handle_menu_input(key),
            GameState::Explore => self.handle_explore_input(key),
            GameState::Inventory => {
                self.handle_inventory_input(key);
                Request::Nothing
            },
            GameState::Stats => {
                self.handle_stats_input(key);
                Request::Nothing
            },
            GameState::Dialog(_) => {
                self.handle_dialog_input(key);
                Request::Nothing
            },
            GameState::Shop(_) => {
                self.handle_shop_input(key);
                Request::Nothing
            },
            GameState::QuestLog => {
                self.handle_quest_input(key);
                Request::Nothing
            },
            GameState::GameOver => self.handle_gameover_input(key),
        }
    }
}

} // verus!
