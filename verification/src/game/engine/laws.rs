//! What always holds of the game.

use crate::data::lookup::{lemma_first_true, lookup};
use crate::data::types::{
    DialogActionView, Item, ItemKind, PlayerStats, Quest, QuestProgressView,
};
use crate::game::engine::{step_of, GameView, Key};
use crate::game::player::{
    lemma_equipment_kept, lemma_with_treasure_idempotent, quest_position, PlayerView,
};
use crate::game::state::GameStateView;
use crate::num::clamp_i32;
use vstd::prelude::*;

verus! {

/// A treasure is taken once: stepping on its tile again changes nothing,
/// so it grants its item a single time.
pub proof fn lemma_treasure_taken_once(g: GameView)
    ensures
        g.treasure_taken().treasure_taken() == g.treasure_taken(),
        g.treasure_taken().player.treasure_opened(
            g.player.current_map_id,
            g.player.x,
            g.player.y,
        ),
{
    reveal(GameView::treasure_taken);
    let p = g.player;
    let granted = g.granted(lookup::<Item>(g.items, "potion"@));
    lemma_with_treasure_idempotent(granted.player, p.current_map_id, p.x, p.y);
}

/// A quest is rewarded once: a player who was rewarded for a quest gets
/// nothing more for completing it, and for a player who has an entry for
/// the quest, completing it twice is completing it once.
pub proof fn lemma_rewarded_once(g: GameView, id: Seq<char>)
    ensures
        g.player.was_rewarded(id) ==> g.acted(DialogActionView::CompleteQuest(id)) == g,
        g.player.knows_quest(id) ==> g.acted(DialogActionView::CompleteQuest(id)).acted(
            DialogActionView::CompleteQuest(id),
        ) == g.acted(DialogActionView::CompleteQuest(id)),
{
    reveal(GameView::acted);
    let once = g.acted(DialogActionView::CompleteQuest(id));
    if g.player.knows_quest(id) && !g.player.was_rewarded(id) && lookup::<Quest>(g.quests, id)
        is Some {
        let quests = g.player.quests;
        let flags = Seq::new(quests.len(), |i: int| quests[i].quest_id == id);
        lemma_first_true(flags);
        let k = choose|k: int| 0 <= k < quests.len() && quests[k].quest_id == id;
        assert(flags[k]);
        let i = quest_position(quests, id)->0;
        assert(flags[i]);
        assert(once.player.quests == quests.update(
            i,
            QuestProgressView { rewarded: true, ..quests[i] },
        ));
        assert(once.player.quests[i].quest_id == id && once.player.quests[i].rewarded);
        assert(once.player.was_rewarded(id));
        assert(once.quests == g.quests);
    }
}

/// A new game leaves the equipment sound, provided that what the content
/// calls the wooden sword is a weapon and what it calls the cloth is an
/// armor.
pub proof fn lemma_new_game_equipment(g: GameView)
    requires
        lookup::<Item>(g.items, "wooden_sword"@) matches Some(sword) ==> sword.kind
            == ItemKind::Weapon,
        lookup::<Item>(g.items, "cloth"@) matches Some(cloth) ==> cloth.kind == ItemKind::Armor,
    ensures
        g.new_game().player.equip_ok(),
{
    reveal(GameView::new_game);
}

/// Playing keeps the equipment sound: where each slot of the player was
/// empty or named an item of its kind, it is so after any key in any
/// state but the menu, and after a tick.
pub proof fn lemma_equipment_stays_sound(g: GameView, key: Key)
    requires
        g.player.equip_ok(),
    ensures
        !(g.state is Menu) ==> g.key_pressed(key).0.player.equip_ok(),
        g.ticked().player.equip_ok(),
{
    reveal(GameView::ticked);
    match g.state {
        GameStateView::Menu(_) => {},
        GameStateView::Explore => {
            lemma_explore_keeps_equipment(g, key);
        },
        GameStateView::Inventory => {
            reveal(GameView::inventory_key);
            lemma_equipment_kept(g.player, arbitrary(), g.inventory_state.selected, arbitrary());
        },
        GameStateView::Dialog(_) => {
            reveal(GameView::dialog_key);
            lemma_action_keeps_equipment(g);
        },
        GameStateView::Shop(shop) => {
            reveal(GameView::shop_key);
            if shop.selected < shop.items.len() {
                lemma_equipment_kept(
                    PlayerView {
                        stats: PlayerStats {
                            gold: clamp_i32(
                                g.player.stats.gold - shop.items[shop.selected as int].price,
                            ),
                            ..g.player.stats
                        },
                        ..g.player
                    },
                    shop.items[shop.selected as int],
                    0,
                    arbitrary(),
                );
            }
            if shop.selected < g.player.inventory.len() {
                let item = g.player.inventory[shop.selected as int];
                lemma_equipment_kept(
                    PlayerView {
                        stats: g.player.stats.with_gold((item.price / 2) as i32),
                        ..g.player
                    },
                    arbitrary(),
                    shop.selected,
                    arbitrary(),
                );
            }
        },
        _ => {},
    }
}

/// A key while exploring keeps the equipment sound.
proof fn lemma_explore_keeps_equipment(g: GameView, key: Key)
    requires
        g.player.equip_ok(),
    ensures
        g.explore_key(key).0.player.equip_ok(),
{
    reveal(GameView::explore_key);
    reveal(GameView::confirmed);
    reveal(GameView::interacted);
    reveal(GameView::talked_to);
    reveal(GameView::in_shop);
    reveal(GameView::struck);
    reveal(GameView::kill_noted);
    match step_of(key) {
        Some(step) => {
            reveal(GameView::walked);
            let turned = GameView { player: g.player.turned(step.0, step.1), ..g };
            let moved = GameView { player: turned.player.moved_by(step.0, step.1), ..turned };
            lemma_tile_keeps_equipment(moved);
        },
        None => {},
    }
}

/// What the tile under the player sets off keeps the equipment sound.
proof fn lemma_tile_keeps_equipment(g: GameView)
    requires
        g.player.equip_ok(),
    ensures
        g.tile_events().player.equip_ok(),
{
    reveal(GameView::tile_events);
    reveal(GameView::map_changed);
    reveal(GameView::treasure_taken);
    match lookup::<Item>(g.items, "potion"@) {
        Some(potion) => {
            lemma_equipment_kept(g.player, potion, 0, arbitrary());
        },
        None => {},
    }
}

/// The action of a dialog line keeps the equipment sound.
proof fn lemma_action_keeps_equipment(g: GameView)
    requires
        g.player.equip_ok(),
    ensures
        g.dialog_acted().player.equip_ok(),
{
    reveal(GameView::dialog_acted);
    reveal(GameView::acted);
    reveal(GameView::in_shop);
    match g.state {
        GameStateView::Dialog(session) => match session.current_action() {
            Some(DialogActionView::CompleteQuest(id)) => match lookup::<Quest>(g.quests, id) {
                Some(quest) => {
                    let paid = PlayerView {
                        stats: g.player.stats.with_exp(quest.reward_exp).with_gold(
                            quest.reward_gold,
                        ),
                        ..g.player
                    };
                    match quest.reward_item {
                        Some(item_id) => match lookup::<Item>(g.items, item_id) {
                            Some(item) => {
                                lemma_equipment_kept(paid, item, 0, arbitrary());
                            },
                            None => {},
                        },
                        None => {},
                    }
                },
                None => {},
            },
            Some(DialogActionView::GiveItem(id)) => match lookup::<Item>(g.items, id) {
                Some(item) => {
                    lemma_equipment_kept(g.player, item, 0, arbitrary());
                },
                None => {},
            },
            Some(DialogActionView::TakeItem(id)) => {
                lemma_equipment_kept(g.player, arbitrary(), 0, id);
            },
            _ => {},
        },
        _ => {},
    }
}

} // verus!
