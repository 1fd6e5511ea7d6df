//! Game content: the record types and the text formats they are read from.

pub mod lookup;
pub mod parser;
pub mod types;

pub use parser::dialogs::{parse_dialogs, DialogBuilder};
pub use parser::maps::{parse_maps, MapBuilder};
pub use parser::{parse_enemies, parse_items, parse_npcs, parse_quests, parse_shops};
pub use types::{
    Dialog, DialogAction, DialogCondition, DialogLine, Enemy, GameMap, Item, ItemKind, Npc,
    NpcType, PlayerStats, Quest, QuestProgress, QuestType, Shop, Tile,
};
