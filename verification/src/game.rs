//! The running game: the player, field combat, the interface states and
//! the state machine that ties them together.

pub mod combat;
pub mod dialog;
pub mod engine;
pub mod explore;
pub mod inventory;
pub mod player;
pub mod roundtrip;
pub mod save;
pub mod state;

pub use combat::{CombatResult, CombatSystem, Direction, FieldEnemy, KillReward};
pub use dialog::{filter_dialog, wrap_text};
pub use engine::{Key, Request, RpgGame};
pub use explore::{check_tile_event, TileEvent};
pub use inventory::InventoryState;
pub use player::Player;
pub use save::{deserialize_save, format_args_to_string, serialize_save};
pub use state::{DialogState, GameState, MenuState, ShopMode, ShopState};
