//! What the tile under the player sets off.

use crate::data::types::{link_target, GameMap, GameMapView, Tile};
use crate::game::player::Player;
use vstd::prelude::*;
use vstd::string::StringExecFns;

verus! {

/// What a tile sets off when the player steps on it.
#[derive(Debug)]
pub enum TileEvent {
    Treasure,
    MapExit(String),
    Npc,
    DungeonEntrance(String),
}

/// Model of a [`TileEvent`].
pub enum TileEventView {
    Treasure,
    MapExit(Seq<char>),
    Npc,
    DungeonEntrance(Seq<char>),
}

impl View for TileEvent {
    type V = TileEventView;

    open spec fn view(&self) -> TileEventView {
        match *self {
            TileEvent::Treasure => TileEventView::Treasure,
            TileEvent::MapExit(t) => TileEventView::MapExit(t@),
            TileEvent::Npc => TileEventView::Npc,
            TileEvent::DungeonEntrance(t) => TileEventView::DungeonEntrance(t@),
        }
    }
}

impl Clone for TileEvent {
    fn clone(&self) -> (r: Self)
        ensures
            r == *self,
    {
        match self {
            TileEvent::Treasure => TileEvent::Treasure,
            TileEvent::MapExit(t) => TileEvent::MapExit(t.clone()),
            TileEvent::Npc => TileEvent::Npc,
            TileEvent::DungeonEntrance(t) => TileEvent::DungeonEntrance(t.clone()),
        }
    }
}

/// What the tile of `map` at `(x, y)` sets off: a treasure tile a
/// treasure, a house tile a meeting, an exit or a dungeon tile a passage
/// to the target of the map's first exit or dungeon entry for that cell,
/// if there is one; any other tile nothing.
pub open spec fn tile_event(map: GameMapView, x: usize, y: usize) -> Option<TileEventView> {
    match map.tile_at(x, y) {
        Tile::Treasure => Some(TileEventView::Treasure),
        Tile::Exit => match GameMapView::link_at(map.exits, x, y) {
            Some(target) => Some(TileEventView::MapExit(target)),
            None => None,
        },
        Tile::House => Some(TileEventView::Npc),
        Tile::Dungeon => match GameMapView::link_at(map.dungeons, x, y) {
            Some(target) => Some(TileEventView::DungeonEntrance(target)),
            None => None,
        },
        _ => None,
    }
}

/// What the tile under the player sets off.
pub fn check_tile_event(map: &GameMap, player: &Player) -> (r: Option<TileEvent>)
    ensures
        match r {
            Some(e) => tile_event(map@, player.x, player.y) == Some(e@),
            None => tile_event(map@, player.x, player.y) is None,
        },
{
    match map.get_tile(player.x, player.y) {
        Tile::Treasure => Some(TileEvent::Treasure),
        Tile::Exit => match link_target(&map.exits, player.x, player.y) {
            Some(target) => Some(TileEvent::MapExit(String::from_str(target))),
            None => None,
        },
        Tile::House => Some(TileEvent::Npc),
        Tile::Dungeon => match link_target(&map.dungeons, player.x, player.y) {
            Some(target) => Some(TileEvent::DungeonEntrance(String::from_str(target))),
            None => None,
        },
        _ => None,
    }
}

} // verus!
