//! The interface states of the game and the small sessions some of them
//! carry: the menu cursor, a dialog being read, a shop being visited.

use crate::data::types::{
    clone_lines, views, Dialog, DialogAction, DialogActionView, DialogLine, DialogLineView, Item,
    ItemView, Shop, ShopView,
};
use vstd::prelude::*;

verus! {

/// The main menu: the cursor, and whether a saved game can be continued.
#[derive(Debug, Clone, Copy, PartialEq, Eq, Structural)]
pub struct MenuState {
    pub selected: usize,
    pub has_save: bool,
}

impl MenuState {
    /// The number of menu entries: new game, continue (with a saved game
    /// only) and exit.
    pub open spec fn count(self) -> usize {
        if self.has_save {
            3
        } else {
            2
        }
    }

    /// The menu with the cursor one entry up, if there is one.
    pub open spec fn moved_up(self) -> MenuState {
        if self.selected > 0 {
            MenuState { selected: (self.selected - 1) as usize, ..self }
        } else {
            self
        }
    }

    /// The menu with the cursor one entry down, if there is one.
    pub open spec fn moved_down(self) -> MenuState {
        if self.selected < self.count() - 1 {
            MenuState { selected: (self.selected + 1) as usize, ..self }
        } else {
            self
        }
    }

    pub fn menu_count(&self) -> (r: usize)
        ensures
            r == self.count(),
    {
        if self.has_save {
            3
        } else {
            2
        }
    }

    pub fn move_up(&mut self)
        ensures
            *final(self) == old(self).moved_up(),
    {
        if self.selected > 0 {
            self.selected -= 1;
        }
    }

    pub fn move_down(&mut self)
        ensures
            *final(self) == old(self).moved_down(),
    {
        if self.selected < self.menu_count() - 1 {
            self.selected += 1;
        }
    }
}

impl Default for MenuState {
    fn default() -> (r: Self)
        ensures
            r == (MenuState { selected: 0, has_save: false }),
    {
        MenuState { selected: 0, has_save: false }
    }
}

/// A dialog being read: who speaks, the lines to show, and the line shown.
#[derive(Debug)]
pub struct DialogState {
    pub npc_name: String,
    pub lines: Vec<DialogLine>,
    pub current_line: usize,
}

/// Model of a [`DialogState`].
pub struct DialogStateView {
    pub npc_name: Seq<char>,
    pub lines: Seq<DialogLineView>,
    pub current_line: usize,
}

impl View for DialogState {
    type V = DialogStateView;

    open spec fn view(&self) -> DialogStateView {
        DialogStateView {
            npc_name: self.npc_name@,
            lines: views(self.lines@),
            current_line: self.current_line,
        }
    }
}

impl Clone for DialogState {
    fn clone(&self) -> (r: Self)
        ensures
            r@ == self@,
    {
        DialogState {
            npc_name: self.npc_name.clone(),
            lines: clone_lines(&self.lines),
            current_line: self.current_line,
        }
    }
}

impl DialogStateView {
    /// A session on the first of `lines`.
    pub open spec fn started(npc_name: Seq<char>, lines: Seq<DialogLineView>) -> DialogStateView {
        DialogStateView { npc_name, lines, current_line: 0 }
    }

    /// The text of the line shown, if the cursor is on a line.
    pub open spec fn current_text(self) -> Option<Seq<char>> {
        if self.current_line < self.lines.len() {
            Some(self.lines[self.current_line as int].text)
        } else {
            None
        }
    }

    /// The action of the line shown, if it has one.
    pub open spec fn current_action(self) -> Option<DialogActionView> {
        if self.current_line < self.lines.len() {
            self.lines[self.current_line as int].action
        } else {
            None
        }
    }

    /// Whether a line follows the one shown.
    pub open spec fn has_next(self) -> bool {
        self.current_line + 1 < self.lines.len()
    }

    /// The session on the next line, if there is one.
    pub open spec fn advanced(self) -> DialogStateView {
        if self.has_next() {
            DialogStateView { current_line: (self.current_line + 1) as usize, ..self }
        } else {
            self
        }
    }
}

impl DialogState {
    pub fn new(npc_name: String, dialog: &Dialog) -> (r: Self)
        ensures
            r@ == DialogStateView::started(npc_name@, dialog@.lines),
    {
        DialogState { npc_name, lines: clone_lines(&dialog.lines), current_line: 0 }
    }

    pub fn current_text(&self) -> (r: Option<&str>)
        ensures
            match r {
                Some(t) => self@.current_text() == Some(t@),
                None => self@.current_text() is None,
            },
    {
        if self.current_line < self.lines.len() {
            Some(self.lines[self.current_line].text.as_str())
        } else {
            None
        }
    }

    /// Moves to the next line. Returns `false`, and stays, on the last one.
    pub fn advance(&mut self) -> (moved: bool)
        ensures
            moved == old(self)@.has_next(),
            final(self)@ == old(self)@.advanced(),
    {
        if self.current_line < self.lines.len() && self.current_line + 1 < self.lines.len() {
            self.current_line += 1;
            true
        } else {
            false
        }
    }

    pub fn current_action(&self) -> (r: Option<&DialogAction>)
        ensures
            match r {
                Some(a) => self@.current_action() == Some(a@),
                None => self@.current_action() is None,
            },
    {
        if self.current_line < self.lines.len() {
            self.lines[self.current_line].action.as_ref()
        } else {
            None
        }
    }
}

/// What the player is doing in a shop.
#[derive(Debug, Clone, Copy, PartialEq, Eq, Structural)]
pub enum ShopMode {
    Buy,
    Sell,
    Select,
}

/// A visit to a shop: the shop, the items it offers, the cursor and what
/// the player is doing.
#[derive(Debug)]
pub struct ShopState {
    pub shop: Shop,
    pub items: Vec<Item>,
    pub selected: usize,
    pub mode: ShopMode,
}

/// Model of a [`ShopState`].
pub struct ShopStateView {
    pub shop: ShopView,
    pub items: Seq<ItemView>,
    pub selected: usize,
    pub mode: ShopMode,
}

impl View for ShopState {
    type V = ShopStateView;

    open spec fn view(&self) -> ShopStateView {
        ShopStateView {
            shop: self.shop@,
            items: views(self.items@),
            selected: self.selected,
            mode: self.mode,
        }
    }
}

impl Clone for ShopState {
    fn clone(&self) -> (r: Self)
        ensures
            r@ == self@,
    {
        let mut items: Vec<Item> = Vec::new();
        let mut i: usize = 0;
        while i < self.items.len()
            invariant
                i <= self.items.len(),
                items@ == self.items@.take(i as int),
            decreases self.items.len() - i,
        {
            items.push(self.items[i].clone());
            i += 1;
        }
        assert(items@ == self.items@);
        ShopState { shop: self.shop.clone(), items, selected: self.selected, mode: self.mode }
    }
}

impl ShopStateView {
    /// A visit that starts with the choice between buying and selling.
    pub open spec fn opened(shop: ShopView, items: Seq<ItemView>) -> ShopStateView {
        ShopStateView { shop, items, selected: 0, mode: ShopMode::Select }
    }

    /// The visit with the cursor one entry up, if there is one.
    pub open spec fn moved_up(self) -> ShopStateView {
        if self.selected > 0 {
            ShopStateView { selected: (self.selected - 1) as usize, ..self }
        } else {
            self
        }
    }

    /// The visit with the cursor one entry down in a list of `max`
    /// entries, if there is one.
    pub open spec fn moved_down(self, max: usize) -> ShopStateView {
        if self.selected + 1 < max {
            ShopStateView { selected: (self.selected + 1) as usize, ..self }
        } else {
            self
        }
    }

    /// The visit in the mode `mode`, the cursor on the first entry.
    pub open spec fn in_mode(self, mode: ShopMode) -> ShopStateView {
        ShopStateView { mode, selected: 0, ..self }
    }
}

impl ShopState {
    pub fn new(shop: Shop, items: Vec<Item>) -> (r: Self)
        ensures
            r@ == ShopStateView::opened(shop@, views(items@)),
    {
        ShopState { shop, items, selected: 0, mode: ShopMode::Select }
    }

    pub fn move_up(&mut self)
        ensures
            final(self)@ == old(self)@.moved_up(),
    {
        if self.selected > 0 {
            self.selected -= 1;
        }
    }

    pub fn move_down(&mut self, max: usize)
        ensures
            final(self)@ == old(self)@.moved_down(max),
    {
        if self.selected < max && self.selected + 1 < max {
            self.selected += 1;
        }
    }
}

/// What the game shows and reacts to. Exactly one state is active.
#[derive(Debug)]
pub enum GameState {
    Menu(MenuState),
    Explore,
    Inventory,
    Stats,
    Dialog(DialogState),
    Shop(ShopState),
    QuestLog,
    GameOver,
}

/// Model of a [`GameState`].
pub enum GameStateView {
    Menu(MenuState),
    Explore,
    Inventory,
    Stats,
    Dialog(DialogStateView),
    Shop(ShopStateView),
    QuestLog,
    GameOver,
}

impl View for GameState {
    type V = GameStateView;

    open spec fn view(&self) -> GameStateView {
        match *self {
            GameState::Menu(m) => GameStateView::Menu(m),
            GameState::Explore => GameStateView::Explore,
            GameState::Inventory => GameStateView::Inventory,
            GameState::Stats => GameStateView::Stats,
            GameState::Dialog(d) => GameStateView::Dialog(d@),
            GameState::Shop(s) => GameStateView::Shop(s@),
            GameState::QuestLog => GameStateView::QuestLog,
            GameState::GameOver => GameStateView::GameOver,
        }
    }
}

impl Clone for GameState {
    fn clone(&self) -> (r: Self)
        ensures
            r@ == self@,
    {
        match self {
            GameState::Menu(m) => GameState::Menu(*m),
            GameState::Explore => GameState::Explore,
            GameState::Inventory => GameState::Inventory,
            GameState::Stats => GameState::Stats,
            GameState::Dialog(d) => GameState::Dialog(d.clone()),
            GameState::Shop(s) => GameState::Shop(s.clone()),
            GameState::QuestLog => GameState::QuestLog,
            GameState::GameOver => GameState::GameOver,
        }
    }
}

} // verus!
