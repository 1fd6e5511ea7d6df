//! The text format of maps.
//!
//! ```text
//! @MAP:id:name
//! ..P..>
//! .E.T..
//! @ENCOUNTERS:enemy:weight:enemy:weight
//! @NEXT:x:y:map
//! @DUNGEON:x:y:map
//! @END
//! ```
//!
//! A row is a record like any other: one that starts with `#` is passed
//! over, so a row of tiles cannot start with a wall.

use crate::data::parser::{fields_of, holds_content, is_content};
use crate::data::types::{
    lemma_views_push, link_target, views, GameMap, GameMapView, Tile,
};
use crate::text::{
    chars_of, number_or, position_or_zero, read_number, read_position, reads, records,
    records_of, slice_of, split, string_of, strip_prefix, stripped, texts,
};
use vstd::prelude::*;

verus! {

/// The first `n` entries of an encounter table written as the fields
/// `parts`: enemy and weight in turn. A weight that cannot be read is zero.
pub open spec fn encounters_in(parts: Seq<Seq<char>>, n: int) -> Seq<(Seq<char>, i32)>
    decreases n,
{
    if n <= 0 {
        Seq::empty()
    } else {
        encounters_in(parts, n - 1).push((parts[2 * (n - 1)], number_or(parts[2 * (n - 1) + 1], 0)))
    }
}

/// The widest of `rows`.
pub open spec fn widest(rows: Seq<Seq<char>>) -> nat
    decreases rows.len(),
{
    if rows.len() == 0 {
        0
    } else {
        let before = widest(rows.drop_last());
        if rows.last().len() > before {
            rows.last().len()
        } else {
            before
        }
    }
}

/// The tile at position `k` of a grid `width` wide that is drawn by
/// `rows`: the tile of the character there, and floor where the row is
/// too short.
pub open spec fn tile_drawn(rows: Seq<Seq<char>>, width: nat, k: int) -> Tile {
    let row = rows[k / (width as int)];
    let x = k % (width as int);
    if x < row.len() {
        Tile::of_char(row[x])
    } else {
        Tile::Floor
    }
}

/// The grid `width` wide that is drawn by `rows`, row by row.
pub open spec fn tiles_drawn(rows: Seq<Seq<char>>, width: nat) -> Seq<Tile> {
    Seq::new(width * rows.len(), |k: int| tile_drawn(rows, width, k))
}

/// The exits of a grid after its first `k` tiles were looked at: the
/// exits `given`, and for each exit tile that has none yet an exit without
/// a target.
pub open spec fn exits_found(
    tiles: Seq<Tile>,
    width: nat,
    given: Seq<(usize, usize, Seq<char>)>,
    k: int,
) -> Seq<(usize, usize, Seq<char>)>
    decreases k,
{
    if k <= 0 {
        given
    } else {
        let before = exits_found(tiles, width, given, k - 1);
        let x = ((k - 1) % (width as int)) as usize;
        let y = ((k - 1) / (width as int)) as usize;
        if tiles[k - 1] == Tile::Exit && GameMapView::link_at(before, x, y) is None {
            before.push((x, y, Seq::empty()))
        } else {
            before
        }
    }
}

/// Model of a [`MapBuilder`].
pub struct MapDraft {
    pub id: Seq<char>,
    pub name: Seq<char>,
    pub rows: Seq<Seq<char>>,
    pub encounters: Seq<(Seq<char>, i32)>,
    pub exits: Seq<(usize, usize, Seq<char>)>,
    pub dungeons: Seq<(usize, usize, Seq<char>)>,
}

impl MapDraft {
    /// A draft without rows.
    pub open spec fn empty(id: Seq<char>, name: Seq<char>) -> MapDraft {
        MapDraft {
            id,
            name,
            rows: Seq::empty(),
            encounters: Seq::empty(),
            exits: Seq::empty(),
            dungeons: Seq::empty(),
        }
    }

    /// The map that the draft makes: as wide as its widest row and as
    /// high as it has rows, with an exit for every exit tile. A draft
    /// without rows makes none, nor does one whose grid has more tiles
    /// than can be counted.
    pub open spec fn built(self) -> Option<GameMapView> {
        let width = widest(self.rows);
        let height = self.rows.len();
        if height == 0 || width * height > usize::MAX {
            None
        } else {
            let tiles = tiles_drawn(self.rows, width);
            Some(
                GameMapView {
                    id: self.id,
                    name: self.name,
                    width: width as usize,
                    height: height as usize,
                    tiles,
                    encounters: self.encounters,
                    exits: exits_found(tiles, width, self.exits, (width * height) as int),
                    dungeons: self.dungeons,
                },
            )
        }
    }
}

/// A map in the making.
pub struct MapBuilder {
    pub id: String,
    pub name: String,
    pub rows: Vec<Vec<char>>,
    pub encounters: Vec<(String, i32)>,
    pub exits: Vec<(usize, usize, String)>,
    pub dungeons: Vec<(usize, usize, String)>,
}

impl View for MapBuilder {
    type V = MapDraft;

    open spec fn view(&self) -> MapDraft {
        MapDraft {
            id: self.id@,
            name: self.name@,
            rows: texts(self.rows@),
            encounters: views(self.encounters@),
            exits: views(self.exits@),
            dungeons: views(self.dungeons@),
        }
    }
}

/// What a map built makes of the grid is well formed.
pub proof fn lemma_built_wf(draft: MapDraft)
    ensures
        draft.built() matches Some(map) ==> map.wf(),
{
    let width = widest(draft.rows);
    let height = draft.rows.len();
    if height > 0 && width * height <= usize::MAX {
        assert(width <= width * height) by (nonlinear_arith)
            requires
                height >= 1,
        ;
        if width >= 1 {
            assert(height <= width * height) by (nonlinear_arith)
                requires
                    width >= 1,
            ;
        } else {
            let map = draft.built()->0;
            assert(map.tiles.len() == 0);
            assert(map.width * map.height == 0) by (nonlinear_arith)
                requires
                    map.width == 0,
            ;
        }
    }
}

impl MapBuilder {
    pub fn new(id: String, name: String) -> (r: Self)
        ensures
            r@ == MapDraft::empty(id@, name@),
    {
        let r = MapBuilder {
            id,
            name,
            rows: Vec::new(),
            encounters: Vec::new(),
            exits: Vec::new(),
            dungeons: Vec::new(),
        };
        assert(r@.rows =~= Seq::empty());
        assert(r@.encounters =~= Seq::empty());
        assert(r@.exits =~= Seq::empty());
        assert(r@.dungeons =~= Seq::empty());
        r
    }

    /// Adds a row of tiles, one character a tile.
    pub fn add_row(&mut self, row: &str)
        ensures
            final(self)@ == (MapDraft { rows: old(self)@.rows.push(row@), ..old(self)@ }),
    {
        let chars = chars_of(row);
        self.add_chars(chars);
    }

    /// Adds a row of tiles, one character a tile.
    pub fn add_chars(&mut self, row: Vec<char>)
        ensures
            final(self)@ == (MapDraft { rows: old(self)@.rows.push(row@), ..old(self)@ }),
    {
        assert(texts(self.rows@.push(row)) =~= texts(self.rows@).push(row@));
        self.rows.push(row);
    }

    /// The width of the widest row.
    fn width(&self) -> (w: usize)
        ensures
            w == widest(self@.rows),
    {
        let mut w: usize = 0;
        let mut i: usize = 0;
        assert(self@.rows.take(0) =~= Seq::<Seq<char>>::empty());
        while i < self.rows.len()
            invariant
                i <= self.rows.len(),
                w == widest(self@.rows.take(i as int)),
            decreases self.rows.len() - i,
        {
            proof {
                let all = self@.rows;
                assert(all.take(i + 1).drop_last() =~= all.take(i as int));
                assert(all.take(i + 1).last() == self.rows@[i as int]@);
            }
            if self.rows[i].len() > w {
                w = self.rows[i].len();
            }
            i += 1;
        }
        assert(self@.rows.take(self.rows.len() as int) =~= self@.rows);
        w
    }

    /// The grid `width` wide that the rows draw.
    fn draw(&self, width: usize, total: usize) -> (tiles: Vec<Tile>)
        requires
            width == widest(self@.rows),
            total == width * self.rows.len(),
        ensures
            tiles@ == tiles_drawn(self@.rows, width as nat),
    {
        let height = self.rows.len();
        let mut tiles: Vec<Tile> = Vec::new();
        let mut y: usize = 0;
        while y < height
            invariant
                y <= height,
                height == self.rows.len(),
                total == width * height,
                tiles.len() == y * width,
                forall|k: int|
                    0 <= k < tiles.len() ==> #[trigger] tiles@[k] == tile_drawn(
                        self@.rows,
                        width as nat,
                        k,
                    ),
            decreases height - y,
        {
            let row = &self.rows[y];
            let mut x: usize = 0;
            assert(y * width + width <= total) by (nonlinear_arith)
                requires
                    y < height,
                    total == width * height,
            ;
            while x < width
                invariant
                    x <= width,
                    y < height,
                    height == self.rows.len(),
                    row == &self.rows[y as int],
                    y * width + width <= total,
                    tiles.len() == y * width + x,
                    forall|k: int|
                        0 <= k < tiles.len() ==> #[trigger] tiles@[k] == tile_drawn(
                            self@.rows,
                            width as nat,
                            k,
                        ),
                decreases width - x,
            {
                let tile = if x < row.len() {
                    Tile::from_char(row[x])
                } else {
                    Tile::Floor
                };
                proof {
                    let k = (y * width + x) as int;
                    vstd::arithmetic::div_mod::lemma_fundamental_div_mod_converse(
                        k,
                        width as int,
                        y as int,
                        x as int,
                    );
                    assert(self@.rows[y as int] == row@);
                    assert(tile == tile_drawn(self@.rows, width as nat, k));
                }
                tiles.push(tile);
                x += 1;
            }
            assert((y + 1) * width == y * width + width) by (nonlinear_arith);
            y += 1;
        }
        assert(tiles.len() == width * height) by (nonlinear_arith)
            requires
                tiles.len() == y * width,
                y == height,
        ;
        assert(tiles@ =~= tiles_drawn(self@.rows, width as nat));
        tiles
    }

    /// The exits of the grid `tiles`: those given and one without a
    /// target for each exit tile that has none.
    fn find_exits(
        tiles: &Vec<Tile>,
        width: usize,
        height: usize,
        given: Vec<(usize, usize, String)>,
    ) -> (exits: Vec<(usize, usize, String)>)
        requires
            tiles.len() == width * height,
        ensures
            views(exits@) == exits_found(
                tiles@,
                width as nat,
                views(given@),
                (width * height) as int,
            ),
    {
        let mut exits = given;
        let mut y: usize = 0;
        assert(0 * width == 0) by (nonlinear_arith);
        while y < height
            invariant
                y <= height,
                tiles.len() == width * height,
                y * width <= tiles.len(),
                views(exits@) == exits_found(
                    tiles@,
                    width as nat,
                    views(given@),
                    (y * width) as int,
                ),
            decreases height - y,
        {
            assert(y * width + width <= tiles.len()) by (nonlinear_arith)
                requires
                    y < height,
                    tiles.len() == width * height,
            ;
            let mut x: usize = 0;
            while x < width
                invariant
                    x <= width,
                    y < height,
                    tiles.len() == width * height,
                    y * width + width <= tiles.len(),
                    views(exits@) == exits_found(
                        tiles@,
                        width as nat,
                        views(given@),
                        (y * width + x) as int,
                    ),
                decreases width - x,
            {
                let k = y * width + x;
                proof {
                    vstd::arithmetic::div_mod::lemma_fundamental_div_mod_converse(
                        k as int,
                        width as int,
                        y as int,
                        x as int,
                    );
                }
                if tiles[k] == Tile::Exit && link_target(&exits, x, y).is_none() {
                    let entry = (x, y, String::new());
                    proof {
                        lemma_views_push(exits@, entry);
                    }
                    exits.push(entry);
                }
                x += 1;
            }
            assert((y + 1) * width == y * width + width) by (nonlinear_arith);
            y += 1;
        }
        assert(y * width == width * height) by (nonlinear_arith)
            requires
                y == height,
        ;
        exits
    }

    /// The map that the draft makes, if it has a row.
    pub fn build(self) -> (r: Option<GameMap>)
        ensures
            match r {
                Some(map) => self@.built() == Some(map@) && map@.wf(),
                None => self@.built() is None,
            },
    {
        if self.rows.len() == 0 {
            return None;
        }
        let height = self.rows.len();
        let width = self.width();
        let total = match width.checked_mul(height) {
            Some(t) => t,
            None => {
                return None;
            },
        };
        let tiles = self.draw(width, total);
        proof {
            lemma_built_wf(self@);
        }
        let exits = Self::find_exits(&tiles, width, height, self.exits);
        Some(
            GameMap {
                id: self.id,
                name: self.name,
                width,
                height,
                tiles,
                encounters: self.encounters,
                exits,
                dungeons: self.dungeons,
            },
        )
    }
}

/// The draft with the encounter table that the fields `parts` write added
/// to its own.
pub open spec fn with_encounters(draft: MapDraft, parts: Seq<Seq<char>>) -> MapDraft {
    MapDraft {
        encounters: draft.encounters + encounters_in(parts, (parts.len() / 2) as int),
        ..draft
    }
}

/// The links `links` and the one that the fields `parts` write, `x:y:map`,
/// if they are that many. A coordinate that cannot be read is zero.
pub open spec fn with_link(links: Seq<(usize, usize, Seq<char>)>, parts: Seq<Seq<char>>) -> Seq<
    (usize, usize, Seq<char>),
> {
    if parts.len() >= 3 {
        links.push((position_or_zero(parts[0]), position_or_zero(parts[1]), parts[2]))
    } else {
        links
    }
}

/// The maps read so far, and the draft of the one being read.
pub struct MapsRead {
    pub done: Seq<GameMapView>,
    pub current: Option<MapDraft>,
}

impl MapsRead {
    /// The maps read, the one being read closed: it counts if its draft
    /// makes a map.
    pub open spec fn closed(self) -> Seq<GameMapView> {
        match self.current {
            Some(draft) => match draft.built() {
                Some(map) => self.done.push(map),
                None => self.done,
            },
            None => self.done,
        }
    }

    /// The state after a record that starts with `@MAP:`: the map being
    /// read is closed, and a draft is started with the identifier and the
    /// name that follow; without a name the identifier is the name.
    pub open spec fn started(self, rest: Seq<char>) -> MapsRead {
        let parts = split(rest, ':');
        MapsRead {
            done: self.closed(),
            current: Some(
                MapDraft::empty(
                    parts[0],
                    if parts.len() > 1 {
                        parts[1]
                    } else {
                        parts[0]
                    },
                ),
            ),
        }
    }

    /// The state with `draft` in place of the draft being read, if there
    /// is one.
    pub open spec fn with_draft(self, draft: MapDraft) -> MapsRead {
        match self.current {
            Some(_) => MapsRead { done: self.done, current: Some(draft) },
            None => self,
        }
    }

    /// The state after the record `line`: `@MAP:id:name` starts a map,
    /// `@END` closes it, `@ENCOUNTERS:`, `@NEXT:` and `@DUNGEON:` add to
    /// its encounter table, its exits and its dungeon entrances, and any
    /// other record that holds content is a row of its tiles.
    pub open spec fn after(self, line: Seq<char>) -> MapsRead {
        let draft = self.current->0;
        if stripped(line, "@MAP:"@) is Some {
            self.started(stripped(line, "@MAP:"@)->0)
        } else if line == "@END"@ {
            MapsRead { done: self.closed(), current: None }
        } else if stripped(line, "@ENCOUNTERS:"@) is Some {
            self.with_draft(
                with_encounters(draft, split(stripped(line, "@ENCOUNTERS:"@)->0, ':')),
            )
        } else if stripped(line, "@NEXT:"@) is Some {
            self.with_draft(
                MapDraft {
                    exits: with_link(draft.exits, split(stripped(line, "@NEXT:"@)->0, ':')),
                    ..draft
                },
            )
        } else if stripped(line, "@DUNGEON:"@) is Some {
            self.with_draft(
                MapDraft {
                    dungeons: with_link(
                        draft.dungeons,
                        split(stripped(line, "@DUNGEON:"@)->0, ':'),
                    ),
                    ..draft
                },
            )
        } else if is_content(line) {
            self.with_draft(MapDraft { rows: draft.rows.push(line), ..draft })
        } else {
            self
        }
    }

    /// The state after the records `lines`, in order.
    pub open spec fn after_all(lines: Seq<Seq<char>>) -> MapsRead
        decreases lines.len(),
    {
        if lines.len() == 0 {
            MapsRead { done: Seq::empty(), current: None }
        } else {
            Self::after_all(lines.drop_last()).after(lines.last())
        }
    }
}

/// The maps that the text `data` holds; a map still being read at the end
/// of the text counts.
pub open spec fn maps_in(data: Seq<char>) -> Seq<GameMapView> {
    MapsRead::after_all(records(data)).closed()
}

/// The model of a map in the making, if there is one.
pub open spec fn draft_view(b: Option<MapBuilder>) -> Option<MapDraft> {
    match b {
        Some(b) => Some(b@),
        None => None,
    }
}

/// Closes the map being read.
fn close_map(maps: &mut Vec<GameMap>, current: Option<MapBuilder>)
    ensures
        views(final(maps)@) == (MapsRead {
            done: views(old(maps)@),
            current: draft_view(current),
        }).closed(),
{
    match current {
        Some(builder) => {
            match builder.build() {
                Some(map) => {
                    proof {
                        lemma_views_push(maps@, map);
                    }
                    maps.push(map);
                },
                None => {},
            }
        },
        None => {},
    }
}

/// A draft named by what follows `@MAP:`.
fn start_map(rest: &Vec<char>) -> (r: MapBuilder)
    ensures
        ({
            let parts = split(rest@, ':');
            r@ == MapDraft::empty(
                parts[0],
                if parts.len() > 1 {
                    parts[1]
                } else {
                    parts[0]
                },
            )
        }),
{
    let parts = fields_of(rest);
    let id = string_of(&parts[0]);
    let name = if parts.len() > 1 {
        string_of(&parts[1])
    } else {
        id.clone()
    };
    MapBuilder::new(id, name)
}

impl MapBuilder {
    /// Adds the encounter table that follows `@ENCOUNTERS:`.
    pub fn add_encounters(&mut self, rest: &Vec<char>)
        ensures
            final(self)@ == with_encounters(old(self)@, split(rest@, ':')),
    {
        let parts = fields_of(rest);
        let ghost fields = split(rest@, ':');
        let ghost before = old(self)@.encounters;
        let mut i: usize = 0;
        let mut n: usize = 0;
        assert(views(self.encounters@) =~= before + encounters_in(fields, 0));
        while i < parts.len() && i + 1 < parts.len()
            invariant
                i == 2 * n,
                i <= parts.len(),
                parts.len() == fields.len(),
                forall|k: int| 0 <= k < parts.len() ==> (#[trigger] parts@[k])@ == fields[k],
                views(self.encounters@) == before + encounters_in(fields, n as int),
                self.id == old(self).id,
                self.name == old(self).name,
                self.rows == old(self).rows,
                self.exits == old(self).exits,
                self.dungeons == old(self).dungeons,
            decreases parts.len() - i,
        {
            let entry = (string_of(&parts[i]), read_number(&parts[i + 1], 0));
            proof {
                lemma_views_push(self.encounters@, entry);
                assert(before + encounters_in(fields, n + 1) =~= (before + encounters_in(
                    fields,
                    n as int,
                )).push(entry@));
            }
            self.encounters.push(entry);
            i += 2;
            n += 1;
        }
        assert(n == fields.len() / 2);
    }

    /// Adds the exit that follows `@NEXT:`.
    pub fn add_exit(&mut self, rest: &Vec<char>)
        ensures
            final(self)@ == (MapDraft {
                exits: with_link(old(self)@.exits, split(rest@, ':')),
                ..old(self)@
            }),
    {
        let parts = fields_of(rest);
        if parts.len() >= 3 {
            let entry = (read_position(&parts[0]), read_position(&parts[1]), string_of(&parts[2]));
            proof {
                lemma_views_push(self.exits@, entry);
            }
            self.exits.push(entry);
        }
    }

    /// Adds the dungeon entrance that follows `@DUNGEON:`.
    pub fn add_dungeon(&mut self, rest: &Vec<char>)
        ensures
            final(self)@ == (MapDraft {
                dungeons: with_link(old(self)@.dungeons, split(rest@, ':')),
                ..old(self)@
            }),
    {
        let parts = fields_of(rest);
        if parts.len() >= 3 {
            let entry = (read_position(&parts[0]), read_position(&parts[1]), string_of(&parts[2]));
            proof {
                lemma_views_push(self.dungeons@, entry);
            }
            self.dungeons.push(entry);
        }
    }
}

/// A copy of a text.
fn copy_chars(v: &Vec<char>) -> (r: Vec<char>)
    ensures
        r@ == v@,
{
    let r = slice_of(v, 0, v.len());
    assert(v@.subrange(0, v.len() as int) =~= v@);
    r
}

/// Reads the record `line` into the map being read.
fn read_map_record(maps: &mut Vec<GameMap>, current: Option<MapBuilder>, line: &Vec<char>) -> (next:
    Option<MapBuilder>)
    ensures
        (MapsRead { done: views(final(maps)@), current: draft_view(next) }) == (MapsRead {
            done: views(old(maps)@),
            current: draft_view(current),
        }).after(line@),
{
    match strip_prefix(line, "@MAP:") {
        Some(rest) => {
            close_map(maps, current);
            return Some(start_map(&rest));
        },
        None => {},
    }
    if reads(line, "@END") {
        close_map(maps, current);
        return None;
    }
    let mut current = current;
    match strip_prefix(line, "@ENCOUNTERS:") {
        Some(rest) => {
            match &mut current {
                Some(builder) => {
                    builder.add_encounters(&rest);
                },
                None => {},
            }
            return current;
        },
        None => {},
    }
    match strip_prefix(line, "@NEXT:") {
        Some(rest) => {
            match &mut current {
                Some(builder) => {
                    builder.add_exit(&rest);
                },
                None => {},
            }
            return current;
        },
        None => {},
    }
    match strip_prefix(line, "@DUNGEON:") {
        Some(rest) => {
            match &mut current {
                Some(builder) => {
                    builder.add_dungeon(&rest);
                },
                None => {},
            }
            return current;
        },
        None => {},
    }
    if holds_content(line) {
        match &mut current {
            Some(builder) => {
                builder.add_chars(copy_chars(line));
            },
            None => {},
        }
    }
    current
}

/// The maps that the text `data` holds.
pub fn parse_maps(data: &str) -> (maps: Vec<GameMap>)
    ensures
        views(maps@) == maps_in(data@),
        forall|i: int| 0 <= i < maps.len() ==> (#[trigger] maps@[i])@.wf(),
{
    let lines = records_of(data);
    let mut maps: Vec<GameMap> = Vec::new();
    let mut current: Option<MapBuilder> = None;
    let mut i: usize = 0;
    assert(records(data@).take(0) =~= Seq::<Seq<char>>::empty());
    assert(views(maps@) =~= Seq::<GameMapView>::empty());
    while i < lines.len()
        invariant
            i <= lines.len(),
            texts(lines@) == records(data@),
            (MapsRead { done: views(maps@), current: draft_view(current) }) == MapsRead::after_all(
                records(data@).take(i as int),
            ),
        decreases lines.len() - i,
    {
        proof {
            let all = records(data@);
            assert(all.take(i + 1).drop_last() =~= all.take(i as int));
            assert(all.take(i + 1).last() == texts(lines@)[i as int]);
        }
        current = read_map_record(&mut maps, current, &lines[i]);
        i += 1;
    }
    assert(records(data@).take(lines.len() as int) =~= records(data@));
    close_map(&mut maps, current);
    proof {
        lemma_maps_wf(records(data@));
        assert forall|i: int| 0 <= i < maps.len() implies (#[trigger] maps@[i])@.wf() by {
            assert(views(maps@)[i] == maps@[i]@);
        }
    }
    maps
}

/// Every map read is well formed.
pub proof fn lemma_maps_wf(lines: Seq<Seq<char>>)
    ensures
        forall|i: int|
            0 <= i < MapsRead::after_all(lines).done.len() ==> (
            #[trigger] MapsRead::after_all(lines).done[i]).wf(),
        forall|i: int|
            0 <= i < MapsRead::after_all(lines).closed().len() ==> (
            #[trigger] MapsRead::after_all(lines).closed()[i]).wf(),
    decreases lines.len(),
{
    if lines.len() > 0 {
        let before = MapsRead::after_all(lines.drop_last());
        lemma_maps_wf(lines.drop_last());
        if before.current is Some {
            lemma_built_wf(before.current->0);
        }
    }
    let now = MapsRead::after_all(lines);
    if now.current is Some {
        lemma_built_wf(now.current->0);
    }
}

} // verus!
