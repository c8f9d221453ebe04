//! Reading players from the pages of a league table.
//!
//! A page is markup. Its tables are made of rows, and a row of cells. The
//! cells that hold a value give the values of the row; a row of five values
//! or more is a player.

use crate::codes::{lowercase, position_coded, read_position};
use crate::entities::{Player, Position};
use crate::random::{drawn_value, state_after_draw, RandomSource};
use scraper::{ElementRef, Html, Selector};
use vstd::prelude::*;
use vstd::string::*;

verus! {

/// The number of pages that a league table is laid out on.
pub const PAGES: u32 = 11;

/// The number of player identities set aside for a page.
pub const PLAYERS_PER_PAGE: u32 = 50;

/// A row needs this many values to be a player.
pub const PLAYER_VALUES: usize = 5;

/// The lowest quality that a player is read with.
pub const QUALITY_FLOOR: u8 = 50;

/// The quality of a player is the floor plus a draw from `0..QUALITY_SPREAD`.
pub const QUALITY_SPREAD: u64 = 50;

/// A cell of a table: its markup, and the markup inside each of its links,
/// in the order of the links.
#[derive(PartialEq, Eq, Debug)]
pub struct Cell {
    pub markup: String,
    pub links: Vec<String>,
}

/// The mathematical value of a cell.
pub struct CellText {
    pub markup: Seq<char>,
    pub links: Seq<Seq<char>>,
}

impl View for Cell {
    type V = CellText;

    open spec fn view(&self) -> CellText {
        CellText { markup: self.markup@, links: texts(self.links@) }
    }
}

/// The values of the cells of a row.
pub open spec fn cell_texts(cells: Seq<Cell>) -> Seq<CellText> {
    cells.map_values(|cell: Cell| cell@)
}

/// The values of the cells of the rows of a page.
pub open spec fn page_texts(rows: Seq<Vec<Cell>>) -> Seq<Seq<CellText>> {
    rows.map_values(|row: Vec<Cell>| cell_texts(row@))
}

/// Whether a character breaks a line.
pub open spec fn is_break(c: char) -> bool {
    c == '\r' || c == '\n'
}

/// A text without its line breaks.
pub open spec fn without_breaks(text: Seq<char>) -> Seq<char>
    decreases text.len(),
{
    if text.len() == 0 {
        Seq::empty()
    } else if is_break(text.last()) {
        without_breaks(text.drop_last())
    } else {
        without_breaks(text.drop_last()).push(text.last())
    }
}

/// Whether `pattern` stands somewhere in `text`.
pub open spec fn occurs_in(pattern: Seq<char>, text: Seq<char>) -> bool {
    exists|start: int|
        0 <= start && start + pattern.len() <= text.len() && #[trigger] text.subrange(
            start,
            start + pattern.len(),
        ) == pattern
}

/// The value that a cell with this markup and these links holds: none where
/// the markup shows an image; else the text of the first link where the
/// markup has a link; else the markup itself. Line breaks are left out.
pub open spec fn cell_value(cell: CellText) -> Option<Seq<char>> {
    let text = without_breaks(cell.markup);
    if occurs_in("<img"@, text) {
        None
    } else if occurs_in("<a href"@, text) && cell.links.len() > 0 {
        Some(without_breaks(cell.links[0]))
    } else {
        Some(text)
    }
}

/// The first identity of the page `page`, where pages are counted from one.
pub open spec fn first_identity(page: u32) -> int {
    (page - 1) * PLAYERS_PER_PAGE
}

/// A copy of `text` without its line breaks.
pub fn strip_breaks(text: &str) -> (stripped: String)
    ensures
        stripped@ == without_breaks(text@),
{
    let length = text.unicode_len();
    let mut stripped = String::new();
    let mut index: usize = 0;
    while index < length
        invariant
            length == text@.len(),
            index <= length,
            stripped@ == without_breaks(text@.take(index as int)),
        decreases length - index,
    {
        proof {
            assert(text@.take(index + 1).drop_last() == text@.take(index as int));
        }
        let c = text.get_char(index);
        if c != '\r' && c != '\n' {
            let one = text.substring_char(index, index + 1);
            stripped.append(one);
        }
        index += 1;
    }
    proof {
        assert(text@.take(index as int) == text@);
    }
    stripped
}

/// Whether `pattern` stands in `text` at `start`; `total` is the length of
/// `text`.
fn stands_at(text: &str, total: usize, pattern: &str, start: usize) -> (stands: bool)
    requires
        total == text@.len(),
        start + pattern@.len() <= text@.len(),
    ensures
        stands == (text@.subrange(start as int, start + pattern@.len()) == pattern@),
{
    let length = pattern.unicode_len();
    let mut index: usize = 0;
    while index < length
        invariant
            length == pattern@.len(),
            total == text@.len(),
            start + length <= text@.len(),
            index <= length,
            forall|k: int| 0 <= k < index ==> text@[start + k] == pattern@[k],
        decreases length - index,
    {
        if text.get_char(start + index) != pattern.get_char(index) {
            return false;
        }
        index += 1;
    }
    proof {
        assert(text@.subrange(start as int, start + pattern@.len()) =~= pattern@);
    }
    true
}

/// Whether `pattern` stands somewhere in `text`.
pub fn contains_text(text: &str, pattern: &str) -> (found: bool)
    ensures
        found == occurs_in(pattern@, text@),
{
    let length = text.unicode_len();
    let wanted = pattern.unicode_len();
    if wanted > length {
        return false;
    }
    let last = length - wanted;
    let mut start: usize = 0;
    loop
        invariant
            length == text@.len(),
            wanted == pattern@.len(),
            last == length - wanted,
            start <= last,
            forall|k: int|
                0 <= k < start ==> #[trigger] text@.subrange(k, k + pattern@.len()) != pattern@,
        decreases last - start,
    {
        if stands_at(text, length, pattern, start) {
            return true;
        }
        if start == last {
            return false;
        }
        start += 1;
    }
}

/// The value that a cell holds, if it holds one.
pub fn read_cell(cell: &Cell) -> (value: Option<String>)
    ensures
        match cell_value(cell@) {
            Some(text) => value matches Some(read) && read@ == text,
            None => value is None,
        },
{
    let text = strip_breaks(cell.markup.as_str());
    if contains_text(text.as_str(), "<img") {
        None
    } else if contains_text(text.as_str(), "<a href") {
        if cell.links.len() > 0 {
            Some(strip_breaks(cell.links[0].as_str()))
        } else {
            Some(text)
        }
    } else {
        Some(text)
    }
}

/// The values of a row: the values of its cells that hold one, in order.
pub open spec fn row_values(cells: Seq<CellText>) -> Seq<Seq<char>>
    decreases cells.len(),
{
    if cells.len() == 0 {
        Seq::empty()
    } else {
        match cell_value(cells.last()) {
            Some(text) => row_values(cells.drop_last()).push(text),
            None => row_values(cells.drop_last()),
        }
    }
}

/// The texts of a list of strings.
pub open spec fn texts(values: Seq<String>) -> Seq<Seq<char>> {
    values.map_values(|value: String| value@)
}

/// The values of a row.
pub fn read_row(cells: &Vec<Cell>) -> (values: Vec<String>)
    ensures
        texts(values@) == row_values(cell_texts(cells@)),
{
    let mut values: Vec<String> = Vec::new();
    let mut index: usize = 0;
    while index < cells.len()
        invariant
            index <= cells.len(),
            texts(values@) == row_values(cell_texts(cells@).take(index as int)),
        decreases cells.len() - index,
    {
        proof {
            assert(cell_texts(cells@).take(index + 1).drop_last() == cell_texts(cells@).take(
                index as int,
            ));
        }
        match read_cell(&cells[index]) {
            Some(value) => {
                values.push(value);
            },
            None => {},
        }
        index += 1;
    }
    proof {
        assert(cell_texts(cells@).take(index as int) == cell_texts(cells@));
    }
    values
}

/// Whether a row of these values is a player.
pub open spec fn is_player_row(values: Seq<Seq<char>>) -> bool {
    values.len() >= PLAYER_VALUES
}

/// The player that a row of `values` is, with the identity `id` and the
/// quality `quality`: the first value is the name, the third the date of
/// birth, the fourth the height and the fifth the code of the position. A
/// row of fewer than five values is no player.
pub fn player_from_row(values: &Vec<String>, id: u32, quality: u8) -> (player: Option<Player>)
    ensures
        player is Some <==> is_player_row(texts(values@)),
        player matches Some(read) ==> {
            &&& read.id == id
            &&& read.name@ == values@[0]@
            &&& read.dob@ == values@[2]@
            &&& read.height@ == values@[3]@
            &&& read.position == position_coded(lowercase(values@[4]@))
            &&& read.quality == quality
        },
{
    if values.len() >= PLAYER_VALUES {
        Some(
            Player {
                id,
                name: values[0].clone(),
                dob: values[2].clone(),
                height: values[3].clone(),
                position: read_position(values[4].as_str()),
                quality,
            },
        )
    } else {
        None
    }
}

/// The quality that a draw from `0..QUALITY_SPREAD` gives.
pub fn quality_of_draw(draw: u64) -> (quality: u8)
    requires
        draw < QUALITY_SPREAD,
    ensures
        quality == QUALITY_FLOOR + draw,
{
    QUALITY_FLOOR + draw as u8
}

/// The first identity of the page `page`, where pages are counted from one.
pub fn first_identity_of(page: u32) -> (id: u32)
    requires
        1 <= page <= PAGES,
    ensures
        id == first_identity(page),
{
    (page - 1) * PLAYERS_PER_PAGE
}

/// What is read of a player: the mathematical value of a `Player`.
pub struct Sheet {
    pub id: int,
    pub name: Seq<char>,
    pub dob: Seq<char>,
    pub height: Seq<char>,
    pub position: Position,
    pub quality: int,
}

/// The sheet of a player.
pub open spec fn sheet_of(player: Player) -> Sheet {
    Sheet {
        id: player.id as int,
        name: player.name@,
        dob: player.dob@,
        height: player.height@,
        position: player.position,
        quality: player.quality as int,
    }
}

/// The sheets of a list of players.
pub open spec fn sheets(players: Seq<Player>) -> Seq<Sheet> {
    players.map_values(|player: Player| sheet_of(player))
}

/// The players that the rows of a page are, and the state of the random
/// source afterwards. The rows are read in order. Each row that is a player
/// gets the next identity from `first_id` on, and a quality of
/// `QUALITY_FLOOR` plus a draw from `0..QUALITY_SPREAD`; for a row that is no
/// player nothing is drawn.
pub open spec fn scouted(rows: Seq<Seq<CellText>>, first_id: int, state: Seq<u8>) -> (
    Seq<Sheet>,
    Seq<u8>,
)
    decreases rows.len(),
{
    if rows.len() == 0 {
        (Seq::empty(), state)
    } else {
        let (before, then) = scouted(rows.drop_last(), first_id, state);
        let values = row_values(rows.last());
        if is_player_row(values) {
            (
                before.push(
                    Sheet {
                        id: first_id + before.len(),
                        name: values[0],
                        dob: values[2],
                        height: values[3],
                        position: position_coded(lowercase(values[4])),
                        quality: QUALITY_FLOOR + drawn_value(then, 0, QUALITY_SPREAD),
                    },
                ),
                state_after_draw(then, 0, QUALITY_SPREAD),
            )
        } else {
            (before, then)
        }
    }
}

/// Reads the players of a page from its rows.
pub fn players_from_rows(
    rows: &Vec<Vec<Cell>>,
    first_id: u32,
    source: &mut RandomSource,
) -> (players: Vec<Player>)
    requires
        first_id + rows.len() <= u32::MAX,
    ensures
        sheets(players@) == scouted(page_texts(rows@), first_id as int, old(source).state()).0,
        final(source).state() == scouted(page_texts(rows@), first_id as int, old(source).state()).1,
{
    let mut players: Vec<Player> = Vec::new();
    let mut index: usize = 0;
    while index < rows.len()
        invariant
            index <= rows.len(),
            first_id + rows.len() <= u32::MAX,
            players.len() <= index,
            sheets(players@) == scouted(
                page_texts(rows@).take(index as int),
                first_id as int,
                old(source).state(),
            ).0,
            source.state() == scouted(
                page_texts(rows@).take(index as int),
                first_id as int,
                old(source).state(),
            ).1,
        decreases rows.len() - index,
    {
        proof {
            assert(page_texts(rows@).take(index + 1).drop_last() == page_texts(rows@).take(
                index as int,
            ));
        }
        let values = read_row(&rows[index]);
        if values.len() >= PLAYER_VALUES {
            let quality = quality_of_draw(source.draw(0, QUALITY_SPREAD));
            let id = first_id + players.len() as u32;
            match player_from_row(&values, id, quality) {
                Some(player) => {
                    players.push(player);
                },
                None => {},
            }
        }
        index += 1;
    }
    proof {
        assert(page_texts(rows@).take(index as int) == page_texts(rows@));
    }
    players
}

/// Why a page could not be read.
#[derive(PartialEq, Eq, Structural, Clone, Copy, Debug)]
pub enum PageError {
    /// A selector is not one that can be parsed.
    BadSelector,
    /// The page has more rows than identities are left from the first on.
    TooManyRows,
}

/// The cells that a page holds, row by row, in the order of the page: the
/// rows that `rows` selects inside what `tables` selects, and in each row what
/// `cells` selects, each with the markup inside it and inside everything in
/// it that `links` selects. Nothing where a selector cannot be parsed.
pub uninterp spec fn selected_cells(
    page: Seq<char>,
    tables: Seq<char>,
    rows: Seq<char>,
    cells: Seq<char>,
    links: Seq<char>,
) -> Option<Seq<Seq<CellText>>>;

/// Hands the page to the `scraper` crate and brings back what it selects, as
/// plain values: the selectors are parsed with `Selector::parse`, the page
/// with `Html::parse_document`; `select` walks from the tables to their rows,
/// from a row to its cells and from a cell to its links, and `inner_html`
/// gives the markup of a cell and of each of its links. Trusted, not proved:
/// what is found depends on the page and on the four selectors alone. What it
/// is on a given page is not stated.
#[verifier::external_body]
fn select_cells(page: &str, tables: &str, rows: &str, cells: &str, links: &str) -> (found: Option<
    Vec<Vec<Cell>>,
>)
    ensures
        selected_cells(page@, tables@, rows@, cells@, links@) == match found {
            Some(held) => Some(page_texts(held@)),
            None => None,
        },
{
    let (tables, rows) = (Selector::parse(tables).ok()?, Selector::parse(rows).ok()?);
    let (cells, links) = (Selector::parse(cells).ok()?, Selector::parse(links).ok()?);
    let document = Html::parse_document(page);
    let cell = |held: ElementRef| Cell {
        markup: held.inner_html(),
        links: held.select(&links).map(|link| link.inner_html()).collect(),
    };
    let rows = document.select(&tables).flat_map(|table| table.select(&rows));
    Some(rows.map(|row| row.select(&cells).map(cell).collect()).collect())
}

/// The players that a page gives, and the state of the random source
/// afterwards. The tables of the page are those of class `standard_tabelle`;
/// their rows are read in the order of the page, each from its cells.
pub open spec fn page_players(page: Seq<char>, first_id: u32, state: Seq<u8>) -> Result<
    (Seq<Sheet>, Seq<u8>),
    PageError,
> {
    match selected_cells(page, "table.standard_tabelle"@, "tr"@, "td"@, "a"@) {
        None => Err(PageError::BadSelector),
        Some(rows) => if first_id + rows.len() > u32::MAX {
            Err(PageError::TooManyRows)
        } else {
            Ok(scouted(rows, first_id as int, state))
        },
    }
}

/// Reads the players of a page from its markup. The players get identities
/// from `first_id` on. On an error nothing is drawn.
pub fn read_page(page: &str, first_id: u32, source: &mut RandomSource) -> (players: Result<
    Vec<Player>,
    PageError,
>)
    ensures
        match page_players(page@, first_id, old(source).state()) {
            Ok((read, state)) => {
                &&& players matches Ok(found) && sheets(found@) == read
                &&& final(source).state() == state
            },
            Err(error) => {
                &&& players == Err::<Vec<Player>, PageError>(error)
                &&& final(source).state() == old(source).state()
            },
        },
{
    match select_cells(page, "table.standard_tabelle", "tr", "td", "a") {
        None => Err(PageError::BadSelector),
        Some(rows) => {
            if rows.len() > (u32::MAX - first_id) as usize {
                Err(PageError::TooManyRows)
            } else {
                Ok(players_from_rows(&rows, first_id, source))
            }
        },
    }
}

} // verus!
