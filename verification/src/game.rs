//! The games a room can host, and the topic cards of the Gecko game.
use vstd::prelude::*;
use crate::text::{decimal, owned, push_decimal};

verus! {

/// Rows of the word grid on a topic card.
pub const TOPIC_GRID_ROWS: usize = 4;

/// Columns of the word grid on a topic card.
pub const TOPIC_GRID_COLS: usize = 4;

/// The games a room can be created for.
#[derive(Debug, PartialEq, Eq, Clone, Copy, Structural)]
pub enum GameKind {
    Gecko,
}

impl GameKind {
    /// Every game kind, in the order a player is offered them.
    pub fn values() -> (all: &'static [GameKind])
        ensures
            all@ == seq![GameKind::Gecko],
    {
        &[GameKind::Gecko]
    }

    /// The name of the game (what `Display` writes).
    pub fn to_string(&self) -> (s: String)
        ensures
            s@ == game_name(*self),
    {
        match self {
            GameKind::Gecko => owned("Gecko"),
        }
    }
}

/// The name shown for a game kind.
pub open spec fn game_name(kind: GameKind) -> Seq<char> {
    match kind {
        GameKind::Gecko => "Gecko"@,
    }
}

/// A topic card: a name and the words of its grid, row by row.
#[derive(Debug, PartialEq, Eq)]
pub struct Topic {
    pub name: String,
    pub words: Vec<String>,
}

/// The position in `words` of the word in grid cell (`row`, `col`).
pub open spec fn grid_index(row: int, col: int) -> int {
    row * TOPIC_GRID_COLS + col
}

/// The words of one row of a card, left to right.
pub open spec fn grid_row_spec(words: Seq<String>, row: int) -> Seq<String> {
    Seq::new(TOPIC_GRID_COLS as nat, |col: int| words[grid_index(row, col)])
}

/// Whether a card has a word for every cell of its grid.
pub open spec fn fills_grid(topic: &Topic) -> bool {
    topic.words.len() >= TOPIC_GRID_ROWS * TOPIC_GRID_COLS
}

/// One row of a card as shown: its number, counted from 1, and its words.
pub struct GridRow {
    pub number: usize,
    pub words: Vec<String>,
}

/// The rows of a topic card as the card shows them: row `r` is numbered
/// `r + 1` and holds the words `r * 4 .. r * 4 + 4`.
pub fn topic_rows(topic: &Topic) -> (rows: Vec<GridRow>)
    requires
        fills_grid(topic),
    ensures
        rows.len() == TOPIC_GRID_ROWS,
        forall|r: int|
            0 <= r < TOPIC_GRID_ROWS ==> {
                &&& #[trigger] rows[r].number == r + 1
                &&& rows[r].words@ == grid_row_spec(topic.words@, r)
            },
{
    let mut rows: Vec<GridRow> = Vec::new();
    let mut row: usize = 0;
    while row < TOPIC_GRID_ROWS
        invariant
            row <= TOPIC_GRID_ROWS,
            fills_grid(topic),
            rows.len() == row,
            forall|r: int|
                0 <= r < row ==> {
                    &&& #[trigger] rows[r].number == r + 1
                    &&& rows[r].words@ == grid_row_spec(topic.words@, r)
                },
        decreases TOPIC_GRID_ROWS - row,
    {
        let mut cells: Vec<String> = Vec::new();
        let mut col: usize = 0;
        while col < TOPIC_GRID_COLS
            invariant
                col <= TOPIC_GRID_COLS,
                row < TOPIC_GRID_ROWS,
                fills_grid(topic),
                cells.len() == col,
                forall|c: int|
                    0 <= c < col ==> #[trigger] cells[c] == topic.words[grid_index(row as int, c)],
            decreases TOPIC_GRID_COLS - col,
        {
            let i = row * TOPIC_GRID_COLS + col;
            cells.push(topic.words[i].clone());
            col = col + 1;
        }
        assert(cells@ =~= grid_row_spec(topic.words@, row as int));
        rows.push(GridRow { number: row + 1, words: cells });
        row = row + 1;
    }
    rows
}

/// The names of the topics, in order (the topic list the server offers).
pub fn topic_names(topics: &Vec<Topic>) -> (names: Vec<String>)
    ensures
        names.len() == topics.len(),
        forall|i: int| 0 <= i < topics.len() ==> #[trigger] names[i]@ == topics[i].name@,
{
    let mut names: Vec<String> = Vec::new();
    let mut i: usize = 0;
    while i < topics.len()
        invariant
            i <= topics.len(),
            names.len() == i,
            forall|k: int| 0 <= k < i ==> #[trigger] names[k]@ == topics[k].name@,
        decreases topics.len() - i,
    {
        names.push(topics[i].name.clone());
        i = i + 1;
    }
    names
}

/// The message of the answer to a request for a topic that does not exist
/// (spelt as the server spells it).
pub open spec fn unknown_topic_message(topic_id: nat) -> Seq<char> {
    "Unkonwn topic: "@ + decimal(topic_id)
}

/// The topic at position `topic_id`, or the message of a not-found answer.
pub fn get_topic(topics: &Vec<Topic>, topic_id: usize) -> (r: Result<&Topic, String>)
    ensures
        topic_id < topics.len() ==> (r matches Ok(t) && t == &topics[topic_id as int]),
        topic_id >= topics.len() ==> (r matches Err(m) && m@ == unknown_topic_message(
            topic_id as nat,
        )),
{
    if topic_id < topics.len() {
        Ok(&topics[topic_id])
    } else {
        let mut m = owned("Unkonwn topic: ");
        push_decimal(&mut m, topic_id as u64);
        Err(m)
    }
}

/// A position picked at random below `len`.
/// Trusted: `rand::Rng::gen_range(0..len)` on `rand::thread_rng()` (rand
/// 0.8), which panics on an empty range; the contract states only that the
/// result lies in the range, which rand's documentation promises.
#[verifier::external_body]
fn random_index(len: usize) -> (i: usize)
    requires
        len > 0,
    ensures
        i < len,
{
    rand::Rng::gen_range(&mut rand::thread_rng(), 0..len)
}

/// A topic card picked at random.
pub fn choose_random_card(topics: &Vec<Topic>) -> (t: &Topic)
    requires
        topics.len() > 0,
    ensures
        exists|i: int| 0 <= i < topics.len() && t == &topics[i],
{
    let i = random_index(topics.len());
    &topics[i]
}

} // verus!
