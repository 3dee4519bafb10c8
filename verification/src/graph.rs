//! The bar graph of the gyroscope reading on the terminal.
//!
//! `graph <seconds>` draws one line for each status that is polled: a bar from
//! the left edge whose length follows the reading, with a mark at the middle
//! of the line. The width of the line is the width of the terminal.

use vstd::prelude::*;
use crate::console::Complaint;
use crate::text::{parse_unsigned, unsigned_of, word_views};

verus! {

/// What a `graph` command asks for.
#[derive(Clone, Copy, Debug, PartialEq, Eq, Structural)]
pub struct GraphPlan {
    /// Number of cells in a line.
    pub width: usize,
    /// How long the graph is drawn.
    pub seconds: u64,
}

/// The character of a filled cell.
pub const FILLED: char = '\u{2588}';

/// The character of an empty cell.
pub const EMPTY: char = ' ';

/// The character that marks the middle of the line.
pub const MARK: char = '|';

/// What `graph <seconds>` asks for when the terminal has the given
/// dimensions, width first, or none.
pub open spec fn graph_planned(
    words: Seq<Seq<u8>>,
    connected: bool,
    dimensions: Option<(usize, usize)>,
) -> Result<GraphPlan, Complaint> {
    if !connected {
        Err(Complaint::NotConnected)
    } else if words.len() != 2 {
        Err(Complaint::MissingArguments)
    } else {
        match dimensions {
            None => Err(Complaint::NoTerminal),
            Some(size) => match unsigned_of(words[1]) {
                None => Err(Complaint::IllegalValue),
                Some(seconds) => Ok(GraphPlan { width: size.0, seconds }),
            },
        }
    }
}

/// The cell at place `i` of a line of `width` cells of which `cells` are
/// filled: the mark in the middle, filled before the end of the bar, empty
/// behind it.
pub open spec fn bar_cell(width: usize, cells: usize, i: int) -> char {
    if i == width / 2 {
        MARK
    } else if i < cells {
        FILLED
    } else {
        EMPTY
    }
}

/// A line of `width` cells of which `cells` are filled.
pub open spec fn bar(width: usize, cells: usize) -> Seq<char> {
    Seq::new(width as nat, |i: int| bar_cell(width, cells, i))
}

/// Asks `term_size::dimensions` for the size of the terminal, width first.
///
/// Nothing is claimed of the answer: it depends on the streams of the process
/// and on the platform, and the function returns `None` where it finds no
/// terminal.
#[verifier::external_body]
fn terminal_dimensions() -> (dimensions: Option<(usize, usize)>) {
    term_size::dimensions()
}

/// Reads `graph <seconds>` for a terminal of the given dimensions.
pub fn graph_command_with(
    words: &Vec<Vec<u8>>,
    connected: bool,
    dimensions: Option<(usize, usize)>,
) -> (result: Result<GraphPlan, Complaint>)
    ensures
        result == graph_planned(word_views(words), connected, dimensions),
{
    if !connected {
        return Err(Complaint::NotConnected);
    }
    if words.len() != 2 {
        return Err(Complaint::MissingArguments);
    }
    let size = match dimensions {
        Some(size) => size,
        None => {
            return Err(Complaint::NoTerminal);
        },
    };
    let number = words[1].as_slice();
    assert(number@ == word_views(words)[1]);
    match parse_unsigned(number) {
        Some(seconds) => Ok(GraphPlan { width: size.0, seconds }),
        None => Err(Complaint::IllegalValue),
    }
}

/// Reads `graph <seconds>` for the terminal of this process.
///
/// The terminal is asked for its size only if the command has got that far.
/// The result is what [`graph_planned`] gives for the answer, whatever the
/// answer was.
pub fn graph_command(words: &Vec<Vec<u8>>, connected: bool) -> (result: Result<
    GraphPlan,
    Complaint,
>)
    ensures
        exists|dimensions: Option<(usize, usize)>|
            result == #[trigger] graph_planned(word_views(words), connected, dimensions),
        !connected ==> result == Err::<GraphPlan, Complaint>(Complaint::NotConnected),
        connected && words@.len() != 2 ==> result == Err::<GraphPlan, Complaint>(
            Complaint::MissingArguments,
        ),
        result is Ok ==> unsigned_of(word_views(words)[1]) == Some(result->Ok_0.seconds),
{
    if !connected || words.len() != 2 {
        return graph_command_with(words, connected, None);
    }
    let dimensions = terminal_dimensions();
    graph_command_with(words, connected, dimensions)
}

/// Draws a line of `width` cells of which the first `cells` are filled.
pub fn render_bar(width: usize, cells: usize) -> (line: Vec<char>)
    ensures
        line@ == bar(width, cells),
{
    let mut line: Vec<char> = Vec::with_capacity(width);
    let middle: usize = width / 2;
    let mut i: usize = 0;
    while i < width
        invariant
            i <= width,
            middle == width / 2,
            line@.len() == i,
            forall|k: int| 0 <= k < i ==> line@[k] == bar_cell(width, cells, k),
        decreases width - i,
    {
        if i == middle {
            line.push(MARK);
        } else if i < cells {
            line.push(FILLED);
        } else {
            line.push(EMPTY);
        }
        i += 1;
    }
    assert(line@ =~= bar(width, cells));
    line
}

} // verus!
