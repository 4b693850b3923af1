//! Required arguments and the choice of board.
use crate::report::{decimal, decimal_string};
use vstd::prelude::*;

verus! {

/// An error of the command layer.
#[derive(Debug)]
pub enum Error {
    /// A required argument, named by the field, is missing.
    Config(String),
}

impl Error {
    /// The message shown for the error.
    pub fn message(&self) -> (r: String)
        ensures
            r@ == match self {
                Error::Config(name) => "missing required argument `"@ + name@ + "`"@,
            },
    {
        match self {
            Error::Config(name) => String::from_str("missing required argument `").concat(
                name.as_str(),
            ).concat("`"),
        }
    }
}

/// `value`, or a configuration error naming `name` where it is absent.
pub fn require_arg(name: &str, value: Option<String>) -> (r: Result<String, Error>)
    ensures
        value matches Some(v) ==> r == Ok::<String, Error>(v),
        value is None ==> (r matches Err(Error::Config(n)) && n@ == name@),
{
    match value {
        Some(v) => Ok(v),
        None => Err(Error::Config(String::from_str(name))),
    }
}

/// Where the board of a command comes from.
pub enum BoardSource {
    /// The board id was given.
    Board(String),
    /// The board is the origin board of this sprint.
    SprintOrigin(String),
}

/// Chooses the board: the given board id, else the origin board of the given
/// sprint; a configuration error for "sprint" where neither is given.
pub fn board_source(board: Option<String>, sprint: Option<String>) -> (r: Result<
    BoardSource,
    Error,
>)
    ensures
        board matches Some(b) ==> (r matches Ok(BoardSource::Board(x)) && x@ == b@),
        board is None ==> (sprint matches Some(s) ==> (r matches Ok(
            BoardSource::SprintOrigin(x),
        ) && x@ == s@)),
        board is None && sprint is None ==> (r matches Err(Error::Config(n)) && n@ == "sprint"@),
{
    match board {
        Some(b) => Ok(BoardSource::Board(b)),
        None => match sprint {
            Some(s) => Ok(BoardSource::SprintOrigin(s)),
            None => Err(Error::Config(String::from_str("sprint"))),
        },
    }
}

/// The board id of a sprint's origin board; a configuration error for
/// "board" where the sprint has none.
pub fn origin_board(origin: Option<u64>) -> (r: Result<String, Error>)
    ensures
        origin matches Some(id) ==> (r matches Ok(x) && x@ == decimal(id as nat)),
        origin is None ==> (r matches Err(Error::Config(n)) && n@ == "board"@),
{
    match origin {
        Some(id) => Ok(decimal_string(id as u128)),
        None => Err(Error::Config(String::from_str("board"))),
    }
}

} // verus!
