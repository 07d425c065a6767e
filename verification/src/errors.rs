//! Why a line of the server cannot be understood.

use vstd::prelude::*;

use crate::moves::{PatternError, SquareError};
use crate::numbers::IntegerError;

verus! {

/// Why a line of the server cannot be understood.
#[derive(Debug, Clone, Copy, PartialEq, Eq)]
pub enum ParseError {
    /// A word is missing.
    UnexpectedEnd,
    /// A word should be a number.
    Integer(IntegerError),
    /// A seek asks for a color that there is not.
    UnknownColor,
    /// A line about seeks neither adds nor removes one.
    UnexpectedSeek,
    /// A line about the game list neither adds nor removes a game.
    UnexpectedGameList,
    /// A game ends with a result that there is not.
    MalformedResult,
    /// A piece is placed that there is not.
    UnexpectedPiece,
    /// A stack moves between squares of different columns and rows, or not at all.
    NotStraight,
    /// A greeting does not end with an exclamation mark.
    MissingExclamation,
    /// A word should be a square.
    Square(SquareError),
    /// Words should be the drop counts of a spread.
    Pattern(PatternError),
}

impl ParseError {
    /// What the error says in words.
    pub open spec fn spec_message(self) -> Seq<char> {
        match self {
            ParseError::UnexpectedEnd => "unexpected end of tokens"@,
            ParseError::Integer(e) => e.spec_message(),
            ParseError::UnknownColor => "unknown color"@,
            ParseError::UnexpectedSeek => "unexpected \"Seek\" message sub-type"@,
            ParseError::UnexpectedGameList => "unexpected \"GameList\" message sub-type"@,
            ParseError::MalformedResult => "malformed game result"@,
            ParseError::UnexpectedPiece => "unexpected piece"@,
            ParseError::NotStraight => "start and end squares don't form a straight line"@,
            ParseError::MissingExclamation => "missing exclamation mark after username"@,
            ParseError::Square(e) => e.spec_message(),
            ParseError::Pattern(e) => e.spec_message(),
        }
    }

    /// What the error says in words.
    pub fn message(self) -> (r: &'static str)
        ensures
            r@ == self.spec_message(),
    {
        match self {
            ParseError::UnexpectedEnd => "unexpected end of tokens",
            ParseError::Integer(e) => e.message(),
            ParseError::UnknownColor => "unknown color",
            ParseError::UnexpectedSeek => "unexpected \"Seek\" message sub-type",
            ParseError::UnexpectedGameList => "unexpected \"GameList\" message sub-type",
            ParseError::MalformedResult => "malformed game result",
            ParseError::UnexpectedPiece => "unexpected piece",
            ParseError::NotStraight => "start and end squares don't form a straight line",
            ParseError::MissingExclamation => "missing exclamation mark after username",
            ParseError::Square(e) => e.message(),
            ParseError::Pattern(e) => e.message(),
        }
    }
}

} // verus!
