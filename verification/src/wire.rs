//! The lines that the server sends, read word by word and kept as close to
//! the line as possible.

use vstd::prelude::*;

use crate::data_types::Color;
use crate::errors::ParseError;
use crate::moves::{
    placement_words, read_placement, read_spread, spread_words, Move, MoveView,
};
use crate::numbers::{
    decimal, i32_value, read_i32, read_u32, read_u64, signed_decimal, u32_value, u64_value,
    write_i32, write_u32, write_u64,
};
use crate::text::{
    after_command, command, read_word, same_text, spaced, spaced_push, split_command, split_words,
    texts, word, words,
};
use crate::time::Duration;

verus! {

/// What a line says on whether a game is rated.
#[derive(Debug, Clone, Copy, PartialEq, Eq, Structural)]
pub enum Rating {
    /// The word is `0`.
    Rated,
    /// The word is `1`.
    Unrated,
    /// The word is neither.
    Unclear,
}

/// The terms of a game, as a line gives them.
#[derive(Debug, Clone, Copy, PartialEq, Eq, Structural)]
pub struct Terms {
    pub size: u32,
    pub initial_time: Duration,
    pub increment: Duration,
    pub half_komi: i32,
    pub flat_count: u32,
    pub cap_count: u32,
    pub rating: Rating,
    pub tournament: bool,
}

/// A line of the server.
#[derive(Debug)]
pub enum ServerLine {
    /// A request is granted.
    Okay,
    /// A request is refused.
    NotOk,
    /// The server greets the user by this name.
    LoggedIn(String),
    /// A seek is opened.
    AddSeek {
        id: u32,
        owner: String,
        color: Option<Color>,
        terms: Terms,
        opponent: Option<String>,
    },
    /// The seek with this number is closed.
    RemoveSeek(u32),
    /// A game is listed.
    AddGame { id: u32, white: String, black: String, terms: Terms },
    /// The game with this number is no longer listed.
    RemoveGame(u32),
    /// The user's own game with this number starts.
    StartGame(u32),
    /// White's and Black's remaining time in the game with this number.
    SyncClocks(u32, Duration, Duration),
    /// The opponent plays in the game with this number.
    Play(u32, Move),
    /// The game with this number ends with the result that the word names.
    Over(u32, String),
    /// A player leaves the game with this number for good.
    Abandoned(u32),
    /// So many users are online.
    Online(u32),
    /// The server says something.
    Message(String),
    /// The server complains.
    Error(String),
    /// The line is none of the above.
    Unknown,
}

/// A line of the server.
pub enum ServerLineView {
    Okay,
    NotOk,
    LoggedIn(Seq<char>),
    AddSeek {
        id: u32,
        owner: Seq<char>,
        color: Option<Color>,
        terms: Terms,
        opponent: Option<Seq<char>>,
    },
    RemoveSeek(u32),
    AddGame { id: u32, white: Seq<char>, black: Seq<char>, terms: Terms },
    RemoveGame(u32),
    StartGame(u32),
    SyncClocks(u32, Duration, Duration),
    Play(u32, MoveView),
    Over(u32, Seq<char>),
    Abandoned(u32),
    Online(u32),
    Message(Seq<char>),
    Error(Seq<char>),
    Unknown,
}

/// The text of a name, if there is one.
pub open spec fn name_view(name: Option<String>) -> Option<Seq<char>> {
    match name {
        Some(s) => Some(s@),
        None => None,
    }
}

impl View for ServerLine {
    type V = ServerLineView;

    open spec fn view(&self) -> ServerLineView {
        match *self {
            ServerLine::Okay => ServerLineView::Okay,
            ServerLine::NotOk => ServerLineView::NotOk,
            ServerLine::LoggedIn(name) => ServerLineView::LoggedIn(name@),
            ServerLine::AddSeek { id, owner, color, terms, opponent } => ServerLineView::AddSeek {
                id,
                owner: owner@,
                color,
                terms,
                opponent: name_view(opponent),
            },
            ServerLine::RemoveSeek(id) => ServerLineView::RemoveSeek(id),
            ServerLine::AddGame { id, white, black, terms } => ServerLineView::AddGame {
                id,
                white: white@,
                black: black@,
                terms,
            },
            ServerLine::RemoveGame(id) => ServerLineView::RemoveGame(id),
            ServerLine::StartGame(id) => ServerLineView::StartGame(id),
            ServerLine::SyncClocks(id, white, black) => ServerLineView::SyncClocks(
                id,
                white,
                black,
            ),
            ServerLine::Play(id, m) => ServerLineView::Play(id, m@),
            ServerLine::Over(id, result) => ServerLineView::Over(id, result@),
            ServerLine::Abandoned(id) => ServerLineView::Abandoned(id),
            ServerLine::Online(count) => ServerLineView::Online(count),
            ServerLine::Message(text) => ServerLineView::Message(text@),
            ServerLine::Error(text) => ServerLineView::Error(text@),
            ServerLine::Unknown => ServerLineView::Unknown,
        }
    }
}

/// The word at index `i` as a `u32`.
pub open spec fn u32_word(parts: Seq<Seq<char>>, i: int) -> Result<u32, ParseError> {
    match word(parts, i) {
        Err(e) => Err(e),
        Ok(s) => match u32_value(s) {
            Err(e) => Err(ParseError::Integer(e)),
            Ok(n) => Ok(n),
        },
    }
}

/// The word at index `i` as a `u64`.
pub open spec fn u64_word(parts: Seq<Seq<char>>, i: int) -> Result<u64, ParseError> {
    match word(parts, i) {
        Err(e) => Err(e),
        Ok(s) => match u64_value(s) {
            Err(e) => Err(ParseError::Integer(e)),
            Ok(n) => Ok(n),
        },
    }
}

/// The word at index `i` as an `i32`.
pub open spec fn i32_word(parts: Seq<Seq<char>>, i: int) -> Result<i32, ParseError> {
    match word(parts, i) {
        Err(e) => Err(e),
        Ok(s) => match i32_value(s) {
            Err(e) => Err(ParseError::Integer(e)),
            Ok(n) => Ok(n),
        },
    }
}

/// The size, the initial time and the increment, both in seconds, that stand
/// from index `i` on.
pub open spec fn clock_words(parts: Seq<Seq<char>>, i: int) -> Result<
    (u32, Duration, Duration),
    ParseError,
> {
    match u32_word(parts, i) {
        Err(e) => Err(e),
        Ok(size) => match u64_word(parts, i + 1) {
            Err(e) => Err(e),
            Ok(initial_time) => match u64_word(parts, i + 2) {
                Err(e) => Err(e),
                Ok(increment) => Ok(
                    (
                        size,
                        Duration::spec_from_secs(initial_time),
                        Duration::spec_from_secs(increment),
                    ),
                ),
            },
        },
    }
}

/// The color that the word at index `i` asks for.
pub open spec fn color_word(parts: Seq<Seq<char>>, i: int) -> Result<Option<Color>, ParseError> {
    match word(parts, i) {
        Err(e) => Err(e),
        Ok(s) => if s == "A"@ {
            Ok(None)
        } else if s == "W"@ {
            Ok(Some(Color::White))
        } else if s == "B"@ {
            Ok(Some(Color::Black))
        } else {
            Err(ParseError::UnknownColor)
        },
    }
}

/// What a word says on whether a game is rated.
pub open spec fn rating_of(s: Seq<char>) -> Rating {
    if s == "0"@ {
        Rating::Rated
    } else if s == "1"@ {
        Rating::Unrated
    } else {
        Rating::Unclear
    }
}

/// The terms with the given size and times, the rest of which stands from
/// index `i` on.
pub open spec fn terms_words(
    parts: Seq<Seq<char>>,
    i: int,
    clock: (u32, Duration, Duration),
) -> Result<Terms, ParseError> {
    match i32_word(parts, i) {
        Err(e) => Err(e),
        Ok(half_komi) => match u32_word(parts, i + 1) {
            Err(e) => Err(e),
            Ok(flat_count) => match u32_word(parts, i + 2) {
                Err(e) => Err(e),
                Ok(cap_count) => match word(parts, i + 3) {
                    Err(e) => Err(e),
                    Ok(rating) => match word(parts, i + 4) {
                        Err(e) => Err(e),
                        Ok(tournament) => Ok(
                            Terms {
                                size: clock.0,
                                initial_time: clock.1,
                                increment: clock.2,
                                half_komi,
                                flat_count,
                                cap_count,
                                rating: rating_of(rating),
                                tournament: tournament == "1"@,
                            },
                        ),
                    },
                },
            },
        },
    }
}

/// The opponent that the word at index `i` names; the empty word names none.
pub open spec fn opponent_word(parts: Seq<Seq<char>>, i: int) -> Result<
    Option<Seq<char>>,
    ParseError,
> {
    match word(parts, i) {
        Err(e) => Err(e),
        Ok(s) => if s.len() == 0 {
            Ok(None)
        } else {
            Ok(Some(s))
        },
    }
}

/// What the words after `Seek new` say of the seek with the given number and
/// owner.
pub open spec fn new_seek_words(parts: Seq<Seq<char>>, id: u32, owner: Seq<char>) -> Result<
    ServerLineView,
    ParseError,
> {
    match clock_words(parts, 3) {
        Err(e) => Err(e),
        Ok(clock) => match color_word(parts, 6) {
            Err(e) => Err(e),
            Ok(color) => match terms_words(parts, 7, clock) {
                Err(e) => Err(e),
                Ok(terms) => match opponent_word(parts, 12) {
                    Err(e) => Err(e),
                    Ok(opponent) => Ok(
                        ServerLineView::AddSeek { id, owner, color, terms, opponent },
                    ),
                },
            },
        },
    }
}

/// What the words after `Seek` say.
pub open spec fn seek_words(parts: Seq<Seq<char>>) -> Result<ServerLineView, ParseError> {
    match word(parts, 0) {
        Err(e) => Err(e),
        Ok(kind) => if kind == "new"@ {
            match u32_word(parts, 1) {
                Err(e) => Err(e),
                Ok(id) => match word(parts, 2) {
                    Err(e) => Err(e),
                    Ok(owner) => new_seek_words(parts, id, owner),
                },
            }
        } else if kind == "remove"@ {
            match u32_word(parts, 1) {
                Err(e) => Err(e),
                Ok(id) => Ok(ServerLineView::RemoveSeek(id)),
            }
        } else {
            Err(ParseError::UnexpectedSeek)
        },
    }
}

/// What the words after `GameList Add` say of the game with the given number.
pub open spec fn new_game_words(parts: Seq<Seq<char>>, id: u32) -> Result<
    ServerLineView,
    ParseError,
> {
    match word(parts, 2) {
        Err(e) => Err(e),
        Ok(white) => match word(parts, 3) {
            Err(e) => Err(e),
            Ok(black) => match clock_words(parts, 4) {
                Err(e) => Err(e),
                Ok(clock) => match terms_words(parts, 7, clock) {
                    Err(e) => Err(e),
                    Ok(terms) => Ok(ServerLineView::AddGame { id, white, black, terms }),
                },
            },
        },
    }
}

/// What the words after `GameList` say.
pub open spec fn game_list_words(parts: Seq<Seq<char>>) -> Result<ServerLineView, ParseError> {
    match word(parts, 0) {
        Err(e) => Err(e),
        Ok(kind) => if kind == "Add"@ {
            match u32_word(parts, 1) {
                Err(e) => Err(e),
                Ok(id) => new_game_words(parts, id),
            }
        } else if kind == "Remove"@ {
            match u32_word(parts, 1) {
                Err(e) => Err(e),
                Ok(id) => Ok(ServerLineView::RemoveGame(id)),
            }
        } else {
            Err(ParseError::UnexpectedGameList)
        },
    }
}

/// A move in the game with the given number.
pub open spec fn play_of(id: u32, m: Result<MoveView, ParseError>) -> Result<
    ServerLineView,
    ParseError,
> {
    match m {
        Err(e) => Err(e),
        Ok(m) => Ok(ServerLineView::Play(id, m)),
    }
}

/// What the words after `Game` say once the game's number is read.
pub open spec fn own_game_words(parts: Seq<Seq<char>>, id: u32) -> Result<
    ServerLineView,
    ParseError,
> {
    match word(parts, 1) {
        Err(e) => Err(e),
        Ok(kind) => if kind == "Timems"@ {
            match u64_word(parts, 2) {
                Err(e) => Err(e),
                Ok(white) => match u64_word(parts, 3) {
                    Err(e) => Err(e),
                    Ok(black) => Ok(
                        ServerLineView::SyncClocks(
                            id,
                            Duration::spec_from_millis(white),
                            Duration::spec_from_millis(black),
                        ),
                    ),
                },
            }
        } else if kind == "Over"@ {
            match word(parts, 2) {
                Err(e) => Err(e),
                Ok(result) => Ok(ServerLineView::Over(id, result)),
            }
        } else if kind == "Abandoned."@ {
            Ok(ServerLineView::Abandoned(id))
        } else if kind == "P"@ {
            play_of(id, placement_words(parts, 2))
        } else if kind == "M"@ {
            play_of(id, spread_words(parts, 2))
        } else {
            Ok(ServerLineView::Unknown)
        },
    }
}

/// What the words after `Game` say.
pub open spec fn game_words(parts: Seq<Seq<char>>) -> Result<ServerLineView, ParseError> {
    match word(parts, 0) {
        Err(e) => Err(e),
        Ok(kind) => if kind == "Start"@ {
            match u32_word(parts, 1) {
                Err(e) => Err(e),
                Ok(id) => Ok(ServerLineView::StartGame(id)),
            }
        } else {
            match u32_word(parts, 0) {
                Err(e) => Err(e),
                Ok(id) => own_game_words(parts, id),
            }
        },
    }
}

/// Whom a greeting greets.
pub open spec fn greeting(rest: Seq<char>) -> Result<ServerLineView, ParseError> {
    if rest.len() > 0 && rest.last() == '!' {
        Ok(ServerLineView::LoggedIn(rest.drop_last()))
    } else {
        Err(ParseError::MissingExclamation)
    }
}

/// What the line `s` says.
pub open spec fn line_value(s: Seq<char>) -> Result<ServerLineView, ParseError> {
    let rest = after_command(s);
    if command(s) == "OK"@ {
        Ok(ServerLineView::Okay)
    } else if command(s) == "NOK"@ {
        Ok(ServerLineView::NotOk)
    } else if command(s) == "Seek"@ {
        seek_words(words(rest))
    } else if command(s) == "GameList"@ {
        game_list_words(words(rest))
    } else if command(s) == "Game"@ {
        game_words(words(rest))
    } else if command(s) == "Online"@ {
        match u32_word(words(rest), 0) {
            Err(e) => Err(e),
            Ok(count) => Ok(ServerLineView::Online(count)),
        }
    } else if command(s) == "Welcome"@ {
        greeting(rest)
    } else if command(s) == "Welcome!"@ || command(s) == "Login"@ {
        Ok(ServerLineView::Message(s))
    } else if command(s) == "Message"@ {
        Ok(ServerLineView::Message(rest))
    } else if command(s) == "Error"@ {
        Ok(ServerLineView::Error(rest))
    } else {
        Ok(ServerLineView::Unknown)
    }
}

/// The model of a line that was read, or why none was.
pub open spec fn read_view(r: Result<ServerLine, ParseError>) -> Result<
    ServerLineView,
    ParseError,
> {
    match r {
        Ok(line) => Ok(line@),
        Err(e) => Err(e),
    }
}

fn u32_at(parts: &Vec<&str>, i: usize) -> (r: Result<u32, ParseError>)
    ensures
        r == u32_word(texts(parts@), i as int),
{
    let s = read_word(parts, i)?;
    match read_u32(s) {
        Err(e) => Err(ParseError::Integer(e)),
        Ok(n) => Ok(n),
    }
}

fn u64_at(parts: &Vec<&str>, i: usize) -> (r: Result<u64, ParseError>)
    ensures
        r == u64_word(texts(parts@), i as int),
{
    let s = read_word(parts, i)?;
    match read_u64(s) {
        Err(e) => Err(ParseError::Integer(e)),
        Ok(n) => Ok(n),
    }
}

fn i32_at(parts: &Vec<&str>, i: usize) -> (r: Result<i32, ParseError>)
    ensures
        r == i32_word(texts(parts@), i as int),
{
    let s = read_word(parts, i)?;
    match read_i32(s) {
        Err(e) => Err(ParseError::Integer(e)),
        Ok(n) => Ok(n),
    }
}

fn clock_at(parts: &Vec<&str>, i: usize) -> (r: Result<(u32, Duration, Duration), ParseError>)
    requires
        i + 2 <= usize::MAX,
    ensures
        r == clock_words(texts(parts@), i as int),
{
    let size = u32_at(parts, i)?;
    let initial_time = u64_at(parts, i + 1)?;
    let increment = u64_at(parts, i + 2)?;
    Ok((size, Duration::from_secs(initial_time), Duration::from_secs(increment)))
}

fn color_at(parts: &Vec<&str>, i: usize) -> (r: Result<Option<Color>, ParseError>)
    ensures
        r == color_word(texts(parts@), i as int),
{
    let s = read_word(parts, i)?;
    if same_text(s, "A") {
        Ok(None)
    } else if same_text(s, "W") {
        Ok(Some(Color::White))
    } else if same_text(s, "B") {
        Ok(Some(Color::Black))
    } else {
        Err(ParseError::UnknownColor)
    }
}

fn terms_at(parts: &Vec<&str>, i: usize, clock: (u32, Duration, Duration)) -> (r: Result<
    Terms,
    ParseError,
>)
    requires
        i + 4 <= usize::MAX,
    ensures
        r == terms_words(texts(parts@), i as int, clock),
{
    let half_komi = i32_at(parts, i)?;
    let flat_count = u32_at(parts, i + 1)?;
    let cap_count = u32_at(parts, i + 2)?;
    let rating = read_word(parts, i + 3)?;
    let tournament = read_word(parts, i + 4)?;
    Ok(
        Terms {
            size: clock.0,
            initial_time: clock.1,
            increment: clock.2,
            half_komi,
            flat_count,
            cap_count,
            rating: if same_text(rating, "0") {
                Rating::Rated
            } else if same_text(rating, "1") {
                Rating::Unrated
            } else {
                Rating::Unclear
            },
            tournament: same_text(tournament, "1"),
        },
    )
}

fn read_seek(parts: &Vec<&str>) -> (r: Result<ServerLine, ParseError>)
    ensures
        read_view(r) == seek_words(texts(parts@)),
{
    let kind = read_word(parts, 0)?;
    if same_text(kind, "new") {
        let id = u32_at(parts, 1)?;
        let owner = read_word(parts, 2)?;
        let clock = clock_at(parts, 3)?;
        let color = color_at(parts, 6)?;
        let terms = terms_at(parts, 7, clock)?;
        let opponent = read_word(parts, 12)?;
        Ok(
            ServerLine::AddSeek {
                id,
                owner: owner.to_owned(),
                color,
                terms,
                opponent: if opponent.is_empty() {
                    None
                } else {
                    Some(opponent.to_owned())
                },
            },
        )
    } else if same_text(kind, "remove") {
        Ok(ServerLine::RemoveSeek(u32_at(parts, 1)?))
    } else {
        Err(ParseError::UnexpectedSeek)
    }
}

fn read_game_list(parts: &Vec<&str>) -> (r: Result<ServerLine, ParseError>)
    ensures
        read_view(r) == game_list_words(texts(parts@)),
{
    let kind = read_word(parts, 0)?;
    if same_text(kind, "Add") {
        let id = u32_at(parts, 1)?;
        let white = read_word(parts, 2)?;
        let black = read_word(parts, 3)?;
        let clock = clock_at(parts, 4)?;
        let terms = terms_at(parts, 7, clock)?;
        Ok(
            ServerLine::AddGame { id, white: white.to_owned(), black: black.to_owned(), terms },
        )
    } else if same_text(kind, "Remove") {
        Ok(ServerLine::RemoveGame(u32_at(parts, 1)?))
    } else {
        Err(ParseError::UnexpectedGameList)
    }
}

fn read_game(parts: &Vec<&str>) -> (r: Result<ServerLine, ParseError>)
    ensures
        read_view(r) == game_words(texts(parts@)),
        r matches Ok(ServerLine::Play(_, m)) ==> m@.valid(),
{
    let kind = read_word(parts, 0)?;
    if same_text(kind, "Start") {
        return Ok(ServerLine::StartGame(u32_at(parts, 1)?));
    }
    let id = u32_at(parts, 0)?;
    let kind = read_word(parts, 1)?;
    if same_text(kind, "Timems") {
        let white = u64_at(parts, 2)?;
        let black = u64_at(parts, 3)?;
        Ok(
            ServerLine::SyncClocks(
                id,
                Duration::from_millis(white),
                Duration::from_millis(black),
            ),
        )
    } else if same_text(kind, "Over") {
        Ok(ServerLine::Over(id, read_word(parts, 2)?.to_owned()))
    } else if same_text(kind, "Abandoned.") {
        Ok(ServerLine::Abandoned(id))
    } else if same_text(kind, "P") {
        Ok(ServerLine::Play(id, read_placement(parts, 2)?))
    } else if same_text(kind, "M") {
        Ok(ServerLine::Play(id, read_spread(parts, 2)?))
    } else {
        Ok(ServerLine::Unknown)
    }
}

fn read_greeting(rest: &str) -> (r: Result<ServerLine, ParseError>)
    ensures
        read_view(r) == greeting(rest@),
{
    let len = rest.unicode_len();
    if len > 0 && rest.get_char(len - 1) == '!' {
        Ok(ServerLine::LoggedIn(rest.substring_char(0, len - 1).to_owned()))
    } else {
        Err(ParseError::MissingExclamation)
    }
}

/// Reads a line of the server.
pub fn read_line(s: &str) -> (r: Result<ServerLine, ParseError>)
    ensures
        read_view(r) == line_value(s@),
        r matches Ok(ServerLine::Play(_, m)) ==> m@.valid(),
{
    let (head, rest) = split_command(s);
    if same_text(head, "OK") {
        Ok(ServerLine::Okay)
    } else if same_text(head, "NOK") {
        Ok(ServerLine::NotOk)
    } else if same_text(head, "Seek") {
        read_seek(&split_words(rest))
    } else if same_text(head, "GameList") {
        read_game_list(&split_words(rest))
    } else if same_text(head, "Game") {
        read_game(&split_words(rest))
    } else if same_text(head, "Online") {
        Ok(ServerLine::Online(u32_at(&split_words(rest), 0)?))
    } else if same_text(head, "Welcome") {
        read_greeting(rest)
    } else if same_text(head, "Welcome!") || same_text(head, "Login") {
        Ok(ServerLine::Message(s.to_owned()))
    } else if same_text(head, "Message") {
        Ok(ServerLine::Message(rest.to_owned()))
    } else if same_text(head, "Error") {
        Ok(ServerLine::Error(rest.to_owned()))
    } else {
        Ok(ServerLine::Unknown)
    }
}

/// The letter for the color that a seek asks for.
pub open spec fn color_text(color: Option<Color>) -> Seq<char> {
    match color {
        None => "A"@,
        Some(Color::White) => "W"@,
        Some(Color::Black) => "B"@,
    }
}

/// The digit for yes or no.
pub open spec fn flag_text(flag: bool) -> Seq<char> {
    if flag {
        "1"@
    } else {
        "0"@
    }
}

/// The name of the opponent, or the empty word.
pub open spec fn opponent_text(opponent: Option<Seq<char>>) -> Seq<char> {
    match opponent {
        Some(name) => name,
        None => Seq::empty(),
    }
}

/// A seek as its owner and the server write it, word by word, after the words
/// that tell what is done with it. Times are cut to whole seconds.
pub open spec fn seek_terms(
    color: Option<Color>,
    terms: Terms,
    opponent: Option<Seq<char>>,
) -> Seq<Seq<char>> {
    seq![
        decimal(terms.size as nat),
        decimal(terms.initial_time.secs as nat),
        decimal(terms.increment.secs as nat),
        color_text(color),
        signed_decimal(terms.half_komi as int),
        decimal(terms.flat_count as nat),
        decimal(terms.cap_count as nat),
        flag_text(terms.rating != Rating::Rated),
        flag_text(terms.tournament),
        opponent_text(opponent),
    ]
}

/// The request to open a seek.
pub open spec fn seek_text(
    color: Option<Color>,
    terms: Terms,
    opponent: Option<Seq<char>>,
) -> Seq<char> {
    "Seek"@ + spaced(seek_terms(color, terms, opponent))
}

/// The request to play a move in the game with the given number.
pub open spec fn play_text(id: u32, m: MoveView) -> Seq<char> {
    "Game#"@ + decimal(id as nat) + spaced(m.words())
}

fn write_flag(out: &mut String, flag: bool)
    ensures
        final(out)@ == old(out)@ + flag_text(flag),
{
    if flag {
        out.append("1");
    } else {
        out.append("0");
    }
}

/// Appends the request to open a seek.
pub fn write_seek(out: &mut String, color: Option<Color>, terms: &Terms, opponent: &Option<String>)
    ensures
        final(out)@ == old(out)@ + seek_text(color, *terms, name_view(*opponent)),
{
    let ghost all = seek_terms(color, *terms, name_view(*opponent));
    out.append("Seek");
    let ghost start = out@;
    assert(out@ =~= start + spaced(all.take(0)));
    out.push(' ');
    write_u32(out, terms.size);
    proof {
        lemma_next_word(out@, start, all, 0);
    }
    out.push(' ');
    write_u64(out, terms.initial_time.as_secs());
    proof {
        lemma_next_word(out@, start, all, 1);
    }
    out.push(' ');
    write_u64(out, terms.increment.as_secs());
    proof {
        lemma_next_word(out@, start, all, 2);
    }
    out.push(' ');
    match color {
        None => out.append("A"),
        Some(Color::White) => out.append("W"),
        Some(Color::Black) => out.append("B"),
    }
    proof {
        lemma_next_word(out@, start, all, 3);
    }
    out.push(' ');
    write_i32(out, terms.half_komi);
    proof {
        lemma_next_word(out@, start, all, 4);
    }
    out.push(' ');
    write_u32(out, terms.flat_count);
    proof {
        lemma_next_word(out@, start, all, 5);
    }
    out.push(' ');
    write_u32(out, terms.cap_count);
    proof {
        lemma_next_word(out@, start, all, 6);
    }
    out.push(' ');
    write_flag(out, terms.rating != Rating::Rated);
    proof {
        lemma_next_word(out@, start, all, 7);
    }
    out.push(' ');
    write_flag(out, terms.tournament);
    proof {
        lemma_next_word(out@, start, all, 8);
    }
    out.push(' ');
    if let Some(name) = opponent {
        out.append(name.as_str());
    }
    proof {
        lemma_next_word(out@, start, all, 9);
        assert(all.take(10) =~= all);
    }
    assert(out@ =~= old(out)@ + seek_text(color, *terms, name_view(*opponent)));
}

/// Writing a space and the next word adds that word to those written.
proof fn lemma_next_word(now: Seq<char>, start: Seq<char>, all: Seq<Seq<char>>, i: int)
    requires
        0 <= i < all.len(),
        now == (start + spaced(all.take(i))).push(' ') + all[i],
    ensures
        now == start + spaced(all.take(i + 1)),
{
    assert(all.take(i + 1) =~= all.take(i).push(all[i]));
    spaced_push(all.take(i), all[i]);
    assert(now =~= start + (spaced(all.take(i)).push(' ') + all[i]));
}

/// Appends the request to play a move.
pub fn write_play(out: &mut String, id: u32, m: &Move)
    requires
        m@.playable(),
    ensures
        final(out)@ == old(out)@ + play_text(id, m@),
{
    out.append("Game#");
    write_u32(out, id);
    m.write(out);
    assert(out@ =~= old(out)@ + play_text(id, m@));
}

} // verus!
