//! How seeks and listed games are announced: what holds of the calls that read
//! such lines, and what is refused.

use vstd::prelude::*;

use crate::client;
use crate::communication;
use crate::data_types;
use crate::errors::ParseError;
use crate::laws::{lemma_decimal_one_word, lemma_signed_one_word, one_word};
use crate::lines::{
    is_surplus, lemma_command, lemma_commands, lemma_game_kinds, lemma_words_more, separates,
};
use crate::numbers::{
    decimal, i32_read_back, i32_value, signed_decimal, u32_read_back, u32_value, u64_read_back,
    u64_value,
};
use crate::text::{after_command, command, spaced, words};
use crate::time::Duration;
use crate::wire::{game_list_words, seek_words, ServerLineView};

verus! {

/// What a word of a line has to be.
pub enum Expected {
    /// The word has to be there.
    Anything,
    /// A number that fits a `u32`.
    Small,
    /// A number that fits a `u64`.
    Large,
    /// A number that fits an `i32`.
    Signed,
    /// `A`, `W` or `B`.
    Letter,
}

/// What is wrong with the word at an index, if anything.
pub open spec fn trouble(parts: Seq<Seq<char>>, i: int, expected: Expected) -> Option<ParseError> {
    if i >= parts.len() {
        Some(ParseError::UnexpectedEnd)
    } else {
        match expected {
            Expected::Anything => None,
            Expected::Small => match u32_value(parts[i]) {
                Ok(_) => None,
                Err(e) => Some(ParseError::Integer(e)),
            },
            Expected::Large => match u64_value(parts[i]) {
                Ok(_) => None,
                Err(e) => Some(ParseError::Integer(e)),
            },
            Expected::Signed => match i32_value(parts[i]) {
                Ok(_) => None,
                Err(e) => Some(ParseError::Integer(e)),
            },
            Expected::Letter => if parts[i] == seq!['A'] || parts[i] == seq!['W'] || parts[i]
                == seq!['B'] {
                None
            } else {
                Some(ParseError::UnknownColor)
            },
        }
    }
}

/// What is wrong with the leftmost word, from an index on, that is not as it has
/// to be, if there is one.
pub open spec fn first_trouble(parts: Seq<Seq<char>>, expected: Seq<Expected>, i: int) -> Option<
    ParseError,
>
    decreases expected.len() - i,
{
    if i >= expected.len() {
        None
    } else if trouble(parts, i, expected[i]) is Some {
        trouble(parts, i, expected[i])
    } else {
        first_trouble(parts, expected, i + 1)
    }
}

/// What the words of a line that announces a seek have to be.
pub open spec fn announced_seek() -> Seq<Expected> {
    seq![
        Expected::Anything,
        Expected::Small,
        Expected::Anything,
        Expected::Small,
        Expected::Large,
        Expected::Large,
        Expected::Letter,
        Expected::Signed,
        Expected::Small,
        Expected::Small,
        Expected::Anything,
        Expected::Anything,
        Expected::Anything,
    ]
}

/// What the words of a line that lists a game have to be.
pub open spec fn listed_game() -> Seq<Expected> {
    seq![
        Expected::Anything,
        Expected::Small,
        Expected::Anything,
        Expected::Anything,
        Expected::Small,
        Expected::Large,
        Expected::Large,
        Expected::Signed,
        Expected::Small,
        Expected::Small,
        Expected::Anything,
        Expected::Anything,
    ]
}

/// A span of whole seconds.
pub open spec fn seconds(secs: u64) -> Duration {
    Duration { secs, nanos: 0 }
}

/// Whether the seek is the one with these words.
pub open spec fn is_their_seek(seek: client::Seek, parts: Seq<Seq<char>>) -> bool {
    &&& u32_value(parts[1]) matches Ok(n) && seek.id == n
    &&& seek.seeker@ == parts[2]
    &&& u32_value(parts[3]) matches Ok(n) && seek.params.params.size == n
    &&& u64_value(parts[4]) matches Ok(n) && seek.params.params.initial_time == seconds(n)
    &&& u64_value(parts[5]) matches Ok(n) && seek.params.params.increment == seconds(n)
    &&& parts[6] == seq!['A'] <==> seek.params.color == client::Color::Any
    &&& parts[6] == seq!['W'] <==> seek.params.color == client::Color::White
    &&& parts[6] == seq!['B'] <==> seek.params.color == client::Color::Black
    &&& i32_value(parts[7]) matches Ok(n) && seek.params.params.half_komi == n
    &&& u32_value(parts[8]) matches Ok(n) && seek.params.params.flat_count == n
    &&& u32_value(parts[9]) matches Ok(n) && seek.params.params.cap_count == n
    &&& seek.params.params.unrated <==> parts[10] == seq!['1']
    &&& seek.params.params.tournament <==> parts[11] == seq!['1']
    &&& seek.params.opponent is None <==> parts[12].len() == 0
    &&& seek.params.opponent matches Some(name) ==> name@ == parts[12]
}

/// Whether the seek is the one with these words.
pub open spec fn is_our_seek(seek: data_types::Seek, parts: Seq<Seq<char>>) -> bool {
    &&& u32_value(parts[1]) matches Ok(n) && seek.id == n
    &&& seek.owner@ == parts[2]
    &&& u32_value(parts[3]) matches Ok(n) && seek.params.params.size == n
    &&& u64_value(parts[4]) matches Ok(n) && seek.params.params.initial_time == seconds(n)
    &&& u64_value(parts[5]) matches Ok(n) && seek.params.params.increment == seconds(n)
    &&& parts[6] == seq!['A'] <==> seek.params.color is None
    &&& parts[6] == seq!['W'] <==> seek.params.color == Some(data_types::Color::White)
    &&& parts[6] == seq!['B'] <==> seek.params.color == Some(data_types::Color::Black)
    &&& i32_value(parts[7]) matches Ok(n) && seek.params.params.half_komi == n
    &&& u32_value(parts[8]) matches Ok(n) && seek.params.params.flat_count == n
    &&& u32_value(parts[9]) matches Ok(n) && seek.params.params.cap_count == n
    &&& seek.params.params.rated <==> parts[10] == seq!['0']
    &&& seek.params.params.tournament <==> parts[11] == seq!['1']
    &&& seek.params.opponent is None <==> parts[12].len() == 0
    &&& seek.params.opponent matches Some(name) ==> name@ == parts[12]
}

/// Whether the game is the one with these words.
pub open spec fn is_their_game(game: client::Game, parts: Seq<Seq<char>>) -> bool {
    &&& u32_value(parts[1]) matches Ok(n) && game.id == n
    &&& game.white@ == parts[2]
    &&& game.black@ == parts[3]
    &&& u32_value(parts[4]) matches Ok(n) && game.params.size == n
    &&& u64_value(parts[5]) matches Ok(n) && game.params.initial_time == seconds(n)
    &&& u64_value(parts[6]) matches Ok(n) && game.params.increment == seconds(n)
    &&& i32_value(parts[7]) matches Ok(n) && game.params.half_komi == n
    &&& u32_value(parts[8]) matches Ok(n) && game.params.flat_count == n
    &&& u32_value(parts[9]) matches Ok(n) && game.params.cap_count == n
    &&& game.params.unrated <==> parts[10] == seq!['1']
    &&& game.params.tournament <==> parts[11] == seq!['1']
}

/// Whether the game is the one with these words.
pub open spec fn is_our_game(game: data_types::Game, parts: Seq<Seq<char>>) -> bool {
    &&& u32_value(parts[1]) matches Ok(n) && game.id == n
    &&& game.white@ == parts[2]
    &&& game.black@ == parts[3]
    &&& u32_value(parts[4]) matches Ok(n) && game.params.size == n
    &&& u64_value(parts[5]) matches Ok(n) && game.params.initial_time == seconds(n)
    &&& u64_value(parts[6]) matches Ok(n) && game.params.increment == seconds(n)
    &&& i32_value(parts[7]) matches Ok(n) && game.params.half_komi == n
    &&& u32_value(parts[8]) matches Ok(n) && game.params.flat_count == n
    &&& u32_value(parts[9]) matches Ok(n) && game.params.cap_count == n
    &&& game.params.rated <==> parts[10] == seq!['0']
    &&& game.params.tournament <==> parts[11] == seq!['1']
}

proof fn lemma_letters()
    ensures
        "A"@ == seq!['A'],
        "W"@ == seq!['W'],
        "B"@ == seq!['B'],
        "0"@ == seq!['0'],
        "1"@ == seq!['1'],
        seq!['A'] != seq!['W'],
        seq!['A'] != seq!['B'],
        seq!['W'] != seq!['B'],
        seq!['0'] != seq!['1'],
{
    reveal_strlit("A");
    reveal_strlit("W");
    reveal_strlit("B");
    reveal_strlit("0");
    reveal_strlit("1");
    assert("A"@ =~= seq!['A']);
    assert("W"@ =~= seq!['W']);
    assert("B"@ =~= seq!['B']);
    assert("0"@ =~= seq!['0']);
    assert("1"@ =~= seq!['1']);
    assert(seq!['A'][0] != seq!['W'][0] && seq!['A'][0] != seq!['B'][0] && seq!['W'][0]
        != seq!['B'][0] && seq!['0'][0] != seq!['1'][0]);
}

#[verifier::rlimit(60)]
proof fn lemma_seek_troubles(parts: Seq<Seq<char>>)
    requires
        parts.len() > 0,
        parts[0] == "new"@,
    ensures
        first_trouble(parts, announced_seek(), 0) matches Some(e) ==> seek_words(parts) == Err::<
            ServerLineView,
            ParseError,
        >(e),
        first_trouble(parts, announced_seek(), 0) is None ==> seek_words(parts) is Ok
            && parts.len() >= 13,
{
    reveal_with_fuel(first_trouble, 14);
    lemma_letters();
}

#[verifier::rlimit(60)]
proof fn lemma_list_troubles(parts: Seq<Seq<char>>)
    requires
        parts.len() > 0,
        parts[0] == "Add"@,
    ensures
        first_trouble(parts, listed_game(), 0) matches Some(e) ==> game_list_words(parts) == Err::<
            ServerLineView,
            ParseError,
        >(e),
        first_trouble(parts, listed_game(), 0) is None ==> game_list_words(parts) is Ok
            && parts.len() >= 12,
{
    reveal_with_fuel(first_trouble, 13);
}

/// A line that announces a seek is read word by word, and the seek is the one
/// that the words tell. Of the words that are missing or not as they have to
/// be, the leftmost is what is wrong.
#[verifier::rlimit(60)]
pub proof fn announced_seeks_are_read(
    line: &str,
    end: char,
    rest: Seq<char>,
    theirs: Result<client::Message, ParseError>,
    ours: Result<communication::Message, ParseError>,
)
    requires
        call_ensures(client::Message::from_str, (line,), theirs),
        call_ensures(communication::Message::from_str, (line,), ours),
        separates(end),
        line@ == "Seek"@ + seq![end] + rest,
        words(rest)[0] == "new"@,
    ensures
        match first_trouble(words(rest), announced_seek(), 0) {
            Some(e) => theirs == Err::<client::Message, ParseError>(e) && ours == Err::<
                communication::Message,
                ParseError,
            >(e),
            None => {
                &&& theirs matches Ok(client::Message::AddSeek(seek)) && is_their_seek(
                    seek,
                    words(rest),
                )
                &&& ours matches Ok(communication::Message::AddSeek(seek)) && is_our_seek(
                    seek,
                    words(rest),
                )
            },
        },
{
    lemma_commands();
    lemma_command("Seek"@, end, rest);
    assert("Seek"@ + seq![end] =~= "Seek"@.push(end));
    assert(words(rest).len() > 0);
    lemma_seek_troubles(words(rest));
    lemma_letters();
    if first_trouble(words(rest), announced_seek(), 0) is None {
        assert(theirs is Ok);
        assert(ours is Ok);
    }
}

/// A line that lists a game is read word by word, and the game is the one that
/// the words tell. Of the words that are missing or not as they have to be, the
/// leftmost is what is wrong.
#[verifier::rlimit(60)]
pub proof fn listed_games_are_read(
    line: &str,
    end: char,
    rest: Seq<char>,
    theirs: Result<client::Message, ParseError>,
    ours: Result<communication::Message, ParseError>,
)
    requires
        call_ensures(client::Message::from_str, (line,), theirs),
        call_ensures(communication::Message::from_str, (line,), ours),
        separates(end),
        line@ == "GameList"@ + seq![end] + rest,
        words(rest)[0] == "Add"@,
    ensures
        match first_trouble(words(rest), listed_game(), 0) {
            Some(e) => theirs == Err::<client::Message, ParseError>(e) && ours == Err::<
                communication::Message,
                ParseError,
            >(e),
            None => {
                &&& theirs matches Ok(client::Message::AddGame(game)) && is_their_game(
                    game,
                    words(rest),
                )
                &&& ours matches Ok(communication::Message::AddGame(game)) && is_our_game(
                    game,
                    words(rest),
                )
            },
        },
{
    lemma_commands();
    lemma_command("GameList"@, end, rest);
    assert("GameList"@ + seq![end] =~= "GameList"@.push(end));
    assert(words(rest).len() > 0);
    lemma_list_troubles(words(rest));
    lemma_letters();
    if first_trouble(words(rest), listed_game(), 0) is None {
        assert(theirs is Ok);
        assert(ours is Ok);
    }
}

/// A seek that is announced with its numbers in decimal is read with these
/// numbers, this owner, color and opponent, and as rated and played in a
/// tournament or not.
#[verifier::rlimit(60)]
pub proof fn announced_seek_reads_back(
    line: &str,
    end: char,
    id: u32,
    owner: Seq<char>,
    size: u32,
    initial_time: u64,
    increment: u64,
    letter: Seq<char>,
    half_komi: i32,
    flat_count: u32,
    cap_count: u32,
    rating: Seq<char>,
    tournament: Seq<char>,
    opponent: Seq<char>,
    more: Seq<char>,
    theirs: Result<client::Message, ParseError>,
    ours: Result<communication::Message, ParseError>,
)
    requires
        call_ensures(client::Message::from_str, (line,), theirs),
        call_ensures(communication::Message::from_str, (line,), ours),
        separates(end),
        is_surplus(more),
        one_word(owner),
        letter == seq!['A'] || letter == seq!['W'] || letter == seq!['B'],
        one_word(rating),
        one_word(tournament),
        one_word(opponent),
        line@ == "Seek"@ + seq![end] + "new"@ + spaced(
            seq![
                decimal(id as nat),
                owner,
                decimal(size as nat),
                decimal(initial_time as nat),
                decimal(increment as nat),
                letter,
                signed_decimal(half_komi as int),
                decimal(flat_count as nat),
                decimal(cap_count as nat),
                rating,
                tournament,
                opponent,
            ],
        ) + more,
    ensures
        theirs matches Ok(client::Message::AddSeek(seek)) && {
            &&& seek.id == id
            &&& seek.seeker@ == owner
            &&& seek.params.params == (client::GameParameters {
                size,
                initial_time: seconds(initial_time),
                increment: seconds(increment),
                half_komi,
                flat_count,
                cap_count,
                unrated: rating == seq!['1'],
                tournament: tournament == seq!['1'],
            })
            &&& letter == seq!['A'] ==> seek.params.color == client::Color::Any
            &&& letter == seq!['W'] ==> seek.params.color == client::Color::White
            &&& letter == seq!['B'] ==> seek.params.color == client::Color::Black
            &&& seek.params.opponent is None <==> opponent.len() == 0
            &&& seek.params.opponent matches Some(name) ==> name@ == opponent
        },
        ours matches Ok(communication::Message::AddSeek(seek)) && {
            &&& seek.id == id
            &&& seek.owner@ == owner
            &&& seek.params.params == (data_types::GameParameters {
                size,
                initial_time: seconds(initial_time),
                increment: seconds(increment),
                half_komi,
                flat_count,
                cap_count,
                rated: rating == seq!['0'],
                tournament: tournament == seq!['1'],
            })
            &&& letter == seq!['A'] ==> seek.params.color is None
            &&& letter == seq!['W'] ==> seek.params.color == Some(data_types::Color::White)
            &&& letter == seq!['B'] ==> seek.params.color == Some(data_types::Color::Black)
            &&& seek.params.opponent is None <==> opponent.len() == 0
            &&& seek.params.opponent matches Some(name) ==> name@ == opponent
        },
{
    let parts = seq![
        decimal(id as nat),
        owner,
        decimal(size as nat),
        decimal(initial_time as nat),
        decimal(increment as nat),
        letter,
        signed_decimal(half_komi as int),
        decimal(flat_count as nat),
        decimal(cap_count as nat),
        rating,
        tournament,
        opponent,
    ];
    let rest = "new"@ + spaced(parts) + more;
    lemma_decimal_one_word(id as nat);
    lemma_decimal_one_word(size as nat);
    lemma_decimal_one_word(initial_time as nat);
    lemma_decimal_one_word(increment as nat);
    lemma_signed_one_word(half_komi as int);
    lemma_decimal_one_word(flat_count as nat);
    lemma_decimal_one_word(cap_count as nat);
    reveal_strlit("new");
    lemma_words_more("new"@, parts, more);
    assert(line@ =~= "Seek"@ + seq![end] + rest);
    u32_read_back(id);
    u32_read_back(size);
    u64_read_back(initial_time);
    u64_read_back(increment);
    i32_read_back(half_komi);
    u32_read_back(flat_count);
    u32_read_back(cap_count);
    let w = words(rest);
    assert(w[1] == parts[0] && w[2] == parts[1] && w[3] == parts[2] && w[4] == parts[3] && w[5]
        == parts[4] && w[6] == parts[5] && w[7] == parts[6] && w[8] == parts[7] && w[9] == parts[8]
        && w[10] == parts[9] && w[11] == parts[10] && w[12] == parts[11]);
    assert(first_trouble(w, announced_seek(), 0) is None) by {
        reveal_with_fuel(first_trouble, 14);
    }
    announced_seeks_are_read(line, end, rest, theirs, ours);
    lemma_letters();
}

/// A game that is listed with its numbers in decimal is read with these numbers
/// and these players, and as rated and played in a tournament or not.
#[verifier::rlimit(60)]
pub proof fn listed_game_reads_back(
    line: &str,
    end: char,
    id: u32,
    white: Seq<char>,
    black: Seq<char>,
    size: u32,
    initial_time: u64,
    increment: u64,
    half_komi: i32,
    flat_count: u32,
    cap_count: u32,
    rating: Seq<char>,
    tournament: Seq<char>,
    more: Seq<char>,
    theirs: Result<client::Message, ParseError>,
    ours: Result<communication::Message, ParseError>,
)
    requires
        call_ensures(client::Message::from_str, (line,), theirs),
        call_ensures(communication::Message::from_str, (line,), ours),
        separates(end),
        is_surplus(more),
        one_word(white),
        one_word(black),
        one_word(rating),
        one_word(tournament),
        line@ == "GameList"@ + seq![end] + "Add"@ + spaced(
            seq![
                decimal(id as nat),
                white,
                black,
                decimal(size as nat),
                decimal(initial_time as nat),
                decimal(increment as nat),
                signed_decimal(half_komi as int),
                decimal(flat_count as nat),
                decimal(cap_count as nat),
                rating,
                tournament,
            ],
        ) + more,
    ensures
        theirs matches Ok(client::Message::AddGame(game)) && {
            &&& game.id == id
            &&& game.white@ == white
            &&& game.black@ == black
            &&& game.params == (client::GameParameters {
                size,
                initial_time: seconds(initial_time),
                increment: seconds(increment),
                half_komi,
                flat_count,
                cap_count,
                unrated: rating == seq!['1'],
                tournament: tournament == seq!['1'],
            })
        },
        ours matches Ok(communication::Message::AddGame(game)) && {
            &&& game.id == id
            &&& game.white@ == white
            &&& game.black@ == black
            &&& game.params == (data_types::GameParameters {
                size,
                initial_time: seconds(initial_time),
                increment: seconds(increment),
                half_komi,
                flat_count,
                cap_count,
                rated: rating == seq!['0'],
                tournament: tournament == seq!['1'],
            })
        },
{
    let parts = seq![
        decimal(id as nat),
        white,
        black,
        decimal(size as nat),
        decimal(initial_time as nat),
        decimal(increment as nat),
        signed_decimal(half_komi as int),
        decimal(flat_count as nat),
        decimal(cap_count as nat),
        rating,
        tournament,
    ];
    let rest = "Add"@ + spaced(parts) + more;
    lemma_decimal_one_word(id as nat);
    lemma_decimal_one_word(size as nat);
    lemma_decimal_one_word(initial_time as nat);
    lemma_decimal_one_word(increment as nat);
    lemma_signed_one_word(half_komi as int);
    lemma_decimal_one_word(flat_count as nat);
    lemma_decimal_one_word(cap_count as nat);
    reveal_strlit("Add");
    lemma_words_more("Add"@, parts, more);
    assert(line@ =~= "GameList"@ + seq![end] + rest);
    u32_read_back(id);
    u32_read_back(size);
    u64_read_back(initial_time);
    u64_read_back(increment);
    i32_read_back(half_komi);
    u32_read_back(flat_count);
    u32_read_back(cap_count);
    let w = words(rest);
    assert(w[1] == parts[0] && w[2] == parts[1] && w[3] == parts[2] && w[4] == parts[3] && w[5]
        == parts[4] && w[6] == parts[5] && w[7] == parts[6] && w[8] == parts[7] && w[9] == parts[8]
        && w[10] == parts[9] && w[11] == parts[10]);
    assert(first_trouble(w, listed_game(), 0) is None) by {
        reveal_with_fuel(first_trouble, 13);
    }
    listed_games_are_read(line, end, rest, theirs, ours);
    lemma_letters();
}

/// Whether `line` is this command with `rest` behind it.
pub open spec fn says(line: Seq<char>, cmd: Seq<char>, end: char, rest: Seq<char>) -> bool {
    line == cmd + seq![end] + rest || line == cmd && rest.len() == 0
}

proof fn lemma_says(line: Seq<char>, cmd: Seq<char>, end: char, rest: Seq<char>)
    requires
        separates(end),
        forall|i: int| 0 <= i < cmd.len() ==> !separates(#[trigger] cmd[i]),
        says(line, cmd, end, rest),
    ensures
        command(line) == cmd,
        after_command(line) == rest,
        words(rest).len() > 0,
{
    assert forall|i: int| 0 <= i < cmd.len() implies !crate::text::ends_command(
        #[trigger] cmd[i],
    ) by {
        assert(!separates(cmd[i]));
    }
    lemma_command(cmd, end, rest);
    assert(cmd + seq![end] =~= cmd.push(end));
    if rest.len() == 0 {
        assert(rest =~= Seq::<char>::empty());
    }
}

/// A line about seeks or about the list of games that neither adds nor removes
/// is refused, and one that removes is refused if what follows is no number.
#[verifier::rlimit(60)]
pub proof fn odd_listings_are_refused(
    line: &str,
    end: char,
    rest: Seq<char>,
    theirs: Result<client::Message, ParseError>,
    ours: Result<communication::Message, ParseError>,
)
    requires
        call_ensures(client::Message::from_str, (line,), theirs),
        call_ensures(communication::Message::from_str, (line,), ours),
        separates(end),
    ensures
        says(line@, "Seek"@, end, rest) && words(rest)[0] != "new"@ && words(rest)[0] != "remove"@
            ==> theirs == Err::<client::Message, ParseError>(ParseError::UnexpectedSeek) && ours
            == Err::<communication::Message, ParseError>(ParseError::UnexpectedSeek),
        says(line@, "GameList"@, end, rest) && words(rest)[0] != "Add"@ && words(rest)[0]
            != "Remove"@ ==> theirs == Err::<client::Message, ParseError>(
            ParseError::UnexpectedGameList,
        ) && ours == Err::<communication::Message, ParseError>(ParseError::UnexpectedGameList),
        says(line@, "Seek"@, end, rest) && words(rest)[0] == "remove"@ ==> match trouble(
            words(rest),
            1,
            Expected::Small,
        ) {
            Some(e) => theirs == Err::<client::Message, ParseError>(e) && ours == Err::<
                communication::Message,
                ParseError,
            >(e),
            None => {
                &&& theirs matches Ok(client::Message::RemoveSeek(id)) && u32_value(words(rest)[1])
                    == Ok::<u32, crate::numbers::IntegerError>(id)
                &&& ours matches Ok(communication::Message::RemoveSeek(id)) && u32_value(
                    words(rest)[1],
                ) == Ok::<u32, crate::numbers::IntegerError>(id)
            },
        },
        says(line@, "GameList"@, end, rest) && words(rest)[0] == "Remove"@ ==> match trouble(
            words(rest),
            1,
            Expected::Small,
        ) {
            Some(e) => theirs == Err::<client::Message, ParseError>(e) && ours == Err::<
                communication::Message,
                ParseError,
            >(e),
            None => {
                &&& theirs matches Ok(client::Message::RemoveGame(id)) && u32_value(words(rest)[1])
                    == Ok::<u32, crate::numbers::IntegerError>(id)
                &&& ours matches Ok(communication::Message::RemoveGame(id)) && u32_value(
                    words(rest)[1],
                ) == Ok::<u32, crate::numbers::IntegerError>(id)
            },
        },
{
    lemma_commands();
    reveal_strlit("remove");
    reveal_strlit("new");
    reveal_strlit("Remove");
    reveal_strlit("Add");
    assert("remove"@.len() == 6 && "new"@.len() == 3 && "Remove"@.len() == 6 && "Add"@.len() == 3);
    if says(line@, "Seek"@, end, rest) {
        lemma_says(line@, "Seek"@, end, rest);
    }
    if says(line@, "GameList"@, end, rest) {
        lemma_says(line@, "GameList"@, end, rest);
    }
}

/// What the words of a line that sets clocks have to be.
pub open spec fn set_clocks() -> Seq<Expected> {
    seq![Expected::Small, Expected::Anything, Expected::Large, Expected::Large]
}

/// A count of users, a start, clocks or other news of a game is refused if a
/// word is missing or should be a number and is none, the leftmost first.
#[verifier::rlimit(60)]
pub proof fn odd_news_are_refused(
    line: &str,
    end: char,
    rest: Seq<char>,
    theirs: Result<client::Message, ParseError>,
    ours: Result<communication::Message, ParseError>,
)
    requires
        call_ensures(client::Message::from_str, (line,), theirs),
        call_ensures(communication::Message::from_str, (line,), ours),
        separates(end),
    ensures
        says(line@, "Online"@, end, rest) ==> match trouble(words(rest), 0, Expected::Small) {
            Some(e) => theirs == Err::<client::Message, ParseError>(e) && ours == Err::<
                communication::Message,
                ParseError,
            >(e),
            None => {
                &&& theirs matches Ok(client::Message::Online(n)) && u32_value(words(rest)[0])
                    == Ok::<u32, crate::numbers::IntegerError>(n)
                &&& ours matches Ok(communication::Message::Online(n)) && u32_value(words(rest)[0])
                    == Ok::<u32, crate::numbers::IntegerError>(n)
            },
        },
        says(line@, "Game"@, end, rest) && words(rest)[0] == "Start"@ ==> match trouble(
            words(rest),
            1,
            Expected::Small,
        ) {
            Some(e) => theirs == Err::<client::Message, ParseError>(e) && ours == Err::<
                communication::Message,
                ParseError,
            >(e),
            None => {
                &&& theirs matches Ok(client::Message::StartGame(id)) && u32_value(words(rest)[1])
                    == Ok::<u32, crate::numbers::IntegerError>(id)
                &&& ours matches Ok(communication::Message::StartGame(id)) && u32_value(
                    words(rest)[1],
                ) == Ok::<u32, crate::numbers::IntegerError>(id)
            },
        },
        says(line@, "Game"@, end, rest) && words(rest)[0] != "Start"@ ==> {
            &&& trouble(words(rest), 0, Expected::Small) matches Some(e) ==> theirs == Err::<
                client::Message,
                ParseError,
            >(e) && ours == Err::<communication::Message, ParseError>(e)
            &&& trouble(words(rest), 0, Expected::Small) is None && words(rest).len() == 1
                ==> theirs == Err::<client::Message, ParseError>(ParseError::UnexpectedEnd) && ours
                == Err::<communication::Message, ParseError>(ParseError::UnexpectedEnd)
            &&& trouble(words(rest), 0, Expected::Small) is None && words(rest).len() == 2
                && words(rest)[1] == "Over"@ ==> theirs == Err::<client::Message, ParseError>(
                ParseError::UnexpectedEnd,
            ) && ours == Err::<communication::Message, ParseError>(ParseError::UnexpectedEnd)
            &&& words(rest).len() > 1 && words(rest)[1] == "Timems"@ ==> match first_trouble(
                words(rest),
                set_clocks(),
                0,
            ) {
                Some(e) => theirs == Err::<client::Message, ParseError>(e) && ours == Err::<
                    communication::Message,
                    ParseError,
                >(e),
                None => theirs is Ok && theirs->Ok_0 is SyncClocks && ours is Ok
                    && ours->Ok_0 is SyncClocks,
            }
        },
{
    lemma_commands();
    lemma_game_kinds();
    reveal_with_fuel(first_trouble, 5);
    if says(line@, "Online"@, end, rest) {
        lemma_says(line@, "Online"@, end, rest);
    }
    if says(line@, "Game"@, end, rest) {
        lemma_says(line@, "Game"@, end, rest);
    }
}

} // verus!
