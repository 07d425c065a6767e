//! What the server's lines say: what holds of the calls that read them, in the
//! server's terms and in a player's.

use vstd::prelude::*;

use crate::client;
use crate::communication;
use crate::data_types;
use crate::errors::ParseError;
use crate::laws::{
    all_words, lemma_decimal_one_word, lemma_spaced_front, lemma_words_front, one_word,
    words_read_back,
};
use crate::numbers::{decimal, u32_read_back, u32_value, u64_read_back, u64_value, IntegerError};
use crate::text::{after_command, command, ends_command, lemma_position_is, spaced, words};
use crate::wire::{line_value, own_game_words};

verus! {

/// Whether `c` can stand between a command and what follows it.
pub open spec fn separates(c: char) -> bool {
    c == ' ' || c == '#' || c == ':'
}

/// Whether `s` can stand behind the last word that matters: nothing, or more
/// behind a space.
pub open spec fn is_surplus(s: Seq<char>) -> bool {
    s.len() == 0 || s[0] == ' '
}

pub(crate) proof fn lemma_command(cmd: Seq<char>, end: char, rest: Seq<char>)
    requires
        separates(end),
        forall|i: int| 0 <= i < cmd.len() ==> !ends_command(#[trigger] cmd[i]),
    ensures
        command(cmd.push(end) + rest) == cmd,
        after_command(cmd.push(end) + rest) == rest,
        command(cmd) == cmd,
        after_command(cmd) == Seq::<char>::empty(),
{
    let s = cmd.push(end) + rest;
    assert forall|i: int| 0 <= i < cmd.len() implies !ends_command(#[trigger] s[i]) by {
        assert(s[i] == cmd[i]);
    }
    lemma_position_is(s, |c: char| ends_command(c), cmd.len() as int);
    lemma_position_is(cmd, |c: char| ends_command(c), cmd.len() as int);
    assert(command(s) =~= cmd);
    assert(after_command(s) =~= rest);
    assert(command(cmd) =~= cmd);
}

pub(crate) proof fn lemma_words_more(first: Seq<char>, parts: Seq<Seq<char>>, more: Seq<char>)
    requires
        one_word(first),
        all_words(parts),
        is_surplus(more),
    ensures
        more.len() == 0 ==> words(first + spaced(parts) + more) == seq![first] + parts,
        words(first + spaced(parts) + more).len() > parts.len(),
        words(first + spaced(parts) + more)[0] == first,
        forall|i: int|
            1 <= i <= parts.len() ==> #[trigger] words(first + spaced(parts) + more)[i]
                == parts[i - 1],
    decreases parts.len(),
{
    let s = first + spaced(parts) + more;
    if more.len() == 0 {
        assert(s =~= first + spaced(parts));
        words_read_back(first, parts);
    } else if parts.len() == 0 {
        assert(s =~= first.push(' ') + more.drop_first());
        lemma_words_front(first, more.drop_first());
    } else {
        let rest = parts.drop_first();
        lemma_spaced_front(parts);
        let tail = parts[0] + spaced(rest) + more;
        assert(s =~= first.push(' ') + tail);
        lemma_words_front(first, tail);
        lemma_words_more(parts[0], rest, more);
        assert forall|i: int| 1 <= i <= parts.len() implies #[trigger] words(s)[i] == parts[i
            - 1] by {
            assert(words(s)[i] == words(tail)[i - 1]);
        }
    }
}

pub(crate) proof fn lemma_commands()
    ensures
        "OK"@.len() == 2 && "NOK"@.len() == 3 && "Seek"@.len() == 4 && "GameList"@.len() == 8
            && "Game"@.len() == 4 && "Online"@.len() == 6 && "Welcome"@.len() == 7
            && "Welcome!"@.len() == 8 && "Login"@.len() == 5 && "Message"@.len() == 7
            && "Error"@.len() == 5,
        "Seek"@[0] == 'S' && "Game"@[0] == 'G' && "GameList"@[0] == 'G' && "Welcome"@[0] == 'W'
            && "Welcome!"@[0] == 'W' && "Login"@[0] == 'L' && "Message"@[0] == 'M' && "Error"@[0]
            == 'E',
        forall|i: int| 0 <= i < 2 ==> !ends_command(#[trigger] "OK"@[i]),
        forall|i: int| 0 <= i < 3 ==> !ends_command(#[trigger] "NOK"@[i]),
        forall|i: int| 0 <= i < 4 ==> !ends_command(#[trigger] "Seek"@[i]),
        forall|i: int| 0 <= i < 8 ==> !ends_command(#[trigger] "GameList"@[i]),
        forall|i: int| 0 <= i < 4 ==> !ends_command(#[trigger] "Game"@[i]),
        forall|i: int| 0 <= i < 6 ==> !ends_command(#[trigger] "Online"@[i]),
        forall|i: int| 0 <= i < 7 ==> !ends_command(#[trigger] "Welcome"@[i]),
        forall|i: int| 0 <= i < 8 ==> !ends_command(#[trigger] "Welcome!"@[i]),
        forall|i: int| 0 <= i < 5 ==> !ends_command(#[trigger] "Login"@[i]),
        forall|i: int| 0 <= i < 7 ==> !ends_command(#[trigger] "Message"@[i]),
        forall|i: int| 0 <= i < 5 ==> !ends_command(#[trigger] "Error"@[i]),
{
    reveal_strlit("OK");
    reveal_strlit("NOK");
    reveal_strlit("Seek");
    reveal_strlit("GameList");
    reveal_strlit("Game");
    reveal_strlit("Online");
    reveal_strlit("Welcome");
    reveal_strlit("Welcome!");
    reveal_strlit("Login");
    reveal_strlit("Message");
    reveal_strlit("Error");
}

/// `OK` grants and `NOK` refuses, whatever else the line says.
pub proof fn grants_and_refusals(
    line: &str,
    end: char,
    rest: Seq<char>,
    theirs: Result<client::Message, ParseError>,
    ours: Result<communication::Message, ParseError>,
)
    requires
        call_ensures(client::Message::from_str, (line,), theirs),
        call_ensures(communication::Message::from_str, (line,), ours),
        separates(end),
    ensures
        line@ == "OK"@ || line@ == "OK"@ + seq![end] + rest ==> theirs == Ok::<
            client::Message,
            ParseError,
        >(client::Message::Okay) && ours == Ok::<communication::Message, ParseError>(
            communication::Message::Okay,
        ),
        line@ == "NOK"@ || line@ == "NOK"@ + seq![end] + rest ==> theirs == Ok::<
            client::Message,
            ParseError,
        >(client::Message::NotOk) && ours == Ok::<communication::Message, ParseError>(
            communication::Message::NotOk,
        ),
{
    lemma_commands();
    lemma_command("OK"@, end, rest);
    lemma_command("NOK"@, end, rest);
    assert("OK"@ + seq![end] =~= "OK"@.push(end));
    assert("NOK"@ + seq![end] =~= "NOK"@.push(end));
}

/// A greeting names the user before its exclamation mark, whatever characters
/// the name has; without the mark it is refused.
pub proof fn greetings_name_the_user(
    line: &str,
    end: char,
    name: Seq<char>,
    theirs: Result<client::Message, ParseError>,
    ours: Result<communication::Message, ParseError>,
)
    requires
        call_ensures(client::Message::from_str, (line,), theirs),
        call_ensures(communication::Message::from_str, (line,), ours),
        separates(end),
    ensures
        line@ == "Welcome"@ + seq![end] + name + seq!['!'] ==> {
            &&& theirs matches Ok(client::Message::LoggedIn(given)) && given@ == name
            &&& ours matches Ok(communication::Message::LoggedIn(given)) && given@ == name
        },
        line@ == "Welcome"@ || line@ == "Welcome"@ + seq![end] || line@ == "Welcome"@ + seq![end]
            + name && name.len() > 0 && name.last() != '!' ==> theirs == Err::<
            client::Message,
            ParseError,
        >(ParseError::MissingExclamation) && ours == Err::<communication::Message, ParseError>(
            ParseError::MissingExclamation,
        ),
{
    lemma_commands();
    lemma_command("Welcome"@, end, name + seq!['!']);
    lemma_command("Welcome"@, end, name);
    lemma_command("Welcome"@, end, Seq::empty());
    assert("Welcome"@ + seq![end] =~= "Welcome"@.push(end));
    assert("Welcome"@.push(end) + Seq::<char>::empty() =~= "Welcome"@.push(end));
    assert("Welcome"@ + seq![end] + name + seq!['!'] =~= "Welcome"@.push(end) + (name + seq!['!']));
    assert((name + seq!['!']).drop_last() =~= name);
    assert((name + seq!['!']).last() == '!');
}

/// What the server says and complains of is kept to the character. The first
/// lines of a connection, `Welcome!` and `Login or Register`, are kept whole.
pub proof fn talk_is_kept(
    line: &str,
    end: char,
    text: Seq<char>,
    theirs: Result<client::Message, ParseError>,
    ours: Result<communication::Message, ParseError>,
)
    requires
        call_ensures(client::Message::from_str, (line,), theirs),
        call_ensures(communication::Message::from_str, (line,), ours),
        separates(end),
    ensures
        line@ == "Message"@ + seq![end] + text || line@ == "Message"@ && text.len() == 0 ==> {
            &&& theirs matches Ok(client::Message::Message(given)) && given@ == text
            &&& ours matches Ok(communication::Message::Message(given)) && given@ == text
        },
        line@ == "Error"@ + seq![end] + text || line@ == "Error"@ && text.len() == 0 ==> {
            &&& theirs matches Ok(client::Message::Error(given)) && given@ == text
            &&& ours matches Ok(communication::Message::Error(given)) && given@ == text
        },
        line@ == "Login"@ || line@ == "Login"@ + seq![end] + text || line@ == "Welcome!"@ || line@
            == "Welcome!"@ + seq![end] + text ==> {
            &&& theirs matches Ok(client::Message::Message(given)) && given@ == line@
            &&& ours matches Ok(communication::Message::Message(given)) && given@ == line@
        },
{
    lemma_commands();
    lemma_command("Message"@, end, text);
    lemma_command("Error"@, end, text);
    lemma_command("Login"@, end, text);
    lemma_command("Welcome!"@, end, text);
    assert("Message"@ + seq![end] =~= "Message"@.push(end));
    assert("Error"@ + seq![end] =~= "Error"@.push(end));
    assert("Login"@ + seq![end] =~= "Login"@.push(end));
    assert("Welcome!"@ + seq![end] =~= "Welcome!"@.push(end));
    if text.len() == 0 {
        assert(text =~= Seq::<char>::empty());
    }
}

/// A line with a command that means nothing here is kept whole.
pub proof fn unknown_lines_are_kept(
    line: &str,
    cmd: Seq<char>,
    end: char,
    rest: Seq<char>,
    theirs: Result<client::Message, ParseError>,
    ours: Result<communication::Message, ParseError>,
)
    requires
        call_ensures(client::Message::from_str, (line,), theirs),
        call_ensures(communication::Message::from_str, (line,), ours),
        forall|i: int| 0 <= i < cmd.len() ==> !separates(#[trigger] cmd[i]),
        separates(end),
        line@ == cmd || line@ == cmd + seq![end] + rest,
        cmd != "OK"@,
        cmd != "NOK"@,
        cmd != "Seek"@,
        cmd != "GameList"@,
        cmd != "Game"@,
        cmd != "Online"@,
        cmd != "Welcome"@,
        cmd != "Welcome!"@,
        cmd != "Login"@,
        cmd != "Message"@,
        cmd != "Error"@,
    ensures
        theirs matches Ok(client::Message::Unknown(given)) && given@ == line@,
        ours matches Ok(communication::Message::Unknown(given)) && given@ == line@,
{
    assert forall|i: int| 0 <= i < cmd.len() implies !ends_command(#[trigger] cmd[i]) by {
        assert(!separates(cmd[i]));
    }
    lemma_command(cmd, end, rest);
    assert(cmd + seq![end] =~= cmd.push(end));
}

pub(crate) proof fn lemma_line(
    line: Seq<char>,
    cmd: Seq<char>,
    end: char,
    first: Seq<char>,
    parts: Seq<Seq<char>>,
    more: Seq<char>,
)
    requires
        separates(end),
        forall|i: int| 0 <= i < cmd.len() ==> !ends_command(#[trigger] cmd[i]),
        one_word(first),
        all_words(parts),
        is_surplus(more),
        line == cmd + seq![end] + first + spaced(parts) + more,
    ensures
        command(line) == cmd,
        after_command(line) == first + spaced(parts) + more,
        more.len() == 0 ==> words(after_command(line)) == seq![first] + parts,
        words(after_command(line)).len() > parts.len(),
        words(after_command(line))[0] == first,
        forall|i: int|
            1 <= i <= parts.len() ==> #[trigger] words(after_command(line))[i] == parts[i - 1],
{
    assert(line =~= cmd.push(end) + (first + spaced(parts) + more));
    lemma_command(cmd, end, first + spaced(parts) + more);
    lemma_words_more(first, parts, more);
}

/// How many users are online is read from the number that is sent.
pub proof fn users_are_counted(
    line: &str,
    end: char,
    count: u32,
    more: Seq<char>,
    theirs: Result<client::Message, ParseError>,
    ours: Result<communication::Message, ParseError>,
)
    requires
        call_ensures(client::Message::from_str, (line,), theirs),
        call_ensures(communication::Message::from_str, (line,), ours),
        separates(end),
        is_surplus(more),
        line@ == "Online"@ + seq![end] + decimal(count as nat) + more,
    ensures
        theirs == Ok::<client::Message, ParseError>(client::Message::Online(count)),
        ours == Ok::<communication::Message, ParseError>(communication::Message::Online(count)),
{
    let none = Seq::<Seq<char>>::empty();
    lemma_commands();
    lemma_decimal_one_word(count as nat);
    assert(line@ =~= "Online"@ + seq![end] + decimal(count as nat) + spaced(none) + more);
    lemma_line(line@, "Online"@, end, decimal(count as nat), none, more);
    u32_read_back(count);
}

/// A seek is closed, or a game struck off the list, under the number that is
/// sent.
pub proof fn removals_name_the_number(
    line: &str,
    end: char,
    id: u32,
    more: Seq<char>,
    theirs: Result<client::Message, ParseError>,
    ours: Result<communication::Message, ParseError>,
)
    requires
        call_ensures(client::Message::from_str, (line,), theirs),
        call_ensures(communication::Message::from_str, (line,), ours),
        separates(end),
        is_surplus(more),
    ensures
        line@ == "Seek"@ + seq![end] + "remove"@ + spaced(seq![decimal(id as nat)]) + more
            ==> theirs == Ok::<client::Message, ParseError>(client::Message::RemoveSeek(id)) && ours
            == Ok::<communication::Message, ParseError>(communication::Message::RemoveSeek(id)),
        line@ == "GameList"@ + seq![end] + "Remove"@ + spaced(seq![decimal(id as nat)]) + more
            ==> theirs == Ok::<client::Message, ParseError>(client::Message::RemoveGame(id)) && ours
            == Ok::<communication::Message, ParseError>(communication::Message::RemoveGame(id)),
{
    let parts = seq![decimal(id as nat)];
    lemma_commands();
    lemma_decimal_one_word(id as nat);
    u32_read_back(id);
    reveal_strlit("remove");
    reveal_strlit("new");
    reveal_strlit("Remove");
    reveal_strlit("Add");
    assert("remove"@.len() == 6 && "new"@.len() == 3 && "Remove"@.len() == 6 && "Add"@.len() == 3);
    if line@ == "Seek"@ + seq![end] + "remove"@ + spaced(parts) + more {
        lemma_line(line@, "Seek"@, end, "remove"@, parts, more);
        assert(words(after_command(line@))[1] == parts[0]);
    }
    if line@ == "GameList"@ + seq![end] + "Remove"@ + spaced(parts) + more {
        lemma_line(line@, "GameList"@, end, "Remove"@, parts, more);
        assert(words(after_command(line@))[1] == parts[0]);
    }
}

/// A game of the user starts under the number that is sent.
pub proof fn starts_name_the_number(
    line: &str,
    end: char,
    id: u32,
    more: Seq<char>,
    theirs: Result<client::Message, ParseError>,
    ours: Result<communication::Message, ParseError>,
)
    requires
        call_ensures(client::Message::from_str, (line,), theirs),
        call_ensures(communication::Message::from_str, (line,), ours),
        separates(end),
        is_surplus(more),
        line@ == "Game"@ + seq![end] + "Start"@ + spaced(seq![decimal(id as nat)]) + more,
    ensures
        theirs == Ok::<client::Message, ParseError>(client::Message::StartGame(id)),
        ours == Ok::<communication::Message, ParseError>(communication::Message::StartGame(id)),
{
    let parts = seq![decimal(id as nat)];
    lemma_commands();
    lemma_decimal_one_word(id as nat);
    u32_read_back(id);
    reveal_strlit("Start");
    lemma_line(line@, "Game"@, end, "Start"@, parts, more);
    assert(words(after_command(line@))[1] == parts[0]);
}

/// Whether a word can stand for a number: its decimal notation does, and so does
/// every other word that is read as that number.
pub open spec fn stands_for_u32(s: Seq<char>, n: u32) -> bool {
    one_word(s) && (s == decimal(n as nat) || u32_value(s) == Ok::<u32, IntegerError>(n))
}

/// Whether a word can stand for a number: its decimal notation does, and so does
/// every other word that is read as that number.
pub open spec fn stands_for_u64(s: Seq<char>, n: u64) -> bool {
    one_word(s) && (s == decimal(n as nat) || u64_value(s) == Ok::<u64, IntegerError>(n))
}

pub(crate) proof fn lemma_game_kinds()
    ensures
        "Timems"@.len() == 6 && "Over"@.len() == 4 && "Abandoned."@.len() == 10 && "P"@.len() == 1
            && "M"@.len() == 1,
        "P"@[0] == 'P' && "M"@[0] == 'M',
        one_word("Timems"@) && one_word("Over"@) && one_word("Abandoned."@) && one_word("P"@)
            && one_word("M"@),
{
    reveal_strlit("Timems");
    reveal_strlit("Over");
    reveal_strlit("Abandoned.");
    reveal_strlit("P");
    reveal_strlit("M");
}

pub(crate) proof fn lemma_numbered_game(
    line: Seq<char>,
    end: char,
    number: Seq<char>,
    id: u32,
    parts: Seq<Seq<char>>,
    more: Seq<char>,
)
    requires
        separates(end),
        stands_for_u32(number, id),
        all_words(parts),
        parts.len() > 0,
        is_surplus(more),
        line == "Game"@ + seq![end] + number + spaced(parts) + more,
    ensures
        line_value(line) == own_game_words(words(after_command(line)), id),
        more.len() == 0 ==> words(after_command(line)) == seq![number] + parts,
        words(after_command(line)).len() > parts.len(),
        forall|i: int|
            1 <= i <= parts.len() ==> #[trigger] words(after_command(line))[i] == parts[i - 1],
{
    lemma_commands();
    lemma_line(line, "Game"@, end, number, parts, more);
    u32_read_back(id);
    lemma_start_is_no_number();
}

proof fn lemma_start_is_no_number()
    ensures
        u32_value("Start"@) is Err,
{
    reveal_strlit("Start");
    let s = "Start"@;
    assert(s.take(1).drop_last() =~= Seq::<char>::empty());
    assert(s.take(2).drop_last() =~= s.take(1));
    assert(s.take(3).drop_last() =~= s.take(2));
    assert(s.take(4).drop_last() =~= s.take(3));
    assert(s.drop_last() =~= s.take(4));
    assert(s.take(1).last() == 'S');
    reveal_with_fuel(crate::numbers::magnitude, 6);
}

/// Clocks are set, in the game with the number that is sent, to as many
/// milliseconds for White and for Black as are sent, in this order.
pub proof fn clocks_are_read_in_milliseconds(
    line: &str,
    end: char,
    number: Seq<char>,
    id: u32,
    for_white: Seq<char>,
    white: u64,
    for_black: Seq<char>,
    black: u64,
    more: Seq<char>,
    theirs: Result<client::Message, ParseError>,
    ours: Result<communication::Message, ParseError>,
)
    requires
        call_ensures(client::Message::from_str, (line,), theirs),
        call_ensures(communication::Message::from_str, (line,), ours),
        separates(end),
        is_surplus(more),
        stands_for_u32(number, id),
        stands_for_u64(for_white, white),
        stands_for_u64(for_black, black),
        line@ == "Game"@ + seq![end] + number + spaced(
            seq!["Timems"@, for_white, for_black],
        ) + more,
    ensures
        theirs matches Ok(client::Message::SyncClocks(set, w, b)) && set == id && w.secs * 1000
            + w.nanos / 1000000 == white && w.nanos % 1000000 == 0 && w.nanos < 1000000000 && b.secs
            * 1000 + b.nanos / 1000000 == black && b.nanos % 1000000 == 0 && b.nanos < 1000000000,
        ours matches Ok(communication::Message::SyncClocks(set, w, b)) && set == id && w.secs * 1000
            + w.nanos / 1000000 == white && w.nanos % 1000000 == 0 && w.nanos < 1000000000 && b.secs
            * 1000 + b.nanos / 1000000 == black && b.nanos % 1000000 == 0 && b.nanos < 1000000000,
{
    let parts = seq!["Timems"@, for_white, for_black];
    lemma_game_kinds();
    lemma_numbered_game(line@, end, number, id, parts, more);
    u64_read_back(white);
    u64_read_back(black);
    let w = words(after_command(line@));
    assert(w[1] == parts[0] && w[2] == parts[1] && w[3] == parts[2]);
}

/// A game ends with the result that is sent: a road, flats or something else
/// for White or for Black, or a draw. No other result is known.
pub proof fn results_are_read(
    line: &str,
    end: char,
    number: Seq<char>,
    id: u32,
    result: Seq<char>,
    more: Seq<char>,
    theirs: Result<client::Message, ParseError>,
    ours: Result<communication::Message, ParseError>,
)
    requires
        call_ensures(client::Message::from_str, (line,), theirs),
        call_ensures(communication::Message::from_str, (line,), ours),
        separates(end),
        is_surplus(more),
        stands_for_u32(number, id),
        one_word(result),
        line@ == "Game"@ + seq![end] + number + spaced(seq!["Over"@, result]) + more,
    ensures
        theirs == match theirs_of(result) {
            Some(how) => Ok::<client::Message, ParseError>(
                client::Message::GameOver(id, client::GameResult(how)),
            ),
            None => Err(ParseError::MalformedResult),
        },
        ours == match ours_of(result) {
            Some(how) => Ok::<communication::Message, ParseError>(
                communication::Message::GameOver(id, data_types::GameResult(how)),
            ),
            None => Err(ParseError::MalformedResult),
        },
{
    let parts = seq!["Over"@, result];
    lemma_game_kinds();
    lemma_numbered_game(line@, end, number, id, parts, more);
    let w = words(after_command(line@));
    assert(w[1] == parts[0] && w[2] == parts[1]);
    lemma_results(result);
}

/// The results by their characters, in the server's terms.
pub open spec fn theirs_of(s: Seq<char>) -> Option<client::GameResultInner> {
    if s == seq!['R', '-', '0'] {
        Some(client::GameResultInner::RoadWhite)
    } else if s == seq!['0', '-', 'R'] {
        Some(client::GameResultInner::RoadBlack)
    } else if s == seq!['F', '-', '0'] {
        Some(client::GameResultInner::FlatWhite)
    } else if s == seq!['0', '-', 'F'] {
        Some(client::GameResultInner::FlatBlack)
    } else if s == seq!['1', '-', '0'] {
        Some(client::GameResultInner::OtherWhite)
    } else if s == seq!['0', '-', '1'] {
        Some(client::GameResultInner::OtherBlack)
    } else if s == seq!['1', '/', '2', '-', '1', '/', '2'] {
        Some(client::GameResultInner::Draw)
    } else {
        None
    }
}

/// The results by their characters, in a player's terms.
pub open spec fn ours_of(s: Seq<char>) -> Option<data_types::GameResultInner> {
    if s == seq!['R', '-', '0'] {
        Some(data_types::GameResultInner::RoadWhite)
    } else if s == seq!['0', '-', 'R'] {
        Some(data_types::GameResultInner::RoadBlack)
    } else if s == seq!['F', '-', '0'] {
        Some(data_types::GameResultInner::FlatWhite)
    } else if s == seq!['0', '-', 'F'] {
        Some(data_types::GameResultInner::FlatBlack)
    } else if s == seq!['1', '-', '0'] {
        Some(data_types::GameResultInner::OtherWhite)
    } else if s == seq!['0', '-', '1'] {
        Some(data_types::GameResultInner::OtherBlack)
    } else if s == seq!['1', '/', '2', '-', '1', '/', '2'] {
        Some(data_types::GameResultInner::Draw)
    } else {
        None
    }
}

proof fn lemma_results(s: Seq<char>)
    ensures
        client::result_value(s) == match theirs_of(s) {
            Some(how) => Ok::<client::GameResult, ParseError>(client::GameResult(how)),
            None => Err(ParseError::MalformedResult),
        },
        data_types::result_value(s) == match ours_of(s) {
            Some(how) => Ok::<data_types::GameResult, ParseError>(data_types::GameResult(how)),
            None => Err(ParseError::MalformedResult),
        },
{
    reveal_strlit("R-0");
    reveal_strlit("0-R");
    reveal_strlit("F-0");
    reveal_strlit("0-F");
    reveal_strlit("1-0");
    reveal_strlit("0-1");
    reveal_strlit("1/2-1/2");
    assert("R-0"@ =~= seq!['R', '-', '0']);
    assert("0-R"@ =~= seq!['0', '-', 'R']);
    assert("F-0"@ =~= seq!['F', '-', '0']);
    assert("0-F"@ =~= seq!['0', '-', 'F']);
    assert("1-0"@ =~= seq!['1', '-', '0']);
    assert("0-1"@ =~= seq!['0', '-', '1']);
    assert("1/2-1/2"@ =~= seq!['1', '/', '2', '-', '1', '/', '2']);
}

/// A result by itself is read as it is at the end of a game.
pub proof fn results_are_read_alone(
    s: &str,
    theirs: Result<client::GameResult, ParseError>,
    ours: Result<data_types::GameResult, ParseError>,
)
    requires
        call_ensures(client::GameResult::from_str, (s,), theirs),
        call_ensures(data_types::GameResult::from_str, (s,), ours),
    ensures
        theirs == match theirs_of(s@) {
            Some(how) => Ok::<client::GameResult, ParseError>(client::GameResult(how)),
            None => Err(ParseError::MalformedResult),
        },
        ours == match ours_of(s@) {
            Some(how) => Ok::<data_types::GameResult, ParseError>(data_types::GameResult(how)),
            None => Err(ParseError::MalformedResult),
        },
{
    lemma_results(s@);
}

/// A game that is abandoned is over in the server's terms, with a winner who is
/// not told; a player is told the line. News of a game that mean nothing here
/// are kept whole.
pub proof fn abandoned_and_unknown_news(
    line: &str,
    end: char,
    number: Seq<char>,
    id: u32,
    kind: Seq<char>,
    more: Seq<char>,
    theirs: Result<client::Message, ParseError>,
    ours: Result<communication::Message, ParseError>,
)
    requires
        call_ensures(client::Message::from_str, (line,), theirs),
        call_ensures(communication::Message::from_str, (line,), ours),
        separates(end),
        is_surplus(more),
        stands_for_u32(number, id),
        one_word(kind),
        line@ == "Game"@ + seq![end] + number + spaced(seq![kind]) + more,
        kind != "Timems"@,
        kind != "Over"@,
        kind != "P"@,
        kind != "M"@,
    ensures
        kind == "Abandoned."@ ==> theirs == Ok::<client::Message, ParseError>(
            client::Message::GameOver(
                id,
                client::GameResult(client::GameResultInner::OtherDecisive),
            ),
        ),
        kind != "Abandoned."@ ==> (theirs matches Ok(client::Message::Unknown(given)) && given@
            == line@),
        ours matches Ok(communication::Message::Unknown(given)) && given@ == line@,
{
    lemma_game_kinds();
    lemma_numbered_game(line@, end, number, id, seq![kind], more);
    assert(words(after_command(line@))[1] == kind);
}

} // verus!
