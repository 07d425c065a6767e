//! What holds of reading and writing lines together, and of what a connection
//! goes through.

use std::time::Instant;

use vstd::prelude::*;
use vstd::std_specs::cmp::PartialEqSpec;

use crate::client;
use crate::client::{MessageView, RequestView};
use crate::communication;
use crate::data_types;
use crate::data_types::{item_or_closed, ActiveGameData, Color, ConnectionClosed};
use crate::errors::ParseError;
use crate::moves::{
    direction_between, drops_error, drops_of, drops_words, is_drop, lemma_total_at_least,
    pattern_value, placement_words, spread_words, square_text, square_value, total, valid_drops,
    Direction, MoveKindView, MoveView, PatternError, Piece, Square, SquareError,
};
use crate::numbers::{
    decimal, decimal_is_digits, digit_char, i32_read_back, is_digit, signed_decimal, u32_read_back,
    u64_read_back,
};
use crate::session::{
    frame_value, starting_clocks, FrameError, OutcomeView, Rejected, SessionView,
};
use crate::text::{
    after_command, command, ends_command, is_space, joined, lemma_position_is, lower, spaced,
    words,
};
use crate::time::Duration;
use crate::wire::{
    clock_words, color_word, game_words, greeting, line_value, opponent_word, own_game_words,
    play_of, play_text, seek_terms, seek_words, terms_words, Rating, ServerLineView, Terms,
};

verus! {

/// Whether no character of `s` is a space.
pub open spec fn one_word(s: Seq<char>) -> bool {
    forall|i: int| 0 <= i < s.len() ==> !is_space(#[trigger] s[i])
}

/// Whether no part of `parts` holds a space.
pub open spec fn all_words(parts: Seq<Seq<char>>) -> bool {
    forall|i: int| 0 <= i < parts.len() ==> one_word(#[trigger] parts[i])
}

pub(crate) proof fn lemma_words_front(a: Seq<char>, b: Seq<char>)
    requires
        one_word(a),
    ensures
        words(a.push(' ') + b) == seq![a] + words(b),
{
    let s = a.push(' ') + b;
    assert forall|i: int| 0 <= i < a.len() implies !is_space(#[trigger] s[i]) by {
        assert(s[i] == a[i]);
    }
    lemma_position_is(s, |c: char| is_space(c), a.len() as int);
    assert(s.take(a.len() as int) =~= a);
    assert(s.skip(a.len() as int + 1) =~= b);
}

pub(crate) proof fn lemma_spaced_front(parts: Seq<Seq<char>>)
    requires
        parts.len() > 0,
    ensures
        spaced(parts) == seq![' '] + parts[0] + spaced(parts.drop_first()),
    decreases parts.len(),
{
    if parts.len() == 1 {
        assert(parts.drop_first() =~= Seq::<Seq<char>>::empty());
        assert(parts.drop_last() =~= Seq::<Seq<char>>::empty());
        assert(spaced(parts.drop_last()) =~= Seq::<char>::empty());
        assert(spaced(parts) =~= seq![' '] + parts[0] + spaced(parts.drop_first()));
    } else {
        lemma_spaced_front(parts.drop_last());
        assert(parts.drop_last().drop_first() =~= parts.drop_first().drop_last());
        assert(spaced(parts) =~= seq![' '] + parts[0] + spaced(parts.drop_first()));
    }
}

/// Words that are written one after the other, with a space between two, are
/// read back as they were.
pub proof fn words_read_back(first: Seq<char>, parts: Seq<Seq<char>>)
    requires
        one_word(first),
        all_words(parts),
    ensures
        words(first + spaced(parts)) == seq![first] + parts,
    decreases parts.len(),
{
    if parts.len() == 0 {
        assert(first + spaced(parts) =~= first);
        lemma_position_is(first, |c: char| is_space(c), first.len() as int);
        assert(seq![first] + parts =~= seq![first]);
    } else {
        let rest = parts.drop_first();
        lemma_spaced_front(parts);
        assert(first + spaced(parts) =~= first.push(' ') + (parts[0] + spaced(rest)));
        lemma_words_front(first, parts[0] + spaced(rest));
        words_read_back(parts[0], rest);
        assert(seq![first] + (seq![parts[0]] + rest) =~= seq![first] + parts);
    }
}

pub(crate) proof fn lemma_decimal_one_word(n: nat)
    ensures
        one_word(decimal(n)),
{
    decimal_is_digits(n);
    assert forall|i: int| 0 <= i < decimal(n).len() implies !is_space(#[trigger] decimal(n)[i]) by {
        assert(is_digit(decimal(n)[i]));
    }
}

proof fn lemma_square_read_back(square: Square)
    requires
        square.wf(),
    ensures
        one_word(square_text(square)),
        square_value(lower(square_text(square))) == Ok::<Square, SquareError>(square),
{
}

/// The drop counts of a spread, each as its digit.
pub open spec fn drop_digits(drops: Seq<u32>) -> Seq<char> {
    drops.map_values(|count: u32| digit_char(count as nat))
}

proof fn lemma_joined_drops(parts: Seq<Seq<char>>, from: int, drops: Seq<u32>)
    requires
        0 <= from,
        parts.len() == from + drops.len(),
        forall|i: int|
            0 <= i < drops.len() ==> #[trigger] parts[from + i] == seq![
                digit_char(drops[i] as nat),
            ],
    ensures
        joined(parts, from) == drop_digits(drops),
    decreases drops.len(),
{
    if drops.len() > 0 {
        let rest = drops.drop_first();
        assert forall|i: int| 0 <= i < rest.len() implies #[trigger] parts[from + 1 + i] == seq![
            digit_char(rest[i] as nat),
        ] by {
            assert(parts[from + (1 + i)] == seq![digit_char(drops[1 + i] as nat)]);
        }
        lemma_joined_drops(parts, from + 1, rest);
        assert(parts[from + 0] == seq![digit_char(drops[0] as nat)]);
        assert(joined(parts, from) =~= drop_digits(drops));
    } else {
        assert(joined(parts, from) =~= drop_digits(drops));
    }
}

proof fn lemma_no_drops_error(drops: Seq<u32>)
    requires
        total(drops) <= 8,
        forall|i: int| 0 <= i < drops.len() ==> #[trigger] drops[i] >= 1,
    ensures
        drops_of(drop_digits(drops)) == drops,
        drops_error(drop_digits(drops)) is None,
    decreases drops.len(),
{
    let s = drop_digits(drops);
    assert forall|i: int| 0 <= i < drops.len() implies 1 <= #[trigger] drops[i] <= 8 by {
        lemma_total_at_least(drops, i);
    }
    assert(drops_of(s) =~= drops);
    if drops.len() > 0 {
        assert(s.drop_last() =~= drop_digits(drops.drop_last()));
        lemma_no_drops_error(drops.drop_last());
        assert(drops.last() == drops[drops.len() - 1]);
        assert(is_drop(s.last()));
    }
}

/// Drop counts are read back from their digits.
pub proof fn pattern_read_back(drops: Seq<u32>)
    requires
        valid_drops(drops),
    ensures
        pattern_value(drop_digits(drops)) == Ok::<Seq<u32>, PatternError>(drops),
{
    lemma_no_drops_error(drops);
}

/// The direction of a spread is read back from the squares where it starts and ends.
pub proof fn direction_read_back(square: Square, direction: Direction, steps: int)
    requires
        square.wf(),
        steps >= 1,
        square.can_shift(direction, steps),
    ensures
        square.shifted(direction, steps).wf(),
        direction_between(square, square.shifted(direction, steps)) == Ok::<Direction, ParseError>(
            direction,
        ),
{
}

proof fn lemma_move_words(m: MoveView)
    requires
        m.playable(),
    ensures
        all_words(m.words()),
{
    reveal_strlit("P");
    reveal_strlit("M");
    reveal_strlit("W");
    reveal_strlit("C");
    lemma_square_read_back(m.square);
    match m.kind {
        MoveKindView::Place(piece) => {
            assert(all_words(m.words()));
        },
        MoveKindView::Spread(direction, drops) => {
            direction_read_back(m.square, direction, drops.len() as int);
            lemma_square_read_back(m.square.shifted(direction, drops.len() as int));
            assert forall|i: int| 0 <= i < m.words().len() implies one_word(
                #[trigger] m.words()[i],
            ) by {
                if i >= 3 {
                    lemma_decimal_one_word(drops[i - 3] as nat);
                }
            }
        },
    }
}

proof fn lemma_game_line(s: Seq<char>)
    requires
        command(s) == "Game"@,
    ensures
        line_value(s) == game_words(words(after_command(s))),
{
    reveal_strlit("Game");
    reveal_strlit("OK");
    reveal_strlit("NOK");
    reveal_strlit("Seek");
    reveal_strlit("GameList");
    assert("Game"@.len() == 4 && "OK"@.len() == 2 && "NOK"@.len() == 3 && "GameList"@.len() == 8);
    assert("Game"@[0] != "Seek"@[0]);
}

proof fn lemma_game_command(end: char, rest: Seq<char>)
    requires
        ends_command(end),
    ensures
        command("Game"@.push(end) + rest) == "Game"@,
        after_command("Game"@.push(end) + rest) == rest,
{
    let s = "Game"@.push(end) + rest;
    reveal_strlit("Game");
    lemma_position_is(s, |c: char| ends_command(c), 4);
    assert(command(s) =~= "Game"@);
    assert(after_command(s) =~= rest);
}

proof fn lemma_own_game(parts: Seq<Seq<char>>, id: u32)
    requires
        parts.len() >= 2,
        parts[0] == decimal(id as nat),
    ensures
        game_words(parts) == own_game_words(parts, id),
        parts[1] == "P"@ ==> own_game_words(parts, id) == play_of(id, placement_words(parts, 2)),
        parts[1] == "M"@ ==> own_game_words(parts, id) == play_of(id, spread_words(parts, 2)),
{
    reveal_strlit("Start");
    decimal_is_digits(id as nat);
    assert(is_digit(parts[0][0]));
    assert("Start"@[0] == 'S');
    u32_read_back(id);
    reveal_strlit("P");
    reveal_strlit("M");
    reveal_strlit("Timems");
    reveal_strlit("Over");
    reveal_strlit("Abandoned.");
    assert("P"@.len() == 1 && "M"@.len() == 1 && "Timems"@.len() == 6 && "Over"@.len() == 4
        && "Abandoned."@.len() == 10);
    assert("P"@[0] != "M"@[0]);
}

proof fn lemma_placement_read_back(parts: Seq<Seq<char>>, m: MoveView, piece: Piece)
    requires
        m.playable(),
        m.kind == MoveKindView::Place(piece),
        parts.len() == 1 + m.words().len(),
        parts.skip(1) == m.words(),
    ensures
        parts[1] == "P"@,
        placement_words(parts, 2) == Ok::<MoveView, ParseError>(m),
{
    let w = m.words();
    assert(parts[1] == parts.skip(1)[0]);
    assert(parts[2] == parts.skip(1)[1]);
    lemma_square_read_back(m.square);
    reveal_strlit("W");
    reveal_strlit("C");
    assert("W"@[0] != "C"@[0]);
    if piece != Piece::Flat {
        assert(parts[3] == parts.skip(1)[2]);
    }
}

proof fn lemma_spread_read_back(
    parts: Seq<Seq<char>>,
    m: MoveView,
    direction: Direction,
    drops: Seq<u32>,
)
    requires
        m.playable(),
        m.kind == MoveKindView::Spread(direction, drops),
        parts.len() == 1 + m.words().len(),
        parts.skip(1) == m.words(),
    ensures
        parts[1] == "M"@,
        spread_words(parts, 2) == Ok::<MoveView, ParseError>(m),
{
    let w = m.words();
    let target = m.square.shifted(direction, drops.len() as int);
    assert(parts[1] == parts.skip(1)[0]);
    assert(parts[2] == parts.skip(1)[1]);
    assert(parts[3] == parts.skip(1)[2]);
    lemma_square_read_back(m.square);
    direction_read_back(m.square, direction, drops.len() as int);
    lemma_square_read_back(target);
    assert forall|i: int| 0 <= i < drops.len() implies #[trigger] parts[4 + i] == seq![
        digit_char(drops[i] as nat),
    ] by {
        lemma_total_at_least(drops, i);
        assert(parts[4 + i] == parts.skip(1)[3 + i]);
        assert(w[3 + i] == drops_words(drops)[i]);
    }
    lemma_joined_drops(parts, 4, drops);
    pattern_read_back(drops);
}

/// The line with which a move is played is read as that move in that game.
pub proof fn play_read_back(id: u32, m: MoveView)
    requires
        m.playable(),
    ensures
        line_value(play_text(id, m)) == Ok::<ServerLineView, ParseError>(
            ServerLineView::Play(id, m),
        ),
{
    let parts = seq![decimal(id as nat)] + m.words();
    reveal_strlit("Game#");
    reveal_strlit("Game");
    assert(play_text(id, m) =~= "Game"@.push('#') + (decimal(id as nat) + spaced(m.words())));
    lemma_game_command('#', decimal(id as nat) + spaced(m.words()));
    lemma_game_line(play_text(id, m));
    lemma_decimal_one_word(id as nat);
    lemma_move_words(m);
    words_read_back(decimal(id as nat), m.words());
    lemma_own_game(parts, id);
    assert(parts.skip(1) =~= m.words());
    match m.kind {
        MoveKindView::Place(piece) => {
            lemma_placement_read_back(parts, m, piece);
        },
        MoveKindView::Spread(direction, drops) => {
            lemma_spread_read_back(parts, m, direction, drops);
        },
    }
}

/// The words with which the server announces a seek, after the command.
pub open spec fn announcement_words(id: u32, owner: Seq<char>, terms: Seq<Seq<char>>) -> Seq<
    Seq<char>,
> {
    seq!["new"@, decimal(id as nat), owner] + terms
}

/// The line with which the server announces a seek.
pub open spec fn announcement(id: u32, owner: Seq<char>, terms: Seq<Seq<char>>) -> Seq<char> {
    "Seek"@ + spaced(announcement_words(id, owner, terms))
}

proof fn lemma_announcement_command(id: u32, owner: Seq<char>, terms: Seq<Seq<char>>)
    requires
        one_word(owner),
        all_words(terms),
    ensures
        command(announcement(id, owner, terms)) == "Seek"@,
        words(after_command(announcement(id, owner, terms))) == announcement_words(
            id,
            owner,
            terms,
        ),
{
    let s = announcement(id, owner, terms);
    let parts = announcement_words(id, owner, terms);
    let rest = parts.drop_first();
    reveal_strlit("Seek");
    reveal_strlit("new");
    lemma_spaced_front(parts);
    lemma_position_is(s, |c: char| ends_command(c), 4);
    assert(command(s) =~= "Seek"@);
    assert(after_command(s) =~= "new"@ + spaced(rest));
    lemma_decimal_one_word(id as nat);
    assert forall|i: int| 0 <= i < rest.len() implies one_word(#[trigger] rest[i]) by {
        if i >= 2 {
            assert(rest[i] == terms[i - 2]);
        }
    }
    words_read_back("new"@, rest);
    assert(seq!["new"@] + rest =~= parts);
}

proof fn lemma_seek_line(s: Seq<char>)
    requires
        command(s) == "Seek"@,
    ensures
        line_value(s) == seek_words(words(after_command(s))),
{
    reveal_strlit("Seek");
    reveal_strlit("OK");
    reveal_strlit("NOK");
    assert("Seek"@.len() == 4 && "OK"@.len() == 2 && "NOK"@.len() == 3);
}

pub(crate) proof fn lemma_signed_one_word(n: int)
    ensures
        one_word(signed_decimal(n)),
{
    if n < 0 {
        lemma_decimal_one_word((-n) as nat);
        assert forall|i: int| 0 <= i < signed_decimal(n).len() implies !is_space(
            #[trigger] signed_decimal(n)[i],
        ) by {
            if i > 0 {
                assert(signed_decimal(n)[i] == decimal((-n) as nat)[i - 1]);
            }
        }
    } else {
        lemma_decimal_one_word(n as nat);
    }
}

/// Whether a seek can be told from its words: its times are whole seconds, it
/// is known whether it is rated, and its opponent, if any, has a name of one
/// word.
pub open spec fn tellable(terms: Terms, opponent: Option<Seq<char>>) -> bool {
    &&& terms.initial_time.nanos == 0
    &&& terms.increment.nanos == 0
    &&& terms.rating != Rating::Unclear
    &&& opponent matches Some(name) ==> name.len() > 0 && one_word(name)
}

proof fn lemma_seek_terms_words(color: Option<Color>, terms: Terms, opponent: Option<Seq<char>>)
    requires
        tellable(terms, opponent),
    ensures
        all_words(seek_terms(color, terms, opponent)),
{
    lemma_decimal_one_word(terms.size as nat);
    lemma_decimal_one_word(terms.initial_time.secs as nat);
    lemma_decimal_one_word(terms.increment.secs as nat);
    lemma_decimal_one_word(terms.flat_count as nat);
    lemma_decimal_one_word(terms.cap_count as nat);
    lemma_signed_one_word(terms.half_komi as int);
    reveal_strlit("A");
    reveal_strlit("W");
    reveal_strlit("B");
    reveal_strlit("0");
    reveal_strlit("1");
}

proof fn lemma_seek_terms_read_back(
    parts: Seq<Seq<char>>,
    color: Option<Color>,
    terms: Terms,
    opponent: Option<Seq<char>>,
)
    requires
        tellable(terms, opponent),
        parts.len() == 13,
        parts.skip(3) == seek_terms(color, terms, opponent),
    ensures
        clock_words(parts, 3) == Ok::<(u32, Duration, Duration), ParseError>(
            (terms.size, terms.initial_time, terms.increment),
        ),
        color_word(parts, 6) == Ok::<Option<Color>, ParseError>(color),
        terms_words(parts, 7, (terms.size, terms.initial_time, terms.increment)) == Ok::<
            Terms,
            ParseError,
        >(terms),
        opponent_word(parts, 12) == Ok::<Option<Seq<char>>, ParseError>(opponent),
{
    assert forall|i: int| 3 <= i < 13 implies #[trigger] parts[i] == seek_terms(
        color,
        terms,
        opponent,
    )[i - 3] by {
        assert(parts[i] == parts.skip(3)[i - 3]);
    }
    u32_read_back(terms.size);
    u64_read_back(terms.initial_time.secs);
    u64_read_back(terms.increment.secs);
    i32_read_back(terms.half_komi);
    u32_read_back(terms.flat_count);
    u32_read_back(terms.cap_count);
    reveal_strlit("A");
    reveal_strlit("W");
    reveal_strlit("B");
    reveal_strlit("0");
    reveal_strlit("1");
    assert("A"@[0] == 'A' && "W"@[0] == 'W' && "B"@[0] == 'B' && "0"@[0] == '0' && "1"@[0] == '1');
}

/// A seek that the server announces in the words in which it was asked for is
/// read as the seek that was asked for.
pub proof fn seek_read_back(
    id: u32,
    owner: Seq<char>,
    color: Option<Color>,
    terms: Terms,
    opponent: Option<Seq<char>>,
)
    requires
        one_word(owner),
        tellable(terms, opponent),
    ensures
        line_value(announcement(id, owner, seek_terms(color, terms, opponent))) == Ok::<
            ServerLineView,
            ParseError,
        >(ServerLineView::AddSeek { id, owner, color, terms, opponent }),
{
    let tail = seek_terms(color, terms, opponent);
    let parts = announcement_words(id, owner, tail);
    lemma_seek_terms_words(color, terms, opponent);
    lemma_announcement_command(id, owner, tail);
    lemma_seek_line(announcement(id, owner, tail));
    assert(parts.skip(3) =~= tail);
    lemma_seek_terms_read_back(parts, color, terms, opponent);
    u32_read_back(id);
    assert(parts[0] == "new"@ && parts[1] == decimal(id as nat) && parts[2] == owner);
}

/// The line with which a move is played is read as a message of that move, in
/// the server's terms and in a player's.
pub proof fn played_move_is_reported(id: u32, m: MoveView)
    requires
        m.playable(),
    ensures
        client::message_value(client::RequestView::Play(id, m).text()) == Ok::<
            client::MessageView,
            ParseError,
        >(client::MessageView::Play(id, m)),
        communication::message_value(communication::RequestView::Play(id, m).text()) == Ok::<
            communication::MessageView,
            ParseError,
        >(communication::MessageView::Play(id, m)),
{
    play_read_back(id, m);
}

/// Parameters, and the color that a seek asks for, come back unchanged from
/// the form in which lines hold them.
pub proof fn terms_read_back(
    theirs: client::GameParameters,
    ours: data_types::GameParameters,
    color: client::Color,
)
    ensures
        client::GameParameters::spec_from_terms(theirs.spec_terms()) == theirs,
        data_types::GameParameters::spec_from_terms(ours.spec_terms()) == ours,
        client::Color::spec_from_choice(color.spec_choice()) == color,
{
}

/// A seek with times in whole seconds that the server announces in the words in
/// which it was asked for is read as that seek, in the server's terms.
pub proof fn seek_is_announced(id: u32, seeker: Seq<char>, params: client::SeekParametersView)
    requires
        one_word(seeker),
        params.params.initial_time.nanos == 0,
        params.params.increment.nanos == 0,
        params.opponent matches Some(name) ==> name.len() > 0 && one_word(name),
    ensures
        client::RequestView::Seek(params).text() == "Seek"@ + spaced(
            seek_terms(params.color.spec_choice(), params.params.spec_terms(), params.opponent),
        ),
        client::message_value(
            announcement(
                id,
                seeker,
                seek_terms(params.color.spec_choice(), params.params.spec_terms(), params.opponent),
            ),
        ) == Ok::<client::MessageView, ParseError>(
            client::MessageView::AddSeek(client::SeekView { id, seeker, params }),
        ),
{
    seek_read_back(
        id,
        seeker,
        params.color.spec_choice(),
        params.params.spec_terms(),
        params.opponent,
    );
    assert(client::Color::spec_from_choice(params.color.spec_choice()) == params.color);
}

/// A seek with times in whole seconds that the server announces in the words in
/// which it was asked for is read as that seek, in a player's terms.
pub proof fn seek_is_announced_to_player(
    id: u32,
    owner: Seq<char>,
    params: data_types::SeekParametersView,
)
    requires
        one_word(owner),
        params.params.initial_time.nanos == 0,
        params.params.increment.nanos == 0,
        params.opponent matches Some(name) ==> name.len() > 0 && one_word(name),
    ensures
        communication::RequestView::Seek(params).text() == "Seek"@ + spaced(
            seek_terms(params.color, params.params.spec_terms(), params.opponent),
        ),
        communication::message_value(
            announcement(
                id,
                owner,
                seek_terms(params.color, params.params.spec_terms(), params.opponent),
            ),
        ) == Ok::<communication::MessageView, ParseError>(
            communication::MessageView::AddSeek(data_types::SeekView { id, owner, params }),
        ),
{
    seek_read_back(id, owner, params.color, params.params.spec_terms(), params.opponent);
}

/// A seek reads the same to the server in whichever terms it is put.
pub proof fn same_seek_same_line(
    theirs: client::SeekParametersView,
    ours: data_types::SeekParametersView,
)
    requires
        theirs.color.spec_choice() == ours.color,
        theirs.opponent == ours.opponent,
        theirs.params.spec_terms() == ours.params.spec_terms(),
    ensures
        client::RequestView::Seek(theirs).text() == communication::RequestView::Seek(ours).text(),
        theirs.params.unrated == !ours.params.rated,
        theirs.params.supported() == ours.params.supported(),
{
}

proof fn lemma_abandoned_words(parts: Seq<Seq<char>>, id: u32)
    requires
        parts.len() >= 2,
        parts[0] == decimal(id as nat),
        parts[1] == "Abandoned."@,
    ensures
        game_words(parts) == Ok::<ServerLineView, ParseError>(ServerLineView::Abandoned(id)),
{
    lemma_own_game(parts, id);
    reveal_strlit("Timems");
    reveal_strlit("Over");
    reveal_strlit("Abandoned.");
    assert("Timems"@.len() == 6 && "Over"@.len() == 4 && "Abandoned."@.len() == 10);
}

/// The line that says that a game is abandoned.
pub open spec fn abandoned_text(end: char, id: u32) -> Seq<char> {
    "Game"@.push(end) + (decimal(id as nat).push(' ') + "Abandoned."@)
}

/// A line whose words begin with a game's number and `Abandoned.` says that the
/// game is over, with a winner, in the server's terms; a player is not told.
proof fn lemma_abandoned_line(end: char, id: u32, rest: Seq<char>, more: Seq<Seq<char>>)
    requires
        ends_command(end),
        words(rest) == seq![decimal(id as nat), "Abandoned."@] + more,
    ensures
        client::message_value("Game"@.push(end) + rest) == Ok::<client::MessageView, ParseError>(
            client::MessageView::GameOver(
                id,
                client::GameResult(client::GameResultInner::OtherDecisive),
            ),
        ),
        communication::message_value("Game"@.push(end) + rest) == Ok::<
            communication::MessageView,
            ParseError,
        >(communication::MessageView::Unknown("Game"@.push(end) + rest)),
{
    lemma_game_command(end, rest);
    lemma_game_line("Game"@.push(end) + rest);
    lemma_abandoned_words(words(rest), id);
}

#[verifier::rlimit(60)]
proof fn lemma_abandoned_alone(end: char, id: u32)
    requires
        ends_command(end),
    ensures
        client::message_value(abandoned_text(end, id)) == Ok::<client::MessageView, ParseError>(
            client::MessageView::GameOver(
                id,
                client::GameResult(client::GameResultInner::OtherDecisive),
            ),
        ),
        communication::message_value(abandoned_text(end, id)) == Ok::<
            communication::MessageView,
            ParseError,
        >(communication::MessageView::Unknown(abandoned_text(end, id))),
{
    let number = decimal(id as nat);
    let none = Seq::<Seq<char>>::empty();
    let rest = number.push(' ') + "Abandoned."@;
    assert(words(rest) == seq![number, "Abandoned."@] + none) by {
        reveal_strlit("Abandoned.");
        lemma_decimal_one_word(id as nat);
        lemma_words_front(number, "Abandoned."@);
        words_read_back("Abandoned."@, none);
        assert("Abandoned."@ + spaced(none) =~= "Abandoned."@);
        assert(words(rest) =~= seq![number, "Abandoned."@] + none);
    }
    lemma_abandoned_line(end, id, rest, none);
}

#[verifier::rlimit(60)]
proof fn lemma_abandoned_with_more(end: char, id: u32, more: Seq<char>)
    requires
        ends_command(end),
    ensures
        client::message_value(abandoned_text(end, id).push(' ') + more) == Ok::<
            client::MessageView,
            ParseError,
        >(
            client::MessageView::GameOver(
                id,
                client::GameResult(client::GameResultInner::OtherDecisive),
            ),
        ),
        communication::message_value(abandoned_text(end, id).push(' ') + more) == Ok::<
            communication::MessageView,
            ParseError,
        >(communication::MessageView::Unknown(abandoned_text(end, id).push(' ') + more)),
{
    let number = decimal(id as nat);
    let rest = number.push(' ') + ("Abandoned."@.push(' ') + more);
    assert(words(rest) == seq![number, "Abandoned."@] + words(more)) by {
        reveal_strlit("Abandoned.");
        lemma_decimal_one_word(id as nat);
        lemma_words_front("Abandoned."@, more);
        lemma_words_front(number, "Abandoned."@.push(' ') + more);
        assert(words(rest) =~= seq![number, "Abandoned."@] + words(more));
    }
    assert(abandoned_text(end, id).push(' ') + more =~= "Game"@.push(end) + rest);
    lemma_abandoned_line(end, id, rest, words(more));
}

/// The line that a game is abandoned is read as the end of that game, with a
/// winner, whatever else the line says after it. In a player's terms the line
/// says nothing.
pub proof fn abandoned_game_is_over(end: char, id: u32, more: Seq<char>)
    requires
        ends_command(end),
    ensures
        client::message_value(abandoned_text(end, id)) == Ok::<client::MessageView, ParseError>(
            client::MessageView::GameOver(
                id,
                client::GameResult(client::GameResultInner::OtherDecisive),
            ),
        ),
        client::message_value(abandoned_text(end, id).push(' ') + more) == Ok::<
            client::MessageView,
            ParseError,
        >(
            client::MessageView::GameOver(
                id,
                client::GameResult(client::GameResultInner::OtherDecisive),
            ),
        ),
        communication::message_value(abandoned_text(end, id)) == Ok::<
            communication::MessageView,
            ParseError,
        >(communication::MessageView::Unknown(abandoned_text(end, id))),
        communication::message_value(abandoned_text(end, id).push(' ') + more) == Ok::<
            communication::MessageView,
            ParseError,
        >(communication::MessageView::Unknown(abandoned_text(end, id).push(' ') + more)),
{
    lemma_abandoned_alone(end, id);
    lemma_abandoned_with_more(end, id, more);
}

/// A greeting names the user whom it greets, whatever characters the name has,
/// whatever ends the command, and in whichever terms it is read.
pub proof fn greeting_names_the_user(end: char, name: Seq<char>)
    requires
        ends_command(end),
    ensures
        client::message_value("Welcome"@.push(end) + name.push('!')) == Ok::<
            client::MessageView,
            ParseError,
        >(client::MessageView::LoggedIn(name)),
        communication::message_value("Welcome"@.push(end) + name.push('!')) == Ok::<
            communication::MessageView,
            ParseError,
        >(communication::MessageView::LoggedIn(name)),
{
    let s = "Welcome"@.push(end) + name.push('!');
    reveal_strlit("Welcome");
    lemma_position_is(s, |c: char| ends_command(c), 7);
    assert(command(s) =~= "Welcome"@);
    assert(after_command(s) =~= name.push('!'));
    assert(name.push('!').drop_last() =~= name);
    lemma_welcome_line(s);
}

proof fn lemma_welcome_line(s: Seq<char>)
    requires
        command(s) == "Welcome"@,
    ensures
        line_value(s) == greeting(after_command(s)),
{
    reveal_strlit("Welcome");
    reveal_strlit("OK");
    reveal_strlit("NOK");
    reveal_strlit("Seek");
    reveal_strlit("GameList");
    reveal_strlit("Game");
    reveal_strlit("Online");
    assert("Welcome"@.len() == 7 && "OK"@.len() == 2 && "NOK"@.len() == 3 && "Seek"@.len() == 4
        && "GameList"@.len() == 8 && "Game"@.len() == 4 && "Online"@.len() == 6);
}

/// What ends a line does not matter to the message in it.
pub proof fn line_end_is_dropped(line: Seq<char>, end: char)
    ensures
        frame_value(line.push(end)) == match client::message_value(line) {
            Ok(message) => Ok::<client::MessageView, FrameError>(message),
            Err(e) => Err(FrameError::Malformed(e)),
        },
{
    assert(line.push(end).drop_last() =~= line);
}

/// To `==`, two seeks or two games are the same if and only if they have the
/// same number, which is what they lend and what they are hashed by.
pub proof fn numbers_tell_apart(
    seeks: (client::Seek, client::Seek),
    games: (client::Game, client::Game),
    players_seeks: (data_types::Seek, data_types::Seek),
    players_games: (data_types::Game, data_types::Game),
)
    ensures
        seeks.0.eq_spec(&seeks.1) <==> seeks.0.id == seeks.1.id,
        games.0.eq_spec(&games.1) <==> games.0.id == games.1.id,
        players_seeks.0.eq_spec(&players_seeks.1) <==> players_seeks.0.id == players_seeks.1.id,
        players_games.0.eq_spec(&players_games.1) <==> players_games.0.id == players_games.1.id,
{
}

/// Whether every seek and every game is kept under its own number.
pub open spec fn filed<T>(state: SessionView<T>) -> bool {
    &&& forall|id: u32| #[trigger]
        state.seeks.contains_key(id) ==> state.seeks[id].id == id
    &&& forall|id: u32| #[trigger]
        state.games.contains_key(id) ==> state.games[id].id == id
}

/// The state after a request is sent.
pub open spec fn after_sending<T>(
    state: SessionView<T>,
    request: RequestView,
    reply: T,
) -> SessionView<T> {
    SessionView { queue: state.queue.push((request, reply)), ..state }
}

/// A message leaves the requests that await their answer as they are, but for
/// the oldest, which leaves if and only if the message answers it.
pub proof fn answers_come_in_order<T>(state: SessionView<T>, message: MessageView, now: Instant)
    ensures
        state.answer(message) is Some ==> state.queue.len() > 0 && state.next(message, now).queue
            == state.queue.drop_first(),
        state.answer(message) is None ==> state.next(message, now).queue == state.queue,
{
}

/// What can happen to a connection.
pub enum Event<T> {
    /// A request is sent; its answer is to be handed to the `T`.
    Sent(RequestView, T),
    /// A message comes at a moment.
    Received(MessageView, Instant),
}

/// The state after an event.
pub open spec fn after_event<T>(state: SessionView<T>, event: Event<T>) -> SessionView<T> {
    match event {
        Event::Sent(request, reply) => after_sending(state, request, reply),
        Event::Received(message, now) => state.next(message, now),
    }
}

/// The state after a series of events.
pub open spec fn after_all<T>(state: SessionView<T>, events: Seq<Event<T>>) -> SessionView<T>
    decreases events.len(),
{
    if events.len() == 0 {
        state
    } else {
        after_event(after_all(state, events.drop_last()), events.last())
    }
}

/// The requests that are sent in a series of events, first to last.
pub open spec fn sent_in<T>(events: Seq<Event<T>>) -> Seq<(RequestView, T)>
    decreases events.len(),
{
    if events.len() == 0 {
        Seq::empty()
    } else {
        match events.last() {
            Event::Sent(request, reply) => sent_in(events.drop_last()).push((request, reply)),
            Event::Received(_, _) => sent_in(events.drop_last()),
        }
    }
}

/// The requests that are answered in a series of events, first to last.
pub open spec fn answered_in<T>(state: SessionView<T>, events: Seq<Event<T>>) -> Seq<
    (RequestView, T),
>
    decreases events.len(),
{
    if events.len() == 0 {
        Seq::empty()
    } else {
        let before = after_all(state, events.drop_last());
        let answered = answered_in(state, events.drop_last());
        match events.last() {
            Event::Received(message, _) if before.answer(message) is Some => answered.push(
                before.queue[0],
            ),
            _ => answered,
        }
    }
}

/// Every seek and every game is kept under its own number, whatever happens
/// from the moment at which the connection is made.
pub proof fn always_filed<T>(events: Seq<Event<T>>)
    ensures
        filed(after_all(SessionView::<T>::initial(), events)),
    decreases events.len(),
{
    if events.len() > 0 {
        always_filed(events.drop_last());
    }
}

/// Requests are answered in the order in which they were sent, each by one
/// message, however sending and answering alternate: those that were answered
/// and, after them, those that still await their answer are the ones that
/// awaited theirs at first and, after them, the ones that were sent.
pub proof fn requests_are_answered_in_order<T>(state: SessionView<T>, events: Seq<Event<T>>)
    ensures
        answered_in(state, events) + after_all(state, events).queue == state.queue + sent_in(
            events,
        ),
        answered_in(state, events).len() <= state.queue.len() + sent_in(events).len(),
        after_all(state, events).queue == (state.queue + sent_in(events)).skip(
            answered_in(state, events).len() as int,
        ),
        answered_in(state, events) == (state.queue + sent_in(events)).take(
            answered_in(state, events).len() as int,
        ),
    decreases events.len(),
{
    let answered = answered_in(state, events);
    let queue = after_all(state, events).queue;
    let all = state.queue + sent_in(events);
    if events.len() == 0 {
        assert(answered + queue =~= all);
    } else {
        let before = after_all(state, events.drop_last());
        let answered_before = answered_in(state, events.drop_last());
        let all_before = state.queue + sent_in(events.drop_last());
        requests_are_answered_in_order(state, events.drop_last());
        assert(answered_before + before.queue == all_before);
        match events.last() {
            Event::Sent(request, reply) => {
                assert(all =~= all_before.push((request, reply)));
                assert(answered + queue =~= (answered_before + before.queue).push(
                    (request, reply),
                ));
            },
            Event::Received(message, now) => {
                answers_come_in_order(before, message, now);
                assert(answered + queue =~= answered_before + before.queue);
            },
        }
    }
    assert(queue =~= (answered + queue).skip(answered.len() as int));
    assert(answered =~= (answered + queue).take(answered.len() as int));
}

/// While requests await their answer, sending another one disturbs none of
/// them: it does not matter whether it is sent before or after a message comes.
pub proof fn sending_does_not_disturb<T>(
    state: SessionView<T>,
    request: RequestView,
    reply: T,
    message: MessageView,
    now: Instant,
)
    requires
        state.queue.len() > 0,
    ensures
        after_sending(state, request, reply).accepts(message) == state.accepts(message),
        after_sending(state, request, reply).answer(message) == state.answer(message),
        after_sending(state, request, reply).queue[0] == state.queue[0],
        after_sending(state, request, reply).outcome(message, now) == state.outcome(message, now),
        after_sending(state, request, reply).next(message, now) == after_sending(
            state.next(message, now),
            request,
            reply,
        ),
{
    assert(state.queue.push((request, reply)).drop_first() =~= state.queue.drop_first().push(
        (request, reply),
    ));
}

/// A request that the server refuses is told so, and nothing else changes.
pub proof fn refusal_changes_nothing_else<T>(state: SessionView<T>, now: Instant)
    requires
        state.queue.len() > 0,
    ensures
        state.answer(MessageView::NotOk) == Some(Err::<(), Rejected>(Rejected)),
        state.next(MessageView::NotOk, now) == (SessionView {
            queue: state.queue.drop_first(),
            ..state
        }),
{
}

/// With no request under way, an answer does nothing.
pub proof fn stray_answer_does_nothing<T>(
    state: SessionView<T>,
    message: MessageView,
    now: Instant,
)
    requires
        state.queue.len() == 0,
        message is Okay || message is NotOk || message is LoggedIn,
    ensures
        state.next(message, now) == state,
        state.answer(message) is None,
        state.outcome(message, now) is Discarded,
{
}

/// The user's name is the one of the last greeting that answered a request.
pub proof fn only_greetings_name_the_user<T>(
    state: SessionView<T>,
    message: MessageView,
    now: Instant,
)
    ensures
        state.next(message, now).username == match message {
            MessageView::LoggedIn(name) if state.queue.len() > 0 => Some(name),
            _ => state.username,
        },
{
}

/// Once the server announces a seek as the user's own, the oldest request that
/// awaits an answer is told that it was granted: the request for that seek, if
/// nothing else was under way when it was sent. The seek is open from then on,
/// unless its number was taken.
pub proof fn own_seek_is_granted<T>(
    state: SessionView<T>,
    params: client::SeekParametersView,
    reply: T,
    seek: client::SeekView,
    now: Instant,
)
    requires
        state.username == Some(seek.seeker),
    ensures
        ({
            let waiting = after_sending(state, RequestView::Seek(params), reply);
            let message = MessageView::AddSeek(seek);
            &&& waiting.accepts(message)
            &&& waiting.answer(message) == Some(Ok::<(), Rejected>(()))
            &&& waiting.queue[0] == if state.queue.len() == 0 {
                (RequestView::Seek(params), reply)
            } else {
                state.queue[0]
            }
            &&& waiting.next(message, now) == (SessionView {
                queue: waiting.queue.drop_first(),
                seeks: if state.seeks.contains_key(seek.id) {
                    state.seeks
                } else {
                    state.seeks.insert(seek.id, seek)
                },
                ..state
            })
        }),
{
}

/// A seek of somebody else answers no request.
pub proof fn foreign_seek_is_no_answer<T>(state: SessionView<T>, seek: client::SeekView)
    requires
        state.username != Some(seek.seeker),
    ensures
        state.answer(MessageView::AddSeek(seek)) is None,
{
}

/// A seek that is opened under a free number and closed again leaves all as it
/// was, but for a request that it may have answered.
pub proof fn closing_undoes_opening<T>(
    state: SessionView<T>,
    seek: client::SeekView,
    opened: Instant,
    closed: Instant,
)
    requires
        !state.seeks.contains_key(seek.id),
    ensures
        ({
            let opened_then_closed = state.next(MessageView::AddSeek(seek), opened).next(
                MessageView::RemoveSeek(seek.id),
                closed,
            );
            opened_then_closed == (SessionView { queue: opened_then_closed.queue, ..state })
        }),
{
    assert(state.seeks.insert(seek.id, seek).remove(seek.id) =~= state.seeks);
}

/// A game that is listed under a free number and struck off again leaves all as
/// it was.
pub proof fn striking_undoes_listing<T>(
    state: SessionView<T>,
    game: client::GameView,
    listed: Instant,
    struck: Instant,
)
    requires
        !state.games.contains_key(game.id),
    ensures
        state.next(MessageView::AddGame(game), listed).next(
            MessageView::RemoveGame(game.id),
            struck,
        ) == state,
{
    assert(state.games.insert(game.id, game).remove(game.id) =~= state.games);
}

/// From its start to its end a game takes moves, clocks and a result, and
/// after its end none of them.
pub proof fn game_lasts_from_start_to_end<T>(
    state: SessionView<T>,
    id: u32,
    m: MoveView,
    white: Duration,
    black: Duration,
    result: client::GameResult,
    now: Instant,
)
    requires
        state.accepts(MessageView::StartGame(id)),
    ensures
        ({
            let started = state.next(MessageView::StartGame(id), now);
            let ended = started.next(MessageView::GameOver(id, result), now);
            &&& started.active_games[id] == starting_clocks(state.games[id])
            &&& started.accepts(MessageView::Play(id, m))
            &&& started.accepts(MessageView::SyncClocks(id, white, black))
            &&& started.accepts(MessageView::GameOver(id, result))
            &&& !ended.accepts(MessageView::Play(id, m))
            &&& !ended.accepts(MessageView::SyncClocks(id, white, black))
            &&& !ended.accepts(MessageView::GameOver(id, result))
        }),
{
}

/// A move changes nothing in the state. A game goes on until its own end, and
/// its clocks stay as they are until they are set or the game starts anew.
pub proof fn game_goes_on<T>(state: SessionView<T>, id: u32, message: MessageView, now: Instant)
    requires
        state.active_games.contains_key(id),
        !(message matches MessageView::GameOver(ended, _) && ended == id),
    ensures
        state.next(message, now).active_games.contains_key(id),
        !(message matches MessageView::SyncClocks(set, _, _) && set == id) && !(
        message matches MessageView::StartGame(started) && started == id) ==> state.next(
            message,
            now,
        ).active_games[id] == state.active_games[id],
        message is Play ==> state.next(message, now) == state,
{
}

/// Whether every message of a series makes sense when it comes.
pub open spec fn all_accepted<T>(state: SessionView<T>, events: Seq<Event<T>>) -> bool
    decreases events.len(),
{
    events.len() > 0 ==> {
        &&& all_accepted(state, events.drop_last())
        &&& events.last() matches Event::Received(message, _) ==> after_all(
            state,
            events.drop_last(),
        ).accepts(message)
    }
}

/// What the messages of a series do, first to last.
pub open spec fn outcomes_in<T>(state: SessionView<T>, events: Seq<Event<T>>) -> Seq<OutcomeView>
    decreases events.len(),
{
    if events.len() == 0 {
        Seq::empty()
    } else {
        let before = after_all(state, events.drop_last());
        let outcomes = outcomes_in(state, events.drop_last());
        match events.last() {
            Event::Sent(_, _) => outcomes,
            Event::Received(message, now) => outcomes.push(before.outcome(message, now)),
        }
    }
}

/// What happens after the one series and then the other is what happens after
/// both as one.
proof fn lemma_after_both<T>(state: SessionView<T>, first: Seq<Event<T>>, then_on: Seq<Event<T>>)
    ensures
        after_all(state, first + then_on) == after_all(after_all(state, first), then_on),
    decreases then_on.len(),
{
    if then_on.len() == 0 {
        assert(first + then_on =~= first);
    } else {
        assert((first + then_on).drop_last() =~= first + then_on.drop_last());
        lemma_after_both(state, first, then_on.drop_last());
    }
}

/// The seek that is open under a number after a series of events on a new
/// connection: the first that was opened under it since it was last closed.
pub open spec fn open_in<T>(events: Seq<Event<T>>, id: u32) -> Option<client::SeekView>
    decreases events.len(),
{
    if events.len() == 0 {
        None
    } else {
        let before = open_in(events.drop_last(), id);
        match events.last() {
            Event::Received(MessageView::AddSeek(seek), _) if seek.id == id && before is None =>
                Some(seek),
            Event::Received(MessageView::RemoveSeek(closed), _) if closed == id => None,
            _ => before,
        }
    }
}

/// The game that is listed under a number after a series of events on a new
/// connection: the first that was listed under it since it was last struck off.
pub open spec fn listed_in<T>(events: Seq<Event<T>>, id: u32) -> Option<client::GameView>
    decreases events.len(),
{
    if events.len() == 0 {
        None
    } else {
        let before = listed_in(events.drop_last(), id);
        match events.last() {
            Event::Received(MessageView::AddGame(game), _) if game.id == id && before is None =>
                Some(game),
            Event::Received(MessageView::RemoveGame(struck), _) if struck == id => None,
            _ => before,
        }
    }
}

/// The open seeks and the listed games are those that the server announced and
/// did not take back, each as it was first announced.
pub proof fn announced_is_kept<T>(events: Seq<Event<T>>, id: u32)
    ensures
        ({
            let state = after_all(SessionView::<T>::initial(), events);
            &&& open_in(events, id) == if state.seeks.contains_key(id) {
                Some(state.seeks[id])
            } else {
                None
            }
            &&& listed_in(events, id) == if state.games.contains_key(id) {
                Some(state.games[id])
            } else {
                None
            }
        }),
    decreases events.len(),
{
    if events.len() > 0 {
        announced_is_kept(events.drop_last(), id);
    }
}

/// The starts of games among what messages did, first to last: the number of
/// each game and its clocks.
pub open spec fn starts_among(outcomes: Seq<OutcomeView>) -> Seq<(u32, ActiveGameData)>
    decreases outcomes.len(),
{
    if outcomes.len() == 0 {
        Seq::empty()
    } else {
        match outcomes.last() {
            OutcomeView::Started(id, data) => starts_among(outcomes.drop_last()).push((id, data)),
            _ => starts_among(outcomes.drop_last()),
        }
    }
}

/// The games that the messages of a series on a new connection start, first to
/// last: the number that each message names, and what is listed under it when
/// the message comes.
pub open spec fn started_in<T>(events: Seq<Event<T>>) -> Seq<(u32, Option<client::GameView>)>
    decreases events.len(),
{
    if events.len() == 0 {
        Seq::empty()
    } else {
        let before = started_in(events.drop_last());
        match events.last() {
            Event::Received(MessageView::StartGame(id), _) => before.push(
                (id, listed_in(events.drop_last(), id)),
            ),
            _ => before,
        }
    }
}

/// What the taker with the number `k`, counted from zero, gets from a channel
/// through which `items` go before it is closed.
pub open spec fn taken<U>(items: Seq<U>, k: nat) -> Option<U> {
    if k < items.len() {
        Some(items[k as int])
    } else {
        None
    }
}

proof fn lemma_starts<T>(events: Seq<Event<T>>)
    requires
        all_accepted(SessionView::<T>::initial(), events),
    ensures
        ({
            let starts = starts_among(outcomes_in(SessionView::<T>::initial(), events));
            let started = started_in(events);
            &&& starts.len() == started.len()
            &&& forall|k: int|
                0 <= k < started.len() ==> {
                    &&& #[trigger] started[k].1 matches Some(game)
                    &&& game.id == started[k].0
                    &&& starts[k] == (game.id, starting_clocks(game))
                }
        }),
    decreases events.len(),
{
    if events.len() > 0 {
        let initial = SessionView::<T>::initial();
        let earlier = events.drop_last();
        lemma_starts(earlier);
        always_filed(earlier);
        let state = after_all(initial, earlier);
        let outcomes = outcomes_in(initial, events);
        let starts = starts_among(outcomes_in(initial, earlier));
        if let Event::Received(message, now) = events.last() {
            assert(outcomes.drop_last() =~= outcomes_in(initial, earlier));
            assert(outcomes.last() == state.outcome(message, now));
            if let MessageView::StartGame(id) = message {
                announced_is_kept(earlier, id);
                assert(starts_among(outcomes) == starts.push(
                    (id, starting_clocks(state.games[id])),
                ));
            } else {
                assert(starts_among(outcomes) == starts);
            }
        }
    }
}

/// On a new connection, the games that start are handed out in the order in
/// which they start, each once and none besides, with both clocks at the
/// initial time of the game as it was announced. Who takes more than started
/// finds the connection closed, once it is.
pub proof fn games_are_handed_out_in_order<T>(events: Seq<Event<T>>)
    requires
        all_accepted(SessionView::<T>::initial(), events),
    ensures
        ({
            let starts = starts_among(outcomes_in(SessionView::<T>::initial(), events));
            let started = started_in(events);
            &&& starts.len() == started.len()
            &&& forall|k: nat|
                k < started.len() ==> {
                    let (id, listed) = started[k as int];
                    listed matches Some(game) && game.id == id && #[trigger] item_or_closed(
                        taken(starts, k),
                    ) == Ok::<(u32, ActiveGameData), ConnectionClosed>(
                        (
                            id,
                            ActiveGameData {
                                white_remaining: game.params.initial_time,
                                black_remaining: game.params.initial_time,
                                last_sync: None,
                            },
                        ),
                    )
                }
            &&& forall|k: nat|
                k >= started.len() ==> #[trigger] item_or_closed(taken(starts, k)) == Err::<
                    (u32, ActiveGameData),
                    ConnectionClosed,
                >(ConnectionClosed)
        }),
{
    lemma_starts(events);
    let starts = starts_among(outcomes_in(SessionView::<T>::initial(), events));
    assert forall|k: nat| k < starts.len() implies #[trigger] item_or_closed(taken(starts, k))
        == Ok::<(u32, ActiveGameData), ConnectionClosed>(starts[k as int]) by {}
}

/// Whether an event starts, ends or sets the clocks of the game with a number.
pub open spec fn turns_clocks<T>(event: Event<T>, id: u32) -> bool {
    match event {
        Event::Received(MessageView::StartGame(started), _) => started == id,
        Event::Received(MessageView::SyncClocks(set, _, _), _) => set == id,
        Event::Received(MessageView::GameOver(ended, _), _) => ended == id,
        _ => false,
    }
}

/// A game goes on, with its clocks as they are, for as long as nothing starts
/// it, ends it or sets its clocks; and nothing is said of its clocks meanwhile.
pub proof fn clocks_stay_until_set<T>(state: SessionView<T>, id: u32, events: Seq<Event<T>>)
    requires
        state.active_games.contains_key(id),
        forall|i: int| 0 <= i < events.len() ==> !turns_clocks(#[trigger] events[i], id),
    ensures
        after_all(state, events).active_games.contains_key(id),
        after_all(state, events).active_games[id] == state.active_games[id],
        forall|i: int|
            0 <= i < outcomes_in(state, events).len() ==> !(#[trigger] outcomes_in(
                state,
                events,
            )[i] matches OutcomeView::Synced(set, _) && set == id),
    decreases events.len(),
{
    if events.len() > 0 {
        let earlier = events.drop_last();
        assert forall|i: int| 0 <= i < earlier.len() implies !turns_clocks(
            #[trigger] earlier[i],
            id,
        ) by {
            assert(earlier[i] == events[i]);
        }
        clocks_stay_until_set(state, id, earlier);
        assert(!turns_clocks(events[events.len() - 1], id));
        let before = after_all(state, earlier);
        if let Event::Received(message, now) = events.last() {
            game_goes_on(before, id, message, now);
            assert(outcomes_in(state, events) =~= outcomes_in(state, earlier).push(
                before.outcome(message, now),
            ));
        }
    }
}

/// From the start of a game on, both its clocks show the initial time of the
/// game as it was announced, for as long as nothing starts it anew, ends it or
/// sets its clocks.
pub proof fn clocks_show_the_initial_time<T>(
    before: Seq<Event<T>>,
    id: u32,
    now: Instant,
    after: Seq<Event<T>>,
)
    requires
        all_accepted(
            SessionView::<T>::initial(),
            before.push(Event::Received(MessageView::StartGame(id), now)),
        ),
        forall|i: int| 0 <= i < after.len() ==> !turns_clocks(#[trigger] after[i], id),
    ensures
        ({
            let start = Event::<T>::Received(MessageView::StartGame(id), now);
            let state = after_all(SessionView::<T>::initial(), before.push(start) + after);
            &&& listed_in(before, id) matches Some(game)
            &&& state.active_games.contains_key(id)
            &&& state.active_games[id].white_remaining == game.params.initial_time
            &&& state.active_games[id].black_remaining == game.params.initial_time
            &&& state.active_games[id].last_sync is None
        }),
{
    let initial = SessionView::<T>::initial();
    let start = Event::<T>::Received(MessageView::StartGame(id), now);
    assert(before.push(start).drop_last() =~= before);
    assert(before.push(start).last() == start);
    announced_is_kept(before, id);
    clocks_stay_until_set(after_all(initial, before.push(start)), id, after);
    lemma_after_both(initial, before.push(start), after);
}

/// What happens in the game with a number, among what messages did, first to
/// last.
pub open spec fn updates_among(outcomes: Seq<OutcomeView>, id: u32) -> Seq<client::GameUpdateView>
    decreases outcomes.len(),
{
    if outcomes.len() == 0 {
        Seq::empty()
    } else {
        match outcomes.last() {
            OutcomeView::Updated(updated, update) if updated == id => updates_among(
                outcomes.drop_last(),
                id,
            ).push(update),
            _ => updates_among(outcomes.drop_last(), id),
        }
    }
}

/// The moves and the ends of the game with a number in the messages of a
/// series, first to last.
pub open spec fn told_in<T>(events: Seq<Event<T>>, id: u32) -> Seq<client::GameUpdateView>
    decreases events.len(),
{
    if events.len() == 0 {
        Seq::empty()
    } else {
        let before = told_in(events.drop_last(), id);
        match events.last() {
            Event::Received(MessageView::Play(played, m), _) if played == id => before.push(
                client::GameUpdateView::Played(m),
            ),
            Event::Received(MessageView::GameOver(ended, result), _) if ended == id => before.push(
                client::GameUpdateView::Ended(result),
            ),
            _ => before,
        }
    }
}

/// Whether the last of the updates is the end of the game.
pub open spec fn ended(updates: Seq<client::GameUpdateView>) -> bool {
    updates.len() > 0 && updates.last() is Ended
}

/// A game that was started is told its moves in order and then its end, each
/// once and nothing of another game, until it is started anew. It is over if
/// and only if the end was told, and nothing is told after the end.
pub proof fn game_is_told_in_order<T>(state: SessionView<T>, id: u32, events: Seq<Event<T>>)
    requires
        state.active_games.contains_key(id),
        all_accepted(state, events),
        forall|i: int|
            0 <= i < events.len() ==> !(#[trigger] events[i] matches Event::Received(
                MessageView::StartGame(started),
                _,
            ) && started == id),
    ensures
        updates_among(outcomes_in(state, events), id) == told_in(events, id),
        forall|k: int|
            0 <= k < told_in(events, id).len() - 1 ==> #[trigger] told_in(events, id)[k] is Played,
        after_all(state, events).active_games.contains_key(id) <==> !ended(told_in(events, id)),
    decreases events.len(),
{
    if events.len() > 0 {
        let earlier = events.drop_last();
        assert forall|i: int| 0 <= i < earlier.len() implies !(
        #[trigger] earlier[i] matches Event::Received(MessageView::StartGame(started), _)
            && started == id) by {
            assert(earlier[i] == events[i]);
        }
        game_is_told_in_order(state, id, earlier);
        let last = events[events.len() - 1];
        let before = after_all(state, earlier);
        if let Event::Received(message, now) = last {
            assert(outcomes_in(state, events).drop_last() =~= outcomes_in(state, earlier));
            assert(outcomes_in(state, events).last() == before.outcome(message, now));
        }
    }
}

/// Once a game that was started has ended, the calls for its updates have given
/// its moves in order and then its end, and every later one finds the
/// connection closed.
pub proof fn calls_give_moves_and_end<T>(
    state: SessionView<T>,
    id: u32,
    events: Seq<Event<T>>,
    k: nat,
)
    requires
        state.active_games.contains_key(id),
        all_accepted(state, events),
        forall|i: int|
            0 <= i < events.len() ==> !(#[trigger] events[i] matches Event::Received(
                MessageView::StartGame(started),
                _,
            ) && started == id),
        ended(told_in(events, id)),
    ensures
        ({
            let told = told_in(events, id);
            let given = item_or_closed(taken(updates_among(outcomes_in(state, events), id), k));
            if k < told.len() - 1 {
                &&& told[k as int] is Played
                &&& given == Ok::<client::GameUpdateView, ConnectionClosed>(told[k as int])
            } else if k == told.len() - 1 {
                &&& told[k as int] is Ended
                &&& given == Ok::<client::GameUpdateView, ConnectionClosed>(told[k as int])
            } else {
                given == Err::<client::GameUpdateView, ConnectionClosed>(ConnectionClosed)
            }
        }),
{
    game_is_told_in_order(state, id, events);
}

} // verus!
