//! What is asked of the server, and how moves are written and read: what holds
//! of the calls that write requests and read moves.

use vstd::prelude::*;

use crate::client;
use crate::communication;
use crate::data_types;
use crate::errors::ParseError;
use crate::laws::{all_words, lemma_words_front, one_word};
use crate::lines::{
    is_surplus, lemma_command, lemma_game_kinds, lemma_numbered_game, separates, stands_for_u32,
};
use crate::moves::{
    drops_error, drops_of, drops_words, is_drop, pattern_value, square_text, square_value, total,
    Direction, Move, MoveKind, Pattern, PatternError, Piece, Square, SquareError,
};
use crate::numbers::{decimal, signed_decimal};
use crate::text::{after_command, command, joined, lower, spaced, words};

verus! {

/// The line with which the client introduces itself, asks for a version of the
/// protocol, or asks for a sign of life: the command, and the name or the
/// number as it is.
pub proof fn plain_requests_are_written(
    theirs: client::Request,
    ours: communication::Request,
    their_line: String,
    our_line: String,
)
    requires
        call_ensures(client::Request::to_string, (&theirs,), their_line),
        call_ensures(communication::Request::to_string, (&ours,), our_line),
    ensures
        theirs matches client::Request::Client(name) ==> their_line@ == "Client "@ + name@,
        ours matches communication::Request::Client(name) ==> our_line@ == "Client "@ + name@,
        theirs matches client::Request::Protocol(version) ==> their_line@ == "Protocol "@ + decimal(
            version as nat,
        ),
        ours matches communication::Request::Protocol(version) ==> our_line@ == "Protocol "@
            + decimal(version as nat),
        theirs is Ping ==> their_line@ == "PING"@,
        ours is Ping ==> our_line@ == "PING"@,
{
}

/// The line of a login is the command, the user name and the password, each
/// character for character, with a space between each two. The words behind the
/// command are a name of one word and those of the password.
pub proof fn logins_are_written(
    name: String,
    secret: String,
    their_line: String,
    our_line: String,
)
    requires
        call_ensures(
            client::Request::to_string,
            (&client::Request::Login(name, secret),),
            their_line,
        ),
        call_ensures(
            communication::Request::to_string,
            (&communication::Request::Login(name, secret),),
            our_line,
        ),
    ensures
        their_line@ == "Login"@ + seq![' '] + name@ + seq![' '] + secret@,
        our_line@ == their_line@,
        command(their_line@) == "Login"@,
        one_word(name@) ==> words(after_command(their_line@)) == seq![name@] + words(secret@),
{
    reveal_strlit("Login ");
    reveal_strlit("Login");
    reveal_strlit(" ");
    let rest = name@.push(' ') + secret@;
    assert(their_line@ =~= "Login"@ + seq![' '] + name@ + seq![' '] + secret@);
    assert(our_line@ =~= their_line@);
    assert(their_line@ =~= "Login"@.push(' ') + rest);
    lemma_command("Login"@, ' ', rest);
    if one_word(name@) {
        lemma_words_front(name@, secret@);
    }
}

/// Two logins with names of one word give the same line only if they have the
/// same name and the same password.
pub proof fn logins_differ(
    names: (String, String),
    secrets: (String, String),
    lines: (String, String),
)
    requires
        call_ensures(
            client::Request::to_string,
            (&client::Request::Login(names.0, secrets.0),),
            lines.0,
        ),
        call_ensures(
            client::Request::to_string,
            (&client::Request::Login(names.1, secrets.1),),
            lines.1,
        ),
        one_word(names.0@),
        one_word(names.1@),
        lines.0@ == lines.1@,
    ensures
        names.0@ == names.1@,
        secrets.0@ == secrets.1@,
{
    reveal_strlit("Login ");
    reveal_strlit(" ");
    let a = names.0@.push(' ') + secrets.0@;
    let b = names.1@.push(' ') + secrets.1@;
    assert(lines.0@ =~= "Login "@ + a);
    assert(lines.1@ =~= "Login "@ + b);
    assert(lines.0@.skip(6) =~= a);
    assert(lines.1@.skip(6) =~= b);
    assert(a == b);
    lemma_words_front(names.0@, secrets.0@);
    lemma_words_front(names.1@, secrets.1@);
    assert(words(a)[0] == names.0@);
    assert(words(b)[0] == names.1@);
    assert(a.skip(names.0@.len() as int + 1) =~= secrets.0@);
    assert(b.skip(names.1@.len() as int + 1) =~= secrets.1@);
}

/// The digit for yes or no.
pub open spec fn yes_or_no(yes: bool) -> Seq<char> {
    if yes {
        seq!['1']
    } else {
        seq!['0']
    }
}

/// The line that asks for a seek: the size, the times in whole seconds, the
/// color as a letter, the komi and the counts, whether the game is unrated and
/// whether it is one of a tournament, and the opponent if there is one.
#[verifier::rlimit(60)]
pub proof fn seeks_are_written(
    theirs: client::SeekParameters,
    ours: data_types::SeekParameters,
    their_line: String,
    our_line: String,
)
    requires
        call_ensures(client::Request::to_string, (&client::Request::Seek(theirs),), their_line),
        call_ensures(
            communication::Request::to_string,
            (&communication::Request::Seek(ours),),
            our_line,
        ),
    ensures
        their_line@ == "Seek"@ + spaced(
            seq![
                decimal(theirs.params.size as nat),
                decimal(theirs.params.initial_time.secs as nat),
                decimal(theirs.params.increment.secs as nat),
                match theirs.color {
                    client::Color::Any => seq!['A'],
                    client::Color::White => seq!['W'],
                    client::Color::Black => seq!['B'],
                },
                signed_decimal(theirs.params.half_komi as int),
                decimal(theirs.params.flat_count as nat),
                decimal(theirs.params.cap_count as nat),
                yes_or_no(theirs.params.unrated),
                yes_or_no(theirs.params.tournament),
                match theirs.opponent {
                    Some(name) => name@,
                    None => Seq::empty(),
                },
            ],
        ),
        our_line@ == "Seek"@ + spaced(
            seq![
                decimal(ours.params.size as nat),
                decimal(ours.params.initial_time.secs as nat),
                decimal(ours.params.increment.secs as nat),
                match ours.color {
                    None => seq!['A'],
                    Some(data_types::Color::White) => seq!['W'],
                    Some(data_types::Color::Black) => seq!['B'],
                },
                signed_decimal(ours.params.half_komi as int),
                decimal(ours.params.flat_count as nat),
                decimal(ours.params.cap_count as nat),
                yes_or_no(!ours.params.rated),
                yes_or_no(ours.params.tournament),
                match ours.opponent {
                    Some(name) => name@,
                    None => Seq::empty(),
                },
            ],
        ),
{
    reveal_strlit("A");
    reveal_strlit("W");
    reveal_strlit("B");
    reveal_strlit("0");
    reveal_strlit("1");
    assert("A"@ =~= seq!['A']);
    assert("W"@ =~= seq!['W']);
    assert("B"@ =~= seq!['B']);
    assert("0"@ =~= seq!['0']);
    assert("1"@ =~= seq!['1']);
    let t = seq![
        decimal(theirs.params.size as nat),
        decimal(theirs.params.initial_time.secs as nat),
        decimal(theirs.params.increment.secs as nat),
        match theirs.color {
            client::Color::Any => seq!['A'],
            client::Color::White => seq!['W'],
            client::Color::Black => seq!['B'],
        },
        signed_decimal(theirs.params.half_komi as int),
        decimal(theirs.params.flat_count as nat),
        decimal(theirs.params.cap_count as nat),
        yes_or_no(theirs.params.unrated),
        yes_or_no(theirs.params.tournament),
        match theirs.opponent {
            Some(name) => name@,
            None => Seq::empty(),
        },
    ];
    let o = seq![
        decimal(ours.params.size as nat),
        decimal(ours.params.initial_time.secs as nat),
        decimal(ours.params.increment.secs as nat),
        match ours.color {
            None => seq!['A'],
            Some(data_types::Color::White) => seq!['W'],
            Some(data_types::Color::Black) => seq!['B'],
        },
        signed_decimal(ours.params.half_komi as int),
        decimal(ours.params.flat_count as nat),
        decimal(ours.params.cap_count as nat),
        yes_or_no(!ours.params.rated),
        yes_or_no(ours.params.tournament),
        match ours.opponent {
            Some(name) => name@,
            None => Seq::empty(),
        },
    ];
    assert(crate::wire::seek_terms(
        theirs@.color.spec_choice(),
        theirs@.params.spec_terms(),
        theirs@.opponent,
    ) =~= t);
    assert(crate::wire::seek_terms(ours@.color, ours@.params.spec_terms(), ours@.opponent) =~= o);
}

/// A square as it is written: the letter of its column and the digit of its row.
pub open spec fn square_name(column: int, row: int) -> Seq<char> {
    seq![
        seq!['A', 'B', 'C', 'D', 'E', 'F', 'G', 'H'][column],
        seq!['1', '2', '3', '4', '5', '6', '7', '8'][row],
    ]
}

/// How many pieces are dropped in all.
pub open spec fn sum(counts: Seq<u32>) -> int
    decreases counts.len(),
{
    if counts.len() == 0 {
        0
    } else {
        counts[0] + sum(counts.skip(1))
    }
}

pub(crate) proof fn lemma_sum_is_total(counts: Seq<u32>)
    ensures
        sum(counts) == total(counts),
    decreases counts.len(),
{
    if counts.len() > 0 {
        lemma_sum_last(counts);
        lemma_sum_is_total(counts.drop_last());
    }
}

proof fn lemma_sum_last(counts: Seq<u32>)
    requires
        counts.len() > 0,
    ensures
        sum(counts) == sum(counts.drop_last()) + counts.last(),
    decreases counts.len(),
{
    if counts.len() > 1 {
        lemma_sum_last(counts.skip(1));
        assert(counts.skip(1).drop_last() =~= counts.drop_last().skip(1));
        assert(counts.skip(1).last() == counts.last());
        assert(counts.drop_last()[0] == counts[0]);
    } else {
        assert(counts.skip(1) =~= Seq::<u32>::empty());
        assert(counts.drop_last() =~= Seq::<u32>::empty());
        assert(sum(counts.skip(1)) == 0);
        assert(sum(counts.drop_last()) == 0);
    }
}

/// Whether counts can be those of a spread: one to seven of them, at least one
/// piece each, and eight in all at most.
pub open spec fn can_be_dropped(counts: Seq<u32>) -> bool {
    &&& 1 <= counts.len() <= 7
    &&& forall|i: int| 0 <= i < counts.len() ==> 1 <= #[trigger] counts[i]
    &&& sum(counts) <= 8
}

/// Which moves can be sent: those on the largest board with counts that can be
/// dropped, and which end on that board, as many squares further as there are
/// counts. Every other request can be sent.
pub proof fn which_requests_can_be_sent(
    theirs: client::Request,
    ours: communication::Request,
    their_answer: bool,
    our_answer: bool,
)
    requires
        call_ensures(client::Request::is_sendable, (&theirs,), their_answer),
        call_ensures(communication::Request::is_sendable, (&ours,), our_answer),
    ensures
        theirs matches client::Request::Play(_, m) ==> (their_answer <==> stays_on_board(m)),
        ours matches communication::Request::Play(_, m) ==> (our_answer <==> stays_on_board(m)),
        !(theirs is Play) ==> their_answer,
        !(ours is Play) ==> our_answer,
{
    if let client::Request::Play(_, m) = theirs {
        lemma_playable(m);
    }
    if let communication::Request::Play(_, m) = ours {
        lemma_playable(m);
    }
}

/// Whether a move is one on the largest board and ends there.
pub open spec fn stays_on_board(m: Move) -> bool {
    &&& m.square.column < 8
    &&& m.square.row < 8
    &&& m.kind matches MoveKind::Spread(direction, pattern) ==> {
        let steps = pattern.drops@.len();
        &&& can_be_dropped(pattern.drops@)
        &&& match direction {
            Direction::Up => m.square.row + steps < 8,
            Direction::Down => m.square.row - steps >= 0,
            Direction::Right => m.square.column + steps < 8,
            Direction::Left => m.square.column - steps >= 0,
        }
    }
}

#[verifier::spinoff_prover]
pub(crate) proof fn lemma_playable(m: Move)
    ensures
        m@.playable() <==> stays_on_board(m),
{
    if let MoveKind::Spread(direction, pattern) = m.kind {
        lemma_sum_is_total(pattern.drops@);
        lemma_end_of_spread(m.square, direction, pattern.drops@.len() as int);
    }
}

/// The words behind the number of a game with which a move in it is played: the
/// square and the piece, or the square, the square where the stack ends and how
/// many pieces it drops on each square on the way.
pub open spec fn words_of_move(m: Move) -> Seq<Seq<char>> {
    let column = m.square.column as int;
    let row = m.square.row as int;
    match m.kind {
        MoveKind::Place(Piece::Flat) => seq![seq!['P'], square_name(column, row)],
        MoveKind::Place(Piece::Wall) => seq![seq!['P'], square_name(column, row), seq!['W']],
        MoveKind::Place(Piece::Cap) => seq![seq!['P'], square_name(column, row), seq!['C']],
        MoveKind::Spread(direction, pattern) => {
            let steps = pattern.drops@.len();
            seq![
                seq!['M'],
                square_name(column, row),
                match direction {
                    Direction::Up => square_name(column, row + steps),
                    Direction::Down => square_name(column, row - steps),
                    Direction::Right => square_name(column + steps, row),
                    Direction::Left => square_name(column - steps, row),
                },
            ] + pattern.drops@.map_values(|count: u32| decimal(count as nat))
        },
    }
}

proof fn lemma_square_name(square: Square)
    requires
        square.column < 8,
        square.row < 8,
    ensures
        square_text(square) == square_name(square.column as int, square.row as int),
{
    assert(square_text(square) =~= square_name(square.column as int, square.row as int));
}

/// Where a stack ends that moves some squares in a direction.
pub open spec fn end_of_spread(square: Square, direction: Direction, steps: int) -> (int, int) {
    match direction {
        Direction::Up => (square.column as int, square.row + steps),
        Direction::Down => (square.column as int, square.row - steps),
        Direction::Right => (square.column + steps, square.row as int),
        Direction::Left => (square.column - steps, square.row as int),
    }
}

proof fn lemma_end_of_spread(square: Square, direction: Direction, steps: int)
    ensures
        square.moved(direction, steps) == end_of_spread(square, direction, steps),
{
    let column_step = direction.column_step();
    let row_step = direction.row_step();
    match direction {
        Direction::Up => {
            assert(column_step * steps == 0 && row_step * steps == steps) by (nonlinear_arith)
                requires
                    column_step == 0,
                    row_step == 1,
            ;
        },
        Direction::Down => {
            assert(column_step * steps == 0 && row_step * steps == -steps) by (nonlinear_arith)
                requires
                    column_step == 0,
                    row_step == -1,
            ;
        },
        Direction::Right => {
            assert(column_step * steps == steps && row_step * steps == 0) by (nonlinear_arith)
                requires
                    column_step == 1,
                    row_step == 0,
            ;
        },
        Direction::Left => {
            assert(column_step * steps == -steps && row_step * steps == 0) by (nonlinear_arith)
                requires
                    column_step == -1,
                    row_step == 0,
            ;
        },
    }
}

#[verifier::spinoff_prover]
proof fn lemma_words_of_move(m: Move)
    requires
        stays_on_board(m),
    ensures
        m@.words() == words_of_move(m),
{
    reveal_strlit("P");
    reveal_strlit("M");
    reveal_strlit("W");
    reveal_strlit("C");
    assert("P"@ =~= seq!['P']);
    assert("M"@ =~= seq!['M']);
    assert("W"@ =~= seq!['W']);
    assert("C"@ =~= seq!['C']);
    lemma_square_name(m.square);
    match m.kind {
        MoveKind::Place(piece) => {
            assert(m@.words() =~= words_of_move(m));
        },
        MoveKind::Spread(direction, pattern) => {
            let steps = pattern.drops@.len() as int;
            lemma_end_of_spread(m.square, direction, steps);
            let (column, row) = end_of_spread(m.square, direction, steps);
            assert(0 <= column < 8 && 0 <= row < 8);
            let target = m.square.shifted(direction, steps);
            assert(target.column == column && target.row == row);
            lemma_square_name(target);
            assert(drops_words(pattern.drops@) =~= pattern.drops@.map_values(
                |count: u32| decimal(count as nat),
            ));
            assert(m@.words() =~= words_of_move(m));
        },
    }
}

/// The line with which a move is played names the game by its number and the
/// move by its words.
pub proof fn moves_are_written(id: u32, m: Move, their_line: String, our_line: String)
    requires
        call_ensures(client::Request::to_string, (&client::Request::Play(id, m),), their_line),
        call_ensures(
            communication::Request::to_string,
            (&communication::Request::Play(id, m),),
            our_line,
        ),
        stays_on_board(m),
    ensures
        their_line@ == "Game#"@ + decimal(id as nat) + spaced(words_of_move(m)),
        our_line@ == their_line@,
{
    lemma_words_of_move(m);
}

/// Whether a word names a square, by a letter of either case and a digit.
pub open spec fn names_square(s: Seq<char>, square: Square) -> bool {
    &&& s.len() == 2
    &&& square.column < 8
    &&& square.row < 8
    &&& s[0] as int == 65 + square.column || s[0] as int == 97 + square.column
    &&& s[1] as int == 49 + square.row
}

/// What is wrong with a word that names no square, if it names none.
pub open spec fn square_trouble(s: Seq<char>) -> Option<SquareError> {
    if s.len() != 2 {
        Some(SquareError::Malformed)
    } else if !('A' <= s[0] && s[0] <= 'H' || 'a' <= s[0] && s[0] <= 'h') {
        Some(SquareError::BadColumn)
    } else if !('1' <= s[1] && s[1] <= '8') {
        Some(SquareError::BadRow)
    } else {
        None
    }
}

#[verifier::spinoff_prover]
proof fn lemma_square(s: Seq<char>)
    ensures
        match square_trouble(s) {
            Some(e) => square_value(lower(s)) == Err::<Square, SquareError>(e),
            None => square_value(lower(s)) matches Ok(square) && names_square(s, square),
        },
        forall|square: Square| #[trigger]
            names_square(s, square) ==> square_trouble(s) is None && square_value(lower(s)) == Ok::<
                Square,
                SquareError,
            >(square),
{
    assert(lower(s).len() == s.len());
}

/// A placement is read as it is written: in the game with the number that is
/// sent, on the square that is named, of a flat stone if no piece is named, and
/// of a wall or a capstone otherwise. Another word for the piece is refused, and
/// so is a word that names no square.
#[verifier::rlimit(60)]
pub proof fn placements_are_read(
    line: &str,
    end: char,
    number: Seq<char>,
    id: u32,
    place: Seq<char>,
    piece: Seq<char>,
    more: Seq<char>,
    theirs: Result<client::Message, ParseError>,
    ours: Result<communication::Message, ParseError>,
)
    requires
        call_ensures(client::Message::from_str, (line,), theirs),
        call_ensures(communication::Message::from_str, (line,), ours),
        separates(end),
        is_surplus(more),
        one_word(place),
        one_word(piece),
        stands_for_u32(number, id),
    ensures
        line@ == "Game"@ + seq![end] + number + spaced(seq!["P"@, place])
            ==> match square_trouble(place) {
            Some(e) => theirs == Err::<client::Message, ParseError>(ParseError::Square(e)) && ours
                == Err::<communication::Message, ParseError>(ParseError::Square(e)),
            None => {
                &&& theirs matches Ok(client::Message::Play(n, m)) && n == id && names_square(
                    place,
                    m.square,
                ) && m.kind == MoveKind::Place(Piece::Flat)
                &&& ours matches Ok(communication::Message::Play(n, m)) && n == id && names_square(
                    place,
                    m.square,
                ) && m.kind == MoveKind::Place(Piece::Flat)
            },
        },
        line@ == "Game"@ + seq![end] + number + spaced(seq!["P"@, place, piece]) + more
            ==> match square_trouble(place) {
            Some(e) => theirs == Err::<client::Message, ParseError>(ParseError::Square(e)) && ours
                == Err::<communication::Message, ParseError>(ParseError::Square(e)),
            None => if piece == seq!['W'] || piece == seq!['C'] {
                let placed = if piece == seq!['W'] {
                    Piece::Wall
                } else {
                    Piece::Cap
                };
                &&& theirs matches Ok(client::Message::Play(n, m)) && n == id && names_square(
                    place,
                    m.square,
                ) && m.kind == MoveKind::Place(placed)
                &&& ours matches Ok(communication::Message::Play(n, m)) && n == id && names_square(
                    place,
                    m.square,
                ) && m.kind == MoveKind::Place(placed)
            } else {
                &&& theirs == Err::<client::Message, ParseError>(ParseError::UnexpectedPiece)
                &&& ours == Err::<communication::Message, ParseError>(ParseError::UnexpectedPiece)
            },
        },
{
    lemma_game_kinds();
    lemma_square(place);
    reveal_strlit("W");
    reveal_strlit("C");
    assert("W"@ =~= seq!['W']);
    assert("C"@ =~= seq!['C']);
    assert(seq!['W'][0] != seq!['C'][0]);
    let none = Seq::<char>::empty();
    let short = "Game"@ + seq![end] + number + spaced(seq!["P"@, place]);
    if line@ == short {
        assert(short + none =~= short);
        lemma_numbered_game(line@, end, number, id, seq!["P"@, place], none);
        let w = words(after_command(line@));
        assert(w[1] == "P"@ && w[2] == place && w.len() == 3);
    }
    if line@ == "Game"@ + seq![end] + number + spaced(seq!["P"@, place, piece])
        + more {
        lemma_numbered_game(line@, end, number, id, seq!["P"@, place, piece], more);
        let w = words(after_command(line@));
        assert(w[1] == "P"@ && w[2] == place && w[3] == piece);
    }
}

/// A move of which a square is missing is refused.
pub proof fn moves_need_their_squares(
    line: &str,
    end: char,
    number: Seq<char>,
    id: u32,
    from: Seq<char>,
    theirs: Result<client::Message, ParseError>,
    ours: Result<communication::Message, ParseError>,
)
    requires
        call_ensures(client::Message::from_str, (line,), theirs),
        call_ensures(communication::Message::from_str, (line,), ours),
        separates(end),
        stands_for_u32(number, id),
        one_word(from),
    ensures
        line@ == "Game"@ + seq![end] + number + spaced(seq!["P"@]) || line@ == "Game"@ + seq![end]
            + number + spaced(seq!["M"@]) || line@ == "Game"@ + seq![end] + number + spaced(
            seq!["M"@, from],
        ) && square_trouble(from) is None ==> theirs == Err::<client::Message, ParseError>(
            ParseError::UnexpectedEnd,
        ) && ours == Err::<communication::Message, ParseError>(ParseError::UnexpectedEnd),
{
    lemma_game_kinds();
    lemma_square(from);
    let none = Seq::<char>::empty();
    let head = "Game"@ + seq![end] + number;
    assert(line@ + none =~= line@);
    if line@ == head + spaced(seq!["P"@]) {
        lemma_numbered_game(line@, end, number, id, seq!["P"@], none);
        assert(words(after_command(line@)).len() == 2 && words(after_command(line@))[1] == "P"@);
    }
    if line@ == head + spaced(seq!["M"@]) {
        lemma_numbered_game(line@, end, number, id, seq!["M"@], none);
        assert(words(after_command(line@)).len() == 2 && words(after_command(line@))[1] == "M"@);
    }
    if line@ == head + spaced(seq!["M"@, from]) {
        lemma_numbered_game(line@, end, number, id, seq!["M"@, from], none);
        let w = words(after_command(line@));
        assert(w.len() == 3 && w[1] == "M"@ && w[2] == from);
    }
}

/// Whether text is the digits of counts, one after the other.
pub open spec fn writes_counts(s: Seq<char>, counts: Seq<u32>) -> bool {
    &&& s.len() == counts.len()
    &&& forall|i: int| 0 <= i < s.len() ==> #[trigger] s[i] as int == 48 + counts[i]
}

proof fn lemma_total_prefix(drops: Seq<u32>, n: int)
    requires
        0 <= n <= drops.len(),
    ensures
        0 <= total(drops.take(n)) <= total(drops),
    decreases drops.len(),
{
    if n == drops.len() {
        assert(drops.take(n) =~= drops);
        if n > 0 {
            lemma_total_prefix(drops.drop_last(), n - 1);
            assert(drops.drop_last().take(n - 1) =~= drops.drop_last());
        }
    } else {
        lemma_total_prefix(drops.drop_last(), n);
        assert(drops.drop_last().take(n) =~= drops.take(n));
    }
}

proof fn lemma_drops_fine(s: Seq<char>)
    ensures
        drops_error(s) is None <==> total(drops_of(s)) <= 8 && forall|i: int|
            0 <= i < s.len() ==> is_drop(#[trigger] s[i]),
    decreases s.len(),
{
    if s.len() > 0 {
        let head = s.drop_last();
        lemma_drops_fine(head);
        assert(drops_of(s).drop_last() =~= drops_of(head));
        assert(drops_of(head) =~= drops_of(s).take(s.len() - 1));
        lemma_total_prefix(drops_of(s), s.len() - 1);
        if drops_error(s) is None {
            assert forall|i: int| 0 <= i < s.len() implies is_drop(#[trigger] s[i]) by {
                if i < s.len() - 1 {
                    assert(is_drop(head[i]));
                }
            }
        }
        if total(drops_of(s)) <= 8 && forall|i: int|
            0 <= i < s.len() ==> is_drop(#[trigger] s[i]) {
            assert forall|i: int| 0 <= i < head.len() implies is_drop(#[trigger] head[i]) by {
                assert(is_drop(s[i]));
            }
            assert(is_drop(s[s.len() - 1]));
        }
    }
}

proof fn lemma_counts(s: Seq<char>, counts: Seq<u32>)
    ensures
        pattern_value(s) matches Ok(drops) ==> can_be_dropped(drops) && writes_counts(s, drops),
        writes_counts(s, counts) && can_be_dropped(counts) ==> pattern_value(s) == Ok::<
            Seq<u32>,
            PatternError,
        >(counts),
{
    if pattern_value(s) is Ok {
        crate::moves::pattern_value_is_valid(s);
        lemma_drops_fine(s);
        lemma_sum_is_total(drops_of(s));
        assert forall|i: int| 0 <= i < s.len() implies #[trigger] s[i] as int == 48
            + drops_of(s)[i] by {
            assert(is_drop(s[i]));
        }
    }
    if writes_counts(s, counts) && can_be_dropped(counts) {
        lemma_sum_is_total(counts);
        assert forall|i: int| 0 <= i < s.len() implies is_drop(#[trigger] s[i]) by {
            crate::moves::lemma_total_at_least(counts, i);
            assert(1 <= counts[i] <= 8);
            assert(s[i] as int == 48 + counts[i]);
        }
        assert forall|i: int| 0 <= i < s.len() implies #[trigger] drops_of(s)[i] == counts[i] by {
            assert(s[i] as int == 48 + counts[i]);
        }
        assert(drops_of(s) =~= counts);
        lemma_drops_fine(s);
    }
}

proof fn lemma_joined_tail(parts: Seq<Seq<char>>, tail: Seq<Seq<char>>, from: int)
    requires
        0 <= from,
        parts.len() == from + tail.len(),
        forall|i: int| from <= i < parts.len() ==> #[trigger] parts[i] == tail[i - from],
    ensures
        joined(parts, from) == tail.flatten(),
    decreases tail.len(),
{
    if tail.len() > 0 {
        let rest = tail.drop_first();
        assert forall|i: int| from + 1 <= i < parts.len() implies #[trigger] parts[i] == rest[i
            - from - 1] by {
            assert(parts[i] == tail[i - from]);
        }
        lemma_joined_tail(parts, rest, from + 1);
        assert(parts[from] == tail[0]);
        assert(tail.first() == tail[0]);
    }
}

/// Where a spread from one square to another leads, if straight.
pub open spec fn leads(from: Square, to: Square) -> Option<Direction> {
    if from.column == to.column && from.row < to.row {
        Some(Direction::Up)
    } else if from.column == to.column && from.row > to.row {
        Some(Direction::Down)
    } else if from.row == to.row && from.column < to.column {
        Some(Direction::Right)
    } else if from.row == to.row && from.column > to.column {
        Some(Direction::Left)
    } else {
        None
    }
}

/// A spread is read as it is written: in the game with the number that is sent,
/// from the square that is named first, straight towards the one that is named
/// next, with the counts that follow, digit by digit. Words that name no square,
/// squares that no straight line joins and counts that cannot be dropped are
/// refused, in this order.
#[verifier::rlimit(60)]
pub proof fn spreads_are_read(
    line: &str,
    end: char,
    number: Seq<char>,
    id: u32,
    from: Seq<char>,
    to: Seq<char>,
    tail: Seq<Seq<char>>,
    squares: (Square, Square),
    counts: Seq<u32>,
    theirs: Result<client::Message, ParseError>,
    ours: Result<communication::Message, ParseError>,
)
    requires
        call_ensures(client::Message::from_str, (line,), theirs),
        call_ensures(communication::Message::from_str, (line,), ours),
        separates(end),
        one_word(from),
        one_word(to),
        all_words(tail),
        stands_for_u32(number, id),
        line@ == "Game"@ + seq![end] + number + spaced(seq!["M"@, from, to] + tail),
    ensures
        square_trouble(from) matches Some(e) ==> theirs == Err::<client::Message, ParseError>(
            ParseError::Square(e),
        ) && ours == Err::<communication::Message, ParseError>(ParseError::Square(e)),
        square_trouble(from) is None ==> (square_trouble(to) matches Some(e) ==> theirs == Err::<
            client::Message,
            ParseError,
        >(ParseError::Square(e)) && ours == Err::<communication::Message, ParseError>(
            ParseError::Square(e),
        )),
        names_square(from, squares.0) && names_square(to, squares.1) ==> match leads(
            squares.0,
            squares.1,
        ) {
            None => theirs == Err::<client::Message, ParseError>(ParseError::NotStraight) && ours
                == Err::<communication::Message, ParseError>(ParseError::NotStraight),
            Some(direction) => {
                &&& writes_counts(tail.flatten(), counts) && can_be_dropped(counts) ==> {
                    &&& theirs matches Ok(client::Message::Play(n, m)) && n == id && m.square
                        == squares.0 && (m.kind matches MoveKind::Spread(d, pattern) && d
                        == direction && pattern.drops@ == counts)
                    &&& ours matches Ok(communication::Message::Play(n, m)) && n == id && m.square
                        == squares.0 && (m.kind matches MoveKind::Spread(d, pattern) && d
                        == direction && pattern.drops@ == counts)
                }
                &&& theirs matches Err(e) ==> (e matches ParseError::Pattern(what)
                    && pattern_value(tail.flatten()) == Err::<Seq<u32>, PatternError>(what))
                &&& ours matches Err(e) ==> (e matches ParseError::Pattern(what) && pattern_value(
                    tail.flatten(),
                ) == Err::<Seq<u32>, PatternError>(what))
                &&& theirs matches Ok(message) ==> (message matches client::Message::Play(_, m)
                    && (m.kind matches MoveKind::Spread(_, pattern) && writes_counts(
                    tail.flatten(),
                    pattern.drops@,
                ) && can_be_dropped(pattern.drops@)))
                &&& ours matches Ok(message) ==> (message matches communication::Message::Play(_, m)
                    && (m.kind matches MoveKind::Spread(_, pattern) && writes_counts(
                    tail.flatten(),
                    pattern.drops@,
                ) && can_be_dropped(pattern.drops@)))
            },
        },
{
    lemma_game_kinds();
    lemma_square(from);
    lemma_square(to);
    let parts = seq!["M"@, from, to] + tail;
    let none = Seq::<char>::empty();
    assert forall|i: int| 0 <= i < parts.len() implies one_word(#[trigger] parts[i]) by {
        if i >= 3 {
            assert(parts[i] == tail[i - 3]);
        }
    }
    assert(line@ + none =~= line@);
    assert("Game"@ + seq![end] + number + spaced(parts) + none =~= line@);
    lemma_numbered_game(line@, end, number, id, parts, none);
    let w = words(after_command(line@));
    assert(w.len() == 4 + tail.len());
    assert(w[1] == parts[0] && w[2] == parts[1] && w[3] == parts[2]);
    assert forall|i: int| 4 <= i < w.len() implies #[trigger] w[i] == tail[i - 4] by {
        assert(w[i] == parts[i - 1]);
    }
    lemma_joined_tail(w, tail, 4);
    lemma_counts(tail.flatten(), counts);
}

} // verus!
