//! Moves on the board, and how the server writes them.

use vstd::prelude::*;

use crate::errors::ParseError;
use crate::numbers::{decimal, write_u32};
use crate::text::{join_words, joined, lower, read_word, same_text, spaced, spaced_push, texts, to_lower, word};

verus! {

/// The kinds of piece that can be placed.
#[derive(Debug, Clone, Copy, PartialEq, Eq, Structural)]
pub enum Piece {
    Flat,
    Wall,
    Cap,
}

/// The directions that a stack can move in.
#[derive(Debug, Clone, Copy, PartialEq, Eq, Structural)]
pub enum Direction {
    Up,
    Down,
    Right,
    Left,
}

impl Direction {
    /// By how many columns one step in this direction moves.
    pub open spec fn column_step(self) -> int {
        match self {
            Direction::Up | Direction::Down => 0,
            Direction::Right => 1,
            Direction::Left => -1,
        }
    }

    /// By how many rows one step in this direction moves.
    pub open spec fn row_step(self) -> int {
        match self {
            Direction::Up => 1,
            Direction::Down => -1,
            Direction::Right | Direction::Left => 0,
        }
    }
}

/// A square of the board; both coordinates count from 0.
#[derive(Debug, Clone, Copy, PartialEq, Eq, Structural)]
pub struct Square {
    pub column: u8,
    pub row: u8,
}

impl Square {
    /// Whether the square lies on the largest board.
    pub open spec fn wf(self) -> bool {
        self.column < 8 && self.row < 8
    }

    /// Whether the square lies on the largest board.
    pub fn is_valid(&self) -> (r: bool)
        ensures
            r == self.wf(),
    {
        self.column < 8 && self.row < 8
    }

    /// The column and the row `amount` steps away.
    pub open spec fn moved(self, direction: Direction, amount: int) -> (int, int) {
        (
            self.column + direction.column_step() * amount,
            self.row + direction.row_step() * amount,
        )
    }

    /// Whether the square `amount` steps away lies on the largest board.
    pub open spec fn can_shift(self, direction: Direction, amount: int) -> bool {
        let (column, row) = self.moved(direction, amount);
        0 <= column < 8 && 0 <= row < 8
    }

    /// The square `amount` steps away.
    pub open spec fn shifted(self, direction: Direction, amount: int) -> Square {
        let (column, row) = self.moved(direction, amount);
        Square { column: column as u8, row: row as u8 }
    }
}

/// Why a text is not a square.
#[derive(Debug, Clone, Copy, PartialEq, Eq)]
pub enum SquareError {
    /// The text does not have two characters.
    Malformed,
    /// The column is none of `a` to `h`.
    BadColumn,
    /// The row is none of `1` to `8`.
    BadRow,
}

impl SquareError {
    /// What the error says in words.
    pub open spec fn spec_message(self) -> Seq<char> {
        match self {
            SquareError::Malformed => "malformed square"@,
            SquareError::BadColumn => "found column not in range 'a'-'h'"@,
            SquareError::BadRow => "found row not in range '1'-'8'"@,
        }
    }

    /// What the error says in words.
    pub fn message(self) -> (r: &'static str)
        ensures
            r@ == self.spec_message(),
    {
        match self {
            SquareError::Malformed => "malformed square",
            SquareError::BadColumn => "found column not in range 'a'-'h'",
            SquareError::BadRow => "found row not in range '1'-'8'",
        }
    }
}

/// The square that `s` names, with a small letter for the column.
pub open spec fn square_value(s: Seq<char>) -> Result<Square, SquareError> {
    if s.len() != 2 {
        Err(SquareError::Malformed)
    } else if !('a' <= s[0] <= 'h') {
        Err(SquareError::BadColumn)
    } else if !('1' <= s[1] <= '8') {
        Err(SquareError::BadRow)
    } else {
        Ok(Square { column: (s[0] as u32 - 'a' as u32) as u8, row: (s[1] as u32 - '1' as u32) as u8 })
    }
}

/// Calls `takparse::Square`'s `FromStr`: a square is a letter from `a` to `h`
/// and a digit from `1` to `8`, counted from the letter and the digit as 0;
/// the length is looked at first, then the column, then the row.
#[verifier::external_body]
fn parse_square(s: &str) -> (r: Result<Square, SquareError>)
    ensures
        r == square_value(s@),
{
    match s.parse::<takparse::Square>() {
        Ok(square) => Ok(Square { column: square.column(), row: square.row() }),
        Err(takparse::ParseSquareError::Malformed) => Err(SquareError::Malformed),
        Err(takparse::ParseSquareError::BadColumn) => Err(SquareError::BadColumn),
        Err(takparse::ParseSquareError::BadRow) => Err(SquareError::BadRow),
    }
}

/// Calls `takparse::Square::shift`: it moves by `amount` steps along the
/// direction's axis and leaves the other coordinate; it panics where that
/// leads off the board.
#[verifier::external_body]
fn shift_square(square: Square, direction: Direction, amount: i8) -> (r: Square)
    requires
        square.wf(),
        square.can_shift(direction, amount as int),
    ensures
        r == square.shifted(direction, amount as int),
{
    let direction = match direction {
        Direction::Up => takparse::Direction::Up,
        Direction::Down => takparse::Direction::Down,
        Direction::Right => takparse::Direction::Right,
        Direction::Left => takparse::Direction::Left,
    };
    let shifted = takparse::Square::new(square.column, square.row).shift(direction, amount);
    Square { column: shifted.column(), row: shifted.row() }
}

/// How many pieces `drops` leave behind in all.
pub open spec fn total(drops: Seq<u32>) -> int
    decreases drops.len(),
{
    if drops.len() == 0 {
        0
    } else {
        total(drops.drop_last()) + drops.last()
    }
}

/// Whether `drops` can be the drop counts of a spread: on one to seven
/// squares, at least one piece on each, and no more than eight in all.
pub open spec fn valid_drops(drops: Seq<u32>) -> bool {
    &&& 1 <= drops.len() <= 7
    &&& forall|i: int| 0 <= i < drops.len() ==> #[trigger] drops[i] >= 1
    &&& total(drops) <= 8
}

/// How many pieces a spread drops on each square that it moves over, in the
/// order in which it gets there.
#[derive(Debug, Clone, PartialEq, Eq)]
pub struct Pattern {
    pub drops: Vec<u32>,
}

impl View for Pattern {
    type V = Seq<u32>;

    open spec fn view(&self) -> Seq<u32> {
        self.drops@
    }
}

/// Why a text is not a pattern.
#[derive(Debug, Clone, Copy, PartialEq, Eq)]
pub enum PatternError {
    /// A character is none of `1` to `8`.
    Malformed,
    /// There is no drop count at all.
    Ambiguous,
    /// There are more than seven drop counts.
    TooLong,
    /// More than eight pieces are dropped.
    TooBig,
}

impl PatternError {
    /// What the error says in words.
    pub open spec fn spec_message(self) -> Seq<char> {
        match self {
            PatternError::Malformed => "found unexpected characters in pattern"@,
            PatternError::Ambiguous => "found ambiguous empty pattern (its interpretation is dependent on taken piece count)"@,
            PatternError::TooLong => "pattern drops pieces on more squares than possible on largest supported board size (8)"@,
            PatternError::TooBig => "pattern drops more pieces than highest supported carry limit (8)"@,
        }
    }

    /// What the error says in words.
    pub fn message(self) -> (r: &'static str)
        ensures
            r@ == self.spec_message(),
    {
        match self {
            PatternError::Malformed => "found unexpected characters in pattern",
            PatternError::Ambiguous => "found ambiguous empty pattern (its interpretation is dependent on taken piece count)",
            PatternError::TooLong => "pattern drops pieces on more squares than possible on largest supported board size (8)",
            PatternError::TooBig => "pattern drops more pieces than highest supported carry limit (8)",
        }
    }
}

/// Whether `c` can be a drop count.
pub open spec fn is_drop(c: char) -> bool {
    '1' <= c <= '8'
}

/// The drop counts that the characters of `s` write.
pub open spec fn drops_of(s: Seq<char>) -> Seq<u32> {
    s.map_values(|c: char| (c as u32 - '0' as u32) as u32)
}

/// What is wrong with the leftmost character of `s` that is no drop count or
/// takes the total above eight, if there is such a character.
pub open spec fn drops_error(s: Seq<char>) -> Option<PatternError>
    decreases s.len(),
{
    if s.len() == 0 {
        None
    } else if drops_error(s.drop_last()) is Some {
        drops_error(s.drop_last())
    } else if !is_drop(s.last()) {
        Some(PatternError::Malformed)
    } else if total(drops_of(s)) > 8 {
        Some(PatternError::TooBig)
    } else {
        None
    }
}

/// The drop counts that `s` writes, one character each. The first seven
/// characters are looked at before the rest.
pub open spec fn pattern_value(s: Seq<char>) -> Result<Seq<u32>, PatternError> {
    let head = if s.len() > 7 {
        s.take(7)
    } else {
        s
    };
    match drops_error(head) {
        Some(e) => Err(e),
        None => if exists|i: int| 7 <= i < s.len() && !is_drop(#[trigger] s[i]) {
            Err(PatternError::Malformed)
        } else if s.len() > 7 {
            Err(PatternError::TooLong)
        } else if s.len() == 0 {
            Err(PatternError::Ambiguous)
        } else {
            Ok(drops_of(s))
        },
    }
}

/// The drop counts of a pattern that was read, or why none was.
pub open spec fn read_drops(r: Result<Pattern, PatternError>) -> Result<Seq<u32>, PatternError> {
    match r {
        Ok(pattern) => Ok(pattern@),
        Err(e) => Err(e),
    }
}

/// Calls `takparse::Pattern`'s `FromStr` and takes the drop counts out of the
/// pattern: each character from `1` to `8` is a drop count, there are one to
/// seven of them, and they sum to at most eight. Of the first seven characters
/// the leftmost bad one decides the error, after them a character that is no
/// drop count, after that the length.
#[verifier::external_body]
fn parse_pattern(s: &str) -> (r: Result<Pattern, PatternError>)
    ensures
        read_drops(r) == pattern_value(s@),
{
    match s.parse::<takparse::Pattern>() {
        Ok(pattern) => Ok(Pattern { drops: pattern.drop_counts().collect() }),
        Err(takparse::ParsePatternError::Malformed) => Err(PatternError::Malformed),
        Err(takparse::ParsePatternError::Ambiguous) => Err(PatternError::Ambiguous),
        Err(takparse::ParsePatternError::TooLong) => Err(PatternError::TooLong),
        Err(takparse::ParsePatternError::TooBig) => Err(PatternError::TooBig),
    }
}

/// What is done on a square.
#[derive(Debug, Clone, PartialEq, Eq)]
pub enum MoveKind {
    /// A piece is placed.
    Place(Piece),
    /// The stack moves in a direction and drops pieces on the way.
    Spread(Direction, Pattern),
}

/// What is done on a square.
pub enum MoveKindView {
    Place(Piece),
    Spread(Direction, Seq<u32>),
}

impl View for MoveKind {
    type V = MoveKindView;

    open spec fn view(&self) -> MoveKindView {
        match *self {
            MoveKind::Place(piece) => MoveKindView::Place(piece),
            MoveKind::Spread(direction, pattern) => MoveKindView::Spread(direction, pattern@),
        }
    }
}

/// A move.
#[derive(Debug, Clone, PartialEq, Eq)]
pub struct Move {
    /// Where a piece is placed, or where the stack that moves stands.
    pub square: Square,
    pub kind: MoveKind,
}

/// A move.
pub struct MoveView {
    pub square: Square,
    pub kind: MoveKindView,
}

impl View for Move {
    type V = MoveView;

    open spec fn view(&self) -> MoveView {
        MoveView { square: self.square, kind: self.kind@ }
    }
}

/// `square` as the server writes it: a capital letter and a digit.
pub open spec fn square_text(square: Square) -> Seq<char> {
    seq![('A' as u32 + square.column) as char, ('1' as u32 + square.row) as char]
}

/// The words that follow the square where `piece` is placed.
pub open spec fn piece_words(piece: Piece) -> Seq<Seq<char>> {
    match piece {
        Piece::Flat => Seq::empty(),
        Piece::Wall => seq!["W"@],
        Piece::Cap => seq!["C"@],
    }
}

/// The drop counts as words.
pub open spec fn drops_words(drops: Seq<u32>) -> Seq<Seq<char>> {
    drops.map_values(|count: u32| decimal(count as nat))
}

impl MoveView {
    /// Whether the square lies on the largest board and the drop counts, if
    /// any, are those of a spread.
    pub open spec fn valid(self) -> bool {
        &&& self.square.wf()
        &&& self.kind matches MoveKindView::Spread(_, drops) ==> valid_drops(drops)
    }

    /// Whether the move is valid and, if it is a spread, ends on the largest board.
    pub open spec fn playable(self) -> bool {
        &&& self.valid()
        &&& self.kind matches MoveKindView::Spread(direction, drops) ==> self.square.can_shift(
            direction,
            drops.len() as int,
        )
    }

    /// The move as the server writes it, word by word.
    pub open spec fn words(self) -> Seq<Seq<char>> {
        match self.kind {
            MoveKindView::Place(piece) => seq!["P"@, square_text(self.square)] + piece_words(piece),
            MoveKindView::Spread(direction, drops) => seq![
                "M"@,
                square_text(self.square),
                square_text(self.square.shifted(direction, drops.len() as int)),
            ] + drops_words(drops),
        }
    }
}

/// No drop count is above the total.
pub proof fn lemma_total_at_least(drops: Seq<u32>, i: int)
    requires
        0 <= i < drops.len(),
    ensures
        total(drops) >= drops[i],
    decreases drops.len(),
{
    if i < drops.len() - 1 {
        lemma_total_at_least(drops.drop_last(), i);
    } else if drops.len() > 1 {
        lemma_total_at_least(drops.drop_last(), 0);
    } else {
        assert(total(drops.drop_last()) == 0);
    }
}

impl Pattern {
    /// Whether these can be the drop counts of a spread.
    pub fn is_valid(&self) -> (r: bool)
        ensures
            r == valid_drops(self@),
    {
        if self.drops.len() < 1 || self.drops.len() > 7 {
            return false;
        }
        let mut sum: u32 = 0;
        let mut i: usize = 0;
        while i < self.drops.len()
            invariant
                1 <= self.drops.len() <= 7,
                i <= self.drops.len(),
                forall|j: int| 0 <= j < i ==> 1 <= #[trigger] self@[j] <= 8,
                sum == total(self@.take(i as int)),
                sum <= 8 * i,
            decreases self.drops.len() - i,
        {
            let count = self.drops[i];
            if count < 1 || count > 8 {
                proof {
                    lemma_total_at_least(self@, i as int);
                }
                return false;
            }
            assert(self@.take(i + 1).drop_last() == self@.take(i as int));
            sum += count;
            i += 1;
        }
        assert(self@.take(i as int) == self@);
        sum <= 8
    }

    /// How many squares the spread moves over.
    pub fn count_squares(&self) -> (r: usize)
        ensures
            r == self@.len(),
    {
        self.drops.len()
    }
}

fn write_square(out: &mut String, square: Square)
    requires
        square.wf(),
    ensures
        final(out)@ == old(out)@ + square_text(square),
{
    out.push((65 + square.column) as char);
    out.push((49 + square.row) as char);
    assert(out@ =~= old(out)@ + square_text(square));
}

impl Move {
    /// Whether the move is valid and, if it is a spread, ends on the largest board.
    pub fn is_playable(&self) -> (r: bool)
        ensures
            r == self@.playable(),
    {
        if !self.square.is_valid() {
            return false;
        }
        match &self.kind {
            MoveKind::Place(_) => true,
            MoveKind::Spread(direction, pattern) => {
                if !pattern.is_valid() {
                    return false;
                }
                let steps: u8 = pattern.count_squares() as u8;
                match direction {
                    Direction::Up => self.square.row + steps < 8,
                    Direction::Down => steps <= self.square.row,
                    Direction::Right => self.square.column + steps < 8,
                    Direction::Left => steps <= self.square.column,
                }
            },
        }
    }

    /// Appends the words of the move, each after a space.
    pub fn write(&self, out: &mut String)
        requires
            self@.playable(),
        ensures
            final(out)@ == old(out)@ + spaced(self@.words()),
    {
        broadcast use spaced_push;

        let ghost start = out@;
        let ghost mut parts: Seq<Seq<char>> = Seq::empty();
        match &self.kind {
            MoveKind::Place(piece) => {
                out.append(" P ");
                write_square(out, self.square);
                proof {
                    reveal_strlit(" P ");
                    reveal_strlit("P");
                    parts = parts.push("P"@).push(square_text(self.square));
                    assert(spaced(Seq::<Seq<char>>::empty()) == Seq::<char>::empty());
                    assert(out@ =~= start + spaced(parts));
                }
                match piece {
                    Piece::Flat => {
                        assert(self@.words() =~= parts);
                    },
                    Piece::Wall => {
                        out.append(" W");
                        proof {
                            reveal_strlit(" W");
                            reveal_strlit("W");
                            parts = parts.push("W"@);
                            assert(self@.words() =~= parts);
                            assert(out@ =~= start + spaced(parts));
                        }
                    },
                    Piece::Cap => {
                        out.append(" C");
                        proof {
                            reveal_strlit(" C");
                            reveal_strlit("C");
                            parts = parts.push("C"@);
                            assert(self@.words() =~= parts);
                            assert(out@ =~= start + spaced(parts));
                        }
                    },
                }
            },
            MoveKind::Spread(direction, pattern) => {
                out.append(" M ");
                write_square(out, self.square);
                out.push(' ');
                let target = shift_square(self.square, *direction, pattern.count_squares() as i8);
                write_square(out, target);
                proof {
                    reveal_strlit(" M ");
                    reveal_strlit("M");
                    parts =
                    parts.push("M"@).push(square_text(self.square)).push(square_text(target));
                    assert(spaced(Seq::<Seq<char>>::empty()) == Seq::<char>::empty());
                    assert(out@ =~= start + spaced(parts));
                    assert(parts + drops_words(pattern@.take(0)) =~= parts);
                }
                let mut i: usize = 0;
                while i < pattern.drops.len()
                    invariant
                        i <= pattern.drops.len(),
                        out@ == start + spaced(parts + drops_words(pattern@.take(i as int))),
                    decreases pattern.drops.len() - i,
                {
                    broadcast use spaced_push;

                    out.push(' ');
                    write_u32(out, pattern.drops[i]);
                    proof {
                        let before = parts + drops_words(pattern@.take(i as int));
                        let count = decimal(pattern.drops[i as int] as nat);
                        assert(parts + drops_words(pattern@.take(i + 1)) =~= before.push(count));
                        assert(out@ =~= start + spaced(before.push(count)));
                    }
                    i += 1;
                }
                assert(pattern@.take(i as int) == pattern@);
                assert(self@.words() =~= parts + drops_words(pattern@));
            },
        }
    }
}

/// The square that the word at index `i` names, in letters of either case.
pub open spec fn square_word(parts: Seq<Seq<char>>, i: int) -> Result<Square, ParseError> {
    match word(parts, i) {
        Err(e) => Err(e),
        Ok(s) => match square_value(lower(s)) {
            Err(e) => Err(ParseError::Square(e)),
            Ok(square) => Ok(square),
        },
    }
}

/// Reads the square that the word at index `i` names.
fn read_square(parts: &Vec<&str>, i: usize) -> (r: Result<Square, ParseError>)
    ensures
        r == square_word(texts(parts@), i as int),
{
    let s = read_word(parts, i)?;
    let small = to_lower(s);
    match parse_square(small.as_str()) {
        Err(e) => Err(ParseError::Square(e)),
        Ok(square) => Ok(square),
    }
}

/// The piece that the word at index `i` names; a flat stone if there is no
/// such word.
pub open spec fn piece_word(parts: Seq<Seq<char>>, i: int) -> Result<Piece, ParseError> {
    if i >= parts.len() {
        Ok(Piece::Flat)
    } else if parts[i] == "W"@ {
        Ok(Piece::Wall)
    } else if parts[i] == "C"@ {
        Ok(Piece::Cap)
    } else {
        Err(ParseError::UnexpectedPiece)
    }
}

/// The direction that leads straight from one square to the other.
pub open spec fn direction_between(from: Square, to: Square) -> Result<Direction, ParseError> {
    if to.row == from.row && to.column < from.column {
        Ok(Direction::Left)
    } else if to.row == from.row && to.column > from.column {
        Ok(Direction::Right)
    } else if to.column == from.column && to.row < from.row {
        Ok(Direction::Down)
    } else if to.column == from.column && to.row > from.row {
        Ok(Direction::Up)
    } else {
        Err(ParseError::NotStraight)
    }
}

/// Reads the piece that the word at index `i` names.
fn read_piece(parts: &Vec<&str>, i: usize) -> (r: Result<Piece, ParseError>)
    ensures
        r == piece_word(texts(parts@), i as int),
{
    if i >= parts.len() {
        Ok(Piece::Flat)
    } else if same_text(parts[i], "W") {
        Ok(Piece::Wall)
    } else if same_text(parts[i], "C") {
        Ok(Piece::Cap)
    } else {
        Err(ParseError::UnexpectedPiece)
    }
}

/// The direction that leads straight from one square to the other.
fn find_direction(from: Square, to: Square) -> (r: Result<Direction, ParseError>)
    ensures
        r == direction_between(from, to),
{
    if to.row == from.row && to.column < from.column {
        Ok(Direction::Left)
    } else if to.row == from.row && to.column > from.column {
        Ok(Direction::Right)
    } else if to.column == from.column && to.row < from.row {
        Ok(Direction::Down)
    } else if to.column == from.column && to.row > from.row {
        Ok(Direction::Up)
    } else {
        Err(ParseError::NotStraight)
    }
}

/// The placement whose square stands at index `i`, with the piece behind it.
pub open spec fn placement_words(parts: Seq<Seq<char>>, i: int) -> Result<MoveView, ParseError> {
    match square_word(parts, i) {
        Err(e) => Err(e),
        Ok(square) => match piece_word(parts, i + 1) {
            Err(e) => Err(e),
            Ok(piece) => Ok(MoveView { square, kind: MoveKindView::Place(piece) }),
        },
    }
}

/// The spread whose square stands at index `i`, with the square where it ends
/// and the drop counts behind it.
pub open spec fn spread_words(parts: Seq<Seq<char>>, i: int) -> Result<MoveView, ParseError> {
    match square_word(parts, i) {
        Err(e) => Err(e),
        Ok(square) => match square_word(parts, i + 1) {
            Err(e) => Err(e),
            Ok(target) => match direction_between(square, target) {
                Err(e) => Err(e),
                Ok(direction) => match pattern_value(joined(parts, i + 2)) {
                    Err(e) => Err(ParseError::Pattern(e)),
                    Ok(drops) => Ok(
                        MoveView { square, kind: MoveKindView::Spread(direction, drops) },
                    ),
                },
            },
        },
    }
}

/// The model of a move that was read, or why none was.
pub open spec fn read_move(r: Result<Move, ParseError>) -> Result<MoveView, ParseError> {
    match r {
        Ok(m) => Ok(m@),
        Err(e) => Err(e),
    }
}

/// What is read as drop counts can be those of a spread.
pub proof fn pattern_value_is_valid(s: Seq<char>)
    ensures
        pattern_value(s) matches Ok(drops) ==> valid_drops(drops),
{
    if pattern_value(s) is Ok {
        assert forall|i: int| 0 <= i < s.len() implies is_drop(#[trigger] s[i]) by {
            lemma_no_error(s, i);
        }
    }
}

proof fn lemma_no_error(s: Seq<char>, i: int)
    requires
        drops_error(s) is None,
        0 <= i < s.len(),
    ensures
        is_drop(s[i]),
    decreases s.len(),
{
    if i < s.len() - 1 {
        lemma_no_error(s.drop_last(), i);
    }
}

/// Reads the placement whose square stands at index `i`.
pub fn read_placement(parts: &Vec<&str>, i: usize) -> (r: Result<Move, ParseError>)
    requires
        i + 1 <= usize::MAX,
    ensures
        read_move(r) == placement_words(texts(parts@), i as int),
        r matches Ok(m) ==> m@.valid(),
{
    let square = read_square(parts, i)?;
    let piece = read_piece(parts, i + 1)?;
    Ok(Move { square, kind: MoveKind::Place(piece) })
}

/// Reads the spread whose square stands at index `i`.
pub fn read_spread(parts: &Vec<&str>, i: usize) -> (r: Result<Move, ParseError>)
    requires
        i + 2 <= usize::MAX,
    ensures
        read_move(r) == spread_words(texts(parts@), i as int),
        r matches Ok(m) ==> m@.valid(),
{
    let square = read_square(parts, i)?;
    let target = read_square(parts, i + 1)?;
    let direction = find_direction(square, target)?;
    let counts = join_words(parts, i + 2);
    match parse_pattern(counts.as_str()) {
        Err(e) => Err(ParseError::Pattern(e)),
        Ok(pattern) => {
            proof {
                pattern_value_is_valid(counts@);
            }
            Ok(Move { square, kind: MoveKind::Spread(direction, pattern) })
        },
    }
}

} // verus!
