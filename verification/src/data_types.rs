//! Seeks and games in the terms of a player who looks at them: a game is
//! rated or not, and a seek may leave the color open.

use vstd::prelude::*;

use crate::communication::{Request, RequestView};
use crate::errors::ParseError;
use crate::hashing::{fed, hash_number};
use crate::moves::Move;
use crate::text::same_text;
use crate::time::Duration;
use crate::wire::{name_view, Rating, Terms};

verus! {

/// A player's color.
#[derive(Debug, Clone, Copy, PartialEq, Eq, Structural)]
pub enum Color {
    White,
    Black,
}

/// The server does not offer games with such parameters.
#[derive(Debug, Clone, Copy, PartialEq, Eq, Structural)]
pub struct UnsupportedParameters;

impl UnsupportedParameters {
    /// What the error says in words.
    pub fn message(self) -> (r: &'static str)
        ensures
            r@ == "Game parameters not supported by Playtak"@,
    {
        "Game parameters not supported by Playtak"
    }
}

/// An open seek.
#[derive(Debug, Clone)]
pub struct Seek {
    pub id: u32,
    pub owner: String,
    pub params: SeekParameters,
}

/// An open seek.
pub struct SeekView {
    pub id: u32,
    pub owner: Seq<char>,
    pub params: SeekParametersView,
}

impl View for Seek {
    type V = SeekView;

    open spec fn view(&self) -> SeekView {
        SeekView { id: self.id, owner: self.owner@, params: self.params@ }
    }
}

impl Seek {
    /// The name of the owner of the seek.
    #[must_use]
    pub fn owner(&self) -> (r: &str)
        ensures
            r@ == self@.owner,
    {
        self.owner.as_str()
    }

    /// The parameters of the seek.
    #[must_use]
    pub fn params(&self) -> (r: &SeekParameters)
        ensures
            *r == self.params,
    {
        &self.params
    }
}

impl PartialEq for Seek {
    fn eq(&self, other: &Self) -> (r: bool) {
        self.id == other.id
    }
}

impl vstd::std_specs::cmp::PartialEqSpecImpl for Seek {
    open spec fn obeys_eq_spec() -> bool {
        true
    }

    open spec fn eq_spec(&self, other: &Self) -> bool {
        self.id == other.id
    }
}

impl Eq for Seek {

}

impl std::hash::Hash for Seek {
    fn hash<H: std::hash::Hasher>(&self, state: &mut H)
        ensures
            exists|given: &mut H|
                *given == *old(state) && *final(given) == *final(state) && #[trigger] fed(
                    self.id,
                    given,
                ),
    {
        hash_number(self.id, state)
    }
}

impl std::borrow::Borrow<u32> for Seek {
    fn borrow(&self) -> &u32
        returns
            &self.id,
    {
        &self.id
    }
}

/// What a seek asks for.
#[derive(Debug, Clone)]
pub struct SeekParameters {
    pub opponent: Option<String>,
    pub color: Option<Color>,
    pub params: GameParameters,
}

/// What a seek asks for.
pub struct SeekParametersView {
    pub opponent: Option<Seq<char>>,
    pub color: Option<Color>,
    pub params: GameParameters,
}

impl View for SeekParameters {
    type V = SeekParametersView;

    open spec fn view(&self) -> SeekParametersView {
        SeekParametersView {
            opponent: name_view(self.opponent),
            color: self.color,
            params: self.params,
        }
    }
}

impl SeekParameters {
    /// A seek for a game with these parameters. No seek is refused.
    pub fn new(opponent: Option<String>, color: Option<Color>, params: GameParameters) -> (r: Result<
        Self,
        UnsupportedParameters,
    >)
        ensures
            r is Ok,
            r->Ok_0.opponent == opponent,
            r->Ok_0.color == color,
            r->Ok_0.params == params,
    {
        Ok(SeekParameters { opponent, color, params })
    }

    /// The name of the opponent if the seek is private.
    #[must_use]
    pub fn opponent(&self) -> (r: Option<&str>)
        ensures
            r is Some <==> self@.opponent is Some,
            r matches Some(name) ==> self@.opponent == Some(name@),
    {
        match &self.opponent {
            Some(name) => Some(name.as_str()),
            None => None,
        }
    }

    /// The seek color if it's not random.
    #[must_use]
    pub fn color(&self) -> (r: Option<Color>)
        ensures
            r == self.color,
    {
        self.color
    }

    /// The game parameters of the seek.
    #[must_use]
    pub fn params(&self) -> (r: &GameParameters)
        ensures
            *r == self.params,
    {
        &self.params
    }
}

/// A game on the server's list.
#[derive(Debug, Clone)]
pub struct Game {
    pub id: u32,
    pub white: String,
    pub black: String,
    pub params: GameParameters,
}

/// A game on the server's list.
pub struct GameView {
    pub id: u32,
    pub white: Seq<char>,
    pub black: Seq<char>,
    pub params: GameParameters,
}

impl View for Game {
    type V = GameView;

    open spec fn view(&self) -> GameView {
        GameView { id: self.id, white: self.white@, black: self.black@, params: self.params }
    }
}

impl Game {
    /// The name of the white player.
    #[must_use]
    pub fn white(&self) -> (r: &str)
        ensures
            r@ == self@.white,
    {
        self.white.as_str()
    }

    /// The name of the black player.
    #[must_use]
    pub fn black(&self) -> (r: &str)
        ensures
            r@ == self@.black,
    {
        self.black.as_str()
    }

    /// The parameters of the game.
    #[must_use]
    pub fn params(&self) -> (r: &GameParameters)
        ensures
            *r == self.params,
    {
        &self.params
    }
}

impl PartialEq for Game {
    fn eq(&self, other: &Self) -> (r: bool) {
        self.id == other.id
    }
}

impl vstd::std_specs::cmp::PartialEqSpecImpl for Game {
    open spec fn obeys_eq_spec() -> bool {
        true
    }

    open spec fn eq_spec(&self, other: &Self) -> bool {
        self.id == other.id
    }
}

impl Eq for Game {

}

impl std::hash::Hash for Game {
    fn hash<H: std::hash::Hasher>(&self, state: &mut H)
        ensures
            exists|given: &mut H|
                *given == *old(state) && *final(given) == *final(state) && #[trigger] fed(
                    self.id,
                    given,
                ),
    {
        hash_number(self.id, state)
    }
}

impl std::borrow::Borrow<u32> for Game {
    fn borrow(&self) -> &u32
        returns
            &self.id,
    {
        &self.id
    }
}

/// The parameters of a game.
#[derive(Debug, Clone, Copy, PartialEq, Eq, Structural)]
pub struct GameParameters {
    pub size: u32,
    pub initial_time: Duration,
    pub increment: Duration,
    pub half_komi: i32,
    pub flat_count: u32,
    pub cap_count: u32,
    pub rated: bool,
    pub tournament: bool,
}

impl GameParameters {
    /// Whether the server offers games with these parameters: on boards of
    /// three to eight squares a side, with times in whole seconds and a komi
    /// of nothing to four flats.
    pub open spec fn supported(self) -> bool {
        &&& 3 <= self.size <= 8
        &&& self.initial_time.nanos == 0
        &&& self.increment.nanos == 0
        &&& 0 <= self.half_komi <= 8
    }

    /// The parameters of a game that the server offers.
    pub fn new(
        size: u32,
        initial_time: Duration,
        increment: Duration,
        half_komi: i32,
        flat_count: u32,
        cap_count: u32,
        rated: bool,
        tournament: bool,
    ) -> (r: Result<Self, UnsupportedParameters>)
        ensures
            ({
                let params = GameParameters {
                    size,
                    initial_time,
                    increment,
                    half_komi,
                    flat_count,
                    cap_count,
                    rated,
                    tournament,
                };
                r == if params.supported() {
                    Ok::<GameParameters, UnsupportedParameters>(params)
                } else {
                    Err(UnsupportedParameters)
                }
            }),
    {
        if size > 8 || size < 3 || initial_time.subsec_nanos() != 0 || increment.subsec_nanos()
            != 0 || half_komi > 8 || half_komi < 0 {
            Err(UnsupportedParameters)
        } else {
            Ok(
                GameParameters {
                    size,
                    initial_time,
                    increment,
                    half_komi,
                    flat_count,
                    cap_count,
                    rated,
                    tournament,
                },
            )
        }
    }

    /// The board size.
    #[must_use]
    pub fn size(&self) -> (r: u32)
        ensures
            r == self.size,
    {
        self.size
    }

    /// The initial amount of time each player starts with.
    #[must_use]
    pub fn initial_time(&self) -> (r: Duration)
        ensures
            r == self.initial_time,
    {
        self.initial_time
    }

    /// The amount of time each player gets whenever they make a move.
    #[must_use]
    pub fn increment(&self) -> (r: Duration)
        ensures
            r == self.increment,
    {
        self.increment
    }

    /// The halved number of flats the black player gets on top of their flat count at the end of the game.
    /// That is, a value of `4` means the black player gets two flats added, `5` means two and a half and so on.
    #[must_use]
    pub fn half_komi(&self) -> (r: i32)
        ensures
            r == self.half_komi,
    {
        self.half_komi
    }

    /// The initial number of flatstones each player has.
    #[must_use]
    pub fn flat_count(&self) -> (r: u32)
        ensures
            r == self.flat_count,
    {
        self.flat_count
    }

    /// The initial number of capstones each player has.
    #[must_use]
    pub fn cap_count(&self) -> (r: u32)
        ensures
            r == self.cap_count,
    {
        self.cap_count
    }

    /// Whether the game may count for rating points.
    /// Games where at least one player is a guest ignore this and are always unrated.
    /// Additionally, some game parameters may affect whether a game is rated.
    #[must_use]
    pub fn rated(&self) -> (r: bool)
        ensures
            r == self.rated,
    {
        self.rated
    }

    /// Whether this is a tournament game. Tournament games are marked as such in match history, and also allow more time to reconnect.
    #[must_use]
    pub fn tournament(&self) -> (r: bool)
        ensures
            r == self.tournament,
    {
        self.tournament
    }

    /// The parameters as a line gives them.
    pub open spec fn spec_terms(self) -> Terms {
        Terms {
            size: self.size,
            initial_time: self.initial_time,
            increment: self.increment,
            half_komi: self.half_komi,
            flat_count: self.flat_count,
            cap_count: self.cap_count,
            rating: if self.rated {
                Rating::Rated
            } else {
                Rating::Unrated
            },
            tournament: self.tournament,
        }
    }

    /// The parameters that a line gives. Only a game that is called rated is rated.
    pub open spec fn spec_from_terms(terms: Terms) -> GameParameters {
        GameParameters {
            size: terms.size,
            initial_time: terms.initial_time,
            increment: terms.increment,
            half_komi: terms.half_komi,
            flat_count: terms.flat_count,
            cap_count: terms.cap_count,
            rated: terms.rating == Rating::Rated,
            tournament: terms.tournament,
        }
    }

    /// The parameters as a line gives them.
    pub fn terms(&self) -> (r: Terms)
        ensures
            r == self.spec_terms(),
    {
        Terms {
            size: self.size,
            initial_time: self.initial_time,
            increment: self.increment,
            half_komi: self.half_komi,
            flat_count: self.flat_count,
            cap_count: self.cap_count,
            rating: if self.rated {
                Rating::Rated
            } else {
                Rating::Unrated
            },
            tournament: self.tournament,
        }
    }

    /// The parameters that a line gives.
    pub fn from_terms(terms: Terms) -> (r: GameParameters)
        ensures
            r == Self::spec_from_terms(terms),
    {
        GameParameters {
            size: terms.size,
            initial_time: terms.initial_time,
            increment: terms.increment,
            half_komi: terms.half_komi,
            flat_count: terms.flat_count,
            cap_count: terms.cap_count,
            rated: terms.rating == Rating::Rated,
            tournament: terms.tournament,
        }
    }
}

/// The clocks of a game that is being played, and when they were last set.
#[derive(Debug, Clone, Copy)]
pub struct ActiveGameData {
    pub white_remaining: Duration,
    pub black_remaining: Duration,
    pub last_sync: Option<std::time::Instant>,
}

/// A game that the user is playing.
#[derive(Debug)]
pub struct ActiveGame {
    pub data: ActiveGameData,
    pub game: Game,
}

impl ActiveGame {
    /// What `update` gives for what came through the game's channel.
    pub fn update(received: Option<Update>) -> (r: Result<Update, ConnectionClosed>)
        ensures
            r == item_or_closed(received),
    {
        from_channel(received)
    }

    /// The request to play `m` in this game.
    pub fn play(&self, m: Move) -> (r: Request)
        ensures
            r@ == RequestView::Play(self.game.id, m@),
            r == Request::Play(self.game.id, m),
    {
        Request::Play(self.game.id, m)
    }

    /// The underlying game this active game represents.
    #[must_use]
    pub fn game(&self) -> (r: &Game)
        ensures
            *r == self.game,
    {
        &self.game
    }
}

/// What happens in a game that is being played.
#[non_exhaustive]
#[derive(Debug, Clone)]
pub enum Update {
    Played(Move),
    TurnStarted(Color),
    GameEnded(GameResult),
}

/// How a game ended.
#[derive(Debug, Clone, Copy, PartialEq, Eq, Structural)]
pub struct GameResult(pub GameResultInner);

/// Who won a game, and by what.
#[derive(Debug, Clone, Copy, PartialEq, Eq, Structural)]
pub enum GameResultInner {
    RoadWhite,
    RoadBlack,
    FlatWhite,
    FlatBlack,
    OtherWhite,
    OtherBlack,
    Draw,
}

/// The result that `s` writes.
pub open spec fn result_value(s: Seq<char>) -> Result<GameResult, ParseError> {
    if s == "R-0"@ {
        Ok(GameResult(GameResultInner::RoadWhite))
    } else if s == "0-R"@ {
        Ok(GameResult(GameResultInner::RoadBlack))
    } else if s == "F-0"@ {
        Ok(GameResult(GameResultInner::FlatWhite))
    } else if s == "0-F"@ {
        Ok(GameResult(GameResultInner::FlatBlack))
    } else if s == "1-0"@ {
        Ok(GameResult(GameResultInner::OtherWhite))
    } else if s == "0-1"@ {
        Ok(GameResult(GameResultInner::OtherBlack))
    } else if s == "1/2-1/2"@ {
        Ok(GameResult(GameResultInner::Draw))
    } else {
        Err(ParseError::MalformedResult)
    }
}

impl GameResult {
    /// Reads a result.
    pub fn from_str(s: &str) -> (r: Result<Self, ParseError>)
        ensures
            r == result_value(s@),
    {
        if same_text(s, "R-0") {
            Ok(GameResult(GameResultInner::RoadWhite))
        } else if same_text(s, "0-R") {
            Ok(GameResult(GameResultInner::RoadBlack))
        } else if same_text(s, "F-0") {
            Ok(GameResult(GameResultInner::FlatWhite))
        } else if same_text(s, "0-F") {
            Ok(GameResult(GameResultInner::FlatBlack))
        } else if same_text(s, "1-0") {
            Ok(GameResult(GameResultInner::OtherWhite))
        } else if same_text(s, "0-1") {
            Ok(GameResult(GameResultInner::OtherBlack))
        } else if same_text(s, "1/2-1/2") {
            Ok(GameResult(GameResultInner::Draw))
        } else {
            Err(ParseError::MalformedResult)
        }
    }
}

impl std::str::FromStr for GameResult {
    type Err = ParseError;

    fn from_str(s: &str) -> (r: Result<Self, ParseError>)
        ensures
            r == result_value(s@),
    {
        GameResult::from_str(s)
    }
}

/// Nothing comes through the connection any more.
#[derive(Debug, Clone, Copy, PartialEq, Eq, Structural)]
pub struct ConnectionClosed;

impl ConnectionClosed {
    /// What the error says in words.
    pub fn message(self) -> (r: &'static str)
        ensures
            r@ == "Connection closed"@,
    {
        "Connection closed"
    }
}

/// What a channel of the connection gives a taker: the item that came through
/// it, or the error that it is closed.
pub open spec fn item_or_closed<U>(received: Option<U>) -> Result<U, ConnectionClosed> {
    match received {
        Some(item) => Ok(item),
        None => Err(ConnectionClosed),
    }
}

/// What a channel of the connection gives a taker.
pub fn from_channel<U>(received: Option<U>) -> (r: Result<U, ConnectionClosed>)
    ensures
        r == item_or_closed(received),
{
    match received {
        Some(item) => Ok(item),
        None => Err(ConnectionClosed),
    }
}

} // verus!
