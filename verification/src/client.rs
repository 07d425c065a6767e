//! Seeks, games, requests and messages in the terms of the server: a game is
//! unrated or not, and a seek names a color or any.

use vstd::prelude::*;

use crate::data_types;
use crate::data_types::{
    from_channel, item_or_closed, ActiveGameData, ConnectionClosed, UnsupportedParameters,
};
use crate::errors::ParseError;
use crate::hashing::{fed, hash_number};
use crate::moves::{Move, MoveView};
use crate::numbers::{decimal, write_u32};
use crate::text::same_text;
use crate::time::Duration;
use crate::wire::{
    line_value, name_view, play_text, read_line, seek_text, write_play, write_seek, Rating,
    ServerLine, ServerLineView, Terms,
};

verus! {

/// The color that a seek asks for.
#[derive(Debug, Clone, Copy, PartialEq, Eq, Structural)]
pub enum Color {
    Any,
    White,
    Black,
}

impl Color {
    /// The color as a line gives it.
    pub open spec fn spec_choice(self) -> Option<data_types::Color> {
        match self {
            Color::Any => None,
            Color::White => Some(data_types::Color::White),
            Color::Black => Some(data_types::Color::Black),
        }
    }

    /// The color that a line gives.
    pub open spec fn spec_from_choice(choice: Option<data_types::Color>) -> Color {
        match choice {
            None => Color::Any,
            Some(data_types::Color::White) => Color::White,
            Some(data_types::Color::Black) => Color::Black,
        }
    }

    /// The color as a line gives it.
    pub fn choice(&self) -> (r: Option<data_types::Color>)
        ensures
            r == self.spec_choice(),
    {
        match self {
            Color::Any => None,
            Color::White => Some(data_types::Color::White),
            Color::Black => Some(data_types::Color::Black),
        }
    }

    /// The color that a line gives.
    pub fn from_choice(choice: Option<data_types::Color>) -> (r: Color)
        ensures
            r == Self::spec_from_choice(choice),
    {
        match choice {
            None => Color::Any,
            Some(data_types::Color::White) => Color::White,
            Some(data_types::Color::Black) => Color::Black,
        }
    }
}

/// The parameters of a game.
#[derive(Debug, Clone, Copy, PartialEq, Eq, Structural)]
pub struct GameParameters {
    pub size: u32,
    pub initial_time: Duration,
    pub increment: Duration,
    pub half_komi: i32,
    pub flat_count: u32,
    pub cap_count: u32,
    pub unrated: bool,
    pub tournament: bool,
}

impl GameParameters {
    /// Whether the server offers games with these parameters: on boards of
    /// three to eight squares a side, with times in whole seconds and a komi
    /// of nothing to four flats.
    pub open spec fn supported(self) -> bool {
        &&& 3 <= self.size <= 8
        &&& self.initial_time.nanos == 0
        &&& self.increment.nanos == 0
        &&& 0 <= self.half_komi <= 8
    }

    /// The parameters of a game that the server offers.
    pub fn new(
        size: u32,
        initial_time: Duration,
        increment: Duration,
        half_komi: i32,
        flat_count: u32,
        cap_count: u32,
        unrated: bool,
        tournament: bool,
    ) -> (r: Result<Self, UnsupportedParameters>)
        ensures
            ({
                let params = GameParameters {
                    size,
                    initial_time,
                    increment,
                    half_komi,
                    flat_count,
                    cap_count,
                    unrated,
                    tournament,
                };
                r == if params.supported() {
                    Ok::<GameParameters, UnsupportedParameters>(params)
                } else {
                    Err(UnsupportedParameters)
                }
            }),
    {
        if size > 8 || size < 3 || initial_time.subsec_nanos() != 0 || increment.subsec_nanos()
            != 0 || half_komi > 8 || half_komi < 0 {
            Err(UnsupportedParameters)
        } else {
            Ok(
                GameParameters {
                    size,
                    initial_time,
                    increment,
                    half_komi,
                    flat_count,
                    cap_count,
                    unrated,
                    tournament,
                },
            )
        }
    }

    /// The parameters as a line gives them.
    pub open spec fn spec_terms(self) -> Terms {
        Terms {
            size: self.size,
            initial_time: self.initial_time,
            increment: self.increment,
            half_komi: self.half_komi,
            flat_count: self.flat_count,
            cap_count: self.cap_count,
            rating: if self.unrated {
                Rating::Unrated
            } else {
                Rating::Rated
            },
            tournament: self.tournament,
        }
    }

    /// The parameters that a line gives. Only a game that is called unrated is unrated.
    pub open spec fn spec_from_terms(terms: Terms) -> GameParameters {
        GameParameters {
            size: terms.size,
            initial_time: terms.initial_time,
            increment: terms.increment,
            half_komi: terms.half_komi,
            flat_count: terms.flat_count,
            cap_count: terms.cap_count,
            unrated: terms.rating == Rating::Unrated,
            tournament: terms.tournament,
        }
    }

    /// The parameters as a line gives them.
    pub fn terms(&self) -> (r: Terms)
        ensures
            r == self.spec_terms(),
    {
        Terms {
            size: self.size,
            initial_time: self.initial_time,
            increment: self.increment,
            half_komi: self.half_komi,
            flat_count: self.flat_count,
            cap_count: self.cap_count,
            rating: if self.unrated {
                Rating::Unrated
            } else {
                Rating::Rated
            },
            tournament: self.tournament,
        }
    }

    /// The parameters that a line gives.
    pub fn from_terms(terms: Terms) -> (r: GameParameters)
        ensures
            r == Self::spec_from_terms(terms),
    {
        GameParameters {
            size: terms.size,
            initial_time: terms.initial_time,
            increment: terms.increment,
            half_komi: terms.half_komi,
            flat_count: terms.flat_count,
            cap_count: terms.cap_count,
            unrated: terms.rating == Rating::Unrated,
            tournament: terms.tournament,
        }
    }
}

/// What a seek asks for.
#[derive(Debug)]
pub struct SeekParameters {
    pub opponent: Option<String>,
    pub color: Color,
    pub params: GameParameters,
}

/// What a seek asks for.
pub struct SeekParametersView {
    pub opponent: Option<Seq<char>>,
    pub color: Color,
    pub params: GameParameters,
}

impl View for SeekParameters {
    type V = SeekParametersView;

    open spec fn view(&self) -> SeekParametersView {
        SeekParametersView {
            opponent: name_view(self.opponent),
            color: self.color,
            params: self.params,
        }
    }
}

impl SeekParameters {
    /// A seek for a game with these parameters. No seek is refused.
    pub fn new(opponent: Option<String>, color: Color, params: GameParameters) -> (r: Result<
        Self,
        UnsupportedParameters,
    >)
        ensures
            r is Ok,
            r->Ok_0.opponent == opponent,
            r->Ok_0.color == color,
            r->Ok_0.params == params,
    {
        Ok(SeekParameters { opponent, color, params })
    }
}

/// An open seek.
#[derive(Debug)]
pub struct Seek {
    pub id: u32,
    pub seeker: String,
    pub params: SeekParameters,
}

/// An open seek.
pub struct SeekView {
    pub id: u32,
    pub seeker: Seq<char>,
    pub params: SeekParametersView,
}

impl View for Seek {
    type V = SeekView;

    open spec fn view(&self) -> SeekView {
        SeekView { id: self.id, seeker: self.seeker@, params: self.params@ }
    }
}

impl PartialEq for Seek {
    fn eq(&self, other: &Self) -> (r: bool) {
        self.id == other.id
    }
}

impl vstd::std_specs::cmp::PartialEqSpecImpl for Seek {
    open spec fn obeys_eq_spec() -> bool {
        true
    }

    open spec fn eq_spec(&self, other: &Self) -> bool {
        self.id == other.id
    }
}

impl Eq for Seek {

}

impl std::hash::Hash for Seek {
    fn hash<H: std::hash::Hasher>(&self, state: &mut H)
        ensures
            exists|given: &mut H|
                *given == *old(state) && *final(given) == *final(state) && #[trigger] fed(
                    self.id,
                    given,
                ),
    {
        hash_number(self.id, state)
    }
}

impl std::borrow::Borrow<u32> for Seek {
    fn borrow(&self) -> &u32
        returns
            &self.id,
    {
        &self.id
    }
}

/// A game on the server's list.
#[derive(Debug)]
pub struct Game {
    pub id: u32,
    pub white: String,
    pub black: String,
    pub params: GameParameters,
}

/// A game on the server's list.
pub struct GameView {
    pub id: u32,
    pub white: Seq<char>,
    pub black: Seq<char>,
    pub params: GameParameters,
}

impl View for Game {
    type V = GameView;

    open spec fn view(&self) -> GameView {
        GameView { id: self.id, white: self.white@, black: self.black@, params: self.params }
    }
}

impl PartialEq for Game {
    fn eq(&self, other: &Self) -> (r: bool) {
        self.id == other.id
    }
}

impl vstd::std_specs::cmp::PartialEqSpecImpl for Game {
    open spec fn obeys_eq_spec() -> bool {
        true
    }

    open spec fn eq_spec(&self, other: &Self) -> bool {
        self.id == other.id
    }
}

impl Eq for Game {

}

impl std::hash::Hash for Game {
    fn hash<H: std::hash::Hasher>(&self, state: &mut H)
        ensures
            exists|given: &mut H|
                *given == *old(state) && *final(given) == *final(state) && #[trigger] fed(
                    self.id,
                    given,
                ),
    {
        hash_number(self.id, state)
    }
}

impl std::borrow::Borrow<u32> for Game {
    fn borrow(&self) -> &u32
        returns
            &self.id,
    {
        &self.id
    }
}

/// How a game ended.
#[derive(Debug, Clone, Copy, PartialEq, Eq, Structural)]
pub struct GameResult(pub GameResultInner);

/// Who won a game, and by what.
#[derive(Debug, Clone, Copy, PartialEq, Eq, Structural)]
pub enum GameResultInner {
    RoadWhite,
    RoadBlack,
    FlatWhite,
    FlatBlack,
    OtherWhite,
    OtherBlack,
    /// One of the players won, but it is not said which.
    OtherDecisive,
    Draw,
}

/// The result that `s` writes.
pub open spec fn result_value(s: Seq<char>) -> Result<GameResult, ParseError> {
    if s == "R-0"@ {
        Ok(GameResult(GameResultInner::RoadWhite))
    } else if s == "0-R"@ {
        Ok(GameResult(GameResultInner::RoadBlack))
    } else if s == "F-0"@ {
        Ok(GameResult(GameResultInner::FlatWhite))
    } else if s == "0-F"@ {
        Ok(GameResult(GameResultInner::FlatBlack))
    } else if s == "1-0"@ {
        Ok(GameResult(GameResultInner::OtherWhite))
    } else if s == "0-1"@ {
        Ok(GameResult(GameResultInner::OtherBlack))
    } else if s == "1/2-1/2"@ {
        Ok(GameResult(GameResultInner::Draw))
    } else {
        Err(ParseError::MalformedResult)
    }
}

impl GameResult {
    /// Reads a result.
    pub fn from_str(s: &str) -> (r: Result<Self, ParseError>)
        ensures
            r == result_value(s@),
    {
        if same_text(s, "R-0") {
            Ok(GameResult(GameResultInner::RoadWhite))
        } else if same_text(s, "0-R") {
            Ok(GameResult(GameResultInner::RoadBlack))
        } else if same_text(s, "F-0") {
            Ok(GameResult(GameResultInner::FlatWhite))
        } else if same_text(s, "0-F") {
            Ok(GameResult(GameResultInner::FlatBlack))
        } else if same_text(s, "1-0") {
            Ok(GameResult(GameResultInner::OtherWhite))
        } else if same_text(s, "0-1") {
            Ok(GameResult(GameResultInner::OtherBlack))
        } else if same_text(s, "1/2-1/2") {
            Ok(GameResult(GameResultInner::Draw))
        } else {
            Err(ParseError::MalformedResult)
        }
    }
}

impl std::str::FromStr for GameResult {
    type Err = ParseError;

    fn from_str(s: &str) -> (r: Result<Self, ParseError>)
        ensures
            r == result_value(s@),
    {
        GameResult::from_str(s)
    }
}

/// What happens in a game that is being played.
#[non_exhaustive]
#[derive(Debug)]
pub enum GameUpdate {
    Played(Move),
    Ended(GameResult),
}

/// What happens in a game that is being played.
pub enum GameUpdateView {
    Played(MoveView),
    Ended(GameResult),
}

impl View for GameUpdate {
    type V = GameUpdateView;

    open spec fn view(&self) -> GameUpdateView {
        match *self {
            GameUpdate::Played(m) => GameUpdateView::Played(m@),
            GameUpdate::Ended(result) => GameUpdateView::Ended(result),
        }
    }
}

/// A game that the user is playing.
#[derive(Debug)]
pub struct ActiveGame {
    pub data: ActiveGameData,
    pub id: u32,
}

impl ActiveGame {
    /// What `update` gives for what came through the game's channel.
    pub fn update(received: Option<GameUpdate>) -> (r: Result<GameUpdate, ConnectionClosed>)
        ensures
            r == item_or_closed(received),
    {
        from_channel(received)
    }

    /// The request to play `m` in this game.
    pub fn play(&self, m: Move) -> (r: Request)
        ensures
            r == Request::Play(self.id, m),
    {
        Request::Play(self.id, m)
    }
}

/// What can be asked of the server.
#[derive(Debug)]
pub enum Request {
    /// The name of the client.
    Client(String),
    /// The version of the protocol.
    Protocol(u32),
    /// A user name and a password.
    Login(String, String),
    Ping,
    Seek(SeekParameters),
    /// A move in the game with this number.
    Play(u32, Move),
}

/// What can be asked of the server.
pub enum RequestView {
    Client(Seq<char>),
    Protocol(u32),
    Login(Seq<char>, Seq<char>),
    Ping,
    Seek(SeekParametersView),
    Play(u32, MoveView),
}

impl View for Request {
    type V = RequestView;

    open spec fn view(&self) -> RequestView {
        match *self {
            Request::Client(name) => RequestView::Client(name@),
            Request::Protocol(version) => RequestView::Protocol(version),
            Request::Login(name, secret) => RequestView::Login(name@, secret@),
            Request::Ping => RequestView::Ping,
            Request::Seek(seek) => RequestView::Seek(seek@),
            Request::Play(id, m) => RequestView::Play(id, m@),
        }
    }
}

impl RequestView {
    /// Whether the request can be written: a move must stay on the board.
    pub open spec fn sendable(self) -> bool {
        self matches RequestView::Play(_, m) ==> m.playable()
    }

    /// The line that asks for it.
    pub open spec fn text(self) -> Seq<char> {
        match self {
            RequestView::Client(name) => "Client "@ + name,
            RequestView::Protocol(version) => "Protocol "@ + decimal(version as nat),
            RequestView::Login(name, secret) => "Login "@ + name + " "@ + secret,
            RequestView::Ping => "PING"@,
            RequestView::Seek(seek) => seek_text(
                seek.color.spec_choice(),
                seek.params.spec_terms(),
                seek.opponent,
            ),
            RequestView::Play(id, m) => play_text(id, m),
        }
    }
}

/// A request that was sent, and what its answer is to be handed to.
#[derive(Debug)]
pub struct SentRequest<T>(pub Request, pub T);

impl Request {
    /// Pairs the request with what its answer is to be handed to.
    pub fn send<T>(self, reply: T) -> (r: SentRequest<T>)
        ensures
            r.0 == self,
            r.1 == reply,
    {
        SentRequest(self, reply)
    }

    /// Whether the request can be written.
    pub fn is_sendable(&self) -> (r: bool)
        ensures
            r == self@.sendable(),
    {
        match self {
            Request::Play(_, m) => m.is_playable(),
            _ => true,
        }
    }

    /// The line that asks for it.
    pub fn to_string(&self) -> (r: String)
        requires
            self@.sendable(),
        ensures
            r@ == self@.text(),
    {
        let mut out = String::new();
        match self {
            Request::Client(name) => {
                out.append("Client ");
                out.append(name.as_str());
            },
            Request::Protocol(version) => {
                out.append("Protocol ");
                write_u32(&mut out, *version);
            },
            Request::Login(name, secret) => {
                out.append("Login ");
                out.append(name.as_str());
                out.append(" ");
                out.append(secret.as_str());
            },
            Request::Ping => {
                out.append("PING");
            },
            Request::Seek(seek) => {
                let terms = seek.params.terms();
                write_seek(&mut out, seek.color.choice(), &terms, &seek.opponent);
            },
            Request::Play(id, m) => {
                write_play(&mut out, *id, m);
            },
        }
        assert(out@ =~= self@.text());
        out
    }
}

/// What the server says.
#[derive(Debug, PartialEq, Eq)]
pub enum Message {
    Okay,
    NotOk,
    LoggedIn(String),
    AddSeek(Seek),
    RemoveSeek(u32),
    AddGame(Game),
    RemoveGame(u32),
    StartGame(u32),
    /// White's and Black's remaining time in the game with this number.
    SyncClocks(u32, Duration, Duration),
    Play(u32, Move),
    GameOver(u32, GameResult),
    Online(u32),
    Message(String),
    Error(String),
    /// The whole line.
    Unknown(String),
}

/// What the server says.
pub enum MessageView {
    Okay,
    NotOk,
    LoggedIn(Seq<char>),
    AddSeek(SeekView),
    RemoveSeek(u32),
    AddGame(GameView),
    RemoveGame(u32),
    StartGame(u32),
    SyncClocks(u32, Duration, Duration),
    Play(u32, MoveView),
    GameOver(u32, GameResult),
    Online(u32),
    Message(Seq<char>),
    Error(Seq<char>),
    Unknown(Seq<char>),
}

impl View for Message {
    type V = MessageView;

    open spec fn view(&self) -> MessageView {
        match *self {
            Message::Okay => MessageView::Okay,
            Message::NotOk => MessageView::NotOk,
            Message::LoggedIn(name) => MessageView::LoggedIn(name@),
            Message::AddSeek(seek) => MessageView::AddSeek(seek@),
            Message::RemoveSeek(id) => MessageView::RemoveSeek(id),
            Message::AddGame(game) => MessageView::AddGame(game@),
            Message::RemoveGame(id) => MessageView::RemoveGame(id),
            Message::StartGame(id) => MessageView::StartGame(id),
            Message::SyncClocks(id, white, black) => MessageView::SyncClocks(id, white, black),
            Message::Play(id, m) => MessageView::Play(id, m@),
            Message::GameOver(id, result) => MessageView::GameOver(id, result),
            Message::Online(count) => MessageView::Online(count),
            Message::Message(text) => MessageView::Message(text@),
            Message::Error(text) => MessageView::Error(text@),
            Message::Unknown(text) => MessageView::Unknown(text@),
        }
    }
}

/// What the line `s`, which says `line`, says in the server's terms. A game that
/// is abandoned has a winner.
pub open spec fn message_of(line: ServerLineView, s: Seq<char>) -> Result<MessageView, ParseError> {
    match line {
        ServerLineView::Okay => Ok(MessageView::Okay),
        ServerLineView::NotOk => Ok(MessageView::NotOk),
        ServerLineView::LoggedIn(name) => Ok(MessageView::LoggedIn(name)),
        ServerLineView::AddSeek { id, owner, color, terms, opponent } => Ok(
            MessageView::AddSeek(
                SeekView {
                    id,
                    seeker: owner,
                    params: SeekParametersView {
                        opponent,
                        color: Color::spec_from_choice(color),
                        params: GameParameters::spec_from_terms(terms),
                    },
                },
            ),
        ),
        ServerLineView::RemoveSeek(id) => Ok(MessageView::RemoveSeek(id)),
        ServerLineView::AddGame { id, white, black, terms } => Ok(
            MessageView::AddGame(
                GameView { id, white, black, params: GameParameters::spec_from_terms(terms) },
            ),
        ),
        ServerLineView::RemoveGame(id) => Ok(MessageView::RemoveGame(id)),
        ServerLineView::StartGame(id) => Ok(MessageView::StartGame(id)),
        ServerLineView::SyncClocks(id, white, black) => Ok(
            MessageView::SyncClocks(id, white, black),
        ),
        ServerLineView::Play(id, m) => Ok(MessageView::Play(id, m)),
        ServerLineView::Over(id, result) => match result_value(result) {
            Err(e) => Err(e),
            Ok(result) => Ok(MessageView::GameOver(id, result)),
        },
        ServerLineView::Online(count) => Ok(MessageView::Online(count)),
        ServerLineView::Message(text) => Ok(MessageView::Message(text)),
        ServerLineView::Error(text) => Ok(MessageView::Error(text)),
        ServerLineView::Abandoned(id) => Ok(
            MessageView::GameOver(id, GameResult(GameResultInner::OtherDecisive)),
        ),
        ServerLineView::Unknown => Ok(MessageView::Unknown(s)),
    }
}

/// What the line `s` says.
pub open spec fn message_value(s: Seq<char>) -> Result<MessageView, ParseError> {
    match line_value(s) {
        Err(e) => Err(e),
        Ok(line) => message_of(line, s),
    }
}

/// The model of a message that was read, or why none was.
pub open spec fn read_view(r: Result<Message, ParseError>) -> Result<MessageView, ParseError> {
    match r {
        Ok(message) => Ok(message@),
        Err(e) => Err(e),
    }
}

impl Message {
    /// Reads a line of the server.
    pub fn from_str(s: &str) -> (r: Result<Self, ParseError>)
        ensures
            read_view(r) == message_value(s@),
            r matches Ok(Message::Play(_, m)) ==> m@.valid(),
    {
        let message = match read_line(s)? {
            ServerLine::Okay => Message::Okay,
            ServerLine::NotOk => Message::NotOk,
            ServerLine::LoggedIn(name) => Message::LoggedIn(name),
            ServerLine::AddSeek { id, owner, color, terms, opponent } => Message::AddSeek(
                Seek {
                    id,
                    seeker: owner,
                    params: SeekParameters {
                        opponent,
                        color: Color::from_choice(color),
                        params: GameParameters::from_terms(terms),
                    },
                },
            ),
            ServerLine::RemoveSeek(id) => Message::RemoveSeek(id),
            ServerLine::AddGame { id, white, black, terms } => Message::AddGame(
                Game { id, white, black, params: GameParameters::from_terms(terms) },
            ),
            ServerLine::RemoveGame(id) => Message::RemoveGame(id),
            ServerLine::StartGame(id) => Message::StartGame(id),
            ServerLine::SyncClocks(id, white, black) => Message::SyncClocks(id, white, black),
            ServerLine::Play(id, m) => Message::Play(id, m),
            ServerLine::Over(id, result) => Message::GameOver(
                id,
                GameResult::from_str(result.as_str())?,
            ),
            ServerLine::Online(count) => Message::Online(count),
            ServerLine::Message(text) => Message::Message(text),
            ServerLine::Error(text) => Message::Error(text),
            ServerLine::Abandoned(id) => Message::GameOver(
                id,
                GameResult(GameResultInner::OtherDecisive),
            ),
            ServerLine::Unknown => Message::Unknown(s.to_owned()),
        };
        Ok(message)
    }
}

impl std::str::FromStr for Message {
    type Err = ParseError;

    fn from_str(s: &str) -> (r: Result<Self, ParseError>)
        ensures
            read_view(r) == message_value(s@),
            r matches Ok(Message::Play(_, m)) ==> m@.valid(),
    {
        Message::from_str(s)
    }
}

} // verus!
