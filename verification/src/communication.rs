//! What is said to the server and what it says, in a player's terms.

use vstd::prelude::*;

use crate::data_types::{
    result_value, Game, GameParameters, GameResult, GameView, Seek, SeekParameters,
    SeekParametersView, SeekView,
};
use crate::errors::ParseError;
use crate::moves::{Move, MoveView};
use crate::numbers::{decimal, write_u32};
use crate::time::Duration;
use crate::wire::{
    line_value, play_text, read_line, seek_text, write_play, write_seek, ServerLine,
    ServerLineView,
};

verus! {

/// What can be asked of the server.
#[derive(Debug)]
pub enum Request {
    /// The name of the client.
    Client(String),
    /// The version of the protocol.
    Protocol(u32),
    /// A user name and a password.
    Login(String, String),
    Ping,
    Seek(SeekParameters),
    /// A move in the game with this number.
    Play(u32, Move),
}

/// What can be asked of the server.
pub enum RequestView {
    Client(Seq<char>),
    Protocol(u32),
    Login(Seq<char>, Seq<char>),
    Ping,
    Seek(SeekParametersView),
    Play(u32, MoveView),
}

impl View for Request {
    type V = RequestView;

    open spec fn view(&self) -> RequestView {
        match *self {
            Request::Client(name) => RequestView::Client(name@),
            Request::Protocol(version) => RequestView::Protocol(version),
            Request::Login(name, secret) => RequestView::Login(name@, secret@),
            Request::Ping => RequestView::Ping,
            Request::Seek(seek) => RequestView::Seek(seek@),
            Request::Play(id, m) => RequestView::Play(id, m@),
        }
    }
}

impl RequestView {
    /// Whether the request can be written: a move must stay on the board.
    pub open spec fn sendable(self) -> bool {
        self matches RequestView::Play(_, m) ==> m.playable()
    }

    /// The line that asks for it.
    pub open spec fn text(self) -> Seq<char> {
        match self {
            RequestView::Client(name) => "Client "@ + name,
            RequestView::Protocol(version) => "Protocol "@ + decimal(version as nat),
            RequestView::Login(name, secret) => "Login "@ + name + " "@ + secret,
            RequestView::Ping => "PING"@,
            RequestView::Seek(seek) => seek_text(
                seek.color,
                seek.params.spec_terms(),
                seek.opponent,
            ),
            RequestView::Play(id, m) => play_text(id, m),
        }
    }
}

/// A request that was sent, and what its answer is to be handed to.
#[derive(Debug)]
pub struct SentRequest<T>(pub Request, pub T);

impl Request {
    /// Pairs the request with what its answer is to be handed to.
    pub fn send<T>(self, reply: T) -> (r: SentRequest<T>)
        ensures
            r.0 == self,
            r.1 == reply,
    {
        SentRequest(self, reply)
    }

    /// Whether the request can be written.
    pub fn is_sendable(&self) -> (r: bool)
        ensures
            r == self@.sendable(),
    {
        match self {
            Request::Play(_, m) => m.is_playable(),
            _ => true,
        }
    }

    /// The line that asks for it.
    pub fn to_string(&self) -> (r: String)
        requires
            self@.sendable(),
        ensures
            r@ == self@.text(),
    {
        let mut out = String::new();
        match self {
            Request::Client(name) => {
                out.append("Client ");
                out.append(name.as_str());
            },
            Request::Protocol(version) => {
                out.append("Protocol ");
                write_u32(&mut out, *version);
            },
            Request::Login(name, secret) => {
                out.append("Login ");
                out.append(name.as_str());
                out.append(" ");
                out.append(secret.as_str());
            },
            Request::Ping => {
                out.append("PING");
            },
            Request::Seek(seek) => {
                let terms = seek.params.terms();
                write_seek(&mut out, seek.color, &terms, &seek.opponent);
            },
            Request::Play(id, m) => {
                write_play(&mut out, *id, m);
            },
        }
        assert(out@ =~= self@.text());
        out
    }
}

/// What the server says.
#[derive(Debug, PartialEq, Eq)]
pub enum Message {
    Okay,
    NotOk,
    LoggedIn(String),
    AddSeek(Seek),
    RemoveSeek(u32),
    AddGame(Game),
    RemoveGame(u32),
    StartGame(u32),
    /// White's and Black's remaining time in the game with this number.
    SyncClocks(u32, Duration, Duration),
    Play(u32, Move),
    GameOver(u32, GameResult),
    Online(u32),
    Message(String),
    Error(String),
    /// The whole line.
    Unknown(String),
}

/// What the server says.
pub enum MessageView {
    Okay,
    NotOk,
    LoggedIn(Seq<char>),
    AddSeek(SeekView),
    RemoveSeek(u32),
    AddGame(GameView),
    RemoveGame(u32),
    StartGame(u32),
    SyncClocks(u32, Duration, Duration),
    Play(u32, MoveView),
    GameOver(u32, GameResult),
    Online(u32),
    Message(Seq<char>),
    Error(Seq<char>),
    Unknown(Seq<char>),
}

impl View for Message {
    type V = MessageView;

    open spec fn view(&self) -> MessageView {
        match *self {
            Message::Okay => MessageView::Okay,
            Message::NotOk => MessageView::NotOk,
            Message::LoggedIn(name) => MessageView::LoggedIn(name@),
            Message::AddSeek(seek) => MessageView::AddSeek(seek@),
            Message::RemoveSeek(id) => MessageView::RemoveSeek(id),
            Message::AddGame(game) => MessageView::AddGame(game@),
            Message::RemoveGame(id) => MessageView::RemoveGame(id),
            Message::StartGame(id) => MessageView::StartGame(id),
            Message::SyncClocks(id, white, black) => MessageView::SyncClocks(id, white, black),
            Message::Play(id, m) => MessageView::Play(id, m@),
            Message::GameOver(id, result) => MessageView::GameOver(id, result),
            Message::Online(count) => MessageView::Online(count),
            Message::Message(text) => MessageView::Message(text@),
            Message::Error(text) => MessageView::Error(text@),
            Message::Unknown(text) => MessageView::Unknown(text@),
        }
    }
}

/// What the line `s`, which says `line`, says in a player's terms. A game that
/// is abandoned is not reported.
pub open spec fn message_of(line: ServerLineView, s: Seq<char>) -> Result<MessageView, ParseError> {
    match line {
        ServerLineView::Okay => Ok(MessageView::Okay),
        ServerLineView::NotOk => Ok(MessageView::NotOk),
        ServerLineView::LoggedIn(name) => Ok(MessageView::LoggedIn(name)),
        ServerLineView::AddSeek { id, owner, color, terms, opponent } => Ok(
            MessageView::AddSeek(
                SeekView {
                    id,
                    owner,
                    params: SeekParametersView {
                        opponent,
                        color,
                        params: GameParameters::spec_from_terms(terms),
                    },
                },
            ),
        ),
        ServerLineView::RemoveSeek(id) => Ok(MessageView::RemoveSeek(id)),
        ServerLineView::AddGame { id, white, black, terms } => Ok(
            MessageView::AddGame(
                GameView { id, white, black, params: GameParameters::spec_from_terms(terms) },
            ),
        ),
        ServerLineView::RemoveGame(id) => Ok(MessageView::RemoveGame(id)),
        ServerLineView::StartGame(id) => Ok(MessageView::StartGame(id)),
        ServerLineView::SyncClocks(id, white, black) => Ok(
            MessageView::SyncClocks(id, white, black),
        ),
        ServerLineView::Play(id, m) => Ok(MessageView::Play(id, m)),
        ServerLineView::Over(id, result) => match result_value(result) {
            Err(e) => Err(e),
            Ok(result) => Ok(MessageView::GameOver(id, result)),
        },
        ServerLineView::Online(count) => Ok(MessageView::Online(count)),
        ServerLineView::Message(text) => Ok(MessageView::Message(text)),
        ServerLineView::Error(text) => Ok(MessageView::Error(text)),
        ServerLineView::Abandoned(_) | ServerLineView::Unknown => Ok(MessageView::Unknown(s)),
    }
}

/// What the line `s` says.
pub open spec fn message_value(s: Seq<char>) -> Result<MessageView, ParseError> {
    match line_value(s) {
        Err(e) => Err(e),
        Ok(line) => message_of(line, s),
    }
}

/// The model of a message that was read, or why none was.
pub open spec fn read_view(r: Result<Message, ParseError>) -> Result<MessageView, ParseError> {
    match r {
        Ok(message) => Ok(message@),
        Err(e) => Err(e),
    }
}

impl Message {
    /// Reads a line of the server.
    pub fn from_str(s: &str) -> (r: Result<Self, ParseError>)
        ensures
            read_view(r) == message_value(s@),
            r matches Ok(Message::Play(_, m)) ==> m@.valid(),
    {
        let message = match read_line(s)? {
            ServerLine::Okay => Message::Okay,
            ServerLine::NotOk => Message::NotOk,
            ServerLine::LoggedIn(name) => Message::LoggedIn(name),
            ServerLine::AddSeek { id, owner, color, terms, opponent } => Message::AddSeek(
                Seek {
                    id,
                    owner,
                    params: SeekParameters {
                        opponent,
                        color,
                        params: GameParameters::from_terms(terms),
                    },
                },
            ),
            ServerLine::RemoveSeek(id) => Message::RemoveSeek(id),
            ServerLine::AddGame { id, white, black, terms } => Message::AddGame(
                Game { id, white, black, params: GameParameters::from_terms(terms) },
            ),
            ServerLine::RemoveGame(id) => Message::RemoveGame(id),
            ServerLine::StartGame(id) => Message::StartGame(id),
            ServerLine::SyncClocks(id, white, black) => Message::SyncClocks(id, white, black),
            ServerLine::Play(id, m) => Message::Play(id, m),
            ServerLine::Over(id, result) => Message::GameOver(
                id,
                GameResult::from_str(result.as_str())?,
            ),
            ServerLine::Online(count) => Message::Online(count),
            ServerLine::Message(text) => Message::Message(text),
            ServerLine::Error(text) => Message::Error(text),
            ServerLine::Abandoned(_) | ServerLine::Unknown => Message::Unknown(s.to_owned()),
        };
        Ok(message)
    }
}

impl std::str::FromStr for Message {
    type Err = ParseError;

    fn from_str(s: &str) -> (r: Result<Self, ParseError>)
        ensures
            read_view(r) == message_value(s@),
            r matches Ok(Message::Play(_, m)) ==> m@.valid(),
    {
        Message::from_str(s)
    }
}

} // verus!
