//! The state of a connection: which requests await their answer, who is
//! logged in, which seeks and games the server lists, and which games the user
//! is playing; and what each message does to it.

use std::collections::{HashMap, VecDeque};
use std::time::Instant;

use vstd::prelude::*;

use crate::client::{
    message_value, Game, GameUpdate, GameUpdateView, GameView, Message, MessageView, RequestView,
    Seek, SeekView, SentRequest,
};
use crate::data_types::ActiveGameData;
use crate::errors::ParseError;
use crate::text::{same_text, without_last};
use crate::time::Duration;
use crate::wire::name_view;

verus! {

/// The server refused a request.
#[derive(Debug, Clone, Copy, PartialEq, Eq, Structural)]
pub struct Rejected;

impl Rejected {
    /// What the error says in words.
    pub fn message(self) -> (r: &'static str)
        ensures
            r@ == "Rejected"@,
    {
        "Rejected"
    }
}

/// The state of a connection. A request that was sent is kept with a `T`, to
/// which its answer is to be handed.
pub struct Session<T> {
    username: Option<String>,
    seeks: HashMap<u32, Seek>,
    games: HashMap<u32, Game>,
    active_games: HashMap<u32, ActiveGameData>,
    queue: VecDeque<SentRequest<T>>,
}

/// The state of a connection.
pub struct SessionView<T> {
    /// Who is logged in.
    pub username: Option<Seq<char>>,
    /// The open seeks, by their numbers.
    pub seeks: Map<u32, SeekView>,
    /// The games on the server's list, by their numbers.
    pub games: Map<u32, GameView>,
    /// The user's own games, by their numbers.
    pub active_games: Map<u32, ActiveGameData>,
    /// The requests that await their answer, oldest first.
    pub queue: Seq<(RequestView, T)>,
}

/// A request that was sent, and what its answer is to be handed to.
pub open spec fn sent_view<T>(sent: SentRequest<T>) -> (RequestView, T) {
    (sent.0@, sent.1)
}

impl<T> View for Session<T> {
    type V = SessionView<T>;

    closed spec fn view(&self) -> SessionView<T> {
        SessionView {
            username: name_view(self.username),
            seeks: self.seeks@.map_values(|seek: Seek| seek@),
            games: self.games@.map_values(|game: Game| game@),
            active_games: self.active_games@,
            queue: self.queue@.map_values(|sent: SentRequest<T>| sent_view(sent)),
        }
    }
}

/// What a message did, beyond answering a request.
#[derive(Debug)]
pub enum Outcome {
    /// The message was an answer and nothing more.
    Answered,
    /// The message was an answer, but no request awaited one.
    Discarded,
    SeekAdded,
    /// A seek with that number is open already; it stays as it was.
    SeekCollision,
    SeekRemoved,
    /// No seek with that number was open.
    SeekMissing,
    GameAdded,
    /// A game with that number is listed already; it stays as it was.
    GameCollision,
    GameRemoved,
    /// No game with that number was listed.
    GameMissing,
    /// The user's game with this number starts, with these clocks.
    Started(u32, ActiveGameData),
    /// The clocks of the user's game with this number are set.
    Synced(u32, ActiveGameData),
    /// Something happens in the user's game with this number.
    Updated(u32, GameUpdate),
    /// The message does nothing.
    Ignored(Message),
}

/// What a message did, beyond answering a request.
pub enum OutcomeView {
    Answered,
    Discarded,
    SeekAdded,
    SeekCollision,
    SeekRemoved,
    SeekMissing,
    GameAdded,
    GameCollision,
    GameRemoved,
    GameMissing,
    Started(u32, ActiveGameData),
    Synced(u32, ActiveGameData),
    Updated(u32, GameUpdateView),
    Ignored(MessageView),
}

impl View for Outcome {
    type V = OutcomeView;

    open spec fn view(&self) -> OutcomeView {
        match *self {
            Outcome::Answered => OutcomeView::Answered,
            Outcome::Discarded => OutcomeView::Discarded,
            Outcome::SeekAdded => OutcomeView::SeekAdded,
            Outcome::SeekCollision => OutcomeView::SeekCollision,
            Outcome::SeekRemoved => OutcomeView::SeekRemoved,
            Outcome::SeekMissing => OutcomeView::SeekMissing,
            Outcome::GameAdded => OutcomeView::GameAdded,
            Outcome::GameCollision => OutcomeView::GameCollision,
            Outcome::GameRemoved => OutcomeView::GameRemoved,
            Outcome::GameMissing => OutcomeView::GameMissing,
            Outcome::Started(id, data) => OutcomeView::Started(id, data),
            Outcome::Synced(id, data) => OutcomeView::Synced(id, data),
            Outcome::Updated(id, update) => OutcomeView::Updated(id, update@),
            Outcome::Ignored(message) => OutcomeView::Ignored(message@),
        }
    }
}

/// An answer, and the request that it answers.
pub type Answer<T> = (SentRequest<T>, Result<(), Rejected>);

/// The clocks with which a game starts.
pub open spec fn starting_clocks(game: GameView) -> ActiveGameData {
    ActiveGameData {
        white_remaining: game.params.initial_time,
        black_remaining: game.params.initial_time,
        last_sync: None,
    }
}

impl<T> SessionView<T> {
    /// The state right after the connection is made.
    pub open spec fn initial() -> SessionView<T> {
        SessionView {
            username: None,
            seeks: Map::empty(),
            games: Map::empty(),
            active_games: Map::empty(),
            queue: Seq::empty(),
        }
    }

    /// Whether the message makes sense in this state: a game that starts is
    /// listed, a game in which something happens was started, and it is known
    /// who is logged in when that decides whether a seek is an answer.
    pub open spec fn accepts(self, message: MessageView) -> bool {
        match message {
            MessageView::AddSeek(_) => self.queue.len() > 0 ==> self.username is Some,
            MessageView::StartGame(id) => self.games.contains_key(id),
            MessageView::SyncClocks(id, _, _) => self.active_games.contains_key(id),
            MessageView::Play(id, _) => self.active_games.contains_key(id),
            MessageView::GameOver(id, _) => self.active_games.contains_key(id),
            _ => true,
        }
    }

    /// What the message answers to the oldest request that awaits an answer,
    /// if it is an answer and there is such a request.
    pub open spec fn answer(self, message: MessageView) -> Option<Result<(), Rejected>> {
        if self.queue.len() == 0 {
            None
        } else {
            match message {
                MessageView::Okay | MessageView::LoggedIn(_) => Some(Ok(())),
                MessageView::NotOk => Some(Err(Rejected)),
                MessageView::AddSeek(seek) => if self.username == Some(seek.seeker) {
                    Some(Ok(()))
                } else {
                    None
                },
                _ => None,
            }
        }
    }

    /// The state after the message, taken for what it does beyond answering a
    /// request.
    pub open spec fn effect(self, message: MessageView, now: Instant) -> SessionView<T> {
        match message {
            MessageView::AddSeek(seek) => if self.seeks.contains_key(seek.id) {
                self
            } else {
                SessionView { seeks: self.seeks.insert(seek.id, seek), ..self }
            },
            MessageView::RemoveSeek(id) => SessionView { seeks: self.seeks.remove(id), ..self },
            MessageView::AddGame(game) => if self.games.contains_key(game.id) {
                self
            } else {
                SessionView { games: self.games.insert(game.id, game), ..self }
            },
            MessageView::RemoveGame(id) => SessionView { games: self.games.remove(id), ..self },
            MessageView::StartGame(id) => SessionView {
                active_games: self.active_games.insert(id, starting_clocks(self.games[id])),
                ..self
            },
            MessageView::SyncClocks(id, white_remaining, black_remaining) => SessionView {
                active_games: self.active_games.insert(
                    id,
                    ActiveGameData { white_remaining, black_remaining, last_sync: Some(now) },
                ),
                ..self
            },
            MessageView::GameOver(id, _) => SessionView {
                active_games: self.active_games.remove(id),
                ..self
            },
            _ => self,
        }
    }

    /// The state after the message.
    pub open spec fn next(self, message: MessageView, now: Instant) -> SessionView<T> {
        let answered = if self.answer(message) is Some {
            SessionView { queue: self.queue.drop_first(), ..self }
        } else {
            self
        };
        match message {
            MessageView::LoggedIn(name) if self.queue.len() > 0 => SessionView {
                username: Some(name),
                ..answered
            },
            _ => answered.effect(message, now),
        }
    }

    /// What the message does, beyond answering a request.
    pub open spec fn outcome(self, message: MessageView, now: Instant) -> OutcomeView {
        match message {
            MessageView::Okay | MessageView::NotOk | MessageView::LoggedIn(_) =>
                if self.queue.len() > 0 {
                OutcomeView::Answered
            } else {
                OutcomeView::Discarded
            },
            MessageView::AddSeek(seek) => if self.seeks.contains_key(seek.id) {
                OutcomeView::SeekCollision
            } else {
                OutcomeView::SeekAdded
            },
            MessageView::RemoveSeek(id) => if self.seeks.contains_key(id) {
                OutcomeView::SeekRemoved
            } else {
                OutcomeView::SeekMissing
            },
            MessageView::AddGame(game) => if self.games.contains_key(game.id) {
                OutcomeView::GameCollision
            } else {
                OutcomeView::GameAdded
            },
            MessageView::RemoveGame(id) => if self.games.contains_key(id) {
                OutcomeView::GameRemoved
            } else {
                OutcomeView::GameMissing
            },
            MessageView::StartGame(id) => OutcomeView::Started(
                id,
                starting_clocks(self.games[id]),
            ),
            MessageView::SyncClocks(id, white_remaining, black_remaining) => OutcomeView::Synced(
                id,
                ActiveGameData { white_remaining, black_remaining, last_sync: Some(now) },
            ),
            MessageView::Play(id, m) => OutcomeView::Updated(id, GameUpdateView::Played(m)),
            MessageView::GameOver(id, result) => OutcomeView::Updated(
                id,
                GameUpdateView::Ended(result),
            ),
            _ => OutcomeView::Ignored(message),
        }
    }
}

impl<T> Session<T> {
    /// The state right after the connection is made.
    pub fn new() -> (r: Self)
        ensures
            r@ == SessionView::<T>::initial(),
    {
        let r = Session {
            username: None,
            seeks: HashMap::new(),
            games: HashMap::new(),
            active_games: HashMap::new(),
            queue: VecDeque::new(),
        };
        assert(r@.seeks =~= Map::<u32, SeekView>::empty());
        assert(r@.games =~= Map::<u32, GameView>::empty());
        assert(r@.queue =~= Seq::<(RequestView, T)>::empty());
        r
    }

    /// How many requests await their answer.
    pub fn backlog(&self) -> (r: usize)
        ensures
            r == self@.queue.len(),
    {
        self.queue.len()
    }

    /// Notes that a request is sent, and gives the line to send.
    pub fn submit(&mut self, sent: SentRequest<T>) -> (r: String)
        requires
            sent.0@.sendable(),
        ensures
            r@ == sent.0@.text(),
            final(self)@ == (SessionView {
                queue: old(self)@.queue.push(sent_view(sent)),
                ..old(self)@
            }),
    {
        let text = sent.0.to_string();
        self.queue.push_back(sent);
        assert(self@.queue =~= old(self)@.queue.push(sent_view(sent)));
        text
    }

    /// Whether the message makes sense in this state.
    pub fn can_receive(&self, message: &Message) -> (r: bool)
        ensures
            r == self@.accepts(message@),
    {
        match message {
            Message::AddSeek(_) => self.queue.len() == 0 || self.username.is_some(),
            Message::StartGame(id) => self.games.contains_key(id),
            Message::SyncClocks(id, _, _) => self.active_games.contains_key(id),
            Message::Play(id, _) => self.active_games.contains_key(id),
            Message::GameOver(id, _) => self.active_games.contains_key(id),
            _ => true,
        }
    }

    /// What the message answers to the oldest request that awaits an answer.
    fn find_answer(&self, message: &Message) -> (r: Option<Result<(), Rejected>>)
        requires
            self@.accepts(message@),
        ensures
            r == self@.answer(message@),
    {
        if self.queue.len() == 0 {
            return None;
        }
        match message {
            Message::Okay | Message::LoggedIn(_) => Some(Ok(())),
            Message::NotOk => Some(Err(Rejected)),
            Message::AddSeek(seek) => match &self.username {
                Some(name) => if same_text(seek.seeker.as_str(), name.as_str()) {
                    Some(Ok(()))
                } else {
                    None
                },
                None => None,
            },
            _ => None,
        }
    }

    /// Opens a seek unless one with its number is open.
    fn add_seek(&mut self, seek: Seek) -> (r: bool)
        ensures
            r == !old(self)@.seeks.contains_key(seek.id),
            final(self)@ == (SessionView {
                seeks: if r {
                    old(self)@.seeks.insert(seek.id, seek@)
                } else {
                    old(self)@.seeks
                },
                ..old(self)@
            }),
    {
        if self.seeks.contains_key(&seek.id) {
            false
        } else {
            self.seeks.insert(seek.id, seek);
            assert(self@.seeks =~= old(self)@.seeks.insert(seek.id, seek@));
            true
        }
    }

    /// Closes the seek with the given number, if it is open.
    fn remove_seek(&mut self, id: u32) -> (r: bool)
        ensures
            r == old(self)@.seeks.contains_key(id),
            final(self)@ == (SessionView { seeks: old(self)@.seeks.remove(id), ..old(self)@ }),
    {
        let removed = self.seeks.remove(&id);
        assert(self@.seeks =~= old(self)@.seeks.remove(id));
        removed.is_some()
    }

    /// Lists a game unless one with its number is listed.
    fn add_game(&mut self, game: Game) -> (r: bool)
        ensures
            r == !old(self)@.games.contains_key(game.id),
            final(self)@ == (SessionView {
                games: if r {
                    old(self)@.games.insert(game.id, game@)
                } else {
                    old(self)@.games
                },
                ..old(self)@
            }),
    {
        if self.games.contains_key(&game.id) {
            false
        } else {
            self.games.insert(game.id, game);
            assert(self@.games =~= old(self)@.games.insert(game.id, game@));
            true
        }
    }

    /// Strikes the game with the given number off the list, if it is there.
    fn remove_game(&mut self, id: u32) -> (r: bool)
        ensures
            r == old(self)@.games.contains_key(id),
            final(self)@ == (SessionView { games: old(self)@.games.remove(id), ..old(self)@ }),
    {
        let removed = self.games.remove(&id);
        assert(self@.games =~= old(self)@.games.remove(id));
        removed.is_some()
    }

    /// Starts the user's game with the given number.
    fn start_game(&mut self, id: u32) -> (r: ActiveGameData)
        requires
            old(self)@.games.contains_key(id),
        ensures
            r == starting_clocks(old(self)@.games[id]),
            final(self)@ == (SessionView {
                active_games: old(self)@.active_games.insert(id, r),
                ..old(self)@
            }),
    {
        let initial_time = match self.games.get(&id) {
            Some(game) => game.params.initial_time,
            None => Duration::from_secs(0),
        };
        let data = ActiveGameData {
            white_remaining: initial_time,
            black_remaining: initial_time,
            last_sync: None,
        };
        self.active_games.insert(id, data);
        data
    }

    /// Does what the message does beyond answering a request.
    fn apply(&mut self, message: Message, now: Instant) -> (r: Outcome)
        requires
            old(self)@.accepts(message@),
            message@ is Okay || message@ is NotOk || message@ is LoggedIn ==> old(
                self,
            )@.queue.len() == 0,
        ensures
            final(self)@ == old(self)@.effect(message@, now),
            r@ == old(self)@.outcome(message@, now),
    {
        match message {
            Message::Okay | Message::NotOk | Message::LoggedIn(_) => Outcome::Discarded,
            Message::AddSeek(seek) => if self.add_seek(seek) {
                Outcome::SeekAdded
            } else {
                Outcome::SeekCollision
            },
            Message::RemoveSeek(id) => if self.remove_seek(id) {
                Outcome::SeekRemoved
            } else {
                Outcome::SeekMissing
            },
            Message::AddGame(game) => if self.add_game(game) {
                Outcome::GameAdded
            } else {
                Outcome::GameCollision
            },
            Message::RemoveGame(id) => if self.remove_game(id) {
                Outcome::GameRemoved
            } else {
                Outcome::GameMissing
            },
            Message::StartGame(id) => {
                let data = self.start_game(id);
                Outcome::Started(id, data)
            },
            Message::SyncClocks(id, white_remaining, black_remaining) => {
                let data = ActiveGameData {
                    white_remaining,
                    black_remaining,
                    last_sync: Some(now),
                };
                self.active_games.insert(id, data);
                Outcome::Synced(id, data)
            },
            Message::Play(id, m) => Outcome::Updated(id, GameUpdate::Played(m)),
            Message::GameOver(id, result) => {
                self.active_games.remove(&id);
                Outcome::Updated(id, GameUpdate::Ended(result))
            },
            message => Outcome::Ignored(message),
        }
    }

    /// Takes in a message that came at the moment `now`. Gives the request
    /// that the message answers, if any, with the answer, and what else the
    /// message did.
    pub fn receive(&mut self, message: Message, now: Instant) -> (r: (Option<Answer<T>>, Outcome))
        requires
            old(self)@.accepts(message@),
        ensures
            final(self)@ == old(self)@.next(message@, now),
            r.1@ == old(self)@.outcome(message@, now),
            match old(self)@.answer(message@) {
                Some(answer) => r.0 matches Some(given) && given.1 == answer && sent_view(given.0)
                    == old(self)@.queue[0],
                None => r.0 is None,
            },
    {
        let waiting = self.queue.len() > 0;
        let answered = match self.find_answer(&message) {
            Some(answer) => match self.queue.pop_front() {
                Some(sent) => Some((sent, answer)),
                None => None,
            },
            None => None,
        };
        proof {
            if old(self)@.answer(message@) is Some {
                assert(self@.queue =~= old(self)@.queue.drop_first());
            }
        }
        let outcome = match message {
            Message::Okay if waiting => Outcome::Answered,
            Message::NotOk if waiting => Outcome::Answered,
            Message::LoggedIn(name) if waiting => {
                self.username = Some(name);
                Outcome::Answered
            },
            message => self.apply(message, now),
        };
        (answered, outcome)
    }
}

/// Why what came through the connection is no message.
#[derive(Debug, Clone, Copy, PartialEq, Eq)]
pub enum FrameError {
    /// Nothing came, not even the end of a line.
    Empty,
    /// The line cannot be understood.
    Malformed(ParseError),
}

/// The message that came through the connection as `text`: a line, and one
/// character that ends it.
pub open spec fn frame_value(text: Seq<char>) -> Result<MessageView, FrameError> {
    if text.len() == 0 {
        Err(FrameError::Empty)
    } else {
        match message_value(text.drop_last()) {
            Ok(message) => Ok(message),
            Err(e) => Err(FrameError::Malformed(e)),
        }
    }
}

/// Reads the message that came through the connection as `text`.
pub fn read_frame(text: &str) -> (r: Result<Message, FrameError>)
    ensures
        match r {
            Ok(message) => frame_value(text@) == Ok::<MessageView, FrameError>(message@),
            Err(e) => frame_value(text@) == Err::<MessageView, FrameError>(e),
        },
{
    match without_last(text) {
        None => Err(FrameError::Empty),
        Some(line) => match Message::from_str(line) {
            Ok(message) => Ok(message),
            Err(e) => Err(FrameError::Malformed(e)),
        },
    }
}

} // verus!
