//! What a connection does with each request and each message: what holds of
//! the calls of [`Session`], one by one and in a series.

use std::time::Instant;

use vstd::prelude::*;

use crate::client::{
    Game, GameUpdate, GameView, Message, MessageView, Request, Seek, SeekView, SentRequest,
};
use crate::data_types::ActiveGameData;
use crate::errors::ParseError;
use crate::laws::{after_all, Event};
use crate::session::{read_frame, Answer, FrameError, Outcome, Rejected, Session, SessionView};
use crate::time::Duration;

verus! {

/// Nobody is logged in on a new connection, no seek is open, no game is listed
/// or played, and no request awaits its answer.
pub proof fn new_connection_is_blank<T>(session: Session<T>)
    requires
        call_ensures(Session::<T>::new, (), session),
    ensures
        session@.username is None,
        forall|id: u32| !#[trigger] session@.seeks.contains_key(id),
        forall|id: u32| !#[trigger] session@.games.contains_key(id),
        forall|id: u32| !#[trigger] session@.active_games.contains_key(id),
        session@.queue.len() == 0,
{
}

/// A request that is sent is noted behind those that await their answer, with
/// what its own answer is to be handed to, and nothing else changes. What is
/// sent is the line of the request.
pub proof fn sent_request_is_noted<T>(
    session: &mut Session<T>,
    request: Request,
    reply: T,
    line: String,
    text: String,
)
    requires
        call_ensures(Session::<T>::submit, (session, SentRequest(request, reply)), line),
        call_ensures(Request::to_string, (&request,), text),
    ensures
        line@ == text@,
        final(session)@.queue == old(session)@.queue + seq![(request@, reply)],
        final(session)@.username == old(session)@.username,
        final(session)@.seeks == old(session)@.seeks,
        final(session)@.games == old(session)@.games,
        final(session)@.active_games == old(session)@.active_games,
{
    assert(final(session)@.queue =~= old(session)@.queue + seq![(request@, reply)]);
}

/// The backlog counts the requests that await their answer.
pub proof fn backlog_counts_requests<T>(session: Session<T>, r: usize)
    requires
        call_ensures(Session::<T>::backlog, (&session,), r),
    ensures
        r == session@.queue.len(),
{
}

/// A message makes sense unless it starts a game that is not listed, tells of a
/// game that was not started, or announces a seek while a request awaits its
/// answer and nobody is logged in.
pub proof fn when_a_message_makes_sense<T>(session: Session<T>, message: Message, r: bool)
    requires
        call_ensures(Session::<T>::can_receive, (&session, &message), r),
    ensures
        message matches Message::StartGame(id) ==> (r <==> session@.games.contains_key(id)),
        message matches Message::SyncClocks(id, _, _) ==> (r
            <==> session@.active_games.contains_key(id)),
        message matches Message::Play(id, _) ==> (r <==> session@.active_games.contains_key(id)),
        message matches Message::GameOver(id, _) ==> (r <==> session@.active_games.contains_key(
            id,
        )),
        message is AddSeek ==> (r <==> session@.queue.len() == 0 || session@.username is Some),
        !(message is StartGame || message is SyncClocks || message is Play || message is GameOver
            || message is AddSeek) ==> r,
{
}

/// Whether a message tells a request its answer when one awaits it: a grant, a
/// refusal, a greeting, or the announcement of a seek of the user.
pub open spec fn tells_an_answer(username: Option<Seq<char>>, message: Message) -> bool {
    ||| message is Okay
    ||| message is NotOk
    ||| message is LoggedIn
    ||| message matches Message::AddSeek(seek) && username == Some(seek.seeker@)
}

/// The oldest request that awaits an answer, and no other, is told the answer
/// of a message that tells one: refused if the message is a refusal, and
/// granted otherwise. Every other message leaves all requests waiting.
pub proof fn who_is_answered<T>(
    session: &mut Session<T>,
    message: Message,
    now: Instant,
    r: (Option<Answer<T>>, Outcome),
)
    requires
        call_ensures(Session::<T>::receive, (session, message, now), r),
    ensures
        ({
            let waiting = old(session)@.queue;
            if waiting.len() > 0 && tells_an_answer(old(session)@.username, message) {
                &&& r.0 matches Some((sent, answer))
                &&& (sent.0@, sent.1) == waiting[0]
                &&& message is NotOk ==> answer == Err::<(), Rejected>(Rejected)
                &&& !(message is NotOk) ==> answer == Ok::<(), Rejected>(())
                &&& final(session)@.queue == waiting.drop_first()
            } else {
                &&& r.0 is None
                &&& final(session)@.queue == waiting
            }
        }),
{
}

/// A message that closes a seek, lists or strikes off a game, or tells of a
/// game answers nothing, whatever requests are waiting; nor does talk of the
/// server.
pub proof fn news_answer_nothing<T>(
    session: &mut Session<T>,
    message: Message,
    now: Instant,
    r: (Option<Answer<T>>, Outcome),
)
    requires
        call_ensures(Session::<T>::receive, (session, message, now), r),
        message is RemoveSeek || message is AddGame || message is RemoveGame || message is StartGame
            || message is SyncClocks || message is Play || message is GameOver || message is Online
            || message is Message || message is Error || message is Unknown,
    ensures
        r.0 is None,
        final(session)@.queue == old(session)@.queue,
{
}

/// The user is the one whom the last greeting named that answered a request.
pub proof fn who_is_logged_in<T>(
    session: &mut Session<T>,
    message: Message,
    now: Instant,
    r: (Option<Answer<T>>, Outcome),
)
    requires
        call_ensures(Session::<T>::receive, (session, message, now), r),
    ensures
        message matches Message::LoggedIn(name) ==> (old(session)@.queue.len() > 0 ==> final(session)@.username == Some(name@)),
        !(message is LoggedIn && old(session)@.queue.len() > 0) ==> final(session)@.username == old(session)@.username,
{
}

/// Whether `kept` is the seek that was announced.
pub open spec fn keeps_seek(kept: SeekView, seek: Seek) -> bool {
    &&& kept.id == seek.id
    &&& kept.seeker == seek.seeker@
    &&& kept.params.color == seek.params.color
    &&& kept.params.params == seek.params.params
    &&& kept.params.opponent is Some <==> seek.params.opponent is Some
    &&& seek.params.opponent matches Some(name) ==> kept.params.opponent == Some(name@)
}

/// Whether `kept` is the game that was listed.
pub open spec fn keeps_game(kept: GameView, game: Game) -> bool {
    &&& kept.id == game.id
    &&& kept.white == game.white@
    &&& kept.black == game.black@
    &&& kept.params == game.params
}

/// An announced seek is open from then on, under its number, as it was
/// announced, unless another was open under that number, which stays. A closed
/// seek is open no more. No other seek and no other message matters.
pub proof fn which_seeks_are_open<T>(
    session: &mut Session<T>,
    message: Message,
    now: Instant,
    r: (Option<Answer<T>>, Outcome),
)
    requires
        call_ensures(Session::<T>::receive, (session, message, now), r),
    ensures
        ({
            let before = old(session)@.seeks;
            let after = final(session)@.seeks;
            match message {
                Message::AddSeek(seek) => {
                    &&& after.contains_key(seek.id)
                    &&& before.contains_key(seek.id) ==> after[seek.id] == before[seek.id] && r.1
                        == Outcome::SeekCollision
                    &&& !before.contains_key(seek.id) ==> keeps_seek(after[seek.id], seek) && r.1
                        == Outcome::SeekAdded
                    &&& forall|id: u32|
                        id != seek.id ==> (#[trigger] after.contains_key(id)
                            <==> before.contains_key(id))
                    &&& forall|id: u32|
                        id != seek.id && #[trigger] before.contains_key(id) ==> after[id]
                            == before[id]
                },
                Message::RemoveSeek(closed) => {
                    &&& r.1 == if before.contains_key(closed) {
                        Outcome::SeekRemoved
                    } else {
                        Outcome::SeekMissing
                    }
                    &&& forall|id: u32| #[trigger]
                        after.contains_key(id) <==> before.contains_key(id) && id != closed
                    &&& forall|id: u32| #[trigger]
                        after.contains_key(id) ==> after[id] == before[id]
                },
                _ => after == before,
            }
        }),
{
}

/// A listed game stays on the list from then on, under its number, as it was
/// listed, unless another was listed under that number, which stays. A game that
/// is struck off is there no more. No other game and no other message matters.
pub proof fn which_games_are_listed<T>(
    session: &mut Session<T>,
    message: Message,
    now: Instant,
    r: (Option<Answer<T>>, Outcome),
)
    requires
        call_ensures(Session::<T>::receive, (session, message, now), r),
    ensures
        ({
            let before = old(session)@.games;
            let after = final(session)@.games;
            match message {
                Message::AddGame(game) => {
                    &&& after.contains_key(game.id)
                    &&& before.contains_key(game.id) ==> after[game.id] == before[game.id] && r.1
                        == Outcome::GameCollision
                    &&& !before.contains_key(game.id) ==> keeps_game(after[game.id], game) && r.1
                        == Outcome::GameAdded
                    &&& forall|id: u32|
                        id != game.id ==> (#[trigger] after.contains_key(id)
                            <==> before.contains_key(id))
                    &&& forall|id: u32|
                        id != game.id && #[trigger] before.contains_key(id) ==> after[id]
                            == before[id]
                },
                Message::RemoveGame(struck) => {
                    &&& r.1 == if before.contains_key(struck) {
                        Outcome::GameRemoved
                    } else {
                        Outcome::GameMissing
                    }
                    &&& forall|id: u32| #[trigger]
                        after.contains_key(id) <==> before.contains_key(id) && id != struck
                    &&& forall|id: u32| #[trigger]
                        after.contains_key(id) ==> after[id] == before[id]
                },
                _ => after == before,
            }
        }),
{
}

/// A game that starts has both clocks at its initial time, and they were not
/// set yet. It is reported with these clocks. No other game of the user changes.
pub proof fn start_shows_the_initial_time<T>(
    session: &mut Session<T>,
    id: u32,
    now: Instant,
    r: (Option<Answer<T>>, Outcome),
)
    requires
        call_ensures(Session::<T>::receive, (session, Message::StartGame(id), now), r),
        old(session)@.games.contains_key(id),
    ensures
        ({
            let initial_time = old(session)@.games[id].params.initial_time;
            let before = old(session)@.active_games;
            let after = final(session)@.active_games;
            &&& after.contains_key(id)
            &&& after[id].white_remaining == initial_time
            &&& after[id].black_remaining == initial_time
            &&& after[id].last_sync is None
            &&& r.1 == Outcome::Started(id, after[id])
            &&& after.remove(id) == before.remove(id)
        }),
{
    assert(final(session)@.active_games.remove(id) =~= old(session)@.active_games.remove(id));
}

/// Clocks that are set show what the message says and when it came, whatever
/// they showed before, and are reported so. No other game of the user changes.
pub proof fn sync_sets_the_clocks<T>(
    session: &mut Session<T>,
    id: u32,
    white: Duration,
    black: Duration,
    now: Instant,
    r: (Option<Answer<T>>, Outcome),
)
    requires
        call_ensures(
            Session::<T>::receive,
            (session, Message::SyncClocks(id, white, black), now),
            r,
        ),
    ensures
        ({
            let before = old(session)@.active_games;
            let after = final(session)@.active_games;
            &&& after.contains_key(id)
            &&& after[id].white_remaining == white
            &&& after[id].black_remaining == black
            &&& after[id].last_sync == Some(now)
            &&& r.1 == Outcome::Synced(id, after[id])
            &&& after.remove(id) == before.remove(id)
        }),
{
    assert(final(session)@.active_games.remove(id) =~= old(session)@.active_games.remove(id));
}

/// A move is reported for its game, as it was played, and no game of the user
/// changes.
pub proof fn move_is_reported<T>(
    session: &mut Session<T>,
    id: u32,
    m: crate::moves::Move,
    now: Instant,
    r: (Option<Answer<T>>, Outcome),
)
    requires
        call_ensures(Session::<T>::receive, (session, Message::Play(id, m), now), r),
    ensures
        r.1 matches Outcome::Updated(told, GameUpdate::Played(played)) && told == id && played@
            == m@,
        final(session)@.active_games == old(session)@.active_games,
{
}

/// The end of a game is reported for it, with its result, and the game is the
/// user's no more. No other game of the user changes.
pub proof fn end_is_reported<T>(
    session: &mut Session<T>,
    id: u32,
    result: crate::client::GameResult,
    now: Instant,
    r: (Option<Answer<T>>, Outcome),
)
    requires
        call_ensures(Session::<T>::receive, (session, Message::GameOver(id, result), now), r),
    ensures
        r.1 matches Outcome::Updated(told, GameUpdate::Ended(how)) && told == id && how == result,
        !final(session)@.active_games.contains_key(id),
        final(session)@.active_games == old(session)@.active_games.remove(id),
{
}

/// Messages that start, end or time no game leave the games of the user as
/// they are.
pub proof fn other_messages_leave_games<T>(
    session: &mut Session<T>,
    message: Message,
    now: Instant,
    r: (Option<Answer<T>>, Outcome),
)
    requires
        call_ensures(Session::<T>::receive, (session, message, now), r),
        !(message is StartGame || message is SyncClocks || message is GameOver),
    ensures
        final(session)@.active_games == old(session)@.active_games,
{
}

/// A grant, a refusal or a greeting does nothing but answer, and is discarded
/// if no request awaits an answer.
pub proof fn answers_only_answer<T>(
    session: &mut Session<T>,
    message: Message,
    now: Instant,
    r: (Option<Answer<T>>, Outcome),
)
    requires
        call_ensures(Session::<T>::receive, (session, message, now), r),
        message is Okay || message is NotOk || message is LoggedIn,
    ensures
        old(session)@.queue.len() > 0 ==> r.1 == Outcome::Answered,
        old(session)@.queue.len() == 0 ==> r.1 == Outcome::Discarded && final(session)@ == old(session)@,
{
}

/// Talk of the server does nothing, and is handed back as it came.
pub proof fn talk_is_ignored<T>(
    session: &mut Session<T>,
    message: Message,
    now: Instant,
    r: (Option<Answer<T>>, Outcome),
)
    requires
        call_ensures(Session::<T>::receive, (session, message, now), r),
        message is Online || message is Message || message is Error || message is Unknown,
    ensures
        final(session)@ == old(session)@,
        r.1 matches Outcome::Ignored(ignored) && {
            &&& message matches Message::Online(count) ==> ignored == Message::Online(count)
            &&& message matches Message::Message(text) ==> (ignored matches Message::Message(same)
                && same@ == text@)
            &&& message matches Message::Error(text) ==> (ignored matches Message::Error(same)
                && same@ == text@)
            &&& message matches Message::Unknown(text) ==> (ignored matches Message::Unknown(same)
                && same@ == text@)
        },
{
}

/// The clocks to which the last message of a series that sets the clocks of a
/// game sets them, and the moment at which it came.
pub open spec fn last_set_in<T>(events: Seq<Event<T>>, id: u32) -> Option<
    (Duration, Duration, Instant),
>
    decreases events.len(),
{
    if events.len() == 0 {
        None
    } else {
        match events.last() {
            Event::Received(MessageView::SyncClocks(set, white, black), now) if set == id => Some(
                (white, black, now),
            ),
            _ => last_set_in(events.drop_last(), id),
        }
    }
}

/// As long as a game neither starts nor ends, its clocks are those to which they
/// were last set, and as they were at first if they were not set at all.
pub proof fn clocks_are_the_last_set<T>(state: SessionView<T>, id: u32, events: Seq<Event<T>>)
    requires
        state.active_games.contains_key(id),
        forall|i: int|
            0 <= i < events.len() ==> !(#[trigger] events[i] matches Event::Received(
                MessageView::StartGame(started),
                _,
            ) && started == id),
        forall|i: int|
            0 <= i < events.len() ==> !(#[trigger] events[i] matches Event::Received(
                MessageView::GameOver(ended, _),
                _,
            ) && ended == id),
    ensures
        after_all(state, events).active_games.contains_key(id),
        last_set_in(events, id) matches Some((white, black, now)) ==> after_all(
            state,
            events,
        ).active_games[id] == (ActiveGameData {
            white_remaining: white,
            black_remaining: black,
            last_sync: Some(now),
        }),
        last_set_in(events, id) is None ==> after_all(state, events).active_games[id]
            == state.active_games[id],
    decreases events.len(),
{
    if events.len() > 0 {
        let earlier = events.drop_last();
        assert forall|i: int| 0 <= i < earlier.len() implies !(
        #[trigger] earlier[i] matches Event::Received(MessageView::StartGame(started), _)
            && started == id) by {
            assert(earlier[i] == events[i]);
        }
        assert forall|i: int| 0 <= i < earlier.len() implies !(
        #[trigger] earlier[i] matches Event::Received(MessageView::GameOver(ended, _), _)
            && ended == id) by {
            assert(earlier[i] == events[i]);
        }
        clocks_are_the_last_set(state, id, earlier);
        let last = events[events.len() - 1];
        assert(last == events.last());
    }
}

/// What comes through the connection is the line before its last character,
/// read as a line is read; nothing at all is refused.
pub proof fn frame_holds_a_line(
    text: &str,
    line: &str,
    end: char,
    framed: Result<Message, FrameError>,
    plain: Result<Message, ParseError>,
)
    requires
        call_ensures(read_frame, (text,), framed),
        call_ensures(Message::from_str, (line,), plain),
    ensures
        text@.len() == 0 ==> framed == Err::<Message, FrameError>(FrameError::Empty),
        text@ == line@ + seq![end] ==> match plain {
            Ok(message) => framed matches Ok(same) && same@ == message@,
            Err(e) => framed == Err::<Message, FrameError>(FrameError::Malformed(e)),
        },
{
    if text@ == line@ + seq![end] {
        assert(text@.drop_last() =~= line@);
    }
}

} // verus!
