use std::time::Instant;

use tokio_takconnect::client::{ActiveGame, GameResultInner, Message, Request, SentRequest};
use tokio_takconnect::data_types::{from_channel, ActiveGameData, ConnectionClosed};
use tokio_takconnect::errors::ParseError;
use tokio_takconnect::login::{conclude_opening, token_of, ConnectError};
use tokio_takconnect::session::{read_frame, FrameError, Outcome, Rejected, Session};
use tokio_takconnect::{connect_as, connect_guest, Duration, GameResult, GameUpdate};

const GAME: &str = "GameList Add 4 a b 5 600 20 0 21 1 0 0";

fn take(session: &mut Session<u32>, line: &str) -> (Option<(u32, Result<(), Rejected>)>, Outcome) {
    let message = Message::from_str(line).unwrap();
    assert!(session.can_receive(&message));
    let (answer, outcome) = session.receive(message, Instant::now());
    (answer.map(|(SentRequest(_, reply), result)| (reply, result)), outcome)
}

fn refuses(session: &Session<u32>, line: &str) -> bool {
    !session.can_receive(&Message::from_str(line).unwrap())
}

fn logged_in() -> Session<u32> {
    let mut session = Session::new();
    session.submit(Request::Login("me".to_string(), "pw".to_string()).send(0));
    let (answer, outcome) = take(&mut session, "Welcome me!");
    assert_eq!(answer, Some((0, Ok(()))));
    assert!(matches!(outcome, Outcome::Answered));
    session
}

#[test]
fn requests_are_answered_in_order() {
    let mut session = Session::new();
    assert_eq!(session.submit(Request::Client("c".to_string()).send(1)), "Client c");
    assert_eq!(session.submit(Request::Protocol(1).send(2)), "Protocol 1");
    assert_eq!(session.submit(Request::Ping.send(3)), "PING");
    assert_eq!(session.backlog(), 3);
    assert_eq!(take(&mut session, "NOK").0, Some((1, Err(Rejected))));
    assert_eq!(take(&mut session, "Online 3").0, None);
    assert_eq!(take(&mut session, "OK").0, Some((2, Ok(()))));
    assert_eq!(session.submit(Request::Ping.send(4)), "PING");
    assert_eq!(take(&mut session, "OK").0, Some((3, Ok(()))));
    assert_eq!(take(&mut session, "OK").0, Some((4, Ok(()))));
    assert_eq!(session.backlog(), 0);
    assert_eq!(Rejected.message(), "Rejected");
}

#[test]
fn stray_answers_are_discarded() {
    let mut session = Session::new();
    for line in ["OK", "NOK", "Welcome me!"] {
        let (answer, outcome) = take(&mut session, line);
        assert_eq!(answer, None);
        assert!(matches!(outcome, Outcome::Discarded));
    }
    session.submit(Request::Ping.send(1));
    assert!(refuses(&session, "Seek new 1 me 5 600 20 A 0 21 1 0 0 "));
}

#[test]
fn own_seek_answers_the_request() {
    let mut session = logged_in();
    session.submit(Request::Ping.send(1));
    let (answer, outcome) = take(&mut session, "Seek new 1 other 5 600 20 A 0 21 1 0 0 ");
    assert_eq!(answer, None);
    assert!(matches!(outcome, Outcome::SeekAdded));
    let (answer, outcome) = take(&mut session, "Seek new 2 me 5 600 20 A 0 21 1 0 0 ");
    assert_eq!(answer, Some((1, Ok(()))));
    assert!(matches!(outcome, Outcome::SeekAdded));
    let (answer, outcome) = take(&mut session, "Seek new 3 me 5 600 20 A 0 21 1 0 0 ");
    assert_eq!(answer, None);
    assert!(matches!(outcome, Outcome::SeekAdded));
}

#[test]
fn seeks_come_and_go() {
    let mut session = logged_in();
    let line = "Seek new 1 other 5 600 20 A 0 21 1 0 0 ";
    assert!(matches!(take(&mut session, line).1, Outcome::SeekAdded));
    assert!(matches!(take(&mut session, line).1, Outcome::SeekCollision));
    assert!(matches!(take(&mut session, "Seek remove 1").1, Outcome::SeekRemoved));
    assert!(matches!(take(&mut session, "Seek remove 1").1, Outcome::SeekMissing));
    assert!(matches!(take(&mut session, line).1, Outcome::SeekAdded));
}

#[test]
fn a_listed_game_stays_as_it_was() {
    let mut session = logged_in();
    assert!(matches!(take(&mut session, GAME).1, Outcome::GameAdded));
    let other = "GameList Add 4 a b 5 7 20 0 21 1 0 0";
    assert!(matches!(take(&mut session, other).1, Outcome::GameCollision));
    match take(&mut session, "Game Start 4").1 {
        Outcome::Started(4, data) => assert_eq!(data.white_remaining, Duration::from_secs(600)),
        outcome => panic!("unexpected {:?}", outcome),
    }
    assert!(matches!(take(&mut session, "GameList Remove 4").1, Outcome::GameRemoved));
    assert!(matches!(take(&mut session, "GameList Remove 4").1, Outcome::GameMissing));
    assert!(refuses(&session, "Game Start 4"));
}

#[test]
fn a_game_from_start_to_end() {
    let mut session = logged_in();
    assert!(refuses(&session, "Game Start 4"));
    take(&mut session, GAME);
    assert!(refuses(&session, "Game#4 P A1"));
    assert!(refuses(&session, "Game#4 Timems 1 1"));
    assert!(refuses(&session, "Game#4 Over F-0"));
    match take(&mut session, "Game Start 4 5 a vs b white 600").1 {
        Outcome::Started(4, ActiveGameData { white_remaining, black_remaining, last_sync }) => {
            assert_eq!(white_remaining, Duration::from_secs(600));
            assert_eq!(black_remaining, Duration::from_secs(600));
            assert!(last_sync.is_none());
        }
        outcome => panic!("unexpected {:?}", outcome),
    }
    let now = Instant::now();
    let message = Message::from_str("Game#4 Timems 1500 2000").unwrap();
    match session.receive(message, now).1 {
        Outcome::Synced(4, ActiveGameData { white_remaining, black_remaining, last_sync }) => {
            assert_eq!(white_remaining, Duration::from_millis(1500));
            assert_eq!(black_remaining, Duration::from_secs(2));
            assert_eq!(last_sync, Some(now));
        }
        outcome => panic!("unexpected {:?}", outcome),
    }
    assert!(matches!(
        take(&mut session, "Game#4 P A1").1,
        Outcome::Updated(4, GameUpdate::Played(_))
    ));
    assert!(matches!(
        take(&mut session, "Game#4 Abandoned. a quit").1,
        Outcome::Updated(4, GameUpdate::Ended(GameResult(GameResultInner::OtherDecisive)))
    ));
    assert!(refuses(&session, "Game#4 P A1"));
    assert!(refuses(&session, "Game#4 Over F-0"));
    assert!(matches!(take(&mut session, "Game Start 4").1, Outcome::Started(4, _)));
}

#[test]
fn games_are_handed_out_in_order() {
    let mut session = logged_in();
    take(&mut session, GAME);
    take(&mut session, "GameList Add 5 a b 5 300 20 0 21 1 0 0");
    let mut starts = Vec::new();
    for line in ["Game Start 5", "Game#5 P A1", "Online 2", "Game Start 4", "OK"] {
        if let Outcome::Started(id, data) = take(&mut session, line).1 {
            assert_eq!(data.white_remaining, data.black_remaining);
            assert!(data.last_sync.is_none());
            starts.push((id, data.white_remaining));
        }
    }
    assert_eq!(starts, vec![(5, Duration::from_secs(300)), (4, Duration::from_secs(600))]);
    let mut channel = starts.into_iter();
    assert_eq!(from_channel(channel.next()).unwrap().0, 5);
    assert_eq!(from_channel(channel.next()).unwrap().0, 4);
    assert_eq!(from_channel(channel.next()), Err(ConnectionClosed));
}

#[test]
fn a_game_is_told_in_order() {
    let mut session = logged_in();
    take(&mut session, GAME);
    take(&mut session, "GameList Add 5 a b 5 300 20 0 21 1 0 0");
    take(&mut session, "Game Start 4");
    take(&mut session, "Game Start 5");
    let mut updates = Vec::new();
    for line in ["Game#4 P A1", "Game#5 P C3", "Game#4 P B2 C", "Game#5 Over 0-1", "Game#4 Over R-0"] {
        if let Outcome::Updated(4, update) = take(&mut session, line).1 {
            updates.push(update);
        }
    }
    let mut channel = updates.into_iter();
    for line in ["Game#4 P A1", "Game#4 P B2 C"] {
        match (ActiveGame::update(channel.next()), Message::from_str(line)) {
            (Ok(GameUpdate::Played(told)), Ok(Message::Play(4, played))) => {
                assert_eq!(told, played)
            }
            other => panic!("unexpected {:?}", other),
        }
    }
    assert!(matches!(
        ActiveGame::update(channel.next()),
        Ok(GameUpdate::Ended(GameResult(GameResultInner::RoadWhite)))
    ));
    assert_eq!(ActiveGame::update(channel.next()).unwrap_err(), ConnectionClosed);
    assert_eq!(ConnectionClosed.message(), "Connection closed");
}

#[test]
fn another_game_does_not_end_this_one() {
    let mut session = logged_in();
    take(&mut session, GAME);
    take(&mut session, "GameList Add 5 a b 5 300 20 0 21 1 0 0");
    take(&mut session, "Game Start 4");
    take(&mut session, "Game Start 5");
    take(&mut session, "Game#5 Timems 1 2");
    take(&mut session, "Game#5 Over F-0");
    take(&mut session, "GameList Remove 4");
    assert!(matches!(
        take(&mut session, "Game#4 P A1").1,
        Outcome::Updated(4, GameUpdate::Played(_))
    ));
    assert!(refuses(&session, "Game#5 P A1"));
}

#[test]
fn other_messages_are_ignored() {
    let mut session = logged_in();
    for line in ["Online 3", "Message hello", "Error no", "Shout <a> b"] {
        let message = Message::from_str(line).unwrap();
        match take(&mut session, line).1 {
            Outcome::Ignored(ignored) => assert_eq!(ignored, message),
            outcome => panic!("unexpected {:?}", outcome),
        }
    }
}

#[test]
fn frames_end_with_any_character() {
    assert_eq!(read_frame("OK\n").unwrap(), Message::Okay);
    assert_eq!(read_frame("OK!").unwrap(), Message::Okay);
    assert_eq!(read_frame("\n").unwrap(), Message::Unknown("".to_string()));
    assert_eq!(read_frame("Message ß").unwrap(), Message::Message("".to_string()));
    assert_eq!(read_frame("").unwrap_err(), FrameError::Empty);
    assert_eq!(
        read_frame("Welcome a\n").unwrap_err(),
        FrameError::Malformed(ParseError::MissingExclamation)
    );
}

#[test]
fn guests_have_a_random_token() {
    let options = connect_guest();
    assert_eq!(options.pseudo_username, "Guest");
    assert_eq!(options.password.len(), 20);
    assert!(options.password.bytes().all(|b| b.is_ascii_lowercase()));
    assert_ne!(options.password, connect_guest().password);
    assert_eq!(options.client_name, "unknown");
    assert!(options.append_lib_name);
    assert_eq!(options.ping_interval, Duration::from_secs(2));
    assert_eq!(token_of(&vec![97, 122, 48]), "az0");
}

#[test]
fn opening_requests() {
    let options = connect_as("user".to_string(), "secret".to_string());
    let (client, protocol, login) = options.opening_requests("lib", "1.2");
    assert_eq!(client.to_string(), "Client unknown+lib-1.2");
    assert_eq!(protocol.to_string(), "Protocol 1");
    assert_eq!(login.to_string(), "Login user secret");
    let mut options = connect_as("user".to_string(), "secret".to_string());
    options.append_lib_name = false;
    assert_eq!(options.full_client_name("lib", "1.2"), "unknown");
}

#[test]
fn refused_openings() {
    assert_eq!(conclude_opening(true, true), Ok(()));
    assert_eq!(conclude_opening(false, true), Err(ConnectError::ProtocolRejected));
    assert_eq!(conclude_opening(false, false), Err(ConnectError::ProtocolRejected));
    assert_eq!(conclude_opening(true, false), Err(ConnectError::LoginFailed));
    assert_eq!(
        ConnectError::ProtocolRejected.message(),
        "Playtak rejected protocol upgrade to version 1"
    );
    assert_eq!(
        ConnectError::LoginFailed.message(),
        "Failed to log in with the provided credentials"
    );
}
