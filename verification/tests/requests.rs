use std::borrow::Borrow;
use std::collections::hash_map::DefaultHasher;
use std::collections::HashSet;
use std::hash::{Hash, Hasher};

use tokio_takconnect::client::{self, ActiveGame, Message, Request};
use tokio_takconnect::communication;
use tokio_takconnect::data_types::{self, ActiveGameData, ConnectionClosed, UnsupportedParameters};
use tokio_takconnect::{
    Color, Direction, Duration, GameParameters, GameUpdate, Move, MoveKind, Pattern, Piece,
    SeekParameters, Square,
};

fn place(column: u8, row: u8, piece: Piece) -> Move {
    Move { square: Square { column, row }, kind: MoveKind::Place(piece) }
}

fn spread(column: u8, row: u8, direction: Direction, drops: &[u32]) -> Move {
    Move {
        square: Square { column, row },
        kind: MoveKind::Spread(direction, Pattern { drops: drops.to_vec() }),
    }
}

fn example_params() -> GameParameters {
    GameParameters::new(
        5,
        Duration::from_secs(600),
        Duration::from_secs(20),
        0,
        21,
        1,
        false,
        false,
    )
    .unwrap()
}

#[test]
fn plain_requests() {
    assert_eq!(Request::Client("me".to_string()).to_string(), "Client me");
    assert_eq!(Request::Protocol(1).to_string(), "Protocol 1");
    assert_eq!(Request::Protocol(4294967295).to_string(), "Protocol 4294967295");
    assert_eq!(Request::Login("a".to_string(), "b c".to_string()).to_string(), "Login a b c");
    assert_eq!(Request::Ping.to_string(), "PING");
    assert_eq!(communication::Request::Client("me".to_string()).to_string(), "Client me");
    assert_eq!(communication::Request::Protocol(2).to_string(), "Protocol 2");
    assert_eq!(
        communication::Request::Login("a".to_string(), "b".to_string()).to_string(),
        "Login a b"
    );
    assert_eq!(communication::Request::Ping.to_string(), "PING");
}

#[test]
fn public_seek() {
    let seek = SeekParameters::new(None, Color::Any, example_params()).unwrap();
    assert_eq!(Request::Seek(seek).to_string(), "Seek 5 600 20 A 0 21 1 0 0 ");
}

#[test]
fn private_seek() {
    let params = GameParameters { half_komi: -3, unrated: true, tournament: true, ..example_params() };
    let seek = SeekParameters::new(Some("bob".to_string()), Color::Black, params).unwrap();
    assert_eq!(Request::Seek(seek).to_string(), "Seek 5 600 20 B -3 21 1 1 1 bob");
    let params = data_types::GameParameters::new(
        6,
        Duration::from_secs(18446744073709551615),
        Duration::from_secs(0),
        8,
        30,
        1,
        false,
        true,
    )
    .unwrap();
    let seek = data_types::SeekParameters::new(
        Some("bob".to_string()),
        Some(data_types::Color::White),
        params,
    )
    .unwrap();
    assert_eq!(seek.opponent(), Some("bob"));
    assert_eq!(
        communication::Request::Seek(seek).to_string(),
        "Seek 6 18446744073709551615 0 W 8 30 1 1 1 bob"
    );
}

#[test]
fn a_seek_is_cut_to_whole_seconds() {
    let params = GameParameters { initial_time: Duration::from_millis(1999), ..example_params() };
    let seek = SeekParameters::new(None, Color::White, params).unwrap();
    assert_eq!(Request::Seek(seek).to_string(), "Seek 5 1 20 W 0 21 1 0 0 ");
}

#[test]
fn placements_are_written() {
    assert_eq!(Request::Play(3, place(0, 0, Piece::Flat)).to_string(), "Game#3 P A1");
    assert_eq!(Request::Play(3, place(7, 7, Piece::Wall)).to_string(), "Game#3 P H8 W");
    assert_eq!(Request::Play(3, place(2, 4, Piece::Cap)).to_string(), "Game#3 P C5 C");
}

#[test]
fn spreads_are_written() {
    let text = |m: Move| Request::Play(30, m).to_string();
    assert_eq!(text(spread(0, 0, Direction::Up, &[1, 2])), "Game#30 M A1 A3 1 2");
    assert_eq!(text(spread(0, 7, Direction::Down, &[8])), "Game#30 M A8 A7 8");
    assert_eq!(text(spread(1, 1, Direction::Right, &[1, 1, 1])), "Game#30 M B2 E2 1 1 1");
    assert_eq!(text(spread(6, 1, Direction::Left, &[3, 1])), "Game#30 M G2 E2 3 1");
}

#[test]
fn moves_off_the_board_cannot_be_sent() {
    let sendable = |m: Move| Request::Play(1, m).is_sendable();
    assert!(sendable(place(7, 7, Piece::Flat)));
    assert!(!sendable(place(8, 0, Piece::Flat)));
    assert!(!sendable(place(0, 8, Piece::Flat)));
    assert!(sendable(spread(0, 6, Direction::Up, &[1])));
    assert!(!sendable(spread(0, 6, Direction::Up, &[1, 1])));
    assert!(!sendable(spread(0, 1, Direction::Down, &[1, 1])));
    assert!(!sendable(spread(7, 1, Direction::Right, &[1])));
    assert!(!sendable(spread(0, 1, Direction::Left, &[1])));
    assert!(!sendable(spread(0, 0, Direction::Up, &[])));
    assert!(!sendable(spread(0, 0, Direction::Up, &[0, 1])));
    assert!(!sendable(spread(0, 0, Direction::Up, &[5, 4])));
    assert!(!sendable(spread(0, 0, Direction::Up, &[4294967295, 4294967295])));
    assert!(sendable(spread(0, 0, Direction::Up, &[1, 1, 1, 1, 1, 1, 2])));
    assert!(Request::Ping.is_sendable());
    assert!(!communication::Request::Play(1, place(8, 0, Piece::Flat)).is_sendable());
    assert!(communication::Request::Ping.is_sendable());
}

#[test]
fn a_played_move_is_read_back() {
    for m in [
        place(3, 4, Piece::Flat),
        place(7, 0, Piece::Wall),
        place(0, 7, Piece::Cap),
        spread(0, 0, Direction::Up, &[1, 1, 1, 1, 1, 1, 2]),
        spread(7, 7, Direction::Down, &[4, 4]),
        spread(2, 3, Direction::Right, &[2, 1, 3]),
        spread(5, 5, Direction::Left, &[8]),
    ] {
        let line = Request::Play(4294967295, m.clone()).to_string();
        assert_eq!(Message::from_str(&line).unwrap(), Message::Play(4294967295, m.clone()));
        let line = communication::Request::Play(0, m.clone()).to_string();
        assert_eq!(
            communication::Message::from_str(&line).unwrap(),
            communication::Message::Play(0, m)
        );
    }
}

#[test]
fn an_announced_seek_is_the_one_asked_for() {
    let params = example_params();
    let seek = SeekParameters::new(Some("bob".to_string()), Color::White, params).unwrap();
    let asked = Request::Seek(seek).to_string();
    let line = asked.replacen("Seek ", "Seek new 7 alice ", 1);
    match Message::from_str(&line).unwrap() {
        Message::AddSeek(seek) => {
            assert_eq!(seek.id, 7);
            assert_eq!(seek.seeker, "alice");
            assert_eq!(seek.params.opponent, Some("bob".to_string()));
            assert_eq!(seek.params.color, Color::White);
            assert_eq!(seek.params.params, params);
        }
        other => panic!("unexpected {:?}", other),
    }
}

#[test]
fn an_announced_seek_need_not_be_a_supported_one() {
    let asked = "Seek 9 600 20 A -3 21 1 0 0 ";
    let line = asked.replacen("Seek ", "Seek new 7 alice ", 1);
    match Message::from_str(&line).unwrap() {
        Message::AddSeek(seek) => assert_eq!(Request::Seek(seek.params).to_string(), asked),
        other => panic!("unexpected {:?}", other),
    }
    match communication::Message::from_str(&line).unwrap() {
        communication::Message::AddSeek(seek) => {
            assert_eq!(communication::Request::Seek(seek.params).to_string(), asked)
        }
        other => panic!("unexpected {:?}", other),
    }
}

#[test]
fn both_terms_write_the_same_seek() {
    let theirs = SeekParameters::new(None, Color::Any, example_params()).unwrap();
    let ours = data_types::SeekParameters::new(
        None,
        None,
        data_types::GameParameters::new(
            5,
            Duration::from_secs(600),
            Duration::from_secs(20),
            0,
            21,
            1,
            true,
            false,
        )
        .unwrap(),
    )
    .unwrap();
    assert_eq!(
        Request::Seek(theirs).to_string(),
        communication::Request::Seek(ours).to_string()
    );
}

#[test]
fn unsupported_parameters() {
    let new = |size, initial_time, increment, half_komi| {
        GameParameters::new(size, initial_time, increment, half_komi, 0, 0, true, true)
    };
    let second = Duration::from_secs(1);
    let odd = Duration::from_millis(1001);
    assert!(new(3, second, second, 0).is_ok());
    assert!(new(8, second, second, 8).is_ok());
    assert_eq!(new(2, second, second, 0), Err(UnsupportedParameters));
    assert_eq!(new(9, second, second, 0), Err(UnsupportedParameters));
    assert_eq!(new(5, odd, second, 0), Err(UnsupportedParameters));
    assert_eq!(new(5, second, odd, 0), Err(UnsupportedParameters));
    assert_eq!(new(5, second, second, 9), Err(UnsupportedParameters));
    assert_eq!(new(5, second, second, -1), Err(UnsupportedParameters));
    assert_eq!(UnsupportedParameters.message(), "Game parameters not supported by Playtak");
    let new = |size, half_komi| {
        data_types::GameParameters::new(size, second, second, half_komi, 0, 0, true, true)
    };
    assert!(new(3, 8).is_ok());
    assert_eq!(new(2, 0), Err(UnsupportedParameters));
    assert_eq!(new(3, 9), Err(UnsupportedParameters));
}

#[test]
fn seeks_and_games_are_told_apart_by_number() {
    let seek = |id, seeker: &str| client::Seek {
        id,
        seeker: seeker.to_string(),
        params: SeekParameters::new(None, Color::Any, example_params()).unwrap(),
    };
    assert!(seek(1, "a") == seek(1, "b"));
    assert!(seek(1, "a") != seek(2, "a"));
    let game = |id, white: &str| client::Game {
        id,
        white: white.to_string(),
        black: "b".to_string(),
        params: example_params(),
    };
    assert!(game(1, "a") == game(1, "c"));
    assert!(game(1, "a") != game(2, "a"));
}

#[test]
fn seeks_and_games_lend_their_number() {
    let seek = "Seek new 7 alice 5 600 20 A 0 21 1 0 0 ";
    let game = "GameList Add 4 a b 5 600 20 0 21 1 0 0";
    match (Message::from_str(seek).unwrap(), Message::from_str(game).unwrap()) {
        (Message::AddSeek(seek), Message::AddGame(game)) => {
            assert_eq!(Borrow::<u32>::borrow(&seek), &7);
            assert_eq!(Borrow::<u32>::borrow(&game), &4);
        }
        other => panic!("unexpected {:?}", other),
    }
    match (
        communication::Message::from_str(seek).unwrap(),
        communication::Message::from_str(game).unwrap(),
    ) {
        (communication::Message::AddSeek(seek), communication::Message::AddGame(game)) => {
            assert_eq!(Borrow::<u32>::borrow(&seek), &7);
            assert_eq!(Borrow::<u32>::borrow(&game), &4);
        }
        other => panic!("unexpected {:?}", other),
    }
}

fn hash_of<V: Hash>(value: &V) -> u64 {
    let mut hasher = DefaultHasher::new();
    value.hash(&mut hasher);
    hasher.finish()
}

#[test]
fn seeks_and_games_are_found_by_number() {
    let mut seeks = HashSet::new();
    let mut games = HashSet::new();
    let mut player_seeks = HashSet::new();
    let mut player_games = HashSet::new();
    for id in [4, 7] {
        let seek = format!("Seek new {id} alice 5 600 20 A 0 21 1 0 0 ");
        let game = format!("GameList Add {id} a b 5 600 20 0 21 1 0 0");
        match (Message::from_str(&seek).unwrap(), Message::from_str(&game).unwrap()) {
            (Message::AddSeek(seek), Message::AddGame(game)) => {
                assert_eq!(hash_of(&seek), hash_of(&id));
                assert_eq!(hash_of(&game), hash_of(&id));
                assert!(seeks.insert(seek) && games.insert(game));
            }
            other => panic!("unexpected {:?}", other),
        }
        match (
            communication::Message::from_str(&seek).unwrap(),
            communication::Message::from_str(&game).unwrap(),
        ) {
            (communication::Message::AddSeek(seek), communication::Message::AddGame(game)) => {
                assert_eq!(hash_of(&seek), hash_of(&id));
                assert_eq!(hash_of(&game), hash_of(&id));
                assert!(player_seeks.insert(seek) && player_games.insert(game));
            }
            other => panic!("unexpected {:?}", other),
        }
    }
    let id: u32 = 7;
    assert_eq!(seeks.get(&id).unwrap().id, 7);
    assert!(seeks.remove(&id) && !seeks.remove(&id) && seeks.len() == 1);
    assert!(games.remove(&id) && !games.contains(&id) && games.len() == 1);
    assert!(player_seeks.remove(&id) && !player_seeks.contains(&id));
    assert!(player_games.remove(&id) && !player_games.contains(&id));
}

#[test]
fn durations() {
    let d = Duration::from_millis(61_234);
    assert_eq!((d.as_secs(), d.subsec_nanos()), (61, 234_000_000));
    let d = Duration::from_secs(18446744073709551615);
    assert_eq!((d.as_secs(), d.subsec_nanos()), (18446744073709551615, 0));
    let d = Duration::from_millis(18446744073709551615);
    let s = std::time::Duration::from_millis(18446744073709551615);
    assert_eq!((d.as_secs(), d.subsec_nanos()), (s.as_secs(), s.subsec_nanos()));
}

#[test]
fn a_game_plays_under_its_number() {
    let data = ActiveGameData {
        white_remaining: Duration::from_secs(1),
        black_remaining: Duration::from_secs(2),
        last_sync: None,
    };
    let game = ActiveGame { data, id: 77 };
    assert_eq!(game.play(place(0, 0, Piece::Flat)).to_string(), "Game#77 P A1");
    let game = data_types::ActiveGame {
        data,
        game: data_types::Game {
            id: 78,
            white: "a".to_string(),
            black: "b".to_string(),
            params: data_types::GameParameters::new(
                5,
                Duration::from_secs(1),
                Duration::from_secs(1),
                0,
                21,
                1,
                true,
                false,
            )
            .unwrap(),
        },
    };
    assert_eq!(game.play(place(0, 0, Piece::Flat)).to_string(), "Game#78 P A1");
    assert_eq!(game.game().black(), "b");
}

#[test]
fn a_closed_channel_is_a_closed_connection() {
    assert_eq!(ActiveGame::update(None).unwrap_err(), ConnectionClosed);
    let update = GameUpdate::Played(place(1, 1, Piece::Wall));
    assert!(matches!(ActiveGame::update(Some(update)), Ok(GameUpdate::Played(_))));
    assert_eq!(data_types::ActiveGame::update(None).unwrap_err(), ConnectionClosed);
    assert_eq!(ConnectionClosed.message(), "Connection closed");
}

#[test]
fn a_request_keeps_its_reply_handle() {
    let sent = Request::Ping.send(5u8);
    assert_eq!(sent.1, 5);
    assert_eq!(sent.0.to_string(), "PING");
    let sent = communication::Request::Protocol(3).send('x');
    assert_eq!(sent.1, 'x');
    assert_eq!(sent.0.to_string(), "Protocol 3");
}
