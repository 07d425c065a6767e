use tokio_takconnect::client::{self, GameResultInner, Message, Seek};
use tokio_takconnect::communication::{self, Message as Player};
use tokio_takconnect::data_types::{self, GameResultInner as Inner};
use tokio_takconnect::errors::ParseError;
use tokio_takconnect::moves::{PatternError, SquareError};
use tokio_takconnect::numbers::IntegerError;
use tokio_takconnect::{
    Color, Direction, Duration, GameParameters, GameResult, Move, MoveKind, Pattern, Piece, Square,
};

fn read(s: &str) -> Result<Message, ParseError> {
    Message::from_str(s)
}

fn fails(s: &str) -> ParseError {
    read(s).unwrap_err()
}

fn square(column: u8, row: u8) -> Square {
    Square { column, row }
}

#[test]
fn answers() {
    assert_eq!(read("OK").unwrap(), Message::Okay);
    assert_eq!(read("OK whatever").unwrap(), Message::Okay);
    assert_eq!(read("NOK").unwrap(), Message::NotOk);
}

#[test]
fn greeting_gives_the_name() {
    assert_eq!(read("Welcome Guest42!").unwrap(), Message::LoggedIn("Guest42".to_string()));
    assert_eq!(read("Welcome a b!").unwrap(), Message::LoggedIn("a b".to_string()));
    for line in ["Welcome a#b: c!", "Welcome#a#b: c!", "Welcome:a#b: c!"] {
        let name = "a#b: c".to_string();
        assert_eq!(read(line).unwrap(), Message::LoggedIn(name.clone()));
        assert_eq!(Player::from_str(line).unwrap(), Player::LoggedIn(name));
    }
    assert_eq!(fails("Welcome Guest42"), ParseError::MissingExclamation);
    assert_eq!(fails("Welcome"), ParseError::MissingExclamation);
    assert_eq!(read("Welcome!").unwrap(), Message::Message("Welcome!".to_string()));
    assert_eq!(
        read("Login or Register").unwrap(),
        Message::Message("Login or Register".to_string())
    );
}

#[test]
fn new_seek() {
    let message = read("Seek new 17 alice 6 900 10 W 4 30 1 1 0 bob").unwrap();
    match message {
        Message::AddSeek(Seek { id, seeker, params }) => {
            assert_eq!(id, 17);
            assert_eq!(seeker, "alice");
            assert_eq!(params.opponent, Some("bob".to_string()));
            assert_eq!(params.color, Color::White);
            assert_eq!(
                params.params,
                GameParameters {
                    size: 6,
                    initial_time: Duration { secs: 900, nanos: 0 },
                    increment: Duration { secs: 10, nanos: 0 },
                    half_komi: 4,
                    flat_count: 30,
                    cap_count: 1,
                    unrated: true,
                    tournament: false,
                }
            );
        }
        other => panic!("unexpected {:?}", other),
    }
}

#[test]
fn new_seek_without_opponent() {
    match read("Seek new 1 a 5 600 20 A 0 21 1 0 1 ").unwrap() {
        Message::AddSeek(seek) => {
            assert_eq!(seek.params.opponent, None);
            assert_eq!(seek.params.color, Color::Any);
            assert!(!seek.params.params.unrated);
            assert!(seek.params.params.tournament);
        }
        other => panic!("unexpected {:?}", other),
    }
    assert_eq!(fails("Seek new 1 a 5 600 20 A 0 21 1 0 1"), ParseError::UnexpectedEnd);
}

#[test]
fn new_seek_in_player_terms() {
    match communication::Message::from_str("Seek new 17 alice 6 900 10 B 4 30 1 0 1 ").unwrap() {
        communication::Message::AddSeek(seek) => {
            assert_eq!(seek.owner(), "alice");
            assert_eq!(seek.params().opponent(), None);
            assert_eq!(seek.params().color(), Some(data_types::Color::Black));
            assert!(seek.params().params().rated());
            assert!(seek.params().params().tournament());
            assert_eq!(seek.params().params().half_komi(), 4);
        }
        other => panic!("unexpected {:?}", other),
    }
}

#[test]
fn an_unclear_rating_is_neither_unrated_nor_rated() {
    let line = "GameList Add 3 a b 5 60 5 0 21 1 x y";
    match client::Message::from_str(line).unwrap() {
        client::Message::AddGame(game) => {
            assert!(!game.params.unrated);
            assert!(!game.params.tournament);
        }
        other => panic!("unexpected {:?}", other),
    }
    match communication::Message::from_str(line).unwrap() {
        communication::Message::AddGame(game) => assert!(!game.params().rated()),
        other => panic!("unexpected {:?}", other),
    }
}

#[test]
fn seek_errors() {
    assert_eq!(fails("Seek"), ParseError::UnexpectedSeek);
    assert_eq!(fails("Seek old 1"), ParseError::UnexpectedSeek);
    assert_eq!(fails("Seek new"), ParseError::UnexpectedEnd);
    assert_eq!(fails("Seek new x"), ParseError::Integer(IntegerError::InvalidDigit));
    assert_eq!(fails("Seek new 1 a 5 600 20 X 0 21 1 0 1 "), ParseError::UnknownColor);
    assert_eq!(
        fails("Seek new 1 a 5 600 20 A 2147483648 21 1 0 1 "),
        ParseError::Integer(IntegerError::PosOverflow)
    );
    assert_eq!(
        fails("Seek new 1 a 5 600 20 A -2147483649 21 1 0 1 "),
        ParseError::Integer(IntegerError::NegOverflow)
    );
    assert_eq!(fails("Seek remove "), ParseError::Integer(IntegerError::Empty));
    assert_eq!(read("Seek remove 9").unwrap(), Message::RemoveSeek(9));
}

#[test]
fn game_list() {
    match read("GameList Add 3 alice bob 5 600 20 -2 21 1 1 1").unwrap() {
        Message::AddGame(game) => {
            assert_eq!(game.id, 3);
            assert_eq!(game.white, "alice");
            assert_eq!(game.black, "bob");
            assert_eq!(game.params.size, 5);
            assert_eq!(game.params.initial_time, Duration::from_secs(600));
            assert_eq!(game.params.increment, Duration::from_secs(20));
            assert_eq!(game.params.half_komi, -2);
            assert_eq!(game.params.flat_count, 21);
            assert_eq!(game.params.cap_count, 1);
            assert!(game.params.unrated && game.params.tournament);
        }
        other => panic!("unexpected {:?}", other),
    }
    assert_eq!(read("GameList Remove 3").unwrap(), Message::RemoveGame(3));
    assert_eq!(fails("GameList Change 3"), ParseError::UnexpectedGameList);
    assert_eq!(fails("GameList Add 3 alice bob"), ParseError::UnexpectedEnd);
}

#[test]
fn listed_game_in_player_terms() {
    match communication::Message::from_str("GameList Add 3 alice bob 5 600 20 0 21 1 1 0").unwrap() {
        communication::Message::AddGame(game) => {
            assert_eq!(game.white(), "alice");
            assert_eq!(game.black(), "bob");
            assert_eq!(game.params().size(), 5);
            assert_eq!(game.params().initial_time(), Duration::from_secs(600));
            assert_eq!(game.params().increment(), Duration::from_secs(20));
            assert_eq!(game.params().flat_count(), 21);
            assert_eq!(game.params().cap_count(), 1);
            assert!(!game.params().rated());
        }
        other => panic!("unexpected {:?}", other),
    }
}

#[test]
fn game_start_and_clocks() {
    assert_eq!(read("Game Start 12 5 alice vs bob white 600").unwrap(), Message::StartGame(12));
    assert_eq!(
        read("Game#12 Timems 61500 60000").unwrap(),
        Message::SyncClocks(
            12,
            Duration { secs: 61, nanos: 500_000_000 },
            Duration { secs: 60, nanos: 0 }
        )
    );
    assert_eq!(fails("Game#12"), ParseError::UnexpectedEnd);
    assert_eq!(fails("Game#x P A1"), ParseError::Integer(IntegerError::InvalidDigit));
    assert_eq!(fails("Game#12 Timems 61500"), ParseError::UnexpectedEnd);
}

#[test]
fn game_results() {
    let result = |s: &str| match read(s).unwrap() {
        Message::GameOver(7, GameResult(inner)) => inner,
        other => panic!("unexpected {:?}", other),
    };
    assert_eq!(result("Game#7 Over R-0"), GameResultInner::RoadWhite);
    assert_eq!(result("Game#7 Over 0-R"), GameResultInner::RoadBlack);
    assert_eq!(result("Game#7 Over F-0"), GameResultInner::FlatWhite);
    assert_eq!(result("Game#7 Over 0-F"), GameResultInner::FlatBlack);
    assert_eq!(result("Game#7 Over 1-0"), GameResultInner::OtherWhite);
    assert_eq!(result("Game#7 Over 0-1"), GameResultInner::OtherBlack);
    assert_eq!(result("Game#7 Over 1/2-1/2"), GameResultInner::Draw);
    assert_eq!(result("Game#7 Abandoned. bob quit"), GameResultInner::OtherDecisive);
    assert_eq!(fails("Game#7 Over 0-0"), ParseError::MalformedResult);
    assert_eq!(fails("Game#7 Over"), ParseError::UnexpectedEnd);
}

#[test]
fn results_in_player_terms() {
    for (text, inner) in [
        ("R-0", Inner::RoadWhite),
        ("0-R", Inner::RoadBlack),
        ("F-0", Inner::FlatWhite),
        ("0-F", Inner::FlatBlack),
        ("1-0", Inner::OtherWhite),
        ("0-1", Inner::OtherBlack),
        ("1/2-1/2", Inner::Draw),
    ] {
        assert_eq!(data_types::GameResult::from_str(text), Ok(data_types::GameResult(inner)));
    }
    assert_eq!(data_types::GameResult::from_str("r-0"), Err(ParseError::MalformedResult));
    assert_eq!(
        communication::Message::from_str("Game#7 Abandoned. bob quit").unwrap(),
        communication::Message::Unknown("Game#7 Abandoned. bob quit".to_string())
    );
}

#[test]
fn lines_and_results_are_parsed() {
    assert_eq!("Game Start 4".parse(), Ok(Message::StartGame(4)));
    assert_eq!("Game Start".parse::<Message>(), Err(fails("Game Start")));
    assert_eq!("Game Start 4".parse(), Ok(Player::StartGame(4)));
    assert_eq!("Welcome a".parse::<Player>(), Err(ParseError::MissingExclamation));
    assert_eq!("0-F".parse(), Ok(client::GameResult(GameResultInner::FlatBlack)));
    assert_eq!("0-f".parse::<client::GameResult>(), Err(ParseError::MalformedResult));
    assert_eq!("1/2-1/2".parse(), Ok(data_types::GameResult(Inner::Draw)));
    assert_eq!("".parse::<data_types::GameResult>(), Err(ParseError::MalformedResult));
}

#[test]
fn an_abandoned_game_is_over_whatever_else_is_said() {
    for line in ["Game#4 Abandoned.", "Game:4 Abandoned. ", "Game 4 Abandoned. a  quit #1:"] {
        assert_eq!(
            read(line).unwrap(),
            Message::GameOver(4, client::GameResult(GameResultInner::OtherDecisive))
        );
        assert_eq!(Player::from_str(line).unwrap(), Player::Unknown(line.to_string()));
    }
}

#[test]
fn placements() {
    let place = |column, row, piece| {
        Message::Play(5, Move { square: square(column, row), kind: MoveKind::Place(piece) })
    };
    assert_eq!(read("Game#5 P A1").unwrap(), place(0, 0, Piece::Flat));
    assert_eq!(read("Game#5 P h8 W").unwrap(), place(7, 7, Piece::Wall));
    assert_eq!(read("Game#5 P C2 C more").unwrap(), place(2, 1, Piece::Cap));
    assert_eq!(fails("Game#5 P C2 F"), ParseError::UnexpectedPiece);
    assert_eq!(fails("Game#5 P C2 "), ParseError::UnexpectedPiece);
    assert_eq!(fails("Game#5 P"), ParseError::UnexpectedEnd);
    assert_eq!(fails("Game#5 P C"), ParseError::Square(SquareError::Malformed));
    assert_eq!(fails("Game#5 P C22"), ParseError::Square(SquareError::Malformed));
    assert_eq!(fails("Game#5 P I1"), ParseError::Square(SquareError::BadColumn));
    assert_eq!(fails("Game#5 P A9"), ParseError::Square(SquareError::BadRow));
    assert_eq!(fails("Game#5 P Z9"), ParseError::Square(SquareError::BadColumn));
}

#[test]
fn spreads() {
    let spread = |column, row, direction, drops: &[u32]| {
        let pattern = Pattern { drops: drops.to_vec() };
        Message::Play(
            5,
            Move { square: square(column, row), kind: MoveKind::Spread(direction, pattern) },
        )
    };
    assert_eq!(read("Game#5 M A1 A3 1 2").unwrap(), spread(0, 0, Direction::Up, &[1, 2]));
    assert_eq!(read("Game#5 M A3 A1 2 1").unwrap(), spread(0, 2, Direction::Down, &[2, 1]));
    assert_eq!(read("Game#5 M B2 E2 1 1 1").unwrap(), spread(1, 1, Direction::Right, &[1, 1, 1]));
    assert_eq!(read("Game#5 M E2 D2 8").unwrap(), spread(4, 1, Direction::Left, &[8]));
    assert_eq!(read("Game#5 M E2 D2 2 13").unwrap(), spread(4, 1, Direction::Left, &[2, 1, 3]));
    assert_eq!(fails("Game#5 M A1 B2 1"), ParseError::NotStraight);
    assert_eq!(fails("Game#5 M A1 A1 1"), ParseError::NotStraight);
    assert_eq!(fails("Game#5 M A1"), ParseError::UnexpectedEnd);
    assert_eq!(fails("Game#5 M A1 A2"), ParseError::Pattern(PatternError::Ambiguous));
    assert_eq!(fails("Game#5 M A1 A2 9"), ParseError::Pattern(PatternError::Malformed));
    assert_eq!(fails("Game#5 M A1 A2 0"), ParseError::Pattern(PatternError::Malformed));
    assert_eq!(fails("Game#5 M A1 A2 5 4"), ParseError::Pattern(PatternError::TooBig));
    assert_eq!(fails("Game#5 M A1 A2 5 4 x"), ParseError::Pattern(PatternError::TooBig));
    assert_eq!(fails("Game#5 M A1 A2 5 x 4"), ParseError::Pattern(PatternError::Malformed));
    assert_eq!(
        fails("Game#5 M A1 A2 1 1 1 1 1 1 1 1"),
        ParseError::Pattern(PatternError::TooLong)
    );
    assert_eq!(
        fails("Game#5 M A1 A2 1 1 1 1 1 1 1 1 x"),
        ParseError::Pattern(PatternError::Malformed)
    );
    assert_eq!(
        read("Game#5 M A1 A8 1 1 1 1 1 1 2").unwrap(),
        spread(0, 0, Direction::Up, &[1, 1, 1, 1, 1, 1, 2])
    );
}

#[test]
fn everything_else() {
    assert_eq!(read("Online 31").unwrap(), Message::Online(31));
    assert_eq!(read("Online +31").unwrap(), Message::Online(31));
    assert_eq!(fails("Online"), ParseError::Integer(IntegerError::Empty));
    assert_eq!(fails("Online -1"), ParseError::Integer(IntegerError::InvalidDigit));
    assert_eq!(fails("Online +"), ParseError::Integer(IntegerError::InvalidDigit));
    assert_eq!(fails("Online 4294967296"), ParseError::Integer(IntegerError::PosOverflow));
    assert_eq!(read("Online 4294967295").unwrap(), Message::Online(4294967295));
    assert_eq!(
        read("Message Hello: you").unwrap(),
        Message::Message("Hello: you".to_string())
    );
    assert_eq!(read("Error:no such thing").unwrap(), Message::Error("no such thing".to_string()));
    assert_eq!(read("Shout <a> hi").unwrap(), Message::Unknown("Shout <a> hi".to_string()));
    assert_eq!(read("").unwrap(), Message::Unknown("".to_string()));
    assert_eq!(
        read("Game#5 RequestUndo").unwrap(),
        Message::Unknown("Game#5 RequestUndo".to_string())
    );
    assert_eq!(
        communication::Message::from_str("Shout <ä> hi").unwrap(),
        communication::Message::Unknown("Shout <ä> hi".to_string())
    );
}

#[test]
fn both_terms_agree_on_plain_messages() {
    assert_eq!(Player::from_str("OK").unwrap(), Player::Okay);
    assert_eq!(Player::from_str("NOK").unwrap(), Player::NotOk);
    assert_eq!(Player::from_str("Welcome x!").unwrap(), Player::LoggedIn("x".to_string()));
    assert_eq!(Player::from_str("Seek remove 4").unwrap(), Player::RemoveSeek(4));
    assert_eq!(Player::from_str("GameList Remove 4").unwrap(), Player::RemoveGame(4));
    assert_eq!(Player::from_str("Game Start 4").unwrap(), Player::StartGame(4));
    assert_eq!(
        Player::from_str("Game#4 Timems 1 1001").unwrap(),
        Player::SyncClocks(4, Duration::from_millis(1), Duration::from_millis(1001))
    );
    assert_eq!(
        Player::from_str("Game#4 Over F-0").unwrap(),
        Player::GameOver(4, data_types::GameResult::from_str("F-0").unwrap())
    );
    assert_eq!(
        Player::from_str("Game#4 P B1 C").unwrap(),
        Player::Play(4, Move { square: square(1, 0), kind: MoveKind::Place(Piece::Cap) })
    );
    assert_eq!(Player::from_str("Online 2").unwrap(), Player::Online(2));
    assert_eq!(Player::from_str("Message m").unwrap(), Player::Message("m".to_string()));
    assert_eq!(Player::from_str("Error e").unwrap(), Player::Error("e".to_string()));
}

#[test]
fn error_texts() {
    for (error, text) in [
        (ParseError::UnexpectedEnd, "unexpected end of tokens"),
        (ParseError::UnknownColor, "unknown color"),
        (ParseError::UnexpectedSeek, "unexpected \"Seek\" message sub-type"),
        (ParseError::UnexpectedGameList, "unexpected \"GameList\" message sub-type"),
        (ParseError::MalformedResult, "malformed game result"),
        (ParseError::UnexpectedPiece, "unexpected piece"),
        (ParseError::NotStraight, "start and end squares don't form a straight line"),
        (ParseError::MissingExclamation, "missing exclamation mark after username"),
    ] {
        assert_eq!(error.message(), text);
    }
}

#[test]
fn outside_error_texts() {
    for (kind, text) in [
        (IntegerError::Empty, ""),
        (IntegerError::InvalidDigit, "x"),
        (IntegerError::PosOverflow, "99999999999"),
        (IntegerError::NegOverflow, "-99999999999"),
    ] {
        let error = text.parse::<i32>().unwrap_err();
        assert_eq!(ParseError::Integer(kind).message(), error.to_string());
    }
    for (kind, error) in [
        (SquareError::Malformed, takparse::ParseSquareError::Malformed),
        (SquareError::BadColumn, takparse::ParseSquareError::BadColumn),
        (SquareError::BadRow, takparse::ParseSquareError::BadRow),
    ] {
        assert_eq!(ParseError::Square(kind).message(), error.to_string());
    }
    for (kind, error) in [
        (PatternError::Malformed, takparse::ParsePatternError::Malformed),
        (PatternError::Ambiguous, takparse::ParsePatternError::Ambiguous),
        (PatternError::TooLong, takparse::ParsePatternError::TooLong),
        (PatternError::TooBig, takparse::ParsePatternError::TooBig),
    ] {
        assert_eq!(ParseError::Pattern(kind).message(), error.to_string());
    }
}
