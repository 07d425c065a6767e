//! What is made for a connection and told of it: parameters, logins, spans of
//! time and what comes through channels.

use vstd::prelude::*;

use crate::asking::{can_be_dropped, stays_on_board};
use crate::client;
use crate::communication;
use crate::data_types;
use crate::data_types::{from_channel, ConnectionClosed, UnsupportedParameters};
use crate::login::{
    conclude_opening, connect_as, connect_guest, token_of, ConnectError, ConnectOptions,
};
use crate::moves::{Move, Pattern, Square};
use crate::numbers::decimal;
use crate::time::Duration;

verus! {

/// Whether the server offers games on boards of this size, with these times and
/// this komi.
pub open spec fn is_offered(
    size: u32,
    initial_time: Duration,
    increment: Duration,
    half_komi: i32,
) -> bool {
    &&& size == 3 || size == 4 || size == 5 || size == 6 || size == 7 || size == 8
    &&& initial_time.nanos == 0
    &&& increment.nanos == 0
    &&& half_komi >= 0
    &&& half_komi < 9
}

/// Parameters are taken over as they are given if and only if the server offers
/// such games. The counts of pieces and whether the game is rated or one of a
/// tournament do not matter for that.
pub proof fn offered_parameters_are_taken(
    size: u32,
    initial_time: Duration,
    increment: Duration,
    half_komi: i32,
    flat_count: u32,
    cap_count: u32,
    flag: bool,
    tournament: bool,
    theirs: Result<client::GameParameters, UnsupportedParameters>,
    ours: Result<data_types::GameParameters, UnsupportedParameters>,
)
    requires
        call_ensures(
            client::GameParameters::new,
            (size, initial_time, increment, half_komi, flat_count, cap_count, flag, tournament),
            theirs,
        ),
        call_ensures(
            data_types::GameParameters::new,
            (size, initial_time, increment, half_komi, flat_count, cap_count, flag, tournament),
            ours,
        ),
    ensures
        theirs is Ok <==> is_offered(size, initial_time, increment, half_komi),
        ours is Ok <==> is_offered(size, initial_time, increment, half_komi),
        theirs matches Ok(params) ==> {
            &&& params.size == size
            &&& params.initial_time == initial_time
            &&& params.increment == increment
            &&& params.half_komi == half_komi
            &&& params.flat_count == flat_count
            &&& params.cap_count == cap_count
            &&& params.unrated == flag
            &&& params.tournament == tournament
        },
        ours matches Ok(params) ==> {
            &&& params.size == size
            &&& params.initial_time == initial_time
            &&& params.increment == increment
            &&& params.half_komi == half_komi
            &&& params.flat_count == flat_count
            &&& params.cap_count == cap_count
            &&& params.rated == flag
            &&& params.tournament == tournament
        },
{
}

/// A seek asks for what it is given, and is never refused.
pub proof fn seeks_are_taken(
    opponent: Option<String>,
    theirs: (client::Color, client::GameParameters),
    ours: (Option<data_types::Color>, data_types::GameParameters),
    their_seek: Result<client::SeekParameters, UnsupportedParameters>,
    our_seek: Result<data_types::SeekParameters, UnsupportedParameters>,
)
    requires
        call_ensures(client::SeekParameters::new, (opponent, theirs.0, theirs.1), their_seek),
        call_ensures(data_types::SeekParameters::new, (opponent, ours.0, ours.1), our_seek),
    ensures
        their_seek matches Ok(seek) && seek.opponent == opponent && seek.color == theirs.0
            && seek.params == theirs.1,
        our_seek matches Ok(seek) && seek.opponent == opponent && seek.color == ours.0
            && seek.params == ours.1,
{
}

/// Parameters tell what they hold.
pub proof fn parameters_tell_what_they_hold(
    params: data_types::GameParameters,
    numbers: (u32, i32, u32, u32),
    times: (Duration, Duration),
    flags: (bool, bool),
)
    requires
        call_ensures(data_types::GameParameters::size, (&params,), numbers.0),
        call_ensures(data_types::GameParameters::half_komi, (&params,), numbers.1),
        call_ensures(data_types::GameParameters::flat_count, (&params,), numbers.2),
        call_ensures(data_types::GameParameters::cap_count, (&params,), numbers.3),
        call_ensures(data_types::GameParameters::initial_time, (&params,), times.0),
        call_ensures(data_types::GameParameters::increment, (&params,), times.1),
        call_ensures(data_types::GameParameters::rated, (&params,), flags.0),
        call_ensures(data_types::GameParameters::tournament, (&params,), flags.1),
    ensures
        numbers == (params.size, params.half_komi, params.flat_count, params.cap_count),
        times == (params.initial_time, params.increment),
        flags == (params.rated, params.tournament),
{
}

/// Seeks and games tell what they hold.
pub proof fn seeks_and_games_tell_what_they_hold(
    seek: data_types::Seek,
    game: data_types::Game,
    active: data_types::ActiveGame,
    names: (&str, &str, &str),
    opponent: Option<&str>,
    color: Option<data_types::Color>,
    seek_params: &data_types::SeekParameters,
    params: (&data_types::GameParameters, &data_types::GameParameters),
    played: &data_types::Game,
)
    requires
        call_ensures(data_types::Seek::owner, (&seek,), names.0),
        call_ensures(data_types::Seek::params, (&seek,), seek_params),
        call_ensures(data_types::SeekParameters::opponent, (&seek.params,), opponent),
        call_ensures(data_types::SeekParameters::color, (&seek.params,), color),
        call_ensures(data_types::SeekParameters::params, (&seek.params,), params.0),
        call_ensures(data_types::Game::white, (&game,), names.1),
        call_ensures(data_types::Game::black, (&game,), names.2),
        call_ensures(data_types::Game::params, (&game,), params.1),
        call_ensures(data_types::ActiveGame::game, (&active,), played),
    ensures
        names.0@ == seek.owner@,
        *seek_params == seek.params,
        opponent is Some <==> seek.params.opponent is Some,
        opponent matches Some(name) ==> name@ == seek.params.opponent->0@,
        color == seek.params.color,
        *params.0 == seek.params.params,
        names.1@ == game.white@,
        names.2@ == game.black@,
        *params.1 == game.params,
        *played == active.game,
{
}

/// Spans of seconds and of milliseconds are as long as they are said to be, and
/// tell their whole seconds and the nanoseconds beyond.
pub proof fn spans_are_as_long_as_said(
    n: u64,
    seconds: Duration,
    millis: Duration,
    span: Duration,
    secs: u64,
    nanos: u32,
)
    requires
        call_ensures(Duration::from_secs, (n,), seconds),
        call_ensures(Duration::from_millis, (n,), millis),
        call_ensures(Duration::as_secs, (&span,), secs),
        call_ensures(Duration::subsec_nanos, (&span,), nanos),
    ensures
        seconds.secs == n && seconds.nanos == 0,
        millis.secs * 1000000000 + millis.nanos == n * 1000000,
        millis.nanos < 1000000000,
        secs == span.secs,
        nanos == span.nanos,
{
}

/// A user connects under the given name and with the given password. Nothing
/// else of a connection depends on the user: the program is unknown, the name of
/// the library is added, and the server is pinged every two seconds.
pub proof fn users_connect_as_given(
    username: String,
    password: String,
    options: ConnectOptions,
    guest: ConnectOptions,
)
    requires
        call_ensures(connect_as, (username, password), options),
        call_ensures(connect_guest, (), guest),
    ensures
        options.pseudo_username == username,
        options.password == password,
        options.client_name@ == "unknown"@,
        options.append_lib_name,
        options.ping_interval == (Duration { secs: 2, nanos: 0 }),
        guest.client_name@ == options.client_name@,
        guest.append_lib_name == options.append_lib_name,
        guest.ping_interval == options.ping_interval,
{
}

/// Guests log in under the name `Guest`, with twenty small letters for a
/// password.
pub proof fn guests_log_in_as_guest(
    options: ConnectOptions,
    lib: (&str, &str),
    requests: (client::Request, client::Request, client::Request),
    line: String,
)
    requires
        call_ensures(connect_guest, (), options),
        call_ensures(ConnectOptions::opening_requests, (options, lib.0, lib.1), requests),
        call_ensures(client::Request::to_string, (&requests.2,), line),
    ensures
        line@ == "Login Guest "@ + options.password@,
        options.password@.len() == 20,
        forall|i: int|
            0 <= i < options.password@.len() ==> 97 <= #[trigger] options.password@[i] as int
                <= 122,
{
    reveal_strlit("Login ");
    reveal_strlit("Guest");
    reveal_strlit(" ");
    reveal_strlit("Login Guest ");
    assert(line@ =~= "Login Guest "@ + options.password@);
}

/// A connection begins with the name of the program, to which that of the
/// library and its version are added if they are to be, with the first version
/// of the protocol, and with the login, in this order.
pub proof fn connections_begin_in_order(
    options: ConnectOptions,
    lib_name: &str,
    lib_version: &str,
    requests: (client::Request, client::Request, client::Request),
    lines: (String, String, String),
    full_name: String,
)
    requires
        call_ensures(
            ConnectOptions::opening_requests,
            (options, lib_name, lib_version),
            requests,
        ),
        call_ensures(client::Request::to_string, (&requests.0,), lines.0),
        call_ensures(client::Request::to_string, (&requests.1,), lines.1),
        call_ensures(client::Request::to_string, (&requests.2,), lines.2),
        call_ensures(
            ConnectOptions::full_client_name,
            (&options, lib_name, lib_version),
            full_name,
        ),
    ensures
        options.append_lib_name ==> full_name@ == options.client_name@ + seq!['+'] + lib_name@
            + seq!['-'] + lib_version@,
        !options.append_lib_name ==> full_name@ == options.client_name@,
        lines.0@ == "Client "@ + full_name@,
        lines.1@ == "Protocol 1"@,
        lines.2@ == "Login "@ + options.pseudo_username@ + seq![' '] + options.password@,
{
    reveal_strlit("+");
    reveal_strlit("-");
    reveal_strlit(" ");
    reveal_strlit("Protocol ");
    reveal_strlit("Protocol 1");
    assert("+"@ =~= seq!['+']);
    assert("-"@ =~= seq!['-']);
    assert(" "@ =~= seq![' ']);
    assert(decimal(1) =~= seq!['1']);
    assert(lines.1@ =~= "Protocol 1"@);
}

/// A token has one character for each byte, with that code.
pub proof fn tokens_are_spelled_by_codes(bytes: Vec<u8>, token: String)
    requires
        call_ensures(token_of, (&bytes,), token),
    ensures
        token@.len() == bytes@.len(),
        forall|i: int| 0 <= i < bytes@.len() ==> #[trigger] token@[i] as int == bytes@[i],
{
}

/// A connection comes about if and only if the server grants the protocol and
/// the login; what is not granted is told, the protocol first.
pub proof fn openings_need_protocol_and_login(
    protocol: bool,
    login: bool,
    r: Result<(), ConnectError>,
)
    requires
        call_ensures(conclude_opening, (protocol, login), r),
    ensures
        r is Ok <==> protocol && login,
        r matches Err(e) ==> (e == ConnectError::ProtocolRejected <==> !protocol),
        r matches Err(e) ==> (e == ConnectError::LoginFailed <==> protocol && !login),
{
}

/// What comes through a channel is handed on; a closed one is told.
pub proof fn channels_hand_on<U>(
    item: Option<U>,
    update: Option<client::GameUpdate>,
    our_update: Option<data_types::Update>,
    r: Result<U, ConnectionClosed>,
    updated: Result<client::GameUpdate, ConnectionClosed>,
    our_updated: Result<data_types::Update, ConnectionClosed>,
)
    requires
        call_ensures(from_channel::<U>, (item,), r),
        call_ensures(client::ActiveGame::update, (update,), updated),
        call_ensures(data_types::ActiveGame::update, (our_update,), our_updated),
    ensures
        item matches Some(i) ==> r == Ok::<U, ConnectionClosed>(i),
        item is None ==> r is Err,
        update matches Some(u) ==> updated == Ok::<client::GameUpdate, ConnectionClosed>(u),
        update is None ==> updated is Err,
        our_update matches Some(u) ==> our_updated == Ok::<data_types::Update, ConnectionClosed>(u),
        our_update is None ==> our_updated is Err,
{
}

/// A move is played in the game that it is played in, and a request is paired
/// with what it is sent with.
pub proof fn moves_are_played_in_their_game<T>(
    theirs: client::ActiveGame,
    ours: data_types::ActiveGame,
    m: Move,
    their_request: client::Request,
    our_request: communication::Request,
    reply: T,
    their_sent: client::SentRequest<T>,
    our_sent: communication::SentRequest<T>,
)
    requires
        call_ensures(client::ActiveGame::play, (&theirs, m), their_request),
        call_ensures(data_types::ActiveGame::play, (&ours, m), our_request),
        call_ensures(client::Request::send::<T>, (their_request, reply), their_sent),
        call_ensures(communication::Request::send::<T>, (our_request, reply), our_sent),
    ensures
        their_request == client::Request::Play(theirs.id, m),
        our_request == communication::Request::Play(ours.game.id, m),
        their_sent.0 == their_request && their_sent.1 == reply,
        our_sent.0 == our_request && our_sent.1 == reply,
{
}

/// Squares of the largest board, counts that can be dropped and moves that stay
/// on the board are told from others, and counts are counted.
pub proof fn moves_are_judged(
    square: Square,
    pattern: Pattern,
    m: Move,
    on_board: bool,
    droppable: bool,
    playable: bool,
    count: usize,
)
    requires
        call_ensures(Square::is_valid, (&square,), on_board),
        call_ensures(Pattern::is_valid, (&pattern,), droppable),
        call_ensures(Pattern::count_squares, (&pattern,), count),
        call_ensures(Move::is_playable, (&m,), playable),
    ensures
        on_board <==> square.column < 8 && square.row < 8,
        droppable <==> can_be_dropped(pattern.drops@),
        count == pattern.drops@.len(),
        playable <==> stays_on_board(m),
{
    crate::asking::lemma_sum_is_total(pattern.drops@);
    crate::asking::lemma_playable(m);
}

/// Two seeks or two games are equal if and only if their numbers are.
pub proof fn equality_is_of_numbers(
    seeks: (client::Seek, client::Seek, bool),
    games: (client::Game, client::Game, bool),
    players_seeks: (data_types::Seek, data_types::Seek, bool),
    players_games: (data_types::Game, data_types::Game, bool),
)
    requires
        call_ensures(<client::Seek as PartialEq>::eq, (&seeks.0, &seeks.1), seeks.2),
        call_ensures(<client::Game as PartialEq>::eq, (&games.0, &games.1), games.2),
        call_ensures(
            <data_types::Seek as PartialEq>::eq,
            (&players_seeks.0, &players_seeks.1),
            players_seeks.2,
        ),
        call_ensures(
            <data_types::Game as PartialEq>::eq,
            (&players_games.0, &players_games.1),
            players_games.2,
        ),
    ensures
        seeks.2 <==> seeks.0.id == seeks.1.id,
        games.2 <==> games.0.id == games.1.id,
        players_seeks.2 <==> players_seeks.0.id == players_seeks.1.id,
        players_games.2 <==> players_games.0.id == players_games.1.id,
{
}

} // verus!
