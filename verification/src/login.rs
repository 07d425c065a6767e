//! How a connection begins: under which name the client introduces itself and
//! logs in, and what becomes of the connection when the server refuses.

use rand::{distributions::Uniform, prelude::StdRng, Rng, SeedableRng};

use vstd::prelude::*;

use crate::client::{Request, RequestView};
use crate::time::Duration;

verus! {

/// With what a connection is made.
#[derive(Debug)]
pub struct ConnectOptions {
    /// The name to log in with; `Guest` makes the server choose one.
    pub pseudo_username: String,
    pub password: String,
    /// The name of the program that connects.
    pub client_name: String,
    /// Whether the name and version of this library are added to that name.
    pub append_lib_name: bool,
    /// How often the server is pinged.
    pub ping_interval: Duration,
}

/// How many letters the token of a guest has.
pub const TOKEN_LENGTH: usize = 20;

/// Draws from `rand`: `StdRng::from_entropy` seeds a generator from the
/// machine, and `Rng::sample_iter` with a `Uniform` over a closed range draws
/// bytes from that range, as many as are taken. Which bytes come is left to
/// chance. `Uniform` panics on an empty range, and the seeding panics where
/// the machine has no randomness to give.
#[verifier::external_body]
fn draw_bytes(low: u8, high: u8, count: usize) -> (r: Vec<u8>)
    requires
        low <= high,
        count <= isize::MAX,
    ensures
        r@.len() == count,
        forall|i: int| 0 <= i < count ==> low <= #[trigger] r@[i] <= high,
{
    StdRng::from_entropy().sample_iter(Uniform::from(low..=high)).take(count).collect()
}

/// The text whose characters have the codes `bytes`.
pub open spec fn text_of(bytes: Seq<u8>) -> Seq<char> {
    bytes.map_values(|b: u8| b as char)
}

/// The text whose characters have the given codes.
pub fn token_of(bytes: &Vec<u8>) -> (r: String)
    ensures
        r@ == text_of(bytes@),
{
    let mut r = String::new();
    let mut i: usize = 0;
    while i < bytes.len()
        invariant
            i <= bytes.len(),
            r@ == text_of(bytes@.take(i as int)),
        decreases bytes.len() - i,
    {
        r.push(bytes[i] as char);
        i += 1;
        assert(text_of(bytes@.take(i as int)) =~= text_of(bytes@.take(i - 1)).push(
            bytes@[i - 1] as char,
        ));
    }
    assert(bytes@.take(i as int) =~= bytes@);
    r
}

/// Whether `s` can be the token of a guest: small letters, as many as
/// a token has.
pub open spec fn is_token(s: Seq<char>) -> bool {
    &&& s.len() == TOKEN_LENGTH
    &&& forall|i: int| 0 <= i < s.len() ==> 'a' <= #[trigger] s[i] <= 'z'
}

/// With what a user of this name connects.
pub fn connect_as(username: String, password: String) -> (r: ConnectOptions)
    ensures
        r.pseudo_username == username,
        r.password == password,
        r.client_name@ == "unknown"@,
        r.append_lib_name,
        r.ping_interval == Duration::spec_from_millis(2000),
{
    ConnectOptions {
        pseudo_username: username,
        password,
        client_name: "unknown".to_owned(),
        append_lib_name: true,
        ping_interval: Duration::from_millis(2_000),
    }
}

/// With what a guest connects. The token that stands in for a password is
/// drawn at random.
pub fn connect_guest() -> (r: ConnectOptions)
    ensures
        r.pseudo_username@ == "Guest"@,
        is_token(r.password@),
        r.client_name@ == "unknown"@,
        r.append_lib_name,
        r.ping_interval == Duration::spec_from_millis(2000),
{
    let letters = draw_bytes(97, 122, TOKEN_LENGTH);
    let token = token_of(&letters);
    assert forall|i: int| 0 <= i < token@.len() implies 'a' <= #[trigger] token@[i] <= 'z' by {
        assert(97 <= letters@[i] <= 122);
    }
    connect_as("Guest".to_owned(), token)
}

impl ConnectOptions {
    /// The name under which the client introduces itself, given the name and
    /// version of this library.
    pub open spec fn spec_full_client_name(
        self,
        lib_name: Seq<char>,
        lib_version: Seq<char>,
    ) -> Seq<char> {
        if self.append_lib_name {
            self.client_name@ + "+"@ + lib_name + "-"@ + lib_version
        } else {
            self.client_name@
        }
    }

    /// The name under which the client introduces itself, given the name and
    /// version of this library.
    pub fn full_client_name(&self, lib_name: &str, lib_version: &str) -> (r: String)
        ensures
            r@ == self.spec_full_client_name(lib_name@, lib_version@),
    {
        let mut name = self.client_name.clone();
        if self.append_lib_name {
            name.append("+");
            name.append(lib_name);
            name.append("-");
            name.append(lib_version);
        }
        name
    }

    /// The requests that begin a connection: the client introduces itself,
    /// asks for the first version of the protocol and logs in.
    pub fn opening_requests(self, lib_name: &str, lib_version: &str) -> (r: (
        Request,
        Request,
        Request,
    ))
        ensures
            r.0@ == RequestView::Client(self.spec_full_client_name(lib_name@, lib_version@)),
            r.1@ == RequestView::Protocol(1),
            r.2@ == RequestView::Login(self.pseudo_username@, self.password@),
    {
        let name = self.full_client_name(lib_name, lib_version);
        (
            Request::Client(name),
            Request::Protocol(1),
            Request::Login(self.pseudo_username, self.password),
        )
    }
}

/// Why no connection comes about.
#[derive(Debug, Clone, Copy, PartialEq, Eq, Structural)]
pub enum ConnectError {
    /// The server does not speak the first version of the protocol.
    ProtocolRejected,
    /// The server does not let the user in.
    LoginFailed,
}

impl ConnectError {
    /// What the error says in words.
    pub open spec fn spec_message(self) -> Seq<char> {
        match self {
            ConnectError::ProtocolRejected => "Playtak rejected protocol upgrade to version 1"@,
            ConnectError::LoginFailed => "Failed to log in with the provided credentials"@,
        }
    }

    /// What the error says in words.
    pub fn message(self) -> (r: &'static str)
        ensures
            r@ == self.spec_message(),
    {
        match self {
            ConnectError::ProtocolRejected => "Playtak rejected protocol upgrade to version 1",
            ConnectError::LoginFailed => "Failed to log in with the provided credentials",
        }
    }
}

/// What becomes of a connection when the server granted the protocol and the
/// login or not. Whether it granted the client's name does not matter.
pub fn conclude_opening(protocol: bool, login: bool) -> (r: Result<(), ConnectError>)
    ensures
        r == if !protocol {
            Err::<(), ConnectError>(ConnectError::ProtocolRejected)
        } else if !login {
            Err(ConnectError::LoginFailed)
        } else {
            Ok(())
        },
{
    if !protocol {
        Err(ConnectError::ProtocolRejected)
    } else if !login {
        Err(ConnectError::LoginFailed)
    } else {
        Ok(())
    }
}

} // verus!
