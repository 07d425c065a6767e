//! The protocol of a Playtak client: what a client says to the server, what
//! the server says to it, and how the state of a connection follows from both.
//!
//! A line of the server is read by [`wire`], word by word. Two modules say
//! what is in it: [`client`] in the server's terms, in which a game is unrated
//! or not and a seek names a color or any, and [`communication`] with
//! [`data_types`] in the terms of a player who looks at seeks and games. Both
//! write the requests of a client. [`session`] keeps the state of a
//! connection, [`login`] says how one begins, and [`laws`] holds what is true
//! of all of them together. What each call does is stated over its arguments
//! and its result: in [`notation`] for words and numbers, in [`lines`] and
//! [`listings`] for the server's lines, in [`asking`] for requests and moves, in
//! [`steps`] for the state of a connection and in [`values`] for the rest.
//! Seeks and games are told apart, looked up and hashed ([`hashing`]) by their
//! numbers.
//!
//! Nothing here touches the network, the clock or the disk: lines come in and
//! go out as text, and the moment at which a message came is handed in.

pub mod asking;
pub mod client;
pub mod communication;
pub mod data_types;
pub mod errors;
pub mod hashing;
pub mod laws;
pub mod lines;
pub mod listings;
pub mod login;
pub mod moves;
pub mod notation;
pub mod numbers;
pub mod session;
pub mod steps;
pub mod text;
pub mod time;
pub mod values;
pub mod wire;

pub use client::{Color, GameParameters, GameResult, GameUpdate, SeekParameters};
pub use login::{connect_as, connect_guest};
pub use moves::{Direction, Move, MoveKind, Pattern, Piece, Square};
pub use time::Duration;
