# tokio-takconnect

A Playtak client: a verified library for the protocol, and an asynchronous
client around it.

- `src/` is the library. It reads the server's lines, writes the client's
  requests and keeps the state of a connection, without any input or output of
  its own. Verus proves the contracts of its functions; `src/laws.rs` holds
  what is true of several functions together, such as that a move is read back
  from the line with which it is played, and that requests are answered in the
  order in which they were sent.
- `app/` connects to the server, moves lines and answers between tasks, and
  offers the client to its users.
- `tests/` runs the library on given lines.

What is not proved is named where it stands: how `takparse` reads squares and
drop counts and shifts squares, how `rand` draws letters, how a character is
appended to a string, and what a hasher makes of a number.

## Example

```rust
let mut client = connect_guest().await?;

let params = GameParameters::new(
    5,
    Duration::from_secs(600),
    Duration::from_secs(20),
    0,
    21,
    1,
    false,
    false,
)
.unwrap();
let seek = SeekParameters::new(None, Color::Any, params).unwrap();
client.seek(seek).await?;

let mut game = client.game().await?;
loop {
    match game.update().await? {
        GameUpdate::Played(m) => println!("Opponent plays: {m}"),
        GameUpdate::Ended(_) => break,
        _ => (),
    }
}
```
