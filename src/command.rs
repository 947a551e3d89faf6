use vstd::prelude::*;

verus! {

/// An inbound message, as the transport hands it over.
#[derive(Debug, PartialEq, Eq)]
pub enum Message {
    /// A text frame.
    Text(String),
    /// Any other frame (binary, ping, pong, close); such frames are ignored.
    NonText,
}

/// A movement command, decoded from the text of a message.
#[derive(Clone, Copy, Debug, PartialEq, Eq, Structural)]
pub enum Command {
    Right,
    Left,
    Up,
    Down,
    /// Any text outside the command vocabulary.
    Ignored,
}

/// The command named by a text: an exact, case-sensitive match.
pub open spec fn command_of(text: Seq<char>) -> Command {
    if text == "right"@ {
        Command::Right
    } else if text == "left"@ {
        Command::Left
    } else if text == "up"@ {
        Command::Up
    } else if text == "down"@ {
        Command::Down
    } else {
        Command::Ignored
    }
}

/// How far a command moves a position along x and y.
pub open spec fn offset(c: Command) -> (int, int) {
    match c {
        Command::Right => (10, 0),
        Command::Left => (-10, 0),
        Command::Up => (0, -10),
        Command::Down => (0, 10),
        Command::Ignored => (0, 0),
    }
}

/// Whether a point can be held by the `i32` coordinates of a position.
pub open spec fn on_grid(x: int, y: int) -> bool {
    i32::MIN <= x <= i32::MAX && i32::MIN <= y <= i32::MAX
}

/// The position after a command: moved by its offset, or left as it is where the move
/// would take a coordinate out of the range of `i32`.
pub open spec fn step(pos: (i32, i32), c: Command) -> (i32, i32) {
    let x = pos.0 + offset(c).0;
    let y = pos.1 + offset(c).1;
    if on_grid(x, y) {
        (x as i32, y as i32)
    } else {
        pos
    }
}

/// Decodes the text of a message into a command.
pub fn decode(text: &String) -> (c: Command)
    ensures
        c == command_of(text@),
{
    if text.eq(&String::from_str("right")) {
        Command::Right
    } else if text.eq(&String::from_str("left")) {
        Command::Left
    } else if text.eq(&String::from_str("up")) {
        Command::Up
    } else if text.eq(&String::from_str("down")) {
        Command::Down
    } else {
        Command::Ignored
    }
}

impl Command {
    /// The position after this command.
    pub fn apply(self, pos: (i32, i32)) -> (r: (i32, i32))
        ensures
            r == step(pos, self),
    {
        match self {
            Command::Right => if pos.0 <= i32::MAX - 10 {
                (pos.0 + 10, pos.1)
            } else {
                pos
            },
            Command::Left => if pos.0 >= i32::MIN + 10 {
                (pos.0 - 10, pos.1)
            } else {
                pos
            },
            Command::Up => if pos.1 >= i32::MIN + 10 {
                (pos.0, pos.1 - 10)
            } else {
                pos
            },
            Command::Down => if pos.1 <= i32::MAX - 10 {
                (pos.0, pos.1 + 10)
            } else {
                pos
            },
            Command::Ignored => pos,
        }
    }
}

/// What a text does to a position: "right" adds ten to x, "left" takes ten from x, "up"
/// takes ten from y and "down" adds ten to y, wherever the result stays within `i32`;
/// any other text leaves the position unchanged.
pub proof fn lemma_command_semantics(pos: (i32, i32), text: Seq<char>)
    ensures
        text == "right"@ && pos.0 + 10 <= i32::MAX ==> step(pos, command_of(text)).0 == pos.0 + 10
            && step(pos, command_of(text)).1 == pos.1,
        text == "left"@ && pos.0 - 10 >= i32::MIN ==> step(pos, command_of(text)).0 == pos.0 - 10
            && step(pos, command_of(text)).1 == pos.1,
        text == "up"@ && pos.1 - 10 >= i32::MIN ==> step(pos, command_of(text)).0 == pos.0 && step(
            pos,
            command_of(text),
        ).1 == pos.1 - 10,
        text == "down"@ && pos.1 + 10 <= i32::MAX ==> step(pos, command_of(text)).0 == pos.0
            && step(pos, command_of(text)).1 == pos.1 + 10,
        text != "right"@ && text != "left"@ && text != "up"@ && text != "down"@ ==> step(
            pos,
            command_of(text),
        ) == pos,
{
    reveal_strlit("right");
    reveal_strlit("left");
    reveal_strlit("up");
    reveal_strlit("down");
    assert("right"@.len() == 5);
    assert("left"@.len() == 4 && "left"@[0] == 'l');
    assert("up"@.len() == 2);
    assert("down"@.len() == 4 && "down"@[0] == 'd');
}

} // verus!
