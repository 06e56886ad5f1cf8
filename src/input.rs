//! Input events as the viewer receives them, the commands they stand for, and
//! the mapping from one to the other.
use vstd::prelude::*;
use crate::camera::Direction;

verus! {

/// The keys the viewer tells apart; every other key is `Other`.
#[derive(Clone, Copy, Debug, PartialEq, Eq, Structural)]
pub enum Key {
    Plus,
    Minus,
    M,
    J,
    Comma,
    Period,
    Up,
    Down,
    Left,
    Right,
    Other,
}

/// A decoded window event.
#[derive(Clone, Copy, Debug, PartialEq, Eq, Structural)]
pub enum Event {
    CloseRequested,
    Resized,
    Refresh,
    KeyDown(Key),
    KeyUp(Key),
    Other,
}

/// What an event asks the viewer to do.
#[derive(Clone, Copy, Debug, PartialEq, Eq, Structural)]
pub enum Command {
    Close,
    RedrawRequest,
    DoubleIterations,
    HalveIterations,
    SelectMandelbrot,
    SelectJulia,
    Pan(Direction),
    ZoomIn,
    ZoomOut,
    Ignore,
}

/// The command a pressed key stands for.
pub open spec fn key_command(k: Key) -> Command {
    match k {
        Key::Plus => Command::DoubleIterations,
        Key::Minus => Command::HalveIterations,
        Key::M => Command::SelectMandelbrot,
        Key::J => Command::SelectJulia,
        Key::Comma => Command::ZoomOut,
        Key::Period => Command::ZoomIn,
        Key::Up => Command::Pan(Direction::Up),
        Key::Down => Command::Pan(Direction::Down),
        Key::Left => Command::Pan(Direction::Left),
        Key::Right => Command::Pan(Direction::Right),
        Key::Other => Command::Ignore,
    }
}

/// The command an event stands for.
pub open spec fn event_command(e: Event) -> Command {
    match e {
        Event::CloseRequested => Command::Close,
        Event::Resized | Event::Refresh => Command::RedrawRequest,
        Event::KeyDown(k) => key_command(k),
        Event::KeyUp(_) | Event::Other => Command::Ignore,
    }
}

/// The command that a pressed key stands for.
pub fn command_for_key(k: Key) -> (r: Command)
    ensures
        r == key_command(k),
{
    match k {
        Key::Plus => Command::DoubleIterations,
        Key::Minus => Command::HalveIterations,
        Key::M => Command::SelectMandelbrot,
        Key::J => Command::SelectJulia,
        Key::Comma => Command::ZoomOut,
        Key::Period => Command::ZoomIn,
        Key::Up => Command::Pan(Direction::Up),
        Key::Down => Command::Pan(Direction::Down),
        Key::Left => Command::Pan(Direction::Left),
        Key::Right => Command::Pan(Direction::Right),
        Key::Other => Command::Ignore,
    }
}

/// Maps an event to exactly one command; never fails.
pub fn command_for_event(e: Event) -> (r: Command)
    ensures
        r == event_command(e),
{
    match e {
        Event::CloseRequested => Command::Close,
        Event::Resized | Event::Refresh => Command::RedrawRequest,
        Event::KeyDown(k) => command_for_key(k),
        Event::KeyUp(_) | Event::Other => Command::Ignore,
    }
}

} // verus!
