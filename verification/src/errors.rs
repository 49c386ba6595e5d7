//! The ways in which an operation can fail.

use vstd::prelude::*;

verus! {

/// Input that cannot be used: the operation is given up and the session
/// goes on.
#[derive(Clone, Copy, Debug, PartialEq, Eq, Structural, Hash)]
pub enum ContentError {
    /// The board line does not hold 81 squares.
    MalformedBoard,
    /// The board has no solution, or more than one.
    NoUniqueSolution,
    /// The difficulty label is none of the four names.
    UnknownDifficulty,
    /// A command was given too few or too many arguments, or one that is
    /// no number.
    BadArguments,
    /// A coordinate or a value lies outside 1 to 9.
    OutOfRange,
    /// The first word of the line is no command.
    UnknownCommand,
    /// `play` was asked for before any board was downloaded.
    NoBoardDownloaded,
    /// `download` was asked for while a game is running.
    GameRunning,
}

/// A failure on the serial link. Each ends the command or the round in
/// which it happens.
#[derive(Clone, Debug, PartialEq, Eq, Hash)]
pub enum LinkError {
    /// The device could not be written to or read from.
    TransportIo,
    /// No data came within the time the port allows.
    Timeout,
    /// The device answered something else than was expected; the bytes
    /// that came are kept.
    ProtocolMismatch(Vec<u8>),
}

} // verus!
