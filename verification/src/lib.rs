//! Plays a score of timed note events as a stream of emulated key presses.
//!
//! A [`session::Session`] takes a [`score::Score`], merges its tracks into
//! one sequence in the order of the ticks, and then says, step by step, what
//! the player has to do: how long to wait, which emulated key to press or
//! release, and when to press or release the shift modifier that some keys
//! need. The player performs the actions and tells the session before each
//! step whether the user has asked to stop.
//!
//! - [`keymap`]: which character a pitch plays, and whether it needs shift.
//! - [`keys`]: the actions, and the record of the keys that are held.
//! - [`dispatch`]: what one event does to the keys and to the modifier.
//! - [`score`]: events, tracks, the time division, and what makes a score
//!   playable.
//! - [`merge`]: the tracks as one sequence.
//! - [`tempo`]: from ticks to microseconds.
//! - [`session`]: the scheduler.
//!
//! Two computations are those of the `midi-reader-writer` crate: the order
//! in which the events of the tracks are merged, and the microseconds that
//! a number of ticks take at one tempo. The contracts of the calls say what
//! is taken from the crate; everything built on them is proved.

pub mod dispatch;
pub mod keymap;
pub mod keys;
pub mod merge;
pub mod score;
pub mod session;
pub mod tempo;
