//! Real-time playback core of a MIDI practice tool: the keyboard model, the
//! playback clock, the rewind controller, the play-along matcher and the
//! player that ties them together.

pub mod range;
pub mod score;
pub mod config;
pub mod midi_player;
pub mod play_along;
pub mod playback;
pub mod rewind;
