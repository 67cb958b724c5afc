//! Verified core of an NSF music player: the playlist, the player-thread
//! state machine, the audio arithmetic, and the integer parts of the
//! perspective visualizer.

pub mod player_thread;
pub mod playlist;
pub mod audio;
pub mod perspective;
pub mod config;
pub mod window_state;
