//! Verified core of the Aurora music player daemon: the play queue, the song
//! library index, play history, playlists, liked songs, wire framing and the
//! small state machines that drive playback.

pub mod ids;
pub mod protocol;
pub mod queue;
pub mod text;
pub mod sort;
pub mod library;
pub mod history;
pub mod daemon;
pub mod art;
pub mod playlist;
pub mod scan;
pub mod framing;
pub mod mpris;
pub mod watch;
pub mod ui;
pub mod errors;
pub mod laws;
pub mod client;
pub mod guarantees;
