//! Media players.
pub mod audio_player;
pub mod video_player;
