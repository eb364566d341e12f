//! The logic of a Stream Deck / OpenDeck plugin that controls media playback,
//! the system volume and mute, and shows now-playing, calendar and battery
//! information on infobar items: the plugin's state machine, the messages it
//! sends to the host, and the readers of what macOS tools answer.
pub mod applescript_fallback;
pub mod calendar;
pub mod constants;
pub mod context_map;
pub mod encoding;
pub mod infobar;
pub mod playing_status;
pub mod plugin;
pub mod protocol;
pub mod settings;
pub mod sync;
pub mod system_media;
pub mod text;
