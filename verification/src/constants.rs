//! Identifiers of the plugin's actions and the size of an infobar image.
use vstd::prelude::*;

verus! {

/// Previous track key.
pub const ACTION_PREVIOUS: &'static str = "com.niklasarnitz.macos-utilities.previous";

/// Next track key.
pub const ACTION_NEXT: &'static str = "com.niklasarnitz.macos-utilities.next";

/// Play/pause key.
pub const ACTION_PLAYPAUSE: &'static str = "com.niklasarnitz.macos-utilities.playpause";

/// Volume up key.
pub const ACTION_VOLUME_UP: &'static str = "com.niklasarnitz.macos-utilities.volume-up";

/// Volume down key.
pub const ACTION_VOLUME_DOWN: &'static str = "com.niklasarnitz.macos-utilities.volume-down";

/// Mute toggle key.
pub const ACTION_MUTE: &'static str = "com.niklasarnitz.macos-utilities.mute";

/// Now-playing infobar item.
pub const ACTION_INFOBAR_NOWPLAYING: &'static str =
    "com.niklasarnitz.macos-utilities.infobar.nowplaying";

/// Now-playing infobar item with the time of day.
pub const ACTION_INFOBAR_NOWPLAYING_TIME: &'static str =
    "com.niklasarnitz.macos-utilities.infobar.nowplaying-time";

/// Now-playing infobar item with a progress bar.
pub const ACTION_INFOBAR_NOWPLAYING_PROGRESS: &'static str =
    "com.niklasarnitz.macos-utilities.infobar.nowplaying-progress";

/// Next-calendar-event infobar item.
pub const ACTION_INFOBAR_NEXT_CALENDAR: &'static str =
    "com.niklasarnitz.macos-utilities.infobar.nextcalendar";

/// Battery infobar item.
pub const ACTION_INFOBAR_BATTERY: &'static str = "com.niklasarnitz.macos-utilities.infobar.battery";

/// Width of an infobar image in pixels.
pub const INFOBAR_W: u32 = 248;

/// Height of an infobar image in pixels.
pub const INFOBAR_H: u32 = 58;

/// The Music app, asked for the current track and the play state.
pub const PLAYER_MUSIC: &'static str = "Music";

/// Spotify, asked for the current track and the play state.
pub const PLAYER_SPOTIFY: &'static str = "Spotify";

/// The Podcasts app, asked for the play state.
pub const PLAYER_PODCASTS: &'static str = "Podcasts";

/// The TV app, asked for the play state.
pub const PLAYER_TV: &'static str = "TV";

} // verus!
