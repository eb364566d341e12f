//! Media, mute and battery decisions of the plugin, apart from the system calls
//! that observe and change the machine.
use vstd::prelude::*;
use vstd::string::StringExecFns;

use crate::applescript_fallback;
use crate::encoding::{data_uri, data_uri_spec, is_jpeg, is_png, starts_jpeg, starts_png};
use crate::text::{
    chars_of, contains_ignoring_ascii_case, contains_lower, digits_value, find_char, first_index, is_digit,
    str_eq,
};
use crate::applescript_fallback::{artwork_written, fallback_artwork_mime};

verus! {

/// What the media player reports: `state` is `playing`, `paused` or `stopped`.
#[derive(Clone)]
pub struct NowPlaying {
    pub state: String,
    pub title: String,
    pub artist: String,
}

/// The battery charge in whole percent (0 to 100) and whether the machine is
/// on external power.
#[derive(Clone, Copy)]
pub struct BatteryStatus {
    pub percent: u32,
    pub is_charging: bool,
}

/// Nothing is playing.
pub open spec fn is_stopped_report(n: NowPlaying) -> bool {
    &&& n.state@ == "stopped"@
    &&& n.title@.len() == 0
    &&& n.artist@.len() == 0
}

/// The report for "nothing is playing".
pub fn stopped() -> (n: NowPlaying)
    ensures
        is_stopped_report(n),
{
    NowPlaying { state: String::from_str("stopped"), title: String::new(), artist: String::new() }
}

/// What a player answered about its current track: `(state, title, artist)`.
pub type PlayerAnswer = (String, String, String);

/// The answer names a track: its title or its artist is not empty.
pub open spec fn answer_has_track(a: PlayerAnswer) -> bool {
    a.1@.len() > 0 || a.2@.len() > 0
}

/// The answer that the now-playing report shows, from what Music and Spotify
/// answered (`None` for a player that did not answer): Music's whenever Music
/// answers; else Spotify's when Spotify has a track; else none.
pub open spec fn chosen_answer(music: Option<PlayerAnswer>, spotify: Option<PlayerAnswer>) -> Option<
    PlayerAnswer,
> {
    if music is Some {
        music
    } else if spotify is Some && answer_has_track(spotify->0) {
        spotify
    } else {
        None
    }
}

/// The report shows the answer `a`.
pub open spec fn reports(n: NowPlaying, a: PlayerAnswer) -> bool {
    n.state@ == a.0@ && n.title@ == a.1@ && n.artist@ == a.2@
}

/// Whether the answer names a track.
fn has_track(a: &PlayerAnswer) -> (r: bool)
    ensures
        r == answer_has_track(*a),
{
    chars_of(a.1.as_str()).len() > 0 || chars_of(a.2.as_str()).len() > 0
}

/// The now-playing report from what Music and Spotify answered: Music's
/// answer whenever Music answers; else Spotify's when Spotify has a track;
/// else "stopped" with empty title and artist.
pub fn get_now_playing(music: Option<PlayerAnswer>, spotify: Option<PlayerAnswer>) -> (n: NowPlaying)
    ensures
        match chosen_answer(music, spotify) {
            Some(a) => reports(n, a),
            None => is_stopped_report(n),
        },
{
    let chosen = match music {
        Some(m) => Some(m),
        None => match spotify {
            Some(sp) => if has_track(&sp) {
                Some(sp)
            } else {
                None
            },
            None => None,
        },
    };
    match chosen {
        Some((state, title, artist)) => NowPlaying { state, title, artist },
        None => stopped(),
    }
}

/// Music's answer is reported whenever Music answers; Spotify's only when
/// Music does not answer, and then whenever Spotify has a track; nothing is
/// reported only when neither gives a track.
pub proof fn law_now_playing_music_first(music: Option<PlayerAnswer>, spotify: Option<PlayerAnswer>)
    ensures
        music is Some ==> chosen_answer(music, spotify) == music,
        music is None && spotify is Some && answer_has_track(spotify->0) ==> chosen_answer(music, spotify)
            == spotify,
        chosen_answer(music, spotify) is None ==> music is None && !(spotify is Some
            && answer_has_track(spotify->0)),
{
}

/// Some player reports the state `playing`. `states` holds, for each player
/// asked, its player state, or `None` when it did not answer.
pub open spec fn some_player_playing(states: Seq<Option<String>>) -> bool {
    exists|i: int| 0 <= i < states.len() && #[trigger] states[i] is Some && states[i]->0@ == "playing"@
}

/// Whether media is playing: whether one of the players (Music, Spotify,
/// Podcasts and TV) reports the state `playing`.
pub fn is_media_playing(player_states: &[Option<String>]) -> (r: bool)
    ensures
        r == some_player_playing(player_states@),
{
    let mut i: usize = 0;
    while i < player_states.len()
        invariant
            i <= player_states@.len(),
            forall|j: int| 0 <= j < i ==> !(player_states@[j] is Some && player_states@[j]->0@ == "playing"@),
        decreases player_states@.len() - i,
    {
        match &player_states[i] {
            Some(s) => {
                if str_eq(s.as_str(), "playing") {
                    assert(player_states@[i as int] is Some);
                    return true;
                }
            },
            None => {},
        }
        i = i + 1;
    }
    false
}

/// Whether the output is muted, given what the mute property read gave
/// (`None` when it could not be read): unknown counts as not muted.
pub fn is_muted(reading: Option<bool>) -> (r: bool)
    ensures
        r == (reading == Some(true)),
{
    match reading {
        Some(m) => m,
        None => false,
    }
}

/// The mute state of the output device from its two mute properties: the
/// virtual main mute when the device has it, else the device mute; a
/// non-zero value means muted.
pub fn output_muted(virtual_main_mute: Option<u32>, device_mute: Option<u32>) -> (r: Option<bool>)
    ensures
        r == match virtual_main_mute {
            Some(v) => Some(v != 0),
            None => match device_mute {
                Some(v) => Some(v != 0),
                None => None,
            },
        },
{
    match virtual_main_mute {
        Some(v) => Some(v != 0),
        None => match device_mute {
            Some(v) => Some(v != 0),
            None => None,
        },
    }
}

/// The value written to a mute property.
pub fn mute_property_value(muted: bool) -> (v: u32)
    ensures
        v == (if muted { 1u32 } else { 0u32 }),
{
    if muted {
        1
    } else {
        0
    }
}

/// The two mute properties of an output device.
#[derive(Clone, Copy, Debug, PartialEq, Eq, Structural)]
pub enum MuteProperty {
    /// The virtual main mute.
    VirtualMain,
    /// The device's own mute.
    Device,
}

/// The writes that set the mute state, to be tried in order until one
/// succeeds: the virtual main mute, then the device mute, each with the value
/// for `muted`.
pub fn mute_writes(muted: bool) -> (w: Vec<(MuteProperty, u32)>)
    ensures
        w@ == seq![
            (MuteProperty::VirtualMain, if muted { 1u32 } else { 0u32 }),
            (MuteProperty::Device, if muted { 1u32 } else { 0u32 }),
        ],
{
    let v = mute_property_value(muted);
    let mut w: Vec<(MuteProperty, u32)> = Vec::new();
    w.push((MuteProperty::VirtualMain, v));
    w.push((MuteProperty::Device, v));
    w
}

/// The opposite of a known mute state; nothing for an unknown one.
pub open spec fn toggled(current: Option<bool>) -> Option<bool> {
    match current {
        Some(m) => Some(!m),
        None => None,
    }
}

/// The mute state that toggling writes: the opposite of the current one, or
/// nothing when the current one is unknown.
pub fn toggle_mute(current: Option<bool>) -> (next: Option<bool>)
    ensures
        next == toggled(current),
{
    match current {
        Some(m) => Some(!m),
        None => None,
    }
}

/// Toggling twice restores a known mute state, and toggling a known state
/// always changes it.
pub proof fn law_toggle_mute_involutive(m: bool)
    ensures
        toggled(toggled(Some(m))) == Some(m),
        toggled(Some(m)) != Some(m),
{
}

// ----------------------------------------------------------------------------
// Media keys
// ----------------------------------------------------------------------------
/// The system key code of play/pause.
pub const KEY_PLAY: i32 = 16;

/// The system key code of next track.
pub const KEY_NEXT: i32 = 17;

/// The system key code of previous track.
pub const KEY_PREV: i32 = 18;

/// The media key that the previous-track key sends, which any media app receives.
pub fn press_previous() -> (key: i32)
    ensures
        key == KEY_PREV,
{
    KEY_PREV
}

/// The media key that the next-track key sends.
pub fn press_next() -> (key: i32)
    ensures
        key == KEY_NEXT,
{
    KEY_NEXT
}

/// The media key that the play/pause key sends.
pub fn press_play_pause() -> (key: i32)
    ensures
        key == KEY_PLAY,
{
    KEY_PLAY
}

/// The modifier flags of a media key event: `0x0a00` for key down, `0x0b00` for key up.
pub open spec fn media_key_flags(down: bool) -> int {
    if down {
        0x0a00
    } else {
        0x0b00
    }
}

/// The modifier flags and `data1` word of the system-defined event that
/// presses (`down`) or releases a media key: `data1` holds the key code in
/// its upper bits and the flags in its low 16 bits.
pub fn media_key_event(key_code: i32, down: bool) -> (r: (u64, i64))
    ensures
        r.0 == media_key_flags(down),
        r.1 == key_code as int * 65536 + media_key_flags(down),
{
    let flags: u64 = if down {
        0x0a00
    } else {
        0x0b00
    };
    let data1: i64 = (key_code as i64) * 65536 + (flags as i64);
    (flags, data1)
}

// ----------------------------------------------------------------------------
// Four-character codes
// ----------------------------------------------------------------------------
/// The big-endian number made of four bytes.
pub open spec fn fourcc_spec(b: [u8; 4]) -> int {
    b[0] as int * 16777216 + b[1] as int * 65536 + b[2] as int * 256 + b[3] as int
}

/// The four-character code of `bytes`, first byte most significant.
pub fn fourcc(bytes: [u8; 4]) -> (r: u32)
    ensures
        r == fourcc_spec(bytes),
{
    let b0 = bytes[0] as u32;
    let b1 = bytes[1] as u32;
    let b2 = bytes[2] as u32;
    let b3 = bytes[3] as u32;
    b0 * 16777216 + b1 * 65536 + b2 * 256 + b3
}

/// Different byte quadruples give different codes.
pub proof fn law_fourcc_injective(a: [u8; 4], b: [u8; 4])
    requires
        fourcc_spec(a) == fourcc_spec(b),
    ensures
        a@ == b@,
{
    assert(a[3] == b[3]);
    assert(a[2] == b[2]);
    assert(a[1] == b[1]);
    assert(a[0] == b[0]);
    assert(a@ =~= b@);
}

/// Music's "playing" player state, `kPSP`.
pub fn player_playing() -> (r: u32)
    ensures
        r == fourcc_spec([0x6b, 0x50, 0x53, 0x50]),
{
    fourcc([0x6b, 0x50, 0x53, 0x50])
}

/// Music's "paused" player state, `kPSp`.
pub fn player_paused() -> (r: u32)
    ensures
        r == fourcc_spec([0x6b, 0x50, 0x53, 0x70]),
{
    fourcc([0x6b, 0x50, 0x53, 0x70])
}

/// Music's "stopped" player state, `kPSS`.
pub fn player_stopped() -> (r: u32)
    ensures
        r == fourcc_spec([0x6b, 0x50, 0x53, 0x53]),
{
    fourcc([0x6b, 0x50, 0x53, 0x53])
}

/// The state name for Music's raw player state: the three known codes map to
/// their names; any other code reads as paused when a title or artist is
/// known, else as stopped.
pub open spec fn player_state_name_spec(raw: u32, title: Seq<char>, artist: Seq<char>) -> Seq<
    char,
> {
    if raw == fourcc_spec([0x6b, 0x50, 0x53, 0x50]) {
        "playing"@
    } else if raw == fourcc_spec([0x6b, 0x50, 0x53, 0x70]) {
        "paused"@
    } else if raw == fourcc_spec([0x6b, 0x50, 0x53, 0x53]) {
        "stopped"@
    } else if title.len() > 0 || artist.len() > 0 {
        "paused"@
    } else {
        "stopped"@
    }
}

/// The state name for Music's raw player state.
pub fn player_state_name(raw: u32, title: &str, artist: &str) -> (r: String)
    ensures
        r@ == player_state_name_spec(raw, title@, artist@),
{
    if raw == player_playing() {
        String::from_str("playing")
    } else if raw == player_paused() {
        String::from_str("paused")
    } else if raw == player_stopped() {
        String::from_str("stopped")
    } else if chars_of(title).len() > 0 || chars_of(artist).len() > 0 {
        String::from_str("paused")
    } else {
        String::from_str("stopped")
    }
}

/// The state named by the system now-playing center: stopped when neither
/// title nor artist is known, playing when the playback rate is positive,
/// paused otherwise.
pub fn playback_state(title: &str, artist: &str, rate_positive: bool) -> (r: String)
    ensures
        r@ == (if title@.len() == 0 && artist@.len() == 0 {
            "stopped"@
        } else if rate_positive {
            "playing"@
        } else {
            "paused"@
        }),
{
    let t = chars_of(title);
    let a = chars_of(artist);
    if t.len() == 0 && a.len() == 0 {
        String::from_str("stopped")
    } else if rate_positive {
        String::from_str("playing")
    } else {
        String::from_str("paused")
    }
}

// ----------------------------------------------------------------------------
// Artwork
// ----------------------------------------------------------------------------
/// The MIME type that Music's artwork bytes are labelled with.
pub open spec fn music_artwork_mime(bytes: Seq<u8>) -> Seq<char> {
    if starts_jpeg(bytes) {
        "image/jpeg"@
    } else if starts_png(bytes) {
        "image/png"@
    } else {
        "application/octet-stream"@
    }
}

/// The data URI of artwork bytes read from Music's scripting interface.
pub fn music_artwork_data_uri(bytes: &[u8]) -> (uri: String)
    ensures
        uri@ == data_uri_spec(music_artwork_mime(bytes@), bytes@),
{
    let mime = if is_jpeg(bytes) {
        "image/jpeg"
    } else if is_png(bytes) {
        "image/png"
    } else {
        "application/octet-stream"
    };
    data_uri(mime, bytes)
}

/// The artwork of the current track as a data URI, from the answer of the
/// artwork query and the artwork file it writes.
pub fn get_artwork_b64(script_output: &str, file_bytes: Option<&[u8]>) -> (r: Option<String>)
    ensures
        match r {
            Some(uri) => artwork_written(script_output@) && file_bytes is Some && uri@
                == data_uri_spec(fallback_artwork_mime(file_bytes->0@), file_bytes->0@),
            None => !artwork_written(script_output@) || file_bytes is None,
        },
{
    applescript_fallback::get_artwork_data_uri(script_output, file_bytes)
}

// ----------------------------------------------------------------------------
// Battery
// ----------------------------------------------------------------------------
/// The part of `s` before its first `%` (all of `s` when it has none).
pub open spec fn before_percent(s: Seq<char>) -> Seq<char> {
    s.take(first_index(s, '%') as int)
}

/// Number of ASCII digits at the end of `s`.
pub open spec fn trailing_digits(s: Seq<char>) -> nat
    decreases s.len(),
{
    if s.len() > 0 && is_digit(s.last()) {
        1 + trailing_digits(s.drop_last())
    } else {
        0
    }
}

/// The digits that stand right before the first `%` of the battery report.
pub open spec fn percent_digits(s: Seq<char>) -> Seq<char> {
    let p = before_percent(s);
    p.skip(p.len() - trailing_digits(p))
}

/// The battery status that the `pmset -g batt` report gives: the number right
/// before its first `%`, capped at 100, and whether the report mentions
/// charging or AC power in any letter case. `None` when no digit stands there.
pub open spec fn battery_status_spec(s: Seq<char>) -> Option<(nat, bool)> {
    let d = percent_digits(s);
    if d.len() == 0 {
        None
    } else {
        Some(
            (
                if digits_value(d) <= 100 {
                    digits_value(d)
                } else {
                    100
                },
                contains_lower(s, "charging"@) || contains_lower(s, "ac power"@),
            ),
        )
    }
}

/// The battery charge read from a report never exceeds 100 percent.
pub proof fn law_battery_percent_at_most_100(s: Seq<char>)
    ensures
        battery_status_spec(s) matches Some((p, _)) ==> p <= 100,
{
}

/// `trailing_digits` is the length of the longest all-digit suffix.
pub proof fn lemma_trailing_digits(s: Seq<char>, k: int)
    requires
        0 <= k <= s.len(),
        forall|i: int| s.len() - k <= i < s.len() ==> is_digit(#[trigger] s[i]),
        k == s.len() || !is_digit(s[s.len() - k - 1]),
    ensures
        trailing_digits(s) == k,
    decreases k,
{
    if k > 0 {
        let t = s.drop_last();
        assert forall|i: int| t.len() - (k - 1) <= i < t.len() implies is_digit(#[trigger] t[i]) by {
            assert(t[i] == s[i]);
        }
        if k < s.len() {
            assert(t[t.len() - (k - 1) - 1] == s[s.len() - k - 1]);
        }
        lemma_trailing_digits(t, k - 1);
    }
}

/// Reads the battery status from the text that `pmset -g batt` prints.
pub fn get_battery_status(pmset_output: &str) -> (r: Option<BatteryStatus>)
    ensures
        match r {
            Some(b) => battery_status_spec(pmset_output@) == Some((b.percent as nat, b.is_charging)),
            None => battery_status_spec(pmset_output@) is None,
        },
{
    let v = chars_of(pmset_output);
    let ghost s = v@;
    let end = match find_char(v.as_slice(), '%') {
        Some(i) => i,
        None => {
            assert(s.take(s.len() as int) == s);
            v.len()
        },
    };
    let ghost p = before_percent(s);
    assert(p == s.take(end as int));
    let mut start = end;
    while start > 0 && '0' <= v[start - 1] && v[start - 1] <= '9'
        invariant
            start <= end <= v@.len(),
            forall|i: int| start <= i < end ==> is_digit(#[trigger] v@[i]),
        decreases start,
    {
        start = start - 1;
    }
    proof {
        assert forall|i: int| p.len() - (end - start) <= i < p.len() implies is_digit(
            #[trigger] p[i],
        ) by {
            assert(p[i] == v@[i]);
        }
        if start > 0 {
            assert(p[p.len() - (end - start) - 1] == v@[start - 1]);
        }
        lemma_trailing_digits(p, end - start);
        assert(percent_digits(s) == v@.subrange(start as int, end as int));
    }
    if start == end {
        return None;
    }
    let ghost d = v@.subrange(start as int, end as int);
    let mut acc: u64 = 0;
    let mut i = start;
    while i < end
        invariant
            start <= i <= end <= v@.len(),
            d == v@.subrange(start as int, end as int),
            forall|k: int| start <= k < end ==> is_digit(#[trigger] v@[k]),
            acc == (if digits_value(v@.subrange(start as int, i as int)) <= 101 {
                digits_value(v@.subrange(start as int, i as int))
            } else {
                101
            }),
        decreases end - i,
    {
        let ghost pre = v@.subrange(start as int, i as int);
        let ghost next = v@.subrange(start as int, i + 1);
        assert(next.drop_last() == pre);
        assert(next.last() == v@[i as int]);
        assert(is_digit(v@[i as int]));
        let dv = (v[i] as u32 - '0' as u32) as u64;
        let bigger = acc * 10 + dv;
        acc = if bigger > 101 {
            101
        } else {
            bigger
        };
        i = i + 1;
    }
    let percent: u32 = if acc > 100 {
        100
    } else {
        acc as u32
    };
    let charging = contains_ignoring_ascii_case(v.as_slice(), chars_of("charging").as_slice())
        || contains_ignoring_ascii_case(v.as_slice(), chars_of("ac power").as_slice());
    Some(BatteryStatus { percent, is_charging: charging })
}

} // verus!
