//! The AppleScript queries that the plugin sends to the media players, and
//! how it reads their answers.
use vstd::prelude::*;

use crate::encoding::{data_uri, data_uri_spec, is_jpeg, starts_jpeg};
use crate::text::{chars_of, push_str, split_once, string_from_chars, trim, trim_spec};

verus! {

/// `s` holds `c` at two different places.
pub open spec fn has_two(s: Seq<char>, c: char) -> bool {
    exists|i: int, j: int| 0 <= i < j < s.len() && s[i] == c && s[j] == c
}

/// Splits the `state|title|artist` answer of the now-playing query into its
/// three fields, as `splitn(3, '|')` does: the first two bars separate, any
/// further bar stays in the artist. `None` when the answer has fewer than two bars.
pub fn get_now_playing(output: &str) -> (r: Option<(String, String, String)>)
    ensures
        match r {
            Some((state, title, artist)) => {
                &&& output@ == state@ + seq!['|'] + title@ + seq!['|'] + artist@
                &&& !state@.contains('|')
                &&& !title@.contains('|')
            },
            None => !has_two(output@, '|'),
        },
{
    match split_once(output, '|') {
        Some((state, rest)) => {
            match split_once(rest.as_str(), '|') {
                Some((title, artist)) => Some((state, title, artist)),
                None => {
                    assert forall|i: int, j: int|
                        0 <= i < j < output@.len() && output@[i] == '|' implies output@[j]
                        != '|' by {
                        let k = state@.len() as int;
                        if i != k {
                            assert(i > k) by {
                                if i < k {
                                    assert(state@[i] == output@[i]);
                                }
                            }
                        }
                        assert(output@[j] == rest@[j - k - 1]);
                    }
                    None
                },
            }
        },
        None => {
            assert forall|i: int, j: int|
                0 <= i < j < output@.len() && #[trigger] output@[i] == '|' implies #[trigger] output@[j]
                != '|' by {
                assert(output@.contains('|'));
            }
            None
        },
    }
}

/// `s` with every `from` replaced by `to`.
pub open spec fn replace_char_spec(s: Seq<char>, from: char, to: char) -> Seq<char> {
    s.map_values(|c: char| if c == from { to } else { c })
}

/// `s` with every `from` replaced by `to`.
pub fn replace_char(s: &str, from: char, to: char) -> (r: String)
    ensures
        r@ == replace_char_spec(s@, from, to),
{
    let mut v = chars_of(s);
    let mut i: usize = 0;
    let ghost orig = v@;
    while i < v.len()
        invariant
            i <= v@.len() == orig.len(),
            forall|k: int| 0 <= k < i ==> v@[k] == (if orig[k] == from { to } else { orig[k] }),
            forall|k: int| i <= k < v@.len() ==> v@[k] == orig[k],
        decreases v@.len() - i,
    {
        if v[i] == from {
            v.set(i, to);
        }
        i = i + 1;
    }
    assert(v@ == replace_char_spec(orig, from, to));
    string_from_chars(v.as_slice())
}

/// One field of the playback-position answer: trimmed, with a decimal comma
/// turned into a point.
pub open spec fn progress_field(s: Seq<char>) -> Seq<char> {
    replace_char_spec(trim_spec(s), ',', '.')
}

/// Splits the `elapsed|duration` answer of the playback-position query into
/// its two numbers' texts, trimmed and with decimal commas made points, ready
/// for a float parser. `None` when the answer holds no bar.
pub fn get_now_playing_progress(output: &str) -> (r: Option<(String, String)>)
    ensures
        match r {
            Some((elapsed, duration)) => exists|a: Seq<char>, b: Seq<char>|
                {
                    &&& output@ == a + seq!['|'] + b
                    &&& !a.contains('|')
                    &&& elapsed@ == progress_field(a)
                    &&& duration@ == progress_field(b)
                },
            None => !output@.contains('|'),
        },
{
    match split_once(output, '|') {
        Some((a, b)) => {
            let ta = trim(a.as_str());
            let tb = trim(b.as_str());
            let e = replace_char(ta.as_str(), ',', '.');
            let d = replace_char(tb.as_str(), ',', '.');
            assert(output@ == a@ + seq!['|'] + b@);
            Some((e, d))
        },
        None => None,
    }
}

/// The artwork query answers `ok` (after trimming) when it wrote the artwork file.
pub open spec fn artwork_written(output: Seq<char>) -> bool {
    let t = trim_spec(output);
    t.len() >= 2 && t[0] == 'o' && t[1] == 'k'
}

/// Whether the artwork query reports that it wrote the artwork file.
pub fn artwork_script_succeeded(output: &str) -> (r: bool)
    ensures
        r == artwork_written(output@),
{
    let t = trim(output);
    let v = chars_of(t.as_str());
    v.len() >= 2 && v[0] == 'o' && v[1] == 'k'
}

/// The MIME type that the artwork file is labelled with: JPEG when it starts
/// like one, PNG otherwise.
pub open spec fn fallback_artwork_mime(bytes: Seq<u8>) -> Seq<char> {
    if starts_jpeg(bytes) {
        "image/jpeg"@
    } else {
        "image/png"@
    }
}

/// The data URI of the artwork: `None` unless the query reports success and
/// the artwork file could be read.
pub fn get_artwork_data_uri(script_output: &str, file_bytes: Option<&[u8]>) -> (r: Option<String>)
    ensures
        match r {
            Some(uri) => artwork_written(script_output@) && file_bytes is Some && uri@
                == data_uri_spec(fallback_artwork_mime(file_bytes->0@), file_bytes->0@),
            None => !artwork_written(script_output@) || file_bytes is None,
        },
{
    if !artwork_script_succeeded(script_output) {
        return None;
    }
    match file_bytes {
        Some(bytes) => {
            let mime = if is_jpeg(bytes) {
                "image/jpeg"
            } else {
                "image/png"
            };
            Some(data_uri(mime, bytes))
        },
        None => None,
    }
}

// ----------------------------------------------------------------------------
// Queries to any player
// ----------------------------------------------------------------------------
/// The now-playing query to the player `app`: `state|title|artist` while it
/// plays or pauses a track, `stopped||` otherwise (also when it is not running).
pub open spec fn now_playing_script_spec(app: Seq<char>) -> Seq<char> {
    "if application \""@ + app + "\" is running then\n  tell application \""@ + app
        + "\"\n    try\n      if player state is playing then\n        return \"playing|\" & (name of current track) & \"|\" & (artist of current track)\n      else if player state is paused then\n        return \"paused|\" & (name of current track) & \"|\" & (artist of current track)\n      end if\n    end try\n  end tell\nend if\nreturn \"stopped||\""@
}

/// The now-playing query to the player named `app`.
pub fn now_playing_script(app: &str) -> (script: String)
    ensures
        script@ == now_playing_script_spec(app@),
{
    let mut s = String::new();
    push_str(&mut s, "if application \"");
    push_str(&mut s, app);
    push_str(&mut s, "\" is running then\n  tell application \"");
    push_str(&mut s, app);
    push_str(
        &mut s,
        "\"\n    try\n      if player state is playing then\n        return \"playing|\" & (name of current track) & \"|\" & (artist of current track)\n      else if player state is paused then\n        return \"paused|\" & (name of current track) & \"|\" & (artist of current track)\n      end if\n    end try\n  end tell\nend if\nreturn \"stopped||\"",
    );
    s
}

/// The player-state query to the player `app`: its player state as text, or
/// nothing when it is not running or cannot tell.
pub open spec fn player_state_script_spec(app: Seq<char>) -> Seq<char> {
    "if application \""@ + app + "\" is running then\n  try\n    tell application \""@ + app
        + "\" to return (player state as string)\n  end try\nend if\nreturn \"\""@
}

/// The player-state query to the player named `app`.
pub fn player_state_script(app: &str) -> (script: String)
    ensures
        script@ == player_state_script_spec(app@),
{
    let mut s = String::new();
    push_str(&mut s, "if application \"");
    push_str(&mut s, app);
    push_str(&mut s, "\" is running then\n  try\n    tell application \"");
    push_str(&mut s, app);
    push_str(&mut s, "\" to return (player state as string)\n  end try\nend if\nreturn \"\"");
    s
}

/// The player state in the answer of the player-state query: the trimmed
/// answer, or `None` when it is empty (the player did not answer).
pub fn read_player_state(output: &str) -> (r: Option<String>)
    ensures
        match r {
            Some(state) => state@ == trim_spec(output@) && state@.len() > 0,
            None => trim_spec(output@).len() == 0,
        },
{
    let t = trim(output);
    if chars_of(t.as_str()).len() == 0 {
        None
    } else {
        Some(t)
    }
}

} // verus!
