//! The texts drawn on the infobar images and the choices of what to draw.
use vstd::prelude::*;
use vstd::string::StringExecFns;

use crate::settings::{BatteryDisplayMode, NowPlayingProgressOptions, ProgressTimeFormat};
use crate::system_media::NowPlaying;
use crate::text::{
    all_digits, chars_of, decimal, decimal2, digits_value, first_index, law_decimal_round_trip,
    lemma_decimal2, lemma_first_after_digits, push_char, push_decimal, push_decimal2, str_eq,
};

verus! {

/// `-m:ss` for a number of whole seconds left.
pub open spec fn remaining_text(secs: nat) -> Seq<char> {
    seq!['-'] + decimal(secs / 60) + seq![':'] + decimal2(secs % 60)
}

/// `m:ss/mm:ss` for whole seconds elapsed and in total.
pub open spec fn elapsed_total_text(elapsed: nat, total: nat) -> Seq<char> {
    decimal(elapsed / 60) + seq![':'] + decimal2(elapsed % 60) + seq!['/'] + decimal2(total / 60)
        + seq![':'] + decimal2(total % 60)
}

/// `m` followed by `:` and `ss` reads back as `m * 60 + ss` seconds: the
/// digits before the first `:` are the whole minutes, the two after it the
/// seconds, and `rest` follows them.
proof fn lemma_minutes_seconds(secs: nat, rest: Seq<char>)
    ensures
        ({
            let s = decimal(secs / 60) + seq![':'] + decimal2(secs % 60) + rest;
            let k = first_index(s, ':') as int;
            &&& k + 3 <= s.len()
            &&& all_digits(s.take(k)) && all_digits(s.subrange(k + 1, k + 3))
            &&& digits_value(s.take(k)) * 60 + digits_value(s.subrange(k + 1, k + 3)) == secs
            &&& s.subrange(k + 3, s.len() as int) == rest
        }),
{
    let m = decimal(secs / 60);
    let ss = decimal2(secs % 60);
    vstd::arithmetic::div_mod::lemma_fundamental_div_mod(secs as int, 60);
    vstd::arithmetic::div_mod::lemma_mod_pos_bound(secs as int, 60);
    law_decimal_round_trip(secs / 60);
    lemma_decimal2(secs % 60);
    let s = m + seq![':'] + ss + rest;
    assert(s =~= m + seq![':'] + (ss + rest));
    lemma_first_after_digits(m, ':', ss + rest);
    let k = m.len() as int;
    assert(s.take(k) =~= m);
    assert(s.subrange(k + 1, k + 3) =~= ss);
    assert(s.subrange(k + 3, s.len() as int) =~= rest);
}

/// The time-left text reads back as the seconds left: a `-`, then the whole
/// minutes (however many) before the `:`, then the two digits of the seconds.
pub proof fn law_remaining_reads_back(secs: nat)
    ensures
        ({
            let s = remaining_text(secs);
            let t = s.drop_first();
            let k = first_index(t, ':') as int;
            &&& s[0] == '-'
            &&& k + 3 == t.len()
            &&& all_digits(t.take(k)) && all_digits(t.subrange(k + 1, k + 3))
            &&& digits_value(t.take(k)) * 60 + digits_value(t.subrange(k + 1, k + 3)) == secs
        }),
{
    let s = remaining_text(secs);
    let body = decimal(secs / 60) + seq![':'] + decimal2(secs % 60) + Seq::<char>::empty();
    assert(s.drop_first() =~= body);
    lemma_minutes_seconds(secs, Seq::empty());
}

/// The elapsed/total text reads back as both times: the whole elapsed
/// minutes (no wrap at the hour) before the first `:` and the elapsed seconds
/// after it, a `/`, then the total minutes and seconds in the same way.
pub proof fn law_elapsed_total_reads_back(elapsed: nat, total: nat)
    ensures
        ({
            let s = elapsed_total_text(elapsed, total);
            let k = first_index(s, ':') as int;
            let r = s.subrange(k + 4, s.len() as int);
            let l = first_index(r, ':') as int;
            &&& k + 4 <= s.len()
            &&& digits_value(s.take(k)) * 60 + digits_value(s.subrange(k + 1, k + 3)) == elapsed
            &&& all_digits(s.take(k)) && all_digits(s.subrange(k + 1, k + 3))
            &&& s[k + 3] == '/'
            &&& l + 3 == r.len()
            &&& all_digits(r.take(l)) && all_digits(r.subrange(l + 1, l + 3))
            &&& digits_value(r.take(l)) * 60 + digits_value(r.subrange(l + 1, l + 3)) == total
        }),
{
    let tail = seq!['/'] + decimal2(total / 60) + seq![':'] + decimal2(total % 60);
    let s = elapsed_total_text(elapsed, total);
    assert(s =~= decimal(elapsed / 60) + seq![':'] + decimal2(elapsed % 60) + tail);
    lemma_minutes_seconds(elapsed, tail);
    let k = first_index(s, ':') as int;
    assert(s[k + 3] == tail[0]);
    let r = s.subrange(k + 4, s.len() as int);
    assert(r =~= tail.drop_first());
    // The total part: zero-padded minutes, `:`, seconds.
    let tm = decimal2(total / 60);
    let ts = decimal2(total % 60);
    vstd::arithmetic::div_mod::lemma_fundamental_div_mod(total as int, 60);
    vstd::arithmetic::div_mod::lemma_mod_pos_bound(total as int, 60);
    lemma_decimal2(total / 60);
    lemma_decimal2(total % 60);
    assert(r =~= tm + seq![':'] + ts);
    lemma_first_after_digits(tm, ':', ts);
    let l = tm.len() as int;
    assert(r.take(l) =~= tm);
    assert(r.subrange(l + 1, l + 3) =~= ts);
}

/// The time left as `-m:ss`, from whole seconds.
pub fn format_remaining(seconds: u64) -> (s: String)
    ensures
        s@ == remaining_text(seconds as nat),
{
    let mut s = String::new();
    push_char(&mut s, '-');
    push_decimal(&mut s, seconds / 60);
    push_char(&mut s, ':');
    push_decimal2(&mut s, seconds % 60);
    s
}

/// Elapsed and total time as `m:ss/mm:ss`, from whole seconds.
pub fn format_elapsed_total(elapsed: u64, total: u64) -> (s: String)
    ensures
        s@ == elapsed_total_text(elapsed as nat, total as nat),
{
    let mut s = String::new();
    push_decimal(&mut s, elapsed / 60);
    push_char(&mut s, ':');
    push_decimal2(&mut s, elapsed % 60);
    push_char(&mut s, '/');
    push_decimal2(&mut s, total / 60);
    push_char(&mut s, ':');
    push_decimal2(&mut s, total % 60);
    s
}

/// Playback position in whole seconds (negative times count as zero).
#[derive(Clone, Copy)]
pub struct ProgressSeconds {
    pub elapsed: u64,
    pub duration: u64,
    pub remaining: u64,
}

/// The time text beside the progress bar: `--:--` when the position is unknown.
pub fn progress_time_text(format: ProgressTimeFormat, progress: Option<ProgressSeconds>) -> (s: String)
    ensures
        s@ == match progress {
            None => "--:--"@,
            Some(p) => match format {
                ProgressTimeFormat::Remaining => remaining_text(p.remaining as nat),
                ProgressTimeFormat::ElapsedTotal => elapsed_total_text(
                    p.elapsed as nat,
                    p.duration as nat,
                ),
            },
        },
{
    match progress {
        None => String::from_str("--:--"),
        Some(p) => match format {
            ProgressTimeFormat::Remaining => format_remaining(p.remaining),
            ProgressTimeFormat::ElapsedTotal => format_elapsed_total(p.elapsed, p.duration),
        },
    }
}

/// The item shows "Not Playing": the player is stopped or has no title.
pub open spec fn shows_not_playing(info: NowPlaying) -> bool {
    info.state@ == "stopped"@ || info.title@.len() == 0
}

/// Whether the now-playing image shows "Not Playing" in place of a track.
pub fn is_not_playing(info: &NowPlaying) -> (r: bool)
    ensures
        r == shows_not_playing(*info),
{
    str_eq(info.state.as_str(), "stopped") || chars_of(info.title.as_str()).len() == 0
}

/// What the progress image shows.
pub enum ProgressContent {
    /// An empty image.
    Blank,
    /// "Not Playing".
    NotPlaying,
    /// The track with its progress.
    Track,
}

/// What the progress image shows: blank when the fallback mode is `blank`,
/// "Not Playing" when nothing plays, else the track.
pub fn progress_content(info: &NowPlaying, options: &NowPlayingProgressOptions) -> (c:
    ProgressContent)
    ensures
        c is Blank <==> options.fallback_mode@ == "blank"@,
        c is NotPlaying <==> options.fallback_mode@ != "blank"@ && shows_not_playing(*info),
        c is Track <==> options.fallback_mode@ != "blank"@ && !shows_not_playing(*info),
{
    if str_eq(options.fallback_mode.as_str(), "blank") {
        ProgressContent::Blank
    } else if is_not_playing(info) {
        ProgressContent::NotPlaying
    } else {
        ProgressContent::Track
    }
}

/// The charge as `n%`, from the whole percent.
pub fn battery_percent_text(percent: u32) -> (s: String)
    ensures
        s@ == decimal(percent as nat).push('%'),
{
    let mut s = String::new();
    push_decimal(&mut s, percent as u64);
    push_char(&mut s, '%');
    s
}

/// The text beside the percentage of the battery item: none in percent-only
/// mode; else whether the machine charges, as a symbol when the style is
/// `symbol`, in words otherwise.
pub open spec fn battery_label_spec(mode: BatteryDisplayMode, is_charging: bool, style: Seq<char>) -> Option<
    Seq<char>,
> {
    match mode {
        BatteryDisplayMode::PercentOnly => None,
        _ => Some(
            if is_charging {
                if style == "symbol"@ {
                    "⚡"@
                } else {
                    "Charging"@
                }
            } else if style == "symbol"@ {
                "🔋"@
            } else {
                "On Battery"@
            },
        ),
    }
}

/// The text beside the percentage of the battery item.
pub fn battery_status_label(mode: BatteryDisplayMode, is_charging: bool, style: &str) -> (r: Option<
    &'static str,
>)
    ensures
        match r {
            Some(t) => battery_label_spec(mode, is_charging, style@) == Some(t@),
            None => battery_label_spec(mode, is_charging, style@) is None,
        },
{
    match mode {
        BatteryDisplayMode::PercentOnly => None,
        _ => {
            let symbol = str_eq(style, "symbol");
            if is_charging {
                if symbol {
                    Some("⚡")
                } else {
                    Some("Charging")
                }
            } else if symbol {
                Some("🔋")
            } else {
                Some("On Battery")
            }
        },
    }
}

/// The label depends on the mode only through percent-only (which shows
/// none): every other mode shows the same label, `⚡` or `Charging` while the
/// machine charges and `🔋` or `On Battery` otherwise, the symbols exactly
/// when the style is `symbol`.
pub proof fn law_battery_label(mode: BatteryDisplayMode, is_charging: bool, style: Seq<char>)
    ensures
        mode is PercentOnly ==> battery_label_spec(mode, is_charging, style) is None,
        !(mode is PercentOnly) ==> battery_label_spec(mode, is_charging, style) == battery_label_spec(
            BatteryDisplayMode::PercentAndCharging,
            is_charging,
            style,
        ),
        !(mode is PercentOnly) && is_charging && style == "symbol"@ ==> battery_label_spec(
            mode,
            is_charging,
            style,
        ) == Some("⚡"@),
        !(mode is PercentOnly) && is_charging && style != "symbol"@ ==> battery_label_spec(
            mode,
            is_charging,
            style,
        ) == Some("Charging"@),
        !(mode is PercentOnly) && !is_charging && style == "symbol"@ ==> battery_label_spec(
            mode,
            is_charging,
            style,
        ) == Some("🔋"@),
        !(mode is PercentOnly) && !is_charging && style != "symbol"@ ==> battery_label_spec(
            mode,
            is_charging,
            style,
        ) == Some("On Battery"@),
        !(mode is PercentOnly) ==> battery_label_spec(mode, true, style) != battery_label_spec(
            mode,
            false,
            style,
        ),
{
    reveal_strlit("⚡");
    reveal_strlit("🔋");
    reveal_strlit("Charging");
    reveal_strlit("On Battery");
    assert("⚡"@ != "🔋"@) by {
        assert("⚡"@[0] != "🔋"@[0]);
    }
    assert("Charging"@ != "On Battery"@) by {
        assert("Charging"@[0] != "On Battery"@[0]);
    }
}

} // verus!
