//! The per-key settings that the host stores for the plugin, and the render
//! options and intervals derived from them.
use vstd::prelude::*;
use vstd::string::StringExecFns;

use crate::constants::ACTION_INFOBAR_NOWPLAYING;
use crate::text::{split, split_spec, str_eq, trim, trim_spec};

verus! {

/// A setting's value as the plugin reads it: an integer (a JSON number that
/// fits in `i64`), a boolean, a text, or anything else (floats, `null`,
/// arrays and objects).
#[derive(Clone)]
pub enum SettingValue {
    Int(i64),
    Bool(bool),
    Text(String),
    Other,
}

/// The settings of one key or infobar item: the fields of the JSON object
/// that the host sent, in order. Anything but an object has no fields.
#[derive(Clone)]
pub struct Settings {
    pub entries: Vec<(String, SettingValue)>,
}

/// The value of the first field named `key`.
pub open spec fn lookup(entries: Seq<(String, SettingValue)>, key: Seq<char>) -> Option<
    SettingValue,
>
    decreases entries.len(),
{
    if entries.len() == 0 {
        None
    } else if entries[0].0@ == key {
        Some(entries[0].1)
    } else {
        lookup(entries.drop_first(), key)
    }
}

/// `lookup` finds the first field with the key.
proof fn lemma_lookup(entries: Seq<(String, SettingValue)>, key: Seq<char>, k: int)
    requires
        0 <= k <= entries.len(),
        forall|j: int| 0 <= j < k ==> #[trigger] entries[j].0@ != key,
        k < entries.len() ==> entries[k].0@ == key,
    ensures
        lookup(entries, key) == (if k < entries.len() {
            Some(entries[k].1)
        } else {
            None
        }),
    decreases k,
{
    if k > 0 {
        let t = entries.drop_first();
        assert forall|j: int| 0 <= j < k - 1 implies #[trigger] t[j].0@ != key by {
            assert(t[j] == entries[j + 1]);
        }
        if k < entries.len() {
            assert(t[k - 1] == entries[k]);
        }
        lemma_lookup(t, key, k - 1);
    }
}

impl Settings {
    /// No settings.
    pub fn empty() -> (s: Settings)
        ensures
            s.entries@.len() == 0,
    {
        Settings { entries: Vec::new() }
    }

    /// The value of the field named `key`.
    pub fn get(&self, key: &str) -> (r: Option<&SettingValue>)
        ensures
            match r {
                Some(v) => lookup(self.entries@, key@) == Some(*v),
                None => lookup(self.entries@, key@) is None,
            },
    {
        let mut i: usize = 0;
        while i < self.entries.len()
            invariant
                i <= self.entries@.len(),
                forall|j: int| 0 <= j < i ==> #[trigger] self.entries@[j].0@ != key@,
            decreases self.entries@.len() - i,
        {
            if str_eq(self.entries[i].0.as_str(), key) {
                proof {
                    lemma_lookup(self.entries@, key@, i as int);
                }
                return Some(&self.entries[i].1);
            }
            i = i + 1;
        }
        proof {
            lemma_lookup(self.entries@, key@, i as int);
        }
        None
    }
}

/// The value of `key` in the settings, if any settings are known.
pub open spec fn setting(settings: Option<&Settings>, key: Seq<char>) -> Option<SettingValue> {
    match settings {
        Some(s) => lookup(s.entries@, key),
        None => None,
    }
}

/// The integer setting `key`, or `default` when it is absent or not an integer.
pub open spec fn int_setting(settings: Option<&Settings>, key: Seq<char>, default: i64) -> i64 {
    match setting(settings, key) {
        Some(SettingValue::Int(v)) => v,
        _ => default,
    }
}

/// The boolean setting `key`, or `default`.
pub open spec fn bool_setting(settings: Option<&Settings>, key: Seq<char>, default: bool) -> bool {
    match setting(settings, key) {
        Some(SettingValue::Bool(v)) => v,
        _ => default,
    }
}

/// The text setting `key`, or `default`.
pub open spec fn text_setting(settings: Option<&Settings>, key: Seq<char>, default: Seq<char>) -> Seq<
    char,
> {
    match setting(settings, key) {
        Some(SettingValue::Text(v)) => v@,
        _ => default,
    }
}

/// The value of `key` in the settings, if any settings are known.
fn setting_value<'a>(settings: Option<&'a Settings>, key: &str) -> (r: Option<&'a SettingValue>)
    ensures
        match r {
            Some(v) => setting(settings, key@) == Some(*v),
            None => setting(settings, key@) is None,
        },
{
    match settings {
        Some(s) => s.get(key),
        None => None,
    }
}

/// The integer setting `key`, or `default`.
pub fn settings_i64(settings: Option<&Settings>, key: &str, default: i64) -> (r: i64)
    ensures
        r == int_setting(settings, key@, default),
{
    match setting_value(settings, key) {
        Some(SettingValue::Int(v)) => *v,
        _ => default,
    }
}

/// The boolean setting `key`, or `default`.
pub fn settings_bool(settings: Option<&Settings>, key: &str, default: bool) -> (r: bool)
    ensures
        r == bool_setting(settings, key@, default),
{
    match setting_value(settings, key) {
        Some(SettingValue::Bool(v)) => *v,
        _ => default,
    }
}

/// The text setting `key`, or `default`.
pub fn settings_string(settings: Option<&Settings>, key: &str, default: &str) -> (r: String)
    ensures
        r@ == text_setting(settings, key@, default@),
{
    match setting_value(settings, key) {
        Some(SettingValue::Text(v)) => v.clone(),
        _ => String::from_str(default),
    }
}

/// `v` limited to `[lo, hi]`.
pub open spec fn clamp(v: int, lo: int, hi: int) -> int {
    if v < lo {
        lo
    } else if v > hi {
        hi
    } else {
        v
    }
}

/// `v` limited to `[lo, hi]`, as `Ord::clamp` does.
pub fn clamp_i64(v: i64, lo: i64, hi: i64) -> (r: i64)
    requires
        lo <= hi,
    ensures
        r == clamp(v as int, lo as int, hi as int),
        lo <= r <= hi,
{
    if v < lo {
        lo
    } else if v > hi {
        hi
    } else {
        v
    }
}

// ----------------------------------------------------------------------------
// Render options
// ----------------------------------------------------------------------------
/// How the now-playing items are laid out. The font sizes are floats, which
/// the renderer reads from the settings itself.
#[derive(Clone, Copy)]
pub struct NowPlayingRenderOptions {
    pub show_cover: bool,
    pub line_clamp: u8,
    pub left_padding: i32,
    pub right_padding: i32,
    pub progress_bar_height: u32,
    pub high_contrast: bool,
    pub rounded_bar: bool,
}

impl Default for NowPlayingRenderOptions {
    fn default() -> (o: Self)
        ensures
            o.show_cover,
            o.line_clamp == 2,
            o.left_padding == 10,
            o.right_padding == 6,
            o.progress_bar_height == 6,
            !o.high_contrast,
            !o.rounded_bar,
    {
        NowPlayingRenderOptions {
            show_cover: true,
            line_clamp: 2,
            left_padding: 10,
            right_padding: 6,
            progress_bar_height: 6,
            high_contrast: false,
            rounded_bar: false,
        }
    }
}

/// How the time left or elapsed is shown beside the progress bar.
#[derive(Clone, Copy)]
pub enum ProgressTimeFormat {
    Remaining,
    ElapsedTotal,
}

/// Options of the now-playing item with a progress bar. `fallback_mode` is
/// `no_track`, `blank` or `keep_last`.
pub struct NowPlayingProgressOptions {
    pub base: NowPlayingRenderOptions,
    pub time_format: ProgressTimeFormat,
    pub fallback_mode: String,
}

impl Default for NowPlayingProgressOptions {
    fn default() -> (o: Self)
        ensures
            o.base.show_cover && o.base.line_clamp == 2 && o.base.left_padding == 10
                && o.base.right_padding == 6 && o.base.progress_bar_height == 6
                && !o.base.high_contrast && !o.base.rounded_bar,
            o.time_format is Remaining,
            o.fallback_mode@ == "no_track"@,
    {
        NowPlayingProgressOptions {
            base: NowPlayingRenderOptions::default(),
            time_format: ProgressTimeFormat::Remaining,
            fallback_mode: String::from_str("no_track"),
        }
    }
}

/// What the battery item shows beside the percentage.
#[derive(Clone, Copy)]
pub enum BatteryDisplayMode {
    PercentOnly,
    PercentAndCharging,
    IconAndPercent,
}

/// Options of the battery item. The low-battery threshold is a float, which
/// the renderer reads from the settings itself.
pub struct BatteryRenderOptions {
    pub display_mode: BatteryDisplayMode,
    pub charging_indicator_style: String,
}

impl Default for BatteryRenderOptions {
    fn default() -> (o: Self)
        ensures
            o.display_mode is PercentAndCharging,
            o.charging_indicator_style@ == "text"@,
    {
        BatteryRenderOptions {
            display_mode: BatteryDisplayMode::PercentAndCharging,
            charging_indicator_style: String::from_str("text"),
        }
    }
}

/// The now-playing layout that the settings ask for.
pub open spec fn nowplaying_options_spec(settings: Option<&Settings>, o: NowPlayingRenderOptions) -> bool {
    &&& o.show_cover == bool_setting(settings, "showCover"@, true)
    &&& o.line_clamp == clamp(int_setting(settings, "lineClamp"@, 2) as int, 1, 2)
    &&& o.left_padding == clamp(int_setting(settings, "leftPadding"@, 10) as int, 0, 30)
    &&& o.right_padding == clamp(int_setting(settings, "rightPadding"@, 6) as int, 0, 30)
    &&& o.progress_bar_height == clamp(int_setting(settings, "progressBarHeight"@, 6) as int, 3, 12)
    &&& o.high_contrast == bool_setting(settings, "highContrast"@, false)
    &&& o.rounded_bar == bool_setting(settings, "roundedBar"@, false)
}

/// The now-playing layout from the settings, each number limited to its range.
pub fn nowplaying_render_options(settings: Option<&Settings>) -> (o: NowPlayingRenderOptions)
    ensures
        nowplaying_options_spec(settings, o),
{
    NowPlayingRenderOptions {
        show_cover: settings_bool(settings, "showCover", true),
        line_clamp: clamp_i64(settings_i64(settings, "lineClamp", 2), 1, 2) as u8,
        left_padding: clamp_i64(settings_i64(settings, "leftPadding", 10), 0, 30) as i32,
        right_padding: clamp_i64(settings_i64(settings, "rightPadding", 6), 0, 30) as i32,
        progress_bar_height: clamp_i64(settings_i64(settings, "progressBarHeight", 6), 3, 12) as u32,
        high_contrast: settings_bool(settings, "highContrast", false),
        rounded_bar: settings_bool(settings, "roundedBar", false),
    }
}

/// The progress item options from the settings: elapsed/total only when
/// `timeFormat` is `elapsed_total`.
pub fn nowplaying_progress_options(settings: Option<&Settings>) -> (o: NowPlayingProgressOptions)
    ensures
        nowplaying_options_spec(settings, o.base),
        (o.time_format is ElapsedTotal) == (text_setting(settings, "timeFormat"@, "remaining"@)
            == "elapsed_total"@),
        o.fallback_mode@ == text_setting(settings, "fallbackMode"@, "no_track"@),
{
    let format_text = settings_string(settings, "timeFormat", "remaining");
    let time_format = if str_eq(format_text.as_str(), "elapsed_total") {
        ProgressTimeFormat::ElapsedTotal
    } else {
        ProgressTimeFormat::Remaining
    };
    NowPlayingProgressOptions {
        base: nowplaying_render_options(settings),
        time_format,
        fallback_mode: settings_string(settings, "fallbackMode", "no_track"),
    }
}

/// The battery display mode named by a setting's text.
pub open spec fn display_mode_spec(text: Seq<char>) -> BatteryDisplayMode {
    if text == "percent_only"@ {
        BatteryDisplayMode::PercentOnly
    } else if text == "icon_and_percent"@ {
        BatteryDisplayMode::IconAndPercent
    } else {
        BatteryDisplayMode::PercentAndCharging
    }
}

/// The battery options from the settings.
pub fn battery_render_options(settings: Option<&Settings>) -> (o: BatteryRenderOptions)
    ensures
        o.display_mode == display_mode_spec(
            text_setting(settings, "batteryDisplayMode"@, "percent_and_charging"@),
        ),
        o.charging_indicator_style@ == text_setting(settings, "chargingIndicatorStyle"@, "text"@),
{
    let mode_text = settings_string(settings, "batteryDisplayMode", "percent_and_charging");
    let display_mode = if str_eq(mode_text.as_str(), "percent_only") {
        BatteryDisplayMode::PercentOnly
    } else if str_eq(mode_text.as_str(), "icon_and_percent") {
        BatteryDisplayMode::IconAndPercent
    } else {
        BatteryDisplayMode::PercentAndCharging
    };
    BatteryRenderOptions {
        display_mode,
        charging_indicator_style: settings_string(settings, "chargingIndicatorStyle", "text"),
    }
}

// ----------------------------------------------------------------------------
// Steps, intervals, calendars
// ----------------------------------------------------------------------------
/// The volume step of a volume key: the `step` setting limited to 1..=50,
/// 10 when it is absent or not an integer.
pub open spec fn step_spec(settings: &Settings) -> i32 {
    match lookup(settings.entries@, "step"@) {
        Some(SettingValue::Int(v)) => clamp(v as int, 1, 50) as i32,
        _ => 10,
    }
}

/// The volume step that the settings of a volume key ask for.
pub fn volume_step(settings: &Settings) -> (step: i32)
    ensures
        step == step_spec(settings),
        1 <= step <= 50,
{
    match settings.get("step") {
        Some(SettingValue::Int(v)) => clamp_i64(*v, 1, 50) as i32,
        _ => 10,
    }
}

/// The refresh interval of an item whose settings do not set one: every 2
/// seconds for the now-playing item, every 250 milliseconds for the others.
pub open spec fn default_interval_spec(action: Seq<char>) -> i64 {
    if action == ACTION_INFOBAR_NOWPLAYING@ {
        2000
    } else {
        250
    }
}

/// The refresh interval of `action` when its settings do not set one.
pub fn default_update_interval_ms(action: &str) -> (ms: i64)
    ensures
        ms == default_interval_spec(action@),
{
    if str_eq(action, ACTION_INFOBAR_NOWPLAYING) {
        2000
    } else {
        250
    }
}

/// How often the item `action` is refreshed, in milliseconds: the
/// `updateIntervalMs` setting limited to 100..=5000, else the action's default.
pub fn update_interval_ms(settings: Option<&Settings>, action: &str) -> (ms: u64)
    ensures
        ms == clamp(int_setting(settings, "updateIntervalMs"@, default_interval_spec(action@)) as int, 100, 5000),
        100 <= ms <= 5000,
{
    let default = default_update_interval_ms(action);
    clamp_i64(settings_i64(settings, "updateIntervalMs", default), 100, 5000) as u64
}

/// The trimmed pieces that are not empty, in order.
pub open spec fn nonempty_trimmed(parts: Seq<Seq<char>>) -> Seq<Seq<char>>
    decreases parts.len(),
{
    if parts.len() == 0 {
        Seq::empty()
    } else {
        let rest = nonempty_trimmed(parts.drop_last());
        let t = trim_spec(parts.last());
        if t.len() > 0 {
            rest.push(t)
        } else {
            rest
        }
    }
}

/// The names of the calendars that the `calendarNames` setting selects: its
/// comma-separated entries, trimmed, without empty ones.
pub fn calendar_names(settings: Option<&Settings>) -> (names: Vec<String>)
    ensures
        names@.map_values(|s: String| s@) == nonempty_trimmed(
            split_spec(text_setting(settings, "calendarNames"@, ""@), ','),
        ),
{
    let text = settings_string(settings, "calendarNames", "");
    let parts = split(text.as_str(), ',');
    let ghost ps = split_spec(text@, ',');
    let mut names: Vec<String> = Vec::new();
    let mut i: usize = 0;
    while i < parts.len()
        invariant
            i <= parts@.len() == ps.len(),
            forall|j: int| 0 <= j < parts@.len() ==> #[trigger] parts@[j]@ == ps[j],
            names@.map_values(|s: String| s@) == nonempty_trimmed(ps.take(i as int)),
        decreases parts@.len() - i,
    {
        assert(ps.take(i + 1).drop_last() == ps.take(i as int));
        let t = trim(parts[i].as_str());
        let ghost before = names@;
        if crate::text::chars_of(t.as_str()).len() > 0 {
            names.push(t);
            assert(names@.map_values(|s: String| s@) =~= before.map_values(|s: String| s@).push(
                t@,
            ));
        }
        i = i + 1;
    }
    assert(ps.take(parts@.len() as int) == ps);
    names
}

} // verus!
