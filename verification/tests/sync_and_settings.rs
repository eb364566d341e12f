use macos_utilities::constants::{
    ACTION_INFOBAR_BATTERY, ACTION_INFOBAR_NEXT_CALENDAR, ACTION_INFOBAR_NOWPLAYING,
    ACTION_INFOBAR_NOWPLAYING_PROGRESS, ACTION_INFOBAR_NOWPLAYING_TIME, ACTION_MUTE,
    ACTION_PLAYPAUSE, INFOBAR_H, INFOBAR_W,
};
use macos_utilities::infobar::{
    battery_percent_text, battery_status_label, format_elapsed_total, format_remaining,
    is_not_playing, progress_content, progress_time_text, ProgressContent, ProgressSeconds,
};
use macos_utilities::protocol::{
    get_settings, make_set_image, make_set_infobar_item_visibility, register_event, set_image,
    set_state, Outgoing,
};
use macos_utilities::settings::{
    battery_render_options, calendar_names, clamp_i64, nowplaying_progress_options,
    nowplaying_render_options, settings_bool, settings_i64, settings_string, update_interval_ms,
    volume_step, BatteryDisplayMode, BatteryRenderOptions, NowPlayingProgressOptions,
    NowPlayingRenderOptions, ProgressTimeFormat, SettingValue, Settings,
};
use macos_utilities::sync::{
    finish_sync, fingerprint, is_displaying_data, plan_battery, plan_next_calendar, plan_nothing,
    plan_nowplaying, plan_nowplaying_progress, plan_nowplaying_time, plan_state, sync_kind,
    Scheduler, SyncKind,
};
use macos_utilities::system_media::NowPlaying;

fn s(entries: Vec<(&str, SettingValue)>) -> Settings {
    Settings { entries: entries.into_iter().map(|(k, v)| (k.to_string(), v)).collect() }
}

fn np(state: &str, title: &str, artist: &str) -> NowPlaying {
    NowPlaying { state: state.into(), title: title.into(), artist: artist.into() }
}

#[test]
fn setting_lookups() {
    let st = s(vec![
        ("a", SettingValue::Int(5)),
        ("b", SettingValue::Bool(true)),
        ("c", SettingValue::Text("x".into())),
        ("d", SettingValue::Other),
    ]);
    assert_eq!(settings_i64(Some(&st), "a", 1), 5);
    assert_eq!(settings_i64(Some(&st), "b", 1), 1);
    assert_eq!(settings_i64(None, "a", 9), 9);
    assert!(settings_bool(Some(&st), "b", false));
    assert!(!settings_bool(Some(&st), "d", false));
    assert_eq!(settings_string(Some(&st), "c", "y"), "x");
    assert_eq!(settings_string(Some(&st), "zz", "y"), "y");
    assert!(st.get("d").is_some());
    assert!(Settings::empty().get("a").is_none());
    assert_eq!(clamp_i64(100, 1, 50), 50);
}

#[test]
fn render_options_are_clamped() {
    let st = s(vec![
        ("showCover", SettingValue::Bool(false)),
        ("lineClamp", SettingValue::Int(9)),
        ("leftPadding", SettingValue::Int(-4)),
        ("rightPadding", SettingValue::Int(31)),
        ("progressBarHeight", SettingValue::Int(1)),
        ("highContrast", SettingValue::Bool(true)),
    ]);
    let o = nowplaying_render_options(Some(&st));
    assert!(!o.show_cover);
    assert_eq!((o.line_clamp, o.left_padding, o.right_padding, o.progress_bar_height), (2, 0, 30, 3));
    assert!(o.high_contrast && !o.rounded_bar);
    let d = nowplaying_render_options(None);
    let dd = NowPlayingRenderOptions::default();
    assert_eq!(
        (d.show_cover, d.line_clamp, d.left_padding, d.right_padding, d.progress_bar_height),
        (dd.show_cover, dd.line_clamp, dd.left_padding, dd.right_padding, dd.progress_bar_height)
    );
}

#[test]
fn progress_and_battery_options() {
    let st = s(vec![
        ("timeFormat", SettingValue::Text("elapsed_total".into())),
        ("fallbackMode", SettingValue::Text("blank".into())),
        ("batteryDisplayMode", SettingValue::Text("percent_only".into())),
        ("chargingIndicatorStyle", SettingValue::Text("symbol".into())),
    ]);
    let p = nowplaying_progress_options(Some(&st));
    assert!(matches!(p.time_format, ProgressTimeFormat::ElapsedTotal));
    assert_eq!(p.fallback_mode, "blank");
    let q = nowplaying_progress_options(None);
    assert!(matches!(q.time_format, ProgressTimeFormat::Remaining));
    assert_eq!(q.fallback_mode, NowPlayingProgressOptions::default().fallback_mode);
    let b = battery_render_options(Some(&st));
    assert!(matches!(b.display_mode, BatteryDisplayMode::PercentOnly));
    assert_eq!(b.charging_indicator_style, "symbol");
    let i = battery_render_options(Some(&s(vec![("batteryDisplayMode", SettingValue::Text("icon_and_percent".into()))])));
    assert!(matches!(i.display_mode, BatteryDisplayMode::IconAndPercent));
    let def = BatteryRenderOptions::default();
    assert!(matches!(def.display_mode, BatteryDisplayMode::PercentAndCharging));
    assert_eq!(def.charging_indicator_style, "text");
}

#[test]
fn steps_intervals_and_calendars() {
    assert_eq!(volume_step(&s(vec![("step", SettingValue::Int(0))])), 1);
    assert_eq!(volume_step(&s(vec![("step", SettingValue::Int(20))])), 20);
    assert_eq!(volume_step(&Settings::empty()), 10);
    assert_eq!(update_interval_ms(None, ACTION_INFOBAR_NOWPLAYING), 2000);
    assert_eq!(update_interval_ms(None, ACTION_INFOBAR_BATTERY), 250);
    assert_eq!(update_interval_ms(None, ACTION_PLAYPAUSE), 250);
    assert_eq!(update_interval_ms(Some(&s(vec![("other", SettingValue::Int(7))])), ACTION_INFOBAR_NOWPLAYING), 2000);
    assert_eq!(update_interval_ms(Some(&s(vec![("updateIntervalMs", SettingValue::Int(1))])), ACTION_INFOBAR_NOWPLAYING), 100);
    assert_eq!(update_interval_ms(Some(&s(vec![("updateIntervalMs", SettingValue::Int(99999))])), ACTION_MUTE), 5000);
    assert_eq!(update_interval_ms(Some(&s(vec![("updateIntervalMs", SettingValue::Int(600))])), ACTION_INFOBAR_BATTERY), 600);
    let names = calendar_names(Some(&s(vec![("calendarNames", SettingValue::Text(" Work, ,Home ,".into()))])));
    assert_eq!(names, vec!["Work".to_string(), "Home".to_string()]);
    assert!(calendar_names(None).is_empty());
}

#[test]
fn time_texts() {
    assert_eq!(format_remaining(125), "-2:05");
    assert_eq!(format_remaining(0), "-0:00");
    assert_eq!(format_remaining(3600), "-60:00");
    assert_eq!(format_elapsed_total(65, 3600), "1:05/60:00");
    assert_eq!(format_elapsed_total(5, 59), "0:05/00:59");
    assert_eq!(progress_time_text(ProgressTimeFormat::Remaining, None), "--:--");
    let p = ProgressSeconds { elapsed: 61, duration: 200, remaining: 139 };
    assert_eq!(progress_time_text(ProgressTimeFormat::Remaining, Some(p)), "-2:19");
    assert_eq!(progress_time_text(ProgressTimeFormat::ElapsedTotal, Some(p)), "1:01/03:20");
}

#[test]
fn battery_texts() {
    assert_eq!(battery_percent_text(87), "87%");
    assert_eq!(battery_percent_text(0), "0%");
    assert_eq!(battery_status_label(BatteryDisplayMode::PercentOnly, true, "text"), None);
    assert_eq!(battery_status_label(BatteryDisplayMode::PercentAndCharging, true, "text"), Some("Charging"));
    assert_eq!(battery_status_label(BatteryDisplayMode::IconAndPercent, true, "symbol"), Some("⚡"));
    assert_eq!(battery_status_label(BatteryDisplayMode::PercentAndCharging, false, "symbol"), Some("🔋"));
    assert_eq!(battery_status_label(BatteryDisplayMode::PercentAndCharging, false, "x"), Some("On Battery"));
}

#[test]
fn progress_image_content() {
    let mut o = NowPlayingProgressOptions::default();
    assert!(matches!(progress_content(&np("playing", "T", "A"), &o), ProgressContent::Track));
    assert!(matches!(progress_content(&np("stopped", "T", "A"), &o), ProgressContent::NotPlaying));
    assert!(matches!(progress_content(&np("paused", "", "A"), &o), ProgressContent::NotPlaying));
    o.fallback_mode = "blank".into();
    assert!(matches!(progress_content(&np("playing", "T", "A"), &o), ProgressContent::Blank));
    assert!(is_not_playing(&np("stopped", "T", "")));
    assert!(!is_not_playing(&np("paused", "T", "")));
}

#[test]
fn sync_kinds() {
    assert!(matches!(sync_kind(ACTION_INFOBAR_NOWPLAYING), SyncKind::NowPlaying));
    assert!(matches!(sync_kind(ACTION_INFOBAR_NOWPLAYING_TIME), SyncKind::NowPlayingTime));
    assert!(matches!(sync_kind(ACTION_INFOBAR_NOWPLAYING_PROGRESS), SyncKind::NowPlayingProgress));
    assert!(matches!(sync_kind(ACTION_INFOBAR_NEXT_CALENDAR), SyncKind::NextCalendar));
    assert!(matches!(sync_kind(ACTION_INFOBAR_BATTERY), SyncKind::Battery));
    assert!(matches!(sync_kind(ACTION_PLAYPAUSE), SyncKind::PlayPause));
    assert!(matches!(sync_kind(ACTION_MUTE), SyncKind::Mute));
    assert!(matches!(sync_kind("x"), SyncKind::Nothing));
}

#[test]
fn nowplaying_plans() {
    let ctx = "c";
    assert!(is_displaying_data(&np("playing", "T", "")));
    assert!(!is_displaying_data(&np("paused", "T", "")));
    let p = plan_nowplaying(ctx, &np("paused", "T", "A"), Some("img".into()));
    assert_eq!(p.messages.len(), 1);
    assert!(!p.render);
    assert!(matches!(&p.messages[0], Outgoing::Visibility(v) if !v.payload.visible && v.context == "c"));
    let p = plan_nowplaying(ctx, &np("playing", "T", "A"), Some("img".into()));
    assert_eq!(p.messages.len(), 2);
    assert!(matches!(&p.messages[1], Outgoing::Component(c) if c.payload.component.image == "img" && c.payload.component.title == "T" && c.payload.component.subtitle == "A"));
    let p = plan_nowplaying(ctx, &np("playing", "T", "A"), None);
    assert!(p.render);
    let msgs = finish_sync(p, ctx, Some("data:x".into()));
    assert_eq!(msgs.len(), 2);
    assert!(matches!(&msgs[1], Outgoing::Image(i) if i.payload.image == "data:x" && i.context == "c" && i.event == "setImage"));
    let t = plan_nowplaying_time(ctx, &np("playing", "T", ""));
    assert!(t.render);
    assert!(finish_sync(t, ctx, None).len() == 1);
}

#[test]
fn other_plans() {
    let ctx = "c";
    let mut o = NowPlayingProgressOptions::default();
    o.fallback_mode = "keep_last".into();
    assert!(plan_nowplaying_progress(ctx, &np("playing", "T", ""), &o).render);
    assert!(!plan_nowplaying_progress(ctx, &np("stopped", "T", ""), &o).render);
    let c = plan_next_calendar(ctx, false);
    assert!(c.render);
    assert!(matches!(&c.messages[0], Outgoing::Visibility(v) if !v.payload.visible));
    assert!(plan_battery().messages.is_empty());
    let st = plan_state(ctx, true);
    assert!(matches!(&st.messages[0], Outgoing::State(s) if s.payload.state == 1 && s.event == "setState"));
    let nothing = plan_nothing();
    assert!(finish_sync(nothing, ctx, Some("x".into())).is_empty());
    let b = plan_battery();
    assert_eq!(finish_sync(b, ctx, Some("x".into())).len(), 1);
}

#[test]
fn scheduler_sends_changed_batches_once() {
    let mut sch = Scheduler::new();
    assert!(sch.is_due("a", 250, 0));
    let fp = fingerprint(&["m1".to_string(), "m2".to_string()]);
    assert_eq!(fp, "m1\u{1f}m2");
    assert!(sch.record("a", fp.clone(), 1_000));
    assert!(!sch.is_due("a", 250, 1_000 + 249_999_999));
    assert!(sch.is_due("a", 250, 1_000 + 250_000_000));
    assert!(!sch.record("a", fp.clone(), 2_000));
    assert!(sch.record("a", fingerprint(&["m3".to_string()]), 3_000));
    assert!(sch.record("b", fingerprint(&[]), 3_000));
    assert_eq!(fingerprint(&[]), "");
    sch.retain_present(&["b".to_string()]);
    assert!(sch.is_due("a", 5000, 3_001));
    assert!(!sch.is_due("b", 5000, 3_001));
    assert!(sch.last_sent.get("a").is_none());
}

#[test]
fn protocol_messages() {
    let r = register_event("registerPlugin", "u");
    assert_eq!((r.event, r.uuid), ("registerPlugin", "u"));
    let g = get_settings("c");
    assert_eq!((g.event, g.context), ("getSettings", "c"));
    let st = set_state("c", 1);
    assert_eq!((st.event, st.context, st.payload.state), ("setState", "c", 1));
    let v = make_set_infobar_item_visibility("c", true);
    assert_eq!((v.event, v.context, v.payload.visible), ("setInfobarItemVisibility", "c", true));
    let i = make_set_image("c", &[1, 2, 3]);
    assert_eq!((i.event, i.context.as_str(), i.payload.image.as_str(), i.payload.target), ("setImage", "c", "data:image/png;base64,AQID", 0));
    let j = set_image("c", "u".into());
    assert_eq!(j.payload.image, "u");
    assert_eq!((INFOBAR_W, INFOBAR_H), (248, 58));
}
