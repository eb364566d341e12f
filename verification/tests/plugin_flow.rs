use macos_utilities::calendar::{
    calendar_card, CalendarCard, NextCalendarEvent, get_next_event, next_event_script, read_answer, selection_list, truncate, CalendarAnswer,
    SCRIPT_HEAD, SCRIPT_TAIL,
};
use macos_utilities::constants::{
    ACTION_INFOBAR_BATTERY, ACTION_INFOBAR_NOWPLAYING, ACTION_MUTE, ACTION_NEXT, ACTION_PLAYPAUSE,
    ACTION_PREVIOUS, ACTION_VOLUME_DOWN, ACTION_VOLUME_UP,
};
use macos_utilities::context_map::ContextMap;
use macos_utilities::playing_status::parse_expectation;
use macos_utilities::plugin::{
    is_active_sync_action, is_volume_step_action, key_command, parse_action_context,
    parse_launch_args, trim_start_dashes, Effect, IncomingMessage, KeyCommand, PluginState,
    StoredSettings,
};
use macos_utilities::settings::{SettingValue, Settings};

fn settings(entries: Vec<(&str, SettingValue)>) -> StoredSettings<u32> {
    StoredSettings {
        parsed: Settings { entries: entries.into_iter().map(|(k, v)| (k.to_string(), v)).collect() },
        raw: 0,
    }
}

fn msg(event: &str, action: &str, context: &str) -> IncomingMessage<u32> {
    IncomingMessage {
        event: event.to_string(),
        action: Some(action.to_string()),
        context: Some(context.to_string()),
        settings: settings(vec![]),
    }
}

const KEY_CTX: &str = "dev1.Keypad.Keypad.3.abc";
const BAR_CTX: &str = "dev1.Infobar.Infobar.0.def";

#[test]
fn truncate_cuts_with_ellipsis() {
    assert_eq!(truncate("Hello", 3), "He…");
    assert_eq!(truncate("Hi", 3), "Hi");
    assert_eq!(truncate("abc", 3), "abc");
    assert_eq!(truncate("abc", 0), "…");
    assert_eq!(truncate("abc", 1), "…");
    assert_eq!(truncate("ÄÖÜäöü", 4), "ÄÖÜ…");
    assert!(truncate("A very long calendar event title indeed", 23).chars().count() <= 23);
}

#[test]
fn calendar_selection_literal() {
    assert_eq!(selection_list(&[]), "{}");
    assert_eq!(
        selection_list(&["Work".to_string(), "Fam\"ily".to_string()]),
        "{\"Work\", \"Fam\\\"ily\"}"
    );
    let script = next_event_script(&["Home".to_string()]);
    assert!(script.starts_with("set selectedCalendars to {\"Home\"}\nset useFilter"));
    assert_eq!(script, format!("{}{{\"Home\"}}{}", SCRIPT_HEAD, SCRIPT_TAIL));
    assert!(script.ends_with("end tell"));
}

#[test]
fn calendar_answer_failures() {
    assert_eq!(
        get_next_event(false, "", "  ").err().unwrap(),
        "Calendar unavailable. Please allow Calendar access for OpenDeck when prompted."
    );
    assert_eq!(get_next_event(false, "", " boom \n").err().unwrap(), "Calendar unavailable: boom");
    assert_eq!(
        get_next_event(true, "ERROR|not allowed\n", "").err().unwrap(),
        "Calendar unavailable: not allowed. Please grant Calendar access when prompted."
    );
    assert_eq!(
        get_next_event(true, "weird", "").err().unwrap(),
        "Calendar unavailable. Please grant Calendar access when prompted."
    );
    assert_eq!(
        get_next_event(true, "BAD|x|y", "").err().unwrap(),
        "Calendar unavailable. Please grant Calendar access when prompted."
    );
    assert_eq!(
        get_next_event(true, "OK", "").err().unwrap(),
        "Failed to parse calendar response (missing date)"
    );
    assert_eq!(
        get_next_event(true, "OK|2024-05-01T10:00:00Z", "").err().unwrap(),
        "Failed to parse calendar response (missing title)"
    );
    let bad = get_next_event(true, "OK|not a date|Title", "").err().unwrap();
    assert!(bad.starts_with("Invalid calendar date format: "), "{bad}");
    assert!(bad.len() > "Invalid calendar date format: ".len());
}

#[test]
fn calendar_card_texts() {
    let ev = NextCalendarEvent { title: "A very long meeting title indeed".into(), start_secs: 0, start_nanos: 0 };
    match calendar_card(Some(&ev), Some("ignored")) {
        CalendarCard::Event { title } => assert_eq!(title, "A very long meeting ti…"),
        _ => panic!("expected the event"),
    }
    match calendar_card(None, Some("Calendar unavailable: access denied by the user")) {
        CalendarCard::Unavailable { detail } => assert_eq!(detail, "Calendar unavailable: access …"),
        _ => panic!("expected the reason"),
    }
    assert!(matches!(calendar_card(None, None), CalendarCard::NoEvent));
}

#[test]
fn calendar_answer_event() {
    assert!(matches!(get_next_event(true, " NONE\n", ""), Ok(None)));
    let ev = get_next_event(true, "OK|2024-05-01T10:00:00Z|Stand|up\n", "").unwrap().unwrap();
    assert_eq!(ev.title, "Stand|up");
    assert_eq!(ev.start_secs, 1714557600);
    assert_eq!(ev.start_nanos, 0);
    let ev2 = get_next_event(true, "OK|2024-05-01T12:00:00.5+02:00|Lunch", "").unwrap().unwrap();
    assert_eq!(ev2.start_secs, 1714557600);
    assert_eq!(ev2.start_nanos, 500_000_000);
    match read_answer(true, "OK|a|b", "") {
        CalendarAnswer::Event { start, title } => {
            assert_eq!(start, "a");
            assert_eq!(title, "b");
        }
        _ => panic!("expected an event"),
    }
    assert!(matches!(read_answer(true, "NONE", ""), CalendarAnswer::NoEvent));
}

#[test]
fn action_classes() {
    assert!(is_volume_step_action(ACTION_VOLUME_UP));
    assert!(is_volume_step_action(ACTION_VOLUME_DOWN));
    assert!(!is_volume_step_action(ACTION_MUTE));
    assert!(is_active_sync_action(ACTION_MUTE));
    assert!(is_active_sync_action(ACTION_PLAYPAUSE));
    assert!(is_active_sync_action(ACTION_INFOBAR_BATTERY));
    assert!(!is_active_sync_action(ACTION_NEXT));
    assert!(!is_active_sync_action(""));
}

#[test]
fn key_commands() {
    assert_eq!(key_command(ACTION_PREVIOUS, 10), Some(KeyCommand::Previous));
    assert_eq!(key_command(ACTION_NEXT, 10), Some(KeyCommand::Next));
    assert_eq!(key_command(ACTION_PLAYPAUSE, 10), Some(KeyCommand::PlayPause));
    assert_eq!(key_command(ACTION_VOLUME_UP, 7), Some(KeyCommand::AdjustVolume(7)));
    assert_eq!(key_command(ACTION_VOLUME_DOWN, 7), Some(KeyCommand::AdjustVolume(-7)));
    assert_eq!(key_command(ACTION_MUTE, 7), Some(KeyCommand::ToggleMute));
    assert_eq!(key_command("other", 7), None);
}

#[test]
fn action_contexts() {
    let p = parse_action_context(BAR_CTX).unwrap();
    assert_eq!((p.device.as_str(), p.controller.as_str(), p.position), ("dev1", "Infobar", 0));
    assert!(parse_action_context("a.b.c.d").is_none());
    assert!(parse_action_context("a.b.c.256.e").is_none());
    assert!(parse_action_context("a.b.c.x.e").is_none());
    assert_eq!(parse_action_context("a.b.c.+9.e.f").unwrap().position, 9);
}

#[test]
fn will_appear_registers_and_syncs() {
    let mut st: PluginState<u32> = PluginState::new();
    let fx = st.handle_message(msg("willAppear", ACTION_INFOBAR_NOWPLAYING, BAR_CTX));
    assert_eq!(fx.len(), 2);
    assert!(matches!(&fx[0], Effect::RequestSettings { context } if context == BAR_CTX));
    assert!(matches!(&fx[1], Effect::Sync { context, action } if context == BAR_CTX && action == ACTION_INFOBAR_NOWPLAYING));
    assert_eq!(st.active.get(BAR_CTX).map(|s| s.as_str()), Some(ACTION_INFOBAR_NOWPLAYING));
}

#[test]
fn will_appear_play_pause_waits_for_refresh() {
    let mut st: PluginState<u32> = PluginState::new();
    let fx = st.handle_message(msg("willAppear", ACTION_PLAYPAUSE, KEY_CTX));
    assert_eq!(fx.len(), 1);
    assert!(matches!(&fx[0], Effect::RequestSettings { .. }));
    assert!(st.active.contains(KEY_CTX));
}

#[test]
fn will_appear_volume_key_is_not_active() {
    let mut st: PluginState<u32> = PluginState::new();
    let fx = st.handle_message(msg("willAppear", ACTION_VOLUME_UP, KEY_CTX));
    assert_eq!(fx.len(), 1);
    assert!(!st.active.contains(KEY_CTX));
    let fx2 = st.handle_message(msg("willAppear", ACTION_NEXT, KEY_CTX));
    assert!(fx2.is_empty());
}

#[test]
fn settings_set_volume_step_within_range() {
    let mut st: PluginState<u32> = PluginState::new();
    assert_eq!(st.step(KEY_CTX), 10);
    let mut m = msg("didReceiveSettings", ACTION_VOLUME_DOWN, KEY_CTX);
    m.settings = settings(vec![("step", SettingValue::Int(70))]);
    assert!(st.handle_message(m).is_empty());
    assert_eq!(st.step(KEY_CTX), 50);
    let mut m = msg("didReceiveSettings", ACTION_VOLUME_DOWN, KEY_CTX);
    m.settings = settings(vec![("step", SettingValue::Int(-3))]);
    st.handle_message(m);
    assert_eq!(st.step(KEY_CTX), 1);
    let mut m = msg("didReceiveSettings", ACTION_VOLUME_DOWN, KEY_CTX);
    m.settings = settings(vec![("step", SettingValue::Text("5".into()))]);
    st.handle_message(m);
    assert_eq!(st.step(KEY_CTX), 10);
    assert!(st.settings_for(KEY_CTX).is_some());
}

#[test]
fn key_down_volume_uses_step_and_overlay() {
    let mut st: PluginState<u32> = PluginState::new();
    let mut m = msg("didReceiveSettings", ACTION_VOLUME_DOWN, KEY_CTX);
    m.settings = settings(vec![("step", SettingValue::Int(25))]);
    st.handle_message(m);
    let fx = st.handle_message(msg("keyDown", ACTION_VOLUME_DOWN, KEY_CTX));
    assert_eq!(fx.len(), 3);
    assert!(matches!(&fx[0], Effect::Key(KeyCommand::AdjustVolume(-25))));
    assert!(matches!(&fx[1], Effect::VolumeOverlay { context } if context == KEY_CTX));
    assert!(matches!(&fx[2], Effect::SyncAllSoon));
    let fx = st.handle_message(msg("keyDown", ACTION_VOLUME_UP, "other.ctx"));
    assert!(matches!(&fx[0], Effect::Key(KeyCommand::AdjustVolume(10))));
}

#[test]
fn key_down_unknown_action_only_refreshes() {
    let mut st: PluginState<u32> = PluginState::new();
    let fx = st.handle_message(msg("keyDown", "something.else", KEY_CTX));
    assert_eq!(fx.len(), 1);
    assert!(matches!(&fx[0], Effect::SyncAllSoon));
    let fx = st.handle_message(msg("keyDown", ACTION_MUTE, KEY_CTX));
    assert!(matches!(&fx[0], Effect::Key(KeyCommand::ToggleMute)));
}

#[test]
fn will_disappear_forgets_everything() {
    let mut st: PluginState<u32> = PluginState::new();
    st.handle_message(msg("willAppear", ACTION_MUTE, KEY_CTX));
    let mut m = msg("didReceiveSettings", ACTION_MUTE, KEY_CTX);
    m.settings = settings(vec![("step", SettingValue::Int(3))]);
    st.handle_message(m);
    st.handle_message(msg("willAppear", ACTION_INFOBAR_BATTERY, BAR_CTX));
    let fx = st.handle_message(msg("willDisappear", ACTION_MUTE, KEY_CTX));
    assert_eq!(fx.len(), 1);
    assert!(matches!(&fx[0], Effect::Forget { context } if context == KEY_CTX));
    assert!(!st.active.contains(KEY_CTX));
    assert!(st.settings_for(KEY_CTX).is_none());
    assert_eq!(st.step(KEY_CTX), 10);
    assert!(st.active.contains(BAR_CTX));
}

#[test]
fn other_events_change_nothing() {
    let mut st: PluginState<u32> = PluginState::new();
    let fx = st.handle_message(IncomingMessage {
        event: "deviceDidConnect".into(),
        action: None,
        context: None,
        settings: settings(vec![]),
    });
    assert!(fx.is_empty());
    assert_eq!(st.active.len(), 0);
}

#[test]
fn volume_overlay_goes_to_same_device_infobar() {
    let mut st: PluginState<u32> = PluginState::new();
    st.handle_message(msg("willAppear", ACTION_INFOBAR_BATTERY, BAR_CTX));
    st.handle_message(msg("willAppear", ACTION_INFOBAR_NOWPLAYING, "dev2.Infobar.Infobar.0.x"));
    st.handle_message(msg("willAppear", ACTION_MUTE, "dev1.Keypad.Keypad.1.y"));
    assert_eq!(st.volume_overlay_targets(KEY_CTX), vec![BAR_CTX.to_string()]);
    assert!(st.volume_overlay_targets("broken").is_empty());
}

#[test]
fn context_map_basics() {
    let mut m: ContextMap<i32> = ContextMap::new();
    m.insert("a".into(), 1);
    m.insert("b".into(), 2);
    m.insert("a".into(), 3);
    assert_eq!(m.len(), 2);
    assert_eq!(m.get("a"), Some(&3));
    m.remove("a");
    assert_eq!(m.get("a"), None);
    assert_eq!(m.get("b"), Some(&2));
    m.insert("c".into(), 4);
    m.retain_present(&["c".to_string(), "zzz".to_string()]);
    assert_eq!(m.len(), 1);
    assert_eq!(m.entry(0).0, "c");
}

#[test]
fn launch_args() {
    let argv: Vec<String> = ["prog", "-port", "28196", "-pluginUUID", "uuid", "-registerEvent", "registerPlugin", "-info", "{}"]
        .iter()
        .map(|s| s.to_string())
        .collect();
    let a = parse_launch_args(&argv).unwrap();
    assert_eq!((a.port.as_str(), a.plugin_uuid.as_str(), a.register_event.as_str()), ("28196", "uuid", "registerPlugin"));
    let argv2: Vec<String> = ["prog", "--port", "1", "pluginUUID", "u", "-registerEvent"]
        .iter()
        .map(|s| s.to_string())
        .collect();
    assert!(parse_launch_args(&argv2).is_none());
    let argv3: Vec<String> = ["prog", "-port", "1", "-port", "2", "-pluginUUID", "u", "-registerEvent", "r"]
        .iter()
        .map(|s| s.to_string())
        .collect();
    assert_eq!(parse_launch_args(&argv3).unwrap().port, "2");
    assert_eq!(trim_start_dashes("--x-"), "x-");
}

#[test]
fn playing_status_arguments() {
    let a = |v: &[&str]| v.iter().map(|s| s.to_string()).collect::<Vec<_>>();
    assert_eq!(parse_expectation(&a(&["t"])), Some(None));
    assert_eq!(parse_expectation(&a(&["t", "--expect", "playing"])), Some(Some(true)));
    assert_eq!(parse_expectation(&a(&["t", "--expect", "not-playing"])), Some(Some(false)));
    assert_eq!(parse_expectation(&a(&["t", "--expect", "maybe"])), None);
    assert_eq!(parse_expectation(&a(&["t", "--expect"])), None);
}
