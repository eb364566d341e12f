use macos_utilities::applescript_fallback;
use macos_utilities::encoding::{data_uri, is_jpeg, is_png, png_data_uri};
use macos_utilities::system_media::{
    fourcc, get_artwork_b64, get_battery_status, get_now_playing, is_media_playing, is_muted,
    media_key_event, music_artwork_data_uri, mute_property_value, output_muted, playback_state,
    player_paused, player_playing, player_state_name, player_stopped, press_next,
    press_play_pause, press_previous, mute_writes, MuteProperty, toggle_mute, NowPlaying, KEY_NEXT, KEY_PLAY,
    KEY_PREV,
};
use macos_utilities::text::{
    chars_of, contains_ignoring_ascii_case, parse_u8, push_decimal, push_decimal2, split,
    split_once, str_eq, trim,
};

#[test]
fn trim_removes_unicode_whitespace() {
    assert_eq!(trim("  \t hello world \n\u{3000}"), "hello world");
    assert_eq!(trim(" \n "), "");
    assert_eq!(trim("x"), "x");
}

#[test]
fn split_keeps_empty_pieces() {
    assert_eq!(split("a,,b,", ','), vec!["a", "", "b", ""]);
    assert_eq!(split("", ','), vec![""]);
}

#[test]
fn split_once_at_first_separator() {
    assert_eq!(split_once("a|b|c", '|'), Some(("a".to_string(), "b|c".to_string())));
    assert_eq!(split_once("abc", '|'), None);
}

#[test]
fn parse_u8_like_std() {
    assert_eq!(parse_u8("255"), Some(255));
    assert_eq!(parse_u8("+7"), Some(7));
    assert_eq!(parse_u8("007"), Some(7));
    assert_eq!(parse_u8("256"), None);
    assert_eq!(parse_u8("99999999999999999999"), None);
    assert_eq!(parse_u8("-1"), None);
    assert_eq!(parse_u8(""), None);
    assert_eq!(parse_u8("+"), None);
    assert_eq!(parse_u8("1a"), None);
    for s in ["0", "1", "42", "+255", "300", "x", " 1"] {
        assert_eq!(parse_u8(s), s.parse::<u8>().ok());
    }
}

#[test]
fn decimal_formatting() {
    let mut s = String::new();
    push_decimal(&mut s, 0);
    push_decimal(&mut s, 1234567890);
    assert_eq!(s, "01234567890");
    let mut t = String::new();
    push_decimal2(&mut t, 5);
    push_decimal2(&mut t, 42);
    push_decimal2(&mut t, 123);
    assert_eq!(t, "0542123");
    let mut u = String::new();
    push_decimal(&mut u, u64::MAX);
    assert_eq!(u, u64::MAX.to_string());
}

#[test]
fn decimal_round_trip_scenario() {
    for n in [0u64, 7, 10, 99, 100, 65535, 123456789] {
        let mut s = String::new();
        push_decimal(&mut s, n);
        assert_eq!(s.parse::<u64>().unwrap(), n);
    }
}

#[test]
fn split_join_round_trip_scenario() {
    let text = "a,b,,c";
    assert_eq!(split(text, ',').join(","), text);
}

#[test]
fn case_insensitive_contains() {
    let hay = chars_of("Now drawing from 'AC Power'");
    assert!(contains_ignoring_ascii_case(&hay, &chars_of("ac power")));
    assert!(!contains_ignoring_ascii_case(&hay, &chars_of("charging")));
    assert!(contains_ignoring_ascii_case(&hay, &chars_of("")));
    assert!(str_eq("abc", "abc"));
    assert!(!str_eq("abc", "abd"));
}

#[test]
fn data_uris_are_base64() {
    assert_eq!(png_data_uri(&[1, 2, 3]), "data:image/png;base64,AQID");
    assert_eq!(data_uri("image/jpeg", b"hi"), "data:image/jpeg;base64,aGk=");
    assert_eq!(png_data_uri(&[]), "data:image/png;base64,");
    assert!(is_jpeg(&[0xFF, 0xD8, 0xFF, 0x00]));
    assert!(!is_jpeg(&[0xFF, 0xD8]));
    assert!(is_png(&[0x89, b'P', b'N', b'G']));
}

#[test]
fn fallback_now_playing_answer() {
    assert_eq!(
        applescript_fallback::get_now_playing("playing|Song|Artist|Extra"),
        Some(("playing".to_string(), "Song".to_string(), "Artist|Extra".to_string()))
    );
    assert_eq!(
        applescript_fallback::get_now_playing("stopped||"),
        Some(("stopped".to_string(), String::new(), String::new()))
    );
    assert_eq!(applescript_fallback::get_now_playing("only|one"), None);
    assert_eq!(applescript_fallback::get_now_playing(""), None);
}

#[test]
fn fallback_progress_answer() {
    assert_eq!(
        applescript_fallback::get_now_playing_progress(" 12,5 | 200,25 "),
        Some(("12.5".to_string(), "200.25".to_string()))
    );
    assert_eq!(applescript_fallback::get_now_playing_progress(""), None);
}

#[test]
fn fallback_artwork() {
    assert!(applescript_fallback::artwork_script_succeeded("  ok\n"));
    assert!(!applescript_fallback::artwork_script_succeeded("fail"));
    let jpeg = [0xFFu8, 0xD8, 0xFF, 0xE0];
    assert_eq!(
        applescript_fallback::get_artwork_data_uri("ok", Some(&jpeg)),
        Some("data:image/jpeg;base64,/9j/4A==".to_string())
    );
    assert_eq!(
        get_artwork_b64("ok", Some(&[1, 2, 3])),
        Some("data:image/png;base64,AQID".to_string())
    );
    assert_eq!(applescript_fallback::get_artwork_data_uri("fail", Some(&jpeg)), None);
    assert_eq!(applescript_fallback::get_artwork_data_uri("ok", None), None);
}

#[test]
fn music_artwork_mime() {
    assert_eq!(music_artwork_data_uri(&[0x89, b'P', b'N', b'G']), "data:image/png;base64,iVBORw==");
    assert_eq!(music_artwork_data_uri(&[1]), "data:application/octet-stream;base64,AQ==");
}

#[test]
fn now_playing_report() {
    let n = get_now_playing(None, None);
    assert_eq!(n.state, "stopped");
    assert!(n.title.is_empty() && n.artist.is_empty());
    let p = get_now_playing(Some(("playing".into(), "T".into(), "A".into())), None);
    assert_eq!((p.state.as_str(), p.title.as_str(), p.artist.as_str()), ("playing", "T", "A"));
    assert!(is_media_playing(&[Some("playing".to_string())]));
    assert!(!is_media_playing(&[None, Some("paused".to_string())]));
    assert!(!is_media_playing(&[]));
}

#[test]
fn now_playing_asks_spotify_too() {
    let spotify = || Some(("playing".to_string(), "S".to_string(), "Band".to_string()));
    let s = get_now_playing(None, spotify());
    assert_eq!((s.state.as_str(), s.title.as_str(), s.artist.as_str()), ("playing", "S", "Band"));
    let paused_music = Some(("paused".to_string(), "X".to_string(), "Y".to_string()));
    let s2 = get_now_playing(paused_music, spotify());
    assert_eq!((s2.state.as_str(), s2.title.as_str(), s2.artist.as_str()), ("paused", "X", "Y"));
    let idle_music = Some(("stopped".to_string(), String::new(), String::new()));
    let s3 = get_now_playing(idle_music, spotify());
    assert_eq!((s3.state.as_str(), s3.title.as_str()), ("stopped", ""));
    let s4 = get_now_playing(None, Some(("paused".to_string(), String::new(), "B".to_string())));
    assert_eq!((s4.state.as_str(), s4.artist.as_str()), ("paused", "B"));
    let s5 = get_now_playing(None, Some(("stopped".to_string(), String::new(), String::new())));
    assert_eq!((s5.state.as_str(), s5.title.as_str(), s5.artist.as_str()), ("stopped", "", ""));
}

#[test]
fn play_state_of_any_player() {
    let st = |v: &[Option<&str>]| v.iter().map(|o| o.map(|s| s.to_string())).collect::<Vec<_>>();
    assert!(is_media_playing(&st(&[None, Some("paused"), Some("playing"), None])));
    assert!(is_media_playing(&st(&[None, None, None, Some("playing")])));
    assert!(!is_media_playing(&st(&[Some("stopped"), Some("paused"), None, None])));
}

#[test]
fn player_queries() {
    assert_eq!(applescript_fallback::read_player_state("  playing\n"), Some("playing".to_string()));
    assert_eq!(applescript_fallback::read_player_state(" \n"), None);
    assert_eq!(
        applescript_fallback::player_state_script("TV"),
        "if application \"TV\" is running then\n  try\n    tell application \"TV\" to return (player state as string)\n  end try\nend if\nreturn \"\""
    );
    let script = applescript_fallback::now_playing_script("Spotify");
    assert!(script.starts_with("if application \"Spotify\" is running then\n  tell application \"Spotify\"\n"));
    assert!(script.ends_with("return \"stopped||\""));
}

#[test]
fn mute_write_order() {
    assert_eq!(mute_writes(true), vec![(MuteProperty::VirtualMain, 1), (MuteProperty::Device, 1)]);
    assert_eq!(mute_writes(false), vec![(MuteProperty::VirtualMain, 0), (MuteProperty::Device, 0)]);
}

#[test]
fn mute_decisions() {
    assert!(is_muted(Some(true)));
    assert!(!is_muted(Some(false)));
    assert!(!is_muted(None));
    assert_eq!(output_muted(Some(2), Some(0)), Some(true));
    assert_eq!(output_muted(Some(0), Some(1)), Some(false));
    assert_eq!(output_muted(None, Some(1)), Some(true));
    assert_eq!(output_muted(None, None), None);
    assert_eq!(mute_property_value(true), 1);
    assert_eq!(mute_property_value(false), 0);
}

#[test]
fn toggle_mute_twice_restores() {
    for m in [true, false] {
        assert_eq!(toggle_mute(toggle_mute(Some(m))), Some(m));
        assert_eq!(toggle_mute(Some(m)), Some(!m));
    }
    assert_eq!(toggle_mute(None), None);
}

#[test]
fn media_keys_always_sent() {
    assert_eq!(press_previous(), KEY_PREV);
    assert_eq!(press_next(), KEY_NEXT);
    assert_eq!(press_play_pause(), KEY_PLAY);
    assert_eq!((KEY_PLAY, KEY_NEXT, KEY_PREV), (16, 17, 18));
}

#[test]
fn media_key_event_words() {
    assert_eq!(media_key_event(16, true), (0x0a00, (16 << 16) | 0x0a00));
    assert_eq!(media_key_event(18, false), (0x0b00, (18 << 16) | 0x0b00));
}

#[test]
fn four_character_codes() {
    assert_eq!(fourcc(*b"kPSP"), 0x6B50_5350);
    assert_eq!(fourcc(*b"glob"), 0x676C_6F62);
    assert_eq!(player_playing(), fourcc(*b"kPSP"));
    assert_eq!(player_paused(), fourcc(*b"kPSp"));
    assert_eq!(player_stopped(), fourcc(*b"kPSS"));
    assert_ne!(fourcc(*b"vmut"), fourcc(*b"mute"));
}

#[test]
fn player_state_names() {
    assert_eq!(player_state_name(fourcc(*b"kPSP"), "", ""), "playing");
    assert_eq!(player_state_name(fourcc(*b"kPSp"), "", ""), "paused");
    assert_eq!(player_state_name(fourcc(*b"kPSS"), "T", ""), "stopped");
    assert_eq!(player_state_name(7, "T", ""), "paused");
    assert_eq!(player_state_name(7, "", "A"), "paused");
    assert_eq!(player_state_name(7, "", ""), "stopped");
    assert_eq!(playback_state("", "", true), "stopped");
    assert_eq!(playback_state("T", "", true), "playing");
    assert_eq!(playback_state("", "A", false), "paused");
}

#[test]
fn battery_report() {
    let text = "Now drawing from 'AC Power'\n -InternalBattery-0 (id=1234)\t87%; charging; 0:41 remaining present: true\n";
    let b = get_battery_status(text).unwrap();
    assert_eq!(b.percent, 87);
    assert!(b.is_charging);
    let d = get_battery_status("Now drawing from 'Battery Power'\n -InternalBattery-0\t5%; discharging;").unwrap();
    assert_eq!(d.percent, 5);
    assert!(d.is_charging, "\"discharging\" contains \"charging\"");
    let e = get_battery_status("Now drawing from 'Battery Power'\n -InternalBattery-0\t100%; charged;").unwrap();
    assert_eq!(e.percent, 100);
    assert!(!e.is_charging);
}

#[test]
fn battery_report_edge_cases() {
    assert!(get_battery_status("no battery here").is_none());
    assert!(get_battery_status("x %").is_none());
    assert_eq!(get_battery_status("150%").unwrap().percent, 100);
    assert_eq!(get_battery_status("99999999999999999999999%").unwrap().percent, 100);
    assert_eq!(get_battery_status("42").unwrap().percent, 42);
    assert!(get_battery_status("AC POWER 3%").unwrap().is_charging);
}

#[test]
fn now_playing_struct_fields() {
    let n = NowPlaying { state: "paused".into(), title: "x".into(), artist: String::new() };
    assert!(!is_media_playing(&[Some(n.state)]));
}
