use ray::api::{AudioCommand, HotkeyModifiers, HotkeyScope, LogEvent, LogLevel, RayCommand};
use ray::audio::{append_log, decode_s16le, i16_from_le, push_window, AudioAction, AudioApplet};
use ray::console::{all_logs_text, console_rows, console_rows_ok, format_log, push_log, recent_lines};
use ray::engine::RayExtension;

fn strs(v: &[&str]) -> Vec<String> {
    v.iter().map(|s| s.to_string()).collect()
}

fn log(level: LogLevel, target: &str, message: &str) -> LogEvent {
    LogEvent { level, target: target.to_string(), message: message.to_string(), timestamp: 1.5f64.to_bits() }
}

#[test]
fn sample_decoding_matches_std() {
    for (lo, hi) in [(0u8, 0u8), (0xff, 0x7f), (0x00, 0x80), (0xff, 0xff), (0x34, 0x12)] {
        assert_eq!(i16_from_le(lo, hi), i16::from_le_bytes([lo, hi]));
    }
    let bytes = [0x01u8, 0x00, 0xff, 0xff, 0x00, 0x80, 0x07];
    assert_eq!(decode_s16le(&bytes, 7), vec![1, -1, i16::MIN]);
    assert_eq!(decode_s16le(&bytes, 4), vec![1, -1]);
    assert_eq!(decode_s16le(&bytes, 1), Vec::<i16>::new());
}

#[test]
fn rolling_window_keeps_newest() {
    let mut buf = vec![1, 2, 3];
    push_window(&mut buf, &vec![4, 5], 4);
    assert_eq!(buf, vec![2, 3, 4, 5]);
    push_window(&mut buf, &vec![6, 7, 8, 9, 10], 4);
    assert_eq!(buf, vec![7, 8, 9, 10]);
    let mut small: Vec<f32> = vec![0.5];
    push_window(&mut small, &vec![0.25], 8);
    assert_eq!(small, vec![0.5, 0.25]);
}

#[test]
fn error_log_is_capped() {
    let mut log = String::from("abc\n");
    append_log(&mut log, "de", 10, 4);
    assert_eq!(log, "abc\nde\n");
    append_log(&mut log, "fgh", 10, 4);
    // "abc\nde\nfgh\n" is 11 bytes: the first 4 go.
    assert_eq!(log, "de\nfgh\n");
}

#[test]
fn audio_applet_commands() {
    let mut a = AudioApplet::new();
    assert_eq!(a.device_index, 1);
    assert_eq!(a.samples_to_show, 1024);
    assert_eq!(a.name(), "Audio");
    assert!(matches!(a.on_hotkey("toggle_recording"), Some(RayCommand::Audio(AudioCommand::ToggleRecording))));
    assert!(a.on_hotkey("toggle_hud").is_none());
    assert_eq!(a.command_action(AudioCommand::StartRecording), AudioAction::Start);
    assert_eq!(a.command_action(AudioCommand::ToggleRecording), AudioAction::Start);
    assert_eq!(a.command_action(AudioCommand::StopRecording), AudioAction::Stop);
    a.error_log = "old".to_string();
    let args = a.start_plan().expect("idle applet starts");
    assert_eq!(args, strs(&["-f", "avfoundation", "-i", "none:1", "-f", "s16le", "-ac", "1", "-ar", "44100", "-"]));
    assert_eq!(a.error_log, "");
    a.recording_started();
    assert!(a.is_recording);
    assert!(a.start_plan().is_none());
    assert_eq!(a.command_action(AudioCommand::StartRecording), AudioAction::Nothing);
    assert_eq!(a.command_action(AudioCommand::ToggleRecording), AudioAction::Stop);
    a.recording_stopped();
    assert!(!a.is_recording);
    assert_eq!(
        AudioApplet::list_devices_args(),
        strs(&["-f", "avfoundation", "-list_devices", "true", "-i", ""])
    );
}

#[test]
fn audio_device_setting() {
    let mut a = AudioApplet::new();
    assert!(a.set_device_index(3));
    assert!(!a.set_device_index(3));
    assert_eq!(a.capture_args()[3], "none:3");
    let (k, v) = a.device_index_row();
    assert_eq!((k.as_str(), v.as_str()), ("device_index", "3"));
    assert_eq!(AudioApplet::device_index_from(Some(&v)), 3);
    assert_eq!(AudioApplet::device_index_from(Some("-2")), -2);
    assert_eq!(AudioApplet::device_index_from(Some("x")), 1);
    assert_eq!(AudioApplet::device_index_from(None), 1);
}

#[test]
fn audio_error_log() {
    let mut a = AudioApplet::new();
    a.log_error("first");
    a.log_error("second");
    assert_eq!(a.error_log, "first\nsecond\n");
    let long = "x".repeat(4990);
    a.log_error(&long);
    // 13 + 4991 bytes exceed 5000: the first 1000 are dropped.
    assert_eq!(a.error_log.len(), 13 + 4991 - 1000);
    assert!(a.error_log.ends_with("x\n"));
}

#[test]
fn audio_hotkey() {
    let v = AudioApplet::hotkeys();
    assert_eq!(v.len(), 1);
    assert_eq!(v[0].id, "toggle_recording");
    assert_eq!(v[0].key, "R");
    assert_eq!(v[0].modifiers, HotkeyModifiers::ctrl());
    assert_eq!(v[0].scope, HotkeyScope::Global);
    assert_eq!(v[0].description, "Toggle Audio Recording");
}

#[test]
fn log_levels_and_lines() {
    assert_eq!(LogLevel::Error.as_str(), "ERROR");
    assert_eq!(LogLevel::Warn.as_str(), "WARN ");
    assert_eq!(LogLevel::Info.as_str(), "INFO ");
    assert_eq!(LogLevel::Debug.as_str(), "DEBUG");
    assert_eq!(LogLevel::Trace.as_str(), "TRACE");
    let e = log(LogLevel::Warn, "capture", "disk full");
    assert_eq!(e.level_str(), "WARN ");
    assert_eq!(format_log(&e), "[WARN ] [capture] disk full");
}

#[test]
fn console_copy_and_listing() {
    let logs = vec![log(LogLevel::Info, "a", "one"), log(LogLevel::Error, "b", "two"), log(LogLevel::Debug, "c", "three")];
    assert_eq!(all_logs_text(&logs), "[INFO ] [a] one\n[ERROR] [b] two\n[DEBUG] [c] three");
    assert_eq!(all_logs_text(&Vec::new()), "");
    assert_eq!(recent_lines(&logs, 2), strs(&["[DEBUG] [c] three", "[ERROR] [b] two"]));
    assert_eq!(recent_lines(&logs, 100).len(), 3);
}

#[test]
fn console_keeps_at_most_cap() {
    let mut logs = Vec::new();
    for i in 0..5 {
        push_log(&mut logs, log(LogLevel::Info, "t", &i.to_string()), 3);
    }
    let msgs: Vec<&str> = logs.iter().map(|l| l.message.as_str()).collect();
    assert_eq!(msgs, vec!["2", "3", "4"]);
}

#[test]
fn console_rows_wrap_by_bytes() {
    assert_eq!(console_rows("short", 10), strs(&["short"]));
    assert_eq!(console_rows("abcdefghij", 4), strs(&["abcd", "       efgh", "       ij"]));
    assert_eq!(console_rows("abcdefgh", 4), strs(&["abcd", "       efgh"]));
    // Two-byte characters cut on even byte offsets.
    assert_eq!(console_rows("ééé", 2), strs(&["é", "       é", "       é"]));
}

#[test]
fn console_rows_ok_checks_the_cuts() {
    assert!(console_rows_ok("ééé", 2));
    assert!(!console_rows_ok("ééé", 3));
    assert!(!console_rows_ok("abc", 0));
    assert!(!console_rows_ok("", 0));
    assert!(console_rows_ok("abcdefghij", 4));
    assert!(!console_rows_ok("é", 1));
    assert!(console_rows_ok("é", 2));
    assert!(!console_rows_ok("aé", 2));
}
