use ray::api::{AudioCommand, HotkeyModifiers, HotkeyScope, RayCommand};
use ray::capture::{format_from_name, str_eq, AudioFormat, CaptureAction, CaptureApplet, CaptureMode};
use ray::engine::RayExtension;
use ray::imaging::Snapshot;

fn strs(v: &[&str]) -> Vec<String> {
    v.iter().map(|s| s.to_string()).collect()
}

fn is_select_capture(a: &CaptureAction) -> bool {
    matches!(a, CaptureAction::Send(RayCommand::SelectExtension(n)) if n == "Capture")
}

#[test]
fn audio_formats() {
    assert_eq!(AudioFormat::Mp3.ext(), "mp3");
    assert_eq!(AudioFormat::Ogg.ext(), "ogg");
    assert_eq!(AudioFormat::Wav.ext(), "wav");
    for f in [AudioFormat::Mp3, AudioFormat::Ogg, AudioFormat::Wav] {
        assert_eq!(format_from_name(f.name()), Some(f));
        assert_eq!(AudioFormat::from_index(f.index()), f);
    }
    assert_eq!(format_from_name("mp3"), None);
    assert_eq!(AudioFormat::from_index(9), AudioFormat::Mp3);
    assert!(str_eq("a", "a"));
    assert!(!str_eq("a", "b"));
}

#[test]
fn new_applet_defaults() {
    let a = CaptureApplet::new("/tmp/shots".to_string());
    assert!(!a.active && !a.recording && !a.audio_recording);
    assert_eq!(a.crf, 23);
    assert_eq!(a.fps, 30);
    assert_eq!(a.save_dir, "/tmp/shots");
    assert!(!a.audio_enabled);
    assert_eq!(a.standalone_audio_format, AudioFormat::Mp3);
    assert_eq!(a.name(), "Capture");
}

#[test]
fn settings_round_trip() {
    let mut a = CaptureApplet::new("/home/me".to_string());
    a.audio_enabled = true;
    a.standalone_audio_format = AudioFormat::Wav;
    let rows = a.settings_rows();
    assert_eq!(
        rows,
        vec![
            ("audio_enabled".to_string(), "true".to_string()),
            ("standalone_audio_format".to_string(), "Wav".to_string()),
            ("save_dir".to_string(), "/home/me".to_string()),
        ]
    );
    let mut b = CaptureApplet::new("elsewhere".to_string());
    for (k, v) in &rows {
        b.apply_setting(k, v);
    }
    assert!(b.audio_enabled);
    assert_eq!(b.standalone_audio_format, AudioFormat::Wav);
    assert_eq!(b.save_dir, "/home/me");
}

#[test]
fn settings_edge_cases() {
    let mut a = CaptureApplet::new("d".to_string());
    a.audio_enabled = true;
    a.apply_setting("audio_enabled", "yes");
    assert!(!a.audio_enabled);
    a.apply_setting("standalone_audio_format", "Flac");
    assert_eq!(a.standalone_audio_format, AudioFormat::Mp3);
    a.apply_setting("unknown", "x");
    assert_eq!(a.save_dir, "d");
}

#[test]
fn region_hotkey_opens_overlay() {
    let mut a = CaptureApplet::new("d".to_string());
    let acts = a.on_hotkey("region_video", "t");
    assert_eq!(acts.len(), 6);
    assert!(is_select_capture(&acts[0]));
    assert!(matches!(acts[1], CaptureAction::Send(RayCommand::ToggleOverlay(true))));
    assert!(matches!(acts[3], CaptureAction::TakeScreenshot));
    assert!(matches!(acts[5], CaptureAction::ClearSelection));
    assert!(a.active);
    assert_eq!(a.mode, CaptureMode::Video);
    assert!(a.tracks_selection());
    let acts = a.on_hotkey("region_screenshot", "t");
    assert_eq!(acts.len(), 6);
    assert_eq!(a.mode, CaptureMode::Screenshot);
}

#[test]
fn hotkey_stops_running_recorders() {
    let mut a = CaptureApplet::new("d".to_string());
    a.video_recorder_started("out.mp4".to_string());
    assert!(a.recording);
    assert_eq!(a.recording_filename.as_deref(), Some("out.mp4"));
    a.mode = CaptureMode::Video;
    let acts = a.on_hotkey("region_screenshot", "t");
    assert_eq!(acts.len(), 3);
    assert_eq!(a.mode, CaptureMode::Video);
    assert!(matches!(acts[0], CaptureAction::ClosePipe));
    assert!(matches!(acts[1], CaptureAction::WaitVideoRecorder));
    assert!(matches!(acts[2], CaptureAction::Send(RayCommand::MiniMode(false))));
    assert!(!a.recording && !a.active);
    assert_eq!(a.recording_filename, None);
}

#[test]
fn pure_audio_hotkey_plans_recording() {
    let mut a = CaptureApplet::new("d".to_string());
    a.standalone_audio_format = AudioFormat::Ogg;
    let acts = a.on_hotkey("capture_pure_audio", "20240101_120000");
    assert_eq!(acts.len(), 2);
    assert!(is_select_capture(&acts[0]));
    match &acts[1] {
        CaptureAction::SpawnRecorder(plan) => {
            assert!(plan.pipe_audio && !plan.video);
            assert_eq!(plan.output, format!("d{}audio_20240101_120000.ogg", std::path::MAIN_SEPARATOR));
            let mut expected = strs(&["-y", "-f", "f32le", "-ar", "44100", "-ac", "1", "-i", "-", "-c:a", "libvorbis"]);
            expected.push(plan.output.clone());
            assert_eq!(plan.args, expected);
        }
        other => panic!("unexpected {:?}", other),
    }
    assert_eq!(a.mode, CaptureMode::Audio);
    assert!(!a.tracks_selection());
    let acts = a.audio_recorder_started();
    assert!(matches!(acts[0], CaptureAction::Send(RayCommand::Audio(AudioCommand::StartRecording))));
    assert!(matches!(acts[1], CaptureAction::Send(RayCommand::MiniMode(true))));
    assert!(a.audio_recording);
    // Pressing it again stops the recording.
    let acts = a.on_hotkey("capture_pure_audio", "later");
    assert_eq!(acts.len(), 4);
    assert!(is_select_capture(&acts[0]));
    assert!(matches!(acts[2], CaptureAction::WaitAudioRecorder));
    assert!(!a.audio_recording);
}

#[test]
fn other_hotkeys_change_nothing() {
    let mut a = CaptureApplet::new("d".to_string());
    assert!(a.on_hotkey("toggle_hud", "t").is_empty());
    assert!(!a.active);
}

#[test]
fn escape_finish_and_exits() {
    let mut a = CaptureApplet::new("d".to_string());
    a.on_hotkey("region_video", "t");
    let acts = a.on_escape();
    assert!(matches!(acts[0], CaptureAction::ClearSnapshot));
    assert!(matches!(acts[1], CaptureAction::Send(RayCommand::ToggleOverlay(false))));
    assert!(!a.active);
    a.on_hotkey("region_video", "t");
    let acts = a.finish_selection();
    assert!(matches!(acts[0], CaptureAction::Send(RayCommand::ToggleOverlay(false))));
    assert!(matches!(acts[1], CaptureAction::ClearSnapshot));
    a.video_recorder_started("v.mp4".to_string());
    let acts = a.video_recorder_exited();
    assert_eq!(acts.len(), 1);
    assert!(!a.recording);
    a.audio_recorder_started();
    a.audio_recorder_exited();
    assert!(!a.audio_recording);
}

#[test]
fn video_arguments() {
    assert_eq!(CaptureApplet::crop_filter(10, 20, 300, 200), "crop=300:200:10:20");
    let mut a = CaptureApplet::new("d".to_string());
    let args = a.video_recording_args("x11grab", ":0.0", 10, 20, 300, 200, "out.mp4");
    assert_eq!(
        args,
        strs(&[
            "-f", "x11grab", "-framerate", "30", "-i", ":0.0", "-vf", "crop=300:200:10:20", "-c:v", "libx264", "-crf",
            "23", "-pix_fmt", "yuv420p", "out.mp4"
        ])
    );
    a.audio_enabled = true;
    let args = a.video_recording_args("avfoundation", "1:none", 0, 0, 64, 48, "o.mp4");
    assert_eq!(
        args,
        strs(&[
            "-f", "avfoundation", "-framerate", "30", "-i", "1:none", "-f", "f32le", "-ar", "44100", "-ac", "1", "-i",
            "-", "-vf", "crop=64:48:0:0", "-c:v", "libx264", "-crf", "23", "-pix_fmt", "yuv420p", "-c:a", "aac",
            "-shortest", "-map", "0:v", "-map", "1:a", "o.mp4"
        ])
    );
    assert_eq!(CaptureApplet::video_file_name("T"), "recording_T.mp4");
    assert_eq!(CaptureApplet::screenshot_file_name("T"), "screenshot_T.png");
    assert_eq!(a.audio_file_name("T"), "audio_T.mp3");
    assert_eq!(
        a.audio_recording_args("x.mp3"),
        strs(&["-y", "-f", "f32le", "-ar", "44100", "-ac", "1", "-i", "-", "-c:a", "libmp3lame", "x.mp3"])
    );
    a.standalone_audio_format = AudioFormat::Wav;
    assert_eq!(
        a.audio_recording_args("x.wav"),
        strs(&["-y", "-f", "f32le", "-ar", "44100", "-ac", "1", "-i", "-", "x.wav"])
    );
}

#[test]
fn output_paths_join_the_save_dir() {
    let a = CaptureApplet::new("d/".to_string());
    match a.video_recording_plan(0, 0, 11, 11, "T", "x11grab", ":0.0").last() {
        Some(CaptureAction::SpawnRecorder(p)) => assert_eq!(p.output, "d/recording_T.mp4"),
        other => panic!("unexpected {:?}", other),
    }
    let a = CaptureApplet::new(String::new());
    match a.video_recording_plan(0, 0, 11, 11, "T", "x11grab", ":0.0").last() {
        Some(CaptureAction::SpawnRecorder(p)) => assert_eq!(p.output, "recording_T.mp4"),
        other => panic!("unexpected {:?}", other),
    }
}

#[test]
fn video_plan_needs_a_real_region() {
    let mut a = CaptureApplet::new("d".to_string());
    assert!(a.video_recording_plan(0, 0, 10, 200, "T", "x11grab", ":0.0").is_empty());
    let plan = a.video_recording_plan(0, 0, 11, 11, "T", "x11grab", ":0.0");
    assert_eq!(plan.len(), 1);
    a.audio_enabled = true;
    let plan = a.video_recording_plan(0, 0, 11, 11, "T", "x11grab", ":0.0");
    assert_eq!(plan.len(), 2);
    assert!(matches!(plan[0], CaptureAction::Send(RayCommand::Audio(AudioCommand::StartRecording))));
    match &plan[1] {
        CaptureAction::SpawnRecorder(p) => {
            assert!(p.video && p.pipe_audio);
            assert_eq!(p.output, format!("d{}recording_T.mp4", std::path::MAIN_SEPARATOR));
            assert_eq!(p.args.last(), Some(&p.output));
        }
        other => panic!("unexpected {:?}", other),
    }
}

#[test]
fn screenshot_region_is_cropped() {
    // A 3x2 image whose pixel (x, y) is [x, y, 9, 255].
    let mut pixels = Vec::new();
    for y in 0..2u8 {
        for x in 0..3u8 {
            pixels.extend_from_slice(&[x, y, 9, 255]);
        }
    }
    let snap = Snapshot { width: 3, height: 2, pixels };
    let a = CaptureApplet::new("d".to_string());
    let (img, path) = a.screenshot_plan(&snap, 1, 0, 2, 2, "T").expect("region");
    assert_eq!((img.width, img.height), (2, 2));
    assert_eq!(img.pixels, vec![1, 0, 9, 255, 2, 0, 9, 255, 1, 1, 9, 255, 2, 1, 9, 255]);
    assert_eq!(path, format!("d{}screenshot_T.png", std::path::MAIN_SEPARATOR));
    assert!(a.screenshot_plan(&snap, 0, 0, 0, 2, "T").is_none());
    let c = snap.crop(2, 1, 1, 1);
    assert_eq!(c.pixels, vec![2, 1, 9, 255]);
    let empty = snap.crop(1, 1, 0, 1);
    assert_eq!((empty.width, empty.height), (0, 1));
    assert!(empty.pixels.is_empty());
}

#[test]
fn capture_hotkeys() {
    let v = CaptureApplet::hotkeys();
    let ids: Vec<&str> = v.iter().map(|d| d.id.as_str()).collect();
    assert_eq!(ids, vec!["region_screenshot", "region_video", "capture_pure_audio"]);
    let keys: Vec<&str> = v.iter().map(|d| d.key.as_str()).collect();
    assert_eq!(keys, vec!["X", "R", "A"]);
    for d in &v {
        assert_eq!(d.modifiers, HotkeyModifiers::ctrl().union(HotkeyModifiers::shift()));
        assert_eq!(d.scope, HotkeyScope::Global);
    }
    assert_eq!(v[2].description, "Capture Standalone Audio");
}
