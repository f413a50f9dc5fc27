use ray::api::{HotkeyModifiers, HotkeyScope, PayloadData, PayloadMessage};
use ray::engine::{RayEngine, RayExtension};
use ray::nodes::{payload_file, CropperApplet, TrimmerApplet, YomichanApplet};
use ray::progress::{progress_message, trim_quotes_of, LogLevel, ProgressLayer};
use ray::shaders::{cycle_scale_value, is_modern_version, version_line_of, RenderMode, ShaderApplet};
use ray::threed::{error_rows, ThreeDObject, ThreeDState};

fn strs(v: &[&str]) -> Vec<String> {
    v.iter().map(|s| s.to_string()).collect()
}

fn engine_with(n: usize) -> RayEngine<YomichanApplet> {
    let mut e = RayEngine::new();
    for _ in 0..n {
        e.register(YomichanApplet::new());
    }
    e
}

#[test]
fn engine_table() {
    let mut e = engine_with(3);
    assert_eq!(e.extension_count(), 3);
    assert_eq!(e.get_extension_info(1), Some(("Yomichan", true)));
    assert_eq!(e.get_extension_info(3), None);
    e.toggle_extension(1);
    assert_eq!(e.get_extension_info(1), Some(("Yomichan", false)));
    assert_eq!(e.enabled_indices(), vec![0, 2]);
    assert_eq!(e.enabled_extension_names(), strs(&["Yomichan", "Yomichan"]));
    e.toggle_extension(1);
    assert_eq!(e.get_extension_info(1), Some(("Yomichan", true)));
    e.toggle_extension(9);
    assert_eq!(e.enabled_indices(), vec![0, 1, 2]);
}

#[test]
fn engine_render_target() {
    let mut e = engine_with(4);
    e.toggle_extension(0);
    e.toggle_extension(2);
    e.active_extension_idx = 0;
    assert_eq!(e.render_index(), Some(1));
    e.active_extension_idx = 1;
    assert_eq!(e.render_index(), Some(3));
    e.active_extension_idx = 2;
    assert_eq!(e.render_index(), None);
    e.instance_mut(3).query = "猫".to_string();
    assert_eq!(e.instance_mut(3).query, "猫");
}

#[test]
fn extension_names() {
    assert_eq!(CropperApplet::new().name(), "Cropper Node");
    assert_eq!(TrimmerApplet::new().name(), "Trimmer Node");
    assert_eq!(YomichanApplet::new().name(), "Yomichan");
    assert_eq!(ShaderApplet::new().name(), "Shader IDE");
}

#[test]
fn payload_routing() {
    let msg = PayloadMessage {
        source: "Cropper".to_string(),
        target: "Trimmer".to_string(),
        data: PayloadData::File("/tmp/cropped_a.mp4".to_string()),
    };
    assert_eq!(payload_file(&msg, "Trimmer"), Some("/tmp/cropped_a.mp4".to_string()));
    assert_eq!(payload_file(&msg, "Cropper"), None);
    let text = PayloadMessage { source: "x".to_string(), target: "Trimmer".to_string(), data: PayloadData::Text("hi".to_string()) };
    assert_eq!(payload_file(&text, "Trimmer"), None);
}

#[test]
fn cropper_node() {
    let mut c = CropperApplet::new();
    assert_eq!((c.target_width.as_str(), c.target_height.as_str()), ("1048", "1048"));
    assert_eq!(c.target_node, "Trimmer");
    let args = c.begin_crop("/v/in.mp4", "/tmp/cropped_in.mp4");
    assert_eq!(args, strs(&["-y", "-i", "/v/in.mp4", "-vf", "crop=1048:1048", "/tmp/cropped_in.mp4"]));
    assert!(c.is_processing);
    assert_eq!(c.status, "Cropping \"/v/in.mp4\"");
    let sent = c.finish_crop(true, "/tmp/cropped_in.mp4".to_string()).expect("forwarded");
    assert!(!c.is_processing);
    assert_eq!(c.status, "Complete");
    assert_eq!(sent.source, "Cropper");
    assert_eq!(payload_file(&sent, "Trimmer"), Some("/tmp/cropped_in.mp4".to_string()));
    assert!(c.finish_crop(false, "x".to_string()).is_none());
    assert_eq!(c.status, "Failed");
}

#[test]
fn trimmer_node() {
    let mut t = TrimmerApplet::new();
    assert_eq!(TrimmerApplet::output_name("clip.mp4"), "final_clip.mp4");
    let args = t.begin_trim("/tmp/a.mp4", "/home/me/Desktop/final_a.mp4");
    assert_eq!(
        args,
        strs(&["-y", "-i", "/tmp/a.mp4", "-ss", "00:00:00", "-t", "15", "-c", "copy", "/home/me/Desktop/final_a.mp4"])
    );
    assert_eq!(t.status, "Trimming \"/tmp/a.mp4\"");
    let done = t.finish_trim(true, "/home/me/Desktop/final_a.mp4".to_string()).expect("emitted");
    assert_eq!(t.status, "Saved to Desktop");
    assert_eq!(done.source, "Trimmer");
    assert_eq!(done.target, "*");
    assert_eq!(payload_file(&done, "*"), Some("/home/me/Desktop/final_a.mp4".to_string()));
    assert!(t.finish_trim(false, "x".to_string()).is_none());
    assert_eq!(t.status, "Failed");
}

#[test]
fn progress_forwarding() {
    let info = LogLevel::Info;
    assert_eq!(progress_message("yomichan_importer::zip", info, "\"Importing 3/10\""), Some("Importing 3/10".to_string()));
    assert_eq!(progress_message("yomichan_importer", info, "plain"), Some("plain".to_string()));
    assert_eq!(progress_message("other::crate", info, "x"), None);
    assert_eq!(progress_message("yomichan_importer", info, ""), None);
    assert_eq!(progress_message("yomichan_importer", info, "\"\""), Some(String::new()));
    assert_eq!(progress_message("yomichan_importer", LogLevel::Warn, "x"), None);
    assert_eq!(progress_message("yomichan_importer", LogLevel::Debug, "x"), None);
    assert_eq!(progress_message("yomichan_importer", LogLevel::Error, "x"), None);
    assert_eq!(progress_message("yomichan_importer", LogLevel::Trace, "x"), None);
    assert_eq!(trim_quotes_of("\"\"a\"b\"\""), "a\"b");
    assert_eq!(trim_quotes_of("\"\"\""), "");
    let (tx, rx) = std::sync::mpsc::channel();
    let layer = ProgressLayer { sender: tx };
    for (target, level, recorded) in [
        ("yomichan_importer::db", info, "\"Done\""),
        ("ray", info, "\"Other\""),
        ("yomichan_importer::db", LogLevel::Warn, "\"Careful\""),
    ] {
        if let Some(text) = progress_message(target, level, recorded) {
            layer.sender.send(text).unwrap();
        }
    }
    assert_eq!(rx.try_recv().ok(), Some("Done".to_string()));
    assert!(rx.try_recv().is_err());
}

#[test]
fn shader_scale_and_versions() {
    assert_eq!(cycle_scale_value(1, 32), 2);
    assert_eq!(cycle_scale_value(32, 32), 1);
    assert_eq!(cycle_scale_value(64, 64), 1);
    let mut s = 1;
    for _ in 0..6 {
        s = cycle_scale_value(s, 32);
    }
    assert_eq!(s, 1);
    let v = version_line_of("#version 330 core\nvoid main(){}");
    assert_eq!(v.iter().collect::<String>(), "#version 330 core");
    assert!(is_modern_version(&v));
    assert_eq!(version_line_of("").iter().collect::<String>(), "#version 100");
    assert!(!is_modern_version(&"#version 100".chars().collect()));
}

#[test]
fn shader_applet() {
    let mut a = ShaderApplet::new();
    assert_eq!(a.render_mode, RenderMode::Fullscreen);
    assert_eq!(a.shader_dirs, strs(&["ray-applets/legacy/shaders"]));
    a.set_shader_list(vec![
        ("wave.frag".to_string(), "/s/wave.frag".to_string()),
        ("default.frag".to_string(), "/s/default.frag".to_string()),
        ("wave.vert".to_string(), "/s/wave.vert".to_string()),
        ("b.frag".to_string(), "/s/b.frag".to_string()),
    ]);
    let names: Vec<&str> = a.available_shaders.iter().map(|(n, _)| n.as_str()).collect();
    assert_eq!(names, vec!["b.frag", "default.frag", "wave.frag"]);
    assert_eq!(a.current_shader_path(), Some("/s/default.frag".to_string()));
    a.selected_shader = "missing.frag".to_string();
    assert_eq!(a.current_shader_path(), None);
    assert!(a.hud_visible);
    a.last_modified = Some(42);
    a.on_hotkey("toggle_hud");
    assert!(!a.hud_visible);
    assert_eq!(a.available_shaders.len(), 3);
    assert_eq!(a.shader_dirs.len(), 1);
    assert_eq!(a.last_modified, Some(42));
    a.on_hotkey("region_video");
    assert!(!a.hud_visible);
    a.cycle_scale();
    assert_eq!(a.resolution_scale, 2);
    a.add_default_path();
    assert_eq!(a.shader_dirs.len(), 2);
    let modern = ShaderApplet::vertex_source("#version 150\nvoid main(){}");
    assert!(modern.starts_with("#version 150\n                in vec3 position;"));
    let legacy = ShaderApplet::vertex_source("precision mediump float;");
    assert!(legacy.starts_with("#version 100\n            attribute vec3 position;"));
    let hk = ShaderApplet::hotkeys();
    assert_eq!(hk.len(), 1);
    assert_eq!(hk[0].id, "toggle_hud");
    assert_eq!(hk[0].key, "H");
    assert_eq!(hk[0].modifiers, HotkeyModifiers::none());
    assert_eq!(hk[0].scope, HotkeyScope::Local);
    assert_eq!(hk[0].description, "Toggle Shader IDE HUD");
}

#[test]
fn threed_state() {
    let mut s = ThreeDState::new();
    assert_eq!(s.selected_shape, ThreeDObject::Blank);
    assert_eq!(s.fragment_path(), "shaders/default.frag");
    assert_eq!(ThreeDState::vertex_path("shaders/a.frag"), "shaders/a.vert");
    s.set_shader_list(strs(&["z.frag", "notes.txt", "a.frag"]));
    assert_eq!(s.available_shaders, strs(&["a.frag", "z.frag"]));
    assert!(ThreeDState::fallback_vertex("#version 330\n").starts_with("#version 330\nin vec3 position;"));
    assert!(ThreeDState::fallback_vertex("").starts_with("#version 100\nattribute vec3 position;"));
    assert!(ThreeDState::default_fragment().starts_with("#version 150\nprecision lowp float;"));
    s.compile_finished(Some("0:1: error".to_string()));
    assert_eq!(s.shader_error.as_deref(), Some("0:1: error"));
    s.compile_finished(None);
    assert_eq!(s.shader_error, None);
    s.resolution_scale = 32;
    s.cycle_scale();
    assert_eq!(s.resolution_scale, 64);
    s.cycle_scale();
    assert_eq!(s.resolution_scale, 1);
    assert_eq!(ThreeDState::new_shader_name(1234), "shader_1234.frag");
}

#[test]
fn threed_auto_compile() {
    let mut s = ThreeDState::new();
    assert!(s.auto_compile_check(Some(100)));
    assert_eq!(s.last_modified, Some(100));
    assert!(!s.auto_compile_check(Some(100)));
    assert!(!s.auto_compile_check(Some(50)));
    assert!(!s.auto_compile_check(None));
    assert!(s.auto_compile_check(Some(101)));
    s.auto_compile = false;
    assert!(!s.auto_compile_check(Some(500)));
    assert_eq!(s.last_modified, Some(101));
}

#[test]
fn threed_error_rows() {
    assert_eq!(error_rows("short\nabcdefgh", 5), strs(&["short", "abcde", "fgh"]));
    assert_eq!(error_rows("", 5), Vec::<String>::new());
    assert_eq!(error_rows("a\r\n\nb", 3), strs(&["a", "", "b"]));
}

#[test]
fn shader_file_updates() {
    let mut a = ShaderApplet::new();
    assert!(a.check_file_update(Some(10)));
    assert!(!a.check_file_update(Some(10)));
    assert!(a.check_file_update(Some(5)));
    assert_eq!(a.last_modified, Some(5));
    assert!(!a.check_file_update(None));
    assert_eq!(a.last_modified, Some(5));
}

struct Named(&'static str);

impl RayExtension for Named {
    fn name(&self) -> &str {
        self.0
    }
}

#[test]
fn engine_select_by_name() {
    let mut e = RayEngine::new();
    for n in ["Yomichan", "Shader IDE", "Audio", "Capture"] {
        e.register(Named(n));
    }
    e.toggle_extension(1);
    assert!(e.select_extension("Capture"));
    assert_eq!(e.active_extension_idx, 2);
    assert_eq!(e.render_index(), Some(3));
    assert!(!e.select_extension("Shader IDE"));
    assert_eq!(e.active_extension_idx, 2);
    assert!(e.select_extension("Yomichan"));
    assert_eq!(e.active_extension_idx, 0);
}

#[test]
fn shaders_with_equal_names_keep_listing_order() {
    let mut a = ShaderApplet::new();
    a.set_shader_list(vec![
        ("x.frag".to_string(), "/second/x.frag".to_string()),
        ("a.frag".to_string(), "/first/a.frag".to_string()),
        ("x.frag".to_string(), "/first/x.frag".to_string()),
    ]);
    let paths: Vec<&str> = a.available_shaders.iter().map(|(_, p)| p.as_str()).collect();
    assert_eq!(paths, vec!["/first/a.frag", "/second/x.frag", "/first/x.frag"]);
    a.selected_shader = "x.frag".to_string();
    assert_eq!(a.current_shader_path(), Some("/second/x.frag".to_string()));
}
