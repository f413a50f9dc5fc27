use global_hotkey::hotkey::{Code, Modifiers};
use ray::api::{register_hotkey_command, HotkeyDefinition, HotkeyModifiers, HotkeyScope, RayCommand};
use ray::hotkeys::{
    contains_key, hotkey_line_text, is_conflict, key_combo_text, keys_not_in, os_watched_keys, ray_to_global_code,
    ray_to_global_modifiers, scope_name_of, sort_by_scope, triggered_ids,
};
use ray::registry::HotkeyRegistry;

fn def(id: &str, key: &str, m: HotkeyModifiers, scope: HotkeyScope) -> HotkeyDefinition {
    HotkeyDefinition::new(id, key, m, scope, "desc")
}

fn ctrl_shift() -> HotkeyModifiers {
    HotkeyModifiers::ctrl().union(HotkeyModifiers::shift())
}

fn k(a: &str, b: &str) -> (String, String) {
    (a.to_string(), b.to_string())
}

#[test]
fn modifier_flags() {
    assert_eq!(HotkeyModifiers::none().bits(), 0);
    assert_eq!(HotkeyModifiers::shift().bits(), 1);
    assert_eq!(HotkeyModifiers::ctrl().bits(), 2);
    assert_eq!(HotkeyModifiers::alt().bits(), 4);
    assert_eq!(HotkeyModifiers::logo().bits(), 8);
    let m = ctrl_shift();
    assert_eq!(m.bits(), 3);
    assert!(m.contains(HotkeyModifiers::ctrl()));
    assert!(m.contains(HotkeyModifiers::shift()));
    assert!(!m.contains(HotkeyModifiers::alt()));
    assert!(HotkeyModifiers::default().is_empty());
    assert!(HotkeyModifiers::empty().is_empty());
    assert_eq!(HotkeyModifiers::from_bits_retain(12).bits(), 12);
    assert_eq!(m.union(HotkeyModifiers::alt()), HotkeyModifiers::alt().union(m));
}

#[test]
fn definitions_and_commands() {
    let d = HotkeyDefinition::new("toggle_hud", "H", HotkeyModifiers::none(), HotkeyScope::Local, "Toggle");
    assert_eq!(d.id, "toggle_hud");
    assert_eq!(d.key, "H");
    assert_eq!(d.internal_keycode, None);
    match register_hotkey_command("Shader IDE", d) {
        RayCommand::RegisterHotkey(name, got) => {
            assert_eq!(name, "Shader IDE");
            assert_eq!(got.id, "toggle_hud");
        }
        _ => panic!("wrong command"),
    }
}

#[test]
fn settings_lines() {
    assert_eq!(key_combo_text(ctrl_shift(), "X"), "Ctrl+Shift+X");
    assert_eq!(key_combo_text(HotkeyModifiers::none(), "H"), "H");
    let all = HotkeyModifiers::ctrl()
        .union(HotkeyModifiers::shift())
        .union(HotkeyModifiers::alt())
        .union(HotkeyModifiers::logo());
    assert_eq!(key_combo_text(all, "Q"), "Ctrl+Shift+Alt+Logo+Q");
    assert_eq!(scope_name_of(HotkeyScope::OS), "OS");
    let d = HotkeyDefinition::new("region_video", "R", ctrl_shift(), HotkeyScope::Global, "Capture Region Video");
    assert_eq!(hotkey_line_text("region_video", &d, false), "region_video: Capture Region Video (Ctrl+Shift+R) [Global]");
    assert_eq!(
        hotkey_line_text("region_video", &d, true),
        "!!! CONFLICT !!! region_video: Capture Region Video (Ctrl+Shift+R) [Global]"
    );
}

#[test]
fn scope_order_is_stable() {
    let list = vec![
        ("a".to_string(), def("a", "A", HotkeyModifiers::none(), HotkeyScope::Local)),
        ("b".to_string(), def("b", "B", HotkeyModifiers::none(), HotkeyScope::Global)),
        ("c".to_string(), def("c", "C", HotkeyModifiers::none(), HotkeyScope::OS)),
        ("d".to_string(), def("d", "D", HotkeyModifiers::none(), HotkeyScope::Global)),
        ("e".to_string(), def("e", "E", HotkeyModifiers::none(), HotkeyScope::Local)),
    ];
    let ids: Vec<String> = sort_by_scope(list).into_iter().map(|(id, _)| id).collect();
    assert_eq!(ids, vec!["b", "d", "c", "a", "e"]);
}

#[test]
fn os_watch_plan() {
    let reg = vec![
        (k("Capture", "region_video"), def("region_video", "R", ctrl_shift(), HotkeyScope::Global)),
        (k("Shader IDE", "toggle_hud"), def("toggle_hud", "H", HotkeyModifiers::none(), HotkeyScope::Local)),
        (k("Audio", "toggle_recording"), def("toggle_recording", "R", HotkeyModifiers::ctrl(), HotkeyScope::Global)),
    ];
    let watch = os_watched_keys(&reg);
    assert_eq!(watch, vec![k("Capture", "region_video"), k("Audio", "toggle_recording")]);
    assert!(contains_key(&watch, &"Audio".to_string(), &"toggle_recording".to_string()));
    assert!(!contains_key(&watch, &"Shader IDE".to_string(), &"toggle_hud".to_string()));
    let already = vec![k("Capture", "region_video"), k("Old", "gone")];
    assert_eq!(keys_not_in(&already, &watch), vec![k("Old", "gone")]);
    assert_eq!(keys_not_in(&watch, &already), vec![k("Audio", "toggle_recording")]);
    let watched = vec![(k("Capture", "region_video"), 7u32), (k("Audio", "toggle_recording"), 9u32)];
    assert_eq!(triggered_ids(&watched, 9), vec!["toggle_recording".to_string()]);
    assert!(triggered_ids(&watched, 1).is_empty());
}

#[test]
fn second_sync_is_idle() {
    let current = vec![k("Capture", "region_video"), k("Old", "gone")];
    let wanted = vec![k("Audio", "toggle_recording"), k("Capture", "region_video")];
    let mut after: Vec<(String, String)> =
        current.iter().filter(|c| contains_key(&wanted, &c.0, &c.1)).cloned().collect();
    after.extend(keys_not_in(&wanted, &current));
    assert_eq!(after, vec![k("Capture", "region_video"), k("Audio", "toggle_recording")]);
    assert!(keys_not_in(&after, &wanted).is_empty());
    assert!(keys_not_in(&wanted, &after).is_empty());
}

#[test]
fn os_key_codes_and_modifiers() {
    assert_eq!(ray_to_global_code("A"), Some("KeyA".to_string()));
    assert_eq!(ray_to_global_code("X"), Some("KeyX".to_string()));
    assert_eq!(ray_to_global_code("F1"), Some("F1".to_string()));
    assert_eq!(ray_to_global_code("Space"), Some("Space".to_string()));
    assert_eq!(ray_to_global_code("NoSuchKey"), None);
    let name = ray_to_global_code("Q").expect("a letter");
    assert_eq!(name.parse::<Code>().ok(), Some(Code::KeyQ));
    assert_eq!(ray_to_global_modifiers(ctrl_shift()), (Modifiers::CONTROL | Modifiers::SHIFT).bits());
    assert_eq!(ray_to_global_modifiers(HotkeyModifiers::alt()), Modifiers::ALT.bits());
    assert_eq!(ray_to_global_modifiers(HotkeyModifiers::logo()), Modifiers::SUPER.bits());
    assert_eq!(ray_to_global_modifiers(HotkeyModifiers::none()), 0);
}

#[test]
fn registry_register_and_replace() {
    let mut r = HotkeyRegistry::new();
    assert!(!r.dirty);
    r.register("Capture".to_string(), def("region_video", "R", ctrl_shift(), HotkeyScope::Global));
    r.register("Audio".to_string(), def("toggle_recording", "R", HotkeyModifiers::ctrl(), HotkeyScope::Global));
    assert!(r.dirty);
    assert_eq!(r.registered.len(), 2);
    assert!(r.conflicts.is_empty());
    // Registering the same id again replaces the definition in place.
    r.register("Audio".to_string(), def("toggle_recording", "R", ctrl_shift(), HotkeyScope::Global));
    assert_eq!(r.registered.len(), 2);
    assert_eq!(r.registered[1].1.modifiers, ctrl_shift());
    assert_eq!(r.conflicts, vec![(k("Capture", "region_video"), k("Audio", "toggle_recording"))]);
    assert!(is_conflict(&r.conflicts, "Audio", "toggle_recording"));
    assert!(is_conflict(&r.conflicts, "Capture", "region_video"));
    r.clear_dirty();
    assert!(!r.dirty);
}

#[test]
fn registry_conflicts_on_same_combination_only() {
    let mut r = HotkeyRegistry::new();
    r.register("A".to_string(), def("one", "X", ctrl_shift(), HotkeyScope::Global));
    r.register("B".to_string(), def("two", "X", HotkeyModifiers::ctrl(), HotkeyScope::Global));
    r.register("C".to_string(), def("three", "X", ctrl_shift(), HotkeyScope::Local));
    r.register("D".to_string(), def("four", "X", ctrl_shift(), HotkeyScope::OS));
    assert_eq!(
        r.conflicts,
        vec![(k("A", "one"), k("C", "three")), (k("A", "one"), k("D", "four")), (k("C", "three"), k("D", "four"))]
    );
    assert!(!is_conflict(&r.conflicts, "B", "two"));
}

#[test]
fn registry_overrides() {
    let mut r = HotkeyRegistry::new();
    r.register("Capture".to_string(), def("region_video", "R", ctrl_shift(), HotkeyScope::Global));
    r.register("Audio".to_string(), def("toggle_recording", "T", HotkeyModifiers::ctrl(), HotkeyScope::Global));
    r.clear_dirty();
    r.apply_override("Nobody", "none", "Z".to_string(), HotkeyModifiers::alt());
    assert!(!r.dirty);
    r.apply_override("Audio", "toggle_recording", "R".to_string(), ctrl_shift());
    assert!(r.dirty);
    assert_eq!(r.registered[1].1.key, "R");
    assert_eq!(r.registered[1].1.scope, HotkeyScope::Global);
    assert_eq!(r.conflicts.len(), 1);
}

#[test]
fn registry_local_hotkeys_need_focus() {
    let mut r = HotkeyRegistry::new();
    r.register("Shader IDE".to_string(), def("toggle_hud", "H", HotkeyModifiers::none(), HotkeyScope::Local));
    r.register("Audio".to_string(), def("toggle_recording", "R", HotkeyModifiers::ctrl(), HotkeyScope::Global));
    r.register("Capture".to_string(), def("os_key", "O", HotkeyModifiers::ctrl(), HotkeyScope::OS));
    let all = vec![true, true, true];
    assert_eq!(r.hotkeys_to_fire(&all, "Capture"), vec!["toggle_recording".to_string(), "os_key".to_string()]);
    assert_eq!(
        r.hotkeys_to_fire(&all, "Shader IDE"),
        vec!["toggle_hud".to_string(), "toggle_recording".to_string(), "os_key".to_string()]
    );
    assert_eq!(r.hotkeys_to_fire(&vec![true, false, false], "Shader IDE"), vec!["toggle_hud".to_string()]);
    assert!(HotkeyRegistry::may_fire("Audio", &r.registered[1].1, "Other"));
    assert!(!HotkeyRegistry::may_fire("Shader IDE", &r.registered[0].1, "Other"));
}
