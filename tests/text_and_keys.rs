use crown_controller::device::{find_hidraw_device, hid_id_matches, HidrawDevice};
use crown_controller::keys::{
    key_spec_of_lowered, modifier_keycodes, parse_key_spec, parse_keysym_define, plan_keypress, FakeKey, KeySpec,
    KeyboardMap,
};
use crown_controller::text::{after_first_of, after_last_of, split_on, split_words};

#[test]
fn split_keeps_empty_fields() {
    assert_eq!(split_on("a:b::c", ':'), vec!["a", "b", "", "c"]);
    assert_eq!(split_on("", ':'), vec![""]);
    assert_eq!(split_on(":", ':'), vec!["", ""]);
}

#[test]
fn words_skip_whitespace() {
    assert_eq!(split_words("  echo \t hi\n"), vec!["echo", "hi"]);
    assert!(split_words("   ").is_empty());
    assert_eq!(split_words("notify-send a b"), vec!["notify-send", "a", "b"]);
}

#[test]
fn final_path_segment() {
    assert_eq!(after_last_of("/opt/other/foo", '/'), "foo");
    assert_eq!(after_last_of("foo", '/'), "foo");
    assert_eq!(after_last_of("/usr/bin/", '/'), "");
}

#[test]
fn key_spec_with_modifiers() {
    assert_eq!(parse_key_spec("Shift+Alt+Tab"), KeySpec { name: "tab".to_string(), modifiers: 9 });
    assert_eq!(parse_key_spec("CTRL+z"), KeySpec { name: "z".to_string(), modifiers: 4 });
    assert_eq!(parse_key_spec("Return"), KeySpec { name: "return".to_string(), modifiers: 0 });
    assert_eq!(parse_key_spec("super+a"), KeySpec { name: "a".to_string(), modifiers: 0 });
}

#[test]
fn key_spec_of_lower_case_text() {
    assert_eq!(key_spec_of_lowered("ctrl+shift+f5"), KeySpec { name: "f5".to_string(), modifiers: 5 });
    assert_eq!(key_spec_of_lowered("Shift+a"), KeySpec { name: "a".to_string(), modifiers: 0 });
}

#[test]
fn hid_id_matching() {
    assert!(hid_id_matches("0003:0000046D:00004066", 0x46D, 0x4066));
    assert!(hid_id_matches("0003:0000046d:00004066", 0x46D, 0x4066));
    assert!(!hid_id_matches("0003:0000046D:00004067", 0x46D, 0x4066));
    assert!(!hid_id_matches("0003:0000046D", 0x46D, 0x4066));
    assert!(hid_id_matches("x:zz:0", 0, 0));
}

#[test]
fn first_matching_device_wins() {
    let devs = vec![
        HidrawDevice { hid_id: None, devnode: Some("/dev/hidraw0".to_string()) },
        HidrawDevice { hid_id: Some("0003:0000046D:0000C52B".to_string()), devnode: Some("/dev/hidraw1".to_string()) },
        HidrawDevice { hid_id: Some("0003:0000046D:00004066".to_string()), devnode: Some("/dev/hidraw2".to_string()) },
        HidrawDevice { hid_id: Some("0003:0000046D:00004066".to_string()), devnode: Some("/dev/hidraw3".to_string()) },
    ];
    assert_eq!(find_hidraw_device(&devs, 0x46D, 0x4066), Some("/dev/hidraw2".to_string()));
    assert_eq!(find_hidraw_device(&devs, 0x46D, 0x1), None);
    assert_eq!(find_hidraw_device(&vec![], 0x46D, 0x4066), None);
}

#[test]
fn keyboard_map_lookup_takes_last_position() {
    let map = KeyboardMap::new(vec![0x61, 0x41, 0x62, 0x42, 0x61, 0x00], 2, 8).unwrap();
    assert_eq!(map.lookup(0x61), Some((10, 0)));
    assert_eq!(map.lookup(0x41), Some((8, 1)));
    assert_eq!(map.lookup(0x42), Some((9, 1)));
    assert_eq!(map.lookup(0x63), None);
}

#[test]
fn keyboard_map_rejects_bad_shapes() {
    assert!(KeyboardMap::new(vec![1, 2], 0, 8).is_none());
    assert!(KeyboardMap::new(vec![0; 3], 1, 254).is_none());
    assert!(KeyboardMap::new(vec![0; 2], 1, 254).is_some());
}

#[test]
fn modifier_keycodes_per_group() {
    // two keycodes per modifier, eight modifiers
    let kc = vec![50, 62, 66, 0, 37, 105, 64, 108, 0, 0, 0, 0, 133, 0, 0, 0, 7];
    assert_eq!(
        modifier_keycodes(&kc, 2),
        vec![(50, 1), (62, 1), (66, 2), (37, 4), (105, 4), (64, 8), (108, 8), (133, 64)]
    );
    assert!(modifier_keycodes(&kc, 0).is_empty());
}

fn keys_with(down: &[u8]) -> [u8; 32] {
    let mut k = [0u8; 32];
    for d in down {
        k[(*d / 8) as usize] |= 1 << (*d % 8);
    }
    k
}

#[test]
fn plan_presses_missing_modifiers() {
    let mods = vec![(50u8, 1u8), (62, 1), (37, 4), (64, 8)];
    let plan = plan_keypress(38, 1 | 8, &keys_with(&[]), &mods);
    assert_eq!(
        plan,
        vec![
            FakeKey::Press(50),
            FakeKey::Press(64),
            FakeKey::Press(38),
            FakeKey::Release(38),
            FakeKey::Release(50),
            FakeKey::Release(64)
        ]
    );
}

#[test]
fn plan_leaves_held_modifiers_alone() {
    let mods = vec![(50u8, 1u8), (62, 1), (37, 4), (64, 8)];
    let plan = plan_keypress(38, 1 | 4, &keys_with(&[62]), &mods);
    assert_eq!(plan, vec![FakeKey::Press(37), FakeKey::Press(38), FakeKey::Release(38), FakeKey::Release(37)]);
    let plan = plan_keypress(38, 0, &keys_with(&[37]), &mods);
    assert_eq!(plan, vec![FakeKey::Press(38), FakeKey::Release(38)]);
}

#[test]
fn keysym_header_lines() {
    assert_eq!(parse_keysym_define("#define XK_Return                        0xff0d  /* Return, enter */"), Some(("return".to_string(), 0xff0d)));
    assert_eq!(parse_keysym_define("#define XF86XK_AudioRaiseVolume  0x1008FF13"), Some(("audioraisevolume".to_string(), 0x1008ff13)));
    assert_eq!(parse_keysym_define("#define XK_KP_Enter 0xff8d"), Some(("kp_enter".to_string(), 0xff8d)));
    assert_eq!(parse_keysym_define("#define XK_MISCELLANY"), None);
    assert_eq!(parse_keysym_define("#define XK_a 97"), None);
    assert_eq!(parse_keysym_define("/* #define XK_a 0x61 */"), None);
    assert_eq!(parse_keysym_define(""), None);
}

#[test]
fn text_after_first_separator() {
    assert_eq!(after_first_of("XK_KP_Enter", '_'), "KP_Enter");
    assert_eq!(after_first_of("plain", '_'), "plain");
    assert_eq!(after_first_of("_x", '_'), "x");
}
