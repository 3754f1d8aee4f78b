use crown_controller::config::{
    config_path, Action, AppMapping, ButtonMapping, Config, ConfigFile, Modifier, Operation, RatchetMode,
};
use crown_controller::router::{Router, Routed, StateChanges};
use crown_controller::text::split_words;

fn button(mode: Option<RatchetMode>, click: Vec<Operation>) -> ButtonMapping {
    ButtonMapping {
        mode,
        touch: vec![],
        release: vec![],
        click,
        left: vec![],
        right: vec![],
        left_pressed: vec![],
        right_pressed: vec![],
    }
}

fn app(mode: RatchetMode, unmodified: Option<ButtonMapping>, shift: Option<ButtonMapping>) -> AppMapping {
    AppMapping { mode, unmodified, shift, alt: None, ctrl: None }
}

fn exec(s: &str) -> Operation {
    Operation::Execute(s.to_string())
}

fn loaded(config: Config) -> ConfigFile {
    let mut cf = ConfigFile::with_path(Some("/tmp/config.yaml".to_string()), 7);
    cf.load_result(Some(config));
    cf
}

fn foo_and_global() -> Config {
    let mut c = Config::new();
    c.insert(
        "/usr/bin/foo".to_string(),
        app(RatchetMode::Free, Some(button(None, vec![exec("foo-click")])), None),
    );
    c.insert(
        "global".to_string(),
        app(
            RatchetMode::Ratcheted,
            Some(button(None, vec![exec("global-click")])),
            Some(button(Some(RatchetMode::Free), vec![exec("global-shift-click")])),
        ),
    );
    c
}

#[test]
fn modifier_priority() {
    assert_eq!(Modifier::from(0x44 | 0x22), Modifier::Alt);
    assert_eq!(Modifier::from(0x02 | 0x04), Modifier::Alt);
    assert_eq!(Modifier::from(0x20 | 0x10), Modifier::Shift);
    assert_eq!(Modifier::from(0x01), Modifier::Ctrl);
    assert_eq!(Modifier::from(0x88), Modifier::Unmodified);
    assert_eq!(RatchetMode::default(), RatchetMode::Ratcheted);
}

#[test]
fn exact_match_with_global_fallback() {
    let mut cf = loaded(foo_and_global());
    cf.select_app("/usr/bin/foo");
    assert_eq!(
        cf.get_actions_for_modifiers(Modifier::Unmodified, Action::Click),
        Some(&[exec("foo-click")][..])
    );
    assert_eq!(
        cf.get_actions_for_modifiers(Modifier::Shift, Action::Click),
        Some(&[exec("global-shift-click")][..])
    );
    assert_eq!(cf.get_actions_for_modifiers(Modifier::Alt, Action::Click), None);
    assert_eq!(cf.get_actions_for_modifiers(Modifier::Unmodified, Action::Touch), None);
}

#[test]
fn final_path_segment_match() {
    let mut cf = loaded(foo_and_global());
    cf.select_app("/opt/other/foo");
    assert_eq!(
        cf.get_actions_for_modifiers(Modifier::Unmodified, Action::Click),
        Some(&[exec("foo-click")][..])
    );
    assert_eq!(
        cf.get_actions_for_modifiers(Modifier::Shift, Action::Click),
        Some(&[exec("global-shift-click")][..])
    );
    assert_eq!(cf.ratchet_mode_for_modifier(Modifier::Unmodified), RatchetMode::Free);
    cf.select_app("foo");
    assert_eq!(
        cf.get_actions_for_modifiers(Modifier::Unmodified, Action::Click),
        Some(&[exec("foo-click")][..])
    );
    cf.select_app("/opt/other/bar");
    assert_eq!(
        cf.get_actions_for_modifiers(Modifier::Unmodified, Action::Click),
        Some(&[exec("global-click")][..])
    );
}

#[test]
fn exact_match_beats_segment_match() {
    let mut c = foo_and_global();
    c.insert("/opt/other/foo".to_string(), app(RatchetMode::Free, Some(button(None, vec![exec("other-click")])), None));
    let mut cf = loaded(c);
    cf.select_app("/opt/other/foo");
    assert_eq!(
        cf.get_actions_for_modifiers(Modifier::Unmodified, Action::Click),
        Some(&[exec("other-click")][..])
    );
    cf.select_app("/usr/bin/foo");
    assert_eq!(
        cf.get_actions_for_modifiers(Modifier::Unmodified, Action::Click),
        Some(&[exec("foo-click")][..])
    );
}

#[test]
fn config_path_appends_file_name() {
    assert_eq!(config_path(Some("/home/u/.config/crown-controller".to_string())), Some("/home/u/.config/crown-controller/config.yaml".to_string()));
    assert_eq!(config_path(None), None);
}

#[test]
fn ratchet_fallback() {
    let mut cf = loaded(foo_and_global());
    cf.select_app("/usr/bin/foo");
    assert_eq!(cf.ratchet_mode_for_modifier(Modifier::Unmodified), RatchetMode::Free);
    assert_eq!(cf.ratchet_mode_for_modifier(Modifier::Shift), RatchetMode::Free);
    assert_eq!(cf.ratchet_mode_for_modifier(Modifier::Ctrl), RatchetMode::Ratcheted);
    cf.select_app("/usr/bin/other");
    assert_eq!(cf.ratchet_mode_for_modifier(Modifier::Unmodified), RatchetMode::Ratcheted);
    let empty = ConfigFile::with_path(None, 0);
    assert_eq!(empty.ratchet_mode_for_modifier(Modifier::Unmodified), RatchetMode::Ratcheted);
}

#[test]
fn empty_list_falls_through_to_global() {
    let mut c = foo_and_global();
    c.insert("/usr/bin/foo".to_string(), app(RatchetMode::Free, Some(button(None, vec![])), None));
    let mut cf = loaded(c);
    cf.select_app("/usr/bin/foo");
    assert_eq!(
        cf.get_actions_for_modifiers(Modifier::Unmodified, Action::Click),
        Some(&[exec("global-click")][..])
    );
}

#[test]
fn reload_decisions() {
    let mut cf = ConfigFile::with_path(Some("/tmp/config.yaml".to_string()), 100);
    assert!(cf.check_due(0));
    assert!(!cf.observe_mtime(5_000, 100));
    assert!(!cf.check_due(5_500));
    assert!(!cf.check_due(6_000));
    assert!(cf.check_due(6_001));
    assert!(cf.observe_mtime(6_001, 200));
    assert!(!cf.observe_mtime(7_100, 200));
    assert!(!ConfigFile::with_path(None, 0).check_due(10_000));
}

#[test]
fn unchanged_mtime_keeps_live_config() {
    let mut cf = loaded(foo_and_global());
    cf.select_app("/usr/bin/foo");
    let before = cf.get_actions_for_modifiers(Modifier::Unmodified, Action::Click).map(|s| s.as_ptr());
    assert!(!cf.observe_mtime(10_000, 7));
    let after = cf.get_actions_for_modifiers(Modifier::Unmodified, Action::Click).map(|s| s.as_ptr());
    assert_eq!(before, after);
}

#[test]
fn failed_reload_clears_everything() {
    let mut cf = loaded(foo_and_global());
    cf.select_app("/usr/bin/foo");
    cf.load_result(None);
    assert_eq!(cf.get_actions_for_modifiers(Modifier::Unmodified, Action::Click), None);
    assert_eq!(cf.ratchet_mode_for_modifier(Modifier::Unmodified), RatchetMode::Ratcheted);
    cf.select_app("/usr/bin/foo");
    assert_eq!(cf.get_actions_for_modifiers(Modifier::Unmodified, Action::Click), None);
}

#[test]
fn reload_resolves_focused_app_again() {
    let mut cf = ConfigFile::with_path(Some("/tmp/config.yaml".to_string()), 1);
    cf.select_app("/usr/bin/foo");
    assert_eq!(cf.get_actions_for_modifiers(Modifier::Unmodified, Action::Click), None);
    cf.load_result(Some(foo_and_global()));
    assert_eq!(
        cf.get_actions_for_modifiers(Modifier::Unmodified, Action::Click),
        Some(&[exec("foo-click")][..])
    );
}

#[test]
fn insert_replaces_entry() {
    let mut c = Config::new();
    c.insert("a".to_string(), app(RatchetMode::Free, None, None));
    c.insert("a".to_string(), app(RatchetMode::Ratcheted, None, None));
    assert_eq!(c.apps.len(), 1);
    assert_eq!(c.apps[0].mapping.mode, RatchetMode::Ratcheted);
    assert_eq!(c.find(&"a".to_string()), Some(0));
    assert_eq!(c.find(&"b".to_string()), None);
}

#[test]
fn default_path_is_config_yaml() {
    let cf = ConfigFile::new(0);
    if let Some(p) = cf.path() {
        assert!(p.ends_with("/config.yaml"));
        assert!(p.len() > "/config.yaml".len());
    }
}

#[test]
fn end_to_end_click_runs_echo() {
    let mut c = Config::new();
    c.insert(
        "global".to_string(),
        app(RatchetMode::Free, Some(button(None, vec![exec("echo hi")])), None),
    );
    let mut cf = loaded(c);
    let mut router = Router::new();
    let routed = router.route(&mut cf, &StateChanges::CrownClicked { modifiers: 0 });
    assert_eq!(routed, Routed::Lookup(Modifier::Unmodified, Action::Click));
    let actions = cf.get_actions_for_modifiers(Modifier::Unmodified, Action::Click).unwrap();
    assert_eq!(actions.len(), 1);
    match &actions[0] {
        Operation::Execute(cmd) => assert_eq!(split_words(cmd), vec!["echo", "hi"]),
        other => panic!("unexpected {:?}", other),
    }
}

#[test]
fn focus_change_switches_ratchet() {
    let mut cf = loaded(foo_and_global());
    let mut router = Router::new();
    let focus = StateChanges::FocusChanged { pid: 42, program: "/usr/bin/foo".to_string() };
    assert_eq!(router.route(&mut cf, &focus), Routed::SetRatchet(RatchetMode::Free));
    assert_eq!(router.last_mode, RatchetMode::Free);
    assert_eq!(router.route(&mut cf, &focus), Routed::Nothing);
    let other = StateChanges::FocusChanged { pid: 43, program: "/usr/bin/zzz".to_string() };
    assert_eq!(router.route(&mut cf, &other), Routed::SetRatchet(RatchetMode::Ratcheted));
}

#[test]
fn modifier_change_switches_ratchet() {
    let mut cf = loaded(foo_and_global());
    let mut router = Router::new();
    assert_eq!(router.route(&mut cf, &StateChanges::ModifiersChanged { modifiers: 0x02 }), Routed::SetRatchet(RatchetMode::Free));
    assert_eq!(router.last_modifiers, Modifier::Shift);
    assert_eq!(router.route(&mut cf, &StateChanges::ModifiersChanged { modifiers: 0x20 }), Routed::Nothing);
    assert_eq!(router.route(&mut cf, &StateChanges::ModifiersChanged { modifiers: 0 }), Routed::SetRatchet(RatchetMode::Ratcheted));
}

#[test]
fn rotation_routing() {
    let mut cf = loaded(foo_and_global());
    let mut router = Router::new();
    let rot = |amount: i16, notch_amount: i16, pressed: bool| StateChanges::CrownRotated {
        modifiers: 0x01,
        amount,
        notch_amount,
        pressed,
    };
    assert_eq!(router.route(&mut cf, &rot(2, 1, true)), Routed::Lookup(Modifier::Ctrl, Action::RightPressed));
    assert_eq!(router.route(&mut cf, &rot(-2, 1, true)), Routed::Lookup(Modifier::Ctrl, Action::LeftPressed));
    assert_eq!(router.route(&mut cf, &rot(2, 1, false)), Routed::Lookup(Modifier::Ctrl, Action::Right));
    assert_eq!(router.route(&mut cf, &rot(-2, -1, false)), Routed::Lookup(Modifier::Ctrl, Action::Left));
    assert_eq!(router.route(&mut cf, &rot(0, 1, false)), Routed::Nothing);
    assert_eq!(router.route(&mut cf, &rot(3, 0, false)), Routed::Nothing);
    router.last_mode = RatchetMode::Free;
    assert_eq!(router.route(&mut cf, &rot(3, 0, false)), Routed::Lookup(Modifier::Ctrl, Action::Right));
}

#[test]
fn touch_and_release_routing() {
    let mut cf = loaded(foo_and_global());
    let mut router = Router::new();
    assert_eq!(router.route(&mut cf, &StateChanges::CrownTouched { modifiers: 0x40 }), Routed::Lookup(Modifier::Alt, Action::Touch));
    assert_eq!(router.route(&mut cf, &StateChanges::CrownReleased { modifiers: 0 }), Routed::Lookup(Modifier::Unmodified, Action::Release));
}
