use instant_replay::config::HotkeyConfig;
use instant_replay::hotkeys::{
    action_for_event, hotkey_bindings, key_name_to_code, letter_or_digit_code, parse_hotkey_spec,
    HotkeyAction, HotkeyModifiers, HotkeySpec, KeyCode,
};

#[test]
fn key_names() {
    assert_eq!(key_name_to_code("m"), Some(KeyCode::KeyM));
    assert_eq!(key_name_to_code("space"), Some(KeyCode::Space));
    assert_eq!(key_name_to_code("Esc"), Some(KeyCode::Escape));
    assert_eq!(key_name_to_code("return"), Some(KeyCode::Enter));
    assert_eq!(key_name_to_code("F12"), Some(KeyCode::F12));
    assert_eq!(key_name_to_code("7"), Some(KeyCode::Digit7));
    assert_eq!(key_name_to_code("PageUp"), None);
    assert_eq!(letter_or_digit_code('Z'), Some(KeyCode::KeyZ));
    assert_eq!(letter_or_digit_code('M'), None);
    assert_eq!(letter_or_digit_code('?'), None);
}

#[test]
fn hotkey_specs() {
    assert_eq!(parse_hotkey_spec("M"), Some(HotkeySpec { modifiers: None, code: KeyCode::KeyM }));
    assert_eq!(
        parse_hotkey_spec("Ctrl+R"),
        Some(HotkeySpec {
            modifiers: Some(HotkeyModifiers { control: true, alt: false, shift: false, super_key: false }),
            code: KeyCode::KeyR
        })
    );
    assert_eq!(
        parse_hotkey_spec(" Cmd + Shift + M "),
        Some(HotkeySpec {
            modifiers: Some(HotkeyModifiers { control: false, alt: false, shift: true, super_key: true }),
            code: KeyCode::KeyM
        })
    );
    assert_eq!(parse_hotkey_spec(""), None);
    assert_eq!(parse_hotkey_spec("+"), None);
    assert_eq!(parse_hotkey_spec("Ctrl+Banana"), None);
}

#[test]
fn default_bindings_register_all_five() {
    let b = hotkey_bindings(&HotkeyConfig::default());
    let actions: Vec<HotkeyAction> = b.iter().map(|x| x.0).collect();
    assert_eq!(
        actions,
        vec![
            HotkeyAction::Mark,
            HotkeyAction::Replay,
            HotkeyAction::ReplayLast,
            HotkeyAction::ReturnLive,
            HotkeyAction::ClearMark
        ]
    );
    assert_eq!(b[2].1, Some(HotkeySpec { modifiers: None, code: KeyCode::Space }));
    let mut cfg = HotkeyConfig::default();
    cfg.replay = String::new();
    cfg.clear_mark = "Ctrl+Banana".into();
    cfg.mark = "Hyper+Q".into();
    let b = hotkey_bindings(&cfg);
    assert_eq!(b.len(), 4);
    assert_eq!(b[0], (HotkeyAction::Mark, Some(HotkeySpec { modifiers: None, code: KeyCode::KeyQ })));
    assert_eq!(b[3], (HotkeyAction::ClearMark, None));
}

#[test]
fn events_map_to_actions() {
    let table = vec![(1u32, HotkeyAction::Mark), (2, HotkeyAction::Replay), (1, HotkeyAction::ClearMark)];
    assert_eq!(action_for_event(&table, 2, true), Some(HotkeyAction::Replay));
    assert_eq!(action_for_event(&table, 1, true), Some(HotkeyAction::ClearMark));
    assert_eq!(action_for_event(&table, 2, false), None);
    assert_eq!(action_for_event(&table, 3, true), None);
}
