use captura::hotkeys::{
    hotkey_to_register, parse_hotkey, Hotkey, HotkeyBindings, HotkeyError, KeyCode, Modifiers,
};

fn mods(command: bool, control: bool, alt: bool, shift: bool) -> Modifiers {
    Modifiers { command, control, alt, shift }
}

fn invalid(msg: &str) -> Result<Hotkey, HotkeyError> {
    Err(HotkeyError::InvalidHotkey(msg.to_string()))
}

#[test]
fn default_hotkeys_parse() {
    assert_eq!(
        parse_hotkey("Ctrl+Shift+1"),
        Ok(Hotkey { modifiers: mods(false, true, false, true), code: KeyCode::Digit(1) })
    );
    assert_eq!(
        parse_hotkey("Ctrl+Shift+4"),
        Ok(Hotkey { modifiers: mods(false, true, false, true), code: KeyCode::Digit(4) })
    );
}

#[test]
fn documented_examples_parse() {
    assert_eq!(
        parse_hotkey("Ctrl+Alt+S"),
        Ok(Hotkey { modifiers: mods(false, true, true, false), code: KeyCode::Letter('S') })
    );
    assert_eq!(
        parse_hotkey("Cmd+Shift+R"),
        Ok(Hotkey { modifiers: mods(true, false, false, true), code: KeyCode::Letter('R') })
    );
}

#[test]
fn modifier_synonyms_and_case() {
    for word in ["cmd", "SUPER", "Meta"] {
        assert_eq!(parse_hotkey(&format!("{word}+a")).unwrap().modifiers, mods(true, false, false, false));
    }
    for word in ["ctrl", "Control"] {
        assert_eq!(parse_hotkey(&format!("{word}+a")).unwrap().modifiers, mods(false, true, false, false));
    }
    for word in ["ALT", "option"] {
        assert_eq!(parse_hotkey(&format!("{word}+a")).unwrap().modifiers, mods(false, false, true, false));
    }
    assert_eq!(parse_hotkey("shift+shift+a").unwrap().modifiers, mods(false, false, false, true));
}

#[test]
fn keys_are_trimmed_and_case_insensitive() {
    assert_eq!(
        parse_hotkey(" ctrl + alt + f12 "),
        Ok(Hotkey { modifiers: mods(false, true, true, false), code: KeyCode::Function(12) })
    );
    assert_eq!(parse_hotkey("space").unwrap().code, KeyCode::Space);
    assert_eq!(parse_hotkey("Return").unwrap().code, KeyCode::Enter);
    assert_eq!(parse_hotkey("enter").unwrap().code, KeyCode::Enter);
    assert_eq!(parse_hotkey("F1").unwrap().code, KeyCode::Function(1));
    assert_eq!(parse_hotkey("F20").unwrap().code, KeyCode::Function(20));
    assert_eq!(parse_hotkey("0").unwrap().code, KeyCode::Digit(0));
    assert_eq!(parse_hotkey("z").unwrap().code, KeyCode::Letter('Z'));
}

#[test]
fn unicode_case_mapping_is_used() {
    // `str::to_uppercase` maps the long s to `S`, so this names the Space key.
    assert_eq!(parse_hotkey("\u{17f}pace").unwrap().code, KeyCode::Space);
}

#[test]
fn unknown_keys_are_reported() {
    assert_eq!(parse_hotkey("F21"), invalid("unknown key: F21"));
    assert_eq!(parse_hotkey("F0"), invalid("unknown key: F0"));
    assert_eq!(parse_hotkey("F01"), invalid("unknown key: F01"));
    assert_eq!(parse_hotkey("Ctrl+Tab"), invalid("unknown key: Tab"));
    assert_eq!(parse_hotkey(""), invalid("unknown key: "));
    assert_eq!(parse_hotkey("Ctrl+"), invalid("unknown key: "));
}

#[test]
fn unknown_modifiers_are_reported_first() {
    assert_eq!(parse_hotkey("Hyper+A"), invalid("unknown modifier: Hyper"));
    assert_eq!(parse_hotkey("Ctrl+ Foo +Nope"), invalid("unknown modifier: Foo"));
    assert_eq!(parse_hotkey("+A"), invalid("unknown modifier: "));
}

#[test]
fn empty_hotkey_is_disabled() {
    assert_eq!(hotkey_to_register(""), Ok(None));
    assert_eq!(
        hotkey_to_register("Ctrl+Shift+3"),
        Ok(Some(Hotkey { modifiers: mods(false, true, false, true), code: KeyCode::Digit(3) }))
    );
    assert_eq!(hotkey_to_register("Ctrl+?"), Err(HotkeyError::InvalidHotkey("unknown key: ?".to_string())));
}

#[test]
fn bindings_map_ids_both_ways() {
    let mut b = HotkeyBindings::new();
    b.bind("screenshot", 10);
    b.bind("toggle_recording", 11);
    assert_eq!(b.lookup(10), Some("screenshot".to_string()));
    assert_eq!(b.lookup(11), Some("toggle_recording".to_string()));
    assert_eq!(b.lookup(12), None);
    let mut names = b.names();
    names.sort();
    assert_eq!(names, vec!["screenshot".to_string(), "toggle_recording".to_string()]);
    assert_eq!(b.unbind("screenshot"), Some(10));
    assert_eq!(b.lookup(10), None);
    assert_eq!(b.unbind("screenshot"), None);
    assert_eq!(b.names(), vec!["toggle_recording".to_string()]);
}

#[test]
fn rebinding_a_name_releases_the_old_id() {
    let mut b = HotkeyBindings::new();
    assert_eq!(b.bind("screenshot", 10), None);
    assert_eq!(b.bind("screenshot", 20), Some(10));
    assert_eq!(b.lookup(10), None);
    assert_eq!(b.lookup(20), Some("screenshot".to_string()));
    assert_eq!(b.bind("screenshot", 20), None);
    assert_eq!(b.names(), vec!["screenshot".to_string()]);
    assert_eq!(b.unbind("screenshot"), Some(20));
    assert_eq!(b.lookup(20), None);
    assert_eq!(b.names(), Vec::<String>::new());
}

#[test]
fn binding_an_id_moves_it_to_the_new_name() {
    let mut b = HotkeyBindings::new();
    b.bind("screenshot", 10);
    assert_eq!(b.bind("region", 10), None);
    assert_eq!(b.lookup(10), Some("region".to_string()));
    assert_eq!(b.unbind("screenshot"), None);
    assert_eq!(b.names(), vec!["region".to_string()]);
}

#[test]
fn unbinding_every_name_leaves_no_id() {
    let mut b = HotkeyBindings::new();
    b.bind("screenshot", 10);
    b.bind("screenshot", 11);
    b.bind("toggle_recording", 12);
    for name in b.names() {
        b.unbind(&name);
    }
    for id in 9..14 {
        assert_eq!(b.lookup(id), None);
    }
}

#[test]
fn unbind_all_releases_every_id() {
    let mut b = HotkeyBindings::new();
    b.bind("screenshot", 10);
    b.bind("toggle_recording", 12);
    b.bind("region", 14);
    let mut ids = b.unbind_all();
    ids.sort();
    assert_eq!(ids, vec![10, 12, 14]);
    assert_eq!(b.names(), Vec::<String>::new());
    assert_eq!(b.lookup(12), None);
    assert_eq!(b.unbind_all(), Vec::<u32>::new());
}

#[test]
fn modifier_order_case_and_alias_do_not_matter() {
    assert_eq!(parse_hotkey(" shift + CTRL + 1 "), parse_hotkey("Ctrl+Shift+1"));
    assert_eq!(parse_hotkey("Option+A"), parse_hotkey("Alt+A"));
    assert_eq!(parse_hotkey("meta+cmd+Super+f5"), parse_hotkey("Cmd+F5"));
    assert!(parse_hotkey("Ctrl+Shift+1").is_ok());
}
