use linux_input::keysym::{XK_ALT_L, XK_ALT_R, XK_ESCAPE, XK_NUM_LOCK};
use linux_input::{keycode_count, keysym, InputError, Keymap, WatchedKeys};
use x11rb::protocol::xproto::{GetKeyboardMappingReply, GetModifierMappingReply};

#[test]
fn standalone_f12_resolves_to_the_x11_keysym() {
    assert_eq!(keysym("f12").unwrap(), 0xffc9);
}

#[test]
fn named_keys_have_their_keysyms() {
    assert_eq!(keysym("space").unwrap(), 0x20);
    assert_eq!(keysym("enter").unwrap(), 0xff0d);
    assert_eq!(keysym("return").unwrap(), 0xff0d);
    assert_eq!(keysym("tab").unwrap(), 0xff09);
    assert_eq!(keysym("backspace").unwrap(), 0xff08);
}

#[test]
fn case_does_not_matter() {
    assert_eq!(keysym("SpAcE").unwrap(), 0x20);
    assert_eq!(keysym("F12").unwrap(), 0xffc9);
    assert_eq!(keysym("A").unwrap(), 0x61);
    assert_eq!(keysym("a").unwrap(), 0x61);
}

#[test]
fn characters_name_themselves() {
    for code in 0x21..=0x7e_u8 {
        let expected = u32::from(code.to_ascii_lowercase());
        assert_eq!(keysym(&char::from(code).to_string()).unwrap(), expected);
    }
    assert_eq!(keysym("f").unwrap(), 0x66);
    assert_eq!(keysym("+").unwrap(), 0x2b);
}

#[test]
fn function_keys_are_numbered_up_to_24() {
    for number in 1..=24_u32 {
        assert_eq!(keysym(&format!("f{number}")).unwrap(), 0xffbd + number);
    }
    assert_eq!(keysym("f24").unwrap(), 0xffd5);
    assert_eq!(keysym("f+1").unwrap(), 0xffbe);
    assert_eq!(keysym("f0012").unwrap(), 0xffc9);
}

fn bad_function_key(name: &str, lowered: &str) {
    match keysym(name) {
        Err(error @ InputError::UnsupportedFunctionKey { .. }) => assert_eq!(
            error.message(),
            format!("unsupported X11 function key: {lowered}")
        ),
        other => panic!("unexpected {other:?} for {name}"),
    }
}

#[test]
fn other_names_in_f_are_no_function_keys() {
    bad_function_key("f0", "f0");
    bad_function_key("f25", "f25");
    bad_function_key("F99999999999999999999", "f99999999999999999999");
    bad_function_key("f4294967297", "f4294967297");
    bad_function_key("Foo", "foo");
    bad_function_key("f-1", "f-1");
    bad_function_key("f+", "f+");
    bad_function_key("f++1", "f++1");
    bad_function_key("f 1", "f 1");
    bad_function_key("f1 ", "f1 ");
    bad_function_key("f1\u{661}", "f1\u{661}");
}

fn bad_key(name: &str, lowered: &str) {
    match keysym(name) {
        Err(error @ InputError::UnsupportedKey { .. }) => assert_eq!(
            error.message(),
            format!("unsupported X11 hotkey key: {lowered}")
        ),
        other => panic!("unexpected {other:?} for {name}"),
    }
}

#[test]
fn other_names_are_no_keys() {
    bad_key("", "");
    bad_key(" ", " ");
    bad_key("\u{7f}", "\u{7f}");
    bad_key("\u{e9}", "\u{e9}");
    bad_key("\u{c9}", "\u{c9}");
    bad_key("Escape", "escape");
    bad_key("spaces", "spaces");
}

fn keymap() -> Keymap {
    // Keycodes 8 to 14, two keysyms each.
    Keymap::read(
        8,
        GetKeyboardMappingReply {
            keysyms_per_keycode: 2,
            sequence: 0,
            keysyms: vec![
                XK_ESCAPE, 0, 0x20, 0, 0x61, 0x41, XK_ALT_L, 0, 0x61, 0x7a, XK_NUM_LOCK, 0,
                XK_ALT_R,
            ],
        },
    )
}

#[test]
fn a_keycode_is_the_first_row_with_the_keysym() {
    let keymap = keymap();
    assert_eq!(keymap.keycode(XK_ESCAPE).unwrap(), 8);
    assert_eq!(keymap.keycode(0x20).unwrap(), 9);
    assert_eq!(keymap.keycode(0x61).unwrap(), 10);
    assert_eq!(keymap.keycode(0x41).unwrap(), 10);
    assert_eq!(keymap.keycode(0x7a).unwrap(), 12);
    assert_eq!(keymap.keycode(XK_ALT_R).unwrap(), 14);
}

#[test]
fn a_missing_keysym_is_reported_in_hexadecimal() {
    let error = keymap().keycode(0xffd5).unwrap_err();
    assert!(matches!(error, InputError::MissingKeysym { keysym: 0xffd5 }));
    assert_eq!(
        error.message(),
        "active X11 keymap has no key for keysym 0xffd5"
    );
    assert_eq!(
        keymap().keycode(0xa).unwrap_err().message(),
        "active X11 keymap has no key for keysym 0xa"
    );
}

#[test]
fn only_sound_searches_are_allowed() {
    assert!(keymap().is_searchable(0x61));
    assert!(keymap().is_searchable(0x1234));
    let flat = Keymap::read(8, GetKeyboardMappingReply::default());
    assert!(!flat.is_searchable(0x61));
    let high = Keymap::read(
        254,
        GetKeyboardMappingReply {
            keysyms_per_keycode: 1,
            sequence: 0,
            keysyms: vec![1, 2, 3],
        },
    );
    assert!(high.is_searchable(2));
    assert_eq!(high.keycode(2).unwrap(), 255);
    assert!(!high.is_searchable(3));
}

#[test]
fn rows_are_counted_in_a_byte() {
    let mut keysyms = vec![0; 300];
    keysyms[260] = 7;
    let keymap = Keymap::read(
        8,
        GetKeyboardMappingReply {
            keysyms_per_keycode: 1,
            sequence: 0,
            keysyms,
        },
    );
    assert!(keymap.is_searchable(7));
    assert_eq!(keymap.keycode(7).unwrap(), 12);
}

fn modifiers(keycodes: Vec<u8>) -> GetModifierMappingReply {
    GetModifierMappingReply {
        sequence: 0,
        length: 0,
        keycodes,
    }
}

#[test]
fn a_modifier_is_the_bit_of_its_row() {
    let mapping = modifiers(vec![50, 62, 66, 0, 37, 105, 14, 0, 13, 0, 0, 0, 133, 0, 0, 0]);
    let keymap = keymap();
    assert_eq!(
        keymap.modifier_for(&[XK_ALT_L, XK_ALT_R], &mapping).unwrap(),
        1 << 3
    );
    assert_eq!(keymap.modifier_for(&[XK_NUM_LOCK], &mapping).unwrap(), 1 << 4);
}

#[test]
fn the_first_row_with_any_of_the_keys_counts() {
    let mapping = modifiers(vec![0, 14, 0, 11, 0, 0, 0, 0]);
    let keymap = keymap();
    assert_eq!(
        keymap.modifier_for(&[XK_ALT_L, XK_ALT_R], &mapping).unwrap(),
        0x02
    );
    assert_eq!(keymap.modifier_for(&[0x1234, XK_ALT_L], &mapping).unwrap(), 0x08);
}

#[test]
fn an_unmapped_modifier_is_an_error() {
    let mapping = modifiers(vec![0, 1, 2, 3, 4, 5, 6, 7]);
    let error = keymap().modifier_for(&[XK_NUM_LOCK], &mapping).unwrap_err();
    assert!(matches!(error, InputError::UnmappedModifier));
    assert_eq!(
        error.message(),
        "active X11 keymap does not map the requested modifier"
    );
    assert!(keymap().modifier_for(&[0x1234], &mapping).is_err());
    assert!(keymap().modifier_for(&[], &mapping).is_err());
}

#[test]
fn watched_keys_are_the_trigger_and_escape() {
    let keymap = keymap();
    assert!(keymap.is_resolvable("Space"));
    assert_eq!(
        keymap.watched_keys("Space").unwrap(),
        WatchedKeys {
            trigger: 9,
            escape: 8
        }
    );
    assert!(matches!(
        keymap.watched_keys("nothing"),
        Err(InputError::UnsupportedKey { .. })
    ));
    assert!(matches!(
        keymap.watched_keys("f77"),
        Err(InputError::UnsupportedFunctionKey { .. })
    ));
    assert!(matches!(
        keymap.watched_keys("f24"),
        Err(InputError::MissingKeysym { keysym: 0xffd5 })
    ));
}

#[test]
fn a_keyboard_without_escape_is_refused() {
    let keymap = Keymap::read(
        8,
        GetKeyboardMappingReply {
            keysyms_per_keycode: 1,
            sequence: 0,
            keysyms: vec![0x20],
        },
    );
    assert!(matches!(
        keymap.watched_keys("space"),
        Err(InputError::MissingKeysym { keysym: XK_ESCAPE })
    ));
    let flat = Keymap::read(8, GetKeyboardMappingReply::default());
    assert!(!flat.is_resolvable("space"));
    assert!(flat.is_resolvable("nothing"));
}

#[test]
fn keycodes_are_counted_inclusively() {
    assert_eq!(keycode_count(8, 255), 248);
    assert_eq!(keycode_count(9, 9), 1);
}
