use ducky_relay::keytable::{key_to_name, lookup_name};

#[test]
fn letters_and_digits_have_their_names() {
    assert_eq!(key_to_name(16), "q");
    assert_eq!(key_to_name(30), "a");
    assert_eq!(key_to_name(46), "c");
    assert_eq!(key_to_name(50), "m");
    assert_eq!(key_to_name(2), "1");
    assert_eq!(key_to_name(11), "0");
}

#[test]
fn function_keys_have_their_names() {
    assert_eq!(key_to_name(59), "f1");
    assert_eq!(key_to_name(68), "f10");
    assert_eq!(key_to_name(87), "f11");
    assert_eq!(key_to_name(88), "f12");
}

#[test]
fn left_and_right_modifiers_share_a_name() {
    assert_eq!(key_to_name(29), "ctrl");
    assert_eq!(key_to_name(97), "ctrl");
    assert_eq!(key_to_name(42), "shift");
    assert_eq!(key_to_name(54), "shift");
    assert_eq!(key_to_name(56), "alt");
    assert_eq!(key_to_name(100), "alt");
    assert_eq!(key_to_name(125), "meta");
    assert_eq!(key_to_name(126), "meta");
}

#[test]
fn other_keys_have_their_names() {
    assert_eq!(key_to_name(1), "escape");
    assert_eq!(key_to_name(14), "backspace");
    assert_eq!(key_to_name(28), "enter");
    assert_eq!(key_to_name(57), "space");
    assert_eq!(key_to_name(103), "up");
    assert_eq!(key_to_name(108), "down");
    assert_eq!(key_to_name(105), "left");
    assert_eq!(key_to_name(106), "right");
    assert_eq!(key_to_name(12), "minus");
    assert_eq!(key_to_name(53), "slash");
    assert_eq!(key_to_name(69), "numlock");
    assert_eq!(key_to_name(82), "kp0");
    assert_eq!(key_to_name(96), "kpenter");
    assert_eq!(key_to_name(99), "sysrq");
    assert_eq!(key_to_name(142), "sleep");
}

#[test]
fn unknown_codes_are_named_by_their_number() {
    assert_eq!(key_to_name(0), "key0");
    assert_eq!(key_to_name(70), "key70");
    assert_eq!(key_to_name(200), "key200");
    assert_eq!(key_to_name(1000), "key1000");
    assert_eq!(key_to_name(65535), "key65535");
}

#[test]
fn every_code_has_a_lowercase_name() {
    let mut named = 0;
    for code in 0..=u16::MAX {
        let name = key_to_name(code);
        assert!(!name.is_empty());
        assert_eq!(name, name.trim().to_lowercase());
        match lookup_name(code) {
            Some(known) => {
                named += 1;
                assert_eq!(name, known);
            }
            None => assert_eq!(name, format!("key{}", code)),
        }
    }
    assert_eq!(named, 104);
}
