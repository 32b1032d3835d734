use ducky_relay::combo::{normalize, parse_key_combination, KeyCombination};
use ducky_relay::order::{compare_names, NameOrder};
use ducky_relay::text::{
    canonical_name, char_is_whitespace, chars_of, lower_ascii_char, parse_number, push_decimal, push_signed_decimal, split,
};

fn strings(items: &[&str]) -> Vec<String> {
    items.iter().map(|s| s.to_string()).collect()
}

#[test]
fn canonical_name_trims_and_lowercases() {
    assert_eq!(canonical_name("  Shift \t"), "shift");
    assert_eq!(canonical_name("A"), "a");
    assert_eq!(canonical_name("f1"), "f1");
    assert_eq!(canonical_name("Page Up"), "page up");
}

#[test]
fn canonical_name_of_blank_is_empty() {
    assert_eq!(canonical_name(""), "");
    assert_eq!(canonical_name("   "), "");
    assert_eq!(canonical_name("\t\n\r\u{b}\u{c}"), "");
    assert_eq!(canonical_name("\u{a0}\u{2003}\u{3000}"), "");
}

#[test]
fn canonical_name_agrees_with_std_on_unicode() {
    for raw in ["  ÉCLAIR ", "ΟΔΟΣ", "İstanbul", "\u{2028}Ünïcode\u{85}", "straße", "ǅ"] {
        assert_eq!(canonical_name(raw), raw.trim().to_lowercase());
    }
    assert_eq!(canonical_name("  ÉCLAIR "), "éclair");
}

#[test]
fn canonical_name_trims_what_std_trims() {
    for raw in ["\u{a0}Shift\u{a0}", "\u{2003}a b\u{2003}", "\u{200b}a\u{200b}", " \u{feff}x ", "\u{1680}É\u{205f}", "a\u{3000}"] {
        assert_eq!(canonical_name(raw), raw.trim().to_lowercase());
    }
    assert_eq!(canonical_name("\u{a0}Shift\u{a0}"), "shift");
    assert_eq!(canonical_name("\u{200b}A\u{200b}"), "\u{200b}a\u{200b}");
}

#[test]
fn canonical_name_agrees_with_std_on_ascii() {
    for code in 0u8..128 {
        let raw = format!("  x{}Y\t", code as char);
        assert_eq!(canonical_name(&raw), raw.trim().to_lowercase());
        let edge = format!("{}", code as char);
        assert_eq!(canonical_name(&edge), edge.trim().to_lowercase());
    }
}

#[test]
fn whitespace_is_what_std_calls_whitespace() {
    let mut c = 0u32;
    while c <= 0x10ffff {
        if let Some(ch) = char::from_u32(c) {
            assert_eq!(char_is_whitespace(ch), ch.is_whitespace());
        }
        c += 1;
    }
    assert!(!char_is_whitespace('\u{200b}'));
    assert!(!char_is_whitespace('\u{feff}'));
}

#[test]
fn ascii_letters_fold_to_lowercase() {
    assert_eq!(lower_ascii_char('A'), 'a');
    assert_eq!(lower_ascii_char('Z'), 'z');
    assert_eq!(lower_ascii_char('m'), 'm');
    assert_eq!(lower_ascii_char('@'), '@');
    assert_eq!(lower_ascii_char('['), '[');
    assert_eq!(lower_ascii_char('É'), 'É');
}

#[test]
fn chars_of_lists_the_characters() {
    assert_eq!(chars_of("aé+"), vec!['a', 'é', '+']);
    assert_eq!(chars_of(""), Vec::<char>::new());
}

#[test]
fn decimal_numerals() {
    let mut out = String::from("key");
    push_decimal(&mut out, 0);
    assert_eq!(out, "key0");
    let mut out = String::new();
    push_decimal(&mut out, 65535);
    assert_eq!(out, "65535");
    let mut out = String::new();
    push_decimal(&mut out, u64::MAX);
    assert_eq!(out, "18446744073709551615");
    let mut out = String::new();
    push_signed_decimal(&mut out, -1);
    assert_eq!(out, "-1");
    let mut out = String::new();
    push_signed_decimal(&mut out, i32::MIN);
    assert_eq!(out, "-2147483648");
    let mut out = String::new();
    push_signed_decimal(&mut out, 255);
    assert_eq!(out, "255");
}

#[test]
fn numbers_are_read_from_digits() {
    assert_eq!(parse_number("0"), Some(0));
    assert_eq!(parse_number("7"), Some(7));
    assert_eq!(parse_number("1234"), Some(1234));
    assert_eq!(parse_number("007"), Some(7));
    assert_eq!(parse_number("4294967295"), Some(u32::MAX));
    assert_eq!(parse_number("4294967296"), None);
    assert_eq!(parse_number("42949672950"), None);
    assert_eq!(parse_number("18446744073709551616"), None);
    assert_eq!(parse_number(""), None);
    assert_eq!(parse_number("12a"), None);
    assert_eq!(parse_number("a12"), None);
    assert_eq!(parse_number("-1"), None);
    assert_eq!(parse_number("+1"), None);
    assert_eq!(parse_number(" 1"), None);
    assert_eq!(parse_number("99999999999x"), None);
    for n in [0u32, 9, 10, 99, 100, 65535, 1_000_000, u32::MAX] {
        let mut text = String::new();
        push_decimal(&mut text, n as u64);
        assert_eq!(parse_number(&text), Some(n));
    }
}

#[test]
fn split_keeps_empty_pieces() {
    assert_eq!(split("ctrl+shift+b", '+'), strings(&["ctrl", "shift", "b"]));
    assert_eq!(split("", '+'), strings(&[""]));
    assert_eq!(split("+", '+'), strings(&["", ""]));
    assert_eq!(split("a++b", '+'), strings(&["a", "", "b"]));
    assert_eq!(split("a+", '+'), strings(&["a", ""]));
    assert_eq!(split("meta", '+'), strings(&["meta"]));
}

#[test]
fn names_are_ordered_as_strings_are() {
    let samples = ["", "a", "ab", "b", "A", "shift", "ctrl", "é", "z", "key10", "key9", "\u{10000}", "\u{ffff}"];
    for a in samples {
        for b in samples {
            let expected = if a < b {
                NameOrder::Before
            } else if a == b {
                NameOrder::Same
            } else {
                NameOrder::After
            };
            assert_eq!(compare_names(a, b), expected);
        }
    }
}

#[test]
fn normalize_sorts_and_lowercases() {
    let combo = normalize(&strings(&["Shift", "A"]));
    assert_eq!(combo.to_vec(), strings(&["a", "shift"]));
    assert_eq!(combo.len(), 2);
    assert!(!combo.is_empty());
    assert!(combo.contains("shift"));
    assert!(!combo.contains("Shift"));
}

#[test]
fn normalize_is_order_independent() {
    let a = normalize(&strings(&["shift", "a"]));
    let b = normalize(&strings(&["a", "shift"]));
    assert_eq!(a, b);
    let c = normalize(&strings(&["ctrl", "alt", "delete"]));
    let d = normalize(&strings(&["delete", "ctrl", "alt"]));
    let e = normalize(&strings(&["alt", "delete", "ctrl"]));
    assert_eq!(c, d);
    assert_eq!(d, e);
    assert_eq!(c.to_vec(), strings(&["alt", "ctrl", "delete"]));
}

#[test]
fn normalize_is_idempotent() {
    for keys in [
        strings(&["Shift", " a "]),
        strings(&["  ", "F1"]),
        strings(&["b", "B", "a"]),
        strings(&["ÉCLAIR", "Ω"]),
        strings(&[]),
    ] {
        let once = normalize(&keys);
        let twice = normalize(&once.to_vec());
        assert_eq!(once, twice);
    }
}

#[test]
fn normalize_collapses_duplicates() {
    let combo = normalize(&strings(&["Ctrl", "ctrl", " CTRL ", "c"]));
    assert_eq!(combo.to_vec(), strings(&["c", "ctrl"]));
}

#[test]
fn normalize_drops_blank_entries() {
    let combo = normalize(&strings(&["", "a", "   ", "\t"]));
    assert_eq!(combo.to_vec(), strings(&["a"]));
    assert!(normalize(&strings(&[])).is_empty());
    assert!(normalize(&strings(&["", "  ", "\n"])).is_empty());
    assert_eq!(normalize(&strings(&[" "])), KeyCombination::empty());
}

#[test]
fn names_of_a_combination_are_sorted() {
    let combo = normalize(&strings(&["ctrl", "c", "Ctrl", "", "Shift"]));
    assert_eq!(combo.names(), &strings(&["c", "ctrl", "shift"]));
    assert_eq!(combo.to_vec(), strings(&["c", "ctrl", "shift"]));
}

#[test]
fn combinations_compare_by_value() {
    let a = parse_key_combination("ctrl+c");
    let b = a.clone();
    assert_eq!(a, b);
    assert_ne!(a, parse_key_combination("ctrl"));
    assert_ne!(a, parse_key_combination("ctrl+d"));
    assert_ne!(a, parse_key_combination("ctrl+c+d"));
}

#[test]
fn parse_key_combination_reads_plus_joined_names() {
    assert_eq!(parse_key_combination("meta+f1").to_vec(), strings(&["f1", "meta"]));
    assert_eq!(parse_key_combination("a").to_vec(), strings(&["a"]));
    assert_eq!(parse_key_combination("ctrl+shift+b").to_vec(), strings(&["b", "ctrl", "shift"]));
    assert_eq!(parse_key_combination(" Ctrl + Shift + B ").to_vec(), strings(&["b", "ctrl", "shift"]));
    assert_eq!(parse_key_combination("SHIFT+a"), normalize(&strings(&["a", "shift"])));
}

#[test]
fn parse_key_combination_is_canonical() {
    assert!(parse_key_combination("").is_empty());
    assert!(parse_key_combination("+").is_empty());
    assert_eq!(parse_key_combination("a++b").to_vec(), strings(&["a", "b"]));
    assert_eq!(parse_key_combination("b+a+b").to_vec(), strings(&["a", "b"]));
}
