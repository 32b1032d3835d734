//! The key name table: from the raw code of a key to its canonical
//! lowercase name.

use vstd::prelude::*;
use crate::text::{decimal, is_plain, is_plain_name, key_name, lemma_decimal_plain, lemma_plain_name, push_decimal};

verus! {

/// The name that the table gives to the key with this code, if it has one.
pub open spec fn table_name(code: u16) -> Option<Seq<char>> {
    match code {
        // Letters
        16 => Some("q"@),
        17 => Some("w"@),
        18 => Some("e"@),
        19 => Some("r"@),
        20 => Some("t"@),
        21 => Some("y"@),
        22 => Some("u"@),
        23 => Some("i"@),
        24 => Some("o"@),
        25 => Some("p"@),
        30 => Some("a"@),
        31 => Some("s"@),
        32 => Some("d"@),
        33 => Some("f"@),
        34 => Some("g"@),
        35 => Some("h"@),
        36 => Some("j"@),
        37 => Some("k"@),
        38 => Some("l"@),
        44 => Some("z"@),
        45 => Some("x"@),
        46 => Some("c"@),
        47 => Some("v"@),
        48 => Some("b"@),
        49 => Some("n"@),
        50 => Some("m"@),
        // Digits
        2 => Some("1"@),
        3 => Some("2"@),
        4 => Some("3"@),
        5 => Some("4"@),
        6 => Some("5"@),
        7 => Some("6"@),
        8 => Some("7"@),
        9 => Some("8"@),
        10 => Some("9"@),
        11 => Some("0"@),
        // Function keys
        59 => Some("f1"@),
        60 => Some("f2"@),
        61 => Some("f3"@),
        62 => Some("f4"@),
        63 => Some("f5"@),
        64 => Some("f6"@),
        65 => Some("f7"@),
        66 => Some("f8"@),
        67 => Some("f9"@),
        68 => Some("f10"@),
        87 => Some("f11"@),
        88 => Some("f12"@),
        // Modifiers, left and right alike
        29 => Some("ctrl"@),
        97 => Some("ctrl"@),
        42 => Some("shift"@),
        54 => Some("shift"@),
        56 => Some("alt"@),
        100 => Some("alt"@),
        125 => Some("meta"@),
        126 => Some("meta"@),
        // Editing and navigation
        1 => Some("escape"@),
        14 => Some("backspace"@),
        15 => Some("tab"@),
        28 => Some("enter"@),
        57 => Some("space"@),
        58 => Some("capslock"@),
        111 => Some("delete"@),
        110 => Some("home"@),
        115 => Some("end"@),
        112 => Some("pageup"@),
        117 => Some("pagedown"@),
        // Arrows
        103 => Some("up"@),
        108 => Some("down"@),
        105 => Some("left"@),
        106 => Some("right"@),
        // Punctuation
        12 => Some("minus"@),
        13 => Some("equal"@),
        26 => Some("leftbracket"@),
        27 => Some("rightbracket"@),
        39 => Some("semicolon"@),
        40 => Some("apostrophe"@),
        41 => Some("grave"@),
        43 => Some("backslash"@),
        51 => Some("comma"@),
        52 => Some("dot"@),
        53 => Some("slash"@),
        // Keypad
        69 => Some("numlock"@),
        71 => Some("kp7"@),
        72 => Some("kp8"@),
        73 => Some("kp9"@),
        75 => Some("kp4"@),
        76 => Some("kp5"@),
        77 => Some("kp6"@),
        79 => Some("kp1"@),
        80 => Some("kp2"@),
        81 => Some("kp3"@),
        82 => Some("kp0"@),
        83 => Some("kpdot"@),
        78 => Some("kpplus"@),
        74 => Some("kpminus"@),
        55 => Some("kpasterisk"@),
        98 => Some("kpslash"@),
        96 => Some("kpenter"@),
        // System keys
        99 => Some("sysrq"@),
        119 => Some("pause"@),
        120 => Some("scrolllock"@),
        116 => Some("power"@),
        142 => Some("sleep"@),
        _ => None,
    }
}

/// The name of the key with this code: the one from the table, or `key`
/// followed by the code in decimal for a key that the table does not know.
pub open spec fn key_label(code: u16) -> Seq<char> {
    match table_name(code) {
        Some(name) => name,
        None => "key"@ + decimal(code as nat),
    }
}

/// Every name in the table is a plain name: lowercase ASCII letters and
/// digits, and not empty.
pub proof fn lemma_table_names_plain(code: u16)
    ensures
        table_name(code) matches Some(name) ==> is_plain_name(name),
{
    reveal_strlit("q");
    reveal_strlit("w");
    reveal_strlit("e");
    reveal_strlit("r");
    reveal_strlit("t");
    reveal_strlit("y");
    reveal_strlit("u");
    reveal_strlit("i");
    reveal_strlit("o");
    reveal_strlit("p");
    reveal_strlit("a");
    reveal_strlit("s");
    reveal_strlit("d");
    reveal_strlit("f");
    reveal_strlit("g");
    reveal_strlit("h");
    reveal_strlit("j");
    reveal_strlit("k");
    reveal_strlit("l");
    reveal_strlit("z");
    reveal_strlit("x");
    reveal_strlit("c");
    reveal_strlit("v");
    reveal_strlit("b");
    reveal_strlit("n");
    reveal_strlit("m");
    reveal_strlit("1");
    reveal_strlit("2");
    reveal_strlit("3");
    reveal_strlit("4");
    reveal_strlit("5");
    reveal_strlit("6");
    reveal_strlit("7");
    reveal_strlit("8");
    reveal_strlit("9");
    reveal_strlit("0");
    reveal_strlit("f1");
    reveal_strlit("f2");
    reveal_strlit("f3");
    reveal_strlit("f4");
    reveal_strlit("f5");
    reveal_strlit("f6");
    reveal_strlit("f7");
    reveal_strlit("f8");
    reveal_strlit("f9");
    reveal_strlit("f10");
    reveal_strlit("f11");
    reveal_strlit("f12");
    reveal_strlit("ctrl");
    reveal_strlit("shift");
    reveal_strlit("alt");
    reveal_strlit("meta");
    reveal_strlit("escape");
    reveal_strlit("backspace");
    reveal_strlit("tab");
    reveal_strlit("enter");
    reveal_strlit("space");
    reveal_strlit("capslock");
    reveal_strlit("delete");
    reveal_strlit("home");
    reveal_strlit("end");
    reveal_strlit("pageup");
    reveal_strlit("pagedown");
    reveal_strlit("up");
    reveal_strlit("down");
    reveal_strlit("left");
    reveal_strlit("right");
    reveal_strlit("minus");
    reveal_strlit("equal");
    reveal_strlit("leftbracket");
    reveal_strlit("rightbracket");
    reveal_strlit("semicolon");
    reveal_strlit("apostrophe");
    reveal_strlit("grave");
    reveal_strlit("backslash");
    reveal_strlit("comma");
    reveal_strlit("dot");
    reveal_strlit("slash");
    reveal_strlit("numlock");
    reveal_strlit("kp7");
    reveal_strlit("kp8");
    reveal_strlit("kp9");
    reveal_strlit("kp4");
    reveal_strlit("kp5");
    reveal_strlit("kp6");
    reveal_strlit("kp1");
    reveal_strlit("kp2");
    reveal_strlit("kp3");
    reveal_strlit("kp0");
    reveal_strlit("kpdot");
    reveal_strlit("kpplus");
    reveal_strlit("kpminus");
    reveal_strlit("kpasterisk");
    reveal_strlit("kpslash");
    reveal_strlit("kpenter");
    reveal_strlit("sysrq");
    reveal_strlit("pause");
    reveal_strlit("scrolllock");
    reveal_strlit("power");
    reveal_strlit("sleep");
}

/// The name of every key is a plain name, so it is not empty and is its
/// own canonical name.
pub proof fn lemma_key_label_canonical(code: u16)
    ensures
        is_plain_name(key_label(code)),
        key_name(key_label(code)) == key_label(code),
{
    lemma_table_names_plain(code);
    if table_name(code) is None {
        reveal_strlit("key");
        lemma_decimal_plain(code as nat);
        let digits = decimal(code as nat);
        let label = key_label(code);
        assert forall|i: int| 0 <= i < label.len() implies is_plain(#[trigger] label[i]) by {
            if i >= 3 {
                assert(label[i] == digits[i - 3]);
            }
        }
    }
    lemma_plain_name(key_label(code));
}

/// Looks the code up in the table.
pub fn lookup_name(code: u16) -> (r: Option<&'static str>)
    ensures
        r is Some == table_name(code) is Some,
        r matches Some(name) ==> Some(name@) == table_name(code),
{
    match code {
        // Letters
        16 => Some("q"),
        17 => Some("w"),
        18 => Some("e"),
        19 => Some("r"),
        20 => Some("t"),
        21 => Some("y"),
        22 => Some("u"),
        23 => Some("i"),
        24 => Some("o"),
        25 => Some("p"),
        30 => Some("a"),
        31 => Some("s"),
        32 => Some("d"),
        33 => Some("f"),
        34 => Some("g"),
        35 => Some("h"),
        36 => Some("j"),
        37 => Some("k"),
        38 => Some("l"),
        44 => Some("z"),
        45 => Some("x"),
        46 => Some("c"),
        47 => Some("v"),
        48 => Some("b"),
        49 => Some("n"),
        50 => Some("m"),
        // Digits
        2 => Some("1"),
        3 => Some("2"),
        4 => Some("3"),
        5 => Some("4"),
        6 => Some("5"),
        7 => Some("6"),
        8 => Some("7"),
        9 => Some("8"),
        10 => Some("9"),
        11 => Some("0"),
        // Function keys
        59 => Some("f1"),
        60 => Some("f2"),
        61 => Some("f3"),
        62 => Some("f4"),
        63 => Some("f5"),
        64 => Some("f6"),
        65 => Some("f7"),
        66 => Some("f8"),
        67 => Some("f9"),
        68 => Some("f10"),
        87 => Some("f11"),
        88 => Some("f12"),
        // Modifiers, left and right alike
        29 => Some("ctrl"),
        97 => Some("ctrl"),
        42 => Some("shift"),
        54 => Some("shift"),
        56 => Some("alt"),
        100 => Some("alt"),
        125 => Some("meta"),
        126 => Some("meta"),
        // Editing and navigation
        1 => Some("escape"),
        14 => Some("backspace"),
        15 => Some("tab"),
        28 => Some("enter"),
        57 => Some("space"),
        58 => Some("capslock"),
        111 => Some("delete"),
        110 => Some("home"),
        115 => Some("end"),
        112 => Some("pageup"),
        117 => Some("pagedown"),
        // Arrows
        103 => Some("up"),
        108 => Some("down"),
        105 => Some("left"),
        106 => Some("right"),
        // Punctuation
        12 => Some("minus"),
        13 => Some("equal"),
        26 => Some("leftbracket"),
        27 => Some("rightbracket"),
        39 => Some("semicolon"),
        40 => Some("apostrophe"),
        41 => Some("grave"),
        43 => Some("backslash"),
        51 => Some("comma"),
        52 => Some("dot"),
        53 => Some("slash"),
        // Keypad
        69 => Some("numlock"),
        71 => Some("kp7"),
        72 => Some("kp8"),
        73 => Some("kp9"),
        75 => Some("kp4"),
        76 => Some("kp5"),
        77 => Some("kp6"),
        79 => Some("kp1"),
        80 => Some("kp2"),
        81 => Some("kp3"),
        82 => Some("kp0"),
        83 => Some("kpdot"),
        78 => Some("kpplus"),
        74 => Some("kpminus"),
        55 => Some("kpasterisk"),
        98 => Some("kpslash"),
        96 => Some("kpenter"),
        // System keys
        99 => Some("sysrq"),
        119 => Some("pause"),
        120 => Some("scrolllock"),
        116 => Some("power"),
        142 => Some("sleep"),
        _ => None,
    }
}

/// The name of the key with this code. Every code has a name: one that the
/// table does not list is called `key` followed by its number.
pub fn key_to_name(code: u16) -> (name: String)
    ensures
        name@ == key_label(code),
{
    match lookup_name(code) {
        Some(name) => name.to_owned(),
        None => {
            let mut name = "key".to_owned();
            push_decimal(&mut name, code as u64);
            name
        },
    }
}

} // verus!
