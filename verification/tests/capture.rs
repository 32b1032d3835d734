use ducky_relay::capture::{
    find_duckypad_device, get_key_names, is_duckypad, CaptureState, DeviceChoice, DeviceId, DUCKYPAD_PRODUCT_ID,
    DUCKYPAD_SYMLINK, DUCKYPAD_VENDOR_ID, EVENT_TYPE_KEY, KEY_PRESSED, KEY_RELEASED,
};
use std::collections::HashSet;

const CTRL: u16 = 29;
const RIGHT_CTRL: u16 = 97;
const C: u16 = 46;

fn strings(items: &[&str]) -> Vec<String> {
    items.iter().map(|s| s.to_string()).collect()
}

fn pad() -> DeviceId {
    DeviceId { vendor: 0x0483, product: 0xD11C }
}

fn other() -> DeviceId {
    DeviceId { vendor: 0x046d, product: 0xc31c }
}

#[test]
fn duckypad_is_known_by_vendor_and_product() {
    assert_eq!(DUCKYPAD_VENDOR_ID, 0x0483);
    assert_eq!(DUCKYPAD_PRODUCT_ID, 0xD11C);
    assert_eq!(DUCKYPAD_SYMLINK, "/dev/input/duckypad");
    assert!(is_duckypad(pad()));
    assert!(!is_duckypad(other()));
    assert!(!is_duckypad(DeviceId { vendor: 0x0483, product: 0 }));
    assert!(!is_duckypad(DeviceId { vendor: 0, product: 0xD11C }));
}

#[test]
fn symlink_is_preferred_when_it_matches() {
    assert_eq!(find_duckypad_device(Some(pad()), &vec![pad(), other()]), DeviceChoice::Symlink);
    assert_eq!(find_duckypad_device(Some(pad()), &vec![]), DeviceChoice::Symlink);
}

#[test]
fn scan_is_the_fallback() {
    assert_eq!(find_duckypad_device(None, &vec![other(), pad(), pad()]), DeviceChoice::Scanned(1));
    assert_eq!(find_duckypad_device(Some(other()), &vec![pad()]), DeviceChoice::Scanned(0));
    assert_eq!(find_duckypad_device(Some(other()), &vec![other(), other(), pad()]), DeviceChoice::Scanned(2));
}

#[test]
fn no_matching_device_is_not_found() {
    assert_eq!(find_duckypad_device(None, &vec![]), DeviceChoice::NotFound);
    assert_eq!(find_duckypad_device(Some(other()), &vec![other()]), DeviceChoice::NotFound);
}

#[test]
fn ctrl_c_is_sent_once_on_the_second_press() {
    let mut state = CaptureState::new();
    let mut sent = Vec::new();
    let events = [(CTRL, KEY_PRESSED), (C, KEY_PRESSED), (C, KEY_RELEASED), (CTRL, KEY_RELEASED)];
    for (step, (code, value)) in events.iter().enumerate() {
        if let Some(names) = state.on_event(EVENT_TYPE_KEY, *code, *value) {
            sent.push((step, names.to_vec()));
        }
    }
    let ctrl_c: Vec<_> = sent.iter().filter(|(_, names)| *names == strings(&["c", "ctrl"])).collect();
    assert_eq!(ctrl_c.len(), 1);
    assert_eq!(ctrl_c[0].0, 1);
    assert_eq!(sent, vec![(0, strings(&["ctrl"])), (1, strings(&["c", "ctrl"]))]);
    assert!(!state.is_held(CTRL));
    assert!(!state.is_held(C));
}

#[test]
fn repeated_press_sends_nothing() {
    let mut state = CaptureState::new();
    assert!(state.on_event(EVENT_TYPE_KEY, C, KEY_PRESSED).is_some());
    assert!(state.on_event(EVENT_TYPE_KEY, C, KEY_PRESSED).is_none());
    assert!(state.on_event(EVENT_TYPE_KEY, C, 2).is_none());
    assert!(state.is_held(C));
    assert!(state.on_event(EVENT_TYPE_KEY, C, KEY_RELEASED).is_none());
    assert!(!state.is_held(C));
    assert!(state.on_event(EVENT_TYPE_KEY, C, KEY_PRESSED).is_some());
}

#[test]
fn other_events_are_ignored() {
    let mut state = CaptureState::new();
    for event_type in [0u16, 2, 3, 4, 0x11, 0x14] {
        assert!(state.on_event(event_type, C, KEY_PRESSED).is_none());
        assert!(!state.is_held(C));
    }
    assert!(state.on_event(EVENT_TYPE_KEY, C, KEY_PRESSED).is_some());
    assert!(state.on_event(0, C, KEY_RELEASED).is_none());
    assert!(state.is_held(C));
    for value in [-1, 2, 3, i32::MAX] {
        assert!(state.on_event(EVENT_TYPE_KEY, CTRL, value).is_none());
        assert!(!state.is_held(CTRL));
    }
}

#[test]
fn release_of_a_key_that_is_not_held_is_harmless() {
    let mut state = CaptureState::new();
    assert!(state.on_event(EVENT_TYPE_KEY, C, KEY_RELEASED).is_none());
    assert!(state.combination().is_empty());
}

#[test]
fn left_and_right_ctrl_count_once() {
    let mut state = CaptureState::new();
    assert_eq!(state.on_event(EVENT_TYPE_KEY, CTRL, KEY_PRESSED).unwrap().to_vec(), strings(&["ctrl"]));
    assert_eq!(state.on_event(EVENT_TYPE_KEY, RIGHT_CTRL, KEY_PRESSED).unwrap().to_vec(), strings(&["ctrl"]));
    assert_eq!(state.combination().to_vec(), strings(&["ctrl"]));
}

#[test]
fn held_keys_are_named_and_sorted() {
    let mut held = HashSet::new();
    for code in [42u16, 30, 59, 200, 125] {
        held.insert(code);
    }
    assert_eq!(get_key_names(&held).to_vec(), strings(&["a", "f1", "key200", "meta", "shift"]));
    assert!(get_key_names(&HashSet::new()).is_empty());
}
