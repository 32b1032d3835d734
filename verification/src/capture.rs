//! The capture daemon's decisions: which device is the duckyPad, which keys
//! are held, and when a combination is sent to the relay service.

use std::collections::HashSet;
use vstd::prelude::*;
use vstd::std_specs::iter::IteratorSpec;
use crate::combo::{canonical, combination_of, is_canonical, key_names, lemma_canonical, lemma_canonical_fixed, name_set, normalized, KeyCombination};
use crate::keytable::{key_label, key_to_name, lemma_key_label_canonical};
use crate::text::key_name;

verus! {

/// The stable path under which the device may be found.
pub const DUCKYPAD_SYMLINK: &'static str = "/dev/input/duckypad";

/// The vendor identifier of the duckyPad.
pub const DUCKYPAD_VENDOR_ID: u16 = 0x0483;

/// The product identifier of the duckyPad.
pub const DUCKYPAD_PRODUCT_ID: u16 = 0xD11C;

/// The type of the events that report keys.
pub const EVENT_TYPE_KEY: u16 = 0x01;

/// The value of a key event that reports a release.
pub const KEY_RELEASED: i32 = 0;

/// The value of a key event that reports a press.
pub const KEY_PRESSED: i32 = 1;

/// The identifiers by which an input device is told from others.
#[derive(Clone, Copy, Debug, PartialEq, Eq, Structural)]
pub struct DeviceId {
    pub vendor: u16,
    pub product: u16,
}

/// Where the duckyPad was found.
#[derive(Clone, Copy, Debug, PartialEq, Eq, Structural)]
pub enum DeviceChoice {
    /// The device behind the stable path.
    Symlink,
    /// The device at this place among the scanned ones.
    Scanned(usize),
    /// No device matches.
    NotFound,
}

/// Whether these identifiers are those of the duckyPad.
pub open spec fn matches_duckypad(id: DeviceId) -> bool {
    id.vendor == DUCKYPAD_VENDOR_ID && id.product == DUCKYPAD_PRODUCT_ID
}

/// Whether these identifiers are those of the duckyPad.
pub fn is_duckypad(id: DeviceId) -> (b: bool)
    ensures
        b == matches_duckypad(id),
{
    id.vendor == DUCKYPAD_VENDOR_ID && id.product == DUCKYPAD_PRODUCT_ID
}

/// Picks the duckyPad. `symlink` holds the identifiers of the device
/// behind the stable path, where that path exists and could be opened;
/// `scanned` holds those of all input devices, in the order of the scan.
/// The device behind the stable path is taken if it matches, else the
/// first scanned device that does.
pub fn find_duckypad_device(symlink: Option<DeviceId>, scanned: &Vec<DeviceId>) -> (choice:
    DeviceChoice)
    ensures
        choice == DeviceChoice::Symlink <==> symlink is Some && matches_duckypad(symlink->0),
        choice matches DeviceChoice::Scanned(i) ==> {
            &&& i < scanned@.len()
            &&& matches_duckypad(scanned@[i as int])
            &&& forall|j: int| 0 <= j < i ==> !matches_duckypad(#[trigger] scanned@[j])
        },
        choice == DeviceChoice::NotFound ==> forall|j: int|
            0 <= j < scanned@.len() ==> !matches_duckypad(#[trigger] scanned@[j]),
{
    if let Some(id) = symlink {
        if is_duckypad(id) {
            return DeviceChoice::Symlink;
        }
    }
    let mut i: usize = 0;
    while i < scanned.len()
        invariant
            i <= scanned@.len(),
            !(symlink is Some && matches_duckypad(symlink->0)),
            forall|j: int| 0 <= j < i ==> !matches_duckypad(#[trigger] scanned@[j]),
        decreases scanned@.len() - i,
    {
        if is_duckypad(scanned[i]) {
            return DeviceChoice::Scanned(i);
        }
        i += 1;
    }
    DeviceChoice::NotFound
}

/// The names of the held keys, as a set.
pub open spec fn held_names(held: Set<u16>) -> Set<Seq<char>> {
    Set::new(|n: Seq<char>| exists|code: u16| held.contains(code) && #[trigger] key_label(code) == n)
}

/// The combination that the held keys form: their names, ascending, each
/// once.
pub open spec fn held_combination(held: Set<u16>) -> Seq<Seq<char>> {
    combination_of(held_names(held))
}

/// What one input event does to the held keys and what it sends: the set
/// of held keys afterwards, and the combination to send, if any. Only key
/// events count. A press of a key that was not held adds it and sends the
/// combination of all held keys; a release removes the key; a repeated
/// press, an auto-repeat or any other value changes and sends nothing.
pub open spec fn capture_step(held: Set<u16>, event_type: u16, code: u16, value: i32) -> (
    Set<u16>,
    Option<Seq<Seq<char>>>,
) {
    if event_type != EVENT_TYPE_KEY {
        (held, None)
    } else if value == KEY_PRESSED {
        if held.contains(code) {
            (held, None)
        } else {
            (held.insert(code), Some(held_combination(held.insert(code))))
        }
    } else if value == KEY_RELEASED {
        (held.remove(code), None)
    } else {
        (held, None)
    }
}

/// The names of a listing of the held keys are the names of the held keys.
proof fn lemma_labels(codes: Seq<u16>, held: Set<u16>)
    requires
        codes.to_set() == held,
    ensures
        name_set(codes.map_values(|code: u16| key_label(code))) == held_names(held),
{
    let labels = codes.map_values(|code: u16| key_label(code));
    assert forall|n: Seq<char>| name_set(labels).contains(n) <==> held_names(held).contains(
        n,
    ) by {
        if labels.contains(n) {
            let k = choose|k: int| 0 <= k < labels.len() && labels[k] == n;
            assert(codes.to_set().contains(codes[k]));
            assert(key_label(codes[k]) == n);
        }
        if exists|code: u16| held.contains(code) && #[trigger] key_label(code) == n {
            let code = choose|code: u16| held.contains(code) && #[trigger] key_label(code) == n;
            assert(codes.to_set().contains(code));
            let k = choose|k: int| 0 <= k < codes.len() && codes[k] == code;
            assert(labels[k] == n);
            lemma_key_label_canonical(code);
        }
    }
    assert(name_set(labels) =~= held_names(held));
}

/// What the capture daemon sends is in the form to which the relay service
/// normalizes: for any keys held, their combination is canonical, and
/// normalizing it gives it back unchanged.
pub proof fn lemma_sent_combination_is_normal(held: Set<u16>)
    requires
        held.finite(),
    ensures
        is_canonical(held_combination(held)),
        normalized(held_combination(held)) == held_combination(held),
{
    let codes = held.to_seq();
    held.lemma_to_seq_to_set_id();
    lemma_labels(codes, held);
    lemma_canonical(codes.map_values(|code: u16| key_label(code)));
    let sent = held_combination(held);
    assert forall|i: int| 0 <= i < sent.len() implies key_name(#[trigger] sent[i]) == sent[i] by {
        assert(sent.contains(sent[i]));
        assert(held_names(held).contains(sent[i]));
        let code = choose|code: u16| held.contains(code) && #[trigger] key_label(code) == sent[i];
        lemma_key_label_canonical(code);
    }
    assert(key_names(sent) =~= sent);
    lemma_canonical_fixed(sent);
}

/// The combination that the held keys form. Two keys of one name, such as
/// the left and the right `ctrl`, count once.
pub fn get_key_names(keys: &HashSet<u16>) -> (names: KeyCombination)
    ensures
        names@ == held_combination(keys@),
{
    broadcast use vstd::std_specs::hash::group_hash_axioms;

    let mut list: Vec<String> = Vec::new();
    let it = keys.iter();
    let ghost all = it.remaining();
    for code in iter: it
        invariant
            iter.seq() == all,
            list@.len() == iter.index(),
            forall|k: int| 0 <= k < list@.len() ==> (#[trigger] list@[k])@ == key_label(*all[k]),
    {
        list.push(key_to_name(*code));
    }
    proof {
        assert(list.deep_view() =~= all.unref().map_values(|code: u16| key_label(code)));
        lemma_labels(all.unref(), keys@);
    }
    KeyCombination::from_names(list)
}

/// The keys that are held down at the moment.
pub struct CaptureState {
    held: HashSet<u16>,
}

impl View for CaptureState {
    type V = Set<u16>;

    closed spec fn view(&self) -> Set<u16> {
        self.held@
    }
}

impl CaptureState {
    /// The state in which no key is held.
    pub fn new() -> (state: CaptureState)
        ensures
            state@ == Set::<u16>::empty(),
    {
        CaptureState { held: HashSet::new() }
    }

    /// Whether the key with this code is held.
    pub fn is_held(&self, code: u16) -> (b: bool)
        ensures
            b == self@.contains(code),
    {
        broadcast use vstd::std_specs::hash::group_hash_axioms;

        self.held.contains(&code)
    }

    /// The combination that the held keys form.
    pub fn combination(&self) -> (names: KeyCombination)
        ensures
            names@ == held_combination(self@),
    {
        get_key_names(&self.held)
    }

    /// Takes in one input event, given by its type, the code of its key
    /// and its value, and says which combination is to be sent to the
    /// relay service, if any.
    pub fn on_event(&mut self, event_type: u16, code: u16, value: i32) -> (send: Option<
        KeyCombination,
    >)
        ensures
            final(self)@ == capture_step(old(self)@, event_type, code, value).0,
            send is Some == capture_step(old(self)@, event_type, code, value).1 is Some,
            send matches Some(names) ==> Some(names@) == capture_step(
                old(self)@,
                event_type,
                code,
                value,
            ).1,
    {
        broadcast use vstd::std_specs::hash::group_hash_axioms;

        if event_type != EVENT_TYPE_KEY {
            return None;
        }
        if value == KEY_PRESSED {
            if self.held.insert(code) {
                Some(get_key_names(&self.held))
            } else {
                None
            }
        } else if value == KEY_RELEASED {
            self.held.remove(&code);
            None
        } else {
            None
        }
    }
}

} // verus!
