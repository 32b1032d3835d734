//! The relay service: what a `SendKeys` request does to the state of the
//! service, what it answers, and which script, if any, is to be run.

use vstd::prelude::*;
use crate::combo::{normalize, normalized};
use crate::commands::{CommandMap, Commands};
use crate::debounce::{ledger_after, triggers, DebounceLedger, Ledger, DEBOUNCE_MILLIS};
use crate::text::{is_blank, key_name};

verus! {

/// The path of the socket on which the relay service listens.
pub const VARLINK_SOCKET: &'static str = "/run/duckycap.varlink";

/// The answer to a `SendKeys` request that was accepted.
#[derive(Debug, Clone)]
pub struct SendKeysResponse {
    /// Always true: the request was understood.
    pub success: bool,
    /// The combination in canonical form.
    pub keys: Vec<String>,
    /// Whether the request was a press that triggered. False for a
    /// release and for a press that the debounce window absorbed.
    pub pressed: bool,
}

/// The errors of the keystroke interface.
#[derive(Debug, Clone, PartialEq)]
pub enum KeystrokeError {
    /// The request named no key.
    InvalidKey { message: String },
}

/// A script to be run in the background as the configured user.
#[derive(Debug, Clone)]
pub struct Dispatch {
    /// The user as whom to run the script.
    pub user: String,
    /// The path of the script.
    pub script: String,
}

/// What an accepted request leads to: the answer for the caller and, where
/// a mapped combination triggered, the script to run.
#[derive(Debug, Clone)]
pub struct SendKeysOutcome {
    /// The answer for the caller.
    pub response: SendKeysResponse,
    /// The script to run, if any. The caller starts it without waiting
    /// for it.
    pub dispatch: Option<Dispatch>,
}

/// The text of the error for a request without keys.
pub open spec fn empty_keys_message() -> Seq<char> {
    "Keys list cannot be empty"@
}

/// The script that a request for `combo` leads to: the one that `combo` is
/// mapped to where the request triggered, none otherwise.
pub open spec fn script_for(commands: Commands, combo: Seq<Seq<char>>, fired: bool) -> Option<
    Seq<char>,
> {
    if fired && commands.dom().contains(combo) {
        Some(commands[combo])
    } else {
        None
    }
}

/// The count of requests after one more, which stops at the largest
/// number.
pub open spec fn count_after(count: u64) -> u64 {
    if count < u64::MAX {
        (count + 1) as u64
    } else {
        count
    }
}

/// What one request does, seen from outside: how the service after the
/// request and the answer `r` stand to the service before it, for the keys
/// as sent, for `pressed` and for the time `now` at which the request
/// arrived.
///
/// The user, the mappings and the window never change. A request whose
/// keys all have an empty canonical name, as blank keys have, is refused
/// with `InvalidKey` and changes nothing. Any other request is accepted
/// and counted, and answered with the combination in canonical form. A
/// release changes nothing else, is answered with `pressed` false and
/// runs nothing. A press goes through the debounce ledger and is answered
/// with whether it triggered; it runs the script of its combination where
/// it triggered and the combination is mapped, and nothing otherwise. A
/// combination without a mapping never runs anything.
pub open spec fn request_outcome(
    before: KeystrokeService,
    after: KeystrokeService,
    keys: Seq<Seq<char>>,
    pressed: bool,
    now: u64,
    r: Result<SendKeysOutcome, KeystrokeError>,
) -> bool {
    let combo = normalized(keys);
    let fired = triggers(before.ledger(), combo, now, before.window());
    &&& after.user() == before.user()
    &&& after.commands() == before.commands()
    &&& after.window() == before.window()
    &&& r is Err <==> combo.len() == 0
    &&& r is Err <==> forall|i: int| 0 <= i < keys.len() ==> key_name(#[trigger] keys[i]).len() == 0
    &&& (forall|i: int| 0 <= i < keys.len() ==> is_blank(#[trigger] keys[i])) ==> r is Err
    &&& r matches Err(e) ==> {
        &&& e matches KeystrokeError::InvalidKey { message }
        &&& message@ == empty_keys_message()
        &&& after.ledger() == before.ledger()
        &&& after.count() == before.count()
    }
    &&& r matches Ok(out) ==> {
        &&& out.response.success
        &&& out.response.keys.deep_view() == combo
        &&& after.count() == count_after(before.count())
        &&& !before.commands().dom().contains(combo) ==> out.dispatch is None
        &&& !pressed ==> {
            &&& !out.response.pressed
            &&& out.dispatch is None
            &&& after.ledger() == before.ledger()
        }
        &&& pressed ==> {
            &&& out.response.pressed == fired
            &&& after.ledger() == ledger_after(before.ledger(), combo, now, before.window())
            &&& out.dispatch is Some == script_for(before.commands(), combo, fired) is Some
            &&& out.dispatch matches Some(d) ==> d.user@ == before.user() && Some(d.script@)
                == script_for(before.commands(), combo, fired)
        }
    }
}

/// The point in time of `std::time::Instant`, carried through as it is.
#[verifier::external_type_specification]
#[verifier::external_body]
pub struct ExInstant(std::time::Instant);

/// `Instant::now`: the present moment. Nothing is claimed of it.
#[verifier::external_body]
fn instant_now() -> (now: std::time::Instant) {
    std::time::Instant::now()
}

/// `Instant::elapsed`: the time that has passed since `start`. Nothing is
/// claimed of it.
#[verifier::external_body]
fn instant_elapsed(start: &std::time::Instant) -> (passed: std::time::Duration) {
    start.elapsed()
}

/// `Duration::as_millis`: the whole milliseconds in `d`. Nothing is
/// claimed of the number.
#[verifier::external_body]
fn duration_millis(d: &std::time::Duration) -> (millis: u128) {
    d.as_millis()
}

/// The state of the relay service.
pub struct KeystrokeService {
    keystroke_count: u64,
    user: String,
    commands: CommandMap,
    last_triggered: DebounceLedger,
    started: std::time::Instant,
}

impl KeystrokeService {
    /// The number of requests accepted so far.
    pub closed spec fn count(&self) -> u64 {
        self.keystroke_count
    }

    /// The user as whom scripts run.
    pub closed spec fn user(&self) -> Seq<char> {
        self.user@
    }

    /// The configured mappings.
    pub closed spec fn commands(&self) -> Commands {
        self.commands@
    }

    /// The debounce ledger.
    pub closed spec fn ledger(&self) -> Ledger {
        self.last_triggered@
    }

    /// The debounce window.
    pub closed spec fn window(&self) -> u64 {
        self.last_triggered.window()
    }

    /// A service for `user` and `commands` with the default debounce
    /// window, which has seen no request yet.
    pub fn new(user: String, commands: CommandMap) -> (service: KeystrokeService)
        ensures
            service.count() == 0,
            service.user() == user@,
            service.commands() == commands@,
            service.ledger() == Map::<Seq<Seq<char>>, u64>::empty(),
            service.window() == DEBOUNCE_MILLIS,
    {
        KeystrokeService::with_window(user, commands, DEBOUNCE_MILLIS)
    }

    /// A service for `user` and `commands` with the given debounce
    /// window, in milliseconds.
    pub fn with_window(user: String, commands: CommandMap, window: u64) -> (service:
        KeystrokeService)
        ensures
            service.count() == 0,
            service.user() == user@,
            service.commands() == commands@,
            service.ledger() == Map::<Seq<Seq<char>>, u64>::empty(),
            service.window() == window,
    {
        KeystrokeService {
            keystroke_count: 0,
            user,
            commands,
            last_triggered: DebounceLedger::new(window),
            started: instant_now(),
        }
    }

    /// The number of requests accepted so far.
    pub fn keystroke_count(&self) -> (n: u64)
        ensures
            n == self.count(),
    {
        self.keystroke_count
    }

    /// The user as whom scripts run.
    pub fn user_name(&self) -> (name: &String)
        ensures
            name@ == self.user(),
    {
        &self.user
    }

    /// The configured mappings.
    pub fn command_map(&self) -> (map: &CommandMap)
        ensures
            map@ == self.commands(),
    {
        &self.commands
    }

    /// The debounce ledger.
    pub fn debounce_ledger(&self) -> (ledger: &DebounceLedger)
        ensures
            ledger@ == self.ledger(),
            ledger.window() == self.window(),
    {
        &self.last_triggered
    }

    /// The time on the clock of this service: the milliseconds since it
    /// was made, as far as a `u64` holds them.
    fn clock_millis(&self) -> (now: u64) {
        let passed = instant_elapsed(&self.started);
        let millis = duration_millis(&passed);
        if millis > u64::MAX as u128 {
            u64::MAX
        } else {
            millis as u64
        }
    }

    /// Handles one `SendKeys` request that arrives now: reads the clock of
    /// the service and handles the request as [`Self::send_keys_at`] does
    /// for that time.
    pub fn send_keys(&mut self, keys: Vec<String>, pressed: bool) -> (r: Result<
        SendKeysOutcome,
        KeystrokeError,
    >)
        ensures
            exists|now: u64| #[trigger]
                request_outcome(*old(self), *final(self), keys.deep_view(), pressed, now, r),
            (forall|i: int| 0 <= i < keys@.len() ==> is_blank(#[trigger] keys@[i]@)) ==> r is Err,
            !pressed ==> final(self).ledger() == old(self).ledger(),
            !pressed ==> (r matches Ok(out) ==> out.dispatch is None),
            !old(self).commands().dom().contains(normalized(keys.deep_view())) ==> (r matches Ok(
                out,
            ) ==> out.response.success && out.dispatch is None),
    {
        let now = self.clock_millis();
        self.send_keys_at(keys, pressed, now)
    }

    /// Handles one `SendKeys` request that arrived at time `now`, in
    /// milliseconds on a clock that does not go back.
    ///
    /// The keys are normalized. A request that names no key, or only blank
    /// ones, is refused with `InvalidKey` and changes nothing. A release
    /// is acknowledged and changes nothing but the count of requests. A
    /// press goes through the debounce ledger: absorbed, it is answered
    /// with `pressed` false; triggering, it is answered with `pressed`
    /// true and, where the combination is mapped, hands back the script
    /// to run.
    pub fn send_keys_at(&mut self, keys: Vec<String>, pressed: bool, now: u64) -> (r: Result<
        SendKeysOutcome,
        KeystrokeError,
    >)
        ensures
            request_outcome(*old(self), *final(self), keys.deep_view(), pressed, now, r),
            (forall|i: int| 0 <= i < keys@.len() ==> is_blank(#[trigger] keys@[i]@)) ==> r is Err,
            !pressed ==> final(self).ledger() == old(self).ledger(),
            !pressed ==> (r matches Ok(out) ==> out.dispatch is None),
            !old(self).commands().dom().contains(normalized(keys.deep_view())) ==> (r matches Ok(
                out,
            ) ==> out.response.success && out.dispatch is None),
    {
        let ghost raw = keys.deep_view();
        proof {
            assert forall|i: int| 0 <= i < keys@.len() implies raw[i] == (#[trigger] keys@[i])@ by {}
        }
        let combo = normalize(&keys);
        if combo.is_empty() {
            return Err(
                KeystrokeError::InvalidKey { message: "Keys list cannot be empty".to_owned() },
            );
        }
        if self.keystroke_count < u64::MAX {
            self.keystroke_count = self.keystroke_count + 1;
        }
        if !pressed {
            return Ok(
                SendKeysOutcome {
                    response: SendKeysResponse {
                        success: true,
                        keys: combo.to_vec(),
                        pressed: false,
                    },
                    dispatch: None,
                },
            );
        }
        let fired = self.last_triggered.should_trigger(&combo, now);
        let dispatch = if fired {
            match self.commands.lookup(&combo) {
                Some(script) => Some(Dispatch { user: self.user.clone(), script: script.clone() }),
                None => None,
            }
        } else {
            None
        };
        Ok(
            SendKeysOutcome {
                response: SendKeysResponse { success: true, keys: combo.to_vec(), pressed: fired },
                dispatch,
            },
        )
    }
}

} // verus!
