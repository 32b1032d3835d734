//! Relaying key combinations of a duckyPad to commands.
//!
//! A capture daemon owns the input device, keeps track of the keys that are
//! held and reports each new combination; a relay service takes the
//! reports, debounces them and runs the command that is configured for the
//! combination. This library holds what the two decide: key names and
//! combinations in canonical form, the debounce ledger, the command map,
//! the handling of a request, the messages on the wire, and how a command
//! is started. Reading devices and sockets is left to the programs
//! around it.

pub mod assoc;
pub mod capture;
pub mod codec;
pub mod combo;
pub mod commands;
pub mod debounce;
pub mod executor;
pub mod keytable;
pub mod order;
pub mod service;
pub mod startup;
pub mod text;

pub use combo::{normalize, parse_key_combination, KeyCombination};
pub use commands::{CommandMap, CommandMapping, Config};
pub use debounce::DebounceLedger;
pub use service::{KeystrokeError, KeystrokeService, SendKeysOutcome, SendKeysResponse, VARLINK_SOCKET};
