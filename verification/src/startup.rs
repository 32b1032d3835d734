//! How the relay service comes by its listening socket.

use vstd::prelude::*;
use crate::text::{digits_value, parse_number};

verus! {

/// The first descriptor that a supervising process hands down.
pub const LISTEN_FDS_START: i32 = 3;

/// Where the listening socket comes from.
#[derive(Clone, Copy, Debug, PartialEq, Eq, Structural)]
pub enum ListenSource {
    /// A socket that is open already, handed down under this descriptor.
    Inherited { fd: i32 },
    /// A socket that the service binds itself, after it has removed what
    /// an earlier run left at the path.
    Bind,
}

/// Whether the environment says that a listening socket was handed down
/// to this very process: the process named is this one, and at least one
/// descriptor was passed. Each of the two values is taken as it stands in
/// the environment, where it is set; one that is no number says nothing.
pub open spec fn socket_inherited(
    listen_pid: Option<Seq<char>>,
    listen_fds: Option<Seq<char>>,
    own_pid: u32,
) -> bool {
    &&& listen_pid matches Some(pid)
    &&& listen_fds matches Some(count)
    &&& digits_value(pid) == Some(own_pid as int)
    &&& digits_value(count) matches Some(n)
    &&& 1 <= n <= u32::MAX
}

/// The view of a string that may not be there.
pub open spec fn text_of(s: Option<&str>) -> Option<Seq<char>> {
    match s {
        Some(text) => Some(text@),
        None => None,
    }
}

/// Decides once, at startup, where the listening socket comes from.
/// `listen_pid` and `listen_fds` are the two values from the environment,
/// where they are set; `own_pid` is this process.
pub fn listen_source(listen_pid: Option<&str>, listen_fds: Option<&str>, own_pid: u32) -> (source:
    ListenSource)
    ensures
        source == (if socket_inherited(text_of(listen_pid), text_of(listen_fds), own_pid) {
            ListenSource::Inherited { fd: LISTEN_FDS_START }
        } else {
            ListenSource::Bind
        }),
{
    match (listen_pid, listen_fds) {
        (Some(pid), Some(count)) => {
            match (parse_number(pid), parse_number(count)) {
                (Some(pid), Some(count)) => {
                    if pid == own_pid && count >= 1 {
                        ListenSource::Inherited { fd: LISTEN_FDS_START }
                    } else {
                        ListenSource::Bind
                    }
                },
                _ => ListenSource::Bind,
            }
        },
        _ => ListenSource::Bind,
    }
}

} // verus!
