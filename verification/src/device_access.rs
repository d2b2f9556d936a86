//! The privileged opener: decides how a device node gets opened when
//! direct access is denied.
//!
//! The direct open, the filesystem status query and the session-service
//! round trip are operating-system work performed by the enclosing
//! process; each of their outcomes is handed back in here and the next
//! step is decided by verified code.  A permission-class failure escalates
//! through the session service, keyed by the device's system device
//! number; any other failure is final and never reaches the service.

use vstd::prelude::*;

use crate::error::Illusion;
use crate::udev::RawFd;
use vstd::string::StringExecFns;

verus! {

/// How the operating system reported a failed open.
#[derive(Clone, Copy, PartialEq, Eq, Structural, Debug)]
pub enum OsOpenError {
    /// Access was denied by the node's permissions.
    PermissionDenied,
    /// The operation was not permitted to this process.
    NotPermitted,
    /// Any other system error, by its error number.
    Other(i32),
    /// The path could not name an entry at all.
    InvalidPath,
}

/// The opener's decision after the direct open attempt.
#[derive(Debug)]
pub enum OpenFollowUp {
    /// The open is settled: a descriptor, or a final error.  The session
    /// service is not consulted.
    Done(Result<RawFd, Illusion>),
    /// Permission-class failure: query the path's device number next and
    /// continue with `resolve_stat`.
    QueryDeviceNumber,
}

/// The opener's decision after the device-number query.
#[derive(Debug)]
pub enum StatFollowUp {
    /// The open is settled with a final error.
    Done(Result<RawFd, Illusion>),
    /// Ask the session service to take the device with this number; its
    /// answer settles the open through `finish_escalation`.
    TakeDevice(u64),
}

/// The text of the error reported for a path that names no entry.
pub open spec fn invalid_path_message(path: Seq<char>) -> Seq<char> {
    "Path '"@ + path + "' does not exist!"@
}

/// The text of the error reported when the device-number query fails.
pub open spec fn stat_failure_message(path: Seq<char>) -> Seq<char> {
    "Could not stat file '"@ + path + "'"@
}

/// The description text that the operating-system interface associates
/// with a system error number.
pub uninterp spec fn errno_description_of(code: int) -> Seq<char>;

/// Relies on nix's `Errno::from_raw` and `Errno::desc`: the first maps an
/// error number to the matching `Errno` value, the second returns that
/// value's fixed description text.  Both are pure table lookups, so the
/// text depends on the number alone.
#[verifier::external_body]
fn errno_description(code: i32) -> (r: String)
    ensures
        r@ == errno_description_of(code as int),
{
    nix::errno::Errno::from_raw(code).desc().to_owned()
}

/// The session-service IPC channel: created unconnected, connected at
/// most once at startup, read-only afterwards.
pub struct Ipc {
    connected: bool,
}

impl Ipc {
    /// Whether the channel was established.
    pub closed spec fn is_connected(&self) -> bool {
        self.connected
    }

    /// Constructs the channel state, not yet connected.
    pub fn new() -> (r: Ipc)
        ensures
            !r.is_connected(),
    {
        Ipc { connected: false }
    }

    /// Records the outcome of the enclosing process's attempt to establish
    /// the channel and passes it through.
    pub fn initialize(&mut self, outcome: Result<(), Illusion>) -> (r: Result<(), Illusion>)
        ensures
            final(self).is_connected() == (outcome is Ok),
            r == outcome,
    {
        self.connected = outcome.is_ok();
        outcome
    }
}

/// Opens device nodes, escalating through the session service when direct
/// access is denied.
pub struct RestrictedOpener {
    ipc: Ipc,
}

impl RestrictedOpener {
    /// Whether the session channel was established at startup.
    pub closed spec fn ipc_connected(&self) -> bool {
        self.ipc.is_connected()
    }

    /// Constructs a new `RestrictedOpener` with an unconnected session
    /// channel.
    pub fn new() -> (r: RestrictedOpener)
        ensures
            !r.ipc_connected(),
    {
        RestrictedOpener { ipc: Ipc::new() }
    }

    /// Records the outcome of establishing the session channel.  Failure
    /// is non-fatal: direct opens are unaffected and each later
    /// escalation simply fails on its own.
    pub fn initialize_ipc(&mut self, outcome: Result<(), Illusion>) -> (r: Result<(), Illusion>)
        ensures
            final(self).ipc_connected() == (outcome is Ok),
            r == outcome,
    {
        self.ipc.initialize(outcome)
    }

    /// Decides what follows the direct open attempt on `path`.  A
    /// descriptor settles the open at once.  A permission-class failure —
    /// access denied or operation not permitted — starts the escalation,
    /// asking for the path's device number.  Every other failure is final:
    /// an `InvalidArgument` error, and the session service is never
    /// consulted.
    pub fn open_restricted(&self, path: &str, outcome: Result<RawFd, OsOpenError>) -> (r:
        OpenFollowUp)
        ensures
            match outcome {
                Ok(fd) => r == OpenFollowUp::Done(Ok(fd)),
                Err(OsOpenError::PermissionDenied) => r == OpenFollowUp::QueryDeviceNumber,
                Err(OsOpenError::NotPermitted) => r == OpenFollowUp::QueryDeviceNumber,
                Err(OsOpenError::Other(code)) => r matches OpenFollowUp::Done(
                    Err(Illusion::InvalidArgument(d)),
                ) && d@ == errno_description_of(code as int),
                Err(OsOpenError::InvalidPath) => r matches OpenFollowUp::Done(
                    Err(Illusion::InvalidArgument(d)),
                ) && d@ == invalid_path_message(path@),
            },
    {
        match outcome {
            Ok(fd) => OpenFollowUp::Done(Ok(fd)),
            Err(OsOpenError::PermissionDenied) => OpenFollowUp::QueryDeviceNumber,
            Err(OsOpenError::NotPermitted) => OpenFollowUp::QueryDeviceNumber,
            Err(OsOpenError::Other(code)) => OpenFollowUp::Done(
                Err(Illusion::InvalidArgument(errno_description(code))),
            ),
            Err(OsOpenError::InvalidPath) => {
                let mut message = "Path '".to_owned();
                message.append(path);
                message.append("' does not exist!");
                OpenFollowUp::Done(Err(Illusion::InvalidArgument(message)))
            },
        }
    }

    /// Decides what follows the device-number query on `path`: ask the
    /// session service to take the device by that number, or settle with a
    /// `General` error describing the failed query.
    pub fn resolve_stat(&self, path: &str, rdev: Option<u64>) -> (r: StatFollowUp)
        ensures
            match rdev {
                Some(n) => r == StatFollowUp::TakeDevice(n),
                None => r matches StatFollowUp::Done(Err(Illusion::General(d))) && d@
                    == stat_failure_message(path@),
            },
    {
        match rdev {
            Some(n) => StatFollowUp::TakeDevice(n),
            None => {
                let mut message = "Could not stat file '".to_owned();
                message.append(path);
                message.append("'");
                StatFollowUp::Done(Err(Illusion::General(message)))
            },
        }
    }

    /// The session service's answer to the take-device request settles the
    /// open: its descriptor, or its error, propagated unchanged.
    pub fn finish_escalation(&self, ipc_result: Result<RawFd, Illusion>) -> (r: Result<
        RawFd,
        Illusion,
    >)
        ensures
            r == ipc_result,
    {
        ipc_result
    }
}

} // verus!
