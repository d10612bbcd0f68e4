//! The handles and calls the engines need from the operating system: the
//! child-process types that records own, and signal delivery.

use vstd::prelude::*;

verus! {

#[verifier::external_type_specification]
#[verifier::external_body]
pub struct ExChild(tokio::process::Child);

#[verifier::external_type_specification]
#[verifier::external_body]
pub struct ExChildStdin(tokio::process::ChildStdin);

/// The signal names a kill request may carry; unknown names fall back to
/// `SIGKILL`.
#[derive(Clone, Copy, Debug, PartialEq, Eq, Structural)]
pub enum SignalName {
    Term,
    Int,
    Hup,
    Kill,
}

/// Relies on nix::sys::signal::kill: delivers the signal to the process
/// with the given pid, or reports the OS errno. Whether delivery succeeds
/// depends on the process table, so nothing is promised of the outcome.
#[verifier::external_body]
pub fn send_signal(pid: u32, signal: SignalName) -> Result<(), i32> {
    let sig = match signal {
        SignalName::Term => nix::sys::signal::Signal::SIGTERM,
        SignalName::Int => nix::sys::signal::Signal::SIGINT,
        SignalName::Hup => nix::sys::signal::Signal::SIGHUP,
        SignalName::Kill => nix::sys::signal::Signal::SIGKILL,
    };
    nix::sys::signal::kill(nix::unistd::Pid::from_raw(pid as i32), sig).map_err(|e| e as i32)
}

} // verus!
