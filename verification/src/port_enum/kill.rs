use vstd::prelude::*;

verus! {

/// How hard to ask a process to stop.
#[derive(Debug, Clone, Copy, PartialEq, Eq, Structural)]
pub enum KillSignal {
    /// A polite request (`SIGTERM`).
    Terminate,
    /// An immediate stop (`SIGKILL`).
    Kill,
}

/// What to send to the operating system to stop a process.
#[derive(Debug, Clone, Copy, PartialEq, Eq, Structural)]
pub struct KillRequest {
    /// The process id as the signal call takes it.
    pub pid: i32,
    pub signal: KillSignal,
}

/// The signal request for stopping `pid`: a forced kill when `force` is set,
/// a polite termination otherwise. The process id is reinterpreted as the
/// signed id that the signal call takes.
pub fn kill_request(pid: u32, force: bool) -> (req: KillRequest)
    ensures
        req.pid == pid as i32,
        req.signal == (if force {
            KillSignal::Kill
        } else {
            KillSignal::Terminate
        }),
{
    let signal = if force {
        KillSignal::Kill
    } else {
        KillSignal::Terminate
    };
    KillRequest { pid: pid as i32, signal }
}

/// A process id that fits in the signed range reaches the signal call
/// unchanged.
pub proof fn law_small_pid_unchanged(pid: u32)
    requires
        pid <= i32::MAX,
    ensures
        (pid as i32) as int == pid as int,
{
    assert((pid as i32) as int == pid as int) by (bit_vector)
        requires
            pid <= 0x7fff_ffffu32,
    ;
}

} // verus!
