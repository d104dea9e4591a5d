//! Session decisions: turning a raw read into a frame, classifying read
//! errors, the session phase machine, and the status-menu commands.
use vstd::prelude::*;
use vstd::string::StrSliceExecFns;
use crate::board::FRAME_LEN;

verus! {

broadcast use vstd::string::group_string_axioms;

/// A read this long carries a leading report identifier.
pub const REPORT_WITH_ID_LEN: usize = 65;

/// The 64-byte frame in a read of `len` bytes into `buf`: the bytes after the
/// report identifier when `len` is 65 or more, else the bytes read, padded with zeros.
pub open spec fn frame_of_read(buf: Seq<u8>, len: int) -> Seq<u8> {
    Seq::new(
        FRAME_LEN as nat,
        |k: int|
            if len >= REPORT_WITH_ID_LEN {
                buf[k + 1]
            } else if k < len {
                buf[k]
            } else {
                0u8
            },
    )
}

/// Builds the frame from a raw read (see `frame_of_read`).
pub fn frame_from_read(buf: &[u8], len: usize) -> (r: [u8; 64])
    requires
        len <= buf@.len(),
    ensures
        r@ == frame_of_read(buf@, len as int),
{
    let mut out = [0u8; 64];
    let mut k: usize = 0;
    while k < FRAME_LEN
        invariant
            k <= FRAME_LEN,
            len <= buf@.len(),
            forall|t: int| 0 <= t < k ==> out@[t] == frame_of_read(buf@, len as int)[t],
            forall|t: int| k <= t < FRAME_LEN ==> out@[t] == 0u8,
        decreases FRAME_LEN - k,
    {
        if len >= REPORT_WITH_ID_LEN {
            out[k] = buf[k + 1];
        } else if k < len {
            out[k] = buf[k];
        }
        k = k + 1;
    }
    assert(out@ =~= frame_of_read(buf@, len as int));
    out
}

/// `pat` occurs in `s` at position `i`.
pub open spec fn occurs_at(s: Seq<char>, pat: Seq<char>, i: int) -> bool {
    0 <= i && i + pat.len() <= s.len() && s.subrange(i, i + pat.len()) == pat
}

pub open spec fn contains_text_spec(s: Seq<char>, pat: Seq<char>) -> bool {
    exists|i: int| occurs_at(s, pat, i)
}

/// Whether `pat` occurs anywhere in `s`.
pub fn contains_text(s: &str, pat: &str) -> (r: bool)
    ensures
        r == contains_text_spec(s@, pat@),
{
    let n = s.unicode_len();
    let m = pat.unicode_len();
    if m > n {
        assert forall|i: int| !occurs_at(s@, pat@, i) by {}
        return false;
    }
    let mut i: usize = 0;
    while i <= n - m
        invariant
            m <= n,
            n == s@.len(),
            m == pat@.len(),
            forall|t: int| 0 <= t < i ==> !occurs_at(s@, pat@, t),
        decreases n - m + 1 - i,
    {
        let mut k: usize = 0;
        let mut same = true;
        while k < m
            invariant
                m <= n,
                n == s@.len(),
                m == pat@.len(),
                i + m <= n,
                k <= m,
                same == forall|t: int| 0 <= t < k ==> s@[i + t] == pat@[t],
            decreases m - k,
        {
            if s.get_char(i + k) != pat.get_char(k) {
                same = false;
            }
            k = k + 1;
        }
        if same {
            assert(s@.subrange(i as int, i + m) =~= pat@);
            assert(occurs_at(s@, pat@, i as int));
            return true;
        }
        assert(!occurs_at(s@, pat@, i as int)) by {
            if occurs_at(s@, pat@, i as int) {
                assert forall|t: int| 0 <= t < m implies s@[i + t] == pat@[t] by {
                    assert(s@.subrange(i as int, i + m)[t] == s@[i + t]);
                }
            }
        }
        i = i + 1;
    }
    assert forall|t: int| !occurs_at(s@, pat@, t) by {}
    false
}

/// A transport error whose message mentions a timeout is transient.
pub open spec fn is_timeout_spec(msg: Seq<char>) -> bool {
    contains_text_spec(msg, "timeout"@) || contains_text_spec(msg, "Timeout"@)
}

/// Whether a transport error message reports a timeout (retried) rather than a
/// failure (which ends the session).
pub fn is_timeout_message(msg: &str) -> (r: bool)
    ensures
        r == is_timeout_spec(msg@),
{
    contains_text(msg, "timeout") || contains_text(msg, "Timeout")
}

/// Outcome of one bounded read from the transport.
#[derive(Clone, Copy, Debug, PartialEq, Eq, Structural)]
pub enum ReadOutcome {
    /// This many bytes were read.
    Data(usize),
    /// The read timed out.
    Timeout,
    /// The read failed otherwise.
    Failed,
}

/// Lifecycle of one connected device's session.
#[derive(Clone, Copy, Debug, PartialEq, Eq, Structural)]
pub enum SessionPhase {
    Idle,
    Initializing,
    Running,
    Paused,
    Terminated,
}

/// What happens to a session.
#[derive(Clone, Copy, Debug, PartialEq, Eq, Structural)]
pub enum SessionEvent {
    DeviceOpened,
    PortsReady,
    PortsFailed,
    /// The shared run flag was read with this value.
    RunFlag(bool),
    Read(ReadOutcome),
}

/// The phase after `e`: opening a device starts initialization; ready ports
/// start the run, failed ones end the session; the run flag pauses and resumes;
/// a non-timeout read error while running ends the session. Anything else
/// leaves the phase as it is, and a terminated session stays terminated.
pub open spec fn next_phase_spec(p: SessionPhase, e: SessionEvent) -> SessionPhase {
    match (p, e) {
        (SessionPhase::Idle, SessionEvent::DeviceOpened) => SessionPhase::Initializing,
        (SessionPhase::Initializing, SessionEvent::PortsReady) => SessionPhase::Running,
        (SessionPhase::Initializing, SessionEvent::PortsFailed) => SessionPhase::Terminated,
        (SessionPhase::Running, SessionEvent::RunFlag(false)) => SessionPhase::Paused,
        (SessionPhase::Paused, SessionEvent::RunFlag(true)) => SessionPhase::Running,
        (SessionPhase::Running, SessionEvent::Read(ReadOutcome::Failed)) => SessionPhase::Terminated,
        _ => p,
    }
}

pub fn next_phase(p: SessionPhase, e: SessionEvent) -> (r: SessionPhase)
    ensures
        r == next_phase_spec(p, e),
{
    match (p, e) {
        (SessionPhase::Idle, SessionEvent::DeviceOpened) => SessionPhase::Initializing,
        (SessionPhase::Initializing, SessionEvent::PortsReady) => SessionPhase::Running,
        (SessionPhase::Initializing, SessionEvent::PortsFailed) => SessionPhase::Terminated,
        (SessionPhase::Running, SessionEvent::RunFlag(false)) => SessionPhase::Paused,
        (SessionPhase::Paused, SessionEvent::RunFlag(true)) => SessionPhase::Running,
        (SessionPhase::Running, SessionEvent::Read(ReadOutcome::Failed)) => SessionPhase::Terminated,
        _ => p,
    }
}

/// Commands from the status menu.
#[derive(Clone, Copy, Debug, PartialEq, Eq, Structural)]
pub enum MenuCommand {
    Start,
    Stop,
    Quit,
}

/// The run flag after a menu command, and whether the process ends.
pub open spec fn menu_effect(cmd: MenuCommand, running: bool) -> (bool, bool) {
    match cmd {
        MenuCommand::Start => (true, false),
        MenuCommand::Stop => (false, false),
        MenuCommand::Quit => (running, true),
    }
}

/// Applies a menu command: returns the new run flag and whether to quit.
pub fn apply_menu_command(cmd: MenuCommand, running: bool) -> (r: (bool, bool))
    ensures
        r == menu_effect(cmd, running),
{
    match cmd {
        MenuCommand::Start => (true, false),
        MenuCommand::Stop => (false, false),
        MenuCommand::Quit => (running, true),
    }
}

/// The number shown after a device's label in the status menu: its 1-based
/// position when several devices are listed, none for a single device.
pub fn menu_label_number(index: usize, count: usize) -> (r: Option<usize>)
    requires
        index < count,
    ensures
        r == (if count > 1 {
            Some((index + 1) as usize)
        } else {
            None::<usize>
        }),
{
    if count > 1 {
        Some(index + 1)
    } else {
        None
    }
}

} // verus!
