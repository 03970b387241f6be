//! Decisions of the relay loop: how each system call's result is read, and
//! what the loop does next. The system calls themselves are made by the
//! caller, which hands their results in as plain values.

use vstd::prelude::*;
use crate::exit_status::{child_exit_code, exit_code_of};
use crate::frame::{
    decode, decode_frames, is_pending, lemma_remainder_pending, views, Frame, FrameView,
};

verus! {

/// Exit code for a setup failure or an unrecoverable I/O failure.
pub const FAILURE_EXIT: i32 = 1;

/// Exit code when no command (or an unusable one) is given.
pub const USAGE_EXIT: i32 = 2;

/// The errno value of a system call interrupted by a signal.
pub open spec fn eintr() -> i32 {
    4
}

/// Relies on libc::EINTR, the "interrupted system call" errno value (4 on Linux).
#[verifier::external_body]
fn interrupted_errno() -> (r: i32)
    ensures
        r == eintr(),
{
    libc::EINTR
}

#[verifier::external_type_specification]
#[verifier::external_body]
pub struct ExIoError(std::io::Error);

/// Relies on std::io::Error::last_os_error: an error built from the current
/// errno value. What it holds depends on the last failed call, so nothing is
/// promised of it.
pub assume_specification[ std::io::Error::last_os_error ]() -> std::io::Error;

/// Relies on std::io::Error::raw_os_error: the OS error code an error carries.
pub assume_specification[ std::io::Error::raw_os_error ](e: &std::io::Error) -> Option<i32>;

/// The errno value that the last failed system call of this thread left.
pub fn errno_code() -> Option<i32> {
    std::io::Error::last_os_error().raw_os_error()
}

/// How a read or a write went.
#[derive(Debug, Clone, Copy, PartialEq, Eq, Structural)]
pub enum IoOutcome {
    /// It moved this many bytes (zero on a read: end of file).
    Transferred(usize),
    /// A signal interrupted it; it is to be retried.
    Interrupted,
    /// It failed for good.
    Failed,
}

/// Reads the return value of `read` or `write`, and the errno taken after a
/// negative one.
pub fn classify_io(n: isize, errno: Option<i32>) -> (r: IoOutcome)
    ensures
        n >= 0 ==> r == IoOutcome::Transferred(n as usize),
        n < 0 && errno == Some(eintr()) ==> r is Interrupted,
        n < 0 && errno != Some(eintr()) ==> r is Failed,
{
    if n >= 0 {
        IoOutcome::Transferred(n as usize)
    } else if errno == Some(interrupted_errno()) {
        IoOutcome::Interrupted
    } else {
        IoOutcome::Failed
    }
}


/// What the loop does after a poll.
#[derive(Debug, Clone, Copy, PartialEq, Eq, Structural)]
pub enum PollStep {
    /// Look at the descriptors that became readable.
    Ready,
    /// Interrupted: start the iteration over.
    Retry,
    /// The poll failed for good: close the master and exit with a failure.
    Fail,
}

/// Reads the return value of `poll`, and the errno taken after a negative one.
pub fn classify_poll(rc: i32, errno: Option<i32>) -> (r: PollStep)
    ensures
        rc >= 0 ==> r is Ready,
        rc < 0 && errno == Some(eintr()) ==> r is Retry,
        rc < 0 && errno != Some(eintr()) ==> r is Fail,
{
    if rc >= 0 {
        PollStep::Ready
    } else if errno == Some(interrupted_errno()) {
        PollStep::Retry
    } else {
        PollStep::Fail
    }
}

/// What the loop does after a read from the PTY master.
#[derive(Debug, Clone, Copy, PartialEq, Eq, Structural)]
pub enum PtyStep {
    /// Write this many bytes of output, verbatim, to the outbound channel.
    Forward(usize),
    /// The terminal session ended: wait for the child, then exit with its status.
    ReapAndExit,
    /// Interrupted: start the iteration over.
    Retry,
    /// The read failed for good: close the master and exit with a failure.
    Fail,
}

/// Decides on a read from the PTY master. A zero-length read means that the
/// last process left the terminal session.
pub fn on_pty_read(outcome: IoOutcome) -> (r: PtyStep)
    ensures
        outcome == IoOutcome::Transferred(0) ==> r is ReapAndExit,
        outcome matches IoOutcome::Transferred(n) ==> (n > 0 ==> r == PtyStep::Forward(n)),
        outcome is Interrupted ==> r is Retry,
        outcome is Failed ==> r is Fail,
{
    match outcome {
        IoOutcome::Transferred(n) => {
            if n == 0 {
                PtyStep::ReapAndExit
            } else {
                PtyStep::Forward(n)
            }
        },
        IoOutcome::Interrupted => PtyStep::Retry,
        IoOutcome::Failed => PtyStep::Fail,
    }
}

/// The exit code of the daemon once the child has been reaped with `status`:
/// `waited` is what the non-blocking wait returned, and only a return of the
/// child's own pid means that it was reaped.
pub fn reaped_exit(child_pid: i32, waited: i32, status: i32) -> (r: Option<i32>)
    ensures
        r is Some <==> waited == child_pid,
        r matches Some(code) ==> code as int == exit_code_of(status),
{
    if waited == child_pid {
        Some(child_exit_code(status))
    } else {
        None
    }
}

/// The new offset into an output buffer of `total` bytes, of which `offset`
/// are written, after one more `write`; `None` when the write failed for good.
pub fn write_progress(offset: usize, total: usize, outcome: IoOutcome) -> (r: Option<usize>)
    requires
        offset <= total,
        outcome matches IoOutcome::Transferred(w) ==> w <= total - offset,
    ensures
        outcome matches IoOutcome::Transferred(w) ==> r == Some((offset + w) as usize),
        outcome is Interrupted ==> r == Some(offset),
        outcome is Failed ==> r is None,
{
    match outcome {
        IoOutcome::Transferred(w) => Some(offset + w),
        IoOutcome::Interrupted => Some(offset),
        IoOutcome::Failed => None,
    }
}

/// Whether a byte string holds a NUL byte.
pub open spec fn has_nul(s: Seq<u8>) -> bool {
    exists|j: int| 0 <= j < s.len() && s[j] == 0
}

/// Checks the command line to run: it must name a program, and no argument
/// may hold a NUL byte (it could not be handed to `exec`). On failure the
/// daemon exits with the usage code.
pub fn check_command(args: &Vec<Vec<u8>>) -> (r: Result<(), i32>)
    ensures
        r is Ok <==> (args@.len() > 0 && forall|i: int| 0 <= i < args@.len() ==> !has_nul(#[trigger] args@[i]@)),
        r matches Err(code) ==> code == USAGE_EXIT,
{
    if args.len() == 0 {
        return Err(USAGE_EXIT);
    }
    let mut i: usize = 0;
    while i < args.len()
        invariant
            i <= args@.len(),
            forall|k: int| 0 <= k < i ==> !has_nul(#[trigger] args@[k]@),
        decreases args@.len() - i,
    {
        let arg = &args[i];
        let mut j: usize = 0;
        while j < arg.len()
            invariant
                i < args@.len(),
                arg@ == args@[i as int]@,
                j <= arg@.len(),
                forall|m: int| 0 <= m < j ==> arg@[m] != 0,
                forall|k: int| 0 <= k < i ==> !has_nul(#[trigger] args@[k]@),
            decreases arg@.len() - j,
        {
            if arg[j] == 0 {
                assert(has_nul(args@[i as int]@));
                return Err(USAGE_EXIT);
            }
            j = j + 1;
        }
        assert(!has_nul(args@[i as int]@));
        i = i + 1;
    }
    Ok(())
}

/// The relay loop's own state: the control bytes not yet decoded, and whether
/// the control channel is still read.
pub struct Relay {
    pub incoming: Vec<u8>,
    pub control_open: bool,
}

impl Relay {
    /// Only whole frames and unknown opcodes are ever taken from the front
    /// of `incoming`, so what it holds is always an incomplete frame.
    pub open spec fn well_formed(&self) -> bool {
        is_pending(self.incoming@)
    }

    /// A relay whose control channel is open and whose buffer is empty.
    pub fn new() -> (r: Relay)
        ensures
            r.well_formed(),
            r.control_open,
            r.incoming@.len() == 0,
    {
        let r = Relay { incoming: Vec::new(), control_open: true };
        assert(decode(r.incoming@) == (Seq::<FrameView>::empty(), r.incoming@));
        r
    }

    /// The descriptor to poll for control input: `control_fd` while the
    /// channel is open, -1 (ignored by `poll`) once it is closed.
    pub fn control_poll_fd(&self, control_fd: i32) -> (r: i32)
        ensures
            r == (if self.control_open { control_fd } else { -1i32 }),
    {
        if self.control_open {
            control_fd
        } else {
            -1
        }
    }

    /// Takes the result of a read from the control channel into `buf`, and
    /// returns the frames to apply, in order. End of file and a failed read
    /// close the channel for the rest of the session, which goes on; bytes
    /// read are appended to `incoming` and every whole frame is decoded.
    pub fn on_control_read(&mut self, outcome: IoOutcome, buf: &[u8]) -> (frames: Vec<Frame>)
        requires
            old(self).well_formed(),
            outcome matches IoOutcome::Transferred(n) ==> n <= buf@.len(),
        ensures
            final(self).well_formed(),
            match outcome {
                IoOutcome::Transferred(n) => if n == 0 {
                    &&& !final(self).control_open
                    &&& final(self).incoming@ == old(self).incoming@
                    &&& frames@.len() == 0
                } else {
                    let d = decode(old(self).incoming@ + buf@.subrange(0, n as int));
                    &&& final(self).control_open == old(self).control_open
                    &&& views(frames@) == d.0
                    &&& final(self).incoming@ == d.1
                },
                IoOutcome::Interrupted => {
                    &&& final(self).control_open == old(self).control_open
                    &&& final(self).incoming@ == old(self).incoming@
                    &&& frames@.len() == 0
                },
                IoOutcome::Failed => {
                    &&& !final(self).control_open
                    &&& final(self).incoming@ == old(self).incoming@
                    &&& frames@.len() == 0
                },
            },
    {
        match outcome {
            IoOutcome::Transferred(n) => {
                if n == 0 {
                    self.control_open = false;
                    return Vec::new();
                }
                let ghost before = self.incoming@;
                let mut i: usize = 0;
                while i < n
                    invariant
                        i <= n <= buf@.len(),
                        self.incoming@ == before + buf@.subrange(0, i as int),
                        self.control_open == old(self).control_open,
                    decreases n - i,
                {
                    self.incoming.push(buf[i]);
                    i = i + 1;
                    assert(self.incoming@ =~= before + buf@.subrange(0, i as int));
                }
                let frames = decode_frames(&mut self.incoming);
                proof {
                    lemma_remainder_pending(before + buf@.subrange(0, n as int));
                }
                frames
            },
            IoOutcome::Interrupted => Vec::new(),
            IoOutcome::Failed => {
                self.control_open = false;
                Vec::new()
            },
        }
    }
}

} // verus!
