//! Which signal a control frame forwards to the child, and where it goes.

use vstd::prelude::*;
use crate::frame::{Frame, FrameView};

verus! {

/// A signal forwarded to the child.
#[derive(Debug, Clone, Copy, PartialEq, Eq, Structural)]
pub enum ChildSignal {
    /// The terminal's window size changed.
    WindowChange,
    /// The controlling terminal hung up.
    HangUp,
}

/// Where a forwarded signal is delivered.
#[derive(Debug, Clone, Copy, PartialEq, Eq, Structural)]
pub enum SignalTarget {
    /// The whole process group with this id.
    Group(i32),
    /// This single process.
    Process(i32),
}

/// The signal a frame forwards once it is applied: a window change after a
/// RESIZE, a hang-up for a CLOSE, none for DATA.
pub open spec fn signal_of(f: FrameView) -> Option<ChildSignal> {
    match f {
        FrameView::Data(_) => None,
        FrameView::Resize { .. } => Some(ChildSignal::WindowChange),
        FrameView::Close => Some(ChildSignal::HangUp),
    }
}

/// The signal that applying `frame` forwards to the child, if any.
pub fn frame_signal(frame: &Frame) -> (r: Option<ChildSignal>)
    ensures
        r == signal_of(frame@),
{
    match frame {
        Frame::Data(_) => None,
        Frame::Resize { .. } => Some(ChildSignal::WindowChange),
        Frame::Close => Some(ChildSignal::HangUp),
    }
}

/// Chooses the target of a signal from the child's pid and its process
/// group as just queried (`pgid < 0` when the query failed): the whole group
/// when the child leads it, the child alone otherwise, nobody when the child
/// is already gone.
pub fn signal_target(child_pid: i32, pgid: i32) -> (r: Option<SignalTarget>)
    ensures
        pgid < 0 ==> r is None,
        pgid >= 0 && pgid == child_pid ==> r == Some(SignalTarget::Group(pgid)),
        pgid >= 0 && pgid != child_pid ==> r == Some(SignalTarget::Process(child_pid)),
{
    if pgid < 0 {
        None
    } else if pgid == child_pid {
        Some(SignalTarget::Group(pgid))
    } else {
        Some(SignalTarget::Process(child_pid))
    }
}

} // verus!
