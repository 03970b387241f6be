//! Translation of a reaped wait-status into the daemon's own exit code.

use vstd::prelude::*;

verus! {

/// The low seven bits of a wait-status: zero for a normal exit, the
/// terminating signal otherwise (0x7f marks a stopped child).
pub open spec fn low_bits(status: i32) -> i32 {
    status & 0x7f
}

/// The exit code recorded in a wait-status of a normal exit.
pub open spec fn high_byte(status: i32) -> i32 {
    (status >> 8) & 0xff
}

/// Relies on libc::WIFEXITED: a normal exit has no signal bits set.
pub assume_specification[ libc::WIFEXITED ](status: libc::c_int) -> (r: bool)
    ensures
        r == (low_bits(status) == 0),
;

/// Relies on libc::WEXITSTATUS: the exit code sits in the second byte.
pub assume_specification[ libc::WEXITSTATUS ](status: libc::c_int) -> (r: libc::c_int)
    ensures
        r == high_byte(status),
;

/// Relies on libc::WIFSIGNALED: a signal death has signal bits that are
/// neither zero nor the stopped marker 0x7f.
pub assume_specification[ libc::WIFSIGNALED ](status: libc::c_int) -> (r: bool)
    ensures
        r == (low_bits(status) != 0 && low_bits(status) != 0x7f),
;

/// Relies on libc::WTERMSIG: the terminating signal is the low seven bits.
pub assume_specification[ libc::WTERMSIG ](status: libc::c_int) -> (r: libc::c_int)
    ensures
        r == low_bits(status),
;

/// The shell-style exit code of a wait-status: the child's own code after a
/// normal exit, 128 plus the signal after a signal death, 1 otherwise.
pub open spec fn exit_code_of(status: i32) -> int {
    if low_bits(status) == 0 {
        high_byte(status) as int
    } else if low_bits(status) != 0x7f {
        128 + low_bits(status)
    } else {
        1
    }
}

proof fn lemma_bits_range(status: i32)
    ensures
        0 <= low_bits(status) <= 0x7f,
        0 <= high_byte(status) <= 0xff,
{
    assert(0 <= status & 0x7f <= 0x7f) by (bit_vector);
    assert(0 <= (status >> 8) & 0xff <= 0xff) by (bit_vector);
}

/// Maps a reaped wait-status to the exit code the daemon reports.
pub fn child_exit_code(status: i32) -> (r: i32)
    ensures
        r as int == exit_code_of(status),
        0 <= r <= 255,
{
    proof {
        lemma_bits_range(status);
    }
    if libc::WIFEXITED(status) {
        return libc::WEXITSTATUS(status);
    }
    if libc::WIFSIGNALED(status) {
        return 128 + libc::WTERMSIG(status);
    }
    1
}

/// The process exit byte for an exit code: only the low byte is significant.
pub fn exit_byte(code: i32) -> (r: u8)
    ensures
        r as int == (code & 0xff) as int,
{
    let low: i32 = code & 0xff;
    assert(0 <= code & 0xff <= 0xff) by (bit_vector);
    low as u8
}

} // verus!
