use ptyd::exit_status::{child_exit_code, exit_byte};
use ptyd::frame::Frame;
use ptyd::relay::{
    check_command, classify_io, classify_poll, errno_code, on_pty_read, reaped_exit,
    write_progress, IoOutcome, PollStep, PtyStep, Relay, FAILURE_EXIT, USAGE_EXIT,
};
use ptyd::signal::{signal_target, SignalTarget};

#[test]
fn normal_exit_code_three() {
    assert_eq!(child_exit_code(3 << 8), 3);
}

#[test]
fn killed_by_signal_nine() {
    assert_eq!(child_exit_code(9), 137);
}

#[test]
fn exit_code_zero_and_255() {
    assert_eq!(child_exit_code(0), 0);
    assert_eq!(child_exit_code(255 << 8), 255);
}

#[test]
fn stopped_status_maps_to_one() {
    assert_eq!(child_exit_code(0x137f), 1);
}

#[test]
fn core_dump_signal_death() {
    assert_eq!(child_exit_code(0x80 | 11), 139);
}

#[test]
fn exit_byte_keeps_low_byte() {
    assert_eq!(exit_byte(137), 137);
    assert_eq!(exit_byte(256 + 3), 3);
    assert_eq!(exit_byte(-1), 255);
}

#[test]
fn reaped_exit_only_for_the_child() {
    assert_eq!(reaped_exit(42, 0, 0), None);
    assert_eq!(reaped_exit(42, -1, 0), None);
    assert_eq!(reaped_exit(42, 42, 3 << 8), Some(3));
    assert_eq!(reaped_exit(42, 42, 9), Some(137));
}

#[test]
fn io_results_are_classified() {
    assert_eq!(classify_io(5, None), IoOutcome::Transferred(5));
    assert_eq!(classify_io(0, None), IoOutcome::Transferred(0));
    assert_eq!(classify_io(-1, Some(libc::EINTR)), IoOutcome::Interrupted);
    assert_eq!(classify_io(-1, Some(libc::EIO)), IoOutcome::Failed);
    assert_eq!(classify_io(-1, None), IoOutcome::Failed);
}

#[test]
fn poll_results_are_classified() {
    assert_eq!(classify_poll(0, None), PollStep::Ready);
    assert_eq!(classify_poll(2, None), PollStep::Ready);
    assert_eq!(classify_poll(-1, Some(libc::EINTR)), PollStep::Retry);
    assert_eq!(classify_poll(-1, Some(libc::EBADF)), PollStep::Fail);
}

#[test]
fn zero_pty_read_ends_session() {
    assert_eq!(on_pty_read(IoOutcome::Transferred(0)), PtyStep::ReapAndExit);
}

#[test]
fn pty_output_is_forwarded() {
    assert_eq!(on_pty_read(IoOutcome::Transferred(12)), PtyStep::Forward(12));
    assert_eq!(on_pty_read(IoOutcome::Interrupted), PtyStep::Retry);
    assert_eq!(on_pty_read(IoOutcome::Failed), PtyStep::Fail);
}

#[test]
fn write_progress_advances() {
    assert_eq!(write_progress(0, 10, IoOutcome::Transferred(4)), Some(4));
    assert_eq!(write_progress(4, 10, IoOutcome::Transferred(6)), Some(10));
    assert_eq!(write_progress(4, 10, IoOutcome::Transferred(0)), Some(4));
    assert_eq!(write_progress(4, 10, IoOutcome::Interrupted), Some(4));
    assert_eq!(write_progress(4, 10, IoOutcome::Failed), None);
}

#[test]
fn signal_goes_to_group_leader_group() {
    assert_eq!(signal_target(100, 100), Some(SignalTarget::Group(100)));
}

#[test]
fn signal_goes_to_process_outside_own_group() {
    assert_eq!(signal_target(100, 7), Some(SignalTarget::Process(100)));
}

#[test]
fn signal_dropped_when_child_gone() {
    assert_eq!(signal_target(100, -1), None);
}

#[test]
fn command_is_required() {
    assert_eq!(check_command(&Vec::new()), Err(USAGE_EXIT));
    assert_eq!(USAGE_EXIT, 2);
    assert_eq!(FAILURE_EXIT, 1);
}

#[test]
fn command_with_nul_is_refused() {
    let args = vec![b"sh".to_vec(), b"-c\0x".to_vec()];
    assert_eq!(check_command(&args), Err(USAGE_EXIT));
}

#[test]
fn plain_command_is_accepted() {
    let args = vec![b"/bin/sh".to_vec(), b"-l".to_vec()];
    assert_eq!(check_command(&args), Ok(()));
}

#[test]
fn control_eof_closes_channel_only() {
    let mut relay = Relay::new();
    relay.incoming = vec![0x01, 0x00];
    let frames = relay.on_control_read(IoOutcome::Transferred(0), &[0u8; 8]);
    assert!(frames.is_empty());
    assert!(!relay.control_open);
    assert_eq!(relay.incoming, vec![0x01, 0x00]);
    assert_eq!(relay.control_poll_fd(0), -1);
    assert_eq!(on_pty_read(IoOutcome::Transferred(3)), PtyStep::Forward(3));
}

#[test]
fn control_failure_closes_channel() {
    let mut relay = Relay::new();
    let frames = relay.on_control_read(IoOutcome::Failed, &[]);
    assert!(frames.is_empty());
    assert!(!relay.control_open);
}

#[test]
fn control_interrupt_changes_nothing() {
    let mut relay = Relay::new();
    let frames = relay.on_control_read(IoOutcome::Interrupted, &[]);
    assert!(frames.is_empty());
    assert!(relay.control_open);
    assert_eq!(relay.control_poll_fd(0), 0);
}

#[test]
fn control_bytes_are_decoded_across_reads() {
    let mut relay = Relay::new();
    let buf = [0x01, 0x00, 0x00, 0x00, 0x02, b'o', 0xee, 0xee];
    let frames = relay.on_control_read(IoOutcome::Transferred(6), &buf);
    assert!(frames.is_empty());
    assert_eq!(relay.incoming, vec![0x01, 0x00, 0x00, 0x00, 0x02, b'o']);
    let frames = relay.on_control_read(IoOutcome::Transferred(2), &[b'k', 0x03]);
    assert_eq!(frames, vec![Frame::Data(b"ok".to_vec()), Frame::Close]);
    assert!(relay.incoming.is_empty());
    assert!(relay.control_open);
}

#[test]
fn close_frame_keeps_relay_open() {
    let mut relay = Relay::new();
    let frames = relay.on_control_read(IoOutcome::Transferred(1), &[0x03]);
    assert_eq!(frames, vec![Frame::Close]);
    assert!(relay.control_open);
}

#[test]
fn errno_code_reports_last_error() {
    assert!(errno_code().is_some());
}
