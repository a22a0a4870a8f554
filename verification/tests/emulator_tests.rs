use cyders::emulator::{BatchOutcome, CommandEffect, EmulatorCommand, EmulatorStatus, Worker, BATCH_SIZE};

#[test]
fn worker_pause_resume_stop() {
    let mut w = Worker::new();
    assert!(w.is_running());
    assert!(!w.is_paused());
    assert_eq!(
        w.handle_command(EmulatorCommand::Pause),
        CommandEffect { reset_perf_timer: false, stop_draining: false }
    );
    assert!(w.is_paused());
    assert_eq!(
        w.handle_command(EmulatorCommand::Resume),
        CommandEffect { reset_perf_timer: true, stop_draining: false }
    );
    assert!(!w.is_paused());
    assert_eq!(
        w.handle_command(EmulatorCommand::Stop),
        CommandEffect { reset_perf_timer: false, stop_draining: true }
    );
    assert!(!w.is_running());
    w.handle_command(EmulatorCommand::Resume);
    assert!(!w.is_running());
}

#[test]
fn worker_batches_and_perf_window() {
    let mut w = Worker::new();
    assert_eq!(w.record_batch(BATCH_SIZE as i32), BatchOutcome::Completed);
    assert_eq!(w.record_batch(5), BatchOutcome::Completed);
    assert_eq!(w.take_perf_window(999), None);
    assert_eq!(w.take_perf_window(1000), Some((10_005, 2)));
    assert_eq!(w.take_perf_window(5000), Some((0, 0)));
    w.record_batch(7);
    w.handle_command(EmulatorCommand::Resume);
    assert_eq!(w.take_perf_window(1000), Some((0, 0)));
}

#[test]
fn worker_failed_batch_halts() {
    let mut w = Worker::new();
    assert_eq!(w.record_batch(-1), BatchOutcome::Failed);
    assert!(w.is_halted());
    assert!(w.is_paused());
    assert!(w.is_running());
    w.handle_command(EmulatorCommand::Resume);
    assert!(!w.is_paused());
    assert!(w.is_halted());
    let mut w2 = Worker::new();
    w2.session_failed();
    assert!(!w2.is_running());
}

#[test]
fn status_reports() {
    let mut s = EmulatorStatus::new();
    assert!(s.is_running());
    s.pause();
    assert!(!s.is_running());
    s.resume();
    assert!(s.is_running());
    let mut regs = [0u32; 16];
    regs[1] = 0x3FFB_0000;
    s.record_cpu(1234, 0x4008_0000, false, regs, 2, 1);
    assert_eq!(s.cycle_count(), 1234);
    assert_eq!(s.pc(), 0x4008_0000);
    assert_eq!(s.get_all_registers()[1], 0x3FFB_0000);
    assert_eq!(s.get_windowbase(), 2);
    assert_eq!(s.get_intlevel(), 1);
    assert!(!s.is_halted());
    s.set_halted();
    assert!(s.is_halted());
}
