//! The emulator's control: the decisions of the background thread that runs
//! the CPU core in batches, and the status that the UI thread reads.
//!
//! The thread's loop lives with the caller (it sleeps, receives commands
//! from a channel and calls into the CPU core). At each point where the loop
//! decides something it asks `Worker`, which holds the loop's state.

use vstd::prelude::*;

verus! {

/// Commands that can be sent to the emulator thread.
#[derive(Debug, Clone, Copy, PartialEq, Eq, Structural)]
pub enum EmulatorCommand {
    /// Pause execution.
    Pause,
    /// Resume execution.
    Resume,
    /// Stop the emulator thread.
    Stop,
}

/// Instructions run per batch.
pub const BATCH_SIZE: u32 = 10_000;

/// Length of a performance-measurement window, in milliseconds.
pub const PERF_WINDOW_MS: u64 = 1000;

/// What the thread loop does after a command has been handled.
#[derive(Debug, Clone, Copy, PartialEq, Eq, Structural)]
pub struct CommandEffect {
    /// Restart the performance-window clock.
    pub reset_perf_timer: bool,
    /// Stop reading further commands in this round.
    pub stop_draining: bool,
}

/// How a batch of instructions ended.
#[derive(Debug, Clone, Copy, PartialEq, Eq, Structural)]
pub enum BatchOutcome {
    /// The core reported an error: the CPU is halted and the thread pauses.
    Failed,
    /// The batch ran; its cycles are counted.
    Completed,
}

/// The state of the emulator thread's loop.
pub struct Worker {
    running: bool,
    paused: bool,
    halted: bool,
    cycles_since_perf: u64,
    batches_since_perf: u64,
}

impl Worker {
    /// The loop goes on while this holds.
    pub closed spec fn running_spec(&self) -> bool {
        self.running
    }

    /// The thread runs no batches while paused.
    pub closed spec fn paused_spec(&self) -> bool {
        self.paused
    }

    /// The core has reported an error.
    pub closed spec fn halted_spec(&self) -> bool {
        self.halted
    }

    /// Cycles run in the current performance window.
    pub closed spec fn window_cycles(&self) -> nat {
        self.cycles_since_perf as nat
    }

    /// Batches run in the current performance window.
    pub closed spec fn window_batches(&self) -> nat {
        self.batches_since_perf as nat
    }

    /// The worker after handling `cmd`.
    pub closed spec fn after_command(&self, cmd: EmulatorCommand) -> Worker {
        match cmd {
            EmulatorCommand::Pause => Worker { paused: true, ..*self },
            EmulatorCommand::Resume => Worker { paused: false, cycles_since_perf: 0, batches_since_perf: 0, ..*self },
            EmulatorCommand::Stop => Worker { running: false, ..*self },
        }
    }

    /// The worker after a batch that reported `cycles_executed`.
    pub closed spec fn after_batch(&self, cycles_executed: int) -> Worker {
        if cycles_executed < 0 {
            Worker { halted: true, paused: true, ..*self }
        } else {
            Worker {
                cycles_since_perf: (self.cycles_since_perf + cycles_executed) as u64,
                batches_since_perf: (self.batches_since_perf + 1) as u64,
                ..*self
            }
        }
    }

    /// A running, unpaused worker with an empty performance window.
    pub fn new() -> (w: Self)
        ensures
            w.running_spec(),
            !w.paused_spec(),
            !w.halted_spec(),
            w.window_cycles() == 0,
            w.window_batches() == 0,
    {
        Worker { running: true, paused: false, halted: false, cycles_since_perf: 0, batches_since_perf: 0 }
    }

    /// Handles one command. Pause pauses; Resume unpauses and starts a new
    /// performance window; Stop ends the loop after the current round and
    /// stops the reading of commands.
    pub fn handle_command(&mut self, cmd: EmulatorCommand) -> (e: CommandEffect)
        ensures
            match cmd {
                EmulatorCommand::Pause => {
                    &&& final(self).paused_spec()
                    &&& final(self).running_spec() == old(self).running_spec()
                    &&& final(self).window_cycles() == old(self).window_cycles()
                    &&& final(self).window_batches() == old(self).window_batches()
                    &&& e == CommandEffect { reset_perf_timer: false, stop_draining: false }
                },
                EmulatorCommand::Resume => {
                    &&& !final(self).paused_spec()
                    &&& final(self).running_spec() == old(self).running_spec()
                    &&& final(self).window_cycles() == 0
                    &&& final(self).window_batches() == 0
                    &&& e == CommandEffect { reset_perf_timer: true, stop_draining: false }
                },
                EmulatorCommand::Stop => {
                    &&& !final(self).running_spec()
                    &&& final(self).paused_spec() == old(self).paused_spec()
                    &&& final(self).window_cycles() == old(self).window_cycles()
                    &&& final(self).window_batches() == old(self).window_batches()
                    &&& e == CommandEffect { reset_perf_timer: false, stop_draining: true }
                },
            },
            final(self).halted_spec() == old(self).halted_spec(),
            *final(self) == old(self).after_command(cmd),
    {
        match cmd {
            EmulatorCommand::Pause => {
                self.paused = true;
                CommandEffect { reset_perf_timer: false, stop_draining: false }
            },
            EmulatorCommand::Resume => {
                self.paused = false;
                self.cycles_since_perf = 0;
                self.batches_since_perf = 0;
                CommandEffect { reset_perf_timer: true, stop_draining: false }
            },
            EmulatorCommand::Stop => {
                self.running = false;
                CommandEffect { reset_perf_timer: false, stop_draining: true }
            },
        }
    }

    /// Whether the loop goes on.
    pub fn is_running(&self) -> (r: bool)
        ensures
            r == self.running_spec(),
    {
        self.running
    }

    /// Whether the thread should sleep instead of running a batch.
    pub fn is_paused(&self) -> (r: bool)
        ensures
            r == self.paused_spec(),
    {
        self.paused
    }

    /// Whether the core has reported an error.
    pub fn is_halted(&self) -> (r: bool)
        ensures
            r == self.halted_spec(),
    {
        self.halted
    }

    /// Cycles counted in the current performance window.
    pub fn cycles_in_window(&self) -> (n: u64)
        ensures
            n == self.window_cycles(),
    {
        self.cycles_since_perf
    }

    /// Batches counted in the current performance window.
    pub fn batches_in_window(&self) -> (n: u64)
        ensures
            n == self.window_batches(),
    {
        self.batches_since_perf
    }

    /// The session could not be created: the loop ends before it starts.
    pub fn session_failed(&mut self)
        ensures
            !final(self).running_spec(),
            final(self).paused_spec() == old(self).paused_spec(),
            final(self).halted_spec() == old(self).halted_spec(),
            final(self).window_cycles() == old(self).window_cycles(),
            final(self).window_batches() == old(self).window_batches(),
    {
        self.running = false;
    }

    /// Records the result of a batch: a negative cycle count is an error,
    /// which halts the CPU and pauses the thread; otherwise the cycles and
    /// the batch are counted in the performance window.
    pub fn record_batch(&mut self, cycles_executed: i32) -> (o: BatchOutcome)
        requires
            cycles_executed >= 0 ==> old(self).window_cycles() + cycles_executed <= u64::MAX,
            cycles_executed >= 0 ==> old(self).window_batches() + 1 <= u64::MAX,
        ensures
            final(self).running_spec() == old(self).running_spec(),
            cycles_executed < 0 ==> {
                &&& o == BatchOutcome::Failed
                &&& final(self).halted_spec()
                &&& final(self).paused_spec()
                &&& final(self).window_cycles() == old(self).window_cycles()
                &&& final(self).window_batches() == old(self).window_batches()
            },
            cycles_executed >= 0 ==> {
                &&& o == BatchOutcome::Completed
                &&& final(self).halted_spec() == old(self).halted_spec()
                &&& final(self).paused_spec() == old(self).paused_spec()
                &&& final(self).window_cycles() == old(self).window_cycles() + cycles_executed
                &&& final(self).window_batches() == old(self).window_batches() + 1
            },
            *final(self) == old(self).after_batch(cycles_executed as int),
    {
        if cycles_executed < 0 {
            self.halted = true;
            self.paused = true;
            BatchOutcome::Failed
        } else {
            self.cycles_since_perf = self.cycles_since_perf + cycles_executed as u64;
            self.batches_since_perf = self.batches_since_perf + 1;
            BatchOutcome::Completed
        }
    }

    /// Closes the performance window once `elapsed_ms` reaches a second:
    /// returns the cycles and batches counted in it and starts a new one.
    /// Before that, returns `None` and changes nothing.
    pub fn take_perf_window(&mut self, elapsed_ms: u64) -> (r: Option<(u64, u64)>)
        ensures
            elapsed_ms >= PERF_WINDOW_MS ==> {
                &&& r == Some((old(self).window_cycles() as u64, old(self).window_batches() as u64))
                &&& final(self).window_cycles() == 0
                &&& final(self).window_batches() == 0
            },
            elapsed_ms < PERF_WINDOW_MS ==> {
                &&& r.is_none()
                &&& final(self).window_cycles() == old(self).window_cycles()
                &&& final(self).window_batches() == old(self).window_batches()
            },
            final(self).running_spec() == old(self).running_spec(),
            final(self).paused_spec() == old(self).paused_spec(),
            final(self).halted_spec() == old(self).halted_spec(),
    {
        if elapsed_ms >= PERF_WINDOW_MS {
            let r = Some((self.cycles_since_perf, self.batches_since_perf));
            self.cycles_since_perf = 0;
            self.batches_since_perf = 0;
            r
        } else {
            None
        }
    }
}

/// Pausing and then resuming leaves the emulator running, unpaused, with a
/// fresh performance window.
pub proof fn law_pause_then_resume(w: Worker)
    ensures
        !w.after_command(EmulatorCommand::Pause).after_command(EmulatorCommand::Resume).paused_spec(),
        w.after_command(EmulatorCommand::Pause).after_command(EmulatorCommand::Resume).running_spec()
            == w.running_spec(),
        w.after_command(EmulatorCommand::Pause).after_command(EmulatorCommand::Resume).window_cycles() == 0,
        w.after_command(EmulatorCommand::Pause).after_command(EmulatorCommand::Resume).window_batches() == 0,
{
}

/// Once stopped, the loop stays stopped: no later command restarts it.
pub proof fn law_stop_is_final(w: Worker, cmd: EmulatorCommand)
    ensures
        !w.after_command(EmulatorCommand::Stop).running_spec(),
        !w.after_command(EmulatorCommand::Stop).after_command(cmd).running_spec(),
{
}

/// A failed batch halts the CPU and pauses the thread; resuming unpauses
/// it but the halt is kept.
pub proof fn law_failed_batch_halts(w: Worker, cycles_executed: int)
    requires
        cycles_executed < 0,
    ensures
        w.after_batch(cycles_executed).halted_spec(),
        w.after_batch(cycles_executed).paused_spec(),
        w.after_batch(cycles_executed).running_spec() == w.running_spec(),
        !w.after_batch(cycles_executed).after_command(EmulatorCommand::Resume).paused_spec(),
        w.after_batch(cycles_executed).after_command(EmulatorCommand::Resume).halted_spec(),
{
}

/// Pausing counts nothing: the performance window of a paused worker is
/// what it was.
pub proof fn law_pause_keeps_window(w: Worker)
    ensures
        w.after_command(EmulatorCommand::Pause).window_cycles() == w.window_cycles(),
        w.after_command(EmulatorCommand::Pause).window_batches() == w.window_batches(),
{
}

/// A call that changes the emulator status.
pub enum StatusOp {
    /// `pause()`
    Pause,
    /// `resume()`
    Resume,
    /// `set_halted()`
    SetHalted,
    /// `record_cpu(cycle_count, pc, halted, registers, windowbase, intlevel)`
    RecordCpu(u64, u32, bool, [u32; 16], u32, u32),
}

/// The emulator state that the UI thread reads (without the performance
/// figures, which are measured in floating point by the caller).
pub struct EmulatorStatus {
    paused: bool,
    cycle_count: u64,
    pc: u32,
    halted: bool,
    registers: [u32; 16],
    windowbase: u32,
    intlevel: u32,
}

impl EmulatorStatus {
    /// Whether the UI has paused the emulator.
    pub closed spec fn paused_spec(&self) -> bool {
        self.paused
    }

    /// The last reported cycle count.
    pub closed spec fn cycles_spec(&self) -> u64 {
        self.cycle_count
    }

    /// The last reported program counter.
    pub closed spec fn pc_spec(&self) -> u32 {
        self.pc
    }

    /// Whether the CPU has halted.
    pub closed spec fn halted_spec(&self) -> bool {
        self.halted
    }

    /// The last reported window registers a0-a15.
    pub closed spec fn registers_spec(&self) -> Seq<u32> {
        self.registers@
    }

    /// The last reported WINDOWBASE.
    pub closed spec fn windowbase_spec(&self) -> u32 {
        self.windowbase
    }

    /// The last reported INTLEVEL.
    pub closed spec fn intlevel_spec(&self) -> u32 {
        self.intlevel
    }

    /// The status after `op`.
    pub closed spec fn after(&self, op: StatusOp) -> EmulatorStatus {
        match op {
            StatusOp::Pause => EmulatorStatus { paused: true, ..*self },
            StatusOp::Resume => EmulatorStatus { paused: false, ..*self },
            StatusOp::SetHalted => EmulatorStatus { halted: true, ..*self },
            StatusOp::RecordCpu(cycle_count, pc, halted, registers, windowbase, intlevel) => EmulatorStatus {
                cycle_count,
                pc,
                halted,
                registers,
                windowbase,
                intlevel,
                ..*self
            },
        }
    }

    /// A running emulator that has reported nothing yet.
    pub fn new() -> (s: Self)
        ensures
            !s.paused_spec(),
            s.cycles_spec() == 0,
            s.pc_spec() == 0,
            !s.halted_spec(),
            s.registers_spec() == Seq::new(16, |i: int| 0u32),
            s.windowbase_spec() == 0,
            s.intlevel_spec() == 0,
    {
        let s = EmulatorStatus {
            paused: false,
            cycle_count: 0,
            pc: 0,
            halted: false,
            registers: [0u32; 16],
            windowbase: 0,
            intlevel: 0,
        };
        assert(s.registers_spec() =~= Seq::new(16, |i: int| 0u32));
        s
    }

    /// Records that the UI paused the emulator.
    pub fn pause(&mut self)
        ensures
            *final(self) == old(self).after(StatusOp::Pause),
            final(self).paused_spec(),
            final(self).cycles_spec() == old(self).cycles_spec(),
            final(self).pc_spec() == old(self).pc_spec(),
            final(self).halted_spec() == old(self).halted_spec(),
            final(self).registers_spec() == old(self).registers_spec(),
            final(self).windowbase_spec() == old(self).windowbase_spec(),
            final(self).intlevel_spec() == old(self).intlevel_spec(),
    {
        self.paused = true;
    }

    /// Records that the UI resumed the emulator.
    pub fn resume(&mut self)
        ensures
            *final(self) == old(self).after(StatusOp::Resume),
            !final(self).paused_spec(),
            final(self).cycles_spec() == old(self).cycles_spec(),
            final(self).pc_spec() == old(self).pc_spec(),
            final(self).halted_spec() == old(self).halted_spec(),
            final(self).registers_spec() == old(self).registers_spec(),
            final(self).windowbase_spec() == old(self).windowbase_spec(),
            final(self).intlevel_spec() == old(self).intlevel_spec(),
    {
        self.paused = false;
    }

    /// Records that the CPU halted on an error.
    pub fn set_halted(&mut self)
        ensures
            *final(self) == old(self).after(StatusOp::SetHalted),
            final(self).halted_spec(),
            final(self).paused_spec() == old(self).paused_spec(),
            final(self).cycles_spec() == old(self).cycles_spec(),
            final(self).pc_spec() == old(self).pc_spec(),
            final(self).registers_spec() == old(self).registers_spec(),
            final(self).windowbase_spec() == old(self).windowbase_spec(),
            final(self).intlevel_spec() == old(self).intlevel_spec(),
    {
        self.halted = true;
    }

    /// Records the CPU state read after a batch.
    pub fn record_cpu(
        &mut self,
        cycle_count: u64,
        pc: u32,
        halted: bool,
        registers: [u32; 16],
        windowbase: u32,
        intlevel: u32,
    )
        ensures
            final(self).paused_spec() == old(self).paused_spec(),
            final(self).cycles_spec() == cycle_count,
            final(self).pc_spec() == pc,
            final(self).halted_spec() == halted,
            final(self).registers_spec() == registers@,
            final(self).windowbase_spec() == windowbase,
            final(self).intlevel_spec() == intlevel,
            *final(self) == old(self).after(StatusOp::RecordCpu(cycle_count, pc, halted, registers, windowbase, intlevel)),
    {
        self.cycle_count = cycle_count;
        self.pc = pc;
        self.halted = halted;
        self.registers = registers;
        self.windowbase = windowbase;
        self.intlevel = intlevel;
    }

    /// Whether the emulator is running (not paused by the UI).
    pub fn is_running(&self) -> (r: bool)
        ensures
            r == !self.paused_spec(),
    {
        !self.paused
    }

    /// The current cycle count.
    pub fn cycle_count(&self) -> (r: u64)
        ensures
            r == self.cycles_spec(),
    {
        self.cycle_count
    }

    /// The current program counter.
    pub fn pc(&self) -> (r: u32)
        ensures
            r == self.pc_spec(),
    {
        self.pc
    }

    /// Whether the CPU is halted.
    pub fn is_halted(&self) -> (r: bool)
        ensures
            r == self.halted_spec(),
    {
        self.halted
    }

    /// The window registers a0-a15.
    pub fn get_all_registers(&self) -> (r: [u32; 16])
        ensures
            r@ == self.registers_spec(),
    {
        self.registers
    }

    /// The WINDOWBASE register.
    pub fn get_windowbase(&self) -> (r: u32)
        ensures
            r == self.windowbase_spec(),
    {
        self.windowbase
    }

    /// The INTLEVEL.
    pub fn get_intlevel(&self) -> (r: u32)
        ensures
            r == self.intlevel_spec(),
    {
        self.intlevel
    }
}

/// The status after the calls `ops`, in order.
pub open spec fn status_run(s: EmulatorStatus, ops: Seq<StatusOp>) -> EmulatorStatus
    decreases ops.len(),
{
    if ops.len() == 0 {
        s
    } else {
        status_run(s, ops.drop_last()).after(ops.last())
    }
}

/// Whether the last pause or resume among `ops` was a pause (`None` when
/// there was neither).
pub open spec fn last_pause(ops: Seq<StatusOp>) -> Option<bool>
    decreases ops.len(),
{
    if ops.len() == 0 {
        None
    } else {
        match ops.last() {
            StatusOp::Pause => Some(true),
            StatusOp::Resume => Some(false),
            _ => last_pause(ops.drop_last()),
        }
    }
}

/// Whatever calls follow, the emulator reports running exactly when the
/// last pause or resume was a resume, and as before when there was neither:
/// a halted CPU and the reported CPU state do not change it. (After `new()`,
/// which is not paused, it reports running until the first pause.)
pub proof fn law_running_follows_last_pause(s: EmulatorStatus, ops: Seq<StatusOp>)
    ensures
        !status_run(s, ops).paused_spec() == match last_pause(ops) {
            Some(p) => !p,
            None => !s.paused_spec(),
        },
    decreases ops.len(),
{
    if ops.len() > 0 {
        law_running_follows_last_pause(s, ops.drop_last());
    }
}

} // verus!
