//! Driving the machine: runs of micro-steps with a bound, the actions of the
//! control panel, the history of the registers that lets an action be taken
//! back, and the rules that tie the status flags to the devices.

use crate::model::{
    lemma_with_flag, spec_cleared, spec_fits, spec_loaded, Computer,
    ComputerView, IOCell, Register, Registers, GENERAL_MEMORY_SIZE,
};
use crate::parse::file::{CardProgram, CardProgramView};
use crate::parse::mc::ExecutionResult;
use vstd::prelude::*;

verus! {

/// The micro-program counter at which the machine starts a program.
pub const START_ADDRESS: u8 = 0xA8;

/// The most snapshots that the history keeps.
pub const HISTORY_MAX_SIZE: usize = 15;

/// The most micro-steps that one tick of a running machine takes.
pub const STEPS_PER_TICK: u32 = 100;

/// The machine after micro-steps are run until one halts or `limit` of them
/// have run, and whether one halted.
pub open spec fn spec_run(c: ComputerView, limit: nat) -> (ComputerView, bool)
    decreases limit,
{
    if limit == 0 {
        (c, false)
    } else {
        let (next, result) = c.micro_step();
        if result == ExecutionResult::Halted {
            (next, true)
        } else {
            spec_run(next, (limit - 1) as nat)
        }
    }
}

/// The registers with the three flags of the control panel set: whether the
/// machine is stepped by micro-instructions, the run lever, and the program mode.
pub open spec fn spec_mode(
    registers: Registers,
    by_tick: bool,
    lever: bool,
    program: bool,
) -> Registers {
    registers.spec_with_flag(11, by_tick).spec_with_flag(7, lever).spec_with_flag(8, program)
}

/// Whether one of `devices` is ready.
pub open spec fn spec_any_ready(devices: Seq<IOCell>) -> bool {
    exists|i: int| 0 <= i < devices.len() && (#[trigger] devices[i]).ready
}

/// The registers after the interrupt flag is brought in line with the
/// devices: it is cleared where no device is ready, set where one is ready
/// and interrupts are allowed, and left alone otherwise.
pub open spec fn spec_poll_devices(registers: Registers, devices: Seq<IOCell>) -> Registers {
    if spec_any_ready(devices) {
        if registers.spec_flag(4) {
            registers.spec_with_flag(5, true)
        } else {
            registers
        }
    } else {
        registers.spec_with_flag(5, false)
    }
}

/// The machine after the status word is settled: an interrupt cannot be
/// pending while interrupts are forbidden, and an exchange with a device that
/// is under way is carried out.
pub open spec fn spec_settle_status(c: ComputerView) -> ComputerView {
    let calmed = if !c.registers.spec_flag(4) {
        c.with_registers(c.registers.spec_with_flag(5, false))
    } else {
        c
    };
    if calmed.registers.spec_flag(12) {
        calmed.process_io_command()
    } else {
        calmed
    }
}

/// The machine after the program `program`, read from cards, is loaded:
/// general memory holds the program on zeros, and the command counter holds
/// the program's start where a card marks one.
pub open spec fn spec_load_cards(c: ComputerView, program: CardProgramView) -> ComputerView {
    ComputerView {
        general: spec_loaded(spec_cleared(c.general), program.image),
        registers: match program.start {
            Some(address) => Register::CommandCounter.spec_assign(c.registers, address),
            None => c.registers,
        },
        ..c
    }
}

impl Computer {
    /// Loads a program read from cards into general memory. Where a card
    /// names an address beyond general memory, nothing is changed and the
    /// result is `false`.
    pub fn load_cards(&mut self, program: &CardProgram) -> (done: bool)
        requires
            old(self).wf(),
        ensures
            done == spec_fits(program.image@, GENERAL_MEMORY_SIZE as int),
            done ==> final(self)@ == spec_load_cards(old(self)@, program@),
            !done ==> final(self)@ == old(self)@,
            final(self).wf(),
            final(self).same_banks(old(self)),
            old(self).registers.wf() ==> final(self).registers.wf(),
    {
        if !self.general_memory.apply(&program.image) {
            return false;
        }
        proof {
            crate::laws::lemma_cleared_forgets_load(
                spec_cleared(old(self)@.general),
                program.image@,
            );
        }
        match program.start {
            Some(address) => {
                Register::CommandCounter.assign(self, address);
            },
            None => {},
        }
        true
    }

    /// Runs micro-steps until one halts or `limit` of them have run, and says
    /// whether one halted.
    pub fn run(&mut self, limit: u32) -> (halted: bool)
        requires
            old(self).wf(),
        ensures
            (final(self)@, halted) == spec_run(old(self)@, limit as nat),
            final(self).wf(),
            final(self).same_banks(old(self)),
            old(self).registers.wf() ==> final(self).registers.wf(),
    {
        let mut left: u32 = limit;
        while left > 0
            invariant
                self.wf(),
                self.same_banks(old(self)),
                old(self).registers.wf() ==> self.registers.wf(),
                spec_run(old(self)@, limit as nat) == spec_run(self@, left as nat),
            decreases left,
        {
            let result = self.micro_step();
            if result == ExecutionResult::Halted {
                return true;
            }
            left = left - 1;
        }
        false
    }

    /// Sets the three flags of the control panel.
    pub fn set_mode(&mut self, by_tick: bool, lever: bool, program: bool)
        ensures
            final(self)@ == old(self)@.with_registers(
                spec_mode(old(self).registers, by_tick, lever, program),
            ),
            final(self).same_banks(old(self)),
            old(self).registers.wf() ==> final(self).registers.wf(),
    {
        proof {
            lemma_with_flag(self.registers, 11, by_tick);
            lemma_with_flag(self.registers.spec_with_flag(11, by_tick), 7, lever);
            lemma_with_flag(
                self.registers.spec_with_flag(11, by_tick).spec_with_flag(7, lever),
                8,
                program,
            );
        }
        self.registers.set_execute_by_tick(by_tick);
        self.registers.set_lever(lever);
        self.registers.set_program_mode(program);
    }

    /// Whether one of the devices is ready.
    pub fn any_device_ready(&self) -> (ready: bool)
        ensures
            ready == spec_any_ready(self.io_devices@),
    {
        let mut i: usize = 0;
        while i < 16
            invariant
                i <= 16,
                self.io_devices@.len() == 16,
                forall|j: int| 0 <= j < i ==> !(#[trigger] self.io_devices@[j]).ready,
            decreases 16 - i,
        {
            if self.io_devices[i].ready {
                return true;
            }
            i = i + 1;
        }
        false
    }

    /// Brings the interrupt flag in line with the devices.
    pub fn poll_devices(&mut self)
        ensures
            final(self)@ == old(self)@.with_registers(
                spec_poll_devices(old(self).registers, old(self).io_devices@),
            ),
            final(self).same_banks(old(self)),
            old(self).registers.wf() ==> final(self).registers.wf(),
    {
        proof {
            lemma_with_flag(self.registers, 5, true);
            lemma_with_flag(self.registers, 5, false);
        }
        if self.any_device_ready() {
            if self.registers.get_allow_interupt() {
                self.registers.set_interrupt(true);
            }
        } else {
            self.registers.set_interrupt(false);
        }
    }

    /// Settles the status word after its flags were edited.
    pub fn settle_status(&mut self)
        ensures
            final(self)@ == spec_settle_status(old(self)@),
            final(self).same_banks(old(self)),
            old(self).wf() ==> final(self).wf(),
            old(self).registers.wf() ==> final(self).registers.wf(),
    {
        proof {
            lemma_with_flag(self.registers, 5, false);
        }
        if !self.registers.get_allow_interupt() {
            self.registers.set_interrupt(false);
        }
        if self.registers.get_io() {
            self.process_io_command();
        }
    }
}

/// The history after `registers` is recorded: where it held `HISTORY_MAX_SIZE`
/// snapshots, the oldest leaves first.
pub open spec fn spec_record(history: Seq<Registers>, registers: Registers) -> Seq<Registers> {
    (if history.len() >= HISTORY_MAX_SIZE {
        history.drop_first()
    } else {
        history
    }).push(registers)
}

/// The control panel: whether the machine runs by itself, and the snapshots
/// of the registers before each action, oldest first.
pub struct ControlPanel {
    pub auto_run: bool,
    pub history: Vec<Registers>,
}

impl ControlPanel {
    pub fn new() -> (panel: ControlPanel)
        ensures
            !panel.auto_run,
            panel.history@ == Seq::<Registers>::empty(),
    {
        ControlPanel { auto_run: false, history: Vec::new() }
    }

    /// Records the registers of `computer`.
    pub fn make_history_entry(&mut self, computer: &Computer)
        ensures
            final(self).auto_run == old(self).auto_run,
            final(self).history@ == spec_record(old(self).history@, computer.registers),
    {
        if self.history.len() >= HISTORY_MAX_SIZE {
            self.history.remove(0);
        }
        self.history.push(computer.registers);
        assert(self.history@ =~= spec_record(old(self).history@, computer.registers));
    }

    /// One micro-step, with the machine marked as stepped by micro-instructions.
    pub fn micro_step(&mut self, computer: &mut Computer) -> (result: ExecutionResult)
        requires
            old(computer).wf(),
        ensures
            final(self).auto_run == old(self).auto_run,
            final(self).history@ == spec_record(old(self).history@, old(computer).registers),
            (final(computer)@, result) == old(computer)@.with_registers(
                spec_mode(old(computer).registers, true, false, false),
            ).micro_step(),
            final(computer).wf(),
            final(computer).same_banks(old(computer)),
            old(computer).registers.wf() ==> final(computer).registers.wf(),
    {
        self.make_history_entry(computer);
        computer.set_mode(true, false, false);
        computer.micro_step()
    }

    /// One instruction: micro-steps until one halts or `limit` of them have
    /// run. The result says whether one halted.
    pub fn big_step(&mut self, computer: &mut Computer, limit: u32) -> (halted: bool)
        requires
            old(computer).wf(),
        ensures
            final(self).auto_run == old(self).auto_run,
            final(self).history@ == spec_record(old(self).history@, old(computer).registers),
            (final(computer)@, halted) == spec_run(
                old(computer)@.with_registers(
                    spec_mode(old(computer).registers, false, false, false),
                ),
                limit as nat,
            ),
            final(computer).wf(),
            final(computer).same_banks(old(computer)),
            old(computer).registers.wf() ==> final(computer).registers.wf(),
    {
        self.make_history_entry(computer);
        computer.set_mode(false, false, false);
        computer.run(limit)
    }

    /// Takes the last action back: the registers are as they were before it,
    /// and the machine no longer runs by itself. Without a snapshot nothing
    /// happens, and the result is `false`.
    pub fn back(&mut self, computer: &mut Computer) -> (done: bool)
        ensures
            done == (old(self).history@.len() > 0),
            done ==> final(self).history@ == old(self).history@.drop_last() && !final(self).auto_run && final(computer)@ == old(computer)@.with_registers(
                old(self).history@.last(),
            ),
            !done ==> final(self).history@ == old(self).history@ && final(self).auto_run == old(self).auto_run && *final(computer) == *old(computer),
            final(computer).same_banks(old(computer)),
    {
        match self.history.pop() {
            Some(registers) => {
                computer.registers = registers;
                self.auto_run = false;
                true
            },
            None => false,
        }
    }

    /// Starts a program: the micro-program counter goes to `START_ADDRESS`
    /// and the machine is set to run.
    pub fn start(&mut self, computer: &mut Computer)
        ensures
            final(self).auto_run == old(self).auto_run,
            final(self).history@ == spec_record(old(self).history@, old(computer).registers),
            final(computer)@ == old(computer)@.with_registers(
                spec_mode(
                    Registers {
                        r_micro_command_counter: START_ADDRESS,
                        ..old(computer).registers
                    },
                    false,
                    true,
                    true,
                ),
            ),
            final(computer).same_banks(old(computer)),
            old(computer).registers.wf() ==> final(computer).registers.wf(),
    {
        self.make_history_entry(computer);
        computer.registers.r_micro_command_counter = START_ADDRESS;
        computer.set_mode(false, true, true);
    }

    /// Lets the machine run on from where it is.
    pub fn resume(&mut self, computer: &mut Computer)
        ensures
            final(self).auto_run == old(self).auto_run,
            final(self).history@ == spec_record(old(self).history@, old(computer).registers),
            final(computer)@ == old(computer)@.with_registers(
                spec_mode(old(computer).registers, false, true, true),
            ),
            final(computer).same_banks(old(computer)),
            old(computer).registers.wf() ==> final(computer).registers.wf(),
    {
        self.make_history_entry(computer);
        computer.set_mode(false, true, true);
    }

    /// One tick of the panel. A machine whose run lever is set runs by itself
    /// from now on. A machine that runs by itself takes up to
    /// `STEPS_PER_TICK` micro-steps; when one of them halts, the lever is
    /// cleared and the machine no longer runs by itself. The result says
    /// whether the machine halted in this tick with its lever still set, which
    /// is when the user is told.
    pub fn tick(&mut self, computer: &mut Computer) -> (announce: bool)
        requires
            old(computer).wf(),
        ensures
            final(self).history@ == old(self).history@,
            ({
                let running = old(self).auto_run || old(computer).registers.spec_flag(7);
                let (ran, halted) = spec_run(old(computer)@, STEPS_PER_TICK as nat);
                &&& !running ==> !announce && !final(self).auto_run && final(computer)@ == old(computer)@
                &&& running && !halted ==> !announce && final(self).auto_run && final(computer)@
                    == ran
                &&& running && halted ==> announce == ran.registers.spec_flag(7) && !final(self).auto_run && final(computer)@ == ran.with_registers(
                    ran.registers.spec_with_flag(7, false),
                )
            }),
            final(computer).wf(),
            final(computer).same_banks(old(computer)),
            old(computer).registers.wf() ==> final(computer).registers.wf(),
    {
        if computer.registers.get_lever() {
            self.auto_run = true;
        }
        if self.auto_run {
            if computer.run(STEPS_PER_TICK) {
                let announce = computer.registers.get_lever();
                proof {
                    lemma_with_flag(computer.registers, 7, false);
                }
                computer.registers.set_lever(false);
                self.auto_run = false;
                return announce;
            }
        }
        false
    }
}

} // verus!
