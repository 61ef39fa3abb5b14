//! What holds of the machine whatever it holds: statements that relate several
//! operations, each proved from the definitions of those operations.

use crate::bits::spec_bit_at;
use crate::model::{
    lemma_width_masks, lemma_with_flag, spec_cleared, spec_loaded, spec_next_command,
    spec_next_micro_command, CellView, ComputerView, IOCell, Register, Registers,
};
use crate::parse::mc::{
    lemma_fields, spec_parse, Complement, ControlCommand, ExecutionResult, Memory,
    MicroInstruction, OperationalCommand0, OperationalCommand1, Operation, Shift,
};
use vstd::prelude::*;

verus! {

/// After a write to a register, the register holds the value that was written
/// cut to the register's width, and every other register holds what it held.
pub proof fn lemma_assign_is_masked(register: Register, registers: Registers, data: u32)
    ensures
        register.spec_get_wide(register.spec_assign_wide(registers, data)) == data
            & register.spec_width_mask(),
        forall|other: Register|
            other != register ==> #[trigger] other.spec_get_wide(
                register.spec_assign_wide(registers, data),
            ) == other.spec_get_wide(registers),
        registers.wf() ==> register.spec_assign_wide(registers, data).wf(),
{
    lemma_width_masks(0, data);
}

/// Clearing a memory that was loaded gives what clearing it before the load gives.
pub proof fn lemma_cleared_forgets_load(mem: Seq<CellView>, image: Seq<(u16, u16)>)
    ensures
        spec_loaded(mem, image).len() == mem.len(),
        spec_cleared(spec_loaded(mem, image)) == spec_cleared(mem),
    decreases image.len(),
{
    if image.len() > 0 {
        lemma_cleared_forgets_load(mem, image.drop_last());
        let before = spec_loaded(mem, image.drop_last());
        assert(spec_cleared(spec_loaded(mem, image)) =~= spec_cleared(before));
    } else {
        assert(spec_cleared(spec_loaded(mem, image)) =~= spec_cleared(mem));
    }
}

/// A reset of memory right after a reset of memory changes nothing: both banks
/// hold after the second what they held after the first.
pub proof fn lemma_reset_memory_idempotent(c: ComputerView)
    ensures
        c.reset_memory().reset_memory() == c.reset_memory(),
{
    let once = c.reset_memory();
    let twice = once.reset_memory();
    lemma_cleared_forgets_load(spec_cleared(c.mc), c.boot);
    assert(spec_cleared(spec_cleared(c.mc)) =~= spec_cleared(c.mc));
    assert(spec_cleared(spec_cleared(c.general)) =~= spec_cleared(c.general));
    assert(twice.mc == once.mc);
    assert(twice.general == once.general);
}

/// A word of microcode whose highest bit is set is a conditional jump, a word
/// that starts with `01` is of the second operational class, and any other
/// word of the first.
pub proof fn lemma_classes(word: u16)
    ensures
        word >= 0x8000 ==> spec_parse(word) == MicroInstruction::Control(ControlCommand(word)),
        0x4000 <= word < 0x8000 ==> spec_parse(word) == MicroInstruction::Operational1(
            OperationalCommand1(word),
        ),
        word < 0x4000 ==> spec_parse(word) == MicroInstruction::Operational0(
            OperationalCommand0(word),
        ),
{
    lemma_fields(word);
    assert((word >= 0x8000 ==> (word >> 14u16) >= 2) && (0x4000 <= word < 0x8000 ==> (word
        >> 14u16) == 1) && (word < 0x4000 ==> (word >> 14u16) == 0)) by (bit_vector);
}

/// One micro-step on a conditional jump. Where the tested bit of the selected
/// register has the value that the jump asks for, the micro-program counter
/// holds the jump's target afterwards and the step ends as `Jumped`.
/// Otherwise the step ends as `Success` and the micro-program counter has
/// moved on by exactly one, from 255 to 0. In both cases the micro-command
/// register holds the word, and no other register, no memory cell and no
/// device has changed.
pub proof fn lemma_micro_step_jump(c: ComputerView)
    requires
        c.mc[c.registers.r_micro_command_counter as int].data >= 0x8000,
    ensures
        ({
            let word = c.mc[c.registers.r_micro_command_counter as int].data;
            let jump = ControlCommand(word);
            let (after, result) = c.micro_step();
            &&& jump.spec_taken(c.registers) ==> result == ExecutionResult::Jumped
                && after.registers == (Registers {
                r_micro_command: word,
                r_micro_command_counter: jump.spec_jump_address(),
                ..c.registers
            })
            &&& !jump.spec_taken(c.registers) ==> result == ExecutionResult::Success
                && after.registers == (Registers {
                r_micro_command: word,
                r_micro_command_counter: spec_next_micro_command(
                    c.registers.r_micro_command_counter,
                ),
                ..c.registers
            })
            &&& after.general == c.general
            &&& after.mc == c.mc
            &&& after.io_devices == c.io_devices
            &&& after.boot == c.boot
        }),
{
    let word = c.mc[c.registers.r_micro_command_counter as int].data;
    lemma_classes(word);
    lemma_fields(word);
    let jump = ControlCommand(word);
    let started = c.with_registers(Registers { r_micro_command: word, ..c.registers });
    assert(jump.spec_register().spec_get(started.registers) == jump.spec_register().spec_get(
        c.registers,
    ));
}

/// A micro-instruction of the second operational class whose bit 3 is set
/// halts: the run ends as `Halted`, the log has one more entry, and no
/// register, no memory cell and no device has changed, whatever the other
/// bits of the word ask for.
pub proof fn lemma_halt(c: ComputerView, word: u16)
    requires
        0x4000 <= word < 0x8000,
        spec_bit_at(word, 3),
    ensures
        spec_parse(word).spec_run(c) == (
            c.log(false, "Оппа, моя остановочка."@),
            ExecutionResult::Halted,
        ),
        spec_parse(word).spec_run(c).0.registers == c.registers,
        spec_parse(word).spec_run(c).0.general == c.general,
        spec_parse(word).spec_run(c).0.mc == c.mc,
        spec_parse(word).spec_run(c).0.io_devices == c.io_devices,
{
    lemma_classes(word);
}

/// One micro-step on a halting micro-instruction ends as `Halted`. The
/// micro-command register holds the word and the micro-program counter has
/// moved on by one; no other register has changed: not the buffer register,
/// not the carry flag, not a register that a write-back could reach.
pub proof fn lemma_micro_step_halt(c: ComputerView)
    requires
        0x4000 <= c.mc[c.registers.r_micro_command_counter as int].data < 0x8000,
        spec_bit_at(c.mc[c.registers.r_micro_command_counter as int].data, 3),
    ensures
        c.micro_step().1 == ExecutionResult::Halted,
        c.micro_step().0.registers == (Registers {
            r_micro_command: c.mc[c.registers.r_micro_command_counter as int].data,
            r_micro_command_counter: spec_next_micro_command(c.registers.r_micro_command_counter),
            ..c.registers
        }),
        c.micro_step().0.general == c.general,
        c.micro_step().0.mc == c.mc,
        c.micro_step().0.io_devices == c.io_devices,
{
    let word = c.mc[c.registers.r_micro_command_counter as int].data;
    let started = c.with_registers(Registers { r_micro_command: word, ..c.registers });
    lemma_halt(started, word);
}

/// The word zero is a micro-instruction of the first operational class that
/// selects no operand, no shift and no memory access: it puts the sum of
/// nothing, zero, into the buffer register.
pub proof fn lemma_zero_word(c: ComputerView)
    ensures
        spec_parse(0) == MicroInstruction::Operational0(OperationalCommand0(0)),
        OperationalCommand0(0).spec_left_input() is None,
        OperationalCommand0(0).spec_right_input() is None,
        OperationalCommand0(0).spec_shift() == Shift::Neither,
        OperationalCommand0(0).spec_memory() == Memory::Idle,
        OperationalCommand0(0).spec_complement() == Complement::Neither,
        OperationalCommand0(0).spec_operation() == Operation::LeftPlusRight,
        spec_parse(0).spec_run(c).1 == ExecutionResult::Success,
        spec_parse(0).spec_run(c).0.registers == (Registers { r_buffer: 0, ..c.registers }),
        spec_parse(0).spec_run(c).0.general == c.general,
        spec_parse(0).spec_run(c).0.mc == c.mc,
        spec_parse(0).spec_run(c).0.io_devices == c.io_devices,
{
    lemma_classes(0);
    assert(forall|pos: u16| pos < 16 ==> (0u16 >> pos) & 1u16 == 0u16) by (bit_vector);
    assert(forall|pos: u8| !spec_bit_at(0, pos)) by {
        assert forall|pos: u8| !spec_bit_at(0, pos) by {
            if pos < 16 {
                assert((0u16 >> (pos as u16)) & 1u16 == 0u16);
            }
        }
    }
}

/// After an exchange with a device, whatever its kind, the flag that says that
/// an exchange is under way is clear, both banks are as they were, and only
/// the device that the data register names can have changed.
pub proof fn lemma_io_ends_the_exchange(c: ComputerView)
    requires
        c.io_devices.len() == 16,
    ensures
        !c.process_io_command().registers.spec_flag(12),
        c.process_io_command().general == c.general,
        c.process_io_command().mc == c.mc,
        c.process_io_command().io_devices.len() == 16,
        forall|i: int|
            0 <= i < 16 && i != (c.registers.r_data & 0xF) ==> c.process_io_command().io_devices[i]
                == c.io_devices[i],
{
    let opcode = c.registers.r_data;
    assert(opcode & 0xF < 16) by (bit_vector);
    let device = c.io_devices[(opcode & 0xF) as int];
    let read = Registers {
        r_counter: (c.registers.r_counter & 0xFF00) | (device.data as u16),
        ..c.registers
    };
    let polled = c.registers.spec_with_flag(6, device.ready);
    let moved = Registers {
        r_command_counter: spec_next_command(polled.r_command_counter),
        ..polled
    };
    lemma_with_flag(c.registers, 12, false);
    lemma_with_flag(read, 12, false);
    lemma_with_flag(polled, 12, false);
    lemma_with_flag(moved, 12, false);
}

/// A request with both bits 8 and 9 set writes to a device: afterwards the
/// device that bits 0 to 3 of the data register name holds the low byte of the
/// accumulator, its ready flag is as it was, and no register but the status
/// word has changed.
pub proof fn lemma_io_write(c: ComputerView)
    requires
        c.io_devices.len() == 16,
        c.registers.r_data & 0x0300 == 0x0300,
    ensures
        c.process_io_command().io_devices[(c.registers.r_data & 0xF) as int] == (IOCell {
            data: (c.registers.r_counter & 0xFF) as u8,
            ready: c.io_devices[(c.registers.r_data & 0xF) as int].ready,
        }),
        c.process_io_command().registers == c.registers.spec_with_flag(12, false),
{
    let opcode = c.registers.r_data;
    assert(opcode & 0xF < 16) by (bit_vector);
}

} // verus!
