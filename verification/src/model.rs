//! The machine: its registers and status flags, its two memory banks, its
//! devices and its diagnostic log.

use crate::bits::{bit_at, lemma_set_bit_at, set_bit_at, spec_bit_at, spec_set_bit_at};
use crate::parse::general::{GeneralCommandInfo, GeneralParser};
use crate::parse::mc::{parse, spec_parse, ExecutionResult, McParser, MicroCommandInfo};
use crate::parse::{CommandInfo, Parser};
use crate::text::{
    append_decimal, append_hex, append_hex_digits, lines, parse_hex, push_char, spec_decimal,
    spec_hex, spec_hex_digits, spec_lines, spec_parse_hex, spec_split, split, texts, to_chars,
};
use std::marker::PhantomData;
use std::time::SystemTime;
use vstd::prelude::*;
use vstd::string::*;

verus! {

/// The registers, by name.
#[derive(PartialEq, Eq, Structural, Clone, Copy, Debug)]
pub enum Register {
    McCounter,
    Status,
    MicroCommand,
    Buffer,
    Address,
    Command,
    Data,
    CommandCounter,
    Counter,
}

/// The register file. The status word has 13 bits, the address register and the
/// command counter 11, the buffer register 17: the 16 bits of a result and its carry.
#[derive(Clone, Copy, Debug)]
pub struct Registers {
    /// The micro-program counter: the micro-instruction to run next.
    pub r_micro_command_counter: u8,
    /// The status word, one flag to a bit.
    pub r_status: u16,
    /// The micro-instruction that ran last.
    pub r_micro_command: u16,
    /// The buffer register.
    pub r_buffer: u32,
    /// The address register.
    pub r_address: u16,
    /// The command register.
    pub r_command: u16,
    /// The data register.
    pub r_data: u16,
    /// The command counter: the instruction to run next.
    pub r_command_counter: u16,
    /// The accumulator.
    pub r_counter: u16,
}

impl Register {
    /// The name of the register as the machine's manual writes it.
    pub open spec fn spec_mnemonic(&self) -> Seq<char> {
        match self {
            Register::Status => "РС"@,
            Register::McCounter => "СчМК"@,
            Register::Buffer => "БР"@,
            Register::MicroCommand => "РМК"@,
            Register::Address => "РА"@,
            Register::Command => "РК"@,
            Register::Data => "РД"@,
            Register::CommandCounter => "СК"@,
            Register::Counter => "А"@,
        }
    }

    /// The bits that the register has.
    pub open spec fn spec_width_mask(&self) -> u32 {
        match self {
            Register::McCounter => 0xFF,
            Register::Status => 0x1FFF,
            Register::Buffer => 0x1FFFF,
            Register::Address => 0x7FF,
            Register::CommandCounter => 0x7FF,
            Register::MicroCommand | Register::Command | Register::Data | Register::Counter => 0xFFFF,
        }
    }

    /// What the register holds.
    pub open spec fn spec_get_wide(&self, registers: Registers) -> u32 {
        match self {
            Register::Status => registers.r_status as u32,
            Register::MicroCommand => registers.r_micro_command as u32,
            Register::Address => registers.r_address as u32,
            Register::Command => registers.r_command as u32,
            Register::Data => registers.r_data as u32,
            Register::CommandCounter => registers.r_command_counter as u32,
            Register::Counter => registers.r_counter as u32,
            Register::McCounter => registers.r_micro_command_counter as u32,
            Register::Buffer => registers.r_buffer,
        }
    }

    /// The low 16 bits of what the register holds.
    pub open spec fn spec_get(&self, registers: Registers) -> u16 {
        (self.spec_get_wide(registers) & 0xFFFF) as u16
    }

    /// The register file after `value` is put into the register as it is.
    pub open spec fn spec_store(&self, registers: Registers, value: u32) -> Registers {
        match self {
            Register::Status => Registers { r_status: value as u16, ..registers },
            Register::MicroCommand => Registers { r_micro_command: value as u16, ..registers },
            Register::Address => Registers { r_address: value as u16, ..registers },
            Register::Command => Registers { r_command: value as u16, ..registers },
            Register::Data => Registers { r_data: value as u16, ..registers },
            Register::CommandCounter => Registers { r_command_counter: value as u16, ..registers },
            Register::Counter => Registers { r_counter: value as u16, ..registers },
            Register::McCounter => Registers { r_micro_command_counter: value as u8, ..registers },
            Register::Buffer => Registers { r_buffer: value, ..registers },
        }
    }

    /// The register file after `data` is written to the register: the register
    /// holds `data` cut to its width, and the other registers are as before.
    pub open spec fn spec_assign_wide(&self, registers: Registers, data: u32) -> Registers {
        self.spec_store(registers, data & self.spec_width_mask())
    }

    /// The same for a 16-bit value.
    pub open spec fn spec_assign(&self, registers: Registers, data: u16) -> Registers {
        self.spec_assign_wide(registers, data as u32)
    }

    /// The register's content in hexadecimal: two digits for the micro-program
    /// counter, five for the buffer register, four for the others.
    pub open spec fn spec_format(&self, registers: Registers) -> Seq<char> {
        match self {
            Register::McCounter => spec_hex(registers.r_micro_command_counter as nat, 2),
            Register::Buffer => spec_hex(registers.r_buffer as nat, 5),
            _ => spec_hex(self.spec_get(registers) as nat, 4),
        }
    }

    pub fn mnemonic(&self) -> (s: String)
        ensures
            s@ == self.spec_mnemonic(),
    {
        String::from_str(
            match self {
                Register::Status => "РС",
                Register::McCounter => "СчМК",
                Register::Buffer => "БР",
                Register::MicroCommand => "РМК",
                Register::Address => "РА",
                Register::Command => "РК",
                Register::Data => "РД",
                Register::CommandCounter => "СК",
                Register::Counter => "А",
            },
        )
    }

    /// The register's content in hexadecimal.
    pub fn format(&self, computer: &Computer) -> (s: String)
        ensures
            s@ == self.spec_format(computer.registers),
    {
        let mut s = String::new();
        match self {
            Register::McCounter => {
                append_hex(&mut s, computer.registers.r_micro_command_counter as u32, 2);
                assert(s@ =~= self.spec_format(computer.registers));
            },
            Register::Buffer => {
                append_hex(&mut s, computer.registers.r_buffer, 5);
                assert(s@ =~= self.spec_format(computer.registers));
            },
            _ => {
                append_hex(&mut s, self.get(computer) as u32, 4);
                assert(s@ =~= self.spec_format(computer.registers));
            },
        }
        s
    }

    /// Writes `data` to the register: the register then holds `data` cut to
    /// its width, and nothing else changes.
    pub fn assign_wide(&self, computer: &mut Computer, data: u32)
        ensures
            *final(computer) == (Computer {
                registers: self.spec_assign_wide(old(computer).registers, data),
                ..*old(computer)
            }),
            self.spec_get_wide(final(computer).registers) == data & self.spec_width_mask(),
            old(computer).registers.wf() ==> final(computer).registers.wf(),
    {
        proof {
            lemma_width_masks(0, data);
        }
        match self {
            Register::Buffer => {
                computer.registers.r_buffer = data & 0x1FFFF;
            },
            Register::Status => {
                computer.registers.r_status = (data & 0x1FFF) as u16;
            },
            Register::MicroCommand => {
                computer.registers.r_micro_command = (data & 0xFFFF) as u16;
            },
            Register::Address => {
                computer.registers.r_address = (data & 0x7FF) as u16;
            },
            Register::Command => {
                computer.registers.r_command = (data & 0xFFFF) as u16;
            },
            Register::Data => {
                computer.registers.r_data = (data & 0xFFFF) as u16;
            },
            Register::CommandCounter => {
                computer.registers.r_command_counter = (data & 0x7FF) as u16;
            },
            Register::Counter => {
                computer.registers.r_counter = (data & 0xFFFF) as u16;
            },
            Register::McCounter => {
                computer.registers.r_micro_command_counter = (data & 0xFF) as u8;
            },
        }
    }

    /// Writes the 16-bit value `data` to the register: the register then holds
    /// `data` cut to its width, and nothing else changes.
    pub fn assign(&self, computer: &mut Computer, data: u16)
        ensures
            *final(computer) == (Computer {
                registers: self.spec_assign(old(computer).registers, data),
                ..*old(computer)
            }),
            self.spec_get_wide(final(computer).registers) == (data as u32) & self.spec_width_mask(),
            old(computer).registers.wf() ==> final(computer).registers.wf(),
    {
        self.assign_wide(computer, data as u32)
    }

    /// The low 16 bits of what the register holds.
    pub fn get(&self, computer: &Computer) -> (v: u16)
        ensures
            v == self.spec_get(computer.registers),
    {
        proof {
            lemma_width_masks(computer.registers.r_status, computer.registers.r_buffer);
            lemma_width_masks(computer.registers.r_micro_command, 0);
            lemma_width_masks(computer.registers.r_address, 0);
            lemma_width_masks(computer.registers.r_command, 0);
            lemma_width_masks(computer.registers.r_data, 0);
            lemma_width_masks(computer.registers.r_command_counter, 0);
            lemma_width_masks(computer.registers.r_counter, 0);
            lemma_width_masks(computer.registers.r_micro_command_counter as u16, 0);
        }
        match self {
            Register::Status => computer.registers.r_status,
            Register::MicroCommand => computer.registers.r_micro_command,
            Register::Address => computer.registers.r_address,
            Register::Command => computer.registers.r_command,
            Register::Data => computer.registers.r_data,
            Register::CommandCounter => computer.registers.r_command_counter,
            Register::Counter => computer.registers.r_counter,
            Register::McCounter => computer.registers.r_micro_command_counter as u16,
            Register::Buffer => (computer.registers.r_buffer & 0xFFFF) as u16,
        }
    }
}

/// Cutting a value to a register's width, on 16 and on 32 bits.
pub proof fn lemma_width_masks(data: u16, wide: u32)
    ensures
        (data & 0x1FFF) as u32 == (data as u32) & 0x1FFF,
        (data & 0x7FF) as u32 == (data as u32) & 0x7FF,
        data as u32 == (data as u32) & 0xFFFF,
        data as u32 == (data as u32) & 0x1FFFF,
        ((data as u32) & 0xFF) as u8 == data as u8,
        ((wide as u16) & 0x1FFF) as u32 == wide & 0x1FFF,
        ((wide as u16) & 0x7FF) as u32 == wide & 0x7FF,
        (wide as u16) as u32 == wide & 0xFFFF,
        ((wide as u16) as u8) as u32 == wide & 0xFF,
        wide & 0x1FFF <= 0x1FFF,
        wide & 0x7FF <= 0x7FF,
        wide & 0x1FFFF <= 0x1FFFF,
        wide & 0xFFFF <= 0xFFFF,
        wide & 0xFF <= 0xFF,
        wide <= 0xFFFF ==> wide & 0xFFFF == wide,
{
    assert((data & 0x1FFF) as u32 == (data as u32) & 0x1FFF && (data & 0x7FF) as u32 == (
    data as u32) & 0x7FF && data as u32 == (data as u32) & 0xFFFF && data as u32 == (data as u32)
        & 0x1FFFF && ((data as u32) & 0xFF) as u8 == data as u8) by (bit_vector);
    assert(((wide as u16) & 0x1FFF) as u32 == wide & 0x1FFF && ((wide as u16) & 0x7FF) as u32
        == wide & 0x7FF && (wide as u16) as u32 == wide & 0xFFFF && ((wide as u16) as u8) as u32
        == wide & 0xFF && wide & 0x1FFF <= 0x1FFF && wide & 0x7FF <= 0x7FF && wide & 0x1FFFF
        <= 0x1FFFF && wide & 0xFFFF <= 0xFFFF && wide & 0xFF <= 0xFF && (wide <= 0xFFFF ==> wide
        & 0xFFFF == wide)) by (bit_vector);
}

impl Registers {
    /// Every register is within its width.
    pub open spec fn wf(&self) -> bool {
        &&& self.r_status <= 0x1FFF
        &&& self.r_address <= 0x7FF
        &&& self.r_command_counter <= 0x7FF
        &&& self.r_buffer <= 0x1FFFF
    }

    /// Flag `pos` of the status word.
    pub open spec fn spec_flag(&self, pos: u8) -> bool {
        spec_bit_at(self.r_status, pos)
    }

    /// The register file with flag `pos` of the status word made `v`.
    pub open spec fn spec_with_flag(&self, pos: u16, v: bool) -> Registers {
        Registers { r_status: spec_set_bit_at(self.r_status, pos, v), ..*self }
    }

    /// All registers zero.
    pub open spec fn spec_new() -> Registers {
        Registers {
            r_micro_command_counter: 0,
            r_status: 0,
            r_micro_command: 0,
            r_buffer: 0,
            r_address: 0,
            r_command: 0,
            r_data: 0,
            r_command_counter: 0,
            r_counter: 0,
        }
    }

    pub fn new() -> (r: Self)
        ensures
            r == Registers::spec_new(),
            r.wf(),
    {
        Registers {
            r_micro_command_counter: 0,
            r_status: 0,
            r_command_counter: 0,
            r_micro_command: 0,
            r_buffer: 0,
            r_address: 0,
            r_command: 0,
            r_data: 0,
            r_counter: 0,
        }
    }

    /// Sets flag 0 of the status word: carry out of the accumulator.
    pub fn set_overflow(&mut self, v: bool)
        ensures
            *final(self) == old(self).spec_with_flag(0, v),
    {
        self.r_status = set_bit_at(self.r_status, 0, v);
    }

    /// Flag 0 of the status word: carry out of the accumulator.
    pub fn get_overflow(&self) -> (v: bool)
        ensures
            v == self.spec_flag(0),
    {
        bit_at(self.r_status, 0)
    }

    /// Sets flag 1 of the status word: the buffer register held zero.
    pub fn set_null(&mut self, v: bool)
        ensures
            *final(self) == old(self).spec_with_flag(1, v),
    {
        self.r_status = set_bit_at(self.r_status, 1, v);
    }

    /// Flag 1 of the status word: the buffer register held zero.
    pub fn get_null(&self) -> (v: bool)
        ensures
            v == self.spec_flag(1),
    {
        bit_at(self.r_status, 1)
    }

    /// Sets flag 2 of the status word: the buffer register held a negative number.
    pub fn set_negative(&mut self, v: bool)
        ensures
            *final(self) == old(self).spec_with_flag(2, v),
    {
        self.r_status = set_bit_at(self.r_status, 2, v);
    }

    /// Flag 2 of the status word: the buffer register held a negative number.
    pub fn get_negative(&self) -> (v: bool)
        ensures
            v == self.spec_flag(2),
    {
        bit_at(self.r_status, 2)
    }

    /// Sets flag 4 of the status word: devices may interrupt.
    pub fn set_allow_interrupt(&mut self, v: bool)
        ensures
            *final(self) == old(self).spec_with_flag(4, v),
    {
        self.r_status = set_bit_at(self.r_status, 4, v);
    }

    /// Flag 4 of the status word: devices may interrupt.
    pub fn get_allow_interupt(&self) -> (v: bool)
        ensures
            v == self.spec_flag(4),
    {
        bit_at(self.r_status, 4)
    }

    /// Sets flag 5 of the status word: an interrupt is pending.
    pub fn set_interrupt(&mut self, v: bool)
        ensures
            *final(self) == old(self).spec_with_flag(5, v),
    {
        self.r_status = set_bit_at(self.r_status, 5, v);
    }

    /// Flag 5 of the status word: an interrupt is pending.
    pub fn get_interupt(&self) -> (v: bool)
        ensures
            v == self.spec_flag(5),
    {
        bit_at(self.r_status, 5)
    }

    /// Sets flag 6 of the status word: the device polled last was ready.
    pub fn set_io_ready(&mut self, v: bool)
        ensures
            *final(self) == old(self).spec_with_flag(6, v),
    {
        self.r_status = set_bit_at(self.r_status, 6, v);
    }

    /// Flag 6 of the status word: the device polled last was ready.
    pub fn get_io_ready(&self) -> (v: bool)
        ensures
            v == self.spec_flag(6),
    {
        bit_at(self.r_status, 6)
    }

    /// Sets flag 7 of the status word: the run lever: run, or halt after the instruction.
    pub fn set_lever(&mut self, v: bool)
        ensures
            *final(self) == old(self).spec_with_flag(7, v),
    {
        self.r_status = set_bit_at(self.r_status, 7, v);
    }

    /// Flag 7 of the status word: the run lever: run, or halt after the instruction.
    pub fn get_lever(&self) -> (v: bool)
        ensures
            v == self.spec_flag(7),
    {
        bit_at(self.r_status, 7)
    }

    /// Sets flag 8 of the status word: the machine runs a program by itself.
    pub fn set_program_mode(&mut self, v: bool)
        ensures
            *final(self) == old(self).spec_with_flag(8, v),
    {
        self.r_status = set_bit_at(self.r_status, 8, v);
    }

    /// Flag 8 of the status word: the machine runs a program by itself.
    pub fn get_program_mode(&self) -> (v: bool)
        ensures
            v == self.spec_flag(8),
    {
        bit_at(self.r_status, 8)
    }

    /// Sets flag 11 of the status word: the machine is stepped one micro-instruction at a time.
    pub fn set_execute_by_tick(&mut self, v: bool)
        ensures
            *final(self) == old(self).spec_with_flag(11, v),
    {
        self.r_status = set_bit_at(self.r_status, 11, v);
    }

    /// Flag 11 of the status word: the machine is stepped one micro-instruction at a time.
    pub fn get_execute_by_tick(&self) -> (v: bool)
        ensures
            v == self.spec_flag(11),
    {
        bit_at(self.r_status, 11)
    }

    /// Sets flag 12 of the status word: an exchange with a device is under way.
    pub fn set_io(&mut self, v: bool)
        ensures
            *final(self) == old(self).spec_with_flag(12, v),
    {
        self.r_status = set_bit_at(self.r_status, 12, v);
    }

    /// Flag 12 of the status word: an exchange with a device is under way.
    pub fn get_io(&self) -> (v: bool)
        ensures
            v == self.spec_flag(12),
    {
        bit_at(self.r_status, 12)
    }

}

/// Setting or clearing one of the 13 flags keeps the status word within its
/// width, changes that flag and leaves the others.
pub proof fn lemma_with_flag(registers: Registers, pos: u16, v: bool)
    requires
        pos <= 12,
    ensures
        registers.wf() ==> registers.spec_with_flag(pos, v).wf(),
        registers.spec_with_flag(pos, v).spec_flag(pos as u8) == v,
        forall|other: u8|
            other != pos ==> #[trigger] registers.spec_with_flag(pos, v).spec_flag(other)
                == registers.spec_flag(other),
{
    let x = registers.r_status;
    lemma_set_bit_at(x, pos, v);
    assert(x <= 0x1FFF ==> (x | (1u16 << pos)) <= 0x1FFF && (x & !(1u16 << pos)) <= 0x1FFF)
        by (bit_vector)
        requires
            pos <= 12,
    ;
}

/// The point in time at which a memory cell was written last. Opaque: nothing in
/// the machine reads it.
#[verifier::external_type_specification]
#[verifier::external_body]
pub struct ExSystemTime(SystemTime);

/// `SystemTime::now`: the current time of the system clock. Nothing is said of it.
#[verifier::external_body]
fn now() -> (t: SystemTime) {
    SystemTime::now()
}

/// `SystemTime::UNIX_EPOCH`: the time that stands for "never written".
#[verifier::external_body]
fn unix_epoch() -> (t: SystemTime) {
    SystemTime::UNIX_EPOCH
}

/// The number of cells of general memory.
pub const GENERAL_MEMORY_SIZE: usize = 2048;

/// The number of cells of microcode memory.
pub const MC_MEMORY_SIZE: usize = 256;

/// The number of devices.
pub const DEVICES: usize = 16;

/// The log drops its oldest entry when it holds more than this many.
pub const LOG_LIMIT: usize = 100;

/// What a memory cell holds: its value, and the names that tools may give it.
pub struct CellView {
    pub data: u16,
    pub mnemonic: Option<Seq<char>>,
    pub name: Option<Seq<char>>,
}

/// A cell of memory: a 16-bit value, the time of its last write, and the names
/// that tools may give it.
pub struct MemoryCell {
    data: u16,
    last_touched: SystemTime,
    pub mnemonic: Option<String>,
    pub name: Option<String>,
}

/// The characters of an optional text.
pub open spec fn option_text(s: Option<String>) -> Option<Seq<char>> {
    match s {
        Some(t) => Some(t@),
        None => None,
    }
}

impl View for MemoryCell {
    type V = CellView;

    closed spec fn view(&self) -> CellView {
        CellView {
            data: self.data,
            mnemonic: option_text(self.mnemonic),
            name: option_text(self.name),
        }
    }
}

impl MemoryCell {
    /// A cell that holds zero and has no names.
    pub fn new() -> (cell: MemoryCell)
        ensures
            cell@ == (CellView { data: 0, mnemonic: None, name: None }),
    {
        MemoryCell { data: 0, last_touched: unix_epoch(), mnemonic: None, name: None }
    }

    /// Writes `data` to the cell and marks it as written now.
    pub fn set(&mut self, data: u16)
        ensures
            final(self)@ == (CellView { data, ..old(self)@ }),
    {
        self.data = data;
        self.last_touched = now();
    }

    pub fn get(&self) -> (data: u16)
        ensures
            data == self@.data,
    {
        self.data
    }
}

/// The views of the cells `cells`.
pub open spec fn cell_views(cells: Seq<MemoryCell>) -> Seq<CellView> {
    Seq::new(cells.len(), |i: int| cells[i]@)
}

/// `n` cells that hold zero and have no names.
pub open spec fn spec_blank(n: nat) -> Seq<CellView> {
    Seq::new(n, |i: int| CellView { data: 0, mnemonic: None, name: None })
}

/// The values of the cells `mem`.
pub open spec fn spec_values(mem: Seq<CellView>) -> Seq<u16> {
    Seq::new(mem.len(), |i: int| mem[i].data)
}

/// The memory `mem` after `value` is written to cell `index`.
pub open spec fn spec_write(mem: Seq<CellView>, index: int, value: u16) -> Seq<CellView> {
    if 0 <= index < mem.len() {
        mem.update(index, CellView { data: value, ..mem[index] })
    } else {
        mem
    }
}

/// The memory `mem` with every value zero.
pub open spec fn spec_cleared(mem: Seq<CellView>) -> Seq<CellView> {
    Seq::new(mem.len(), |i: int| CellView { data: 0, ..mem[i] })
}

/// The memory `mem` after the pairs of address and value in `image` are
/// written to it, one after the other. A pair whose address the memory lacks
/// writes nothing.
pub open spec fn spec_loaded(mem: Seq<CellView>, image: Seq<(u16, u16)>) -> Seq<CellView>
    decreases image.len(),
{
    if image.len() == 0 {
        mem
    } else {
        spec_write(spec_loaded(mem, image.drop_last()), image.last().0 as int, image.last().1)
    }
}

/// Whether every address of `image` is below `size`.
pub open spec fn spec_fits(image: Seq<(u16, u16)>, size: int) -> bool {
    forall|i: int| 0 <= i < image.len() ==> (#[trigger] image[i]).0 < size
}

/// The values `values` as the text of a program. A cell that holds zero is
/// left out. A cell that holds another value gives a line with the text that
/// the codec writes for the value; where it follows a cell that holds zero, or
/// none, a line `$pos` with its address in hexadecimal comes first.
pub open spec fn spec_dump<I: CommandInfo, P: Parser<I>>(values: Seq<u16>, parser: &P) -> Seq<char>
    decreases values.len(),
{
    if values.len() == 0 {
        Seq::empty()
    } else {
        let before = spec_dump(values.drop_last(), parser);
        let at = values.len() - 1;
        if values[at] == 0 {
            before
        } else {
            let placed = if at == 0 || values[at - 1] == 0 {
                before + "$pos "@ + spec_hex_digits(at as nat) + seq!['\n']
            } else {
                before
            };
            placed + parser.spec_parse(values[at]).spec_file_string() + seq!['\n']
        }
    }
}

/// A memory bank: its cells, and the codec of the words it holds.
pub struct Memory<I: CommandInfo, P: Parser<I>> {
    parser: P,
    data: Vec<MemoryCell>,
    name: &'static str,
    phantom: PhantomData<I>,
}

impl<I: CommandInfo, P: Parser<I>> View for Memory<I, P> {
    type V = Seq<CellView>;

    closed spec fn view(&self) -> Seq<CellView> {
        cell_views(self.data@)
    }
}

impl<I: CommandInfo, P: Parser<I>> Memory<I, P> {
    /// The codec of the bank.
    pub closed spec fn spec_parser(&self) -> P {
        self.parser
    }

    /// The name of the bank.
    pub closed spec fn spec_name(&self) -> &'static str {
        self.name
    }

    /// Whether `other` is the same bank with, it may be, other content.
    pub open spec fn same_bank(&self, other: &Self) -> bool {
        self.spec_parser() == other.spec_parser() && self.spec_name() == other.spec_name()
    }

    /// A bank of the cells `data`.
    pub fn new(parser: P, data: Vec<MemoryCell>, name: &'static str) -> (m: Self)
        ensures
            m@ == cell_views(data@),
            m.spec_parser() == parser,
            m.spec_name() == name,
    {
        Memory { parser, data, name, phantom: PhantomData }
    }

    pub fn parser(&self) -> (p: &P)
        ensures
            *p == self.spec_parser(),
    {
        &self.parser
    }

    pub fn name(&self) -> (n: &'static str)
        ensures
            n == self.spec_name(),
    {
        self.name
    }

    /// The number of cells.
    pub fn len(&self) -> (n: usize)
        ensures
            n == self@.len(),
    {
        self.data.len()
    }

    /// The value of cell `index`.
    pub fn get(&self, index: usize) -> (value: u16)
        requires
            index < self@.len(),
        ensures
            value == self@[index as int].data,
    {
        self.data[index].get()
    }

    /// Cell `index`.
    pub fn cell(&self, index: usize) -> (cell: &MemoryCell)
        requires
            index < self@.len(),
        ensures
            cell@ == self@[index as int],
    {
        &self.data[index]
    }

    /// Writes `value` to cell `index` and marks the cell as written now.
    pub fn set(&mut self, index: usize, value: u16)
        requires
            index < old(self)@.len(),
        ensures
            final(self)@ == spec_write(old(self)@, index as int, value),
            final(self).same_bank(old(self)),
    {
        self.data[index].data = value;
        self.data[index].last_touched = now();
        assert(self@ =~= spec_write(old(self)@, index as int, value));
    }

    /// Makes every value zero. No cell counts as written by this.
    pub fn clear(&mut self)
        ensures
            final(self)@ == spec_cleared(old(self)@),
            final(self).same_bank(old(self)),
    {
        let n: usize = self.data.len();
        let mut i: usize = 0;
        while i < n
            invariant
                i <= n == self.data@.len(),
                n == old(self).data@.len(),
                self.parser == old(self).parser,
                self.name == old(self).name,
                forall|j: int| 0 <= j < i ==> (#[trigger] self.data@[j])@ == (CellView {
                    data: 0,
                    ..old(self).data@[j]@
                }),
                forall|j: int| i <= j < n ==> (#[trigger] self.data@[j]) == old(self).data@[j],
            decreases n - i,
        {
            self.data[i].data = 0;
            i = i + 1;
        }
        assert(self@ =~= spec_cleared(old(self)@));
    }

    /// Replaces the content by the program `image`: every value becomes zero,
    /// then each pair of address and value is written. Where an address of
    /// `image` is beyond the bank, nothing is changed and the result is `false`.
    pub fn apply(&mut self, image: &Vec<(u16, u16)>) -> (done: bool)
        ensures
            done == spec_fits(image@, old(self)@.len() as int),
            done ==> final(self)@ == spec_loaded(spec_cleared(old(self)@), image@),
            !done ==> final(self)@ == old(self)@,
            final(self).same_bank(old(self)),
    {
        let n: usize = self.data.len();
        let mut k: usize = 0;
        while k < image.len()
            invariant
                k <= image.len(),
                n == self.data@.len(),
                *self == *old(self),
                forall|i: int| 0 <= i < k ==> (#[trigger] image@[i]).0 < n,
            decreases image.len() - k,
        {
            if image[k].0 as usize >= n {
                return false;
            }
            k = k + 1;
        }
        self.clear();
        let mut k: usize = 0;
        assert(image@.take(0) =~= Seq::<(u16, u16)>::empty());
        while k < image.len()
            invariant
                k <= image.len(),
                n == self@.len(),
                n == old(self)@.len(),
                spec_fits(image@, n as int),
                self.parser == old(self).parser,
                self.name == old(self).name,
                self@ == spec_loaded(spec_cleared(old(self)@), image@.take(k as int)),
            decreases image.len() - k,
        {
            let entry: (u16, u16) = image[k];
            assert(entry.0 < n);
            self.set(entry.0 as usize, entry.1);
            k = k + 1;
            assert(image@.take(k as int).drop_last() =~= image@.take(k - 1));
        }
        assert(image@.take(image.len() as int) =~= image@);
        true
    }

    /// The content as the text of a program, which `parse_file` reads.
    pub fn dump(&self) -> (s: String)
        ensures
            s@ == spec_dump(spec_values(self@), &self.spec_parser()),
    {
        let mut s = String::new();
        let mut prev_zero: bool = true;
        let mut i: usize = 0;
        let ghost values = spec_values(self@);
        assert(values.take(0) =~= Seq::<u16>::empty());
        while i < self.data.len()
            invariant
                i <= self.data@.len(),
                values == spec_values(self@),
                values.len() == self.data@.len(),
                prev_zero == (i == 0 || values[i - 1] == 0),
                s@ == spec_dump(values.take(i as int), &self.spec_parser()),
            decreases self.data@.len() - i,
        {
            let v: u16 = self.data[i].get();
            let ghost here = values.take(i + 1);
            assert(here.drop_last() =~= values.take(i as int));
            assert(here[i as int] == v);
            if i > 0 {
                assert(here[i - 1] == values[i - 1]);
            }
            if v == 0 {
                prev_zero = true;
            } else {
                if prev_zero {
                    s.append("$pos ");
                    append_hex_digits(&mut s, i as u64);
                    push_char(&mut s, '\n');
                }
                let text = self.parser.parse(v).file_string();
                s.append(text.as_str());
                push_char(&mut s, '\n');
                prev_zero = false;
            }
            i = i + 1;
        }
        assert(values.take(self.data@.len() as int) =~= values);
        s
    }

    /// The values of all cells, in order.
    pub fn values(&self) -> (v: Vec<u16>)
        ensures
            v@ == spec_values(self@),
    {
        let mut v: Vec<u16> = Vec::new();
        let mut i: usize = 0;
        while i < self.data.len()
            invariant
                i <= self.data@.len(),
                v@ == spec_values(self@).take(i as int),
            decreases self.data@.len() - i,
        {
            v.push(self.data[i].get());
            i = i + 1;
            assert(v@ =~= spec_values(self@).take(i as int));
        }
        assert(spec_values(self@).take(self.data@.len() as int) =~= spec_values(self@));
        v
    }
}

/// A device: a byte of data and a ready flag.
#[derive(PartialEq, Eq, Structural, Clone, Copy, Debug)]
pub struct IOCell {
    pub data: u8,
    pub ready: bool,
}

impl IOCell {
    /// A device that holds zero and is not ready.
    pub fn new() -> (cell: IOCell)
        ensures
            cell == (IOCell { data: 0, ready: false }),
    {
        IOCell { data: 0, ready: false }
    }
}

/// What a log entry holds.
pub struct LogEntryView {
    pub command_counter: u16,
    pub micro_counter: u8,
    pub micro_command: bool,
    pub info: Seq<char>,
}

/// An entry of the diagnostic log: the two counters at the time of the entry,
/// whether the entry is about the microcode level, and the text.
pub struct LogEntry {
    pub command_counter: u16,
    pub micro_counter: u8,
    pub micro_command: bool,
    pub info: String,
}

impl View for LogEntry {
    type V = LogEntryView;

    open spec fn view(&self) -> LogEntryView {
        LogEntryView {
            command_counter: self.command_counter,
            micro_counter: self.micro_counter,
            micro_command: self.micro_command,
            info: self.info@,
        }
    }
}

/// The views of the log entries `entries`.
pub open spec fn log_views(entries: Seq<LogEntry>) -> Seq<LogEntryView> {
    Seq::new(entries.len(), |i: int| entries[i]@)
}

/// The log text for a byte that went from the accumulator to a device.
pub open spec fn spec_msg_device_written(data: u8, num: u16) -> Seq<char> {
    "Перенес значение "@
        + spec_hex(data as nat, 2)
        + " из младших разрядов аккамулятора в ВУ номер "@
        + spec_decimal(num as nat)
}

pub fn msg_device_written(data: u8, num: u16) -> (s: String)
    ensures
        s@ == spec_msg_device_written(data, num),
{
    let mut s = String::from_str("Перенес значение ");
    append_hex(&mut s, data as u32, 2);
    s.append(" из младших разрядов аккамулятора в ВУ номер ");
    append_decimal(&mut s, num as u64);
    s
}

/// The log text for a byte that went from a device to the accumulator.
pub open spec fn spec_msg_device_read(data: u8, num: u16) -> Seq<char> {
    "Перенес значение "@
        + spec_hex(data as nat, 2)
        + " из  ВУ номер "@
        + spec_decimal(num as nat)
        + " в младшие разряды аккамулятора"@
}

pub fn msg_device_read(data: u8, num: u16) -> (s: String)
    ensures
        s@ == spec_msg_device_read(data, num),
{
    let mut s = String::from_str("Перенес значение ");
    append_hex(&mut s, data as u32, 2);
    s.append(" из  ВУ номер ");
    append_decimal(&mut s, num as u64);
    s.append(" в младшие разряды аккамулятора");
    s
}

/// The log text for a device that was asked whether it is ready.
pub open spec fn spec_msg_device_polled(num: u16) -> Seq<char> {
    "Опросил ВУ номер "@
        + spec_decimal(num as nat)
        + " на предмет готовности"@
}

pub fn msg_device_polled(num: u16) -> (s: String)
    ensures
        s@ == spec_msg_device_polled(num),
{
    let mut s = String::from_str("Опросил ВУ номер ");
    append_decimal(&mut s, num as u64);
    s.append(" на предмет готовности");
    s
}

/// The log text for a device that was ready when asked.
pub open spec fn spec_msg_device_ready(num: u16) -> Seq<char> {
    "ВУ номер "@
        + spec_decimal(num as nat)
        + " оказалось готовым. Увеличил СК на единицу"@
}

pub fn msg_device_ready(num: u16) -> (s: String)
    ensures
        s@ == spec_msg_device_ready(num),
{
    let mut s = String::from_str("ВУ номер ");
    append_decimal(&mut s, num as u64);
    s.append(" оказалось готовым. Увеличил СК на единицу");
    s
}

/// The log text for a device whose ready flag was cleared.
pub open spec fn spec_msg_device_cleared(num: u16) -> Seq<char> {
    "Сбросил флаг готовности ВУ номер "@
        + spec_decimal(num as nat)
}

pub fn msg_device_cleared(num: u16) -> (s: String)
    ensures
        s@ == spec_msg_device_cleared(num),
{
    let mut s = String::from_str("Сбросил флаг готовности ВУ номер ");
    append_decimal(&mut s, num as u64);
    s
}

/// The log after `entry` is added: where it held more than `LOG_LIMIT` entries,
/// its oldest entry leaves first.
pub open spec fn spec_log_push(logs: Seq<LogEntryView>, entry: LogEntryView) -> Seq<LogEntryView> {
    (if logs.len() > LOG_LIMIT {
        logs.drop_first()
    } else {
        logs
    }).push(entry)
}

/// The diagnostic log: the newest entries, oldest first. Entries come in at the
/// end only, and the log never grows beyond `LOG_LIMIT + 1` of them.
pub struct LogBuffer {
    entries: Vec<LogEntry>,
}

impl View for LogBuffer {
    type V = Seq<LogEntryView>;

    closed spec fn view(&self) -> Seq<LogEntryView> {
        log_views(self.entries@)
    }
}

impl LogBuffer {
    pub fn new() -> (log: LogBuffer)
        ensures
            log@ == Seq::<LogEntryView>::empty(),
    {
        let log = LogBuffer { entries: Vec::new() };
        assert(log@ =~= Seq::<LogEntryView>::empty());
        log
    }

    /// Adds `entry` at the end.
    pub fn push(&mut self, entry: LogEntry)
        ensures
            final(self)@ == spec_log_push(old(self)@, entry@),
            old(self)@.len() <= LOG_LIMIT + 1 ==> final(self)@.len() <= LOG_LIMIT + 1,
    {
        if self.entries.len() > LOG_LIMIT {
            self.entries.remove(0);
        }
        self.entries.push(entry);
        assert(self@ =~= spec_log_push(old(self)@, entry@));
    }

    /// Removes every entry.
    pub fn clear(&mut self)
        ensures
            final(self)@ == Seq::<LogEntryView>::empty(),
    {
        self.entries.clear();
        assert(self@ =~= Seq::<LogEntryView>::empty());
    }

    /// The entries, oldest first.
    pub fn entries(&self) -> (entries: &Vec<LogEntry>)
        ensures
            log_views(entries@) == self@,
    {
        &self.entries
    }
}

/// What one line of a boot image holds: an address of microcode memory and a
/// value, both in hexadecimal, with one space between them. What follows a
/// second space is not read.
pub open spec fn spec_boot_entry(line: Seq<char>) -> Option<(u16, u16)> {
    let pieces = spec_split(line, ' ');
    if pieces.len() < 2 {
        None
    } else {
        match (spec_parse_hex(pieces[0]), spec_parse_hex(pieces[1])) {
            (Some(address), Some(value)) => if address < MC_MEMORY_SIZE {
                Some((address, value))
            } else {
                None
            },
            _ => None,
        }
    }
}

/// What the lines of a boot image hold, `None` where a line holds no entry.
pub open spec fn spec_boot_entries(lines: Seq<Seq<char>>) -> Option<Seq<(u16, u16)>>
    decreases lines.len(),
{
    if lines.len() == 0 {
        Some(Seq::empty())
    } else {
        match (spec_boot_entries(lines.drop_last()), spec_boot_entry(lines.last())) {
            (Some(entries), Some(entry)) => Some(entries.push(entry)),
            _ => None,
        }
    }
}

/// The microcode that the machine holds after a reset: pairs of an address of
/// microcode memory and the value of that cell.
pub struct BootImage {
    entries: Vec<(u16, u16)>,
}

impl View for BootImage {
    type V = Seq<(u16, u16)>;

    closed spec fn view(&self) -> Seq<(u16, u16)> {
        self.entries@
    }
}

impl BootImage {
    #[verifier::type_invariant]
    spec fn fits(&self) -> bool {
        spec_fits(self.entries@, MC_MEMORY_SIZE as int)
    }

    /// The image of the pairs `entries`, or `None` where one of their addresses
    /// is beyond microcode memory.
    pub fn new(entries: Vec<(u16, u16)>) -> (image: Option<BootImage>)
        ensures
            match image {
                Some(b) => b@ == entries@ && spec_fits(entries@, MC_MEMORY_SIZE as int),
                None => !spec_fits(entries@, MC_MEMORY_SIZE as int),
            },
    {
        let mut k: usize = 0;
        while k < entries.len()
            invariant
                k <= entries.len(),
                forall|i: int| 0 <= i < k ==> (#[trigger] entries@[i]).0 < MC_MEMORY_SIZE,
            decreases entries.len() - k,
        {
            if entries[k].0 as usize >= MC_MEMORY_SIZE {
                return None;
            }
            k = k + 1;
        }
        Some(BootImage { entries })
    }

    /// Reads an image from its text, one entry to a line.
    pub fn parse(text: &str) -> (image: Option<BootImage>)
        ensures
            match image {
                Some(b) => spec_boot_entries(spec_lines(text@)) == Some(b@),
                None => spec_boot_entries(spec_lines(text@)) is None,
            },
    {
        let all = lines(&to_chars(text));
        let mut entries: Vec<(u16, u16)> = Vec::new();
        let mut k: usize = 0;
        assert(texts(all@).take(0) =~= Seq::<Seq<char>>::empty());
        while k < all.len()
            invariant
                k <= all.len(),
                texts(all@) == spec_lines(text@),
                spec_boot_entries(texts(all@).take(k as int)) == Some(entries@),
                spec_fits(entries@, MC_MEMORY_SIZE as int),
            decreases all.len() - k,
        {
            let ghost done = texts(all@).take(k as int);
            let ghost next = texts(all@).take(k + 1);
            assert(next.drop_last() =~= done);
            assert(next.last() == all@[k as int]@);
            let pieces = split(&all[k], ' ');
            let entry: Option<(u16, u16)> = if pieces.len() < 2 {
                None
            } else {
                assert(texts(pieces@)[0] == pieces@[0]@);
                assert(texts(pieces@)[1] == pieces@[1]@);
                match (parse_hex(&pieces[0]), parse_hex(&pieces[1])) {
                    (Some(address), Some(value)) => {
                        if (address as usize) < MC_MEMORY_SIZE {
                            Some((address, value))
                        } else {
                            None
                        }
                    },
                    _ => None,
                }
            };
            assert(entry == spec_boot_entry(all@[k as int]@));
            match entry {
                Some(e) => {
                    entries.push(e);
                },
                None => {
                    proof {
                        lemma_boot_entries_fail(texts(all@), k + 1);
                    }
                    return None;
                },
            }
            k = k + 1;
        }
        assert(texts(all@).take(all.len() as int) =~= texts(all@));
        Some(BootImage { entries })
    }

    /// The pairs of the image, in order.
    pub fn entries(&self) -> (entries: &Vec<(u16, u16)>)
        ensures
            entries@ == self@,
            spec_fits(entries@, MC_MEMORY_SIZE as int),
    {
        proof {
            use_type_invariant(self);
        }
        &self.entries
    }
}

/// Lines of which a start holds no image hold none.
proof fn lemma_boot_entries_fail(lines: Seq<Seq<char>>, k: int)
    requires
        0 <= k <= lines.len(),
        spec_boot_entries(lines.take(k)) is None,
    ensures
        spec_boot_entries(lines) is None,
    decreases lines.len(),
{
    if k == lines.len() {
        assert(lines.take(k) =~= lines);
    } else {
        assert(lines.drop_last().take(k) =~= lines.take(k));
        lemma_boot_entries_fail(lines.drop_last(), k);
    }
}

/// The micro-program counter after it has moved on by one: it has 8 bits.
pub open spec fn spec_next_micro_command(counter: u8) -> u8 {
    if counter == 255 {
        0
    } else {
        (counter + 1) as u8
    }
}

/// The command counter after it has moved on by one: it has 11 bits.
pub open spec fn spec_next_command(counter: u16) -> u16 {
    (((counter as u32) + 1) as u32 & 0x7FF) as u16
}

/// What the machine holds.
pub struct ComputerView {
    pub registers: Registers,
    pub general: Seq<CellView>,
    pub mc: Seq<CellView>,
    pub io_devices: Seq<IOCell>,
    pub logs: Seq<LogEntryView>,
    pub boot: Seq<(u16, u16)>,
}

impl ComputerView {
    /// Both banks and the devices have their sizes.
    pub open spec fn wf(self) -> bool {
        &&& self.general.len() == GENERAL_MEMORY_SIZE
        &&& self.mc.len() == MC_MEMORY_SIZE
        &&& self.io_devices.len() == DEVICES
    }

    /// A machine with the microcode `boot` in which everything else is zero.
    pub open spec fn spec_new(boot: Seq<(u16, u16)>) -> ComputerView {
        (ComputerView {
            registers: Registers::spec_new(),
            general: spec_blank(GENERAL_MEMORY_SIZE as nat),
            mc: spec_blank(MC_MEMORY_SIZE as nat),
            io_devices: Seq::new(DEVICES as nat, |i: int| IOCell { data: 0, ready: false }),
            logs: Seq::empty(),
            boot,
        }).reset_memory()
    }

    /// The machine after an entry with the text `info` is added to its log. The
    /// entry holds the two counters as they are now.
    pub open spec fn log(self, micro_command: bool, info: Seq<char>) -> ComputerView {
        ComputerView {
            logs: spec_log_push(
                self.logs,
                LogEntryView {
                    command_counter: self.registers.r_command_counter,
                    micro_counter: self.registers.r_micro_command_counter,
                    micro_command,
                    info,
                },
            ),
            ..self
        }
    }

    /// The machine with the register file `registers`.
    pub open spec fn with_registers(self, registers: Registers) -> ComputerView {
        ComputerView { registers, ..self }
    }

    /// The machine with the device `num` replaced by `cell`.
    pub open spec fn with_device(self, num: int, cell: IOCell) -> ComputerView {
        ComputerView { io_devices: self.io_devices.update(num, cell), ..self }
    }

    /// The machine after a reset of its memory: general memory holds zeros,
    /// and microcode memory holds the boot image on zeros.
    pub open spec fn reset_memory(self) -> ComputerView {
        ComputerView {
            general: spec_cleared(self.general),
            mc: spec_loaded(spec_cleared(self.mc), self.boot),
            ..self
        }
    }

    /// The machine after one micro-step, and how the step ended. The word at the
    /// micro-program counter is put into the micro-command register, decoded
    /// and run. Unless it jumped, the micro-program counter moves on by one,
    /// from 255 to 0.
    pub open spec fn micro_step(self) -> (ComputerView, ExecutionResult) {
        let opcode = self.mc[self.registers.r_micro_command_counter as int].data;
        let started = self.with_registers(Registers { r_micro_command: opcode, ..self.registers });
        let (ran, result) = spec_parse(opcode).spec_run(started);
        if result == ExecutionResult::Jumped {
            (ran, result)
        } else {
            (
                ran.with_registers(
                    Registers {
                        r_micro_command_counter: spec_next_micro_command(
                            ran.registers.r_micro_command_counter,
                        ),
                        ..ran.registers
                    },
                ),
                result,
            )
        }
    }

    /// The machine after one exchange with a device. The data register holds
    /// the request: the device in its bits 0 to 3, the kind of exchange in its
    /// bits 8 and 9. Both bits: the low byte of the accumulator goes to the
    /// device. Bit 9 alone: the device's byte goes to the low byte of the
    /// accumulator. Bit 8 alone: the device's ready flag goes to the status
    /// word, and a ready device moves the command counter on by one. Neither:
    /// the device's ready flag is cleared. In each case the flag that says that
    /// an exchange is under way is cleared at the end.
    pub open spec fn process_io_command(self) -> ComputerView {
        let opcode = self.registers.r_data;
        let num = opcode & 0xF;
        let device = self.io_devices[num as int];
        let served = if opcode & 0x0300 == 0x0300 {
            let data = (self.registers.r_counter & 0xFF) as u8;
            self.log(false, spec_msg_device_written(data, num)).with_device(
                num as int,
                IOCell { data, ..device },
            )
        } else if opcode & 0x0200 == 0x0200 {
            self.with_registers(
                Registers {
                    r_counter: (self.registers.r_counter & 0xFF00) | (device.data as u16),
                    ..self.registers
                },
            ).log(false, spec_msg_device_read(device.data, num))
        } else if opcode & 0x0100 == 0x0100 {
            let polled = self.with_registers(self.registers.spec_with_flag(6, device.ready)).log(
                false,
                spec_msg_device_polled(num),
            );
            if device.ready {
                let logged = polled.log(false, spec_msg_device_ready(num));
                logged.with_registers(
                    Registers {
                        r_command_counter: spec_next_command(logged.registers.r_command_counter),
                        ..logged.registers
                    },
                )
            } else {
                polled
            }
        } else {
            self.log(false, spec_msg_device_cleared(num)).with_device(
                num as int,
                IOCell { ready: false, ..device },
            )
        };
        let logged = served.log(true, "Сбросил флаг ВВОД-ВВЫОД"@);
        logged.with_registers(logged.registers.spec_with_flag(12, false))
    }
}

/// Facts on the bits of a request to a device.
proof fn lemma_io_request(opcode: u16, counter: u16, data: u8, next: u32)
    ensures
        opcode & 0xF < 16,
        counter & 0xFF <= 0xFF,
        next & 0x7FF <= 0x7FF,
{
    assert(opcode & 0xF < 16 && counter & 0xFF <= 0xFF && next & 0x7FF <= 0x7FF) by (bit_vector);
}

/// The machine.
pub struct Computer {
    pub registers: Registers,
    pub general_memory: Memory<GeneralCommandInfo, GeneralParser>,
    pub mc_memory: Memory<MicroCommandInfo, McParser>,
    pub io_devices: [IOCell; 16],
    pub log: LogBuffer,
    pub boot: BootImage,
}

impl View for Computer {
    type V = ComputerView;

    open spec fn view(&self) -> ComputerView {
        ComputerView {
            registers: self.registers,
            general: self.general_memory@,
            mc: self.mc_memory@,
            io_devices: self.io_devices@,
            logs: self.log@,
            boot: self.boot@,
        }
    }
}

impl Computer {
    /// Both banks have their sizes.
    pub open spec fn wf(&self) -> bool {
        self@.wf()
    }

    /// Whether `other` has the same banks with, it may be, other content.
    pub open spec fn same_banks(&self, other: &Computer) -> bool {
        self.general_memory.same_bank(&other.general_memory) && self.mc_memory.same_bank(
            &other.mc_memory,
        )
    }

    /// `len` cells that hold zero.
    pub fn mem(len: usize) -> (result: Vec<MemoryCell>)
        ensures
            cell_views(result@) == spec_blank(len as nat),
    {
        let mut result: Vec<MemoryCell> = Vec::new();
        let mut i: usize = 0;
        while i < len
            invariant
                i <= len,
                result@.len() == i,
                forall|j: int|
                    0 <= j < i ==> (#[trigger] result@[j])@ == (CellView {
                        data: 0,
                        mnemonic: None,
                        name: None,
                    }),
            decreases len - i,
        {
            result.push(MemoryCell::new());
            i = i + 1;
        }
        assert(cell_views(result@) =~= spec_blank(len as nat));
        result
    }

    /// Adds an entry with the text `info` to the log.
    pub fn log(&mut self, micro_command: bool, info: String)
        ensures
            final(self)@ == old(self)@.log(micro_command, info@),
            final(self).same_banks(old(self)),
    {
        self.log.push(
            LogEntry {
                micro_counter: self.registers.r_micro_command_counter,
                command_counter: self.registers.r_command_counter,
                micro_command,
                info,
            },
        );
    }

    /// Empties the log.
    pub fn clear_logs(&mut self)
        ensures
            final(self)@ == (ComputerView { logs: Seq::empty(), ..old(self)@ }),
            final(self).same_banks(old(self)),
    {
        self.log.clear();
    }

    /// The entries of the log, oldest first.
    pub fn logs(&self) -> (entries: &Vec<LogEntry>)
        ensures
            log_views(entries@) == self@.logs,
    {
        self.log.entries()
    }

    /// Serves the request to a device that the data register holds.
    pub fn process_io_command(&mut self)
        ensures
            final(self)@ == old(self)@.process_io_command(),
            final(self).same_banks(old(self)),
            old(self).wf() ==> final(self).wf(),
            old(self).registers.wf() ==> final(self).registers.wf(),
    {
        let opcode: u16 = self.registers.r_data;
        let num: u16 = opcode & 0xF;
        proof {
            lemma_io_request(
                opcode,
                self.registers.r_counter,
                0,
                (self.registers.r_command_counter as u32 + 1) as u32,
            );
            lemma_with_flag(self.registers, 6, self.io_devices@[num as int].ready);
        }
        let device: IOCell = self.io_devices[num as usize];
        if opcode & 0x0300 == 0x0300 {
            let data: u8 = (self.registers.r_counter & 0xFF) as u8;
            self.log(false, msg_device_written(data, num));
            self.io_devices[num as usize] = IOCell { data, ready: device.ready };
        } else if opcode & 0x0200 == 0x0200 {
            self.registers.r_counter = (self.registers.r_counter & 0xFF00) | (device.data as u16);
            self.log(false, msg_device_read(device.data, num));
        } else if opcode & 0x0100 == 0x0100 {
            self.registers.set_io_ready(device.ready);
            self.log(false, msg_device_polled(num));
            if device.ready {
                self.log(false, msg_device_ready(num));
                self.registers.r_command_counter = ((self.registers.r_command_counter as u32 + 1)
                    & 0x7FF) as u16;
            }
        } else {
            self.log(false, msg_device_cleared(num));
            self.io_devices[num as usize] = IOCell { data: device.data, ready: false };
        }
        self.log(true, String::from_str("Сбросил флаг ВВОД-ВВЫОД"));
        proof {
            lemma_with_flag(self.registers, 12, false);
        }
        self.registers.set_io(false);
        assert(self@.io_devices =~= old(self)@.process_io_command().io_devices);
    }

    /// Puts memory back to its state at start: general memory holds zeros,
    /// microcode memory the boot image. The cells that the image fills count as
    /// written now.
    pub fn reset_memory(&mut self)
        requires
            old(self).wf(),
        ensures
            final(self)@ == old(self)@.reset_memory(),
            final(self).wf(),
            final(self).same_banks(old(self)),
    {
        self.mc_memory.clear();
        self.general_memory.clear();
        let image = self.boot.entries();
        let n: usize = image.len();
        let mut k: usize = 0;
        assert(image@.take(0) =~= Seq::<(u16, u16)>::empty());
        while k < n
            invariant
                k <= n == image@.len(),
                image@ == old(self).boot@,
                spec_fits(image@, MC_MEMORY_SIZE as int),
                self.mc_memory@.len() == MC_MEMORY_SIZE,
                self.mc_memory@ == spec_loaded(spec_cleared(old(self).mc_memory@), image@.take(k as int)),
                self.mc_memory.same_bank(&old(self).mc_memory),
                self.general_memory.same_bank(&old(self).general_memory),
                self.general_memory@ == spec_cleared(old(self).general_memory@),
                self.registers == old(self).registers,
                self.io_devices == old(self).io_devices,
                self.log@ == old(self).log@,
                self.boot@ == old(self).boot@,
            decreases n - k,
        {
            let entry: (u16, u16) = image[k];
            assert(entry.0 < MC_MEMORY_SIZE);
            self.mc_memory.set(entry.0 as usize, entry.1);
            k = k + 1;
            assert(image@.take(k as int).drop_last() =~= image@.take(k - 1));
        }
        assert(image@.take(n as int) =~= image@);
    }

    /// A machine with the microcode `boot` in which everything else is zero.
    pub fn new(boot: BootImage) -> (computer: Computer)
        ensures
            computer@ == ComputerView::spec_new(boot@),
            computer.wf(),
            computer.registers.wf(),
    {
        let mut result = Computer {
            io_devices: [IOCell::new();16],
            registers: Registers::new(),
            general_memory: Memory::new(
                GeneralParser::new(),
                Self::mem(GENERAL_MEMORY_SIZE),
                "general",
            ),
            mc_memory: Memory::new(McParser::new(), Self::mem(MC_MEMORY_SIZE), "mpu"),
            log: LogBuffer::new(),
            boot,
        };
        assert(result@.io_devices =~= Seq::new(
            DEVICES as nat,
            |i: int| IOCell { data: 0, ready: false },
        ));
        result.reset_memory();
        result
    }

    /// Runs the micro-instruction at the micro-program counter.
    pub fn micro_step(&mut self) -> (result: ExecutionResult)
        requires
            old(self).wf(),
        ensures
            (final(self)@, result) == old(self)@.micro_step(),
            final(self).wf(),
            final(self).same_banks(old(self)),
            old(self).registers.wf() ==> final(self).registers.wf(),
    {
        let opcode: u16 = self.mc_memory.get(self.registers.r_micro_command_counter as usize);
        let cmd = parse(opcode);
        self.registers.r_micro_command = opcode;
        let result = cmd.run(self);
        if result != ExecutionResult::Jumped {
            let counter: u8 = self.registers.r_micro_command_counter;
            self.registers.r_micro_command_counter = if counter == 255 {
                0
            } else {
                counter + 1
            };
        }
        result
    }
}

} // verus!
