//! The microcode: the three shapes of a micro-instruction, the fields of each,
//! what running one does to the machine, and how each is written out.

use crate::bits::{bit_at, set_bit, spec_bit_at, spec_set_bit, spec_sub_sum, sub_sum};
use crate::model::{
    lemma_with_flag, spec_write, Computer, ComputerView, IOCell, Register, Registers,
};
use crate::parse::{CommandInfo, Parser};
use crate::text::{append_decimal, append_hex, spec_decimal, spec_hex};
use vstd::prelude::*;
use vstd::string::*;

verus! {

/// How one micro-step ended.
#[derive(PartialEq, Eq, Structural, Clone, Copy, Debug)]
pub enum ExecutionResult {
    /// The micro-instruction ran; the next one follows it.
    Success,
    /// The micro-instruction set the micro-program counter itself.
    Jumped,
    /// The machine stopped.
    Halted,
}

/// A micro-instruction of class `00`: shift, memory access and arithmetic.
#[derive(Clone, Copy, Debug)]
pub struct OperationalCommand0(pub u16);

/// A micro-instruction of class `01`: halt, devices, flags and write-back.
#[derive(Clone, Copy, Debug)]
pub struct OperationalCommand1(pub u16);

/// A micro-instruction of class `10` or `11`: a conditional jump.
#[derive(Clone, Copy, Debug)]
pub struct ControlCommand(pub u16);

/// The shift that a micro-instruction of class `00` asks for.
#[derive(PartialEq, Eq, Structural, Clone, Copy, Debug)]
pub enum Shift {
    Left,
    Right,
    Neither,
}

/// The operand of which the one's complement is taken.
#[derive(PartialEq, Eq, Structural, Clone, Copy, Debug)]
pub enum Complement {
    Left,
    Right,
    Neither,
}

/// The memory access that a micro-instruction of class `00` asks for.
#[derive(PartialEq, Eq, Structural, Clone, Copy, Debug)]
pub enum Memory {
    Read,
    Write,
    Idle,
}

/// The operation of the arithmetic unit.
#[derive(PartialEq, Eq, Structural, Clone, Copy, Debug)]
pub enum Operation {
    LeftPlusRight,
    LeftPlusRightPlusOne,
    LeftAndRight,
}

/// Which of the flags "negative" and "zero" a micro-instruction updates.
#[derive(PartialEq, Eq, Structural, Clone, Copy, Debug)]
pub enum NZUpdate {
    N,
    Z,
    NZ,
    Unchanged,
}

/// What a micro-instruction does to the carry flag.
#[derive(PartialEq, Eq, Structural, Clone, Copy, Debug)]
pub enum CUpdate {
    /// Take the carry from bit 16 of the buffer register, and clear that bit.
    Assign,
    Reset,
    SetOne,
    Unchanged,
}

/// What a micro-instruction asks of the devices and the interrupt logic.
#[derive(PartialEq, Eq, Structural, Clone, Copy, Debug)]
pub enum IOControl {
    Connect,
    Reset,
    DisableInterruption,
    EnableInterruption,
}

/// What the fields of a 16-bit word are in plain bit operations.
pub proof fn lemma_fields(e: u16)
    ensures
        spec_sub_sum(e, 15, 14) == e >> 14u16,
        spec_sub_sum(e, 15, 14) <= 3,
        spec_sub_sum(e, 13, 12) == (e >> 12u16) & 3u16,
        spec_sub_sum(e, 13, 12) <= 3,
        spec_sub_sum(e, 11, 8) == (e >> 8u16) & 15u16,
        spec_sub_sum(e, 11, 8) <= 15,
        spec_sub_sum(e, 7, 0) == e & 0xFFu16,
        spec_sub_sum(e, 7, 0) <= 255,
        spec_sub_sum(e, 2, 0) == e & 7u16,
        spec_sub_sum(e, 2, 0) <= 7,
{
    assert((e >> 14u16) & (((1u16 << 2u16) - 1) as u16) == e >> 14u16 && (e >> 14u16) <= 3 && (e
        >> 12u16) & (((1u16 << 2u16) - 1) as u16) == (e >> 12u16) & 3u16 && (e >> 12u16) & 3u16 <= 3
        && (e >> 8u16) & (((1u16 << 4u16) - 1) as u16) == (e >> 8u16) & 15u16 && (e >> 8u16) & 15u16
        <= 15 && (e >> 0u16) & (((1u16 << 8u16) - 1) as u16) == e & 0xFFu16 && e & 0xFFu16 <= 255
        && (e >> 0u16) & (((1u16 << 3u16) - 1) as u16) == e & 7u16 && e & 7u16 <= 7)
        by (bit_vector);
}

impl OperationalCommand0 {
    /// The left operand: none, the accumulator, the status word, or, with both
    /// selector bits set, the command register.
    pub open spec fn spec_left_input(&self) -> Option<Register> {
        let b13 = spec_bit_at(self.0, 13);
        let b12 = spec_bit_at(self.0, 12);
        if b12 && b13 {
            Some(Register::Command)
        } else if b12 {
            Some(Register::Counter)
        } else if b13 {
            Some(Register::Status)
        } else {
            None
        }
    }

    /// The right operand: none, the data register, the command register, or,
    /// with both selector bits set, the command counter.
    pub open spec fn spec_right_input(&self) -> Option<Register> {
        let b9 = spec_bit_at(self.0, 9);
        let b8 = spec_bit_at(self.0, 8);
        if b9 && b8 {
            Some(Register::CommandCounter)
        } else if b8 {
            Some(Register::Data)
        } else if b9 {
            Some(Register::Command)
        } else {
            None
        }
    }

    /// The shift: right for bit 2, left for bit 3, none for both or neither.
    pub open spec fn spec_shift(&self) -> Shift {
        let b2 = spec_bit_at(self.0, 2);
        let b3 = spec_bit_at(self.0, 3);
        if b2 && b3 {
            Shift::Neither
        } else if b2 {
            Shift::Right
        } else if b3 {
            Shift::Left
        } else {
            Shift::Neither
        }
    }

    /// The memory access: read for bit 0, write for bit 1, none for both or neither.
    pub open spec fn spec_memory(&self) -> Memory {
        let b0 = spec_bit_at(self.0, 0);
        let b1 = spec_bit_at(self.0, 1);
        if b1 && b0 {
            Memory::Idle
        } else if b0 {
            Memory::Read
        } else if b1 {
            Memory::Write
        } else {
            Memory::Idle
        }
    }

    /// The operation: sum plus one for bit 4, bitwise AND for bit 5, the sum
    /// for both or neither.
    pub open spec fn spec_operation(&self) -> Operation {
        let b4 = spec_bit_at(self.0, 4);
        let b5 = spec_bit_at(self.0, 5);
        if b4 && b5 {
            Operation::LeftPlusRight
        } else if b4 {
            Operation::LeftPlusRightPlusOne
        } else if b5 {
            Operation::LeftAndRight
        } else {
            Operation::LeftPlusRight
        }
    }

    /// The complemented operand: left for bit 6, right for bit 7, none for both
    /// or neither.
    pub open spec fn spec_complement(&self) -> Complement {
        let b6 = spec_bit_at(self.0, 6);
        let b7 = spec_bit_at(self.0, 7);
        if b6 && b7 {
            Complement::Neither
        } else if b6 {
            Complement::Left
        } else if b7 {
            Complement::Right
        } else {
            Complement::Neither
        }
    }

    pub fn left_input(&self) -> (r: Option<Register>)
        ensures
            r == self.spec_left_input(),
    {
        let b13 = bit_at(self.0, 13);
        let b12 = bit_at(self.0, 12);
        if b12 && b13 {
            Some(Register::Command)
        } else if b12 {
            Some(Register::Counter)
        } else if b13 {
            Some(Register::Status)
        } else {
            None
        }
    }

    pub fn right_input(&self) -> (r: Option<Register>)
        ensures
            r == self.spec_right_input(),
    {
        let b9 = bit_at(self.0, 9);
        let b8 = bit_at(self.0, 8);
        if b9 && b8 {
            Some(Register::CommandCounter)
        } else if b8 {
            Some(Register::Data)
        } else if b9 {
            Some(Register::Command)
        } else {
            None
        }
    }

    pub fn shift(&self) -> (r: Shift)
        ensures
            r == self.spec_shift(),
    {
        let b2 = bit_at(self.0, 2);
        let b3 = bit_at(self.0, 3);
        if b2 && b3 {
            Shift::Neither
        } else if b2 {
            Shift::Right
        } else if b3 {
            Shift::Left
        } else {
            Shift::Neither
        }
    }

    pub fn memory(&self) -> (r: Memory)
        ensures
            r == self.spec_memory(),
    {
        let b0 = bit_at(self.0, 0);
        let b1 = bit_at(self.0, 1);
        if b1 && b0 {
            Memory::Idle
        } else if b0 {
            Memory::Read
        } else if b1 {
            Memory::Write
        } else {
            Memory::Idle
        }
    }

    pub fn operation(&self) -> (r: Operation)
        ensures
            r == self.spec_operation(),
    {
        let b4 = bit_at(self.0, 4);
        let b5 = bit_at(self.0, 5);
        if b4 && b5 {
            Operation::LeftPlusRight
        } else if b4 {
            Operation::LeftPlusRightPlusOne
        } else if b5 {
            Operation::LeftAndRight
        } else {
            Operation::LeftPlusRight
        }
    }

    pub fn complement(&self) -> (r: Complement)
        ensures
            r == self.spec_complement(),
    {
        let b6 = bit_at(self.0, 6);
        let b7 = bit_at(self.0, 7);
        if b6 && b7 {
            Complement::Neither
        } else if b6 {
            Complement::Left
        } else if b7 {
            Complement::Right
        } else {
            Complement::Neither
        }
    }
}

impl OperationalCommand1 {
    /// Bit 3: the machine stops.
    pub open spec fn spec_hlt(&self) -> bool {
        spec_bit_at(self.0, 3)
    }

    /// Bit 4 asks for the zero flag, bit 5 for the negative flag.
    pub open spec fn spec_nz(&self) -> NZUpdate {
        let b4 = spec_bit_at(self.0, 4);
        let b5 = spec_bit_at(self.0, 5);
        if b4 && b5 {
            NZUpdate::NZ
        } else if b4 {
            NZUpdate::Z
        } else if b5 {
            NZUpdate::N
        } else {
            NZUpdate::Unchanged
        }
    }

    /// The registers that take the buffer register's value, by the code in
    /// bits 0 to 2; code 6 is reserved and is `None`.
    pub open spec fn spec_output(&self) -> Option<Seq<Register>> {
        let s = spec_sub_sum(self.0, 2, 0);
        if s == 0 {
            Some(Seq::empty())
        } else if s == 1 {
            Some(seq![Register::Address])
        } else if s == 2 {
            Some(seq![Register::Data])
        } else if s == 3 {
            Some(seq![Register::Command])
        } else if s == 4 {
            Some(seq![Register::CommandCounter])
        } else if s == 5 {
            Some(seq![Register::Counter])
        } else if s == 6 {
            None
        } else {
            Some(seq![Register::Address, Register::Data, Register::Command, Register::Counter])
        }
    }

    /// Bits 6 and 7: take the carry from the buffer register, clear it, or set it.
    pub open spec fn spec_c(&self) -> CUpdate {
        let b6 = spec_bit_at(self.0, 6);
        let b7 = spec_bit_at(self.0, 7);
        if b6 && b7 {
            CUpdate::SetOne
        } else if b6 {
            CUpdate::Assign
        } else if b7 {
            CUpdate::Reset
        } else {
            CUpdate::Unchanged
        }
    }

    /// The requests of bits 8 to 11, in the order in which they are served.
    pub open spec fn spec_io(&self) -> Seq<IOControl> {
        (if spec_bit_at(self.0, 8) {
            seq![IOControl::Connect]
        } else {
            Seq::empty()
        }) + (if spec_bit_at(self.0, 9) {
            seq![IOControl::Reset]
        } else {
            Seq::empty()
        }) + (if spec_bit_at(self.0, 10) {
            seq![IOControl::DisableInterruption]
        } else {
            Seq::empty()
        }) + (if spec_bit_at(self.0, 11) {
            seq![IOControl::EnableInterruption]
        } else {
            Seq::empty()
        })
    }

    pub fn hlt(&self) -> (r: bool)
        ensures
            r == self.spec_hlt(),
    {
        bit_at(self.0, 3)
    }

    pub fn nz(&self) -> (r: NZUpdate)
        ensures
            r == self.spec_nz(),
    {
        let b4 = bit_at(self.0, 4);
        let b5 = bit_at(self.0, 5);
        if b4 && b5 {
            NZUpdate::NZ
        } else if b4 {
            NZUpdate::Z
        } else if b5 {
            NZUpdate::N
        } else {
            NZUpdate::Unchanged
        }
    }

    pub fn output(&self) -> (r: Option<Vec<Register>>)
        ensures
            match r {
                Some(v) => self.spec_output() == Some(v@),
                None => self.spec_output() is None,
            },
    {
        let s: u16 = sub_sum(self.0, 2, 0);
        if s == 6 {
            return None;
        }
        let mut r: Vec<Register> = Vec::new();
        if s == 1 {
            r.push(Register::Address);
        } else if s == 2 {
            r.push(Register::Data);
        } else if s == 3 {
            r.push(Register::Command);
        } else if s == 4 {
            r.push(Register::CommandCounter);
        } else if s == 5 {
            r.push(Register::Counter);
        } else if s != 0 {
            r.push(Register::Address);
            r.push(Register::Data);
            r.push(Register::Command);
            r.push(Register::Counter);
        }
        assert(self.spec_output() == Some(r@)) by {
            assert(self.spec_output()->0 =~= r@);
        }
        Some(r)
    }

    pub fn c(&self) -> (r: CUpdate)
        ensures
            r == self.spec_c(),
    {
        let b6 = bit_at(self.0, 6);
        let b7 = bit_at(self.0, 7);
        if b6 && b7 {
            CUpdate::SetOne
        } else if b6 {
            CUpdate::Assign
        } else if b7 {
            CUpdate::Reset
        } else {
            CUpdate::Unchanged
        }
    }

    pub fn io(&self) -> (r: Vec<IOControl>)
        ensures
            r@ == self.spec_io(),
    {
        let mut result: Vec<IOControl> = Vec::new();
        if bit_at(self.0, 8) {
            result.push(IOControl::Connect);
        }
        if bit_at(self.0, 9) {
            result.push(IOControl::Reset);
        }
        if bit_at(self.0, 10) {
            result.push(IOControl::DisableInterruption);
        }
        if bit_at(self.0, 11) {
            result.push(IOControl::EnableInterruption);
        }
        assert(result@ =~= self.spec_io());
        result
    }
}

impl ControlCommand {
    /// Bit 14: the value that the tested bit is held against.
    pub open spec fn spec_needed_bit(&self) -> bool {
        spec_bit_at(self.0, 14)
    }

    /// Bits 8 to 11: the position of the tested bit.
    pub open spec fn spec_bit_location(&self) -> u16 {
        spec_sub_sum(self.0, 11, 8)
    }

    /// Bits 0 to 7: where to jump.
    pub open spec fn spec_jump_address(&self) -> u8 {
        spec_sub_sum(self.0, 7, 0) as u8
    }

    /// Bits 12 and 13: the register that holds the tested bit.
    pub open spec fn spec_register(&self) -> Register {
        let s = spec_sub_sum(self.0, 13, 12);
        if s == 0 {
            Register::Status
        } else if s == 1 {
            Register::Data
        } else if s == 2 {
            Register::Command
        } else {
            Register::Counter
        }
    }

    pub fn needed_bit(&self) -> (r: bool)
        ensures
            r == self.spec_needed_bit(),
    {
        bit_at(self.0, 14)
    }

    pub fn bit_location(&self) -> (r: u16)
        ensures
            r == self.spec_bit_location(),
            r <= 15,
    {
        proof {
            lemma_fields(self.0);
        }
        sub_sum(self.0, 11, 8)
    }

    pub fn jump_address(&self) -> (r: u8)
        ensures
            r == self.spec_jump_address(),
    {
        proof {
            lemma_fields(self.0);
        }
        sub_sum(self.0, 7, 0) as u8
    }

    pub fn register(&self) -> (r: Register)
        ensures
            r == self.spec_register(),
    {
        let s: u16 = sub_sum(self.0, 13, 12);
        if s == 0 {
            Register::Status
        } else if s == 1 {
            Register::Data
        } else if s == 2 {
            Register::Command
        } else {
            Register::Counter
        }
    }
}

/// A micro-instruction: one of the three shapes.
#[derive(Clone, Copy, Debug)]
pub enum MicroInstruction {
    Operational0(OperationalCommand0),
    Operational1(OperationalCommand1),
    Control(ControlCommand),
}

/// The shape of a word is decided by its two highest bits: `00` and `01` are
/// the two operational classes, `10` and `11` are jumps.
pub open spec fn spec_parse(opcode: u16) -> MicroInstruction {
    let class = spec_sub_sum(opcode, 15, 14);
    if class == 0 {
        MicroInstruction::Operational0(OperationalCommand0(opcode))
    } else if class == 1 {
        MicroInstruction::Operational1(OperationalCommand1(opcode))
    } else {
        MicroInstruction::Control(ControlCommand(opcode))
    }
}

/// Decodes a word of microcode. Every word decodes.
pub fn parse(opcode: u16) -> (r: MicroInstruction)
    ensures
        r == spec_parse(opcode),
{
    let sum: u16 = sub_sum(opcode, 15, 14);
    if sum == 0 {
        MicroInstruction::Operational0(OperationalCommand0(opcode))
    } else if sum == 1 {
        MicroInstruction::Operational1(OperationalCommand1(opcode))
    } else {
        MicroInstruction::Control(ControlCommand(opcode))
    }
}

/// How a conditional jump is written.
pub open spec fn spec_control_mnemonic(register: Register, bit: u16, needed: bool, target: u8) -> Seq<char> {
    "if "@
        + register.spec_mnemonic()
        + "["@
        + spec_decimal(bit as nat)
        + "] == "@
        + (if needed {
        "1"@
    } else {
        "0"@
    })
        + " GOTO "@
        + spec_hex(target as nat, 4)
}

pub fn control_mnemonic(register: Register, bit: u16, needed: bool, target: u8) -> (s: String)
    ensures
        s@ == spec_control_mnemonic(register, bit, needed, target),
{
    let mut s = String::from_str("if ");
    let m = register.mnemonic();
    s.append(m.as_str());
    s.append("[");
    append_decimal(&mut s, bit as u64);
    s.append("] == ");
    s.append(if needed {
        "1"
    } else {
        "0"
    });
    s.append(" GOTO ");
    append_hex(&mut s, target as u32, 4);
    s
}

/// How an operand of the arithmetic unit is written: the register's name, or
/// `0` where no register is selected, with `!` before it where it is complemented.
pub open spec fn spec_operand_text(input: Option<Register>, complemented: bool) -> Seq<char> {
    match input {
        Some(r) => if complemented {
            "!"@ + r.spec_mnemonic()
        } else {
            r.spec_mnemonic()
        },
        None => if complemented {
            "!0"@
        } else {
            "0"@
        },
    }
}

pub fn operand_text(input: Option<Register>, complemented: bool) -> (s: String)
    ensures
        s@ == spec_operand_text(input, complemented),
{
    match input {
        Some(r) => {
            if complemented {
                let mut s = String::from_str("!");
                let m = r.mnemonic();
                s.append(m.as_str());
                s
            } else {
                r.mnemonic()
            }
        },
        None => {
            if complemented {
                String::from_str("!0")
            } else {
                String::from_str("0")
            }
        },
    }
}

/// How the request `item` is written.
pub open spec fn spec_io_control_text(item: IOControl) -> Seq<char> {
    match item {
        IOControl::DisableInterruption => "Запретить прерывания; "@,
        IOControl::EnableInterruption => "Разрешить прерывания; "@,
        IOControl::Reset => "Сброс флагов ВУ; "@,
        IOControl::Connect => "Организация связей с ВУ; "@,
    }
}

/// How the requests `items` are written, one after the other.
pub open spec fn spec_io_text(items: Seq<IOControl>) -> Seq<char>
    decreases items.len(),
{
    if items.len() == 0 {
        Seq::empty()
    } else {
        spec_io_text(items.drop_last()) + spec_io_control_text(items.last())
    }
}

/// The names of the registers `registers` with one space between them.
pub open spec fn spec_register_names(registers: Seq<Register>) -> Seq<char>
    decreases registers.len(),
{
    if registers.len() == 0 {
        Seq::empty()
    } else if registers.len() == 1 {
        registers[0].spec_mnemonic()
    } else {
        spec_register_names(registers.drop_last()) + " "@ + registers.last().spec_mnemonic()
    }
}

impl OperationalCommand0 {
    /// How the arithmetic of the micro-instruction is written.
    pub open spec fn spec_expression_mnemonic(&self) -> Seq<char> {
        let left = spec_operand_text(
            self.spec_left_input(),
            self.spec_complement() == Complement::Left,
        );
        let right = spec_operand_text(
            self.spec_right_input(),
            self.spec_complement() == Complement::Right,
        );
        match self.spec_operation() {
            Operation::LeftPlusRight => "БР="@ + left + " + "@ + right + "; "@,
            Operation::LeftPlusRightPlusOne => "БР="@ + left + " + "@ + right + " + 1; "@,
            Operation::LeftAndRight => "БР="@ + left + " & "@ + right + "; "@,
        }
    }

    /// How the micro-instruction is written: the shift where it has one, else
    /// its arithmetic followed by its memory access.
    pub open spec fn spec_mnemonic(&self) -> Seq<char> {
        match self.spec_shift() {
            Shift::Right => "БР=A >> 1"@,
            Shift::Left => "БР=A << 1"@,
            Shift::Neither => self.spec_expression_mnemonic() + (match self.spec_memory() {
                Memory::Write => "*РА = РД"@,
                Memory::Read => "РД = *РА"@,
                Memory::Idle => ""@,
            }),
        }
    }

    pub fn expression_mnemonic(&self) -> (s: String)
        ensures
            s@ == self.spec_expression_mnemonic(),
    {
        let complement = self.complement();
        let left = operand_text(self.left_input(), complement == Complement::Left);
        let right = operand_text(self.right_input(), complement == Complement::Right);
        let mut s = String::from_str("БР=");
        s.append(left.as_str());
        match self.operation() {
            Operation::LeftPlusRight => {
                s.append(" + ");
                s.append(right.as_str());
                s.append("; ");
            },
            Operation::LeftPlusRightPlusOne => {
                s.append(" + ");
                s.append(right.as_str());
                s.append(" + 1; ");
            },
            Operation::LeftAndRight => {
                s.append(" & ");
                s.append(right.as_str());
                s.append("; ");
            },
        }
        s
    }

    pub fn opcode(&self) -> (r: u16)
        ensures
            r == self.0,
    {
        self.0
    }

    pub fn mnemonic(&self) -> (s: String)
        ensures
            s@ == self.spec_mnemonic(),
    {
        match self.shift() {
            Shift::Right => String::from_str("БР=A >> 1"),
            Shift::Left => String::from_str("БР=A << 1"),
            Shift::Neither => {
                let mut s = self.expression_mnemonic();
                s.append(
                    match self.memory() {
                        Memory::Write => "*РА = РД",
                        Memory::Read => "РД = *РА",
                        Memory::Idle => "",
                    },
                );
                s
            },
        }
    }
}

impl OperationalCommand1 {
    /// How the micro-instruction is written: its requests to the devices, what
    /// it does to the carry flag, to the flags "negative" and "zero", and the
    /// registers that take the buffer register's value.
    pub open spec fn spec_mnemonic(&self) -> Seq<char> {
        if self.spec_hlt() {
            "Остановочка."@
        } else {
            spec_io_text(self.spec_io()) + (match self.spec_c() {
                CUpdate::Reset => "C = 0; "@,
                CUpdate::Assign => "C = БР[0]; "@,
                CUpdate::SetOne => "C = 1; "@,
                CUpdate::Unchanged => ""@,
            }) + (match self.spec_nz() {
                NZUpdate::N => "N=БР < 0; "@,
                NZUpdate::Z => "Z=БР == 0; "@,
                NZUpdate::NZ => "N=БР < 0; Z=БР == 0; "@,
                NZUpdate::Unchanged => ""@,
            }) + (match self.spec_output() {
                Some(registers) => if registers.len() > 0 {
                    spec_register_names(registers) + " = БР; "@
                } else {
                    Seq::empty()
                },
                None => Seq::empty(),
            })
        }
    }

    pub fn opcode(&self) -> (r: u16)
        ensures
            r == self.0,
    {
        self.0
    }

    pub fn mnemonic(&self) -> (s: String)
        ensures
            s@ == self.spec_mnemonic(),
    {
        if self.hlt() {
            return String::from_str("Остановочка.");
        }
        let mut s = String::new();
        let io = self.io();
        let mut i: usize = 0;
        assert(io@.take(0) =~= Seq::<IOControl>::empty());
        while i < io.len()
            invariant
                i <= io.len(),
                s@ == spec_io_text(io@.take(i as int)),
            decreases io.len() - i,
        {
            s.append(
                match io[i] {
                    IOControl::DisableInterruption => "Запретить прерывания; ",
                    IOControl::EnableInterruption => "Разрешить прерывания; ",
                    IOControl::Reset => "Сброс флагов ВУ; ",
                    IOControl::Connect => "Организация связей с ВУ; ",
                },
            );
            i = i + 1;
            assert(io@.take(i as int).drop_last() =~= io@.take(i - 1));
        }
        assert(io@.take(io.len() as int) =~= io@);
        s.append(
            match self.c() {
                CUpdate::Reset => "C = 0; ",
                CUpdate::Assign => "C = БР[0]; ",
                CUpdate::SetOne => "C = 1; ",
                CUpdate::Unchanged => "",
            },
        );
        s.append(
            match self.nz() {
                NZUpdate::N => "N=БР < 0; ",
                NZUpdate::Z => "Z=БР == 0; ",
                NZUpdate::NZ => "N=БР < 0; Z=БР == 0; ",
                NZUpdate::Unchanged => "",
            },
        );
        let ghost before = s@;
        match self.output() {
            Some(registers) => {
                if registers.len() > 0 {
                    let mut names = registers[0].mnemonic();
                    let mut k: usize = 1;
                    assert(registers@.take(1) =~= seq![registers@[0]]);
                    while k < registers.len()
                        invariant
                            1 <= k <= registers.len(),
                            names@ == spec_register_names(registers@.take(k as int)),
                        decreases registers.len() - k,
                    {
                        names.append(" ");
                        let m = registers[k].mnemonic();
                        names.append(m.as_str());
                        k = k + 1;
                        assert(registers@.take(k as int).drop_last() =~= registers@.take(k - 1));
                    }
                    assert(registers@.take(registers.len() as int) =~= registers@);
                    names.append(" = БР; ");
                    s.append(names.as_str());
                } else {
                    assert(s@ =~= before + Seq::<char>::empty());
                }
            },
            None => {
                assert(s@ =~= before + Seq::<char>::empty());
            },
        }
        s
    }
}

impl ControlCommand {
    /// How the jump is written: the register, the bit, the value asked for and
    /// the target.
    pub open spec fn spec_mnemonic(&self) -> Seq<char> {
        spec_control_mnemonic(
            self.spec_register(),
            self.spec_bit_location(),
            self.spec_needed_bit(),
            self.spec_jump_address(),
        )
    }

    pub fn opcode(&self) -> (r: u16)
        ensures
            r == self.0,
    {
        self.0
    }

    pub fn mnemonic(&self) -> (s: String)
        ensures
            s@ == self.spec_mnemonic(),
    {
        control_mnemonic(
            self.register(),
            self.bit_location(),
            self.needed_bit(),
            self.jump_address(),
        )
    }
}

impl MicroInstruction {
    /// The word that the micro-instruction was decoded from.
    pub open spec fn spec_opcode(&self) -> u16 {
        match self {
            MicroInstruction::Operational0(c) => c.0,
            MicroInstruction::Operational1(c) => c.0,
            MicroInstruction::Control(c) => c.0,
        }
    }

    pub open spec fn spec_mnemonic(&self) -> Seq<char> {
        match self {
            MicroInstruction::Operational0(c) => c.spec_mnemonic(),
            MicroInstruction::Operational1(c) => c.spec_mnemonic(),
            MicroInstruction::Control(c) => c.spec_mnemonic(),
        }
    }

    pub fn opcode(&self) -> (r: u16)
        ensures
            r == self.spec_opcode(),
    {
        match self {
            MicroInstruction::Operational0(c) => c.opcode(),
            MicroInstruction::Operational1(c) => c.opcode(),
            MicroInstruction::Control(c) => c.opcode(),
        }
    }

    pub fn mnemonic(&self) -> (s: String)
        ensures
            s@ == self.spec_mnemonic(),
    {
        match self {
            MicroInstruction::Operational0(c) => c.mnemonic(),
            MicroInstruction::Operational1(c) => c.mnemonic(),
            MicroInstruction::Control(c) => c.mnemonic(),
        }
    }
}

/// A decoded word of microcode memory.
#[derive(Clone, Copy, Debug)]
pub struct MicroCommandInfo {
    pub command: MicroInstruction,
}

impl MicroCommandInfo {
    pub fn new(command: MicroInstruction) -> (info: MicroCommandInfo)
        ensures
            info == (MicroCommandInfo { command }),
    {
        MicroCommandInfo { command }
    }
}

impl CommandInfo for MicroCommandInfo {
    /// A saved program holds the word in four hexadecimal digits.
    open spec fn spec_file_string(&self) -> Seq<char> {
        spec_hex(self.command.spec_opcode() as nat, 4)
    }

    open spec fn spec_mnemonic(&self) -> Seq<char> {
        self.command.spec_mnemonic()
    }

    fn file_string(&self) -> (s: String) {
        let mut s = String::new();
        append_hex(&mut s, self.command.opcode() as u32, 4);
        assert(s@ =~= self.spec_file_string());
        s
    }

    fn mnemonic(&self) -> (s: String) {
        self.command.mnemonic()
    }
}

/// The codec of microcode memory. Microcode has no mnemonics that can be read
/// back: a program holds it as numbers.
#[derive(Clone, Copy, Debug)]
pub struct McParser;

impl McParser {
    pub fn new() -> (p: McParser) {
        McParser {  }
    }
}

impl Parser<MicroCommandInfo> for McParser {
    open spec fn spec_parse(&self, opcode: u16) -> MicroCommandInfo {
        MicroCommandInfo { command: spec_parse(opcode) }
    }

    open spec fn spec_supports_rev_parse(&self) -> bool {
        false
    }

    open spec fn spec_rev_parse(&self, s: Seq<char>) -> Result<u16, Seq<char>> {
        Err(Seq::empty())
    }

    fn parse(&self, opcode: u16) -> (info: MicroCommandInfo) {
        MicroCommandInfo::new(parse(opcode))
    }

    fn supports_rev_parse(&self) -> (b: bool) {
        false
    }

    fn rev_parse(&self, s: &str) -> (r: Result<u16, String>) {
        Err(String::new())
    }
}

/// The log text for the test that a jump makes.
pub open spec fn spec_msg_compared(bit: u16, register: Register, needed: bool) -> Seq<char> {
    "Сравнил "@
        + spec_decimal(bit as nat)
        + " бит из регистра "@
        + register.spec_mnemonic()
        + " с "@
        + (if needed {
        "1"@
    } else {
        "0"@
    })
}

pub fn msg_compared(bit: u16, register: Register, needed: bool) -> (s: String)
    ensures
        s@ == spec_msg_compared(bit, register, needed),
{
    let mut s = String::from_str("Сравнил ");
    append_decimal(&mut s, bit as u64);
    s.append(" бит из регистра ");
    let m = register.mnemonic();
    s.append(m.as_str());
    s.append(" с ");
    s.append(if needed {
        "1"
    } else {
        "0"
    });
    s
}

/// The log text for a jump that is taken.
pub open spec fn spec_msg_jumped(target: u8) -> Seq<char> {
    "Присвоил значение "@
        + spec_hex(target as nat, 4)
        + " регистру СчМК"@
}

pub fn msg_jumped(target: u8) -> (s: String)
    ensures
        s@ == spec_msg_jumped(target),
{
    let mut s = String::from_str("Присвоил значение ");
    append_hex(&mut s, target as u32, 4);
    s.append(" регистру СчМК");
    s
}

/// The log text for a shift to the right.
pub open spec fn spec_msg_shifted_right(buffer: u32, accumulator: u16) -> Seq<char> {
    "Присвоил регистру БР значение "@
        + spec_hex(buffer as nat, 4)
        + " из сдвинутого вправо регистра А("@
        + spec_hex(accumulator as nat, 4)
        + ")"@
}

pub fn msg_shifted_right(buffer: u32, accumulator: u16) -> (s: String)
    ensures
        s@ == spec_msg_shifted_right(buffer, accumulator),
{
    let mut s = String::from_str("Присвоил регистру БР значение ");
    append_hex(&mut s, buffer as u32, 4);
    s.append(" из сдвинутого вправо регистра А(");
    append_hex(&mut s, accumulator as u32, 4);
    s.append(")");
    s
}

/// The log text for a shift to the left.
pub open spec fn spec_msg_shifted_left(buffer: u32, accumulator: u16) -> Seq<char> {
    "Присвоил регистру БР значение "@
        + spec_hex(buffer as nat, 4)
        + " из сдвинутого влево регистра А("@
        + spec_hex(accumulator as nat, 4)
        + ")"@
}

pub fn msg_shifted_left(buffer: u32, accumulator: u16) -> (s: String)
    ensures
        s@ == spec_msg_shifted_left(buffer, accumulator),
{
    let mut s = String::from_str("Присвоил регистру БР значение ");
    append_hex(&mut s, buffer as u32, 4);
    s.append(" из сдвинутого влево регистра А(");
    append_hex(&mut s, accumulator as u32, 4);
    s.append(")");
    s
}

/// The log text for a write to memory.
pub open spec fn spec_msg_stored(data: u16, address: u16) -> Seq<char> {
    "Присвоил значение "@
        + spec_hex(data as nat, 4)
        + " в ячейку "@
        + spec_hex(address as nat, 4)
}

pub fn msg_stored(data: u16, address: u16) -> (s: String)
    ensures
        s@ == spec_msg_stored(data, address),
{
    let mut s = String::from_str("Присвоил значение ");
    append_hex(&mut s, data as u32, 4);
    s.append(" в ячейку ");
    append_hex(&mut s, address as u32, 4);
    s
}

/// The log text for a read from memory.
pub open spec fn spec_msg_fetched(data: u16, address: u16) -> Seq<char> {
    "Прочитал значение "@
        + spec_hex(data as nat, 4)
        + " из ячейки "@
        + spec_hex(address as nat, 4)
}

pub fn msg_fetched(data: u16, address: u16) -> (s: String)
    ensures
        s@ == spec_msg_fetched(data, address),
{
    let mut s = String::from_str("Прочитал значение ");
    append_hex(&mut s, data as u32, 4);
    s.append(" из ячейки ");
    append_hex(&mut s, address as u32, 4);
    s
}

/// The log text for an operand that is complemented.
pub open spec fn spec_msg_inverted(register: Register, value: u16) -> Seq<char> {
    "Инвертировал регистр "@
        + register.spec_mnemonic()
        + "("@
        + spec_hex(value as nat, 4)
        + ")"@
}

pub fn msg_inverted(register: Register, value: u16) -> (s: String)
    ensures
        s@ == spec_msg_inverted(register, value),
{
    let mut s = String::from_str("Инвертировал регистр ");
    let m = register.mnemonic();
    s.append(m.as_str());
    s.append("(");
    append_hex(&mut s, value as u32, 4);
    s.append(")");
    s
}

/// The log text for a sum.
pub open spec fn spec_msg_summed(expression: Seq<char>, left: u16, right: u16) -> Seq<char> {
    "Произвел операцию "@
        + expression
        + "("@
        + spec_hex(left as nat, 4)
        + " + "@
        + spec_hex(right as nat, 4)
        + ") и положил в БР"@
}

pub fn msg_summed(expression: &str, left: u16, right: u16) -> (s: String)
    ensures
        s@ == spec_msg_summed(expression@, left, right),
{
    let mut s = String::from_str("Произвел операцию ");
    s.append(expression);
    s.append("(");
    append_hex(&mut s, left as u32, 4);
    s.append(" + ");
    append_hex(&mut s, right as u32, 4);
    s.append(") и положил в БР");
    s
}

/// The log text for a sum plus one.
pub open spec fn spec_msg_summed_plus_one(expression: Seq<char>, left: u16, right: u16) -> Seq<char> {
    "Произвел операцию "@
        + expression
        + "("@
        + spec_hex(left as nat, 4)
        + " + "@
        + spec_hex(right as nat, 4)
        + " + 1) и положил в БР"@
}

pub fn msg_summed_plus_one(expression: &str, left: u16, right: u16) -> (s: String)
    ensures
        s@ == spec_msg_summed_plus_one(expression@, left, right),
{
    let mut s = String::from_str("Произвел операцию ");
    s.append(expression);
    s.append("(");
    append_hex(&mut s, left as u32, 4);
    s.append(" + ");
    append_hex(&mut s, right as u32, 4);
    s.append(" + 1) и положил в БР");
    s
}

/// The log text for a bitwise AND.
pub open spec fn spec_msg_anded(expression: Seq<char>, left: u16, right: u16) -> Seq<char> {
    "Произвел операцию "@
        + expression
        + "("@
        + spec_hex(left as nat, 4)
        + " & "@
        + spec_hex(right as nat, 4)
        + ") и положил в БР"@
}

pub fn msg_anded(expression: &str, left: u16, right: u16) -> (s: String)
    ensures
        s@ == spec_msg_anded(expression@, left, right),
{
    let mut s = String::from_str("Произвел операцию ");
    s.append(expression);
    s.append("(");
    append_hex(&mut s, left as u32, 4);
    s.append(" & ");
    append_hex(&mut s, right as u32, 4);
    s.append(") и положил в БР");
    s
}

/// The log text for a register that takes the value of the buffer register.
pub open spec fn spec_msg_moved(buffer: u32, register: Register) -> Seq<char> {
    "Перенес значение "@
        + spec_hex(buffer as nat, 4)
        + " из регистра БР в регистр "@
        + register.spec_mnemonic()
}

pub fn msg_moved(buffer: u32, register: Register) -> (s: String)
    ensures
        s@ == spec_msg_moved(buffer, register),
{
    let mut s = String::from_str("Перенес значение ");
    append_hex(&mut s, buffer as u32, 4);
    s.append(" из регистра БР в регистр ");
    let m = register.mnemonic();
    s.append(m.as_str());
    s
}

/// The value that an operand brings to the arithmetic unit: what the selected
/// register holds, or zero where none is selected; its one's complement where
/// the operand is complemented.
pub open spec fn spec_operand_value(
    input: Option<Register>,
    complemented: bool,
    registers: Registers,
) -> u16 {
    let plain = match input {
        Some(r) => r.spec_get(registers),
        None => 0u16,
    };
    if complemented {
        !plain
    } else {
        plain
    }
}

/// The machine with `value` in its buffer register.
pub open spec fn with_buffer(c: ComputerView, value: u32) -> ComputerView {
    c.with_registers(Registers { r_buffer: value, ..c.registers })
}

/// The machine after the log entry for a complemented operand, which is made
/// where a register is selected and complemented.
pub open spec fn spec_log_inverted(
    c: ComputerView,
    input: Option<Register>,
    complemented: bool,
) -> ComputerView {
    match input {
        Some(r) => if complemented {
            c.log(true, spec_msg_inverted(r, r.spec_get(c.registers)))
        } else {
            c
        },
        None => c,
    }
}

/// The next value of a 16-bit counter that wraps.
pub open spec fn spec_wrapping_next(x: u16) -> u16 {
    if x == 0xFFFF {
        0
    } else {
        (x + 1) as u16
    }
}

/// Facts on the bits of the values that the arithmetic unit makes.
pub proof fn lemma_alu(a: u16, b: u16, buffer: u32)
    ensures
        ((a as u32) >> 1u32) <= 0x7FFF,
        ((a as u32) >> 1u32) | 0x8000 <= 0xFFFF,
        (((a as u32) >> 1u32) | 0x8000) | 0x10000 <= 0x1FFFF,
        ((a as u32) >> 1u32) | 0x10000 <= 0x1FFFF,
        ((a as u32) << 1u32) & 0x1FFFF <= 0x1FFFF,
        (((a as u32) << 1u32) & 0x1FFFF) | 1 <= 0x1FFFF,
        a & 0x7FF <= 0x7FF,
        buffer & 0xFFFF <= 0xFFFF,
        a & b <= 0xFFFF,
{
    assert(((a as u32) >> 1u32) <= 0x7FFF && ((a as u32) >> 1u32) | 0x8000 <= 0xFFFF && (((
    a as u32) >> 1u32) | 0x8000) | 0x10000 <= 0x1FFFF && ((a as u32) >> 1u32) | 0x10000 <= 0x1FFFF
        && ((a as u32) << 1u32) & 0x1FFFF <= 0x1FFFF && (((a as u32) << 1u32) & 0x1FFFF) | 1
        <= 0x1FFFF && a & 0x7FF <= 0x7FF && buffer & 0xFFFF <= 0xFFFF && a & b <= 0xFFFF)
        by (bit_vector);
}

impl OperationalCommand0 {
    /// The machine after the micro-instruction has run. With a shift, the
    /// accumulator goes into the buffer register moved by one bit: the carry
    /// flag comes in at the end that is left open, and the bit that a shift to
    /// the right moves out becomes bit 16. Nothing else is done then. Without a
    /// shift, the memory access comes first, at the address that the address
    /// register holds: a read fills the data register, a write stores it. Then
    /// the buffer register takes the sum, the sum plus one or the bitwise AND
    /// of the two operands.
    pub open spec fn spec_run(&self, c: ComputerView) -> (ComputerView, ExecutionResult) {
        let accumulator = c.registers.r_counter;
        let carry = c.registers.spec_flag(0);
        match self.spec_shift() {
            Shift::Right => {
                let shifted = (accumulator as u32) >> 1u32;
                let c1 = with_buffer(c, shifted).log(
                    true,
                    spec_msg_shifted_right(shifted, accumulator),
                );
                let c2 = if carry {
                    with_buffer(c1, shifted | 0x8000).log(
                        true,
                        "Установил 15 бит регистра БР в 1 так как до начала сдвига был установлен флаг C"@,
                    )
                } else {
                    c1
                };
                let c3 = if spec_bit_at(accumulator, 0) {
                    with_buffer(
                        c2.log(
                            true,
                            "Установил 16 бит регистра БР в 1 т.к. произошло переполнение"@,
                        ),
                        c2.registers.r_buffer | 0x10000,
                    )
                } else {
                    c2
                };
                (c3, ExecutionResult::Success)
            },
            Shift::Left => {
                let shifted = ((accumulator as u32) << 1u32) & 0x1FFFF;
                let c1 = with_buffer(c, shifted).log(
                    true,
                    spec_msg_shifted_left(shifted, accumulator),
                );
                let c2 = if carry {
                    with_buffer(c1, shifted | 1).log(
                        true,
                        "Установил 0 бит регистра БР в 1 так как до начала сдвига был установлен флаг C"@,
                    )
                } else {
                    c1
                };
                (c2, ExecutionResult::Success)
            },
            Shift::Neither => {
                let address = c.registers.r_address;
                let cell = (address & 0x7FF) as int;
                let c1 = match self.spec_memory() {
                    Memory::Write => (ComputerView {
                        general: spec_write(c.general, cell, c.registers.r_data),
                        ..c
                    }).log(false, spec_msg_stored(c.registers.r_data, address)),
                    Memory::Read => c.with_registers(
                        Registers { r_data: c.general[cell].data, ..c.registers },
                    ).log(false, spec_msg_fetched(c.general[cell].data, address)),
                    Memory::Idle => c,
                };
                let registers = c1.registers;
                let invert_left = self.spec_complement() == Complement::Left;
                let invert_right = self.spec_complement() == Complement::Right;
                let left = spec_operand_value(self.spec_left_input(), invert_left, registers);
                let right = spec_operand_value(self.spec_right_input(), invert_right, registers);
                let c2 = spec_log_inverted(
                    spec_log_inverted(c1, self.spec_left_input(), invert_left),
                    self.spec_right_input(),
                    invert_right,
                );
                let c3 = match self.spec_operation() {
                    Operation::LeftPlusRight => with_buffer(
                        c2.log(
                            true,
                            spec_msg_summed(self.spec_expression_mnemonic(), left, right),
                        ),
                        (right as u32 + left as u32) as u32,
                    ),
                    Operation::LeftPlusRightPlusOne => with_buffer(
                        c2.log(
                            true,
                            spec_msg_summed_plus_one(self.spec_expression_mnemonic(), left, right),
                        ),
                        (right as u32 + spec_wrapping_next(left) as u32) as u32,
                    ),
                    Operation::LeftAndRight => with_buffer(
                        c2.log(true, spec_msg_anded(self.spec_expression_mnemonic(), left, right)),
                        (right & left) as u32,
                    ),
                };
                (c3, ExecutionResult::Success)
            },
        }
    }

    /// The value of an operand, with the log entry that a complemented
    /// register gets.
    fn operand(input: Option<Register>, complemented: bool, computer: &mut Computer) -> (v: u16)
        ensures
            v == spec_operand_value(input, complemented, old(computer).registers),
            final(computer)@ == spec_log_inverted(old(computer)@, input, complemented),
            final(computer).same_banks(old(computer)),
            final(computer).registers == old(computer).registers,
    {
        match input {
            Some(r) => {
                let plain: u16 = r.get(computer);
                if complemented {
                    computer.log(true, msg_inverted(r, plain));
                    !plain
                } else {
                    plain
                }
            },
            None => {
                if complemented {
                    !0u16
                } else {
                    0
                }
            },
        }
    }

    /// Runs the micro-instruction.
    pub fn run(&self, computer: &mut Computer) -> (r: ExecutionResult)
        requires
            old(computer).wf(),
        ensures
            (final(computer)@, r) == self.spec_run(old(computer)@),
            final(computer).wf(),
            final(computer).same_banks(old(computer)),
            old(computer).registers.wf() ==> final(computer).registers.wf(),
            r == ExecutionResult::Success,
    {
        let accumulator: u16 = computer.registers.r_counter;
        proof {
            lemma_alu(accumulator, computer.registers.r_address, 0);
            lemma_alu(computer.registers.r_address, 0, 0);
        }
        match self.shift() {
            Shift::Right => {
                let c = computer.registers.get_overflow();
                let overflow = bit_at(accumulator, 0);
                computer.registers.r_buffer = (accumulator as u32) >> 1u32;
                computer.log(true, msg_shifted_right(computer.registers.r_buffer, accumulator));
                if c {
                    computer.registers.r_buffer = computer.registers.r_buffer | 0x8000;
                    computer.log(
                        true,
                        String::from_str(
                            "Установил 15 бит регистра БР в 1 так как до начала сдвига был установлен флаг C",
                        ),
                    );
                }
                if overflow {
                    computer.log(
                        true,
                        String::from_str(
                            "Установил 16 бит регистра БР в 1 т.к. произошло переполнение",
                        ),
                    );
                    computer.registers.r_buffer = computer.registers.r_buffer | 0x10000;
                }
                return ExecutionResult::Success;
            },
            Shift::Left => {
                let c = computer.registers.get_overflow();
                computer.registers.r_buffer = ((accumulator as u32) << 1u32) & 0x1FFFF;
                computer.log(true, msg_shifted_left(computer.registers.r_buffer, accumulator));
                if c {
                    computer.registers.r_buffer = computer.registers.r_buffer | 1;
                    computer.log(
                        true,
                        String::from_str(
                            "Установил 0 бит регистра БР в 1 так как до начала сдвига был установлен флаг C",
                        ),
                    );
                }
                return ExecutionResult::Success;
            },
            Shift::Neither => {},
        }
        let address: u16 = computer.registers.r_address;
        let cell: usize = (address & 0x7FF) as usize;
        match self.memory() {
            Memory::Write => {
                computer.general_memory.set(cell, computer.registers.r_data);
                computer.log(false, msg_stored(computer.registers.r_data, address));
            },
            Memory::Read => {
                computer.registers.r_data = computer.general_memory.get(cell);
                computer.log(false, msg_fetched(computer.registers.r_data, address));
            },
            Memory::Idle => {},
        }
        let complement = self.complement();
        let left: u16 = Self::operand(self.left_input(), complement == Complement::Left, computer);
        let right: u16 = Self::operand(
            self.right_input(),
            complement == Complement::Right,
            computer,
        );
        let expression = self.expression_mnemonic();
        proof {
            lemma_alu(right, left, 0);
        }
        match self.operation() {
            Operation::LeftPlusRight => {
                computer.log(true, msg_summed(expression.as_str(), left, right));
                computer.registers.r_buffer = right as u32 + left as u32;
            },
            Operation::LeftPlusRightPlusOne => {
                computer.log(true, msg_summed_plus_one(expression.as_str(), left, right));
                let next: u16 = if left == 0xFFFF {
                    0
                } else {
                    left + 1
                };
                computer.registers.r_buffer = right as u32 + next as u32;
            },
            Operation::LeftAndRight => {
                computer.log(true, msg_anded(expression.as_str(), left, right));
                computer.registers.r_buffer = (right & left) as u32;
            },
        }
        ExecutionResult::Success
    }
}

impl ControlCommand {
    /// The machine after the jump has run: where the tested bit of the selected
    /// register has the value asked for, the micro-program counter holds the
    /// target and the result is `Jumped`; otherwise only the log has grown.
    pub open spec fn spec_run(&self, c: ComputerView) -> (ComputerView, ExecutionResult) {
        let logged = c.log(
            true,
            spec_msg_compared(
                self.spec_bit_location(),
                self.spec_register(),
                self.spec_needed_bit(),
            ),
        );
        if self.spec_taken(c.registers) {
            let noted = logged.log(true, spec_msg_jumped(self.spec_jump_address()));
            (
                noted.with_registers(
                    Registers {
                        r_micro_command_counter: self.spec_jump_address(),
                        ..noted.registers
                    },
                ),
                ExecutionResult::Jumped,
            )
        } else {
            (logged, ExecutionResult::Success)
        }
    }

    /// Whether the jump is taken: the tested bit has the value asked for.
    pub open spec fn spec_taken(&self, registers: Registers) -> bool {
        spec_bit_at(self.spec_register().spec_get(registers), self.spec_bit_location() as u8)
            == self.spec_needed_bit()
    }

    /// Runs the jump.
    pub fn run(&self, computer: &mut Computer) -> (r: ExecutionResult)
        ensures
            (final(computer)@, r) == self.spec_run(old(computer)@),
            final(computer).same_banks(old(computer)),
            old(computer).wf() ==> final(computer).wf(),
            old(computer).registers.wf() ==> final(computer).registers.wf(),
    {
        let register = self.register();
        let location: u16 = self.bit_location();
        let needed = self.needed_bit();
        computer.log(true, msg_compared(location, register, needed));
        if bit_at(register.get(computer), location as u8) == needed {
            let target: u8 = self.jump_address();
            computer.log(true, msg_jumped(target));
            computer.registers.r_micro_command_counter = target;
            return ExecutionResult::Jumped;
        }
        ExecutionResult::Success
    }
}

/// The devices `devices` with every ready flag cleared.
pub open spec fn spec_all_unready(devices: Seq<IOCell>) -> Seq<IOCell> {
    Seq::new(devices.len(), |i: int| IOCell { ready: false, ..devices[i] })
}

/// The machine after one request to the devices or the interrupt logic is
/// served. A connection is made only where the data register equals the
/// command register; otherwise the request is noted in the log and dropped.
pub open spec fn spec_serve(c: ComputerView, item: IOControl) -> ComputerView {
    match item {
        IOControl::Connect => if c.registers.r_data == c.registers.r_command {
            let logged = c.log(
                true,
                "Установил флаг ВВОД-ВВЫОД и передал управление модулю взаимодействия с ВУ"@,
            );
            logged.with_registers(logged.registers.spec_with_flag(12, true)).process_io_command()
        } else {
            c.log(
                true,
                "Было запрошено взаимодействие с ВУ но РД не равен РК. Запрос проигнорирован."@,
            )
        },
        IOControl::DisableInterruption => {
            let logged = c.log(false, "Запретил прерывания"@);
            logged.with_registers(
                logged.registers.spec_with_flag(4, false).spec_with_flag(5, false),
            )
        },
        IOControl::EnableInterruption => {
            let logged = c.log(false, "Разрешил прерывания"@);
            logged.with_registers(logged.registers.spec_with_flag(4, true))
        },
        IOControl::Reset => {
            let logged = c.log(false, "Сбросил флаги готовности ВУ"@);
            ComputerView { io_devices: spec_all_unready(logged.io_devices), ..logged }
        },
    }
}

/// The machine after the requests `items` are served in order.
pub open spec fn spec_serve_all(c: ComputerView, items: Seq<IOControl>) -> ComputerView
    decreases items.len(),
{
    if items.len() == 0 {
        c
    } else {
        spec_serve(spec_serve_all(c, items.drop_last()), items.last())
    }
}

/// The machine after the carry flag is updated. `Assign` gives the flag the
/// value of the buffer register's carry, the bits above bit 15, and clears
/// those bits.
pub open spec fn spec_update_carry(c: ComputerView, update: CUpdate) -> ComputerView {
    match update {
        CUpdate::Reset => {
            let logged = c.log(false, "Сбросил флаг переноса"@);
            logged.with_registers(logged.registers.spec_with_flag(0, false))
        },
        CUpdate::Assign => if c.registers.r_buffer > 0xFFFF {
            c.with_registers(
                (Registers {
                    r_buffer: c.registers.r_buffer & 0xFFFF,
                    ..c.registers
                }).spec_with_flag(0, true),
            ).log(false, "Установил флаг переноса и убрал лишнюю единицу у БР"@)
        } else {
            c.with_registers(c.registers.spec_with_flag(0, false)).log(
                false,
                "Сбросил флаг переноса"@,
            )
        },
        CUpdate::SetOne => {
            let logged = c.log(false, "Установил флаг переноса"@);
            logged.with_registers(logged.registers.spec_with_flag(0, true))
        },
        CUpdate::Unchanged => c,
    }
}

/// The machine after the zero flag is set from the low 16 bits of the buffer
/// register.
pub open spec fn spec_update_zero(c: ComputerView) -> ComputerView {
    if c.registers.r_buffer & 0xFFFF == 0 {
        c.with_registers(c.registers.spec_with_flag(1, true)).log(
            false,
            "Установил флаг \"нуль\""@,
        )
    } else {
        c.with_registers(c.registers.spec_with_flag(1, false)).log(false, "Убрал флаг \"нуль\""@)
    }
}

/// The machine after the negative flag is set from bit 15 of the buffer register.
pub open spec fn spec_update_negative(c: ComputerView) -> ComputerView {
    if spec_bit_at((c.registers.r_buffer & 0xFFFF) as u16, 15) {
        c.with_registers(c.registers.spec_with_flag(2, true)).log(
            false,
            "Установил флаг \"знак\""@,
        )
    } else {
        c.with_registers(c.registers.spec_with_flag(2, false)).log(false, "Убрал флаг \"знак\""@)
    }
}

/// The machine after the flags "zero" and "negative" are updated.
pub open spec fn spec_update_nz(c: ComputerView, update: NZUpdate) -> ComputerView {
    let zero_done = if update == NZUpdate::Z || update == NZUpdate::NZ {
        spec_update_zero(c)
    } else {
        c
    };
    if update == NZUpdate::N || update == NZUpdate::NZ {
        spec_update_negative(zero_done)
    } else {
        zero_done
    }
}

/// The machine after `register` takes the low 16 bits of the buffer register.
pub open spec fn spec_move_to(c: ComputerView, register: Register) -> ComputerView {
    let logged = c.log(
        register != Register::Counter && register != Register::CommandCounter,
        spec_msg_moved(c.registers.r_buffer, register),
    );
    logged.with_registers(
        register.spec_assign(logged.registers, (logged.registers.r_buffer & 0xFFFF) as u16),
    )
}

/// The machine after each of `registers` takes the low 16 bits of the buffer
/// register.
pub open spec fn spec_write_back(c: ComputerView, registers: Seq<Register>) -> ComputerView
    decreases registers.len(),
{
    if registers.len() == 0 {
        c
    } else {
        spec_move_to(spec_write_back(c, registers.drop_last()), registers.last())
    }
}

impl OperationalCommand1 {
    /// The machine after the micro-instruction has run. A halt stops the
    /// machine and does nothing else. Requests to the devices or the interrupt
    /// logic are served, and nothing else is done then. Otherwise the carry
    /// flag is updated, then the flags "zero" and "negative", and then the
    /// selected registers take the low 16 bits of the buffer register.
    pub open spec fn spec_run(&self, c: ComputerView) -> (ComputerView, ExecutionResult) {
        if self.spec_hlt() {
            (c.log(false, "Оппа, моя остановочка."@), ExecutionResult::Halted)
        } else if self.spec_io().len() > 0 {
            (spec_serve_all(c, self.spec_io()), ExecutionResult::Success)
        } else {
            (
                spec_write_back(
                    spec_update_nz(spec_update_carry(c, self.spec_c()), self.spec_nz()),
                    match self.spec_output() {
                        Some(registers) => registers,
                        None => Seq::empty(),
                    },
                ),
                ExecutionResult::Success,
            )
        }
    }

    fn serve(item: IOControl, computer: &mut Computer)
        ensures
            final(computer)@ == spec_serve(old(computer)@, item),
            final(computer).same_banks(old(computer)),
            old(computer).wf() ==> final(computer).wf(),
            old(computer).registers.wf() ==> final(computer).registers.wf(),
    {
        proof {
            lemma_with_flag(computer.registers, 12, true);
            lemma_with_flag(computer.registers, 4, false);
            lemma_with_flag(computer.registers, 4, true);
            lemma_with_flag(computer.registers.spec_with_flag(4, false), 5, false);
        }
        match item {
            IOControl::Connect => {
                if computer.registers.r_data == computer.registers.r_command {
                    computer.log(
                        true,
                        String::from_str(
                            "Установил флаг ВВОД-ВВЫОД и передал управление модулю взаимодействия с ВУ",
                        ),
                    );
                    computer.registers.set_io(true);
                    computer.process_io_command();
                } else {
                    computer.log(
                        true,
                        String::from_str(
                            "Было запрошено взаимодействие с ВУ но РД не равен РК. Запрос проигнорирован.",
                        ),
                    );
                }
            },
            IOControl::DisableInterruption => {
                computer.log(false, String::from_str("Запретил прерывания"));
                computer.registers.set_allow_interrupt(false);
                computer.registers.set_interrupt(false);
            },
            IOControl::EnableInterruption => {
                computer.log(false, String::from_str("Разрешил прерывания"));
                computer.registers.set_allow_interrupt(true);
            },
            IOControl::Reset => {
                computer.log(false, String::from_str("Сбросил флаги готовности ВУ"));
                let ghost before = computer.io_devices@;
                let mut i: usize = 0;
                while i < 16
                    invariant
                        i <= 16,
                        before.len() == 16,
                        computer.io_devices@.len() == 16,
                        forall|j: int|
                            0 <= j < i ==> computer.io_devices@[j] == (IOCell {
                                ready: false,
                                ..before[j]
                            }),
                        forall|j: int| i <= j < 16 ==> computer.io_devices@[j] == before[j],
                        computer.registers == old(computer).registers,
                        computer.general_memory@ == old(computer).general_memory@,
                        computer.mc_memory@ == old(computer).mc_memory@,
                        computer.same_banks(old(computer)),
                        computer.boot@ == old(computer).boot@,
                        computer.log@ == old(computer)@.log(
                            false,
                            "Сбросил флаги готовности ВУ"@,
                        ).logs,
                    decreases 16 - i,
                {
                    let device: IOCell = computer.io_devices[i];
                    computer.io_devices[i] = IOCell { data: device.data, ready: false };
                    i = i + 1;
                }
                assert(computer.io_devices@ =~= spec_all_unready(before));
            },
        }
    }

    fn update_carry(update: CUpdate, computer: &mut Computer)
        ensures
            final(computer)@ == spec_update_carry(old(computer)@, update),
            final(computer).same_banks(old(computer)),
            old(computer).wf() ==> final(computer).wf(),
            old(computer).registers.wf() ==> final(computer).registers.wf(),
    {
        proof {
            lemma_with_flag(computer.registers, 0, true);
            lemma_with_flag(computer.registers, 0, false);
            lemma_alu(0, 0, computer.registers.r_buffer);
        }
        match update {
            CUpdate::Reset => {
                computer.log(false, String::from_str("Сбросил флаг переноса"));
                computer.registers.set_overflow(false);
            },
            CUpdate::Assign => {
                if computer.registers.r_buffer > 0xFFFF {
                    computer.registers.r_buffer = computer.registers.r_buffer & 0xFFFF;
                    proof {
                        lemma_with_flag(computer.registers, 0, true);
                    }
                    computer.registers.set_overflow(true);
                    computer.log(
                        false,
                        String::from_str("Установил флаг переноса и убрал лишнюю единицу у БР"),
                    );
                } else {
                    computer.registers.set_overflow(false);
                    computer.log(false, String::from_str("Сбросил флаг переноса"));
                }
            },
            CUpdate::SetOne => {
                computer.log(false, String::from_str("Установил флаг переноса"));
                computer.registers.set_overflow(true);
            },
            CUpdate::Unchanged => {},
        }
    }

    fn update_nz(update: NZUpdate, computer: &mut Computer)
        ensures
            final(computer)@ == spec_update_nz(old(computer)@, update),
            final(computer).same_banks(old(computer)),
            old(computer).wf() ==> final(computer).wf(),
            old(computer).registers.wf() ==> final(computer).registers.wf(),
    {
        let low: u32 = computer.registers.r_buffer & 0xFFFF;
        proof {
            lemma_alu(0, 0, computer.registers.r_buffer);
            lemma_with_flag(computer.registers, 1, true);
            lemma_with_flag(computer.registers, 1, false);
        }
        if update == NZUpdate::Z || update == NZUpdate::NZ {
            if low == 0 {
                computer.registers.set_null(true);
                computer.log(false, String::from_str("Установил флаг \"нуль\""));
            } else {
                computer.registers.set_null(false);
                computer.log(false, String::from_str("Убрал флаг \"нуль\""));
            }
        }
        proof {
            lemma_with_flag(computer.registers, 2, true);
            lemma_with_flag(computer.registers, 2, false);
        }
        if update == NZUpdate::N || update == NZUpdate::NZ {
            if bit_at(low as u16, 15) {
                computer.registers.set_negative(true);
                computer.log(false, String::from_str("Установил флаг \"знак\""));
            } else {
                computer.registers.set_negative(false);
                computer.log(false, String::from_str("Убрал флаг \"знак\""));
            }
        }
    }

    fn move_to(register: Register, computer: &mut Computer)
        ensures
            final(computer)@ == spec_move_to(old(computer)@, register),
            final(computer).same_banks(old(computer)),
            old(computer).wf() ==> final(computer).wf(),
            old(computer).registers.wf() ==> final(computer).registers.wf(),
    {
        proof {
            lemma_alu(0, 0, computer.registers.r_buffer);
        }
        computer.log(
            register != Register::Counter && register != Register::CommandCounter,
            msg_moved(computer.registers.r_buffer, register),
        );
        register.assign(computer, (computer.registers.r_buffer & 0xFFFF) as u16);
    }

    /// Runs the micro-instruction.
    pub fn run(&self, computer: &mut Computer) -> (r: ExecutionResult)
        ensures
            (final(computer)@, r) == self.spec_run(old(computer)@),
            final(computer).same_banks(old(computer)),
            old(computer).wf() ==> final(computer).wf(),
            old(computer).registers.wf() ==> final(computer).registers.wf(),
    {
        if self.hlt() {
            computer.log(false, String::from_str("Оппа, моя остановочка."));
            return ExecutionResult::Halted;
        }
        let io = self.io();
        if io.len() > 0 {
            let mut i: usize = 0;
            assert(io@.take(0) =~= Seq::<IOControl>::empty());
            while i < io.len()
                invariant
                    i <= io.len(),
                    computer@ == spec_serve_all(old(computer)@, io@.take(i as int)),
                    computer.same_banks(old(computer)),
                    old(computer).wf() ==> computer.wf(),
                    old(computer).registers.wf() ==> computer.registers.wf(),
                decreases io.len() - i,
            {
                Self::serve(io[i], computer);
                i = i + 1;
                assert(io@.take(i as int).drop_last() =~= io@.take(i - 1));
            }
            assert(io@.take(io.len() as int) =~= io@);
            return ExecutionResult::Success;
        }
        Self::update_carry(self.c(), computer);
        Self::update_nz(self.nz(), computer);
        let ghost start = computer@;
        match self.output() {
            Some(registers) => {
                let mut i: usize = 0;
                assert(registers@.take(0) =~= Seq::<Register>::empty());
                while i < registers.len()
                    invariant
                        i <= registers.len(),
                        computer@ == spec_write_back(start, registers@.take(i as int)),
                        computer.same_banks(old(computer)),
                        old(computer).wf() ==> computer.wf(),
                        old(computer).registers.wf() ==> computer.registers.wf(),
                    decreases registers.len() - i,
                {
                    Self::move_to(registers[i], computer);
                    i = i + 1;
                    assert(registers@.take(i as int).drop_last() =~= registers@.take(i - 1));
                }
                assert(registers@.take(registers.len() as int) =~= registers@);
            },
            None => {},
        }
        ExecutionResult::Success
    }
}

/// What every shape of micro-instruction can do.
pub trait MicroCommand {
    /// The machine after the micro-instruction has run, and how the run ended.
    spec fn spec_run(&self, computer: ComputerView) -> (ComputerView, ExecutionResult);

    spec fn spec_mnemonic(&self) -> Seq<char>;

    spec fn spec_opcode(&self) -> u16;

    spec fn spec_horizontal(&self) -> u32;

    /// Runs the micro-instruction on `computer`.
    fn run(&self, computer: &mut Computer) -> (r: ExecutionResult)
        requires
            old(computer).wf(),
        ensures
            (final(computer)@, r) == self.spec_run(old(computer)@),
            final(computer).wf(),
            final(computer).same_banks(old(computer)),
            old(computer).registers.wf() ==> final(computer).registers.wf(),
    ;

    /// How the micro-instruction is written.
    fn mnemonic(&self) -> (s: String)
        ensures
            s@ == self.spec_mnemonic(),
    ;

    /// The word that the micro-instruction was decoded from.
    fn opcode(&self) -> (r: u16)
        ensures
            r == self.spec_opcode(),
    ;

    /// The micro-instruction in the horizontal format.
    fn horizontal(&self) -> (r: u32)
        ensures
            r == self.spec_horizontal(),
    ;
}

impl MicroCommand for OperationalCommand0 {
    open spec fn spec_run(&self, computer: ComputerView) -> (ComputerView, ExecutionResult) {
        OperationalCommand0::spec_run(self, computer)
    }

    open spec fn spec_mnemonic(&self) -> Seq<char> {
        OperationalCommand0::spec_mnemonic(self)
    }

    open spec fn spec_opcode(&self) -> u16 {
        self.0
    }

    open spec fn spec_horizontal(&self) -> u32 {
        OperationalCommand0::spec_horizontal(self)
    }

    fn run(&self, computer: &mut Computer) -> (r: ExecutionResult) {
        OperationalCommand0::run(self, computer)
    }

    fn mnemonic(&self) -> (s: String) {
        OperationalCommand0::mnemonic(self)
    }

    fn opcode(&self) -> (r: u16) {
        self.0
    }

    fn horizontal(&self) -> (r: u32) {
        OperationalCommand0::horizontal(self)
    }
}

impl MicroCommand for OperationalCommand1 {
    open spec fn spec_run(&self, computer: ComputerView) -> (ComputerView, ExecutionResult) {
        OperationalCommand1::spec_run(self, computer)
    }

    open spec fn spec_mnemonic(&self) -> Seq<char> {
        OperationalCommand1::spec_mnemonic(self)
    }

    open spec fn spec_opcode(&self) -> u16 {
        self.0
    }

    open spec fn spec_horizontal(&self) -> u32 {
        OperationalCommand1::spec_horizontal(self)
    }

    fn run(&self, computer: &mut Computer) -> (r: ExecutionResult) {
        OperationalCommand1::run(self, computer)
    }

    fn mnemonic(&self) -> (s: String) {
        OperationalCommand1::mnemonic(self)
    }

    fn opcode(&self) -> (r: u16) {
        self.0
    }

    fn horizontal(&self) -> (r: u32) {
        OperationalCommand1::horizontal(self)
    }
}

impl MicroCommand for ControlCommand {
    open spec fn spec_run(&self, computer: ComputerView) -> (ComputerView, ExecutionResult) {
        ControlCommand::spec_run(self, computer)
    }

    open spec fn spec_mnemonic(&self) -> Seq<char> {
        ControlCommand::spec_mnemonic(self)
    }

    open spec fn spec_opcode(&self) -> u16 {
        self.0
    }

    open spec fn spec_horizontal(&self) -> u32 {
        ControlCommand::spec_horizontal(self)
    }

    fn run(&self, computer: &mut Computer) -> (r: ExecutionResult) {
        ControlCommand::run(self, computer)
    }

    fn mnemonic(&self) -> (s: String) {
        ControlCommand::mnemonic(self)
    }

    fn opcode(&self) -> (r: u16) {
        self.0
    }

    fn horizontal(&self) -> (r: u32) {
        ControlCommand::horizontal(self)
    }
}

impl MicroInstruction {
    /// The machine after the micro-instruction has run, and how the run ended.
    pub open spec fn spec_run(&self, computer: ComputerView) -> (ComputerView, ExecutionResult) {
        match self {
            MicroInstruction::Operational0(c) => c.spec_run(computer),
            MicroInstruction::Operational1(c) => c.spec_run(computer),
            MicroInstruction::Control(c) => c.spec_run(computer),
        }
    }

    /// Runs the micro-instruction on `computer`.
    pub fn run(&self, computer: &mut Computer) -> (r: ExecutionResult)
        requires
            old(computer).wf(),
        ensures
            (final(computer)@, r) == self.spec_run(old(computer)@),
            final(computer).wf(),
            final(computer).same_banks(old(computer)),
            old(computer).registers.wf() ==> final(computer).registers.wf(),
    {
        match self {
            MicroInstruction::Operational0(c) => c.run(computer),
            MicroInstruction::Operational1(c) => c.run(computer),
            MicroInstruction::Control(c) => c.run(computer),
        }
    }
}

impl MicroCommand for MicroInstruction {
    open spec fn spec_run(&self, computer: ComputerView) -> (ComputerView, ExecutionResult) {
        MicroInstruction::spec_run(self, computer)
    }

    open spec fn spec_mnemonic(&self) -> Seq<char> {
        MicroInstruction::spec_mnemonic(self)
    }

    open spec fn spec_opcode(&self) -> u16 {
        MicroInstruction::spec_opcode(self)
    }

    open spec fn spec_horizontal(&self) -> u32 {
        MicroInstruction::spec_horizontal(self)
    }

    fn run(&self, computer: &mut Computer) -> (r: ExecutionResult) {
        MicroInstruction::run(self, computer)
    }

    fn mnemonic(&self) -> (s: String) {
        MicroInstruction::mnemonic(self)
    }

    fn opcode(&self) -> (r: u16) {
        MicroInstruction::opcode(self)
    }

    fn horizontal(&self) -> (r: u32) {
        MicroInstruction::horizontal(self)
    }
}

/// `x` with bit `pos` set where `wanted` holds, and `x` where it does not.
pub open spec fn spec_mark(x: u32, pos: u8, wanted: bool) -> u32 {
    if wanted {
        spec_set_bit(x, pos, true)
    } else {
        x
    }
}

/// Sets bit `pos` of `num` where `wanted` holds.
fn mark(num: &mut u32, pos: u8, wanted: bool)
    ensures
        *final(num) == spec_mark(*old(num), pos, wanted),
{
    if wanted {
        set_bit(num, pos, true);
    }
}

/// Whether `registers` holds `register`.
pub open spec fn spec_holds(registers: Option<Seq<Register>>, register: Register) -> bool {
    match registers {
        Some(list) => list.contains(register),
        None => false,
    }
}

impl OperationalCommand0 {
    /// The micro-instruction in the horizontal format, which has one bit for
    /// each gate of the machine. Bits 4, 5 and 6 open the accumulator, the
    /// status word and the command register to the left input; bits 1, 3 and 6
    /// the data register, the command counter and the command register to the
    /// right input. Bits 7 and 8 complement the left and the right input, bit
    /// 10 adds one, bit 9 selects the bitwise AND, bits 11 and 12 shift to the
    /// right and to the left, bits 23 and 24 read and write memory.
    pub open spec fn spec_horizontal(&self) -> u32 {
        let left = self.spec_left_input();
        let right = self.spec_right_input();
        let r1 = spec_mark(0, 4, left == Some(Register::Counter));
        let r2 = spec_mark(r1, 5, left == Some(Register::Status));
        let r3 = spec_mark(r2, 6, left == Some(Register::Command));
        let r4 = spec_mark(r3, 1, right == Some(Register::Data));
        let r5 = spec_mark(r4, 3, right == Some(Register::CommandCounter));
        let r6 = spec_mark(r5, 6, right == Some(Register::Command));
        let r7 = spec_mark(r6, 7, self.spec_complement() == Complement::Left);
        let r8 = spec_mark(r7, 8, self.spec_complement() == Complement::Right);
        let r9 = spec_mark(r8, 10, self.spec_operation() == Operation::LeftPlusRightPlusOne);
        let r10 = spec_mark(r9, 9, self.spec_operation() == Operation::LeftAndRight);
        let r11 = spec_mark(r10, 12, self.spec_shift() == Shift::Left);
        let r12 = spec_mark(r11, 11, self.spec_shift() == Shift::Right);
        let r13 = spec_mark(r12, 23, self.spec_memory() == Memory::Read);
        spec_mark(r13, 24, self.spec_memory() == Memory::Write)
    }

    pub fn horizontal(&self) -> (r: u32)
        ensures
            r == self.spec_horizontal(),
    {
        let mut result: u32 = 0;
        let left = self.left_input();
        let right = self.right_input();
        mark(
            &mut result,
            4,
            match left {
                Some(register) => register == Register::Counter,
                None => false,
            },
        );
        mark(
            &mut result,
            5,
            match left {
                Some(register) => register == Register::Status,
                None => false,
            },
        );
        mark(
            &mut result,
            6,
            match left {
                Some(register) => register == Register::Command,
                None => false,
            },
        );
        mark(
            &mut result,
            1,
            match right {
                Some(register) => register == Register::Data,
                None => false,
            },
        );
        mark(
            &mut result,
            3,
            match right {
                Some(register) => register == Register::CommandCounter,
                None => false,
            },
        );
        mark(
            &mut result,
            6,
            match right {
                Some(register) => register == Register::Command,
                None => false,
            },
        );
        mark(&mut result, 7, self.complement() == Complement::Left);
        mark(&mut result, 8, self.complement() == Complement::Right);
        mark(&mut result, 10, self.operation() == Operation::LeftPlusRightPlusOne);
        mark(&mut result, 9, self.operation() == Operation::LeftAndRight);
        mark(&mut result, 12, self.shift() == Shift::Left);
        mark(&mut result, 11, self.shift() == Shift::Right);
        mark(&mut result, 23, self.memory() == Memory::Read);
        mark(&mut result, 24, self.memory() == Memory::Write);
        result
    }
}

impl OperationalCommand1 {
    /// The micro-instruction in the horizontal format. Bits 29, 28, 27 and 26
    /// connect a device, allow interrupts, forbid them and clear the ready
    /// flags; bit 13 takes the carry from the buffer register, bits 16 and 17
    /// clear and set it; bits 14 and 15 update the flags "negative" and
    /// "zero"; bit 0 halts; bits 18 to 22 open the address register, the data
    /// register, the command register, the command counter and the
    /// accumulator to the buffer register.
    pub open spec fn spec_horizontal(&self) -> u32 {
        let io = self.spec_io();
        let output = self.spec_output();
        let r1 = spec_mark(0, 29, io.contains(IOControl::Connect));
        let r2 = spec_mark(r1, 28, io.contains(IOControl::EnableInterruption));
        let r3 = spec_mark(r2, 27, io.contains(IOControl::DisableInterruption));
        let r4 = spec_mark(r3, 26, io.contains(IOControl::Reset));
        let r5 = spec_mark(r4, 13, self.spec_c() == CUpdate::Assign);
        let r6 = spec_mark(r5, 16, self.spec_c() == CUpdate::Reset);
        let r7 = spec_mark(r6, 17, self.spec_c() == CUpdate::SetOne);
        let r8 = spec_mark(r7, 14, self.spec_nz() == NZUpdate::N || self.spec_nz() == NZUpdate::NZ);
        let r9 = spec_mark(r8, 15, self.spec_nz() == NZUpdate::Z || self.spec_nz() == NZUpdate::NZ);
        let r10 = spec_mark(r9, 0, self.spec_hlt());
        let r11 = spec_mark(r10, 18, spec_holds(output, Register::Address));
        let r12 = spec_mark(r11, 19, spec_holds(output, Register::Data));
        let r13 = spec_mark(r12, 20, spec_holds(output, Register::Command));
        let r14 = spec_mark(r13, 21, spec_holds(output, Register::CommandCounter));
        spec_mark(r14, 22, spec_holds(output, Register::Counter))
    }

    /// Whether a request to the devices or the interrupt logic is among bits 8 to 11.
    fn asks(&self, item: IOControl) -> (r: bool)
        ensures
            r == self.spec_io().contains(item),
    {
        let r = match item {
            IOControl::Connect => bit_at(self.0, 8),
            IOControl::Reset => bit_at(self.0, 9),
            IOControl::DisableInterruption => bit_at(self.0, 10),
            IOControl::EnableInterruption => bit_at(self.0, 11),
        };
        proof {
            let io = self.spec_io();
            if r {
                assert(io.contains(item)) by {
                    let a = if spec_bit_at(self.0, 8) {
                        1int
                    } else {
                        0int
                    };
                    let b = if spec_bit_at(self.0, 9) {
                        1int
                    } else {
                        0int
                    };
                    let c = if spec_bit_at(self.0, 10) {
                        1int
                    } else {
                        0int
                    };
                    let at = match item {
                        IOControl::Connect => 0int,
                        IOControl::Reset => a,
                        IOControl::DisableInterruption => a + b,
                        IOControl::EnableInterruption => a + b + c,
                    };
                    assert(io[at] == item);
                }
            } else {
                assert forall|k: int| 0 <= k < io.len() implies io[k] != item by {}
            }
        }
        r
    }

    /// Whether `register` takes the buffer register's value.
    fn writes(&self, register: Register) -> (r: bool)
        ensures
            r == spec_holds(self.spec_output(), register),
    {
        let s: u16 = sub_sum(self.0, 2, 0);
        let r = if s == 7 {
            register == Register::Address || register == Register::Data || register
                == Register::Command || register == Register::Counter
        } else if s == 1 {
            register == Register::Address
        } else if s == 2 {
            register == Register::Data
        } else if s == 3 {
            register == Register::Command
        } else if s == 4 {
            register == Register::CommandCounter
        } else if s == 5 {
            register == Register::Counter
        } else {
            false
        };
        proof {
            lemma_fields(self.0);
            match self.spec_output() {
                Some(list) => {
                    if r {
                        let at = if s == 7 {
                            if register == Register::Address {
                                0int
                            } else if register == Register::Data {
                                1int
                            } else if register == Register::Command {
                                2int
                            } else {
                                3int
                            }
                        } else {
                            0int
                        };
                        assert(list[at] == register);
                    } else {
                        assert forall|k: int| 0 <= k < list.len() implies list[k] != register by {}
                    }
                },
                None => {},
            }
        }
        r
    }

    pub fn horizontal(&self) -> (r: u32)
        ensures
            r == self.spec_horizontal(),
    {
        let mut result: u32 = 0;
        mark(&mut result, 29, self.asks(IOControl::Connect));
        mark(&mut result, 28, self.asks(IOControl::EnableInterruption));
        mark(&mut result, 27, self.asks(IOControl::DisableInterruption));
        mark(&mut result, 26, self.asks(IOControl::Reset));
        mark(&mut result, 13, self.c() == CUpdate::Assign);
        mark(&mut result, 16, self.c() == CUpdate::Reset);
        mark(&mut result, 17, self.c() == CUpdate::SetOne);
        mark(&mut result, 14, self.nz() == NZUpdate::N || self.nz() == NZUpdate::NZ);
        mark(&mut result, 15, self.nz() == NZUpdate::Z || self.nz() == NZUpdate::NZ);
        mark(&mut result, 0, self.hlt());
        mark(&mut result, 18, self.writes(Register::Address));
        mark(&mut result, 19, self.writes(Register::Data));
        mark(&mut result, 20, self.writes(Register::Command));
        mark(&mut result, 21, self.writes(Register::CommandCounter));
        mark(&mut result, 22, self.writes(Register::Counter));
        result
    }
}

impl ControlCommand {
    /// The jump in the horizontal format. The high half holds, from bit 31
    /// down: a one that marks a jump, two zeros, one bit each for the
    /// accumulator, the command register, the data register and the status
    /// word as the tested register, the value asked for, and the target in 8
    /// bits. In the low half the one bit at the position of the tested bit is
    /// set.
    pub open spec fn spec_horizontal(&self) -> u32 {
        let register = self.spec_register();
        let high: u32 = (0x8000 + (if register == Register::Counter {
            0x1000int
        } else {
            0
        }) + (if register == Register::Command {
            0x0800int
        } else {
            0
        }) + (if register == Register::Data {
            0x0400int
        } else {
            0
        }) + (if register == Register::Status {
            0x0200int
        } else {
            0
        }) + (if self.spec_needed_bit() {
            0x0100int
        } else {
            0
        }) + self.spec_jump_address()) as u32;
        (high << 16u32) | (1u32 << (self.spec_bit_location() as u32))
    }

    pub fn horizontal(&self) -> (r: u32)
        ensures
            r == self.spec_horizontal(),
    {
        let register = self.register();
        let mut high: u32 = 0x8000;
        if register == Register::Counter {
            high = high + 0x1000;
        }
        if register == Register::Command {
            high = high + 0x0800;
        }
        if register == Register::Data {
            high = high + 0x0400;
        }
        if register == Register::Status {
            high = high + 0x0200;
        }
        if self.needed_bit() {
            high = high + 0x0100;
        }
        high = high + self.jump_address() as u32;
        (high << 16u32) | (1u32 << (self.bit_location() as u32))
    }
}

impl MicroInstruction {
    pub open spec fn spec_horizontal(&self) -> u32 {
        match self {
            MicroInstruction::Operational0(c) => c.spec_horizontal(),
            MicroInstruction::Operational1(c) => c.spec_horizontal(),
            MicroInstruction::Control(c) => c.spec_horizontal(),
        }
    }

    /// The micro-instruction in the horizontal format.
    pub fn horizontal(&self) -> (r: u32)
        ensures
            r == self.spec_horizontal(),
    {
        match self {
            MicroInstruction::Operational0(c) => c.horizontal(),
            MicroInstruction::Operational1(c) => c.horizontal(),
            MicroInstruction::Control(c) => c.horizontal(),
        }
    }
}

} // verus!
