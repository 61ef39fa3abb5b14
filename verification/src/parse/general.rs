//! The macro instruction set: a fixed, ordered table of instruction masks, the
//! decoding of a word by the first mask it covers, the mnemonic of a decoded
//! word, and the encoding of a mnemonic.

use crate::parse::{result_view, CommandInfo, Parser};
use crate::text::{
    append_chars, append_hex, append_hex_digits, fields, parse_hex, same_chars, slice, spec_fields,
    spec_hex, spec_hex_digits, spec_parse_hex, texts, to_chars,
};
use vstd::prelude::*;
use vstd::string::*;

verus! {

/// Bit 11 of an instruction with an operand: the operand is the address of the address.
pub const INDIRECT: u16 = 0x0800;

/// The largest address that an instruction can name.
pub const MAX_ADDRESS: u16 = 0x07FF;

/// The largest device number that an instruction can name.
pub const MAX_DEVICE: u16 = 0x000F;

/// An instruction without an operand.
#[derive(Clone, Copy, Debug)]
pub struct SimpleCommand {
    pub name: &'static str,
    pub description: &'static str,
    pub mask: u16,
}

/// An instruction with one operand: an address in memory, or the number of a device.
#[derive(Clone, Copy, Debug)]
pub struct AddressCommand {
    pub name: &'static str,
    pub description: &'static str,
    pub mask: u16,
    pub io: bool,
}

/// An entry of the instruction table.
#[derive(Clone, Copy, Debug)]
pub enum GeneralCommand {
    Simple(SimpleCommand),
    Address(AddressCommand),
}

/// The pieces `ps`, each with a space before it.
pub open spec fn spec_join_spaced(ps: Seq<Seq<char>>) -> Seq<char>
    decreases ps.len(),
{
    if ps.len() == 0 {
        Seq::empty()
    } else {
        spec_join_spaced(ps.drop_last()) + " "@ + ps.last()
    }
}

/// Appends to `s` the pieces of `ps` from index `from` on, each with a space before it.
fn append_spaced(s: &mut String, ps: &Vec<Vec<char>>, from: usize)
    requires
        from <= ps.len(),
    ensures
        final(s)@ == old(s)@ + spec_join_spaced(texts(ps@).skip(from as int)),
{
    let mut i: usize = from;
    assert(texts(ps@).skip(from as int).take(0) =~= Seq::<Seq<char>>::empty());
    while i < ps.len()
        invariant
            from <= i <= ps.len(),
            s@ == old(s)@ + spec_join_spaced(texts(ps@).skip(from as int).take(i - from)),
        decreases ps.len() - i,
    {
        let ghost rest = texts(ps@).skip(from as int);
        s.append(" ");
        append_chars(s, &ps[i]);
        i = i + 1;
        assert(rest.take(i - from).drop_last() =~= rest.take(i - from - 1));
        assert(rest.take(i - from).last() == ps@[i - 1]@);
        assert(s@ =~= old(s)@ + spec_join_spaced(rest.take(i - from)));
    }
    assert(texts(ps@).skip(from as int).take(ps.len() - from) =~= texts(ps@).skip(from as int));
}

impl SimpleCommand {
    pub fn new(mask: u16, name: &'static str, description: &'static str) -> (c: SimpleCommand)
        ensures
            c == (SimpleCommand { name, description, mask }),
    {
        SimpleCommand { name, description, mask }
    }

    pub fn mnemonic(&self) -> (s: &'static str)
        ensures
            s == self.name,
    {
        self.name
    }

    pub fn mask(&self) -> (m: u16)
        ensures
            m == self.mask,
    {
        self.mask
    }

    /// The mnemonic of a word that decodes to this instruction: its name.
    pub open spec fn spec_parse(&self, data: u16) -> Seq<char> {
        self.name@
    }

    /// The word that the mnemonic `s` encodes. The name must stand alone.
    pub open spec fn spec_rev_parse(&self, s: Seq<char>) -> Result<u16, Seq<char>> {
        let pieces = spec_fields(s);
        if pieces.len() > 1 {
            Err("Неожиданные штуки:"@ + spec_join_spaced(pieces.skip(1)))
        } else if pieces.len() == 0 {
            Err("Пустая строка получается"@)
        } else if pieces[0] != self.name@ {
            Err("Неизвестная мнемоника "@ + pieces[0])
        } else {
            Ok(self.mask)
        }
    }

    pub fn parse(&self, data: u16) -> (s: String)
        ensures
            s@ == self.spec_parse(data),
    {
        String::from_str(self.name)
    }

    pub fn rev_parse(&self, s: &str) -> (r: Result<u16, String>)
        ensures
            result_view(r) == self.spec_rev_parse(s@),
    {
        let pieces = fields(&to_chars(s));
        if pieces.len() > 1 {
            let mut e = String::from_str("Неожиданные штуки:");
            append_spaced(&mut e, &pieces, 1);
            Err(e)
        } else if pieces.len() == 0 {
            Err(String::from_str("Пустая строка получается"))
        } else if !same_chars(&pieces[0], &to_chars(self.name)) {
            assert(texts(pieces@)[0] == pieces@[0]@);
            let mut e = String::from_str("Неизвестная мнемоника ");
            append_chars(&mut e, &pieces[0]);
            Err(e)
        } else {
            assert(texts(pieces@)[0] == pieces@[0]@);
            Ok(self.mask)
        }
    }
}

impl AddressCommand {
    pub fn new_address(mask: u16, name: &'static str, description: &'static str) -> (c:
        AddressCommand)
        ensures
            c == (AddressCommand { name, description, mask, io: false }),
    {
        AddressCommand { name, description, mask, io: false }
    }

    pub fn new_io(mask: u16, name: &'static str, description: &'static str) -> (c: AddressCommand)
        ensures
            c == (AddressCommand { name, description, mask, io: true }),
    {
        AddressCommand { name, description, mask, io: true }
    }

    pub fn mnemonic(&self) -> (s: &'static str)
        ensures
            s == self.name,
    {
        self.name
    }

    pub fn mask(&self) -> (m: u16)
        ensures
            m == self.mask,
    {
        self.mask
    }

    /// The largest operand: a device number has 4 bits, an address 11.
    pub open spec fn spec_max_operand(&self) -> u16 {
        if self.io {
            MAX_DEVICE
        } else {
            MAX_ADDRESS
        }
    }

    /// The operand that the word `data` carries.
    pub open spec fn spec_operand(&self, data: u16) -> u16 {
        data & self.spec_max_operand()
    }

    /// The mnemonic of a word that decodes to this instruction: the name, a
    /// space, and the operand in three hexadecimal digits, in round brackets
    /// where the word's bit 11 is set.
    pub open spec fn spec_parse(&self, data: u16) -> Seq<char> {
        if data & INDIRECT != 0 {
            self.name@ + " ("@ + spec_hex(self.spec_operand(data) as nat, 3) + ")"@
        } else {
            self.name@ + " "@ + spec_hex(self.spec_operand(data) as nat, 3)
        }
    }

    /// The word that the mnemonic `s` encodes: a name and an operand in
    /// hexadecimal, with white space between them. An operand in round brackets
    /// sets bit 11.
    pub open spec fn spec_rev_parse(&self, s: Seq<char>) -> Result<u16, Seq<char>> {
        let pieces = spec_fields(s);
        if pieces.len() > 2 {
            Err("Неожиданные штуки:"@ + spec_join_spaced(pieces.skip(2)))
        } else if pieces.len() < 2 {
            Err("Ожидалось два параметра"@)
        } else {
            let operand = pieces[1];
            let indirect = operand.len() > 0 && operand[0] == '(';
            if indirect && operand.last() != ')' {
                Err("Не закрытая скобка"@)
            } else {
                let digits = if indirect {
                    operand.subrange(1, operand.len() - 1)
                } else {
                    operand
                };
                match spec_parse_hex(digits) {
                    Some(parsed) => {
                        if parsed > self.spec_max_operand() {
                            if self.io {
                                Err("Максимально адресуемое ВУ 0xF"@)
                            } else {
                                Err("Максимально адресуема память 0x7FF"@)
                            }
                        } else if indirect {
                            Ok((self.mask | parsed) | INDIRECT)
                        } else {
                            Ok(self.mask | parsed)
                        }
                    },
                    None => Err("Ошибка во время парсинга числа "@ + pieces[1]),
                }
            }
        }
    }

    pub fn parse(&self, data: u16) -> (s: String)
        ensures
            s@ == self.spec_parse(data),
    {
        let operand: u16 = if self.io {
            data & MAX_DEVICE
        } else {
            data & MAX_ADDRESS
        };
        let mut s = String::from_str(self.name);
        if data & INDIRECT != 0 {
            s.append(" (");
            append_hex(&mut s, operand as u32, 3);
            s.append(")");
        } else {
            s.append(" ");
            append_hex(&mut s, operand as u32, 3);
        }
        s
    }

    pub fn rev_parse(&self, s: &str) -> (r: Result<u16, String>)
        ensures
            result_view(r) == self.spec_rev_parse(s@),
    {
        let pieces = fields(&to_chars(s));
        if pieces.len() > 2 {
            let mut e = String::from_str("Неожиданные штуки:");
            append_spaced(&mut e, &pieces, 2);
            return Err(e);
        }
        if pieces.len() < 2 {
            return Err(String::from_str("Ожидалось два параметра"));
        }
        assert(texts(pieces@)[1] == pieces@[1]@);
        let operand = &pieces[1];
        let n: usize = operand.len();
        let indirect: bool = n > 0 && operand[0] == '(';
        if indirect && operand[n - 1] != ')' {
            return Err(String::from_str("Не закрытая скобка"));
        }
        let digits = if indirect {
            slice(operand, 1, n - 1)
        } else {
            slice(operand, 0, n)
        };
        assert(!indirect ==> digits@ =~= operand@);
        match parse_hex(&digits) {
            Some(parsed) => {
                let max: u16 = if self.io {
                    MAX_DEVICE
                } else {
                    MAX_ADDRESS
                };
                if parsed > max {
                    if self.io {
                        Err(String::from_str("Максимально адресуемое ВУ 0xF"))
                    } else {
                        Err(String::from_str("Максимально адресуема память 0x7FF"))
                    }
                } else if indirect {
                    Ok((self.mask | parsed) | INDIRECT)
                } else {
                    Ok(self.mask | parsed)
                }
            },
            None => {
                let mut e = String::from_str("Ошибка во время парсинга числа ");
                append_chars(&mut e, &pieces[1]);
                Err(e)
            },
        }
    }
}

impl GeneralCommand {
    pub open spec fn spec_name(&self) -> Seq<char> {
        match self {
            GeneralCommand::Simple(c) => c.name@,
            GeneralCommand::Address(c) => c.name@,
        }
    }

    pub open spec fn spec_mask(&self) -> u16 {
        match self {
            GeneralCommand::Simple(c) => c.mask,
            GeneralCommand::Address(c) => c.mask,
        }
    }

    /// Whether the instruction covers the word `v`: every bit of its mask is set in `v`.
    pub open spec fn spec_covers(&self, v: u16) -> bool {
        v & self.spec_mask() == self.spec_mask()
    }

    pub open spec fn spec_parse(&self, data: u16) -> Seq<char> {
        match self {
            GeneralCommand::Simple(c) => c.spec_parse(data),
            GeneralCommand::Address(c) => c.spec_parse(data),
        }
    }

    pub open spec fn spec_rev_parse(&self, s: Seq<char>) -> Result<u16, Seq<char>> {
        match self {
            GeneralCommand::Simple(c) => c.spec_rev_parse(s),
            GeneralCommand::Address(c) => c.spec_rev_parse(s),
        }
    }

    pub fn mnemonic(&self) -> (s: &'static str)
        ensures
            s@ == self.spec_name(),
    {
        match self {
            GeneralCommand::Simple(c) => c.mnemonic(),
            GeneralCommand::Address(c) => c.mnemonic(),
        }
    }

    pub fn description(&self) -> (s: &'static str)
        ensures
            s == (match self {
                GeneralCommand::Simple(c) => c.description,
                GeneralCommand::Address(c) => c.description,
            }),
    {
        match self {
            GeneralCommand::Simple(c) => c.description,
            GeneralCommand::Address(c) => c.description,
        }
    }

    pub fn mask(&self) -> (m: u16)
        ensures
            m == self.spec_mask(),
    {
        match self {
            GeneralCommand::Simple(c) => c.mask(),
            GeneralCommand::Address(c) => c.mask(),
        }
    }

    /// The mnemonic of the word `data`, taken as this instruction.
    pub fn parse(&self, data: u16) -> (s: String)
        ensures
            s@ == self.spec_parse(data),
    {
        match self {
            GeneralCommand::Simple(c) => c.parse(data),
            GeneralCommand::Address(c) => c.parse(data),
        }
    }

    /// Encodes the mnemonic `s` as this instruction.
    pub fn rev_parse(&self, s: &str) -> (r: Result<u16, String>)
        ensures
            result_view(r) == self.spec_rev_parse(s@),
    {
        match self {
            GeneralCommand::Simple(c) => c.rev_parse(s),
            GeneralCommand::Address(c) => c.rev_parse(s),
        }
    }
}

pub const ROR_HELP: &'static str = "Сдвигает биты в регистре А вправо. При этом содержимое С попадает в старший бит А, а младший бит А попадает в С";

pub const DI_HELP: &'static str = "Запрещает прерывания";

pub const CLC_HELP: &'static str = "Устанавливает С в 0";

pub const CMC_HELP: &'static str = "Инвертирует С. То есть, если С было равно 1, оно станет 0 и наоборот.";

pub const ROL_HELP: &'static str = "Сдвигает биты в регистре А влево. При этом содержимое С попадает в младший бит А, а старший бит А попадает в С.";

pub const DEC_HELP: &'static str = "Уменьшает значение А на 1";

pub const EI_HELP: &'static str = "Разрешает прерывания";

pub const CLA_HELP: &'static str = "Устанавливает значение регистра А в 0";

pub const CMA_HELP: &'static str = "Инвертирует содержимое регистра А. То есть каждый бит регистра А, который равен 0, станет 1 и наоборот.";

pub const INC_HELP: &'static str = "Увеличивает значение регистра А на 1";

pub const NOP_HELP: &'static str = "Команда, которая не делает ничего. Удобно применять вместе с ISZ для инкремента какой-либо ячейки памяти.";

pub const OUT_HELP: &'static str = "Присваивает указаному ВУ значение из регистра А";

pub const HLT_HELP: &'static str = "Выключает ЭВМ.";

pub const TSF_HELP: &'static str = "Присваивает 6 биту регистра РС статус готовности указанного ВУ. Затем, если 6 бит РС равен единице, регистр СК увеличивается на единицу.";

pub const IN_HELP: &'static str = "Берет значение из данного ВУ и кладет его в 8 младших бит регистра А";

pub const BEQ_HELP: &'static str = "Присваивает регистру СК значение X, если регистр А равен 0.";

pub const CLF_HELP: &'static str = "Устанавливает флаг готовности данного ВУ в 0.";

pub const MOV_HELP: &'static str = "Присваивает ячейке по адресу X значение из регистра А";

pub const ADC_HELP: &'static str = "Складывает значение из ячейки по адресу X с регистром А и добавляет 1, если С равен 1.";

pub const SUB_HELP: &'static str = "Вычитает значение ячейки по адресу X из регистра А.";

pub const BPL_HELP: &'static str = "Присваивает регистру СК значение X, если значение в регистре А больше или равно 0.";

pub const BMI_HELP: &'static str = "Присваивает регистру СК значение X, если значение в регистре А строго меньше 0.";

pub const BR_HELP: &'static str = "Присваивает регистру СК значение X";

pub const AND_HELP: &'static str = "Присваивает регистру А результат бинарного И между регистром А и значением в ячейке X";

pub const ADD_HELP: &'static str = "Присваивает регистру А результат сложения регистром А и значением в ячейке X";

pub const BCS_HELP: &'static str = "Присваивает регистру СК значение X, если С равно 1";

pub const JSR_HELP: &'static str = "Команда для организации логики подпрограмм. Значение регистра СК будет положено в ячейку по адресу X после чего регистру СК будет присвоенное значение X + 1";

pub const ISZ_HELP: &'static str = "Увеличивает значение в ячейче по адресу X на 1. После чего, если значение в этой ячейке больше 0, увеличивает СК на 1 тем самым \"перепрыгивает\" следующую команду.";

/// The instruction table, in the order in which a word is held against it.
/// The order matters: several masks cover words that an earlier mask covers too.
/// The last mask is zero and covers every word.
pub open spec fn spec_table() -> Seq<GeneralCommand> {
    seq![
        GeneralCommand::Simple(SimpleCommand { name: "ROR", description: ROR_HELP, mask: 0xF700 }),
        GeneralCommand::Simple(SimpleCommand { name: "DI", description: DI_HELP, mask: 0xFB00 }),
        GeneralCommand::Simple(SimpleCommand { name: "CLC", description: CLC_HELP, mask: 0xF300 }),
        GeneralCommand::Simple(SimpleCommand { name: "CMC", description: CMC_HELP, mask: 0xF500 }),
        GeneralCommand::Simple(SimpleCommand { name: "ROL", description: ROL_HELP, mask: 0xF600 }),
        GeneralCommand::Simple(SimpleCommand { name: "DEC", description: DEC_HELP, mask: 0xF900 }),
        GeneralCommand::Simple(SimpleCommand { name: "EI", description: EI_HELP, mask: 0xFA00 }),
        GeneralCommand::Simple(SimpleCommand { name: "CLA", description: CLA_HELP, mask: 0xF200 }),
        GeneralCommand::Simple(SimpleCommand { name: "CMA", description: CMA_HELP, mask: 0xF400 }),
        GeneralCommand::Simple(SimpleCommand { name: "INC", description: INC_HELP, mask: 0xF800 }),
        GeneralCommand::Simple(SimpleCommand { name: "NOP", description: NOP_HELP, mask: 0xF100 }),
        GeneralCommand::Address(AddressCommand { name: "OUT", description: OUT_HELP, mask: 0xE300, io: true }),
        GeneralCommand::Simple(SimpleCommand { name: "HLT", description: HLT_HELP, mask: 0xF000 }),
        GeneralCommand::Address(AddressCommand { name: "TSF", description: TSF_HELP, mask: 0xE100, io: true }),
        GeneralCommand::Address(AddressCommand { name: "IN", description: IN_HELP, mask: 0xE200, io: true }),
        GeneralCommand::Address(AddressCommand { name: "BEQ", description: BEQ_HELP, mask: 0xB000, io: false }),
        GeneralCommand::Address(AddressCommand { name: "CLF", description: CLF_HELP, mask: 0xE000, io: true }),
        GeneralCommand::Address(AddressCommand { name: "MOV", description: MOV_HELP, mask: 0x3000, io: false }),
        GeneralCommand::Address(AddressCommand { name: "ADC", description: ADC_HELP, mask: 0x5000, io: false }),
        GeneralCommand::Address(AddressCommand { name: "SUB", description: SUB_HELP, mask: 0x6000, io: false }),
        GeneralCommand::Address(AddressCommand { name: "BPL", description: BPL_HELP, mask: 0x9000, io: false }),
        GeneralCommand::Address(AddressCommand { name: "BMI", description: BMI_HELP, mask: 0xA000, io: false }),
        GeneralCommand::Address(AddressCommand { name: "BR", description: BR_HELP, mask: 0xC000, io: false }),
        GeneralCommand::Address(AddressCommand { name: "AND", description: AND_HELP, mask: 0x1000, io: false }),
        GeneralCommand::Address(AddressCommand { name: "ADD", description: ADD_HELP, mask: 0x4000, io: false }),
        GeneralCommand::Address(AddressCommand { name: "BCS", description: BCS_HELP, mask: 0x8000, io: false }),
        GeneralCommand::Address(AddressCommand { name: "JSR", description: JSR_HELP, mask: 0x2000, io: false }),
        GeneralCommand::Address(AddressCommand { name: "ISZ", description: ISZ_HELP, mask: 0x0000, io: false }),
    ]
}

/// The index in `table` of the first instruction that covers `v`, or the
/// length of `table` where none does.
pub open spec fn spec_first_cover(table: Seq<GeneralCommand>, v: u16) -> int
    decreases table.len(),
{
    if table.len() == 0 || table[0].spec_covers(v) {
        0
    } else {
        1 + spec_first_cover(table.drop_first(), v)
    }
}

/// The index in `table` of the first instruction named `name`, or the length
/// of `table` where none has the name.
pub open spec fn spec_find_name(table: Seq<GeneralCommand>, name: Seq<char>) -> int
    decreases table.len(),
{
    if table.len() == 0 || table[0].spec_name() == name {
        0
    } else {
        1 + spec_find_name(table.drop_first(), name)
    }
}

/// `spec_first_cover` is the least index whose instruction covers `v`.
pub proof fn lemma_first_cover(table: Seq<GeneralCommand>, v: u16)
    ensures
        0 <= spec_first_cover(table, v) <= table.len(),
        forall|j: int| 0 <= j < spec_first_cover(table, v) ==> !(#[trigger] table[j]).spec_covers(v),
        spec_first_cover(table, v) < table.len() ==> table[spec_first_cover(table, v)].spec_covers(
            v,
        ),
    decreases table.len(),
{
    if table.len() == 0 || table[0].spec_covers(v) {
    } else {
        lemma_first_cover(table.drop_first(), v);
        assert forall|j: int| 0 <= j < spec_first_cover(table, v) implies !(
        #[trigger] table[j]).spec_covers(v) by {
            if j > 0 {
                assert(table[j] == table.drop_first()[j - 1]);
            }
        }
    }
}

/// `spec_find_name` is the least index whose instruction has the name.
pub proof fn lemma_find_name(table: Seq<GeneralCommand>, name: Seq<char>)
    ensures
        0 <= spec_find_name(table, name) <= table.len(),
        forall|j: int|
            0 <= j < spec_find_name(table, name) ==> (#[trigger] table[j]).spec_name() != name,
        spec_find_name(table, name) < table.len() ==> table[spec_find_name(
            table,
            name,
        )].spec_name() == name,
    decreases table.len(),
{
    if table.len() == 0 || table[0].spec_name() == name {
    } else {
        lemma_find_name(table.drop_first(), name);
        assert forall|j: int| 0 <= j < spec_find_name(table, name) implies (
        #[trigger] table[j]).spec_name() != name by {
            if j > 0 {
                assert(table[j] == table.drop_first()[j - 1]);
            }
        }
    }
}

/// The last instruction of the table covers every word, so every word decodes.
pub proof fn lemma_decode_total(v: u16)
    ensures
        0 <= spec_first_cover(spec_table(), v) < spec_table().len(),
        spec_table()[spec_first_cover(spec_table(), v)].spec_covers(v),
{
    lemma_first_cover(spec_table(), v);
    assert(v & 0u16 == 0u16) by (bit_vector);
    assert(spec_table()[27].spec_covers(v));
}

fn register(sorted: &mut Vec<GeneralCommand>, command: GeneralCommand)
    ensures
        final(sorted)@ == old(sorted)@.push(command),
{
    sorted.push(command);
}

/// The macro instruction set.
pub struct GeneralParser {
    sorted: Vec<GeneralCommand>,
}

/// A decoded word of general memory: the instruction that covers it, and the word.
#[derive(Clone, Copy, Debug)]
pub struct GeneralCommandInfo {
    pub info: GeneralCommand,
    pub opcode: u16,
}

impl GeneralCommandInfo {
    pub fn new(info: GeneralCommand, opcode: u16) -> (r: GeneralCommandInfo)
        ensures
            r == (GeneralCommandInfo { info, opcode }),
    {
        GeneralCommandInfo { info, opcode }
    }
}

impl CommandInfo for GeneralCommandInfo {
    /// A saved program holds the mnemonic, which the loader encodes again.
    open spec fn spec_file_string(&self) -> Seq<char> {
        self.info.spec_parse(self.opcode)
    }

    open spec fn spec_mnemonic(&self) -> Seq<char> {
        self.info.spec_parse(self.opcode)
    }

    fn file_string(&self) -> (s: String) {
        self.info.parse(self.opcode)
    }

    fn mnemonic(&self) -> (s: String) {
        self.info.parse(self.opcode)
    }
}

impl GeneralParser {
    #[verifier::type_invariant]
    spec fn holds_the_table(&self) -> bool {
        self.sorted@ == spec_table()
    }

    /// The instructions, in table order.
    pub closed spec fn commands(&self) -> Seq<GeneralCommand> {
        self.sorted@
    }

    pub fn new() -> (parser: GeneralParser)
        ensures
            parser.commands() == spec_table(),
    {
        let mut sorted: Vec<GeneralCommand> = Vec::new();
        register(&mut sorted, GeneralCommand::Simple(SimpleCommand::new(0xF700, "ROR", ROR_HELP)));
        register(&mut sorted, GeneralCommand::Simple(SimpleCommand::new(0xFB00, "DI", DI_HELP)));
        register(&mut sorted, GeneralCommand::Simple(SimpleCommand::new(0xF300, "CLC", CLC_HELP)));
        register(&mut sorted, GeneralCommand::Simple(SimpleCommand::new(0xF500, "CMC", CMC_HELP)));
        register(&mut sorted, GeneralCommand::Simple(SimpleCommand::new(0xF600, "ROL", ROL_HELP)));
        register(&mut sorted, GeneralCommand::Simple(SimpleCommand::new(0xF900, "DEC", DEC_HELP)));
        register(&mut sorted, GeneralCommand::Simple(SimpleCommand::new(0xFA00, "EI", EI_HELP)));
        register(&mut sorted, GeneralCommand::Simple(SimpleCommand::new(0xF200, "CLA", CLA_HELP)));
        register(&mut sorted, GeneralCommand::Simple(SimpleCommand::new(0xF400, "CMA", CMA_HELP)));
        register(&mut sorted, GeneralCommand::Simple(SimpleCommand::new(0xF800, "INC", INC_HELP)));
        register(&mut sorted, GeneralCommand::Simple(SimpleCommand::new(0xF100, "NOP", NOP_HELP)));
        register(&mut sorted, GeneralCommand::Address(AddressCommand::new_io(0xE300, "OUT", OUT_HELP)));
        register(&mut sorted, GeneralCommand::Simple(SimpleCommand::new(0xF000, "HLT", HLT_HELP)));
        register(&mut sorted, GeneralCommand::Address(AddressCommand::new_io(0xE100, "TSF", TSF_HELP)));
        register(&mut sorted, GeneralCommand::Address(AddressCommand::new_io(0xE200, "IN", IN_HELP)));
        register(&mut sorted, GeneralCommand::Address(AddressCommand::new_address(0xB000, "BEQ", BEQ_HELP)));
        register(&mut sorted, GeneralCommand::Address(AddressCommand::new_io(0xE000, "CLF", CLF_HELP)));
        register(&mut sorted, GeneralCommand::Address(AddressCommand::new_address(0x3000, "MOV", MOV_HELP)));
        register(&mut sorted, GeneralCommand::Address(AddressCommand::new_address(0x5000, "ADC", ADC_HELP)));
        register(&mut sorted, GeneralCommand::Address(AddressCommand::new_address(0x6000, "SUB", SUB_HELP)));
        register(&mut sorted, GeneralCommand::Address(AddressCommand::new_address(0x9000, "BPL", BPL_HELP)));
        register(&mut sorted, GeneralCommand::Address(AddressCommand::new_address(0xA000, "BMI", BMI_HELP)));
        register(&mut sorted, GeneralCommand::Address(AddressCommand::new_address(0xC000, "BR", BR_HELP)));
        register(&mut sorted, GeneralCommand::Address(AddressCommand::new_address(0x1000, "AND", AND_HELP)));
        register(&mut sorted, GeneralCommand::Address(AddressCommand::new_address(0x4000, "ADD", ADD_HELP)));
        register(&mut sorted, GeneralCommand::Address(AddressCommand::new_address(0x8000, "BCS", BCS_HELP)));
        register(&mut sorted, GeneralCommand::Address(AddressCommand::new_address(0x2000, "JSR", JSR_HELP)));
        register(&mut sorted, GeneralCommand::Address(AddressCommand::new_address(0x0000, "ISZ", ISZ_HELP)));
        assert(sorted@ =~= spec_table());
        GeneralParser { sorted }
    }

    /// The instruction at `index` of the table.
    pub fn command(&self, index: usize) -> (c: GeneralCommand)
        requires
            index < spec_table().len(),
        ensures
            c == spec_table()[index as int],
    {
        proof {
            use_type_invariant(self);
        }
        self.sorted[index]
    }

    /// The number of instructions.
    pub fn len(&self) -> (n: usize)
        ensures
            n == spec_table().len(),
    {
        proof {
            use_type_invariant(self);
        }
        self.sorted.len()
    }
}

impl Parser<GeneralCommandInfo> for GeneralParser {
    /// A word decodes to the first instruction of the table that covers it.
    open spec fn spec_parse(&self, opcode: u16) -> GeneralCommandInfo {
        GeneralCommandInfo {
            info: spec_table()[spec_first_cover(spec_table(), opcode)],
            opcode,
        }
    }

    open spec fn spec_supports_rev_parse(&self) -> bool {
        true
    }

    /// A mnemonic is split at its white space into a name and what follows,
    /// and is encoded by the instruction that has the name.
    open spec fn spec_rev_parse(&self, s: Seq<char>) -> Result<u16, Seq<char>> {
        let pieces = spec_fields(s);
        if pieces.len() == 0 {
            Err("Пустая строка получается"@)
        } else {
            let i = spec_find_name(spec_table(), pieces[0]);
            if 0 <= i < spec_table().len() {
                spec_table()[i].spec_rev_parse(s)
            } else {
                Err("Неизвестная мнемоника "@ + pieces[0])
            }
        }
    }

    fn parse(&self, opcode: u16) -> (info: GeneralCommandInfo) {
        proof {
            use_type_invariant(self);
            lemma_decode_total(opcode);
            lemma_first_cover(spec_table(), opcode);
        }
        let n: usize = self.sorted.len();
        let mut i: usize = 0;
        while i + 1 < n
            invariant
                i < n == self.sorted.len(),
                self.sorted@ == spec_table(),
                forall|j: int| 0 <= j < i ==> !(#[trigger] spec_table()[j]).spec_covers(opcode),
            decreases n - i,
        {
            let mask: u16 = self.sorted[i].mask();
            if opcode & mask == mask {
                proof {
                    lemma_first_cover(spec_table(), opcode);
                    assert(spec_table()[i as int].spec_covers(opcode));
                }
                return GeneralCommandInfo::new(self.sorted[i], opcode);
            }
            i = i + 1;
        }
        proof {
            lemma_decode_total(opcode);
            lemma_first_cover(spec_table(), opcode);
        }
        GeneralCommandInfo::new(self.sorted[i], opcode)
    }

    fn supports_rev_parse(&self) -> (b: bool) {
        true
    }

    fn rev_parse(&self, s: &str) -> (r: Result<u16, String>) {
        proof {
            use_type_invariant(self);
        }
        let pieces = fields(&to_chars(s));
        if pieces.len() == 0 {
            return Err(String::from_str("Пустая строка получается"));
        }
        assert(texts(pieces@)[0] == pieces@[0]@);
        let ghost mnemonic = pieces@[0]@;
        proof {
            lemma_find_name(spec_table(), mnemonic);
        }
        let n: usize = self.sorted.len();
        let mut i: usize = 0;
        while i < n
            invariant
                i <= n == self.sorted.len(),
                self.sorted@ == spec_table(),
                mnemonic == pieces@[0]@,
                spec_fields(s@).len() > 0,
                mnemonic == spec_fields(s@)[0],
                pieces@.len() >= 1,
                forall|j: int| 0 <= j < i ==> (#[trigger] spec_table()[j]).spec_name() != mnemonic,
            decreases n - i,
        {
            if same_chars(&to_chars(self.sorted[i].mnemonic()), &pieces[0]) {
                proof {
                    lemma_find_name(spec_table(), mnemonic);
                    assert(spec_table()[i as int].spec_name() == mnemonic);
                }
                return self.sorted[i].rev_parse(s);
            }
            i = i + 1;
        }
        proof {
            lemma_find_name(spec_table(), mnemonic);
        }
        let mut e = String::from_str("Неизвестная мнемоника ");
        append_chars(&mut e, &pieces[0]);
        Err(e)
    }
}

/// The line that shows a mnemonic.
pub open spec fn spec_line_mnemonic(mnemonic: Seq<char>) -> Seq<char> {
    "Мнемоника: "@
        + mnemonic
}

pub fn line_mnemonic(mnemonic: &str) -> (s: String)
    ensures
        s@ == spec_line_mnemonic(mnemonic@),
{
    let mut s = String::from_str("Мнемоника: ");
    s.append(mnemonic);
    s
}

/// The line that shows a mask.
pub open spec fn spec_line_mask(mask: u16) -> Seq<char> {
    "Маска: "@
        + spec_hex_digits(mask as nat)
}

pub fn line_mask(mask: u16) -> (s: String)
    ensures
        s@ == spec_line_mask(mask),
{
    let mut s = String::from_str("Маска: ");
    append_hex_digits(&mut s, mask as u64);
    s
}

/// The line that shows what an instruction does.
pub open spec fn spec_line_description(description: Seq<char>) -> Seq<char> {
    "Описание: "@
        + description
}

pub fn line_description(description: &str) -> (s: String)
    ensures
        s@ == spec_line_description(description@),
{
    let mut s = String::from_str("Описание: ");
    s.append(description);
    s
}

/// The note for a word that holds more bits than the mask of its instruction.
pub open spec fn spec_line_overlap(opcode: u16, name: Seq<char>, mask: u16) -> Seq<char> {
    "Примечание: опкод "@
        + spec_hex(opcode as nat, 4)
        + " был посчитан командой "@
        + name
        + " так как бинарное и между опкодом "@
        + spec_hex(opcode as nat, 4)
        + " и маской команды "@
        + spec_hex(mask as nat, 4)
        + " выдало значение равное той же маске "@
        + spec_hex(mask as nat, 4)
        + ". Таким образом мы просто полностью игнорируем тот факт, что опкод не равен маске."@
}

pub fn line_overlap(opcode: u16, name: &str, mask: u16) -> (s: String)
    ensures
        s@ == spec_line_overlap(opcode, name@, mask),
{
    let mut s = String::from_str("Примечание: опкод ");
    append_hex(&mut s, opcode as u32, 4);
    s.append(" был посчитан командой ");
    s.append(name);
    s.append(" так как бинарное и между опкодом ");
    append_hex(&mut s, opcode as u32, 4);
    s.append(" и маской команды ");
    append_hex(&mut s, mask as u32, 4);
    s.append(" выдало значение равное той же маске ");
    append_hex(&mut s, mask as u32, 4);
    s.append(". Таким образом мы просто полностью игнорируем тот факт, что опкод не равен маске.");
    s
}

/// The line that shows an operand that is the address of the address.
pub open spec fn spec_line_indirect_operand(operand: u16) -> Seq<char> {
    "X: значение в ячейке "@
        + spec_hex(operand as nat, 3)
}

pub fn line_indirect_operand(operand: u16) -> (s: String)
    ensures
        s@ == spec_line_indirect_operand(operand),
{
    let mut s = String::from_str("X: значение в ячейке ");
    append_hex(&mut s, operand as u32, 3);
    s
}

/// The line that shows an operand.
pub open spec fn spec_line_operand(operand: u16) -> Seq<char> {
    "X: "@
        + spec_hex(operand as nat, 3)
}

pub fn line_operand(operand: u16) -> (s: String)
    ensures
        s@ == spec_line_operand(operand),
{
    let mut s = String::from_str("X: ");
    append_hex(&mut s, operand as u32, 3);
    s
}

/// The texts of the strings `lines`.
pub open spec fn string_views(lines: Seq<String>) -> Seq<Seq<char>> {
    Seq::new(lines.len(), |i: int| lines[i]@)
}

impl SimpleCommand {
    /// What is to be said of the word `opcode` taken as this instruction: the
    /// kind of instruction, its name, its mask, what it does, and a note
    /// where the word holds bits beyond the mask.
    pub open spec fn spec_highlight(&self, opcode: u16) -> Seq<Seq<char>> {
        let lines = seq![
            "Тип: Безадресная команда"@,
            spec_line_mnemonic(self.name@),
            spec_line_mask(self.mask),
            spec_line_description(self.description@),
        ];
        if opcode & !self.mask != 0 {
            lines.push(spec_line_overlap(opcode, self.name@, self.mask))
        } else {
            lines
        }
    }

    pub fn highlight(&self, opcode: u16) -> (lines: Vec<String>)
        ensures
            string_views(lines@) == self.spec_highlight(opcode),
    {
        let mut lines: Vec<String> = Vec::new();
        lines.push(String::from_str("Тип: Безадресная команда"));
        lines.push(line_mnemonic(self.name));
        lines.push(line_mask(self.mask));
        lines.push(line_description(self.description));
        if opcode & !self.mask != 0 {
            lines.push(line_overlap(opcode, self.name, self.mask));
        }
        assert(string_views(lines@) =~= self.spec_highlight(opcode));
        lines
    }
}

impl AddressCommand {
    /// What is to be said of the word `opcode` taken as this instruction: the
    /// kind of instruction, its mnemonic, its mask, its operand and what it does.
    pub open spec fn spec_highlight(&self, opcode: u16) -> Seq<Seq<char>> {
        seq![
            if self.io {
                "Тип: Команда ввода-вывода"@
            } else {
                "Тип: Адресная команда"@
            },
            spec_line_mnemonic(self.spec_parse(opcode)),
            spec_line_mask(self.mask),
            if opcode & INDIRECT != 0 && !self.io {
                spec_line_indirect_operand(self.spec_operand(opcode))
            } else {
                spec_line_operand(self.spec_operand(opcode))
            },
            spec_line_description(self.description@),
        ]
    }

    pub fn highlight(&self, opcode: u16) -> (lines: Vec<String>)
        ensures
            string_views(lines@) == self.spec_highlight(opcode),
    {
        let operand: u16 = if self.io {
            opcode & MAX_DEVICE
        } else {
            opcode & MAX_ADDRESS
        };
        let mut lines: Vec<String> = Vec::new();
        lines.push(
            String::from_str(
                if self.io {
                    "Тип: Команда ввода-вывода"
                } else {
                    "Тип: Адресная команда"
                },
            ),
        );
        let mnemonic = self.parse(opcode);
        lines.push(line_mnemonic(mnemonic.as_str()));
        lines.push(line_mask(self.mask));
        if opcode & INDIRECT != 0 && !self.io {
            lines.push(line_indirect_operand(operand));
        } else {
            lines.push(line_operand(operand));
        }
        lines.push(line_description(self.description));
        assert(string_views(lines@) =~= self.spec_highlight(opcode));
        lines
    }
}

impl GeneralCommand {
    pub open spec fn spec_highlight(&self, opcode: u16) -> Seq<Seq<char>> {
        match self {
            GeneralCommand::Simple(c) => c.spec_highlight(opcode),
            GeneralCommand::Address(c) => c.spec_highlight(opcode),
        }
    }

    /// What is to be said of the word `opcode` taken as this instruction, line by line.
    pub fn highlight(&self, opcode: u16) -> (lines: Vec<String>)
        ensures
            string_views(lines@) == self.spec_highlight(opcode),
    {
        match self {
            GeneralCommand::Simple(c) => c.highlight(opcode),
            GeneralCommand::Address(c) => c.highlight(opcode),
        }
    }
}

impl GeneralCommandInfo {
    /// What is to be said of the decoded word, line by line.
    pub fn highlight(&self) -> (lines: Vec<String>)
        ensures
            string_views(lines@) == self.info.spec_highlight(self.opcode),
    {
        self.info.highlight(self.opcode)
    }
}

} // verus!
