//! Micro-instructions explained: the fields of each shape with their names and
//! what they mean, the value of each field in a given word, and the word in
//! the horizontal format as text.

use crate::bits::{bit_at, spec_bit_at};
use crate::parse::mc::{ControlCommand, MicroInstruction, OperationalCommand0, OperationalCommand1};
use crate::text::{append_hex, push_char, spec_hex};
use vstd::prelude::*;
use vstd::string::*;

verus! {

/// A field of a micro-instruction: the bits `to ..= from`, a name, and what
/// the field means.
#[derive(Clone, Copy, Debug)]
pub struct RangeDescriptor {
    pub from: u16,
    pub to: u16,
    pub short_description: &'static str,
    pub explained: &'static str,
}

/// What a shape of micro-instruction is for, and its fields from the highest
/// bits down.
pub struct MicroCommandDescriptor {
    pub global_descriptions: &'static str,
    pub descriptors: Vec<RangeDescriptor>,
}

/// The character that shows bit `pos` of `opcode`.
pub open spec fn spec_bit_char(opcode: u16, pos: int) -> char {
    if 0 <= pos < 16 && spec_bit_at(opcode, pos as u8) {
        '1'
    } else {
        '0'
    }
}

/// The bits `to ..= from` of `opcode` as text, the highest first.
pub open spec fn spec_bits_text(opcode: u16, from: int, to: int) -> Seq<char> {
    Seq::new(
        if from >= to {
            (from - to + 1) as nat
        } else {
            0
        },
        |k: int| spec_bit_char(opcode, from - k),
    )
}

impl RangeDescriptor {
    pub fn new(from: u16, to: u16, short_description: &'static str, explained: &'static str) -> (r:
        RangeDescriptor)
        ensures
            r == (RangeDescriptor { from, to, short_description, explained }),
    {
        RangeDescriptor { from, to, short_description, explained }
    }

    /// The field's bits in `opcode`, the highest first.
    pub open spec fn spec_value(&self, opcode: u16) -> Seq<char> {
        spec_bits_text(opcode, self.from as int, self.to as int)
    }

    /// Appends the field's bits in `opcode` to `into`.
    pub fn value(&self, opcode: u16, into: &mut String)
        ensures
            final(into)@ == old(into)@ + self.spec_value(opcode),
    {
        if self.from < self.to {
            assert(into@ =~= old(into)@ + self.spec_value(opcode));
            return ;
        }
        let count: u32 = (self.from - self.to) as u32 + 1;
        let mut k: u32 = 0;
        assert(into@ =~= old(into)@ + self.spec_value(opcode).take(0));
        while k < count
            invariant
                k <= count,
                self.from >= self.to,
                count == self.from - self.to + 1,
                into@ == old(into)@ + self.spec_value(opcode).take(k as int),
            decreases count - k,
        {
            let pos: u32 = self.from as u32 - k;
            if pos < 16 && bit_at(opcode, pos as u8) {
                push_char(into, '1');
            } else {
                push_char(into, '0');
            }
            k = k + 1;
            assert(into@ =~= old(into)@ + self.spec_value(opcode).take(k as int));
        }
        assert(self.spec_value(opcode).take(count as int) =~= self.spec_value(opcode));
    }
}

/// The values of the fields `fields` in `opcode`, each followed by a space.
pub open spec fn spec_vertical(fields: Seq<RangeDescriptor>, opcode: u16) -> Seq<char>
    decreases fields.len(),
{
    if fields.len() == 0 {
        Seq::empty()
    } else {
        spec_vertical(fields.drop_last(), opcode) + fields.last().spec_value(opcode) + seq![' ']
    }
}

/// The two halves of a word in the horizontal format, in hexadecimal.
pub open spec fn spec_horizontal_hex(horizontal: u32) -> Seq<char> {
    "Hex: "@ + spec_hex((horizontal >> 16u32) as nat, 4) + " "@ + spec_hex(
        (horizontal & 0xFFFF) as nat,
        4,
    )
}

/// The four bytes of a word in the horizontal format, in binary.
pub open spec fn spec_horizontal_bin(horizontal: u32) -> Seq<char> {
    "Bin: "@ + spec_bits_text(((horizontal >> 24u32) & 0xFF) as u16, 7, 0) + " "@ + spec_bits_text(
        ((horizontal >> 16u32) & 0xFF) as u16,
        7,
        0,
    ) + " "@ + spec_bits_text(((horizontal >> 8u32) & 0xFF) as u16, 7, 0) + " "@ + spec_bits_text(
        (horizontal & 0xFF) as u16,
        7,
        0,
    )
}

/// The two halves of `horizontal` in hexadecimal.
pub fn horizontal_hex(horizontal: u32) -> (s: String)
    ensures
        s@ == spec_horizontal_hex(horizontal),
{
    let mut s = String::from_str("Hex: ");
    append_hex(&mut s, horizontal >> 16u32, 4);
    s.append(" ");
    append_hex(&mut s, horizontal & 0xFFFF, 4);
    s
}

/// The four bytes of `horizontal` in binary.
pub fn horizontal_bin(horizontal: u32) -> (s: String)
    ensures
        s@ == spec_horizontal_bin(horizontal),
{
    assert((horizontal >> 24u32) & 0xFF <= 0xFF && (horizontal >> 16u32) & 0xFF <= 0xFF && (
    horizontal >> 8u32) & 0xFF <= 0xFF && horizontal & 0xFF <= 0xFF) by (bit_vector);
    let byte = RangeDescriptor::new(7, 0, "", "");
    let mut s = String::from_str("Bin: ");
    byte.value(((horizontal >> 24u32) & 0xFF) as u16, &mut s);
    s.append(" ");
    byte.value(((horizontal >> 16u32) & 0xFF) as u16, &mut s);
    s.append(" ");
    byte.value(((horizontal >> 8u32) & 0xFF) as u16, &mut s);
    s.append(" ");
    byte.value((horizontal & 0xFF) as u16, &mut s);
    s
}

impl MicroCommandDescriptor {
    pub fn new(global_description: &'static str) -> (d: MicroCommandDescriptor)
        ensures
            d.global_descriptions == global_description,
            d.descriptors@ == Seq::<RangeDescriptor>::empty(),
    {
        MicroCommandDescriptor { global_descriptions: global_description, descriptors: Vec::new() }
    }

    /// Adds a field of the one bit `bit`.
    pub fn bit(&mut self, bit: u16, short_description: &'static str, explained: &'static str)
        ensures
            final(self).global_descriptions == old(self).global_descriptions,
            final(self).descriptors@ == old(self).descriptors@.push(
                RangeDescriptor { from: bit, to: bit, short_description, explained },
            ),
    {
        self.range(bit, bit, short_description, explained)
    }

    /// Adds a field of the bits `to ..= from`.
    pub fn range(
        &mut self,
        from: u16,
        to: u16,
        short_description: &'static str,
        explained: &'static str,
    )
        ensures
            final(self).global_descriptions == old(self).global_descriptions,
            final(self).descriptors@ == old(self).descriptors@.push(
                RangeDescriptor { from, to, short_description, explained },
            ),
    {
        self.descriptors.push(RangeDescriptor::new(from, to, short_description, explained))
    }

    /// The word `opcode` field by field: the bits of each field, the highest
    /// field first, with a space after each.
    pub fn vertical(&self, opcode: u16) -> (s: String)
        ensures
            s@ == spec_vertical(self.descriptors@, opcode),
    {
        let mut s = String::new();
        let mut i: usize = 0;
        assert(self.descriptors@.take(0) =~= Seq::<RangeDescriptor>::empty());
        while i < self.descriptors.len()
            invariant
                i <= self.descriptors.len(),
                s@ == spec_vertical(self.descriptors@.take(i as int), opcode),
            decreases self.descriptors.len() - i,
        {
            self.descriptors[i].value(opcode, &mut s);
            push_char(&mut s, ' ');
            i = i + 1;
            assert(self.descriptors@.take(i as int).drop_last() =~= self.descriptors@.take(i - 1));
        }
        assert(self.descriptors@.take(self.descriptors.len() as int) =~= self.descriptors@);
        s
    }

    /// The line that shows field `index` of `opcode`: its bits, ` - ` and its name.
    pub fn field_line(&self, index: usize, opcode: u16) -> (s: String)
        requires
            index < self.descriptors@.len(),
        ensures
            s@ == self.descriptors@[index as int].spec_value(opcode) + " - "@
                + self.descriptors@[index as int].short_description@,
    {
        let mut s = String::new();
        self.descriptors[index].value(opcode, &mut s);
        assert(s@ =~= self.descriptors@[index as int].spec_value(opcode));
        s.append(" - ");
        s.append(self.descriptors[index].short_description);
        s
    }
}

/// What a conditional jump is for.
pub const CONTROL_HELP: &'static str = "Эта микрокоманда нужна для организации условных переходов в мпу.\n\nРаботает все довольно просто:\n1. Берем регистр который указан в поле \"Проверяемый регистр\"\n2. Сравниваем его бит, номер которого записан в поле \"Проверяемый бит\" с битом сравнения.\n3. Если они совпадают, присваиваем значение поля \"Адрес перехода\" регистру СчМК. Иначе делаем ничего\n        ";

pub const CONTROL_FIELD_0_NAME: &'static str = "Код операции";

pub const CONTROL_FIELD_0_HELP: &'static str = "Означает, что эта команда является операционной командой";

pub const CONTROL_FIELD_1_NAME: &'static str = "Бит сравнения";

pub const CONTROL_FIELD_1_HELP: &'static str = "Прыжок будет совершен если сравниваемый бит совпадет с этим";

pub const CONTROL_FIELD_2_NAME: &'static str = "Проверяемый регистр";

pub const CONTROL_FIELD_2_HELP: &'static str = "Из этого регистра мы возьмем проверяемый бит.\n00 - РС\n01 - РД\n10 - РК\n11 - А\n        ";

pub const CONTROL_FIELD_3_NAME: &'static str = "Проверяемый бит";

pub const CONTROL_FIELD_3_HELP: &'static str = "Номер бита, который нам нужно сравнить.";

pub const CONTROL_FIELD_4_NAME: &'static str = "Адрес перехода";

pub const CONTROL_FIELD_4_HELP: &'static str = "В случае когда проверяемый бит совпадет с битом сравнения в СчМК будет присвоено это значение";

/// What a micro-instruction of the first operational class is for.
pub const OP0_HELP: &'static str = "Операционная команда 0\n\nЕе предназначение - работа с основной памятью, побитовые сдвиги и арифметические действия";

pub const OP0_FIELD_0_NAME: &'static str = "Код операции";

pub const OP0_FIELD_0_HELP: &'static str = "Означает, что эта команда является операционной командой 0";

pub const OP0_FIELD_1_NAME: &'static str = "Левый вход";

pub const OP0_FIELD_1_HELP: &'static str = "Регистр который будет выполнять роль левого операнда.\n00 - 0 - это не регистр. Это просто ноль.\n01 - А\n10 - РС\n11 - КР";

pub const OP0_FIELD_2_NAME: &'static str = "Пустое место";

pub const OP0_FIELD_2_HELP: &'static str = "Это просто бесполезные биты. Не важны что тут будет. Они бесполезны.";

pub const OP0_FIELD_3_NAME: &'static str = "Правый вход";

pub const OP0_FIELD_3_HELP: &'static str = "Регистр, который будет выполнять роль правого операнда.\n00 - 0 - это не регистр. Это просто ноль.\n01 - РД\n10 - РК\n11 - СК";

pub const OP0_FIELD_4_NAME: &'static str = "Обратный код";

pub const OP0_FIELD_4_HELP: &'static str = "От какого операнда мы будем искать обратный код.\nOбратный код это когда единицы на нули и нули на единицы\n00 - ни от какого\n01 - от левого\n10 - от правого\n11 - ни от какого";

pub const OP0_FIELD_5_NAME: &'static str = "Операция";

pub const OP0_FIELD_5_HELP: &'static str = "Вид операции которую мы применим к операндам:\n00 - Левый + Правый\n01 - Левый + Правый + 1\n10 - Левый & Правый(& - побитовое И)\n11 - Левый + Правый";

pub const OP0_FIELD_6_NAME: &'static str = "Сдвиг";

pub const OP0_FIELD_6_HELP: &'static str = "Это поле - чад. Если мы что-то сдвигаем, то больше ничего не делаем.\nРезультат бинарного сдвига попадает в БР\nСдвигаем мы регистр A\n00 - нет сдвига\n01 - сдвиг вправо\n10 - сдвиг влево\n11 - нет сдвига\n";

pub const OP0_FIELD_7_NAME: &'static str = "Память";

pub const OP0_FIELD_7_HELP: &'static str = "00 - нет обмена\n01 - чтение: возьми из ячейки, адрес которой лежит в РА, основной памяти и положи в РД\n10 - запись: наоборот\n11 - нет обмена";

/// What a micro-instruction of the second operational class is for.
pub const OP1_HELP: &'static str = "Операционная команда 1\n\nЭта команда - универсальный боец. В нее пихнули все что не поместилось в другие.\nНо стоит выделить, что если операционная команда 0 изменяет только регистр БР, то эта команда умеет пересылать из БР в какой-нибудь другой регистр. Таким образом эти команды часто работают в паре.\n        ";

pub const OP1_FIELD_0_NAME: &'static str = "Код операции";

pub const OP1_FIELD_0_HELP: &'static str = "Означает, что эта команда является операционной командой 1";

pub const OP1_FIELD_1_NAME: &'static str = "Пустое место";

pub const OP1_FIELD_1_HELP: &'static str = "Это просто бесполезные биты. Не важны что тут будет. Они бесполезны.";

pub const OP1_FIELD_2_NAME: &'static str = "Включить прерывания";

pub const OP1_FIELD_2_HELP: &'static str = "Если 1, прерывания будут разрешены.";

pub const OP1_FIELD_3_NAME: &'static str = "Выключить прерывания";

pub const OP1_FIELD_3_HELP: &'static str = "Если 1, прерывания будут запрещены.\nЕсли совместить с предыдущим флагом, не произойдет ничего.";

pub const OP1_FIELD_4_NAME: &'static str = "Сброс готовности ВУ";

pub const OP1_FIELD_4_HELP: &'static str = "Если 1, у всех ВУ будет сброшен флаг готовности.";

pub const OP1_FIELD_5_NAME: &'static str = "Запуск контролера ВУ";

pub const OP1_FIELD_5_HELP: &'static str = "Вот тут начинается черная магия.\nЕсли 1:\n1. Если РК не равно РД не делаем ничего\n2. Иначе устанавливаем 12 бит регистра РС\n3. Установка этого бита приводит в действие контролер ВУ\n4. Далее читайте описание 12 бита РС";

pub const OP1_FIELD_6_NAME: &'static str = "Регистр С";

pub const OP1_FIELD_6_HELP: &'static str = "Этот бит задает вид взаимодействия с 0 битом регистра РС.\n00 - нет взаимодействия\n01 - присваиваем С значение 16 бита регистра БР и убираем 16 бит у БР\n10 - устанавливаем С в 0\n11 - устанавливаем С в 1";

pub const OP1_FIELD_7_NAME: &'static str = "Регистр N";

pub const OP1_FIELD_7_HELP: &'static str = "Если 1 и если БР меньше 0, то есть 15 бит равен 1, N будет установлен в 1";

pub const OP1_FIELD_8_NAME: &'static str = "Регистр Z";

pub const OP1_FIELD_8_HELP: &'static str = "Если 1 и если БР равен 0, Z будет установлен в 1";

pub const OP1_FIELD_9_NAME: &'static str = "Остановочка";

pub const OP1_FIELD_9_HELP: &'static str = "Завершает роботу эвм. Чаще всего это говорит о том что команда из основной памяти выполнена.";

pub const OP1_FIELD_10_NAME: &'static str = "Выход АЛУ";

pub const OP1_FIELD_10_HELP: &'static str = "Говорит о том куда пересылать содержимое БР\n000 - никуда\n001 - в РА\n010 - в РД\n011 - в РК\n100 - в СК\n101 - в А\n110 - никуда\n111 - в РА, РД, РК и А";


/// The fields of a conditional jump, from the highest bits down.
pub open spec fn spec_control_fields() -> Seq<RangeDescriptor> {
    seq![
        RangeDescriptor {
            from: 15,
            to: 15,
            short_description: CONTROL_FIELD_0_NAME,
            explained: CONTROL_FIELD_0_HELP,
        },
        RangeDescriptor {
            from: 14,
            to: 14,
            short_description: CONTROL_FIELD_1_NAME,
            explained: CONTROL_FIELD_1_HELP,
        },
        RangeDescriptor {
            from: 13,
            to: 12,
            short_description: CONTROL_FIELD_2_NAME,
            explained: CONTROL_FIELD_2_HELP,
        },
        RangeDescriptor {
            from: 11,
            to: 8,
            short_description: CONTROL_FIELD_3_NAME,
            explained: CONTROL_FIELD_3_HELP,
        },
        RangeDescriptor {
            from: 7,
            to: 0,
            short_description: CONTROL_FIELD_4_NAME,
            explained: CONTROL_FIELD_4_HELP,
        },
    ]
}

/// The fields of a micro-instruction of the first operational class, from the highest bits down.
pub open spec fn spec_op0_fields() -> Seq<RangeDescriptor> {
    seq![
        RangeDescriptor {
            from: 15,
            to: 14,
            short_description: OP0_FIELD_0_NAME,
            explained: OP0_FIELD_0_HELP,
        },
        RangeDescriptor {
            from: 13,
            to: 12,
            short_description: OP0_FIELD_1_NAME,
            explained: OP0_FIELD_1_HELP,
        },
        RangeDescriptor {
            from: 11,
            to: 10,
            short_description: OP0_FIELD_2_NAME,
            explained: OP0_FIELD_2_HELP,
        },
        RangeDescriptor {
            from: 9,
            to: 8,
            short_description: OP0_FIELD_3_NAME,
            explained: OP0_FIELD_3_HELP,
        },
        RangeDescriptor {
            from: 7,
            to: 6,
            short_description: OP0_FIELD_4_NAME,
            explained: OP0_FIELD_4_HELP,
        },
        RangeDescriptor {
            from: 5,
            to: 4,
            short_description: OP0_FIELD_5_NAME,
            explained: OP0_FIELD_5_HELP,
        },
        RangeDescriptor {
            from: 3,
            to: 2,
            short_description: OP0_FIELD_6_NAME,
            explained: OP0_FIELD_6_HELP,
        },
        RangeDescriptor {
            from: 1,
            to: 0,
            short_description: OP0_FIELD_7_NAME,
            explained: OP0_FIELD_7_HELP,
        },
    ]
}

/// The fields of a micro-instruction of the second operational class, from the highest bits down.
pub open spec fn spec_op1_fields() -> Seq<RangeDescriptor> {
    seq![
        RangeDescriptor {
            from: 15,
            to: 14,
            short_description: OP1_FIELD_0_NAME,
            explained: OP1_FIELD_0_HELP,
        },
        RangeDescriptor {
            from: 13,
            to: 12,
            short_description: OP1_FIELD_1_NAME,
            explained: OP1_FIELD_1_HELP,
        },
        RangeDescriptor {
            from: 11,
            to: 11,
            short_description: OP1_FIELD_2_NAME,
            explained: OP1_FIELD_2_HELP,
        },
        RangeDescriptor {
            from: 10,
            to: 10,
            short_description: OP1_FIELD_3_NAME,
            explained: OP1_FIELD_3_HELP,
        },
        RangeDescriptor {
            from: 9,
            to: 9,
            short_description: OP1_FIELD_4_NAME,
            explained: OP1_FIELD_4_HELP,
        },
        RangeDescriptor {
            from: 8,
            to: 8,
            short_description: OP1_FIELD_5_NAME,
            explained: OP1_FIELD_5_HELP,
        },
        RangeDescriptor {
            from: 7,
            to: 6,
            short_description: OP1_FIELD_6_NAME,
            explained: OP1_FIELD_6_HELP,
        },
        RangeDescriptor {
            from: 5,
            to: 5,
            short_description: OP1_FIELD_7_NAME,
            explained: OP1_FIELD_7_HELP,
        },
        RangeDescriptor {
            from: 4,
            to: 4,
            short_description: OP1_FIELD_8_NAME,
            explained: OP1_FIELD_8_HELP,
        },
        RangeDescriptor {
            from: 3,
            to: 3,
            short_description: OP1_FIELD_9_NAME,
            explained: OP1_FIELD_9_HELP,
        },
        RangeDescriptor {
            from: 2,
            to: 0,
            short_description: OP1_FIELD_10_NAME,
            explained: OP1_FIELD_10_HELP,
        },
    ]
}


impl ControlCommand {
    /// What the micro-instruction is for, and its fields.
    pub fn descriptor(&self) -> (descriptor: MicroCommandDescriptor)
        ensures
            descriptor.global_descriptions == CONTROL_HELP,
            descriptor.descriptors@ == spec_control_fields(),
    {
        let mut descriptor = MicroCommandDescriptor::new(CONTROL_HELP);
        descriptor.bit(15, CONTROL_FIELD_0_NAME, CONTROL_FIELD_0_HELP);
        descriptor.bit(14, CONTROL_FIELD_1_NAME, CONTROL_FIELD_1_HELP);
        descriptor.range(13, 12, CONTROL_FIELD_2_NAME, CONTROL_FIELD_2_HELP);
        descriptor.range(11, 8, CONTROL_FIELD_3_NAME, CONTROL_FIELD_3_HELP);
        descriptor.range(7, 0, CONTROL_FIELD_4_NAME, CONTROL_FIELD_4_HELP);
        assert(descriptor.descriptors@ =~= spec_control_fields());
        descriptor
    }
}

impl OperationalCommand0 {
    /// What the micro-instruction is for, and its fields.
    pub fn descriptor(&self) -> (descriptor: MicroCommandDescriptor)
        ensures
            descriptor.global_descriptions == OP0_HELP,
            descriptor.descriptors@ == spec_op0_fields(),
    {
        let mut descriptor = MicroCommandDescriptor::new(OP0_HELP);
        descriptor.range(15, 14, OP0_FIELD_0_NAME, OP0_FIELD_0_HELP);
        descriptor.range(13, 12, OP0_FIELD_1_NAME, OP0_FIELD_1_HELP);
        descriptor.range(11, 10, OP0_FIELD_2_NAME, OP0_FIELD_2_HELP);
        descriptor.range(9, 8, OP0_FIELD_3_NAME, OP0_FIELD_3_HELP);
        descriptor.range(7, 6, OP0_FIELD_4_NAME, OP0_FIELD_4_HELP);
        descriptor.range(5, 4, OP0_FIELD_5_NAME, OP0_FIELD_5_HELP);
        descriptor.range(3, 2, OP0_FIELD_6_NAME, OP0_FIELD_6_HELP);
        descriptor.range(1, 0, OP0_FIELD_7_NAME, OP0_FIELD_7_HELP);
        assert(descriptor.descriptors@ =~= spec_op0_fields());
        descriptor
    }
}

impl OperationalCommand1 {
    /// What the micro-instruction is for, and its fields.
    pub fn descriptor(&self) -> (descriptor: MicroCommandDescriptor)
        ensures
            descriptor.global_descriptions == OP1_HELP,
            descriptor.descriptors@ == spec_op1_fields(),
    {
        let mut descriptor = MicroCommandDescriptor::new(OP1_HELP);
        descriptor.range(15, 14, OP1_FIELD_0_NAME, OP1_FIELD_0_HELP);
        descriptor.range(13, 12, OP1_FIELD_1_NAME, OP1_FIELD_1_HELP);
        descriptor.bit(11, OP1_FIELD_2_NAME, OP1_FIELD_2_HELP);
        descriptor.bit(10, OP1_FIELD_3_NAME, OP1_FIELD_3_HELP);
        descriptor.bit(9, OP1_FIELD_4_NAME, OP1_FIELD_4_HELP);
        descriptor.bit(8, OP1_FIELD_5_NAME, OP1_FIELD_5_HELP);
        descriptor.range(7, 6, OP1_FIELD_6_NAME, OP1_FIELD_6_HELP);
        descriptor.bit(5, OP1_FIELD_7_NAME, OP1_FIELD_7_HELP);
        descriptor.bit(4, OP1_FIELD_8_NAME, OP1_FIELD_8_HELP);
        descriptor.bit(3, OP1_FIELD_9_NAME, OP1_FIELD_9_HELP);
        descriptor.range(2, 0, OP1_FIELD_10_NAME, OP1_FIELD_10_HELP);
        assert(descriptor.descriptors@ =~= spec_op1_fields());
        descriptor
    }
}


impl MicroInstruction {
    /// What the micro-instruction is for, and its fields.
    pub fn descriptor(&self) -> (descriptor: MicroCommandDescriptor)
        ensures
            descriptor.global_descriptions == (match self {
                MicroInstruction::Operational0(_) => OP0_HELP,
                MicroInstruction::Operational1(_) => OP1_HELP,
                MicroInstruction::Control(_) => CONTROL_HELP,
            }),
            descriptor.descriptors@ == (match self {
                MicroInstruction::Operational0(_) => spec_op0_fields(),
                MicroInstruction::Operational1(_) => spec_op1_fields(),
                MicroInstruction::Control(_) => spec_control_fields(),
            }),
    {
        match self {
            MicroInstruction::Operational0(c) => c.descriptor(),
            MicroInstruction::Operational1(c) => c.descriptor(),
            MicroInstruction::Control(c) => c.descriptor(),
        }
    }
}

} // verus!
