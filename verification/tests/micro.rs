use bevm::model::Register;
use bevm::parse::describe::{horizontal_bin, horizontal_hex};
use bevm::parse::mc::{
    parse, CUpdate, Complement, ControlCommand, IOControl, McParser, Memory, MicroCommand,
    MicroInstruction, NZUpdate, OperationalCommand0, OperationalCommand1, Operation, Shift,
};
use bevm::parse::{CommandInfo, Parser};

#[test]
fn the_two_highest_bits_decide_the_shape() {
    assert!(matches!(parse(0x0000), MicroInstruction::Operational0(_)));
    assert!(matches!(parse(0x3FFF), MicroInstruction::Operational0(_)));
    assert!(matches!(parse(0x4000), MicroInstruction::Operational1(_)));
    assert!(matches!(parse(0x7FFF), MicroInstruction::Operational1(_)));
    assert!(matches!(parse(0x8000), MicroInstruction::Control(_)));
    assert!(matches!(parse(0xC000), MicroInstruction::Control(_)));
    assert!(matches!(parse(0xFFFF), MicroInstruction::Control(_)));
    for word in 0..=0xFFFFu16 {
        assert_eq!(parse(word).opcode(), word);
        assert_eq!(MicroCommand::opcode(&parse(word)), word);
    }
}

#[test]
fn the_zero_word_selects_nothing() {
    let c = OperationalCommand0(0x0000);
    assert_eq!(c.left_input(), None);
    assert_eq!(c.right_input(), None);
    assert_eq!(c.shift(), Shift::Neither);
    assert_eq!(c.memory(), Memory::Idle);
    assert_eq!(c.operation(), Operation::LeftPlusRight);
    assert_eq!(c.complement(), Complement::Neither);
}

#[test]
fn the_command_register_can_be_had_on_both_sides() {
    // Both selector bits set: the command register on the left, the command
    // counter on the right; the command register on the right is code 10.
    assert_eq!(OperationalCommand0(0x3000).left_input(), Some(Register::Command));
    assert_eq!(OperationalCommand0(0x1000).left_input(), Some(Register::Counter));
    assert_eq!(OperationalCommand0(0x2000).left_input(), Some(Register::Status));
    assert_eq!(OperationalCommand0(0x0300).right_input(), Some(Register::CommandCounter));
    assert_eq!(OperationalCommand0(0x0100).right_input(), Some(Register::Data));
    assert_eq!(OperationalCommand0(0x0200).right_input(), Some(Register::Command));
}

#[test]
fn the_fields_of_the_first_operational_class() {
    assert_eq!(OperationalCommand0(0x0004).shift(), Shift::Right);
    assert_eq!(OperationalCommand0(0x0008).shift(), Shift::Left);
    assert_eq!(OperationalCommand0(0x000C).shift(), Shift::Neither);
    assert_eq!(OperationalCommand0(0x0001).memory(), Memory::Read);
    assert_eq!(OperationalCommand0(0x0002).memory(), Memory::Write);
    assert_eq!(OperationalCommand0(0x0003).memory(), Memory::Idle);
    assert_eq!(OperationalCommand0(0x0010).operation(), Operation::LeftPlusRightPlusOne);
    assert_eq!(OperationalCommand0(0x0020).operation(), Operation::LeftAndRight);
    assert_eq!(OperationalCommand0(0x0030).operation(), Operation::LeftPlusRight);
    assert_eq!(OperationalCommand0(0x0040).complement(), Complement::Left);
    assert_eq!(OperationalCommand0(0x0080).complement(), Complement::Right);
    assert_eq!(OperationalCommand0(0x00C0).complement(), Complement::Neither);
}

#[test]
fn the_fields_of_the_second_operational_class() {
    assert!(OperationalCommand1(0x4008).hlt());
    assert!(!OperationalCommand1(0x4000).hlt());
    assert_eq!(OperationalCommand1(0x4010).nz(), NZUpdate::Z);
    assert_eq!(OperationalCommand1(0x4020).nz(), NZUpdate::N);
    assert_eq!(OperationalCommand1(0x4030).nz(), NZUpdate::NZ);
    assert_eq!(OperationalCommand1(0x4000).nz(), NZUpdate::Unchanged);
    assert_eq!(OperationalCommand1(0x4040).c(), CUpdate::Assign);
    assert_eq!(OperationalCommand1(0x4080).c(), CUpdate::Reset);
    assert_eq!(OperationalCommand1(0x40C0).c(), CUpdate::SetOne);
    assert_eq!(OperationalCommand1(0x4000).c(), CUpdate::Unchanged);
    assert_eq!(OperationalCommand1(0x4000).output(), Some(vec![]));
    assert_eq!(OperationalCommand1(0x4001).output(), Some(vec![Register::Address]));
    assert_eq!(OperationalCommand1(0x4002).output(), Some(vec![Register::Data]));
    assert_eq!(OperationalCommand1(0x4003).output(), Some(vec![Register::Command]));
    assert_eq!(OperationalCommand1(0x4004).output(), Some(vec![Register::CommandCounter]));
    assert_eq!(OperationalCommand1(0x4005).output(), Some(vec![Register::Counter]));
    assert_eq!(OperationalCommand1(0x4006).output(), None);
    assert_eq!(
        OperationalCommand1(0x4007).output(),
        Some(vec![Register::Address, Register::Data, Register::Command, Register::Counter])
    );
    assert_eq!(OperationalCommand1(0x4000).io(), vec![]);
    assert_eq!(OperationalCommand1(0x4100).io(), vec![IOControl::Connect]);
    assert_eq!(OperationalCommand1(0x4200).io(), vec![IOControl::Reset]);
    assert_eq!(OperationalCommand1(0x4400).io(), vec![IOControl::DisableInterruption]);
    assert_eq!(OperationalCommand1(0x4800).io(), vec![IOControl::EnableInterruption]);
    assert_eq!(
        OperationalCommand1(0x4F00).io(),
        vec![
            IOControl::Connect,
            IOControl::Reset,
            IOControl::DisableInterruption,
            IOControl::EnableInterruption
        ]
    );
}

#[test]
fn the_fields_of_a_jump() {
    let jump = ControlCommand(0xF242);
    assert!(jump.needed_bit());
    assert_eq!(jump.register(), Register::Counter);
    assert_eq!(jump.bit_location(), 2);
    assert_eq!(jump.jump_address(), 0x42);
    let jump = ControlCommand(0x8FFF);
    assert!(!jump.needed_bit());
    assert_eq!(jump.register(), Register::Status);
    assert_eq!(jump.bit_location(), 15);
    assert_eq!(jump.jump_address(), 0xFF);
    assert_eq!(ControlCommand(0x9000).register(), Register::Data);
    assert_eq!(ControlCommand(0xA000).register(), Register::Command);
}

#[test]
fn micro_instructions_are_written_out() {
    assert_eq!(ControlCommand(0x8000).mnemonic(), "if РС[0] == 0 GOTO 0000");
    assert_eq!(ControlCommand(0xF242).mnemonic(), "if А[2] == 1 GOTO 0042");
    assert_eq!(ControlCommand(0x9FA8).mnemonic(), "if РД[15] == 0 GOTO 00A8");
    assert_eq!(OperationalCommand0(0x0000).mnemonic(), "БР=0 + 0; ");
    assert_eq!(OperationalCommand0(0x1100).mnemonic(), "БР=А + РД; ");
    assert_eq!(OperationalCommand0(0x1110).mnemonic(), "БР=А + РД + 1; ");
    assert_eq!(OperationalCommand0(0x3220).mnemonic(), "БР=РК & РК; ");
    assert_eq!(OperationalCommand0(0x1040).mnemonic(), "БР=!А + 0; ");
    assert_eq!(OperationalCommand0(0x0080).mnemonic(), "БР=0 + !0; ");
    assert_eq!(OperationalCommand0(0x0340).mnemonic(), "БР=!0 + СК; ");
    assert_eq!(OperationalCommand0(0x0001).mnemonic(), "БР=0 + 0; РД = *РА");
    assert_eq!(OperationalCommand0(0x0002).mnemonic(), "БР=0 + 0; *РА = РД");
    assert_eq!(OperationalCommand0(0x0004).mnemonic(), "БР=A >> 1");
    assert_eq!(OperationalCommand0(0x0008).mnemonic(), "БР=A << 1");
    assert_eq!(OperationalCommand0(0x1100).expression_mnemonic(), "БР=А + РД; ");
    assert_eq!(OperationalCommand1(0x4008).mnemonic(), "Остановочка.");
    assert_eq!(OperationalCommand1(0x4000).mnemonic(), "");
    assert_eq!(
        OperationalCommand1(0x4075).mnemonic(),
        "C = БР[0]; N=БР < 0; Z=БР == 0; А = БР; "
    );
    assert_eq!(OperationalCommand1(0x4007).mnemonic(), "РА РД РК А = БР; ");
    assert_eq!(OperationalCommand1(0x4006).mnemonic(), "");
    assert_eq!(OperationalCommand1(0x4084).mnemonic(), "C = 0; СК = БР; ");
    assert_eq!(OperationalCommand1(0x40D0).mnemonic(), "C = 1; Z=БР == 0; ");
    assert_eq!(OperationalCommand1(0x4020).mnemonic(), "N=БР < 0; ");
    assert_eq!(
        OperationalCommand1(0x4F00).mnemonic(),
        "Организация связей с ВУ; Сброс флагов ВУ; Запретить прерывания; Разрешить прерывания; "
    );
    assert_eq!(parse(0x4008).mnemonic(), "Остановочка.");
    assert_eq!(MicroCommand::mnemonic(&parse(0x0004)), "БР=A >> 1");
}

#[test]
fn the_codec_of_microcode_writes_numbers() {
    let parser = McParser::new();
    assert!(!parser.supports_rev_parse());
    let info = parser.parse(0x4008);
    assert_eq!(info.file_string(), "4008");
    assert_eq!(info.mnemonic(), "Остановочка.");
    assert_eq!(parser.parse(0x00A8).file_string(), "00A8");
}

#[test]
fn the_horizontal_format() {
    assert_eq!(OperationalCommand0(0x0000).horizontal(), 0);
    assert_eq!(OperationalCommand0(0x1100).horizontal(), (1 << 4) | (1 << 1));
    assert_eq!(OperationalCommand0(0x2000).horizontal(), 1 << 5);
    assert_eq!(OperationalCommand0(0x3200).horizontal(), 1 << 6);
    assert_eq!(OperationalCommand0(0x0300).horizontal(), 1 << 3);
    assert_eq!(OperationalCommand0(0x0040).horizontal(), 1 << 7);
    assert_eq!(OperationalCommand0(0x0080).horizontal(), 1 << 8);
    assert_eq!(OperationalCommand0(0x0010).horizontal(), 1 << 10);
    assert_eq!(OperationalCommand0(0x0020).horizontal(), 1 << 9);
    assert_eq!(OperationalCommand0(0x0008).horizontal(), 1 << 12);
    assert_eq!(OperationalCommand0(0x0004).horizontal(), 1 << 11);
    assert_eq!(OperationalCommand0(0x0001).horizontal(), 1 << 23);
    assert_eq!(OperationalCommand0(0x0002).horizontal(), 1 << 24);
    assert_eq!(OperationalCommand1(0x4000).horizontal(), 0);
    assert_eq!(OperationalCommand1(0x4008).horizontal(), 1);
    assert_eq!(OperationalCommand1(0x4100).horizontal(), 1 << 29);
    assert_eq!(OperationalCommand1(0x4800).horizontal(), 1 << 28);
    assert_eq!(OperationalCommand1(0x4400).horizontal(), 1 << 27);
    assert_eq!(OperationalCommand1(0x4200).horizontal(), 1 << 26);
    assert_eq!(OperationalCommand1(0x4040).horizontal(), 1 << 13);
    assert_eq!(OperationalCommand1(0x4080).horizontal(), 1 << 16);
    assert_eq!(OperationalCommand1(0x40C0).horizontal(), 1 << 17);
    assert_eq!(OperationalCommand1(0x4020).horizontal(), 1 << 14);
    assert_eq!(OperationalCommand1(0x4010).horizontal(), 1 << 15);
    assert_eq!(OperationalCommand1(0x4030).horizontal(), (1 << 14) | (1 << 15));
    assert_eq!(OperationalCommand1(0x4001).horizontal(), 1 << 18);
    assert_eq!(OperationalCommand1(0x4002).horizontal(), 1 << 19);
    assert_eq!(OperationalCommand1(0x4003).horizontal(), 1 << 20);
    assert_eq!(OperationalCommand1(0x4004).horizontal(), 1 << 21);
    assert_eq!(OperationalCommand1(0x4005).horizontal(), 1 << 22);
    assert_eq!(OperationalCommand1(0x4006).horizontal(), 0);
    assert_eq!(
        OperationalCommand1(0x4007).horizontal(),
        (1 << 18) | (1 << 19) | (1 << 20) | (1 << 22)
    );
    assert_eq!(ControlCommand(0x8000).horizontal(), 0x8200_0001);
    assert_eq!(ControlCommand(0xF242).horizontal(), 0x9142_0004);
    assert_eq!(ControlCommand(0x9F00).horizontal(), 0x8400_8000);
    assert_eq!(ControlCommand(0xA000).horizontal(), 0x8800_0001);
    assert_eq!(parse(0xF242).horizontal(), 0x9142_0004);
    assert_eq!(MicroCommand::horizontal(&parse(0x4008)), 1);
}

#[test]
fn the_horizontal_format_as_text() {
    assert_eq!(horizontal_hex(0x8200_0001), "Hex: 8200 0001");
    assert_eq!(horizontal_hex(0), "Hex: 0000 0000");
    assert_eq!(horizontal_bin(0x8200_0001), "Bin: 10000010 00000000 00000000 00000001");
    assert_eq!(horizontal_bin(0x0102_04FF), "Bin: 00000001 00000010 00000100 11111111");
}

#[test]
fn the_fields_of_a_word_are_shown() {
    let jump = ControlCommand(0xF242);
    let d = jump.descriptor();
    assert_eq!(d.descriptors.len(), 5);
    assert_eq!(d.vertical(0xF242), "1 1 11 0010 01000010 ");
    assert_eq!(d.field_line(2, 0xF242), "11 - Проверяемый регистр");
    assert_eq!(d.field_line(4, 0xF242), "01000010 - Адрес перехода");
    assert!(d.global_descriptions.starts_with("Эта микрокоманда нужна для организации"));
    assert_eq!(d.descriptors[1].short_description, "Бит сравнения");
    assert_eq!(
        d.descriptors[1].explained,
        "Прыжок будет совершен если сравниваемый бит совпадет с этим"
    );

    let d = OperationalCommand0(0x1101).descriptor();
    assert_eq!(d.descriptors.len(), 8);
    assert_eq!(d.vertical(0x1101), "00 01 00 01 00 00 00 01 ");
    assert_eq!(d.field_line(1, 0x1101), "01 - Левый вход");
    assert!(d.global_descriptions.starts_with("Операционная команда 0\n\n"));

    let d = OperationalCommand1(0x4075).descriptor();
    assert_eq!(d.descriptors.len(), 11);
    assert_eq!(d.vertical(0x4075), "01 00 0 0 0 0 01 1 1 0 101 ");
    assert_eq!(d.field_line(10, 0x4075), "101 - Выход АЛУ");

    let d = parse(0x4075).descriptor();
    assert_eq!(d.descriptors.len(), 11);
}
