use bevm::model::{BootImage, Computer, IOCell, LogEntry, Register, Registers};
use bevm::parse::mc::{
    ControlCommand, ExecutionResult, MicroCommand, OperationalCommand0, OperationalCommand1,
};

fn machine(boot: &str) -> Computer {
    Computer::new(BootImage::parse(boot).unwrap())
}

fn texts(c: &Computer) -> Vec<String> {
    c.logs().iter().map(|e: &LogEntry| e.info.clone()).collect()
}

fn same_registers(a: &Registers, b: &Registers) -> bool {
    a.r_micro_command_counter == b.r_micro_command_counter
        && a.r_status == b.r_status
        && a.r_micro_command == b.r_micro_command
        && a.r_buffer == b.r_buffer
        && a.r_address == b.r_address
        && a.r_command == b.r_command
        && a.r_data == b.r_data
        && a.r_command_counter == b.r_command_counter
        && a.r_counter == b.r_counter
}

#[test]
fn a_new_machine_holds_its_boot_image_and_zeros() {
    let c = machine("00 4008\nA8 F242\nFF 0001\n");
    assert_eq!(c.mc_memory.len(), 256);
    assert_eq!(c.general_memory.len(), 2048);
    assert_eq!(c.mc_memory.get(0x00), 0x4008);
    assert_eq!(c.mc_memory.get(0xA8), 0xF242);
    assert_eq!(c.mc_memory.get(0xFF), 0x0001);
    assert_eq!(c.mc_memory.get(0x01), 0);
    assert!(c.general_memory.values().iter().all(|v| *v == 0));
    assert!(same_registers(&c.registers, &Registers::new()));
    assert_eq!(c.io_devices, [IOCell { data: 0, ready: false }; 16]);
    assert!(c.logs().is_empty());
    assert_eq!(c.mc_memory.name(), "mpu");
    assert_eq!(c.general_memory.name(), "general");
}

#[test]
fn a_later_entry_of_the_boot_image_wins() {
    let c = machine("10 1111\n10 2222\n");
    assert_eq!(c.mc_memory.get(0x10), 0x2222);
}

#[test]
fn a_boot_image_is_read_line_by_line() {
    assert_eq!(BootImage::parse("").unwrap().entries(), &vec![]);
    assert_eq!(
        BootImage::parse("00 4008\r\nff 8000 trailing words\n").unwrap().entries(),
        &vec![(0x00, 0x4008), (0xFF, 0x8000)]
    );
    assert!(BootImage::parse("100 0000\n").is_none());
    assert!(BootImage::parse("0\n").is_none());
    assert!(BootImage::parse("00 4008\n\n01 4008\n").is_none());
    assert!(BootImage::parse("zz 0000\n").is_none());
    assert!(BootImage::parse("00 10000\n").is_none());
    assert!(BootImage::new(vec![(255, 1)]).is_some());
    assert!(BootImage::new(vec![(0, 1), (256, 1)]).is_none());
}

#[test]
fn reset_memory_twice_is_reset_memory_once() {
    let mut c = machine("00 4008\nA8 F242\n");
    c.general_memory.set(5, 0xBEEF);
    c.mc_memory.set(0x00, 0x1234);
    c.mc_memory.set(0x77, 0x5678);
    c.reset_memory();
    let general = c.general_memory.values();
    let mc = c.mc_memory.values();
    assert_eq!(general, vec![0u16; 2048]);
    assert_eq!(mc[0x00], 0x4008);
    assert_eq!(mc[0xA8], 0xF242);
    assert_eq!(mc[0x77], 0);
    c.reset_memory();
    assert_eq!(c.general_memory.values(), general);
    assert_eq!(c.mc_memory.values(), mc);
}

#[test]
fn the_zero_word_at_zero_does_nothing_but_step() {
    let mut c = machine("");
    let before = c.registers;
    let result = c.micro_step();
    assert_eq!(result, ExecutionResult::Success);
    assert_eq!(c.registers.r_micro_command_counter, 0x01);
    let mut expected = before;
    expected.r_micro_command_counter = 1;
    assert!(same_registers(&c.registers, &expected));
    assert!(c.general_memory.values().iter().all(|v| *v == 0));
    assert!(c.mc_memory.values().iter().all(|v| *v == 0));
    assert_eq!(c.io_devices, [IOCell { data: 0, ready: false }; 16]);
    assert_eq!(texts(&c), vec!["Произвел операцию БР=0 + 0; (0000 + 0000) и положил в БР"]);
    assert!(c.logs()[0].micro_command);
    assert_eq!(c.logs()[0].micro_counter, 0);
    assert_eq!(c.logs()[0].command_counter, 0);
}

#[test]
fn a_jump_is_taken_when_the_bit_is_as_asked() {
    let mut c = machine("10 F242\n");
    c.registers.r_micro_command_counter = 0x10;
    c.registers.r_counter = 0x0004;
    let result = c.micro_step();
    assert_eq!(result, ExecutionResult::Jumped);
    assert_eq!(c.registers.r_micro_command_counter, 0x42);
    assert_eq!(c.registers.r_micro_command, 0xF242);
    assert_eq!(c.registers.r_counter, 0x0004);
    assert_eq!(
        texts(&c),
        vec!["Сравнил 2 бит из регистра А с 1", "Присвоил значение 0042 регистру СчМК"]
    );
    assert_eq!(c.logs()[1].micro_counter, 0x10);
}

#[test]
fn a_jump_is_not_taken_when_the_bit_is_not_as_asked() {
    let mut c = machine("10 F242\n");
    c.registers.r_micro_command_counter = 0x10;
    c.registers.r_counter = 0xFFFB;
    let result = c.micro_step();
    assert_eq!(result, ExecutionResult::Success);
    assert_eq!(c.registers.r_micro_command_counter, 0x11);
    assert_eq!(texts(&c), vec!["Сравнил 2 бит из регистра А с 1"]);
}

#[test]
fn the_micro_program_counter_wraps() {
    let mut c = machine("FF F242\n");
    c.registers.r_micro_command_counter = 0xFF;
    assert_eq!(c.micro_step(), ExecutionResult::Success);
    assert_eq!(c.registers.r_micro_command_counter, 0x00);
}

#[test]
fn a_jump_tests_each_of_its_registers() {
    // bit 0 of the status word against 0: the way the microcode jumps always
    let mut c = machine("");
    assert_eq!(ControlCommand(0x8033).run(&mut c), ExecutionResult::Jumped);
    assert_eq!(c.registers.r_micro_command_counter, 0x33);
    c.registers.r_status = 1;
    assert_eq!(ControlCommand(0x8044).run(&mut c), ExecutionResult::Success);
    assert_eq!(c.registers.r_micro_command_counter, 0x33);
    c.registers.r_data = 0x8000;
    assert_eq!(ControlCommand(0xDF55).run(&mut c), ExecutionResult::Jumped);
    assert_eq!(c.registers.r_micro_command_counter, 0x55);
    c.registers.r_command = 0x0100;
    assert_eq!(ControlCommand(0xE866).run(&mut c), ExecutionResult::Jumped);
    assert_eq!(c.registers.r_micro_command_counter, 0x66);
    assert_eq!(MicroCommand::run(&ControlCommand(0xA877), &mut c), ExecutionResult::Success);
}

#[test]
fn a_halt_stops_and_changes_nothing() {
    for word in [0x4008u16, 0x400F, 0x40FF, 0x4FFF, 0x7FFF] {
        let mut c = machine("");
        c.mc_memory.set(0x20, word);
        c.registers.r_micro_command_counter = 0x20;
        c.registers.r_buffer = 0x1_8000;
        c.registers.r_status = 0x0001;
        c.registers.r_address = 0x0111;
        c.registers.r_data = 0x0222;
        c.registers.r_command = 0x0222;
        c.registers.r_counter = 0x0444;
        c.registers.r_command_counter = 0x0555;
        let mut expected = c.registers;
        let result = c.micro_step();
        assert_eq!(result, ExecutionResult::Halted);
        expected.r_micro_command = word;
        expected.r_micro_command_counter = 0x21;
        assert!(same_registers(&c.registers, &expected));
        assert_eq!(c.io_devices, [IOCell { data: 0, ready: false }; 16]);
        assert_eq!(texts(&c), vec!["Оппа, моя остановочка."]);
        assert!(!c.logs()[0].micro_command);
    }
    let mut c = machine("");
    let before = c.registers;
    assert_eq!(OperationalCommand1(0x4008).run(&mut c), ExecutionResult::Halted);
    assert!(same_registers(&c.registers, &before));
}

#[test]
fn the_accumulator_goes_to_a_device() {
    let mut c = machine("");
    c.registers.r_data = 0x0305;
    c.registers.r_counter = 0x12AB;
    c.registers.set_io(true);
    c.io_devices[5].ready = true;
    c.process_io_command();
    assert_eq!(c.io_devices[5], IOCell { data: 0xAB, ready: true });
    assert!(!c.registers.get_io());
    assert_eq!(c.registers.r_counter, 0x12AB);
    for (i, d) in c.io_devices.iter().enumerate() {
        if i != 5 {
            assert_eq!(*d, IOCell { data: 0, ready: false });
        }
    }
    assert_eq!(
        texts(&c),
        vec![
            "Перенес значение AB из младших разрядов аккамулятора в ВУ номер 5",
            "Сбросил флаг ВВОД-ВВЫОД"
        ]
    );
    assert!(!c.logs()[0].micro_command);
    assert!(c.logs()[1].micro_command);
}

#[test]
fn a_device_goes_to_the_low_byte_of_the_accumulator() {
    let mut c = machine("");
    c.registers.r_data = 0x020F;
    c.registers.r_counter = 0x1234;
    c.registers.set_io(true);
    c.io_devices[15].data = 0x5A;
    c.process_io_command();
    assert_eq!(c.registers.r_counter, 0x125A);
    assert_eq!(c.io_devices[15], IOCell { data: 0x5A, ready: false });
    assert!(!c.registers.get_io());
    assert_eq!(
        texts(&c),
        vec![
            "Перенес значение 5A из  ВУ номер 15 в младшие разряды аккамулятора",
            "Сбросил флаг ВВОД-ВВЫОД"
        ]
    );
}

#[test]
fn a_ready_device_moves_the_command_counter_on() {
    let mut c = machine("");
    c.registers.r_data = 0x0107;
    c.registers.r_command_counter = 0x0010;
    c.io_devices[7].ready = true;
    c.process_io_command();
    assert!(c.registers.get_io_ready());
    assert_eq!(c.registers.r_command_counter, 0x0011);
    assert!(c.io_devices[7].ready);
    assert_eq!(
        texts(&c),
        vec![
            "Опросил ВУ номер 7 на предмет готовности",
            "ВУ номер 7 оказалось готовым. Увеличил СК на единицу",
            "Сбросил флаг ВВОД-ВВЫОД"
        ]
    );
    assert_eq!(c.logs()[1].command_counter, 0x0010);
    assert_eq!(c.logs()[2].command_counter, 0x0011);
}

#[test]
fn the_command_counter_stays_within_eleven_bits() {
    let mut c = machine("");
    c.registers.r_data = 0x0107;
    c.registers.r_command_counter = 0x07FF;
    c.io_devices[7].ready = true;
    c.process_io_command();
    assert_eq!(c.registers.r_command_counter, 0x0000);
}

#[test]
fn a_device_that_is_not_ready_leaves_the_command_counter() {
    let mut c = machine("");
    c.registers.r_data = 0x0107;
    c.registers.r_command_counter = 0x0010;
    c.registers.set_io_ready(true);
    c.process_io_command();
    assert!(!c.registers.get_io_ready());
    assert_eq!(c.registers.r_command_counter, 0x0010);
    assert_eq!(
        texts(&c),
        vec!["Опросил ВУ номер 7 на предмет готовности", "Сбросил флаг ВВОД-ВВЫОД"]
    );
}

#[test]
fn the_ready_flag_of_a_device_is_cleared() {
    let mut c = machine("");
    c.registers.r_data = 0x0009;
    c.io_devices[9] = IOCell { data: 0x77, ready: true };
    c.io_devices[8] = IOCell { data: 0x66, ready: true };
    c.process_io_command();
    assert_eq!(c.io_devices[9], IOCell { data: 0x77, ready: false });
    assert_eq!(c.io_devices[8], IOCell { data: 0x66, ready: true });
    assert_eq!(
        texts(&c),
        vec!["Сбросил флаг готовности ВУ номер 9", "Сбросил флаг ВВОД-ВВЫОД"]
    );
}

#[test]
fn the_sum_of_two_registers_has_seventeen_bits() {
    let mut c = machine("");
    c.registers.r_counter = 0xFFFF;
    c.registers.r_data = 0x0001;
    assert_eq!(OperationalCommand0(0x1100).run(&mut c), ExecutionResult::Success);
    assert_eq!(c.registers.r_buffer, 0x1_0000);
    assert_eq!(
        texts(&c),
        vec!["Произвел операцию БР=А + РД; (FFFF + 0001) и положил в БР"]
    );
    c.registers.r_counter = 0xFFFF;
    c.registers.r_data = 0xFFFF;
    OperationalCommand0(0x1100).run(&mut c);
    assert_eq!(c.registers.r_buffer, 0x1_FFFE);
}

#[test]
fn the_sum_plus_one_wraps_the_left_operand() {
    let mut c = machine("");
    c.registers.r_counter = 0x0001;
    c.registers.r_data = 0x0002;
    OperationalCommand0(0x1110).run(&mut c);
    assert_eq!(c.registers.r_buffer, 0x0004);
    c.registers.r_counter = 0xFFFF;
    c.registers.r_data = 0x0005;
    OperationalCommand0(0x1110).run(&mut c);
    assert_eq!(c.registers.r_buffer, 0x0005);
    assert_eq!(
        texts(&c)[1],
        "Произвел операцию БР=А + РД + 1; (FFFF + 0005 + 1) и положил в БР"
    );
}

#[test]
fn the_bitwise_and() {
    let mut c = machine("");
    c.registers.r_counter = 0xF0F0;
    c.registers.r_data = 0xFF00;
    OperationalCommand0(0x1120).run(&mut c);
    assert_eq!(c.registers.r_buffer, 0xF000);
    assert_eq!(
        texts(&c),
        vec!["Произвел операцию БР=А & РД; (F0F0 & FF00) и положил в БР"]
    );
}

#[test]
fn the_complement_of_no_operand_is_all_ones() {
    let mut c = machine("");
    OperationalCommand0(0x0040).run(&mut c);
    assert_eq!(c.registers.r_buffer, 0xFFFF);
    OperationalCommand0(0x0080).run(&mut c);
    assert_eq!(c.registers.r_buffer, 0xFFFF);
    assert_eq!(
        texts(&c),
        vec![
            "Произвел операцию БР=!0 + 0; (FFFF + 0000) и положил в БР",
            "Произвел операцию БР=0 + !0; (0000 + FFFF) и положил в БР"
        ]
    );
}

#[test]
fn the_complement_of_a_register() {
    let mut c = machine("");
    c.registers.r_counter = 0x00FF;
    c.registers.r_data = 0x0001;
    OperationalCommand0(0x1140).run(&mut c);
    assert_eq!(c.registers.r_buffer, 0xFF00 + 0x0001);
    OperationalCommand0(0x1180).run(&mut c);
    assert_eq!(c.registers.r_buffer, 0x00FF + 0xFFFE);
    assert_eq!(
        texts(&c),
        vec![
            "Инвертировал регистр А(00FF)",
            "Произвел операцию БР=!А + РД; (FF00 + 0001) и положил в БР",
            "Инвертировал регистр РД(0001)",
            "Произвел операцию БР=А + !РД; (00FF + FFFE) и положил в БР"
        ]
    );
}

#[test]
fn the_operands_of_every_selector() {
    let mut c = machine("");
    c.registers.r_counter = 0x0001;
    c.registers.r_status = 0x0002;
    c.registers.r_command = 0x0004;
    c.registers.r_data = 0x0010;
    c.registers.r_command_counter = 0x0040;
    OperationalCommand0(0x1000).run(&mut c);
    assert_eq!(c.registers.r_buffer, 0x0001);
    OperationalCommand0(0x2000).run(&mut c);
    assert_eq!(c.registers.r_buffer, 0x0002);
    OperationalCommand0(0x3000).run(&mut c);
    assert_eq!(c.registers.r_buffer, 0x0004);
    OperationalCommand0(0x0100).run(&mut c);
    assert_eq!(c.registers.r_buffer, 0x0010);
    OperationalCommand0(0x0200).run(&mut c);
    assert_eq!(c.registers.r_buffer, 0x0004);
    OperationalCommand0(0x0300).run(&mut c);
    assert_eq!(c.registers.r_buffer, 0x0040);
    OperationalCommand0(0x3200).run(&mut c);
    assert_eq!(c.registers.r_buffer, 0x0008);
}

#[test]
fn memory_is_written_and_read_at_the_address_register() {
    let mut c = machine("");
    c.registers.r_address = 0x0005;
    c.registers.r_data = 0xBEEF;
    c.registers.r_buffer = 0x1234;
    OperationalCommand0(0x0002).run(&mut c);
    assert_eq!(c.general_memory.get(5), 0xBEEF);
    assert_eq!(c.registers.r_buffer, 0);
    assert_eq!(c.general_memory.values().iter().filter(|v| **v != 0).count(), 1);
    c.registers.r_data = 0;
    OperationalCommand0(0x0001).run(&mut c);
    assert_eq!(c.registers.r_data, 0xBEEF);
    assert_eq!(
        texts(&c),
        vec![
            "Присвоил значение BEEF в ячейку 0005",
            "Произвел операцию БР=0 + 0; (0000 + 0000) и положил в БР",
            "Прочитал значение BEEF из ячейки 0005",
            "Произвел операцию БР=0 + 0; (0000 + 0000) и положил в БР"
        ]
    );
    assert!(!c.logs()[0].micro_command);
    assert!(c.logs()[1].micro_command);
}

#[test]
fn a_read_comes_before_the_sum() {
    let mut c = machine("");
    c.general_memory.set(0x7FF, 0x0042);
    c.registers.r_address = 0x07FF;
    c.registers.r_counter = 0x0001;
    OperationalCommand0(0x1101).run(&mut c);
    assert_eq!(c.registers.r_data, 0x0042);
    assert_eq!(c.registers.r_buffer, 0x0043);
}

#[test]
fn an_address_beyond_memory_is_cut_to_eleven_bits() {
    let mut c = machine("");
    c.registers.r_address = 0xF805;
    c.registers.r_data = 0x0077;
    OperationalCommand0(0x0002).run(&mut c);
    assert_eq!(c.general_memory.get(5), 0x0077);
}

#[test]
fn a_shift_to_the_right() {
    let mut c = machine("");
    c.registers.r_counter = 0x0003;
    c.registers.set_overflow(true);
    c.registers.r_data = 0x1111;
    OperationalCommand0(0x0104).run(&mut c);
    assert_eq!(c.registers.r_buffer, 0x1_8001);
    assert_eq!(c.registers.r_counter, 0x0003);
    assert!(c.registers.get_overflow());
    assert_eq!(
        texts(&c),
        vec![
            "Присвоил регистру БР значение 0001 из сдвинутого вправо регистра А(0003)",
            "Установил 15 бит регистра БР в 1 так как до начала сдвига был установлен флаг C",
            "Установил 16 бит регистра БР в 1 т.к. произошло переполнение"
        ]
    );
    let mut c = machine("");
    c.registers.r_counter = 0x8002;
    OperationalCommand0(0x0004).run(&mut c);
    assert_eq!(c.registers.r_buffer, 0x4001);
}

#[test]
fn a_shift_to_the_left() {
    let mut c = machine("");
    c.registers.r_counter = 0x8001;
    c.registers.set_overflow(true);
    OperationalCommand0(0x0008).run(&mut c);
    assert_eq!(c.registers.r_buffer, 0x1_0003);
    assert_eq!(
        texts(&c),
        vec![
            "Присвоил регистру БР значение 10002 из сдвинутого влево регистра А(8001)",
            "Установил 0 бит регистра БР в 1 так как до начала сдвига был установлен флаг C"
        ]
    );
    let mut c = machine("");
    c.registers.r_counter = 0x4000;
    OperationalCommand0(0x0008).run(&mut c);
    assert_eq!(c.registers.r_buffer, 0x8000);
}

#[test]
fn a_shift_leaves_out_memory_and_arithmetic() {
    let mut c = machine("");
    c.registers.r_address = 0x0005;
    c.registers.r_data = 0xBEEF;
    c.registers.r_counter = 0x0002;
    OperationalCommand0(0x1106).run(&mut c);
    assert_eq!(c.general_memory.get(5), 0);
    assert_eq!(c.registers.r_buffer, 0x0001);
}

#[test]
fn both_shift_bits_are_no_shift() {
    let mut c = machine("");
    c.registers.r_counter = 0x0002;
    OperationalCommand0(0x100C).run(&mut c);
    assert_eq!(c.registers.r_buffer, 0x0002);
}

#[test]
fn the_carry_is_taken_from_the_buffer_register() {
    let mut c = machine("");
    c.registers.r_buffer = 0x1_0005;
    assert_eq!(OperationalCommand1(0x4040).run(&mut c), ExecutionResult::Success);
    assert_eq!(c.registers.r_buffer, 0x0005);
    assert!(c.registers.get_overflow());
    OperationalCommand1(0x4040).run(&mut c);
    assert_eq!(c.registers.r_buffer, 0x0005);
    assert!(!c.registers.get_overflow());
    assert_eq!(
        texts(&c),
        vec!["Установил флаг переноса и убрал лишнюю единицу у БР", "Сбросил флаг переноса"]
    );
}

#[test]
fn the_carry_is_cleared_and_set() {
    let mut c = machine("");
    c.registers.r_buffer = 0x1_0005;
    OperationalCommand1(0x40C0).run(&mut c);
    assert!(c.registers.get_overflow());
    assert_eq!(c.registers.r_buffer, 0x1_0005);
    OperationalCommand1(0x4080).run(&mut c);
    assert!(!c.registers.get_overflow());
    OperationalCommand1(0x4000).run(&mut c);
    assert!(!c.registers.get_overflow());
    assert_eq!(texts(&c), vec!["Установил флаг переноса", "Сбросил флаг переноса"]);
}

#[test]
fn zero_and_negative_come_from_the_low_sixteen_bits() {
    let mut c = machine("");
    c.registers.r_buffer = 0;
    OperationalCommand1(0x4030).run(&mut c);
    assert!(c.registers.get_null());
    assert!(!c.registers.get_negative());
    c.registers.r_buffer = 0x8000;
    OperationalCommand1(0x4030).run(&mut c);
    assert!(!c.registers.get_null());
    assert!(c.registers.get_negative());
    c.registers.r_buffer = 0x1_0000;
    OperationalCommand1(0x4030).run(&mut c);
    assert!(c.registers.get_null());
    assert!(!c.registers.get_negative());
    c.registers.r_buffer = 0x0001;
    OperationalCommand1(0x4010).run(&mut c);
    assert!(!c.registers.get_null());
    c.registers.r_buffer = 0xFFFF;
    OperationalCommand1(0x4020).run(&mut c);
    assert!(c.registers.get_negative());
    assert!(!c.registers.get_null());
    assert_eq!(
        texts(&c)[0..4],
        [
            "Установил флаг \"нуль\"",
            "Убрал флаг \"знак\"",
            "Убрал флаг \"нуль\"",
            "Установил флаг \"знак\""
        ]
    );
}

#[test]
fn the_buffer_register_is_written_back() {
    let mut c = machine("");
    c.registers.r_buffer = 0x1_FFFF;
    OperationalCommand1(0x4001).run(&mut c);
    assert_eq!(c.registers.r_address, 0x07FF);
    OperationalCommand1(0x4002).run(&mut c);
    assert_eq!(c.registers.r_data, 0xFFFF);
    OperationalCommand1(0x4003).run(&mut c);
    assert_eq!(c.registers.r_command, 0xFFFF);
    OperationalCommand1(0x4004).run(&mut c);
    assert_eq!(c.registers.r_command_counter, 0x07FF);
    OperationalCommand1(0x4005).run(&mut c);
    assert_eq!(c.registers.r_counter, 0xFFFF);
    assert_eq!(c.registers.r_buffer, 0x1_FFFF);
    assert_eq!(
        texts(&c),
        vec![
            "Перенес значение 1FFFF из регистра БР в регистр РА",
            "Перенес значение 1FFFF из регистра БР в регистр РД",
            "Перенес значение 1FFFF из регистра БР в регистр РК",
            "Перенес значение 1FFFF из регистра БР в регистр СК",
            "Перенес значение 1FFFF из регистра БР в регистр А"
        ]
    );
    let flags: Vec<bool> = c.logs().iter().map(|e| e.micro_command).collect();
    assert_eq!(flags, vec![true, true, true, false, false]);
}

#[test]
fn all_four_registers_are_written_back() {
    let mut c = machine("");
    c.registers.r_buffer = 0x0ABC;
    c.registers.r_command_counter = 0x0011;
    OperationalCommand1(0x4007).run(&mut c);
    assert_eq!(c.registers.r_address, 0x02BC);
    assert_eq!(c.registers.r_data, 0x0ABC);
    assert_eq!(c.registers.r_command, 0x0ABC);
    assert_eq!(c.registers.r_counter, 0x0ABC);
    assert_eq!(c.registers.r_command_counter, 0x0011);
    assert_eq!(c.logs().len(), 4);
}

#[test]
fn the_reserved_code_writes_nothing_back() {
    let mut c = machine("");
    c.registers.r_buffer = 0x0ABC;
    let before = c.registers;
    OperationalCommand1(0x4006).run(&mut c);
    assert!(same_registers(&c.registers, &before));
    OperationalCommand1(0x4000).run(&mut c);
    assert!(same_registers(&c.registers, &before));
    assert!(c.logs().is_empty());
}

#[test]
fn carry_flags_and_write_back_in_one_word() {
    let mut c = machine("");
    c.registers.r_buffer = 0x1_8000;
    OperationalCommand1(0x4075).run(&mut c);
    assert!(c.registers.get_overflow());
    assert!(!c.registers.get_null());
    assert!(c.registers.get_negative());
    assert_eq!(c.registers.r_counter, 0x8000);
    assert_eq!(c.registers.r_buffer, 0x8000);
}

#[test]
fn a_connection_is_made_when_data_and_command_agree() {
    let mut c = machine("");
    c.registers.r_data = 0x0305;
    c.registers.r_command = 0x0305;
    c.registers.r_counter = 0x00CD;
    c.registers.r_buffer = 0x1_0000;
    assert_eq!(OperationalCommand1(0x4175).run(&mut c), ExecutionResult::Success);
    assert_eq!(c.io_devices[5].data, 0xCD);
    assert!(!c.registers.get_io());
    // a request to the devices leaves out flags and write-back
    assert_eq!(c.registers.r_buffer, 0x1_0000);
    assert!(!c.registers.get_overflow());
    assert_eq!(
        texts(&c),
        vec![
            "Установил флаг ВВОД-ВВЫОД и передал управление модулю взаимодействия с ВУ",
            "Перенес значение CD из младших разрядов аккамулятора в ВУ номер 5",
            "Сбросил флаг ВВОД-ВВЫОД"
        ]
    );
}

#[test]
fn a_connection_is_dropped_when_data_and_command_differ() {
    let mut c = machine("");
    c.registers.r_data = 0x0305;
    c.registers.r_command = 0x0306;
    c.registers.r_counter = 0x00CD;
    OperationalCommand1(0x4100).run(&mut c);
    assert_eq!(c.io_devices[5].data, 0);
    assert_eq!(
        texts(&c),
        vec!["Было запрошено взаимодействие с ВУ но РД не равен РК. Запрос проигнорирован."]
    );
}

#[test]
fn interrupts_are_allowed_and_forbidden() {
    let mut c = machine("");
    OperationalCommand1(0x4800).run(&mut c);
    assert!(c.registers.get_allow_interupt());
    c.registers.set_interrupt(true);
    OperationalCommand1(0x4400).run(&mut c);
    assert!(!c.registers.get_allow_interupt());
    assert!(!c.registers.get_interupt());
    OperationalCommand1(0x4C00).run(&mut c);
    assert!(c.registers.get_allow_interupt());
    assert_eq!(
        texts(&c),
        vec![
            "Разрешил прерывания",
            "Запретил прерывания",
            "Запретил прерывания",
            "Разрешил прерывания"
        ]
    );
}

#[test]
fn the_ready_flags_of_all_devices_are_cleared() {
    let mut c = machine("");
    for i in 0..16 {
        c.io_devices[i] = IOCell { data: i as u8, ready: i % 2 == 0 };
    }
    OperationalCommand1(0x4200).run(&mut c);
    for i in 0..16 {
        assert_eq!(c.io_devices[i], IOCell { data: i as u8, ready: false });
    }
    assert_eq!(texts(&c), vec!["Сбросил флаги готовности ВУ"]);
}

#[test]
fn the_log_keeps_the_newest_entries() {
    let mut c = machine("");
    for i in 0..150u32 {
        c.registers.r_command_counter = i as u16;
        c.log(i % 2 == 0, format!("{}", i));
    }
    assert_eq!(c.logs().len(), 101);
    assert_eq!(c.logs()[0].info, "49");
    assert_eq!(c.logs()[0].command_counter, 49);
    assert!(!c.logs()[0].micro_command);
    assert_eq!(c.logs()[100].info, "149");
    c.clear_logs();
    assert!(c.logs().is_empty());
    c.log(true, String::from("again"));
    assert_eq!(texts(&c), vec!["again"]);
}

#[test]
fn a_step_records_the_word_it_runs() {
    let mut c = machine("00 4005\n01 1100\n");
    c.registers.r_buffer = 0x0007;
    assert_eq!(c.micro_step(), ExecutionResult::Success);
    assert_eq!(c.registers.r_micro_command, 0x4005);
    assert_eq!(c.registers.r_counter, 0x0007);
    assert_eq!(c.registers.r_micro_command_counter, 1);
    c.registers.r_data = 0x0001;
    assert_eq!(c.micro_step(), ExecutionResult::Success);
    assert_eq!(c.registers.r_micro_command, 0x1100);
    assert_eq!(c.registers.r_buffer, 0x0008);
    assert_eq!(c.registers.r_micro_command_counter, 2);
}

#[test]
fn the_same_state_gives_the_same_run() {
    let boot = "00 1110\n01 4075\n02 F205\n05 4008\n";
    let mut a = machine(boot);
    let mut b = machine(boot);
    a.registers.r_counter = 0x7FFF;
    b.registers.r_counter = 0x7FFF;
    a.registers.r_data = 0x0001;
    b.registers.r_data = 0x0001;
    loop {
        let ra = a.micro_step();
        let rb = b.micro_step();
        assert_eq!(ra, rb);
        assert!(same_registers(&a.registers, &b.registers));
        if ra == ExecutionResult::Halted {
            break;
        }
    }
    assert_eq!(texts(&a), texts(&b));
    assert_eq!(a.registers.r_counter, 0x8001);
    assert!(a.registers.get_negative());
    assert_eq!(a.registers.r_micro_command_counter, 0x06);
}

#[test]
fn a_cell_keeps_its_value() {
    let mut c = machine("");
    c.general_memory.set(3, 0x1234);
    assert_eq!(c.general_memory.get(3), 0x1234);
    assert_eq!(c.general_memory.cell(3).get(), 0x1234);
    assert!(c.general_memory.cell(3).name.is_none());
    c.general_memory.clear();
    assert_eq!(c.general_memory.get(3), 0);
    let mut cell = bevm::model::MemoryCell::new();
    assert_eq!(cell.get(), 0);
    cell.set(0xFFFF);
    assert_eq!(cell.get(), 0xFFFF);
    assert!(cell.mnemonic.is_none());
    assert_eq!(Computer::mem(3).len(), 3);
}

#[test]
fn the_first_operational_class_runs_through_the_trait() {
    let mut c = machine("");
    c.registers.r_counter = 2;
    assert_eq!(MicroCommand::run(&OperationalCommand0(0x1000), &mut c), ExecutionResult::Success);
    assert_eq!(c.registers.r_buffer, 2);
    assert_eq!(MicroCommand::run(&OperationalCommand1(0x4002), &mut c), ExecutionResult::Success);
    assert_eq!(c.registers.r_data, 2);
    assert_eq!(Register::Data.get(&c), 2);
}
