use bevm::model::{BootImage, Computer};
use bevm::parse::file::{parse_bpc, parse_file, parse_line, DataLine};
use bevm::parse::general::GeneralParser;
use bevm::parse::mc::McParser;

#[test]
fn parse() {
    let res = parse_line("58: Huy $ded#de#abc");
    assert_eq!(res, Some(DataLine::Command("58: Huy", Some("ded"))));
}

#[test]
fn parse_program_line_by_line() {
    let test_cases = [
        ("$pos 10", Some(DataLine::Operator("pos", "10"))),
        ("CLA $start", Some(DataLine::Command("CLA", Some("start")))),
        ("BMI %then", Some(DataLine::Command("BMI %then", None))),
        ("BR %start", Some(DataLine::Command("BR %start", None))),
        ("$pos 15", Some(DataLine::Operator("pos", "15"))),
        (
            "ISZ 2 $then",
            Some(DataLine::Command("ISZ 2", Some("then"))),
        ),
        ("BR %start", Some(DataLine::Command("BR %start", None))),
    ];

    for (input, expected) in test_cases {
        assert_eq!(parse_line(input), expected);
    }
}

#[test]
fn lines_that_say_nothing() {
    assert_eq!(parse_line(""), None);
    assert_eq!(parse_line("   "), None);
    assert_eq!(parse_line("# a comment"), None);
    assert_eq!(parse_line("  \t# a comment $pos 5"), None);
    assert_eq!(parse_line("$"), None);
    assert_eq!(parse_line("$pos"), None);
    assert_eq!(parse_line("$pos # 5"), None);
}

#[test]
fn the_parts_of_a_line() {
    assert_eq!(parse_line("  $pos   1F  rest "), Some(DataLine::Operator("pos", "1F")));
    assert_eq!(parse_line("$ pos 5"), Some(DataLine::Operator("pos", "5")));
    assert_eq!(parse_line("$pos\t5#c"), Some(DataLine::Operator("pos", "5")));
    assert_eq!(parse_line("HLT"), Some(DataLine::Command("HLT", None)));
    assert_eq!(parse_line(" MOV 5 $ a $ b "), Some(DataLine::Command("MOV 5", Some("a"))));
    assert_eq!(parse_line("CLA $"), Some(DataLine::Command("CLA", Some(""))));
    assert_eq!(parse_line("CLA $x # $y"), Some(DataLine::Command("CLA", Some("x"))));
    assert_eq!(parse_line("Б $ы"), Some(DataLine::Command("Б", Some("ы"))));
}

fn general(text: &str, max_size: u16) -> Result<Vec<(u16, u16)>, String> {
    parse_file(text, &GeneralParser::new(), max_size)
}

#[test]
fn a_program_with_a_label() {
    // a name stands for the address of its own line
    assert_eq!(
        general("$pos 5\nISZ 2 $then\nBR %then\n", 0x7FF),
        Ok(vec![(5, 0x0002), (6, 0xC005)])
    );
    assert_eq!(
        general("$pos 5\nISZ 2\nBR %then $then\n", 0x7FF),
        Ok(vec![(5, 0x0002), (6, 0xC006)])
    );
}

#[test]
fn a_label_may_be_used_before_it_is_given() {
    assert_eq!(
        general("BR %end\nCLA\n$pos 1F\nHLT $end\n", 0x7FF),
        Ok(vec![(0, 0xC01F), (1, 0xF200), (0x1F, 0xF000)])
    );
}

#[test]
fn a_command_may_be_a_number() {
    assert_eq!(general("F200\n1234\nffff", 0x7FF), Ok(vec![(0, 0xF200), (1, 0x1234), (2, 0xFFFF)]));
}

#[test]
fn comments_blank_lines_and_carriage_returns() {
    assert_eq!(
        general("# start\r\n\r\n  CLA  # clear\r\n   \r\nHLT\r\n", 0x7FF),
        Ok(vec![(0, 0xF200), (1, 0xF000)])
    );
    assert_eq!(general("", 0x7FF), Ok(vec![]));
}

#[test]
fn labels_are_replaced_wherever_they_stand() {
    assert_eq!(
        general("MOV (%cell)\n$pos A\nISZ %cell $cell\n", 0x7FF),
        Ok(vec![(0, 0x380A), (0xA, 0x000A)])
    );
    // the later of two lines with one name counts
    assert_eq!(
        general("CLA $x\nCLA $x\nBR %x\n", 0x7FF),
        Ok(vec![(0, 0xF200), (1, 0xF200), (2, 0xC001)])
    );
}

#[test]
fn microcode_is_loaded_as_numbers() {
    assert_eq!(
        parse_file("$pos 10\n4008\n8010 $loop\n80%loop\n", &McParser::new(), 0xFF),
        Ok(vec![(0x10, 0x4008), (0x11, 0x8010), (0x12, 0x8011)])
    );
}

#[test]
fn an_unknown_operator_is_an_error() {
    assert_eq!(
        general("CLA\n$org 5\n", 0x7FF),
        Err(String::from(
            "Ошибка в строке $org 5. Номер строки: 2. Сообщение: Неизвестный оператор org"
        ))
    );
}

#[test]
fn a_position_that_is_no_number_is_an_error() {
    assert_eq!(
        general("$pos 5g # where\n", 0x7FF),
        Err(String::from(
            "Ошибка в строке $pos 5g # where. Номер строки: 1. Сообщение: Не могу распарсить число 5g"
        ))
    );
}

#[test]
fn a_position_behind_the_cursor_is_an_error() {
    assert_eq!(
        general("$pos 1F\nCLA\n$pos 1F\n", 0x7FF),
        Err(String::from(
            "Ошибка в строке $pos 1F. Номер строки: 3. Сообщение: Явно указанная позиция курсора меньше текущей позиции курсора. Текущая 20. Укзаная 1F."
        ))
    );
    assert_eq!(general("$pos 1F\n$pos 1F\nCLA\n", 0x7FF), Ok(vec![(0x1F, 0xF200)]));
}

#[test]
fn a_position_beyond_the_limit_is_an_error() {
    assert_eq!(
        general("$pos 800\n", 0x7FF),
        Err(String::from(
            "Ошибка в строке $pos 800. Номер строки: 1. Сообщение: Явно указанная позиция курсора больше максимально допустимой. Максимальная 7FF. Укзаная 800."
        ))
    );
    assert_eq!(general("$pos 7FF\n", 0x7FF), Ok(vec![]));
}

#[test]
fn a_command_beyond_the_limit_is_an_error() {
    assert_eq!(
        general("$pos 7FF\nCLA\n", 0x7FF),
        Err(String::from(
            "Ошибка в строке CLA. Номер строки: 2. Сообщение: Превышена максимальная позиция. Максимальная 7FF."
        ))
    );
    assert_eq!(general("$pos 7FE\nCLA\n", 0x7FF), Ok(vec![(0x7FE, 0xF200)]));
    assert_eq!(
        general("CLA\n", 0),
        Err(String::from(
            "Ошибка в строке CLA. Номер строки: 1. Сообщение: Превышена максимальная позиция. Максимальная 0."
        ))
    );
    assert_eq!(
        parse_file("$pos FFFF\n0\n", &McParser::new(), 0xFFFF),
        Err(String::from(
            "Ошибка в строке 0. Номер строки: 2. Сообщение: Превышена максимальная позиция. Максимальная FFFF."
        ))
    );
}

#[test]
fn a_name_that_no_line_gives_is_an_error() {
    assert_eq!(
        general("CLA\nBR %nowhere\n", 0x7FF),
        Err(String::from("Ошибка в строке 2. Не могу найти переменную nowhere."))
    );
    assert_eq!(
        general("BR %%a\nCLA $a\n", 0x7FF),
        Err(String::from("Ошибка в строке 1. Не могу найти переменную ."))
    );
}

#[test]
fn a_command_that_cannot_be_encoded_is_an_error() {
    assert_eq!(
        general("CLA\nMOV 800\n", 0x7FF),
        Err(String::from("Ошибка в строке 2(MOV 800): Максимально адресуема память 0x7FF"))
    );
    assert_eq!(
        general("JMP 5\n", 0x7FF),
        Err(String::from("Ошибка в строке 1(JMP 5): Неизвестная мнемоника JMP"))
    );
    assert_eq!(
        parse_file("CLA\n", &McParser::new(), 0xFF),
        Err(String::from("Ошибка в строке 1(CLA): Не могу распарсить число."))
    );
}

#[test]
fn the_layout_is_checked_before_any_command_is_encoded() {
    assert_eq!(
        general("JMP 5\n$org 1\n", 0x7FF),
        Err(String::from(
            "Ошибка в строке $org 1. Номер строки: 2. Сообщение: Неизвестный оператор org"
        ))
    );
}

#[test]
fn lines_beyond_the_limit_of_lines_are_not_read() {
    let mut text = String::new();
    for _ in 0..65540 {
        text.push_str("0\n");
    }
    let image = parse_file(&text, &McParser::new(), 0xFFFF).unwrap();
    assert_eq!(image.len(), 65535);
    assert_eq!(image[65534], (65534, 0));
}

#[test]
fn every_address_of_a_program_is_below_the_limit() {
    let image = general("$pos 7F0\nCLA\nCLA\nCLA\n", 0x7FF).unwrap();
    assert!(image.iter().all(|(address, _)| *address < 0x7FF));
}

#[test]
fn a_program_is_applied_to_a_bank() {
    let mut c = Computer::new(BootImage::parse("").unwrap());
    c.general_memory.set(0x700, 0x1111);
    let image = general("$pos 5\nISZ 2 $then\nBR %then\n", 0x7FF).unwrap();
    assert!(c.general_memory.apply(&image));
    assert_eq!(c.general_memory.get(5), 0x0002);
    assert_eq!(c.general_memory.get(6), 0xC005);
    assert_eq!(c.general_memory.get(0x700), 0);
    assert_eq!(c.general_memory.values().iter().filter(|v| **v != 0).count(), 2);
}

#[test]
fn a_program_that_does_not_fit_changes_nothing() {
    let mut c = Computer::new(BootImage::parse("").unwrap());
    c.mc_memory.set(0x10, 0x1111);
    assert!(!c.mc_memory.apply(&vec![(0x00, 0x4008), (0x100, 0x4008)]));
    assert_eq!(c.mc_memory.get(0x10), 0x1111);
    assert_eq!(c.mc_memory.get(0x00), 0);
}

#[test]
fn a_bank_is_written_out_as_a_program() {
    let mut c = Computer::new(BootImage::parse("10 4008\n11 8010\n20 0001\n").unwrap());
    assert_eq!(c.mc_memory.dump(), "$pos 10\n4008\n8010\n$pos 20\n0001\n");
    assert_eq!(c.general_memory.dump(), "");
    c.general_memory.set(0, 0xF200);
    c.general_memory.set(5, 0x0002);
    c.general_memory.set(6, 0xC006);
    c.general_memory.set(0x7FF, 0xE305);
    let text = c.general_memory.dump();
    assert_eq!(text, "$pos 0\nCLA\n$pos 5\nISZ 002\nBR 006\n$pos 7FF\nOUT 005\n");
    assert_eq!(
        parse_file(&text, &GeneralParser::new(), 0x800),
        Ok(vec![(0, 0xF200), (5, 0x0002), (6, 0xC006), (0x7FF, 0xE305)])
    );
    assert_eq!(
        parse_file(&c.mc_memory.dump(), &McParser::new(), 0x100),
        Ok(vec![(0x10, 0x4008), (0x11, 0x8010), (0x20, 0x0001)])
    );
}

#[test]
fn cards_are_read() {
    let program = parse_bpc("010 +F200\n011 -F000\r\n012 0001\n7ff +1\n").unwrap();
    assert_eq!(program.image, vec![(0x10, 0xF200), (0x11, 0xF000), (0x12, 0x0001), (0x7FF, 1)]);
    assert_eq!(program.start, Some(0x7FF));
    let program = parse_bpc("010 -F200\n").unwrap();
    assert_eq!(program.start, None);
    let program = parse_bpc("").unwrap();
    assert!(program.image.is_empty());
    assert_eq!(program.start, None);
    let program = parse_bpc("10 x12 and more").unwrap();
    assert_eq!(program.image, vec![(0x10, 0x12)]);
}

#[test]
fn a_card_that_cannot_be_read_is_an_error() {
    assert_eq!(
        parse_bpc("010 +F200\n011\n").unwrap_err(),
        "Неверный формат(011) на строчке 2"
    );
    assert_eq!(
        parse_bpc("zz +1\n").unwrap_err(),
        "Не могу распарсить позицию zz на строчке 1"
    );
    assert_eq!(
        parse_bpc("10 -zz\n").unwrap_err(),
        "Не могу распарсить команду zz на строчке 1"
    );
    assert_eq!(
        parse_bpc("10 +zz\n").unwrap_err(),
        "Не могу распарсить команду +zz на строчке 1"
    );
    assert_eq!(parse_bpc("10 \n").unwrap_err(), "Не могу распарсить команду  на строчке 1");
    assert_eq!(parse_bpc("\n").unwrap_err(), "Неверный формат() на строчке 1");
}
