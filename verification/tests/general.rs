use bevm::parse::general::{GeneralCommand, GeneralParser};
use bevm::parse::{CommandInfo, Parser};

#[test]
fn test() {
    let parser = GeneralParser::new();

    assert_eq!(parser.parse(0xF700).mnemonic(), "ROR");
    assert_eq!(parser.parse(0x3024).mnemonic(), "MOV 024");
}

#[test]
fn the_first_mask_that_a_word_covers_wins() {
    let parser = GeneralParser::new();
    assert_eq!(parser.parse(0xF7FF).mnemonic(), "ROR");
    assert_eq!(parser.parse(0xFFFF).mnemonic(), "ROR");
    assert_eq!(parser.parse(0xFC00).mnemonic(), "CMA");
    assert_eq!(parser.parse(0xF000).mnemonic(), "HLT");
    assert_eq!(parser.parse(0xF100).mnemonic(), "NOP");
    assert_eq!(parser.parse(0x7024).mnemonic(), "MOV 024");
    assert_eq!(parser.parse(0xD123).mnemonic(), "ADC 123");
    assert_eq!(parser.parse(0x0000).mnemonic(), "ISZ 000");
    assert_eq!(parser.parse(0x0FFF).mnemonic(), "ISZ (7FF)");
    assert_eq!(parser.parse(0x3824).mnemonic(), "MOV (024)");
    assert_eq!(parser.parse(0xC006).mnemonic(), "BR 006");
}

#[test]
fn a_device_instruction_shows_the_four_bits_of_its_device() {
    let parser = GeneralParser::new();
    assert_eq!(parser.parse(0xE305).mnemonic(), "OUT 005");
    assert_eq!(parser.parse(0xE10F).mnemonic(), "TSF 00F");
    assert_eq!(parser.parse(0xE200).mnemonic(), "IN 000");
    assert_eq!(parser.parse(0xE001).mnemonic(), "CLF 001");
    assert_eq!(parser.parse(0xEB05).mnemonic(), "OUT (005)");
    assert_eq!(parser.parse(0xE3F5).mnemonic(), "OUT 005");
}

#[test]
fn the_file_text_of_an_instruction_is_its_mnemonic() {
    let parser = GeneralParser::new();
    assert_eq!(parser.parse(0x3024).file_string(), "MOV 024");
    assert_eq!(parser.parse(0xF200).file_string(), "CLA");
}

#[test]
fn mnemonics_are_encoded() {
    let parser = GeneralParser::new();
    assert!(parser.supports_rev_parse());
    assert_eq!(parser.rev_parse("ROR"), Ok(0xF700));
    assert_eq!(parser.rev_parse("HLT "), Ok(0xF000));
    assert_eq!(parser.rev_parse("MOV 024"), Ok(0x3024));
    assert_eq!(parser.rev_parse("MOV 24"), Ok(0x3024));
    assert_eq!(parser.rev_parse("MOV (024)"), Ok(0x3824));
    assert_eq!(parser.rev_parse("MOV 7ff"), Ok(0x37FF));
    assert_eq!(parser.rev_parse("MOV +7F"), Ok(0x307F));
    assert_eq!(parser.rev_parse("MOV 0"), Ok(0x3000));
    assert_eq!(parser.rev_parse("BR 6"), Ok(0xC006));
    assert_eq!(parser.rev_parse("ISZ 2"), Ok(0x0002));
    assert_eq!(parser.rev_parse("OUT 5"), Ok(0xE305));
    assert_eq!(parser.rev_parse("OUT F"), Ok(0xE30F));
    assert_eq!(parser.rev_parse("IN (3)"), Ok(0xEA03));
    assert_eq!(parser.rev_parse("MOV 5 "), Ok(0x3005));
    assert_eq!(parser.rev_parse("MOV 00000007"), Ok(0x3007));
}

#[test]
fn a_mnemonic_is_split_at_its_white_space() {
    let parser = GeneralParser::new();
    assert_eq!(parser.rev_parse(" MOV 1"), Ok(0x3001));
    assert_eq!(parser.rev_parse("MOV  5"), Ok(0x3005));
    assert_eq!(parser.rev_parse("MOV\t5"), Ok(0x3005));
    assert_eq!(parser.rev_parse("\tMOV \u{A0} (5)\r\n"), Ok(0x3805));
    assert_eq!(parser.rev_parse("ROR\t"), Ok(0xF700));
    assert_eq!(parser.rev_parse("  HLT  "), Ok(0xF000));
}

#[test]
fn an_empty_mnemonic_is_refused() {
    let parser = GeneralParser::new();
    assert_eq!(error(&parser, ""), "Пустая строка получается");
    assert_eq!(error(&parser, " \t "), "Пустая строка получается");
}

fn error(parser: &GeneralParser, text: &str) -> String {
    parser.rev_parse(text).unwrap_err()
}

#[test]
fn an_unknown_mnemonic_is_refused() {
    let parser = GeneralParser::new();
    assert_eq!(error(&parser, "XYZ 1"), "Неизвестная мнемоника XYZ");
    assert_eq!(error(&parser, "XYZ"), "Неизвестная мнемоника XYZ");
    assert_eq!(error(&parser, "mov 1"), "Неизвестная мнемоника mov");
    assert_eq!(error(&parser, "MOV(5)"), "Неизвестная мнемоника MOV(5)");
}

#[test]
fn a_missing_operand_is_refused() {
    let parser = GeneralParser::new();
    assert_eq!(error(&parser, "MOV"), "Ожидалось два параметра");
    assert_eq!(error(&parser, "OUT "), "Ожидалось два параметра");
}

#[test]
fn an_extra_operand_is_refused() {
    let parser = GeneralParser::new();
    assert_eq!(error(&parser, "MOV 1 2"), "Неожиданные штуки: 2");
    assert_eq!(error(&parser, "MOV 1 2 3"), "Неожиданные штуки: 2 3");
    assert_eq!(error(&parser, "MOV 1   2"), "Неожиданные штуки: 2");
    assert_eq!(error(&parser, "ROR 5"), "Неожиданные штуки: 5");
    assert_eq!(error(&parser, "HLT now or never"), "Неожиданные штуки: now or never");
}

#[test]
fn an_open_bracket_is_refused() {
    let parser = GeneralParser::new();
    assert_eq!(error(&parser, "MOV (12"), "Не закрытая скобка");
    assert_eq!(error(&parser, "MOV ("), "Не закрытая скобка");
    assert_eq!(error(&parser, "MOV (1 2)"), "Неожиданные штуки: 2)");
    assert_eq!(error(&parser, "MOV (ы"), "Не закрытая скобка");
}

#[test]
fn an_operand_out_of_range_is_refused() {
    let parser = GeneralParser::new();
    assert_eq!(error(&parser, "MOV 800"), "Максимально адресуема память 0x7FF");
    assert_eq!(error(&parser, "BR (FFFF)"), "Максимально адресуема память 0x7FF");
    assert_eq!(error(&parser, "OUT 10"), "Максимально адресуемое ВУ 0xF");
    assert_eq!(parser.rev_parse("MOV 7FF"), Ok(0x37FF));
}

#[test]
fn an_operand_that_is_no_number_is_refused() {
    let parser = GeneralParser::new();
    assert_eq!(error(&parser, "MOV zz"), "Ошибка во время парсинга числа zz");
    assert_eq!(error(&parser, "MOV ()"), "Ошибка во время парсинга числа ()");
    assert_eq!(error(&parser, "MOV 10000"), "Ошибка во время парсинга числа 10000");
    assert_eq!(error(&parser, "MOV 12)"), "Ошибка во время парсинга числа 12)");
}

fn canonical(parser: &GeneralParser, opcode: u16) -> u16 {
    match parser.parse(opcode).info {
        GeneralCommand::Simple(c) => c.mask,
        GeneralCommand::Address(c) => {
            if c.io {
                c.mask | (opcode & 0x080F)
            } else {
                c.mask | (opcode & 0x0FFF)
            }
        }
    }
}

#[test]
fn the_mnemonic_of_every_word_encodes_to_its_canonical_form() {
    let parser = GeneralParser::new();
    for opcode in 0..=0xFFFFu16 {
        let mnemonic = parser.parse(opcode).mnemonic();
        let expected = canonical(&parser, opcode);
        assert_eq!(parser.rev_parse(&mnemonic), Ok(expected), "word {:04X}", opcode);
        assert_eq!(parser.parse(expected).mnemonic(), mnemonic, "word {:04X}", opcode);
        assert_eq!(canonical(&parser, expected), expected, "word {:04X}", opcode);
    }
}

#[test]
fn a_canonical_word_comes_back_from_its_mnemonic() {
    let parser = GeneralParser::new();
    for opcode in [0xF700u16, 0xF000, 0x3024, 0x3824, 0xE305, 0xE80F, 0x0000, 0xC7FF, 0xBFFF] {
        let mnemonic = parser.parse(opcode).mnemonic();
        assert_eq!(parser.rev_parse(&mnemonic), Ok(opcode));
    }
    let mut canonical_words = 0;
    for opcode in 0..=0xFFFFu16 {
        if canonical(&parser, opcode) == opcode {
            canonical_words += 1;
        }
    }
    assert_eq!(canonical_words, 12 + 4 * 32 + 12 * 4096);
}

#[test]
fn the_table_has_its_order() {
    let parser = GeneralParser::new();
    assert_eq!(parser.len(), 28);
    assert_eq!(parser.command(0).mnemonic(), "ROR");
    assert_eq!(parser.command(0).mask(), 0xF700);
    assert_eq!(parser.command(11).mnemonic(), "OUT");
    assert_eq!(parser.command(12).mnemonic(), "HLT");
    assert_eq!(parser.command(27).mnemonic(), "ISZ");
    assert_eq!(parser.command(27).mask(), 0x0000);
    assert_eq!(parser.command(1).description(), "Запрещает прерывания");
}

#[test]
fn an_instruction_is_explained_line_by_line() {
    let parser = GeneralParser::new();
    let lines = parser.parse(0xF700).highlight();
    assert_eq!(lines.len(), 4);
    assert_eq!(lines[0], "Тип: Безадресная команда");
    assert_eq!(lines[1], "Мнемоника: ROR");
    assert_eq!(lines[2], "Маска: F700");
    assert!(lines[3].starts_with("Описание: Сдвигает биты в регистре А вправо."));

    let lines = parser.parse(0xF7FF).highlight();
    assert_eq!(lines.len(), 5);
    assert_eq!(
        lines[4],
        "Примечание: опкод F7FF был посчитан командой ROR так как бинарное и между опкодом F7FF и маской команды F700 выдало значение равное той же маске F700. Таким образом мы просто полностью игнорируем тот факт, что опкод не равен маске."
    );

    let lines = parser.parse(0x3824).highlight();
    assert_eq!(
        lines,
        vec![
            "Тип: Адресная команда",
            "Мнемоника: MOV (024)",
            "Маска: 3000",
            "X: значение в ячейке 024",
            "Описание: Присваивает ячейке по адресу X значение из регистра А",
        ]
    );

    let lines = parser.parse(0xEB05).highlight();
    assert_eq!(
        lines,
        vec![
            "Тип: Команда ввода-вывода",
            "Мнемоника: OUT (005)",
            "Маска: E300",
            "X: 005",
            "Описание: Присваивает указаному ВУ значение из регистра А",
        ]
    );

    let lines = parser.parse(0x0002).highlight();
    assert_eq!(lines[2], "Маска: 0");
    assert_eq!(lines[3], "X: 002");
}
