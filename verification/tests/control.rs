use bevm::control::{ControlPanel, HISTORY_MAX_SIZE, START_ADDRESS, STEPS_PER_TICK};
use bevm::model::{BootImage, Computer, IOCell};
use bevm::parse::file::parse_bpc;
use bevm::parse::mc::ExecutionResult;
use bevm::trace::{csv_text, general_tracing, html_text, latex_text, mc_tracing, Tracing};

fn machine(boot: &str) -> Computer {
    Computer::new(BootImage::parse(boot).unwrap())
}

const PROGRAM: &str = "00 1110\n01 4075\n02 F205\n05 4008\n";

#[test]
fn a_run_ends_with_the_step_that_halts() {
    let mut c = machine(PROGRAM);
    c.registers.r_counter = 0x7FFF;
    c.registers.r_data = 0x0001;
    assert!(c.run(100));
    assert_eq!(c.registers.r_micro_command_counter, 0x06);
    assert_eq!(c.registers.r_counter, 0x8001);
}

#[test]
fn a_run_ends_when_its_steps_are_used_up() {
    let mut c = machine(PROGRAM);
    assert!(!c.run(2));
    assert_eq!(c.registers.r_micro_command_counter, 0x02);
    assert!(!c.run(0));
    assert_eq!(c.registers.r_micro_command_counter, 0x02);
    assert!(!c.run(1));
    assert_eq!(c.registers.r_micro_command_counter, 0x03);
}

#[test]
fn the_panel_steps_and_takes_back() {
    let mut c = machine(PROGRAM);
    let mut panel = ControlPanel::new();
    c.registers.r_counter = 0x0001;
    c.registers.set_lever(true);
    c.registers.set_program_mode(true);
    assert_eq!(panel.micro_step(&mut c), ExecutionResult::Success);
    assert!(c.registers.get_execute_by_tick());
    assert!(!c.registers.get_lever());
    assert!(!c.registers.get_program_mode());
    assert_eq!(c.registers.r_buffer, 0x0002);
    assert_eq!(c.registers.r_micro_command_counter, 1);
    assert_eq!(panel.history.len(), 1);
    assert!(panel.back(&mut c));
    assert_eq!(c.registers.r_buffer, 0);
    assert_eq!(c.registers.r_micro_command_counter, 0);
    assert!(c.registers.get_lever());
    assert!(panel.history.is_empty());
    assert!(!panel.back(&mut c));
    assert_eq!(c.registers.r_micro_command_counter, 0);
}

#[test]
fn the_panel_runs_one_instruction() {
    let mut c = machine(PROGRAM);
    let mut panel = ControlPanel::new();
    c.registers.set_execute_by_tick(true);
    assert!(panel.big_step(&mut c, 1000));
    assert!(!c.registers.get_execute_by_tick());
    assert_eq!(c.registers.r_micro_command_counter, 0x06);
    assert_eq!(panel.history.len(), 1);
    assert!(!panel.big_step(&mut machine(""), 10));
}

#[test]
fn the_history_keeps_the_newest_snapshots() {
    let mut c = machine("");
    let mut panel = ControlPanel::new();
    for i in 0..40u16 {
        c.registers.r_counter = i;
        panel.make_history_entry(&c);
    }
    assert_eq!(panel.history.len(), HISTORY_MAX_SIZE);
    assert_eq!(panel.history[0].r_counter, 25);
    assert_eq!(panel.history[14].r_counter, 39);
    assert!(panel.back(&mut c));
    assert_eq!(c.registers.r_counter, 39);
    assert!(panel.back(&mut c));
    assert_eq!(c.registers.r_counter, 38);
}

#[test]
fn the_panel_starts_and_resumes() {
    let mut c = machine("");
    let mut panel = ControlPanel::new();
    c.registers.r_micro_command_counter = 0x10;
    c.registers.set_execute_by_tick(true);
    panel.start(&mut c);
    assert_eq!(START_ADDRESS, 0xA8);
    assert_eq!(c.registers.r_micro_command_counter, 0xA8);
    assert!(!c.registers.get_execute_by_tick());
    assert!(c.registers.get_lever());
    assert!(c.registers.get_program_mode());
    c.registers.r_micro_command_counter = 0x20;
    c.registers.set_lever(false);
    panel.resume(&mut c);
    assert_eq!(c.registers.r_micro_command_counter, 0x20);
    assert!(c.registers.get_lever());
    assert!(c.registers.get_program_mode());
    assert_eq!(panel.history.len(), 2);
}

#[test]
fn a_tick_runs_a_machine_whose_lever_is_set() {
    let mut c = machine(PROGRAM);
    let mut panel = ControlPanel::new();
    assert!(!panel.tick(&mut c));
    assert_eq!(c.registers.r_micro_command_counter, 0);
    assert!(!panel.auto_run);
    c.registers.set_lever(true);
    assert!(panel.tick(&mut c));
    assert!(!c.registers.get_lever());
    assert!(!panel.auto_run);
    assert_eq!(c.registers.r_micro_command_counter, 0x06);
}

#[test]
fn a_tick_takes_a_bounded_number_of_steps() {
    let mut c = machine("");
    let mut panel = ControlPanel::new();
    c.registers.set_lever(true);
    assert!(!panel.tick(&mut c));
    assert!(panel.auto_run);
    assert_eq!(STEPS_PER_TICK, 100);
    assert_eq!(c.registers.r_micro_command_counter, 100);
    c.registers.set_lever(false);
    assert!(!panel.tick(&mut c));
    assert_eq!(c.registers.r_micro_command_counter, 200);
    c.mc_memory.set(210, 0x4008);
    assert!(!panel.tick(&mut c));
    assert!(!panel.auto_run);
    assert_eq!(c.registers.r_micro_command_counter, 211);
}

#[test]
fn the_interrupt_flag_follows_the_devices() {
    let mut c = machine("");
    c.registers.set_interrupt(true);
    c.poll_devices();
    assert!(!c.registers.get_interupt());
    c.io_devices[3] = IOCell { data: 0, ready: true };
    assert!(c.any_device_ready());
    c.poll_devices();
    assert!(!c.registers.get_interupt());
    c.registers.set_allow_interrupt(true);
    c.poll_devices();
    assert!(c.registers.get_interupt());
    c.io_devices[3].ready = false;
    assert!(!c.any_device_ready());
    c.poll_devices();
    assert!(!c.registers.get_interupt());
}

#[test]
fn the_status_word_is_settled() {
    let mut c = machine("");
    c.registers.set_interrupt(true);
    c.settle_status();
    assert!(!c.registers.get_interupt());
    c.registers.set_allow_interrupt(true);
    c.registers.set_interrupt(true);
    c.settle_status();
    assert!(c.registers.get_interupt());
    c.registers.r_data = 0x0302;
    c.registers.r_counter = 0x0099;
    c.registers.set_io(true);
    c.settle_status();
    assert_eq!(c.io_devices[2].data, 0x99);
    assert!(!c.registers.get_io());
}

#[test]
fn cards_are_loaded_into_general_memory() {
    let mut c = machine("");
    c.general_memory.set(0x700, 0x1111);
    c.registers.r_command_counter = 0x005;
    let program = parse_bpc("010 +F200\n011 -F000\n").unwrap();
    assert!(c.load_cards(&program));
    assert_eq!(c.general_memory.get(0x10), 0xF200);
    assert_eq!(c.general_memory.get(0x11), 0xF000);
    assert_eq!(c.general_memory.get(0x700), 0);
    assert_eq!(c.registers.r_command_counter, 0x010);
    let unmarked = parse_bpc("020 -0001\n").unwrap();
    assert!(c.load_cards(&unmarked));
    assert_eq!(c.general_memory.get(0x10), 0);
    assert_eq!(c.general_memory.get(0x20), 1);
    assert_eq!(c.registers.r_command_counter, 0x010);
    let beyond = parse_bpc("800 +0001\n").unwrap();
    assert!(!c.load_cards(&beyond));
    assert_eq!(c.general_memory.get(0x20), 1);
    assert_eq!(c.registers.r_command_counter, 0x010);
}

#[test]
fn microcode_is_traced_step_by_step() {
    let mut c = machine(PROGRAM);
    c.registers.r_counter = 0x7FFF;
    c.registers.r_data = 0x0001;
    c.registers.set_lever(true);
    let trace = mc_tracing(&mut c, 3);
    assert_eq!(
        trace.header,
        vec!["СчМК до выборки МК", "ВМК", "СК", "РА", "РК", "РД", "А", "С", "БР", "N", "Z", "СчМК"]
    );
    assert_eq!(
        trace.tracing,
        vec![
            vec!["000", "1110", "000", "000", "0000", "0001", "7FFF", "0", "8001", "0", "0", "001"],
            vec!["001", "4075", "000", "000", "0000", "0001", "8001", "0", "8001", "1", "0", "002"],
            vec!["002", "F205", "000", "000", "0000", "0001", "8001", "0", "8001", "1", "0", "003"],
        ]
    );
    assert!(!c.registers.get_lever());
    assert!(mc_tracing(&mut c, 0).tracing.is_empty());
}

#[test]
fn a_trace_of_microcode_ends_at_the_halt_instruction() {
    let mut c = machine("00 4003\n");
    c.registers.r_buffer = 0xF000;
    let trace = mc_tracing(&mut c, 10);
    assert_eq!(trace.tracing.len(), 1);
    assert_eq!(trace.tracing[0][4], "F000");
    let mut c = machine("");
    let trace = mc_tracing(&mut c, 10);
    assert_eq!(trace.tracing.len(), 10);
    assert_eq!(trace.tracing[9][0], "009");
    assert_eq!(trace.tracing[9][11], "00A");
}

#[test]
fn instructions_are_traced_with_the_cells_they_change() {
    let mut c = machine("00 0002\n01 4008\n03 4008\n");
    c.registers.r_address = 0x005;
    c.registers.r_data = 0x1234;
    let trace = general_tracing(&mut c, 2, 1000);
    assert_eq!(
        trace.header,
        vec!["Адресс", "Код", "СК", "РА", "РК", "РД", "А", "С", "Адрес", "Новый код"]
    );
    assert_eq!(
        trace.tracing,
        vec![
            vec!["000", "0000", "0000", "0005", "0000", "1234", "0000", "0", "005", "1234"],
            vec!["000", "0000", "0000", "0005", "0000", "1234", "0000", "0"],
        ]
    );
    assert_eq!(c.registers.r_micro_command_counter, 0x04);
    assert_eq!(c.general_memory.get(5), 0x1234);
}

#[test]
fn a_trace_of_instructions_ends_when_an_instruction_does_not_halt() {
    let mut c = machine("");
    let trace = general_tracing(&mut c, 5, 10);
    assert_eq!(trace.tracing.len(), 1);
    assert_eq!(c.registers.r_micro_command_counter, 10);
    let mut c = machine("00 4003\n01 4008\n");
    c.registers.r_buffer = 0xF000;
    let trace = general_tracing(&mut c, 5, 10);
    assert_eq!(trace.tracing.len(), 1);
    assert_eq!(trace.tracing[0][4], "F000");
}

fn table() -> Tracing {
    Tracing {
        header: vec![String::from("a"), String::from("b")],
        tracing: vec![vec![String::from("1"), String::from("2")], vec![String::from("3")]],
    }
}

#[test]
fn a_table_with_tabs() {
    assert_eq!(csv_text(&table()), "a\tb\t\n\"1\"\t\"2\"\t\n\"3\"\t");
    assert_eq!(csv_text(&Tracing { header: vec![], tracing: vec![] }), "");
}

#[test]
fn a_table_in_html() {
    assert_eq!(
        html_text(&table()),
        "<table border=1> \n\t<tr>\t\t<th>a</th>\n\t\t<th>b</th>\n\t</tr>\t<tr>\t\t<td>1</td>\t\t<td>2</td>\t</tr>\t<tr>\t\t<td>3</td>\t</tr> \n</table>"
    );
}

#[test]
fn a_table_in_latex() {
    let header = "a & b";
    let mut expected = format!(
        "\\documentclass{{article}}\n\
        \\usepackage{{multirow,longtable}}\n\
        \\usepackage[margin=1.5cm]{{geometry}}\n\
        \\usepackage[english,russian]{{babel}}\n\
        \\begin{{document}}\n\
        \\begin{{longtable}}{{|c|c|c|c|c|c|c|c|c|c|}}\n\
        \t\\caption{{Таблица трассировки}} \\\\ \n\
        \t\\hline\n\
        \t\\multicolumn{{2}}{{|c|}}{{Выполняемая команда}} & \n\
        \t\\multicolumn{{6}}{{|c|}}{{Содержимое регистров после выполнения команды}} & \n\
        \t\\multicolumn{{2}}{{|c|}}{{Изменившаяся ячейка}} \\\\\n\
        \t\\hline\n\
        \t{} \\\\\n\
        \t\\hline\n\
        \t\\endfirsthead\n\
        \t\\hline\n\
        \t{} \\\\\n\
        \t\\hline\n\
        \t\\endhead\n\
        \t\\hline\n\
        \t\\endfoot\n",
        header, header
    );
    expected.push_str("1 & 2\\\\\n\t\\hline\n3\\\\\n\t\\hline\n");
    expected.push_str("\\end{longtable}\n\\end{document}\n");
    assert_eq!(latex_text(&table()), expected);
}
