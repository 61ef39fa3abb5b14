//! Traces: the machine is run step by step, and each step gives a row of a
//! table with the registers after it. The table is written out as text in
//! three formats.

use crate::control::{spec_mode, spec_run};
use crate::model::{Computer, ComputerView, Registers, spec_values};
use crate::parse::general::string_views;
use crate::text::{append_hex, push_char, spec_hex};
use vstd::prelude::*;
use vstd::string::*;

verus! {

/// A table of a trace: the titles of its columns, and its rows.
pub struct Tracing {
    pub header: Vec<String>,
    pub tracing: Vec<Vec<String>>,
}

/// The texts of the rows `rows`.
pub open spec fn rows_view(rows: Seq<Vec<String>>) -> Seq<Seq<Seq<char>>> {
    Seq::new(rows.len(), |i: int| string_views(rows[i]@))
}

/// How a flag is written in a table.
pub open spec fn spec_flag_text(flag: bool) -> Seq<char> {
    if flag {
        "1"@
    } else {
        "0"@
    }
}

fn flag_text(flag: bool) -> (s: String)
    ensures
        s@ == spec_flag_text(flag),
{
    if flag {
        String::from_str("1")
    } else {
        String::from_str("0")
    }
}

fn hex_text(v: u32, width: usize) -> (s: String)
    ensures
        s@ == spec_hex(v as nat, width as nat),
{
    let mut s = String::new();
    append_hex(&mut s, v, width);
    assert(s@ =~= spec_hex(v as nat, width as nat));
    s
}

/// The titles of the columns of a trace of microcode.
pub open spec fn spec_mc_header() -> Seq<Seq<char>> {
    seq![
        "СчМК до выборки МК"@,
        "ВМК"@,
        "СК"@,
        "РА"@,
        "РК"@,
        "РД"@,
        "А"@,
        "С"@,
        "БР"@,
        "N"@,
        "Z"@,
        "СчМК"@,
    ]
}

pub fn mc_header() -> (header: Vec<String>)
    ensures
        string_views(header@) == spec_mc_header(),
{
    let mut header: Vec<String> = Vec::new();
    header.push(String::from_str("СчМК до выборки МК"));
    header.push(String::from_str("ВМК"));
    header.push(String::from_str("СК"));
    header.push(String::from_str("РА"));
    header.push(String::from_str("РК"));
    header.push(String::from_str("РД"));
    header.push(String::from_str("А"));
    header.push(String::from_str("С"));
    header.push(String::from_str("БР"));
    header.push(String::from_str("N"));
    header.push(String::from_str("Z"));
    header.push(String::from_str("СчМК"));
    assert(string_views(header@) =~= spec_mc_header());
    header
}

/// The titles of the columns of a trace of instructions.
pub open spec fn spec_general_header() -> Seq<Seq<char>> {
    seq![
        "Адресс"@,
        "Код"@,
        "СК"@,
        "РА"@,
        "РК"@,
        "РД"@,
        "А"@,
        "С"@,
        "Адрес"@,
        "Новый код"@,
    ]
}

pub fn general_header() -> (header: Vec<String>)
    ensures
        string_views(header@) == spec_general_header(),
{
    let mut header: Vec<String> = Vec::new();
    header.push(String::from_str("Адресс"));
    header.push(String::from_str("Код"));
    header.push(String::from_str("СК"));
    header.push(String::from_str("РА"));
    header.push(String::from_str("РК"));
    header.push(String::from_str("РД"));
    header.push(String::from_str("А"));
    header.push(String::from_str("С"));
    header.push(String::from_str("Адрес"));
    header.push(String::from_str("Новый код"));
    assert(string_views(header@) =~= spec_general_header());
    header
}

/// The row of a trace of microcode: where the micro-instruction stood, its
/// word, and the registers after it.
pub open spec fn spec_mc_row(position: u8, code: u16, registers: Registers) -> Seq<Seq<char>> {
    seq![
        spec_hex(position as nat, 3),
        spec_hex(code as nat, 4),
        spec_hex(registers.r_command_counter as nat, 3),
        spec_hex(registers.r_address as nat, 3),
        spec_hex(registers.r_command as nat, 4),
        spec_hex(registers.r_data as nat, 4),
        spec_hex(registers.r_counter as nat, 4),
        spec_flag_text(registers.spec_flag(0)),
        spec_hex(registers.r_buffer as nat, 4),
        spec_flag_text(registers.spec_flag(2)),
        spec_flag_text(registers.spec_flag(1)),
        spec_hex(registers.r_micro_command_counter as nat, 3),
    ]
}

fn mc_row(position: u8, code: u16, registers: &Registers) -> (row: Vec<String>)
    ensures
        string_views(row@) == spec_mc_row(position, code, *registers),
{
    let mut row: Vec<String> = Vec::new();
    row.push(hex_text(position as u32, 3));
    row.push(hex_text(code as u32, 4));
    row.push(hex_text(registers.r_command_counter as u32, 3));
    row.push(hex_text(registers.r_address as u32, 3));
    row.push(hex_text(registers.r_command as u32, 4));
    row.push(hex_text(registers.r_data as u32, 4));
    row.push(hex_text(registers.r_counter as u32, 4));
    row.push(flag_text(registers.get_overflow()));
    row.push(hex_text(registers.r_buffer, 4));
    row.push(flag_text(registers.get_negative()));
    row.push(flag_text(registers.get_null()));
    row.push(hex_text(registers.r_micro_command_counter as u32, 3));
    assert(string_views(row@) =~= spec_mc_row(position, code, *registers));
    row
}

/// The word that ends a trace when the command register holds it: the halt
/// instruction.
pub const LAST_COMMAND: u16 = 0xF000;

/// The machine after a trace of at most `len` micro-steps, and the rows of the
/// trace. The trace ends with the step after which the command register holds
/// `LAST_COMMAND`.
pub open spec fn spec_mc_trace(c: ComputerView, len: nat) -> (ComputerView, Seq<Seq<Seq<char>>>)
    decreases len,
{
    if len == 0 {
        (c, Seq::empty())
    } else {
        let position = c.registers.r_micro_command_counter;
        let code = c.mc[position as int].data;
        let stepped = c.with_registers(spec_mode(c.registers, false, false, false)).micro_step().0;
        let row = spec_mc_row(position, code, stepped.registers);
        if stepped.registers.r_command == LAST_COMMAND {
            (stepped, seq![row])
        } else {
            let rest = spec_mc_trace(stepped, (len - 1) as nat);
            (rest.0, seq![row] + rest.1)
        }
    }
}

/// Traces at most `len` micro-steps.
pub fn mc_tracing(computer: &mut Computer, len: usize) -> (trace: Tracing)
    requires
        old(computer).wf(),
    ensures
        final(computer)@ == spec_mc_trace(old(computer)@, len as nat).0,
        rows_view(trace.tracing@) == spec_mc_trace(old(computer)@, len as nat).1,
        string_views(trace.header@) == spec_mc_header(),
        final(computer).wf(),
        final(computer).same_banks(old(computer)),
        old(computer).registers.wf() ==> final(computer).registers.wf(),
{
    let mut steps_left: usize = len;
    let mut result: Vec<Vec<String>> = Vec::new();
    let ghost whole = spec_mc_trace(computer@, len as nat);
    assert(rows_view(result@) + whole.1 =~= whole.1);
    while steps_left > 0
        invariant
            computer.wf(),
            computer.same_banks(old(computer)),
            old(computer).registers.wf() ==> computer.registers.wf(),
            whole == spec_mc_trace(old(computer)@, len as nat),
            whole.0 == spec_mc_trace(computer@, steps_left as nat).0,
            whole.1 == rows_view(result@) + spec_mc_trace(computer@, steps_left as nat).1,
        decreases steps_left,
    {
        let ghost before = rows_view(result@);
        let ghost rest = spec_mc_trace(computer@, steps_left as nat).1;
        let position: u8 = computer.registers.r_micro_command_counter;
        let code: u16 = computer.mc_memory.get(position as usize);
        computer.set_mode(false, false, false);
        computer.micro_step();
        let row = mc_row(position, code, &computer.registers);
        let ghost row_text = string_views(row@);
        result.push(row);
        assert(rows_view(result@) =~= before + seq![row_text]);
        if computer.registers.r_command == LAST_COMMAND {
            assert(whole.1 =~= rows_view(result@));
            return Tracing { header: mc_header(), tracing: result };
        }
        steps_left = steps_left - 1;
        assert(before + rest =~= rows_view(result@) + spec_mc_trace(
            computer@,
            steps_left as nat,
        ).1);
    }
    assert(whole.1 =~= rows_view(result@));
    Tracing { header: mc_header(), tracing: result }
}

/// The cells below `upto` that hold another value in `after` than in
/// `before`, each as two texts: its address and its new value.
pub open spec fn spec_changed_cells(before: Seq<u16>, after: Seq<u16>, upto: int) -> Seq<
    Seq<char>,
>
    decreases upto,
{
    if upto <= 0 {
        Seq::empty()
    } else {
        let rest = spec_changed_cells(before, after, upto - 1);
        if after[upto - 1] != before[upto - 1] {
            rest + seq![spec_hex((upto - 1) as nat, 3), spec_hex(after[upto - 1] as nat, 4)]
        } else {
            rest
        }
    }
}

/// The row of a trace of instructions: where the instruction stood, its word,
/// the registers after it, and the cells of memory that it changed.
pub open spec fn spec_general_row(
    position: u16,
    code: u16,
    registers: Registers,
    before: Seq<u16>,
    after: Seq<u16>,
) -> Seq<Seq<char>> {
    seq![
        spec_hex(position as nat, 3),
        spec_hex(code as nat, 4),
        spec_hex(registers.r_command_counter as nat, 4),
        spec_hex(registers.r_address as nat, 4),
        spec_hex(registers.r_command as nat, 4),
        spec_hex(registers.r_data as nat, 4),
        spec_hex(registers.r_counter as nat, 4),
        spec_flag_text(registers.spec_flag(0)),
    ] + spec_changed_cells(before, after, before.len() as int)
}

/// The machine after a trace of at most `len` instructions, and the rows of
/// the trace. An instruction is run as micro-steps until one halts. The trace
/// ends with the instruction after which the command register holds
/// `LAST_COMMAND`, and with an instruction of which no step among `fuel` halts.
pub open spec fn spec_general_trace(c: ComputerView, len: nat, fuel: nat) -> (
    ComputerView,
    Seq<Seq<Seq<char>>>,
)
    decreases len,
{
    if len == 0 {
        (c, Seq::empty())
    } else {
        let position = c.registers.r_command_counter;
        let code = c.general[position as int].data;
        let (ran, halted) = spec_run(
            c.with_registers(spec_mode(c.registers, false, false, false)),
            fuel,
        );
        let row = spec_general_row(
            position,
            code,
            ran.registers,
            spec_values(c.general),
            spec_values(ran.general),
        );
        if !halted || ran.registers.r_command == LAST_COMMAND {
            (ran, seq![row])
        } else {
            let rest = spec_general_trace(ran, (len - 1) as nat, fuel);
            (rest.0, seq![row] + rest.1)
        }
    }
}

/// Traces at most `len` instructions, each of at most `fuel` micro-steps.
pub fn general_tracing(computer: &mut Computer, len: usize, fuel: u32) -> (trace: Tracing)
    requires
        old(computer).wf(),
        old(computer).registers.wf(),
    ensures
        final(computer)@ == spec_general_trace(old(computer)@, len as nat, fuel as nat).0,
        rows_view(trace.tracing@) == spec_general_trace(old(computer)@, len as nat, fuel as nat).1,
        string_views(trace.header@) == spec_general_header(),
        final(computer).wf(),
        final(computer).registers.wf(),
        final(computer).same_banks(old(computer)),
{
    let mut steps_left: usize = len;
    let mut result: Vec<Vec<String>> = Vec::new();
    let ghost whole = spec_general_trace(computer@, len as nat, fuel as nat);
    assert(rows_view(result@) + whole.1 =~= whole.1);
    while steps_left > 0
        invariant
            computer.wf(),
            computer.registers.wf(),
            computer.same_banks(old(computer)),
            whole == spec_general_trace(old(computer)@, len as nat, fuel as nat),
            whole.0 == spec_general_trace(computer@, steps_left as nat, fuel as nat).0,
            whole.1 == rows_view(result@) + spec_general_trace(
                computer@,
                steps_left as nat,
                fuel as nat,
            ).1,
        decreases steps_left,
    {
        let ghost before = rows_view(result@);
        let ghost rest = spec_general_trace(computer@, steps_left as nat, fuel as nat).1;
        let ghost start = computer@;
        let position: u16 = computer.registers.r_command_counter;
        let code: u16 = computer.general_memory.get(position as usize);
        let mem_before = computer.general_memory.values();
        computer.set_mode(false, false, false);
        let halted = computer.run(fuel);
        let mem_after = computer.general_memory.values();
        let mut line: Vec<String> = Vec::new();
        line.push(hex_text(position as u32, 3));
        line.push(hex_text(code as u32, 4));
        line.push(hex_text(computer.registers.r_command_counter as u32, 4));
        line.push(hex_text(computer.registers.r_address as u32, 4));
        line.push(hex_text(computer.registers.r_command as u32, 4));
        line.push(hex_text(computer.registers.r_data as u32, 4));
        line.push(hex_text(computer.registers.r_counter as u32, 4));
        line.push(flag_text(computer.registers.get_overflow()));
        let ghost fixed = string_views(line@);
        assert(fixed =~= seq![
            spec_hex(position as nat, 3),
            spec_hex(code as nat, 4),
            spec_hex(computer.registers.r_command_counter as nat, 4),
            spec_hex(computer.registers.r_address as nat, 4),
            spec_hex(computer.registers.r_command as nat, 4),
            spec_hex(computer.registers.r_data as nat, 4),
            spec_hex(computer.registers.r_counter as nat, 4),
            spec_flag_text(computer.registers.spec_flag(0)),
        ]);
        let mut i: usize = 0;
        assert(string_views(line@) =~= fixed + spec_changed_cells(mem_before@, mem_after@, 0));
        while i < mem_before.len()
            invariant
                i <= mem_before.len(),
                mem_before@.len() == mem_after@.len(),
                mem_before@.len() == 2048,
                string_views(line@) == fixed + spec_changed_cells(
                    mem_before@,
                    mem_after@,
                    i as int,
                ),
            decreases mem_before.len() - i,
        {
            let ghost so_far = string_views(line@);
            if mem_after[i] != mem_before[i] {
                line.push(hex_text(i as u32, 3));
                line.push(hex_text(mem_after[i] as u32, 4));
                assert(string_views(line@) =~= so_far + seq![
                    spec_hex(i as nat, 3),
                    spec_hex(mem_after@[i as int] as nat, 4),
                ]);
                assert(string_views(line@) =~= fixed + spec_changed_cells(
                    mem_before@,
                    mem_after@,
                    i + 1,
                ));
            }
            i = i + 1;
        }
        let ghost row_text = string_views(line@);
        result.push(line);
        assert(rows_view(result@) =~= before + seq![row_text]);
        if !halted || computer.registers.r_command == LAST_COMMAND {
            assert(whole.1 =~= rows_view(result@));
            return Tracing { header: general_header(), tracing: result };
        }
        steps_left = steps_left - 1;
        assert(before + rest =~= rows_view(result@) + spec_general_trace(
            computer@,
            steps_left as nat,
            fuel as nat,
        ).1);
    }
    assert(whole.1 =~= rows_view(result@));
    Tracing { header: general_header(), tracing: result }
}

// ---------------------------------------------------------------------------
// A table as text

/// The texts `items`, each followed by `after`.
pub open spec fn spec_each_followed(items: Seq<Seq<char>>, after: Seq<char>) -> Seq<char>
    decreases items.len(),
{
    if items.len() == 0 {
        Seq::empty()
    } else {
        spec_each_followed(items.drop_last(), after) + items.last() + after
    }
}

/// The texts `items`, each between `before` and `after`.
pub open spec fn spec_each_wrapped(
    items: Seq<Seq<char>>,
    before: Seq<char>,
    after: Seq<char>,
) -> Seq<char>
    decreases items.len(),
{
    if items.len() == 0 {
        Seq::empty()
    } else {
        spec_each_wrapped(items.drop_last(), before, after) + before + items.last() + after
    }
}

/// The texts `items` with `between` between them.
pub open spec fn spec_joined(items: Seq<Seq<char>>, between: Seq<char>) -> Seq<char>
    decreases items.len(),
{
    if items.len() == 0 {
        Seq::empty()
    } else if items.len() == 1 {
        items[0]
    } else {
        spec_joined(items.drop_last(), between) + between + items.last()
    }
}

fn append_each_wrapped(s: &mut String, items: &Vec<String>, before: &str, after: &str)
    ensures
        final(s)@ == old(s)@ + spec_each_wrapped(string_views(items@), before@, after@),
{
    let mut i: usize = 0;
    let ghost texts = string_views(items@);
    assert(texts.take(0) =~= Seq::<Seq<char>>::empty());
    assert(s@ =~= old(s)@ + spec_each_wrapped(texts.take(0), before@, after@));
    while i < items.len()
        invariant
            i <= items.len(),
            texts == string_views(items@),
            s@ == old(s)@ + spec_each_wrapped(texts.take(i as int), before@, after@),
        decreases items.len() - i,
    {
        s.append(before);
        s.append(items[i].as_str());
        s.append(after);
        i = i + 1;
        assert(texts.take(i as int).drop_last() =~= texts.take(i - 1));
        assert(texts.take(i as int).last() == items@[i - 1]@);
        assert(s@ =~= old(s)@ + spec_each_wrapped(texts.take(i as int), before@, after@));
    }
    assert(texts.take(items.len() as int) =~= texts);
}

fn joined(items: &Vec<String>, between: &str) -> (s: String)
    ensures
        s@ == spec_joined(string_views(items@), between@),
{
    let mut s = String::new();
    let ghost texts = string_views(items@);
    if items.len() == 0 {
        return s;
    }
    s.append(items[0].as_str());
    assert(texts.take(1) =~= seq![texts[0]]);
    assert(s@ =~= spec_joined(texts.take(1), between@));
    let mut i: usize = 1;
    while i < items.len()
        invariant
            1 <= i <= items.len(),
            texts == string_views(items@),
            s@ == spec_joined(texts.take(i as int), between@),
        decreases items.len() - i,
    {
        s.append(between);
        s.append(items[i].as_str());
        i = i + 1;
        assert(texts.take(i as int).drop_last() =~= texts.take(i - 1));
        assert(texts.take(i as int).last() == items@[i - 1]@);
    }
    assert(texts.take(items.len() as int) =~= texts);
    s
}

/// The rows `rows` in the format with tabs: each row starts a line, and each
/// of its fields stands in quotes with a tab after it.
pub open spec fn spec_csv_rows(rows: Seq<Seq<Seq<char>>>) -> Seq<char>
    decreases rows.len(),
{
    if rows.len() == 0 {
        Seq::empty()
    } else {
        spec_csv_rows(rows.drop_last()) + seq!['\n'] + spec_each_wrapped(
            rows.last(),
            "\""@,
            "\"\t"@,
        )
    }
}

/// A table in the format with tabs: the titles, each with a tab after it,
/// then the rows.
pub open spec fn spec_csv(header: Seq<Seq<char>>, rows: Seq<Seq<Seq<char>>>) -> Seq<char> {
    spec_each_wrapped(header, ""@, "\t"@) + spec_csv_rows(rows)
}

/// Writes the table in the format with tabs.
pub fn csv_text(trace: &Tracing) -> (s: String)
    ensures
        s@ == spec_csv(string_views(trace.header@), rows_view(trace.tracing@)),
{
    let mut s = String::new();
    append_each_wrapped(&mut s, &trace.header, "", "\t");
    let ghost head = s@;
    assert(head =~= spec_each_wrapped(string_views(trace.header@), ""@, "\t"@));
    let ghost rows = rows_view(trace.tracing@);
    let mut i: usize = 0;
    assert(rows.take(0) =~= Seq::<Seq<Seq<char>>>::empty());
    assert(s@ =~= head + spec_csv_rows(rows.take(0)));
    while i < trace.tracing.len()
        invariant
            i <= trace.tracing.len(),
            rows == rows_view(trace.tracing@),
            s@ == head + spec_csv_rows(rows.take(i as int)),
        decreases trace.tracing.len() - i,
    {
        push_char(&mut s, '\n');
        append_each_wrapped(&mut s, &trace.tracing[i], "\"", "\"\t");
        i = i + 1;
        assert(rows.take(i as int).drop_last() =~= rows.take(i - 1));
        assert(rows.take(i as int).last() == string_views(trace.tracing@[i - 1]@));
        assert(s@ =~= head + spec_csv_rows(rows.take(i as int)));
    }
    assert(rows.take(trace.tracing.len() as int) =~= rows);
    s
}

/// The rows `rows` as rows of a table in HTML.
pub open spec fn spec_html_rows(rows: Seq<Seq<Seq<char>>>) -> Seq<char>
    decreases rows.len(),
{
    if rows.len() == 0 {
        Seq::empty()
    } else {
        spec_html_rows(rows.drop_last()) + "\t<tr>"@ + spec_each_wrapped(
            rows.last(),
            "\t\t<td>"@,
            "</td>"@,
        ) + "\t</tr>"@
    }
}

/// A table in HTML.
pub open spec fn spec_html(header: Seq<Seq<char>>, rows: Seq<Seq<Seq<char>>>) -> Seq<char> {
    "<table border=1> \n"@ + ("\t<tr>"@ + spec_each_wrapped(header, "\t\t<th>"@, "</th>\n"@)
        + "\t</tr>"@ + spec_html_rows(rows)) + " \n</table>"@
}

/// Writes the table in HTML.
pub fn html_text(trace: &Tracing) -> (s: String)
    ensures
        s@ == spec_html(string_views(trace.header@), rows_view(trace.tracing@)),
{
    let mut content = String::from_str("\t<tr>");
    append_each_wrapped(&mut content, &trace.header, "\t\t<th>", "</th>\n");
    content.append("\t</tr>");
    let ghost head = content@;
    let ghost rows = rows_view(trace.tracing@);
    let mut i: usize = 0;
    assert(rows.take(0) =~= Seq::<Seq<Seq<char>>>::empty());
    assert(content@ =~= head + spec_html_rows(rows.take(0)));
    while i < trace.tracing.len()
        invariant
            i <= trace.tracing.len(),
            rows == rows_view(trace.tracing@),
            content@ == head + spec_html_rows(rows.take(i as int)),
        decreases trace.tracing.len() - i,
    {
        content.append("\t<tr>");
        append_each_wrapped(&mut content, &trace.tracing[i], "\t\t<td>", "</td>");
        content.append("\t</tr>");
        i = i + 1;
        assert(rows.take(i as int).drop_last() =~= rows.take(i - 1));
        assert(rows.take(i as int).last() == string_views(trace.tracing@[i - 1]@));
        assert(content@ =~= head + spec_html_rows(rows.take(i as int)));
    }
    assert(rows.take(trace.tracing.len() as int) =~= rows);
    let mut s = String::from_str("<table border=1> \n");
    s.append(content.as_str());
    s.append(" \n</table>");
    s
}

/// The start of a table in LaTeX, up to the first line of titles.
pub const LATEX_START: &'static str = "\\documentclass{article}\n\\usepackage{multirow,longtable}\n\\usepackage[margin=1.5cm]{geometry}\n\\usepackage[english,russian]{babel}\n\\begin{document}\n\\begin{longtable}{|c|c|c|c|c|c|c|c|c|c|}\n\t\\caption{Таблица трассировки} \\\\ \n\t\\hline\n\t\\multicolumn{2}{|c|}{Выполняемая команда} & \n\t\\multicolumn{6}{|c|}{Содержимое регистров после выполнения команды} & \n\t\\multicolumn{2}{|c|}{Изменившаяся ячейка} \\\\\n\t\\hline\n\t";

/// What stands in a table in LaTeX between the two lines of titles.
pub const LATEX_MIDDLE: &'static str = " \\\\\n\t\\hline\n\t\\endfirsthead\n\t\\hline\n\t";

/// What stands in a table in LaTeX between the titles and the rows.
pub const LATEX_HEAD_END: &'static str = " \\\\\n\t\\hline\n\t\\endhead\n\t\\hline\n\t\\endfoot\n";

/// The end of a table in LaTeX.
pub const LATEX_END: &'static str = "\\end{longtable}\n\\end{document}\n";

/// The rows `rows` as rows of a table in LaTeX.
pub open spec fn spec_latex_rows(rows: Seq<Seq<Seq<char>>>) -> Seq<char>
    decreases rows.len(),
{
    if rows.len() == 0 {
        Seq::empty()
    } else {
        spec_latex_rows(rows.drop_last()) + spec_joined(rows.last(), " & "@) + "\\\\\n"@
            + "\t\\hline\n"@
    }
}

/// A table in LaTeX: a document with one long table, whose titles are
/// repeated on every page.
pub open spec fn spec_latex(header: Seq<Seq<char>>, rows: Seq<Seq<Seq<char>>>) -> Seq<char> {
    LATEX_START@ + spec_joined(header, " & "@) + LATEX_MIDDLE@ + spec_joined(header, " & "@)
        + LATEX_HEAD_END@ + spec_latex_rows(rows) + LATEX_END@
}

/// Writes the table in LaTeX.
pub fn latex_text(trace: &Tracing) -> (s: String)
    ensures
        s@ == spec_latex(string_views(trace.header@), rows_view(trace.tracing@)),
{
    let header = joined(&trace.header, " & ");
    let mut content = String::from_str(LATEX_START);
    content.append(header.as_str());
    content.append(LATEX_MIDDLE);
    content.append(header.as_str());
    content.append(LATEX_HEAD_END);
    let ghost head = content@;
    let ghost rows = rows_view(trace.tracing@);
    let mut i: usize = 0;
    assert(rows.take(0) =~= Seq::<Seq<Seq<char>>>::empty());
    assert(content@ =~= head + spec_latex_rows(rows.take(0)));
    while i < trace.tracing.len()
        invariant
            i <= trace.tracing.len(),
            rows == rows_view(trace.tracing@),
            content@ == head + spec_latex_rows(rows.take(i as int)),
        decreases trace.tracing.len() - i,
    {
        let line = joined(&trace.tracing[i], " & ");
        content.append(line.as_str());
        content.append("\\\\\n");
        content.append("\t\\hline\n");
        i = i + 1;
        assert(rows.take(i as int).drop_last() =~= rows.take(i - 1));
        assert(rows.take(i as int).last() == string_views(trace.tracing@[i - 1]@));
        assert(content@ =~= head + spec_latex_rows(rows.take(i as int)));
    }
    assert(rows.take(trace.tracing.len() as int) =~= rows);
    content.append(LATEX_END);
    content
}

} // verus!
