//! The loader: it reads a program from its text and lays it out in memory.
//! A program is a sequence of lines. `#` starts a comment. A line that starts
//! with `$` is an operator; the one operator, `$pos`, moves the cursor forward.
//! Any other line is a command: it is placed at the cursor, and a `$name` at
//! its end names its address. `%name` in a command stands for the address of
//! that name, wherever in the program the name is given.

use crate::parse::{CommandInfo, Parser};
use crate::text::{
    append_decimal, append_hex_digits, index_of_in, is_variable_name_char, lines,
    parse_hex, push_char, same_chars, skip_ascii_whitespace, spec_decimal, spec_hex_digits,
    spec_index_of, spec_is_variable_name_char, spec_lines, spec_parse_hex,
    spec_skip_ascii_whitespace, spec_split, spec_trim, spec_word_len, split, texts, to_chars,
    to_string, trim_range, word_end,
};
use vstd::prelude::*;
use vstd::string::*;

verus! {

/// What a line of a program says.
#[derive(Debug, PartialEq)]
pub enum DataLine<'a> {
    /// An operator and its argument.
    Operator(&'a str, &'a str),
    /// A command, and the name that the line gives to its address.
    Command(&'a str, Option<&'a str>),
}

/// What a line of a program says, the texts by their characters.
pub enum DataLineView {
    Operator(Seq<char>, Seq<char>),
    Command(Seq<char>, Option<Seq<char>>),
}

impl<'a> View for DataLine<'a> {
    type V = DataLineView;

    open spec fn view(&self) -> DataLineView {
        match self {
            DataLine::Operator(name, argument) => DataLineView::Operator(name@, argument@),
            DataLine::Command(command, name) => DataLineView::Command(
                command@,
                match name {
                    Some(n) => Some(n@),
                    None => None,
                },
            ),
        }
    }
}

/// What a line says, or `None` where there is nothing to do for it. What
/// follows the first `#` is a comment, and white space around the rest does
/// not count. An empty line says nothing. After a `$` at the start come the
/// operator and its argument, two words; a line with fewer says nothing, and
/// what follows the two is not read. In any other line the command stands
/// before the first `$` and the name between the first `$` and the second.
pub open spec fn spec_parse_line(line: Seq<char>) -> Option<DataLineView> {
    let text = spec_trim(line.take(spec_index_of(line, '#')));
    if text.len() == 0 {
        None
    } else if text[0] == '$' {
        let first = spec_skip_ascii_whitespace(text.drop_first());
        let first_len = spec_word_len(first);
        let second = spec_skip_ascii_whitespace(first.skip(first_len));
        let second_len = spec_word_len(second);
        if first_len == 0 || second_len == 0 {
            None
        } else {
            Some(
                DataLineView::Operator(
                    spec_trim(first.take(first_len)),
                    spec_trim(second.take(second_len)),
                ),
            )
        }
    } else {
        let name_at = spec_index_of(text, '$');
        let rest = text.skip(name_at + 1);
        Some(
            DataLineView::Command(
                spec_trim(text.take(name_at)),
                if name_at < text.len() {
                    Some(spec_trim(rest.take(spec_index_of(rest, '$'))))
                } else {
                    None
                },
            ),
        )
    }
}

/// The view of an optional line.
pub open spec fn option_line_view(line: Option<DataLine>) -> Option<DataLineView> {
    match line {
        Some(l) => Some(l@),
        None => None,
    }
}

/// Reads one line of a program.
pub fn parse_line(line: &str) -> (r: Option<DataLine>)
    ensures
        option_line_view(r) == spec_parse_line(line@),
{
    let v = to_chars(line);
    let n: usize = v.len();
    assert(v@.subrange(0, n as int) =~= v@);
    let hash: usize = index_of_in(&v, 0, n, '#');
    assert(v@.take(hash as int) =~= v@.subrange(0, hash as int));
    let (a, b) = trim_range(&v, 0, hash);
    let ghost text = v@.subrange(a as int, b as int);
    if a == b {
        return None;
    }
    if v[a] == '$' {
        assert(text.drop_first() =~= v@.subrange(a + 1, b as int));
        let w0: usize = skip_ascii_whitespace(&v, a + 1, b);
        let e0: usize = word_end(&v, w0, b);
        assert(v@.subrange(w0 as int, b as int).skip(e0 - w0) =~= v@.subrange(e0 as int, b as int));
        assert(v@.subrange(w0 as int, b as int).take(e0 - w0) =~= v@.subrange(w0 as int, e0 as int));
        let w1: usize = skip_ascii_whitespace(&v, e0, b);
        let e1: usize = word_end(&v, w1, b);
        assert(v@.subrange(w1 as int, b as int).take(e1 - w1) =~= v@.subrange(w1 as int, e1 as int));
        if e0 == w0 || e1 == w1 {
            return None;
        }
        let (f0, f1) = trim_range(&v, w0, e0);
        let (s0, s1) = trim_range(&v, w1, e1);
        Some(DataLine::Operator(line.substring_char(f0, f1), line.substring_char(s0, s1)))
    } else {
        let d: usize = index_of_in(&v, a, b, '$');
        assert(text.take(d - a) =~= v@.subrange(a as int, d as int));
        let (c0, c1) = trim_range(&v, a, d);
        if d < b {
            assert(text.skip(d - a + 1) =~= v@.subrange(d + 1, b as int));
            let d2: usize = index_of_in(&v, d + 1, b, '$');
            assert(v@.subrange(d + 1, b as int).take(d2 - (d + 1)) =~= v@.subrange(
                d + 1,
                d2 as int,
            ));
            let (n0, n1) = trim_range(&v, d + 1, d2);
            Some(
                DataLine::Command(
                    line.substring_char(c0, c1),
                    Some(line.substring_char(n0, n1)),
                ),
            )
        } else {
            Some(DataLine::Command(line.substring_char(c0, c1), None))
        }
    }
}

/// The text of an error that the layout of a line gives.
pub open spec fn spec_line_error(line: Seq<char>, number: u64, cause: Seq<char>) -> Seq<char> {
    "Ошибка в строке "@
        + line
        + ". Номер строки: "@
        + spec_decimal(number as nat)
        + ". Сообщение: "@
        + cause
}

pub fn line_error(line: &str, number: u64, cause: &str) -> (s: String)
    ensures
        s@ == spec_line_error(line@, number, cause@),
{
    let mut s = String::from_str("Ошибка в строке ");
    s.append(line);
    s.append(". Номер строки: ");
    append_decimal(&mut s, number as u64);
    s.append(". Сообщение: ");
    s.append(cause);
    s
}

/// The cause: the operator is not `pos`.
pub open spec fn spec_cause_unknown_operator(name: Seq<char>) -> Seq<char> {
    "Неизвестный оператор "@
        + name
}

pub fn cause_unknown_operator(name: &str) -> (s: String)
    ensures
        s@ == spec_cause_unknown_operator(name@),
{
    let mut s = String::from_str("Неизвестный оператор ");
    s.append(name);
    s
}

/// The cause: the argument of `pos` is no number.
pub open spec fn spec_cause_bad_number(argument: Seq<char>) -> Seq<char> {
    "Не могу распарсить число "@
        + argument
}

pub fn cause_bad_number(argument: &str) -> (s: String)
    ensures
        s@ == spec_cause_bad_number(argument@),
{
    let mut s = String::from_str("Не могу распарсить число ");
    s.append(argument);
    s
}

/// The cause: `pos` would move the cursor back.
pub open spec fn spec_cause_backwards(cursor: u16, position: u16) -> Seq<char> {
    "Явно указанная позиция курсора меньше текущей позиции курсора. Текущая "@
        + spec_hex_digits(cursor as nat)
        + ". Укзаная "@
        + spec_hex_digits(position as nat)
        + "."@
}

pub fn cause_backwards(cursor: u16, position: u16) -> (s: String)
    ensures
        s@ == spec_cause_backwards(cursor, position),
{
    let mut s = String::from_str("Явно указанная позиция курсора меньше текущей позиции курсора. Текущая ");
    append_hex_digits(&mut s, cursor as u64);
    s.append(". Укзаная ");
    append_hex_digits(&mut s, position as u64);
    s.append(".");
    s
}

/// The cause: `pos` would move the cursor beyond the limit.
pub open spec fn spec_cause_beyond(max_size: u16, position: u16) -> Seq<char> {
    "Явно указанная позиция курсора больше максимально допустимой. Максимальная "@
        + spec_hex_digits(max_size as nat)
        + ". Укзаная "@
        + spec_hex_digits(position as nat)
        + "."@
}

pub fn cause_beyond(max_size: u16, position: u16) -> (s: String)
    ensures
        s@ == spec_cause_beyond(max_size, position),
{
    let mut s = String::from_str("Явно указанная позиция курсора больше максимально допустимой. Максимальная ");
    append_hex_digits(&mut s, max_size as u64);
    s.append(". Укзаная ");
    append_hex_digits(&mut s, position as u64);
    s.append(".");
    s
}

/// The cause: the command would move the cursor beyond the limit.
pub open spec fn spec_cause_full(max_size: u16) -> Seq<char> {
    "Превышена максимальная позиция. Максимальная "@
        + spec_hex_digits(max_size as nat)
        + "."@
}

pub fn cause_full(max_size: u16) -> (s: String)
    ensures
        s@ == spec_cause_full(max_size),
{
    let mut s = String::from_str("Превышена максимальная позиция. Максимальная ");
    append_hex_digits(&mut s, max_size as u64);
    s.append(".");
    s
}

/// The text of the error for a name that no line gives.
pub open spec fn spec_error_unknown_label(line: u16, name: Seq<char>) -> Seq<char> {
    "Ошибка в строке "@
        + spec_decimal(line as nat)
        + ". Не могу найти переменную "@
        + name
        + "."@
}

pub fn error_unknown_label(line: u16, name: &str) -> (s: String)
    ensures
        s@ == spec_error_unknown_label(line, name@),
{
    let mut s = String::from_str("Ошибка в строке ");
    append_decimal(&mut s, line as u64);
    s.append(". Не могу найти переменную ");
    s.append(name);
    s.append(".");
    s
}

/// The text of the error for a command that is neither a mnemonic nor a number.
pub open spec fn spec_error_not_encoded(line: u16, text: Seq<char>, cause: Seq<char>) -> Seq<char> {
    "Ошибка в строке "@
        + spec_decimal(line as nat)
        + "("@
        + text
        + "): "@
        + cause
}

pub fn error_not_encoded(line: u16, text: &str, cause: &str) -> (s: String)
    ensures
        s@ == spec_error_not_encoded(line, text@, cause@),
{
    let mut s = String::from_str("Ошибка в строке ");
    append_decimal(&mut s, line as u64);
    s.append("(");
    s.append(text);
    s.append("): ");
    s.append(cause);
    s
}

/// The text of the error for a command that is no number.
pub open spec fn spec_error_no_number(line: u16, text: Seq<char>) -> Seq<char> {
    "Ошибка в строке "@
        + spec_decimal(line as nat)
        + "("@
        + text
        + "): Не могу распарсить число."@
}

pub fn error_no_number(line: u16, text: &str) -> (s: String)
    ensures
        s@ == spec_error_no_number(line, text@),
{
    let mut s = String::from_str("Ошибка в строке ");
    append_decimal(&mut s, line as u64);
    s.append("(");
    s.append(text);
    s.append("): Не могу распарсить число.");
    s
}

/// The most lines of a program that are read. What follows them is left out.
pub const MAX_LINES: usize = 65535;

/// A command that waits for the addresses of all names.
pub struct PendingView {
    pub position: u16,
    pub command: Seq<char>,
    pub line: u16,
}

/// A command that waits for the addresses of all names.
pub struct Pending {
    pub position: u16,
    pub command: Vec<char>,
    pub line: u16,
}

impl View for Pending {
    type V = PendingView;

    open spec fn view(&self) -> PendingView {
        PendingView { position: self.position, command: self.command@, line: self.line }
    }
}

/// The views of the commands `pending`.
pub open spec fn pending_views(pending: Seq<Pending>) -> Seq<PendingView> {
    Seq::new(pending.len(), |i: int| pending[i]@)
}

/// What the first pass over a program knows: where the next command goes,
/// the address of each name, and the commands so far.
pub struct LayoutView {
    pub cursor: u16,
    pub labels: Map<Seq<char>, u16>,
    pub pending: Seq<PendingView>,
}

/// The addresses that the pairs `entries` give to names. Where a name comes
/// twice, the later address counts.
pub open spec fn spec_label_map(entries: Seq<(Vec<char>, u16)>) -> Map<Seq<char>, u16>
    decreases entries.len(),
{
    if entries.len() == 0 {
        Map::empty()
    } else {
        spec_label_map(entries.drop_last()).insert(entries.last().0@, entries.last().1)
    }
}

/// The layout after one more line, or the error that the line gives. `number`
/// is the line's number, counted from 1.
pub open spec fn spec_place_line(
    state: LayoutView,
    line: Seq<char>,
    number: int,
    max_size: u16,
) -> Result<LayoutView, Seq<char>> {
    match spec_parse_line(line) {
        None => Ok(state),
        Some(DataLineView::Operator(name, argument)) => {
            if name != "pos"@ {
                Err(spec_line_error(line, number as u64, spec_cause_unknown_operator(name)))
            } else {
                match spec_parse_hex(argument) {
                    None => Err(
                        spec_line_error(line, number as u64, spec_cause_bad_number(argument)),
                    ),
                    Some(position) => {
                        if position < state.cursor {
                            Err(
                                spec_line_error(
                                    line,
                                    number as u64,
                                    spec_cause_backwards(state.cursor, position),
                                ),
                            )
                        } else if position > max_size {
                            Err(
                                spec_line_error(
                                    line,
                                    number as u64,
                                    spec_cause_beyond(max_size, position),
                                ),
                            )
                        } else {
                            Ok(LayoutView { cursor: position, ..state })
                        }
                    },
                }
            }
        },
        Some(DataLineView::Command(command, name)) => {
            if state.cursor >= max_size {
                Err(spec_line_error(line, number as u64, spec_cause_full(max_size)))
            } else {
                Ok(
                    LayoutView {
                        cursor: (state.cursor + 1) as u16,
                        labels: match name {
                            Some(n) => state.labels.insert(n, state.cursor),
                            None => state.labels,
                        },
                        pending: state.pending.push(
                            PendingView {
                                position: state.cursor,
                                command,
                                line: number as u16,
                            },
                        ),
                    },
                )
            }
        },
    }
}

/// The layout of the lines `lines`, or the error of the first line that gives one.
pub open spec fn spec_place(lines: Seq<Seq<char>>, max_size: u16) -> Result<
    LayoutView,
    Seq<char>,
>
    decreases lines.len(),
{
    if lines.len() == 0 {
        Ok(LayoutView { cursor: 0, labels: Map::empty(), pending: Seq::empty() })
    } else {
        match spec_place(lines.drop_last(), max_size) {
            Ok(state) => spec_place_line(state, lines.last(), lines.len() as int, max_size),
            Err(e) => Err(e),
        }
    }
}

/// The length of the longest prefix of `s` made of characters that may stand
/// in a name.
pub open spec fn spec_name_len(s: Seq<char>) -> int
    decreases s.len(),
{
    if s.len() == 0 || !spec_is_variable_name_char(s[0]) {
        0
    } else {
        1 + spec_name_len(s.drop_first())
    }
}

/// The command `s` with each `%name` replaced by the address of the name in
/// hexadecimal, or, as the error, the first name that has no address. A name
/// is the longest run of name characters after the `%`; it may be empty.
pub open spec fn spec_substitute(s: Seq<char>, labels: Map<Seq<char>, u16>) -> Result<
    Seq<char>,
    Seq<char>,
>
    decreases s.len(),
{
    if s.len() == 0 {
        Ok(Seq::empty())
    } else if s[0] != '%' {
        match spec_substitute(s.drop_first(), labels) {
            Ok(rest) => Ok(seq![s[0]] + rest),
            Err(name) => Err(name),
        }
    } else {
        let n = spec_name_len(s.drop_first());
        let name = s.subrange(1, 1 + n);
        if 0 <= n < s.len() && labels.contains_key(name) {
            match spec_substitute(s.skip(1 + n), labels) {
                Ok(rest) => Ok(spec_hex_digits(labels[name] as nat) + rest),
                Err(missing) => Err(missing),
            }
        } else {
            Err(name)
        }
    }
}

/// The address and the word of one command, or the error that it gives. The
/// names are replaced first. Where the bank's instruction set has mnemonics,
/// the command is taken as a mnemonic, and as a number in hexadecimal where
/// the mnemonic cannot be encoded; where it has none, as a number.
pub open spec fn spec_encode<I: CommandInfo, P: Parser<I>>(
    pending: PendingView,
    labels: Map<Seq<char>, u16>,
    parser: &P,
) -> Result<(u16, u16), Seq<char>> {
    match spec_substitute(pending.command, labels) {
        Err(name) => Err(spec_error_unknown_label(pending.line, name)),
        Ok(text) => {
            if parser.spec_supports_rev_parse() {
                match parser.spec_rev_parse(text) {
                    Ok(word) => Ok((pending.position, word)),
                    Err(cause) => match spec_parse_hex(text) {
                        Some(word) => Ok((pending.position, word)),
                        None => Err(spec_error_not_encoded(pending.line, text, cause)),
                    },
                }
            } else {
                match spec_parse_hex(text) {
                    Some(word) => Ok((pending.position, word)),
                    None => Err(spec_error_no_number(pending.line, text)),
                }
            }
        },
    }
}

/// The addresses and words of the commands `pending`, or the error of the
/// first command that gives one.
pub open spec fn spec_encode_all<I: CommandInfo, P: Parser<I>>(
    pending: Seq<PendingView>,
    labels: Map<Seq<char>, u16>,
    parser: &P,
) -> Result<Seq<(u16, u16)>, Seq<char>>
    decreases pending.len(),
{
    if pending.len() == 0 {
        Ok(Seq::empty())
    } else {
        match spec_encode_all(pending.drop_last(), labels, parser) {
            Ok(image) => match spec_encode(pending.last(), labels, parser) {
                Ok(entry) => Ok(image.push(entry)),
                Err(e) => Err(e),
            },
            Err(e) => Err(e),
        }
    }
}

/// The program that the text `data` holds: pairs of an address below
/// `max_size` and a word, in the order of the commands; or the error of the
/// first line that gives one. The whole text is laid out before any command
/// is encoded, so a name may be used before the line that gives it.
pub open spec fn spec_parse_file<I: CommandInfo, P: Parser<I>>(
    data: Seq<char>,
    parser: &P,
    max_size: u16,
) -> Result<Seq<(u16, u16)>, Seq<char>> {
    let all = spec_lines(data);
    let read = if all.len() > MAX_LINES {
        all.take(MAX_LINES as int)
    } else {
        all
    };
    match spec_place(read, max_size) {
        Ok(layout) => spec_encode_all(layout.pending, layout.labels, parser),
        Err(e) => Err(e),
    }
}

/// What a loaded program or its error holds, the error by its characters.
pub open spec fn image_view(r: Result<Vec<(u16, u16)>, String>) -> Result<
    Seq<(u16, u16)>,
    Seq<char>,
> {
    match r {
        Ok(image) => Ok(image@),
        Err(e) => Err(e@),
    }
}

/// The address that the pairs `labels` give to `name`.
fn find_label(labels: &Vec<(Vec<char>, u16)>, name: &Vec<char>) -> (r: Option<u16>)
    ensures
        match r {
            Some(address) => spec_label_map(labels@).contains_key(name@) && spec_label_map(
                labels@,
            )[name@] == address,
            None => !spec_label_map(labels@).contains_key(name@),
        },
{
    let mut i: usize = labels.len();
    assert(labels@.take(i as int) =~= labels@);
    while i > 0
        invariant
            i <= labels.len(),
            spec_label_map(labels@).contains_key(name@) == spec_label_map(
                labels@.take(i as int),
            ).contains_key(name@),
            spec_label_map(labels@).contains_key(name@) ==> spec_label_map(labels@)[name@]
                == spec_label_map(labels@.take(i as int))[name@],
        decreases i,
    {
        let ghost here = labels@.take(i as int);
        assert(here.drop_last() =~= labels@.take(i - 1));
        assert(here.last() == labels@[i - 1]);
        if same_chars(&labels[i - 1].0, name) {
            return Some(labels[i - 1].1);
        }
        i = i - 1;
    }
    None
}

/// Replaces each `%name` of `command` by the address of the name.
fn substitute(command: &Vec<char>, labels: &Vec<(Vec<char>, u16)>) -> (r: Result<
    String,
    Vec<char>,
>)
    ensures
        match r {
            Ok(text) => spec_substitute(command@, spec_label_map(labels@)) == Ok::<
                Seq<char>,
                Seq<char>,
            >(text@),
            Err(name) => spec_substitute(command@, spec_label_map(labels@)) == Err::<
                Seq<char>,
                Seq<char>,
            >(name@),
        },
{
    let n: usize = command.len();
    let ghost map = spec_label_map(labels@);
    let mut builder = String::new();
    let mut i: usize = 0;
    assert(command@.skip(0) =~= command@);
    while i < n
        invariant
            i <= n == command.len(),
            map == spec_label_map(labels@),
            spec_substitute(command@, map) == (match spec_substitute(command@.skip(i as int), map) {
                Ok(rest) => Ok::<Seq<char>, Seq<char>>(builder@ + rest),
                Err(name) => Err(name),
            }),
        decreases n - i,
    {
        let ghost rest = command@.skip(i as int);
        let ghost before = builder@;
        if command[i] != '%' {
            push_char(&mut builder, command[i]);
            assert(rest.drop_first() =~= command@.skip(i + 1));
            assert forall|tail: Seq<char>| before + (seq![rest[0]] + tail) == #[trigger] (
            builder@ + tail) by {
                assert(before + (seq![rest[0]] + tail) =~= builder@ + tail);
            }
            i = i + 1;
        } else {
            let mut end: usize = i + 1;
            assert(rest.drop_first() =~= command@.skip(i + 1));
            while end < n && is_variable_name_char(command[end])
                invariant
                    i < end <= n == command.len(),
                    spec_name_len(command@.skip(i + 1)) == (end - (i + 1)) + spec_name_len(
                        command@.skip(end as int),
                    ),
                decreases n - end,
            {
                assert(command@.skip(end as int).drop_first() =~= command@.skip(end + 1));
                end = end + 1;
            }
            let name = crate::text::slice(command, i + 1, end);
            assert(rest.subrange(1, 1 + (end - (i + 1))) =~= name@);
            assert(rest.skip(1 + (end - (i + 1))) =~= command@.skip(end as int));
            match find_label(labels, &name) {
                None => {
                    return Err(name);
                },
                Some(address) => {
                    append_hex_digits(&mut builder, address as u64);
                    assert forall|tail: Seq<char>| before + (spec_hex_digits(address as nat)
                        + tail) == #[trigger] (builder@ + tail) by {
                        assert(before + (spec_hex_digits(address as nat) + tail) =~= builder@
                            + tail);
                    }
                },
            }
            i = end;
        }
    }
    assert(command@.skip(n as int) =~= Seq::<char>::empty());
    assert(builder@ + Seq::<char>::empty() =~= builder@);
    Ok(builder)
}

/// The address and the word of the command `pending`.
fn encode<I: CommandInfo, P: Parser<I>>(
    pending: &Pending,
    labels: &Vec<(Vec<char>, u16)>,
    parser: &P,
) -> (r: Result<(u16, u16), String>)
    ensures
        match r {
            Ok(entry) => spec_encode(pending@, spec_label_map(labels@), parser) == Ok::<
                (u16, u16),
                Seq<char>,
            >(entry),
            Err(e) => spec_encode(pending@, spec_label_map(labels@), parser) == Err::<
                (u16, u16),
                Seq<char>,
            >(e@),
        },
{
    match substitute(&pending.command, labels) {
        Err(name) => {
            let name_text = to_string(&name);
            Err(error_unknown_label(pending.line, name_text.as_str()))
        },
        Ok(text) => {
            let number = parse_hex(&to_chars(text.as_str()));
            if parser.supports_rev_parse() {
                match parser.rev_parse(text.as_str()) {
                    Ok(word) => Ok((pending.position, word)),
                    Err(cause) => match number {
                        Some(word) => Ok((pending.position, word)),
                        None => Err(
                            error_not_encoded(pending.line, text.as_str(), cause.as_str()),
                        ),
                    },
                }
            } else {
                match number {
                    Some(word) => Ok((pending.position, word)),
                    None => Err(error_no_number(pending.line, text.as_str())),
                }
            }
        },
    }
}

/// A program of which a start gives an error gives that error.
proof fn lemma_place_error(lines: Seq<Seq<char>>, k: int, max_size: u16)
    requires
        0 <= k <= lines.len(),
        spec_place(lines.take(k), max_size) is Err,
    ensures
        spec_place(lines, max_size) == spec_place(lines.take(k), max_size),
    decreases lines.len(),
{
    if k == lines.len() {
        assert(lines.take(k) =~= lines);
    } else {
        assert(lines.drop_last().take(k) =~= lines.take(k));
        lemma_place_error(lines.drop_last(), k, max_size);
    }
}

/// Commands of which a start gives an error give that error.
proof fn lemma_encode_error<I: CommandInfo, P: Parser<I>>(
    pending: Seq<PendingView>,
    k: int,
    labels: Map<Seq<char>, u16>,
    parser: &P,
)
    requires
        0 <= k <= pending.len(),
        spec_encode_all(pending.take(k), labels, parser) is Err,
    ensures
        spec_encode_all(pending, labels, parser) == spec_encode_all(
            pending.take(k),
            labels,
            parser,
        ),
    decreases pending.len(),
{
    if k == pending.len() {
        assert(pending.take(k) =~= pending);
    } else {
        assert(pending.drop_last().take(k) =~= pending.take(k));
        lemma_encode_error(pending.drop_last(), k, labels, parser);
    }
}

/// Reads the program that the text `data` holds, for a bank whose codec is
/// `parser` and whose addresses end before `max_size`.
pub fn parse_file<I: CommandInfo, P: Parser<I>>(data: &str, parser: &P, max_size: u16) -> (r:
    Result<Vec<(u16, u16)>, String>)
    ensures
        image_view(r) == spec_parse_file(data@, parser, max_size),
        r is Ok ==> crate::model::spec_fits(r->Ok_0@, max_size as int),
{
    let all = lines(&to_chars(data));
    let count: usize = if all.len() > MAX_LINES {
        MAX_LINES
    } else {
        all.len()
    };
    let ghost read = if texts(all@).len() > MAX_LINES {
        texts(all@).take(MAX_LINES as int)
    } else {
        texts(all@)
    };
    assert(read =~= texts(all@).take(count as int));
    let mut cursor: u16 = 0;
    let mut labels: Vec<(Vec<char>, u16)> = Vec::new();
    let mut pending: Vec<Pending> = Vec::new();
    let mut k: usize = 0;
    assert(read.take(0) =~= Seq::<Seq<char>>::empty());
    assert(pending_views(pending@) =~= Seq::<PendingView>::empty());
    while k < count
        invariant
            k <= count <= all.len(),
            count <= MAX_LINES,
            texts(all@) == spec_lines(data@),
            read == (if texts(all@).len() > MAX_LINES {
                texts(all@).take(MAX_LINES as int)
            } else {
                texts(all@)
            }),
            read == texts(all@).take(count as int),
            spec_place(read.take(k as int), max_size) == Ok::<LayoutView, Seq<char>>(
                LayoutView {
                    cursor,
                    labels: spec_label_map(labels@),
                    pending: pending_views(pending@),
                },
            ),
            forall|i: int| 0 <= i < pending@.len() ==> (#[trigger] pending@[i]).position < max_size,
        decreases count - k,
    {
        let ghost state = LayoutView {
            cursor,
            labels: spec_label_map(labels@),
            pending: pending_views(pending@),
        };
        let ghost done = read.take(k as int);
        let ghost next = read.take(k + 1);
        assert(next.drop_last() =~= done);
        assert(next.last() == all@[k as int]@);
        let line = to_string(&all[k]);
        let number: u64 = (k + 1) as u64;
        let placed = parse_line(line.as_str());
        let mut failure: Option<String> = None;
        match placed {
            None => {},
            Some(DataLine::Operator(name, argument)) => {
                if !same_chars(&to_chars(name), &to_chars("pos")) {
                    let cause = cause_unknown_operator(name);
                    failure = Some(line_error(line.as_str(), number, cause.as_str()));
                } else {
                    match parse_hex(&to_chars(argument)) {
                        None => {
                            let cause = cause_bad_number(argument);
                            failure = Some(line_error(line.as_str(), number, cause.as_str()));
                        },
                        Some(position) => {
                            if position < cursor {
                                let cause = cause_backwards(cursor, position);
                                failure = Some(line_error(line.as_str(), number, cause.as_str()));
                            } else if position > max_size {
                                let cause = cause_beyond(max_size, position);
                                failure = Some(line_error(line.as_str(), number, cause.as_str()));
                            } else {
                                cursor = position;
                            }
                        },
                    }
                }
            },
            Some(DataLine::Command(command, name)) => {
                if cursor >= max_size {
                    let cause = cause_full(max_size);
                    failure = Some(line_error(line.as_str(), number, cause.as_str()));
                } else {
                    let ghost labels_before = labels@;
                    let ghost pending_before = pending@;
                    pending.push(
                        Pending { position: cursor, command: to_chars(command), line: number as u16 },
                    );
                    assert(pending_views(pending@) =~= pending_views(pending_before).push(
                        PendingView { position: cursor, command: command@, line: number as u16 },
                    ));
                    match name {
                        Some(n) => {
                            labels.push((to_chars(n), cursor));
                            assert(labels@.drop_last() =~= labels_before);
                        },
                        None => {},
                    }
                    cursor = cursor + 1;
                }
            },
        }
        match failure {
            Some(e) => {
                proof {
                    assert(spec_place(next, max_size) == Err::<LayoutView, Seq<char>>(e@));
                    lemma_place_error(read, k + 1, max_size);
                }
                return Err(e);
            },
            None => {},
        }
        k = k + 1;
    }
    assert(read.take(count as int) =~= read);
    let ghost map = spec_label_map(labels@);
    let ghost commands = pending_views(pending@);
    let mut result: Vec<(u16, u16)> = Vec::new();
    let mut j: usize = 0;
    assert(commands.take(0) =~= Seq::<PendingView>::empty());
    assert(spec_parse_file(data@, parser, max_size) == spec_encode_all(commands, map, parser));
    while j < pending.len()
        invariant
            j <= pending.len(),
            spec_parse_file(data@, parser, max_size) == spec_encode_all(commands, map, parser),
            map == spec_label_map(labels@),
            commands == pending_views(pending@),
            spec_encode_all(commands.take(j as int), map, parser) == Ok::<
                Seq<(u16, u16)>,
                Seq<char>,
            >(result@),
            forall|i: int| 0 <= i < pending@.len() ==> (#[trigger] pending@[i]).position < max_size,
            crate::model::spec_fits(result@, max_size as int),
        decreases pending.len() - j,
    {
        let ghost next = commands.take(j + 1);
        assert(next.drop_last() =~= commands.take(j as int));
        assert(next.last() == pending@[j as int]@);
        match encode(&pending[j], &labels, parser) {
            Ok(entry) => {
                result.push(entry);
            },
            Err(e) => {
                proof {
                    lemma_encode_error(commands, j + 1, map, parser);
                }
                return Err(e);
            },
        }
        j = j + 1;
    }
    assert(commands.take(pending.len() as int) =~= commands);
    Ok(result)
}

/// The text of the error for a card that lacks its second part.
pub open spec fn spec_card_error_format(line: Seq<char>, number: u64) -> Seq<char> {
    "Неверный формат("@
        + line
        + ") на строчке "@
        + spec_decimal(number as nat)
}

pub fn card_error_format(line: &str, number: u64) -> (s: String)
    ensures
        s@ == spec_card_error_format(line@, number),
{
    let mut s = String::from_str("Неверный формат(");
    s.append(line);
    s.append(") на строчке ");
    append_decimal(&mut s, number as u64);
    s
}

/// The text of the error for a card whose address is no number.
pub open spec fn spec_card_error_position(position: Seq<char>, number: u64) -> Seq<char> {
    "Не могу распарсить позицию "@
        + position
        + " на строчке "@
        + spec_decimal(number as nat)
}

pub fn card_error_position(position: &str, number: u64) -> (s: String)
    ensures
        s@ == spec_card_error_position(position@, number),
{
    let mut s = String::from_str("Не могу распарсить позицию ");
    s.append(position);
    s.append(" на строчке ");
    append_decimal(&mut s, number as u64);
    s
}

/// The text of the error for a card whose value is no number.
pub open spec fn spec_card_error_command(command: Seq<char>, number: u64) -> Seq<char> {
    "Не могу распарсить команду "@
        + command
        + " на строчке "@
        + spec_decimal(number as nat)
}

pub fn card_error_command(command: &str, number: u64) -> (s: String)
    ensures
        s@ == spec_card_error_command(command@, number),
{
    let mut s = String::from_str("Не могу распарсить команду ");
    s.append(command);
    s.append(" на строчке ");
    append_decimal(&mut s, number as u64);
    s
}

/// A program read from cards: the cells to fill, and the address at which
/// the program starts, where a card marks one.
#[derive(Debug)]
pub struct CardProgram {
    pub image: Vec<(u16, u16)>,
    pub start: Option<u16>,
}

/// What a program read from cards holds.
pub struct CardProgramView {
    pub image: Seq<(u16, u16)>,
    pub start: Option<u16>,
}

impl View for CardProgram {
    type V = CardProgramView;

    open spec fn view(&self) -> CardProgramView {
        CardProgramView { image: self.image@, start: self.start }
    }
}

/// What one card holds. A card is an address in hexadecimal, one space, a
/// sign and a value in hexadecimal; the sign `+` marks the card at which the
/// program starts. `number` is the card's number, counted from 1.
pub struct CardView {
    pub address: u16,
    pub value: u16,
    pub marked: bool,
}

/// The value part of a card without its sign. The sign `+` stays: it is read
/// as part of the number.
pub open spec fn spec_card_digits(part: Seq<char>) -> Seq<char> {
    if part.len() > 0 && part[0] != '+' {
        part.drop_first()
    } else {
        part
    }
}

/// What the card `line` holds, or the error that it gives.
pub open spec fn spec_card(line: Seq<char>, number: int) -> Result<CardView, Seq<char>> {
    let pieces = spec_split(line, ' ');
    if pieces.len() < 2 {
        Err(spec_card_error_format(line, number as u64))
    } else {
        match spec_parse_hex(pieces[0]) {
            None => Err(spec_card_error_position(pieces[0], number as u64)),
            Some(address) => match spec_parse_hex(spec_card_digits(pieces[1])) {
                None => Err(spec_card_error_command(spec_card_digits(pieces[1]), number as u64)),
                Some(value) => Ok(
                    CardView {
                        address,
                        value,
                        marked: pieces[1].len() > 0 && pieces[1][0] == '+',
                    },
                ),
            },
        }
    }
}

/// The program that the cards `lines` hold, or the error of the first card
/// that gives one. The last marked card gives the start.
pub open spec fn spec_cards(lines: Seq<Seq<char>>) -> Result<CardProgramView, Seq<char>>
    decreases lines.len(),
{
    if lines.len() == 0 {
        Ok(CardProgramView { image: Seq::empty(), start: None })
    } else {
        match spec_cards(lines.drop_last()) {
            Err(e) => Err(e),
            Ok(program) => match spec_card(lines.last(), lines.len() as int) {
                Err(e) => Err(e),
                Ok(card) => Ok(
                    CardProgramView {
                        image: program.image.push((card.address, card.value)),
                        start: if card.marked {
                            Some(card.address)
                        } else {
                            program.start
                        },
                    },
                ),
            },
        }
    }
}

/// What a program read from cards or its error holds.
pub open spec fn cards_view(r: Result<CardProgram, String>) -> Result<CardProgramView, Seq<char>> {
    match r {
        Ok(program) => Ok(program@),
        Err(e) => Err(e@),
    }
}

/// Cards of which a start gives an error give that error.
proof fn lemma_cards_error(lines: Seq<Seq<char>>, k: int)
    requires
        0 <= k <= lines.len(),
        spec_cards(lines.take(k)) is Err,
    ensures
        spec_cards(lines) == spec_cards(lines.take(k)),
    decreases lines.len(),
{
    if k == lines.len() {
        assert(lines.take(k) =~= lines);
    } else {
        assert(lines.drop_last().take(k) =~= lines.take(k));
        lemma_cards_error(lines.drop_last(), k);
    }
}

/// Reads a program in the card format, one card to a line.
pub fn parse_bpc(data: &str) -> (r: Result<CardProgram, String>)
    ensures
        cards_view(r) == spec_cards(spec_lines(data@)),
{
    let all = lines(&to_chars(data));
    let mut image: Vec<(u16, u16)> = Vec::new();
    let mut start: Option<u16> = None;
    let mut k: usize = 0;
    assert(texts(all@).take(0) =~= Seq::<Seq<char>>::empty());
    while k < all.len()
        invariant
            k <= all.len(),
            texts(all@) == spec_lines(data@),
            spec_cards(texts(all@).take(k as int)) == Ok::<CardProgramView, Seq<char>>(
                CardProgramView { image: image@, start },
            ),
        decreases all.len() - k,
    {
        let ghost next = texts(all@).take(k + 1);
        assert(next.drop_last() =~= texts(all@).take(k as int));
        assert(next.last() == all@[k as int]@);
        let number: u64 = (k + 1) as u64;
        let pieces = split(&all[k], ' ');
        let mut failure: Option<String> = None;
        if pieces.len() < 2 {
            let line = to_string(&all[k]);
            failure = Some(card_error_format(line.as_str(), number));
        } else {
            assert(texts(pieces@)[0] == pieces@[0]@);
            assert(texts(pieces@)[1] == pieces@[1]@);
            match parse_hex(&pieces[0]) {
                None => {
                    let position = to_string(&pieces[0]);
                    failure = Some(card_error_position(position.as_str(), number));
                },
                Some(address) => {
                    let part = &pieces[1];
                    let marked: bool = part.len() > 0 && part[0] == '+';
                    let digits = if part.len() > 0 && !marked {
                        crate::text::slice(part, 1, part.len())
                    } else {
                        crate::text::slice(part, 0, part.len())
                    };
                    assert(digits@ =~= spec_card_digits(part@));
                    match parse_hex(&digits) {
                        None => {
                            let command = to_string(&digits);
                            failure = Some(card_error_command(command.as_str(), number));
                        },
                        Some(value) => {
                            image.push((address, value));
                            if marked {
                                start = Some(address);
                            }
                        },
                    }
                },
            }
        }
        match failure {
            Some(e) => {
                proof {
                    assert(spec_cards(next) == Err::<CardProgramView, Seq<char>>(e@));
                    lemma_cards_error(texts(all@), k + 1);
                }
                return Err(e);
            },
            None => {},
        }
        k = k + 1;
    }
    assert(texts(all@).take(all.len() as int) =~= texts(all@));
    Ok(CardProgram { image, start })
}

} // verus!
