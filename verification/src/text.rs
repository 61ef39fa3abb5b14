//! Text helpers shared by the codecs and the loader: characters of a string,
//! trimming, splitting, and numbers written in hexadecimal or decimal.

use vstd::prelude::*;
use vstd::string::*;

verus! {

// ---------------------------------------------------------------------------
// Characters

/// White space as `str::trim` understands it: the code points with the Unicode
/// property `White_Space`.
pub open spec fn spec_is_whitespace(c: char) -> bool {
    let n = c as u32;
    (0x09 <= n <= 0x0D) || n == 0x20 || n == 0x85 || n == 0xA0 || n == 0x1680 || (0x2000 <= n
        <= 0x200A) || n == 0x2028 || n == 0x2029 || n == 0x202F || n == 0x205F || n == 0x3000
}

/// ASCII white space: tab, line feed, form feed, carriage return and space.
pub open spec fn spec_is_ascii_whitespace(c: char) -> bool {
    c == '\t' || c == '\n' || c == '\x0C' || c == '\r' || c == ' '
}

/// A character that may stand in a label: an ASCII letter, an ASCII digit or `_`.
pub open spec fn spec_is_variable_name_char(ch: char) -> bool {
    ('a' <= ch <= 'z') || ('A' <= ch <= 'Z') || ('0' <= ch <= '9') || ch == '_'
}

pub fn is_whitespace(c: char) -> (r: bool)
    ensures
        r == spec_is_whitespace(c),
{
    let n: u32 = c as u32;
    (0x09 <= n && n <= 0x0D) || n == 0x20 || n == 0x85 || n == 0xA0 || n == 0x1680 || (0x2000 <= n
        && n <= 0x200A) || n == 0x2028 || n == 0x2029 || n == 0x202F || n == 0x205F || n == 0x3000
}

pub fn is_ascii_whitespace(c: char) -> (r: bool)
    ensures
        r == spec_is_ascii_whitespace(c),
{
    c == '\t' || c == '\n' || c == '\x0C' || c == '\r' || c == ' '
}

/// Says whether `ch` may stand in a label.
pub fn is_variable_name_char(ch: char) -> (r: bool)
    ensures
        r == spec_is_variable_name_char(ch),
{
    ('a' <= ch && ch <= 'z') || ('A' <= ch && ch <= 'Z') || ('0' <= ch && ch <= '9') || ch == '_'
}

// ---------------------------------------------------------------------------
// Between strings and vectors of characters

/// The characters of `s`, in order.
pub fn to_chars(s: &str) -> (v: Vec<char>)
    ensures
        v@ == s@,
{
    let mut v: Vec<char> = Vec::new();
    for c in it: s.chars()
        invariant
            v@ == it.seq().take(it.index() as int),
            it.seq() == s@,
    {
        v.push(c);
    }
    v
}

/// `String::push`: the string grows by the one character `c` at its end.
#[verifier::external_body]
pub(crate) fn push_char(s: &mut String, c: char)
    ensures
        final(s)@ == old(s)@.push(c),
{
    s.push(c)
}

/// Appends the characters `v` to `s`.
pub fn append_chars(s: &mut String, v: &Vec<char>)
    ensures
        final(s)@ == old(s)@ + v@,
{
    let mut i: usize = 0;
    while i < v.len()
        invariant
            i <= v.len(),
            s@ == old(s)@ + v@.take(i as int),
        decreases v.len() - i,
    {
        push_char(s, v[i]);
        i = i + 1;
        assert(s@ =~= old(s)@ + v@.take(i as int));
    }
    assert(v@.take(v.len() as int) =~= v@);
}

/// The string made of the characters `v`.
pub fn to_string(v: &Vec<char>) -> (s: String)
    ensures
        s@ == v@,
{
    let mut s = String::new();
    append_chars(&mut s, v);
    assert(s@ =~= v@);
    s
}

/// The characters `from .. to` of `v`.
pub fn slice(v: &Vec<char>, from: usize, to: usize) -> (r: Vec<char>)
    requires
        from <= to <= v.len(),
    ensures
        r@ == v@.subrange(from as int, to as int),
{
    let mut r: Vec<char> = Vec::new();
    let mut i: usize = from;
    while i < to
        invariant
            from <= i <= to <= v.len(),
            r@ == v@.subrange(from as int, i as int),
        decreases to - i,
    {
        r.push(v[i]);
        i = i + 1;
        assert(r@ =~= v@.subrange(from as int, i as int));
    }
    r
}

/// Says whether two texts hold the same characters.
pub fn same_chars(a: &Vec<char>, b: &Vec<char>) -> (r: bool)
    ensures
        r == (a@ == b@),
{
    if a.len() != b.len() {
        return false;
    }
    let mut i: usize = 0;
    while i < a.len()
        invariant
            i <= a.len(),
            a.len() == b.len(),
            a@.take(i as int) == b@.take(i as int),
        decreases a.len() - i,
    {
        if a[i] != b[i] {
            return false;
        }
        i = i + 1;
        assert(a@.take(i as int) =~= a@.take(i - 1).push(a@[i - 1]));
        assert(b@.take(i as int) =~= b@.take(i - 1).push(b@[i - 1]));
    }
    assert(a@.take(a.len() as int) =~= a@);
    assert(b@.take(b.len() as int) =~= b@);
    true
}

// ---------------------------------------------------------------------------
// Trimming

/// `s` without the white space at its start.
pub open spec fn spec_trim_start(s: Seq<char>) -> Seq<char>
    decreases s.len(),
{
    if s.len() > 0 && spec_is_whitespace(s[0]) {
        spec_trim_start(s.drop_first())
    } else {
        s
    }
}

/// `s` without the white space at its end.
pub open spec fn spec_trim_end(s: Seq<char>) -> Seq<char>
    decreases s.len(),
{
    if s.len() > 0 && spec_is_whitespace(s.last()) {
        spec_trim_end(s.drop_last())
    } else {
        s
    }
}

/// `s` without the white space at either end.
pub open spec fn spec_trim(s: Seq<char>) -> Seq<char> {
    spec_trim_end(spec_trim_start(s))
}

/// The bounds of what is left of the characters `from .. to` of `v` when the
/// white space at both ends is removed.
pub fn trim_range(v: &Vec<char>, from: usize, to: usize) -> (r: (usize, usize))
    requires
        from <= to <= v.len(),
    ensures
        from <= r.0 <= r.1 <= to,
        v@.subrange(r.0 as int, r.1 as int) == spec_trim(v@.subrange(from as int, to as int)),
{
    let mut a: usize = from;
    while a < to && is_whitespace(v[a])
        invariant
            from <= a <= to <= v.len(),
            spec_trim_start(v@.subrange(from as int, to as int)) == spec_trim_start(
                v@.subrange(a as int, to as int),
            ),
        decreases to - a,
    {
        assert(v@.subrange(a as int, to as int).drop_first() =~= v@.subrange(a + 1, to as int));
        a = a + 1;
    }
    assert(spec_trim_start(v@.subrange(from as int, to as int)) == v@.subrange(
        a as int,
        to as int,
    ));
    let mut b: usize = to;
    while b > a && is_whitespace(v[b - 1])
        invariant
            a <= b <= to <= v.len(),
            spec_trim(v@.subrange(from as int, to as int)) == spec_trim_end(
                v@.subrange(a as int, b as int),
            ),
        decreases b - a,
    {
        assert(v@.subrange(a as int, b as int).drop_last() =~= v@.subrange(a as int, b - 1));
        b = b - 1;
    }
    (a, b)
}

// ---------------------------------------------------------------------------
// Splitting

/// The index of the first `c` in `s`, or the length of `s` where it holds none.
pub open spec fn spec_index_of(s: Seq<char>, c: char) -> int
    decreases s.len(),
{
    if s.len() == 0 || s[0] == c {
        0
    } else {
        1 + spec_index_of(s.drop_first(), c)
    }
}

/// `spec_index_of` is the least index that holds `c`.
pub proof fn lemma_index_of(s: Seq<char>, c: char)
    ensures
        0 <= spec_index_of(s, c) <= s.len(),
        forall|j: int| 0 <= j < spec_index_of(s, c) ==> s[j] != c,
        spec_index_of(s, c) < s.len() ==> s[spec_index_of(s, c)] == c,
    decreases s.len(),
{
    if s.len() == 0 || s[0] == c {
    } else {
        lemma_index_of(s.drop_first(), c);
        assert forall|j: int| 0 <= j < spec_index_of(s, c) implies s[j] != c by {
            if j > 0 {
                assert(s[j] == s.drop_first()[j - 1]);
            }
        }
    }
}

/// The pieces of `s` between the occurrences of `sep`; there is one more piece
/// than there are occurrences, and a piece may be empty.
pub open spec fn spec_split(s: Seq<char>, sep: char) -> Seq<Seq<char>>
    decreases s.len(),
{
    let i = spec_index_of(s, sep);
    if 0 <= i < s.len() {
        seq![s.take(i)] + spec_split(s.skip(i + 1), sep)
    } else {
        seq![s]
    }
}

/// The texts that a vector of character vectors holds.
pub open spec fn texts(v: Seq<Vec<char>>) -> Seq<Seq<char>> {
    Seq::new(v.len(), |i: int| v[i]@)
}

/// The index of the first `c` among the characters `from .. to` of `v`, or `to`.
pub fn index_of_in(v: &Vec<char>, from: usize, to: usize, c: char) -> (i: usize)
    requires
        from <= to <= v.len(),
    ensures
        i == from + spec_index_of(v@.subrange(from as int, to as int), c),
        from <= i <= to,
{
    let mut i: usize = from;
    while i < to && v[i] != c
        invariant
            from <= i <= to <= v.len(),
            spec_index_of(v@.subrange(from as int, to as int), c) == (i - from) + spec_index_of(
                v@.subrange(i as int, to as int),
                c,
            ),
        decreases to - i,
    {
        assert(v@.subrange(i as int, to as int).drop_first() =~= v@.subrange(i + 1, to as int));
        i = i + 1;
    }
    proof {
        lemma_index_of(v@.subrange(i as int, to as int), c);
    }
    i
}

/// The index of the first `c` at or after `from`, or the length of `v`.
pub fn index_of(v: &Vec<char>, from: usize, c: char) -> (i: usize)
    requires
        from <= v.len(),
    ensures
        i == from + spec_index_of(v@.skip(from as int), c),
        from <= i <= v.len(),
{
    assert(v@.skip(from as int) =~= v@.subrange(from as int, v.len() as int));
    index_of_in(v, from, v.len(), c)
}

/// Splits `v` at every `sep`.
pub fn split(v: &Vec<char>, sep: char) -> (r: Vec<Vec<char>>)
    ensures
        texts(r@) == spec_split(v@, sep),
        r@.len() >= 1,
{
    let mut r: Vec<Vec<char>> = Vec::new();
    let mut start: usize = 0;
    let n: usize = v.len();
    assert(v@.skip(0) =~= v@);
    loop
        invariant
            start <= n == v.len(),
            spec_split(v@, sep) == texts(r@) + spec_split(v@.skip(start as int), sep),
        decreases n - start,
    {
        let i: usize = index_of(v, start, sep);
        let ghost rest = v@.skip(start as int);
        let ghost before = texts(r@);
        if i < n {
            r.push(slice(v, start, i));
            assert(rest.take(i - start) =~= v@.subrange(start as int, i as int));
            assert(rest.skip(i - start + 1) =~= v@.skip(i + 1));
            assert(texts(r@) =~= before + seq![rest.take(i - start)]);
            assert(spec_split(v@, sep) =~= texts(r@) + spec_split(v@.skip(i + 1), sep));
            start = i + 1;
        } else {
            r.push(slice(v, start, n));
            assert(rest =~= v@.subrange(start as int, n as int));
            assert(texts(r@) =~= before + seq![rest]);
            return r;
        }
    }
}

/// `s` without one carriage return at its end.
pub open spec fn spec_strip_cr(s: Seq<char>) -> Seq<char> {
    if s.len() > 0 && s.last() == '\r' {
        s.drop_last()
    } else {
        s
    }
}

/// The lines of `text`. A line ends at a line feed; the line feed, and a carriage
/// return just before it, are not part of the line. What follows the last line
/// feed is a line too unless it is empty.
pub open spec fn spec_lines(text: Seq<char>) -> Seq<Seq<char>>
    decreases text.len(),
{
    if text.len() == 0 {
        Seq::empty()
    } else {
        let i = spec_index_of(text, '\n');
        if 0 <= i < text.len() {
            seq![spec_strip_cr(text.take(i))] + spec_lines(text.skip(i + 1))
        } else {
            seq![text]
        }
    }
}

/// Splits `v` into its lines.
pub fn lines(v: &Vec<char>) -> (r: Vec<Vec<char>>)
    ensures
        texts(r@) == spec_lines(v@),
{
    let mut r: Vec<Vec<char>> = Vec::new();
    let mut start: usize = 0;
    let n: usize = v.len();
    assert(v@.skip(0) =~= v@);
    while start < n
        invariant
            start <= n == v.len(),
            spec_lines(v@) == texts(r@) + spec_lines(v@.skip(start as int)),
        decreases n - start,
    {
        let i: usize = index_of(v, start, '\n');
        let ghost rest = v@.skip(start as int);
        let ghost before = texts(r@);
        if i < n {
            let end: usize = if i > start && v[i - 1] == '\r' {
                (i - 1) as usize
            } else {
                i
            };
            r.push(slice(v, start, end));
            assert(rest.take(i - start) =~= v@.subrange(start as int, i as int));
            assert(spec_strip_cr(rest.take(i - start)) =~= v@.subrange(start as int, end as int));
            assert(rest.skip(i - start + 1) =~= v@.skip(i + 1));
            assert(texts(r@) =~= before + seq![spec_strip_cr(rest.take(i - start))]);
            assert(spec_lines(v@) =~= texts(r@) + spec_lines(v@.skip(i + 1)));
            start = i + 1;
        } else {
            r.push(slice(v, start, n));
            assert(rest =~= v@.subrange(start as int, n as int));
            assert(texts(r@) =~= before + seq![rest]);
            assert(v@.skip(n as int) =~= Seq::<char>::empty());
            assert(spec_lines(v@) =~= texts(r@) + spec_lines(v@.skip(n as int)));
            start = n;
        }
    }
    assert(v@.skip(n as int) =~= Seq::<char>::empty());
    assert(spec_lines(v@) =~= texts(r@));
    r
}

// ---------------------------------------------------------------------------
// Fields between white space

/// The length of the longest prefix of `s` that holds no white space.
pub open spec fn spec_field_len(s: Seq<char>) -> int
    decreases s.len(),
{
    if s.len() == 0 || spec_is_whitespace(s[0]) {
        0
    } else {
        1 + spec_field_len(s.drop_first())
    }
}

/// `spec_field_len` is the least index that holds white space.
pub proof fn lemma_field_len(s: Seq<char>)
    ensures
        0 <= spec_field_len(s) <= s.len(),
        forall|j: int| 0 <= j < spec_field_len(s) ==> !spec_is_whitespace(s[j]),
        spec_field_len(s) < s.len() ==> spec_is_whitespace(s[spec_field_len(s)]),
    decreases s.len(),
{
    if s.len() == 0 || spec_is_whitespace(s[0]) {
    } else {
        lemma_field_len(s.drop_first());
        assert forall|j: int| 0 <= j < spec_field_len(s) implies !spec_is_whitespace(s[j]) by {
            if j > 0 {
                assert(s[j] == s.drop_first()[j - 1]);
            }
        }
    }
}

/// The fields of `s`: its longest runs of characters that are not white space.
pub open spec fn spec_fields(s: Seq<char>) -> Seq<Seq<char>>
    decreases s.len(),
{
    let t = spec_trim_start(s);
    let n = spec_field_len(t);
    if 0 < n <= t.len() <= s.len() {
        seq![t.take(n)] + spec_fields(t.skip(n))
    } else {
        Seq::empty()
    }
}

/// Splits `v` into its fields.
pub fn fields(v: &Vec<char>) -> (r: Vec<Vec<char>>)
    ensures
        texts(r@) == spec_fields(v@),
{
    let mut r: Vec<Vec<char>> = Vec::new();
    let n: usize = v.len();
    let mut start: usize = 0;
    assert(v@.skip(0) =~= v@);
    loop
        invariant
            start <= n == v.len(),
            spec_fields(v@) == texts(r@) + spec_fields(v@.skip(start as int)),
        decreases n - start,
    {
        let ghost s0 = v@.skip(start as int);
        let mut a: usize = start;
        while a < n && is_whitespace(v[a])
            invariant
                start <= a <= n == v.len(),
                spec_trim_start(s0) == spec_trim_start(v@.skip(a as int)),
            decreases n - a,
        {
            assert(v@.skip(a as int).drop_first() =~= v@.skip(a + 1));
            a = a + 1;
        }
        let ghost t = v@.skip(a as int);
        assert(spec_trim_start(s0) == t);
        let mut b: usize = a;
        while b < n && !is_whitespace(v[b])
            invariant
                a <= b <= n == v.len(),
                spec_field_len(t) == (b - a) + spec_field_len(v@.skip(b as int)),
            decreases n - b,
        {
            assert(v@.skip(b as int).drop_first() =~= v@.skip(b + 1));
            b = b + 1;
        }
        assert(spec_field_len(t) == b - a);
        let ghost before = texts(r@);
        if b > a {
            r.push(slice(v, a, b));
            assert(t.take(b - a) =~= v@.subrange(a as int, b as int));
            assert(t.skip(b - a) =~= v@.skip(b as int));
            assert(texts(r@) =~= before + seq![t.take(b - a)]);
            assert(spec_fields(v@) =~= texts(r@) + spec_fields(v@.skip(b as int)));
            start = b;
        } else {
            assert(spec_fields(s0) =~= Seq::<Seq<char>>::empty());
            assert(spec_fields(v@) =~= texts(r@));
            return r;
        }
    }
}

/// A text without white space, and not empty, is one field.
pub proof fn lemma_fields_one(a: Seq<char>)
    requires
        a.len() > 0,
        forall|k: int| 0 <= k < a.len() ==> !spec_is_whitespace(a[k]),
    ensures
        spec_fields(a) == seq![a],
{
    lemma_field_len(a);
    let n = spec_field_len(a);
    if n < a.len() {
        assert(spec_is_whitespace(a[n]));
    }
    assert(a.take(n) =~= a);
    assert(a.skip(n) =~= Seq::<char>::empty());
    assert(spec_fields(a.skip(n)) =~= Seq::<Seq<char>>::empty());
    assert(spec_fields(a) =~= seq![a]);
}

/// Two texts without white space, neither empty, with one space between them
/// are two fields.
pub proof fn lemma_fields_two(a: Seq<char>, b: Seq<char>)
    requires
        a.len() > 0,
        b.len() > 0,
        forall|k: int| 0 <= k < a.len() ==> !spec_is_whitespace(a[k]),
        forall|k: int| 0 <= k < b.len() ==> !spec_is_whitespace(b[k]),
    ensures
        spec_fields(a + seq![' '] + b) == seq![a, b],
{
    let s = a + seq![' '] + b;
    assert(s[0] == a[0]);
    lemma_field_len(s);
    let n = spec_field_len(s);
    assert(spec_is_whitespace(s[a.len() as int]));
    if n < a.len() {
        assert(s[n] == a[n]);
    }
    assert(n == a.len());
    assert(s.take(n) =~= a);
    let rest = s.skip(n);
    assert(rest =~= seq![' '] + b);
    assert(rest.drop_first() =~= b);
    assert(spec_trim_start(rest) == spec_trim_start(b));
    assert(spec_trim_start(b) == b);
    lemma_fields_one(b);
    assert(spec_field_len(spec_trim_start(rest)) == spec_field_len(b));
    lemma_field_len(b);
    if spec_field_len(b) < b.len() {
        assert(spec_is_whitespace(b[spec_field_len(b)]));
    }
    assert(spec_fields(rest) =~= seq![b]) by {
        let t = spec_trim_start(rest);
        let m = spec_field_len(t);
        assert(t == b);
        assert(m == b.len());
        assert(t.take(m) =~= b);
        assert(t.skip(m) =~= Seq::<char>::empty());
        assert(spec_fields(t.skip(m)) =~= Seq::<Seq<char>>::empty());
    }
    assert(spec_fields(s) =~= seq![a, b]);
}

// ---------------------------------------------------------------------------
// Words between ASCII white space

/// `s` without the ASCII white space at its start.
pub open spec fn spec_skip_ascii_whitespace(s: Seq<char>) -> Seq<char>
    decreases s.len(),
{
    if s.len() > 0 && spec_is_ascii_whitespace(s[0]) {
        spec_skip_ascii_whitespace(s.drop_first())
    } else {
        s
    }
}

/// The length of the longest prefix of `s` that holds no ASCII white space.
pub open spec fn spec_word_len(s: Seq<char>) -> int
    decreases s.len(),
{
    if s.len() == 0 || spec_is_ascii_whitespace(s[0]) {
        0
    } else {
        1 + spec_word_len(s.drop_first())
    }
}

/// The index of the first character among `from .. to` of `v` that is no ASCII
/// white space, or `to`.
pub fn skip_ascii_whitespace(v: &Vec<char>, from: usize, to: usize) -> (a: usize)
    requires
        from <= to <= v.len(),
    ensures
        from <= a <= to,
        v@.subrange(a as int, to as int) == spec_skip_ascii_whitespace(
            v@.subrange(from as int, to as int),
        ),
{
    let mut a: usize = from;
    while a < to && is_ascii_whitespace(v[a])
        invariant
            from <= a <= to <= v.len(),
            spec_skip_ascii_whitespace(v@.subrange(from as int, to as int))
                == spec_skip_ascii_whitespace(v@.subrange(a as int, to as int)),
        decreases to - a,
    {
        assert(v@.subrange(a as int, to as int).drop_first() =~= v@.subrange(a + 1, to as int));
        a = a + 1;
    }
    a
}

/// The end of the word that starts at `from`: the index of the first ASCII
/// white space among `from .. to` of `v`, or `to`.
pub fn word_end(v: &Vec<char>, from: usize, to: usize) -> (b: usize)
    requires
        from <= to <= v.len(),
    ensures
        from <= b <= to,
        b - from == spec_word_len(v@.subrange(from as int, to as int)),
{
    let mut b: usize = from;
    while b < to && !is_ascii_whitespace(v[b])
        invariant
            from <= b <= to <= v.len(),
            spec_word_len(v@.subrange(from as int, to as int)) == (b - from) + spec_word_len(
                v@.subrange(b as int, to as int),
            ),
        decreases to - b,
    {
        assert(v@.subrange(b as int, to as int).drop_first() =~= v@.subrange(b + 1, to as int));
        b = b + 1;
    }
    b
}

// ---------------------------------------------------------------------------
// Reading numbers

/// The value of a hexadecimal digit, in either case.
pub open spec fn spec_hex_value(c: char) -> Option<nat> {
    if '0' <= c <= '9' {
        Some((c as u32 - '0' as u32) as nat)
    } else if 'a' <= c <= 'f' {
        Some((c as u32 - 'a' as u32 + 10) as nat)
    } else if 'A' <= c <= 'F' {
        Some((c as u32 - 'A' as u32 + 10) as nat)
    } else {
        None
    }
}

/// The number that the hexadecimal digits `s` write; `None` where `s` is empty
/// or holds anything but digits.
pub open spec fn spec_hex_number(s: Seq<char>) -> Option<nat>
    decreases s.len(),
{
    if s.len() == 0 {
        None
    } else if s.len() == 1 {
        spec_hex_value(s[0])
    } else {
        match (spec_hex_number(s.drop_last()), spec_hex_value(s.last())) {
            (Some(high), Some(low)) => Some(16 * high + low),
            _ => None,
        }
    }
}

/// A 16-bit number written in hexadecimal: an optional `+`, then one or more
/// digits in either case, whose value fits in 16 bits.
pub open spec fn spec_parse_hex(s: Seq<char>) -> Option<u16> {
    let digits = if s.len() > 0 && s[0] == '+' {
        s.drop_first()
    } else {
        s
    };
    match spec_hex_number(digits) {
        Some(n) => if n <= 0xFFFF {
            Some(n as u16)
        } else {
            None
        },
        None => None,
    }
}

pub fn hex_value(c: char) -> (r: Option<u32>)
    ensures
        match r {
            Some(d) => spec_hex_value(c) == Some(d as nat) && d < 16,
            None => spec_hex_value(c) is None,
        },
{
    if '0' <= c && c <= '9' {
        Some(c as u32 - '0' as u32)
    } else if 'a' <= c && c <= 'f' {
        Some(c as u32 - 'a' as u32 + 10)
    } else if 'A' <= c && c <= 'F' {
        Some(c as u32 - 'A' as u32 + 10)
    } else {
        None
    }
}

/// What `spec_hex_number` is of a text that holds a character that is no digit.
proof fn lemma_hex_number_none(s: Seq<char>, k: int)
    requires
        0 <= k < s.len(),
        spec_hex_value(s[k]) is None,
    ensures
        spec_hex_number(s) is None,
    decreases s.len(),
{
    if s.len() > 1 && k < s.len() - 1 {
        lemma_hex_number_none(s.drop_last(), k);
    }
}

/// What `spec_hex_number` is of a text whose start already writes `high`.
proof fn lemma_hex_number_grows(s: Seq<char>, k: int)
    requires
        1 <= k <= s.len(),
        spec_hex_number(s.take(k)) is Some,
    ensures
        spec_hex_number(s) is Some ==> spec_hex_number(s)->0 >= spec_hex_number(s.take(k))->0,
    decreases s.len(),
{
    if k == s.len() {
        assert(s.take(k) =~= s);
    } else {
        assert(s.drop_last().take(k) =~= s.take(k));
        lemma_hex_number_grows(s.drop_last(), k);
    }
}

/// What one more digit at the end makes of a number.
proof fn lemma_hex_number_step(s: Seq<char>, k: int)
    requires
        0 <= k < s.len(),
    ensures
        spec_hex_number(s.take(k + 1)) == (if k == 0 {
            spec_hex_value(s[0])
        } else {
            match (spec_hex_number(s.take(k)), spec_hex_value(s[k])) {
                (Some(high), Some(low)) => Some(16 * high + low),
                _ => None,
            }
        }),
{
    let t = s.take(k + 1);
    assert(t.last() == s[k]);
    if k > 0 {
        assert(t.drop_last() =~= s.take(k));
    }
}

/// Reads a 16-bit number written in hexadecimal.
pub fn parse_hex(v: &Vec<char>) -> (r: Option<u16>)
    ensures
        r == spec_parse_hex(v@),
{
    let n: usize = v.len();
    let start: usize = if n > 0 && v[0] == '+' {
        1
    } else {
        0
    };
    let ghost digits = v@.skip(start as int);
    assert(start == 1 ==> digits =~= v@.drop_first());
    assert(start == 0 ==> digits =~= v@);
    if start == n {
        return None;
    }
    let mut acc: u32 = 0;
    let mut i: usize = start;
    while i < n
        invariant
            start <= i <= n == v.len(),
            start < n,
            digits == v@.skip(start as int),
            spec_parse_hex(v@) == (match spec_hex_number(digits) {
                Some(number) => if number <= 0xFFFF {
                    Some(number as u16)
                } else {
                    None
                },
                None => None,
            }),
            acc <= 0xFFFF,
            i > start ==> spec_hex_number(digits.take(i - start)) == Some(acc as nat),
            i == start ==> acc == 0,
        decreases n - i,
    {
        let ghost k = i - start;
        proof {
            lemma_hex_number_step(digits, k);
        }
        match hex_value(v[i]) {
            None => {
                proof {
                    lemma_hex_number_none(digits, k);
                }
                return None;
            },
            Some(d) => {
                let next: u32 = acc * 16 + d;
                if next > 0xFFFF {
                    proof {
                        lemma_hex_number_grows(digits, k + 1);
                    }
                    return None;
                }
                acc = next;
            },
        }
        i = i + 1;
    }
    assert(digits.take(n - start) =~= digits);
    Some(acc as u16)
}

// ---------------------------------------------------------------------------
// Writing numbers

/// The character that writes the digit `d`: `0` to `9`, then `A` to `F`.
pub open spec fn spec_digit_char(d: nat) -> char {
    if d < 10 {
        (d + '0' as u32) as char
    } else {
        (d - 10 + 'A' as u32) as char
    }
}

/// `v` in upper-case hexadecimal with no leading zero; zero is `0`.
pub open spec fn spec_hex_digits(v: nat) -> Seq<char>
    decreases v,
{
    if v < 16 {
        seq![spec_digit_char(v)]
    } else {
        spec_hex_digits(v / 16).push(spec_digit_char(v % 16))
    }
}

/// `v` in decimal with no leading zero; zero is `0`.
pub open spec fn spec_decimal(v: nat) -> Seq<char>
    decreases v,
{
    if v < 10 {
        seq![spec_digit_char(v)]
    } else {
        spec_decimal(v / 10).push(spec_digit_char(v % 10))
    }
}

/// `n` times the character `0`.
pub open spec fn spec_zeros(n: int) -> Seq<char> {
    Seq::new(
        if n > 0 {
            n as nat
        } else {
            0
        },
        |i: int| '0',
    )
}

/// `v` in upper-case hexadecimal, with zeros in front up to `width` characters.
pub open spec fn spec_hex(v: nat, width: nat) -> Seq<char> {
    spec_zeros(width - spec_hex_digits(v).len()) + spec_hex_digits(v)
}

pub fn digit_char(d: u32) -> (c: char)
    requires
        d < 16,
    ensures
        c == spec_digit_char(d as nat),
{
    if d < 10 {
        ((d as u8) + 48u8) as char
    } else {
        ((d as u8) + 55u8) as char
    }
}

/// A number below `16^k` takes at most `k` hexadecimal digits.
proof fn lemma_hex_digits_len(v: nat)
    ensures
        1 <= spec_hex_digits(v).len(),
        v < 0x10 ==> spec_hex_digits(v).len() <= 1,
        v < 0x100 ==> spec_hex_digits(v).len() <= 2,
        v < 0x1000 ==> spec_hex_digits(v).len() <= 3,
        v < 0x1_0000 ==> spec_hex_digits(v).len() <= 4,
        v < 0x10_0000 ==> spec_hex_digits(v).len() <= 5,
        v < 0x100_0000 ==> spec_hex_digits(v).len() <= 6,
        v < 0x1000_0000 ==> spec_hex_digits(v).len() <= 7,
        v < 0x1_0000_0000 ==> spec_hex_digits(v).len() <= 8,
    decreases v,
{
    if v >= 16 {
        lemma_hex_digits_len(v / 16);
    }
}

/// How many hexadecimal digits `v` takes.
pub fn hex_digit_count(v: u32) -> (n: usize)
    ensures
        n == spec_hex_digits(v as nat).len(),
        1 <= n <= 8,
{
    let mut n: usize = 1;
    let mut rest: u32 = v;
    proof {
        lemma_hex_digits_len(v as nat);
    }
    while rest >= 16
        invariant
            1 <= n,
            spec_hex_digits(v as nat).len() <= 8,
            spec_hex_digits(v as nat).len() == spec_hex_digits(rest as nat).len() + n - 1,
        decreases rest,
    {
        proof {
            lemma_hex_digits_len(rest as nat / 16);
        }
        rest = rest / 16;
        n = n + 1;
    }
    n
}

/// Appends `v` in upper-case hexadecimal to `s`, with no leading zero.
pub fn append_hex_digits(s: &mut String, v: u64)
    ensures
        final(s)@ == old(s)@ + spec_hex_digits(v as nat),
    decreases v,
{
    if v < 16 {
        push_char(s, digit_char(v as u32));
        assert(s@ =~= old(s)@ + spec_hex_digits(v as nat));
    } else {
        append_hex_digits(s, v / 16);
        push_char(s, digit_char((v % 16) as u32));
        assert(s@ =~= old(s)@ + spec_hex_digits(v as nat));
    }
}

/// Appends `v` in upper-case hexadecimal to `s`, with zeros in front up to `width` characters.
pub fn append_hex(s: &mut String, v: u32, width: usize)
    ensures
        final(s)@ == old(s)@ + spec_hex(v as nat, width as nat),
{
    let n: usize = hex_digit_count(v);
    let mut i: usize = n;
    while i < width
        invariant
            n <= i,
            i <= width || i == n,
            s@ == old(s)@ + spec_zeros(i - n),
        decreases width - i,
    {
        push_char(s, '0');
        i = i + 1;
        assert(s@ =~= old(s)@ + spec_zeros(i - n));
    }
    assert(spec_zeros(i - n) =~= spec_zeros(width - n));
    append_hex_digits(s, v as u64);
    assert(s@ =~= old(s)@ + spec_hex(v as nat, width as nat));
}

/// Appends `v` in decimal to `s`.
pub fn append_decimal(s: &mut String, v: u64)
    ensures
        final(s)@ == old(s)@ + spec_decimal(v as nat),
    decreases v,
{
    if v < 10 {
        push_char(s, digit_char(v as u32));
        assert(s@ =~= old(s)@ + spec_decimal(v as nat));
    } else {
        append_decimal(s, v / 10);
        push_char(s, digit_char((v % 10) as u32));
        assert(s@ =~= old(s)@ + spec_decimal(v as nat));
    }
}

// ---------------------------------------------------------------------------
// Reading what was written

/// Whether `c` is a digit as `spec_hex` writes it: `0` to `9` or `A` to `F`.
pub open spec fn spec_is_upper_hex(c: char) -> bool {
    ('0' <= c <= '9') || ('A' <= c <= 'F')
}

/// The digit that `spec_digit_char` writes reads back as its value.
pub proof fn lemma_digit_char(d: nat)
    requires
        d < 16,
    ensures
        spec_is_upper_hex(spec_digit_char(d)),
        spec_hex_value(spec_digit_char(d)) == Some(d),
{
}

/// A number in hexadecimal is made of digits, at least one.
pub proof fn lemma_hex_digits_chars(v: nat)
    ensures
        spec_hex_digits(v).len() >= 1,
        forall|k: int|
            0 <= k < spec_hex_digits(v).len() ==> spec_is_upper_hex(
                #[trigger] spec_hex_digits(v)[k],
            ),
    decreases v,
{
    if v < 16 {
        lemma_digit_char(v);
    } else {
        lemma_hex_digits_chars(v / 16);
        lemma_digit_char(v % 16);
    }
}

/// The digits of a number read back as the number.
pub proof fn lemma_hex_digits_read_back(v: nat)
    ensures
        spec_hex_number(spec_hex_digits(v)) == Some(v),
    decreases v,
{
    if v < 16 {
        lemma_digit_char(v);
    } else {
        lemma_hex_digits_read_back(v / 16);
        lemma_hex_digits_chars(v / 16);
        lemma_digit_char(v % 16);
        let s = spec_hex_digits(v);
        assert(s.drop_last() =~= spec_hex_digits(v / 16));
        assert(s.last() == spec_digit_char(v % 16));
    }
}

/// Zeros alone read as zero.
proof fn lemma_zeros_read(k: int)
    requires
        k >= 1,
    ensures
        spec_hex_number(spec_zeros(k)) == Some(0nat),
    decreases k,
{
    if k > 1 {
        lemma_zeros_read(k - 1);
        assert(spec_zeros(k).drop_last() =~= spec_zeros(k - 1));
    }
}

/// Zeros in front of a number do not change what it reads as.
pub proof fn lemma_leading_zeros(k: int, s: Seq<char>)
    requires
        s.len() >= 1,
    ensures
        spec_hex_number(spec_zeros(k) + s) == spec_hex_number(s),
    decreases s.len(),
{
    if k <= 0 {
        assert(spec_zeros(k) + s =~= s);
    } else if s.len() == 1 {
        lemma_zeros_read(k);
        assert((spec_zeros(k) + s).drop_last() =~= spec_zeros(k));
        assert((spec_zeros(k) + s).last() == s[0]);
    } else {
        lemma_leading_zeros(k, s.drop_last());
        assert((spec_zeros(k) + s).drop_last() =~= spec_zeros(k) + s.drop_last());
        assert((spec_zeros(k) + s).last() == s.last());
    }
}

/// A 16-bit number written by `spec_hex`, with any width, reads back as itself,
/// and what is written is made of digits alone.
pub proof fn lemma_hex_read_back(v: u16, width: nat)
    ensures
        spec_parse_hex(spec_hex(v as nat, width)) == Some(v),
        spec_hex(v as nat, width).len() >= 1,
        forall|k: int|
            0 <= k < spec_hex(v as nat, width).len() ==> spec_is_upper_hex(
                #[trigger] spec_hex(v as nat, width)[k],
            ),
{
    let digits = spec_hex_digits(v as nat);
    let zeros = spec_zeros(width - digits.len());
    lemma_hex_digits_chars(v as nat);
    lemma_hex_digits_read_back(v as nat);
    lemma_leading_zeros(width - digits.len(), digits);
    assert forall|k: int| 0 <= k < (zeros + digits).len() implies spec_is_upper_hex(
        #[trigger] (zeros + digits)[k],
    ) by {
        if k >= zeros.len() {
            assert((zeros + digits)[k] == digits[k - zeros.len()]);
        }
    }
    assert((zeros + digits)[0] != '+');
}

} // verus!
