//! Strings and lists of strings, seen as sequences of characters.

use vstd::prelude::*;
use vstd::string::*;

verus! {

/// The characters of a message.
pub type Text = Seq<char>;

/// The characters of every string of a list, in order.
pub open spec fn texts(list: Seq<String>) -> Seq<Text> {
    list.map_values(|s: String| s@)
}

/// A reply whose failure is a message, seen by the characters of the message.
pub open spec fn heard<T>(reply: Result<T, String>) -> Result<T, Text> {
    match reply {
        Ok(value) => Ok(value),
        Err(message) => Err(message@),
    }
}

/// Whether two strings have the same characters.
pub fn same(a: &str, b: &str) -> (r: bool)
    ensures
        r == (a@ == b@),
{
    let left: String = a.to_owned();
    let right: String = b.to_owned();
    left == right
}

/// Appends one message to a list of messages.
pub fn push_text(list: &mut Vec<String>, message: String)
    ensures
        texts(final(list)@) == texts(old(list)@).push(message@),
        final(list)@.len() == old(list)@.len() + 1,
{
    list.push(message);
    assert(texts(list@) =~= texts(old(list)@).push(message@));
}

/// A list that holds one message.
pub fn one_text(message: String) -> (list: Vec<String>)
    ensures
        texts(list@) == seq![message@],
{
    let mut list: Vec<String> = Vec::new();
    list.push(message);
    assert(texts(list@) =~= seq![message@]);
    list
}

/// The messages of a list with `between` set between each two of them.
pub open spec fn joined(list: Seq<Text>, between: Text) -> Text
    decreases list.len(),
{
    if list.len() == 0 {
        Seq::empty()
    } else if list.len() == 1 {
        list[0]
    } else {
        joined(list.drop_last(), between) + between + list.last()
    }
}

/// Joins a list of messages.
pub fn join(list: &Vec<String>, between: &str) -> (r: String)
    ensures
        r@ == joined(texts(list@), between@),
{
    let mut out = String::new();
    let mut i: usize = 0;
    while i < list.len()
        invariant
            i <= list.len(),
            out@ == joined(texts(list@.take(i as int)), between@),
        decreases list.len() - i,
    {
        assert(texts(list@.take(i + 1)).drop_last() =~= texts(list@.take(i as int)));
        assert(texts(list@.take(i + 1)).last() == list@[i as int]@);
        if i > 0 {
            out.append(between);
        } else {
            assert(out@ =~= Seq::<char>::empty());
        }
        out.append(list[i].as_str());
        assert(i == 0 ==> out@ =~= list@[0]@);
        i += 1;
    }
    assert(list@.take(i as int) =~= list@);
    out
}

/// Whether `s` holds `part` at position `at`.
pub open spec fn holds_at(s: Text, part: Text, at: int) -> bool {
    0 <= at && at + part.len() <= s.len() && s.subrange(at, at + part.len()) == part
}

/// Whether `s` holds `part` anywhere.
pub open spec fn holds_part(s: Text, part: Text) -> bool {
    exists|at: int| #[trigger] holds_at(s, part, at)
}

/// Tells whether a string holds another.
pub fn contains_part(s: &str, part: &str) -> (r: bool)
    ensures
        r == holds_part(s@, part@),
{
    let len: usize = s.unicode_len();
    let width: usize = part.unicode_len();
    let mut at: usize = 0;
    while at <= len && width <= len - at
        invariant
            at <= len + 1,
            len == s@.len(),
            width == part@.len(),
            forall|before: int| 0 <= before < at ==> !#[trigger] holds_at(s@, part@, before),
        decreases len + 1 - at,
    {
        if same(s.substring_char(at, at + width), part) {
            assert(holds_at(s@, part@, at as int));
            return true;
        }
        if at == len {
            assert(forall|later: int| later > at ==> !#[trigger] holds_at(s@, part@, later));
            return false;
        }
        at += 1;
    }
    assert(forall|later: int| later >= at ==> !#[trigger] holds_at(s@, part@, later));
    false
}

/// `s` from position `at` on, with every occurrence of `from`, taken from left to right without
/// overlap, put in place by `to`.
pub open spec fn replaced_from(s: Text, from: Text, to: Text, at: int) -> Text
    decreases s.len() - at,
{
    if at < 0 || at >= s.len() || from.len() == 0 {
        Seq::empty()
    } else if holds_at(s, from, at) {
        to + replaced_from(s, from, to, at + from.len())
    } else {
        seq![s[at]] + replaced_from(s, from, to, at + 1)
    }
}

/// `s` with every occurrence of a non-empty `from` put in place by `to`.
pub open spec fn replaced(s: Text, from: Text, to: Text) -> Text {
    replaced_from(s, from, to, 0)
}

/// Replaces every occurrence of a non-empty `from` by `to`.
pub fn replace(s: &str, from: &str, to: &str) -> (r: String)
    requires
        from@.len() > 0,
    ensures
        r@ == replaced(s@, from@, to@),
{
    let mut out = String::new();
    let mut at: usize = 0;
    let len: usize = s.unicode_len();
    let width: usize = from.unicode_len();
    while at < len
        invariant
            at <= len,
            len == s@.len(),
            width == from@.len(),
            width > 0,
            out@ + replaced_from(s@, from@, to@, at as int) == replaced(s@, from@, to@),
        decreases len - at,
    {
        let ghost before = out@;
        if width <= len - at && same(s.substring_char(at, at + width), from) {
            out.append(to);
            at += width;
            assert(out@ + replaced_from(s@, from@, to@, at as int) =~= before + (to@
                + replaced_from(s@, from@, to@, at as int)));
        } else {
            let ghost next = seq![s@[at as int]];
            out.append(s.substring_char(at, at + 1));
            assert(s@.subrange(at as int, at + 1) =~= next);
            at += 1;
            assert(out@ + replaced_from(s@, from@, to@, at as int) =~= before + (next
                + replaced_from(s@, from@, to@, at as int)));
        }
    }
    assert(out@ + Seq::<char>::empty() =~= out@);
    out
}

/// How the standard library writes a string for debugging: in quotes, with escapes.
pub uninterp spec fn debug_text(s: Seq<char>) -> Seq<char>;

/// Writes a string for debugging, by the `Debug` impl of `str`. The result is a function of the
/// characters of the string alone; nothing more is said of it.
#[verifier::external_body]
pub(crate) fn debug_of(s: &str) -> (r: String)
    ensures
        r@ == debug_text(s@),
{
    format!("{s:?}")
}

/// Three strings, one after the other.
pub(crate) fn concat3(a: &str, b: &str, c: &str) -> (r: String)
    ensures
        r@ == a@ + b@ + c@,
{
    let mut out = a.to_owned();
    out.append(b);
    out.append(c);
    out
}

/// Whether a character is a decimal digit.
pub open spec fn is_digit(c: char) -> bool {
    '0' <= c <= '9'
}

/// Whether every character is a decimal digit.
pub open spec fn all_digits(s: Text) -> bool {
    forall|i: int| 0 <= i < s.len() ==> is_digit(#[trigger] s[i])
}

/// The number that decimal digits stand for.
pub open spec fn number(s: Text) -> nat
    decreases s.len(),
{
    if s.len() == 0 {
        0
    } else {
        number(s.drop_last()) * 10 + (s.last() as nat - '0' as nat) as nat
    }
}

/// The number that a non-empty string of digits stands for, where it is at most `max`.
pub open spec fn digits_value(s: Text, max: nat) -> Option<nat> {
    if s.len() > 0 && all_digits(s) && number(s) <= max {
        Some(number(s))
    } else {
        None
    }
}

/// The number that a string of digits behind at most one plus sign stands for, where it is at most
/// `max`.
pub open spec fn unsigned_value(s: Text, max: nat) -> Option<nat> {
    if s.len() > 0 && s[0] == '+' {
        digits_value(s.skip(1), max)
    } else {
        digits_value(s, max)
    }
}

/// Further digits never make a number smaller.
proof fn lemma_number_grows(s: Text, n: int)
    requires
        0 <= n <= s.len(),
        all_digits(s),
    ensures
        number(s.take(n)) <= number(s),
    decreases s.len(),
{
    if n == s.len() {
        assert(s.take(n) =~= s);
    } else {
        let shorter = s.drop_last();
        assert(shorter.take(n) =~= s.take(n));
        assert(forall|i: int| 0 <= i < shorter.len() ==> shorter[i] == s[i]);
        lemma_number_grows(shorter, n);
    }
}

/// Reads a non-empty string of digits as a number of at most `max`.
pub fn parse_digits(s: &str, max: u64) -> (r: Option<u64>)
    ensures
        r == (match digits_value(s@, max as nat) {
            Some(value) => Some(value as u64),
            None => None::<u64>,
        }),
{
    let len: usize = s.unicode_len();
    if len == 0 {
        return None;
    }
    let mut value: u64 = 0;
    let mut at: usize = 0;
    while at < len
        invariant
            at <= len,
            len == s@.len(),
            all_digits(s@.take(at as int)),
            value == number(s@.take(at as int)),
            value <= max,
        decreases len - at,
    {
        let c = s.get_char(at);
        let ghost next = s@.take(at + 1);
        assert(next.drop_last() =~= s@.take(at as int));
        assert(next.last() == c);
        if c < '0' || c > '9' {
            assert(!is_digit(s@[at as int]));
            return None;
        }
        let digit: u64 = (c as u32 - 48) as u64;
        assert(number(next) == value * 10 + digit);
        if value > (max - digit.min(max)) / 10 || digit > max {
            proof {
                if all_digits(s@) {
                    lemma_number_grows(s@, at + 1);
                    assert(number(next) > max);
                }
            }
            return None;
        }
        value = value * 10 + digit;
        assert forall|i: int| 0 <= i < next.len() implies is_digit(#[trigger] next[i]) by {
            if i < at {
                assert(s@.take(at as int)[i] == next[i]);
            }
        }
        at += 1;
    }
    assert(s@.take(at as int) =~= s@);
    Some(value)
}

/// Reads a string of digits behind at most one plus sign as a number of at most `max`.
pub fn parse_unsigned(s: &str, max: u64) -> (r: Option<u64>)
    ensures
        r == (match unsigned_value(s@, max as nat) {
            Some(value) => Some(value as u64),
            None => None::<u64>,
        }),
{
    let len: usize = s.unicode_len();
    if len > 0 && s.get_char(0) == '+' {
        let rest = s.substring_char(1, len);
        assert(rest@ =~= s@.skip(1));
        parse_digits(rest, max)
    } else {
        parse_digits(s, max)
    }
}

/// The decimal digits of a number.
pub open spec fn digits(n: nat) -> Text
    decreases n,
{
    if n < 10 {
        seq![('0' as u32 + n as u32) as char]
    } else {
        digits(n / 10).push(('0' as u32 + (n % 10) as u32) as char)
    }
}

/// The digit of a number below ten.
fn digit_str(n: u64) -> (r: &'static str)
    requires
        n < 10,
    ensures
        r@ == seq![('0' as u32 + n as u32) as char],
{
    proof {
        reveal_strlit("0");
        reveal_strlit("1");
        reveal_strlit("2");
        reveal_strlit("3");
        reveal_strlit("4");
        reveal_strlit("5");
        reveal_strlit("6");
        reveal_strlit("7");
        reveal_strlit("8");
        reveal_strlit("9");
    }
    let r = match n {
        0 => "0",
        1 => "1",
        2 => "2",
        3 => "3",
        4 => "4",
        5 => "5",
        6 => "6",
        7 => "7",
        8 => "8",
        _ => "9",
    };
    assert(r@ =~= seq![('0' as u32 + n as u32) as char]);
    r
}

/// Writes a number in decimal.
pub fn decimal(n: u64) -> (r: String)
    ensures
        r@ == digits(n as nat),
    decreases n,
{
    if n < 10 {
        digit_str(n).to_owned()
    } else {
        let mut out = decimal(n / 10);
        let ghost before = out@;
        out.append(digit_str(n % 10));
        assert(out@ =~= before.push(('0' as u32 + (n % 10) as u32) as char));
        out
    }
}

/// A number in decimal, behind a minus sign where it is negative.
pub open spec fn signed_digits(n: int) -> Text {
    if n < 0 {
        "-"@ + digits((-n) as nat)
    } else {
        digits(n as nat)
    }
}

/// Writes a number in decimal, behind a minus sign where it is negative.
pub fn signed_decimal(n: i64) -> (r: String)
    ensures
        r@ == signed_digits(n as int),
{
    if n >= 0 {
        return decimal(n as u64);
    }
    let mut out = "-".to_owned();
    if n == i64::MIN {
        out.append(decimal(0x8000_0000_0000_0000u64).as_str());
    } else {
        out.append(decimal((-n) as u64).as_str());
    }
    out
}

/// The hexadecimal digit of a number below sixteen.
pub open spec fn hex_digit(n: nat) -> char {
    if n < 10 {
        ('0' as u32 + n as u32) as char
    } else {
        ('a' as u32 + (n - 10) as u32) as char
    }
}

/// The hexadecimal digits of a number, in lower case.
pub open spec fn hex_digits(n: nat) -> Text
    decreases n,
{
    if n < 16 {
        seq![hex_digit(n)]
    } else {
        hex_digits(n / 16).push(hex_digit(n % 16))
    }
}

/// The hexadecimal digit of a number below sixteen, as a string.
fn hex_digit_str(n: u64) -> (r: &'static str)
    requires
        n < 16,
    ensures
        r@ == seq![hex_digit(n as nat)],
{
    if n < 10 {
        return digit_str(n);
    }
    proof {
        reveal_strlit("a");
        reveal_strlit("b");
        reveal_strlit("c");
        reveal_strlit("d");
        reveal_strlit("e");
        reveal_strlit("f");
    }
    let r = match n {
        10 => "a",
        11 => "b",
        12 => "c",
        13 => "d",
        14 => "e",
        _ => "f",
    };
    assert(r@ =~= seq![hex_digit(n as nat)]);
    r
}

/// Writes a number in hexadecimal, in lower case and without a prefix.
pub fn hexadecimal(n: u64) -> (r: String)
    ensures
        r@ == hex_digits(n as nat),
    decreases n,
{
    if n < 16 {
        hex_digit_str(n).to_owned()
    } else {
        let mut out = hexadecimal(n / 16);
        let ghost before = out@;
        out.append(hex_digit_str(n % 16));
        assert(out@ =~= before.push(hex_digit((n % 16) as nat)));
        out
    }
}

/// The first position of `c` in `s` at or after `from`, or the end.
pub open spec fn index_from(s: Text, c: char, from: int) -> int
    decreases s.len() - from,
{
    if from < 0 || from >= s.len() {
        s.len() as int
    } else if s[from] == c {
        from
    } else {
        index_from(s, c, from + 1)
    }
}

/// Finds the first position of `c` in `s` at or after `from`, or the end.
pub fn find_from(s: &str, c: char, from: usize) -> (r: usize)
    requires
        from <= s@.len(),
    ensures
        r == index_from(s@, c, from as int),
        from <= r <= s@.len(),
{
    let len: usize = s.unicode_len();
    let mut at: usize = from;
    while at < len
        invariant
            from <= at <= len,
            len == s@.len(),
            index_from(s@, c, at as int) == index_from(s@, c, from as int),
        decreases len - at,
    {
        if s.get_char(at) == c {
            return at;
        }
        at += 1;
    }
    len
}

/// The parts of `s` from position `from` on that `c` stands between.
pub open spec fn pieces_from(s: Text, c: char, from: int) -> Seq<Text>
    decreases s.len() - from,
{
    if from < 0 || from > s.len() {
        Seq::empty()
    } else {
        let end = index_from(s, c, from);
        if from <= end < s.len() {
            seq![s.subrange(from, end)] + pieces_from(s, c, end + 1)
        } else {
            seq![s.subrange(from, s.len() as int)]
        }
    }
}

/// The parts of `s` that `c` stands between.
pub open spec fn pieces(s: Text, c: char) -> Seq<Text> {
    pieces_from(s, c, 0)
}

/// Takes `s` apart at every `c`.
pub fn split_at_each(s: &str, c: char) -> (parts: Vec<String>)
    ensures
        texts(parts@) == pieces(s@, c),
{
    let len: usize = s.unicode_len();
    let mut parts: Vec<String> = Vec::new();
    assert(texts(parts@) =~= Seq::<Text>::empty());
    let mut from: usize = 0;
    assert(Seq::<Text>::empty() + pieces(s@, c) =~= pieces(s@, c));
    loop
        invariant
            from <= len,
            len == s@.len(),
            texts(parts@) + pieces_from(s@, c, from as int) == pieces(s@, c),
        decreases len - from,
    {
        let end: usize = find_from(s, c, from);
        let ghost before = texts(parts@);
        let ghost part = s@.subrange(from as int, end as int);
        push_text(&mut parts, s.substring_char(from, end).to_owned());
        if end >= len {
            assert(texts(parts@) =~= before + seq![part]);
            return parts;
        }
        from = end + 1;
        assert(texts(parts@) + pieces_from(s@, c, from as int) =~= before + (seq![part]
            + pieces_from(s@, c, from as int)));
    }
}

/// Whether a character is white space of Unicode.
pub open spec fn is_space(c: char) -> bool {
    '\t' <= c <= '\r' || c == ' ' || c == '\u{85}' || c == '\u{a0}' || c == '\u{1680}'
        || '\u{2000}' <= c <= '\u{200a}' || c == '\u{2028}' || c == '\u{2029}' || c
        == '\u{202f}' || c == '\u{205f}' || c == '\u{3000}'
}

/// Tells whether a character is white space of Unicode.
fn is_space_char(c: char) -> (r: bool)
    ensures
        r == is_space(c),
{
    ('\t' <= c && c <= '\r') || c == ' ' || c == '\u{85}' || c == '\u{a0}' || c == '\u{1680}' || (
    '\u{2000}' <= c && c <= '\u{200a}') || c == '\u{2028}' || c == '\u{2029}' || c == '\u{202f}'
        || c == '\u{205f}' || c == '\u{3000}'
}

/// The first position at or after `from` that holds no white space, or the end.
pub open spec fn skip_space(s: Text, from: int) -> int
    decreases s.len() - from,
{
    if from < 0 || from >= s.len() {
        s.len() as int
    } else if is_space(s[from]) {
        skip_space(s, from + 1)
    } else {
        from
    }
}

/// The end of `s` without the white space before position `to`, but not before `from`.
pub open spec fn drop_space(s: Text, from: int, to: int) -> int
    decreases to - from,
{
    if to <= from {
        from
    } else if is_space(s[to - 1]) {
        drop_space(s, from, to - 1)
    } else {
        to
    }
}

/// `s` without the white space at its two ends.
pub open spec fn trimmed(s: Text) -> Text {
    let from = skip_space(s, 0);
    s.subrange(from, drop_space(s, from, s.len() as int))
}

/// Takes the white space off the two ends.
pub fn trim(s: &str) -> (r: &str)
    ensures
        r@ == trimmed(s@),
{
    let len: usize = s.unicode_len();
    let mut from: usize = 0;
    while from < len && is_space_char(s.get_char(from))
        invariant
            from <= len,
            len == s@.len(),
            skip_space(s@, from as int) == skip_space(s@, 0),
        decreases len - from,
    {
        from += 1;
    }
    let mut to: usize = len;
    while to > from && is_space_char(s.get_char(to - 1))
        invariant
            from <= to <= len,
            len == s@.len(),
            drop_space(s@, from as int, to as int) == drop_space(s@, from as int, len as int),
        decreases to,
    {
        to -= 1;
    }
    s.substring_char(from, to)
}

/// Where the last word of `s` before position `to` starts.
pub open spec fn last_word_start(s: Text, to: int) -> int
    decreases to,
{
    if to <= 0 || is_space(s[to - 1]) {
        to
    } else {
        last_word_start(s, to - 1)
    }
}

/// The last word of a text without white space at its end.
pub open spec fn last_word(s: Text) -> Text {
    s.skip(last_word_start(s, s.len() as int))
}

/// Takes the last word of a text without white space at its end.
pub fn take_last_word(s: &str) -> (r: &str)
    ensures
        r@ == last_word(s@),
{
    let len: usize = s.unicode_len();
    let mut at: usize = len;
    while at > 0 && !is_space_char(s.get_char(at - 1))
        invariant
            at <= len,
            len == s@.len(),
            last_word_start(s@, at as int) == last_word_start(s@, len as int),
        decreases at,
    {
        at -= 1;
    }
    let r = s.substring_char(at, len);
    assert(r@ =~= s@.skip(at as int));
    r
}

/// The lines of `s` from position `from` on. A line feed ends a line, with a carriage return right
/// before it; what stands behind the last line feed is a line where it is not empty.
pub open spec fn lines_from(s: Text, from: int) -> Seq<Text>
    decreases s.len() - from,
{
    if from < 0 || from >= s.len() {
        Seq::empty()
    } else {
        let end = index_from(s, '\n', from);
        if from <= end < s.len() {
            let to = if end > from && s[end - 1] == '\r' {
                end - 1
            } else {
                end
            };
            seq![s.subrange(from, to)] + lines_from(s, end + 1)
        } else {
            seq![s.subrange(from, s.len() as int)]
        }
    }
}

/// Takes `s` apart into lines.
pub fn split_lines(s: &str) -> (lines: Vec<String>)
    ensures
        texts(lines@) == lines_from(s@, 0),
{
    let len: usize = s.unicode_len();
    let mut lines: Vec<String> = Vec::new();
    assert(texts(lines@) =~= Seq::<Text>::empty());
    let mut from: usize = 0;
    assert(Seq::<Text>::empty() + lines_from(s@, 0) =~= lines_from(s@, 0));
    while from < len
        invariant
            from <= len,
            len == s@.len(),
            texts(lines@) + lines_from(s@, from as int) == lines_from(s@, 0),
        decreases len - from,
    {
        let end: usize = find_from(s, '\n', from);
        let ghost before = texts(lines@);
        let mut to: usize = end;
        if end < len && end > from && s.get_char(end - 1) == '\r' {
            to = end - 1;
        }
        let ghost line = s@.subrange(from as int, to as int);
        push_text(&mut lines, s.substring_char(from, to).to_owned());
        if end >= len {
            assert(texts(lines@) =~= before + seq![line]);
            return lines;
        }
        from = end + 1;
        assert(texts(lines@) + lines_from(s@, from as int) =~= before + (seq![line] + lines_from(
            s@,
            from as int,
        )));
    }
    assert(texts(lines@) + Seq::<Text>::empty() =~= texts(lines@));
    lines
}

/// Whether `a` stands before `b` in the order of characters, from position `at` on, where both
/// agree before it.
pub open spec fn precedes_from(a: Text, b: Text, at: int) -> bool
    decreases a.len() - at,
{
    if at < 0 || at >= b.len() {
        false
    } else if at >= a.len() {
        true
    } else if a[at] != b[at] {
        a[at] < b[at]
    } else {
        precedes_from(a, b, at + 1)
    }
}

/// Whether `a` stands before `b` in the order of characters.
pub open spec fn precedes(a: Text, b: Text) -> bool {
    precedes_from(a, b, 0)
}

/// Two texts are equal, or one stands before the other, and never both ways.
pub proof fn lemma_precedes_total(a: Text, b: Text, at: int)
    requires
        0 <= at <= a.len(),
        at <= b.len(),
        forall|i: int| 0 <= i < at ==> a[i] == b[i],
    ensures
        !(precedes_from(a, b, at) && precedes_from(b, a, at)),
        precedes_from(a, b, at) || precedes_from(b, a, at) || a == b,
        a == b ==> !precedes_from(a, b, at),
    decreases a.len() - at,
{
    if at < a.len() && at < b.len() && a[at] == b[at] {
        lemma_precedes_total(a, b, at + 1);
    } else if at == a.len() && at == b.len() {
        assert(a =~= b);
    }
}

/// What stands before a text that stands before a third stands before the third.
pub proof fn lemma_precedes_transitive(a: Text, b: Text, c: Text, at: int)
    requires
        0 <= at,
        precedes_from(a, b, at),
        precedes_from(b, c, at),
    ensures
        precedes_from(a, c, at),
    decreases a.len() - at,
{
    if at < a.len() && a[at] == b[at] && b[at] == c[at] {
        lemma_precedes_transitive(a, b, c, at + 1);
    }
}

/// Compares two strings in the order of characters.
pub fn is_before(a: &str, b: &str) -> (r: bool)
    ensures
        r == precedes(a@, b@),
{
    let alen: usize = a.unicode_len();
    let blen: usize = b.unicode_len();
    let mut at: usize = 0;
    while at < blen
        invariant
            at <= blen,
            at <= alen,
            alen == a@.len(),
            blen == b@.len(),
            precedes(a@, b@) == precedes_from(a@, b@, at as int),
        decreases blen - at,
    {
        if at >= alen {
            return true;
        }
        let x = a.get_char(at);
        let y = b.get_char(at);
        if x != y {
            return x < y;
        }
        at += 1;
    }
    false
}

} // verus!
