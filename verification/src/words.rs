//! What holds of numbers, words and lines as they are read and written.

use crate::text::{
    all_digits, digits, digits_value, drop_space, hex_digit, hex_digits, holds_at, index_from,
    is_digit, is_space, joined, last_word, last_word_start, lines_from, number, pieces,
    pieces_from, replaced_from, skip_space, trimmed, unsigned_value, Text,
};
use vstd::prelude::*;

verus! {

/// A number that is written in decimal reads as itself, with a plus sign before it or without.
pub proof fn lemma_written_reads_back(n: nat, max: nat)
    requires
        n <= max,
    ensures
        digits_value(digits(n), max) == Some(n),
        unsigned_value(digits(n), max) == Some(n),
        unsigned_value(seq!['+'] + digits(n), max) == Some(n),
{
    lemma_digits(n);
    assert(is_digit(digits(n)[0]));
    assert((seq!['+'] + digits(n)).skip(1) =~= digits(n));
}

/// The digits of a number are digits, and stand for the number.
proof fn lemma_digits(n: nat)
    ensures
        digits(n).len() > 0,
        all_digits(digits(n)),
        number(digits(n)) == n,
    decreases n,
{
    if n < 10 {
        assert(number(digits(n)) == n) by {
            reveal_with_fuel(number, 2);
            assert(digits(n).drop_last() =~= Seq::<char>::empty());
        }
    } else {
        lemma_digits(n / 10);
        let before = digits(n / 10);
        let now = digits(n);
        assert(now.drop_last() =~= before);
        assert forall|i: int| 0 <= i < now.len() implies is_digit(#[trigger] now[i]) by {
            if i < before.len() {
                assert(now[i] == before[i]);
            }
        }
    }
}

/// Two numbers with the same digits are one, in decimal and in hexadecimal.
pub proof fn lemma_digits_tell_numbers(a: nat, b: nat)
    ensures
        digits(a) == digits(b) ==> a == b,
        hex_digits(a) == hex_digits(b) ==> a == b,
{
    lemma_digits(a);
    lemma_digits(b);
    if hex_digits(a) == hex_digits(b) {
        lemma_hex_digits(a, b);
    }
}

/// Hexadecimal digits differ where their numbers do.
proof fn lemma_hex_digits(a: nat, b: nat)
    requires
        hex_digits(a) == hex_digits(b),
    ensures
        a == b,
    decreases a,
{
    lemma_hex_len(a);
    lemma_hex_len(b);
    if a < 16 && b < 16 {
        assert(hex_digits(a) == seq![hex_digit(a)]);
        assert(hex_digits(b) == seq![hex_digit(b)]);
        assert(seq![hex_digit(a)][0] == seq![hex_digit(b)][0]);
        lemma_hex_digit(a, b);
    } else if a >= 16 && b >= 16 {
        let x = hex_digits(a / 16);
        let y = hex_digits(b / 16);
        assert(hex_digits(a) == x.push(hex_digit(a % 16)));
        assert(hex_digits(b) == y.push(hex_digit(b % 16)));
        assert(hex_digits(a).drop_last() =~= x);
        assert(hex_digits(b).drop_last() =~= y);
        assert(x.push(hex_digit(a % 16)).last() == hex_digit(a % 16));
        assert(y.push(hex_digit(b % 16)).last() == hex_digit(b % 16));
        lemma_hex_digits(a / 16, b / 16);
        lemma_hex_digit(a % 16, b % 16);
    }
}

/// Hexadecimal digits of numbers from sixteen on are at least two.
proof fn lemma_hex_len(n: nat)
    ensures
        hex_digits(n).len() >= 1,
        n >= 16 ==> hex_digits(n).len() >= 2,
    decreases n,
{
    if n >= 16 {
        lemma_hex_len(n / 16);
    }
}

/// A hexadecimal digit tells its number.
proof fn lemma_hex_digit(a: nat, b: nat)
    requires
        a < 16,
        b < 16,
        hex_digit(a) == hex_digit(b),
    ensures
        a == b,
{
}

/// What is read as a number holds nothing but digits, behind at most one plus sign, and is no more
/// than is allowed.
pub proof fn lemma_numbers_are_digits(s: Text, max: nat)
    ensures
        unsigned_value(s, max) matches Some(n) ==> n <= max && s.len() > 0 && forall|i: int|
            1 <= i < s.len() ==> '0' <= #[trigger] s[i] <= '9',
        digits_value(s, max) matches Some(n) ==> n <= max && s.len() > 0 && forall|i: int|
            0 <= i < s.len() ==> '0' <= #[trigger] s[i] <= '9',
{
    if unsigned_value(s, max) is Some {
        assert forall|i: int| 1 <= i < s.len() implies '0' <= #[trigger] s[i] <= '9' by {
            if s[0] == '+' {
                assert(s.skip(1)[i - 1] == s[i]);
            }
            assert(is_digit(s[i]));
        }
    }
    if digits_value(s, max) is Some {
        assert forall|i: int| 0 <= i < s.len() implies '0' <= #[trigger] s[i] <= '9' by {
            assert(is_digit(s[i]));
        }
    }
}

/// A character is found where it stands first.
pub proof fn lemma_index(s: Text, c: char, from: int)
    requires
        0 <= from <= s.len(),
    ensures
        from <= index_from(s, c, from) <= s.len(),
        index_from(s, c, from) < s.len() ==> s[index_from(s, c, from)] == c,
        forall|i: int| from <= i < index_from(s, c, from) ==> #[trigger] s[i] != c,
    decreases s.len() - from,
{
    if from < s.len() && s[from] != c {
        lemma_index(s, c, from + 1);
    }
}

/// The parts that a character stands between make up the whole with it between them, and none of
/// them holds it.
pub proof fn lemma_pieces(s: Text, c: char)
    ensures
        joined(pieces(s, c), seq![c]) == s,
        pieces(s, c).len() > 0,
        forall|i: int, j: int|
            0 <= i < pieces(s, c).len() && 0 <= j < pieces(s, c)[i].len()
                ==> #[trigger] pieces(s, c)[i][j] != c,
{
    lemma_pieces_from(s, c, 0);
    assert(s.skip(0) =~= s);
}

/// The parts from a position on make up what stands from there on.
proof fn lemma_pieces_from(s: Text, c: char, from: int)
    requires
        0 <= from <= s.len(),
    ensures
        joined(pieces_from(s, c, from), seq![c]) == s.skip(from),
        pieces_from(s, c, from).len() > 0,
        forall|i: int, j: int|
            0 <= i < pieces_from(s, c, from).len() && 0 <= j < pieces_from(s, c, from)[i].len()
                ==> #[trigger] pieces_from(s, c, from)[i][j] != c,
    decreases s.len() - from,
{
    lemma_index(s, c, from);
    let end = index_from(s, c, from);
    let all = pieces_from(s, c, from);
    if end < s.len() {
        let first = s.subrange(from, end);
        let rest = pieces_from(s, c, end + 1);
        lemma_pieces_from(s, c, end + 1);
        lemma_joined_first(first, rest, seq![c]);
        assert(s.skip(from) =~= first + seq![c] + s.skip(end + 1));
        assert forall|i: int, j: int| 0 <= i < all.len() && 0 <= j < all[i].len() implies
            #[trigger] all[i][j] != c by {
            if i == 0 {
                assert(all[0][j] == s[from + j]);
            } else {
                assert(all[i] == rest[i - 1]);
                assert(rest[i - 1][j] != c);
            }
        }
    } else {
        assert(all =~= seq![s.subrange(from, s.len() as int)]);
        assert(s.subrange(from, s.len() as int) =~= s.skip(from));
        assert forall|i: int, j: int| 0 <= i < all.len() && 0 <= j < all[i].len() implies
            #[trigger] all[i][j] != c by {
            assert(all[0][j] == s[from + j]);
        }
    }
}

/// A list is joined to what stands before it.
pub proof fn lemma_joined_first(first: Text, rest: Seq<Text>, between: Text)
    requires
        rest.len() > 0,
    ensures
        joined(seq![first] + rest, between) == first + between + joined(rest, between),
    decreases rest.len(),
{
    let all = seq![first] + rest;
    if rest.len() == 1 {
        assert(all.drop_last() =~= seq![first]);
        reveal_with_fuel(joined, 2);
        assert(joined(all, between) =~= first + between + rest[0]);
    } else {
        let shorter = rest.drop_last();
        lemma_joined_first(first, shorter, between);
        assert(all.drop_last() =~= seq![first] + shorter);
        assert(all.last() == rest.last());
        assert(joined(all, between) =~= first + between + joined(rest, between));
    }
}

/// Trimming takes white space off the two ends, all of it, and nothing else.
pub proof fn lemma_trimmed(s: Text)
    ensures
        exists|from: int, to: int|
            0 <= from <= to <= s.len() && #[trigger] s.subrange(from, to) == trimmed(s) && (forall|
                i: int,
            |
                0 <= i < from ==> is_space(#[trigger] s[i])) && (forall|i: int|
                to <= i < s.len() ==> is_space(#[trigger] s[i])),
        trimmed(s).len() > 0 ==> !is_space(trimmed(s)[0]) && !is_space(trimmed(s).last()),
{
    let from = skip_space(s, 0);
    lemma_skip_space(s, 0);
    let to = drop_space(s, from, s.len() as int);
    lemma_drop_space(s, from, s.len() as int);
    assert(s.subrange(from, to) == trimmed(s));
}

/// White space is passed over, all of it.
proof fn lemma_skip_space(s: Text, from: int)
    requires
        0 <= from <= s.len(),
    ensures
        from <= skip_space(s, from) <= s.len(),
        forall|i: int| from <= i < skip_space(s, from) ==> is_space(#[trigger] s[i]),
        skip_space(s, from) < s.len() ==> !is_space(s[skip_space(s, from)]),
    decreases s.len() - from,
{
    if from < s.len() && is_space(s[from]) {
        lemma_skip_space(s, from + 1);
    }
}

/// White space is taken off the end, all of it.
proof fn lemma_drop_space(s: Text, from: int, to: int)
    requires
        0 <= from <= to <= s.len(),
    ensures
        from <= drop_space(s, from, to) <= to,
        forall|i: int| drop_space(s, from, to) <= i < to ==> is_space(#[trigger] s[i]),
        drop_space(s, from, to) > from ==> !is_space(s[drop_space(s, from, to) - 1]),
    decreases to - from,
{
    if to > from && is_space(s[to - 1]) {
        lemma_drop_space(s, from, to - 1);
    }
}

/// The last word holds no white space, and begins the text or follows white space.
pub proof fn lemma_last_word(s: Text)
    ensures
        exists|at: int|
            0 <= at <= s.len() && #[trigger] s.skip(at) == last_word(s) && (at == 0 || is_space(
                s[at - 1],
            )) && forall|i: int| at <= i < s.len() ==> !is_space(#[trigger] s[i]),
{
    lemma_last_word_start(s, s.len() as int);
    let at = last_word_start(s, s.len() as int);
    assert(s.skip(at) == last_word(s));
}

/// Where a word starts.
proof fn lemma_last_word_start(s: Text, to: int)
    requires
        0 <= to <= s.len(),
    ensures
        0 <= last_word_start(s, to) <= to,
        last_word_start(s, to) == 0 || is_space(s[last_word_start(s, to) - 1]),
        forall|i: int| last_word_start(s, to) <= i < to ==> !is_space(#[trigger] s[i]),
    decreases to,
{
    if to > 0 && !is_space(s[to - 1]) {
        lemma_last_word_start(s, to - 1);
    }
}

/// No line holds a line feed.
pub proof fn lemma_lines(s: Text, from: int)
    requires
        0 <= from <= s.len(),
    ensures
        forall|i: int, j: int|
            0 <= i < lines_from(s, from).len() && 0 <= j < lines_from(s, from)[i].len()
                ==> #[trigger] lines_from(s, from)[i][j] != '\n',
    decreases s.len() - from,
{
    if from < s.len() {
        lemma_index(s, '\n', from);
        let end = index_from(s, '\n', from);
        let all = lines_from(s, from);
        if end < s.len() {
            lemma_lines(s, end + 1);
            let rest = lines_from(s, end + 1);
            assert forall|i: int, j: int| 0 <= i < all.len() && 0 <= j < all[i].len() implies
                #[trigger] all[i][j] != '\n' by {
                if i == 0 {
                    assert(all[0][j] == s[from + j]);
                } else {
                    assert(all[i] == rest[i - 1]);
                    assert(rest[i - 1][j] != '\n');
                }
            }
        } else {
            assert forall|i: int, j: int| 0 <= i < all.len() && 0 <= j < all[i].len() implies
                #[trigger] all[i][j] != '\n' by {
                assert(all[0][j] == s[from + j]);
            }
        }
    }
}

/// A line behind which a line feed stands is the first line, and the lines behind it follow.
pub proof fn lemma_first_line(line: Text, rest: Text)
    requires
        forall|i: int| 0 <= i < line.len() ==> #[trigger] line[i] != '\n' && line[i] != '\r',
    ensures
        lines_from(line.push('\n') + rest, 0) == seq![line] + lines_from(rest, 0),
        lines_from(line + seq!['\r', '\n'] + rest, 0) == seq![line] + lines_from(rest, 0),
        line.len() > 0 ==> lines_from(line, 0) == seq![line],
{
    let s = line.push('\n') + rest;
    let n = line.len() as int;
    lemma_index(s, '\n', 0);
    let end = index_from(s, '\n', 0);
    assert(s[n] == '\n');
    assert forall|i: int| 0 <= i < n implies s[i] != '\n' by {
        assert(s[i] == line[i]);
    }
    assert(end == n);
    assert(n > 0 ==> s[n - 1] == line[n - 1]);
    assert(s.subrange(0, n) =~= line);
    lemma_lines_shift(line.push('\n'), rest, 0);
    let t = line + seq!['\r', '\n'] + rest;
    lemma_index(t, '\n', 0);
    assert(t[n + 1] == '\n' && t[n] == '\r');
    assert forall|i: int| 0 <= i < n + 1 implies t[i] != '\n' by {
        if i < n {
            assert(t[i] == line[i]);
        }
    }
    assert(index_from(t, '\n', 0) == n + 1);
    assert(t.subrange(0, n) =~= line);
    lemma_lines_shift(line + seq!['\r', '\n'], rest, 0);
    if n > 0 {
        lemma_index(line, '\n', 0);
        assert(index_from(line, '\n', 0) == n);
        assert(line.subrange(0, n) =~= line);
    }
}

/// Lines stand behind other text as they stand alone.
proof fn lemma_lines_shift(before: Text, rest: Text, from: int)
    requires
        0 <= from <= rest.len(),
    ensures
        lines_from(before + rest, before.len() + from) == lines_from(rest, from),
    decreases rest.len() - from,
{
    let s = before + rest;
    let n = before.len() as int;
    if from < rest.len() {
        lemma_index_shifts(before, rest, '\n', from);
        lemma_index(rest, '\n', from);
        let end = index_from(rest, '\n', from);
        if end < rest.len() {
            lemma_lines_shift(before, rest, end + 1);
            assert(end > from ==> s[n + end - 1] == rest[end - 1]);
            let to = if end > from && rest[end - 1] == '\r' {
                end - 1
            } else {
                end
            };
            assert(s.subrange(n + from, n + to) =~= rest.subrange(from, to));
        } else {
            assert(s.subrange(n + from, s.len() as int) =~= rest.subrange(
                from,
                rest.len() as int,
            ));
        }
    }
}

/// A character stands behind other text as it stands alone.
proof fn lemma_index_shifts(before: Text, rest: Text, c: char, from: int)
    requires
        0 <= from <= rest.len(),
    ensures
        index_from(before + rest, c, before.len() + from) == before.len() + index_from(
            rest,
            c,
            from,
        ),
    decreases rest.len() - from,
{
    if from < rest.len() {
        assert((before + rest)[before.len() + from] == rest[from]);
        if rest[from] != c {
            lemma_index_shifts(before, rest, c, from + 1);
        }
    }
}

/// Replacing takes every occurrence, and leaves a text without one as it is.
pub proof fn lemma_replaced(s: Text, from: Text, to: Text, at: int)
    requires
        0 <= at <= s.len(),
        from.len() > 0,
    ensures
        (forall|i: int| at <= i ==> !#[trigger] holds_at(s, from, i)) ==> replaced_from(
            s,
            from,
            to,
            at,
        ) == s.skip(at),
        holds_at(s, from, at) ==> replaced_from(s, from, to, at) == to + replaced_from(
            s,
            from,
            to,
            at + from.len(),
        ),
    decreases s.len() - at,
{
    if at < s.len() {
        if !holds_at(s, from, at) {
            lemma_replaced(s, from, to, at + 1);
            assert(s.skip(at) =~= seq![s[at]] + s.skip(at + 1));
        }
    } else {
        assert(s.skip(at) =~= Seq::<char>::empty());
    }
}

} // verus!
