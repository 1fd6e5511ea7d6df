//! Text as sequences of characters: conversion from and to strings, and the
//! few operations the line-oriented formats need (splitting at a separator,
//! trimming white space, reading and writing decimal numbers).

use vstd::prelude::*;

verus! {

/// Appends one character to a string.
///
/// This is `String::push`. Its contract is taken on trust, not proved:
/// afterwards the string holds what it held, followed by `c`, which is
/// what std documents of `push`.
#[verifier::external_body]
pub(crate) fn push_char(s: &mut String, c: char)
    ensures
        final(s)@ == old(s)@.push(c),
{
    s.push(c)
}

/// The characters of `s`, in order.
pub fn chars_of(s: &str) -> (v: Vec<char>)
    ensures
        v@ == s@,
{
    let mut v: Vec<char> = Vec::new();
    for c in it: s.chars()
        invariant
            v@ == it.seq().take(it.index() as int),
            it.seq() == s@,
    {
        v.push(c);
    }
    v
}

/// The string that holds the characters of `v`, in order.
pub fn string_of(v: &Vec<char>) -> (s: String)
    ensures
        s@ == v@,
{
    let mut s = String::new();
    let mut i: usize = 0;
    while i < v.len()
        invariant
            i <= v.len(),
            s@ == v@.take(i as int),
        decreases v.len() - i,
    {
        push_char(&mut s, v[i]);
        i += 1;
    }
    s
}

/// Whether two texts hold the same characters.
pub fn same_chars(a: &Vec<char>, b: &Vec<char>) -> (r: bool)
    ensures
        r == (a@ == b@),
{
    if a.len() != b.len() {
        return false;
    }
    let mut i: usize = 0;
    while i < a.len()
        invariant
            i <= a.len(),
            a.len() == b.len(),
            forall|j: int| 0 <= j < i ==> a@[j] == b@[j],
        decreases a.len() - i,
    {
        if a[i] != b[i] {
            return false;
        }
        i += 1;
    }
    assert(a@ =~= b@);
    true
}

/// Whether two string slices hold the same characters.
pub fn str_eq(a: &str, b: &str) -> (r: bool)
    ensures
        r == (a@ == b@),
{
    let x = chars_of(a);
    let y = chars_of(b);
    same_chars(&x, &y)
}

/// Whether the text `a` reads `word`.
pub fn reads(a: &Vec<char>, word: &str) -> (r: bool)
    ensures
        r == (a@ == word@),
{
    let w = chars_of(word);
    same_chars(a, &w)
}

/// The characters of `v` from position `from` up to, not including,
/// position `to`.
pub fn slice_of(v: &Vec<char>, from: usize, to: usize) -> (r: Vec<char>)
    requires
        from <= to <= v.len(),
    ensures
        r@ == v@.subrange(from as int, to as int),
{
    let mut r: Vec<char> = Vec::new();
    let mut i: usize = from;
    while i < to
        invariant
            from <= i <= to,
            to <= v.len(),
            r@ == v@.subrange(from as int, i as int),
        decreases to - i,
    {
        r.push(v[i]);
        assert(v@.subrange(from as int, i + 1) =~= v@.subrange(from as int, i as int).push(
            v@[i as int],
        ));
        i += 1;
    }
    r
}

/// Whether `c` is white space: a blank, a tab, a line feed, a vertical
/// tab, a form feed, a carriage return, or one of the spaces beyond ASCII.
pub open spec fn is_space(c: char) -> bool {
    c == ' ' || ('\u{9}' <= c <= '\u{d}') || c == '\u{85}' || c == '\u{a0}' || c == '\u{1680}' || (
    '\u{2000}' <= c <= '\u{200a}') || c == '\u{2028}' || c == '\u{2029}' || c == '\u{202f}' || c
        == '\u{205f}' || c == '\u{3000}'
}

/// Whether `c` is white space.
pub fn is_whitespace(c: char) -> (r: bool)
    ensures
        r == is_space(c),
{
    c == ' ' || ('\u{9}' <= c && c <= '\u{d}') || c == '\u{85}' || c == '\u{a0}' || c == '\u{1680}'
        || ('\u{2000}' <= c && c <= '\u{200a}') || c == '\u{2028}' || c == '\u{2029}' || c
        == '\u{202f}' || c == '\u{205f}' || c == '\u{3000}'
}

/// `s` without the white space it starts with.
pub open spec fn trimmed_start(s: Seq<char>) -> Seq<char>
    decreases s.len(),
{
    if s.len() > 0 && is_space(s[0]) {
        trimmed_start(s.drop_first())
    } else {
        s
    }
}

/// `s` without the white space it ends with.
pub open spec fn trimmed_end(s: Seq<char>) -> Seq<char>
    decreases s.len(),
{
    if s.len() > 0 && is_space(s.last()) {
        trimmed_end(s.drop_last())
    } else {
        s
    }
}

/// `s` without the white space at either end.
pub open spec fn trimmed(s: Seq<char>) -> Seq<char> {
    trimmed_end(trimmed_start(s))
}

/// `v` without the white space at either end.
pub fn trim(v: &Vec<char>) -> (r: Vec<char>)
    ensures
        r@ == trimmed(v@),
{
    let n = v.len();
    let mut from: usize = 0;
    assert(v@.subrange(0, n as int) =~= v@);
    while from < n && is_whitespace(v[from])
        invariant
            from <= n,
            n == v.len(),
            trimmed_start(v@) == trimmed_start(v@.subrange(from as int, n as int)),
        decreases n - from,
    {
        assert(v@.subrange(from as int, n as int).drop_first() =~= v@.subrange(
            from + 1,
            n as int,
        ));
        from += 1;
    }
    let mut to: usize = n;
    while to > from && is_whitespace(v[to - 1])
        invariant
            from <= to <= n,
            n == v.len(),
            trimmed_start(v@) == v@.subrange(from as int, n as int),
            trimmed(v@) == trimmed_end(v@.subrange(from as int, to as int)),
        decreases to - from,
    {
        assert(v@.subrange(from as int, to as int).drop_last() =~= v@.subrange(
            from as int,
            to - 1,
        ));
        to -= 1;
    }
    slice_of(v, from, to)
}

/// The pieces of `s` between the occurrences of `sep`. With a `limit`, at
/// most so many pieces, the last one holding the rest of `s` with its
/// separators.
pub open spec fn pieces(s: Seq<char>, sep: char, limit: Option<nat>) -> Seq<Seq<char>>
    decreases s.len(),
{
    if s.len() == 0 {
        seq![Seq::empty()]
    } else {
        let before = pieces(s.drop_last(), sep, limit);
        if s.last() == sep && (limit is None || before.len() < limit->0) {
            before.push(Seq::empty())
        } else {
            before.drop_last().push(before.last().push(s.last()))
        }
    }
}

/// The pieces of `s` between the occurrences of `sep`: one more than there
/// are occurrences.
pub open spec fn split(s: Seq<char>, sep: char) -> Seq<Seq<char>> {
    pieces(s, sep, None)
}

/// The models of a list of texts.
pub open spec fn texts(parts: Seq<Vec<char>>) -> Seq<Seq<char>> {
    Seq::new(parts.len(), |i: int| parts[i]@)
}

/// The pieces of `s` between the occurrences of `sep`, at most `limit` of
/// them where a limit is given.
pub fn split_limited(s: &Vec<char>, sep: char, limit: Option<usize>) -> (parts: Vec<Vec<char>>)
    ensures
        texts(parts@) == pieces(
            s@,
            sep,
            match limit {
                Some(n) => Some(n as nat),
                None => None,
            },
        ),
        parts.len() >= 1,
{
    let ghost lim: Option<nat> = match limit {
        Some(n) => Some(n as nat),
        None => None,
    };
    let mut parts: Vec<Vec<char>> = Vec::new();
    let mut piece: Vec<char> = Vec::new();
    let mut i: usize = 0;
    assert(texts(parts@).push(piece@) =~= pieces(s@.take(0), sep, lim));
    while i < s.len()
        invariant
            i <= s.len(),
            lim == (match limit {
                Some(n) => Some(n as nat),
                None => None,
            }),
            texts(parts@).push(piece@) == pieces(s@.take(i as int), sep, lim),
        decreases s.len() - i,
    {
        let c = s[i];
        let ghost before = pieces(s@.take(i as int), sep, lim);
        proof {
            assert(s@.take(i + 1).drop_last() =~= s@.take(i as int));
            assert(s@.take(i + 1).last() == c);
            assert(before.len() == parts.len() + 1);
            assert(before.last() == piece@);
            assert(before.drop_last() =~= texts(parts@));
        }
        let room = match limit {
            Some(n) => parts.len() < n && parts.len() + 1 < n,
            None => true,
        };
        if c == sep && room {
            parts.push(piece);
            piece = Vec::new();
            assert(texts(parts@) =~= before);
        } else {
            piece.push(c);
        }
        i += 1;
    }
    assert(s@.take(s.len() as int) =~= s@);
    let ghost all = texts(parts@).push(piece@);
    parts.push(piece);
    assert(texts(parts@) =~= all);
    parts
}

/// The pieces of `s` between the occurrences of `sep`.
pub fn split_at(s: &Vec<char>, sep: char) -> (parts: Vec<Vec<char>>)
    ensures
        texts(parts@) == split(s@, sep),
        parts.len() >= 1,
{
    split_limited(s, sep, None)
}

/// The records of a text: its lines, each without the white space at
/// either end.
pub open spec fn records(data: Seq<char>) -> Seq<Seq<char>> {
    let lines = split(data, '\n');
    Seq::new(lines.len(), |i: int| trimmed(lines[i]))
}

/// The records of a text.
pub fn records_of(data: &str) -> (r: Vec<Vec<char>>)
    ensures
        texts(r@) == records(data@),
{
    let chars = chars_of(data);
    let lines = split_at(&chars, '\n');
    let mut r: Vec<Vec<char>> = Vec::new();
    let mut i: usize = 0;
    while i < lines.len()
        invariant
            i <= lines.len(),
            texts(lines@) == split(data@, '\n'),
            r.len() == i,
            forall|j: int| 0 <= j < i ==> (#[trigger] r@[j])@ == trimmed(lines@[j]@),
        decreases lines.len() - i,
    {
        r.push(trim(&lines[i]));
        i += 1;
    }
    assert(texts(r@) =~= records(data@)) by {
        let l = split(data@, '\n');
        assert forall|j: int| 0 <= j < l.len() implies texts(r@)[j] == trimmed(l[j]) by {
            assert(texts(lines@)[j] == lines@[j]@);
        }
    }
    r
}

/// Whether `c` is one of the ten decimal digits.
pub open spec fn is_digit(c: char) -> bool {
    '0' <= c <= '9'
}

/// The value of the digit `c`.
pub open spec fn digit_value(c: char) -> int {
    c as int - '0' as int
}

/// The digit that stands for `d`.
pub open spec fn digit_char(d: int) -> char {
    if d == 0 {
        '0'
    } else if d == 1 {
        '1'
    } else if d == 2 {
        '2'
    } else if d == 3 {
        '3'
    } else if d == 4 {
        '4'
    } else if d == 5 {
        '5'
    } else if d == 6 {
        '6'
    } else if d == 7 {
        '7'
    } else if d == 8 {
        '8'
    } else {
        '9'
    }
}

/// Whether `s` holds digits only.
pub open spec fn all_digits(s: Seq<char>) -> bool {
    forall|i: int| 0 <= i < s.len() ==> is_digit(#[trigger] s[i])
}

/// The number that the digits `s` write in decimal.
pub open spec fn decimal_value(s: Seq<char>) -> int
    decreases s.len(),
{
    if s.len() == 0 {
        0
    } else {
        decimal_value(s.drop_last()) * 10 + digit_value(s.last())
    }
}

/// The number that `s` writes: digits, at least one, after an optional
/// sign. A minus sign is read only where `signed` allows it.
pub open spec fn parsed_int(s: Seq<char>, signed: bool) -> Option<int> {
    if s.len() > 0 && (s[0] == '+' || (signed && s[0] == '-')) {
        let digits = s.drop_first();
        if digits.len() > 0 && all_digits(digits) {
            if s[0] == '-' {
                Some(-decimal_value(digits))
            } else {
                Some(decimal_value(digits))
            }
        } else {
            None
        }
    } else if s.len() > 0 && all_digits(s) {
        Some(decimal_value(s))
    } else {
        None
    }
}

/// The `i32` that `s` writes, if it writes one.
pub open spec fn parsed_i32(s: Seq<char>) -> Option<i32> {
    match parsed_int(s, true) {
        Some(v) => if i32::MIN <= v <= i32::MAX {
            Some(v as i32)
        } else {
            None
        },
        None => None,
    }
}

/// The `usize` that `s` writes, if it writes one.
pub open spec fn parsed_usize(s: Seq<char>) -> Option<usize> {
    match parsed_int(s, false) {
        Some(v) => if v <= usize::MAX {
            Some(v as usize)
        } else {
            None
        },
        None => None,
    }
}

/// Digits write a number that is not negative, and more digits write no
/// smaller one.
pub proof fn lemma_decimal_value_grows(s: Seq<char>, n: int)
    requires
        all_digits(s),
        0 <= n <= s.len(),
    ensures
        0 <= decimal_value(s.take(n)) <= decimal_value(s),
    decreases s.len() - n,
{
    lemma_decimal_value_nonnegative(s.take(n));
    if n < s.len() {
        lemma_decimal_value_grows(s, n + 1);
        assert(s.take(n + 1).drop_last() =~= s.take(n));
        assert(is_digit(s.take(n + 1).last()));
    } else {
        assert(s.take(n) =~= s);
    }
}

/// Digits write a number that is not negative.
pub proof fn lemma_decimal_value_nonnegative(s: Seq<char>)
    requires
        all_digits(s),
    ensures
        decimal_value(s) >= 0,
    decreases s.len(),
{
    if s.len() > 0 {
        assert(is_digit(s.last()));
        lemma_decimal_value_nonnegative(s.drop_last());
    }
}

/// The number that the digits of `v` from `from` on write, if they are
/// digits, at least one, and the number is at most `max`.
fn read_digits(v: &Vec<char>, from: usize, max: u64) -> (r: Option<u64>)
    requires
        from <= v.len(),
    ensures
        ({
            let digits = v@.subrange(from as int, v.len() as int);
            match r {
                Some(n) => digits.len() > 0 && all_digits(digits) && n == decimal_value(digits) && n
                    <= max,
                None => !(digits.len() > 0 && all_digits(digits) && decimal_value(digits) <= max),
            }
        }),
{
    let ghost digits = v@.subrange(from as int, v.len() as int);
    if from == v.len() {
        return None;
    }
    let mut acc: u64 = 0;
    let mut i: usize = from;
    assert(digits.take(0) =~= Seq::<char>::empty());
    while i < v.len()
        invariant
            from <= i <= v.len(),
            digits == v@.subrange(from as int, v.len() as int),
            all_digits(digits.take(i - from)),
            acc == decimal_value(digits.take(i - from)),
            acc <= max,
        decreases v.len() - i,
    {
        let c = v[i];
        proof {
            assert(digits.take(i - from + 1).drop_last() =~= digits.take(i - from));
            assert(digits.take(i - from + 1).last() == c);
            assert(digits[i - from] == c);
        }
        if !('0' <= c && c <= '9') {
            return None;
        }
        let d: u64 = (c as u32 - '0' as u32) as u64;
        assert(all_digits(digits.take(i - from + 1))) by {
            assert forall|j: int| 0 <= j < i - from + 1 implies is_digit(
                #[trigger] digits.take(i - from + 1)[j],
            ) by {
                if j < i - from {
                    assert(digits.take(i - from)[j] == digits.take(i - from + 1)[j]);
                }
            }
        }
        let next: Option<u64> = match acc.checked_mul(10) {
            Some(m) => m.checked_add(d),
            None => None,
        };
        let ghost value = decimal_value(digits.take(i - from + 1));
        assert(value == acc * 10 + d);
        match next {
            Some(n) => {
                if n > max {
                    proof {
                        lemma_too_large(digits, i - from + 1, max as int);
                    }
                    return None;
                }
                acc = n;
            },
            None => {
                proof {
                    lemma_too_large(digits, i - from + 1, max as int);
                }
                return None;
            },
        }
        i += 1;
    }
    assert(digits.take(digits.len() as int) =~= digits);
    Some(acc)
}

/// Where the first `n` characters of `s` are digits that write more than
/// `max`, `s` does not consist of digits that write at most `max`.
proof fn lemma_too_large(s: Seq<char>, n: int, max: int)
    requires
        0 <= n <= s.len(),
        decimal_value(s.take(n)) > max,
    ensures
        !(all_digits(s) && decimal_value(s) <= max),
{
    if all_digits(s) {
        lemma_decimal_value_grows(s, n);
    }
}

/// The `i32` that `v` writes, if it writes one.
pub fn parse_i32(v: &Vec<char>) -> (r: Option<i32>)
    ensures
        r == parsed_i32(v@),
{
    if v.len() == 0 {
        return None;
    }
    assert(v@.subrange(0, v.len() as int) =~= v@);
    assert(v@.subrange(1, v.len() as int) =~= v@.drop_first());
    if v[0] == '-' {
        proof {
            if all_digits(v@.drop_first()) {
                lemma_decimal_value_nonnegative(v@.drop_first());
            }
        }
        match read_digits(v, 1, 2147483648) {
            Some(n) => {
                let value: i64 = -(n as i64);
                Some(value as i32)
            },
            None => None,
        }
    } else if v[0] == '+' {
        match read_digits(v, 1, 2147483647) {
            Some(n) => Some(n as i32),
            None => None,
        }
    } else {
        match read_digits(v, 0, 2147483647) {
            Some(n) => Some(n as i32),
            None => None,
        }
    }
}

/// The `usize` that `v` writes, if it writes one.
pub fn parse_usize(v: &Vec<char>) -> (r: Option<usize>)
    ensures
        r == parsed_usize(v@),
{
    if v.len() == 0 {
        return None;
    }
    assert(v@.subrange(0, v.len() as int) =~= v@);
    assert(v@.subrange(1, v.len() as int) =~= v@.drop_first());
    let from: usize = if v[0] == '+' {
        1
    } else {
        0
    };
    match read_digits(v, from, usize::MAX as u64) {
        Some(n) => Some(n as usize),
        None => None,
    }
}

/// The digits that write `n` in decimal, without leading zeros.
pub open spec fn decimal(n: nat) -> Seq<char>
    decreases n,
{
    if n < 10 {
        seq![digit_char(n as int)]
    } else {
        decimal(n / 10).push(digit_char((n % 10) as int))
    }
}

/// The text that writes `x` in decimal, with a minus sign where `x` is
/// negative.
pub open spec fn written(x: int) -> Seq<char> {
    if x < 0 {
        seq!['-'] + decimal((-x) as nat)
    } else {
        decimal(x as nat)
    }
}

/// The digit that stands for `d`.
fn digit(d: u64) -> (c: char)
    requires
        d < 10,
    ensures
        c == digit_char(d as int),
{
    if d == 0 {
        '0'
    } else if d == 1 {
        '1'
    } else if d == 2 {
        '2'
    } else if d == 3 {
        '3'
    } else if d == 4 {
        '4'
    } else if d == 5 {
        '5'
    } else if d == 6 {
        '6'
    } else if d == 7 {
        '7'
    } else if d == 8 {
        '8'
    } else {
        '9'
    }
}

/// Appends the decimal digits of `n` to `out`.
pub fn push_decimal(out: &mut String, n: u64)
    ensures
        final(out)@ == old(out)@ + decimal(n as nat),
    decreases n,
{
    if n >= 10 {
        push_decimal(out, n / 10);
    }
    push_char(out, digit(n % 10));
    proof {
        if n >= 10 {
            assert(final(out)@ =~= old(out)@ + decimal(n as nat));
        } else {
            assert(final(out)@ =~= old(out)@ + decimal(n as nat));
        }
    }
}

/// Appends `x`, written in decimal, to `out`.
pub fn push_i32(out: &mut String, x: i32)
    ensures
        final(out)@ == old(out)@ + written(x as int),
{
    if x < 0 {
        push_char(out, '-');
        let n: i64 = -(x as i64);
        push_decimal(out, n as u64);
        assert(final(out)@ =~= old(out)@ + written(x as int));
    } else {
        push_decimal(out, x as u64);
    }
}

/// Appends `x`, written in decimal, to `out`.
pub fn push_usize(out: &mut String, x: usize)
    ensures
        final(out)@ == old(out)@ + written(x as int),
{
    push_decimal(out, x as u64);
}

/// What follows `prefix` in `s`, if `s` starts with it.
pub open spec fn stripped(s: Seq<char>, prefix: Seq<char>) -> Option<Seq<char>> {
    if s.len() >= prefix.len() && s.take(prefix.len() as int) == prefix {
        Some(s.skip(prefix.len() as int))
    } else {
        None
    }
}

/// What follows `prefix` in `s`, if `s` starts with it.
pub fn strip_prefix(s: &Vec<char>, prefix: &str) -> (r: Option<Vec<char>>)
    ensures
        match r {
            Some(rest) => stripped(s@, prefix@) == Some(rest@),
            None => stripped(s@, prefix@) is None,
        },
{
    let p = chars_of(prefix);
    if s.len() < p.len() {
        return None;
    }
    let head = slice_of(s, 0, p.len());
    assert(s@.take(p.len() as int) =~= s@.subrange(0, p.len() as int));
    if same_chars(&head, &p) {
        let rest = slice_of(s, p.len(), s.len());
        assert(s@.skip(p.len() as int) =~= s@.subrange(p.len() as int, s.len() as int));
        Some(rest)
    } else {
        None
    }
}

/// The number that `s` writes, or `default` where it writes none.
pub open spec fn number_or(s: Seq<char>, default: i32) -> i32 {
    match parsed_i32(s) {
        Some(v) => v,
        None => default,
    }
}

/// The position that `s` writes, or zero where it writes none.
pub open spec fn position_or_zero(s: Seq<char>) -> usize {
    match parsed_usize(s) {
        Some(v) => v,
        None => 0,
    }
}

/// The number that `s` writes, or `default`.
pub fn read_number(s: &Vec<char>, default: i32) -> (r: i32)
    ensures
        r == number_or(s@, default),
{
    match parse_i32(s) {
        Some(v) => v,
        None => default,
    }
}

/// The position that `s` writes, or zero.
pub fn read_position(s: &Vec<char>) -> (r: usize)
    ensures
        r == position_or_zero(s@),
{
    match parse_usize(s) {
        Some(v) => v,
        None => 0,
    }
}

/// Whether `c` occurs nowhere in `s`.
pub open spec fn free_of(s: Seq<char>, c: char) -> bool {
    forall|i: int| 0 <= i < s.len() ==> s[i] != c
}

/// Text without a separator, added to a text, adds to its last piece.
pub proof fn lemma_pieces_grow(s: Seq<char>, t: Seq<char>, sep: char)
    requires
        free_of(t, sep),
    ensures
        split(s + t, sep) == split(s, sep).drop_last().push(split(s, sep).last() + t),
        split(s + t, sep).len() == split(s, sep).len(),
    decreases t.len(),
{
    lemma_split_nonempty(s, sep);
    let whole = split(s, sep);
    if t.len() == 0 {
        assert(s + t =~= s);
        assert(whole.last() + t =~= whole.last());
        assert(whole.drop_last().push(whole.last()) =~= whole);
    } else {
        let front = t.drop_last();
        assert(free_of(front, sep)) by {
            assert forall|i: int| 0 <= i < front.len() implies front[i] != sep by {
                assert(front[i] == t[i]);
            }
        }
        lemma_pieces_grow(s, front, sep);
        assert((s + t).drop_last() =~= s + front);
        assert((s + t).last() == t.last());
        assert(t.last() == t[t.len() - 1]);
        let before = split(s + front, sep);
        assert(before.drop_last() =~= whole.drop_last());
        assert((whole.last() + front).push(t.last()) =~= whole.last() + t);
    }
}

/// A separator, added to a text, starts a new piece.
pub proof fn lemma_pieces_cut(s: Seq<char>, sep: char)
    ensures
        split(s + seq![sep], sep) == split(s, sep).push(Seq::empty()),
{
    assert((s + seq![sep]).drop_last() =~= s);
    assert((s + seq![sep]).last() == sep);
}

/// A text has a first piece.
pub proof fn lemma_split_nonempty(s: Seq<char>, sep: char)
    ensures
        split(s, sep).len() >= 1,
    decreases s.len(),
{
    if s.len() > 0 {
        lemma_split_nonempty(s.drop_last(), sep);
    }
}

/// A text that neither starts nor ends with white space is left as it is
/// by trimming.
pub proof fn lemma_trimmed_same(s: Seq<char>)
    requires
        s.len() == 0 || (!is_space(s[0]) && !is_space(s.last())),
    ensures
        trimmed(s) == s,
{
}

/// The digits of a number write that number, and they are digits.
pub proof fn lemma_decimal(n: nat)
    ensures
        decimal(n).len() >= 1,
        all_digits(decimal(n)),
        decimal_value(decimal(n)) == n,
    decreases n,
{
    if n >= 10 {
        lemma_decimal(n / 10);
        let front = decimal(n / 10);
        let d = digit_char((n % 10) as int);
        assert(decimal(n).drop_last() =~= front);
        assert(decimal(n).last() == d);
        assert(digit_value(d) == n % 10);
        assert(decimal_value(decimal(n)) == decimal_value(front) * 10 + digit_value(d));
        assert forall|i: int| 0 <= i < decimal(n).len() implies is_digit(
            #[trigger] decimal(n)[i],
        ) by {
            if i < front.len() {
                assert(decimal(n)[i] == front[i]);
            }
        }
    } else {
        let d = digit_char(n as int);
        assert(decimal(n).drop_last() =~= Seq::<char>::empty());
        assert(decimal(n).last() == d);
        assert(digit_value(d) == n);
        assert(decimal_value(Seq::<char>::empty()) == 0);
        assert(decimal_value(decimal(n)) == decimal_value(decimal(n).drop_last()) * 10
            + digit_value(d));
    }
}

/// What is written of a number reads back as that number; it is not
/// empty, ends with a digit, and holds digits only, after a minus sign if
/// the number is negative.
pub proof fn lemma_written(x: int)
    ensures
        parsed_int(written(x), true) == Some(x),
        x >= 0 ==> parsed_int(written(x), false) == Some(x),
        written(x).len() >= 1,
        is_digit(written(x).last()),
        forall|i: int|
            0 <= i < written(x).len() ==> is_digit(#[trigger] written(x)[i]) || written(x)[i] == '-',
{
    if x < 0 {
        let digits = decimal((-x) as nat);
        lemma_decimal((-x) as nat);
        assert(written(x).drop_first() =~= digits);
        assert(written(x)[0] == '-');
        assert(written(x).last() == digits.last());
        assert forall|i: int| 0 <= i < written(x).len() implies is_digit(
            #[trigger] written(x)[i],
        ) || written(x)[i] == '-' by {
            if i > 0 {
                assert(written(x)[i] == digits[i - 1]);
            }
        }
    } else {
        lemma_decimal(x as nat);
        assert(is_digit(written(x)[0]));
    }
}

} // verus!
