//! Text building blocks: number formatting, ordering, trimming, and ASCII case.

use vstd::prelude::*;
use vstd::string::*;

verus! {

/// Appends one character, as `String::push` documents.
pub assume_specification[ String::push ](out: &mut String, c: char)
    ensures
        final(out)@ == old(out)@.push(c),
;

/// Whether a character has the Unicode `White_Space` property.
pub open spec fn white_space(c: char) -> bool {
    ||| '\u{9}' <= c <= '\u{d}'
    ||| c == ' '
    ||| c == '\u{85}'
    ||| c == '\u{a0}'
    ||| c == '\u{1680}'
    ||| '\u{2000}' <= c <= '\u{200a}'
    ||| '\u{2028}' <= c <= '\u{2029}'
    ||| c == '\u{202f}'
    ||| c == '\u{205f}'
    ||| c == '\u{3000}'
}

fn is_white_space(c: char) -> (blank: bool)
    ensures
        blank == white_space(c),
{
    ('\u{9}' <= c && c <= '\u{d}') || c == ' ' || c == '\u{85}' || c == '\u{a0}' || c == '\u{1680}'
        || ('\u{2000}' <= c && c <= '\u{200a}') || ('\u{2028}' <= c && c <= '\u{2029}') || c
        == '\u{202f}' || c == '\u{205f}' || c == '\u{3000}'
}

/// How two texts compare, character by character.
#[derive(Clone, Copy, Debug, PartialEq, Eq, Structural)]
pub enum Order {
    /// The first text sorts before the second.
    Before,
    /// Both texts hold the same characters.
    Same,
    /// The first text sorts after the second.
    After,
}

// ---------------------------------------------------------------- numbers

/// The character for a digit below 16, in lower case.
pub open spec fn digit(value: nat) -> char {
    if value < 10 {
        (48 + value) as char
    } else {
        (87 + value) as char
    }
}

/// A number written in `base` without leading zeros.
pub open spec fn digits(value: nat, base: nat) -> Seq<char>
    decreases value,
{
    if base < 2 || value < base {
        seq![digit(value)]
    } else {
        proof {
            assert(value / base < value) by (nonlinear_arith)
                requires
                    value >= base,
                    base >= 2,
            ;
        }
        digits(value / base, base).push(digit(value % base))
    }
}

/// A number in decimal.
pub open spec fn decimal(value: nat) -> Seq<char> {
    digits(value, 10)
}

/// A signed number in decimal, with a leading minus sign below zero.
pub open spec fn signed_decimal(value: int) -> Seq<char> {
    if value < 0 {
        seq!['-'] + decimal((-value) as nat)
    } else {
        decimal(value as nat)
    }
}

/// `value` in lower-case hexadecimal, padded with zeros to `width` characters.
pub open spec fn hex_padded(value: nat, width: nat) -> Seq<char> {
    let plain = digits(value, 16);
    if plain.len() >= width {
        plain
    } else {
        Seq::new((width - plain.len()) as nat, |i: int| '0') + plain
    }
}

fn digit_char(value: u64) -> (c: char)
    requires
        value < 16,
    ensures
        c == digit(value as nat),
{
    match value {
        0 => '0',
        1 => '1',
        2 => '2',
        3 => '3',
        4 => '4',
        5 => '5',
        6 => '6',
        7 => '7',
        8 => '8',
        9 => '9',
        10 => 'a',
        11 => 'b',
        12 => 'c',
        13 => 'd',
        14 => 'e',
        _ => 'f',
    }
}

fn push_digits(out: &mut String, value: u64, base: u64)
    requires
        2 <= base <= 16,
    ensures
        final(out)@ == old(out)@ + digits(value as nat, base as nat),
    decreases value,
{
    if value < base {
        out.push(digit_char(value));
        assert(out@ =~= old(out)@ + digits(value as nat, base as nat));
    } else {
        assert(value / base < value) by (nonlinear_arith)
            requires
                value >= base,
                base >= 2,
        ;
        push_digits(out, value / base, base);
        let last: u64 = value % base;
        out.push(digit_char(last));
        assert(out@ =~= old(out)@ + digits(value as nat, base as nat));
    }
}

/// Appends `value` in decimal.
pub fn push_decimal(out: &mut String, value: u64)
    ensures
        final(out)@ == old(out)@ + decimal(value as nat),
{
    push_digits(out, value, 10);
}

/// Appends `value` in decimal, with a leading minus sign below zero.
pub fn push_signed(out: &mut String, value: i64)
    requires
        value > i64::MIN,
    ensures
        final(out)@ == old(out)@ + signed_decimal(value as int),
{
    if value < 0 {
        out.push('-');
        push_digits(out, (-value) as u64, 10);
        assert(out@ =~= old(out)@ + signed_decimal(value as int));
    } else {
        push_digits(out, value as u64, 10);
    }
}

/// Appends `value` in hexadecimal, padded with zeros to `width` characters.
pub fn push_hex(out: &mut String, value: u64, width: usize)
    ensures
        final(out)@ == old(out)@ + hex_padded(value as nat, width as nat),
{
    let mut plain = String::new();
    push_digits(&mut plain, value, 16);
    assert(plain@ =~= digits(value as nat, 16));
    let count: usize = plain.as_str().unicode_len();
    let mut written: usize = count;
    while written < width
        invariant
            count == plain@.len(),
            written >= count,
            written <= width || written == count,
            out@ =~= old(out)@ + Seq::new((written - count) as nat, |i: int| '0'),
        decreases width - written,
    {
        out.push('0');
        written += 1;
    }
    out.append(plain.as_str());
    assert(out@ =~= old(out)@ + hex_padded(value as nat, width as nat));
}

/// The last four octal digits of a number.
pub open spec fn octal4(value: nat) -> Seq<char> {
    seq![
        digit((value / 512) % 8),
        digit((value / 64) % 8),
        digit((value / 8) % 8),
        digit(value % 8),
    ]
}

/// Appends the last four octal digits of `value`.
pub fn push_octal4(out: &mut String, value: u64)
    ensures
        final(out)@ == old(out)@ + octal4(value as nat),
{
    out.push(digit_char((value / 512) % 8));
    out.push(digit_char((value / 64) % 8));
    out.push(digit_char((value / 8) % 8));
    out.push(digit_char(value % 8));
    assert(out@ =~= old(out)@ + octal4(value as nat));
}

// ---------------------------------------------------------------- characters

/// The characters of `text`, in order.
pub fn to_chars(text: &str) -> (chars: Vec<char>)
    ensures
        chars@ == text@,
{
    let mut chars: Vec<char> = Vec::new();
    for c in iter: text.chars()
        invariant
            iter.seq() == text@,
            chars@ =~= text@.take(iter.index()),
    {
        chars.push(c);
    }
    assert(text@.take(text@.len() as int) =~= text@);
    chars
}

/// The text made of `chars[from..to]`.
pub fn from_chars(chars: &Vec<char>, from: usize, to: usize) -> (text: String)
    requires
        from <= to <= chars@.len(),
    ensures
        text@ == chars@.subrange(from as int, to as int),
{
    let mut text = String::new();
    let mut i: usize = from;
    while i < to
        invariant
            from <= i <= to <= chars@.len(),
            text@ =~= chars@.subrange(from as int, i as int),
        decreases to - i,
    {
        text.push(chars[i]);
        i += 1;
    }
    text
}

/// Whether two texts hold the same characters.
pub fn same(left: &str, right: &str) -> (equal: bool)
    ensures
        equal == (left@ == right@),
{
    let a = to_chars(left);
    let b = to_chars(right);
    if a.len() != b.len() {
        return false;
    }
    let mut i: usize = 0;
    while i < a.len()
        invariant
            a@ == left@,
            b@ == right@,
            a@.len() == b@.len(),
            i <= a@.len(),
            forall|j: int| 0 <= j < i ==> a@[j] == b@[j],
        decreases a@.len() - i,
    {
        if a[i] != b[i] {
            return false;
        }
        i += 1;
    }
    assert(a@ =~= b@);
    true
}

// ---------------------------------------------------------------- order

/// Strict lexicographic order by character code.
pub open spec fn before(left: Seq<char>, right: Seq<char>) -> bool
    decreases left.len(),
{
    if right.len() == 0 {
        false
    } else if left.len() == 0 {
        true
    } else if left[0] != right[0] {
        (left[0] as int) < (right[0] as int)
    } else {
        before(left.skip(1), right.skip(1))
    }
}

/// No text sorts before itself.
pub proof fn lemma_before_irreflexive(text: Seq<char>)
    ensures
        !before(text, text),
    decreases text.len(),
{
    if text.len() > 0 {
        lemma_before_irreflexive(text.skip(1));
    }
}

/// The order is transitive.
pub proof fn lemma_before_transitive(a: Seq<char>, b: Seq<char>, c: Seq<char>)
    requires
        before(a, b),
        before(b, c),
    ensures
        before(a, c),
    decreases a.len(),
{
    if a.len() > 0 && a[0] == b[0] && b[0] == c[0] {
        lemma_before_transitive(a.skip(1), b.skip(1), c.skip(1));
    }
}

/// Two different texts are ordered one way or the other.
pub proof fn lemma_before_total(a: Seq<char>, b: Seq<char>)
    ensures
        a == b || before(a, b) || before(b, a),
    decreases a.len(),
{
    if a.len() == 0 || b.len() == 0 {
        if a.len() == 0 && b.len() == 0 {
            assert(a =~= b);
        }
    } else if a[0] == b[0] {
        lemma_before_total(a.skip(1), b.skip(1));
        if a.skip(1) == b.skip(1) {
            assert(a =~= seq![a[0]] + a.skip(1));
            assert(b =~= seq![b[0]] + b.skip(1));
        }
    }
}

/// Skipping a shared prefix does not change the order.
proof fn lemma_before_shared_prefix(a: Seq<char>, b: Seq<char>, n: int)
    requires
        0 <= n <= a.len(),
        n <= b.len(),
        forall|j: int| 0 <= j < n ==> a[j] == b[j],
    ensures
        before(a, b) == before(a.skip(n), b.skip(n)),
    decreases n,
{
    if n == 0 {
        assert(a.skip(0) =~= a);
        assert(b.skip(0) =~= b);
    } else {
        assert(a[0] == b[0]);
        lemma_before_shared_prefix(a.skip(1), b.skip(1), n - 1);
        assert(a.skip(1).skip(n - 1) =~= a.skip(n));
        assert(b.skip(1).skip(n - 1) =~= b.skip(n));
    }
}

/// Orders two texts.
pub fn compare(left: &str, right: &str) -> (order: Order)
    ensures
        order == Order::Before <==> before(left@, right@),
        order == Order::Same <==> left@ == right@,
        order == Order::After <==> before(right@, left@),
{
    let a = to_chars(left);
    let b = to_chars(right);
    let mut i: usize = 0;
    while i < a.len() && i < b.len()
        invariant
            a@ == left@,
            b@ == right@,
            i <= a@.len(),
            i <= b@.len(),
            forall|j: int| 0 <= j < i ==> a@[j] == b@[j],
        decreases a@.len() - i,
    {
        if a[i] != b[i] {
            proof {
                lemma_before_shared_prefix(a@, b@, i as int);
                lemma_before_shared_prefix(b@, a@, i as int);
                assert(a@.skip(i as int)[0] == a@[i as int]);
                assert(b@.skip(i as int)[0] == b@[i as int]);
            }
            if a[i] < b[i] {
                return Order::Before;
            }
            return Order::After;
        }
        i += 1;
    }
    proof {
        lemma_before_shared_prefix(a@, b@, i as int);
        lemma_before_shared_prefix(b@, a@, i as int);
        lemma_before_irreflexive(a@);
        if a@.len() == b@.len() {
            assert(a@ =~= b@);
        }
    }
    if i < b.len() {
        Order::Before
    } else if i < a.len() {
        Order::After
    } else {
        Order::Same
    }
}

// ---------------------------------------------------------------- trimming and searching

/// Whether a text holds nothing but white space.
pub open spec fn blank(text: Seq<char>) -> bool {
    forall|i: int| 0 <= i < text.len() ==> white_space(#[trigger] text[i])
}

/// Whether `text` is empty once white space is trimmed.
pub fn is_blank(text: &str) -> (result: bool)
    ensures
        result == blank(text@),
{
    let chars = to_chars(text);
    let mut i: usize = 0;
    while i < chars.len()
        invariant
            chars@ == text@,
            i <= chars@.len(),
            forall|j: int| 0 <= j < i ==> white_space(#[trigger] text@[j]),
        decreases chars@.len() - i,
    {
        if !is_white_space(chars[i]) {
            assert(!white_space(text@[i as int]));
            return false;
        }
        i += 1;
    }
    true
}

/// How many leading characters of `text` are white space.
pub open spec fn leading_blanks(text: Seq<char>) -> nat
    decreases text.len(),
{
    if text.len() > 0 && white_space(text[0]) {
        1 + leading_blanks(text.skip(1))
    } else {
        0
    }
}

/// How many trailing characters of `text` are white space.
pub open spec fn trailing_blanks(text: Seq<char>) -> nat
    decreases text.len(),
{
    if text.len() > 0 && white_space(text.last()) {
        1 + trailing_blanks(text.drop_last())
    } else {
        0
    }
}

/// `text` without leading and trailing white space.
pub open spec fn trimmed(text: Seq<char>) -> Seq<char> {
    let rest = text.skip(leading_blanks(text) as int);
    rest.take(rest.len() - trailing_blanks(rest))
}

proof fn lemma_leading_blanks(text: Seq<char>, n: int)
    requires
        0 <= n <= text.len(),
        forall|j: int| 0 <= j < n ==> white_space(#[trigger] text[j]),
        n < text.len() ==> !white_space(text[n]),
    ensures
        leading_blanks(text) == n,
    decreases n,
{
    if n > 0 {
        assert(white_space(text[0]));
        assert forall|j: int| 0 <= j < n - 1 implies white_space(#[trigger] text.skip(1)[j]) by {
            assert(white_space(text[j + 1]));
        }
        lemma_leading_blanks(text.skip(1), n - 1);
    }
}

proof fn lemma_trailing_blanks(text: Seq<char>, end: int)
    requires
        0 <= end <= text.len(),
        forall|j: int| end <= j < text.len() ==> white_space(#[trigger] text[j]),
        end > 0 ==> !white_space(text[end - 1]),
    ensures
        trailing_blanks(text) == text.len() - end,
    decreases text.len(),
{
    if end < text.len() {
        assert(white_space(text[text.len() - 1]));
        assert forall|j: int| end <= j < text.drop_last().len() implies white_space(
            #[trigger] text.drop_last()[j],
        ) by {
            assert(white_space(text[j]));
        }
        lemma_trailing_blanks(text.drop_last(), end);
    }
}

/// Trims leading and trailing white space.
pub fn trim(text: &str) -> (result: String)
    ensures
        result@ == trimmed(text@),
{
    let chars = to_chars(text);
    let mut start: usize = 0;
    while start < chars.len() && is_white_space(chars[start])
        invariant
            chars@ == text@,
            start <= chars@.len(),
            forall|j: int| 0 <= j < start ==> white_space(#[trigger] text@[j]),
        decreases chars@.len() - start,
    {
        start += 1;
    }
    let mut end: usize = chars.len();
    while end > start && is_white_space(chars[end - 1])
        invariant
            chars@ == text@,
            start <= end <= chars@.len(),
            forall|j: int| end <= j < chars@.len() ==> white_space(#[trigger] text@[j]),
        decreases end,
    {
        end -= 1;
    }
    proof {
        lemma_leading_blanks(text@, start as int);
        let rest = text@.skip(start as int);
        assert forall|j: int| end - start <= j < rest.len() implies white_space(
            #[trigger] rest[j],
        ) by {
            assert(white_space(text@[j + start]));
        }
        lemma_trailing_blanks(rest, end - start);
        assert(chars@.subrange(start as int, end as int) =~= trimmed(text@));
    }
    from_chars(&chars, start, end)
}

/// Whether `part` occurs in `whole` at `offset`.
pub open spec fn occurs_at(whole: Seq<char>, part: Seq<char>, offset: int) -> bool {
    0 <= offset && offset + part.len() <= whole.len() && whole.subrange(
        offset,
        offset + part.len(),
    ) == part
}

/// Whether `part` occurs anywhere in `whole`.
pub open spec fn contains_text(whole: Seq<char>, part: Seq<char>) -> bool {
    exists|offset: int| #[trigger] occurs_at(whole, part, offset)
}

fn occurs(whole: &Vec<char>, part: &Vec<char>, offset: usize) -> (result: bool)
    requires
        offset + part@.len() <= whole@.len(),
    ensures
        result == occurs_at(whole@, part@, offset as int),
{
    let end: usize = whole.len();
    let mut i: usize = 0;
    while i < part.len()
        invariant
            i <= part@.len(),
            end == whole@.len(),
            offset + part@.len() <= end,
            forall|j: int| 0 <= j < i ==> whole@[offset + j] == part@[j],
        decreases part@.len() - i,
    {
        if whole[offset + i] != part[i] {
            assert(whole@.subrange(offset as int, offset + part@.len())[i as int] != part@[i as int]);
            return false;
        }
        i += 1;
    }
    assert(whole@.subrange(offset as int, offset + part@.len()) =~= part@);
    true
}

/// Whether `part` occurs anywhere in `whole`.
pub fn contains(whole: &str, part: &str) -> (result: bool)
    ensures
        result == contains_text(whole@, part@),
{
    let a = to_chars(whole);
    let b = to_chars(part);
    if b.len() > a.len() {
        return false;
    }
    let last: usize = a.len() - b.len();
    let mut i: usize = 0;
    loop
        invariant
            a@ == whole@,
            b@ == part@,
            last == a@.len() - b@.len(),
            i <= last,
            forall|j: int| 0 <= j < i ==> !#[trigger] occurs_at(a@, b@, j),
        decreases last - i,
    {
        if occurs(&a, &b, i) {
            return true;
        }
        if i == last {
            return false;
        }
        i += 1;
    }
}

/// Whether `whole` starts with `part`.
pub open spec fn has_prefix(whole: Seq<char>, part: Seq<char>) -> bool {
    occurs_at(whole, part, 0)
}

/// Whether `whole` ends with `part`.
pub open spec fn has_suffix(whole: Seq<char>, part: Seq<char>) -> bool {
    occurs_at(whole, part, whole.len() - part.len())
}

/// Whether `whole` starts with `part`.
pub fn starts_with(whole: &str, part: &str) -> (result: bool)
    ensures
        result == has_prefix(whole@, part@),
{
    let a = to_chars(whole);
    let b = to_chars(part);
    b.len() <= a.len() && occurs(&a, &b, 0)
}

/// Whether `whole` ends with `part`.
pub fn ends_with(whole: &str, part: &str) -> (result: bool)
    ensures
        result == has_suffix(whole@, part@),
{
    let a = to_chars(whole);
    let b = to_chars(part);
    b.len() <= a.len() && occurs(&a, &b, a.len() - b.len())
}

// ---------------------------------------------------------------- ASCII case

/// The ASCII lower-case form of a character.
pub open spec fn lower_char(c: char) -> char {
    if 'A' <= c <= 'Z' {
        (c as int + 32) as char
    } else {
        c
    }
}

/// The ASCII upper-case form of a character.
pub open spec fn upper_char(c: char) -> char {
    if 'a' <= c <= 'z' {
        (c as int - 32) as char
    } else {
        c
    }
}

/// A text with its ASCII letters in lower case.
pub open spec fn lower(text: Seq<char>) -> Seq<char> {
    Seq::new(text.len(), |i: int| lower_char(text[i]))
}

/// A text with its ASCII letters in upper case.
pub open spec fn upper(text: Seq<char>) -> Seq<char> {
    Seq::new(text.len(), |i: int| upper_char(text[i]))
}

fn to_lower_char(c: char) -> (result: char)
    ensures
        result == lower_char(c),
{
    if 'A' <= c && c <= 'Z' {
        ((c as u8) + 32) as char
    } else {
        c
    }
}

fn to_upper_char(c: char) -> (result: char)
    ensures
        result == upper_char(c),
{
    if 'a' <= c && c <= 'z' {
        ((c as u8) - 32) as char
    } else {
        c
    }
}

/// Converts ASCII letters to lower case.
pub fn to_lower(text: &str) -> (result: String)
    ensures
        result@ == lower(text@),
{
    let chars = to_chars(text);
    let mut result = String::new();
    let mut i: usize = 0;
    while i < chars.len()
        invariant
            chars@ == text@,
            i <= chars@.len(),
            result@ =~= lower(text@).take(i as int),
        decreases chars@.len() - i,
    {
        result.push(to_lower_char(chars[i]));
        i += 1;
    }
    assert(lower(text@).take(text@.len() as int) =~= lower(text@));
    result
}

/// Converts ASCII letters to upper case.
pub fn to_upper(text: &str) -> (result: String)
    ensures
        result@ == upper(text@),
{
    let chars = to_chars(text);
    let mut result = String::new();
    let mut i: usize = 0;
    while i < chars.len()
        invariant
            chars@ == text@,
            i <= chars@.len(),
            result@ =~= upper(text@).take(i as int),
        decreases chars@.len() - i,
    {
        result.push(to_upper_char(chars[i]));
        i += 1;
    }
    assert(upper(text@).take(text@.len() as int) =~= upper(text@));
    result
}

/// Whether two texts are equal once ASCII letters are lowered.
pub fn same_ignoring_case(left: &str, right: &str) -> (equal: bool)
    ensures
        equal == (lower(left@) == lower(right@)),
{
    let a = to_lower(left);
    let b = to_lower(right);
    a == b
}

// ---------------------------------------------------------------- lists

/// The texts of a list, in order.
pub open spec fn texts(list: Seq<String>) -> Seq<Seq<char>> {
    Seq::new(list.len(), |i: int| list[i]@)
}

/// `parts` with `separator` between neighbours.
pub open spec fn joined(parts: Seq<Seq<char>>, separator: Seq<char>) -> Seq<char>
    decreases parts.len(),
{
    if parts.len() == 0 {
        Seq::empty()
    } else if parts.len() == 1 {
        parts[0]
    } else {
        joined(parts.drop_last(), separator) + separator + parts.last()
    }
}

/// Joins `parts` with `separator` between neighbours.
pub fn join(parts: &Vec<String>, separator: &str) -> (result: String)
    ensures
        result@ == joined(texts(parts@), separator@),
{
    let mut result = String::new();
    let mut i: usize = 0;
    let ghost all = texts(parts@);
    assert(all.take(0) =~= Seq::<Seq<char>>::empty());
    while i < parts.len()
        invariant
            all == texts(parts@),
            i <= parts@.len(),
            result@ == joined(all.take(i as int), separator@),
        decreases parts@.len() - i,
    {
        proof {
            let next = all.take(i + 1);
            assert(next.drop_last() =~= all.take(i as int));
            assert(next.last() == parts@[i as int]@);
        }
        if i > 0 {
            result.append(separator);
            result.append(parts[i].as_str());
        } else {
            result.append(parts[i].as_str());
            assert(result@ =~= parts@[0]@);
        }
        i += 1;
    }
    assert(all.take(parts@.len() as int) =~= all);
    result
}

/// The texts one after another.
pub fn concat2(a: &str, b: &str) -> (result: String)
    ensures
        result@ == a@ + b@,
{
    let mut result = a.to_owned();
    result.append(b);
    result
}

/// The texts one after another.
pub fn concat3(a: &str, b: &str, c: &str) -> (result: String)
    ensures
        result@ == a@ + b@ + c@,
{
    let mut result = a.to_owned();
    result.append(b);
    result.append(c);
    result
}

/// The texts one after another.
pub fn concat4(a: &str, b: &str, c: &str, d: &str) -> (result: String)
    ensures
        result@ == a@ + b@ + c@ + d@,
{
    let mut result = a.to_owned();
    result.append(b);
    result.append(c);
    result.append(d);
    result
}

/// The texts one after another.
pub fn concat5(a: &str, b: &str, c: &str, d: &str, e: &str) -> (result: String)
    ensures
        result@ == a@ + b@ + c@ + d@ + e@,
{
    let mut result = a.to_owned();
    result.append(b);
    result.append(c);
    result.append(d);
    result.append(e);
    result
}

/// The texts one after another.
pub fn concat6(a: &str, b: &str, c: &str, d: &str, e: &str, f: &str) -> (result: String)
    ensures
        result@ == a@ + b@ + c@ + d@ + e@ + f@,
{
    let mut result = a.to_owned();
    result.append(b);
    result.append(c);
    result.append(d);
    result.append(e);
    result.append(f);
    result
}

/// The texts one after another.
pub fn concat7(a: &str, b: &str, c: &str, d: &str, e: &str, f: &str, g: &str) -> (result: String)
    ensures
        result@ == a@ + b@ + c@ + d@ + e@ + f@ + g@,
{
    let mut result = a.to_owned();
    result.append(b);
    result.append(c);
    result.append(d);
    result.append(e);
    result.append(f);
    result.append(g);
    result
}

/// The texts one after another.
pub fn concat9(a: &str, b: &str, c: &str, d: &str, e: &str, f: &str, g: &str, h: &str, i: &str) -> (result: String)
    ensures
        result@ == a@ + b@ + c@ + d@ + e@ + f@ + g@ + h@ + i@,
{
    let mut result = a.to_owned();
    result.append(b);
    result.append(c);
    result.append(d);
    result.append(e);
    result.append(f);
    result.append(g);
    result.append(h);
    result.append(i);
    result
}

// ---------------------------------------------------------------- laws

/// What a digit stands for.
pub open spec fn figure(c: char) -> int {
    if '0' <= c <= '9' {
        c as int - '0' as int
    } else {
        c as int - 'a' as int + 10
    }
}

/// The number that digits stand for in a base.
pub open spec fn number(text: Seq<char>, base: int) -> int
    decreases text.len(),
{
    if text.len() == 0 {
        0
    } else {
        base * number(text.drop_last(), base) + figure(text.last())
    }
}

/// A number reads back from its digits, which start with a zero only where it is zero.
pub proof fn law_digits_read_back(value: nat, base: nat)
    requires
        2 <= base <= 16,
    ensures
        number(digits(value, base), base as int) == value,
        digits(value, base).len() > 0,
        digits(value, base)[0] == '0' <==> value == 0,
    decreases value,
{
    let text = digits(value, base);
    if value < base {
        assert(text.drop_last() =~= Seq::empty());
        assert(number(text.drop_last(), base as int) == 0);
        assert(figure(text.last()) == value);
        assert(base * number(text.drop_last(), base as int) == 0) by (nonlinear_arith)
            requires
                number(text.drop_last(), base as int) == 0,
        ;
    } else {
        let rest = value / base;
        assert(0 < rest < value && base * rest + value % base == value && value % base < base)
            by (nonlinear_arith)
            requires
                value >= base,
                base >= 2,
                rest == value / base,
        ;
        law_digits_read_back(rest, base);
        assert(text.drop_last() =~= digits(rest, base));
        assert(text[0] == digits(rest, base)[0]);
        assert(figure(text.last()) == value % base);
        assert(number(text.drop_last(), base as int) == rest);
        assert(number(text, base as int) == base * rest + value % base);
    }
}

/// Different numbers are written differently.
pub proof fn law_decimals_differ(left: nat, right: nat)
    requires
        decimal(left) == decimal(right),
    ensures
        left == right,
{
    law_digits_read_back(left, 10);
    law_digits_read_back(right, 10);
}

proof fn lemma_zeros(width: nat, plain: Seq<char>)
    ensures
        number(Seq::new(width, |i: int| '0') + plain, 16) == number(plain, 16),
    decreases plain.len(), width,
{
    let padded = Seq::new(width, |i: int| '0') + plain;
    if plain.len() > 0 {
        lemma_zeros(width, plain.drop_last());
        assert(padded.drop_last() =~= Seq::new(width, |i: int| '0') + plain.drop_last());
        assert(padded.last() == plain.last());
    } else if width > 0 {
        let narrower = (width - 1) as nat;
        lemma_zeros(narrower, plain);
        assert(padded.drop_last() =~= Seq::new(narrower, |i: int| '0') + plain);
    } else {
        assert(padded =~= plain);
    }
}

/// A number reads back from its padded hexadecimal digits, of which there are as many as asked
/// for, or more.
pub proof fn law_hexadecimal_reads_back(value: nat, width: nat)
    ensures
        number(hex_padded(value, width), 16) == value,
        hex_padded(value, width).len() >= width,
{
    law_digits_read_back(value, 16);
    let plain = digits(value, 16);
    if plain.len() < width {
        lemma_zeros((width - plain.len()) as nat, plain);
    }
}

proof fn lemma_blanks(text: Seq<char>)
    ensures
        leading_blanks(text) <= text.len(),
        blank(text.take(leading_blanks(text) as int)),
        leading_blanks(text) < text.len() ==> !white_space(text[leading_blanks(text) as int]),
        trailing_blanks(text) <= text.len(),
        blank(text.skip(text.len() - trailing_blanks(text))),
        trailing_blanks(text) < text.len() ==> !white_space(
            text[text.len() - trailing_blanks(text) - 1],
        ),
    decreases text.len(),
{
    if text.len() > 0 {
        let tail = text.skip(1);
        let front = text.drop_last();
        lemma_blanks(tail);
        lemma_blanks(front);
        let leading = leading_blanks(text) as int;
        assert forall|i: int| 0 <= i < leading implies white_space(#[trigger] text.take(leading)[i])
            by {
            if i > 0 {
                assert(text.take(leading)[i] == tail.take(leading - 1)[i - 1]);
            }
        }
        let kept = text.len() - trailing_blanks(text);
        assert forall|i: int| 0 <= i < text.skip(kept).len() implies white_space(
            #[trigger] text.skip(kept)[i],
        ) by {
            if i < text.skip(kept).len() - 1 {
                assert(text.skip(kept)[i] == front.skip(kept)[i]);
            }
        }
    }
}

/// A trimmed text is the text without white space around it: it neither starts nor ends with any.
pub proof fn law_trimmed_of_white_space(text: Seq<char>) -> (ends: (Seq<char>, Seq<char>))
    ensures
        blank(ends.0) && blank(ends.1),
        text == ends.0 + trimmed(text) + ends.1,
        trimmed(text).len() > 0 ==> !white_space(trimmed(text)[0]) && !white_space(
            trimmed(text).last(),
        ),
{
    lemma_blanks(text);
    let leading = leading_blanks(text) as int;
    let rest = text.skip(leading);
    lemma_blanks(rest);
    let kept = rest.len() - trailing_blanks(rest);
    let ends = (text.take(leading), rest.skip(kept));
    assert(text =~= ends.0 + trimmed(text) + ends.1);
    if trimmed(text).len() > 0 {
        assert(trimmed(text)[0] == text[leading]);
        assert(trimmed(text).last() == rest[kept - 1]);
    }
    ends
}

/// Texts are the same in lower case exactly where they differ in the case of ASCII letters alone.
pub proof fn law_lower_case_ignores_case(text: Seq<char>, at: int)
    requires
        0 <= at < text.len(),
    ensures
        lower(text).len() == text.len(),
        'A' <= text[at] <= 'Z' ==> 'a' <= lower(text)[at] <= 'z' && lower(text)[at] as int
            - 'a' as int == text[at] as int - 'A' as int,
        !('A' <= text[at] <= 'Z') ==> lower(text)[at] == text[at],
{
}

/// Texts are ordered by the first character in which they differ, and a text stands before any
/// longer text that begins with it.
pub proof fn law_texts_are_ordered_by_characters(left: Seq<char>, right: Seq<char>, at: int)
    requires
        0 <= at <= left.len(),
        at <= right.len(),
        forall|i: int| 0 <= i < at ==> left[i] == right[i],
    ensures
        at < left.len() && at < right.len() && left[at] != right[at] ==> (before(left, right)
            <==> (left[at] as int) < (right[at] as int)),
        at == left.len() ==> (before(left, right) <==> at < right.len()),
        at == right.len() ==> !before(left, right),
    decreases at,
{
    if at > 0 {
        law_texts_are_ordered_by_characters(left.skip(1), right.skip(1), at - 1);
    }
}

/// A text starts with, ends with, or contains another one just where it is made of that one and
/// what stands behind it, before it, or on both sides.
pub proof fn law_parts_of_a_text(front: Seq<char>, part: Seq<char>, back: Seq<char>)
    ensures
        has_prefix(part + back, part),
        has_suffix(front + part, part),
        contains_text(front + part + back, part),
{
    assert((part + back).subrange(0, part.len() as int) =~= part);
    let ends = front + part;
    assert(ends.subrange(ends.len() - part.len(), ends.len() as int) =~= part);
    let whole = front + part + back;
    let at = front.len() as int;
    assert(whole.subrange(at, at + part.len()) =~= part);
    assert(occurs_at(whole, part, at));
}

/// What a text starts with, ends with, or contains stands in it character by character.
pub proof fn law_parts_stand_in_a_text(whole: Seq<char>, part: Seq<char>, i: int)
    requires
        0 <= i < part.len(),
    ensures
        has_prefix(whole, part) ==> part.len() <= whole.len() && whole[i] == part[i],
        has_suffix(whole, part) ==> part.len() <= whole.len() && whole[whole.len() - part.len() + i]
            == part[i],
        contains_text(whole, part) ==> part.len() <= whole.len() && whole.contains(part[i]),
{
    if has_prefix(whole, part) {
        assert(whole.subrange(0, part.len() as int)[i] == part[i]);
    }
    if has_suffix(whole, part) {
        let from = whole.len() - part.len();
        assert(whole.subrange(from, from + part.len())[i] == part[i]);
    }
    if contains_text(whole, part) {
        let at = choose|at: int| #[trigger] occurs_at(whole, part, at);
        assert(occurs_at(whole, part, at));
        assert(whole.subrange(at, at + part.len())[i] == part[i]);
        assert(whole[at + i] == part[i]);
    }
}

/// Texts in upper case differ from themselves in the case of ASCII letters alone.
pub proof fn law_upper_case_ignores_case(text: Seq<char>, at: int)
    requires
        0 <= at < text.len(),
    ensures
        upper(text).len() == text.len(),
        'a' <= text[at] <= 'z' ==> 'A' <= upper(text)[at] <= 'Z' && upper(text)[at] as int
            - 'A' as int == text[at] as int - 'a' as int,
        !('a' <= text[at] <= 'z') ==> upper(text)[at] == text[at],
{
}

/// A byte has two hexadecimal digits, and a pair of bytes has four.
pub proof fn law_hexadecimal_digits_of_bytes(value: nat)
    ensures
        value < 0x100 ==> hex_padded(value, 2).len() == 2,
        value < 0x1_0000 ==> hex_padded(value, 4).len() == 4,
{
    reveal_with_fuel(digits, 5);
    assert(value < 0x100 ==> value / 16 < 16);
    assert(value < 0x1_0000 ==> value / 16 < 0x1000 && value / 16 / 16 < 0x100 && value / 16 / 16
        / 16 < 16);
}

/// A signed number reads back from its digits, behind a minus sign where it is below zero.
pub proof fn law_signed_decimal_reads_back(value: int)
    ensures
        value >= 0 ==> number(signed_decimal(value), 10) == value,
        value < 0 ==> signed_decimal(value)[0] == '-' && number(signed_decimal(value).skip(1), 10)
            == -value,
{
    if value >= 0 {
        law_digits_read_back(value as nat, 10);
    } else {
        law_digits_read_back((-value) as nat, 10);
        assert(signed_decimal(value).skip(1) =~= decimal((-value) as nat));
    }
}

} // verus!
