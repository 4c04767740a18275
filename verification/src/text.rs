//! Text as a sequence of characters: cutting it, joining it and writing numbers in it.

use vstd::prelude::*;
use vstd::utf8::*;

verus! {

/// The characters counted as white space.
pub open spec fn is_white(c: char) -> bool {
    ||| '\u{9}' <= c <= '\u{d}'
    ||| c == ' '
    ||| c == '\u{85}'
    ||| c == '\u{a0}'
    ||| c == '\u{1680}'
    ||| '\u{2000}' <= c <= '\u{200a}'
    ||| c == '\u{2028}'
    ||| c == '\u{2029}'
    ||| c == '\u{202f}'
    ||| c == '\u{205f}'
    ||| c == '\u{3000}'
}

/// Whether a text is empty or white space throughout.
pub open spec fn is_blank(s: Seq<char>) -> bool {
    forall|i: int| 0 <= i < s.len() ==> is_white(#[trigger] s[i])
}

/// A text without the white space in front of it.
pub open spec fn trim_start(s: Seq<char>) -> Seq<char>
    decreases s.len(),
{
    if s.len() > 0 && is_white(s[0]) {
        trim_start(s.skip(1))
    } else {
        s
    }
}

/// A text without the white space behind it.
pub open spec fn trim_end(s: Seq<char>) -> Seq<char>
    decreases s.len(),
{
    if s.len() > 0 && is_white(s.last()) {
        trim_end(s.drop_last())
    } else {
        s
    }
}

/// A text without the white space around it.
pub open spec fn trimmed(s: Seq<char>) -> Seq<char> {
    trim_end(trim_start(s))
}

/// The decimal digit for a number below ten.
pub open spec fn digit(n: int) -> char {
    if n == 0 {
        '0'
    } else if n == 1 {
        '1'
    } else if n == 2 {
        '2'
    } else if n == 3 {
        '3'
    } else if n == 4 {
        '4'
    } else if n == 5 {
        '5'
    } else if n == 6 {
        '6'
    } else if n == 7 {
        '7'
    } else if n == 8 {
        '8'
    } else {
        '9'
    }
}

/// A natural number written in decimal, without leading zeros.
pub open spec fn decimal(n: nat) -> Seq<char>
    decreases n,
{
    if n < 10 {
        seq![digit(n as int)]
    } else {
        decimal(n / 10).push(digit((n % 10) as int))
    }
}

/// An integer written in decimal, with a minus sign where it is negative.
pub open spec fn signed_decimal(n: int) -> Seq<char> {
    if n < 0 {
        seq!['-'] + decimal((-n) as nat)
    } else {
        decimal(n as nat)
    }
}

/// A number below a power of ten written with that many digits, zeros in front.
pub open spec fn fixed(n: nat, width: nat) -> Seq<char>
    decreases width,
{
    if width == 0 {
        Seq::empty()
    } else {
        fixed(n / 10, (width - 1) as nat).push(digit((n % 10) as int))
    }
}

/// Whether a character is a decimal digit.
pub open spec fn is_digit(c: char) -> bool {
    '0' <= c <= '9'
}

/// Whether a text holds decimal digits only.
pub open spec fn all_digits(s: Seq<char>) -> bool {
    forall|i: int| 0 <= i < s.len() ==> is_digit(#[trigger] s[i])
}

/// The number that decimal digits write.
pub open spec fn nat_of(digits: Seq<char>) -> nat
    decreases digits.len(),
{
    if digits.len() == 0 {
        0
    } else {
        nat_of(digits.drop_last()) * 10 + (digits.last() as nat - '0' as nat) as nat
    }
}

/// The integer of 64 bits that a text writes in decimal, with or without a sign in front.
pub open spec fn integer_of(s: Seq<char>) -> Option<int> {
    let signed = s.len() > 0 && (s[0] == '-' || s[0] == '+');
    let digits = if signed {
        s.skip(1)
    } else {
        s
    };
    let n = nat_of(digits) as int;
    if digits.len() == 0 || !all_digits(digits) {
        None
    } else if signed && s[0] == '-' {
        if -n >= i64::MIN {
            Some(-n)
        } else {
            None
        }
    } else if n <= i64::MAX {
        Some(n)
    } else {
        None
    }
}

/// How many characters stand before the first of this kind.
pub open spec fn until(s: Seq<char>, c: char) -> int
    decreases s.len(),
{
    if s.len() == 0 || s[0] == c {
        0
    } else {
        1 + until(s.skip(1), c)
    }
}

/// The first characters of a text, this many at most.
pub open spec fn start_of(text: Seq<char>, count: int) -> Seq<char> {
    if text.len() <= count {
        text
    } else {
        text.take(count)
    }
}

/// A text without the characters of this kind behind it.
pub open spec fn without_trailing(s: Seq<char>, c: char) -> Seq<char>
    decreases s.len(),
{
    if s.len() > 0 && s.last() == c {
        without_trailing(s.drop_last(), c)
    } else {
        s
    }
}

/// The pieces between the characters of this kind.
pub open spec fn pieces(s: Seq<char>, c: char) -> Seq<Seq<char>>
    decreases s.len(),
{
    if s.len() == 0 {
        seq![Seq::empty()]
    } else {
        let before = pieces(s.drop_last(), c);
        if s.last() == c {
            before.push(Seq::empty())
        } else {
            before.drop_last().push(before.last().push(s.last()))
        }
    }
}

/// A text, or no characters where there is none.
pub open spec fn or_empty(text: Option<Seq<char>>) -> Seq<char> {
    match text {
        Some(text) => text,
        None => Seq::empty(),
    }
}

/// The parts one after another with the separator between each two.
pub open spec fn joined(parts: Seq<Seq<char>>, separator: Seq<char>) -> Seq<char>
    decreases parts.len(),
{
    if parts.len() == 0 {
        Seq::empty()
    } else if parts.len() == 1 {
        parts[0]
    } else {
        joined(parts.drop_last(), separator) + separator + parts.last()
    }
}

/// The text that holds these characters, made with `String::from_iter`, which gives the
/// characters of the iterator in their order.
#[verifier::external_body]
pub(crate) fn text_of(chars: &Vec<char>) -> (text: String)
    ensures
        text@ == chars@,
{
    String::from_iter(chars)
}

/// The characters of a text.
pub fn chars_of(text: &str) -> (chars: Vec<char>)
    ensures
        chars@ == text@,
{
    let mut chars: Vec<char> = Vec::new();
    for c in iter: text.chars()
        invariant
            iter.seq() == text@,
            chars@ == text@.take(iter.index() as int),
    {
        chars.push(c);
    }
    chars
}

/// Whether a character counts as white space.
pub fn white(c: char) -> (yes: bool)
    ensures
        yes == is_white(c),
{
    ('\u{9}' <= c && c <= '\u{d}') || c == ' ' || c == '\u{85}' || c == '\u{a0}' || c == '\u{1680}'
        || ('\u{2000}' <= c && c <= '\u{200a}') || c == '\u{2028}' || c == '\u{2029}' || c
        == '\u{202f}' || c == '\u{205f}' || c == '\u{3000}'
}

/// Whether two texts hold the same characters.
pub fn same(a: &str, b: &str) -> (yes: bool)
    ensures
        yes == (a@ == b@),
{
    let left = a.as_bytes();
    let right = b.as_bytes();
    proof {
        encode_utf8_decode_utf8(a@);
        encode_utf8_decode_utf8(b@);
    }
    if left.len() != right.len() {
        return false;
    }
    let mut i: usize = 0;
    while i < left.len()
        invariant
            left@ == encode_utf8(a@),
            right@ == encode_utf8(b@),
            left.len() == right.len(),
            i <= left.len(),
            forall|j: int| 0 <= j < i ==> left[j] == right[j],
        decreases left.len() - i,
    {
        if left[i] != right[i] {
            return false;
        }
        i += 1;
    }
    assert(left@ == right@);
    true
}

/// Two texts, one after the other.
pub fn followed_by(a: &str, b: &str) -> (text: String)
    ensures
        text@ == a@ + b@,
{
    a.to_owned().concat(b)
}

/// Whether a text is empty or white space throughout.
pub fn blank(text: &str) -> (yes: bool)
    ensures
        yes == is_blank(text@),
{
    for c in iter: text.chars()
        invariant
            iter.seq() == text@,
            forall|i: int| 0 <= i < iter.index() ==> is_white(#[trigger] text@[i]),
    {
        if !white(c) {
            assert(!is_white(text@[iter.index() as int]));
            return false;
        }
    }
    true
}

/// A text without the white space around it.
pub fn trim(text: &str) -> (cut: String)
    ensures
        cut@ == trimmed(text@),
{
    let chars = chars_of(text);
    let mut start: usize = 0;
    assert(text@.skip(0) == text@);
    while start < chars.len() && white(chars[start])
        invariant
            start <= chars.len(),
            chars@ == text@,
            trim_start(text@) == trim_start(text@.skip(start as int)),
        decreases chars.len() - start,
    {
        assert(text@.skip(start as int).skip(1) == text@.skip(start as int + 1));
        start += 1;
    }
    assert(trim_start(text@) == text@.skip(start as int));
    let mut end: usize = chars.len();
    assert(text@.subrange(start as int, end as int) == text@.skip(start as int));
    while end > start && white(chars[end - 1])
        invariant
            start <= end <= chars.len(),
            chars@ == text@,
            trim_end(text@.skip(start as int)) == trim_end(
                text@.subrange(start as int, end as int),
            ),
        decreases end,
    {
        assert(text@.subrange(start as int, end as int).drop_last() == text@.subrange(
            start as int,
            end as int - 1,
        ));
        end -= 1;
    }
    assert(trim_end(text@.skip(start as int)) == text@.subrange(start as int, end as int));
    piece(&chars, start, end)
}

/// A text without the white space behind it.
pub fn trim_behind(text: &str) -> (cut: String)
    ensures
        cut@ == trim_end(text@),
{
    let chars = chars_of(text);
    let mut end: usize = chars.len();
    assert(text@.take(end as int) == text@);
    while end > 0 && white(chars[end - 1])
        invariant
            end <= chars.len(),
            chars@ == text@,
            trim_end(text@) == trim_end(text@.take(end as int)),
        decreases end,
    {
        assert(text@.take(end as int).drop_last() == text@.take(end - 1));
        end -= 1;
    }
    assert(trim_end(text@) == text@.take(end as int));
    assert(text@.subrange(0, end as int) == text@.take(end as int));
    piece(&chars, 0, end)
}

/// The same texts.
pub fn copied_texts(texts: &Vec<String>) -> (copies: Vec<String>)
    ensures
        copies.deep_view() == texts.deep_view(),
{
    let mut copies: Vec<String> = Vec::new();
    let mut i: usize = 0;
    while i < texts.len()
        invariant
            i <= texts.len(),
            copies.deep_view() == texts.deep_view().take(i as int),
        decreases texts.len() - i,
    {
        let ghost before = copies.deep_view();
        copies.push(texts[i].clone());
        assert(copies.deep_view() == before.push(texts.deep_view()[i as int]));
        i += 1;
    }
    assert(texts.deep_view().take(i as int) == texts.deep_view());
    copies
}

/// Whether a text is among others.
pub fn is_among(texts: &Vec<String>, text: &str) -> (yes: bool)
    ensures
        yes == texts.deep_view().contains(text@),
{
    let mut i: usize = 0;
    while i < texts.len()
        invariant
            i <= texts.len(),
            forall|j: int| 0 <= j < i ==> (#[trigger] texts.deep_view()[j]) != text@,
        decreases texts.len() - i,
    {
        if same(texts[i].as_str(), text) {
            assert(texts.deep_view()[i as int] == text@);
            return true;
        }
        i += 1;
    }
    false
}

/// A line of a text that was cut at each line feed: without the carriage return that stood
/// before the line feed.
pub open spec fn line_at(cut: Seq<Seq<char>>, i: int) -> Seq<char> {
    if i + 1 < cut.len() && cut[i].len() > 0 && cut[i].last() == '\r' {
        cut[i].drop_last()
    } else {
        cut[i]
    }
}

/// The first line from here on that is not blank.
pub open spec fn first_line_from(cut: Seq<Seq<char>>, i: int) -> Option<Seq<char>>
    decreases cut.len() - i,
{
    if i >= cut.len() {
        None
    } else if !is_blank(line_at(cut, i)) {
        Some(line_at(cut, i))
    } else {
        first_line_from(cut, i + 1)
    }
}

/// The first line of a text that is not blank.
pub open spec fn first_line_of(text: Seq<char>) -> Option<Seq<char>> {
    first_line_from(pieces(text, '\n'), 0)
}

/// The first line of a text that is not blank.
pub fn first_line(text: &str) -> (line: Option<String>)
    ensures
        line.deep_view() == first_line_of(text@),
{
    let cut = split(text, '\n');
    let ghost all = pieces(text@, '\n');
    let mut i: usize = 0;
    while i < cut.len()
        invariant
            i <= cut.len(),
            cut.deep_view() == all,
            first_line_of(text@) == first_line_from(all, i as int),
        decreases cut.len() - i,
    {
        let end: usize = cut[i].len();
        assert(all[i as int] == cut[i as int]@);
        let line = if i + 1 < cut.len() && end > 0 && cut[i][end - 1] == '\r' {
            assert(cut[i as int]@.subrange(0, end - 1) == cut[i as int]@.drop_last());
            piece(&cut[i], 0, end - 1)
        } else {
            assert(cut[i as int]@.subrange(0, end as int) == cut[i as int]@);
            piece(&cut[i], 0, end)
        };
        assert(line@ == line_at(all, i as int));
        if !blank(line.as_str()) {
            return Some(line);
        }
        i += 1;
    }
    None
}

/// The characters from `start` up to `end`.
pub fn piece(chars: &Vec<char>, start: usize, end: usize) -> (text: String)
    requires
        start <= end <= chars.len(),
    ensures
        text@ == chars@.subrange(start as int, end as int),
{
    let mut kept: Vec<char> = Vec::new();
    let mut i: usize = start;
    while i < end
        invariant
            start <= i <= end <= chars.len(),
            kept@ == chars@.subrange(start as int, i as int),
        decreases end - i,
    {
        kept.push(chars[i]);
        i += 1;
    }
    text_of(&kept)
}

/// A number below ten as a decimal digit.
fn digit_of(n: u128) -> (c: char)
    requires
        n < 10,
    ensures
        c == digit(n as int),
{
    match n {
        0 => '0',
        1 => '1',
        2 => '2',
        3 => '3',
        4 => '4',
        5 => '5',
        6 => '6',
        7 => '7',
        8 => '8',
        _ => '9',
    }
}

/// A natural number as the characters of its decimal form.
fn decimal_chars(n: u128) -> (chars: Vec<char>)
    ensures
        chars@ == decimal(n as nat),
    decreases n,
{
    if n < 10 {
        let mut chars: Vec<char> = Vec::new();
        chars.push(digit_of(n));
        chars
    } else {
        let mut chars = decimal_chars(n / 10);
        chars.push(digit_of(n % 10));
        chars
    }
}

/// A natural number written in decimal.
pub fn decimal_text(n: u128) -> (text: String)
    ensures
        text@ == decimal(n as nat),
{
    text_of(&decimal_chars(n))
}

/// An integer written in decimal, with a minus sign where it is negative.
pub fn signed_text(n: i64) -> (text: String)
    ensures
        text@ == signed_decimal(n as int),
{
    if n < 0 {
        let text = followed_by("-", decimal_text((0 - n as i128) as u128).as_str());
        proof {
            reveal_strlit("-");
            assert("-"@ == seq!['-']);
        }
        text
    } else {
        decimal_text(n as u128)
    }
}

/// The parts one after another with the separator between each two.
pub fn join(parts: &Vec<String>, separator: &str) -> (text: String)
    ensures
        text@ == joined(parts.deep_view(), separator@),
{
    let mut text = String::new();
    let mut i: usize = 0;
    while i < parts.len()
        invariant
            i <= parts.len(),
            text@ == joined(parts.deep_view().take(i as int), separator@),
        decreases parts.len() - i,
    {
        if i > 0 {
            text.append(separator);
        }
        text.append(parts[i].as_str());
        assert(parts.deep_view().take(i + 1).drop_last() == parts.deep_view().take(i as int));
        i += 1;
    }
    assert(parts.deep_view().take(i as int) == parts.deep_view());
    text
}

/// The names one behind the other, with a separator between each two.
pub fn join_names(names: &Vec<&'static str>, separator: &str) -> (text: String)
    ensures
        text@ == joined(names.deep_view(), separator@),
{
    let mut parts: Vec<String> = Vec::new();
    let mut i: usize = 0;
    while i < names.len()
        invariant
            i <= names.len(),
            parts.deep_view() == names.deep_view().take(i as int),
        decreases names.len() - i,
    {
        let ghost before = parts.deep_view();
        parts.push(names[i].to_owned());
        assert(parts.deep_view() == before.push(names.deep_view()[i as int]));
        i += 1;
    }
    assert(parts.deep_view() == names.deep_view());
    join(&parts, separator)
}

/// How far it is to the first character of this kind, and what stands before it.
pub proof fn until_bounds(s: Seq<char>, c: char)
    ensures
        0 <= until(s, c) <= s.len(),
        until(s, c) < s.len() ==> s[until(s, c)] == c,
        forall|i: int| 0 <= i < until(s, c) ==> #[trigger] s[i] != c,
    decreases s.len(),
{
    if s.len() > 0 && s[0] != c {
        until_bounds(s.skip(1), c);
        assert forall|i: int| 0 <= i < until(s, c) implies #[trigger] s[i] != c by {
            if i > 0 {
                assert(s.skip(1)[i - 1] == s[i]);
            }
        }
    }
}

/// The first place of a character is the one before which it does not stand.
pub proof fn until_is(s: Seq<char>, c: char, at: int)
    requires
        0 <= at <= s.len(),
        at < s.len() ==> s[at] == c,
        forall|i: int| 0 <= i < at ==> #[trigger] s[i] != c,
    ensures
        until(s, c) == at,
    decreases s.len(),
{
    if s.len() > 0 && at > 0 {
        assert(s[0] != c);
        assert forall|i: int| 0 <= i < at - 1 implies #[trigger] s.skip(1)[i] != c by {
            assert(s[i + 1] != c);
        }
        until_is(s.skip(1), c, at - 1);
    }
}

/// The place of the first character of this kind at or behind a place, or the end.
pub fn find_char(chars: &Vec<char>, from: usize, c: char) -> (at: usize)
    requires
        from <= chars.len(),
    ensures
        from <= at <= chars.len(),
        at == from + until(chars@.skip(from as int), c),
{
    let mut at: usize = from;
    while at < chars.len() && chars[at] != c
        invariant
            from <= at <= chars.len(),
            forall|i: int| from <= i < at ==> #[trigger] chars@[i] != c,
        decreases chars.len() - at,
    {
        at += 1;
    }
    proof {
        let rest = chars@.skip(from as int);
        assert forall|i: int| 0 <= i < at - from implies #[trigger] rest[i] != c by {
            assert(chars@[i + from] != c);
        }
        until_is(rest, c, at - from);
    }
    at
}

/// Whether a character is a decimal digit.
pub fn digit_char(c: char) -> (yes: bool)
    ensures
        yes == is_digit(c),
{
    '0' <= c && c <= '9'
}

/// Whether the characters from `start` up to `end` are decimal digits.
pub fn digits_only(chars: &Vec<char>, start: usize, end: usize) -> (yes: bool)
    requires
        start <= end <= chars.len(),
    ensures
        yes == all_digits(chars@.subrange(start as int, end as int)),
{
    let mut i: usize = start;
    while i < end
        invariant
            start <= i <= end <= chars.len(),
            forall|j: int| start <= j < i ==> is_digit(#[trigger] chars@[j]),
        decreases end - i,
    {
        if !digit_char(chars[i]) {
            assert(!is_digit(chars@.subrange(start as int, end as int)[i - start]));
            return false;
        }
        i += 1;
    }
    true
}

/// The number that more digits write is no smaller than the number that the first of them do.
pub proof fn nat_of_grows(digits: Seq<char>, i: int)
    requires
        0 <= i <= digits.len(),
        all_digits(digits),
    ensures
        nat_of(digits.take(i)) <= nat_of(digits),
    decreases digits.len() - i,
{
    if i < digits.len() {
        nat_of_grows(digits, i + 1);
        assert(digits.take(i + 1).drop_last() == digits.take(i));
    } else {
        assert(digits.take(i) == digits);
    }
}

/// The number that decimal digits write, where it is at most this large.
pub fn number_of(digits: &Vec<char>, limit: u64) -> (number: Option<u64>)
    requires
        all_digits(digits@),
    ensures
        number is Some <==> nat_of(digits@) <= limit,
        number matches Some(n) ==> n == nat_of(digits@),
{
    let mut value: u128 = 0;
    let mut i: usize = 0;
    while i < digits.len()
        invariant
            i <= digits.len(),
            all_digits(digits@),
            value == nat_of(digits@.take(i as int)),
            value <= limit,
        decreases digits.len() - i,
    {
        proof {
            assert(digits@.take(i + 1).drop_last() == digits@.take(i as int));
            assert(digits@.take(i + 1).last() == digits@[i as int]);
            assert(is_digit(digits@[i as int]));
            nat_of_grows(digits@, i + 1);
        }
        value = value * 10 + (digits[i] as u128 - '0' as u128);
        if value > limit as u128 {
            return None;
        }
        i += 1;
    }
    assert(digits@.take(i as int) == digits@);
    Some(value as u64)
}

/// The characters from `start` up to `end`, as a list.
pub fn slice_of(chars: &Vec<char>, start: usize, end: usize) -> (kept: Vec<char>)
    requires
        start <= end <= chars.len(),
    ensures
        kept@ == chars@.subrange(start as int, end as int),
{
    let mut kept: Vec<char> = Vec::new();
    let mut i: usize = start;
    while i < end
        invariant
            start <= i <= end <= chars.len(),
            kept@ == chars@.subrange(start as int, i as int),
        decreases end - i,
    {
        kept.push(chars[i]);
        i += 1;
    }
    kept
}

/// The integer of 64 bits that a text writes in decimal, with or without a sign in front.
pub fn integer(chars: &Vec<char>) -> (number: Option<i64>)
    ensures
        number is Some <==> integer_of(chars@) is Some,
        number matches Some(n) ==> integer_of(chars@) == Some(n as int),
{
    let signed = chars.len() > 0 && (chars[0] == '-' || chars[0] == '+');
    let start: usize = if signed {
        1
    } else {
        0
    };
    let digits = slice_of(chars, start, chars.len());
    assert(digits@ == chars@.skip(start as int));
    assert(chars@.skip(0) == chars@);
    if digits.len() == 0 || !digits_only(chars, start, chars.len()) {
        return None;
    }
    if signed && chars[0] == '-' {
        match number_of(&digits, 9_223_372_036_854_775_808) {
            Some(n) => Some((0 - n as i128) as i64),
            None => None,
        }
    } else {
        match number_of(&digits, 9_223_372_036_854_775_807) {
            Some(n) => Some(n as i64),
            None => None,
        }
    }
}

/// The characters of a number below a power of ten, written with that many digits.
fn fixed_chars(n: u64, width: usize) -> (chars: Vec<char>)
    ensures
        chars@ == fixed(n as nat, width as nat),
    decreases width,
{
    if width == 0 {
        Vec::new()
    } else {
        let mut chars = fixed_chars(n / 10, width - 1);
        chars.push(digit_of((n % 10) as u128));
        chars
    }
}

/// A number below a power of ten written with that many digits, zeros in front.
pub fn fixed_text(n: u64, width: usize) -> (text: String)
    ensures
        text@ == fixed(n as nat, width as nat),
{
    text_of(&fixed_chars(n, width))
}

/// Writing a number in decimal gives digits, and they write that number.
pub proof fn decimal_reads_back(n: nat)
    ensures
        decimal(n).len() > 0,
        all_digits(decimal(n)),
        nat_of(decimal(n)) == n,
    decreases n,
{
    if n < 10 {
        assert(decimal(n).drop_last() == Seq::<char>::empty());
        assert(nat_of(Seq::<char>::empty()) == 0);
        assert(decimal(n).last() == digit(n as int));
    } else {
        decimal_reads_back(n / 10);
        assert(decimal(n).drop_last() == decimal(n / 10));
    }
}

/// Ten to this power.
pub open spec fn ten_to(power: nat) -> nat
    decreases power,
{
    if power == 0 {
        1
    } else {
        10 * ten_to((power - 1) as nat)
    }
}

/// A number below a power of ten is written with no more digits than that power.
pub proof fn decimal_is_short(n: nat, power: nat)
    requires
        n < ten_to(power),
        power > 0,
    ensures
        1 <= decimal(n).len() <= power,
        all_digits(decimal(n)),
    decreases power,
{
    decimal_reads_back(n);
    if n >= 10 {
        if power == 1 {
            assert(ten_to(1) == 10) by {
                reveal_with_fuel(ten_to, 2);
            }
        } else {
            assert(n / 10 < ten_to((power - 1) as nat)) by (nonlinear_arith)
                requires
                    n < 10 * ten_to((power - 1) as nat),
            ;
            decimal_is_short(n / 10, (power - 1) as nat);
        }
    }
}

/// Digits write a number below the power of ten that has one digit more.
pub proof fn digits_bound_their_number(digits: Seq<char>)
    requires
        all_digits(digits),
    ensures
        nat_of(digits) < ten_to(digits.len()),
    decreases digits.len(),
{
    if digits.len() > 0 {
        assert(is_digit(digits[digits.len() - 1]));
        assert forall|i: int| 0 <= i < digits.drop_last().len() implies is_digit(
            #[trigger] digits.drop_last()[i],
        ) by {
            assert(is_digit(digits[i]));
        }
        digits_bound_their_number(digits.drop_last());
    }
}

/// A larger power of ten is larger.
pub proof fn ten_to_grows(a: nat, b: nat)
    requires
        a <= b,
    ensures
        ten_to(a) <= ten_to(b),
    decreases b,
{
    if a < b {
        ten_to_grows(a, (b - 1) as nat);
    }
}

/// A text without the white space around it is no longer than with it.
pub proof fn trimmed_is_no_longer(s: Seq<char>)
    ensures
        trim_start(s).len() <= s.len(),
        trim_end(s).len() <= s.len(),
        trimmed(s).len() <= s.len(),
    decreases s.len(),
{
    trim_start_is_no_longer(s);
    trim_end_is_no_longer(s);
    trim_end_is_no_longer(trim_start(s));
}

proof fn trim_start_is_no_longer(s: Seq<char>)
    ensures
        trim_start(s).len() <= s.len(),
    decreases s.len(),
{
    if s.len() > 0 && is_white(s[0]) {
        trim_start_is_no_longer(s.skip(1));
    }
}

proof fn trim_end_is_no_longer(s: Seq<char>)
    ensures
        trim_end(s).len() <= s.len(),
    decreases s.len(),
{
    if s.len() > 0 && is_white(s.last()) {
        trim_end_is_no_longer(s.drop_last());
    }
}

/// Digits of fixed width behind others write the number of the others moved up by that width
/// and their own number added.
pub proof fn fixed_reads_back(digits: Seq<char>, n: nat, width: nat)
    requires
        all_digits(digits),
        n < ten_to(width),
    ensures
        fixed(n, width).len() == width,
        all_digits(fixed(n, width)),
        nat_of(digits + fixed(n, width)) == nat_of(digits) * ten_to(width) + n,
    decreases width,
{
    if width == 0 {
        assert(digits + fixed(n, width) == digits);
    } else {
        let less = (width - 1) as nat;
        fixed_reads_back(digits, n / 10, less);
        let all = digits + fixed(n, width);
        assert(all.drop_last() == digits + fixed(n / 10, less));
        assert(all.last() == digit((n % 10) as int));
        let d = nat_of(digits);
        let t = ten_to(less);
        assert((d * t + n / 10) * 10 + n % 10 == d * (10 * t) + n) by (nonlinear_arith)
            requires
                n == (n / 10) * 10 + n % 10,
        ;
    }
}

/// How the standard library writes a text in quotes, with `Debug`.
pub uninterp spec fn quoted(text: Seq<char>) -> Seq<char>;

/// Writes a text in quotes with its `Debug`. What comes out depends on the text alone.
#[verifier::external_body]
pub(crate) fn quote(text: &str) -> (line: String)
    ensures
        line@ == quoted(text@),
{
    format!("{text:?}")
}

/// The bytes of a text.
pub fn bytes_of(text: &str) -> (bytes: Vec<u8>)
    ensures
        bytes@ == encode_utf8(text@),
{
    vstd::slice::slice_to_vec(text.as_bytes())
}

/// What `String::from_utf8_lossy` reads from bytes.
pub uninterp spec fn lossy_text(bytes: Seq<u8>) -> Seq<char>;

/// Calls `String::from_utf8_lossy`. The text depends on the bytes alone. Bytes that are valid
/// UTF-8 give the text they encode.
#[verifier::external_body]
pub(crate) fn lossy(bytes: &Vec<u8>) -> (text: String)
    ensures
        text@ == lossy_text(bytes@),
        valid_utf8(bytes@) ==> encode_utf8(text@) == bytes@,
{
    String::from_utf8_lossy(bytes).into_owned()
}

/// Calls `std::str::from_utf8`, which gives the text that the bytes encode where they are valid
/// UTF-8 and an error where they are not.
#[verifier::external_body]
pub(crate) fn utf8_text(bytes: &Vec<u8>) -> (text: Option<String>)
    ensures
        text is Some <==> valid_utf8(bytes@),
        text matches Some(text) ==> encode_utf8(text@) == bytes@,
{
    std::str::from_utf8(bytes).ok().map(String::from)
}

/// The first characters of a text, this many at most.
pub fn first_chars(text: &str, count: usize) -> (start: String)
    ensures
        start@ == start_of(text@, count as int),
{
    let chars = chars_of(text);
    if chars.len() <= count {
        text.to_owned()
    } else {
        let start = piece(&chars, 0, count);
        assert(chars@.subrange(0, count as int) == text@.take(count as int));
        start
    }
}

/// Where the characters of this kind behind a place are left out.
pub fn cut_trailing(chars: &Vec<char>, c: char) -> (end: usize)
    ensures
        end <= chars.len(),
        chars@.take(end as int) == without_trailing(chars@, c),
{
    let mut end: usize = chars.len();
    assert(chars@.take(end as int) == chars@);
    while end > 0 && chars[end - 1] == c
        invariant
            end <= chars.len(),
            without_trailing(chars@, c) == without_trailing(chars@.take(end as int), c),
        decreases end,
    {
        assert(chars@.take(end as int).drop_last() == chars@.take(end - 1));
        end -= 1;
    }
    end
}

/// A text without the characters of this kind behind it.
pub fn trim_end_matches(text: &str, c: char) -> (cut: String)
    ensures
        cut@ == without_trailing(text@, c),
{
    let chars = chars_of(text);
    let end = cut_trailing(&chars, c);
    assert(chars@.subrange(0, end as int) == chars@.take(end as int));
    piece(&chars, 0, end)
}

/// There is always a piece.
pub proof fn pieces_not_empty(s: Seq<char>, c: char)
    ensures
        pieces(s, c).len() > 0,
    decreases s.len(),
{
    if s.len() > 0 {
        pieces_not_empty(s.drop_last(), c);
    }
}

/// The pieces of a text between the characters of this kind.
pub fn split(text: &str, c: char) -> (parts: Vec<Vec<char>>)
    ensures
        parts.deep_view() == pieces(text@, c),
{
    let chars = chars_of(text);
    let mut parts: Vec<Vec<char>> = Vec::new();
    let mut open: Vec<char> = Vec::new();
    let mut i: usize = 0;
    assert(chars@.take(0) == Seq::<char>::empty());
    assert(parts.deep_view().push(open@) == pieces(chars@.take(0), c));
    while i < chars.len()
        invariant
            i <= chars.len(),
            parts.deep_view().push(open@) == pieces(chars@.take(i as int), c),
        decreases chars.len() - i,
    {
        let ghost before = parts.deep_view();
        let ghost all = pieces(chars@.take(i as int), c);
        assert(chars@.take(i + 1).drop_last() == chars@.take(i as int));
        assert(all.drop_last() == before);
        assert(all.last() == open@);
        if chars[i] == c {
            let ghost closed = open@;
            parts.push(open);
            assert(parts.deep_view() == before.push(closed)) by {
                assert(parts@.last().deep_view() == closed);
            }
            open = Vec::new();
        } else {
            open.push(chars[i]);
        }
        i += 1;
    }
    assert(chars@.take(i as int) == chars@);
    let ghost before = parts.deep_view();
    let ghost closed = open@;
    parts.push(open);
    assert(parts.deep_view() == before.push(closed)) by {
        assert(parts@.last().deep_view() == closed);
    }
    parts
}

/// A text, or no characters where there is none.
pub fn owned_or_empty(text: Option<&str>) -> (owned: String)
    ensures
        owned@ == or_empty(text.deep_view()),
{
    match text {
        Some(text) => text.to_owned(),
        None => String::new(),
    }
}

/// A text of its own, where there is one.
pub fn owned(text: Option<&str>) -> (owned: Option<String>)
    ensures
        owned.deep_view() == text.deep_view(),
{
    match text {
        Some(text) => Some(text.to_owned()),
        None => None,
    }
}

/// White is a blank, a tab and the ends of lines, and no letter, digit or sign is.
pub proof fn what_is_white_is_no_sign(c: char)
    ensures
        is_white(' ') && is_white('\t') && is_white('\n') && is_white('\r'),
        '!' <= c <= '~' ==> !is_white(c),
        is_white('\u{a0}') && is_white('\u{2003}') && is_white('\u{3000}'),
{
}

/// What is white in front of a text and behind it is taken off, and nothing else.
pub proof fn what_is_white_around_a_text_is_taken_off(text: Seq<char>, c: char)
    ensures
        is_white(c) ==> trim_start(seq![c] + text) == trim_start(text),
        is_white(c) ==> trim_end(text.push(c)) == trim_end(text),
        text.len() > 0 && !is_white(text[0]) ==> trim_start(text) == text,
        text.len() > 0 && !is_white(text.last()) ==> trim_end(text) == text,
        text.len() > 0 && !is_white(text[0]) && !is_white(text.last()) ==> trimmed(text) == text,
{
    assert((seq![c] + text).skip(1) == text);
    assert(text.push(c).drop_last() == text);
}

/// A text that is cut at a character and joined by it again is what it was.
pub proof fn pieces_join_again(text: Seq<char>, c: char)
    ensures
        joined(pieces(text, c), seq![c]) == text,
    decreases text.len(),
{
    if text.len() > 0 {
        let rest = text.drop_last();
        pieces_join_again(rest, c);
        pieces_not_empty(rest, c);
        let before = pieces(rest, c);
        if text.last() == c {
            assert(pieces(text, c).drop_last() == before);
            assert(joined(before, seq![c]) + seq![c] + Seq::<char>::empty() == text);
        } else {
            let grown = before.last().push(text.last());
            assert(pieces(text, c) == before.drop_last().push(grown));
            if before.len() == 1 {
                assert(joined(before, seq![c]) == before[0]);
                assert(before.drop_last().push(grown)[0] == grown);
                assert(grown == text);
            } else {
                let front = joined(before.drop_last(), seq![c]) + seq![c];
                assert(joined(before, seq![c]) == front + before.last());
                assert(pieces(text, c).drop_last() == before.drop_last());
                assert(front + grown == (front + before.last()).push(text.last()));
                assert(text == rest.push(text.last()));
            }
        }
    } else {
        assert(pieces(text, c)[0] == text);
    }
}

/// No piece of a text that was cut holds what it was cut at.
pub proof fn no_piece_holds_the_cut(text: Seq<char>, c: char, i: int, k: int)
    requires
        0 <= i < pieces(text, c).len(),
        0 <= k < pieces(text, c)[i].len(),
    ensures
        pieces(text, c)[i][k] != c,
    decreases text.len(),
{
    if text.len() > 0 {
        let rest = text.drop_last();
        let before = pieces(rest, c);
        pieces_not_empty(rest, c);
        if i < before.len() - 1 || (i == before.len() - 1 && k < before[i].len()) {
            no_piece_holds_the_cut(rest, c, i, k);
        }
    }
}

/// The start of a text is a part of it from its beginning, the whole of it where it is short
/// enough and as much as was asked for where it is not.
pub proof fn the_start_of_a_text_is_its_beginning(text: Seq<char>, count: int, i: int)
    requires
        0 <= count,
        0 <= i < start_of(text, count).len(),
    ensures
        start_of(text, count)[i] == text[i],
        text.len() <= count ==> start_of(text, count).len() == text.len(),
        text.len() > count ==> start_of(text, count).len() == count,
{
}

/// One more of a character at the end of a text is taken off with the others, and a text that
/// does not end with it stays.
pub proof fn what_trails_is_taken_off(text: Seq<char>, c: char)
    ensures
        without_trailing(text.push(c), c) == without_trailing(text, c),
        text.len() > 0 && text.last() != c ==> without_trailing(text, c) == text,
{
    assert(text.push(c).drop_last() == text);
}

/// A digit at the end of a number makes it ten times as large and adds itself.
pub proof fn a_digit_makes_a_number_ten_times_larger(digits: Seq<char>, n: nat)
    requires
        n < 10,
    ensures
        nat_of(digits.push(digit(n as int))) == nat_of(digits) * 10 + n,
        nat_of(Seq::<char>::empty()) == 0,
{
    assert(digits.push(digit(n as int)).drop_last() == digits);
}

/// A number that is written reads back, with its sign.
pub proof fn a_signed_number_reads_back(n: i64)
    ensures
        integer_of(signed_decimal(n as int)) == Some(n as int),
{
    if n < 0 {
        let digits = decimal((-n) as nat);
        decimal_reads_back((-n) as nat);
        assert((seq!['-'] + digits).skip(1) == digits);
    } else {
        decimal_reads_back(n as nat);
        assert(is_digit(decimal(n as nat)[0]));
    }
}

/// Texts are joined in their order with what separates them between each two.
pub proof fn texts_are_joined_in_order(
    parts: Seq<Seq<char>>,
    part: Seq<char>,
    separator: Seq<char>,
)
    ensures
        joined(Seq::<Seq<char>>::empty(), separator).len() == 0,
        joined(seq![part], separator) == part,
        parts.len() > 0 ==> joined(parts.push(part), separator) == joined(parts, separator)
            + separator + part,
{
    assert(parts.push(part).drop_last() == parts);
}

/// A text that is cut is cut on either side of one of its cuts.
proof fn pieces_of_two_sides(front: Seq<char>, rest: Seq<char>, c: char)
    ensures
        pieces(front + seq![c] + rest, c) == pieces(front, c) + pieces(rest, c),
    decreases rest.len(),
{
    let whole = front + seq![c] + rest;
    pieces_not_empty(rest, c);
    if rest.len() == 0 {
        assert(whole.drop_last() == front);
        assert(whole.last() == c);
        assert(pieces(rest, c) == seq![Seq::<char>::empty()]);
        assert(pieces(whole, c) == pieces(front, c).push(Seq::empty()));
    } else {
        let shorter = rest.drop_last();
        pieces_of_two_sides(front, shorter, c);
        pieces_not_empty(shorter, c);
        assert(whole.drop_last() == front + seq![c] + shorter);
        assert(whole.last() == rest.last());
        let before = pieces(front, c) + pieces(shorter, c);
        assert(before.last() == pieces(shorter, c).last());
        assert(before.drop_last() == pieces(front, c) + pieces(shorter, c).drop_last());
    }
}

/// A text without the cut is one piece.
proof fn no_cut_is_one_piece(text: Seq<char>, c: char)
    requires
        forall|i: int| 0 <= i < text.len() ==> #[trigger] text[i] != c,
    ensures
        pieces(text, c) == seq![text],
    decreases text.len(),
{
    if text.len() > 0 {
        let rest = text.drop_last();
        assert forall|i: int| 0 <= i < rest.len() implies #[trigger] rest[i] != c by {
            assert(rest[i] == text[i]);
        }
        no_cut_is_one_piece(rest, c);
        assert(text.last() == text[text.len() - 1]);
        assert(rest.push(text.last()) == text);
    } else {
        assert(text == Seq::<char>::empty());
    }
}

/// The lines behind the first are the lines of what is behind it.
proof fn lines_behind_the_first(line: Seq<char>, cut: Seq<Seq<char>>, i: int)
    requires
        0 <= i <= cut.len(),
    ensures
        first_line_from(seq![line] + cut, i + 1) == first_line_from(cut, i),
    decreases cut.len() - i,
{
    let all = seq![line] + cut;
    if i < cut.len() {
        lines_behind_the_first(line, cut, i + 1);
        assert(all[i + 1] == cut[i]);
        assert(line_at(all, i + 1) == line_at(cut, i));
    }
}

/// The first line of a text is the first that is not blank, without its end.
pub proof fn the_first_line_is_the_first_that_is_not_blank(line: Seq<char>, rest: Seq<char>)
    requires
        forall|i: int| 0 <= i < line.len() ==> #[trigger] line[i] != '\n' && line[i] != '\r',
    ensures
        !is_blank(line) ==> first_line_of(line + seq!['\n'] + rest) == Some(line),
        !is_blank(line) ==> first_line_of(line + seq!['\r', '\n'] + rest) == Some(line),
        !is_blank(line) ==> first_line_of(line) == Some(line),
        is_blank(line) ==> first_line_of(line + seq!['\n'] + rest) == first_line_of(rest),
        is_blank(line) ==> first_line_of(line) is None,
{
    pieces_of_two_sides(line, rest, '\n');
    no_cut_is_one_piece(line, '\n');
    pieces_not_empty(rest, '\n');
    let cut = pieces(rest, '\n');
    let all = seq![line] + cut;
    assert(all[0] == line);
    assert(line_at(all, 0) == line);
    lines_behind_the_first(line, cut, 0);
    let returned = line.push('\r');
    assert forall|i: int| 0 <= i < returned.len() implies #[trigger] returned[i] != '\n' by {
        if i < line.len() {
            assert(line[i] != '\n');
        }
    }
    no_cut_is_one_piece(returned, '\n');
    pieces_of_two_sides(returned, rest, '\n');
    assert(returned + seq!['\n'] + rest == line + seq!['\r', '\n'] + rest);
    let ended = seq![returned] + cut;
    assert(ended[0] == returned);
    assert(returned.drop_last() == line);
    assert(line_at(ended, 0) == line);
    let alone = seq![line];
    assert(alone[0] == line);
    assert(line_at(alone, 0) == line);
    assert(first_line_from(alone, 1) is None);
}

} // verus!
