//! Plain text helpers: characters, decimal numbers and UTF-16.
use vstd::prelude::*;

verus! {

/// `String::push` appends one character.
pub assume_specification[ String::push ](s: &mut String, ch: char)
    ensures
        final(s)@ == old(s)@.push(ch),
;

/// The characters of `text`, in order.
pub fn chars_of(text: &str) -> (chars: Vec<char>)
    ensures
        chars@ == text@,
{
    let mut chars: Vec<char> = Vec::new();
    for c in it: text.chars()
        invariant
            it.seq() == text@,
            chars@ == text@.take(it.index()),
    {
        chars.push(c);
        assert(text@.take(it.index() + 1) =~= text@.take(it.index()).push(c));
    }
    assert(text@.take(text@.len() as int) =~= text@);
    chars
}

/// The string made of `chars`.
pub fn string_of(chars: &[char]) -> (text: String)
    ensures
        text@ == chars@,
{
    let mut text = String::new();
    let mut i: usize = 0;
    while i < chars.len()
        invariant
            i <= chars.len(),
            text@ == chars@.take(i as int),
        decreases chars.len() - i,
    {
        text.push(chars[i]);
        i += 1;
        assert(chars@.take(i as int) =~= chars@.take(i - 1).push(chars@[i - 1]));
    }
    assert(chars@.take(i as int) =~= chars@);
    text
}

/// The number that a hexadecimal digit stands for, in either case.
pub open spec fn hex_digit(c: char) -> Option<u8> {
    if '0' <= c <= '9' {
        Some((c as u32 - '0' as u32) as u8)
    } else if 'a' <= c <= 'f' {
        Some((c as u32 - 'a' as u32 + 10) as u8)
    } else if 'A' <= c <= 'F' {
        Some((c as u32 - 'A' as u32 + 10) as u8)
    } else {
        None
    }
}

/// Reads one hexadecimal digit.
pub fn hex_value(c: char) -> (value: Option<u8>)
    ensures
        value == hex_digit(c),
{
    let n: u32 = c as u32;
    if '0' <= c && c <= '9' {
        Some((n - 0x30) as u8)
    } else if 'a' <= c && c <= 'f' {
        Some((n - 0x61 + 10) as u8)
    } else if 'A' <= c && c <= 'F' {
        Some((n - 0x41 + 10) as u8)
    } else {
        None
    }
}

/// `c` in lower case if it is an ASCII capital, else `c` itself.
pub open spec fn lower(c: char) -> char {
    if 'A' <= c <= 'Z' {
        (c as u32 + 32) as char
    } else {
        c
    }
}

/// Lowers an ASCII capital.
pub fn ascii_lower(c: char) -> (l: char)
    ensures
        l == lower(c),
{
    if 'A' <= c && c <= 'Z' {
        let n: u8 = c as u8;
        (n + 32) as char
    } else {
        c
    }
}

/// The characters with the Unicode `White_Space` property.
pub open spec fn white_space(c: char) -> bool {
    let n = c as u32;
    ||| 0x09 <= n <= 0x0D
    ||| n == 0x20
    ||| n == 0x85
    ||| n == 0xA0
    ||| n == 0x1680
    ||| 0x2000 <= n <= 0x200A
    ||| n == 0x2028
    ||| n == 0x2029
    ||| n == 0x202F
    ||| n == 0x205F
    ||| n == 0x3000
}

/// Whether `c` is Unicode white space.
pub fn is_white_space(c: char) -> (white: bool)
    ensures
        white == white_space(c),
{
    let n: u32 = c as u32;
    (0x09 <= n && n <= 0x0D) || n == 0x20 || n == 0x85 || n == 0xA0 || n == 0x1680 || (0x2000 <= n
        && n <= 0x200A) || n == 0x2028 || n == 0x2029 || n == 0x202F || n == 0x205F || n == 0x3000
}

/// The character for a digit below ten.
pub open spec fn digit_char(digit: nat) -> char {
    (0x30 + digit) as char
}

/// `n` written in decimal, without leading zeros.
pub open spec fn decimal(n: nat) -> Seq<char>
    decreases n,
{
    if n < 10 {
        seq![digit_char(n)]
    } else {
        decimal(n / 10).push(digit_char(n % 10))
    }
}

/// Decimal numbers are made of decimal digits.
pub proof fn lemma_decimal_digits(n: nat)
    ensures
        decimal(n).len() > 0,
        all_digits(decimal(n)),
    decreases n,
{
    if n >= 10 {
        lemma_decimal_digits(n / 10);
    }
}

/// Appends `n` in decimal.
pub fn push_decimal(out: &mut String, n: u64)
    ensures
        final(out)@ == old(out)@ + decimal(n as nat),
{
    let mut digits: Vec<char> = Vec::new();
    let mut left: u64 = n;
    while left >= 10
        invariant
            decimal(n as nat) == decimal(left as nat) + digits@.reverse(),
        decreases left,
    {
        let ghost before = digits@;
        let digit: u8 = 0x30 + (left % 10) as u8;
        digits.push(digit as char);
        assert(decimal(left as nat) + before.reverse() =~= decimal((left / 10) as nat)
            + digits@.reverse());
        left = left / 10;
    }
    let ghost before = digits@;
    let digit: u8 = 0x30 + left as u8;
    digits.push(digit as char);
    assert(decimal(left as nat) + before.reverse() =~= digits@.reverse());
    let ghost start = out@;
    let mut i: usize = digits.len();
    while i > 0
        invariant
            i <= digits.len(),
            digits@.reverse() == decimal(n as nat),
            out@ == start + digits@.reverse().take(digits.len() - i),
        decreases i,
    {
        i -= 1;
        out.push(digits[i]);
        assert(digits@.reverse().take(digits.len() - i) =~= digits@.reverse().take(
            digits.len() - i - 1,
        ).push(digits@[i as int]));
    }
    assert(digits@.reverse().take(digits.len() as int) =~= digits@.reverse());
}

/// Whether every character is an ASCII decimal digit.
pub open spec fn all_digits(text: Seq<char>) -> bool {
    forall|i: int| 0 <= i < text.len() ==> '0' <= #[trigger] text[i] <= '9'
}

/// The value of a run of decimal digits.
pub open spec fn digits_value(text: Seq<char>) -> nat
    decreases text.len(),
{
    if text.len() == 0 {
        0
    } else {
        digits_value(text.drop_last()) * 10 + (text.last() as u32 - 0x30) as nat
    }
}

/// The unsigned number that `text` spells: digits, with an optional `+` in
/// front.
pub open spec fn unsigned_text(text: Seq<char>) -> Option<nat> {
    let digits = if text.len() > 0 && text[0] == '+' {
        text.drop_first()
    } else {
        text
    };
    if digits.len() > 0 && all_digits(digits) {
        Some(digits_value(digits))
    } else {
        None
    }
}

proof fn lemma_digits_monotone(text: Seq<char>, n: int)
    requires
        0 <= n <= text.len(),
    ensures
        digits_value(text.take(n)) <= digits_value(text) || !all_digits(text),
    decreases text.len() - n,
{
    if n < text.len() {
        lemma_digits_monotone(text, n + 1);
        assert(text.take(n + 1).drop_last() =~= text.take(n));
        if all_digits(text) {
            assert('0' <= text[n] <= '9');
        }
    } else {
        assert(text.take(n) =~= text);
    }
}

/// Reads an unsigned number no larger than `max`.
pub fn parse_unsigned(text: &str, max: u64) -> (value: Option<u64>)
    ensures
        match value {
            Some(v) => v <= max && unsigned_text(text@) == Some(v as nat),
            None => unsigned_text(text@) matches Some(v) ==> v > max,
        },
{
    let chars: Vec<char> = chars_of(text);
    let start: usize = if chars.len() > 0 && chars[0] == '+' {
        1
    } else {
        0
    };
    let ghost digits = chars@.skip(start as int);
    proof {
        assert(start == 1 ==> digits =~= text@.drop_first());
        assert(start == 0 ==> digits =~= text@);
    }
    if start >= chars.len() {
        return None;
    }
    let mut value: u64 = 0;
    let mut i: usize = start;
    assert(digits.take(0) =~= Seq::<char>::empty());
    while i < chars.len()
        invariant
            start <= i <= chars.len(),
            digits == chars@.skip(start as int),
            unsigned_text(text@) == (if all_digits(digits) {
                Some(digits_value(digits))
            } else {
                None
            }),
            all_digits(digits.take(i - start)),
            value == digits_value(digits.take(i - start)),
            value <= max,
        decreases chars.len() - i,
    {
        let c: char = chars[i];
        assert(digits[i - start] == c);
        if !('0' <= c && c <= '9') {
            return None;
        }
        let digit: u64 = (c as u32 - 0x30) as u64;
        proof {
            let next = digits.take(i - start + 1);
            assert(next.drop_last() =~= digits.take(i - start));
            assert(digits_value(next) == value * 10 + digit);
            lemma_digits_monotone(digits, i - start + 1);
        }
        let wide: u128 = value as u128 * 10 + digit as u128;
        if wide > max as u128 {
            return None;
        }
        value = wide as u64;
        i += 1;
    }
    assert(digits.take(i - start) =~= digits);
    Some(value)
}

/// `text` with every two-character escape `\n` turned into a line break.
pub open spec fn with_line_breaks(text: Seq<char>) -> Seq<char>
    decreases text.len(),
{
    if text.len() == 0 {
        text
    } else if text.len() >= 2 && text[0] == '\\' && text[1] == 'n' {
        seq!['\n'] + with_line_breaks(text.skip(2))
    } else {
        seq![text[0]] + with_line_breaks(text.skip(1))
    }
}

/// Turns the two-character escape `\n` into a line break, for text that comes
/// from places that cannot hold a real one.
pub fn unescape_line_breaks(text: &str) -> (chars: Vec<char>)
    ensures
        chars@ == with_line_breaks(text@),
{
    let source: Vec<char> = chars_of(text);
    let mut out: Vec<char> = Vec::new();
    let mut i: usize = 0;
    assert(source@.skip(0) =~= source@);
    while i < source.len()
        invariant
            i <= source.len(),
            with_line_breaks(source@) == out@ + with_line_breaks(source@.skip(i as int)),
        decreases source.len() - i,
    {
        let ghost before = out@;
        let ghost left = source@.skip(i as int);
        if source.len() - i >= 2 && source[i] == '\\' && source[i + 1] == 'n' {
            out.push('\n');
            assert(left.skip(2) =~= source@.skip(i + 2));
            assert(before + with_line_breaks(left) =~= out@ + with_line_breaks(left.skip(2)));
            i += 2;
        } else {
            out.push(source[i]);
            assert(left.skip(1) =~= source@.skip(i + 1));
            assert(before + with_line_breaks(left) =~= out@ + with_line_breaks(left.skip(1)));
            i += 1;
        }
    }
    assert(out@ + with_line_breaks(source@.skip(i as int)) =~= out@);
    out
}

/// The UTF-16 code units of one character.
pub open spec fn utf16_char(c: char) -> Seq<u16> {
    let n = c as u32;
    if n < 0x1_0000 {
        seq![n as u16]
    } else {
        let m = n - 0x1_0000;
        seq![(0xD800 + m / 0x400) as u16, (0xDC00 + m % 0x400) as u16]
    }
}

/// The UTF-16 code units of `text`.
pub open spec fn utf16(text: Seq<char>) -> Seq<u16>
    decreases text.len(),
{
    if text.len() == 0 {
        Seq::empty()
    } else {
        utf16(text.drop_last()) + utf16_char(text.last())
    }
}

/// Encodes `text` in UTF-16.
pub fn encode_utf16(text: &str) -> (units: Vec<u16>)
    ensures
        units@ == utf16(text@),
{
    let chars: Vec<char> = chars_of(text);
    let mut units: Vec<u16> = Vec::new();
    let mut i: usize = 0;
    assert(chars@.take(0) =~= Seq::<char>::empty());
    while i < chars.len()
        invariant
            i <= chars.len(),
            units@ == utf16(chars@.take(i as int)),
        decreases chars.len() - i,
    {
        let ghost before = units@;
        let n: u32 = chars[i] as u32;
        if n < 0x1_0000 {
            units.push(n as u16);
        } else {
            let m: u32 = n - 0x1_0000;
            units.push((0xD800 + m / 0x400) as u16);
            units.push((0xDC00 + m % 0x400) as u16);
        }
        assert(units@ =~= before + utf16_char(chars@[i as int]));
        i += 1;
        assert(chars@.take(i as int).drop_last() =~= chars@.take(i - 1));
    }
    assert(chars@.take(i as int) =~= chars@);
    units
}

/// Writing a number in decimal and reading it gives it back, and a number of
/// several digits does not start with 0.
pub proof fn law_decimal_reads_back(n: nat)
    ensures
        unsigned_text(decimal(n)) == Some(n),
        decimal(n).len() > 1 ==> decimal(n)[0] != '0',
    decreases n,
{
    lemma_decimal_digits(n);
    if n < 10 {
        let text = decimal(n);
        assert(text.drop_last() =~= Seq::<char>::empty());
        assert(digits_value(text.drop_last()) == 0);
    } else {
        law_decimal_reads_back(n / 10);
        lemma_decimal_digits(n / 10);
        assert('0' <= decimal(n / 10)[0] <= '9');
        assert(decimal(n).drop_last() =~= decimal(n / 10));
        assert(decimal(n)[0] == decimal(n / 10)[0]);
        if decimal(n / 10).len() == 1 {
            assert(n / 10 < 10) by {
                if n / 10 >= 10 {
                    lemma_decimal_digits(n / 100);
                }
            }
        }
    }
}

/// One digit more makes a number ten times as large, plus the digit.
pub proof fn law_number_grows_by_digits(text: Seq<char>, c: char)
    requires
        '0' <= c <= '9',
    ensures
        unsigned_text(text) matches Some(n) ==> unsigned_text(text.push(c)) == Some(
            n * 10 + (c as u32 - 0x30) as nat,
        ),
        unsigned_text(seq![c]) == Some((c as u32 - 0x30) as nat),
        unsigned_text(seq!['+', c]) == Some((c as u32 - 0x30) as nat),
{
    if unsigned_text(text) is Some {
        let digits = if text[0] == '+' {
            text.drop_first()
        } else {
            text
        };
        let more = text.push(c);
        assert(more[0] == text[0]);
        let grown = if text[0] == '+' {
            more.drop_first()
        } else {
            more
        };
        assert(grown =~= digits.push(c));
        assert(grown.drop_last() =~= digits);
        assert forall|i: int| 0 <= i < grown.len() implies '0' <= #[trigger] grown[i] <= '9' by {
            if i < digits.len() {
                assert(grown[i] == digits[i]);
            }
        }
    }
    assert(seq![c].drop_last() =~= Seq::<char>::empty());
    assert(digits_value(seq![c].drop_last()) == 0);
    assert(seq!['+', c].drop_first() =~= seq![c]);
}

/// A number is spelled by digits alone, but for a `+` that may stand in front of
/// them.
pub proof fn law_numbers_are_digits(text: Seq<char>, i: int)
    ensures
        unsigned_text(text) is Some ==> text.len() > 0 && '0' <= text.last() <= '9',
        unsigned_text(text) is Some && 0 <= i < text.len() ==> '0' <= text[i] <= '9' || (i == 0
            && text[0] == '+'),
{
    if unsigned_text(text) is Some {
        let digits = if text[0] == '+' {
            text.drop_first()
        } else {
            text
        };
        assert('0' <= digits[digits.len() - 1] <= '9');
        assert(digits[digits.len() - 1] == text.last());
        if 0 <= i < text.len() {
            if text[0] != '+' {
                assert('0' <= digits[i] <= '9');
            } else if i > 0 {
                assert('0' <= digits[i - 1] <= '9');
            }
        }
    }
}

/// A number is read exactly if the text spells one within the limit.
pub proof fn law_number_is_read_within_limit(text: &str, max: u64, value: Option<u64>)
    requires
        call_ensures(parse_unsigned, (text, max), value),
    ensures
        match unsigned_text(text@) {
            Some(n) => if n <= max {
                value == Some(n as u64)
            } else {
                value is None
            },
            None => value is None,
        },
{
}

/// The escape `\n` is a line break wherever it stands, and what stands before
/// and after it is read on its own.
pub proof fn law_escape_is_a_line_break(before: Seq<char>, after: Seq<char>)
    ensures
        with_line_breaks(before + seq!['\\', 'n'] + after) == with_line_breaks(before) + seq!['\n']
            + with_line_breaks(after),
    decreases before.len(),
{
    let all = before + seq!['\\', 'n'] + after;
    if before.len() == 0 {
        assert(all.skip(2) =~= after);
        assert(with_line_breaks(before) =~= Seq::<char>::empty());
        assert(Seq::<char>::empty() + seq!['\n'] + with_line_breaks(after) =~= seq!['\n']
            + with_line_breaks(after));
    } else if before.len() >= 2 && before[0] == '\\' && before[1] == 'n' {
        law_escape_is_a_line_break(before.skip(2), after);
        assert(all.skip(2) =~= before.skip(2) + seq!['\\', 'n'] + after);
        assert(seq!['\n'] + (with_line_breaks(before.skip(2)) + seq!['\n'] + with_line_breaks(
            after,
        )) =~= seq!['\n'] + with_line_breaks(before.skip(2)) + seq!['\n'] + with_line_breaks(
            after,
        ));
    } else {
        law_escape_is_a_line_break(before.skip(1), after);
        assert(all[0] == before[0]);
        if before.len() >= 2 {
            assert(all[1] == before[1]);
        } else {
            assert(all[1] == '\\');
        }
        assert(all.skip(1) =~= before.skip(1) + seq!['\\', 'n'] + after);
        assert(seq![before[0]] + (with_line_breaks(before.skip(1)) + seq!['\n'] + with_line_breaks(
            after,
        )) =~= seq![before[0]] + with_line_breaks(before.skip(1)) + seq!['\n'] + with_line_breaks(
            after,
        ));
    }
}

/// Text without the escape stays as it is.
pub proof fn law_text_without_escapes_stays(text: Seq<char>)
    requires
        forall|i: int| 0 <= i < text.len() - 1 ==> #[trigger] text[i] != '\\' || text[i + 1] != 'n',
    ensures
        with_line_breaks(text) == text,
    decreases text.len(),
{
    if text.len() > 0 {
        let rest = text.skip(1);
        assert forall|i: int| 0 <= i < rest.len() - 1 implies #[trigger] rest[i] != '\\' || rest[i
            + 1] != 'n' by {
            assert(rest[i] == text[i + 1]);
            assert(rest[i + 1] == text[i + 2]);
        }
        law_text_without_escapes_stays(rest);
        assert(seq![text[0]] + rest =~= text);
        assert(text.len() >= 2 ==> text[0] != '\\' || text[1] != 'n');
    }
}

/// A character is one code unit below U+10000, and otherwise a surrogate pair
/// from which it can be computed.
pub proof fn law_utf16_decodes(c: char)
    ensures
        ({
            let units = utf16_char(c);
            if (c as u32) < 0x1_0000 {
                units.len() == 1 && units[0] == c as u32
            } else {
                &&& units.len() == 2
                &&& 0xD800 <= units[0] < 0xDC00
                &&& 0xDC00 <= units[1] < 0xE000
                &&& c as u32 == 0x1_0000 + (units[0] - 0xD800) * 0x400 + (units[1] - 0xDC00)
            }
        }),
{
}

/// Text is encoded character by character.
pub proof fn law_utf16_joins(a: Seq<char>, b: Seq<char>, c: char)
    ensures
        utf16(a + b) == utf16(a) + utf16(b),
        utf16(seq![c]) == utf16_char(c),
    decreases b.len(),
{
    assert(seq![c].drop_last() =~= Seq::<char>::empty());
    assert(utf16(seq![c].drop_last()) == Seq::<u16>::empty());
    assert(utf16(seq![c]) =~= utf16_char(c));
    if b.len() == 0 {
        assert(a + b =~= a);
        assert(utf16(a) + utf16(b) =~= utf16(a));
    } else {
        law_utf16_joins(a, b.drop_last(), c);
        assert((a + b).drop_last() =~= a + b.drop_last());
        assert(utf16(a) + (utf16(b.drop_last()) + utf16_char(b.last())) =~= utf16(a) + utf16(
            b.drop_last(),
        ) + utf16_char(b.last()));
    }
}

} // verus!
