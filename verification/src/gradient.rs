//! Gradient tags: `<gradient:#RRGGBB[:#RRGGBB...]>text</gradient>`.
use crate::style::Rgb;
use crate::text::{chars_of, hex_value, string_of};
use vstd::prelude::*;

verus! {

/// Whether `pattern` stands in `chars` at `at`.
pub open spec fn stands_at(chars: Seq<char>, pattern: Seq<char>, at: int) -> bool {
    at + pattern.len() <= chars.len() && chars.subrange(at, at + pattern.len()) == pattern
}

/// The first place at or after `from` where `pattern` stands in `chars`.
pub open spec fn first_place(chars: Seq<char>, pattern: Seq<char>, from: int) -> Option<int>
    decreases chars.len() + 1 - from,
{
    if from > chars.len() {
        None
    } else if stands_at(chars, pattern, from) {
        Some(from)
    } else {
        first_place(chars, pattern, from + 1)
    }
}

/// The colour that six hexadecimal digits spell.
pub open spec fn rgb_of(digits: Seq<char>) -> Option<Rgb> {
    if digits.len() == 6 && crate::style::all_hex(digits) {
        Some((byte_of(digits[0], digits[1]), byte_of(digits[2], digits[3]), byte_of(digits[4], digits[5])))
    } else {
        None
    }
}

/// The byte that two hexadecimal digits spell.
pub open spec fn byte_of(high: char, low: char) -> u8 {
    (crate::text::hex_digit(high)->0 * 16 + crate::text::hex_digit(low)->0) as u8
}

/// The colour `#RRGGBB` at the start of `chars`.
pub open spec fn leading_stop(chars: Seq<char>) -> Option<Rgb> {
    if chars.len() < 7 || chars[0] != '#' {
        None
    } else {
        rgb_of(chars.subrange(1, 7))
    }
}

/// The colour stops of a tag header: `#RRGGBB` parts separated by colons.
pub open spec fn header_stops(header: Seq<char>) -> Option<Seq<Rgb>>
    decreases header.len(),
{
    match leading_stop(header) {
        None => None,
        Some(stop) => if header.len() == 7 {
            Some(seq![stop])
        } else if header[7] != ':' {
            None
        } else {
            match header_stops(header.skip(8)) {
                None => None,
                Some(stops) => Some(seq![stop] + stops),
            }
        },
    }
}

/// A gradient tag: its colour stops, its text and how many characters it takes.
pub struct TagView {
    pub stops: Seq<Rgb>,
    pub text: Seq<char>,
    pub size: nat,
}

/// The gradient tag at the start of `chars`. The header ends at the first `>`
/// and the text at the first closing tag after it.
pub open spec fn gradient_tag(chars: Seq<char>) -> Option<TagView> {
    let open = "<gradient:"@;
    let close = "</gradient>"@;
    if !stands_at(chars, open, 0) {
        None
    } else {
        match first_place(chars, seq!['>'], 0) {
            None => None,
            Some(end) => match header_stops(chars.subrange(open.len() as int, end)) {
                None => None,
                Some(stops) => match first_place(chars, close, end + 1) {
                    None => None,
                    Some(tail) => Some(
                        TagView {
                            stops,
                            text: chars.subrange(end + 1, tail),
                            size: (tail + close.len()) as nat,
                        },
                    ),
                },
            },
        }
    }
}

proof fn lemma_first_place(chars: Seq<char>, pattern: Seq<char>, from: int)
    ensures
        first_place(chars, pattern, from) matches Some(at) ==> from <= at && at + pattern.len()
            <= chars.len(),
    decreases chars.len() + 1 - from,
{
    if from <= chars.len() && !stands_at(chars, pattern, from) {
        lemma_first_place(chars, pattern, from + 1);
    }
}

/// A tag takes at least one character and ends within the text, and its own
/// text is shorter than the whole.
pub proof fn lemma_tag_size(chars: Seq<char>)
    ensures
        gradient_tag(chars) matches Some(tag) ==> 0 < tag.size <= chars.len() && tag.text.len()
            < tag.size && tag.stops.len() > 0,
{
    if let Some(tag) = gradient_tag(chars) {
        lemma_first_place(chars, seq!['>'], 0);
        let end = first_place(chars, seq!['>'], 0)->0;
        lemma_first_place(chars, "</gradient>"@, end + 1);
        reveal_strlit("<gradient:");
        let header = chars.subrange("<gradient:"@.len() as int, end);
        assert(header_stops(header) is Some);
    }
}

/// Whether `pattern` stands in `chars` at `at`.
fn matches_at(chars: &[char], pattern: &[char], at: usize) -> (found: bool)
    requires
        at <= chars@.len(),
    ensures
        found == stands_at(chars@, pattern@, at as int),
{
    if chars.len() - at < pattern.len() {
        return false;
    }
    let ghost window = chars@.subrange(at as int, at + pattern@.len());
    let mut i: usize = 0;
    while i < pattern.len()
        invariant
            i <= pattern.len(),
            at + pattern@.len() <= chars.len(),
            window == chars@.subrange(at as int, at + pattern@.len()),
            forall|j: int| 0 <= j < i ==> window[j] == pattern@[j],
        decreases pattern.len() - i,
    {
        assert(window[i as int] == chars@[at + i]);
        if chars[at + i] != pattern[i] {
            return false;
        }
        i += 1;
    }
    assert(window =~= pattern@);
    true
}

/// Finds the first place at or after `from` where `pattern` stands.
fn find_from(chars: &[char], pattern: &[char], from: usize) -> (place: Option<usize>)
    requires
        from <= chars@.len(),
        pattern@.len() > 0,
    ensures
        match place {
            Some(at) => first_place(chars@, pattern@, from as int) == Some(at as int) && from <= at
                && stands_at(chars@, pattern@, at as int) && forall|i: int|
                from <= i < at ==> !stands_at(chars@, pattern@, i),
            None => first_place(chars@, pattern@, from as int) is None,
        },
{
    let mut at: usize = from;
    while at < chars.len()
        invariant
            from <= at <= chars@.len(),
            first_place(chars@, pattern@, from as int) == first_place(chars@, pattern@, at as int),
            forall|i: int| from <= i < at ==> !stands_at(chars@, pattern@, i),
        decreases chars.len() - at,
    {
        if matches_at(chars, pattern, at) {
            return Some(at);
        }
        at += 1;
    }
    assert(first_place(chars@, pattern@, at + 1) is None);
    None
}

/// Reads six hexadecimal digits at `at` as a colour.
fn rgb_at(chars: &[char], at: usize) -> (rgb: Option<Rgb>)
    requires
        at + 6 <= chars@.len(),
    ensures
        rgb == rgb_of(chars@.subrange(at as int, at + 6)),
{
    let ghost digits = chars@.subrange(at as int, at + 6);
    let mut values: Vec<u8> = Vec::new();
    let mut i: usize = 0;
    while i < 6
        invariant
            i <= 6,
            at + 6 <= chars.len(),
            digits == chars@.subrange(at as int, at + 6),
            values@.len() == i,
            forall|j: int|
                0 <= j < i ==> crate::text::hex_digit(#[trigger] digits[j]) == Some(values@[j]),
            forall|j: int| 0 <= j < i ==> #[trigger] values@[j] < 16,
        decreases 6 - i,
    {
        assert(digits[i as int] == chars@[at + i]);
        match hex_value(chars[at + i]) {
            Some(value) => values.push(value),
            None => return None,
        }
        i += 1;
    }
    assert(values@[0] < 16 && values@[2] < 16 && values@[4] < 16);
    assert(values@[1] < 16 && values@[3] < 16 && values@[5] < 16);
    assert(crate::text::hex_digit(digits[0]) == Some(values@[0]));
    assert(crate::text::hex_digit(digits[1]) == Some(values@[1]));
    assert(crate::text::hex_digit(digits[2]) == Some(values@[2]));
    assert(crate::text::hex_digit(digits[3]) == Some(values@[3]));
    assert(crate::text::hex_digit(digits[4]) == Some(values@[4]));
    assert(crate::text::hex_digit(digits[5]) == Some(values@[5]));
    Some((values[0] * 16 + values[1], values[2] * 16 + values[3], values[4] * 16 + values[5]))
}

/// Reads a colour `#RRGGBB` at `at`.
fn stop_at(header: &[char], at: usize) -> (stop: Option<Rgb>)
    requires
        at <= header@.len(),
    ensures
        stop == leading_stop(header@.skip(at as int)),
{
    if header.len() - at < 7 || header[at] != '#' {
        return None;
    }
    assert(header@.skip(at as int).subrange(1, 7) =~= header@.subrange(at + 1, at + 7));
    rgb_at(header, at + 1)
}

/// Reads the colour stops of a tag header.
fn read_stops(header: &[char]) -> (stops: Option<Vec<Rgb>>)
    ensures
        match stops {
            Some(list) => header_stops(header@) == Some(list@),
            None => header_stops(header@) is None,
        },
{
    let mut stops: Vec<Rgb> = Vec::new();
    let mut at: usize = 0;
    assert(header@.skip(0) =~= header@);
    proof {
        if let Some(rest) = header_stops(header@) {
            assert(stops@ + rest =~= rest);
        }
    }
    loop
        invariant
            at <= header@.len(),
            header_stops(header@) == (match header_stops(header@.skip(at as int)) {
                Some(rest) => Some(stops@ + rest),
                None => None,
            }),
        decreases header@.len() - at,
    {
        let ghost left = header@.skip(at as int);
        let ghost before = stops@;
        let stop: Rgb = match stop_at(header, at) {
            Some(stop) => stop,
            None => return None,
        };
        stops.push(stop);
        assert(stops@ =~= before + seq![stop]);
        if header.len() - at == 7 {
            return Some(stops);
        }
        if header[at + 7] != ':' {
            return None;
        }
        proof {
            assert(left.skip(8) =~= header@.skip(at + 8));
            if let Some(rest) = header_stops(left.skip(8)) {
                assert(before + (seq![stop] + rest) =~= stops@ + rest);
            }
        }
        at += 8;
    }
}

/// Tries to parse a gradient tag at the start of `chars`. Returns (colour
/// stops, inner text, characters consumed), or `None` if this is no well-formed
/// gradient tag.
pub fn parse_gradient_tag(chars: &[char]) -> (tag: Option<(Vec<Rgb>, String, usize)>)
    ensures
        match tag {
            Some((stops, text, size)) => gradient_tag(chars@) == Some(
                TagView { stops: stops@, text: text@, size: size as nat },
            ),
            None => gradient_tag(chars@) is None,
        },
{
    let open: Vec<char> = chars_of("<gradient:");
    let close: Vec<char> = chars_of("</gradient>");
    proof {
        reveal_strlit("<gradient:");
        reveal_strlit("</gradient>");
    }
    if !matches_at(chars, open.as_slice(), 0) {
        return None;
    }
    let mut bracket: Vec<char> = Vec::new();
    bracket.push('>');
    assert(bracket@ =~= seq!['>']);
    let end: usize = match find_from(chars, bracket.as_slice(), 0) {
        Some(end) => end,
        None => return None,
    };
    assert(end < chars.len());
    proof {
        assert(chars@.subrange(end as int, end + 1)[0] == '>');
        if end < open@.len() {
            assert(chars@.subrange(0, open@.len() as int)[end as int] == open@[end as int]);
        }
    }
    let header = vstd::slice::slice_subrange(chars, open.len(), end);
    let stops: Vec<Rgb> = match read_stops(header) {
        Some(stops) => stops,
        None => return None,
    };
    let tail: usize = match find_from(chars, close.as_slice(), end + 1) {
        Some(tail) => tail,
        None => return None,
    };
    let text = string_of(vstd::slice::slice_subrange(chars, end + 1, tail));
    assert(tail + close.len() <= chars.len());
    Some((stops, text, tail + close.len()))
}

/// A pattern stands at a place if its characters are there, one by one.
pub proof fn law_pattern_stands_where_its_characters_are(
    chars: Seq<char>,
    pattern: Seq<char>,
    at: int,
)
    requires
        0 <= at,
    ensures
        stands_at(chars, pattern, at) <==> at + pattern.len() <= chars.len() && forall|i: int|
            0 <= i < pattern.len() ==> #[trigger] pattern[i] == chars[at + i],
{
    if at + pattern.len() <= chars.len() {
        let window = chars.subrange(at, at + pattern.len());
        if forall|i: int| 0 <= i < pattern.len() ==> #[trigger] pattern[i] == chars[at + i] {
            assert(window =~= pattern);
        }
        if window == pattern {
            assert forall|i: int| 0 <= i < pattern.len() implies #[trigger] pattern[i] == chars[at
                + i] by {
                assert(window[i] == chars[at + i]);
            }
        }
    }
}

/// The first place of a pattern is one where it stands, and it stands nowhere
/// before it; without a first place it stands nowhere.
pub proof fn law_first_place_is_first(
    chars: Seq<char>,
    pattern: Seq<char>,
    from: int,
    other: int,
)
    requires
        0 <= from,
    ensures
        first_place(chars, pattern, from) matches Some(at) ==> from <= at && stands_at(
            chars,
            pattern,
            at,
        ) && (from <= other < at ==> !stands_at(chars, pattern, other)),
        first_place(chars, pattern, from) is None && from <= other ==> !stands_at(
            chars,
            pattern,
            other,
        ),
    decreases chars.len() + 1 - from,
{
    if from <= chars.len() && !stands_at(chars, pattern, from) {
        law_first_place_is_first(chars, pattern, from + 1, other);
    }
}

proof fn lemma_first_place_at(chars: Seq<char>, pattern: Seq<char>, from: int, at: int)
    requires
        0 <= from <= at,
        stands_at(chars, pattern, at),
        forall|i: int| from <= i < at ==> !stands_at(chars, pattern, i),
    ensures
        first_place(chars, pattern, from) == Some(at),
{
    law_first_place_is_first(chars, pattern, from, at);
    if let Some(found) = first_place(chars, pattern, from) {
        law_first_place_is_first(chars, pattern, from, at);
        if found < at {
            assert(!stands_at(chars, pattern, found));
        }
    }
}

/// Six hexadecimal digits spell red, green and blue, two digits each with the
/// higher one first; nothing else spells a colour.
pub proof fn law_digits_spell_a_color(digits: Seq<char>, rgb: Rgb)
    ensures
        rgb_of(digits) == Some(rgb) <==> {
            &&& digits.len() == 6
            &&& forall|i: int| 0 <= i < 6 ==> crate::text::hex_digit(#[trigger] digits[i]) is Some
            &&& rgb.0 == 16 * crate::text::hex_digit(digits[0])->0 + crate::text::hex_digit(
                digits[1],
            )->0
            &&& rgb.1 == 16 * crate::text::hex_digit(digits[2])->0 + crate::text::hex_digit(
                digits[3],
            )->0
            &&& rgb.2 == 16 * crate::text::hex_digit(digits[4])->0 + crate::text::hex_digit(
                digits[5],
            )->0
        },
{
    if digits.len() == 6 {
        let all = crate::style::all_hex(digits);
        assert(all ==> crate::text::hex_digit(digits[0]) is Some && crate::text::hex_digit(
            digits[1],
        ) is Some && crate::text::hex_digit(digits[2]) is Some && crate::text::hex_digit(
            digits[3],
        ) is Some && crate::text::hex_digit(digits[4]) is Some && crate::text::hex_digit(
            digits[5],
        ) is Some);
        if crate::text::hex_digit(digits[0]) is Some && crate::text::hex_digit(digits[1]) is Some
            && crate::text::hex_digit(digits[2]) is Some && crate::text::hex_digit(
            digits[3],
        ) is Some && crate::text::hex_digit(digits[4]) is Some && crate::text::hex_digit(
            digits[5],
        ) is Some {
            assert forall|i: int| 0 <= i < digits.len() implies crate::text::hex_digit(
                #[trigger] digits[i],
            ) is Some by {
                assert(i == 0 || i == 1 || i == 2 || i == 3 || i == 4 || i == 5);
            }
        }
    }
}

/// A header is read stop by stop: one `#RRGGBB` alone is one stop, and with a
/// colon behind it the stops of what follows come after it.
pub proof fn law_stops_are_read_in_order(digits: Seq<char>, more: Seq<char>, stop: Rgb)
    requires
        rgb_of(digits) == Some(stop),
    ensures
        header_stops(seq!['#'] + digits) == Some(seq![stop]),
        header_stops(seq!['#'] + digits + seq![':'] + more) == (match header_stops(more) {
            Some(stops) => Some(seq![stop] + stops),
            None => None,
        }),
{
    let one = seq!['#'] + digits;
    let many = one + seq![':'] + more;
    assert(one.subrange(1, 7) =~= digits);
    assert(many.subrange(1, 7) =~= digits);
    assert(many[7] == ':');
    assert(many.skip(8) =~= more);
}

/// Nothing else is a header: it starts with a stop, and more of it follows only
/// behind a colon.
pub proof fn law_header_is_made_of_stops(header: Seq<char>)
    ensures
        header_stops(header) matches Some(stops) ==> {
            &&& header.len() >= 7
            &&& header[0] == '#'
            &&& rgb_of(header.subrange(1, 7)) == Some(stops[0])
            &&& header.len() > 7 ==> header[7] == ':' && header_stops(header.skip(8)) == Some(
                stops.skip(1),
            )
            &&& header.len() == 7 ==> stops.len() == 1
        },
{
    if header_stops(header) is Some && header.len() > 7 {
        let rest = header_stops(header.skip(8))->0;
        assert((seq![leading_stop(header)->0] + rest).skip(1) =~= rest);
    }
}

/// A header has no closing bracket in it.
proof fn lemma_header_has_no_bracket(header: Seq<char>, i: int)
    requires
        header_stops(header) is Some,
        0 <= i < header.len(),
    ensures
        header[i] != '>',
    decreases header.len(),
{
    let digits = header.subrange(1, 7);
    if 1 <= i < 7 {
        assert(crate::text::hex_digit(digits[i - 1]) is Some);
    } else if i >= 8 {
        lemma_header_has_no_bracket(header.skip(8), i - 8);
    }
}

/// A well-formed tag is read whole: its stops, its text up to the first closing
/// tag and its length, whatever follows it.
pub proof fn law_gradient_tag_is_read(
    header: Seq<char>,
    text: Seq<char>,
    rest: Seq<char>,
    stops: Seq<Rgb>,
)
    requires
        header_stops(header) == Some(stops),
        forall|i: int|
            0 <= i < text.len() ==> !(#[trigger] stands_at(
                text + "</gradient>"@,
                "</gradient>"@,
                i,
            )),
    ensures
        gradient_tag("<gradient:"@ + header + seq!['>'] + text + "</gradient>"@ + rest) == Some(
            TagView { stops, text, size: header.len() + text.len() + 22 },
        ),
{
    reveal_strlit("<gradient:");
    reveal_strlit("</gradient>");
    let open = "<gradient:"@;
    let close = "</gradient>"@;
    let all = open + header + seq!['>'] + text + close + rest;
    let end: int = 10 + header.len() as int;
    let tail: int = end + 1 + text.len();
    assert(all.subrange(0, 10) =~= open);
    assert(all.subrange(end, end + 1) =~= seq!['>']);
    assert forall|i: int| 0 <= i < end implies !stands_at(all, seq!['>'], i) by {
        if i >= 10 {
            lemma_header_has_no_bracket(header, i - 10);
            assert(all[i] == header[i - 10]);
        } else {
            assert(all[i] == open[i]);
        }
        if stands_at(all, seq!['>'], i) {
            assert(all.subrange(i, i + 1)[0] == all[i]);
        }
    }
    lemma_first_place_at(all, seq!['>'], 0, end);
    assert(all.subrange(10, end) =~= header);
    assert(all.subrange(tail, tail + 11) =~= close);
    assert forall|i: int| end + 1 <= i < tail implies !stands_at(all, close, i) by {
        let j = i - end - 1;
        assert(!stands_at(text + close, close, j));
        assert(all.subrange(i, i + 11) =~= (text + close).subrange(j, j + 11));
    }
    lemma_first_place_at(all, close, end + 1, tail);
    assert(all.subrange(end + 1, tail) =~= text);
}

/// What is read as a tag is one: the opening, a header of colours, the text and
/// the first closing tag stand there in this order.
pub proof fn law_gradient_tag_is_well_formed(chars: Seq<char>, i: int)
    ensures
        gradient_tag(chars) matches Some(tag) ==> {
            let tail = tag.size - 11;
            let end = tail - tag.text.len() - 1;
            &&& 17 <= end
            &&& tag.size <= chars.len()
            &&& chars.take(10) == "<gradient:"@
            &&& header_stops(chars.subrange(10, end)) == Some(tag.stops)
            &&& chars[end] == '>'
            &&& chars.subrange(end + 1, tail) == tag.text
            &&& chars.subrange(tail, tag.size as int) == "</gradient>"@
            &&& end < i < tail ==> !stands_at(chars, "</gradient>"@, i)
        },
{
    reveal_strlit("<gradient:");
    reveal_strlit("</gradient>");
    if let Some(tag) = gradient_tag(chars) {
        let close = "</gradient>"@;
        let end = first_place(chars, seq!['>'], 0)->0;
        law_first_place_is_first(chars, seq!['>'], 0, 0);
        law_first_place_is_first(chars, close, end + 1, i);
        assert(chars.subrange(end, end + 1)[0] == chars[end]);
        if end < 10 {
            assert(chars.subrange(0, 10)[end] == "<gradient:"@[end]);
        }
        law_header_is_made_of_stops(chars.subrange(10, end));
        assert(chars.take(10) =~= chars.subrange(0, 10));
    }
}

} // verus!
