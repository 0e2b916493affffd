//! MOTDs: from configured text to chat components.
//!
//! A MOTD may be written as
//!   1. a raw JSON chat component (starts with `{` or `[`), used verbatim,
//!   2. text with `&#RRGGBB` colours,
//!   3. text with Bungee `&x&R&R&G&G&B&B` colours, named colours `&0`-`&f`,
//!      formats `&k`-`&o` and reset `&r`,
//! and the latter two may hold gradient tags.
use crate::gradient::{TagView, gradient_tag, parse_gradient_tag};
use crate::json::{Json, JsonTree, items_tree};
use crate::style::{Rgb, Style, StyleView, color_name, read_bungee_hex};
use crate::text::{ascii_lower, chars_of, hex_value, is_white_space, unescape_line_breaks};
use vstd::prelude::*;

verus! {

/// A stretch of text in one style.
#[verifier::ext_equal]
pub struct RunView {
    pub text: Seq<char>,
    pub style: StyleView,
}

/// What stands at a place in a MOTD.
pub enum Mark {
    /// A gradient tag.
    Gradient(TagView),
    /// A code for a colour, which takes `size` characters.
    Color { color: Seq<char>, size: nat },
    /// A two-character format or reset code.
    Format(char),
    /// One character of text.
    Literal,
}

/// `digits` in lower case, as a web colour.
pub open spec fn web_color(digits: Seq<char>) -> Seq<char> {
    seq!['#'] + Seq::new(digits.len(), |i: int| crate::text::lower(digits[i]))
}

/// What stands at the start of `chars`.
pub open spec fn mark_at(chars: Seq<char>) -> Mark {
    if chars[0] == '<' && gradient_tag(chars) is Some {
        Mark::Gradient(gradient_tag(chars)->0)
    } else if crate::style::code_sign(chars[0]) && chars.len() >= 2 {
        let code = crate::text::lower(chars[1]);
        if chars[1] == '#' && chars.len() >= 8 && crate::style::all_hex(chars.subrange(2, 8)) {
            Mark::Color { color: web_color(chars.subrange(2, 8)), size: 8 }
        } else if code == 'x' && crate::style::bungee_digits(chars) is Some {
            Mark::Color { color: web_color(crate::style::bungee_digits(chars)->0), size: 14 }
        } else if crate::style::named_color(code) is Some {
            Mark::Color { color: crate::style::named_color(code)->0, size: 2 }
        } else if crate::style::formatted(crate::style::plain_style(), code) is Some {
            Mark::Format(code)
        } else {
            Mark::Literal
        }
    } else {
        Mark::Literal
    }
}

/// How many characters of a MOTD a mark takes.
pub open spec fn mark_size(mark: Mark) -> nat {
    match mark {
        Mark::Gradient(tag) => tag.size,
        Mark::Color { color, size } => size,
        Mark::Format(_) => 2,
        Mark::Literal => 1,
    }
}

proof fn lemma_mark_size(chars: Seq<char>)
    requires
        chars.len() > 0,
    ensures
        0 < mark_size(mark_at(chars)) <= chars.len(),
        mark_at(chars) matches Mark::Gradient(tag) ==> tag.text.len() < chars.len()
            && tag.stops.len() > 0,
{
    crate::gradient::lemma_tag_size(chars);
}

/// The text gathered so far as a run, if there is any.
pub open spec fn flushed(text: Seq<char>, style: StyleView) -> Seq<RunView> {
    if text.len() == 0 {
        Seq::empty()
    } else {
        seq![RunView { text, style }]
    }
}

/// The lower-case hexadecimal digit of a number below 16.
pub open spec fn hex_char(n: nat) -> char {
    if n < 10 {
        (0x30 + n) as char
    } else {
        (0x61 + n - 10) as char
    }
}

/// `#rrggbb`.
pub open spec fn rgb_text(rgb: Rgb) -> Seq<char> {
    seq![
        '#',
        hex_char((rgb.0 / 16) as nat),
        hex_char((rgb.0 % 16) as nat),
        hex_char((rgb.1 / 16) as nat),
        hex_char((rgb.1 % 16) as nat),
        hex_char((rgb.2 / 16) as nat),
        hex_char((rgb.2 % 16) as nat),
    ]
}

/// How many characters of a tag have a blended colour: all but the first and the
/// last. With a single stop all of them have that one's.
pub open spec fn blend_count(tag: TagView) -> nat {
    if tag.stops.len() == 1 || tag.text.len() <= 2 {
        0
    } else {
        (tag.text.len() - 2) as nat
    }
}

/// The colour of a tag's character, given those of its blended characters. The
/// first character has the first stop's, and the last of several the last
/// stop's.
pub open spec fn tag_color(tag: TagView, i: int, shades: Seq<Rgb>) -> Rgb {
    if tag.stops.len() == 1 || i == 0 {
        tag.stops[0]
    } else if i == tag.text.len() - 1 {
        tag.stops.last()
    } else {
        shades[i - 1]
    }
}

/// One run per character of a tag, in the tag's colours and with the formatting
/// that was active at the tag.
pub open spec fn gradient_runs(tag: TagView, style: StyleView, shades: Seq<Rgb>) -> Seq<RunView> {
    Seq::new(
        tag.text.len(),
        |i: int|
            RunView {
                text: seq![tag.text[i]],
                style: StyleView { color: Some(rgb_text(tag_color(tag, i, shades))), ..style },
            },
    )
}

/// How far a MOTD has been read: the text gathered for the next run, the style
/// it is in, and the colours of the blended characters still to come.
#[verifier::ext_equal]
pub struct Scan {
    pub text: Seq<char>,
    pub style: StyleView,
    pub shades: Seq<Rgb>,
}

/// The runs that a mark completes. A code or a gradient ends the run before it,
/// which keeps its style; a reset with nothing to reset ends no run.
pub open spec fn emitted(mark: Mark, scan: Scan) -> Seq<RunView> {
    match mark {
        Mark::Literal => Seq::empty(),
        Mark::Color { color, size } => flushed(scan.text, scan.style),
        Mark::Format(code) => if crate::style::idle_reset(scan.style, code) {
            Seq::empty()
        } else {
            flushed(scan.text, scan.style)
        },
        Mark::Gradient(tag) => flushed(scan.text, scan.style) + gradient_runs(
            tag,
            scan.style,
            scan.shades,
        ),
    }
}

/// Where a mark that starts with `c` leaves the scan.
pub open spec fn advanced(mark: Mark, c: char, scan: Scan) -> Scan {
    match mark {
        Mark::Literal => Scan { text: scan.text.push(c), ..scan },
        Mark::Color { color, size } => Scan {
            text: Seq::empty(),
            style: crate::style::colored(color),
            ..scan
        },
        Mark::Format(code) => if crate::style::idle_reset(scan.style, code) {
            scan
        } else {
            Scan {
                text: Seq::empty(),
                style: crate::style::formatted(scan.style, code)->0,
                ..scan
            }
        },
        Mark::Gradient(tag) => Scan {
            text: Seq::empty(),
            shades: scan.shades.skip(blend_count(tag) as int),
            ..scan
        },
    }
}

/// The runs of a MOTD from some place on.
pub open spec fn runs_from(chars: Seq<char>, scan: Scan) -> Seq<RunView>
    decreases chars.len(),
    via runs_from_terminates
{
    if chars.len() == 0 {
        flushed(scan.text, scan.style)
    } else {
        let mark = mark_at(chars);
        emitted(mark, scan) + runs_from(
            chars.skip(mark_size(mark) as int),
            advanced(mark, chars[0], scan),
        )
    }
}

#[via_fn]
proof fn runs_from_terminates(chars: Seq<char>, scan: Scan) {
    if chars.len() > 0 {
        lemma_mark_size(chars);
    }
}

/// The runs of a whole MOTD.
pub open spec fn runs_of(chars: Seq<char>, shades: Seq<Rgb>) -> Seq<RunView> {
    runs_from(chars, Scan { text: Seq::empty(), style: crate::style::plain_style(), shades })
}

/// A character whose colour is blended from a gradient's stops: it stands at
/// `index` where the first character stands at 0 and the last one at `last`.
pub struct BlendView {
    pub stops: Seq<Rgb>,
    pub index: nat,
    pub last: nat,
}

/// The blended characters of a tag.
pub open spec fn tag_blends(tag: TagView) -> Seq<BlendView> {
    Seq::new(
        blend_count(tag),
        |i: int|
            BlendView {
                stops: tag.stops,
                index: (i + 1) as nat,
                last: (tag.text.len() - 1) as nat,
            },
    )
}

/// The blended characters of a MOTD, in order.
pub open spec fn blends_from(chars: Seq<char>) -> Seq<BlendView>
    decreases chars.len(),
    via blends_from_terminates
{
    if chars.len() == 0 {
        Seq::empty()
    } else {
        let mark = mark_at(chars);
        let rest = blends_from(chars.skip(mark_size(mark) as int));
        match mark {
            Mark::Gradient(tag) => tag_blends(tag) + rest,
            _ => rest,
        }
    }
}

#[via_fn]
proof fn blends_from_terminates(chars: Seq<char>) {
    if chars.len() > 0 {
        lemma_mark_size(chars);
    }
}

/// Part of a MOTD, read.
enum Token {
    Gradient { stops: Vec<Rgb>, text: String, size: usize },
    Color { color: String, size: usize },
    Format(char),
    Literal,
}

impl View for Token {
    type V = Mark;

    closed spec fn view(&self) -> Mark {
        match self {
            Token::Gradient { stops, text, size } => Mark::Gradient(
                TagView { stops: stops@, text: text@, size: *size as nat },
            ),
            Token::Color { color, size } => Mark::Color { color: color@, size: *size as nat },
            Token::Format(code) => Mark::Format(*code),
            Token::Literal => Mark::Literal,
        }
    }
}

impl Token {
    /// How many characters of the MOTD this takes.
    fn size(&self) -> (size: usize)
        ensures
            size == mark_size(self@),
    {
        match self {
            Token::Gradient { stops: _, text: _, size } => *size,
            Token::Color { color: _, size } => *size,
            Token::Format(_) => 2,
            Token::Literal => 1,
        }
    }
}

/// Writes hexadecimal digits as a web colour.
fn web_color_of(digits: &[char]) -> (color: String)
    ensures
        color@ == web_color(digits@),
{
    let mut color = String::new();
    color.push('#');
    let ghost lowered = Seq::new(digits@.len(), |i: int| crate::text::lower(digits@[i]));
    let mut i: usize = 0;
    while i < digits.len()
        invariant
            i <= digits.len(),
            lowered == Seq::new(digits@.len(), |i: int| crate::text::lower(digits@[i])),
            color@ == seq!['#'] + lowered.take(i as int),
        decreases digits.len() - i,
    {
        color.push(ascii_lower(digits[i]));
        i += 1;
        assert(color@ =~= seq!['#'] + lowered.take(i as int));
    }
    assert(lowered.take(i as int) =~= lowered);
    color
}

/// Whether six hexadecimal digits stand at the third place.
fn six_digits(chars: &[char]) -> (found: bool)
    requires
        chars@.len() >= 8,
    ensures
        found == crate::style::all_hex(chars@.subrange(2, 8)),
{
    let ghost digits = chars@.subrange(2, 8);
    let mut i: usize = 2;
    while i < 8
        invariant
            2 <= i <= 8,
            chars@.len() >= 8,
            digits == chars@.subrange(2, 8),
            forall|j: int|
                0 <= j < i - 2 ==> crate::text::hex_digit(#[trigger] digits[j]) is Some,
        decreases 8 - i,
    {
        assert(digits[i - 2] == chars@[i as int]);
        if hex_value(chars[i]).is_none() {
            return false;
        }
        i += 1;
    }
    true
}

/// Reads what stands at the start of `chars`.
fn read_token(chars: &[char]) -> (token: Token)
    requires
        chars@.len() > 0,
    ensures
        token@ == mark_at(chars@),
{
    let c: char = chars[0];
    if c == '<' {
        if let Some((stops, text, size)) = parse_gradient_tag(chars) {
            return Token::Gradient { stops, text, size };
        }
        return Token::Literal;
    }
    if (c == '&' || c == '\u{A7}') && chars.len() >= 2 {
        let next: char = chars[1];
        if next == '#' && chars.len() >= 8 && six_digits(chars) {
            let color = web_color_of(vstd::slice::slice_subrange(chars, 2, 8));
            return Token::Color { color, size: 8 };
        }
        let code: char = ascii_lower(next);
        assert(chars@.skip(0) =~= chars@);
        if code == 'x' {
            if let Some((hex, end)) = read_bungee_hex(chars, 0) {
                let digits: Vec<char> = chars_of(hex.as_str());
                return Token::Color { color: web_color_of(digits.as_slice()), size: end };
            }
        }
        if let Some(name) = color_name(code) {
            return Token::Color { color: name.to_owned(), size: 2 };
        }
        let mut probe = Style::default();
        if probe.apply_format(code).is_some() {
            return Token::Format(code);
        }
    }
    Token::Literal
}

/// The members of a run's component.
pub open spec fn run_members(run: RunView) -> Map<Seq<char>, JsonTree> {
    let members = Map::empty().insert("text"@, JsonTree::Text(run.text));
    let members = match run.style.color {
        Some(color) => members.insert("color"@, JsonTree::Text(color)),
        None => members,
    };
    let members = with_flag(members, "bold"@, run.style.bold);
    let members = with_flag(members, "italic"@, run.style.italic);
    let members = with_flag(members, "underlined"@, run.style.underlined);
    let members = with_flag(members, "strikethrough"@, run.style.strikethrough);
    with_flag(members, "obfuscated"@, run.style.obfuscated)
}

/// `members` with a flag that is only mentioned when it is set.
pub open spec fn with_flag(
    members: Map<Seq<char>, JsonTree>,
    name: Seq<char>,
    flag: bool,
) -> Map<Seq<char>, JsonTree> {
    if flag {
        members.insert(name, JsonTree::Bool(true))
    } else {
        members
    }
}

/// The components of some runs.
pub open spec fn runs_tree(runs: Seq<RunView>) -> Seq<JsonTree> {
    Seq::new(runs.len(), |i: int| JsonTree::Object(run_members(runs[i])))
}

fn set_flag(entries: &mut Vec<(String, Json)>, name: &str, flag: bool)
    ensures
        crate::json::entries_tree(final(entries)@) == with_flag(
            crate::json::entries_tree(old(entries)@),
            name@,
            flag,
        ),
{
    if flag {
        crate::json::set_member(entries, name, Json::Bool(true));
    }
}

/// Appends the buffered text as a styled run, then clears the buffer.
pub fn flush_run(runs: &mut Vec<Json>, buf: &mut String, style: &Style)
    ensures
        items_tree(final(runs)@) == items_tree(old(runs)@) + runs_tree(
            flushed(old(buf)@, style@),
        ),
        final(buf)@ == Seq::<char>::empty(),
{
    if buf.as_str().is_empty() {
        assert(items_tree(runs@) + runs_tree(flushed(buf@, style@)) =~= items_tree(runs@));
        assert(buf@ =~= Seq::<char>::empty());
        return;
    }
    let ghost run = RunView { text: buf@, style: style@ };
    let mut text = String::new();
    std::mem::swap(&mut text, buf);
    let mut entries: Vec<(String, Json)> = Vec::new();
    crate::json::set_member(&mut entries, "text", Json::Text(text));
    if let Some(color) = &style.color {
        crate::json::set_member(&mut entries, "color", Json::Text(color.clone()));
    }
    set_flag(&mut entries, "bold", style.bold);
    set_flag(&mut entries, "italic", style.italic);
    set_flag(&mut entries, "underlined", style.underlined);
    set_flag(&mut entries, "strikethrough", style.strikethrough);
    set_flag(&mut entries, "obfuscated", style.obfuscated);
    let ghost before = runs@;
    let ghost object = Json::Object(entries);
    runs.push(Json::Object(entries));
    proof {
        assert(object@ == JsonTree::Object(run_members(run)));
        assert(runs@.drop_last() =~= before);
        assert(items_tree(runs@) =~= items_tree(before) + runs_tree(flushed(run.text, run.style)));
    }
}

fn hex_char_of(n: u8) -> (c: char)
    requires
        n < 16,
    ensures
        c == hex_char(n as nat),
{
    if n < 10 {
        (0x30 + n) as char
    } else {
        (0x61 + (n - 10)) as char
    }
}

/// Writes a colour as `#rrggbb`.
pub fn rgb_string(rgb: Rgb) -> (text: String)
    ensures
        text@ == rgb_text(rgb),
{
    let mut text = String::new();
    text.push('#');
    text.push(hex_char_of(rgb.0 / 16));
    text.push(hex_char_of(rgb.0 % 16));
    text.push(hex_char_of(rgb.1 / 16));
    text.push(hex_char_of(rgb.1 % 16));
    text.push(hex_char_of(rgb.2 / 16));
    text.push(hex_char_of(rgb.2 % 16));
    assert(text@ =~= rgb_text(rgb));
    text
}

/// Appends one run per character of a gradient tag. The colours of its blended
/// characters start at `used` in `shades`.
fn push_gradient(
    runs: &mut Vec<Json>,
    stops: &Vec<Rgb>,
    text: &String,
    style: &Style,
    shades: &Vec<Rgb>,
    used: usize,
)
    requires
        stops@.len() > 0,
        used <= shades@.len(),
        stops@.len() != 1 ==> text@.len() <= shades@.len() - used + 2,
    ensures
        forall|size: nat|
            items_tree(final(runs)@) == items_tree(old(runs)@) + runs_tree(
                #[trigger] gradient_runs(
                    TagView { stops: stops@, text: text@, size },
                    style@,
                    shades@.skip(used as int),
                ),
            ),
{
    let visible: Vec<char> = chars_of(text.as_str());
    let ghost tag = TagView { stops: stops@, text: text@, size: 0 };
    let ghost all = gradient_runs(tag, style@, shades@.skip(used as int));
    let ghost before = items_tree(runs@);
    assert(runs_tree(all.take(0)) =~= Seq::<JsonTree>::empty());
    assert(before + Seq::<JsonTree>::empty() =~= before);
    let mut i: usize = 0;
    while i < visible.len()
        invariant
            i <= visible.len(),
            visible@ == text@,
            stops@.len() > 0,
            used <= shades.len(),
            stops@.len() != 1 ==> text@.len() <= shades@.len() - used + 2,
            tag == (TagView { stops: stops@, text: text@, size: 0 }),
            all == gradient_runs(tag, style@, shades@.skip(used as int)),
            items_tree(runs@) == before + runs_tree(all.take(i as int)),
        decreases visible.len() - i,
    {
        let color: Rgb = if stops.len() == 1 || i == 0 {
            stops[0]
        } else if i == visible.len() - 1 {
            stops[stops.len() - 1]
        } else {
            shades[used + (i - 1)]
        };
        let run_style = Style {
            color: Some(rgb_string(color)),
            bold: style.bold,
            italic: style.italic,
            underlined: style.underlined,
            strikethrough: style.strikethrough,
            obfuscated: style.obfuscated,
        };
        let mut one = String::new();
        one.push(visible[i]);
        let ghost added = flushed(one@, run_style@);
        proof {
            assert(one@ =~= seq![text@[i as int]]);
            assert(added =~= seq![all[i as int]]);
            assert(before + runs_tree(all.take(i as int)) + runs_tree(added) =~= before + runs_tree(
                all.take(i + 1),
            ));
        }
        flush_run(runs, &mut one, &run_style);
        i += 1;
    }
    proof {
        assert(all.take(i as int) =~= all);
        assert forall|size: nat|
            #[trigger] gradient_runs(
                TagView { stops: stops@, text: text@, size },
                style@,
                shades@.skip(used as int),
            ) == all by {
            assert(gradient_runs(
                TagView { stops: stops@, text: text@, size },
                style@,
                shades@.skip(used as int),
            ) =~= all);
        }
    }
}

/// Takes one token of a MOTD: appends the runs it completes and moves the style,
/// the buffered text and the place in `shades` on. Returns the new place.
fn push_token(
    runs: &mut Vec<Json>,
    buf: &mut String,
    style: &mut Style,
    shades: &Vec<Rgb>,
    used: usize,
    token: Token,
    c: char,
) -> (now_used: usize)
    requires
        used <= shades@.len(),
        token@ matches Mark::Gradient(tag) ==> tag.stops.len() > 0 && blend_count(tag)
            <= shades@.len() - used,
        token@ matches Mark::Format(code) ==> crate::style::formatted(
            crate::style::plain_style(),
            code,
        ) is Some,
    ensures
        now_used <= shades@.len(),
        now_used == used + (match token@ {
            Mark::Gradient(tag) => blend_count(tag),
            _ => 0,
        }),
        ({
            let scan = Scan {
                text: old(buf)@,
                style: old(style)@,
                shades: shades@.skip(used as int),
            };
            let next = Scan {
                text: final(buf)@,
                style: final(style)@,
                shades: shades@.skip(now_used as int),
            };
            &&& items_tree(final(runs)@) == items_tree(old(runs)@) + runs_tree(
                emitted(token@, scan),
            )
            &&& next == advanced(token@, c, scan)
        }),
{
    let ghost scan = Scan { text: buf@, style: style@, shades: shades@.skip(used as int) };
    let ghost before = items_tree(runs@);
    assert(before + runs_tree(Seq::empty()) =~= before);
    match token {
        Token::Literal => {
            buf.push(c);
            used
        },
        Token::Color { color, size: _ } => {
            flush_run(runs, buf, style);
            style.set_color(color);
            used
        },
        Token::Format(code) => {
            if !(code == 'r' && style.is_plain()) {
                flush_run(runs, buf, style);
            }
            let _ = style.apply_format(code);
            used
        },
        Token::Gradient { stops, text, size } => {
            let ghost tag = TagView { stops: stops@, text: text@, size: size as nat };
            let ghost head = flushed(scan.text, scan.style);
            let ghost tail = gradient_runs(tag, scan.style, scan.shades);
            flush_run(runs, buf, style);
            push_gradient(runs, &stops, &text, style, shades, used);
            assert(used + blend_count(tag) <= shades.len());
            let len: usize = text.as_str().unicode_len();
            let now_used: usize = if stops.len() == 1 || len <= 2 {
                used
            } else {
                used + (len - 2)
            };
            proof {
                lemma_runs_tree_add(head, tail);
                assert(before + runs_tree(head) + runs_tree(tail) =~= before + (runs_tree(head)
                    + runs_tree(tail)));
                assert(scan.shades.skip(blend_count(tag) as int) =~= shades@.skip(now_used as int));
            }
            now_used
        },
    }
}

/// Appends the runs of a MOTD.
fn push_runs(runs: &mut Vec<Json>, chars: &Vec<char>, shades: &Vec<Rgb>)
    requires
        shades@.len() == blends_from(chars@).len(),
    ensures
        items_tree(final(runs)@) == items_tree(old(runs)@) + runs_tree(runs_of(chars@, shades@)),
{
    let mut buf = String::new();
    let mut style = Style::default();
    let mut used: usize = 0;
    let mut i: usize = 0;
    let ghost start = items_tree(runs@);
    let ghost all = runs_of(chars@, shades@);
    let ghost mut done: Seq<RunView> = Seq::empty();
    proof {
        assert(chars@.skip(0) =~= chars@);
        assert(shades@.skip(0) =~= shades@);
        assert(done + all =~= all);
        assert(start + runs_tree(done) =~= start);
    }
    while i < chars.len()
        invariant
            i <= chars.len(),
            used <= shades@.len(),
            shades@.len() - used == blends_from(chars@.skip(i as int)).len(),
            items_tree(runs@) == start + runs_tree(done),
            all == done + runs_from(
                chars@.skip(i as int),
                Scan { text: buf@, style: style@, shades: shades@.skip(used as int) },
            ),
        decreases chars.len() - i,
    {
        let ghost left = chars@.skip(i as int);
        let ghost scan = Scan { text: buf@, style: style@, shades: shades@.skip(used as int) };
        let rest = vstd::slice::slice_subrange(chars.as_slice(), i, chars.len());
        assert(rest@ =~= left);
        let token = read_token(rest);
        let size: usize = token.size();
        let ghost mark = token@;
        proof {
            lemma_mark_size(left);
            lemma_blends_step(left);
            assert(left.skip(size as int) =~= chars@.skip(i + size));
        }
        used = push_token(runs, &mut buf, &mut style, shades, used, token, chars[i]);
        proof {
            let fresh = emitted(mark, scan);
            lemma_runs_tree_add(done, fresh);
            assert(start + (runs_tree(done) + runs_tree(fresh)) =~= start + runs_tree(done)
                + runs_tree(fresh));
            assert(done + (fresh + runs_from(left.skip(size as int), advanced(mark, left[0], scan)))
                =~= done + fresh + runs_from(left.skip(size as int), advanced(mark, left[0], scan)));
            done = done + fresh;
        }
        i += size;
    }
    let ghost last = flushed(buf@, style@);
    flush_run(runs, &mut buf, &style);
    proof {
        assert(chars@.skip(i as int) =~= Seq::<char>::empty());
        lemma_runs_tree_add(done, last);
        assert(start + (runs_tree(done) + runs_tree(last)) =~= start + runs_tree(done) + runs_tree(
            last,
        ));
    }
}

/// How many blended characters a mark accounts for.
proof fn lemma_blends_step(chars: Seq<char>)
    requires
        chars.len() > 0,
    ensures
        ({
            let rest = blends_from(chars.skip(mark_size(mark_at(chars)) as int)).len();
            blends_from(chars).len() == rest + (match mark_at(chars) {
                Mark::Gradient(tag) => blend_count(tag),
                _ => 0,
            })
        }),
        mark_at(chars) matches Mark::Format(code) ==> crate::style::formatted(
            crate::style::plain_style(),
            code,
        ) is Some,
{
}

proof fn lemma_runs_tree_add(a: Seq<RunView>, b: Seq<RunView>)
    ensures
        runs_tree(a + b) == runs_tree(a) + runs_tree(b),
{
    assert(runs_tree(a + b) =~= runs_tree(a) + runs_tree(b));
}

/// A character whose colour is blended from a gradient's stops: it stands at
/// `index` where the first character stands at 0 and the last one at `last`.
#[derive(Debug, PartialEq)]
pub struct GradientPoint {
    pub stops: Vec<Rgb>,
    pub index: usize,
    pub last: usize,
}

impl View for GradientPoint {
    type V = BlendView;

    open spec fn view(&self) -> BlendView {
        BlendView { stops: self.stops@, index: self.index as nat, last: self.last as nat }
    }
}

/// The contents of several points.
pub open spec fn points_view(points: Seq<GradientPoint>) -> Seq<BlendView> {
    Seq::new(points.len(), |i: int| points[i]@)
}

fn copy_stops(stops: &Vec<Rgb>) -> (copy: Vec<Rgb>)
    ensures
        copy@ == stops@,
{
    let mut copy: Vec<Rgb> = Vec::new();
    let mut i: usize = 0;
    while i < stops.len()
        invariant
            i <= stops.len(),
            copy@ == stops@.take(i as int),
        decreases stops.len() - i,
    {
        copy.push(stops[i]);
        i += 1;
        assert(stops@.take(i as int) =~= stops@.take(i - 1).push(stops@[i - 1]));
    }
    assert(stops@.take(i as int) =~= stops@);
    copy
}

/// Appends the blended characters of a tag.
fn push_points(points: &mut Vec<GradientPoint>, stops: &Vec<Rgb>, text: &String)
    ensures
        forall|size: nat|
            points_view(final(points)@) == points_view(old(points)@) + #[trigger] tag_blends(
                TagView { stops: stops@, text: text@, size },
            ),
{
    let ghost all = tag_blends(TagView { stops: stops@, text: text@, size: 0 });
    let ghost before = points_view(points@);
    let len: usize = text.as_str().unicode_len();
    let count: usize = if stops.len() == 1 || len <= 2 {
        0
    } else {
        len - 2
    };
    assert(before + all.take(0) =~= before);
    let mut i: usize = 0;
    while i < count
        invariant
            i <= count,
            count == all.len(),
            len == text@.len(),
            count > 0 ==> count == len - 2,
            all == tag_blends(TagView { stops: stops@, text: text@, size: 0 }),
            points_view(points@) == before + all.take(i as int),
        decreases count - i,
    {
        let ghost so_far = points@;
        points.push(GradientPoint { stops: copy_stops(stops), index: i + 1, last: len - 1 });
        proof {
            assert(points_view(points@) =~= points_view(so_far).push(points@.last()@));
            assert(points@.last()@ == all[i as int]);
            assert(before + all.take(i + 1) =~= (before + all.take(i as int)).push(all[i as int]));
        }
        i += 1;
    }
    proof {
        assert(all.take(i as int) =~= all);
        assert forall|size: nat|
            #[trigger] tag_blends(TagView { stops: stops@, text: text@, size }) == all by {
            assert(tag_blends(TagView { stops: stops@, text: text@, size }) =~= all);
        }
    }
}

/// The characters of a MOTD whose colours are blended from gradient stops, in
/// order.
pub fn gradient_points(motd: &str) -> (points: Vec<GradientPoint>)
    ensures
        points_view(points@) == blends_from(crate::text::with_line_breaks(motd@)),
{
    let chars: Vec<char> = unescape_line_breaks(motd);
    let mut points: Vec<GradientPoint> = Vec::new();
    let mut i: usize = 0;
    proof {
        assert(chars@.skip(0) =~= chars@);
        assert(points_view(points@) + blends_from(chars@) =~= blends_from(chars@));
    }
    while i < chars.len()
        invariant
            i <= chars.len(),
            blends_from(chars@) == points_view(points@) + blends_from(chars@.skip(i as int)),
        decreases chars.len() - i,
    {
        let ghost left = chars@.skip(i as int);
        let ghost before = points_view(points@);
        proof {
            lemma_mark_size(left);
        }
        let rest = vstd::slice::slice_subrange(chars.as_slice(), i, chars.len());
        assert(rest@ =~= left);
        let token = read_token(rest);
        let size: usize = token.size();
        assert(left.skip(size as int) =~= chars@.skip(i + size));
        if let Token::Gradient { stops, text, size: _ } = token {
            let ghost tag = TagView { stops: stops@, text: text@, size: size as nat };
            push_points(&mut points, &stops, &text);
            assert(before + (tag_blends(tag) + blends_from(chars@.skip(i + size)))
                =~= points_view(points@) + blends_from(chars@.skip(i + size)));
        }
        i += size;
    }
    assert(points_view(points@) + blends_from(chars@.skip(i as int)) =~= points_view(points@));
    points
}

/// A MOTD and the colours of its blended characters.
#[derive(Debug)]
pub struct Motd {
    text: String,
    shades: Vec<Rgb>,
}

impl Motd {
    /// The MOTD as it was configured.
    pub closed spec fn text(self) -> Seq<char> {
        self.text@
    }

    /// The colours of its blended characters, in order.
    pub closed spec fn shades(self) -> Seq<Rgb> {
        self.shades@
    }

    #[verifier::type_invariant]
    spec fn inv(self) -> bool {
        self.shades@.len() == blends_from(crate::text::with_line_breaks(self.text@)).len()
    }

    /// A MOTD whose [`gradient_points`] have the colours `shades`, one each.
    pub fn new(text: String, shades: Vec<Rgb>) -> (motd: Option<Motd>)
        ensures
            match motd {
                Some(m) => m.text() == text@ && m.shades() == shades@ && shades@.len()
                    == blends_from(crate::text::with_line_breaks(text@)).len(),
                None => shades@.len() != blends_from(
                    crate::text::with_line_breaks(text@),
                ).len(),
            },
    {
        let points = gradient_points(text.as_str());
        assert(points_view(points@).len() == points@.len());
        if points.len() != shades.len() {
            return None;
        }
        Some(Motd { text, shades })
    }
}

/// The runs of a MOTD.
pub open spec fn legacy_runs(text: Seq<char>, shades: Seq<Rgb>) -> Seq<RunView> {
    runs_of(crate::text::with_line_breaks(text), shades)
}

/// The component of a MOTD that is not written in JSON: an empty text with one
/// part per run.
pub open spec fn legacy_tree(text: Seq<char>, shades: Seq<Rgb>) -> JsonTree {
    JsonTree::Object(
        Map::empty().insert("text"@, JsonTree::Text(Seq::empty())).insert(
            "extra"@,
            JsonTree::Array(runs_tree(legacy_runs(text, shades))),
        ),
    )
}

/// Parses colour, hex and format codes and gradient tags into a component with
/// one part per run.
pub fn parse_legacy_motd(motd: &Motd) -> (component: Json)
    ensures
        component@ == legacy_tree(motd.text(), motd.shades()),
{
    proof {
        use_type_invariant(motd);
    }
    let chars: Vec<char> = unescape_line_breaks(motd.text.as_str());
    let mut runs: Vec<Json> = Vec::new();
    push_runs(&mut runs, &chars, &motd.shades);
    assert(items_tree(runs@) =~= runs_tree(legacy_runs(motd.text(), motd.shades())));
    let mut entries: Vec<(String, Json)> = Vec::new();
    crate::json::set_member(&mut entries, "text", Json::Text(String::new()));
    crate::json::set_member(&mut entries, "extra", Json::Array(runs));
    Json::Object(entries)
}

/// `text` without leading white space.
pub open spec fn trimmed(text: Seq<char>) -> Seq<char>
    decreases text.len(),
{
    if text.len() > 0 && crate::text::white_space(text[0]) {
        trimmed(text.skip(1))
    } else {
        text
    }
}

/// Whether `text` looks like a JSON object or array.
pub open spec fn opens_json(text: Seq<char>) -> bool {
    trimmed(text).len() > 0 && (trimmed(text)[0] == '{' || trimmed(text)[0] == '[')
}

/// Whether `text` looks like a JSON object or array.
pub fn looks_like_json(text: &str) -> (looks: bool)
    ensures
        looks == opens_json(text@),
{
    let chars: Vec<char> = chars_of(text);
    let mut i: usize = 0;
    assert(chars@.skip(0) =~= chars@);
    while i < chars.len()
        invariant
            i <= chars.len(),
            chars@ == text@,
            trimmed(text@) == trimmed(chars@.skip(i as int)),
        decreases chars.len() - i,
    {
        let c: char = chars[i];
        if !is_white_space(c) {
            return c == '{' || c == '[';
        }
        assert(chars@.skip(i as int).skip(1) =~= chars@.skip(i + 1));
        i += 1;
    }
    false
}

/// The component of a MOTD, where `parsed` is the JSON value that its text
/// spells, if any.
pub open spec fn component_tree(
    text: Seq<char>,
    shades: Seq<Rgb>,
    parsed: Option<JsonTree>,
) -> JsonTree {
    match parsed {
        Some(tree) => if opens_json(text) {
            tree
        } else {
            legacy_tree(text, shades)
        },
        None => legacy_tree(text, shades),
    }
}

/// The component of a MOTD.
pub open spec fn motd_tree(text: Seq<char>, shades: Seq<Rgb>) -> JsonTree {
    component_tree(text, shades, crate::json_text::json_parse(text))
}

/// The component of a MOTD, given the JSON value that its text spells, if any.
pub fn component_of(motd: &Motd, parsed: Option<Json>) -> (component: Json)
    ensures
        component@ == component_tree(
            motd.text(),
            motd.shades(),
            match parsed {
                Some(json) => Some(json@),
                None => None,
            },
        ),
{
    match parsed {
        Some(json) => if looks_like_json(motd.text.as_str()) {
            json
        } else {
            parse_legacy_motd(motd)
        },
        None => parse_legacy_motd(motd),
    }
}

/// Builds the text component of a MOTD: a raw JSON component is used verbatim,
/// anything else is parsed for codes.
pub fn motd_component(motd: &Motd) -> (component: Json)
    ensures
        component@ == motd_tree(motd.text(), motd.shades()),
{
    if looks_like_json(motd.text.as_str()) {
        component_of(motd, crate::json_text::parse_json(motd.text.as_str()))
    } else {
        parse_legacy_motd(motd)
    }
}

/// The text of a component: its own and that of its parts, without styles.
pub open spec fn component_text(tree: JsonTree) -> Seq<char>
    decreases tree,
{
    match tree {
        JsonTree::Text(text) => text,
        JsonTree::Array(parts) => parts_text(parts),
        JsonTree::Object(members) => {
            let own = if members.contains_key("text"@) && members["text"@] is Text {
                members["text"@]->Text_0
            } else {
                Seq::empty()
            };
            let extra = if members.contains_key("extra"@) {
                match members["extra"@] {
                    JsonTree::Array(parts) => parts_text(parts),
                    _ => Seq::empty(),
                }
            } else {
                Seq::empty()
            };
            own + extra
        },
        _ => Seq::empty(),
    }
}

/// The text of several components, one after the other.
pub open spec fn parts_text(parts: Seq<JsonTree>) -> Seq<char>
    decreases parts,
{
    if parts.len() == 0 {
        Seq::empty()
    } else {
        parts_text(parts.drop_last()) + component_text(parts.last())
    }
}

/// Appends the text of a component.
fn collect_text(component: &Json, out: &mut String)
    ensures
        final(out)@ == old(out)@ + component_text(component@),
    decreases component@,
{
    match component {
        Json::Text(text) => {
            out.append(text.as_str());
        },
        Json::Array(parts) => {
            assert(decreases_to!(component@ => component@->Array_0));
            collect_parts(parts, out);
        },
        Json::Object(entries) => {
            let ghost start = out@;
            let ghost members = crate::json::entries_tree(entries@);
            if let Some(own) = component.get("text") {
                if let Json::Text(text) = own {
                    out.append(text.as_str());
                }
            }
            if let Some(extra) = component.get("extra") {
                if let Json::Array(parts) = extra {
                    proof {
                        crate::json::lemma_entries_finite(entries@);
                        assert(decreases_to!(component@ => component@->Object_0));
                        assert(decreases_to!(members => members["extra"@]));
                        assert(decreases_to!(extra@ => extra@->Array_0));
                    }
                    collect_parts(parts, out);
                }
            }
            assert(out@ =~= start + component_text(component@));
        },
        _ => {
            assert(out@ =~= out@ + component_text(component@));
        },
    }
}

/// Appends the text of several components.
fn collect_parts(parts: &Vec<Json>, out: &mut String)
    ensures
        final(out)@ == old(out)@ + parts_text(items_tree(parts@)),
    decreases items_tree(parts@),
{
    let ghost start = out@;
    let ghost trees = items_tree(parts@);
    let mut i: usize = 0;
    assert(trees.take(0) =~= Seq::<JsonTree>::empty());
    assert(start + parts_text(trees.take(0)) =~= start);
    while i < parts.len()
        invariant
            i <= parts.len(),
            trees == items_tree(parts@),
            out@ == start + parts_text(trees.take(i as int)),
        decreases parts.len() - i,
    {
        proof {
            crate::json::lemma_items_tree(parts@);
            assert(trees.take(i + 1).drop_last() =~= trees.take(i as int));
            assert(decreases_to!(trees => trees[i as int]));
        }
        collect_text(&parts[i], out);
        i += 1;
        assert(out@ =~= start + parts_text(trees.take(i as int)));
    }
    proof {
        crate::json::lemma_items_tree(parts@);
        assert(trees.take(i as int) =~= trees);
    }
}

/// `c`, unless a legacy status field cannot hold it.
pub open spec fn field_char(c: char) -> char {
    if c == '\0' || c == '\n' {
        ' '
    } else {
        c
    }
}

/// `text` as a legacy status field: null characters separate fields and line
/// breaks do not render, so both become spaces.
pub open spec fn field_text(text: Seq<char>) -> Seq<char> {
    Seq::new(text.len(), |i: int| field_char(text[i]))
}

/// Flattens a component to the plain text of a legacy status field.
pub fn plain_component_text(component: &Json) -> (text: String)
    ensures
        text@ == field_text(component_text(component@)),
{
    let mut out = String::new();
    collect_text(component, &mut out);
    let chars: Vec<char> = chars_of(out.as_str());
    let mut text = String::new();
    let ghost all = field_text(chars@);
    let mut i: usize = 0;
    while i < chars.len()
        invariant
            i <= chars.len(),
            all == field_text(chars@),
            text@ == all.take(i as int),
        decreases chars.len() - i,
    {
        let c: char = chars[i];
        text.push(
            if c == '\0' || c == '\n' {
                ' '
            } else {
                c
            },
        );
        i += 1;
        assert(all.take(i as int) =~= all.take(i - 1).push(all[i - 1]));
    }
    proof {
        assert(all.take(i as int) =~= all);
        assert(Seq::<char>::empty() + component_text(component@) =~= component_text(component@));
    }
    text
}

/// Flattens a MOTD to plain text for the legacy ping.
pub fn plain_motd_text(motd: &Motd) -> (text: String)
    ensures
        text@ == field_text(component_text(motd_tree(motd.text(), motd.shades()))),
{
    let component = motd_component(motd);
    plain_component_text(&component)
}

/// The text of a MOTD without its codes and tags.
pub open spec fn visible_text(chars: Seq<char>) -> Seq<char>
    decreases chars.len(),
    via visible_text_terminates
{
    if chars.len() == 0 {
        Seq::empty()
    } else {
        let mark = mark_at(chars);
        let rest = visible_text(chars.skip(mark_size(mark) as int));
        match mark {
            Mark::Literal => seq![chars[0]] + rest,
            Mark::Gradient(tag) => tag.text + rest,
            _ => rest,
        }
    }
}

#[via_fn]
proof fn visible_text_terminates(chars: Seq<char>) {
    if chars.len() > 0 {
        lemma_mark_size(chars);
    }
}

/// The text of some runs, one after the other.
pub open spec fn runs_text(runs: Seq<RunView>) -> Seq<char>
    decreases runs.len(),
{
    if runs.len() == 0 {
        Seq::empty()
    } else {
        runs_text(runs.drop_last()) + runs.last().text
    }
}

proof fn lemma_runs_text_add(a: Seq<RunView>, b: Seq<RunView>)
    ensures
        runs_text(a + b) == runs_text(a) + runs_text(b),
    decreases b.len(),
{
    if b.len() == 0 {
        assert(a + b =~= a);
        assert(runs_text(a) + runs_text(b) =~= runs_text(a));
    } else {
        lemma_runs_text_add(a, b.drop_last());
        assert((a + b).drop_last() =~= a + b.drop_last());
        assert(runs_text(a) + (runs_text(b.drop_last()) + b.last().text) =~= runs_text(a)
            + runs_text(b.drop_last()) + b.last().text);
    }
}

proof fn lemma_flushed_text(text: Seq<char>, style: StyleView)
    ensures
        runs_text(flushed(text, style)) == text,
{
    if text.len() == 0 {
        assert(text =~= Seq::<char>::empty());
    } else {
        let runs = flushed(text, style);
        assert(runs.drop_last() =~= Seq::<RunView>::empty());
        assert(runs_text(runs.drop_last()) + text =~= text);
    }
}

proof fn lemma_gradient_text(tag: TagView, style: StyleView, shades: Seq<Rgb>, n: int)
    requires
        0 <= n <= tag.text.len(),
    ensures
        runs_text(gradient_runs(tag, style, shades).take(n)) == tag.text.take(n),
    decreases n,
{
    let runs = gradient_runs(tag, style, shades);
    if n == 0 {
        assert(runs.take(0) =~= Seq::<RunView>::empty());
        assert(tag.text.take(0) =~= Seq::<char>::empty());
    } else {
        lemma_gradient_text(tag, style, shades, n - 1);
        assert(runs.take(n).drop_last() =~= runs.take(n - 1));
        assert(tag.text.take(n) =~= tag.text.take(n - 1) + seq![tag.text[n - 1]]);
    }
}

proof fn lemma_emitted_text(mark: Mark, c: char, scan: Scan)
    ensures
        runs_text(emitted(mark, scan)) + advanced(mark, c, scan).text == scan.text + (match mark {
            Mark::Literal => seq![c],
            Mark::Gradient(tag) => tag.text,
            _ => Seq::empty(),
        }),
{
    lemma_flushed_text(scan.text, scan.style);
    match mark {
        Mark::Literal => {
            assert(runs_text(Seq::<RunView>::empty()) + scan.text.push(c) =~= scan.text + seq![c]);
        },
        Mark::Color { color, size } => {
            assert(scan.text + Seq::<char>::empty() =~= scan.text);
        },
        Mark::Format(code) => {
            assert(scan.text + Seq::<char>::empty() =~= scan.text);
            if crate::style::idle_reset(scan.style, code) {
                assert(runs_text(Seq::<RunView>::empty()) + scan.text =~= scan.text);
            }
        },
        Mark::Gradient(tag) => {
            let head = flushed(scan.text, scan.style);
            let tail = gradient_runs(tag, scan.style, scan.shades);
            lemma_runs_text_add(head, tail);
            lemma_gradient_text(tag, scan.style, scan.shades, tag.text.len() as int);
            assert(tail.take(tag.text.len() as int) =~= tail);
            assert(tag.text.take(tag.text.len() as int) =~= tag.text);
            assert(runs_text(emitted(mark, scan)) + Seq::<char>::empty() =~= scan.text + tag.text);
        },
    }
}

/// Nothing but codes and tags is lost: the runs of a MOTD, one after the other,
/// spell the text gathered before and all visible text that follows, whatever
/// the style and the colours.
pub proof fn law_runs_spell_visible_text(chars: Seq<char>, scan: Scan)
    ensures
        runs_text(runs_from(chars, scan)) == scan.text + visible_text(chars),
    decreases chars.len(),
{
    if chars.len() == 0 {
        lemma_flushed_text(scan.text, scan.style);
        assert(scan.text + visible_text(chars) =~= scan.text);
    } else {
        lemma_mark_size(chars);
        let mark = mark_at(chars);
        let rest = chars.skip(mark_size(mark) as int);
        let next = advanced(mark, chars[0], scan);
        law_runs_spell_visible_text(rest, next);
        lemma_runs_text_add(emitted(mark, scan), runs_from(rest, next));
        lemma_emitted_text(mark, chars[0], scan);
        let shown = match mark {
            Mark::Literal => seq![chars[0]],
            Mark::Gradient(tag) => tag.text,
            _ => Seq::empty(),
        };
        assert(visible_text(chars) =~= shown + visible_text(rest));
        assert(runs_text(emitted(mark, scan)) + (next.text + visible_text(rest)) =~= runs_text(
            emitted(mark, scan),
        ) + next.text + visible_text(rest));
        assert(scan.text + (shown + visible_text(rest)) =~= scan.text + shown + visible_text(rest));
    }
}

/// Every run of a MOTD has text.
pub proof fn law_runs_are_not_empty(chars: Seq<char>, scan: Scan)
    ensures
        forall|i: int|
            0 <= i < runs_from(chars, scan).len() ==> (#[trigger] runs_from(
                chars,
                scan,
            )[i]).text.len() > 0,
    decreases chars.len(),
{
    if chars.len() > 0 {
        lemma_mark_size(chars);
        let mark = mark_at(chars);
        law_runs_are_not_empty(
            chars.skip(mark_size(mark) as int),
            advanced(mark, chars[0], scan),
        );
    }
}

/// Text in which no code and no tag stands is one run in the style it started
/// in. Signs that introduce no code are part of it.
pub proof fn law_plain_motd_is_one_run(chars: Seq<char>, scan: Scan)
    requires
        forall|i: int| 0 <= i < chars.len() ==> mark_at(#[trigger] chars.skip(i)) is Literal,
    ensures
        runs_from(chars, scan) == flushed(scan.text + chars, scan.style),
    decreases chars.len(),
{
    if chars.len() == 0 {
        assert(scan.text + chars =~= scan.text);
    } else {
        assert(chars.skip(0) =~= chars);
        let rest = chars.skip(1);
        assert forall|i: int| 0 <= i < rest.len() implies mark_at(
            #[trigger] rest.skip(i),
        ) is Literal by {
            assert(rest.skip(i) =~= chars.skip(i + 1));
        }
        let next = advanced(Mark::Literal, chars[0], scan);
        law_plain_motd_is_one_run(rest, next);
        assert(next.text + rest =~= scan.text + chars);
        assert(emitted(Mark::Literal, scan) + runs_from(rest, next) =~= runs_from(rest, next));
    }
}

/// A code styles only the text after it: the run that it ends keeps the style
/// it was gathered in.
pub proof fn law_codes_style_what_follows(mark: Mark, scan: Scan)
    requires
        !(mark is Literal),
        mark matches Mark::Format(code) ==> !crate::style::idle_reset(scan.style, code),
    ensures
        emitted(mark, scan) == flushed(scan.text, scan.style) + (match mark {
            Mark::Gradient(tag) => gradient_runs(tag, scan.style, scan.shades),
            _ => Seq::empty(),
        }),
{
    assert(flushed(scan.text, scan.style) + Seq::<RunView>::empty() =~= flushed(
        scan.text,
        scan.style,
    ));
}

/// A colour code resets all formatting.
pub proof fn law_color_resets_formatting(color: Seq<char>, size: nat, c: char, scan: Scan)
    ensures
        advanced(Mark::Color { color, size }, c, scan).style == crate::style::colored(color),
{
}

/// Every character of a gradient keeps the formatting that was active at its
/// tag, and so does the text after the tag.
pub proof fn law_gradient_keeps_formatting(tag: TagView, c: char, scan: Scan, i: int)
    ensures
        0 <= i < tag.text.len() ==> ({
            let style = gradient_runs(tag, scan.style, scan.shades)[i].style;
            style == (StyleView { color: style.color, ..scan.style })
        }),
        advanced(Mark::Gradient(tag), c, scan).style == scan.style,
{
}

/// A gradient starts in its first colour and, if it has more than one character,
/// ends in its last, whatever the colours in between.
pub proof fn law_gradient_ends_in_its_stops(tag: TagView, style: StyleView, shades: Seq<Rgb>)
    requires
        tag.stops.len() > 0,
        tag.text.len() > 0,
    ensures
        gradient_runs(tag, style, shades)[0].style.color == Some(rgb_text(tag.stops[0])),
        tag.text.len() > 1 ==> gradient_runs(tag, style, shades).last().style.color == Some(
            rgb_text(tag.stops.last()),
        ),
{
}

/// A component written as JSON is used verbatim.
pub proof fn law_json_motd_is_verbatim(text: Seq<char>, shades: Seq<Rgb>, parsed: JsonTree)
    requires
        opens_json(text),
        crate::json_text::json_parse(text) == Some(parsed),
    ensures
        motd_tree(text, shades) == parsed,
{
}

proof fn lemma_run_component_text(run: RunView)
    ensures
        component_text(JsonTree::Object(run_members(run))) == run.text,
{
    reveal_strlit("text");
    reveal_strlit("extra");
    reveal_strlit("color");
    reveal_strlit("bold");
    reveal_strlit("italic");
    reveal_strlit("underlined");
    reveal_strlit("strikethrough");
    reveal_strlit("obfuscated");
    assert("text"@.len() == 4 && "bold"@.len() == 4 && "text"@[0] != "bold"@[0]);
    assert("extra"@.len() == 5 && "color"@.len() == 5 && "extra"@[0] != "color"@[0]);
    assert("italic"@.len() == 6 && "underlined"@.len() == 10 && "strikethrough"@.len() == 13
        && "obfuscated"@.len() == 10);
    let members = run_members(run);
    assert(members.contains_key("text"@) && members["text"@] == JsonTree::Text(run.text));
    assert(!members.contains_key("extra"@));
    assert(run.text + Seq::<char>::empty() =~= run.text);
}

proof fn lemma_runs_component_text(runs: Seq<RunView>)
    ensures
        parts_text(runs_tree(runs)) == runs_text(runs),
    decreases runs.len(),
{
    if runs.len() > 0 {
        lemma_runs_component_text(runs.drop_last());
        assert(runs_tree(runs).drop_last() =~= runs_tree(runs.drop_last()));
        lemma_run_component_text(runs.last());
    }
}

/// What a legacy client sees of a MOTD that is not JSON is its visible text.
pub proof fn law_legacy_text_is_visible_text(text: Seq<char>, shades: Seq<Rgb>)
    ensures
        component_text(legacy_tree(text, shades)) == visible_text(
            crate::text::with_line_breaks(text),
        ),
{
    let runs = legacy_runs(text, shades);
    let tree = legacy_tree(text, shades);
    let members = tree->Object_0;
    reveal_strlit("text");
    reveal_strlit("extra");
    assert("text"@.len() == 4 && "extra"@.len() == 5);
    assert(members["text"@] == JsonTree::Text(Seq::empty()));
    assert(members["extra"@] == JsonTree::Array(runs_tree(runs)));
    lemma_runs_component_text(runs);
    let scan = Scan { text: Seq::empty(), style: crate::style::plain_style(), shades };
    law_runs_spell_visible_text(crate::text::with_line_breaks(text), scan);
    let shown = visible_text(crate::text::with_line_breaks(text));
    assert(scan.text + shown =~= shown);
    assert(Seq::<char>::empty() + parts_text(runs_tree(runs)) =~= shown);
}

/// A legacy status field never holds a field separator or a line break, and is
/// as long as the text it shows.
pub proof fn law_field_text_is_clean(text: Seq<char>, i: int)
    ensures
        field_text(text).len() == text.len(),
        0 <= i < text.len() ==> field_text(text)[i] != '\0' && field_text(text)[i] != '\n',
{
}

/// A MOTD that is not JSON becomes a component that can always be read back from
/// its text: it holds no floats and its nesting is shallow.
pub proof fn law_legacy_component_is_readable(text: Seq<char>, shades: Seq<Rgb>, levels: nat)
    requires
        levels >= 3,
    ensures
        crate::json_text::readable(legacy_tree(text, shades), levels),
{
    let runs = legacy_runs(text, shades);
    let parts = runs_tree(runs);
    assert forall|i: int| 0 <= i < parts.len() implies crate::json_text::readable(
        #[trigger] parts[i],
        1,
    ) by {
        let members = run_members(runs[i]);
        assert(parts[i] == JsonTree::Object(members));
        assert forall|name: Seq<char>| members.contains_key(name) implies crate::json_text::readable(
            #[trigger] members[name],
            0,
        ) by {}
    }
    assert(crate::json_text::readable(JsonTree::Array(parts), 2));
    assert(crate::json_text::readable(JsonTree::Text(Seq::empty()), 2));
    crate::json_text::lemma_readable_deeper(legacy_tree(text, shades), 3, levels);
}

/// What a MOTD holds at a place: a tag where one is well-formed, a hex colour, a
/// Bungee colour, a named colour or a format code where a sign introduces one,
/// and otherwise text.
pub proof fn law_codes_are_recognised(chars: Seq<char>)
    requires
        chars.len() > 0,
    ensures
        ({
            let sign = chars[0] == '&' || chars[0] == '\u{A7}';
            let code = crate::text::lower(chars[1]);
            let hex = chars.len() >= 8 && chars[1] == '#' && forall|i: int|
                2 <= i < 8 ==> crate::text::hex_digit(#[trigger] chars[i]) is Some;
            let bungee = code == 'x' && crate::style::bungee_digits(chars) is Some;
            let named = crate::style::named_color(code) is Some;
            let format = code == 'k' || code == 'l' || code == 'm' || code == 'n' || code == 'o'
                || code == 'r';
            &&& chars[0] == '<' && gradient_tag(chars) is Some ==> mark_at(chars)
                == Mark::Gradient(gradient_tag(chars)->0)
            &&& sign && chars.len() >= 2 && hex ==> (mark_at(chars) matches Mark::Color {
                color,
                size,
            } && size == 8 && color.len() == 7 && color[0] == '#' && forall|i: int|
                2 <= i < 8 ==> color[i - 1] == crate::text::lower(#[trigger] chars[i]))
            &&& sign && chars.len() >= 2 && bungee ==> (mark_at(chars) matches Mark::Color {
                color,
                size,
            } && size == 14 && color.len() == 7 && color[0] == '#' && forall|i: int|
                0 <= i < 6 ==> #[trigger] color[i + 1] == crate::text::lower(chars[3 + 2 * i]))
            &&& sign && chars.len() >= 2 && named ==> mark_at(chars) == (Mark::Color {
                color: crate::style::named_color(code)->0,
                size: 2,
            })
            &&& sign && chars.len() >= 2 && format ==> mark_at(chars) == Mark::Format(code)
            &&& !(chars[0] == '<' && gradient_tag(chars) is Some) && !(sign && chars.len() >= 2 && (
            hex || bungee || named || format)) ==> mark_at(chars) is Literal
        }),
{
    let sign = chars[0] == '&' || chars[0] == '\u{A7}';
    let code = crate::text::lower(chars[1]);
    if chars.len() >= 8 {
        let digits = chars.subrange(2, 8);
        assert forall|i: int| 2 <= i < 8 implies #[trigger] chars[i] == digits[i - 2] by {}
        if forall|i: int| 2 <= i < 8 ==> crate::text::hex_digit(#[trigger] chars[i]) is Some {
            assert forall|i: int| 0 <= i < digits.len() implies crate::text::hex_digit(
                #[trigger] digits[i],
            ) is Some by {
                assert(crate::text::hex_digit(chars[i + 2]) is Some);
            }
        }
        if crate::style::all_hex(digits) {
            assert forall|i: int| 2 <= i < 8 implies crate::text::hex_digit(
                #[trigger] chars[i],
            ) is Some by {
                assert(crate::text::hex_digit(digits[i - 2]) is Some);
            }
        }
    }
    if sign && chars.len() >= 2 && code == 'x' && crate::style::bungee_digits(chars) is Some {
        let digits = crate::style::bungee_digits(chars)->0;
        crate::style::law_bungee_color_is_found(chars, digits);
        assert forall|i: int| 0 <= i < 6 implies #[trigger] web_color(digits)[i + 1]
            == crate::text::lower(chars[3 + 2 * i]) by {
            assert(digits[i] == chars[3 + 2 * i]);
        }
    }
}

/// A mark takes as many characters as are written for it.
pub proof fn law_mark_sizes(tag: TagView, color: Seq<char>, size: nat, code: char)
    ensures
        mark_size(Mark::Gradient(tag)) == tag.size,
        mark_size(Mark::Color { color, size }) == size,
        mark_size(Mark::Format(code)) == 2,
        mark_size(Mark::Literal) == 1,
{
}

/// Where each mark leaves the style and the gathered text: text is gathered
/// character by character; a colour code leaves that colour alone; a format code
/// adds its flag and keeps the colour; a reset clears both; a tag changes
/// neither. Only a tag uses colours up.
pub proof fn law_marks_move_the_style(mark: Mark, c: char, scan: Scan)
    ensures
        ({
            let next = advanced(mark, c, scan);
            match mark {
                Mark::Literal => {
                    &&& next.text == scan.text.push(c)
                    &&& next.style == scan.style
                    &&& next.shades == scan.shades
                    &&& emitted(mark, scan).len() == 0
                },
                Mark::Color { color, size } => {
                    &&& next.text.len() == 0
                    &&& next.shades == scan.shades
                    &&& next.style.color == Some(color)
                    &&& !next.style.bold && !next.style.italic && !next.style.underlined
                    &&& !next.style.strikethrough && !next.style.obfuscated
                },
                Mark::Format(code) => {
                    &&& next.shades == scan.shades
                    &&& code == 'k' || code == 'l' || code == 'm' || code == 'n' || code == 'o' ==> {
                        &&& next.text.len() == 0
                        &&& next.style.color == scan.style.color
                        &&& next.style.obfuscated == (scan.style.obfuscated || code == 'k')
                        &&& next.style.bold == (scan.style.bold || code == 'l')
                        &&& next.style.strikethrough == (scan.style.strikethrough || code == 'm')
                        &&& next.style.underlined == (scan.style.underlined || code == 'n')
                        &&& next.style.italic == (scan.style.italic || code == 'o')
                    }
                    &&& code == 'r' ==> {
                        &&& next.style.color is None
                        &&& !next.style.bold && !next.style.italic && !next.style.underlined
                        &&& !next.style.strikethrough && !next.style.obfuscated
                        &&& next.text.len() == 0 || (next.text == scan.text && scan.style
                            == next.style)
                    }
                },
                Mark::Gradient(tag) => {
                    &&& next.text.len() == 0
                    &&& next.style == scan.style
                    &&& tag.stops.len() == 1 || tag.text.len() <= 2 ==> next.shades == scan.shades
                    &&& tag.stops.len() != 1 && tag.text.len() > 2 ==> next.shades
                        == scan.shades.skip(tag.text.len() - 2)
                },
            }
        }),
{
    assert(scan.shades.skip(0) =~= scan.shades);
}

/// Whatever style is active when a run ends, the run is in it: a code or a tag
/// that ends a run emits the gathered text in the style before it, and a reset
/// emits nothing only if there is nothing to reset.
pub proof fn law_ended_runs_keep_their_style(mark: Mark, scan: Scan)
    requires
        scan.text.len() > 0,
        !(mark is Literal),
        mark == Mark::Format('r') ==> scan.style.color is Some || scan.style.bold
            || scan.style.italic || scan.style.underlined || scan.style.strikethrough
            || scan.style.obfuscated,
    ensures
        emitted(mark, scan).len() > 0,
        emitted(mark, scan)[0].text == scan.text,
        emitted(mark, scan)[0].style == scan.style,
        !(mark is Gradient) ==> emitted(mark, scan).len() == 1,
{
}

/// A tag makes one run per character: each holds that character, in the
/// formatting at the tag, and in the only stop, the first stop, the last stop or
/// the next blended colour.
pub proof fn law_gradient_runs_are_its_characters(
    tag: TagView,
    style: StyleView,
    shades: Seq<Rgb>,
    i: int,
)
    requires
        0 <= i < tag.text.len(),
    ensures
        gradient_runs(tag, style, shades).len() == tag.text.len(),
        ({
            let run = gradient_runs(tag, style, shades)[i];
            let color = if tag.stops.len() == 1 || i == 0 {
                tag.stops[0]
            } else if i + 1 == tag.text.len() {
                tag.stops[tag.stops.len() - 1]
            } else {
                shades[i - 1]
            };
            &&& run.text.len() == 1 && run.text[0] == tag.text[i]
            &&& run.style.color == Some(rgb_text(color))
            &&& run.style.bold == style.bold && run.style.italic == style.italic
            &&& run.style.underlined == style.underlined
            &&& run.style.strikethrough == style.strikethrough
            &&& run.style.obfuscated == style.obfuscated
        }),
{
}

/// A colour is written as seven characters from which it can be read again, in
/// lower case.
pub proof fn law_color_text_reads_back(rgb: Rgb, i: int)
    ensures
        rgb_text(rgb).len() == 7,
        rgb_text(rgb)[0] == '#',
        crate::gradient::header_stops(rgb_text(rgb)) == Some(seq![rgb]),
        0 <= i < 7 ==> !('A' <= rgb_text(rgb)[i] <= 'F'),
{
    let text = rgb_text(rgb);
    let digits = text.subrange(1, 7);
    assert(rgb.0 == 16 * (rgb.0 / 16) + rgb.0 % 16);
    assert(rgb.1 == 16 * (rgb.1 / 16) + rgb.1 % 16);
    assert(rgb.2 == 16 * (rgb.2 / 16) + rgb.2 % 16);
    crate::gradient::law_digits_spell_a_color(digits, rgb);
    crate::gradient::law_stops_are_read_in_order(digits, Seq::empty(), rgb);
    assert(seq!['#'] + digits =~= text);
}

/// Text in front of a mark is gathered into the run that the mark ends, and the
/// rest is read from behind the mark in the style that the mark leaves.
pub proof fn law_text_before_a_mark_is_gathered(chars: Seq<char>, scan: Scan, n: int)
    requires
        0 <= n < chars.len(),
        forall|i: int| 0 <= i < n ==> mark_at(#[trigger] chars.skip(i)) is Literal,
    ensures
        ({
            let mark = mark_at(chars.skip(n));
            let gathered = Scan { text: scan.text + chars.take(n), ..scan };
            let rest = chars.skip(n + mark_size(mark));
            &&& runs_from(chars, scan) == emitted(mark, gathered) + runs_from(
                rest,
                advanced(mark, chars[n], gathered),
            )
            &&& blends_from(chars) == (match mark {
                Mark::Gradient(tag) => tag_blends(tag),
                _ => Seq::empty(),
            }) + blends_from(rest)
        }),
    decreases n,
{
    assert(chars.skip(0) =~= chars);
    let mark = mark_at(chars.skip(n));
    lemma_mark_size(chars.skip(n));
    if n == 0 {
        assert(scan.text + chars.take(0) =~= scan.text);
        assert(Seq::<BlendView>::empty() + blends_from(chars.skip(mark_size(mark) as int))
            =~= blends_from(chars.skip(mark_size(mark) as int)));
    } else {
        assert(mark_at(chars.skip(0)) is Literal);
        let rest = chars.skip(1);
        assert forall|i: int| 0 <= i < n - 1 implies mark_at(#[trigger] rest.skip(i)) is Literal by {
            assert(rest.skip(i) =~= chars.skip(i + 1));
        }
        let next = advanced(Mark::Literal, chars[0], scan);
        assert(rest.skip(n - 1) =~= chars.skip(n));
        law_text_before_a_mark_is_gathered(rest, next, n - 1);
        assert(rest.skip(n - 1 + mark_size(mark)) =~= chars.skip(n + mark_size(mark)));
        assert(next.text + rest.take(n - 1) =~= scan.text + chars.take(n));
        assert(emitted(Mark::Literal, scan) + runs_from(rest, next) =~= runs_from(rest, next));
    }
}

/// Text alone is one run, if there is any; it is all visible and asks for no
/// colours.
pub proof fn law_text_alone_is_visible(chars: Seq<char>, shades: Seq<Rgb>)
    requires
        forall|i: int| 0 <= i < chars.len() ==> mark_at(#[trigger] chars.skip(i)) is Literal,
    ensures
        chars.len() > 0 ==> runs_of(chars, shades).len() == 1 && runs_of(chars, shades)[0].text
            == chars,
        chars.len() > 0 ==> ({
            let style = runs_of(chars, shades)[0].style;
            &&& style.color is None
            &&& !style.bold && !style.italic && !style.underlined
            &&& !style.strikethrough && !style.obfuscated
        }),
        chars.len() == 0 ==> runs_of(chars, shades).len() == 0,
        visible_text(chars) == chars,
        blends_from(chars).len() == 0,
    decreases chars.len(),
{
    let scan = Scan { text: Seq::empty(), style: crate::style::plain_style(), shades };
    law_plain_motd_is_one_run(chars, scan);
    assert(scan.text + chars =~= chars);
    if chars.len() > 0 {
        assert(chars.skip(0) =~= chars);
        assert(mark_at(chars.skip(0)) is Literal);
        let rest = chars.skip(1);
        assert forall|i: int| 0 <= i < rest.len() implies mark_at(
            #[trigger] rest.skip(i),
        ) is Literal by {
            assert(rest.skip(i) =~= chars.skip(i + 1));
        }
        law_text_alone_is_visible(rest, shades);
        assert(seq![chars[0]] + rest =~= chars);
    }
}

/// A MOTD is read from its first character, unescaped, with nothing gathered and
/// no style.
pub proof fn law_motd_starts_plain(text: Seq<char>, shades: Seq<Rgb>)
    ensures
        legacy_runs(text, shades) == runs_from(
            crate::text::with_line_breaks(text),
            Scan {
                text: Seq::empty(),
                style: StyleView {
                    color: None,
                    bold: false,
                    italic: false,
                    underlined: false,
                    strikethrough: false,
                    obfuscated: false,
                },
                shades,
            },
        ),
{
}

/// The blended characters of a tag are all but its first and its last, in order.
pub proof fn law_inner_characters_are_blended(tag: TagView, k: int)
    ensures
        tag.stops.len() == 1 || tag.text.len() <= 2 ==> tag_blends(tag).len() == 0,
        tag.stops.len() != 1 && tag.text.len() > 2 ==> tag_blends(tag).len() == tag.text.len() - 2,
        0 <= k < tag_blends(tag).len() ==> {
            &&& tag_blends(tag)[k].stops == tag.stops
            &&& tag_blends(tag)[k].index == k + 1
            &&& tag_blends(tag)[k].last == tag.text.len() - 1
        },
{
}

/// The points that are listed are the blended characters.
pub proof fn law_points_are_the_blended_characters(
    motd: &str,
    points: Vec<GradientPoint>,
    k: int,
)
    requires
        call_ensures(gradient_points, (motd,), points),
    ensures
        ({
            let blends = blends_from(crate::text::with_line_breaks(motd@));
            &&& points@.len() == blends.len()
            &&& 0 <= k < points@.len() ==> points@[k].stops@ == blends[k].stops && points@[k].index
                == blends[k].index && points@[k].last == blends[k].last
        }),
{
    let blends = blends_from(crate::text::with_line_breaks(motd@));
    assert(points_view(points@).len() == points@.len());
    if 0 <= k < points@.len() {
        assert(points_view(points@)[k] == blends[k]);
    }
}

/// The names of a run's members differ.
proof fn lemma_member_names()
    ensures
        "text"@ != "color"@ && "text"@ != "bold"@ && "text"@ != "italic"@ && "text"@
            != "underlined"@ && "text"@ != "strikethrough"@ && "text"@ != "obfuscated"@,
        "color"@ != "bold"@ && "color"@ != "italic"@ && "color"@ != "underlined"@ && "color"@
            != "strikethrough"@ && "color"@ != "obfuscated"@,
        "bold"@ != "italic"@ && "bold"@ != "underlined"@ && "bold"@ != "strikethrough"@ && "bold"@
            != "obfuscated"@,
        "italic"@ != "underlined"@ && "italic"@ != "strikethrough"@ && "italic"@ != "obfuscated"@,
        "underlined"@ != "strikethrough"@ && "underlined"@ != "obfuscated"@,
        "strikethrough"@ != "obfuscated"@,
        "text"@ != "extra"@,
{
    reveal_strlit("text");
    reveal_strlit("extra");
    reveal_strlit("color");
    reveal_strlit("bold");
    reveal_strlit("italic");
    reveal_strlit("underlined");
    reveal_strlit("strikethrough");
    reveal_strlit("obfuscated");
    assert("text"@.len() == 4 && "bold"@.len() == 4 && "text"@[0] != "bold"@[0]);
    assert("extra"@.len() == 5 && "color"@.len() == 5 && "italic"@.len() == 6);
    assert("underlined"@.len() == 10 && "obfuscated"@.len() == 10 && "underlined"@[0]
        != "obfuscated"@[0]);
    assert("strikethrough"@.len() == 13);
}

/// A run's component says its text, its colour if it has one, and each flag that
/// is set, and nothing else.
pub proof fn law_run_component_says_its_style(run: RunView, name: Seq<char>)
    ensures
        ({
            let component = JsonTree::Object(run_members(run));
            let flag = |on: bool|
                if on {
                    Some(JsonTree::Bool(true))
                } else {
                    None
                };
            &&& crate::json::member(component, "text"@) == Some(JsonTree::Text(run.text))
            &&& crate::json::member(component, "color"@) == (match run.style.color {
                Some(color) => Some(JsonTree::Text(color)),
                None => None,
            })
            &&& crate::json::member(component, "bold"@) == flag(run.style.bold)
            &&& crate::json::member(component, "italic"@) == flag(run.style.italic)
            &&& crate::json::member(component, "underlined"@) == flag(run.style.underlined)
            &&& crate::json::member(component, "strikethrough"@) == flag(run.style.strikethrough)
            &&& crate::json::member(component, "obfuscated"@) == flag(run.style.obfuscated)
            &&& name != "text"@ && name != "color"@ && name != "bold"@ && name != "italic"@ && name
                != "underlined"@ && name != "strikethrough"@ && name != "obfuscated"@
                ==> crate::json::member(component, name) is None
        }),
{
    lemma_member_names();
}

/// Flushing appends one component that says the text and the style, and takes
/// the text; without text it appends nothing.
pub proof fn law_flush_appends_the_styled_text(
    runs: &mut Vec<Json>,
    buf: &mut String,
    style: &Style,
)
    requires
        call_ensures(flush_run, (runs, buf, style), ()),
    ensures
        final(buf)@.len() == 0,
        old(buf)@.len() == 0 ==> items_tree(final(runs)@) == items_tree(old(runs)@),
        old(buf)@.len() > 0 ==> ({
            let before = items_tree(old(runs)@);
            let after = items_tree(final(runs)@);
            let component = after.last();
            let flag = |on: bool|
                if on {
                    Some(JsonTree::Bool(true))
                } else {
                    None
                };
            &&& after == before.push(component)
            &&& crate::json::member(component, "text"@) == Some(JsonTree::Text(old(buf)@))
            &&& crate::json::member(component, "color"@) == (match style.color {
                Some(color) => Some(JsonTree::Text(color@)),
                None => None,
            })
            &&& crate::json::member(component, "bold"@) == flag(style.bold)
            &&& crate::json::member(component, "italic"@) == flag(style.italic)
            &&& crate::json::member(component, "underlined"@) == flag(style.underlined)
            &&& crate::json::member(component, "strikethrough"@) == flag(style.strikethrough)
            &&& crate::json::member(component, "obfuscated"@) == flag(style.obfuscated)
        }),
{
    let run = RunView { text: old(buf)@, style: style@ };
    law_run_component_says_its_style(run, "text"@);
    if old(buf)@.len() == 0 {
        assert(items_tree(final(runs)@) =~= items_tree(old(runs)@));
    } else {
        let before = items_tree(old(runs)@);
        let after = items_tree(final(runs)@);
        assert(after.last() == JsonTree::Object(run_members(run)));
        assert(after =~= before.push(after.last()));
    }
}

/// The component of a MOTD that is not JSON has an empty text of its own, one
/// part per run in the order of the runs, and nothing else.
pub proof fn law_component_holds_the_runs(
    text: Seq<char>,
    shades: Seq<Rgb>,
    i: int,
    name: Seq<char>,
)
    ensures
        ({
            let component = legacy_tree(text, shades);
            let runs = legacy_runs(text, shades);
            &&& crate::json::member(component, "text"@) == Some(JsonTree::Text(Seq::empty()))
            &&& crate::json::member(component, "extra"@) matches Some(JsonTree::Array(parts)) && {
                &&& parts.len() == runs.len()
                &&& 0 <= i < runs.len() ==> parts[i] == JsonTree::Object(run_members(runs[i]))
            }
            &&& name != "text"@ && name != "extra"@ ==> crate::json::member(component, name) is None
        }),
{
    lemma_member_names();
}

/// What a MOTD has to start with to be taken for JSON: a bracket or a brace, with
/// nothing but white space in front.
pub proof fn law_json_opens_with_a_bracket(text: Seq<char>)
    ensures
        text.len() == 0 ==> !opens_json(text),
        text.len() > 0 && crate::text::white_space(text[0]) ==> opens_json(text) == opens_json(
            text.skip(1),
        ),
        text.len() > 0 && !crate::text::white_space(text[0]) ==> (opens_json(text) <==> text[0]
            == '{' || text[0] == '['),
{
}

/// A MOTD that does not open as JSON, or is none, is parsed for codes.
pub proof fn law_other_motds_are_parsed_for_codes(
    text: Seq<char>,
    shades: Seq<Rgb>,
    parsed: Option<JsonTree>,
)
    ensures
        !opens_json(text) || parsed is None ==> component_tree(text, shades, parsed) == legacy_tree(
            text,
            shades,
        ),
        opens_json(text) && parsed is Some ==> component_tree(text, shades, parsed) == parsed->0,
        motd_tree(text, shades) == component_tree(
            text,
            shades,
            crate::json_text::json_parse(text),
        ),
{
}

/// The text of a component is its own text and then that of its parts; a string
/// is its own text, and what is neither has none.
pub proof fn law_component_text_is_gathered(tree: JsonTree, a: Seq<JsonTree>, b: Seq<JsonTree>)
    ensures
        tree matches JsonTree::Text(text) ==> component_text(tree) == text,
        tree is Null || tree is Bool || tree is Integer || tree is Real ==> component_text(
            tree,
        ).len() == 0,
        tree matches JsonTree::Array(parts) ==> component_text(tree) == parts_text(parts),
        tree is Object ==> component_text(tree) == (match crate::json::member(tree, "text"@) {
            Some(JsonTree::Text(own)) => own,
            _ => Seq::empty(),
        }) + (match crate::json::member(tree, "extra"@) {
            Some(JsonTree::Array(parts)) => parts_text(parts),
            _ => Seq::empty(),
        }),
        parts_text(a + b) == parts_text(a) + parts_text(b),
        parts_text(seq![tree]) == component_text(tree),
    decreases b.len(),
{
    assert(seq![tree].drop_last() =~= Seq::<JsonTree>::empty());
    assert(parts_text(seq![tree].drop_last()) == Seq::<char>::empty());
    assert(parts_text(seq![tree]) =~= component_text(tree));
    if b.len() == 0 {
        assert(a + b =~= a);
        assert(parts_text(a) + parts_text(b) =~= parts_text(a));
    } else {
        law_component_text_is_gathered(tree, a, b.drop_last());
        assert((a + b).drop_last() =~= a + b.drop_last());
        assert(parts_text(a) + (parts_text(b.drop_last()) + component_text(b.last()))
            =~= parts_text(a) + parts_text(b.drop_last()) + component_text(b.last()));
    }
}

/// A legacy field shows every character but null characters and line breaks,
/// which are spaces in it.
pub proof fn law_field_text_keeps_the_rest(text: Seq<char>, i: int)
    requires
        0 <= i < text.len(),
    ensures
        text[i] == '\0' || text[i] == '\n' ==> field_text(text)[i] == ' ',
        text[i] != '\0' && text[i] != '\n' ==> field_text(text)[i] == text[i],
{
}

/// A MOTD is made exactly if every blended character has its colour, and it
/// holds the text and the colours as they were given.
pub proof fn law_motd_takes_its_colors(text: String, shades: Vec<Rgb>, motd: Option<Motd>)
    requires
        call_ensures(Motd::new, (text, shades), motd),
    ensures
        motd is Some <==> shades@.len() == blends_from(
            crate::text::with_line_breaks(text@),
        ).len(),
        motd matches Some(made) ==> made.text() == text@ && made.shades() == shades@,
{
}

/// What is made of a MOTD depends on its text and its colours alone: two MOTDs
/// with the same text and colours give the same component, the same codes and
/// the same plain text, and that is the text of the component.
pub proof fn law_equal_motds_look_equal(
    a: &Motd,
    b: &Motd,
    component: Json,
    other: Json,
    parsed: Json,
    text: String,
    flat: String,
)
    requires
        a.text() == b.text(),
        a.shades() == b.shades(),
        call_ensures(motd_component, (a,), component),
        call_ensures(motd_component, (b,), other),
        call_ensures(parse_legacy_motd, (b,), parsed),
        call_ensures(plain_motd_text, (a,), text),
        call_ensures(plain_component_text, (&other,), flat),
    ensures
        component@ == other@,
        !opens_json(a.text()) ==> parsed@ == component@,
        text@ == flat@,
        flat@ == field_text(component_text(other@)),
{
}

/// A MOTD without JSON becomes an empty text with its runs as parts, and JSON
/// that it spells is taken in their place.
pub proof fn law_components_are_runs_or_json(motd: &Motd, component: Json, parsed: Json)
    requires
        call_ensures(motd_component, (motd,), component),
        call_ensures(parse_legacy_motd, (motd,), parsed),
    ensures
        parsed@ == legacy_tree(motd.text(), motd.shades()),
        opens_json(motd.text()) ==> (crate::json_text::json_parse(motd.text()) matches Some(tree)
            ==> component@ == tree),
        !opens_json(motd.text()) || crate::json_text::json_parse(motd.text()) is None
            ==> component@ == parsed@,
{
}

} // verus!
