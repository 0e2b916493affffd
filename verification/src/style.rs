//! Text styles and the codes that set them.
use crate::text::hex_value;
use vstd::prelude::*;

verus! {

/// A colour as red, green and blue.
pub type Rgb = (u8, u8, u8);

/// The colour and the formatting of a run of text.
#[derive(Debug, PartialEq)]
pub struct Style {
    pub color: Option<String>,
    pub bold: bool,
    pub italic: bool,
    pub underlined: bool,
    pub strikethrough: bool,
    pub obfuscated: bool,
}

/// The mathematical content of a [`Style`].
#[verifier::ext_equal]
pub struct StyleView {
    pub color: Option<Seq<char>>,
    pub bold: bool,
    pub italic: bool,
    pub underlined: bool,
    pub strikethrough: bool,
    pub obfuscated: bool,
}

impl View for Style {
    type V = StyleView;

    open spec fn view(&self) -> StyleView {
        StyleView {
            color: match self.color {
                Some(color) => Some(color@),
                None => None,
            },
            bold: self.bold,
            italic: self.italic,
            underlined: self.underlined,
            strikethrough: self.strikethrough,
            obfuscated: self.obfuscated,
        }
    }
}

/// No colour and no formatting.
pub open spec fn plain_style() -> StyleView {
    StyleView {
        color: None,
        bold: false,
        italic: false,
        underlined: false,
        strikethrough: false,
        obfuscated: false,
    }
}

/// A colour and no formatting.
pub open spec fn colored(color: Seq<char>) -> StyleView {
    StyleView { color: Some(color), ..plain_style() }
}

/// The style that a format or reset code leaves, if `code` is one.
pub open spec fn formatted(style: StyleView, code: char) -> Option<StyleView> {
    if code == 'k' {
        Some(StyleView { obfuscated: true, ..style })
    } else if code == 'l' {
        Some(StyleView { bold: true, ..style })
    } else if code == 'm' {
        Some(StyleView { strikethrough: true, ..style })
    } else if code == 'n' {
        Some(StyleView { underlined: true, ..style })
    } else if code == 'o' {
        Some(StyleView { italic: true, ..style })
    } else if code == 'r' {
        Some(plain_style())
    } else {
        None
    }
}

/// Whether `code` resets a style that has nothing to reset.
pub open spec fn idle_reset(style: StyleView, code: char) -> bool {
    code == 'r' && style == plain_style()
}

impl Default for Style {
    /// No colour and no formatting.
    fn default() -> (style: Style)
        ensures
            style@ == plain_style(),
    {
        Style {
            color: None,
            bold: false,
            italic: false,
            underlined: false,
            strikethrough: false,
            obfuscated: false,
        }
    }
}

impl Style {
    /// Sets a colour. Active formatting is reset, as vanilla colour codes do.
    pub fn set_color(&mut self, color: String)
        ensures
            final(self)@ == colored(color@),
    {
        *self = Style {
            color: Some(color),
            bold: false,
            italic: false,
            underlined: false,
            strikethrough: false,
            obfuscated: false,
        };
    }

    /// Whether there is neither a colour nor formatting.
    pub fn is_plain(&self) -> (plain: bool)
        ensures
            plain == (self@ == plain_style()),
    {
        self.color.is_none() && !self.bold && !self.italic && !self.underlined
            && !self.strikethrough && !self.obfuscated
    }

    /// Applies a format or reset code. Returns `Some(true)` if it took effect,
    /// `Some(false)` if it was a reset with nothing to reset, and `None` if
    /// `code` is no format code.
    pub fn apply_format(&mut self, code: char) -> (applied: Option<bool>)
        ensures
            match formatted(old(self)@, code) {
                Some(next) => final(self)@ == next && applied == Some(
                    !idle_reset(old(self)@, code),
                ),
                None => final(self)@ == old(self)@ && applied is None,
            },
    {
        match code {
            'k' => self.obfuscated = true,
            'l' => self.bold = true,
            'm' => self.strikethrough = true,
            'n' => self.underlined = true,
            'o' => self.italic = true,
            'r' => {
                if self.is_plain() {
                    return Some(false);
                }
                *self = Style::default();
            },
            _ => return None,
        }
        Some(true)
    }
}

/// The colour name that a legacy code stands for.
pub open spec fn named_color(code: char) -> Option<Seq<char>> {
    match code {
        '0' => Some("black"@),
        '1' => Some("dark_blue"@),
        '2' => Some("dark_green"@),
        '3' => Some("dark_aqua"@),
        '4' => Some("dark_red"@),
        '5' => Some("dark_purple"@),
        '6' => Some("gold"@),
        '7' => Some("gray"@),
        '8' => Some("dark_gray"@),
        '9' => Some("blue"@),
        'a' => Some("green"@),
        'b' => Some("aqua"@),
        'c' => Some("red"@),
        'd' => Some("light_purple"@),
        'e' => Some("yellow"@),
        'f' => Some("white"@),
        _ => None,
    }
}

/// Maps a legacy colour code (`0`-`f`) to its Minecraft colour name.
pub fn color_name(code: char) -> (name: Option<&'static str>)
    ensures
        match name {
            Some(text) => named_color(code) == Some(text@),
            None => named_color(code) is None,
        },
{
    Some(
        match code {
            '0' => "black",
            '1' => "dark_blue",
            '2' => "dark_green",
            '3' => "dark_aqua",
            '4' => "dark_red",
            '5' => "dark_purple",
            '6' => "gold",
            '7' => "gray",
            '8' => "dark_gray",
            '9' => "blue",
            'a' => "green",
            'b' => "aqua",
            'c' => "red",
            'd' => "light_purple",
            'e' => "yellow",
            'f' => "white",
            _ => return None,
        },
    )
}

/// Whether `c` introduces a code.
pub open spec fn code_sign(c: char) -> bool {
    c == '&' || c == '\u{A7}'
}

/// Whether every character is a hexadecimal digit.
pub open spec fn all_hex(chars: Seq<char>) -> bool {
    forall|i: int| 0 <= i < chars.len() ==> crate::text::hex_digit(#[trigger] chars[i]) is Some
}

/// The six digits of a Bungee colour `&x&R&R&G&G&B&B` at the start of `chars`.
/// What stands in the place of `&x` is not looked at.
pub open spec fn bungee_digits(chars: Seq<char>) -> Option<Seq<char>> {
    let digits = Seq::new(6, |k: int| chars[3 + 2 * k]);
    if chars.len() >= 14 && all_hex(digits) && forall|k: int|
        0 <= k < 6 ==> code_sign(#[trigger] chars[2 + 2 * k]) {
        Some(digits)
    } else {
        None
    }
}

/// Reads six `&<hex>` pairs after a `&x` at `start`, returning the digits and
/// the index past them.
pub fn read_bungee_hex(chars: &[char], start: usize) -> (read: Option<(String, usize)>)
    ensures
        match read {
            Some((hex, end)) => start <= chars@.len() && end == start + 14 && bungee_digits(
                chars@.skip(start as int),
            ) == Some(hex@),
            None => start <= chars@.len() ==> bungee_digits(chars@.skip(start as int)) is None,
        },
{
    if chars.len() < 14 || start > chars.len() - 14 {
        return None;
    }
    let ghost tag = chars@.skip(start as int);
    let ghost digits = Seq::new(6, |k: int| tag[3 + 2 * k]);
    let mut hex = String::new();
    let mut j: usize = start + 2;
    let mut k: usize = 0;
    while k < 6
        invariant
            k <= 6,
            j == start + 2 + 2 * k,
            start + 14 <= chars.len(),
            tag == chars@.skip(start as int),
            digits == Seq::new(6, |k: int| tag[3 + 2 * k]),
            hex@ == digits.take(k as int),
            all_hex(digits.take(k as int)),
            forall|i: int| 0 <= i < k ==> code_sign(#[trigger] tag[2 + 2 * i]),
        decreases 6 - k,
    {
        assert(tag[2 + 2 * k] == chars@[j as int]);
        assert(digits[k as int] == chars@[j + 1]);
        if !(chars[j] == '&' || chars[j] == '\u{A7}') {
            return None;
        }
        if hex_value(chars[j + 1]).is_none() {
            return None;
        }
        hex.push(chars[j + 1]);
        assert(digits.take(k + 1) =~= digits.take(k as int).push(digits[k as int]));
        j += 2;
        k += 1;
    }
    assert(digits.take(6) =~= digits);
    Some((hex, j))
}

/// A format code sets its own flag and leaves the colour and all other flags as
/// they are.
pub proof fn law_format_sets_one_flag(style: StyleView, code: char)
    requires
        code == 'k' || code == 'l' || code == 'm' || code == 'n' || code == 'o',
    ensures
        formatted(style, code) matches Some(next) && {
            &&& next.color == style.color
            &&& next.obfuscated == (style.obfuscated || code == 'k')
            &&& next.bold == (style.bold || code == 'l')
            &&& next.strikethrough == (style.strikethrough || code == 'm')
            &&& next.underlined == (style.underlined || code == 'n')
            &&& next.italic == (style.italic || code == 'o')
        },
{
}

/// A reset leaves neither a colour nor formatting, and no other code than these
/// is a format code.
pub proof fn law_reset_clears_everything(style: StyleView, code: char)
    ensures
        formatted(style, 'r') matches Some(next) && {
            &&& next.color is None
            &&& !next.bold && !next.italic && !next.underlined
            &&& !next.strikethrough && !next.obfuscated
        },
        formatted(style, code) is Some <==> (code == 'k' || code == 'l' || code == 'm' || code
            == 'n' || code == 'o' || code == 'r'),
{
}

/// Applying a format code to a style sets its flag in that style and nothing
/// else, and takes effect.
pub proof fn law_apply_format_keeps_the_rest(style: &mut Style, code: char, applied: Option<bool>)
    requires
        call_ensures(Style::apply_format, (style, code), applied),
    ensures
        code == 'k' || code == 'l' || code == 'm' || code == 'n' || code == 'o' ==> {
            &&& applied == Some(true)
            &&& final(style)@.color == old(style)@.color
            &&& final(style).obfuscated == (old(style).obfuscated || code == 'k')
            &&& final(style).bold == (old(style).bold || code == 'l')
            &&& final(style).strikethrough == (old(style).strikethrough || code == 'm')
            &&& final(style).underlined == (old(style).underlined || code == 'n')
            &&& final(style).italic == (old(style).italic || code == 'o')
        },
        code == 'r' ==> {
            &&& final(style).color is None
            &&& !final(style).bold && !final(style).italic && !final(style).underlined
            &&& !final(style).strikethrough && !final(style).obfuscated
            &&& applied == Some(
                old(style).color is Some || old(style).bold || old(style).italic || old(
                    style,
                ).underlined || old(style).strikethrough || old(style).obfuscated,
            )
        },
        code != 'k' && code != 'l' && code != 'm' && code != 'n' && code != 'o' && code != 'r' ==> {
            &&& applied is None
            &&& final(style)@ == old(style)@
        },
{
}

/// Setting a colour leaves that colour and no formatting, whatever was set
/// before.
pub proof fn law_set_color_leaves_only_the_color(style: &mut Style, color: String)
    requires
        call_ensures(Style::set_color, (style, color), ()),
    ensures
        final(style).color matches Some(now) && now@ == color@,
        !final(style).bold && !final(style).italic && !final(style).underlined,
        !final(style).strikethrough && !final(style).obfuscated,
{
}

/// A colour name belongs to each of the sixteen codes, and to no other
/// character.
pub proof fn law_sixteen_colors(code: char)
    ensures
        named_color(code) is Some <==> ('0' <= code <= '9' || 'a' <= code <= 'f'),
{
}

/// A Bungee colour is found exactly where six pairs of a sign and a hexadecimal
/// digit stand after the first two characters.
pub proof fn law_bungee_color_is_found(chars: Seq<char>, digits: Seq<char>)
    ensures
        bungee_digits(chars) == Some(digits) <==> {
            &&& chars.len() >= 14
            &&& digits.len() == 6
            &&& forall|k: int|
                0 <= k < 6 ==> (chars[2 + 2 * k] == '&' || chars[2 + 2 * k] == '\u{A7}')
                    && #[trigger] digits[k] == chars[3 + 2 * k] && crate::text::hex_digit(
                    digits[k],
                ) is Some
        },
{
    let found = Seq::new(6, |k: int| chars[3 + 2 * k]);
    if bungee_digits(chars) == Some(digits) {
        assert(digits =~= found);
        assert forall|k: int| 0 <= k < 6 implies (chars[2 + 2 * k] == '&' || chars[2 + 2 * k]
            == '\u{A7}') && #[trigger] digits[k] == chars[3 + 2 * k] && crate::text::hex_digit(
            digits[k],
        ) is Some by {
            assert(code_sign(chars[2 + 2 * k]));
            assert(crate::text::hex_digit(found[k]) is Some);
        }
    }
    if chars.len() >= 14 && digits.len() == 6 && forall|k: int|
        0 <= k < 6 ==> (chars[2 + 2 * k] == '&' || chars[2 + 2 * k] == '\u{A7}')
            && #[trigger] digits[k] == chars[3 + 2 * k] && crate::text::hex_digit(
            digits[k],
        ) is Some {
        assert(digits =~= found);
        assert forall|k: int| 0 <= k < found.len() implies crate::text::hex_digit(
            #[trigger] found[k],
        ) is Some by {
            assert(digits[k] == found[k]);
        }
        assert forall|k: int| 0 <= k < 6 implies code_sign(#[trigger] chars[2 + 2 * k]) by {
            assert(digits[k] == chars[3 + 2 * k]);
        }
    }
}

} // verus!
