//! The colours of the terminal, and tints made of them.

use vstd::prelude::*;

use crate::style::Color;
use crate::text::{
    begins_with, byte_len, chars_of, concat_text, decimal, decimal_text, lemma_byte_len_bounds,
    split_on, split_text_on, text_after_prefix, text_len, texts, trim_end_of, trim_end_of_two,
};

verus! {

/// How much of an accent colour a tint holds, in percent.
pub const TINT_PERCENT: u16 = 20;

/// How long a terminal has to answer, in milliseconds.
pub const QUERY_TIMEOUT_MS: u64 = 100;

/// A colour by its parts.
#[derive(Debug, Clone, Copy, PartialEq, Eq, Structural)]
pub struct Rgb {
    pub r: u8,
    pub g: u8,
    pub b: u8,
}

/// What the terminal told of its colours.
#[derive(Debug, Clone)]
pub struct TerminalPalette {
    pub background: Option<Rgb>,
    pub ansi: [Option<Rgb>; 16],
}

/// The value of a hexadecimal digit.
pub open spec fn hex_digit(c: char) -> Option<nat> {
    if '0' <= c && c <= '9' {
        Some((c as u32 - '0' as u32) as nat)
    } else if 'a' <= c && c <= 'f' {
        Some((c as u32 - 'a' as u32 + 10) as nat)
    } else if 'A' <= c && c <= 'F' {
        Some((c as u32 - 'A' as u32 + 10) as nat)
    } else {
        None
    }
}

/// The value of a run of hexadecimal digits; nothing where it is empty or holds
/// another character.
pub open spec fn hex_digits(s: Seq<char>) -> Option<nat>
    decreases s.len(),
{
    if s.len() == 0 {
        None
    } else {
        match hex_digit(s.last()) {
            Some(low) => if s.len() == 1 {
                Some(low)
            } else {
                match hex_digits(s.drop_last()) {
                    Some(high) => Some(high * 16 + low),
                    None => None,
                }
            },
            None => None,
        }
    }
}

/// The number that a text spells in hexadecimal, with an optional plus sign.
pub open spec fn hex_value(s: Seq<char>) -> Option<nat> {
    if s.len() > 0 && s[0] == '+' {
        hex_digits(s.drop_first())
    } else {
        hex_digits(s)
    }
}

/// The largest value of a number of hexadecimal digits.
pub open spec fn hex_maximum(digits: nat) -> nat {
    if digits == 1 {
        15
    } else if digits == 2 {
        255
    } else if digits == 3 {
        4095
    } else {
        65535
    }
}

/// A colour channel of one to four hexadecimal digits, scaled to eight bits and
/// rounded.
pub open spec fn channel_value(channel: Seq<char>) -> Option<nat> {
    if byte_len(channel) == 0 || byte_len(channel) > 4 {
        None
    } else {
        match hex_value(channel) {
            Some(value) => {
                let maximum = hex_maximum(byte_len(channel));
                Some((value * 255 + maximum / 2) / maximum)
            },
            None => None,
        }
    }
}

/// The value of a hexadecimal digit.
fn hex_digit_value(c: char) -> (value: Option<u32>)
    ensures
        match value {
            Some(value) => hex_digit(c) == Some(value as nat) && value < 16,
            None => hex_digit(c) is None,
        },
{
    if '0' <= c && c <= '9' {
        Some(c as u32 - '0' as u32)
    } else if 'a' <= c && c <= 'f' {
        Some(c as u32 - 'a' as u32 + 10)
    } else if 'A' <= c && c <= 'F' {
        Some(c as u32 - 'A' as u32 + 10)
    } else {
        None
    }
}

/// A colour channel of one to four hexadecimal digits, scaled to eight bits.
pub fn parse_xterm_channel(channel: &str) -> (value: Option<u8>)
    ensures
        match value {
            Some(value) => channel_value(channel@) == Some(value as nat),
            None => channel_value(channel@) is None,
        },
{
    let length: usize = text_len(channel);
    if length == 0 || length > 4 {
        return None;
    }
    let chars = chars_of(channel);
    proof {
        lemma_byte_len_bounds(channel@);
    }
    let start: usize = if chars.len() > 0 && chars[0] == '+' {
        1
    } else {
        0
    };
    let ghost digits = channel@.skip(start as int);
    assert(start == 0 ==> digits =~= channel@);
    assert(start == 1 ==> digits =~= channel@.drop_first());
    if start == chars.len() {
        return None;
    }
    let mut value: u32 = 0;
    let mut i: usize = start;
    while i < chars.len()
        invariant
            start <= i <= chars.len() <= 4,
            start < chars.len(),
            chars@ == channel@,
            digits == channel@.skip(start as int),
            hex_value(channel@) == hex_digits(digits),
            byte_len(channel@) == length,
            0 < length <= 4,
            i == start ==> value == 0,
            i > start ==> hex_digits(digits.take(i - start)) == Some(value as nat),
            i - start == 0 ==> value < 1,
            i - start == 1 ==> value < 16,
            i - start == 2 ==> value < 256,
            i - start == 3 ==> value < 4096,
            i - start == 4 ==> value < 65536,
        decreases chars.len() - i,
    {
        let ghost next = digits.take(i + 1 - start);
        assert(next.last() == chars@[i as int]);
        assert(next.drop_last() =~= digits.take(i - start));
        proof {
            lemma_hex_prefix(digits, i + 1 - start);
        }
        match hex_digit_value(chars[i]) {
            Some(digit) => {
                value = value * 16 + digit;
            },
            None => {
                return None;
            },
        }
        i += 1;
    }
    assert(digits.take(chars.len() - start) =~= digits);
    let maximum: u32 = if length == 1 {
        15
    } else if length == 2 {
        255
    } else if length == 3 {
        4095
    } else {
        65535
    };
    assert(value <= maximum) by {
        lemma_byte_len_bounds(channel@);
    }
    let scaled: u32 = (value * 255 + maximum / 2) / maximum;
    assert(scaled <= 255) by (nonlinear_arith)
        requires
            value <= maximum,
            scaled == (value * 255 + maximum / 2) / (maximum as int),
            maximum == 15 || maximum == 255 || maximum == 4095 || maximum == 65535,
    ;
    Some(scaled as u8)
}

proof fn lemma_hex_prefix(s: Seq<char>, i: int)
    requires
        0 < i <= s.len(),
    ensures
        hex_digits(s.take(i)) is None ==> hex_digits(s) is None,
    decreases s.len() - i,
{
    if i < s.len() {
        assert(s.take(i + 1).drop_last() =~= s.take(i));
        lemma_hex_prefix(s, i + 1);
    } else {
        assert(s.take(i) =~= s);
    }
}

/// The text behind a prefix, where the text begins with it.
pub open spec fn after_prefix(s: Seq<char>, prefix: Seq<char>) -> Option<Seq<char>> {
    if begins_with(s, prefix) {
        Some(s.skip(prefix.len() as int))
    } else {
        None
    }
}

/// The three channels of a colour.
pub open spec fn channels(value: Seq<char>) -> Option<Rgb> {
    let parts = split_on(value, '/');
    if parts.len() != 3 {
        None
    } else {
        match (channel_value(parts[0]), channel_value(parts[1]), channel_value(parts[2])) {
            (Some(r), Some(g), Some(b)) => Some(Rgb { r: r as u8, g: g as u8, b: b as u8 }),
            _ => None,
        }
    }
}

/// The colour in a terminal's answer to a query with the given prefix.
pub open spec fn osc_rgb(response: Seq<char>, prefix: Seq<char>) -> Option<Rgb> {
    match after_prefix(trim_end_of(response, seq!['\x07', '\x1b']), prefix) {
        Some(rest) => match after_prefix(rest, "rgb:"@) {
            Some(value) => channels(value),
            None => None,
        },
        None => None,
    }
}

/// The colour in a terminal's answer to a query with the given prefix.
pub fn parse_osc_rgb(response: &str, prefix: &str) -> (color: Option<Rgb>)
    ensures
        color == osc_rgb(response@, prefix@),
{
    let trimmed = trim_end_of_two(response, '\x07', '\x1b');
    match text_after_prefix(trimmed.as_str(), prefix) {
        Some(rest) => match text_after_prefix(rest.as_str(), "rgb:") {
            Some(value) => {
                let parts = split_text_on(value.as_str(), '/');
                let ghost all = texts(parts@);
                if parts.len() != 3 {
                    return None;
                }
                proof {
                    assert(all[0] == parts@[0]@ && all[1] == parts@[1]@ && all[2] == parts@[2]@);
                }
                match (
                    parse_xterm_channel(parts[0].as_str()),
                    parse_xterm_channel(parts[1].as_str()),
                    parse_xterm_channel(parts[2].as_str()),
                ) {
                    (Some(r), Some(g), Some(b)) => Some(Rgb { r, g, b }),
                    _ => None,
                }
            },
            None => None,
        },
        None => None,
    }
}

/// One channel of two colours mixed, rounded.
pub open spec fn mixed(base: u8, overlay: u8, percent: int) -> int {
    (base * (100 - percent) + overlay * percent + 50) / 100
}

fn mix(base: u8, overlay: u8, percent: u16) -> (channel: u8)
    requires
        percent <= 100,
    ensures
        channel == mixed(base, overlay, percent as int),
{
    let rest: u16 = 100 - percent;
    assert(0 <= base * rest <= 255 * rest) by (nonlinear_arith)
        requires
            base <= 255,
            rest >= 0,
    ;
    assert(0 <= overlay * percent <= 255 * percent) by (nonlinear_arith)
        requires
            overlay <= 255,
            percent >= 0,
    ;
    ((base as u16 * rest + overlay as u16 * percent + 50) / 100) as u8
}

/// Two colours mixed by a percentage of the second.
pub fn blend(background: Rgb, accent: Rgb, accent_percent: u16) -> (color: Rgb)
    requires
        accent_percent <= 100,
    ensures
        color.r == mixed(background.r, accent.r, accent_percent as int),
        color.g == mixed(background.g, accent.g, accent_percent as int),
        color.b == mixed(background.b, accent.b, accent_percent as int),
{
    Rgb {
        r: mix(background.r, accent.r, accent_percent),
        g: mix(background.g, accent.g, accent_percent),
        b: mix(background.b, accent.b, accent_percent),
    }
}

/// A tint stays between the colours that it is made of, in every channel.
pub proof fn law_tints_lie_between_their_colors(base: u8, overlay: u8, percent: int)
    requires
        0 <= percent <= 100,
    ensures
        base <= overlay ==> base <= mixed(base, overlay, percent) <= overlay,
        overlay <= base ==> overlay <= mixed(base, overlay, percent) <= base,
        mixed(base, overlay, 0) == base,
        mixed(base, overlay, 100) == overlay,
{
    let sum = base * (100 - percent) + overlay * percent;
    assert(base <= overlay ==> base * 100 <= sum <= overlay * 100) by (nonlinear_arith)
        requires
            0 <= percent <= 100,
            sum == base * (100 - percent) + overlay * percent,
    ;
    assert(overlay <= base ==> overlay * 100 <= sum <= base * 100) by (nonlinear_arith)
        requires
            0 <= percent <= 100,
            sum == base * (100 - percent) + overlay * percent,
    ;
}

/// A tint of the background by one of the sixteen colours; the default background
/// where the terminal did not tell both.
pub open spec fn tint(background: Option<Rgb>, accent: Option<Rgb>) -> Color {
    match (background, accent) {
        (Some(background), Some(accent)) => Color::Rgb(
            mixed(background.r, accent.r, TINT_PERCENT as int) as u8,
            mixed(background.g, accent.g, TINT_PERCENT as int) as u8,
            mixed(background.b, accent.b, TINT_PERCENT as int) as u8,
        ),
        _ => Color::Reset,
    }
}

impl TerminalPalette {
    /// One of the sixteen colours.
    pub open spec fn accent(self, index: int) -> Option<Rgb> {
        if 0 <= index < 16 {
            self.ansi@[index]
        } else {
            None
        }
    }
}

impl Default for TerminalPalette {
    fn default() -> (palette: TerminalPalette)
        ensures
            palette.background is None,
            forall|i: int| 0 <= i < 16 ==> #[trigger] palette.accent(i) is None,
    {
        TerminalPalette { background: None, ansi: [None; 16] }
    }
}

/// The query for the background colour.
pub fn background_query() -> (query: String)
    ensures
        query@ == "\x1b]11;?\x1b\\"@,
{
    "\x1b]11;?\x1b\\".to_owned()
}

/// The prefix of the answer on one of the sixteen colours.
pub open spec fn ansi_prefix(index: u8) -> Seq<char> {
    "]4;"@ + decimal(index as nat) + ";"@
}

fn ansi_prefix_text(index: u8) -> (prefix: String)
    ensures
        prefix@ == ansi_prefix(index),
{
    concat_text(concat_text("]4;", decimal_text(index as u64).as_str()).as_str(), ";")
}

/// The query for one of the sixteen colours.
pub fn ansi_query(index: u8) -> (query: String)
    ensures
        query@ == "\x1b"@ + ansi_prefix(index) + "?\x1b\\"@,
{
    concat_text(concat_text("\x1b", ansi_prefix_text(index).as_str()).as_str(), "?\x1b\\")
}

/// The answer of the terminal on one of the sixteen colours.
pub open spec fn answered(responses: Seq<(u8, String)>, index: u8) -> Option<Rgb>
    decreases responses.len(),
{
    if responses.len() == 0 {
        None
    } else if responses[0].0 == index {
        osc_rgb(responses[0].1@, ansi_prefix(index))
    } else {
        answered(responses.drop_first(), index)
    }
}

fn find_answer(responses: &Vec<(u8, String)>, index: u8) -> (color: Option<Rgb>)
    ensures
        color == answered(responses@, index),
{
    let mut i: usize = 0;
    assert(responses@.skip(0) =~= responses@);
    while i < responses.len()
        invariant
            i <= responses.len(),
            answered(responses@.skip(i as int), index) == answered(responses@, index),
        decreases responses.len() - i,
    {
        assert(responses@.skip(i as int)[0] == responses@[i as int]);
        assert(responses@.skip(i as int).drop_first() =~= responses@.skip(i + 1));
        if responses[i].0 == index {
            return parse_osc_rgb(responses[i].1.as_str(), ansi_prefix_text(index).as_str());
        }
        i += 1;
    }
    None
}

/// Whether a colour is one that tints are made of: green, yellow, magenta, cyan.
pub open spec fn is_tint_color(index: int) -> bool {
    index == 2 || index == 3 || index == 5 || index == 6
}

impl TerminalPalette {
    /// The palette that the answers of the terminal give. Without an answer on the
    /// background no other answer counts.
    pub fn probe(background: Option<&str>, responses: &Vec<(u8, String)>) -> (palette:
        TerminalPalette)
        ensures
            palette.background == (match background {
                Some(response) => osc_rgb(response@, "]11;"@),
                None => None,
            }),
            forall|i: int|
                0 <= i < 16 ==> #[trigger] palette.accent(i) == (if palette.background is Some
                    && is_tint_color(i) {
                    answered(responses@, i as u8)
                } else {
                    None
                }),
    {
        let background = match background {
            Some(response) => parse_osc_rgb(response, "]11;"),
            None => None,
        };
        if background.is_none() {
            return TerminalPalette::default();
        }
        let mut ansi: [Option<Rgb>; 16] = [None; 16];
        ansi[2] = find_answer(responses, 2);
        ansi[3] = find_answer(responses, 3);
        ansi[5] = find_answer(responses, 5);
        ansi[6] = find_answer(responses, 6);
        TerminalPalette { background, ansi }
    }

    /// A tint of the background by one of the sixteen colours.
    pub fn tinted_ansi(&self, index: u8) -> (color: Color)
        ensures
            color == tint(self.background, self.accent(index as int)),
    {
        if index >= 16 {
            return Color::Reset;
        }
        match (self.background, self.ansi[index as usize]) {
            (Some(background), Some(accent)) => {
                let color = blend(background, accent, TINT_PERCENT);
                Color::Rgb(color.r, color.g, color.b)
            },
            _ => Color::Reset,
        }
    }

    /// The background of selected text: a tint of cyan.
    pub fn selection_background(&self) -> (color: Color)
        ensures
            color == tint(self.background, self.accent(6)),
    {
        self.tinted_ansi(6)
    }
}

} // verus!
