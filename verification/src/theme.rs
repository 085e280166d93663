//! Reading colours from a theme file: `#rgb` and `#rrggbb` values, and
//! the message that names the line of a bad one.

use vstd::prelude::*;

use crate::playlist::{hex_char_value, hex_value, is_hex_char};
use crate::song::{decimal_digits, decimal_usize};
use crate::text::chars_of;

verus! {

/// A colour by its red, green and blue channels.
#[derive(Debug, Clone, Copy, PartialEq, Eq, Structural)]
pub struct Rgb(pub u8, pub u8, pub u8);

/// The colour `value` names: `#` then three hexadecimal digits (each
/// standing for a channel, repeated) or six (two per channel).
pub open spec fn hex_color_spec(value: Seq<char>) -> Option<Rgb> {
    if value.len() == 0 || value[0] != '#' {
        None
    } else {
        let d = value.drop_first();
        if d.len() == 3 && forall|k: int| 0 <= k < 3 ==> is_hex_char(#[trigger] d[k]) {
            Some(
                Rgb(
                    (hex_value(d[0]) * 17) as u8,
                    (hex_value(d[1]) * 17) as u8,
                    (hex_value(d[2]) * 17) as u8,
                ),
            )
        } else if d.len() == 6 && forall|k: int| 0 <= k < 6 ==> is_hex_char(#[trigger] d[k]) {
            Some(
                Rgb(
                    (hex_value(d[0]) * 16 + hex_value(d[1])) as u8,
                    (hex_value(d[2]) * 16 + hex_value(d[3])) as u8,
                    (hex_value(d[4]) * 16 + hex_value(d[5])) as u8,
                ),
            )
        } else {
            None
        }
    }
}

/// The value of one hexadecimal digit.
pub fn hex_digit(c: char) -> (r: Option<u8>)
    ensures
        is_hex_char(c) ==> r == Some(hex_value(c) as u8) && hex_value(c) < 16,
        !is_hex_char(c) ==> r is None,
{
    hex_char_value(c)
}

/// The channel two hexadecimal digits stand for, high digit first.
pub fn hex_channel(high: char, low: char) -> (r: Option<u8>)
    ensures
        is_hex_char(high) && is_hex_char(low) ==> r == Some((hex_value(high) * 16 + hex_value(low)) as u8),
        !(is_hex_char(high) && is_hex_char(low)) ==> r is None,
{
    let h = match hex_digit(high) {
        Some(h) => h,
        None => return None,
    };
    let l = match hex_digit(low) {
        Some(l) => l,
        None => return None,
    };
    Some(h * 16 + l)
}

/// Reads a colour (see [`hex_color_spec`]).
pub fn parse_hex_color(value: &str) -> (r: Option<Rgb>)
    ensures
        r == hex_color_spec(value@),
{
    let chars = chars_of(value);
    if chars.len() == 0 || chars[0] != '#' {
        return None;
    }
    let ghost d = value@.drop_first();
    if chars.len() == 4 {
        let r = match hex_digit(chars[1]) {
            Some(v) => v,
            None => {
                assert(!is_hex_char(d[0]));
                return None;
            },
        };
        let g = match hex_digit(chars[2]) {
            Some(v) => v,
            None => {
                assert(!is_hex_char(d[1]));
                return None;
            },
        };
        let b = match hex_digit(chars[3]) {
            Some(v) => v,
            None => {
                assert(!is_hex_char(d[2]));
                return None;
            },
        };
        assert forall|k: int| 0 <= k < 3 implies is_hex_char(#[trigger] d[k]) by {
            assert(d[k] == chars@[k + 1]);
        }
        return Some(Rgb(r * 17, g * 17, b * 17));
    }
    if chars.len() == 7 {
        let r = match hex_channel(chars[1], chars[2]) {
            Some(v) => v,
            None => {
                assert(!is_hex_char(d[0]) || !is_hex_char(d[1]));
                return None;
            },
        };
        let g = match hex_channel(chars[3], chars[4]) {
            Some(v) => v,
            None => {
                assert(!is_hex_char(d[2]) || !is_hex_char(d[3]));
                return None;
            },
        };
        let b = match hex_channel(chars[5], chars[6]) {
            Some(v) => v,
            None => {
                assert(!is_hex_char(d[4]) || !is_hex_char(d[5]));
                return None;
            },
        };
        assert forall|k: int| 0 <= k < 6 implies is_hex_char(#[trigger] d[k]) by {
            assert(d[k] == chars@[k + 1]);
        }
        return Some(Rgb(r, g, b));
    }
    None
}

/// How many bytes `c` takes in UTF-8.
pub open spec fn utf8_len(c: char) -> int {
    if (c as u32) < 0x80 {
        1
    } else if (c as u32) < 0x800 {
        2
    } else if (c as u32) < 0x10000 {
        3
    } else {
        4
    }
}

/// How many bytes `s` takes in UTF-8.
pub open spec fn utf8_bytes(s: Seq<char>) -> int
    decreases s.len(),
{
    if s.len() == 0 {
        0
    } else {
        utf8_bytes(s.drop_last()) + utf8_len(s.last())
    }
}

/// How many line feeds start before byte `limit` of `s`.
pub open spec fn newlines_before(s: Seq<char>, limit: int) -> int
    decreases s.len(),
{
    if s.len() == 0 {
        0
    } else {
        newlines_before(s.drop_last(), limit) + if s.last() == '\n' && utf8_bytes(s.drop_last()) < limit {
            1int
        } else {
            0int
        }
    }
}

proof fn lemma_newlines_bounded(s: Seq<char>, limit: int)
    ensures
        0 <= newlines_before(s, limit) <= s.len(),
    decreases s.len(),
{
    if s.len() > 0 {
        lemma_newlines_bounded(s.drop_last(), limit);
    }
}

/// The line, counting from 1, on which byte `byte_offset` of `source`
/// lies: one more than the line feeds before it (at most `usize::MAX`).
pub fn line_of(source: &str, byte_offset: usize) -> (r: usize)
    ensures
        r == if newlines_before(source@, byte_offset as int) + 1 > usize::MAX {
            usize::MAX as int
        } else {
            newlines_before(source@, byte_offset as int) + 1
        },
{
    let chars = chars_of(source);
    let mut count: usize = 0;
    let mut position: u128 = 0;
    let mut i: usize = 0;
    while i < chars.len()
        invariant
            i <= chars@.len(),
            chars@ == source@,
            count == newlines_before(chars@.take(i as int), byte_offset as int),
            position == utf8_bytes(chars@.take(i as int)),
            position <= 4 * i,
        decreases chars@.len() - i,
    {
        let c = chars[i];
        proof {
            lemma_newlines_bounded(chars@.take(i as int), byte_offset as int);
            assert(chars@.take(i + 1).drop_last() =~= chars@.take(i as int));
        }
        if c == '\n' && position < byte_offset as u128 {
            count = count + 1;
        }
        let width: u128 = if (c as u32) < 0x80 {
            1
        } else if (c as u32) < 0x800 {
            2
        } else if (c as u32) < 0x10000 {
            3
        } else {
            4
        };
        position = position + width;
        i = i + 1;
    }
    assert(chars@.take(chars@.len() as int) =~= chars@);
    count.saturating_add(1)
}

/// The message for a colour that could not be read.
pub open spec fn bad_color_message(source: Seq<char>, name: Seq<char>, value: Seq<char>, start: int) -> Seq<char> {
    let line = if newlines_before(source, start) + 1 > usize::MAX {
        usize::MAX as int
    } else {
        newlines_before(source, start) + 1
    };
    "line "@ + decimal_digits(line as nat) + ": '"@ + name + "' must be \"#rgb\" or \"#rrggbb\", got "@ + value
}

/// The colour a theme file gives for the setting `name`, whose text
/// `value` starts at byte `start` of `source`: none when the file leaves
/// it out, an error naming the line when the text is not a colour.
pub fn color_override(source: &str, name: &str, value: Option<&str>, start: usize) -> (r: Result<
    Option<Rgb>,
    String,
>)
    ensures
        match value {
            None => r == Ok::<Option<Rgb>, String>(None),
            Some(v) => match hex_color_spec(v@) {
                Some(c) => r == Ok::<Option<Rgb>, String>(Some(c)),
                None => r matches Err(m) && m@ == bad_color_message(source@, name@, v@, start as int),
            },
        },
{
    let text = match value {
        None => return Ok(None),
        Some(v) => v,
    };
    match parse_hex_color(text) {
        Some(c) => Ok(Some(c)),
        None => {
            let line = line_of(source, start);
            let out = "line ".to_string();
            let number = decimal_usize(line);
            let out = out.concat(number.as_str());
            let out = out.concat(": '");
            let out = out.concat(name);
            let out = out.concat("' must be \"#rgb\" or \"#rrggbb\", got ");
            Err(out.concat(text))
        },
    }
}

/// The short form names the colour whose channels repeat each digit:
/// `#abc` is `#aabbcc`.
pub proof fn lemma_short_form_repeats_each_digit(a: char, b: char, c: char)
    requires
        is_hex_char(a),
        is_hex_char(b),
        is_hex_char(c),
    ensures
        hex_color_spec(seq!['#', a, b, c]) == hex_color_spec(seq!['#', a, a, b, b, c, c]),
        hex_color_spec(seq!['#', a, b, c]) is Some,
{
    let short = seq!['#', a, b, c];
    let long = seq!['#', a, a, b, b, c, c];
    assert(short.drop_first() =~= seq![a, b, c]);
    assert(long.drop_first() =~= seq![a, a, b, b, c, c]);
    assert forall|k: int| 0 <= k < 3 implies is_hex_char(#[trigger] short.drop_first()[k]) by {}
    assert forall|k: int| 0 <= k < 6 implies is_hex_char(#[trigger] long.drop_first()[k]) by {}
}

} // verus!
