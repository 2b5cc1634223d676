//! Pl3xmap integration: colors in the decimal formats that Pl3xmap reads.

use crate::error::{ErrorView, OxideVaultError};
use crate::utils::text::{lemma_text_of_bytes, split_around};
use vstd::prelude::*;
use vstd::string::*;
use vstd::utf8::{decode_utf8, encode_utf8};

verus! {

/// Pl3xmap color settings in decimal format.
#[derive(Debug, Clone, Copy, PartialEq, Eq)]
pub struct Pl3xmapColors {
    /// Saturation, from 0 to 255
    pub saturation: u8,
    /// Lightness, from 0 to 255
    pub lightness: u8,
    /// Stroke color in decimal ARGB format
    pub stroke_color: u32,
    /// Fill color in decimal ARGB format
    pub fill_color: u32,
}

/// The bytes of a color without the hash signs in front of it.
pub open spec fn strip_hashes(bytes: Seq<u8>) -> Seq<u8>
    decreases bytes.len(),
{
    if bytes.len() > 0 && bytes[0] == 0x23 {
        strip_hashes(bytes.drop_first())
    } else {
        bytes
    }
}

/// The value of a hexadecimal digit, in either case.
pub open spec fn hex_digit(byte: u8) -> Option<u8> {
    if 0x30 <= byte <= 0x39 {
        Some((byte - 0x30) as u8)
    } else if 0x41 <= byte <= 0x46 {
        Some((byte - 0x41 + 10) as u8)
    } else if 0x61 <= byte <= 0x66 {
        Some((byte - 0x61 + 10) as u8)
    } else {
        None
    }
}

/// The 8-bit number that two bytes spell in hexadecimal: two digits, or a
/// plus sign and one digit.
pub open spec fn hex_pair(high: u8, low: u8) -> Option<u8> {
    if high == 0x2B {
        hex_digit(low)
    } else {
        match (hex_digit(high), hex_digit(low)) {
            (Some(h), Some(l)) => Some((16 * h + l) as u8),
            _ => None,
        }
    }
}

/// The red, green and blue of a color written as six hexadecimal digits
/// after any number of hash signs, or what is wrong with it, in words.
pub open spec fn hex_color(text: Seq<char>) -> Result<(u8, u8, u8), Seq<char>> {
    let digits = strip_hashes(encode_utf8(text));
    let shown = decode_utf8(digits);
    if digits.len() != 6 {
        Err("Hex color must be 6 characters, got: "@ + shown)
    } else if hex_pair(digits[0], digits[1]) is None {
        Err("Invalid hex color (red component): "@ + shown)
    } else if hex_pair(digits[2], digits[3]) is None {
        Err("Invalid hex color (green component): "@ + shown)
    } else if hex_pair(digits[4], digits[5]) is None {
        Err("Invalid hex color (blue component): "@ + shown)
    } else {
        Ok(
            (
                hex_pair(digits[0], digits[1])->0,
                hex_pair(digits[2], digits[3])->0,
                hex_pair(digits[4], digits[5])->0,
            ),
        )
    }
}

/// A color in ARGB format: alpha in the highest byte, then red, green and
/// blue.
pub open spec fn argb(alpha: u8, red: u8, green: u8, blue: u8) -> u32 {
    (alpha * 0x100_0000 + red * 0x1_0000 + green * 0x100 + blue) as u32
}

fn parse_hex_digit(byte: u8) -> (r: Option<u8>)
    ensures
        r == hex_digit(byte),
{
    if 0x30 <= byte && byte <= 0x39 {
        Some(byte - 0x30)
    } else if 0x41 <= byte && byte <= 0x46 {
        Some(byte - 0x41 + 10)
    } else if 0x61 <= byte && byte <= 0x66 {
        Some(byte - 0x61 + 10)
    } else {
        None
    }
}

fn parse_hex_pair(high: u8, low: u8) -> (r: Option<u8>)
    ensures
        r == hex_pair(high, low),
{
    if high == 0x2B {
        return parse_hex_digit(low);
    }
    match (parse_hex_digit(high), parse_hex_digit(low)) {
        (Some(h), Some(l)) => Some(16 * h + l),
        _ => None,
    }
}

/// Drops the hash signs in front of a color.
fn without_hashes(hex: &str) -> (r: &str)
    ensures
        r.spec_bytes() == strip_hashes(hex.spec_bytes()),
{
    let bytes = hex.as_bytes();
    let mut k: usize = 0;
    proof {
        assert(bytes@.subrange(0, bytes@.len() as int) =~= bytes@);
    }
    while k < bytes.len() && bytes[k] == 0x23
        invariant
            k <= bytes@.len(),
            bytes@ == hex.spec_bytes(),
            forall|i: int| 0 <= i < k ==> bytes@[i] == 0x23,
            strip_hashes(bytes@) == strip_hashes(bytes@.subrange(k as int, bytes@.len() as int)),
        decreases bytes@.len() - k,
    {
        proof {
            assert(bytes@.subrange(k as int, bytes@.len() as int).drop_first() =~= bytes@.subrange(
                k + 1,
                bytes@.len() as int,
            ));
        }
        k = k + 1;
    }
    if k == 0 {
        hex
    } else {
        let (_, rest) = split_around(hex, k - 1);
        rest
    }
}

fn color_error(problem: &str, shown: &str) -> (r: OxideVaultError)
    ensures
        r@ == ErrorView::InvalidInput(problem@ + shown@),
{
    OxideVaultError::InvalidInput(String::from_str(problem).concat(shown))
}

/// Parse a hex color string, with or without `#` in front, and put it
/// together with an alpha value into ARGB format.
pub fn parse_hex_to_argb(hex: &str, alpha: u8) -> (r: Result<u32, OxideVaultError>)
    ensures
        match r {
            Ok(color) => hex_color(hex@) matches Ok((red, green, blue)) && color == argb(
                alpha,
                red,
                green,
                blue,
            ),
            Err(e) => e@ is InvalidInput && hex_color(hex@) == Err::<(u8, u8, u8), Seq<char>>(
                e@.detail(),
            ),
        },
{
    let shown = without_hashes(hex);
    let digits = shown.as_bytes();
    proof {
        lemma_text_of_bytes(shown);
    }
    if digits.len() != 6 {
        return Err(color_error("Hex color must be 6 characters, got: ", shown));
    }
    let red: u8 = match parse_hex_pair(digits[0], digits[1]) {
        Some(v) => v,
        None => { return Err(color_error("Invalid hex color (red component): ", shown)); },
    };
    let green: u8 = match parse_hex_pair(digits[2], digits[3]) {
        Some(v) => v,
        None => { return Err(color_error("Invalid hex color (green component): ", shown)); },
    };
    let blue: u8 = match parse_hex_pair(digits[4], digits[5]) {
        Some(v) => v,
        None => { return Err(color_error("Invalid hex color (blue component): ", shown)); },
    };
    let color: u32 = ((alpha as u32) << 24) | ((red as u32) << 16) | ((green as u32) << 8) | (
    blue as u32);
    proof {
        assert(((alpha as u32) << 24) | ((red as u32) << 16) | ((green as u32) << 8) | (blue as u32)
            == alpha * 0x100_0000 + red * 0x1_0000 + green * 0x100 + blue) by (bit_vector);
    }
    Ok(color)
}

/// Validate a hex color string without opacity.
pub fn validate_hex_color(hex: &str) -> (r: Result<(), OxideVaultError>)
    ensures
        match r {
            Ok(()) => hex_color(hex@) is Ok,
            Err(e) => e@ is InvalidInput && hex_color(hex@) == Err::<(u8, u8, u8), Seq<char>>(
                e@.detail(),
            ),
        },
{
    match parse_hex_to_argb(hex, 255) {
        Ok(_) => Ok(()),
        Err(e) => Err(e),
    }
}

/// Put Pl3xmap settings together: saturation and lightness as they are,
/// and the two colors with their alpha values in ARGB format. The stroke
/// color is judged before the fill color.
pub fn convert_pl3xmap_colors(
    saturation: u8,
    lightness: u8,
    stroke_hex: &str,
    stroke_alpha: u8,
    fill_hex: &str,
    fill_alpha: u8,
) -> (r: Result<Pl3xmapColors, OxideVaultError>)
    ensures
        match r {
            Ok(colors) => hex_color(stroke_hex@) matches Ok((sr, sg, sb)) && hex_color(
                fill_hex@,
            ) matches Ok((fr, fg, fb)) && colors == (Pl3xmapColors {
                saturation,
                lightness,
                stroke_color: argb(stroke_alpha, sr, sg, sb),
                fill_color: argb(fill_alpha, fr, fg, fb),
            }),
            Err(e) => e@ is InvalidInput && (if hex_color(stroke_hex@) is Err {
                hex_color(stroke_hex@) == Err::<(u8, u8, u8), Seq<char>>(e@.detail())
            } else {
                hex_color(fill_hex@) == Err::<(u8, u8, u8), Seq<char>>(e@.detail())
            }),
        },
{
    let stroke_color = parse_hex_to_argb(stroke_hex, stroke_alpha)?;
    let fill_color = parse_hex_to_argb(fill_hex, fill_alpha)?;
    Ok(Pl3xmapColors { saturation, lightness, stroke_color, fill_color })
}

} // verus!
