use oxidevault::error::OxideVaultError;
use oxidevault::pl3xmap::{
    convert_pl3xmap_colors, parse_hex_to_argb, validate_hex_color, Pl3xmapColors,
};

fn invalid(text: &str) -> OxideVaultError {
    OxideVaultError::InvalidInput(text.to_string())
}

#[test]
fn test_parse_hex_to_argb() {
    // Basic color conversion with full opacity
    let color = parse_hex_to_argb("FF5733", 255).unwrap();
    assert_eq!(color, 0xFFFF5733); // Alpha=255, R=255, G=87, B=51

    // Half opacity
    let color = parse_hex_to_argb("00AAFF", 127).unwrap();
    assert_eq!(color, 0x7F00AAFF); // Alpha=127, R=0, G=170, B=255

    // With # prefix
    let color = parse_hex_to_argb("#123456", 191).unwrap();
    assert_eq!(color, 0xBF123456); // Alpha=191, R=18, G=52, B=86

    // Zero opacity
    let color = parse_hex_to_argb("FFFFFF", 0).unwrap();
    assert_eq!(color, 0x00FFFFFF); // Alpha=0, R=255, G=255, B=255
}

#[test]
fn test_parse_hex_to_argb_invalid() {
    // Invalid hex length
    assert!(parse_hex_to_argb("FFF", 255).is_err());
    assert!(parse_hex_to_argb("FF5733AA", 255).is_err());

    // Invalid hex characters
    assert!(parse_hex_to_argb("GGGGGG", 255).is_err());
    assert!(parse_hex_to_argb("ZZZZZZ", 255).is_err());
}

#[test]
fn hex_in_either_case_and_after_hashes() {
    assert_eq!(parse_hex_to_argb("000000", 0), Ok(0));
    assert_eq!(parse_hex_to_argb("abcdef", 1), Ok(0x01ABCDEF));
    assert_eq!(parse_hex_to_argb("###0a0B0c", 16), Ok(0x100A0B0C));
}

#[test]
fn hex_of_the_wrong_length() {
    assert_eq!(
        parse_hex_to_argb("FFF", 255),
        Err(invalid("Hex color must be 6 characters, got: FFF"))
    );
    assert_eq!(
        parse_hex_to_argb("FF5733AA", 255),
        Err(invalid("Hex color must be 6 characters, got: FF5733AA"))
    );
    assert_eq!(
        parse_hex_to_argb("#", 255),
        Err(invalid("Hex color must be 6 characters, got: "))
    );
    assert_eq!(
        parse_hex_to_argb("FF5733#", 255),
        Err(invalid("Hex color must be 6 characters, got: FF5733#"))
    );
}

#[test]
fn hex_with_other_characters() {
    assert_eq!(
        parse_hex_to_argb("GGGGGG", 255),
        Err(invalid("Invalid hex color (red component): GGGGGG"))
    );
    assert_eq!(
        parse_hex_to_argb("ZZZZZZ", 255),
        Err(invalid("Invalid hex color (red component): ZZZZZZ"))
    );
    assert_eq!(
        parse_hex_to_argb("#FFG000", 255),
        Err(invalid("Invalid hex color (green component): FFG000"))
    );
    assert_eq!(
        parse_hex_to_argb("FFFF0x", 255),
        Err(invalid("Invalid hex color (blue component): FFFF0x"))
    );
    assert_eq!(
        parse_hex_to_argb("12é34", 255),
        Err(invalid("Invalid hex color (green component): 12é34"))
    );
    assert_eq!(
        parse_hex_to_argb("1é234", 255),
        Err(invalid("Invalid hex color (red component): 1é234"))
    );
    assert_eq!(
        parse_hex_to_argb("-F0000", 255),
        Err(invalid("Invalid hex color (red component): -F0000"))
    );
}

#[test]
fn hex_pair_with_a_plus_sign() {
    assert_eq!(parse_hex_to_argb("+F+a+0", 0), Ok(0x000F0A00));
    assert_eq!(
        parse_hex_to_argb("++0000", 0),
        Err(invalid("Invalid hex color (red component): ++0000"))
    );
    assert_eq!(
        parse_hex_to_argb("F+0000", 0),
        Err(invalid("Invalid hex color (red component): F+0000"))
    );
}

#[test]
fn hex_validation() {
    assert!(validate_hex_color("FF5733").is_ok());
    assert!(validate_hex_color("#00AAFF").is_ok());
    assert_eq!(
        validate_hex_color("INVALID"),
        Err(invalid("Hex color must be 6 characters, got: INVALID"))
    );
    assert!(validate_hex_color("BAD").is_err());
    assert!(validate_hex_color("").is_err());
}

#[test]
fn test_convert_pl3xmap_colors() {
    let colors = convert_pl3xmap_colors(
        204,      // saturation
        128,      // lightness
        "FF5733", // stroke hex
        191,      // stroke alpha
        "00AAFF", // fill hex
        127,      // fill alpha
    )
    .unwrap();

    assert_eq!(colors.saturation, 204);
    assert_eq!(colors.lightness, 128);
    assert_eq!(colors.stroke_color, 0xBFFF5733); // Alpha=191, R=255, G=87, B=51
    assert_eq!(colors.fill_color, 0x7F00AAFF); // Alpha=127, R=0, G=170, B=255
}

#[test]
fn test_convert_pl3xmap_colors_edge_cases() {
    // Minimum values
    let colors = convert_pl3xmap_colors(0, 0, "000000", 0, "000000", 0).unwrap();

    assert_eq!(colors.saturation, 0);
    assert_eq!(colors.lightness, 0);
    assert_eq!(colors.stroke_color, 0x00000000);
    assert_eq!(colors.fill_color, 0x00000000);

    // Maximum values
    let colors = convert_pl3xmap_colors(255, 255, "FFFFFF", 255, "FFFFFF", 255).unwrap();

    assert_eq!(colors.saturation, 255);
    assert_eq!(colors.lightness, 255);
    assert_eq!(colors.stroke_color, 0xFFFFFFFF);
    assert_eq!(colors.fill_color, 0xFFFFFFFF);
}

#[test]
fn colors_put_together() {
    assert_eq!(
        convert_pl3xmap_colors(0, 0, "000000", 0, "000000", 0),
        Ok(Pl3xmapColors { saturation: 0, lightness: 0, stroke_color: 0, fill_color: 0 })
    );
    assert_eq!(
        convert_pl3xmap_colors(255, 255, "FFFFFF", 255, "FFFFFF", 255),
        Ok(Pl3xmapColors {
            saturation: 255,
            lightness: 255,
            stroke_color: 0xFFFFFFFF,
            fill_color: 0xFFFFFFFF,
        })
    );
}

#[test]
fn colors_with_a_bad_color() {
    assert_eq!(
        convert_pl3xmap_colors(128, 128, "INVALID", 128, "BAD", 128),
        Err(invalid("Hex color must be 6 characters, got: INVALID"))
    );
    assert_eq!(
        convert_pl3xmap_colors(128, 128, "FF5733", 128, "BAD", 128),
        Err(invalid("Hex color must be 6 characters, got: BAD"))
    );
}
