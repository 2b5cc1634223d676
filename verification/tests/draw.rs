use oxidevault::commands::draw::{
    check_position, is_allowed_scale, judge_draw, plan_draw, read_limit, split_colors,
    DrawLimits, DrawRequest, MAX_RADIUS,
};

fn limits() -> DrawLimits<'static> {
    DrawLimits { min_x: Some("-100"), max_x: Some("100"), min_y: Some("-50"), max_y: Some("50") }
}

fn reply<T: std::fmt::Debug>(r: Result<T, String>) -> String {
    r.unwrap_err()
}

#[test]
fn a_valid_request() {
    assert_eq!(
        plan_draw(10, -20, 5, "normal", "FF5733,00AAFF", &limits()),
        Ok(DrawRequest {
            x: 10,
            y: -20,
            radius: 5,
            scale: "normal".to_string(),
            stroke: "FF5733".to_string(),
            fill: "00AAFF".to_string(),
        })
    );
}

#[test]
fn scales() {
    for s in ["tiny", "small", "normal", "large", "huge", "mega", "giga"] {
        assert!(is_allowed_scale(s));
    }
    for s in ["", "Tiny", "medium", "tiny ", "gigantic"] {
        assert!(!is_allowed_scale(s));
    }
    assert_eq!(
        reply(plan_draw(0, 0, 5, "medium", "FF5733,00AAFF", &limits())),
        "❌ Invalid scale 'medium'. Allowed: tiny, small, normal, large, huge, mega, giga"
    );
}

#[test]
fn radius_limits() {
    assert_eq!(MAX_RADIUS, 10000);
    assert_eq!(
        reply(plan_draw(0, 0, 0, "tiny", "FF5733,00AAFF", &limits())),
        "❌ Radius must be a positive integer."
    );
    assert_eq!(
        reply(plan_draw(0, 0, -3, "tiny", "FF5733,00AAFF", &limits())),
        "❌ Radius must be a positive integer."
    );
    assert_eq!(
        reply(plan_draw(0, 0, 10001, "tiny", "FF5733,00AAFF", &limits())),
        "❌ Radius is too large. Maximum allowed: 10000"
    );
    assert!(plan_draw(0, 0, 10000, "tiny", "FF5733,00AAFF", &limits()).is_ok());
    assert!(plan_draw(0, 0, 1, "tiny", "FF5733,00AAFF", &limits()).is_ok());
}

#[test]
fn colors_are_split_at_the_comma_and_trimmed() {
    assert_eq!(split_colors("FF5733,00AAFF"), Some(("FF5733", "00AAFF")));
    assert_eq!(split_colors("  FF5733 ,\t00AAFF\n"), Some(("FF5733", "00AAFF")));
    assert_eq!(split_colors(","), Some(("", "")));
    assert_eq!(split_colors("FF5733"), None);
    assert_eq!(split_colors("a,b,c"), None);
    assert_eq!(split_colors(""), None);
}

#[test]
fn colors_must_be_two() {
    let expected =
        "❌ `colors` must be two hex RGB values separated by a comma, e.g. FF5733,00AAFF";
    assert_eq!(reply(plan_draw(0, 0, 5, "tiny", "FF5733", &limits())), expected);
    assert_eq!(reply(plan_draw(0, 0, 5, "tiny", "a,b,c", &limits())), expected);
    assert_eq!(reply(judge_draw(0, 0, 5, "tiny", None, &limits())), expected);
}

#[test]
fn colors_must_be_hexadecimal() {
    assert_eq!(
        reply(plan_draw(0, 0, 5, "tiny", "FFF,00AAFF", &limits())),
        "❌ Invalid stroke color: Invalid input: Hex color must be 6 characters, got: FFF"
    );
    assert_eq!(
        reply(plan_draw(0, 0, 5, "tiny", "FF5733, GGGGGG", &limits())),
        "❌ Invalid fill color: Invalid input: Invalid hex color (red component): GGGGGG"
    );
    assert_eq!(
        reply(plan_draw(0, 0, 5, "tiny", "bad,worse", &limits())),
        "❌ Invalid stroke color: Invalid input: Hex color must be 6 characters, got: bad"
    );
    assert!(plan_draw(0, 0, 5, "tiny", "#FF5733 , #00aaff", &limits()).is_ok());
}

#[test]
fn limits_must_be_there_and_be_numbers() {
    assert_eq!(read_limit("DRAW_MIN_X", Some("-100")), Ok(-100));
    assert_eq!(read_limit("DRAW_MIN_X", Some("+7")), Ok(7));
    assert_eq!(read_limit("N", Some("2147483647")), Ok(2147483647));
    assert_eq!(read_limit("N", Some("-2147483648")), Ok(-2147483648));
    assert_eq!(read_limit("N", Some("-0")), Ok(0));
    assert_eq!(
        read_limit("DRAW_MIN_X", None),
        Err("Missing environment variable: DRAW_MIN_X".to_string())
    );
    for bad in ["", "abc", "1.5", " 1", "2147483648", "-2147483649", "-", "+", "--1", "1-"] {
        assert_eq!(
            read_limit("DRAW_MAX_Y", Some(bad)),
            Err(format!("Environment var DRAW_MAX_Y is not a valid integer: {}", bad))
        );
    }
}

#[test]
fn limits_are_read_in_order() {
    let l = DrawLimits { min_x: None, max_x: Some("x"), min_y: None, max_y: None };
    assert_eq!(
        check_position(0, 0, &l),
        Some("❌ Missing environment variable: DRAW_MIN_X".to_string())
    );
    let l = DrawLimits { min_x: Some("0"), max_x: Some("x"), min_y: None, max_y: None };
    assert_eq!(
        check_position(0, 0, &l),
        Some("❌ Environment var DRAW_MAX_X is not a valid integer: x".to_string())
    );
    let l = DrawLimits { min_x: Some("0"), max_x: Some("1"), min_y: None, max_y: None };
    assert_eq!(
        check_position(5, 0, &l),
        Some("❌ Missing environment variable: DRAW_MIN_Y".to_string())
    );
    let l = DrawLimits { min_x: Some("0"), max_x: Some("1"), min_y: Some("0"), max_y: None };
    assert_eq!(
        check_position(5, 0, &l),
        Some("❌ Missing environment variable: DRAW_MAX_Y".to_string())
    );
}

#[test]
fn position_within_limits() {
    assert_eq!(check_position(-100, 50, &limits()), None);
    assert_eq!(check_position(100, -50, &limits()), None);
    assert_eq!(
        check_position(101, 0, &limits()),
        Some("❌ `x` out of range (-100..=100): got 101".to_string())
    );
    assert_eq!(
        check_position(-101, 99, &limits()),
        Some("❌ `x` out of range (-100..=100): got -101".to_string())
    );
    assert_eq!(
        check_position(0, -51, &limits()),
        Some("❌ `y` out of range (-50..=50): got -51".to_string())
    );
    assert_eq!(
        check_position(i32::MIN, 0, &limits()),
        Some("❌ `x` out of range (-100..=100): got -2147483648".to_string())
    );
}

#[test]
fn checks_come_in_order() {
    let none = DrawLimits { min_x: None, max_x: None, min_y: None, max_y: None };
    assert!(reply(plan_draw(0, 0, 0, "bad", "x", &none)).starts_with("❌ Invalid scale"));
    assert!(reply(plan_draw(0, 0, 0, "tiny", "x", &none)).starts_with("❌ Radius must"));
    assert!(reply(plan_draw(0, 0, 1, "tiny", "x", &none)).starts_with("❌ `colors`"));
    assert!(reply(plan_draw(0, 0, 1, "tiny", "x,y", &none)).starts_with("❌ Invalid stroke"));
    assert!(reply(plan_draw(0, 0, 1, "tiny", "FFFFFF,y", &none)).starts_with("❌ Invalid fill"));
    assert!(reply(plan_draw(0, 0, 1, "tiny", "FFFFFF,000000", &none)).starts_with("❌ Missing"));
}

#[test]
fn document_of_a_drawing() {
    let request = plan_draw(10, -20, 5, "normal", "FF5733,00AAFF", &limits()).unwrap();
    let text = request.to_json();
    let doc: serde_json::Value = serde_json::from_str(&text).unwrap();
    let members = doc.as_object().unwrap();
    assert_eq!(members.len(), 6);
    assert_eq!(doc["x"].as_i64(), Some(10));
    assert_eq!(doc["y"].as_i64(), Some(-20));
    assert_eq!(doc["radius"].as_i64(), Some(5));
    assert_eq!(doc["scale"].as_str(), Some("normal"));
    assert_eq!(doc["stroke"].as_str(), Some("FF5733"));
    assert_eq!(doc["fill"].as_str(), Some("00AAFF"));
    assert!(!text.contains(' ') && !text.contains('\n'));
}
