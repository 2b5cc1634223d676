//! Draw command: what makes a request for a drawing on the map valid, and
//! the JSON document of one that is.

use crate::error::ErrorView;
use crate::pl3xmap::{hex_color, validate_hex_color};
use crate::utils::text::{
    concat3, count_byte, count_of, last_index_of, lemma_last_index_of, lemma_text_of_bytes,
    parse_i32, parse_i32_text, rfind_byte, same_text, signed_decimal, signed_string, split_around,
};
use vstd::prelude::*;
use vstd::string::*;
use vstd::utf8::{decode_utf8, encode_utf8};

verus! {

/// The largest radius that a drawing may have.
pub const MAX_RADIUS: i32 = 10000;

/// A request for a drawing that has passed every check.
#[derive(Debug, Clone, PartialEq, Eq)]
pub struct DrawRequest {
    pub x: i32,
    pub y: i32,
    pub radius: i32,
    pub scale: String,
    pub stroke: String,
    pub fill: String,
}

pub struct DrawRequestView {
    pub x: i32,
    pub y: i32,
    pub radius: i32,
    pub scale: Seq<char>,
    pub stroke: Seq<char>,
    pub fill: Seq<char>,
}

impl View for DrawRequest {
    type V = DrawRequestView;

    open spec fn view(&self) -> DrawRequestView {
        DrawRequestView {
            x: self.x,
            y: self.y,
            radius: self.radius,
            scale: self.scale@,
            stroke: self.stroke@,
            fill: self.fill@,
        }
    }
}

/// The settings that bound where a drawing may be, each as the text found
/// for it, if any was.
pub struct DrawLimits<'a> {
    pub min_x: Option<&'a str>,
    pub max_x: Option<&'a str>,
    pub min_y: Option<&'a str>,
    pub max_y: Option<&'a str>,
}

pub struct DrawLimitsView {
    pub min_x: Option<Seq<char>>,
    pub max_x: Option<Seq<char>>,
    pub min_y: Option<Seq<char>>,
    pub max_y: Option<Seq<char>>,
}

/// The text of a setting, if there is one.
pub open spec fn setting_view(value: Option<&str>) -> Option<Seq<char>> {
    match value {
        Some(text) => Some(text@),
        None => None,
    }
}

impl<'a> View for DrawLimits<'a> {
    type V = DrawLimitsView;

    open spec fn view(&self) -> DrawLimitsView {
        DrawLimitsView {
            min_x: setting_view(self.min_x),
            max_x: setting_view(self.max_x),
            min_y: setting_view(self.min_y),
            max_y: setting_view(self.max_y),
        }
    }
}

/// A text without the whitespace at its start and at its end, by what
/// Unicode counts as whitespace.
pub uninterp spec fn trimmed(text: Seq<char>) -> Seq<char>;

/// `str::trim` of std: the text without leading and trailing whitespace.
/// The result is only named.
#[verifier::external_body]
fn trim_text(text: &str) -> (r: &str)
    ensures
        r@ == trimmed(text@),
{
    text.trim()
}

/// The text of a JSON object of three numbers and three strings, each
/// under its name.
pub uninterp spec fn json_object(
    number_names: Seq<Seq<char>>,
    numbers: Seq<i32>,
    text_names: Seq<Seq<char>>,
    texts: Seq<Seq<char>>,
) -> Seq<char>;

/// `Map::insert`, `Value::from` and the `Display` of `Value` of the
/// serde_json crate: the text of the JSON object that has each number and
/// each text under its name, put in in that order. The result is only
/// named.
#[verifier::external_body]
fn json_text(number_names: [&str; 3], numbers: [i32; 3], text_names: [&str; 3], texts: [&str; 3]) -> (r:
    String)
    ensures
        r@ == json_object(
            Seq::new(3, |i: int| number_names@[i]@),
            numbers@,
            Seq::new(3, |i: int| text_names@[i]@),
            Seq::new(3, |i: int| texts@[i]@),
        ),
{
    let mut members = serde_json::Map::new();
    members.insert(number_names[0].to_string(), serde_json::Value::from(numbers[0]));
    members.insert(number_names[1].to_string(), serde_json::Value::from(numbers[1]));
    members.insert(number_names[2].to_string(), serde_json::Value::from(numbers[2]));
    members.insert(text_names[0].to_string(), serde_json::Value::from(texts[0]));
    members.insert(text_names[1].to_string(), serde_json::Value::from(texts[1]));
    members.insert(text_names[2].to_string(), serde_json::Value::from(texts[2]));
    serde_json::Value::Object(members).to_string()
}

/// The JSON document of a drawing: an object with the members `x`, `y`,
/// `radius`, `scale`, `stroke` and `fill`.
pub open spec fn draw_document(request: DrawRequestView) -> Seq<char> {
    json_object(
        seq!["x"@, "y"@, "radius"@],
        seq![request.x, request.y, request.radius],
        seq!["scale"@, "stroke"@, "fill"@],
        seq![request.scale, request.stroke, request.fill],
    )
}

/// Whether a scale is one of the seven that the map knows.
pub open spec fn allowed_scale(scale: Seq<char>) -> bool {
    scale == "tiny"@ || scale == "small"@ || scale == "normal"@ || scale == "large"@ || scale
        == "huge"@ || scale == "mega"@ || scale == "giga"@
}

/// The two colors of a text that holds exactly one comma: what stands
/// before it and what stands after it, each without the whitespace around
/// it.
pub open spec fn color_parts(colors: Seq<char>) -> Option<(Seq<char>, Seq<char>)> {
    let bytes = encode_utf8(colors);
    let comma = last_index_of(bytes, 0x2C);
    if count_of(bytes, 0x2C) != 1 {
        None
    } else {
        Some(
            (
                trimmed(decode_utf8(bytes.subrange(0, comma))),
                trimmed(decode_utf8(bytes.subrange(comma + 1, bytes.len() as int))),
            ),
        )
    }
}

/// The number that a setting holds, or what is wrong with it, in words.
pub open spec fn limit_value(name: Seq<char>, value: Option<Seq<char>>) -> Result<i32, Seq<char>> {
    match value {
        None => Err("Missing environment variable: "@ + name),
        Some(text) => match parse_i32(encode_utf8(text)) {
            Some(n) => Ok(n),
            None => Err("Environment var "@ + name + " is not a valid integer: "@ + text),
        },
    }
}

/// What to make of a coordinate between two limits.
pub open spec fn range_verdict(axis: Seq<char>, value: i32, min: i32, max: i32) -> Option<
    Seq<char>,
> {
    if value < min || value > max {
        Some(
            "\u{274c} `"@ + axis + "` out of range ("@ + signed_decimal(min as int) + "..="@
                + signed_decimal(max as int) + "): got "@ + signed_decimal(value as int),
        )
    } else {
        None
    }
}

/// What to make of the position of a drawing: the first setting that is
/// missing or no number, in the order min x, max x, min y, max y, or else
/// the first coordinate that lies outside its limits.
pub open spec fn position_verdict(x: i32, y: i32, limits: DrawLimitsView) -> Option<Seq<char>> {
    let min_x = limit_value("DRAW_MIN_X"@, limits.min_x);
    let max_x = limit_value("DRAW_MAX_X"@, limits.max_x);
    let min_y = limit_value("DRAW_MIN_Y"@, limits.min_y);
    let max_y = limit_value("DRAW_MAX_Y"@, limits.max_y);
    if min_x is Err {
        Some("\u{274c} "@ + min_x->Err_0)
    } else if max_x is Err {
        Some("\u{274c} "@ + max_x->Err_0)
    } else if min_y is Err {
        Some("\u{274c} "@ + min_y->Err_0)
    } else if max_y is Err {
        Some("\u{274c} "@ + max_y->Err_0)
    } else if range_verdict("x"@, x, min_x->Ok_0, max_x->Ok_0) is Some {
        range_verdict("x"@, x, min_x->Ok_0, max_x->Ok_0)
    } else {
        range_verdict("y"@, y, min_y->Ok_0, max_y->Ok_0)
    }
}

/// What to make of a color: nothing where it is one, else the reply that
/// says which color is wrong and shows the error.
pub open spec fn color_verdict(which: Seq<char>, color: Seq<char>) -> Option<Seq<char>> {
    match hex_color(color) {
        Ok(_) => None,
        Err(why) => Some(
            "\u{274c} Invalid "@ + which + " color: "@ + ErrorView::InvalidInput(why).display(),
        ),
    }
}

/// What to make of a request for a drawing, given the two colors that
/// were found in it: the request itself where every check passes, else
/// the reply for the first check that fails. The checks are, in order:
/// the scale, the radius, the number of colors, the stroke color, the
/// fill color, the limits and the position within them.
pub open spec fn draw_verdict(
    x: i32,
    y: i32,
    radius: i32,
    scale: Seq<char>,
    colors: Option<(Seq<char>, Seq<char>)>,
    limits: DrawLimitsView,
) -> Result<DrawRequestView, Seq<char>> {
    if !allowed_scale(scale) {
        Err(
            "\u{274c} Invalid scale '"@ + scale
                + "'. Allowed: tiny, small, normal, large, huge, mega, giga"@,
        )
    } else if radius <= 0 {
        Err("\u{274c} Radius must be a positive integer."@)
    } else if radius > MAX_RADIUS {
        Err("\u{274c} Radius is too large. Maximum allowed: 10000"@)
    } else {
        match colors {
            None => Err(
                "\u{274c} `colors` must be two hex RGB values separated by a comma, e.g. FF5733,00AAFF"@,
            ),
            Some((stroke, fill)) => if color_verdict("stroke"@, stroke) is Some {
                Err(color_verdict("stroke"@, stroke)->0)
            } else if color_verdict("fill"@, fill) is Some {
                Err(color_verdict("fill"@, fill)->0)
            } else if position_verdict(x, y, limits) is Some {
                Err(position_verdict(x, y, limits)->0)
            } else {
                Ok(DrawRequestView { x, y, radius, scale, stroke, fill })
            },
        }
    }
}

/// Whether a scale is one of the seven that the map knows.
pub fn is_allowed_scale(scale: &str) -> (r: bool)
    ensures
        r == allowed_scale(scale@),
{
    same_text(scale, "tiny") || same_text(scale, "small") || same_text(scale, "normal")
        || same_text(scale, "large") || same_text(scale, "huge") || same_text(scale, "mega")
        || same_text(scale, "giga")
}

/// Takes a text of the form `stroke,fill` apart into its two colors.
pub fn split_colors(colors: &str) -> (r: Option<(&str, &str)>)
    ensures
        match r {
            Some((stroke, fill)) => color_parts(colors@) == Some((stroke@, fill@)),
            None => color_parts(colors@) is None,
        },
{
    let bytes = colors.as_bytes();
    if count_byte(bytes, 0x2C) != 1 {
        return None;
    }
    proof {
        lemma_last_index_of(bytes@, 0x2C);
    }
    match rfind_byte(bytes, 0x2C) {
        Some(comma) => {
            let (before, after) = split_around(colors, comma);
            proof {
                lemma_text_of_bytes(before);
                lemma_text_of_bytes(after);
            }
            Some((trim_text(before), trim_text(after)))
        },
        None => {
            proof {
                lemma_count_without(bytes@, 0x2C);
            }
            None
        },
    }
}

proof fn lemma_count_without(bytes: Seq<u8>, byte: u8)
    requires
        last_index_of(bytes, byte) == -1,
    ensures
        count_of(bytes, byte) == 0,
    decreases bytes.len(),
{
    if bytes.len() > 0 {
        lemma_last_index_of(bytes.drop_last(), byte);
        lemma_count_without(bytes.drop_last(), byte);
    }
}

/// Reads the number that a setting holds.
pub fn read_limit(name: &str, value: Option<&str>) -> (r: Result<i32, String>)
    ensures
        match r {
            Ok(n) => limit_value(name@, setting_view(value)) == Ok::<i32, Seq<char>>(n),
            Err(e) => limit_value(name@, setting_view(value)) == Err::<i32, Seq<char>>(e@),
        },
{
    match value {
        None => Err(String::from_str("Missing environment variable: ").concat(name)),
        Some(text) => match parse_i32_text(text.as_bytes()) {
            Some(n) => Ok(n),
            None => {
                let mut message = concat3("Environment var ", name, " is not a valid integer: ");
                message.append(text);
                Err(message)
            },
        },
    }
}

fn check_range(axis: &str, value: i32, min: i32, max: i32) -> (r: Option<String>)
    ensures
        match r {
            Some(reply) => range_verdict(axis@, value, min, max) == Some(reply@),
            None => range_verdict(axis@, value, min, max) is None,
        },
{
    if value < min || value > max {
        let mut reply = concat3("\u{274c} `", axis, "` out of range (");
        reply.append(signed_string(min).as_str());
        reply.append("..=");
        reply.append(signed_string(max).as_str());
        reply.append("): got ");
        reply.append(signed_string(value).as_str());
        Some(reply)
    } else {
        None
    }
}

fn flagged(message: String) -> (r: String)
    ensures
        r@ == "\u{274c} "@ + message@,
{
    String::from_str("\u{274c} ").concat(message.as_str())
}

/// Checks the position of a drawing against the limits.
pub fn check_position(x: i32, y: i32, limits: &DrawLimits) -> (r: Option<String>)
    ensures
        match r {
            Some(reply) => position_verdict(x, y, limits@) == Some(reply@),
            None => position_verdict(x, y, limits@) is None,
        },
{
    let min_x: i32 = match read_limit("DRAW_MIN_X", limits.min_x) {
        Ok(n) => n,
        Err(e) => { return Some(flagged(e)); },
    };
    let max_x: i32 = match read_limit("DRAW_MAX_X", limits.max_x) {
        Ok(n) => n,
        Err(e) => { return Some(flagged(e)); },
    };
    let min_y: i32 = match read_limit("DRAW_MIN_Y", limits.min_y) {
        Ok(n) => n,
        Err(e) => { return Some(flagged(e)); },
    };
    let max_y: i32 = match read_limit("DRAW_MAX_Y", limits.max_y) {
        Ok(n) => n,
        Err(e) => { return Some(flagged(e)); },
    };
    if let Some(reply) = check_range("x", x, min_x, max_x) {
        return Some(reply);
    }
    check_range("y", y, min_y, max_y)
}

fn check_color(which: &str, color: &str) -> (r: Option<String>)
    ensures
        match r {
            Some(reply) => color_verdict(which@, color@) == Some(reply@),
            None => color_verdict(which@, color@) is None,
        },
{
    match validate_hex_color(color) {
        Ok(()) => None,
        Err(e) => {
            let mut reply = concat3("\u{274c} Invalid ", which, " color: ");
            let shown = e.to_string();
            reply.append(shown.as_str());
            assert(e@ == ErrorView::InvalidInput(e@.detail()));
            Some(reply)
        },
    }
}

/// Judges a request for a drawing, given the two colors found in it.
pub fn judge_draw(
    x: i32,
    y: i32,
    radius: i32,
    scale: &str,
    colors: Option<(&str, &str)>,
    limits: &DrawLimits,
) -> (r: Result<DrawRequest, String>)
    ensures
        match r {
            Ok(request) => draw_verdict(
                x,
                y,
                radius,
                scale@,
                match colors {
                    Some((s, f)) => Some((s@, f@)),
                    None => None,
                },
                limits@,
            ) == Ok::<DrawRequestView, Seq<char>>(request@),
            Err(reply) => draw_verdict(
                x,
                y,
                radius,
                scale@,
                match colors {
                    Some((s, f)) => Some((s@, f@)),
                    None => None,
                },
                limits@,
            ) == Err::<DrawRequestView, Seq<char>>(reply@),
        },
{
    if !is_allowed_scale(scale) {
        return Err(
            concat3(
                "\u{274c} Invalid scale '",
                scale,
                "'. Allowed: tiny, small, normal, large, huge, mega, giga",
            ),
        );
    }
    if radius <= 0 {
        return Err(String::from_str("\u{274c} Radius must be a positive integer."));
    }
    if radius > MAX_RADIUS {
        return Err(String::from_str("\u{274c} Radius is too large. Maximum allowed: 10000"));
    }
    let (stroke, fill) = match colors {
        Some(parts) => parts,
        None => {
            return Err(
                String::from_str(
                    "\u{274c} `colors` must be two hex RGB values separated by a comma, e.g. FF5733,00AAFF",
                ),
            );
        },
    };
    if let Some(reply) = check_color("stroke", stroke) {
        return Err(reply);
    }
    if let Some(reply) = check_color("fill", fill) {
        return Err(reply);
    }
    if let Some(reply) = check_position(x, y, limits) {
        return Err(reply);
    }
    Ok(
        DrawRequest {
            x,
            y,
            radius,
            scale: String::from_str(scale),
            stroke: String::from_str(stroke),
            fill: String::from_str(fill),
        },
    )
}

/// Judges a request for a drawing whose colors come as one text of the
/// form `stroke,fill`.
pub fn plan_draw(x: i32, y: i32, radius: i32, scale: &str, colors: &str, limits: &DrawLimits) -> (r:
    Result<DrawRequest, String>)
    ensures
        match r {
            Ok(request) => draw_verdict(x, y, radius, scale@, color_parts(colors@), limits@) == Ok::<
                DrawRequestView,
                Seq<char>,
            >(request@),
            Err(reply) => draw_verdict(x, y, radius, scale@, color_parts(colors@), limits@) == Err::<
                DrawRequestView,
                Seq<char>,
            >(reply@),
        },
{
    judge_draw(x, y, radius, scale, split_colors(colors), limits)
}

impl DrawRequest {
    /// The JSON document of the drawing.
    pub fn to_json(&self) -> (r: String)
        ensures
            r@ == draw_document(self@),
    {
        let number_names: [&str; 3] = ["x", "y", "radius"];
        let numbers: [i32; 3] = [self.x, self.y, self.radius];
        let text_names: [&str; 3] = ["scale", "stroke", "fill"];
        let texts: [&str; 3] = [self.scale.as_str(), self.stroke.as_str(), self.fill.as_str()];
        let text = json_text(number_names, numbers, text_names, texts);
        proof {
            assert(Seq::new(3, |i: int| number_names@[i]@) =~= seq!["x"@, "y"@, "radius"@]);
            assert(numbers@ =~= seq![self.x, self.y, self.radius]);
            assert(Seq::new(3, |i: int| text_names@[i]@) =~= seq!["scale"@, "stroke"@, "fill"@]);
            assert(Seq::new(3, |i: int| texts@[i]@) =~= seq![self.scale@, self.stroke@, self.fill@]);
        }
        text
    }
}

} // verus!
