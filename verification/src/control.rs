//! Per-frame control-state consumption. The environment fills a small
//! record with pointer and wheel events; the core reads it once per frame,
//! decides what the camera should do, and resets the edge-triggered flags,
//! so a click or wheel event is visible for exactly one frame.
//!
//! The floating-point camera arithmetic itself (rotation about the view
//! axis, panning along the view plane, zooming along the view direction)
//! is carried out by the embedder from the integer deltas decided here.

use vstd::prelude::*;

use crate::scene::Color8;

verus! {

/// The control-state record the environment fills between frames.
#[derive(Clone, Copy, PartialEq, Eq, Structural, Debug)]
pub struct ControlState {
    pub movement_x: i32,
    pub movement_y: i32,
    pub on_click: bool,
    pub wheel_delta_y: i32,
    pub on_wheel: bool,
    pub on_shift: bool,
}

/// What the camera does this frame: orbit (drag), pan (shift-drag), or
/// nothing.
#[derive(Clone, Copy, PartialEq, Eq, Structural, Debug)]
pub enum CameraAction {
    Orbit,
    Pan,
    Idle,
}

/// The camera update decided from one frame's control state.
#[derive(Clone, Copy, PartialEq, Eq, Structural, Debug)]
pub struct ControlUpdate {
    pub action: CameraAction,
    pub movement_x: i32,
    pub movement_y: i32,
    pub zoom: bool,
    pub wheel_delta_y: i32,
}

/// The action a control state calls for: orbit on a plain drag, pan on a
/// shift-drag, nothing otherwise.
pub open spec fn spec_camera_action(input: ControlState) -> CameraAction {
    if input.on_click && !input.on_shift {
        CameraAction::Orbit
    } else if input.on_click && input.on_shift {
        CameraAction::Pan
    } else {
        CameraAction::Idle
    }
}

/// Consumes one frame's control state: decides the camera action and the
/// deltas to apply, then resets the click and wheel flags (edge-triggered
/// semantics — each such event drives exactly one frame). The shift state
/// and the raw deltas stay for the environment to overwrite.
pub fn update_control(input: &mut ControlState) -> (r: ControlUpdate)
    ensures
        r.action == spec_camera_action(*old(input)),
        r.movement_x == old(input).movement_x,
        r.movement_y == old(input).movement_y,
        r.zoom == old(input).on_wheel,
        r.wheel_delta_y == old(input).wheel_delta_y,
        *final (input) == (ControlState { on_click: false, on_wheel: false, ..*old(input) }),
{
    let action = if input.on_click && !input.on_shift {
        CameraAction::Orbit
    } else if input.on_click && input.on_shift {
        CameraAction::Pan
    } else {
        CameraAction::Idle
    };
    let r = ControlUpdate {
        action,
        movement_x: input.movement_x,
        movement_y: input.movement_y,
        zoom: input.on_wheel,
        wheel_delta_y: input.wheel_delta_y,
    };
    input.on_click = false;
    input.on_wheel = false;
    r
}

/// The value of one ASCII hex digit, either case.
pub open spec fn hex_digit_value(b: u8) -> Option<u8> {
    if 48 <= b <= 57 {
        Option::Some((b - 48) as u8)
    } else if 97 <= b <= 102 {
        Option::Some((b - 87) as u8)
    } else if 65 <= b <= 70 {
        Option::Some((b - 55) as u8)
    } else {
        Option::None
    }
}

/// The lower-case ASCII digit of a value below sixteen.
pub open spec fn hex_digit_ascii(v: u8) -> u8 {
    if v < 10 {
        (48 + v) as u8
    } else {
        (87 + v) as u8
    }
}

/// The color a `#rrggbb` picker string denotes, with full alpha; `None`
/// for anything else.
pub open spec fn spec_parse_hex_color(s: Seq<u8>) -> Option<Color8> {
    if s.len() == 7 && s[0] == 35 && hex_digit_value(s[1]) is Some && hex_digit_value(s[2]) is Some
        && hex_digit_value(s[3]) is Some && hex_digit_value(s[4]) is Some && hex_digit_value(
        s[5],
    ) is Some && hex_digit_value(s[6]) is Some {
        Option::Some(
            Color8 {
                r: (hex_digit_value(s[1])->Some_0 * 16 + hex_digit_value(s[2])->Some_0) as u8,
                g: (hex_digit_value(s[3])->Some_0 * 16 + hex_digit_value(s[4])->Some_0) as u8,
                b: (hex_digit_value(s[5])->Some_0 * 16 + hex_digit_value(s[6])->Some_0) as u8,
                a: 255,
            },
        )
    } else {
        Option::None
    }
}

/// Reads one ASCII hex digit.
fn hex_digit(b: u8) -> (r: Option<u8>)
    ensures
        r == hex_digit_value(b),
{
    if 48 <= b && b <= 57 {
        Option::Some(b - 48)
    } else if 97 <= b && b <= 102 {
        Option::Some(b - 87)
    } else if 65 <= b && b <= 70 {
        Option::Some(b - 55)
    } else {
        Option::None
    }
}

/// Parses the `#rrggbb` string a color picker hands over, with full
/// alpha. Rejects anything that is not exactly a hash and six hex digits.
pub fn parse_hex_color(text: &[u8]) -> (r: Option<Color8>)
    ensures
        r == spec_parse_hex_color(text@),
{
    if text.len() != 7 {
        return Option::None;
    }
    if text[0] != 35 {
        return Option::None;
    }
    let d1 = hex_digit(text[1]);
    let d2 = hex_digit(text[2]);
    let d3 = hex_digit(text[3]);
    let d4 = hex_digit(text[4]);
    let d5 = hex_digit(text[5]);
    let d6 = hex_digit(text[6]);
    match (d1, d2, d3, d4, d5, d6) {
        (
            Option::Some(r1),
            Option::Some(r2),
            Option::Some(g1),
            Option::Some(g2),
            Option::Some(b1),
            Option::Some(b2),
        ) => Option::Some(
            Color8 { r: r1 * 16 + r2, g: g1 * 16 + g2, b: b1 * 16 + b2, a: 255 },
        ),
        _ => Option::None,
    }
}

/// Writes a color as the `#rrggbb` string a color picker takes, lower
/// case, alpha dropped.
pub fn color_hex_bytes(c: Color8) -> (r: Vec<u8>)
    ensures
        r@ == seq![
            35u8,
            hex_digit_ascii(c.r / 16),
            hex_digit_ascii(c.r % 16),
            hex_digit_ascii(c.g / 16),
            hex_digit_ascii(c.g % 16),
            hex_digit_ascii(c.b / 16),
            hex_digit_ascii(c.b % 16),
        ],
{
    let mut out: Vec<u8> = Vec::new();
    out.push(35);
    out.push(hex_digit_byte(c.r / 16));
    out.push(hex_digit_byte(c.r % 16));
    out.push(hex_digit_byte(c.g / 16));
    out.push(hex_digit_byte(c.g % 16));
    out.push(hex_digit_byte(c.b / 16));
    out.push(hex_digit_byte(c.b % 16));
    proof {
        assert(out@ =~= seq![
            35u8,
            hex_digit_ascii(c.r / 16),
            hex_digit_ascii(c.r % 16),
            hex_digit_ascii(c.g / 16),
            hex_digit_ascii(c.g % 16),
            hex_digit_ascii(c.b / 16),
            hex_digit_ascii(c.b % 16),
        ]);
    }
    out
}

/// Writes a value below sixteen as its lower-case ASCII digit.
fn hex_digit_byte(v: u8) -> (r: u8)
    requires
        v < 16,
    ensures
        r == hex_digit_ascii(v),
{
    if v < 10 {
        48 + v
    } else {
        87 + v
    }
}

/// Reading a written digit gives the value back.
proof fn lemma_hex_digit_round_trip(v: u8)
    requires
        v < 16,
    ensures
        hex_digit_value(hex_digit_ascii(v)) == Option::Some(v),
{
}

/// Round trip: parsing the string written for a color recovers the color,
/// up to the alpha channel the string never carries.
pub proof fn lemma_hex_color_round_trip(c: Color8)
    ensures
        spec_parse_hex_color(
            seq![
                35u8,
                hex_digit_ascii(c.r / 16),
                hex_digit_ascii(c.r % 16),
                hex_digit_ascii(c.g / 16),
                hex_digit_ascii(c.g % 16),
                hex_digit_ascii(c.b / 16),
                hex_digit_ascii(c.b % 16),
            ],
        ) == Option::Some(Color8 { r: c.r, g: c.g, b: c.b, a: 255 }),
{
    lemma_hex_digit_round_trip(c.r / 16);
    lemma_hex_digit_round_trip(c.r % 16);
    lemma_hex_digit_round_trip(c.g / 16);
    lemma_hex_digit_round_trip(c.g % 16);
    lemma_hex_digit_round_trip(c.b / 16);
    lemma_hex_digit_round_trip(c.b % 16);
}

} // verus!
