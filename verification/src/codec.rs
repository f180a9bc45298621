//! Wire codec for input events.
//!
//! A message is UTF-8 text whose fields are separated by commas; the first
//! field is an event tag.  Decoding never fails the connection: a message
//! with an unknown tag or a malformed field decodes to nothing and is
//! dropped by the caller.  Replies to the controller use the same framing.
//!
//! Fractional fields are held as counts of millionths (sub-pixels), so the
//! codec and everything downstream stay within integer arithmetic.

use vstd::prelude::*;
use vstd::slice::{slice_subrange, slice_to_vec};
use crate::numparse::{
    find_byte, find_first, fraction_bytes, format_fraction_micro, int_value, is_int_literal,
    decimal_micro, decimal_micro_mag, is_decimal_literal, parse_i32, parse_micro,
};
use crate::wheel::MAX_WHEEL_DELTA;

verus! {

/// Field separator.
pub const COMMA: u8 = 0x2c;

/// The bytes of `mousemove`.
pub open spec fn tag_mousemove() -> Seq<u8> {
    seq![0x6du8, 0x6fu8, 0x75u8, 0x73u8, 0x65u8, 0x6du8, 0x6fu8, 0x76u8, 0x65u8]
}

/// The bytes of `mouseidle`.
pub open spec fn tag_mouseidle() -> Seq<u8> {
    seq![0x6du8, 0x6fu8, 0x75u8, 0x73u8, 0x65u8, 0x69u8, 0x64u8, 0x6cu8, 0x65u8]
}

/// The bytes of `mousedown`.
pub open spec fn tag_mousedown() -> Seq<u8> {
    seq![0x6du8, 0x6fu8, 0x75u8, 0x73u8, 0x65u8, 0x64u8, 0x6fu8, 0x77u8, 0x6eu8]
}

/// The bytes of `mouseup`.
pub open spec fn tag_mouseup() -> Seq<u8> {
    seq![0x6du8, 0x6fu8, 0x75u8, 0x73u8, 0x65u8, 0x75u8, 0x70u8]
}

/// The bytes of `wheel`.
pub open spec fn tag_wheel() -> Seq<u8> {
    seq![0x77u8, 0x68u8, 0x65u8, 0x65u8, 0x6cu8]
}

/// The bytes of `keydown`.
pub open spec fn tag_keydown() -> Seq<u8> {
    seq![0x6bu8, 0x65u8, 0x79u8, 0x64u8, 0x6fu8, 0x77u8, 0x6eu8]
}

/// The bytes of `keyup`.
pub open spec fn tag_keyup() -> Seq<u8> {
    seq![0x6bu8, 0x65u8, 0x79u8, 0x75u8, 0x70u8]
}

/// The bytes of `copy`.
pub open spec fn tag_copy() -> Seq<u8> {
    seq![0x63u8, 0x6fu8, 0x70u8, 0x79u8]
}

/// The bytes of `cut`.
pub open spec fn tag_cut() -> Seq<u8> {
    seq![0x63u8, 0x75u8, 0x74u8]
}

/// The bytes of `paste`.
pub open spec fn tag_paste() -> Seq<u8> {
    seq![0x70u8, 0x61u8, 0x73u8, 0x74u8, 0x65u8]
}

/// The bytes of `leftjump`.
pub open spec fn tag_leftjump() -> Seq<u8> {
    seq![0x6cu8, 0x65u8, 0x66u8, 0x74u8, 0x6au8, 0x75u8, 0x6du8, 0x70u8]
}

/// The bytes of `mousehide`.
pub open spec fn tag_mousehide() -> Seq<u8> {
    seq![0x6du8, 0x6fu8, 0x75u8, 0x73u8, 0x65u8, 0x68u8, 0x69u8, 0x64u8, 0x65u8]
}

/// The bytes of `desktopinfo`.
pub open spec fn tag_desktopinfo() -> Seq<u8> {
    seq![0x64u8, 0x65u8, 0x73u8, 0x6bu8, 0x74u8, 0x6fu8, 0x70u8, 0x69u8, 0x6eu8, 0x66u8, 0x6fu8]
}

/// The bytes of `mouseright`.
pub open spec fn tag_mouseright() -> Seq<u8> {
    seq![0x6du8, 0x6fu8, 0x75u8, 0x73u8, 0x65u8, 0x72u8, 0x69u8, 0x67u8, 0x68u8, 0x74u8]
}

/// The bytes of `toofast`.
pub open spec fn tag_toofast() -> Seq<u8> {
    seq![0x74u8, 0x6fu8, 0x6fu8, 0x66u8, 0x61u8, 0x73u8, 0x74u8]
}

/// The bytes of `copycut`.
pub open spec fn tag_copycut() -> Seq<u8> {
    seq![0x63u8, 0x6fu8, 0x70u8, 0x79u8, 0x63u8, 0x75u8, 0x74u8]
}

/// A decoded input event.
#[derive(PartialEq, Eq, Debug)]
pub enum InputEvent {
    /// Relative pointer delta accumulated since the previous sample.
    MouseMove { dx: i32, dy: i32 },
    /// The pointer stopped; pacing state is reset.
    MouseIdle,
    /// Button press, in W3C button codes.
    MouseDown { button: i32 },
    /// Button release, in W3C button codes.
    MouseUp { button: i32 },
    /// Scroll delta; mode zero is pixels, anything else lines or pages.
    Wheel { delta_mode: i32, dx_micro: i64, dy_micro: i64 },
    /// Key press: physical code plus logical key label.
    KeyDown { code: Vec<u8>, key: Vec<u8> },
    /// Key release.
    KeyUp { code: Vec<u8>, key: Vec<u8> },
    /// Read the clipboard and reply with its contents.
    CopyRequest,
    /// As `CopyRequest`, for a cut.
    CutRequest,
    /// Write the clipboard and press the paste chord.
    Paste { data: Vec<u8> },
    /// Warp the cursor near the left screen edge at a vertical fraction.
    LeftJump { height_micro: i64 },
    /// Park the cursor near the bottom edge and disarm edge checking.
    MouseHide,
}

/// Mathematical model of a decoded event.
pub ghost enum EventModel {
    MouseMove { dx: int, dy: int },
    MouseIdle,
    MouseDown { button: int },
    MouseUp { button: int },
    Wheel { delta_mode: int, dx_micro: int, dy_micro: int },
    KeyDown { code: Seq<u8>, key: Seq<u8> },
    KeyUp { code: Seq<u8>, key: Seq<u8> },
    CopyRequest,
    CutRequest,
    Paste { data: Seq<u8> },
    LeftJump { height_micro: int },
    MouseHide,
}

impl View for InputEvent {
    type V = EventModel;

    open spec fn view(&self) -> EventModel {
        match self {
            InputEvent::MouseMove { dx, dy } => EventModel::MouseMove {
                dx: *dx as int,
                dy: *dy as int,
            },
            InputEvent::MouseIdle => EventModel::MouseIdle,
            InputEvent::MouseDown { button } => EventModel::MouseDown { button: *button as int },
            InputEvent::MouseUp { button } => EventModel::MouseUp { button: *button as int },
            InputEvent::Wheel { delta_mode, dx_micro, dy_micro } => EventModel::Wheel {
                delta_mode: *delta_mode as int,
                dx_micro: *dx_micro as int,
                dy_micro: *dy_micro as int,
            },
            InputEvent::KeyDown { code, key } => EventModel::KeyDown { code: code@, key: key@ },
            InputEvent::KeyUp { code, key } => EventModel::KeyUp { code: code@, key: key@ },
            InputEvent::CopyRequest => EventModel::CopyRequest,
            InputEvent::CutRequest => EventModel::CutRequest,
            InputEvent::Paste { data } => EventModel::Paste { data: data@ },
            InputEvent::LeftJump { height_micro } => EventModel::LeftJump {
                height_micro: *height_micro as int,
            },
            InputEvent::MouseHide => EventModel::MouseHide,
        }
    }
}

/// Whether a parsed integer fits an `i32` field.
pub open spec fn in_i32(v: int) -> bool {
    -0x8000_0000 <= v <= 0x7fff_ffff
}

/// A field that is an integer literal in `i32` range.
pub open spec fn ok_i32_field(f: Seq<u8>) -> bool {
    is_int_literal(f) && in_i32(int_value(f))
}

/// A field that is a decimal literal within the accepted magnitude.
pub open spec fn ok_micro_field(f: Seq<u8>) -> bool {
    is_decimal_literal(f) && decimal_micro_mag(f) <= MAX_WHEEL_DELTA
}

/// Two comma-separated integer fields and nothing more.
pub open spec fn decode_two_ints(rest: Seq<u8>) -> Option<(int, int)> {
    let k = find_first(rest, COMMA);
    if k == rest.len() {
        None
    } else {
        let f1 = rest.take(k);
        let f2 = rest.skip(k + 1);
        if find_first(f2, COMMA) != f2.len() {
            None
        } else if ok_i32_field(f1) && ok_i32_field(f2) {
            Some((int_value(f1), int_value(f2)))
        } else {
            None
        }
    }
}

/// A single integer field and nothing more.
pub open spec fn decode_one_int(rest: Seq<u8>) -> Option<int> {
    if find_first(rest, COMMA) != rest.len() {
        None
    } else if ok_i32_field(rest) {
        Some(int_value(rest))
    } else {
        None
    }
}

/// A single decimal field and nothing more.
pub open spec fn decode_one_micro(rest: Seq<u8>) -> Option<int> {
    if find_first(rest, COMMA) != rest.len() {
        None
    } else if ok_micro_field(rest) {
        Some(decimal_micro(rest))
    } else {
        None
    }
}

/// An integer mode field followed by two decimal fields.
pub open spec fn decode_wheel_fields(rest: Seq<u8>) -> Option<(int, int, int)> {
    let k = find_first(rest, COMMA);
    if k == rest.len() {
        None
    } else {
        let f1 = rest.take(k);
        let r2 = rest.skip(k + 1);
        let k2 = find_first(r2, COMMA);
        if k2 == r2.len() {
            None
        } else {
            let f2 = r2.take(k2);
            let f3 = r2.skip(k2 + 1);
            if find_first(f3, COMMA) != f3.len() {
                None
            } else if ok_i32_field(f1) && ok_micro_field(f2) && ok_micro_field(f3) {
                Some((int_value(f1), decimal_micro(f2), decimal_micro(f3)))
            } else {
                None
            }
        }
    }
}

/// A code field followed by the key label, which is the whole remainder and
/// may itself contain commas (the label of the comma key is a comma).
pub open spec fn decode_key_fields(rest: Seq<u8>) -> Option<(Seq<u8>, Seq<u8>)> {
    let k = find_first(rest, COMMA);
    if k == rest.len() {
        None
    } else {
        Some((rest.take(k), rest.skip(k + 1)))
    }
}

/// What a wire message decodes to, if anything.  The tag is the text up to
/// the first comma; the fields follow it.  Tags that carry no fields stand
/// alone.  Anything else — an unknown tag, a missing or malformed field — is
/// dropped.
pub open spec fn spec_decode(m: Seq<u8>) -> Option<EventModel> {
    let k = find_first(m, COMMA);
    let tag = m.take(k);
    if k == m.len() {
        if tag == tag_mouseidle() {
            Some(EventModel::MouseIdle)
        } else if tag == tag_copy() {
            Some(EventModel::CopyRequest)
        } else if tag == tag_cut() {
            Some(EventModel::CutRequest)
        } else if tag == tag_mousehide() {
            Some(EventModel::MouseHide)
        } else {
            None
        }
    } else {
        let rest = m.skip(k + 1);
        if tag == tag_mousemove() {
            match decode_two_ints(rest) {
                Some((dx, dy)) => Some(EventModel::MouseMove { dx, dy }),
                None => None,
            }
        } else if tag == tag_mousedown() {
            match decode_one_int(rest) {
                Some(b) => Some(EventModel::MouseDown { button: b }),
                None => None,
            }
        } else if tag == tag_mouseup() {
            match decode_one_int(rest) {
                Some(b) => Some(EventModel::MouseUp { button: b }),
                None => None,
            }
        } else if tag == tag_wheel() {
            match decode_wheel_fields(rest) {
                Some((mode, dx, dy)) => Some(
                    EventModel::Wheel { delta_mode: mode, dx_micro: dx, dy_micro: dy },
                ),
                None => None,
            }
        } else if tag == tag_keydown() {
            match decode_key_fields(rest) {
                Some((code, key)) => Some(EventModel::KeyDown { code, key }),
                None => None,
            }
        } else if tag == tag_keyup() {
            match decode_key_fields(rest) {
                Some((code, key)) => Some(EventModel::KeyUp { code, key }),
                None => None,
            }
        } else if tag == tag_paste() {
            Some(EventModel::Paste { data: rest })
        } else if tag == tag_leftjump() {
            match decode_one_micro(rest) {
                Some(h) => Some(EventModel::LeftJump { height_micro: h }),
                None => None,
            }
        } else {
            None
        }
    }
}

/// Decoded wheel deltas always lie within the accepted magnitude.
pub proof fn lemma_wheel_fields_bounded(m: Seq<u8>)
    ensures
        spec_decode(m) matches Some(EventModel::Wheel { delta_mode, dx_micro, dy_micro })
            ==> -MAX_WHEEL_DELTA <= dx_micro <= MAX_WHEEL_DELTA && -MAX_WHEEL_DELTA <= dy_micro
            <= MAX_WHEEL_DELTA,
{
    if spec_decode(m) matches Some(EventModel::Wheel { delta_mode, dx_micro, dy_micro }) {
        let k = find_first(m, COMMA);
        let rest = m.skip(k + 1);
        let k1 = find_first(rest, COMMA);
        let r2 = rest.skip(k1 + 1);
        let k2 = find_first(r2, COMMA);
        let f2 = r2.take(k2);
        let f3 = r2.skip(k2 + 1);
        crate::numparse::lemma_decimal_micro_within(f2);
        crate::numparse::lemma_decimal_micro_within(f3);
    }
}

/// Byte-for-byte equality of two slices.
pub(crate) fn bytes_eq(a: &[u8], b: &[u8]) -> (r: bool)
    ensures
        r == (a@ == b@),
{
    let n = a.len();
    if n != b.len() {
        return false;
    }
    let mut i: usize = 0;
    while i < n
        invariant
            0 <= i <= n,
            n == a@.len(),
            n == b@.len(),
            forall|j: int| 0 <= j < i ==> a@[j] == b@[j],
        decreases n - i,
    {
        if a[i] != b[i] {
            return false;
        }
        i = i + 1;
    }
    proof {
        assert(a@ =~= b@);
    }
    true
}

/// Decode one wire message.  Returns exactly what the message grammar gives:
/// no event for an unknown tag or a malformed field.
pub fn decode(m: &[u8]) -> (r: Option<InputEvent>)
    ensures
        r is Some <==> spec_decode(m@) is Some,
        r matches Some(e) ==> spec_decode(m@) == Some(e@),
{
    let n = m.len();
    let k = find_byte(m, COMMA);
    proof {
        crate::numparse::lemma_find_first_bounds(m@, COMMA);
    }
    let tag = slice_subrange(m, 0, k);
    proof {
        assert(tag@ =~= m@.take(find_first(m@, COMMA)));
    }
    if k == n {
        let a_mouseidle: [u8; 9] = [0x6d, 0x6f, 0x75, 0x73, 0x65, 0x69, 0x64, 0x6c, 0x65];
        let a_copy: [u8; 4] = [0x63, 0x6f, 0x70, 0x79];
        let a_cut: [u8; 3] = [0x63, 0x75, 0x74];
        let a_mousehide: [u8; 9] = [0x6d, 0x6f, 0x75, 0x73, 0x65, 0x68, 0x69, 0x64, 0x65];
        proof {
            assert(a_mouseidle@ =~= tag_mouseidle());
            assert(a_copy@ =~= tag_copy());
            assert(a_cut@ =~= tag_cut());
            assert(a_mousehide@ =~= tag_mousehide());
        }
        if bytes_eq(tag, a_mouseidle.as_slice()) {
            Some(InputEvent::MouseIdle)
        } else if bytes_eq(tag, a_copy.as_slice()) {
            Some(InputEvent::CopyRequest)
        } else if bytes_eq(tag, a_cut.as_slice()) {
            Some(InputEvent::CutRequest)
        } else if bytes_eq(tag, a_mousehide.as_slice()) {
            Some(InputEvent::MouseHide)
        } else {
            None
        }
    } else {
        let rest = slice_subrange(m, k + 1, n);
        proof {
            assert(rest@ =~= m@.skip(find_first(m@, COMMA) + 1));
        }
        let a_mousemove: [u8; 9] = [0x6d, 0x6f, 0x75, 0x73, 0x65, 0x6d, 0x6f, 0x76, 0x65];
        let a_mousedown: [u8; 9] = [0x6d, 0x6f, 0x75, 0x73, 0x65, 0x64, 0x6f, 0x77, 0x6e];
        let a_mouseup: [u8; 7] = [0x6d, 0x6f, 0x75, 0x73, 0x65, 0x75, 0x70];
        let a_wheel: [u8; 5] = [0x77, 0x68, 0x65, 0x65, 0x6c];
        let a_keydown: [u8; 7] = [0x6b, 0x65, 0x79, 0x64, 0x6f, 0x77, 0x6e];
        let a_keyup: [u8; 5] = [0x6b, 0x65, 0x79, 0x75, 0x70];
        let a_paste: [u8; 5] = [0x70, 0x61, 0x73, 0x74, 0x65];
        let a_leftjump: [u8; 8] = [0x6c, 0x65, 0x66, 0x74, 0x6a, 0x75, 0x6d, 0x70];
        proof {
            assert(a_mousemove@ =~= tag_mousemove());
            assert(a_mousedown@ =~= tag_mousedown());
            assert(a_mouseup@ =~= tag_mouseup());
            assert(a_wheel@ =~= tag_wheel());
            assert(a_keydown@ =~= tag_keydown());
            assert(a_keyup@ =~= tag_keyup());
            assert(a_paste@ =~= tag_paste());
            assert(a_leftjump@ =~= tag_leftjump());
        }
        if bytes_eq(tag, a_mousemove.as_slice()) {
            match decode_two_i32_fields(rest) {
                Some((dx, dy)) => Some(InputEvent::MouseMove { dx, dy }),
                None => None,
            }
        } else if bytes_eq(tag, a_mousedown.as_slice()) {
            match decode_one_i32_field(rest) {
                Some(b) => Some(InputEvent::MouseDown { button: b }),
                None => None,
            }
        } else if bytes_eq(tag, a_mouseup.as_slice()) {
            match decode_one_i32_field(rest) {
                Some(b) => Some(InputEvent::MouseUp { button: b }),
                None => None,
            }
        } else if bytes_eq(tag, a_wheel.as_slice()) {
            match decode_wheel_rest(rest) {
                Some((mode, dx, dy)) => Some(
                    InputEvent::Wheel { delta_mode: mode, dx_micro: dx, dy_micro: dy },
                ),
                None => None,
            }
        } else if bytes_eq(tag, a_keydown.as_slice()) {
            match decode_key_rest(rest) {
                Some((code, key)) => Some(InputEvent::KeyDown { code, key }),
                None => None,
            }
        } else if bytes_eq(tag, a_keyup.as_slice()) {
            match decode_key_rest(rest) {
                Some((code, key)) => Some(InputEvent::KeyUp { code, key }),
                None => None,
            }
        } else if bytes_eq(tag, a_paste.as_slice()) {
            Some(InputEvent::Paste { data: slice_to_vec(rest) })
        } else if bytes_eq(tag, a_leftjump.as_slice()) {
            match decode_one_micro_field(rest) {
                Some(h) => Some(InputEvent::LeftJump { height_micro: h }),
                None => None,
            }
        } else {
            None
        }
    }
}

fn decode_two_i32_fields(rest: &[u8]) -> (r: Option<(i32, i32)>)
    ensures
        r is Some <==> decode_two_ints(rest@) is Some,
        r matches Some((a, b)) ==> decode_two_ints(rest@) == Some((a as int, b as int)),
{
    let n = rest.len();
    let k = find_byte(rest, COMMA);
    proof {
        crate::numparse::lemma_find_first_bounds(rest@, COMMA);
    }
    if k == n {
        return None;
    }
    let f1 = slice_subrange(rest, 0, k);
    let f2 = slice_subrange(rest, k + 1, n);
    proof {
        assert(f1@ =~= rest@.take(find_first(rest@, COMMA)));
        assert(f2@ =~= rest@.skip(find_first(rest@, COMMA) + 1));
    }
    if find_byte(f2, COMMA) != f2.len() {
        return None;
    }
    match (parse_i32(f1), parse_i32(f2)) {
        (Some(a), Some(b)) => Some((a, b)),
        _ => None,
    }
}

fn decode_one_i32_field(rest: &[u8]) -> (r: Option<i32>)
    ensures
        r is Some <==> decode_one_int(rest@) is Some,
        r matches Some(v) ==> decode_one_int(rest@) == Some(v as int),
{
    if find_byte(rest, COMMA) != rest.len() {
        return None;
    }
    parse_i32(rest)
}

fn decode_one_micro_field(rest: &[u8]) -> (r: Option<i64>)
    ensures
        r is Some <==> decode_one_micro(rest@) is Some,
        r matches Some(v) ==> decode_one_micro(rest@) == Some(v as int),
{
    if find_byte(rest, COMMA) != rest.len() {
        return None;
    }
    parse_micro(rest)
}

fn decode_wheel_rest(rest: &[u8]) -> (r: Option<(i32, i64, i64)>)
    ensures
        r is Some <==> decode_wheel_fields(rest@) is Some,
        r matches Some((m, x, y)) ==> decode_wheel_fields(rest@) == Some(
            (m as int, x as int, y as int),
        ),
{
    let n = rest.len();
    let k = find_byte(rest, COMMA);
    proof {
        crate::numparse::lemma_find_first_bounds(rest@, COMMA);
    }
    if k == n {
        return None;
    }
    let f1 = slice_subrange(rest, 0, k);
    let r2 = slice_subrange(rest, k + 1, n);
    proof {
        assert(f1@ =~= rest@.take(find_first(rest@, COMMA)));
        assert(r2@ =~= rest@.skip(find_first(rest@, COMMA) + 1));
    }
    let n2 = r2.len();
    let k2 = find_byte(r2, COMMA);
    proof {
        crate::numparse::lemma_find_first_bounds(r2@, COMMA);
    }
    if k2 == n2 {
        return None;
    }
    let f2 = slice_subrange(r2, 0, k2);
    let f3 = slice_subrange(r2, k2 + 1, n2);
    proof {
        assert(f2@ =~= r2@.take(find_first(r2@, COMMA)));
        assert(f3@ =~= r2@.skip(find_first(r2@, COMMA) + 1));
    }
    if find_byte(f3, COMMA) != f3.len() {
        return None;
    }
    match (parse_i32(f1), parse_micro(f2), parse_micro(f3)) {
        (Some(m), Some(x), Some(y)) => Some((m, x, y)),
        _ => None,
    }
}

fn decode_key_rest(rest: &[u8]) -> (r: Option<(Vec<u8>, Vec<u8>)>)
    ensures
        r is Some <==> decode_key_fields(rest@) is Some,
        r matches Some((c, y)) ==> decode_key_fields(rest@) == Some((c@, y@)),
{
    let n = rest.len();
    let k = find_byte(rest, COMMA);
    proof {
        crate::numparse::lemma_find_first_bounds(rest@, COMMA);
    }
    if k == n {
        return None;
    }
    let code = slice_subrange(rest, 0, k);
    let key = slice_subrange(rest, k + 1, n);
    proof {
        assert(code@ =~= rest@.take(find_first(rest@, COMMA)));
        assert(key@ =~= rest@.skip(find_first(rest@, COMMA) + 1));
    }
    Some((slice_to_vec(code), slice_to_vec(key)))
}

/// The reply telling the controller where the cursor crossed the right edge.
pub open spec fn spec_mouseright_reply(frac_micro: int) -> Seq<u8> {
    tag_mouseright() + seq![COMMA] + fraction_bytes(frac_micro)
}

/// The reply telling the controller to throttle its sampling rate.
pub open spec fn spec_toofast_reply() -> Seq<u8> {
    tag_toofast()
}

/// The reply carrying clipboard contents after a copy or cut.
pub open spec fn spec_copycut_reply(data: Seq<u8>) -> Seq<u8> {
    tag_copycut() + seq![COMMA] + data
}

/// The one-shot desktop announcement sent when the data channel opens.
pub open spec fn spec_desktopinfo_message(json: Seq<u8>) -> Seq<u8> {
    tag_desktopinfo() + seq![COMMA] + json
}

/// Encode a right-edge crossing reply with the vertical fraction.
pub fn encode_mouseright(frac_micro: u64) -> (r: Vec<u8>)
    requires
        frac_micro <= 1_000_000,
    ensures
        r@ == spec_mouseright_reply(frac_micro as int),
{
    let a_mouseright: [u8; 10] = [0x6d, 0x6f, 0x75, 0x73, 0x65, 0x72, 0x69, 0x67, 0x68, 0x74];
    let mut v: Vec<u8> = Vec::new();
    v.extend_from_slice(a_mouseright.as_slice());
    v.push(COMMA);
    let frac = format_fraction_micro(frac_micro);
    v.extend_from_slice(frac.as_slice());
    proof {
        assert(v@ =~= spec_mouseright_reply(frac_micro as int));
    }
    v
}

/// Encode the throttle notice.
pub fn encode_toofast() -> (r: Vec<u8>)
    ensures
        r@ == spec_toofast_reply(),
{
    let a_toofast: [u8; 7] = [0x74, 0x6f, 0x6f, 0x66, 0x61, 0x73, 0x74];
    let mut v: Vec<u8> = Vec::new();
    v.extend_from_slice(a_toofast.as_slice());
    proof {
        assert(v@ =~= spec_toofast_reply());
    }
    v
}

/// Encode the clipboard-contents reply.
pub fn encode_copycut(data: &[u8]) -> (r: Vec<u8>)
    ensures
        r@ == spec_copycut_reply(data@),
{
    let a_copycut: [u8; 7] = [0x63, 0x6f, 0x70, 0x79, 0x63, 0x75, 0x74];
    let mut v: Vec<u8> = Vec::new();
    v.extend_from_slice(a_copycut.as_slice());
    v.push(COMMA);
    v.extend_from_slice(data);
    proof {
        assert(v@ =~= spec_copycut_reply(data@));
    }
    v
}

/// Encode the desktop capability announcement around its JSON payload.
pub fn encode_desktopinfo(json: &[u8]) -> (r: Vec<u8>)
    ensures
        r@ == spec_desktopinfo_message(json@),
{
    let a_desktopinfo: [u8; 11] = [0x64, 0x65, 0x73, 0x6b, 0x74, 0x6f, 0x70, 0x69, 0x6e, 0x66, 0x6f];
    let mut v: Vec<u8> = Vec::new();
    v.extend_from_slice(a_desktopinfo.as_slice());
    v.push(COMMA);
    v.extend_from_slice(json);
    proof {
        assert(v@ =~= spec_desktopinfo_message(json@));
    }
    v
}

} // verus!
