//! Relay wire framing.
//!
//! The relay forwards small JSON objects of string fields: the signaling
//! envelope `{"key":…,"value":…}`, the registration message
//! `{"operation":"SET_ID","id":…}`, the outbound wrapper
//! `{"recipient":…,"content":…}`, and the close notice.  The payloads are
//! opaque strings (serialized session descriptions and candidates), so the
//! framing needs only string escaping: quotes, backslashes and control
//! characters are escaped on encode, and the decoder accepts the usual JSON
//! escapes (including `\/` and `\uXXXX` below 0x80) plus insignificant
//! whitespace between tokens.  A message that does not fit this shape is
//! dropped, never fatal.

use vstd::prelude::*;
use vstd::slice::slice_to_vec;

verus! {

/// What a signaling envelope carries.
#[derive(Clone, Copy, PartialEq, Eq, Structural, Debug)]
pub enum Tag {
    /// A serialized session description (offer or answer).
    SessionDescription,
    /// A serialized ICE candidate.
    IceCandidate,
    /// The relay-provided list of ICE servers.
    IceServerList,
}

/// The `key` field naming each tag on the wire: `RTCSessionDescription`,
/// `RTCIceCandidate` or `iceServers`.
pub open spec fn tag_key_bytes(t: Tag) -> Seq<u8> {
    match t {
        Tag::SessionDescription => seq![
            0x52u8, 0x54u8, 0x43u8, 0x53u8, 0x65u8, 0x73u8, 0x73u8, 0x69u8, 0x6fu8, 0x6eu8, 0x44u8,
            0x65u8, 0x73u8, 0x63u8, 0x72u8, 0x69u8, 0x70u8, 0x74u8, 0x69u8, 0x6fu8, 0x6eu8,
        ],
        Tag::IceCandidate => seq![
            0x52u8, 0x54u8, 0x43u8, 0x49u8, 0x63u8, 0x65u8, 0x43u8, 0x61u8, 0x6eu8, 0x64u8, 0x69u8,
            0x64u8, 0x61u8, 0x74u8, 0x65u8,
        ],
        Tag::IceServerList => seq![
            0x69u8, 0x63u8, 0x65u8, 0x53u8, 0x65u8, 0x72u8, 0x76u8, 0x65u8, 0x72u8, 0x73u8,
        ],
    }
}

pub open spec fn hex_digit(v: int) -> u8 {
    if v < 10 {
        (0x30 + v) as u8
    } else {
        (0x61 + v - 10) as u8
    }
}

/// JSON escaping of one byte inside a string literal.
pub open spec fn escape_byte(b: u8) -> Seq<u8> {
    if b == 0x22 {
        seq![0x5cu8, 0x22u8]
    } else if b == 0x5c {
        seq![0x5cu8, 0x5cu8]
    } else if b == 0x08 {
        seq![0x5cu8, 0x62u8]
    } else if b == 0x0c {
        seq![0x5cu8, 0x66u8]
    } else if b == 0x0a {
        seq![0x5cu8, 0x6eu8]
    } else if b == 0x0d {
        seq![0x5cu8, 0x72u8]
    } else if b == 0x09 {
        seq![0x5cu8, 0x74u8]
    } else if b < 0x20 {
        seq![0x5cu8, 0x75u8, 0x30u8, 0x30u8, hex_digit((b / 16) as int), hex_digit((b % 16) as int)]
    } else {
        seq![b]
    }
}

/// JSON escaping of a whole string body.
pub open spec fn escape_bytes(s: Seq<u8>) -> Seq<u8>
    decreases s.len(),
{
    if s.len() == 0 {
        Seq::empty()
    } else {
        escape_byte(s[0]) + escape_bytes(s.skip(1))
    }
}

pub proof fn lemma_escape_snoc(s: Seq<u8>, i: int)
    requires
        0 <= i < s.len(),
    ensures
        escape_bytes(s.take(i + 1)) == escape_bytes(s.take(i)) + escape_byte(s[i]),
    decreases i,
{
    let t1 = s.take(i + 1);
    let t0 = s.take(i);
    if i == 0 {
        assert(t1 =~= seq![s[0]]);
        assert(t1.skip(1) =~= Seq::<u8>::empty());
        assert(t0 =~= Seq::<u8>::empty());
        assert(escape_bytes(t1) =~= escape_byte(s[0]) + escape_bytes(t1.skip(1)));
        assert(escape_bytes(t1) =~= escape_bytes(t0) + escape_byte(s[0]));
    } else {
        lemma_escape_snoc(s.skip(1), i - 1);
        assert(t1.skip(1) =~= s.skip(1).take(i));
        assert(t0.skip(1) =~= s.skip(1).take(i - 1));
        assert(s.skip(1)[i - 1] == s[i]);
        assert(escape_bytes(t1) == escape_byte(s[0]) + escape_bytes(s.skip(1).take(i)));
        assert(escape_bytes(t0) == escape_byte(s[0]) + escape_bytes(s.skip(1).take(i - 1)));
        assert(escape_bytes(t1) =~= escape_bytes(t0) + escape_byte(s[i]));
    }
}

/// Append the escaped form of `s` to `out`.
fn escape_append(out: &mut Vec<u8>, s: &[u8])
    ensures
        final(out)@ == old(out)@ + escape_bytes(s@),
{
    let n = s.len();
    let mut i: usize = 0;
    proof {
        assert(s@.take(0) =~= Seq::<u8>::empty());
        assert(out@ =~= old(out)@ + escape_bytes(s@.take(0)));
    }
    while i < n
        invariant
            0 <= i <= n,
            n == s@.len(),
            out@ == old(out)@ + escape_bytes(s@.take(i as int)),
        decreases n - i,
    {
        let b = s[i];
        if b == 0x22 {
            out.push(0x5c);
            out.push(0x22);
        } else if b == 0x5c {
            out.push(0x5c);
            out.push(0x5c);
        } else if b == 0x08 {
            out.push(0x5c);
            out.push(0x62);
        } else if b == 0x0c {
            out.push(0x5c);
            out.push(0x66);
        } else if b == 0x0a {
            out.push(0x5c);
            out.push(0x6e);
        } else if b == 0x0d {
            out.push(0x5c);
            out.push(0x72);
        } else if b == 0x09 {
            out.push(0x5c);
            out.push(0x74);
        } else if b < 0x20 {
            out.push(0x5c);
            out.push(0x75);
            out.push(0x30);
            out.push(0x30);
            let hi = b / 16;
            let lo = b % 16;
            out.push(if hi < 10 {
                0x30 + hi
            } else {
                0x61 + hi - 10
            });
            out.push(if lo < 10 {
                0x30 + lo
            } else {
                0x61 + lo - 10
            });
        } else {
            out.push(b);
        }
        proof {
            lemma_escape_snoc(s@, i as int);
            assert(out@ =~= old(out)@ + escape_bytes(s@.take(i as int + 1)));
        }
        i = i + 1;
    }
    proof {
        assert(s@.take(n as int) =~= s@);
    }
}

/// `{"`
pub open spec fn obj_open() -> Seq<u8> {
    seq![0x7bu8, 0x22u8]
}

/// `":"`
pub open spec fn member_sep() -> Seq<u8> {
    seq![0x22u8, 0x3au8, 0x22u8]
}

/// `","`
pub open spec fn member_next() -> Seq<u8> {
    seq![0x22u8, 0x2cu8, 0x22u8]
}

/// `"}`
pub open spec fn obj_close() -> Seq<u8> {
    seq![0x22u8, 0x7du8]
}

/// A two-member JSON object of string fields, with fixed unescaped names and
/// escaped values.
pub open spec fn spec_two_string_object(
    name1: Seq<u8>,
    value1: Seq<u8>,
    name2: Seq<u8>,
    value2: Seq<u8>,
) -> Seq<u8> {
    obj_open() + name1 + member_sep() + escape_bytes(value1) + member_next() + name2 + member_sep()
        + escape_bytes(value2) + obj_close()
}

/// The bytes of `key`.
pub open spec fn name_key() -> Seq<u8> {
    seq![0x6bu8, 0x65u8, 0x79u8]
}

/// The bytes of `value`.
pub open spec fn name_value() -> Seq<u8> {
    seq![0x76u8, 0x61u8, 0x6cu8, 0x75u8, 0x65u8]
}

/// The bytes of `operation`.
pub open spec fn name_operation() -> Seq<u8> {
    seq![0x6fu8, 0x70u8, 0x65u8, 0x72u8, 0x61u8, 0x74u8, 0x69u8, 0x6fu8, 0x6eu8]
}

/// The bytes of `id`.
pub open spec fn name_id() -> Seq<u8> {
    seq![0x69u8, 0x64u8]
}

/// The bytes of `recipient`.
pub open spec fn name_recipient() -> Seq<u8> {
    seq![0x72u8, 0x65u8, 0x63u8, 0x69u8, 0x70u8, 0x69u8, 0x65u8, 0x6eu8, 0x74u8]
}

/// The bytes of `content`.
pub open spec fn name_content() -> Seq<u8> {
    seq![0x63u8, 0x6fu8, 0x6eu8, 0x74u8, 0x65u8, 0x6eu8, 0x74u8]
}

/// The bytes of `SET_ID`.
pub open spec fn op_set_id() -> Seq<u8> {
    seq![0x53u8, 0x45u8, 0x54u8, 0x5fu8, 0x49u8, 0x44u8]
}

/// The bytes of `CLOSE`.
pub open spec fn op_close() -> Seq<u8> {
    seq![0x43u8, 0x4cu8, 0x4fu8, 0x53u8, 0x45u8]
}

/// The bytes of `-`.
pub open spec fn id_dash() -> Seq<u8> {
    seq![0x2du8]
}

/// A signaling envelope on the wire.
pub open spec fn spec_encode_envelope(t: Tag, value: Seq<u8>) -> Seq<u8> {
    spec_two_string_object(name_key(), tag_key_bytes(t), name_value(), value)
}

/// The registration message sent once after connecting to the relay.
pub open spec fn spec_encode_register(id: Seq<u8>) -> Seq<u8> {
    spec_two_string_object(name_operation(), op_set_id(), name_id(), id)
}

/// The wrapper around everything sent to the peer through the relay.
pub open spec fn spec_encode_relay_send(recipient: Seq<u8>, content: Seq<u8>) -> Seq<u8> {
    spec_two_string_object(name_recipient(), recipient, name_content(), content)
}

/// The best-effort close notice sent to the relay before hanging up.
pub open spec fn spec_encode_close_notice() -> Seq<u8> {
    spec_two_string_object(name_operation(), op_close(), name_id(), id_dash())
}

/// Append one fixed member name with its quoting: `…"<name>":"`.
fn append_name(out: &mut Vec<u8>, name: &[u8], first: bool)
    ensures
        final(out)@ == old(out)@ + (if first {
            obj_open()
        } else {
            member_next()
        }) + name@ + member_sep(),
{
    if first {
        out.push(0x7b);
        out.push(0x22);
    } else {
        out.push(0x22);
        out.push(0x2c);
        out.push(0x22);
    }
    out.extend_from_slice(name);
    out.push(0x22);
    out.push(0x3a);
    out.push(0x22);
    proof {
        if first {
            assert(out@ =~= old(out)@ + obj_open() + name@ + member_sep());
        } else {
            assert(out@ =~= old(out)@ + member_next() + name@ + member_sep());
        }
    }
}

/// Build a two-member JSON object of string fields.
pub(crate) fn two_string_object(name1: &[u8], value1: &[u8], name2: &[u8], value2: &[u8]) -> (r: Vec<u8>)
    ensures
        r@ == spec_two_string_object(name1@, value1@, name2@, value2@),
{
    let mut out: Vec<u8> = Vec::new();
    append_name(&mut out, name1, true);
    escape_append(&mut out, value1);
    append_name(&mut out, name2, false);
    escape_append(&mut out, value2);
    out.push(0x22);
    out.push(0x7d);
    proof {
        assert(out@ =~= spec_two_string_object(name1@, value1@, name2@, value2@));
    }
    out
}

/// Fixed member-name bytes for the executable encoders.
fn name_key_bytes() -> (r: Vec<u8>)
    ensures
        r@ == name_key(),
{
    let a: [u8; 3] = [0x6b, 0x65, 0x79];
    let r = slice_to_vec(a.as_slice());
    proof {
        assert(r@ =~= name_key());
    }
    r
}

fn name_value_bytes() -> (r: Vec<u8>)
    ensures
        r@ == name_value(),
{
    let a: [u8; 5] = [0x76, 0x61, 0x6c, 0x75, 0x65];
    let r = slice_to_vec(a.as_slice());
    proof {
        assert(r@ =~= name_value());
    }
    r
}

fn name_operation_bytes() -> (r: Vec<u8>)
    ensures
        r@ == name_operation(),
{
    let a: [u8; 9] = [0x6f, 0x70, 0x65, 0x72, 0x61, 0x74, 0x69, 0x6f, 0x6e];
    let r = slice_to_vec(a.as_slice());
    proof {
        assert(r@ =~= name_operation());
    }
    r
}

fn name_id_bytes() -> (r: Vec<u8>)
    ensures
        r@ == name_id(),
{
    let a: [u8; 2] = [0x69, 0x64];
    let r = slice_to_vec(a.as_slice());
    proof {
        assert(r@ =~= name_id());
    }
    r
}

fn name_recipient_bytes() -> (r: Vec<u8>)
    ensures
        r@ == name_recipient(),
{
    let a: [u8; 9] = [0x72, 0x65, 0x63, 0x69, 0x70, 0x69, 0x65, 0x6e, 0x74];
    let r = slice_to_vec(a.as_slice());
    proof {
        assert(r@ =~= name_recipient());
    }
    r
}

fn name_content_bytes() -> (r: Vec<u8>)
    ensures
        r@ == name_content(),
{
    let a: [u8; 7] = [0x63, 0x6f, 0x6e, 0x74, 0x65, 0x6e, 0x74];
    let r = slice_to_vec(a.as_slice());
    proof {
        assert(r@ =~= name_content());
    }
    r
}

/// The wire key naming a tag.
pub fn tag_key(t: Tag) -> (r: Vec<u8>)
    ensures
        r@ == tag_key_bytes(t),
{
    match t {
        Tag::SessionDescription => {
            let a: [u8; 21] = [
                0x52, 0x54, 0x43, 0x53, 0x65, 0x73, 0x73, 0x69, 0x6f, 0x6e, 0x44, 0x65, 0x73, 0x63,
                0x72, 0x69, 0x70, 0x74, 0x69, 0x6f, 0x6e,
            ];
            let r = slice_to_vec(a.as_slice());
            proof {
                assert(r@ =~= tag_key_bytes(t));
            }
            r
        },
        Tag::IceCandidate => {
            let a: [u8; 15] = [
                0x52, 0x54, 0x43, 0x49, 0x63, 0x65, 0x43, 0x61, 0x6e, 0x64, 0x69, 0x64, 0x61, 0x74,
                0x65,
            ];
            let r = slice_to_vec(a.as_slice());
            proof {
                assert(r@ =~= tag_key_bytes(t));
            }
            r
        },
        Tag::IceServerList => {
            let a: [u8; 10] = [0x69, 0x63, 0x65, 0x53, 0x65, 0x72, 0x76, 0x65, 0x72, 0x73];
            let r = slice_to_vec(a.as_slice());
            proof {
                assert(r@ =~= tag_key_bytes(t));
            }
            r
        },
    }
}

/// Encode a signaling envelope.
pub fn encode_envelope(t: Tag, value: &[u8]) -> (r: Vec<u8>)
    ensures
        r@ == spec_encode_envelope(t, value@),
{
    let name1 = name_key_bytes();
    let name2 = name_value_bytes();
    let keyb = tag_key(t);
    let mut out: Vec<u8> = Vec::new();
    append_name(&mut out, name1.as_slice(), true);
    escape_append(&mut out, keyb.as_slice());
    append_name(&mut out, name2.as_slice(), false);
    escape_append(&mut out, value);
    out.push(0x22);
    out.push(0x7d);
    proof {
        lemma_escape_ascii_plain(tag_key_bytes(t));
        assert(out@ =~= spec_encode_envelope(t, value@));
    }
    out
}

/// Escaping leaves a string of plain printable bytes untouched.
pub proof fn lemma_escape_ascii_plain(s: Seq<u8>)
    requires
        forall|i: int|
            0 <= i < s.len() ==> 0x20 <= #[trigger] s[i] && s[i] != 0x22 && s[i] != 0x5c,
    ensures
        escape_bytes(s) == s,
    decreases s.len(),
{
    if s.len() == 0 {
        assert(escape_bytes(s) =~= s);
    } else {
        assert forall|i: int| 0 <= i < s.skip(1).len() implies 0x20 <= #[trigger] s.skip(1)[i]
            && s.skip(1)[i] != 0x22 && s.skip(1)[i] != 0x5c by {
            assert(s.skip(1)[i] == s[i + 1]);
        }
        lemma_escape_ascii_plain(s.skip(1));
        assert(escape_bytes(s) =~= s);
    }
}

/// Encode the registration message for an identity.
pub fn encode_register(id: &[u8]) -> (r: Vec<u8>)
    ensures
        r@ == spec_encode_register(id@),
{
    let name1 = name_operation_bytes();
    let name2 = name_id_bytes();
    let op: [u8; 6] = [0x53, 0x45, 0x54, 0x5f, 0x49, 0x44];
    let mut out: Vec<u8> = Vec::new();
    append_name(&mut out, name1.as_slice(), true);
    escape_append(&mut out, op.as_slice());
    append_name(&mut out, name2.as_slice(), false);
    escape_append(&mut out, id);
    out.push(0x22);
    out.push(0x7d);
    proof {
        assert(op@ =~= op_set_id());
        lemma_escape_ascii_plain(op_set_id());
        assert(out@ =~= spec_encode_register(id@));
    }
    out
}

/// Encode the relay wrapper addressed to the peer.
pub fn encode_relay_send(recipient: &[u8], content: &[u8]) -> (r: Vec<u8>)
    ensures
        r@ == spec_encode_relay_send(recipient@, content@),
{
    let name1 = name_recipient_bytes();
    let name2 = name_content_bytes();
    two_string_object(name1.as_slice(), recipient, name2.as_slice(), content)
}

/// JSON insignificant whitespace.
pub open spec fn is_ws(b: u8) -> bool {
    b == 0x20 || b == 0x09 || b == 0x0a || b == 0x0d
}

/// First index at or after `i` holding something other than whitespace.
pub open spec fn skip_ws(s: Seq<u8>, i: int) -> int
    decreases s.len() - i,
    when 0 <= i <= s.len()
{
    if i < s.len() && is_ws(s[i]) {
        skip_ws(s, i + 1)
    } else {
        i
    }
}

pub proof fn lemma_skip_ws_bounds(s: Seq<u8>, i: int)
    requires
        0 <= i <= s.len(),
    ensures
        i <= skip_ws(s, i) <= s.len(),
    decreases s.len() - i,
{
    if i < s.len() && is_ws(s[i]) {
        lemma_skip_ws_bounds(s, i + 1);
    }
}

/// The byte a two-character escape stands for.
pub open spec fn unescape_code(c: u8) -> Option<u8> {
    if c == 0x22 {
        Some(0x22u8)
    } else if c == 0x5c {
        Some(0x5cu8)
    } else if c == 0x2f {
        Some(0x2fu8)
    } else if c == 0x62 {
        Some(0x08u8)
    } else if c == 0x66 {
        Some(0x0cu8)
    } else if c == 0x6e {
        Some(0x0au8)
    } else if c == 0x72 {
        Some(0x0du8)
    } else if c == 0x74 {
        Some(0x09u8)
    } else {
        None
    }
}

/// Value of one hexadecimal digit, either case.
pub open spec fn hex_val(c: u8) -> Option<int> {
    if 0x30 <= c <= 0x39 {
        Some((c - 0x30) as int)
    } else if 0x61 <= c <= 0x66 {
        Some(c - 0x61 + 10)
    } else if 0x41 <= c <= 0x46 {
        Some(c - 0x41 + 10)
    } else {
        None
    }
}

/// Parse a string body starting just after its opening quote: unescape up to
/// the closing quote, returning the content and the index after the quote.
/// `\uXXXX` escapes are accepted for code points below 0x80 only; the
/// payloads this crate handles never carry others.
pub open spec fn parse_string_body(s: Seq<u8>, i: int) -> Option<(Seq<u8>, int)>
    decreases s.len() - i,
    when 0 <= i <= s.len()
{
    if i >= s.len() {
        None
    } else if s[i] == 0x22 {
        Some((Seq::empty(), i + 1))
    } else if s[i] == 0x5c {
        if i + 1 < s.len() {
            let c = s[i + 1];
            if unescape_code(c) is Some {
                match parse_string_body(s, i + 2) {
                    Some((rest, j)) => Some((seq![unescape_code(c).unwrap()] + rest, j)),
                    None => None,
                }
            } else if c == 0x75 {
                if i + 5 < s.len() {
                    match (hex_val(s[i + 2]), hex_val(s[i + 3]), hex_val(s[i + 4]), hex_val(
                        s[i + 5],
                    )) {
                        (Some(h3), Some(h2), Some(h1), Some(h0)) => {
                            let v = h3 * 4096 + h2 * 256 + h1 * 16 + h0;
                            if v < 0x80 {
                                match parse_string_body(s, i + 6) {
                                    Some((rest, j)) => Some((seq![v as u8] + rest, j)),
                                    None => None,
                                }
                            } else {
                                None
                            }
                        },
                        _ => None,
                    }
                } else {
                    None
                }
            } else {
                None
            }
        } else {
            None
        }
    } else {
        match parse_string_body(s, i + 1) {
            Some((rest, j)) => Some((seq![s[i]] + rest, j)),
            None => None,
        }
    }
}

pub proof fn lemma_parse_string_advances(s: Seq<u8>, i: int)
    requires
        0 <= i <= s.len(),
    ensures
        parse_string_body(s, i) matches Some((c, j)) ==> i < j <= s.len(),
    decreases s.len() - i,
{
    if i < s.len() {
        if s[i] == 0x22 {
        } else if s[i] == 0x5c {
            if i + 1 < s.len() {
                if unescape_code(s[i + 1]) is Some {
                    lemma_parse_string_advances(s, i + 2);
                } else if s[i + 1] == 0x75 && i + 5 < s.len() {
                    lemma_parse_string_advances(s, i + 6);
                }
            }
        } else {
            lemma_parse_string_advances(s, i + 1);
        }
    }
}

/// Parse one `"name" : "value"` member starting at `i` (whitespace allowed),
/// returning both strings and the index after the value's closing quote.
pub open spec fn parse_member(s: Seq<u8>, i: int) -> Option<(Seq<u8>, Seq<u8>, int)>
    recommends
        0 <= i <= s.len(),
{
    let i1 = skip_ws(s, i);
    if 0 <= i && i1 < s.len() && s[i1] == 0x22 {
        match parse_string_body(s, i1 + 1) {
            Some((name, i2)) => {
                let i3 = skip_ws(s, i2);
                if i3 < s.len() && s[i3] == 0x3a {
                    let i4 = skip_ws(s, i3 + 1);
                    if i4 < s.len() && s[i4] == 0x22 {
                        match parse_string_body(s, i4 + 1) {
                            Some((value, i5)) => Some((name, value, i5)),
                            None => None,
                        }
                    } else {
                        None
                    }
                } else {
                    None
                }
            },
            None => None,
        }
    } else {
        None
    }
}

/// Parse a whole `{"n1":"v1","n2":"v2"}` object covering the entire input.
pub open spec fn parse_two_member_object(s: Seq<u8>) -> Option<
    ((Seq<u8>, Seq<u8>), (Seq<u8>, Seq<u8>)),
> {
    let i0 = skip_ws(s, 0);
    if i0 < s.len() && s[i0] == 0x7b {
        match parse_member(s, i0 + 1) {
            Some((n1, v1, i1)) => {
                let i2 = skip_ws(s, i1);
                if i2 < s.len() && s[i2] == 0x2c {
                    match parse_member(s, i2 + 1) {
                        Some((n2, v2, i3)) => {
                            let i4 = skip_ws(s, i3);
                            if i4 < s.len() && s[i4] == 0x7d && skip_ws(s, i4 + 1) == s.len() {
                                Some(((n1, v1), (n2, v2)))
                            } else {
                                None
                            }
                        },
                        None => None,
                    }
                } else {
                    None
                }
            },
            None => None,
        }
    } else {
        None
    }
}

/// What an inbound relay message decodes to: the envelope's tag and payload,
/// with the two members accepted in either order.  Anything else — another
/// shape, an unknown key — is dropped.
pub open spec fn spec_parse_envelope(s: Seq<u8>) -> Option<(Tag, Seq<u8>)> {
    match parse_two_member_object(s) {
        Some(((n1, v1), (n2, v2))) => {
            if n1 == name_key() && n2 == name_value() {
                spec_tag_of(v1, v2)
            } else if n1 == name_value() && n2 == name_key() {
                spec_tag_of(v2, v1)
            } else {
                None
            }
        },
        None => None,
    }
}

/// Match the `key` member against the known tags.
pub open spec fn spec_tag_of(key: Seq<u8>, value: Seq<u8>) -> Option<(Tag, Seq<u8>)> {
    if key == tag_key_bytes(Tag::SessionDescription) {
        Some((Tag::SessionDescription, value))
    } else if key == tag_key_bytes(Tag::IceCandidate) {
        Some((Tag::IceCandidate, value))
    } else if key == tag_key_bytes(Tag::IceServerList) {
        Some((Tag::IceServerList, value))
    } else {
        None
    }
}

/// Unescaping inverts escaping: wherever an escaped string body sits between
/// its opening position and its closing quote, the parser recovers exactly
/// the original bytes and stops just past the quote.
pub proof fn lemma_parse_escaped_string(prefix: Seq<u8>, v: Seq<u8>, suffix: Seq<u8>)
    ensures
        parse_string_body(
            prefix + escape_bytes(v) + seq![0x22u8] + suffix,
            prefix.len() as int,
        ) == Some((v, (prefix.len() + escape_bytes(v).len() + 1) as int)),
    decreases v.len(),
{
    let s = prefix + escape_bytes(v) + seq![0x22u8] + suffix;
    let i = prefix.len() as int;
    if v.len() == 0 {
        assert(escape_bytes(v) =~= Seq::<u8>::empty());
        assert(s[i] == 0x22);
        assert(parse_string_body(s, i) == Some((Seq::<u8>::empty(), i + 1)));
        assert(Seq::<u8>::empty() =~= v);
    } else {
        let b = v[0];
        let e0 = escape_byte(b);
        let prefix1 = prefix + e0;
        let s1 = prefix1 + escape_bytes(v.skip(1)) + seq![0x22u8] + suffix;
        assert(escape_bytes(v) == e0 + escape_bytes(v.skip(1)));
        assert(s =~= s1);
        lemma_parse_escaped_string(prefix1, v.skip(1), suffix);
        let j = (prefix1.len() + escape_bytes(v.skip(1)).len() + 1) as int;
        assert(parse_string_body(s, i + e0.len()) == Some((v.skip(1), j)));
        assert forall|k: int| 0 <= k < e0.len() implies s[i + k] == e0[k] by {}
        assert(seq![b] + v.skip(1) =~= v);
        if b == 0x22 || b == 0x5c || b == 0x08 || b == 0x0c || b == 0x0a || b == 0x0d
            || b == 0x09 {
            assert(e0.len() == 2);
            assert(s[i] == 0x5c);
            assert(unescape_code(s[i + 1]) == Some(b));
            assert(parse_string_body(s, i) == Some((v, j)));
        } else if b < 0x20 {
            assert(e0.len() == 6);
            assert(s[i] == 0x5c);
            assert(s[i + 1] == 0x75);
            assert(unescape_code(0x75) is None);
            assert(s[i + 2] == 0x30 && s[i + 3] == 0x30);
            assert(hex_val(0x30) == Some(0int));
            let hi = b / 16;
            let lo = b % 16;
            assert(s[i + 4] == hex_digit(hi as int));
            assert(s[i + 5] == hex_digit(lo as int));
            assert(hex_val(hex_digit(hi as int)) == Some(hi as int));
            assert(hex_val(hex_digit(lo as int)) == Some(lo as int));
            assert(0 * 4096 + 0 * 256 + hi * 16 + lo == b);
            assert(parse_string_body(s, i) == Some((v, j)));
        } else {
            assert(e0.len() == 1);
            assert(s[i] == b);
            assert(b != 0x22 && b != 0x5c);
            assert(parse_string_body(s, i) == Some((v, j)));
        }
    }
}

/// Bytes that pass through escaping untouched and hold no string delimiter.
pub open spec fn plain_bytes(s: Seq<u8>) -> bool {
    forall|k: int| 0 <= k < s.len() ==> 0x20 <= #[trigger] s[k] && s[k] != 0x22 && s[k] != 0x5c
}

/// A member written by the encoder parses back exactly: its plain name, its
/// unescaped value, and the position just past the value's closing quote.
pub proof fn lemma_parse_member_exact(prefix: Seq<u8>, name: Seq<u8>, value: Seq<u8>, suffix: Seq<u8>)
    requires
        plain_bytes(name),
    ensures
        parse_member(
            prefix + seq![0x22u8] + name + member_sep() + escape_bytes(value) + seq![0x22u8]
                + suffix,
            prefix.len() as int,
        ) == Some(
            (name, value, (prefix.len() + name.len() + escape_bytes(value).len() + 5) as int),
        ),
{
    let s = prefix + seq![0x22u8] + name + member_sep() + escape_bytes(value) + seq![0x22u8]
        + suffix;
    let i = prefix.len() as int;
    assert(s[i] == 0x22);
    assert(skip_ws(s, i) == i);

    // the name is plain, so it is its own escaped form
    lemma_escape_ascii_plain(name);
    let prefix1 = prefix + seq![0x22u8];
    let suffix1 = seq![0x3au8, 0x22u8] + escape_bytes(value) + seq![0x22u8] + suffix;
    assert(s =~= prefix1 + escape_bytes(name) + seq![0x22u8] + suffix1);
    lemma_parse_escaped_string(prefix1, name, suffix1);
    let i2 = (prefix1.len() + name.len() + 1) as int;
    assert(parse_string_body(s, i + 1) == Some((name, i2)));

    assert(s[i2] == 0x3a);
    assert(skip_ws(s, i2) == i2);
    assert(s[i2 + 1] == 0x22);
    assert(skip_ws(s, i2 + 1) == i2 + 1);

    let prefix2 = prefix + seq![0x22u8] + name + member_sep();
    assert(s =~= prefix2 + escape_bytes(value) + seq![0x22u8] + suffix);
    assert(prefix2.len() == i2 + 2);
    lemma_parse_escaped_string(prefix2, value, suffix);
    let j = (prefix2.len() + escape_bytes(value).len() + 1) as int;
    assert(parse_string_body(s, i2 + 2) == Some((value, j)));
    assert(parse_member(s, i) == Some((name, value, j)));
}

/// Round trip: every envelope the encoder writes, the decoder reads back
/// with the same tag and the same payload.
#[verifier::rlimit(100)]
#[verifier::spinoff_prover]
pub proof fn lemma_envelope_round_trip(t: Tag, v: Seq<u8>)
    ensures
        spec_parse_envelope(spec_encode_envelope(t, v)) == Some((t, v)),
{
    let tk = tag_key_bytes(t);
    let s = spec_encode_envelope(t, v);
    assert(plain_bytes(name_key()));
    assert(plain_bytes(name_value()));
    assert(plain_bytes(tk));
    lemma_escape_ascii_plain(tk);

    assert(s[0] == 0x7b);
    assert(skip_ws(s, 0) == 0);

    // first member: the key
    let prefix1 = seq![0x7bu8];
    let suffix1 = seq![0x2cu8] + seq![0x22u8] + name_value() + member_sep() + escape_bytes(v)
        + seq![0x22u8] + seq![0x7du8];
    assert(s =~= prefix1 + seq![0x22u8] + name_key() + member_sep() + escape_bytes(tk) + seq![
        0x22u8,
    ] + suffix1);
    lemma_parse_member_exact(prefix1, name_key(), tk, suffix1);
    let j1 = (prefix1.len() + name_key().len() + escape_bytes(tk).len() + 5) as int;
    assert(parse_member(s, 1) == Some((name_key(), tk, j1)));

    // the comma between the members
    let a1 = prefix1 + seq![0x22u8] + name_key() + member_sep() + escape_bytes(tk) + seq![0x22u8];
    assert(a1.len() == j1);
    assert(s =~= a1 + suffix1);
    assert(s[j1] == 0x2c);
    assert(skip_ws(s, j1) == j1);

    // second member: the value
    let prefix2 = a1 + seq![0x2cu8];
    let suffix2 = seq![0x7du8];
    assert(s =~= prefix2 + seq![0x22u8] + name_value() + member_sep() + escape_bytes(v) + seq![
        0x22u8,
    ] + suffix2);
    lemma_parse_member_exact(prefix2, name_value(), v, suffix2);
    let j2 = (prefix2.len() + name_value().len() + escape_bytes(v).len() + 5) as int;
    assert(parse_member(s, j1 + 1) == Some((name_value(), v, j2)));

    // the closing brace ends the input
    let a2 = prefix2 + seq![0x22u8] + name_value() + member_sep() + escape_bytes(v) + seq![0x22u8];
    assert(a2.len() == j2);
    assert(s =~= a2 + seq![0x7du8]);
    assert(s[j2] == 0x7d);
    assert(skip_ws(s, j2) == j2);
    assert(j2 + 1 == s.len());
    assert(skip_ws(s, j2 + 1) == j2 + 1);

    assert(parse_two_member_object(s) == Some(((name_key(), tk), (name_value(), v))));
    assert(name_key() != name_value());
    assert(spec_parse_envelope(s) == spec_tag_of(tk, v));
    match t {
        Tag::SessionDescription => {
            assert(spec_tag_of(tk, v) == Some((t, v)));
        },
        Tag::IceCandidate => {
            assert(tk != tag_key_bytes(Tag::SessionDescription));
            assert(spec_tag_of(tk, v) == Some((t, v)));
        },
        Tag::IceServerList => {
            assert(tk != tag_key_bytes(Tag::SessionDescription));
            assert(tk != tag_key_bytes(Tag::IceCandidate));
            assert(spec_tag_of(tk, v) == Some((t, v)));
        },
    }
}

/// Scan past whitespace.
fn skip_ws_exec(s: &[u8], i: usize) -> (r: usize)
    requires
        i <= s@.len(),
    ensures
        r as int == skip_ws(s@, i as int),
        i <= r <= s@.len(),
{
    let n = s.len();
    let mut j = i;
    while j < n && (s[j] == 0x20 || s[j] == 0x09 || s[j] == 0x0a || s[j] == 0x0d)
        invariant
            i <= j <= n,
            n == s@.len(),
            skip_ws(s@, i as int) == skip_ws(s@, j as int),
        decreases n - j,
    {
        j = j + 1;
    }
    j
}

/// Unescape a string body; on success returns the content and the index just
/// after the closing quote.
fn parse_string_exec(s: &[u8], start: usize) -> (r: Option<(Vec<u8>, usize)>)
    requires
        start <= s@.len(),
    ensures
        r is None ==> parse_string_body(s@, start as int) is None,
        r matches Some((v, j)) ==> parse_string_body(s@, start as int) == Some((v@, j as int))
            && start < j <= s@.len(),
{
    let n = s.len();
    let mut out: Vec<u8> = Vec::new();
    let mut i = start;
    proof {
        lemma_parse_string_advances(s@, start as int);
        if let Some((rest, j)) = parse_string_body(s@, start as int) {
            assert(out@ + rest =~= rest);
        }
    }
    loop
        invariant
            start <= i <= n,
            n == s@.len(),
            match parse_string_body(s@, i as int) {
                Some((rest, j)) => parse_string_body(s@, start as int) == Some(
                    (out@ + rest, j),
                ) && i < j <= s@.len(),
                None => parse_string_body(s@, start as int) is None,
            },
        decreases n - i,
    {
        proof {
            lemma_parse_string_advances(s@, i as int);
        }
        if i >= n {
            return None;
        }
        let b = s[i];
        if b == 0x22 {
            proof {
                assert(out@ + Seq::<u8>::empty() =~= out@);
            }
            return Some((out, i + 1));
        }
        if b == 0x5c {
            if i + 1 >= n {
                return None;
            }
            let c = s[i + 1];
            let mapped: Option<u8> = if c == 0x22 {
                Some(0x22)
            } else if c == 0x5c {
                Some(0x5c)
            } else if c == 0x2f {
                Some(0x2f)
            } else if c == 0x62 {
                Some(0x08)
            } else if c == 0x66 {
                Some(0x0c)
            } else if c == 0x6e {
                Some(0x0a)
            } else if c == 0x72 {
                Some(0x0d)
            } else if c == 0x74 {
                Some(0x09)
            } else {
                None
            };
            match mapped {
                Some(u) => {
                    proof {
                        lemma_parse_string_advances(s@, i as int + 2);
                        if let Some((rest2, j2)) = parse_string_body(s@, i as int + 2) {
                            assert(out@.push(u) + rest2 =~= out@ + (seq![u] + rest2));
                        }
                    }
                    out.push(u);
                    i = i + 2;
                },
                None => {
                    if c != 0x75 {
                        return None;
                    }
                    if n - i < 6 {
                        return None;
                    }
                    let h3 = hex_val_exec(s[i + 2]);
                    let h2 = hex_val_exec(s[i + 3]);
                    let h1 = hex_val_exec(s[i + 4]);
                    let h0 = hex_val_exec(s[i + 5]);
                    match (h3, h2, h1, h0) {
                        (Some(a3), Some(a2), Some(a1), Some(a0)) => {
                            let v: u32 = (a3 as u32) * 4096 + (a2 as u32) * 256 + (a1 as u32) * 16
                                + (a0 as u32);
                            if v >= 0x80 {
                                return None;
                            }
                            let u = v as u8;
                            proof {
                                lemma_parse_string_advances(s@, i as int + 6);
                                if let Some((rest2, j2)) = parse_string_body(s@, i as int + 6) {
                                    assert(out@.push(u) + rest2 =~= out@ + (seq![u] + rest2));
                                }
                            }
                            out.push(u);
                            i = i + 6;
                        },
                        _ => {
                            return None;
                        },
                    }
                },
            }
        } else {
            proof {
                lemma_parse_string_advances(s@, i as int + 1);
                if let Some((rest2, j2)) = parse_string_body(s@, i as int + 1) {
                    assert(out@.push(b) + rest2 =~= out@ + (seq![b] + rest2));
                }
            }
            out.push(b);
            i = i + 1;
        }
    }
}

/// Value of one hexadecimal digit.
fn hex_val_exec(c: u8) -> (r: Option<u8>)
    ensures
        r is None <==> hex_val(c) is None,
        r matches Some(v) ==> hex_val(c) == Some(v as int) && v < 16,
{
    if 0x30 <= c && c <= 0x39 {
        Some(c - 0x30)
    } else if 0x61 <= c && c <= 0x66 {
        Some(c - 0x61 + 10)
    } else if 0x41 <= c && c <= 0x46 {
        Some(c - 0x41 + 10)
    } else {
        None
    }
}

/// Parse one member.
fn parse_member_exec(s: &[u8], i: usize) -> (r: Option<(Vec<u8>, Vec<u8>, usize)>)
    requires
        i <= s@.len(),
    ensures
        r is None ==> parse_member(s@, i as int) is None,
        r matches Some((name, value, j)) ==> parse_member(s@, i as int) == Some(
            (name@, value@, j as int),
        ) && j <= s@.len(),
{
    let i1 = skip_ws_exec(s, i);
    if i1 >= s.len() || s[i1] != 0x22 {
        return None;
    }
    let (name, i2) = match parse_string_exec(s, i1 + 1) {
        Some(p) => p,
        None => {
            return None;
        },
    };
    let i3 = skip_ws_exec(s, i2);
    if i3 >= s.len() || s[i3] != 0x3a {
        return None;
    }
    let i4 = skip_ws_exec(s, i3 + 1);
    if i4 >= s.len() || s[i4] != 0x22 {
        return None;
    }
    let (value, i5) = match parse_string_exec(s, i4 + 1) {
        Some(p) => p,
        None => {
            return None;
        },
    };
    Some((name, value, i5))
}

/// Decode an inbound relay message into an envelope, accepting the two
/// members in either order and dropping anything of another shape.
pub fn decode_envelope(s: &[u8]) -> (r: Option<(Tag, Vec<u8>)>)
    ensures
        r is None <==> spec_parse_envelope(s@) is None,
        r matches Some((t, v)) ==> spec_parse_envelope(s@) == Some((t, v@)),
{
    let i0 = skip_ws_exec(s, 0);
    if i0 >= s.len() || s[i0] != 0x7b {
        return None;
    }
    let (n1, v1, i1) = match parse_member_exec(s, i0 + 1) {
        Some(p) => p,
        None => {
            return None;
        },
    };
    let i2 = skip_ws_exec(s, i1);
    if i2 >= s.len() || s[i2] != 0x2c {
        return None;
    }
    let (n2, v2, i3) = match parse_member_exec(s, i2 + 1) {
        Some(p) => p,
        None => {
            return None;
        },
    };
    let i4 = skip_ws_exec(s, i3);
    if i4 >= s.len() || s[i4] != 0x7d {
        return None;
    }
    if skip_ws_exec(s, i4 + 1) != s.len() {
        return None;
    }
    let name1 = name_key_bytes();
    let name2 = name_value_bytes();
    let k_is_1 = crate::codec::bytes_eq(n1.as_slice(), name1.as_slice());
    let v_is_2 = crate::codec::bytes_eq(n2.as_slice(), name2.as_slice());
    if k_is_1 && v_is_2 {
        tag_of_exec(v1, v2)
    } else {
        let v_is_1 = crate::codec::bytes_eq(n1.as_slice(), name2.as_slice());
        let k_is_2 = crate::codec::bytes_eq(n2.as_slice(), name1.as_slice());
        if v_is_1 && k_is_2 {
            tag_of_exec(v2, v1)
        } else {
            None
        }
    }
}

/// Match a decoded `key` member against the known tags.
fn tag_of_exec(key: Vec<u8>, value: Vec<u8>) -> (r: Option<(Tag, Vec<u8>)>)
    ensures
        r is None <==> spec_tag_of(key@, value@) is None,
        r matches Some((t, v)) ==> spec_tag_of(key@, value@) == Some((t, v@)),
{
    let sdp = tag_key(Tag::SessionDescription);
    let ice = tag_key(Tag::IceCandidate);
    let servers = tag_key(Tag::IceServerList);
    if crate::codec::bytes_eq(key.as_slice(), sdp.as_slice()) {
        Some((Tag::SessionDescription, value))
    } else if crate::codec::bytes_eq(key.as_slice(), ice.as_slice()) {
        Some((Tag::IceCandidate, value))
    } else if crate::codec::bytes_eq(key.as_slice(), servers.as_slice()) {
        Some((Tag::IceServerList, value))
    } else {
        None
    }
}

/// Encode the close notice for the relay.
pub fn encode_close_notice() -> (r: Vec<u8>)
    ensures
        r@ == spec_encode_close_notice(),
{
    let name1 = name_operation_bytes();
    let name2 = name_id_bytes();
    let op: [u8; 5] = [0x43, 0x4c, 0x4f, 0x53, 0x45];
    let dash: [u8; 1] = [0x2d];
    let mut out: Vec<u8> = Vec::new();
    append_name(&mut out, name1.as_slice(), true);
    escape_append(&mut out, op.as_slice());
    append_name(&mut out, name2.as_slice(), false);
    escape_append(&mut out, dash.as_slice());
    out.push(0x22);
    out.push(0x7d);
    proof {
        assert(op@ =~= op_close());
        assert(dash@ =~= id_dash());
        lemma_escape_ascii_plain(op_close());
        lemma_escape_ascii_plain(id_dash());
        assert(out@ =~= spec_encode_close_notice());
    }
    out
}

} // verus!
