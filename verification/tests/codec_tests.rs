//! Wire codec and relay framing behavior.

use linkmouse::codec::{decode, encode_copycut, encode_desktopinfo, encode_mouseright,
    encode_toofast, InputEvent};
use linkmouse::envelope::{decode_envelope, encode_close_notice, encode_envelope, encode_register,
    encode_relay_send, Tag};

#[test]
fn decode_mousemove() {
    let e = decode(b"mousemove,100,50");
    assert_eq!(e, Some(InputEvent::MouseMove { dx: 100, dy: 50 }));
}

#[test]
fn decode_mousemove_negative_and_signed() {
    assert_eq!(
        decode(b"mousemove,-3,+7"),
        Some(InputEvent::MouseMove { dx: -3, dy: 7 })
    );
}

#[test]
fn decode_mousemove_extremes() {
    assert_eq!(
        decode(b"mousemove,2147483647,-2147483648"),
        Some(InputEvent::MouseMove {
            dx: 2147483647,
            dy: -2147483648
        })
    );
    // one past the i32 range is malformed and dropped
    assert_eq!(decode(b"mousemove,2147483648,0"), None);
    assert_eq!(decode(b"mousemove,0,-2147483649"), None);
}

#[test]
fn decode_rejects_malformed_fields() {
    assert_eq!(decode(b"mousemove,1"), None);
    assert_eq!(decode(b"mousemove,1,2,3"), None);
    assert_eq!(decode(b"mousemove,a,2"), None);
    assert_eq!(decode(b"mousemove,,2"), None);
    assert_eq!(decode(b"mousemove"), None);
}

#[test]
fn decode_unknown_tag_dropped() {
    assert_eq!(decode(b"ping"), None);
    assert_eq!(decode(b"mousewiggle,1,2"), None);
    assert_eq!(decode(b""), None);
}

#[test]
fn decode_bare_tags() {
    assert_eq!(decode(b"mouseidle"), Some(InputEvent::MouseIdle));
    assert_eq!(decode(b"copy"), Some(InputEvent::CopyRequest));
    assert_eq!(decode(b"cut"), Some(InputEvent::CutRequest));
    assert_eq!(decode(b"mousehide"), Some(InputEvent::MouseHide));
    // a bare tag followed by stray fields is malformed
    assert_eq!(decode(b"mouseidle,1"), None);
}

#[test]
fn decode_buttons() {
    assert_eq!(decode(b"mousedown,0"), Some(InputEvent::MouseDown { button: 0 }));
    assert_eq!(decode(b"mouseup,2"), Some(InputEvent::MouseUp { button: 2 }));
    assert_eq!(decode(b"mousedown,0,1"), None);
    assert_eq!(decode(b"mousedown,x"), None);
}

#[test]
fn decode_wheel_pixels_and_fractions() {
    assert_eq!(
        decode(b"wheel,0,0,0.4"),
        Some(InputEvent::Wheel {
            delta_mode: 0,
            dx_micro: 0,
            dy_micro: 400_000
        })
    );
    assert_eq!(
        decode(b"wheel,1,-2.5,120"),
        Some(InputEvent::Wheel {
            delta_mode: 1,
            dx_micro: -2_500_000,
            dy_micro: 120_000_000
        })
    );
    // more than six fractional digits truncate toward zero
    assert_eq!(
        decode(b"wheel,0,0.1234567,-0.9999999"),
        Some(InputEvent::Wheel {
            delta_mode: 0,
            dx_micro: 123_456,
            dy_micro: -999_999
        })
    );
    assert_eq!(decode(b"wheel,0,1"), None);
    assert_eq!(decode(b"wheel,0,1,2,3"), None);
    assert_eq!(decode(b"wheel,0,1.,2"), None);
    assert_eq!(decode(b"wheel,0,.5,2"), None);
}

#[test]
fn decode_keys() {
    assert_eq!(
        decode(b"keydown,KeyA,a"),
        Some(InputEvent::KeyDown {
            code: b"KeyA".to_vec(),
            key: b"a".to_vec()
        })
    );
    // the comma key's label is a comma: the remainder is the label
    assert_eq!(
        decode(b"keyup,Comma,,"),
        Some(InputEvent::KeyUp {
            code: b"Comma".to_vec(),
            key: b",".to_vec()
        })
    );
    assert_eq!(decode(b"keydown,KeyA"), None);
}

#[test]
fn decode_paste_takes_remainder() {
    assert_eq!(
        decode(b"paste,hello, world"),
        Some(InputEvent::Paste {
            data: b"hello, world".to_vec()
        })
    );
    assert_eq!(
        decode(b"paste,"),
        Some(InputEvent::Paste { data: Vec::new() })
    );
    assert_eq!(decode(b"paste"), None);
}

#[test]
fn decode_leftjump() {
    assert_eq!(
        decode(b"leftjump,0.35"),
        Some(InputEvent::LeftJump {
            height_micro: 350_000
        })
    );
    assert_eq!(decode(b"leftjump,0.35,1"), None);
}

#[test]
fn encode_replies() {
    assert_eq!(encode_toofast(), b"toofast".to_vec());
    assert_eq!(encode_mouseright(400_000), b"mouseright,0.400000".to_vec());
    assert_eq!(encode_mouseright(1_000_000), b"mouseright,1.000000".to_vec());
    assert_eq!(encode_mouseright(0), b"mouseright,0.000000".to_vec());
    assert_eq!(encode_copycut(b"abc,def"), b"copycut,abc,def".to_vec());
    assert_eq!(encode_desktopinfo(b"{}"), b"desktopinfo,{}".to_vec());
}

#[test]
fn envelope_encode_exact() {
    assert_eq!(
        encode_envelope(Tag::IceCandidate, b"cand"),
        b"{\"key\":\"RTCIceCandidate\",\"value\":\"cand\"}".to_vec()
    );
    assert_eq!(
        encode_register(b"desktop_abc123"),
        b"{\"operation\":\"SET_ID\",\"id\":\"desktop_abc123\"}".to_vec()
    );
    assert_eq!(
        encode_relay_send(b"browser_abc123", b"hi"),
        b"{\"recipient\":\"browser_abc123\",\"content\":\"hi\"}".to_vec()
    );
    assert_eq!(
        encode_close_notice(),
        b"{\"operation\":\"CLOSE\",\"id\":\"-\"}".to_vec()
    );
}

#[test]
fn envelope_encode_escapes() {
    let enc = encode_envelope(Tag::SessionDescription, b"a\"b\\c\nd");
    assert_eq!(
        enc,
        b"{\"key\":\"RTCSessionDescription\",\"value\":\"a\\\"b\\\\c\\nd\"}".to_vec()
    );
}

#[test]
fn envelope_round_trip() {
    let payload: &[u8] = b"{\"sdp\":\"v=0\\r\\no=- 1 1 IN IP4 0.0.0.0\",\"type\":\"offer\"}";
    let enc = encode_envelope(Tag::SessionDescription, payload);
    let dec = decode_envelope(&enc);
    assert_eq!(dec, Some((Tag::SessionDescription, payload.to_vec())));
}

#[test]
fn envelope_decode_member_order_and_ws() {
    let dec = decode_envelope(b" { \"value\" : \"abc\" , \"key\" : \"iceServers\" } ");
    assert_eq!(dec, Some((Tag::IceServerList, b"abc".to_vec())));
}

#[test]
fn envelope_decode_escapes() {
    let dec = decode_envelope(b"{\"key\":\"RTCIceCandidate\",\"value\":\"a\\\"b\\\\c\\u0041\\/\"}");
    assert_eq!(dec, Some((Tag::IceCandidate, b"a\"b\\cA/".to_vec())));
}

#[test]
fn envelope_decode_rejects_other_shapes() {
    assert_eq!(decode_envelope(b"not json"), None);
    assert_eq!(decode_envelope(b"{\"key\":\"RTCIceCandidate\"}"), None);
    assert_eq!(
        decode_envelope(b"{\"key\":\"Unknown\",\"value\":\"x\"}"),
        None
    );
    assert_eq!(
        decode_envelope(b"{\"key\":\"RTCIceCandidate\",\"value\":\"x\"}trailing"),
        None
    );
    assert_eq!(
        decode_envelope(b"{\"key\":\"RTCIceCandidate\",\"value\":\"x\\u00e9\"}"),
        None
    );
}

#[test]
fn desktop_info_announcement_json() {
    let info = linkmouse::info::DesktopInfo {
        linkmouseVersion: String::from("0.0.1"),
        osName: String::from("linux"),
    };
    assert_eq!(
        info.to_json(),
        b"{\"linkmouseVersion\":\"0.0.1\",\"osName\":\"linux\"}".to_vec()
    );
}
