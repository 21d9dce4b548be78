use pitaya_rpc::codec::{
    decode_msg, decode_request, decode_response, encode_kick_msg, encode_msg, encode_push,
    encode_request, get_varint, put_varint,
};
use pitaya_rpc::error::Error;
use pitaya_rpc::message::{KickMsg, Msg, Push, Request};

fn join_request() -> Request {
    Request {
        rpc_type: 1,
        msg: Some(Msg {
            id: 0,
            route: "room.join".to_owned(),
            data: b"{}".to_vec(),
            reply: String::new(),
            msg_type: 0,
        }),
        frontend_id: String::new(),
        metadata: b"{}".to_vec(),
    }
}

fn same_request(a: &Request, b: &Request) -> bool {
    let same_msg = match (&a.msg, &b.msg) {
        (None, None) => true,
        (Some(x), Some(y)) => {
            x.id == y.id
                && x.route == y.route
                && x.data == y.data
                && x.reply == y.reply
                && x.msg_type == y.msg_type
        }
        _ => false,
    };
    same_msg && a.rpc_type == b.rpc_type && a.frontend_id == b.frontend_id && a.metadata == b.metadata
}

#[test]
fn varints_take_seven_bits_per_byte() {
    let mut out = vec![];
    put_varint(&mut out, 0);
    put_varint(&mut out, 300);
    put_varint(&mut out, u64::MAX);
    let mut expected = vec![0x00, 0xac, 0x02];
    expected.extend_from_slice(&[0xff; 9]);
    expected.push(0x01);
    assert_eq!(out, expected);
    assert_eq!(get_varint(&out, 1), Some((300, 2)));
    assert_eq!(get_varint(&out, 3), Some((u64::MAX, 10)));
}

#[test]
fn varint_that_overflows_or_runs_out_is_refused() {
    let mut too_big = vec![0xff; 9];
    too_big.push(0x02);
    assert_eq!(get_varint(&too_big, 0), None);
    assert_eq!(get_varint(&[0x80, 0x80], 0), None);
    assert_eq!(get_varint(&[0x80; 11], 0), None);
    assert_eq!(get_varint(&[], 0), None);
}

#[test]
fn request_bytes_are_exact() {
    let bytes = encode_request(&join_request());
    let mut expected = vec![0x08, 0x01, 0x1a, 21, 0x08, 0x00, 0x12, 9];
    expected.extend_from_slice(b"room.join");
    expected.extend_from_slice(&[0x1a, 2, b'{', b'}', 0x22, 0, 0x28, 0x00]);
    expected.extend_from_slice(&[0x22, 0, 0x2a, 2, b'{', b'}']);
    assert_eq!(bytes, expected);
}

#[test]
fn request_round_trip() {
    let req = join_request();
    match decode_request(&encode_request(&req)) {
        Ok(back) => assert!(same_request(&req, &back)),
        Err(_) => panic!("unexpected error"),
    }
}

#[test]
fn request_round_trip_with_empty_and_negative_fields() {
    let req = Request {
        rpc_type: -7,
        msg: Some(Msg {
            id: u64::MAX,
            route: String::new(),
            data: vec![],
            reply: "ré".to_owned(),
            msg_type: i32::MIN,
        }),
        frontend_id: "front-1".to_owned(),
        metadata: vec![],
    };
    match decode_request(&encode_request(&req)) {
        Ok(back) => assert!(same_request(&req, &back)),
        Err(_) => panic!("unexpected error"),
    }
    let bare = Request { rpc_type: 0, msg: None, frontend_id: String::new(), metadata: vec![] };
    match decode_request(&encode_request(&bare)) {
        Ok(back) => assert!(same_request(&bare, &back)),
        Err(_) => panic!("unexpected error"),
    }
}

#[test]
fn fields_in_any_order_and_unknown_ones_decode() {
    let bytes = vec![0x2a, 1, b'x', 0x38, 0x05, 0x08, 0x02];
    match decode_request(&bytes) {
        Ok(r) => {
            assert_eq!(r.rpc_type, 2);
            assert_eq!(r.metadata, b"x".to_vec());
            assert!(r.msg.is_none());
        }
        Err(_) => panic!("unexpected error"),
    }
}

#[test]
fn malformed_request_is_a_decode_error() {
    assert!(matches!(decode_request(&[0x22, 1, 0xff]), Err(Error::DecodeError(_))));
    assert!(matches!(decode_request(&[0x08]), Err(Error::DecodeError(_))));
    assert!(matches!(decode_request(&[0x20, 0x01]), Err(Error::DecodeError(_))));
    assert!(matches!(decode_request(&[0x0d, 0, 0, 0, 0]), Err(Error::DecodeError(_))));
}

#[test]
fn msg_round_trip() {
    let m = Msg { id: 42, route: "a.b".to_owned(), data: vec![0, 1], reply: "r".to_owned(), msg_type: 3 };
    match decode_msg(&encode_msg(&m)) {
        Some(x) => {
            assert_eq!(x.id, 42);
            assert_eq!(x.route, "a.b");
            assert_eq!(x.data, vec![0, 1]);
            assert_eq!(x.reply, "r");
            assert_eq!(x.msg_type, 3);
        }
        None => panic!("unexpected failure"),
    }
}

#[test]
fn response_with_error_decodes() {
    let mut bytes = vec![0x0a, 2, b'o', b'k', 0x12, 10, 0x0a, 3];
    bytes.extend_from_slice(b"E42");
    bytes.extend_from_slice(&[0x12, 3]);
    bytes.extend_from_slice(b"bad");
    match decode_response(&bytes) {
        Ok(r) => {
            assert_eq!(r.data, b"ok".to_vec());
            match r.error {
                Some(e) => {
                    assert_eq!(e.code, "E42");
                    assert_eq!(e.msg, "bad");
                }
                None => panic!("error expected"),
            }
        }
        Err(_) => panic!("unexpected error"),
    }
}

#[test]
fn kick_and_push_bytes_are_exact() {
    let k = encode_kick_msg(&KickMsg { user_id: "u1".to_owned() });
    assert_eq!(k, vec![0x0a, 2, b'u', b'1']);
    let p = encode_push(&Push { route: "r".to_owned(), uid: "u".to_owned(), data: vec![9] });
    assert_eq!(p, vec![0x0a, 1, b'r', 0x12, 1, b'u', 0x1a, 1, 9]);
    let empty = encode_kick_msg(&KickMsg { user_id: String::new() });
    assert_eq!(empty, vec![0x0a, 0]);
}
