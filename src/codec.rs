use vstd::prelude::*;
use vstd::string::*;
use vstd::utf8::*;
use crate::error::Error;
use crate::message::{
    KickAnswer, KickMsg, Msg, MsgModel, Push, Request, RequestModel, Response, ResponseError,
    ResponseErrorModel, ResponseModel,
};

verus! {

/// The base-128 encoding of `v`, least significant group first, with the
/// high bit set on every byte but the last.
pub open spec fn varint(v: nat) -> Seq<u8>
    decreases v,
{
    if v < 128 {
        seq![v as u8]
    } else {
        seq![(v % 128 + 128) as u8] + varint(v / 128)
    }
}

/// Reads a varint from the front of `b`, using at most `budget` bytes: its
/// value and how many bytes it took. Fails on a value above `u64::MAX`.
pub open spec fn read_varint(b: Seq<u8>, budget: nat) -> Option<(nat, nat)>
    decreases budget,
{
    if b.len() == 0 || budget == 0 {
        None
    } else if b[0] < 128 {
        Some((b[0] as nat, 1))
    } else {
        match read_varint(b.drop_first(), (budget - 1) as nat) {
            Some((v, n)) => if (b[0] - 128) + 128 * v <= u64::MAX {
                Some(((b[0] - 128 + 128 * v) as nat, n + 1))
            } else {
                None
            },
            None => None,
        }
    }
}

/// The most bytes a varint may take.
pub const MAX_VARINT_LEN: usize = 10;

/// Appends the varint of `v` to `out`.
pub fn put_varint(out: &mut Vec<u8>, v: u64)
    ensures
        final(out)@ == old(out)@ + varint(v as nat),
{
    let mut x: u64 = v;
    while x >= 128
        invariant
            out@ + varint(x as nat) == old(out)@ + varint(v as nat),
        decreases x,
    {
        let b: u8 = (x % 128 + 128) as u8;
        proof {
            assert(varint(x as nat) == seq![b] + varint((x / 128) as nat));
            assert(out@.push(b) + varint((x / 128) as nat) =~= out@ + varint(x as nat));
        }
        out.push(b);
        x = x / 128;
    }
    proof {
        assert(out@.push(x as u8) =~= out@ + varint(x as nat));
    }
    out.push(x as u8);
}

/// Reads a varint from `b` at `pos`, using at most `budget` bytes.
fn get_varint_from(b: &[u8], pos: usize, budget: usize) -> (r: Option<(u64, usize)>)
    requires
        pos <= b@.len(),
    ensures
        match read_varint(b@.skip(pos as int), budget as nat) {
            Some((v, n)) => r == Some((v as u64, n as usize)),
            None => r is None,
        },
    decreases budget,
{
    if pos >= b.len() || budget == 0 {
        return None;
    }
    let first: u8 = b[pos];
    if first < 128 {
        return Some((first as u64, 1));
    }
    proof {
        assert(b@.skip(pos as int).drop_first() =~= b@.skip(pos + 1));
    }
    match get_varint_from(b, pos + 1, budget - 1) {
        Some((v, n)) => {
            proof {
                lemma_read_varint_bounds(b@.skip(pos + 1), (budget - 1) as nat);
            }
            if v > 144115188075855871 {
                assert((first - 128) + 128 * v > u64::MAX) by (nonlinear_arith)
                    requires
                        v > 144115188075855871,
                        first >= 128,
                ;
                None
            } else {
                assert((first - 128) + 128 * v <= u64::MAX) by (nonlinear_arith)
                    requires
                        v <= 144115188075855871,
                        first < 256,
                        first >= 128,
                ;
                Some(((first - 128) as u64 + 128 * v, n + 1))
            }
        },
        None => None,
    }
}

/// Reads a varint from `b` at `pos`.
pub fn get_varint(b: &[u8], pos: usize) -> (r: Option<(u64, usize)>)
    requires
        pos <= b@.len(),
    ensures
        r matches Some((_, n)) ==> 1 <= n <= MAX_VARINT_LEN && pos + n <= b@.len(),
        match read_varint(b@.skip(pos as int), MAX_VARINT_LEN as nat) {
            Some((v, n)) => r == Some((v as u64, n as usize)),
            None => r is None,
        },
{
    proof {
        lemma_read_varint_bounds(b@.skip(pos as int), MAX_VARINT_LEN as nat);
    }
    get_varint_from(b, pos, MAX_VARINT_LEN)
}

proof fn lemma_read_varint_bounds(b: Seq<u8>, budget: nat)
    ensures
        read_varint(b, budget) matches Some((v, n)) ==> v <= u64::MAX && 1 <= n <= budget && n
            <= b.len(),
    decreases budget,
{
    if b.len() > 0 && budget > 0 && b[0] >= 128 {
        lemma_read_varint_bounds(b.drop_first(), (budget - 1) as nat);
    }
}

spec fn pow128(k: nat) -> nat
    decreases k,
{
    if k == 0 {
        1
    } else {
        128 * pow128((k - 1) as nat)
    }
}

proof fn lemma_read_varint(v: nat, rest: Seq<u8>, budget: nat)
    requires
        v <= u64::MAX,
        v < pow128(budget),
        budget > 0,
    ensures
        read_varint(varint(v) + rest, budget) == Some((v, varint(v).len())),
    decreases v,
{
    let b = varint(v) + rest;
    if v < 128 {
        assert(b[0] == v as u8);
    } else {
        assert(b[0] == (v % 128 + 128) as u8);
        assert(b.drop_first() =~= varint(v / 128) + rest);
        let k = (budget - 1) as nat;
        assert(pow128(budget) == 128 * pow128(k));
        let p = pow128(k);
        assert(v / 128 < p && v / 128 >= 1) by (nonlinear_arith)
            requires
                v < 128 * p,
                v >= 128,
        ;
        if k == 0 {
            assert(pow128(0) == 1);
        }
        assert((v % 128 + 128) as u8 - 128 + 128 * (v / 128) == v);
        lemma_read_varint(v / 128, rest, (budget - 1) as nat);
    }
}

/// A varint read back from the front of any bytes gives the value written.
pub proof fn lemma_varint_round_trip(v: u64, rest: Seq<u8>)
    ensures
        read_varint(varint(v as nat) + rest, MAX_VARINT_LEN as nat) == Some((
            v as nat,
            varint(v as nat).len(),
        )),
{
    reveal_with_fuel(pow128, 11);
    assert(pow128(10) == 1180591620717411303424nat);
    lemma_read_varint(v as nat, rest, 10);
}

/// A field's value as it stands on the wire.
pub enum WireValue {
    Varint(nat),
    Bytes(Seq<u8>),
}

/// The bytes of field `tag` holding `v`: its key, then its value.
pub open spec fn field_bytes(tag: nat, v: WireValue) -> Seq<u8> {
    match v {
        WireValue::Varint(x) => varint(tag * 8) + varint(x),
        WireValue::Bytes(b) => varint(tag * 8 + 2) + varint(b.len()) + b,
    }
}

/// Reads one field from the front of `b`: its tag, its value and how many
/// bytes it took. Only varint and length-delimited fields are read.
pub open spec fn read_field(b: Seq<u8>) -> Option<(nat, WireValue, nat)> {
    match read_varint(b, MAX_VARINT_LEN as nat) {
        None => None,
        Some((key, kn)) => {
            let rest = b.skip(kn as int);
            if key % 8 == 0 {
                match read_varint(rest, MAX_VARINT_LEN as nat) {
                    Some((v, vn)) => Some((key / 8, WireValue::Varint(v), kn + vn)),
                    None => None,
                }
            } else if key % 8 == 2 {
                match read_varint(rest, MAX_VARINT_LEN as nat) {
                    Some((len, ln)) => if ln + len <= rest.len() {
                        Some(
                            (
                                key / 8,
                                WireValue::Bytes(rest.subrange(ln as int, (ln + len) as int)),
                                kn + ln + len,
                            ),
                        )
                    } else {
                        None
                    },
                    None => None,
                }
            } else {
                None
            }
        },
    }
}

/// Where a field's value lies once it has been read.
pub enum WireField {
    Varint(u64),
    /// The value is the bytes from the first position up to the second.
    Bytes(usize, usize),
}

/// Reads one field of `b` at `pos`.
pub fn get_field(b: &[u8], pos: usize) -> (r: Option<(u64, WireField, usize)>)
    requires
        pos <= b@.len(),
    ensures
        match read_field(b@.skip(pos as int)) {
            Some((t, v, n)) => r matches Some((t2, f, n2)) && t2 == t && n2 == n && 1 <= n
                && pos + n <= b@.len() && match v {
                WireValue::Varint(x) => f == WireField::Varint(x as u64),
                WireValue::Bytes(s) => f matches WireField::Bytes(lo, hi) && pos <= lo <= hi
                    == pos + n && b@.subrange(lo as int, hi as int) == s,
            },
            None => r is None,
        },
{
    let total: usize = b.len();
    let (key, kn) = match get_varint(b, pos) {
        Some(x) => x,
        None => return None,
    };
    proof {
        lemma_read_varint_bounds(b@.skip(pos as int), MAX_VARINT_LEN as nat);
        assert(b@.skip(pos as int).skip(kn as int) =~= b@.skip(pos + kn));
    }
    assert(pos + kn <= total);
    if key % 8 == 0 {
        match get_varint(b, pos + kn) {
            Some((v, vn)) => {
                proof {
                    lemma_read_varint_bounds(b@.skip(pos + kn), MAX_VARINT_LEN as nat);
                }
                Some((key / 8, WireField::Varint(v), kn + vn))
            },
            None => None,
        }
    } else if key % 8 == 2 {
        match get_varint(b, pos + kn) {
            Some((len, ln)) => {
                proof {
                    lemma_read_varint_bounds(b@.skip(pos + kn), MAX_VARINT_LEN as nat);
                }
                let start: usize = pos + kn + ln;
                if len as u128 > (total - start) as u128 {
                    None
                } else {
                    let end: usize = start + len as usize;
                    proof {
                        assert(b@.subrange(start as int, end as int) =~= b@.skip(
                            pos as int,
                        ).skip(kn as int).subrange(ln as int, (ln + len) as int));
                    }
                    Some((key / 8, WireField::Bytes(start, end), kn + ln + len as usize))
                }
            },
            None => None,
        }
    } else {
        None
    }
}

/// A field read back from the front of any bytes gives the tag and value written.
pub proof fn lemma_field_round_trip(tag: nat, v: WireValue, rest: Seq<u8>)
    requires
        tag * 8 + 2 <= u64::MAX,
        match v {
            WireValue::Varint(x) => x <= u64::MAX,
            WireValue::Bytes(b) => b.len() <= u64::MAX,
        },
    ensures
        read_field(field_bytes(tag, v) + rest) == Some((tag, v, field_bytes(tag, v).len())),
        (field_bytes(tag, v) + rest).skip(field_bytes(tag, v).len() as int) == rest,
{
    let all = field_bytes(tag, v) + rest;
    assert(all.skip(field_bytes(tag, v).len() as int) =~= rest);
    match v {
        WireValue::Varint(x) => {
            let k = varint(tag * 8);
            assert(all =~= k + (varint(x) + rest));
            lemma_varint_round_trip((tag * 8) as u64, varint(x) + rest);
            assert(all.skip(k.len() as int) =~= varint(x) + rest);
            lemma_varint_round_trip(x as u64, rest);
            assert((tag * 8) % 8 == 0);
            assert((tag * 8) / 8 == tag);
        },
        WireValue::Bytes(b) => {
            let k = varint(tag * 8 + 2);
            let l = varint(b.len());
            assert(all =~= k + (l + (b + rest)));
            lemma_varint_round_trip((tag * 8 + 2) as u64, l + (b + rest));
            assert(all.skip(k.len() as int) =~= l + (b + rest));
            lemma_varint_round_trip(b.len() as u64, b + rest);
            assert((tag * 8 + 2) % 8 == 2);
            assert((tag * 8 + 2) / 8 == tag);
            assert((l + (b + rest)).subrange(l.len() as int, (l.len() + b.len()) as int) =~= b);
        },
    }
}

/// Appends field `tag` holding the varint `v` to `out`.
pub fn put_varint_field(out: &mut Vec<u8>, tag: u64, v: u64)
    requires
        tag <= 15,
    ensures
        final(out)@ == old(out)@ + field_bytes(tag as nat, WireValue::Varint(v as nat)),
{
    put_varint(out, tag * 8);
    put_varint(out, v);
    assert(final(out)@ =~= old(out)@ + field_bytes(tag as nat, WireValue::Varint(v as nat)));
}

/// Appends field `tag` holding the bytes `b` to `out`.
pub fn put_bytes_field(out: &mut Vec<u8>, tag: u64, b: &[u8])
    requires
        tag <= 15,
    ensures
        final(out)@ == old(out)@ + field_bytes(tag as nat, WireValue::Bytes(b@)),
{
    put_varint(out, tag * 8 + 2);
    put_varint(out, b.len() as u64);
    let ghost before = out@;
    let mut i: usize = 0;
    while i < b.len()
        invariant
            i <= b@.len(),
            out@ == before + b@.subrange(0, i as int),
        decreases b@.len() - i,
    {
        out.push(b[i]);
        i = i + 1;
        assert(out@ =~= before + b@.subrange(0, i as int));
    }
    assert(b@.subrange(0, b@.len() as int) =~= b@);
    assert(final(out)@ =~= old(out)@ + field_bytes(tag as nat, WireValue::Bytes(b@)));
}

/// The varint that stands for `v` on the wire: negative values are
/// sign-extended to 64 bits.
pub open spec fn int32_wire(v: i32) -> nat {
    if v >= 0 {
        v as nat
    } else {
        (v + 0x1_0000_0000_0000_0000) as nat
    }
}

/// The `i32` that a varint stands for: its low 32 bits, two's complement.
pub open spec fn int32_of(w: nat) -> i32 {
    let low = w % 0x1_0000_0000;
    if low < 0x8000_0000 {
        low as i32
    } else {
        (low - 0x1_0000_0000) as i32
    }
}

fn int32_to_wire(v: i32) -> (r: u64)
    ensures
        r as nat == int32_wire(v),
{
    if v >= 0 {
        v as u64
    } else {
        u64::MAX - ((-(v as i64) - 1) as u64)
    }
}

fn int32_from_wire(w: u64) -> (r: i32)
    ensures
        r == int32_of(w as nat),
{
    let low: u64 = w % 0x1_0000_0000;
    if low < 0x8000_0000 {
        low as i32
    } else {
        (low as i64 - 0x1_0000_0000) as i32
    }
}

/// The bytes of a message: every field, in the order of its tag.
pub open spec fn msg_bytes(m: MsgModel) -> Seq<u8> {
    field_bytes(1, WireValue::Varint(m.id as nat)) + field_bytes(
        2,
        WireValue::Bytes(encode_utf8(m.route)),
    ) + field_bytes(3, WireValue::Bytes(m.data)) + field_bytes(
        4,
        WireValue::Bytes(encode_utf8(m.reply)),
    ) + field_bytes(5, WireValue::Varint(int32_wire(m.msg_type)))
}

/// The bytes of a request: every field, in the order of its tag; the
/// message only where there is one.
pub open spec fn request_bytes(r: RequestModel) -> Seq<u8> {
    field_bytes(1, WireValue::Varint(int32_wire(r.rpc_type))) + match r.msg {
        Some(m) => field_bytes(3, WireValue::Bytes(msg_bytes(m))),
        None => Seq::<u8>::empty(),
    } + field_bytes(4, WireValue::Bytes(encode_utf8(r.frontend_id))) + field_bytes(
        5,
        WireValue::Bytes(r.metadata),
    )
}

/// Encodes `m`.
pub fn encode_msg(m: &Msg) -> (r: Vec<u8>)
    ensures
        r@ == msg_bytes(m@),
{
    let mut out: Vec<u8> = Vec::new();
    put_varint_field(&mut out, 1, m.id);
    put_bytes_field(&mut out, 2, m.route.as_str().as_bytes());
    put_bytes_field(&mut out, 3, m.data.as_slice());
    put_bytes_field(&mut out, 4, m.reply.as_str().as_bytes());
    put_varint_field(&mut out, 5, int32_to_wire(m.msg_type));
    assert(out@ =~= msg_bytes(m@));
    out
}

/// Encodes `req`.
pub fn encode_request(req: &Request) -> (r: Vec<u8>)
    ensures
        r@ == request_bytes(req@),
{
    let mut out: Vec<u8> = Vec::new();
    put_varint_field(&mut out, 1, int32_to_wire(req.rpc_type));
    match &req.msg {
        Some(m) => {
            let inner = encode_msg(m);
            put_bytes_field(&mut out, 3, inner.as_slice());
        },
        None => {},
    }
    put_bytes_field(&mut out, 4, req.frontend_id.as_str().as_bytes());
    put_bytes_field(&mut out, 5, req.metadata.as_slice());
    assert(out@ =~= request_bytes(req@));
    out
}

/// A message with every field at its default.
pub open spec fn default_msg() -> MsgModel {
    MsgModel { id: 0, route: Seq::empty(), data: Seq::empty(), reply: Seq::empty(), msg_type: 0 }
}

/// A request with every field at its default.
pub open spec fn default_request() -> RequestModel {
    RequestModel { rpc_type: 0, msg: None, frontend_id: Seq::empty(), metadata: Seq::empty() }
}

/// The text that `b` encodes, if it is valid UTF-8.
pub open spec fn text_of(b: Seq<u8>) -> Option<Seq<char>> {
    if valid_utf8(b) {
        Some(decode_utf8(b))
    } else {
        None
    }
}

/// `m` after reading field `tag` holding `v`: a known field takes the value,
/// an unknown one is skipped, and a value of the wrong shape is refused.
pub open spec fn msg_with_field(m: MsgModel, tag: nat, v: WireValue) -> Option<MsgModel> {
    match v {
        WireValue::Varint(x) => if tag == 1 {
            Some(MsgModel { id: x as u64, ..m })
        } else if tag == 5 {
            Some(MsgModel { msg_type: int32_of(x), ..m })
        } else if 2 <= tag <= 4 {
            None
        } else {
            Some(m)
        },
        WireValue::Bytes(b) => if tag == 2 {
            match text_of(b) {
                Some(t) => Some(MsgModel { route: t, ..m }),
                None => None,
            }
        } else if tag == 3 {
            Some(MsgModel { data: b, ..m })
        } else if tag == 4 {
            match text_of(b) {
                Some(t) => Some(MsgModel { reply: t, ..m }),
                None => None,
            }
        } else if tag == 1 || tag == 5 {
            None
        } else {
            Some(m)
        },
    }
}

/// Reads the fields of `b` in turn into `m`; a later field replaces an
/// earlier one with the same tag.
pub open spec fn msg_from_fields(b: Seq<u8>, m: MsgModel) -> Option<MsgModel>
    decreases b.len(),
{
    if b.len() == 0 {
        Some(m)
    } else {
        match read_field(b) {
            Some((t, v, n)) => if 0 < n <= b.len() {
                match msg_with_field(m, t, v) {
                    Some(m2) => msg_from_fields(b.skip(n as int), m2),
                    None => None,
                }
            } else {
                None
            },
            None => None,
        }
    }
}

/// The message that `b` encodes, if any.
pub open spec fn parse_msg(b: Seq<u8>) -> Option<MsgModel> {
    msg_from_fields(b, default_msg())
}

/// `r` after reading field `tag` holding `v`, as for a message.
pub open spec fn request_with_field(r: RequestModel, tag: nat, v: WireValue) -> Option<RequestModel> {
    match v {
        WireValue::Varint(x) => if tag == 1 {
            Some(RequestModel { rpc_type: int32_of(x), ..r })
        } else if 3 <= tag <= 5 {
            None
        } else {
            Some(r)
        },
        WireValue::Bytes(b) => if tag == 3 {
            match parse_msg(b) {
                Some(m) => Some(RequestModel { msg: Some(m), ..r }),
                None => None,
            }
        } else if tag == 4 {
            match text_of(b) {
                Some(t) => Some(RequestModel { frontend_id: t, ..r }),
                None => None,
            }
        } else if tag == 5 {
            Some(RequestModel { metadata: b, ..r })
        } else if tag == 1 {
            None
        } else {
            Some(r)
        },
    }
}

/// Reads the fields of `b` in turn into `r`.
pub open spec fn request_from_fields(b: Seq<u8>, r: RequestModel) -> Option<RequestModel>
    decreases b.len(),
{
    if b.len() == 0 {
        Some(r)
    } else {
        match read_field(b) {
            Some((t, v, n)) => if 0 < n <= b.len() {
                match request_with_field(r, t, v) {
                    Some(r2) => request_from_fields(b.skip(n as int), r2),
                    None => None,
                }
            } else {
                None
            },
            None => None,
        }
    }
}

/// The request that `b` encodes, if any.
pub open spec fn parse_request(b: Seq<u8>) -> Option<RequestModel> {
    request_from_fields(b, default_request())
}

/// Relies on std::str::from_utf8: it accepts exactly the valid UTF-8
/// byte strings and hands back the text they encode.
#[verifier::external_body]
fn text_from_utf8(b: &[u8]) -> (r: Option<String>)
    ensures
        match text_of(b@) {
            Some(t) => r matches Some(s) && s@ == t,
            None => r is None,
        },
{
    std::str::from_utf8(b).ok().map(|s| s.to_owned())
}

fn copy_bytes(b: &[u8]) -> (r: Vec<u8>)
    ensures
        r@ == b@,
{
    let mut out: Vec<u8> = Vec::new();
    let mut i: usize = 0;
    while i < b.len()
        invariant
            i <= b@.len(),
            out@ == b@.subrange(0, i as int),
        decreases b@.len() - i,
    {
        out.push(b[i]);
        i = i + 1;
        assert(out@ =~= b@.subrange(0, i as int));
    }
    assert(b@.subrange(0, b@.len() as int) =~= b@);
    out
}

/// Decodes a message; `None` where `b` encodes none.
pub fn decode_msg(b: &[u8]) -> (r: Option<Msg>)
    ensures
        match parse_msg(b@) {
            Some(m) => r matches Some(x) && x@ == m,
            None => r is None,
        },
{
    let mut m = Msg { id: 0, route: String::new(), data: Vec::new(), reply: String::new(), msg_type: 0 };
    let mut pos: usize = 0;
    assert(m@ == default_msg());
    assert(b@.skip(0) =~= b@);
    while pos < b.len()
        invariant
            pos <= b@.len(),
            parse_msg(b@) == msg_from_fields(b@.skip(pos as int), m@),
        decreases b@.len() - pos,
    {
        let (tag, field, n) = match get_field(b, pos) {
            Some(x) => x,
            None => return None,
        };
        proof {
            assert(b@.skip(pos as int).skip(n as int) =~= b@.skip(pos + n));
        }
        match field {
            WireField::Varint(x) => {
                if tag == 1 {
                    m.id = x;
                } else if tag == 5 {
                    m.msg_type = int32_from_wire(x);
                } else if 2 <= tag && tag <= 4 {
                    return None;
                }
            },
            WireField::Bytes(lo, hi) => {
                if tag == 2 {
                    match text_from_utf8(&b[lo..hi]) {
                        Some(t) => m.route = t,
                        None => return None,
                    }
                } else if tag == 3 {
                    m.data = copy_bytes(&b[lo..hi]);
                } else if tag == 4 {
                    match text_from_utf8(&b[lo..hi]) {
                        Some(t) => m.reply = t,
                        None => return None,
                    }
                } else if tag == 1 || tag == 5 {
                    return None;
                }
            },
        }
        pos = pos + n;
    }
    proof {
        assert(b@.skip(pos as int).len() == 0);
    }
    Some(m)
}

/// Decodes a request; fails with `DecodeError` where `b` encodes none.
pub fn decode_request(b: &[u8]) -> (r: Result<Request, Error>)
    ensures
        match parse_request(b@) {
            Some(q) => r matches Ok(x) && x@ == q,
            None => r matches Err(Error::DecodeError(_)),
        },
{
    let mut q = Request { rpc_type: 0, msg: None, frontend_id: String::new(), metadata: Vec::new() };
    let mut pos: usize = 0;
    assert(q@ == default_request());
    assert(b@.skip(0) =~= b@);
    while pos < b.len()
        invariant
            pos <= b@.len(),
            parse_request(b@) == request_from_fields(b@.skip(pos as int), q@),
        decreases b@.len() - pos,
    {
        let (tag, field, n) = match get_field(b, pos) {
            Some(x) => x,
            None => return Err(Error::DecodeError(String::from_str("malformed field"))),
        };
        proof {
            assert(b@.skip(pos as int).skip(n as int) =~= b@.skip(pos + n));
        }
        match field {
            WireField::Varint(x) => {
                if tag == 1 {
                    q.rpc_type = int32_from_wire(x);
                } else if 3 <= tag && tag <= 5 {
                    return Err(Error::DecodeError(String::from_str("field of the wrong type")));
                }
            },
            WireField::Bytes(lo, hi) => {
                if tag == 3 {
                    match decode_msg(&b[lo..hi]) {
                        Some(m) => q.msg = Some(m),
                        None => return Err(Error::DecodeError(String::from_str("malformed message"))),
                    }
                } else if tag == 4 {
                    match text_from_utf8(&b[lo..hi]) {
                        Some(t) => q.frontend_id = t,
                        None => return Err(Error::DecodeError(String::from_str("invalid text"))),
                    }
                } else if tag == 5 {
                    q.metadata = copy_bytes(&b[lo..hi]);
                } else if tag == 1 {
                    return Err(Error::DecodeError(String::from_str("field of the wrong type")));
                }
            },
        }
        pos = pos + n;
    }
    proof {
        assert(b@.skip(pos as int).len() == 0);
    }
    Ok(q)
}

proof fn lemma_int32_round_trip(v: i32)
    ensures
        int32_of(int32_wire(v)) == v,
        int32_wire(v) <= u64::MAX,
{
}

proof fn lemma_text_round_trip(t: Seq<char>)
    ensures
        text_of(encode_utf8(t)) == Some(t),
{
    encode_utf8_valid_utf8(t);
    encode_utf8_decode_utf8(t);
}

proof fn lemma_msg_step(t: nat, v: WireValue, rest: Seq<u8>, m: MsgModel)
    requires
        1 <= t <= 5,
        match v {
            WireValue::Varint(x) => x <= u64::MAX,
            WireValue::Bytes(b) => b.len() <= u64::MAX,
        },
    ensures
        msg_from_fields(field_bytes(t, v) + rest, m) == match msg_with_field(m, t, v) {
            Some(m2) => msg_from_fields(rest, m2),
            None => None,
        },
{
    lemma_field_round_trip(t, v, rest);
    assert(varint(t * 8).len() > 0 && varint(t * 8 + 2).len() > 0);
}

proof fn lemma_request_step(t: nat, v: WireValue, rest: Seq<u8>, r: RequestModel)
    requires
        1 <= t <= 5,
        match v {
            WireValue::Varint(x) => x <= u64::MAX,
            WireValue::Bytes(b) => b.len() <= u64::MAX,
        },
    ensures
        request_from_fields(field_bytes(t, v) + rest, r) == match request_with_field(r, t, v) {
            Some(r2) => request_from_fields(rest, r2),
            None => None,
        },
{
    lemma_field_round_trip(t, v, rest);
    assert(varint(t * 8).len() > 0 && varint(t * 8 + 2).len() > 0);
}

/// A message decodes back to itself once encoded.
pub proof fn lemma_msg_round_trip(m: MsgModel)
    requires
        msg_bytes(m).len() <= u64::MAX,
    ensures
        parse_msg(msg_bytes(m)) == Some(m),
{
    let e = Seq::<u8>::empty();
    let v1 = WireValue::Varint(m.id as nat);
    let v2 = WireValue::Bytes(encode_utf8(m.route));
    let v3 = WireValue::Bytes(m.data);
    let v4 = WireValue::Bytes(encode_utf8(m.reply));
    let v5 = WireValue::Varint(int32_wire(m.msg_type));
    let (f1, f2, f3, f4, f5) = (
        field_bytes(1, v1),
        field_bytes(2, v2),
        field_bytes(3, v3),
        field_bytes(4, v4),
        field_bytes(5, v5),
    );
    assert(msg_bytes(m) =~= f1 + (f2 + (f3 + (f4 + (f5 + e)))));
    lemma_int32_round_trip(m.msg_type);
    lemma_text_round_trip(m.route);
    lemma_text_round_trip(m.reply);
    let m1 = MsgModel { id: m.id, ..default_msg() };
    let m2 = MsgModel { route: m.route, ..m1 };
    let m3 = MsgModel { data: m.data, ..m2 };
    let m4 = MsgModel { reply: m.reply, ..m3 };
    lemma_msg_step(1, v1, f2 + (f3 + (f4 + (f5 + e))), default_msg());
    lemma_msg_step(2, v2, f3 + (f4 + (f5 + e)), m1);
    lemma_msg_step(3, v3, f4 + (f5 + e), m2);
    lemma_msg_step(4, v4, f5 + e, m3);
    lemma_msg_step(5, v5, e, m4);
    assert(MsgModel { msg_type: m.msg_type, ..m4 } == m);
}

/// Encoding a request and decoding the bytes gives back a request equal
/// to it in every field, empty payloads and routes included.
pub proof fn lemma_request_round_trip(r: RequestModel)
    requires
        request_bytes(r).len() <= u64::MAX,
    ensures
        parse_request(request_bytes(r)) == Some(r),
{
    let e = Seq::<u8>::empty();
    let v1 = WireValue::Varint(int32_wire(r.rpc_type));
    let v4 = WireValue::Bytes(encode_utf8(r.frontend_id));
    let v5 = WireValue::Bytes(r.metadata);
    let f1 = field_bytes(1, v1);
    let f4 = field_bytes(4, v4);
    let f5 = field_bytes(5, v5);
    lemma_int32_round_trip(r.rpc_type);
    lemma_text_round_trip(r.frontend_id);
    let r1 = RequestModel { rpc_type: r.rpc_type, ..default_request() };
    let r3 = RequestModel { msg: r.msg, ..r1 };
    let r4 = RequestModel { frontend_id: r.frontend_id, ..r3 };
    match r.msg {
        Some(m) => {
            let v3 = WireValue::Bytes(msg_bytes(m));
            let f3 = field_bytes(3, v3);
            assert(request_bytes(r) =~= f1 + (f3 + (f4 + (f5 + e))));
            lemma_msg_round_trip(m);
            lemma_request_step(1, v1, f3 + (f4 + (f5 + e)), default_request());
            lemma_request_step(3, v3, f4 + (f5 + e), r1);
        },
        None => {
            assert(request_bytes(r) =~= f1 + (f4 + (f5 + e)));
            lemma_request_step(1, v1, f4 + (f5 + e), default_request());
            assert(r1 == r3);
        },
    }
    lemma_request_step(4, v4, f5 + e, r3);
    lemma_request_step(5, v5, e, r4);
    assert(RequestModel { metadata: r.metadata, ..r4 } == r);
}

/// The bytes of a kick: the user id as field 1.
pub open spec fn kick_msg_bytes(user_id: Seq<char>) -> Seq<u8> {
    field_bytes(1, WireValue::Bytes(encode_utf8(user_id)))
}

/// The bytes of a push: route, user id and payload as fields 1 to 3.
pub open spec fn push_bytes(route: Seq<char>, uid: Seq<char>, data: Seq<u8>) -> Seq<u8> {
    field_bytes(1, WireValue::Bytes(encode_utf8(route))) + field_bytes(
        2,
        WireValue::Bytes(encode_utf8(uid)),
    ) + field_bytes(3, WireValue::Bytes(data))
}

/// Encodes `k`.
pub fn encode_kick_msg(k: &KickMsg) -> (r: Vec<u8>)
    ensures
        r@ == kick_msg_bytes(k.user_id@),
{
    let mut out: Vec<u8> = Vec::new();
    put_bytes_field(&mut out, 1, k.user_id.as_str().as_bytes());
    assert(out@ =~= kick_msg_bytes(k.user_id@));
    out
}

/// Encodes `p`.
pub fn encode_push(p: &Push) -> (r: Vec<u8>)
    ensures
        r@ == push_bytes(p.route@, p.uid@, p.data@),
{
    let mut out: Vec<u8> = Vec::new();
    put_bytes_field(&mut out, 1, p.route.as_str().as_bytes());
    put_bytes_field(&mut out, 2, p.uid.as_str().as_bytes());
    put_bytes_field(&mut out, 3, p.data.as_slice());
    assert(out@ =~= push_bytes(p.route@, p.uid@, p.data@));
    out
}

/// `e` after reading field `tag` holding `v`: code and message are texts;
/// other fields, such as the metadata map, are skipped.
pub open spec fn response_error_with_field(e: ResponseErrorModel, tag: nat, v: WireValue) -> Option<
    ResponseErrorModel,
> {
    match v {
        WireValue::Varint(_) => if tag == 1 || tag == 2 {
            None
        } else {
            Some(e)
        },
        WireValue::Bytes(b) => if tag == 1 {
            match text_of(b) {
                Some(t) => Some(ResponseErrorModel { code: t, ..e }),
                None => None,
            }
        } else if tag == 2 {
            match text_of(b) {
                Some(t) => Some(ResponseErrorModel { msg: t, ..e }),
                None => None,
            }
        } else {
            Some(e)
        },
    }
}

/// Reads the fields of `b` in turn into `e`.
pub open spec fn response_error_from_fields(b: Seq<u8>, e: ResponseErrorModel) -> Option<
    ResponseErrorModel,
>
    decreases b.len(),
{
    if b.len() == 0 {
        Some(e)
    } else {
        match read_field(b) {
            Some((t, v, n)) => if 0 < n <= b.len() {
                match response_error_with_field(e, t, v) {
                    Some(e2) => response_error_from_fields(b.skip(n as int), e2),
                    None => None,
                }
            } else {
                None
            },
            None => None,
        }
    }
}

/// The failure that `b` encodes, if any.
pub open spec fn parse_response_error(b: Seq<u8>) -> Option<ResponseErrorModel> {
    response_error_from_fields(b, ResponseErrorModel { code: Seq::empty(), msg: Seq::empty() })
}

/// `r` after reading field `tag` holding `v`: the payload is field 1, the
/// failure field 2.
pub open spec fn response_with_field(r: ResponseModel, tag: nat, v: WireValue) -> Option<ResponseModel> {
    match v {
        WireValue::Varint(_) => if tag == 1 || tag == 2 {
            None
        } else {
            Some(r)
        },
        WireValue::Bytes(b) => if tag == 1 {
            Some(ResponseModel { data: b, ..r })
        } else if tag == 2 {
            match parse_response_error(b) {
                Some(e) => Some(ResponseModel { error: Some(e), ..r }),
                None => None,
            }
        } else {
            Some(r)
        },
    }
}

/// Reads the fields of `b` in turn into `r`.
pub open spec fn response_from_fields(b: Seq<u8>, r: ResponseModel) -> Option<ResponseModel>
    decreases b.len(),
{
    if b.len() == 0 {
        Some(r)
    } else {
        match read_field(b) {
            Some((t, v, n)) => if 0 < n <= b.len() {
                match response_with_field(r, t, v) {
                    Some(r2) => response_from_fields(b.skip(n as int), r2),
                    None => None,
                }
            } else {
                None
            },
            None => None,
        }
    }
}

/// The response that `b` encodes, if any.
pub open spec fn parse_response(b: Seq<u8>) -> Option<ResponseModel> {
    response_from_fields(b, ResponseModel { data: Seq::empty(), error: None })
}

/// `kicked` after reading field `tag` holding `v`: field 1 is a varint,
/// true where it is not zero.
pub open spec fn kick_answer_with_field(kicked: bool, tag: nat, v: WireValue) -> Option<bool> {
    match v {
        WireValue::Varint(x) => if tag == 1 {
            Some(x != 0)
        } else {
            Some(kicked)
        },
        WireValue::Bytes(_) => if tag == 1 {
            None
        } else {
            Some(kicked)
        },
    }
}

/// Reads the fields of `b` in turn, starting from `kicked`.
pub open spec fn kick_answer_from_fields(b: Seq<u8>, kicked: bool) -> Option<bool>
    decreases b.len(),
{
    if b.len() == 0 {
        Some(kicked)
    } else {
        match read_field(b) {
            Some((t, v, n)) => if 0 < n <= b.len() {
                match kick_answer_with_field(kicked, t, v) {
                    Some(k2) => kick_answer_from_fields(b.skip(n as int), k2),
                    None => None,
                }
            } else {
                None
            },
            None => None,
        }
    }
}

/// Whether the kick answer that `b` encodes says the user was kicked, if
/// `b` encodes one.
pub open spec fn parse_kick_answer(b: Seq<u8>) -> Option<bool> {
    kick_answer_from_fields(b, false)
}

fn decode_response_error(b: &[u8]) -> (r: Option<ResponseError>)
    ensures
        match parse_response_error(b@) {
            Some(e) => r matches Some(x) && x@ == e,
            None => r is None,
        },
{
    let mut e = ResponseError { code: String::new(), msg: String::new() };
    let mut pos: usize = 0;
    assert(b@.skip(0) =~= b@);
    while pos < b.len()
        invariant
            pos <= b@.len(),
            parse_response_error(b@) == response_error_from_fields(b@.skip(pos as int), e@),
        decreases b@.len() - pos,
    {
        let (tag, field, n) = match get_field(b, pos) {
            Some(x) => x,
            None => return None,
        };
        proof {
            assert(b@.skip(pos as int).skip(n as int) =~= b@.skip(pos + n));
        }
        match field {
            WireField::Varint(_) => {
                if tag == 1 || tag == 2 {
                    return None;
                }
            },
            WireField::Bytes(lo, hi) => {
                if tag == 1 {
                    match text_from_utf8(&b[lo..hi]) {
                        Some(t) => e.code = t,
                        None => return None,
                    }
                } else if tag == 2 {
                    match text_from_utf8(&b[lo..hi]) {
                        Some(t) => e.msg = t,
                        None => return None,
                    }
                }
            },
        }
        pos = pos + n;
    }
    proof {
        assert(b@.skip(pos as int).len() == 0);
    }
    Some(e)
}

/// Decodes a response; fails with `DecodeError` where `b` encodes none.
pub fn decode_response(b: &[u8]) -> (r: Result<Response, Error>)
    ensures
        match parse_response(b@) {
            Some(q) => r matches Ok(x) && x@ == q,
            None => r matches Err(Error::DecodeError(_)),
        },
{
    let mut q = Response { data: Vec::new(), error: None };
    let mut pos: usize = 0;
    assert(b@.skip(0) =~= b@);
    while pos < b.len()
        invariant
            pos <= b@.len(),
            parse_response(b@) == response_from_fields(b@.skip(pos as int), q@),
        decreases b@.len() - pos,
    {
        let (tag, field, n) = match get_field(b, pos) {
            Some(x) => x,
            None => return Err(Error::DecodeError(String::from_str("malformed field"))),
        };
        proof {
            assert(b@.skip(pos as int).skip(n as int) =~= b@.skip(pos + n));
        }
        match field {
            WireField::Varint(_) => {
                if tag == 1 || tag == 2 {
                    return Err(Error::DecodeError(String::from_str("field of the wrong type")));
                }
            },
            WireField::Bytes(lo, hi) => {
                if tag == 1 {
                    q.data = copy_bytes(&b[lo..hi]);
                } else if tag == 2 {
                    match decode_response_error(&b[lo..hi]) {
                        Some(e) => q.error = Some(e),
                        None => return Err(Error::DecodeError(String::from_str("malformed error"))),
                    }
                }
            },
        }
        pos = pos + n;
    }
    proof {
        assert(b@.skip(pos as int).len() == 0);
    }
    Ok(q)
}

/// Decodes a kick answer; fails with `DecodeError` where `b` encodes none.
pub fn decode_kick_answer(b: &[u8]) -> (r: Result<KickAnswer, Error>)
    ensures
        match parse_kick_answer(b@) {
            Some(k) => r matches Ok(x) && x.kicked == k,
            None => r matches Err(Error::DecodeError(_)),
        },
{
    let mut kicked = false;
    let mut pos: usize = 0;
    assert(b@.skip(0) =~= b@);
    while pos < b.len()
        invariant
            pos <= b@.len(),
            parse_kick_answer(b@) == kick_answer_from_fields(b@.skip(pos as int), kicked),
        decreases b@.len() - pos,
    {
        let (tag, field, n) = match get_field(b, pos) {
            Some(x) => x,
            None => return Err(Error::DecodeError(String::from_str("malformed field"))),
        };
        proof {
            assert(b@.skip(pos as int).skip(n as int) =~= b@.skip(pos + n));
        }
        match field {
            WireField::Varint(x) => {
                if tag == 1 {
                    kicked = x != 0;
                }
            },
            WireField::Bytes(_, _) => {
                if tag == 1 {
                    return Err(Error::DecodeError(String::from_str("field of the wrong type")));
                }
            },
        }
        pos = pos + n;
    }
    proof {
        assert(b@.skip(pos as int).len() == 0);
    }
    Ok(KickAnswer { kicked })
}

} // verus!
