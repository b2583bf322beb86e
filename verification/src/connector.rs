//! Cross-runtime connectors: the key expression a bridged link publishes
//! on, and the wire format of the messages it carries.
//!
//! A sender serializes each message — its timestamp followed by its payload
//! — and publishes it under `zflow/{flow}/{instance}/{link}`; the receiver
//! decodes the bytes and forwards the message to its local consumers.  The
//! framing here is exact: the decoder accepts precisely the encoder's
//! output, and a decoded message determines the bytes it came from.

use vstd::prelude::*;
use crate::channel::{Message, Payload, Timestamp};
use crate::errors::{ErrorKind, ZFError};

verus! {

/// The decimal digit `d` as a character.
pub open spec fn digit_char(d: int) -> char {
    if d == 0 {
        '0'
    } else if d == 1 {
        '1'
    } else if d == 2 {
        '2'
    } else if d == 3 {
        '3'
    } else if d == 4 {
        '4'
    } else if d == 5 {
        '5'
    } else if d == 6 {
        '6'
    } else if d == 7 {
        '7'
    } else if d == 8 {
        '8'
    } else {
        '9'
    }
}

/// The decimal notation of `n`.
pub open spec fn spec_dec(n: nat) -> Seq<char>
    decreases n,
{
    if n < 10 {
        seq![digit_char(n as int)]
    } else {
        spec_dec(n / 10) + seq![digit_char((n % 10) as int)]
    }
}

fn digit_string(d: u8) -> (r: String)
    requires
        d < 10,
    ensures
        r@ == seq![digit_char(d as int)],
{
    proof {
        reveal_strlit("0");
        reveal_strlit("1");
        reveal_strlit("2");
        reveal_strlit("3");
        reveal_strlit("4");
        reveal_strlit("5");
        reveal_strlit("6");
        reveal_strlit("7");
        reveal_strlit("8");
        reveal_strlit("9");
    }
    let r = match d {
        0 => String::from_str("0"),
        1 => String::from_str("1"),
        2 => String::from_str("2"),
        3 => String::from_str("3"),
        4 => String::from_str("4"),
        5 => String::from_str("5"),
        6 => String::from_str("6"),
        7 => String::from_str("7"),
        8 => String::from_str("8"),
        _ => String::from_str("9"),
    };
    proof {
        assert(r@ =~= seq![digit_char(d as int)]);
    }
    r
}

/// Writes `n` in decimal.
pub fn u128_to_dec(n: u128) -> (r: String)
    ensures
        r@ == spec_dec(n as nat),
    decreases n,
{
    if n < 10 {
        digit_string(n as u8)
    } else {
        let mut r = u128_to_dec(n / 10);
        let last = digit_string((n % 10) as u8);
        r.append(last.as_str());
        r
    }
}

/// The key expression the connectors of one bridged link meet on.
pub open spec fn spec_key_expression(
    flow: Seq<char>,
    instance: nat,
    link: Seq<char>,
) -> Seq<char> {
    "zflow/"@ + flow + "/"@ + spec_dec(instance) + "/"@ + link
}

/// Builds `zflow/{flow}/{instance}/{link}`, the key expression under which
/// the named link of the named flow instance is bridged.
pub fn key_expression(flow_id: &str, instance_id: u128, link_id: &str) -> (r: String)
    ensures
        r@ == spec_key_expression(flow_id@, instance_id as nat, link_id@),
{
    let mut r = String::from_str("zflow/");
    r.append(flow_id);
    r.append("/");
    let dec = u128_to_dec(instance_id);
    r.append(dec.as_str());
    r.append("/");
    r.append(link_id);
    r
}

/// The timestamp's time, big endian.
pub open spec fn spec_u64_be(n: u64) -> Seq<u8> {
    seq![
        (n >> 56) as u8,
        (n >> 48) as u8,
        (n >> 40) as u8,
        (n >> 32) as u8,
        (n >> 24) as u8,
        (n >> 16) as u8,
        (n >> 8) as u8,
        n as u8,
    ]
}

/// The clock identity, big endian.
pub open spec fn spec_u128_be(n: u128) -> Seq<u8> {
    seq![
        (n >> 120) as u8,
        (n >> 112) as u8,
        (n >> 104) as u8,
        (n >> 96) as u8,
        (n >> 88) as u8,
        (n >> 80) as u8,
        (n >> 72) as u8,
        (n >> 64) as u8,
        (n >> 56) as u8,
        (n >> 48) as u8,
        (n >> 40) as u8,
        (n >> 32) as u8,
        (n >> 24) as u8,
        (n >> 16) as u8,
        (n >> 8) as u8,
        n as u8,
    ]
}

/// The wire form of a message: 8 bytes of time, 16 bytes of clock identity,
/// a payload tag, and the payload — raw for bytes, big endian for an
/// integer.
pub open spec fn spec_encode(m: Message) -> Seq<u8> {
    spec_u64_be(m.timestamp.time) + spec_u128_be(m.timestamp.id) + (match m.payload {
        Payload::Bytes(v) => seq![0u8] + v@,
        Payload::Int(i) => seq![1u8] + spec_u64_be(i as u64),
    })
}

fn push_u64_be(out: &mut Vec<u8>, n: u64)
    ensures
        final(out)@ == old(out)@ + spec_u64_be(n),
{
        out.push(#[verifier::truncate] ((n >> 56) as u8));
        out.push(#[verifier::truncate] ((n >> 48) as u8));
        out.push(#[verifier::truncate] ((n >> 40) as u8));
        out.push(#[verifier::truncate] ((n >> 32) as u8));
        out.push(#[verifier::truncate] ((n >> 24) as u8));
        out.push(#[verifier::truncate] ((n >> 16) as u8));
        out.push(#[verifier::truncate] ((n >> 8) as u8));
        out.push(#[verifier::truncate] (n as u8));
    proof {
        assert(out@ =~= old(out)@ + spec_u64_be(n));
    }
}

fn push_u128_be(out: &mut Vec<u8>, n: u128)
    ensures
        final(out)@ == old(out)@ + spec_u128_be(n),
{
        out.push(#[verifier::truncate] ((n >> 120) as u8));
        out.push(#[verifier::truncate] ((n >> 112) as u8));
        out.push(#[verifier::truncate] ((n >> 104) as u8));
        out.push(#[verifier::truncate] ((n >> 96) as u8));
        out.push(#[verifier::truncate] ((n >> 88) as u8));
        out.push(#[verifier::truncate] ((n >> 80) as u8));
        out.push(#[verifier::truncate] ((n >> 72) as u8));
        out.push(#[verifier::truncate] ((n >> 64) as u8));
        out.push(#[verifier::truncate] ((n >> 56) as u8));
        out.push(#[verifier::truncate] ((n >> 48) as u8));
        out.push(#[verifier::truncate] ((n >> 40) as u8));
        out.push(#[verifier::truncate] ((n >> 32) as u8));
        out.push(#[verifier::truncate] ((n >> 24) as u8));
        out.push(#[verifier::truncate] ((n >> 16) as u8));
        out.push(#[verifier::truncate] ((n >> 8) as u8));
        out.push(#[verifier::truncate] (n as u8));
    proof {
        assert(out@ =~= old(out)@ + spec_u128_be(n));
    }
}

/// Serializes `m` for the wire.
pub fn encode_message(m: &Message) -> (r: Vec<u8>)
    ensures
        r@ == spec_encode(*m),
{
    let mut out: Vec<u8> = Vec::new();
    push_u64_be(&mut out, m.timestamp.time);
    push_u128_be(&mut out, m.timestamp.id);
    match &m.payload {
        Payload::Bytes(v) => {
            out.push(0u8);
            let ghost before = out@;
            let n = v.len();
            for i in 0..n
                invariant
                    n == v@.len(),
                    out@ == before + v@.take(i as int),
            {
                out.push(v[i]);
                proof {
                    assert(out@ =~= before + v@.take(i + 1));
                }
            }
            proof {
                assert(v@.take(n as int) =~= v@);
                assert(out@ =~= spec_encode(*m));
            }
        },
        Payload::Int(i) => {
            out.push(1u8);
            let bits = #[verifier::truncate] (*i as u64);
            push_u64_be(&mut out, bits);
            proof {
                assert(out@ =~= spec_encode(*m));
            }
        },
    }
    out
}

fn read_u64_be(bytes: &Vec<u8>, off: usize) -> (n: u64)
    requires
        off + 8 <= bytes@.len(),
    ensures
        spec_u64_be(n) == bytes@.subrange(off as int, off + 8),
{
    let total = bytes.len();
    proof {
        assert(off + 8 <= total);
    }
    let n: u64 = ((bytes[off] as u64) << 56) | ((bytes[off + 1] as u64) << 48) | ((bytes[off
        + 2] as u64) << 40) | ((bytes[off + 3] as u64) << 32) | ((bytes[off + 4] as u64) << 24)
        | ((bytes[off + 5] as u64) << 16) | ((bytes[off + 6] as u64) << 8) | (bytes[off
        + 7] as u64);
    proof {
        let b0 = bytes@[off as int];
        let b1 = bytes@[off + 1];
        let b2 = bytes@[off + 2];
        let b3 = bytes@[off + 3];
        let b4 = bytes@[off + 4];
        let b5 = bytes@[off + 5];
        let b6 = bytes@[off + 6];
        let b7 = bytes@[off + 7];
        assert((n >> 56) as u8 == b0 && (n >> 48) as u8 == b1 && (n >> 40) as u8 == b2 && (n
            >> 32) as u8 == b3 && (n >> 24) as u8 == b4 && (n >> 16) as u8 == b5 && (n >> 8) as u8
            == b6 && n as u8 == b7) by (bit_vector)
            requires
                n == ((b0 as u64) << 56) | ((b1 as u64) << 48) | ((b2 as u64) << 40) | ((
                b3 as u64) << 32) | ((b4 as u64) << 24) | ((b5 as u64) << 16) | ((b6 as u64) << 8)
                    | (b7 as u64),
        ;
        assert(spec_u64_be(n) =~= bytes@.subrange(off as int, off + 8));
    }
    n
}

fn read_u128_be(bytes: &Vec<u8>, off: usize) -> (n: u128)
    requires
        off + 16 <= bytes@.len(),
    ensures
        spec_u128_be(n) == bytes@.subrange(off as int, off + 16),
{
    let total = bytes.len();
    proof {
        assert(off + 16 <= total);
    }
    let hi = read_u64_be(bytes, off);
    let lo = read_u64_be(bytes, off + 8);
    let n: u128 = ((hi as u128) << 64) | (lo as u128);
    proof {
        assert((n >> 120) as u8 == (hi >> 56) as u8 && (n >> 112) as u8 == (hi >> 48) as u8 && (n
            >> 104) as u8 == (hi >> 40) as u8 && (n >> 96) as u8 == (hi >> 32) as u8 && (n
            >> 88) as u8 == (hi >> 24) as u8 && (n >> 80) as u8 == (hi >> 16) as u8 && (n
            >> 72) as u8 == (hi >> 8) as u8 && (n >> 64) as u8 == hi as u8 && (n >> 56) as u8 == (
        lo >> 56) as u8 && (n >> 48) as u8 == (lo >> 48) as u8 && (n >> 40) as u8 == (lo
            >> 40) as u8 && (n >> 32) as u8 == (lo >> 32) as u8 && (n >> 24) as u8 == (lo
            >> 24) as u8 && (n >> 16) as u8 == (lo >> 16) as u8 && (n >> 8) as u8 == (lo
            >> 8) as u8 && n as u8 == lo as u8) by (bit_vector)
            requires
                n == ((hi as u128) << 64) | (lo as u128),
        ;
        assert(spec_u128_be(n) =~= bytes@.subrange(off as int, off + 16));
    }
    n
}

/// Deserializes one wire message.  Exactly the encoder's outputs are
/// accepted: a decoded message re-encodes to the very bytes given.
pub fn decode_message(bytes: &Vec<u8>) -> (r: Result<Message, ZFError>)
    ensures
        r matches Ok(m) ==> bytes@ == spec_encode(m),
        r matches Err(e) ==> e.kind == ErrorKind::ParsingError,
{
    if bytes.len() < 25 {
        return Err(ZFError::new(
            ErrorKind::ParsingError,
            String::from_str("the sample is shorter than a message header"),
        ));
    }
    let time = read_u64_be(bytes, 0);
    let id = read_u128_be(bytes, 8);
    let tag = bytes[24];
    if tag == 0 {
        let n = bytes.len();
        let mut v: Vec<u8> = Vec::new();
        for i in 25..n
            invariant
                n == bytes@.len(),
                25 <= n,
                v@ == bytes@.subrange(25, i as int),
        {
            v.push(bytes[i]);
            proof {
                assert(v@ =~= bytes@.subrange(25, i + 1));
            }
        }
        let m = Message { timestamp: Timestamp { time, id }, payload: Payload::Bytes(v) };
        proof {
            assert(bytes@ =~= spec_encode(m));
        }
        Ok(m)
    } else if tag == 1 {
        if bytes.len() != 33 {
            return Err(ZFError::new(
                ErrorKind::ParsingError,
                String::from_str("an integer sample must be exactly 33 bytes"),
            ));
        }
        let bits = read_u64_be(bytes, 25);
        let value = #[verifier::truncate] (bits as i64);
        let m = Message { timestamp: Timestamp { time, id }, payload: Payload::Int(value) };
        proof {
            assert(value as u64 == bits) by (bit_vector)
                requires
                    value == bits as i64,
            ;
            assert(bytes@ =~= spec_encode(m));
        }
        Ok(m)
    } else {
        Err(ZFError::new(
            ErrorKind::ParsingError,
            String::from_str("unknown payload tag"),
        ))
    }
}

/// One wire image decodes to one message: two messages sharing their
/// encoding agree on timestamp and payload value.
pub proof fn lemma_encoding_injective(m1: Message, m2: Message)
    requires
        spec_encode(m1) == spec_encode(m2),
    ensures
        m1.timestamp == m2.timestamp,
        m1.payload.dv() == m2.payload.dv(),
{
    let s1 = spec_encode(m1);
    let s2 = spec_encode(m2);
    let t1 = m1.timestamp.time;
    let t2 = m2.timestamp.time;
    let i1 = m1.timestamp.id;
    let i2 = m2.timestamp.id;
    assert(spec_u64_be(t1).len() == 8 && spec_u128_be(i1).len() == 16);
    assert(spec_u64_be(t2).len() == 8 && spec_u128_be(i2).len() == 16);
    assert forall|k: int| 0 <= k < 8 implies #[trigger] spec_u64_be(t1)[k] == spec_u64_be(
        t2,
    )[k] by {
        assert(s1[k] == spec_u64_be(t1)[k]);
        assert(s2[k] == spec_u64_be(t2)[k]);
        assert(s1[k] == s2[k]);
    }
    assert(t1 == t2) by (bit_vector)
        requires
            (t1 >> 56) as u8 == (t2 >> 56) as u8,
            (t1 >> 48) as u8 == (t2 >> 48) as u8,
            (t1 >> 40) as u8 == (t2 >> 40) as u8,
            (t1 >> 32) as u8 == (t2 >> 32) as u8,
            (t1 >> 24) as u8 == (t2 >> 24) as u8,
            (t1 >> 16) as u8 == (t2 >> 16) as u8,
            (t1 >> 8) as u8 == (t2 >> 8) as u8,
            t1 as u8 == t2 as u8,
    ;
    assert forall|k: int| 0 <= k < 16 implies #[trigger] spec_u128_be(i1)[k] == spec_u128_be(
        i2,
    )[k] by {
        assert(s1[8 + k] == spec_u128_be(i1)[k]);
        assert(s2[8 + k] == spec_u128_be(i2)[k]);
        assert(s1[8 + k] == s2[8 + k]);
    }
    assert(i1 == i2) by (bit_vector)
        requires
            (i1 >> 120) as u8 == (i2 >> 120) as u8,
            (i1 >> 112) as u8 == (i2 >> 112) as u8,
            (i1 >> 104) as u8 == (i2 >> 104) as u8,
            (i1 >> 96) as u8 == (i2 >> 96) as u8,
            (i1 >> 88) as u8 == (i2 >> 88) as u8,
            (i1 >> 80) as u8 == (i2 >> 80) as u8,
            (i1 >> 72) as u8 == (i2 >> 72) as u8,
            (i1 >> 64) as u8 == (i2 >> 64) as u8,
            (i1 >> 56) as u8 == (i2 >> 56) as u8,
            (i1 >> 48) as u8 == (i2 >> 48) as u8,
            (i1 >> 40) as u8 == (i2 >> 40) as u8,
            (i1 >> 32) as u8 == (i2 >> 32) as u8,
            (i1 >> 24) as u8 == (i2 >> 24) as u8,
            (i1 >> 16) as u8 == (i2 >> 16) as u8,
            (i1 >> 8) as u8 == (i2 >> 8) as u8,
            i1 as u8 == i2 as u8,
    ;
    match (m1.payload, m2.payload) {
        (Payload::Bytes(v1), Payload::Bytes(v2)) => {
            assert(s1.len() == 25 + v1@.len());
            assert(s2.len() == 25 + v2@.len());
            assert(v1@.len() == v2@.len());
            assert forall|k: int| 0 <= k < v1@.len() implies #[trigger] v1@[k] == v2@[k] by {
                assert(s1[25 + k] == (seq![0u8] + v1@)[1 + k]);
                assert((seq![0u8] + v1@)[1 + k] == v1@[k]);
                assert(s2[25 + k] == (seq![0u8] + v2@)[1 + k]);
                assert((seq![0u8] + v2@)[1 + k] == v2@[k]);
                assert(s1[25 + k] == s2[25 + k]);
            }
            assert(v1@ =~= v2@);
        },
        (Payload::Int(x1), Payload::Int(x2)) => {
            assert forall|k: int|
                0 <= k < 8 implies #[trigger] spec_u64_be(x1 as u64)[k] == spec_u64_be(
                x2 as u64,
            )[k] by {
                assert(s1[25 + k] == (seq![1u8] + spec_u64_be(x1 as u64))[1 + k]);
                assert((seq![1u8] + spec_u64_be(x1 as u64))[1 + k] == spec_u64_be(x1 as u64)[k]);
                assert(s2[25 + k] == (seq![1u8] + spec_u64_be(x2 as u64))[1 + k]);
                assert((seq![1u8] + spec_u64_be(x2 as u64))[1 + k] == spec_u64_be(x2 as u64)[k]);
                assert(s1[25 + k] == s2[25 + k]);
            }
            let b1 = x1 as u64;
            let b2 = x2 as u64;
            assert(b1 == b2) by (bit_vector)
                requires
                    (b1 >> 56) as u8 == (b2 >> 56) as u8,
                    (b1 >> 48) as u8 == (b2 >> 48) as u8,
                    (b1 >> 40) as u8 == (b2 >> 40) as u8,
                    (b1 >> 32) as u8 == (b2 >> 32) as u8,
                    (b1 >> 24) as u8 == (b2 >> 24) as u8,
                    (b1 >> 16) as u8 == (b2 >> 16) as u8,
                    (b1 >> 8) as u8 == (b2 >> 8) as u8,
                    b1 as u8 == b2 as u8,
            ;
            assert(x1 == x2) by (bit_vector)
                requires
                    x1 as u64 == x2 as u64,
            ;
        },
        (Payload::Bytes(v1), Payload::Int(_)) => {
            assert(s1[24] == (seq![0u8] + v1@)[0]);
            assert(s1[24] == 0u8);
            assert(s2[24] == 1u8);
        },
        (Payload::Int(_), Payload::Bytes(v2)) => {
            assert(s1[24] == 1u8);
            assert(s2[24] == (seq![0u8] + v2@)[0]);
            assert(s2[24] == 0u8);
        },
    }
}

} // verus!
