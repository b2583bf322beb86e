use zenoh_flow::channel::{Message, Payload, Timestamp};
use zenoh_flow::connector::{decode_message, encode_message, key_expression, u128_to_dec};
use zenoh_flow::errors::ErrorKind;

#[test]
fn decimal_rendering_is_exact() {
    assert_eq!(u128_to_dec(0), "0");
    assert_eq!(u128_to_dec(7), "7");
    assert_eq!(u128_to_dec(10), "10");
    assert_eq!(u128_to_dec(1234567890), "1234567890");
    assert_eq!(u128_to_dec(u128::MAX), "340282366920938463463374607431768211455");
}

#[test]
fn key_expression_shape() {
    assert_eq!(key_expression("my-flow", 7, "l3"), "zflow/my-flow/7/l3");
    assert_eq!(key_expression("", 0, ""), "zflow//0/");
}

#[test]
fn wire_round_trip_bytes() {
    let m = Message {
        timestamp: Timestamp { time: 0x0102030405060708, id: 0x0f0e0d0c0b0a09080706050403020100 },
        payload: Payload::Bytes(vec![9, 8, 7]),
    };
    let bytes = encode_message(&m);
    assert_eq!(bytes.len(), 8 + 16 + 1 + 3);
    assert_eq!(&bytes[0..8], &[1, 2, 3, 4, 5, 6, 7, 8]);
    assert_eq!(bytes[24], 0);
    assert_eq!(&bytes[25..], &[9, 8, 7]);
    let back = decode_message(&bytes).unwrap();
    assert_eq!(back.timestamp, m.timestamp);
    match back.payload {
        Payload::Bytes(v) => assert_eq!(v, vec![9, 8, 7]),
        _ => panic!("expected bytes"),
    }
}

#[test]
fn wire_round_trip_negative_int() {
    let m = Message { timestamp: Timestamp { time: 42, id: 1 }, payload: Payload::Int(-5) };
    let bytes = encode_message(&m);
    assert_eq!(bytes.len(), 33);
    assert_eq!(bytes[24], 1);
    let back = decode_message(&bytes).unwrap();
    assert_eq!(back.timestamp.time, 42);
    assert_eq!(back.timestamp.id, 1);
    match back.payload {
        Payload::Int(v) => assert_eq!(v, -5),
        _ => panic!("expected an integer"),
    }
}

#[test]
fn decode_rejects_malformed_samples() {
    // Shorter than a header.
    let e = decode_message(&vec![0u8; 24]).unwrap_err();
    assert_eq!(e.kind, ErrorKind::ParsingError);
    // An unknown payload tag.
    let mut bad_tag = vec![0u8; 25];
    bad_tag[24] = 9;
    let e = decode_message(&bad_tag).unwrap_err();
    assert_eq!(e.kind, ErrorKind::ParsingError);
    // An integer sample of the wrong length.
    let mut short_int = vec![0u8; 30];
    short_int[24] = 1;
    let e = decode_message(&short_int).unwrap_err();
    assert_eq!(e.kind, ErrorKind::ParsingError);
}

#[test]
fn decode_then_encode_reproduces_the_sample() {
    let mut sample = vec![0u8; 29];
    sample[7] = 200;
    sample[23] = 17;
    sample[24] = 0;
    sample[25] = 1;
    sample[26] = 2;
    sample[27] = 3;
    sample[28] = 4;
    let m = decode_message(&sample).unwrap();
    assert_eq!(encode_message(&m), sample);
}
