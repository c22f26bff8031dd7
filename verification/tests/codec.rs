//! Tests of the canonical codec, including byte-for-byte comparisons with
//! the reference CBOR encoder the surrounding ecosystem uses.

use fvm_shared::error::ExitCode;
use hello_actor::{decode, encode, greeting_payload, AbortCode, State};

#[test]
fn round_trip_small() {
    let s = State { count: 5 };
    assert_eq!(decode(encode(&s).as_slice()), Ok(State { count: 5 }));
}

#[test]
fn round_trip_boundaries() {
    let counts: Vec<u64> = vec![
        0,
        1,
        23,
        24,
        255,
        256,
        65535,
        65536,
        4294967295,
        4294967296,
        u64::MAX - 1,
        u64::MAX,
    ];
    for c in counts {
        let s = State { count: c };
        assert_eq!(decode(encode(&s).as_slice()), Ok(s));
    }
}

#[test]
fn encode_deterministic() {
    let a = encode(&State { count: 77 });
    let b = encode(&State { count: 77 });
    assert_eq!(a, b);
}

#[test]
fn encode_matches_reference_codec() {
    // A record encodes as the one-element array holding the counter, which
    // is how the reference encoder serializes a one-element tuple.
    let counts: Vec<u64> = vec![0, 1, 23, 24, 255, 256, 65535, 65536, 4294967296, u64::MAX];
    for c in counts {
        let ours = encode(&State { count: c });
        let reference = fvm_ipld_encoding::to_vec(&(c,)).unwrap();
        assert_eq!(ours, reference);
    }
}

#[test]
fn encode_exact_bytes() {
    assert_eq!(encode(&State { count: 0 }), vec![0x81, 0x00]);
    assert_eq!(encode(&State { count: 23 }), vec![0x81, 0x17]);
    assert_eq!(encode(&State { count: 24 }), vec![0x81, 0x18, 0x18]);
    assert_eq!(encode(&State { count: 256 }), vec![0x81, 0x19, 0x01, 0x00]);
    assert_eq!(
        encode(&State { count: 65536 }),
        vec![0x81, 0x1a, 0x00, 0x01, 0x00, 0x00]
    );
    assert_eq!(
        encode(&State { count: u64::MAX }),
        vec![0x81, 0x1b, 0xff, 0xff, 0xff, 0xff, 0xff, 0xff, 0xff, 0xff]
    );
}

#[test]
fn decode_rejects_truncated() {
    assert_eq!(decode(&[]), Err(AbortCode::MalformedRecord));
    assert_eq!(decode(&[0x81]), Err(AbortCode::MalformedRecord));
    assert_eq!(decode(&[0x81, 0x19, 0x01]), Err(AbortCode::MalformedRecord));
    assert_eq!(decode(&[0x81, 0x18]), Err(AbortCode::MalformedRecord));
}

#[test]
fn decode_rejects_wrong_field_count() {
    // Zero-element and two-element arrays are not a state record.
    assert_eq!(decode(&[0x80]), Err(AbortCode::MalformedRecord));
    assert_eq!(decode(&[0x82, 0x01, 0x02]), Err(AbortCode::MalformedRecord));
}

#[test]
fn decode_rejects_noncanonical() {
    // 5 written behind a one-byte header instead of as an immediate.
    assert_eq!(decode(&[0x81, 0x18, 0x05]), Err(AbortCode::MalformedRecord));
    // 255 written behind a two-byte header.
    assert_eq!(
        decode(&[0x81, 0x19, 0x00, 0xff]),
        Err(AbortCode::MalformedRecord)
    );
    // 65535 written behind a four-byte header.
    assert_eq!(
        decode(&[0x81, 0x1a, 0x00, 0x00, 0xff, 0xff]),
        Err(AbortCode::MalformedRecord)
    );
}

#[test]
fn decode_rejects_trailing_bytes() {
    assert_eq!(decode(&[0x81, 0x01, 0x00]), Err(AbortCode::MalformedRecord));
}

#[test]
fn greeting_matches_reference_codec() {
    let ours = greeting_payload(3);
    let reference = fvm_ipld_encoding::to_vec("Hello world #3!").unwrap();
    assert_eq!(ours, reference);

    let big: u64 = 184467440737095516;
    let ours_big = greeting_payload(big);
    let text = format!("Hello world #{}!", big);
    let reference_big = fvm_ipld_encoding::to_vec(text.as_str()).unwrap();
    assert_eq!(ours_big, reference_big);
}

#[test]
fn exit_codes_match_host_taxonomy() {
    assert_eq!(
        AbortCode::UnhandledMethod.exit_code(),
        ExitCode::USR_UNHANDLED_MESSAGE.value()
    );
    assert_eq!(
        AbortCode::MalformedRecord.exit_code(),
        ExitCode::USR_SERIALIZATION.value()
    );
    assert_eq!(
        AbortCode::PreconditionViolated.exit_code(),
        ExitCode::USR_ILLEGAL_STATE.value()
    );
    assert_eq!(
        AbortCode::CorruptRoot.exit_code(),
        ExitCode::USR_ILLEGAL_STATE.value()
    );
    assert_eq!(
        AbortCode::HostFailure.exit_code(),
        ExitCode::USR_ILLEGAL_STATE.value()
    );
}
