//! Wire format.

use nux_core::protocol::codec::{
    decode, encode, CodecError, NuxCodec, Wire, MAX_MESSAGE_SIZE,
};
use nux_core::protocol::display::response_text;
use nux_core::protocol::{challenge_payload, NuxRequest, NuxResponse, TunnelHeader, NONCE_LEN};

fn refusal<T: Wire + std::fmt::Debug>(bytes: &[u8]) -> String {
    match decode::<T>(bytes) {
        Err(CodecError::Malformed(why)) => why,
        other => panic!("refus attendu, reçu {other:?}"),
    }
}

const LEFT_OVER: &str = "Slice had bytes remaining after deserialization";
const CUT: &str = "io error: unexpected end of file";

#[test]
fn wire_round_trip() {
    let messages = [
        NuxRequest::HandshakeInit,
        NuxRequest::ChallengeAnswer {
            signature: vec![7u8; 64],
            timestamp: 1_780_000_000,
        },
    ];
    for msg in messages {
        let bytes = encode(&msg).unwrap();
        let back: NuxRequest = decode(&bytes).unwrap();
        assert_eq!(msg, back);
    }

    let resp = NuxResponse::Challenge {
        nonce: [42u8; NONCE_LEN],
        timestamp: 1_780_000_000,
    };
    let back: NuxResponse = decode(&encode(&resp).unwrap()).unwrap();
    assert_eq!(resp, back);

    let header = TunnelHeader {
        service: "postgres".into(),
        binary_sha256: [9u8; 32],
    };
    let back: TunnelHeader = decode(&encode(&header).unwrap()).unwrap();
    assert_eq!(header, back);
}

#[test]
fn decode_rejects_garbage_without_panicking() {
    for payload in [&[][..], &[0xFF; 3], &[0x01, 0x00, 0xFE, 0xDC, 0xBA]] {
        assert!(decode::<NuxRequest>(payload).is_err());
    }
}

#[test]
fn remaining_messages_round_trip() {
    for msg in [
        NuxResponse::AccessGranted { roles: vec!["admin".into(), "é".into()] },
        NuxResponse::AccessGranted { roles: Vec::new() },
        NuxResponse::Denied,
    ] {
        let back: NuxResponse = decode(&encode(&msg).unwrap()).unwrap();
        assert_eq!(msg, back);
    }
}

#[test]
fn encodings_are_exact() {
    assert_eq!(encode(&NuxRequest::HandshakeInit).unwrap(), vec![0]);
    assert_eq!(
        encode(&NuxRequest::ChallengeAnswer { signature: vec![1, 2], timestamp: 3 }).unwrap(),
        vec![1, 2, 1, 2, 3]
    );
    assert_eq!(
        encode(&NuxResponse::AccessGranted { roles: vec!["ab".into()] }).unwrap(),
        vec![1, 1, 2, b'a', b'b']
    );
    assert_eq!(encode(&NuxResponse::Denied).unwrap(), vec![2]);
    let mut challenge = vec![0];
    challenge.extend([5u8; NONCE_LEN]);
    challenge.extend([251, 0x2C, 0x01]);
    assert_eq!(
        encode(&NuxResponse::Challenge { nonce: [5u8; NONCE_LEN], timestamp: 300 }).unwrap(),
        challenge
    );
    let mut header = vec![2, b'd', b'b'];
    header.extend([9u8; 32]);
    assert_eq!(
        encode(&TunnelHeader { service: "db".into(), binary_sha256: [9u8; 32] }).unwrap(),
        header
    );
}

#[test]
fn trailing_bytes_are_refused() {
    for tail in [&[0u8][..], &[1], &[250, 3, 7]] {
        for msg in [
            NuxRequest::HandshakeInit,
            NuxRequest::ChallengeAnswer { signature: vec![7u8; 64], timestamp: 300 },
        ] {
            let mut bytes = encode(&msg).unwrap();
            bytes.extend(tail);
            assert_eq!(refusal::<NuxRequest>(&bytes), LEFT_OVER);
        }
        for msg in [
            NuxResponse::Challenge { nonce: [1; NONCE_LEN], timestamp: 70_000 },
            NuxResponse::AccessGranted { roles: vec!["ops".into()] },
            NuxResponse::Denied,
        ] {
            let mut bytes = encode(&msg).unwrap();
            bytes.extend(tail);
            assert_eq!(refusal::<NuxResponse>(&bytes), LEFT_OVER);
        }
        let header = TunnelHeader { service: "db".into(), binary_sha256: [9; 32] };
        let mut bytes = encode(&header).unwrap();
        bytes.extend(tail);
        assert_eq!(refusal::<TunnelHeader>(&bytes), LEFT_OVER);
    }
    assert_eq!(refusal::<NuxResponse>(&[]), CUT);
}

#[test]
fn oversized_messages_are_refused() {
    let big = NuxRequest::ChallengeAnswer {
        signature: vec![0u8; MAX_MESSAGE_SIZE as usize],
        timestamp: 0,
    };
    assert_eq!(encode(&big), Err(CodecError::SizeLimit));
    let bytes = vec![0u8; MAX_MESSAGE_SIZE as usize + 1];
    assert_eq!(decode::<NuxRequest>(&bytes), Err(CodecError::SizeLimit));
}

#[test]
fn bounded_reading_stops_at_the_limit() {
    assert_eq!(NuxCodec::read_limit(), 65_537);
    assert_eq!(NuxCodec::read_bounded(vec![1, 2]), Ok(vec![1, 2]));
    assert_eq!(NuxCodec::read_bounded(vec![0; 65_536]).map(|b| b.len()), Ok(65_536));
    assert_eq!(NuxCodec::read_bounded(vec![0; 65_537]), Err(CodecError::TooLarge));
}

#[test]
fn codec_errors_have_messages() {
    assert_eq!(CodecError::TooLarge.message(), "message au-delà de la taille maximale");
    assert_eq!(CodecError::Malformed("x".into()).message(), "x");
    let limited = bincode::Options::with_limit(bincode::DefaultOptions::new(), 1);
    let why = bincode::Options::serialize(limited, "trop long").unwrap_err().to_string();
    assert_eq!(CodecError::SizeLimit.message(), why);
}

#[test]
fn signed_bytes_are_the_nonce_and_the_time() {
    let nonce = [7u8; NONCE_LEN];
    let mut expected = nonce.to_vec();
    expected.extend(0x0102_0304_0506_0708u64.to_be_bytes());
    assert_eq!(challenge_payload(&nonce, 0x0102_0304_0506_0708).to_vec(), expected);
    assert_ne!(challenge_payload(&nonce, 1), challenge_payload(&nonce, 2));
}

#[test]
fn responses_are_described_as_debug_does() {
    for msg in [
        NuxResponse::Denied,
        NuxResponse::Challenge { nonce: [3u8; NONCE_LEN], timestamp: 99 },
        NuxResponse::AccessGranted { roles: vec!["a\"b\n".into(), "é".into()] },
    ] {
        assert_eq!(response_text(&msg), format!("{msg:?}"));
    }
}

#[test]
fn readings_are_exact() {
    let answer = |signature: Vec<u8>, timestamp| NuxRequest::ChallengeAnswer { signature, timestamp };
    // Integers may be written in more bytes than they need.
    assert_eq!(decode::<NuxRequest>(&[251, 0, 0]), Ok(NuxRequest::HandshakeInit));
    assert_eq!(decode::<NuxRequest>(&[1, 251, 1, 0, 9, 5]), Ok(answer(vec![9], 5)));
    assert_eq!(
        decode::<NuxRequest>(&[252, 1, 0, 0, 0, 0, 253, 1, 2, 3, 4, 5, 6, 7, 8]),
        Ok(answer(vec![], 0x0807_0605_0403_0201))
    );
    assert_eq!(
        decode::<NuxResponse>(&[1, 2, 1, b'a', 251, 2, 0, 0xC3, 0xA9]),
        Ok(NuxResponse::AccessGranted { roles: vec!["a".into(), "é".into()] })
    );
    for (bytes, why) in [
        (&[2][..], "invalid value: integer `2`, expected variant index 0 <= i < 2"),
        (&[251, 0], CUT),
        (&[253, 0, 0, 0, 0, 1, 0, 0, 0], "Invalid u32 4294967296: you may have a version disagreement?"),
        (&[1, 2, 9, 5], CUT),
        (&[1, 1, 9], CUT),
        (&[0, 0], LEFT_OVER),
        (&[1, 0, 5, 6], LEFT_OVER),
    ] {
        assert_eq!(refusal::<NuxRequest>(bytes), why, "{bytes:?}");
    }
    assert!(refusal::<NuxRequest>(&[254, 0, 0]).starts_with("Invalid value (u128 range)"));
    assert!(refusal::<NuxRequest>(&[255]).contains("Byte 255 is treated as an extension point"));
    assert_eq!(
        refusal::<NuxResponse>(&[3]),
        "invalid value: integer `3`, expected variant index 0 <= i < 3"
    );
    assert_eq!(refusal::<NuxResponse>(&[0, 1]), CUT);
    assert_eq!(refusal::<NuxResponse>(&[2, 0]), LEFT_OVER);
    // Not UTF-8, then one text too few.
    assert!(refusal::<NuxResponse>(&[1, 1, 1, 0xFF]).starts_with("string is not valid utf8"));
    assert_eq!(refusal::<NuxResponse>(&[1, 2, 1, b'a']), CUT);
    let mut header = vec![2, b'd', b'b'];
    header.extend([7u8; 32]);
    assert_eq!(
        decode::<TunnelHeader>(&header),
        Ok(TunnelHeader { service: "db".into(), binary_sha256: [7; 32] })
    );
    header.push(0);
    assert_eq!(refusal::<TunnelHeader>(&header), LEFT_OVER);
}
