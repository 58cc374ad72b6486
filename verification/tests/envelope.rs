//! The wire envelopes of goals, goal acknowledgements, results and cancels.
use peppylib::cancel_ack::{decode_cancel_ack, encode_cancel_ack, CancelState};
use peppylib::envelope::{
    feedback_request, generate_goal_id, goal_id_from_bits, goal_id_from_request, is_safe_goal_id,
    split_goal_ack, split_goal_envelope, unwrap_goal_ack, unwrap_goal_payload,
    unwrap_result_outcome, wrap_goal_ack, wrap_goal_payload, wrap_result_outcome, ResultStatus,
};
use peppylib::error::{Error, Result};
use peppylib::payload::Payload;
use peppylib::short_id::generate_short_id;

fn assert_envelope_error(result: Result<Payload>) {
    match result {
        Err(Error::InternalEncodingError { identifier, .. }) => {
            assert_eq!(identifier, "action_goal_envelope");
        }
        Err(other) => panic!("expected InternalEncodingError, got {other:?}"),
        Ok(_) => panic!("expected error, got Ok"),
    }
}

fn assert_unwrap_error(result: Result<(&str, &[u8])>) {
    match result {
        Err(Error::InternalEncodingError { identifier, .. }) => {
            assert_eq!(identifier, "action_goal_envelope");
        }
        Err(other) => panic!("expected InternalEncodingError, got {other:?}"),
        Ok(_) => panic!("expected error, got Ok"),
    }
}

#[test]
fn wrap_then_unwrap_roundtrip() {
    let wire = wrap_goal_payload("goal-abc", b"hello").expect("wrap should succeed");
    let (goal_id, body) = unwrap_goal_payload(wire.as_slice()).expect("unwrap should succeed");
    assert_eq!(goal_id, "goal-abc");
    assert_eq!(body, b"hello");
}

#[test]
fn wrap_unwrap_with_empty_user_payload() {
    let wire = wrap_goal_payload("goal-xyz", b"").expect("wrap should succeed");
    let (goal_id, body) = unwrap_goal_payload(wire.as_slice()).expect("unwrap should succeed");
    assert_eq!(goal_id, "goal-xyz");
    assert!(body.is_empty());
}

#[test]
fn result_outcome_roundtrips_each_status() {
    for status in [
        ResultStatus::Completed,
        ResultStatus::Cancelled,
        ResultStatus::Abandoned,
        ResultStatus::Expired,
    ] {
        let wire = wrap_result_outcome(status, b"payload");
        let (decoded, body) = unwrap_result_outcome(wire.as_slice()).expect("unwrap outcome");
        assert_eq!(decoded, status);
        assert_eq!(body, b"payload");
    }
}

#[test]
fn result_outcome_with_empty_body() {
    let wire = wrap_result_outcome(ResultStatus::Abandoned, b"");
    let (status, body) = unwrap_result_outcome(wire.as_slice()).expect("unwrap outcome");
    assert_eq!(status, ResultStatus::Abandoned);
    assert!(body.is_empty());
}

#[test]
fn goal_ack_roundtrips_accept_without_reason() {
    let wire = wrap_goal_ack(true, None, b"response").expect("wrap ack");
    let (accepted, reason, body) = unwrap_goal_ack(wire.as_slice()).expect("unwrap ack");
    assert!(accepted);
    assert_eq!(reason, None);
    assert_eq!(body, b"response");
}

#[test]
fn goal_ack_roundtrips_reject_with_reason_and_body() {
    let wire =
        wrap_goal_ack(false, Some("arm 3 is already moving"), b"response").expect("wrap ack");
    let (accepted, reason, body) = unwrap_goal_ack(wire.as_slice()).expect("unwrap ack");
    assert!(!accepted);
    assert_eq!(reason, Some("arm 3 is already moving"));
    assert_eq!(body, b"response");
}

#[test]
fn goal_ack_roundtrips_reject_with_empty_reason_and_body() {
    let wire = wrap_goal_ack(false, None, b"").expect("wrap ack");
    let (accepted, reason, body) = unwrap_goal_ack(wire.as_slice()).expect("unwrap ack");
    assert!(!accepted);
    assert_eq!(reason, None);
    assert!(body.is_empty());
}

#[test]
fn goal_ack_wrap_rejects_oversized_reason() {
    let oversized = "r".repeat(u16::MAX as usize + 1);
    match wrap_goal_ack(false, Some(&oversized), b"") {
        Err(Error::InternalEncodingError { identifier, reason }) => {
            assert_eq!(identifier, "action_goal_ack_envelope");
            assert!(reason.contains("exceeds wire limit"));
            assert_eq!(reason, "reason length 65536 exceeds wire limit 65535");
        }
        Err(other) => panic!("expected InternalEncodingError, got {other:?}"),
        Ok(_) => panic!("expected InternalEncodingError, got Ok"),
    }
}

#[test]
fn goal_ack_wrap_accepts_max_length_reason() {
    let max_len = "r".repeat(u16::MAX as usize);
    let wire = wrap_goal_ack(false, Some(&max_len), b"x").expect("wrap ack at limit");
    let (accepted, reason, body) = unwrap_goal_ack(wire.as_slice()).expect("unwrap ack");
    assert!(!accepted);
    assert_eq!(reason.expect("reason survives"), max_len);
    assert_eq!(body, b"x");
}

fn assert_goal_ack_unwrap_error(wire: &[u8], expected_reason_fragment: &str) {
    match unwrap_goal_ack(wire) {
        Err(Error::InternalEncodingError { identifier, reason }) => {
            assert_eq!(identifier, "action_goal_ack_envelope");
            assert!(
                reason.contains(expected_reason_fragment),
                "reason {reason:?} should contain {expected_reason_fragment:?}"
            );
        }
        other => panic!("expected InternalEncodingError, got {other:?}"),
    }
}

#[test]
fn unwrap_goal_ack_rejects_empty_wire() {
    assert_goal_ack_unwrap_error(&[], "wire payload is empty");
}

#[test]
fn unwrap_goal_ack_rejects_unknown_tag() {
    assert_goal_ack_unwrap_error(&[0x02, 0, 0], "unknown accepted tag");
}

#[test]
fn unwrap_goal_ack_rejects_missing_reason_length() {
    assert_goal_ack_unwrap_error(&[0x01, 0], "too short for reason length");
}

#[test]
fn unwrap_goal_ack_rejects_truncated_reason() {
    // Declares a 4-byte reason but only provides 1 byte after the header.
    assert_goal_ack_unwrap_error(&[0x00, 0, 4, b'r'], "too short for declared reason_len");
}

#[test]
fn unwrap_goal_ack_rejects_non_utf8_reason() {
    assert_goal_ack_unwrap_error(&[0x00, 0, 2, 0xFF, 0xFE], "not valid UTF-8");
}

#[test]
fn unwrap_result_outcome_rejects_empty_wire() {
    match unwrap_result_outcome(&[]) {
        Err(Error::InternalEncodingError { identifier, .. }) => {
            assert_eq!(identifier, "action_result_outcome_envelope");
        }
        other => panic!("expected InternalEncodingError, got {other:?}"),
    }
}

#[test]
fn unwrap_result_outcome_rejects_unknown_tag() {
    match unwrap_result_outcome(&[0xFF, 1, 2, 3]) {
        Err(Error::InternalEncodingError { identifier, reason }) => {
            assert_eq!(identifier, "action_result_outcome_envelope");
            assert!(reason.contains("unknown result status tag"));
            assert_eq!(reason, "unknown result status tag 255");
        }
        other => panic!("expected InternalEncodingError, got {other:?}"),
    }
}

#[test]
fn wrap_rejects_empty_goal_id() {
    assert_envelope_error(wrap_goal_payload("", b"payload"));
}

#[test]
fn wrap_rejects_goal_id_over_255_bytes() {
    let oversized = "a".repeat(256);
    assert_envelope_error(wrap_goal_payload(&oversized, b"payload"));
}

#[test]
fn wrap_accepts_max_length_goal_id() {
    let max_len = "a".repeat(255);
    let wire = wrap_goal_payload(&max_len, b"x").expect("wrap should succeed at 255 bytes");
    let (goal_id, body) = unwrap_goal_payload(wire.as_slice()).expect("unwrap should succeed");
    assert_eq!(goal_id, max_len);
    assert_eq!(body, b"x");
}

#[test]
fn unwrap_rejects_empty_wire() {
    assert_unwrap_error(unwrap_goal_payload(&[]));
}

#[test]
fn unwrap_rejects_zero_length_prefix() {
    assert_unwrap_error(unwrap_goal_payload(&[0x00]));
}

#[test]
fn unwrap_rejects_truncated_wire() {
    // Declares a 5-byte goal_id but only provides 1 byte after the length prefix.
    assert_unwrap_error(unwrap_goal_payload(&[0x05, b'a']));
}

#[test]
fn unwrap_rejects_non_utf8_goal_id() {
    // 0xFF / 0xFE form an invalid UTF-8 sequence.
    assert_unwrap_error(unwrap_goal_payload(&[0x02, 0xFF, 0xFE, b'p']));
}

#[test]
fn a_goal_wire_is_the_length_prefix_the_id_and_the_payload() {
    let wire = wrap_goal_payload("ab", b"xy").expect("wrap");
    assert_eq!(wire.as_slice(), &[2, b'a', b'b', b'x', b'y']);
    let id = "é".repeat(2);
    let wire = wrap_goal_payload(&id, b"z").expect("wrap");
    assert_eq!(wire.as_slice()[0], 4, "the prefix counts bytes, not characters");
    assert_eq!(goal_id_from_request(wire.as_slice()).expect("read"), id);
}

#[test]
fn goal_id_refusals_say_what_is_wrong() {
    let reason = |result: Result<Payload>| match result {
        Err(Error::InternalEncodingError { reason, .. }) => reason,
        _ => panic!("expected an encoding error"),
    };
    assert_eq!(reason(wrap_goal_payload("", b"")), "goal_id must be non-empty");
    assert_eq!(
        reason(wrap_goal_payload(&"a".repeat(256), b"")),
        "goal_id length 256 exceeds wire limit 255"
    );
}

#[test]
fn a_split_envelope_shares_the_wire() {
    let wire = wrap_goal_payload("goal", b"body").expect("wrap");
    let (goal_id, body) = split_goal_envelope(&wire).expect("split");
    assert_eq!(goal_id, "goal");
    assert_eq!(body.as_slice(), b"body");
    assert_eq!(
        body.as_slice().as_ptr() as usize,
        wire.as_slice().as_ptr() as usize + 5,
        "the body is a view of the wire"
    );
}

#[test]
fn an_ack_wire_holds_the_reason_length_high_byte_first() {
    let reason = "r".repeat(258);
    let wire = wrap_goal_ack(false, Some(&reason), b"!").expect("wrap");
    assert_eq!(&wire.as_slice()[..3], &[0, 1, 2]);
    assert_eq!(wire.len(), 3 + 258 + 1);
    let (accepted, read, body) = split_goal_ack(&wire).expect("split");
    assert!(!accepted);
    assert_eq!(read, Some(reason));
    assert_eq!(body.as_slice(), b"!");
}

#[test]
fn result_tags_are_fixed() {
    for (status, tag) in [
        (ResultStatus::Completed, 0u8),
        (ResultStatus::Cancelled, 1),
        (ResultStatus::Abandoned, 2),
        (ResultStatus::Expired, 3),
    ] {
        assert_eq!(wrap_result_outcome(status, b"q").as_slice(), &[tag, b'q']);
    }
}

#[test]
fn an_unsafe_goal_id_gets_no_feedback_topic() {
    for unsafe_id in ["a/b", "*", "a+b", "a#", "ü", ""] {
        assert!(!is_safe_goal_id(unsafe_id), "{unsafe_id:?}");
    }
    for safe_id in ["a", "goal-1", "GOAL_2", "0"] {
        assert!(is_safe_goal_id(safe_id), "{safe_id:?}");
    }
    let wire = wrap_goal_payload("a/\"b", b"body").expect("wrap");
    match feedback_request(&wire) {
        Err(Error::InternalEncodingError { identifier, reason }) => {
            assert_eq!(identifier, "action_goal_envelope");
            assert_eq!(reason, "goal_id contains unsafe characters: \"a/\\\"b\"");
        }
        _ => panic!("an unsafe goal id must be refused"),
    }
    let wire = wrap_goal_payload("goal-1", b"body").expect("wrap");
    let (goal_id, body) = feedback_request(&wire).expect("a safe id passes");
    assert_eq!(goal_id, "goal-1");
    assert_eq!(body.as_slice(), b"body");
}

#[test]
fn generated_ids_are_sixteen_hex_digits() {
    assert_eq!(goal_id_from_bits(0), "0000000000000000");
    assert_eq!(goal_id_from_bits(0xdead_beef), "00000000deadbeef");
    assert_eq!(goal_id_from_bits(u64::MAX), "ffffffffffffffff");
    let mut seen = Vec::new();
    for id in [
        generate_goal_id(),
        generate_goal_id(),
        generate_goal_id(),
        generate_short_id(),
        generate_short_id(),
        generate_short_id(),
    ] {
        assert_eq!(id.len(), 16);
        assert!(id.chars().all(|c| c.is_ascii_hexdigit()));
        assert!(is_safe_goal_id(&id));
        seen.push(id);
    }
    seen.sort();
    seen.dedup();
    assert!(seen.len() > 1, "ids are drawn, not fixed");
}

#[test]
fn cancel_acks_round_trip_and_stay_distinct() {
    let mut wires = Vec::new();
    for state in [CancelState::Signalled, CancelState::AlreadyTerminal, CancelState::Unknown] {
        let wire = encode_cancel_ack(state).expect("encode");
        assert_eq!(decode_cancel_ack(wire.as_slice()).expect("decode"), state);
        wires.push(wire.as_slice().to_vec());
    }
    assert_ne!(wires[0], wires[1]);
    assert_ne!(wires[1], wires[2]);
    assert_ne!(wires[0], wires[2]);
}

#[test]
fn a_malformed_cancel_ack_is_refused() {
    assert!(matches!(decode_cancel_ack(&[]), Err(Error::Deserialization(_))));
    assert!(matches!(decode_cancel_ack(b"nonsense"), Err(Error::Deserialization(_))));
    let mut wire = encode_cancel_ack(CancelState::Unknown).expect("encode").as_slice().to_vec();
    let tag = wire.iter().rposition(|byte| *byte == 2).expect("the tag is on the wire");
    wire[tag] = 9;
    assert!(decode_cancel_ack(&wire).is_err(), "an unknown state is refused");
}

#[test]
fn payloads_share_and_slice_their_bytes() {
    let payload = Payload::from_vec(vec![1, 2, 3]);
    assert_eq!(payload.len(), 3);
    assert!(!payload.is_empty());
    assert!(Payload::new().is_empty());
    assert_eq!(payload.share().as_slice(), &[1, 2, 3]);
    assert_eq!(payload.slice_from(1).as_slice(), &[2, 3]);
    assert_eq!(payload.slice_from(3).as_slice(), &[] as &[u8]);
    let inner = payload.into_inner();
    assert_eq!(&inner[..], &[1, 2, 3]);
    assert_eq!(Payload::from_bytes(inner).as_slice(), &[1, 2, 3]);
}

#[test]
fn a_cancel_ack_is_one_data_word() {
    let wire = encode_cancel_ack(CancelState::AlreadyTerminal).expect("encode");
    assert_eq!(
        wire.as_slice(),
        &[0, 0, 0, 0, 2, 0, 0, 0, 0, 0, 0, 0, 1, 0, 0, 0, 1, 0, 0, 0, 0, 0, 0, 0]
    );
}
