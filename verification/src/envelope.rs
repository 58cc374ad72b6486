//! The wire envelopes of actions: goals, goal acknowledgements and results.
use crate::error::{Error, ErrorView, Result};
use crate::payload;
use crate::payload::{Payload, PayloadBuilder};
use crate::short_id::random_bits;
use crate::text;
use crate::text::decimal_text;
use crate::utf8;
use crate::utf8::{quoted_text, text_from_utf8};
use vstd::prelude::*;
use vstd::slice::slice_subrange;
use vstd::string::*;
use vstd::utf8::*;

verus! {

/// The longest goal id, in bytes, that a goal envelope can carry.
pub const MAX_GOAL_ID_BYTES: usize = 255;

/// The longest reason, in bytes, that a goal acknowledgement can carry.
pub const MAX_REASON_BYTES: usize = 65535;

/// `prefix` followed by `tail`.
fn joined(prefix: &str, tail: &str) -> (whole: String)
    ensures
        whole@ == prefix@ + tail@,
{
    let mut whole = prefix.to_owned();
    whole.append(tail);
    whole
}

/// The error of a goal envelope.
pub open spec fn goal_error(reason: Seq<char>) -> ErrorView {
    ErrorView::InternalEncodingError { identifier: "action_goal_envelope"@, reason }
}

fn envelope_error(reason: String) -> (error: Error)
    ensures
        error@ == goal_error(reason@),
{
    Error::InternalEncodingError { identifier: "action_goal_envelope".to_owned(), reason }
}

/// The bytes of a goal envelope: `[goal_id_len: u8][goal_id][user_payload]`.
pub open spec fn goal_wire(goal_id: Seq<char>, user_payload: Seq<u8>) -> Seq<u8> {
    seq![encode_utf8(goal_id).len() as u8] + encode_utf8(goal_id) + user_payload
}

/// Whether a goal envelope can carry `goal_id`.
pub open spec fn wrappable_goal_id(goal_id: Seq<char>) -> bool {
    0 < encode_utf8(goal_id).len() <= MAX_GOAL_ID_BYTES
}

/// Why a goal id that no envelope can carry is refused.
pub open spec fn goal_id_refusal(goal_id: Seq<char>) -> Seq<char> {
    if encode_utf8(goal_id).len() == 0 {
        "goal_id must be non-empty"@
    } else {
        "goal_id length "@ + text::decimal(encode_utf8(goal_id).len()) + " exceeds wire limit "@ + text::decimal(
            MAX_GOAL_ID_BYTES as nat,
        )
    }
}

/// Wraps a user goal payload with its length-prefixed `goal_id`, so that a
/// server can route feedback to a per-goal topic.
pub fn wrap_goal_payload(goal_id: &str, user_payload: &[u8]) -> (wrapped: Result<Payload>)
    requires
        wrappable_goal_id(goal_id@) ==> payload::fits_allocation(
            1 + encode_utf8(goal_id@).len() + user_payload@.len(),
        ),
    ensures
        match wrapped {
            Ok(wire) => wrappable_goal_id(goal_id@) && wire@ == goal_wire(goal_id@, user_payload@),
            Err(error) => !wrappable_goal_id(goal_id@) && error@ == goal_error(
                goal_id_refusal(goal_id@),
            ),
        },
{
    let id: &[u8] = goal_id.as_bytes();
    if id.len() == 0 {
        return Err(envelope_error("goal_id must be non-empty".to_owned()));
    }
    if id.len() > MAX_GOAL_ID_BYTES {
        let mut reason = joined("goal_id length ", decimal_text(id.len() as u64).as_str());
        reason.append(" exceeds wire limit ");
        reason.append(decimal_text(MAX_GOAL_ID_BYTES as u64).as_str());
        return Err(envelope_error(reason));
    }
    let mut buffer = PayloadBuilder::with_capacity(1 + id.len() + user_payload.len());
    buffer.put_u8(id.len() as u8);
    buffer.extend_from_slice(id);
    buffer.extend_from_slice(user_payload);
    let wire = buffer.freeze();
    proof {
        assert(wire@ =~= goal_wire(goal_id@, user_payload@));
    }
    Ok(wire)
}

/// What a goal envelope holds: the goal id and the user payload, or the reason
/// why `wire` is no goal envelope.
pub open spec fn goal_envelope(wire: Seq<u8>) -> std::result::Result<(Seq<char>, Seq<u8>), Seq<char>> {
    if wire.len() == 0 {
        Err("wire payload is empty"@)
    } else if wire[0] == 0 {
        Err("goal_id is empty"@)
    } else if wire.len() < 1 + wire[0] {
        Err("wire payload too short for declared goal_id_len "@ + text::decimal(wire[0] as nat))
    } else if !valid_utf8(wire.subrange(1, 1 + wire[0])) {
        Err("goal_id is not valid UTF-8: "@ + utf8::utf8_error_message(wire.subrange(1, 1 + wire[0])))
    } else {
        Ok((decode_utf8(wire.subrange(1, 1 + wire[0])), wire.skip(1 + wire[0])))
    }
}

/// Decodes a goal envelope into the embedded goal id and the user payload.
pub fn unwrap_goal_payload(wire: &[u8]) -> (read: Result<(&str, &[u8])>)
    ensures
        match read {
            Ok(parts) => goal_envelope(wire@) == Ok::<(Seq<char>, Seq<u8>), Seq<char>>(
                (parts.0@, parts.1@),
            ),
            Err(error) => goal_envelope(wire@) is Err && error@ == goal_error(
                goal_envelope(wire@)->Err_0,
            ),
        },
{
    if wire.len() == 0 {
        return Err(envelope_error("wire payload is empty".to_owned()));
    }
    let id_len: usize = wire[0] as usize;
    if id_len == 0 {
        return Err(envelope_error("goal_id is empty".to_owned()));
    }
    let body_start: usize = 1 + id_len;
    if wire.len() < body_start {
        return Err(
            envelope_error(
                joined(
                    "wire payload too short for declared goal_id_len ",
                    decimal_text(id_len as u64).as_str(),
                ),
            ),
        );
    }
    let id: &[u8] = slice_subrange(wire, 1, body_start);
    match text_from_utf8(id) {
        Err(message) => Err(
            envelope_error(joined("goal_id is not valid UTF-8: ", message.as_str())),
        ),
        Ok(goal_id) => {
            let body: &[u8] = slice_subrange(wire, body_start, wire.len());
            proof {
                encode_utf8_decode_utf8(goal_id@);
                assert(body@ =~= wire@.skip(body_start as int));
            }
            Ok((goal_id, body))
        },
    }
}

/// Splits a goal envelope into its goal id and the user payload, which shares
/// the storage of `wire`.
pub fn split_goal_envelope(wire: &Payload) -> (read: Result<(String, Payload)>)
    ensures
        match read {
            Ok(parts) => goal_envelope(wire@) == Ok::<(Seq<char>, Seq<u8>), Seq<char>>(
                (parts.0@, parts.1@),
            ),
            Err(error) => goal_envelope(wire@) is Err && error@ == goal_error(
                goal_envelope(wire@)->Err_0,
            ),
        },
{
    match unwrap_goal_payload(wire.as_slice()) {
        Err(error) => Err(error),
        Ok(parts) => {
            let offset: usize = wire.len() - parts.1.len();
            Ok((parts.0.to_owned(), wire.slice_from(offset)))
        },
    }
}

/// The goal id that a cancel or result request carries.
pub fn goal_id_from_request(payload: &[u8]) -> (read: Result<String>)
    ensures
        match read {
            Ok(goal_id) => goal_envelope(payload@) is Ok && goal_envelope(payload@)->Ok_0.0
                == goal_id@,
            Err(error) => goal_envelope(payload@) is Err && error@ == goal_error(
                goal_envelope(payload@)->Err_0,
            ),
        },
{
    match unwrap_goal_payload(payload) {
        Err(error) => Err(error),
        Ok(parts) => Ok(parts.0.to_owned()),
    }
}

/// A goal envelope reads back as what was wrapped, for every goal id that an
/// envelope can carry and every payload.
pub proof fn law_goal_round_trip(goal_id: Seq<char>, user_payload: Seq<u8>)
    requires
        wrappable_goal_id(goal_id),
    ensures
        goal_envelope(goal_wire(goal_id, user_payload)) == Ok::<(Seq<char>, Seq<u8>), Seq<char>>(
            (goal_id, user_payload),
        ),
{
    let wire = goal_wire(goal_id, user_payload);
    let id = encode_utf8(goal_id);
    assert(wire.subrange(1, 1 + wire[0]) =~= id);
    assert(wire.skip(1 + wire[0]) =~= user_payload);
    encode_utf8_valid_utf8(goal_id);
    encode_utf8_decode_utf8(goal_id);
}

/// Whatever reads as a goal envelope is the envelope of what it reads as: no
/// two distinct wires carry the same goal, and the goal id is one that can be
/// wrapped.
pub proof fn law_goal_wire_canonical(wire: Seq<u8>)
    requires
        goal_envelope(wire) is Ok,
    ensures
        wrappable_goal_id(goal_envelope(wire)->Ok_0.0),
        goal_wire(goal_envelope(wire)->Ok_0.0, goal_envelope(wire)->Ok_0.1) == wire,
{
    let id = wire.subrange(1, 1 + wire[0]);
    decode_utf8_encode_utf8(id);
    let parts = goal_envelope(wire)->Ok_0;
    assert(goal_wire(parts.0, parts.1) =~= wire);
}

/// The terminal status of a goal, carried as a one-byte tag before the body of
/// a result reply.
#[derive(Debug, Clone, Copy, PartialEq, Eq, Structural)]
pub enum ResultStatus {
    /// The worker delivered a result.
    Completed,
    /// The worker delivered a result after a cancel.
    Cancelled,
    /// The worker dropped the goal without delivering a result.
    Abandoned,
    /// The goal ended, and its result was retained only for a window that has
    /// since elapsed.
    Expired,
}

impl ResultStatus {
    /// The wire tag of this status.
    pub open spec fn tag(self) -> u8 {
        match self {
            ResultStatus::Completed => 0,
            ResultStatus::Cancelled => 1,
            ResultStatus::Abandoned => 2,
            ResultStatus::Expired => 3,
        }
    }

    /// The wire tag of this status.
    pub fn to_tag(self) -> (tag: u8)
        ensures
            tag == self.tag(),
    {
        match self {
            ResultStatus::Completed => 0,
            ResultStatus::Cancelled => 1,
            ResultStatus::Abandoned => 2,
            ResultStatus::Expired => 3,
        }
    }

    /// The status whose wire tag is `tag`.
    pub fn from_tag(tag: u8) -> (status: Option<Self>)
        ensures
            status matches Some(found) ==> found.tag() == tag,
            status is None ==> tag > 3,
    {
        if tag == 0 {
            Some(ResultStatus::Completed)
        } else if tag == 1 {
            Some(ResultStatus::Cancelled)
        } else if tag == 2 {
            Some(ResultStatus::Abandoned)
        } else if tag == 3 {
            Some(ResultStatus::Expired)
        } else {
            None
        }
    }
}

/// The bytes of a result reply: `[status: u8][body]`.
pub open spec fn result_wire(status: ResultStatus, body: Seq<u8>) -> Seq<u8> {
    seq![status.tag()] + body
}

/// Frames a result reply. `body` is the worker's result, empty for
/// [`ResultStatus::Abandoned`] and [`ResultStatus::Expired`].
pub fn wrap_result_outcome(status: ResultStatus, body: &[u8]) -> (wire: Payload)
    requires
        payload::fits_allocation(1 + body@.len()),
    ensures
        wire@ == result_wire(status, body@),
{
    let mut buffer = PayloadBuilder::with_capacity(1 + body.len());
    buffer.put_u8(status.to_tag());
    buffer.extend_from_slice(body);
    let wire = buffer.freeze();
    proof {
        assert(wire@ =~= result_wire(status, body@));
    }
    wire
}

/// The error of a result envelope.
pub open spec fn outcome_error(reason: Seq<char>) -> ErrorView {
    ErrorView::InternalEncodingError { identifier: "action_result_outcome_envelope"@, reason }
}

/// Why `wire` is no result envelope.
pub open spec fn result_refusal(wire: Seq<u8>) -> Option<Seq<char>> {
    if wire.len() == 0 {
        Some("wire payload is empty"@)
    } else if wire[0] > 3 {
        Some("unknown result status tag "@ + text::decimal(wire[0] as nat))
    } else {
        None
    }
}

/// Decodes a result envelope into its status and body.
pub fn unwrap_result_outcome(wire: &[u8]) -> (read: Result<(ResultStatus, &[u8])>)
    ensures
        match read {
            Ok(parts) => result_refusal(wire@) is None && result_wire(parts.0, parts.1@) == wire@
                && parts.0.tag() == wire@[0] && parts.1@ == wire@.skip(1),
            Err(error) => result_refusal(wire@) matches Some(reason) && error@ == outcome_error(
                reason,
            ),
        },
{
    if wire.len() == 0 {
        return Err(
            Error::InternalEncodingError {
                identifier: "action_result_outcome_envelope".to_owned(),
                reason: "wire payload is empty".to_owned(),
            },
        );
    }
    let tag: u8 = wire[0];
    match ResultStatus::from_tag(tag) {
        None => Err(
            Error::InternalEncodingError {
                identifier: "action_result_outcome_envelope".to_owned(),
                reason: joined("unknown result status tag ", decimal_text(tag as u64).as_str()),
            },
        ),
        Some(status) => {
            let body: &[u8] = slice_subrange(wire, 1, wire.len());
            proof {
                assert(result_wire(status, body@) =~= wire@);
                assert(body@ =~= wire@.skip(1));
            }
            Ok((status, body))
        },
    }
}

/// A result envelope determines its status and its body: distinct outcomes have
/// distinct wires, and every framed outcome is readable.
pub proof fn law_result_round_trip(
    status: ResultStatus,
    body: Seq<u8>,
    other_status: ResultStatus,
    other_body: Seq<u8>,
)
    ensures
        result_refusal(result_wire(status, body)) is None,
        result_wire(status, body) == result_wire(other_status, other_body) ==> status
            == other_status && body == other_body,
{
    let wire = result_wire(status, body);
    let other = result_wire(other_status, other_body);
    assert(wire[0] == status.tag());
    assert(other[0] == other_status.tag());
    assert(wire.skip(1) =~= body);
    assert(other.skip(1) =~= other_body);
}

/// The error of a goal acknowledgement.
pub open spec fn ack_error(reason: Seq<char>) -> ErrorView {
    ErrorView::InternalEncodingError { identifier: "action_goal_ack_envelope"@, reason }
}

fn goal_ack_error(reason: String) -> (error: Error)
    ensures
        error@ == ack_error(reason@),
{
    Error::InternalEncodingError { identifier: "action_goal_ack_envelope".to_owned(), reason }
}

/// The bytes of a goal acknowledgement:
/// `[accepted: u8][reason_len: u16, big endian][reason][body]`.
pub open spec fn ack_wire(accepted: bool, reason: Seq<char>, body: Seq<u8>) -> Seq<u8> {
    let count = encode_utf8(reason).len();
    seq![
        if accepted {
            1u8
        } else {
            0u8
        },
        (count / 256) as u8,
        (count % 256) as u8,
    ] + encode_utf8(reason) + body
}

/// The reason as a string, the absent reason being the empty one.
pub open spec fn reason_text(reason: Option<&str>) -> Seq<char> {
    match reason {
        Some(reason) => reason@,
        None => Seq::empty(),
    }
}

/// Why a reason that no acknowledgement can carry is refused.
pub open spec fn reason_refusal(reason: Seq<char>) -> Seq<char> {
    "reason length "@ + text::decimal(encode_utf8(reason).len()) + " exceeds wire limit "@ + text::decimal(
        MAX_REASON_BYTES as nat,
    )
}

/// Frames a goal reply: whether the server admitted the goal, an optional
/// rejection reason, and the producer's declared response payload.
pub fn wrap_goal_ack(accepted: bool, reason: Option<&str>, body: &[u8]) -> (wrapped: Result<Payload>)
    requires
        encode_utf8(reason_text(reason)).len() <= MAX_REASON_BYTES ==> payload::fits_allocation(
            3 + encode_utf8(reason_text(reason)).len() + body@.len(),
        ),
    ensures
        match wrapped {
            Ok(wire) => encode_utf8(reason_text(reason)).len() <= MAX_REASON_BYTES && wire@
                == ack_wire(accepted, reason_text(reason), body@),
            Err(error) => encode_utf8(reason_text(reason)).len() > MAX_REASON_BYTES && error@
                == ack_error(reason_refusal(reason_text(reason))),
        },
{
    proof {
        reveal_strlit("");
        assert(""@ =~= Seq::<char>::empty());
    }
    let given: &str = match reason {
        Some(reason) => reason,
        None => "",
    };
    let text: &[u8] = given.as_bytes();
    if text.len() > MAX_REASON_BYTES {
        let mut refusal = joined("reason length ", decimal_text(text.len() as u64).as_str());
        refusal.append(" exceeds wire limit ");
        refusal.append(decimal_text(MAX_REASON_BYTES as u64).as_str());
        return Err(goal_ack_error(refusal));
    }
    let mut buffer = PayloadBuilder::with_capacity(3 + text.len() + body.len());
    buffer.put_u8(if accepted { 1 } else { 0 });
    buffer.put_u16(text.len() as u16);
    buffer.extend_from_slice(text);
    buffer.extend_from_slice(body);
    let wire = buffer.freeze();
    proof {
        assert(wire@ =~= ack_wire(accepted, reason_text(reason), body@));
    }
    Ok(wire)
}

/// The reason length that a goal acknowledgement declares.
pub open spec fn declared_reason_len(wire: Seq<u8>) -> int {
    wire[1] * 256 + wire[2]
}

/// What a goal acknowledgement holds: the flag, the reason (absent when empty)
/// and the body, or why `wire` is no acknowledgement.
pub open spec fn ack_envelope(wire: Seq<u8>) -> std::result::Result<
    (bool, Option<Seq<char>>, Seq<u8>),
    Seq<char>,
> {
    if wire.len() == 0 {
        Err("wire payload is empty"@)
    } else if wire[0] > 1 {
        Err("unknown accepted tag "@ + text::decimal(wire[0] as nat))
    } else if wire.len() < 3 {
        Err("wire payload too short for reason length"@)
    } else if wire.len() < 3 + declared_reason_len(wire) {
        Err(
            "wire payload too short for declared reason_len "@ + text::decimal(
                declared_reason_len(wire) as nat,
            ),
        )
    } else {
        let bytes = wire.subrange(3, 3 + declared_reason_len(wire));
        if !valid_utf8(bytes) {
            Err("reason is not valid UTF-8: "@ + utf8::utf8_error_message(bytes))
        } else {
            Ok(
                (
                    wire[0] == 1,
                    if bytes.len() == 0 {
                        None
                    } else {
                        Some(decode_utf8(bytes))
                    },
                    wire.skip(3 + declared_reason_len(wire)),
                ),
            )
        }
    }
}

/// The view of an optional borrowed string.
pub open spec fn optional_str(text: Option<&str>) -> Option<Seq<char>> {
    match text {
        Some(some) => Some(some@),
        None => None,
    }
}

/// Decodes a goal acknowledgement into its flag, its reason and its body.
pub fn unwrap_goal_ack(wire: &[u8]) -> (read: Result<(bool, Option<&str>, &[u8])>)
    ensures
        match read {
            Ok(parts) => ack_envelope(wire@) == Ok::<
                (bool, Option<Seq<char>>, Seq<u8>),
                Seq<char>,
            >((parts.0, optional_str(parts.1), parts.2@)),
            Err(error) => ack_envelope(wire@) is Err && error@ == ack_error(
                ack_envelope(wire@)->Err_0,
            ),
        },
{
    if wire.len() == 0 {
        return Err(goal_ack_error("wire payload is empty".to_owned()));
    }
    let tag: u8 = wire[0];
    if tag > 1 {
        return Err(
            goal_ack_error(joined("unknown accepted tag ", decimal_text(tag as u64).as_str())),
        );
    }
    if wire.len() < 3 {
        return Err(goal_ack_error("wire payload too short for reason length".to_owned()));
    }
    let reason_len: usize = (wire[1] as usize) * 256 + (wire[2] as usize);
    let body_start: usize = 3 + reason_len;
    if wire.len() < body_start {
        return Err(
            goal_ack_error(
                joined(
                    "wire payload too short for declared reason_len ",
                    decimal_text(reason_len as u64).as_str(),
                ),
            ),
        );
    }
    let bytes: &[u8] = slice_subrange(wire, 3, body_start);
    match text_from_utf8(bytes) {
        Err(message) => Err(
            goal_ack_error(joined("reason is not valid UTF-8: ", message.as_str())),
        ),
        Ok(text) => {
            let body: &[u8] = slice_subrange(wire, body_start, wire.len());
            proof {
                encode_utf8_decode_utf8(text@);
                assert(body@ =~= wire@.skip(body_start as int));
            }
            let reason: Option<&str> = if bytes.len() == 0 {
                None
            } else {
                Some(text)
            };
            Ok((tag == 1, reason, body))
        },
    }
}

/// Splits a goal acknowledgement into its decoded flag and reason, and a body
/// that shares the storage of `wire`.
pub fn split_goal_ack(wire: &Payload) -> (read: Result<(bool, Option<String>, Payload)>)
    ensures
        match read {
            Ok(parts) => ack_envelope(wire@) == Ok::<
                (bool, Option<Seq<char>>, Seq<u8>),
                Seq<char>,
            >((parts.0, crate::error::optional_text(parts.1), parts.2@)),
            Err(error) => ack_envelope(wire@) is Err && error@ == ack_error(
                ack_envelope(wire@)->Err_0,
            ),
        },
{
    match unwrap_goal_ack(wire.as_slice()) {
        Err(error) => Err(error),
        Ok(parts) => {
            let offset: usize = wire.len() - parts.2.len();
            let reason: Option<String> = match parts.1 {
                Some(reason) => Some(reason.to_owned()),
                None => None,
            };
            Ok((parts.0, reason, wire.slice_from(offset)))
        },
    }
}

/// A goal acknowledgement reads back as what was wrapped, the empty reason
/// reading as no reason.
pub proof fn law_ack_round_trip(accepted: bool, reason: Seq<char>, body: Seq<u8>)
    requires
        encode_utf8(reason).len() <= MAX_REASON_BYTES,
    ensures
        ack_envelope(ack_wire(accepted, reason, body)) == Ok::<
            (bool, Option<Seq<char>>, Seq<u8>),
            Seq<char>,
        >(
            (
                accepted,
                if reason.len() == 0 {
                    None
                } else {
                    Some(reason)
                },
                body,
            ),
        ),
{
    let wire = ack_wire(accepted, reason, body);
    let bytes = encode_utf8(reason);
    assert(declared_reason_len(wire) == bytes.len());
    assert(wire.subrange(3, 3 + declared_reason_len(wire)) =~= bytes);
    assert(wire.skip(3 + declared_reason_len(wire)) =~= body);
    encode_utf8_valid_utf8(reason);
    encode_utf8_decode_utf8(reason);
    if bytes.len() == 0 {
        assert(decode_utf8(bytes) =~= Seq::<char>::empty());
    }
    if reason.len() == 0 {
        assert(bytes =~= Seq::<u8>::empty());
    }
}

/// Whatever reads as a goal acknowledgement is the acknowledgement of what it
/// reads as.
pub proof fn law_ack_wire_canonical(wire: Seq<u8>)
    requires
        ack_envelope(wire) is Ok,
    ensures
        ({
            let parts = ack_envelope(wire)->Ok_0;
            let reason = match parts.1 {
                Some(reason) => reason,
                None => Seq::<char>::empty(),
            };
            &&& encode_utf8(reason).len() <= MAX_REASON_BYTES
            &&& ack_wire(parts.0, reason, parts.2) == wire
        }),
{
    let bytes = wire.subrange(3, 3 + declared_reason_len(wire));
    decode_utf8_encode_utf8(bytes);
    let parts = ack_envelope(wire)->Ok_0;
    let reason = match parts.1 {
        Some(reason) => reason,
        None => Seq::<char>::empty(),
    };
    assert(encode_utf8(Seq::<char>::empty()) =~= Seq::<u8>::empty());
    assert(encode_utf8(reason) =~= bytes);
    assert(ack_wire(parts.0, reason, parts.2) =~= wire);
}

/// Whether `c` may stand in a goal id that is spliced into a topic.
pub open spec fn safe_goal_char(c: char) -> bool {
    ('a' <= c && c <= 'z') || ('A' <= c && c <= 'Z') || ('0' <= c && c <= '9') || c == '_' || c
        == '-'
}

/// Whether a goal id is a single non-empty segment of ASCII letters, digits,
/// `_` and `-`.
pub open spec fn safe_goal_id(goal_id: Seq<char>) -> bool {
    goal_id.len() > 0 && forall|i: int| 0 <= i < goal_id.len() ==> safe_goal_char(#[trigger] goal_id[i])
}

/// Whether a goal id is safe to splice into the feedback topic: wildcard marks
/// and topic separators cannot escape the per-goal scope.
pub fn is_safe_goal_id(goal_id: &str) -> (safe: bool)
    ensures
        safe == safe_goal_id(goal_id@),
{
    let count: usize = goal_id.unicode_len();
    if count == 0 {
        return false;
    }
    let mut i: usize = 0;
    while i < count
        invariant
            i <= count,
            count == goal_id@.len(),
            forall|j: int| 0 <= j < i ==> safe_goal_char(#[trigger] goal_id@[j]),
        decreases count - i,
    {
        let c: char = goal_id.get_char(i);
        let safe: bool = ('a' <= c && c <= 'z') || ('A' <= c && c <= 'Z') || ('0' <= c && c <= '9') || c
            == '_' || c == '-';
        if !safe {
            return false;
        }
        i = i + 1;
    }
    true
}

/// A safe goal id holds no topic separator and no wildcard mark.
pub proof fn law_safe_goal_id_stays_in_scope(goal_id: Seq<char>, i: int)
    requires
        safe_goal_id(goal_id),
        0 <= i < goal_id.len(),
    ensures
        goal_id[i] != '/',
        goal_id[i] != '*',
        goal_id[i] != '+',
        goal_id[i] != '#',
        goal_id[i] != '$',
{
    assert(safe_goal_char(goal_id[i]));
}

/// What declaring a goal's feedback stream needs from the goal request: the
/// goal id to scope the topic by, and the user payload.
pub fn feedback_request(wire: &Payload) -> (read: Result<(String, Payload)>)
    ensures
        match goal_envelope(wire@) {
            Err(reason) => read matches Err(error) && error@ == goal_error(reason),
            Ok(parts) => if safe_goal_id(parts.0) {
                read matches Ok(found) && found.0@ == parts.0 && found.1@ == parts.1
            } else {
                read matches Err(error) && error@ == goal_error(
                    "goal_id contains unsafe characters: "@ + utf8::quoted(parts.0),
                )
            },
        },
{
    match split_goal_envelope(wire) {
        Err(error) => Err(error),
        Ok(parts) => {
            if is_safe_goal_id(parts.0.as_str()) {
                Ok(parts)
            } else {
                Err(
                    envelope_error(
                        joined(
                            "goal_id contains unsafe characters: ",
                            quoted_text(parts.0.as_str()).as_str(),
                        ),
                    ),
                )
            }
        },
    }
}

/// The goal id made of the sixty-four bits `bits`: sixteen hexadecimal digits.
pub fn goal_id_from_bits(bits: u64) -> (goal_id: String)
    ensures
        goal_id@ == text::hex16(bits as nat),
        safe_goal_id(goal_id@),
        wrappable_goal_id(goal_id@),
        encode_utf8(goal_id@).len() == 16,
{
    let goal_id = text::hex16_text(bits);
    proof {
        law_generated_goal_id(bits);
    }
    goal_id
}

/// A fresh goal id: sixteen hexadecimal digits drawn at random.
pub fn generate_goal_id() -> (goal_id: String)
    ensures
        goal_id@.len() == 16,
        forall|i: int| 0 <= i < 16 ==> text::is_hex_digit(#[trigger] goal_id@[i]),
        safe_goal_id(goal_id@),
        wrappable_goal_id(goal_id@),
        encode_utf8(goal_id@).len() == 16,
{
    let bits: u64 = random_bits();
    proof {
        text::lemma_hex_digits(bits as nat, 16);
    }
    goal_id_from_bits(bits)
}

/// A generated goal id can be wrapped and is safe to splice into a topic.
pub proof fn law_generated_goal_id(bits: u64)
    ensures
        safe_goal_id(text::hex16(bits as nat)),
        wrappable_goal_id(text::hex16(bits as nat)),
        encode_utf8(text::hex16(bits as nat)).len() == 16,
{
    let id = text::hex16(bits as nat);
    text::lemma_hex_digits(bits as nat, 16);
    assert forall|i: int| 0 <= i < id.len() implies safe_goal_char(#[trigger] id[i]) by {
        assert(text::is_hex_digit(id[i]));
    }
    assert(is_ascii_chars(id)) by {
        assert forall|i: int| 0 <= i < id.len() implies #[trigger] id[i] as int <= 127 by {
            assert(text::is_hex_digit(id[i]));
        }
    }
    is_ascii_chars_encode_utf8(id);
}

/// How a goal request is laid out: the number of bytes of the goal's id, then those
/// bytes, then the payload, and nothing else. An id can be sent exactly when it has
/// from 1 to 255 bytes.
pub proof fn law_goal_wire_layout(goal_id: Seq<char>, user_payload: Seq<u8>)
    ensures
        wrappable_goal_id(goal_id) <==> 1 <= encode_utf8(goal_id).len() <= 255,
        wrappable_goal_id(goal_id) ==> {
            let wire = goal_wire(goal_id, user_payload);
            let count = encode_utf8(goal_id).len() as int;
            &&& wire.len() == 1 + count + user_payload.len()
            &&& wire[0] == count
            &&& wire.subrange(1, 1 + count) == encode_utf8(goal_id)
            &&& wire.skip(1 + count) == user_payload
        },
{
    if wrappable_goal_id(goal_id) {
        let wire = goal_wire(goal_id, user_payload);
        let count = encode_utf8(goal_id).len() as int;
        assert(wire.subrange(1, 1 + count) =~= encode_utf8(goal_id));
        assert(wire.skip(1 + count) =~= user_payload);
    }
}

/// A goal request can be read exactly when it has a first byte that is not zero, as
/// many bytes after it as that byte says, and these are text. What is read is that
/// text and the rest; else the first of these that fails is the reason.
pub proof fn law_goal_request_is_readable(wire: Seq<u8>)
    ensures
        ({
            let count = wire[0] as int;
            let id_bytes = wire.subrange(1, 1 + count);
            match goal_envelope(wire) {
                Ok(parts) => wire.len() > 0 && wire[0] != 0 && wire.len() >= 1 + count && valid_utf8(
                    id_bytes,
                ) && encode_utf8(parts.0) == id_bytes && parts.1 == wire.skip(1 + count),
                Err(reason) => if wire.len() == 0 {
                    reason == "wire payload is empty"@
                } else if wire[0] == 0 {
                    reason == "goal_id is empty"@
                } else if wire.len() < 1 + count {
                    reason == "wire payload too short for declared goal_id_len "@ + text::decimal(
                        wire[0] as nat,
                    )
                } else {
                    !valid_utf8(id_bytes) && reason == "goal_id is not valid UTF-8: "@
                        + utf8::utf8_error_message(id_bytes)
                },
            }
        }),
{
    if goal_envelope(wire) is Ok {
        decode_utf8_encode_utf8(wire.subrange(1, 1 + wire[0]));
    }
}

/// How an outcome is laid out: one byte for how the goal ended, 0 for completed, 1 for
/// cancelled, 2 for abandoned and 3 for expired, and then the body. Only what has such
/// a byte can be read.
pub proof fn law_result_wire_layout(status: ResultStatus, body: Seq<u8>, wire: Seq<u8>)
    ensures
        result_wire(status, body).len() == 1 + body.len(),
        result_wire(status, body)[0] == match status {
            ResultStatus::Completed => 0u8,
            ResultStatus::Cancelled => 1u8,
            ResultStatus::Abandoned => 2u8,
            ResultStatus::Expired => 3u8,
        },
        result_wire(status, body).skip(1) == body,
        match result_refusal(wire) {
            None => wire.len() > 0 && (wire[0] == 0 || wire[0] == 1 || wire[0] == 2 || wire[0] == 3),
            Some(reason) => if wire.len() == 0 {
                reason == "wire payload is empty"@
            } else {
                wire[0] > 3 && reason == "unknown result status tag "@ + text::decimal(wire[0] as nat)
            },
        },
{
    assert(result_wire(status, body).skip(1) =~= body);
}

/// How an admission is laid out: a byte that is 1 for an accepted goal and 0 for a
/// rejected one, two bytes for the length of the reason, the higher one first, the
/// reason, and then the body.
pub proof fn law_ack_wire_layout(accepted: bool, reason: Seq<char>, body: Seq<u8>)
    requires
        encode_utf8(reason).len() <= 65535,
    ensures
        ({
            let wire = ack_wire(accepted, reason, body);
            let count = encode_utf8(reason).len() as int;
            &&& wire.len() == 3 + count + body.len()
            &&& wire[0] == 1 <==> accepted
            &&& wire[0] == 0 <==> !accepted
            &&& wire[1] * 256 + wire[2] == count
            &&& wire.subrange(3, 3 + count) == encode_utf8(reason)
            &&& wire.skip(3 + count) == body
        }),
        MAX_REASON_BYTES == 65535,
{
    let wire = ack_wire(accepted, reason, body);
    let count = encode_utf8(reason).len() as int;
    assert(wire.subrange(3, 3 + count) =~= encode_utf8(reason));
    assert(wire.skip(3 + count) =~= body);
}

/// An admission can be read exactly when it has its three leading bytes, the first of
/// them 0 or 1, as many bytes after them as the other two say, and these are text. An
/// empty reason is no reason. Else the first of these that fails is the reason why not.
pub proof fn law_ack_is_readable(wire: Seq<u8>)
    ensures
        ({
            let count = wire[1] * 256 + wire[2];
            let bytes = wire.subrange(3, 3 + count);
            match ack_envelope(wire) {
                Ok(parts) => wire.len() >= 3 + count && wire.len() >= 3 && (parts.0 ==> wire[0] == 1) && (
                !parts.0 ==> wire[0] == 0) && valid_utf8(bytes) && (match parts.1 {
                    Some(reason) => count > 0 && encode_utf8(reason) == bytes,
                    None => count == 0,
                }) && parts.2 == wire.skip(3 + count),
                Err(reason) => if wire.len() == 0 {
                    reason == "wire payload is empty"@
                } else if wire[0] != 0 && wire[0] != 1 {
                    reason == "unknown accepted tag "@ + text::decimal(wire[0] as nat)
                } else if wire.len() < 3 {
                    reason == "wire payload too short for reason length"@
                } else if wire.len() < 3 + count {
                    reason == "wire payload too short for declared reason_len "@ + text::decimal(
                        count as nat,
                    )
                } else {
                    !valid_utf8(bytes) && reason == "reason is not valid UTF-8: "@
                        + utf8::utf8_error_message(bytes)
                },
            }
        }),
{
    if ack_envelope(wire) is Ok {
        decode_utf8_encode_utf8(wire.subrange(3, 3 + (wire[1] * 256 + wire[2])));
    }
}

/// A goal id may be part of an address exactly when it is not empty and consists of
/// letters and digits of ASCII, underscores and hyphens.
pub proof fn law_safe_goal_id_characters(goal_id: Seq<char>)
    ensures
        safe_goal_id(goal_id) <==> goal_id.len() > 0 && forall|i: int|
            0 <= i < goal_id.len() ==> {
                let code = (#[trigger] goal_id[i]) as int;
                ||| 48 <= code <= 57
                ||| 65 <= code <= 90
                ||| 97 <= code <= 122
                ||| code == 95
                ||| code == 45
            },
{
    if safe_goal_id(goal_id) {
        assert forall|i: int| 0 <= i < goal_id.len() implies {
            let code = (#[trigger] goal_id[i]) as int;
            ||| 48 <= code <= 57
            ||| 65 <= code <= 90
            ||| 97 <= code <= 122
            ||| code == 95
            ||| code == 45
        } by {
            assert(safe_goal_char(goal_id[i]));
        }
    } else if goal_id.len() > 0 {
        let i = choose|i: int| 0 <= i < goal_id.len() && !safe_goal_char(#[trigger] goal_id[i]);
        assert(!safe_goal_char(goal_id[i]));
    }
}

/// What cannot be framed or read is said under the name of its envelope; a reason that
/// is not given is an empty one; and what is too long is said with its length and the
/// limit.
pub proof fn law_envelope_errors(reason: Seq<char>, given: Option<&str>, goal_id: Seq<char>)
    ensures
        goal_error(reason) == (ErrorView::InternalEncodingError {
            identifier: "action_goal_envelope"@,
            reason,
        }),
        outcome_error(reason) == (ErrorView::InternalEncodingError {
            identifier: "action_result_outcome_envelope"@,
            reason,
        }),
        ack_error(reason) == (ErrorView::InternalEncodingError {
            identifier: "action_goal_ack_envelope"@,
            reason,
        }),
        given matches Some(text) ==> reason_text(given) == text@ && optional_str(given) == Some(text@),
        given is None ==> reason_text(given).len() == 0 && optional_str(given) is None,
        encode_utf8(goal_id).len() == 0 ==> goal_id_refusal(goal_id) == "goal_id must be non-empty"@,
        encode_utf8(goal_id).len() > 255 ==> goal_id_refusal(goal_id) == "goal_id length "@
            + text::decimal(encode_utf8(goal_id).len()) + " exceeds wire limit "@ + text::decimal(255),
        reason_refusal(reason) == "reason length "@ + text::decimal(encode_utf8(reason).len())
            + " exceeds wire limit "@ + text::decimal(65535),
{
}

} // verus!
