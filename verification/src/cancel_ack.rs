//! The acknowledgement of a cancel request, a Cap'n Proto message.
use crate::error::{Error, ErrorView, Result};
use crate::payload::Payload;
use crate::text;
use crate::text::decimal_text;
use capnp::schema_capnp::capnp_version;
use vstd::prelude::*;
use vstd::string::*;

verus! {

/// The outcome of a cancel request. There is no "no active goal" outcome: an
/// unknown goal is [`CancelState::Unknown`] and a finished one is
/// [`CancelState::AlreadyTerminal`].
#[derive(Debug, Clone, Copy, PartialEq, Eq, Structural)]
pub enum CancelState {
    /// A live goal received the cancel signal.
    Signalled,
    /// The goal had already reached a terminal state.
    AlreadyTerminal,
    /// No goal with that id is known.
    Unknown,
}

impl CancelState {
    /// The wire tag of this state.
    pub open spec fn tag(self) -> u8 {
        match self {
            CancelState::Signalled => 0,
            CancelState::AlreadyTerminal => 1,
            CancelState::Unknown => 2,
        }
    }

    /// The wire tag of this state.
    pub fn to_tag(self) -> (tag: u8)
        ensures
            tag == self.tag(),
    {
        match self {
            CancelState::Signalled => 0,
            CancelState::AlreadyTerminal => 1,
            CancelState::Unknown => 2,
        }
    }

    /// The state whose wire tag is `tag`.
    pub fn from_tag(tag: u8) -> (state: Option<Self>)
        ensures
            state matches Some(found) ==> found.tag() == tag,
            state is None ==> tag > 2,
    {
        if tag == 0 {
            Some(CancelState::Signalled)
        } else if tag == 1 {
            Some(CancelState::AlreadyTerminal)
        } else if tag == 2 {
            Some(CancelState::Unknown)
        } else {
            None
        }
    }
}

/// A framed Cap'n Proto message of one segment of two words: the root pointer
/// to a struct of one data word and no pointers, and that data word, whose first
/// two bytes hold `first`, the less significant first.
pub open spec fn word_message(first: u16) -> Seq<u8> {
    seq![0u8, 0, 0, 0, 2, 0, 0, 0] + seq![0u8, 0, 0, 0, 1, 0, 0, 0] + seq![
        (first % 256) as u8,
        (first / 256) as u8,
        0,
        0,
        0,
        0,
        0,
        0,
    ]
}

/// What reading `wire` as a framed Cap'n Proto message with a struct root gives:
/// the first two bytes of the struct's data, or the message of the error.
pub uninterp spec fn word_read(wire: Seq<u8>) -> std::result::Result<u16, Seq<char>>;

/// `capnp::message::Builder::init_root` with a struct of one data word and no
/// pointers, its first sixteen bits set, then
/// `capnp::serialize::write_message_to_words`. The builder's first segment has
/// room for the root pointer and the data word, so the message is one segment.
#[verifier::external_body]
fn write_word_message(first: u16) -> (wire: Vec<u8>)
    ensures
        wire@ == word_message(first),
{
    let mut message = capnp::message::Builder::new_default();
    message.init_root::<capnp_version::Builder<'_>>().set_major(first);
    capnp::serialize::write_message_to_words(&message)
}

/// `capnp::serialize::read_message`, then the root as a struct, then its first
/// sixteen bits. The outcome is a function of the bytes, and a message written by
/// [`write_word_message`] gives back what was written.
#[verifier::external_body]
fn read_word_message(wire: &[u8]) -> (read: std::result::Result<u16, String>)
    ensures
        read_view(read) == word_read(wire@),
        forall|written: u16|
            wire@ == #[trigger] word_message(written) ==> read is Ok && read->Ok_0 == written,
{
    match capnp::serialize::read_message(wire, capnp::message::ReaderOptions::new()) {
        Err(error) => Err(error.to_string()),
        Ok(message) => match message.get_root::<capnp_version::Reader<'_>>() {
            Err(error) => Err(error.to_string()),
            Ok(root) => Ok(root.get_major()),
        },
    }
}

/// The bytes of a cancel acknowledgement.
pub open spec fn cancel_ack_wire(state: CancelState) -> Seq<u8> {
    word_message(state.tag() as u16)
}

/// Encodes the reply to a cancel request. Its single `state` field is the first
/// byte of the message's data.
pub fn encode_cancel_ack(state: CancelState) -> (encoded: Result<Payload>)
    ensures
        encoded matches Ok(wire) && wire@ == cancel_ack_wire(state),
{
    Ok(Payload::from_vec(write_word_message(state.to_tag() as u16)))
}

/// What a cancel acknowledgement says once its message was read: the state, or
/// the reason why there is none.
pub open spec fn cancel_ack_outcome(
    read: std::result::Result<u16, Seq<char>>,
    decoded: Result<CancelState>,
) -> bool {
    match read {
        Err(message) => decoded matches Err(error) && error@ == ErrorView::Deserialization(message),
        Ok(first) => if first % 256 > 2 {
            decoded matches Err(error) && error@ == ErrorView::Deserialization(
                "unknown cancel state tag "@ + text::decimal((first % 256) as nat),
            )
        } else {
            decoded matches Ok(state) && state.tag() == first % 256
        },
    }
}

/// The view of what reading a message gave.
pub open spec fn read_view(read: std::result::Result<u16, String>) -> std::result::Result<
    u16,
    Seq<char>,
> {
    match read {
        Ok(first) => Ok(first),
        Err(message) => Err(message@),
    }
}

/// The cancel state that the first data bytes of a message stand for.
pub fn cancel_state_from_read(read: std::result::Result<u16, String>) -> (decoded: Result<CancelState>)
    ensures
        cancel_ack_outcome(read_view(read), decoded),
{
    match read {
        Err(message) => Err(Error::Deserialization(message)),
        Ok(first) => {
            let tag: u8 = (first % 256) as u8;
            match CancelState::from_tag(tag) {
                Some(state) => Ok(state),
                None => {
                    let mut reason = "unknown cancel state tag ".to_owned();
                    reason.append(decimal_text(tag as u64).as_str());
                    Err(Error::Deserialization(reason))
                },
            }
        },
    }
}

/// Decodes the reply to a cancel request.
pub fn decode_cancel_ack(payload: &[u8]) -> (decoded: Result<CancelState>)
    ensures
        cancel_ack_outcome(word_read(payload@), decoded),
        forall|state: CancelState| payload@ == #[trigger] cancel_ack_wire(state) ==> decoded
            == Ok::<CancelState, Error>(state),
{
    let read = read_word_message(payload);
    let decoded = cancel_state_from_read(read);
    proof {
        assert forall|state: CancelState| payload@ == #[trigger] cancel_ack_wire(state) implies decoded
            == Ok::<CancelState, Error>(state) by {
            assert(read->Ok_0 == state.tag() as u16);
        }
    }
    decoded
}

/// Distinct cancel states have distinct acknowledgements.
pub proof fn law_cancel_ack_distinct(a: CancelState, b: CancelState)
    requires
        cancel_ack_wire(a) == cancel_ack_wire(b),
    ensures
        a == b,
{
    assert(cancel_ack_wire(a)[16] == a.tag());
    assert(cancel_ack_wire(b)[16] == b.tag());
}

/// The byte of each cancel state: 0 for signalled, 1 for ended already, 2 for unknown.
/// It is the first of the sixteen bits of an acknowledgement's word that are read back,
/// and no other byte is a state.
pub proof fn law_cancel_states_on_the_wire(
    state: CancelState,
    read: std::result::Result<u16, Seq<char>>,
    decoded: Result<CancelState>,
)
    requires
        cancel_ack_outcome(read, decoded),
    ensures
        state.tag() == match state {
            CancelState::Signalled => 0u8,
            CancelState::AlreadyTerminal => 1u8,
            CancelState::Unknown => 2u8,
        },
        cancel_ack_wire(state).len() == 24,
        cancel_ack_wire(state)[16] == state.tag(),
        cancel_ack_wire(state)[17] == 0,
        match read {
            Err(message) => decoded matches Err(error) && error@ == ErrorView::Deserialization(message),
            Ok(word) => match decoded {
                Ok(CancelState::Signalled) => word % 256 == 0,
                Ok(CancelState::AlreadyTerminal) => word % 256 == 1,
                Ok(CancelState::Unknown) => word % 256 == 2,
                Err(error) => word % 256 > 2 && error@ == ErrorView::Deserialization(
                    "unknown cancel state tag "@ + text::decimal((word % 256) as nat),
                ),
            },
        },
{
}

} // verus!
