//! Finding and probing producers.
use crate::error::{Error, ErrorView, Result};
use crate::message::Message;
use crate::producer::{ProducerRef, ProducerView};
use vstd::prelude::*;

verus! {

/// The producer that a probe's answer names.
pub fn discovered(response: &Message) -> (producer: ProducerRef)
    ensures
        producer@ == (ProducerView {
            core_node: response@.core_node,
            instance_id: response@.instance_id,
        }),
{
    ProducerRef::new(response.core_node(), response.instance_id())
}

/// What a probe says about reachability. An answer proves the producer is there,
/// and so does a timeout: it was reached and is slow. Only an unreachable
/// producer is not there; any other error decides nothing.
pub fn probe_reachable(probe: Result<Message>) -> (reachable: Result<bool>)
    ensures
        match probe {
            Ok(_) => reachable == Ok::<bool, Error>(true),
            Err(Error::ServiceUnreachable { .. }) => reachable == Ok::<bool, Error>(false),
            Err(Error::ServiceTimeout { .. }) => reachable == Ok::<bool, Error>(true),
            Err(error) => reachable == Err::<bool, Error>(error),
        },
{
    match probe {
        Ok(_) => Ok(true),
        Err(Error::ServiceUnreachable { .. }) => Ok(false),
        Err(Error::ServiceTimeout { .. }) => Ok(true),
        Err(error) => Err(error),
    }
}

/// Whether some producer of a set is reachable, given how their probes ended, in
/// the order in which they ended: yes as soon as one answered, an error only when
/// none did, no when every one of them is unreachable.
pub fn probe_any_reachable(probes: Vec<Result<bool>>) -> (reachable: Result<bool>)
    ensures
        if exists|i: int| 0 <= i < probes@.len() && #[trigger] probes@[i] == Ok::<bool, Error>(true) {
            reachable == Ok::<bool, Error>(true)
        } else if exists|i: int| 0 <= i < probes@.len() && (#[trigger] probes@[i]) is Err {
            exists|i: int|
                0 <= i < probes@.len() && #[trigger] probes@[i] == reachable && probes@[i] is Err && (
                forall|j: int| 0 <= j < i ==> (#[trigger] probes@[j]) is Ok)
        } else {
            reachable == Ok::<bool, Error>(false)
        },
{
    let ghost all = probes@;
    let mut first_error: Option<Error> = None;
    let ghost mut at: int = -1;
    for probe in it: probes
        invariant
            it.seq() == all,
            forall|i: int| 0 <= i < it.index() ==> #[trigger] all[i] != Ok::<bool, Error>(true),
            match first_error {
                Some(error) => 0 <= at < it.index() && all[at] == Err::<bool, Error>(error) && (
                forall|j: int| 0 <= j < at ==> (#[trigger] all[j]) is Ok),
                None => forall|i: int| 0 <= i < it.index() ==> (#[trigger] all[i]) is Ok,
            },
    {
        let ghost i = it.index();
        match probe {
            Ok(true) => {
                proof {
                    assert(all[i] == Ok::<bool, Error>(true));
                }
                return Ok(true);
            },
            Ok(false) => {},
            Err(error) => {
                if first_error.is_none() {
                    first_error = Some(error);
                    proof {
                        at = i;
                    }
                }
            },
        }
    }
    match first_error {
        Some(error) => {
            proof {
                assert(all[at] is Err);
            }
            Err(error)
        },
        None => Ok(false),
    }
}

/// The producer that a restricted discovery pins: the first of the probed
/// producers that answered. Without candidates, or when none answered, no
/// producer is to blame.
pub fn discover_producer_among(
    candidates: usize,
    winner: Option<ProducerRef>,
    service_name: &str,
) -> (pinned: Result<ProducerRef>)
    ensures
        if candidates > 0 && winner is Some {
            pinned matches Ok(producer) && winner == Some(producer)
        } else {
            pinned matches Err(error) && error@ == (ErrorView::ServiceUnreachable {
                instance_id: None,
                service_name: service_name@,
            })
        },
{
    match winner {
        Some(producer) => {
            if candidates > 0 {
                return Ok(producer);
            }
        },
        None => {},
    }
    Err(Error::ServiceUnreachable { instance_id: None, service_name: service_name.to_owned() })
}

/// The latency sample of the fastest of several probes: the first success, or the
/// last error when all failed. Without candidates the service is unreachable.
pub fn probe_fastest_round_trip(
    candidates: usize,
    raced: Result<(u128, usize)>,
    service_name: &str,
) -> (sample: Result<(u128, usize)>)
    ensures
        if candidates > 0 {
            sample == raced
        } else {
            sample matches Err(error) && error@ == (ErrorView::ServiceUnreachable {
                instance_id: None,
                service_name: service_name@,
            })
        },
{
    if candidates == 0 {
        return Err(
            Error::ServiceUnreachable { instance_id: None, service_name: service_name.to_owned() },
        );
    }
    raced
}

/// The latency sample of one probe: the time it took and the size of its answer.
pub fn probe_round_trip(elapsed: u128, reply: Result<Message>) -> (sample: Result<(u128, usize)>)
    ensures
        match reply {
            Ok(message) => sample matches Ok(measured) && measured.0 == elapsed && measured.1
                == message@.payload.len(),
            Err(error) => sample == Err::<(u128, usize), Error>(error),
        },
{
    match reply {
        Ok(message) => Ok((elapsed, message.payload_bytes().len())),
        Err(error) => Err(error),
    }
}

} // verus!
