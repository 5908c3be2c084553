//! The decisions of a session with the device.
//!
//! A session connects to the first address of the device that accepts a
//! connection, checks that the device is the expected one, and then exchanges
//! one request line for one response line at a time. Reading and writing the
//! connection is left to the caller; what is written, what is made of what was
//! read, and which address is tried next is decided here.

use crate::commands::IdentityResponse;
use crate::text;
use crate::{check_empty, remainder_fault};
use crate::{Error, ScpiDeserialize, ScpiRequest};
use vstd::prelude::*;
use vstd::string::StringExecFns;

verus! {

/// The line that carries a request: its wire text and a line feed.
pub open spec fn request_line(wire: Seq<char>) -> Seq<char> {
    wire + "\n"@
}

/// The line that carries `request` to the device, to be written in one piece.
pub fn encode_request<R: ScpiRequest>(request: &R) -> (line: String)
    ensures
        line@ == request_line(request.wire()),
{
    let mut line = String::new();
    request.serialize(&mut line);
    line.append("\n");
    assert(line@ =~= request_line(request.wire()));
    line
}

/// What decoding makes of a whole response line: the value that the line
/// decodes to, provided that nothing of the line is left over.
pub open spec fn parse_response<T: ScpiDeserialize>(line: Seq<char>) -> Result<T::V, Seq<char>> {
    match T::parse(line) {
        Err(detail) => Err(detail),
        Ok((value, rest)) => if rest.len() == 0 {
            Ok(value)
        } else {
            Err(remainder_fault(rest))
        },
    }
}

/// Decodes the response line that answers a request whose response is of
/// type `T`. A line that does not decode, or of which something is left over
/// after decoding, is a decoding fault.
pub fn decode_response<T: ScpiDeserialize>(line: &str) -> (r: Result<T, Error>)
    ensures
        match parse_response::<T>(line@) {
            Ok(value) => r matches Ok(x) && x@ == value,
            Err(detail) => r matches Err(Error::ResponseDecoding(m)) && m@ == detail,
        },
{
    let mut input: &str = line;
    let response = match T::deserialize(&mut input) {
        Ok(response) => response,
        Err(e) => {
            return Err(e);
        },
    };
    match check_empty(&mut input) {
        Ok(()) => Ok(response),
        Err(e) => Err(e),
    }
}

/// The detail of the fault for a device with another serial number than the
/// expected one.
pub open spec fn serial_fault(serial_number: Seq<char>) -> Seq<char> {
    "Device has serial number: "@ + serial_number
}

/// Checks that the device that identified itself has the expected serial
/// number, character for character. The fault for another device carries the
/// serial number that the device has.
pub fn verify_serial_number(
    identity: &IdentityResponse,
    serial_number: &str,
) -> (r: Result<(), Error>)
    ensures
        identity.serial_number@ == serial_number@ ==> r is Ok,
        identity.serial_number@ != serial_number@ ==> (r matches Err(Error::SerialMismatch(m))
            && m@ == serial_fault(identity.serial_number@)),
{
    if text::same_text(identity.serial_number.as_str(), serial_number) {
        Ok(())
    } else {
        Err(
            Error::SerialMismatch(
                String::from_str("Device has serial number: ").concat(
                    identity.serial_number.as_str(),
                ),
            ),
        )
    }
}

/// What to do next while connecting.
#[derive(Debug)]
pub enum ConnectStep {
    /// Try to connect to the candidate address with this index.
    Attempt(usize),
    /// Give up with this fault.
    Fail(Error),
}

impl View for ConnectStep {
    type V = Option<nat>;

    /// The index of the candidate to try, if there is one to try.
    open spec fn view(&self) -> Option<nat> {
        match self {
            ConnectStep::Attempt(index) => Some(*index as nat),
            ConnectStep::Fail(_) => None,
        }
    }
}

/// The candidate to try first: the first one, if there is any.
pub open spec fn first_candidate(candidates: nat) -> Option<nat> {
    if candidates == 0 {
        None
    } else {
        Some(0)
    }
}

/// The candidate to try after the one with index `failed`: the next one, if
/// there is another.
pub open spec fn next_candidate(candidates: nat, failed: nat) -> Option<nat> {
    if failed + 1 < candidates {
        Some(failed + 1)
    } else {
        None
    }
}

/// The detail of the fault for a host name without addresses.
pub open spec fn lookup_fault(host: Seq<char>) -> Seq<char> {
    "Lookup provided no addresses for `"@ + host + "`"@
}

/// The detail of the fault for a host none of whose addresses accepted a
/// connection.
pub open spec fn unreachable_fault() -> Seq<char> {
    "Could not connect on any address"@
}

/// The first step of connecting to `host`, whose name was resolved to
/// `candidates` addresses: to try the first address, or to give up at once
/// where there is none.
pub fn first_attempt(host: &str, candidates: usize) -> (step: ConnectStep)
    ensures
        step@ == first_candidate(candidates as nat),
        step matches ConnectStep::Fail(e) ==> (e matches Error::ConnectFailed(m) && m@
            == lookup_fault(host@)),
{
    if candidates == 0 {
        ConnectStep::Fail(
            Error::ConnectFailed(
                String::from_str("Lookup provided no addresses for `").concat(host).concat("`"),
            ),
        )
    } else {
        ConnectStep::Attempt(0)
    }
}

/// The step after the attempt on the candidate with index `failed` has
/// failed: to try the next address, or to give up where there is none left.
pub fn next_attempt(candidates: usize, failed: usize) -> (step: ConnectStep)
    ensures
        step@ == next_candidate(candidates as nat, failed as nat),
        step matches ConnectStep::Fail(e) ==> (e matches Error::ConnectFailed(m) && m@
            == unreachable_fault()),
{
    if failed < candidates && failed + 1 < candidates {
        ConnectStep::Attempt(failed + 1)
    } else {
        ConnectStep::Fail(
            Error::ConnectFailed(String::from_str("Could not connect on any address")),
        )
    }
}

/// How connecting went: the candidates that were tried, in the order in which
/// they were tried, and the candidate that accepted the connection, if one
/// did.
pub struct ConnectOutcome {
    pub attempts: Seq<nat>,
    pub connected: Option<nat>,
}

/// How connecting goes from `step` on, where `reachable[i]` tells whether the
/// candidate with index `i` accepts a connection: each candidate that a step
/// names is tried, the first that accepts ends the process, and each that
/// refuses leads to the step that follows it.
pub open spec fn connect_from(reachable: Seq<bool>, step: Option<nat>) -> ConnectOutcome
    decreases
        match step {
            Some(index) => reachable.len() - index,
            None => 0,
        },
{
    match step {
        Some(index) if index < reachable.len() => if reachable[index as int] {
            ConnectOutcome { attempts: seq![index], connected: Some(index) }
        } else {
            let later = connect_from(reachable, next_candidate(reachable.len(), index));
            ConnectOutcome { attempts: seq![index] + later.attempts, connected: later.connected }
        },
        _ => ConnectOutcome { attempts: Seq::empty(), connected: None },
    }
}

/// How connecting to a host goes whose candidates are reachable as
/// `reachable` tells.
pub open spec fn connect_outcome(reachable: Seq<bool>) -> ConnectOutcome {
    connect_from(reachable, first_candidate(reachable.len()))
}

/// From the candidate with index `start` on, the candidates are tried in
/// order, up to and including the first that accepts a connection; that one is
/// connected. Where none accepts, all are tried and none is connected.
proof fn lemma_connect_from(reachable: Seq<bool>, start: nat)
    requires
        start < reachable.len(),
    ensures
        ({
            let outcome = connect_from(reachable, Some(start));
            &&& forall|i: int|
                0 <= i < outcome.attempts.len() ==> #[trigger] outcome.attempts[i] == start + i
            &&& match outcome.connected {
                Some(index) => {
                    &&& start <= index < reachable.len()
                    &&& reachable[index as int]
                    &&& outcome.attempts.len() == index - start + 1
                    &&& forall|j: int| start <= j < index ==> !#[trigger] reachable[j]
                },
                None => {
                    &&& outcome.attempts.len() == reachable.len() - start
                    &&& forall|j: int| start <= j < reachable.len() ==> !#[trigger] reachable[j]
                },
            }
        }),
    decreases reachable.len() - start,
{
    let outcome = connect_from(reachable, Some(start));
    if !reachable[start as int] {
        let next = next_candidate(reachable.len(), start);
        let later = connect_from(reachable, next);
        assert(outcome.attempts == seq![start] + later.attempts);
        assert(outcome.connected == later.connected);
        if start + 1 < reachable.len() {
            lemma_connect_from(reachable, start + 1);
            assert forall|i: int| 0 <= i < outcome.attempts.len() implies #[trigger] outcome
                .attempts[i] == start + i by {
                if i > 0 {
                    assert(outcome.attempts[i] == later.attempts[i - 1]);
                }
            }
        } else {
            assert(later.attempts.len() == 0);
        }
    }
}

/// Connecting tries the candidate addresses in the order in which they were
/// given, skips each that refuses, and ends with the first that accepts a
/// connection. It fails only if every candidate has been tried and has
/// refused; without candidates it fails without trying any.
pub proof fn lemma_connect_fallback(reachable: Seq<bool>)
    ensures
        ({
            let outcome = connect_outcome(reachable);
            &&& forall|i: int|
                0 <= i < outcome.attempts.len() ==> #[trigger] outcome.attempts[i] == i
            &&& match outcome.connected {
                Some(index) => {
                    &&& index < reachable.len()
                    &&& reachable[index as int]
                    &&& outcome.attempts.len() == index + 1
                    &&& forall|j: int| 0 <= j < index ==> !#[trigger] reachable[j]
                },
                None => {
                    &&& outcome.attempts.len() == reachable.len()
                    &&& forall|j: int| 0 <= j < reachable.len() ==> !#[trigger] reachable[j]
                },
            }
        }),
{
    if reachable.len() > 0 {
        lemma_connect_from(reachable, 0);
    }
}

/// Where only the last of the candidates accepts a connection, every
/// candidate is tried, in order, and the last one is connected.
pub proof fn lemma_connect_last(reachable: Seq<bool>)
    requires
        reachable.len() > 0,
        reachable.last(),
        forall|j: int| 0 <= j < reachable.len() - 1 ==> !#[trigger] reachable[j],
    ensures
        connect_outcome(reachable).connected == Some((reachable.len() - 1) as nat),
        connect_outcome(reachable).attempts == Seq::new(reachable.len(), |i: int| i as nat),
{
    lemma_connect_fallback(reachable);
    let outcome = connect_outcome(reachable);
    let last = (reachable.len() - 1) as nat;
    assert(reachable[last as int]);
    match outcome.connected {
        Some(index) => {
            if index < last {
                assert(!reachable[index as int]);
            }
        },
        None => {},
    }
    assert(outcome.attempts =~= Seq::new(reachable.len(), |i: int| i as nat));
}

} // verus!
