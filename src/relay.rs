//! The relay: the decisions taken for each input line, the wire framing of a
//! forwarded intent, and the rule that nothing is processed after an error.
//!
//! The caller reads the lines and owns the connection. It hands each line to
//! `Relay::on_line`, performs the action returned, and reports the outcome of
//! every write (with its flush) to `Relay::on_delivery`.

use crate::gate::{confidence_qualifies, exceeds_threshold};
use crate::intent::{intent_of_line, parse_intent, IntentError};
use vstd::prelude::*;
use vstd::string::StringExecFns;

verus! {

/// What is written to the connection for a forwarded intent: its name and a
/// newline, with no length prefix and no escaping.
pub open spec fn frame_of(name: Seq<char>) -> Seq<char> {
    name.push('\n')
}

/// Frames an intent name for the wire.
pub fn frame_intent(name: &String) -> (r: String)
    ensures
        r@ == frame_of(name@),
{
    let mut framed = name.clone();
    proof {
        reveal_strlit("\n");
    }
    framed.append("\n");
    assert(framed@ =~= frame_of(name@));
    framed
}

/// What the relay decides for one line.
pub enum Decision {
    /// Write these characters to the connection and flush.
    Forward(Seq<char>),
    /// Do nothing: the confidence is too low.
    Skip,
    /// Process nothing more.
    Stop(IntentError),
}

/// The decision for a line, given the error the relay has stopped on, if any.
pub open spec fn decide(failure: Option<IntentError>, line: Seq<u8>) -> Decision {
    match failure {
        Some(e) => Decision::Stop(e),
        None => match intent_of_line(line) {
            Err(e) => Decision::Stop(e),
            Ok((name, confidence)) => if exceeds_threshold(confidence) {
                Decision::Forward(frame_of(name))
            } else {
                Decision::Skip
            },
        },
    }
}

/// The error the relay has stopped on after a line.
pub open spec fn after_line(failure: Option<IntentError>, line: Seq<u8>) -> Option<IntentError> {
    match decide(failure, line) {
        Decision::Stop(e) => Some(e),
        _ => None,
    }
}

/// The error the relay has stopped on after a write was reported.
pub open spec fn after_delivery(failure: Option<IntentError>, delivered: bool) -> Option<
    IntentError,
> {
    match failure {
        Some(e) => Some(e),
        None => if delivered {
            None
        } else {
            Some(IntentError::TransportFailure)
        },
    }
}

/// The decisions for a run of lines fed in turn, and the relay's final failure.
pub open spec fn feed(failure: Option<IntentError>, lines: Seq<Seq<u8>>) -> (Seq<Decision>, Option<IntentError>)
    decreases lines.len(),
{
    if lines.len() == 0 {
        (Seq::empty(), failure)
    } else {
        let (rest, last) = feed(after_line(failure, lines[0]), lines.drop_first());
        (seq![decide(failure, lines[0])] + rest, last)
    }
}

/// The action handed to the caller for one line.
pub enum Action {
    /// Write these bytes (`as_bytes`) to the connection, flush, and report the
    /// outcome to `Relay::on_delivery`.
    Forward(String),
    /// Nothing to send: go on with the next line.
    Skip,
    /// Stop reading: this error ends the run.
    Stop(IntentError),
}

impl View for Action {
    type V = Decision;

    open spec fn view(&self) -> Decision {
        match self {
            Action::Forward(s) => Decision::Forward(s@),
            Action::Skip => Decision::Skip,
            Action::Stop(e) => Decision::Stop(*e),
        }
    }
}

/// The relay's state: the error it has stopped on, if any.
pub struct Relay {
    failure: Option<IntentError>,
}

impl Relay {
    pub closed spec fn failure(&self) -> Option<IntentError> {
        self.failure
    }

    /// A relay that has processed nothing.
    pub fn new() -> (r: Relay)
        ensures
            r.failure() is None,
    {
        Relay { failure: None }
    }

    /// The error the relay has stopped on, if any.
    pub fn stopped_on(&self) -> (r: Option<IntentError>)
        ensures
            r == self.failure(),
    {
        self.failure
    }

    /// Decides what to do with one input line: forward the intent's name when
    /// its confidence is above the threshold, skip it otherwise, and stop on
    /// the first error, which every later line then reports again.
    pub fn on_line(&mut self, line: &[u8]) -> (a: Action)
        ensures
            a@ == decide(old(self).failure(), line@),
            final(self).failure() == after_line(old(self).failure(), line@),
    {
        if let Some(e) = self.failure {
            return Action::Stop(e);
        }
        match parse_intent(line) {
            Err(e) => {
                self.failure = Some(e);
                Action::Stop(e)
            },
            Ok(record) => {
                if confidence_qualifies(record.confidence_bits) {
                    Action::Forward(frame_intent(&record.name))
                } else {
                    Action::Skip
                }
            },
        }
    }

    /// Records whether a forwarded intent was written and flushed. A failed
    /// delivery stops the relay with a transport failure.
    pub fn on_delivery(&mut self, delivered: bool) -> (a: Action)
        ensures
            final(self).failure() == after_delivery(old(self).failure(), delivered),
            a@ == (match final(self).failure() {
                Some(e) => Decision::Stop(e),
                None => Decision::Skip,
            }),
    {
        if self.failure.is_none() && !delivered {
            self.failure = Some(IntentError::TransportFailure);
        }
        match self.failure {
            Some(e) => Action::Stop(e),
            None => Action::Skip,
        }
    }
}

/// After a failed delivery no line is processed: whatever lines follow, each
/// is answered with the transport failure, none is forwarded, and the relay
/// stays stopped.
pub proof fn lemma_stops_after_transport_failure(lines: Seq<Seq<u8>>)
    ensures
        ({
            let (decisions, last) = feed(after_delivery(None, false), lines);
            &&& decisions.len() == lines.len()
            &&& forall|i: int|
                0 <= i < lines.len() ==> decisions[i] == Decision::Stop(IntentError::TransportFailure)
            &&& last == Some(IntentError::TransportFailure)
        }),
{
    lemma_stopped_stays(IntentError::TransportFailure, lines);
}

/// A stopped relay answers every line with the error it stopped on.
pub proof fn lemma_stopped_stays(e: IntentError, lines: Seq<Seq<u8>>)
    ensures
        ({
            let (decisions, last) = feed(Some(e), lines);
            &&& decisions.len() == lines.len()
            &&& forall|i: int| 0 <= i < lines.len() ==> decisions[i] == Decision::Stop(e)
            &&& last == Some(e)
        }),
    decreases lines.len(),
{
    if lines.len() > 0 {
        lemma_stopped_stays(e, lines.drop_first());
        let (rest, last) = feed(Some(e), lines.drop_first());
        let (decisions, _) = feed(Some(e), lines);
        assert forall|i: int| 0 <= i < lines.len() implies decisions[i] == Decision::Stop(e) by {
            if i > 0 {
                assert(decisions[i] == rest[i - 1]);
            }
        }
    }
}

} // verus!
