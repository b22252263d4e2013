//! One operation's conversation with the device, as a state machine. The
//! caller sends each line that a step asks for and hands the answer (or the
//! session's failure) to the next step, until a step finishes with a result.
use vstd::prelude::*;
use crate::command::{
    classify, command_line, command_text, needs_recovery, recovers, recovery_line, recovery_text,
    rejection, Operation,
};
use crate::error::{SuperStackError, VlanError};
use crate::report::{
    details_of, details_view, parse_vlan_details, parse_vlan_summary, summary_of, vlan_rows,
    Vlan, VlanDetails,
};
use crate::text::chars_of;

verus! {

/// What a finished operation returns.
#[derive(Debug)]
pub enum Reply {
    Vlans { vlans: Vec<Vlan> },
    Details { details: VlanDetails },
    Done,
}

/// Where an exchange stands.
#[derive(Debug)]
pub enum Stage {
    /// The operation's command was sent; its answer is awaited.
    AwaitingReply,
    /// The device rejected an argument; the answer to the recovery line is
    /// awaited, after which `error` is returned.
    Recovering { error: VlanError },
}

/// One operation in flight on a session.
#[derive(Debug)]
pub struct Exchange {
    pub op: Operation,
    pub stage: Stage,
}

/// What the session reports after a line was sent.
#[derive(Debug)]
pub enum Event {
    Response { text: String },
    Failed { error: SuperStackError },
}

/// What the caller does next.
#[derive(Debug)]
pub enum Step {
    /// Send `line`, then hand the answer to `next`.
    Send { next: Exchange, line: String },
    /// The operation is over.
    Finish { result: Result<Reply, VlanError> },
}

/// The result of an operation whose answer `text` holds no error marker.
pub open spec fn accepted(op: Operation, text: Seq<char>, result: Result<Reply, VlanError>) -> bool {
    match op {
        Operation::ListVlans => match summary_of(text) {
            Some(rows) => result matches Ok(Reply::Vlans { vlans }) && vlan_rows(vlans@) == rows,
            None => result == Err::<Reply, VlanError>(VlanError::Parse),
        },
        Operation::ShowVlan { .. } => match details_of(text) {
            Some(d) => result matches Ok(Reply::Details { details }) && details_view(details) == d,
            None => result == Err::<Reply, VlanError>(VlanError::Parse),
        },
        _ => result == Ok::<Reply, VlanError>(Reply::Done),
    }
}

/// A step that ends the operation with `Err(e)`.
pub open spec fn fails_with(r: Step, e: VlanError) -> bool {
    r matches Step::Finish { result } && result == Err::<Reply, VlanError>(e)
}

impl Exchange {
    /// Begins `op`: the returned line is its command, to be sent first.
    pub fn start(op: Operation) -> (r: (Exchange, String))
        ensures
            r.0.op == op,
            r.0.stage is AwaitingReply,
            r.1@ == command_text(op),
    {
        let line = command_line(&op);
        (Exchange { op, stage: Stage::AwaitingReply }, line)
    }

    /// Takes the session's report on the last line sent and decides what
    /// follows. A rejected argument that leaves the device in an edit state
    /// is answered with one recovery line before its error is returned; any
    /// other rejection is returned at once; an answer without error markers
    /// is parsed where the operation reports something. The step after a
    /// recovery line always finishes.
    pub fn step(self, event: Event) -> (r: Step)
        ensures
            match (self.stage, event) {
                (Stage::Recovering { error }, Event::Response { .. }) => fails_with(r, error),
                (_, Event::Failed { error }) => fails_with(r, VlanError::Session { cause: error }),
                (Stage::AwaitingReply, Event::Response { text }) => match rejection(
                    self.op,
                    text@,
                ) {
                    Some(e) => if recovers(e) {
                        r matches Step::Send { next, line } && next.op == self.op && next.stage
                            == (Stage::Recovering { error: e }) && line@ == recovery_text()
                    } else {
                        fails_with(r, e)
                    },
                    None => r matches Step::Finish { result } && accepted(self.op, text@, result),
                },
            },
    {
        match event {
            Event::Failed { error } => Step::Finish { result: Err(VlanError::from(error)) },
            Event::Response { text } => match self.stage {
                Stage::Recovering { error } => Step::Finish { result: Err(error) },
                Stage::AwaitingReply => {
                    let chars = chars_of(text.as_str());
                    match classify(&self.op, &chars) {
                        Some(e) => {
                            if needs_recovery(&e) {
                                Step::Send {
                                    next: Exchange { op: self.op, stage: Stage::Recovering { error: e } },
                                    line: recovery_line(),
                                }
                            } else {
                                Step::Finish { result: Err(e) }
                            }
                        },
                        None => match self.op {
                            Operation::ListVlans => match parse_vlan_summary(text) {
                                Ok(vlans) => Step::Finish { result: Ok(Reply::Vlans { vlans }) },
                                Err(e) => Step::Finish { result: Err(e) },
                            },
                            Operation::ShowVlan { .. } => match parse_vlan_details(text) {
                                Ok(details) => Step::Finish {
                                    result: Ok(Reply::Details { details }),
                                },
                                Err(e) => Step::Finish { result: Err(e) },
                            },
                            _ => Step::Finish { result: Ok(Reply::Done) },
                        },
                    }
                },
            },
        }
    }
}

} // verus!
