//! The sidecar bridge: one call, one worker process. The embedding
//! application owns the process itself; it drives a `BridgeCall` by asking
//! for the next action, performing it, and handing the observed event back.
//! Everything the bridge decides — what to send, and how a finished process
//! is classified into a response envelope or an error — is stated and proved
//! here.

use vstd::prelude::*;
use vstd::string::*;

use crate::doc::{doc_get, jx_get, Doc, Jx};
use crate::parse::{jparse, parse_json};
use crate::wire::{doc_to_json, jdoc_chars};

verus! {

/// What one worker invocation can fail with. Every call yields either a
/// whole response envelope or exactly one of these.
#[derive(Debug, PartialEq)]
pub enum SidecarError {
    /// The worker could not be launched, or its input could not be
    /// delivered; carries the underlying message.
    StartFailed(String),
    /// The worker signalled failure, by a non-zero exit status or by an
    /// error field inside its reply; carries the worker's diagnostic text.
    WorkerReportedFailure(String),
    /// The worker's output was not one well-formed document; carries the
    /// parse diagnostic and the raw output in full.
    InvalidOutput { message: String, raw: String },
}

/// The single message form an error is recovered into at the host boundary.
pub open spec fn sidecar_error_chars(e: SidecarError) -> Seq<char> {
    match e {
        SidecarError::StartFailed(m) => "failed to start worker: "@ + m@,
        SidecarError::WorkerReportedFailure(m) => "worker reported failure: "@ + m@,
        SidecarError::InvalidOutput { message, raw } => "invalid worker output: "@ + message@
            + ". output: "@ + raw@,
    }
}

/// Renders an error as one message, as `sidecar_error_chars` names.
pub fn sidecar_error_message(e: &SidecarError) -> (m: String)
    ensures
        m@ == sidecar_error_chars(*e),
{
    match e {
        SidecarError::StartFailed(t) => {
            let mut m = String::from_str("failed to start worker: ");
            m.append(t.as_str());
            m
        },
        SidecarError::WorkerReportedFailure(t) => {
            let mut m = String::from_str("worker reported failure: ");
            m.append(t.as_str());
            m
        },
        SidecarError::InvalidOutput { message, raw } => {
            let mut m = String::from_str("invalid worker output: ");
            m.append(message.as_str());
            m.append(". output: ");
            m.append(raw.as_str());
            proof {
                assert(m@ =~= sidecar_error_chars(*e));
            }
            m
        },
    }
}

/// The diagnostic text an error-field value stands for: the content of a
/// string value, the wire text of any other value.
pub open spec fn err_text(e: Jx) -> Seq<char> {
    match e {
        Jx::Str(t) => t,
        _ => jdoc_chars(e),
    }
}

/// How a finished process must be classified. A failing exit status is a
/// worker failure carrying the error-channel text, whatever the output
/// channel holds. Otherwise the output must be one well-formed document;
/// a document with an `error` field is a worker failure carrying that
/// field's text, even though the process exited cleanly; any other document
/// is the response envelope.
pub open spec fn classified(
    exit_ok: bool,
    out: Seq<char>,
    err: Seq<char>,
    r: Result<Doc, SidecarError>,
) -> bool {
    if !exit_ok {
        r matches Err(SidecarError::WorkerReportedFailure(m)) && m@ == err
    } else {
        match r {
            Ok(d) => jparse(out) == Some(d.jx()) && jx_get(d.jx(), "error"@) is None,
            Err(SidecarError::WorkerReportedFailure(m)) => jparse(out) matches Some(j) && jx_get(
                j,
                "error"@,
            ) matches Some(t) && m@ == err_text(t),
            Err(SidecarError::InvalidOutput { message, raw }) => jparse(out) is None && raw@
                == out,
            Err(SidecarError::StartFailed(_)) => false,
        }
    }
}

/// The diagnostic text of an error-field value, as `err_text` names.
pub fn error_text(d: &Doc) -> (m: String)
    ensures
        m@ == err_text(d.jx()),
{
    match d {
        Doc::Text(t) => t.clone(),
        _ => doc_to_json(d),
    }
}

/// Classifies one finished worker process: its exit status, its collected
/// output text and its collected error text, in that order of authority.
pub fn classify_output(exit_ok: bool, stdout: String, stderr: String) -> (r: Result<
    Doc,
    SidecarError,
>)
    ensures
        classified(exit_ok, stdout@, stderr@, r),
{
    if !exit_ok {
        return Err(SidecarError::WorkerReportedFailure(stderr));
    }
    match parse_json(stdout.as_str()) {
        None => Err(
            SidecarError::InvalidOutput {
                message: String::from_str("not a well-formed document"),
                raw: stdout,
            },
        ),
        Some(d) => match doc_get(&d, "error") {
            Some(e) => Err(SidecarError::WorkerReportedFailure(error_text(e))),
            None => Ok(d),
        },
    }
}

/// Where one call stands in its protocol.
#[derive(Debug, Clone, Copy, PartialEq, Eq, Structural)]
pub enum BridgePhase {
    /// The worker has yet to be launched.
    Launching,
    /// The worker runs; the request has yet to be written to its input.
    Sending,
    /// The request is delivered; the call waits for the process to end.
    Waiting,
    /// The call is over.
    Done,
}

/// What the embedding application must do next for a call.
#[derive(Debug, Clone, Copy, PartialEq, Eq, Structural)]
pub enum BridgeAction {
    /// Launch the worker, the call's command name as its sole argument,
    /// with input, output and error channels captured.
    Launch,
    /// Write the call's request text to the worker's input in full, then
    /// close that channel.
    Send,
    /// Block until the process ends, collecting output and error in full.
    Await,
    /// Nothing; the call is over.
    Stop,
}

/// What the embedding application observed while performing an action.
#[derive(Debug)]
pub enum BridgeEvent {
    /// The worker was launched and its input channel is writable.
    Launched,
    /// The worker could not be launched; carries the underlying message.
    LaunchFailed(String),
    /// The request text was written in full and the input channel closed.
    Sent,
    /// The request text could not be delivered; carries the message.
    SendFailed(String),
    /// The process ended with the given status and collected channels.
    Exited { exit_ok: bool, stdout: String, stderr: String },
}

/// The action each phase asks of the embedding application.
pub open spec fn phase_action(p: BridgePhase) -> BridgeAction {
    match p {
        BridgePhase::Launching => BridgeAction::Launch,
        BridgePhase::Sending => BridgeAction::Send,
        BridgePhase::Waiting => BridgeAction::Await,
        BridgePhase::Done => BridgeAction::Stop,
    }
}

/// One worker invocation: the command name, the request text to deliver,
/// and where the call stands. The embedding application performs
/// `next_action` and reports what happened through `step`; the call itself
/// never touches the process.
pub struct BridgeCall {
    /// The worker operation to perform, passed as the sole argument.
    pub command: String,
    /// The request text, the payload in wire form.
    pub request: String,
    /// Where the call stands.
    pub phase: BridgePhase,
}

impl BridgeCall {
    /// Opens a call: renders the payload once, before any process exists,
    /// and stands ready to launch.
    pub fn new(command: String, payload: &Doc) -> (c: BridgeCall)
        requires
            command@.len() > 0,
        ensures
            c.command@ == command@,
            c.request@ == jdoc_chars(payload.jx()),
            c.phase == BridgePhase::Launching,
    {
        BridgeCall { command, request: doc_to_json(payload), phase: BridgePhase::Launching }
    }

    /// What the embedding application must do next.
    pub fn next_action(&self) -> (a: BridgeAction)
        ensures
            a == phase_action(self.phase),
    {
        match self.phase {
            BridgePhase::Launching => BridgeAction::Launch,
            BridgePhase::Sending => BridgeAction::Send,
            BridgePhase::Waiting => BridgeAction::Await,
            BridgePhase::Done => BridgeAction::Stop,
        }
    }

    /// Advances the call by one observed event. A launch or delivery
    /// failure ends the call with `StartFailed` — in particular, a launch
    /// failure ends it before anything was sent. A finished process is
    /// classified as `classified` demands. An event that does not belong
    /// to the call's phase changes nothing.
    pub fn step(self, event: BridgeEvent) -> (r: (BridgeCall, Option<
        Result<Doc, SidecarError>,
    >))
        ensures
            r.0.command == self.command,
            r.0.request == self.request,
            self.phase == BridgePhase::Launching ==> match event {
                BridgeEvent::Launched => r.0.phase == BridgePhase::Sending && r.1 is None,
                BridgeEvent::LaunchFailed(m) => r.0.phase == BridgePhase::Done && r.1 == Some(
                    Err::<Doc, SidecarError>(SidecarError::StartFailed(m)),
                ),
                _ => r.0.phase == self.phase && r.1 is None,
            },
            self.phase == BridgePhase::Sending ==> match event {
                BridgeEvent::Sent => r.0.phase == BridgePhase::Waiting && r.1 is None,
                BridgeEvent::SendFailed(m) => r.0.phase == BridgePhase::Done && r.1 == Some(
                    Err::<Doc, SidecarError>(SidecarError::StartFailed(m)),
                ),
                _ => r.0.phase == self.phase && r.1 is None,
            },
            self.phase == BridgePhase::Waiting ==> match event {
                BridgeEvent::Exited { exit_ok, stdout, stderr } => {
                    &&& r.0.phase == BridgePhase::Done
                    &&& r.1 matches Some(res) && classified(exit_ok, stdout@, stderr@, res)
                },
                _ => r.0.phase == self.phase && r.1 is None,
            },
            self.phase == BridgePhase::Done ==> r.0.phase == self.phase && r.1 is None,
    {
        let BridgeCall { command, request, phase } = self;
        match (phase, event) {
            (BridgePhase::Launching, BridgeEvent::Launched) => (
                BridgeCall { command, request, phase: BridgePhase::Sending },
                None,
            ),
            (BridgePhase::Launching, BridgeEvent::LaunchFailed(m)) => (
                BridgeCall { command, request, phase: BridgePhase::Done },
                Some(Err(SidecarError::StartFailed(m))),
            ),
            (BridgePhase::Sending, BridgeEvent::Sent) => (
                BridgeCall { command, request, phase: BridgePhase::Waiting },
                None,
            ),
            (BridgePhase::Sending, BridgeEvent::SendFailed(m)) => (
                BridgeCall { command, request, phase: BridgePhase::Done },
                Some(Err(SidecarError::StartFailed(m))),
            ),
            (BridgePhase::Waiting, BridgeEvent::Exited { exit_ok, stdout, stderr }) => (
                BridgeCall { command, request, phase: BridgePhase::Done },
                Some(classify_output(exit_ok, stdout, stderr)),
            ),
            (p, _) => (BridgeCall { command, request, phase: p }, None),
        }
    }
}

} // verus!
