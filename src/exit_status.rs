//! The exit-status state machine: from the messages that answer a submitted
//! command, it decides whether the command succeeded.
use vstd::prelude::*;
use vstd::utf8::encode_utf8;
use crate::decimal::{i64_text, parse_i64};
use crate::envelope::{field, id_answers, id_matches, take_two, text_is, Envelope};
use crate::json::Json;

verus! {

/// How a submitted command ended.
#[derive(Debug, Clone, Copy, PartialEq, Eq, Structural)]
pub enum SessionOutcome {
    Success,
    Failure,
}

/// What the log messages seen so far have said.
#[derive(Debug, Clone, Copy, PartialEq, Eq, Structural)]
pub struct ExitTrackingState {
    pub done: bool,
    pub success: bool,
    pub failure: bool,
}

/// A notification whose parameters lack what its method carries.
#[derive(Debug, Clone, Copy, PartialEq, Eq, Structural)]
pub enum ParamsError {
    /// `window/logMessage` without an integer `type` and a string `message`.
    LogMessage,
    /// `textDocument/publishDiagnostics` without a string `uri` and an
    /// array `diagnostics`.
    Diagnostics,
}

/// What one message gives the operator to see.
#[derive(Debug, PartialEq)]
pub enum Report {
    /// A request from the server, which should send none.
    Anomaly(Envelope),
    /// A response to some other request.
    Unrelated(Envelope),
    /// The success response to the submitted command.
    Reply,
    /// The error that answers the submitted command.
    ServerError(Json),
    /// The text of a log message.
    Log(String),
    /// Diagnostics for one document.
    Diagnostics { uri: String, diagnostics: Vec<Json> },
    /// Any other notification.
    Notice(Envelope),
}

pub open spec fn log_method() -> Seq<char> {
    "window/logMessage"@
}

pub open spec fn diagnostics_method() -> Seq<char> {
    "textDocument/publishDiagnostics"@
}

/// The log text that reports a run that exited with code 0.
pub open spec fn exited_ok_text() -> Seq<char> {
    "Exited with code 0"@
}

/// The log text that closes a command.
pub open spec fn done_text() -> Seq<char> {
    "Done"@
}

/// The severity of an error log message.
pub const ERROR_LEVEL: i64 = 1;

/// The `type` and `message` of log message parameters.
pub open spec fn log_params(p: Option<Json>) -> Option<(i64, String)> {
    match p {
        Some(Json::Object(o)) => match (field(o@, "type"@), field(o@, "message"@)) {
            (Some(Json::Number(t)), Some(Json::Str(m))) => match i64_text(encode_utf8(t@)) {
                Some(level) => Some((level, m)),
                None => None,
            },
            _ => None,
        },
        _ => None,
    }
}

/// The `uri` and `diagnostics` of diagnostics parameters.
pub open spec fn diagnostics_params(p: Option<Json>) -> Option<(String, Vec<Json>)> {
    match p {
        Some(Json::Object(o)) => match (field(o@, "uri"@), field(o@, "diagnostics"@)) {
            (Some(Json::Str(u)), Some(Json::Array(d))) => Some((u, d)),
            _ => None,
        },
        _ => None,
    }
}

pub open spec fn initial_state() -> ExitTrackingState {
    ExitTrackingState { done: false, success: false, failure: false }
}

/// The outcome that the flags decide, if any.
pub open spec fn decide(s: ExitTrackingState) -> Option<SessionOutcome> {
    if s.success && s.done {
        Some(SessionOutcome::Success)
    } else if s.failure {
        Some(SessionOutcome::Failure)
    } else {
        None
    }
}

/// The flags after a log message of severity `level` and text `text`.
pub open spec fn after_log(s: ExitTrackingState, level: i64, text: Seq<char>) -> ExitTrackingState {
    ExitTrackingState {
        done: s.done || text == done_text(),
        success: s.success || text == exited_ok_text(),
        failure: s.failure || level == ERROR_LEVEL,
    }
}

/// One step of the machine: the next flags, and the outcome if the message
/// ends the wait.
pub open spec fn transition(s: ExitTrackingState, e: Envelope, exec_id: i64) -> Result<
    (ExitTrackingState, Option<SessionOutcome>),
    ParamsError,
> {
    match e {
        Envelope::Request { .. } => Ok((s, decide(s))),
        Envelope::SuccessResponse { id, .. } => if id_matches(id, exec_id) {
            Ok((s, Some(SessionOutcome::Success)))
        } else {
            Ok((s, decide(s)))
        },
        Envelope::ErrorResponse { id, .. } => if id_matches(id, exec_id) {
            Ok((s, Some(SessionOutcome::Failure)))
        } else {
            Ok((s, decide(s)))
        },
        Envelope::Notification { method, params } => if method@ == log_method() {
            match log_params(params) {
                Some((level, text)) => {
                    let next = after_log(s, level, text@);
                    Ok((next, decide(next)))
                },
                None => Err(ParamsError::LogMessage),
            }
        } else if method@ == diagnostics_method() {
            match diagnostics_params(params) {
                Some(_) => Ok((s, decide(s))),
                None => Err(ParamsError::Diagnostics),
            }
        } else {
            Ok((s, decide(s)))
        },
    }
}

/// What a message gives the operator to see.
pub open spec fn report_of(e: Envelope, exec_id: i64) -> Report {
    match e {
        Envelope::Request { .. } => Report::Anomaly(e),
        Envelope::SuccessResponse { id, .. } => if id_matches(id, exec_id) {
            Report::Reply
        } else {
            Report::Unrelated(e)
        },
        Envelope::ErrorResponse { id, error } => if id_matches(id, exec_id) {
            Report::ServerError(error)
        } else {
            Report::Unrelated(e)
        },
        Envelope::Notification { method, params } => if method@ == log_method() {
            match log_params(params) {
                Some((_, text)) => Report::Log(text),
                None => Report::Notice(e),
            }
        } else if method@ == diagnostics_method() {
            match diagnostics_params(params) {
                Some((uri, diagnostics)) => Report::Diagnostics { uri, diagnostics },
                None => Report::Notice(e),
            }
        } else {
            Report::Notice(e)
        },
    }
}

impl ExitTrackingState {
    /// All flags down.
    pub fn new() -> (r: ExitTrackingState)
        ensures
            r == initial_state(),
    {
        ExitTrackingState { done: false, success: false, failure: false }
    }

    fn outcome(&self) -> (r: Option<SessionOutcome>)
        ensures
            r == decide(*self),
    {
        if self.success && self.done {
            Some(SessionOutcome::Success)
        } else if self.failure {
            Some(SessionOutcome::Failure)
        } else {
            None
        }
    }

    /// Takes one message read while waiting on the command with id
    /// `exec_id`: updates the flags, says what to show, and gives the
    /// outcome once the wait is over.
    pub fn step(&mut self, e: Envelope, exec_id: i64) -> (r: Result<
        (Report, Option<SessionOutcome>),
        ParamsError,
    >)
        ensures
            match transition(*old(self), e, exec_id) {
                Ok((next, outcome)) => *final(self) == next && r == Ok::<
                    (Report, Option<SessionOutcome>),
                    ParamsError,
                >((report_of(e, exec_id), outcome)),
                Err(err) => *final(self) == *old(self) && r == Err::<
                    (Report, Option<SessionOutcome>),
                    ParamsError,
                >(err),
            },
    {
        match e {
            Envelope::Request { id, method, params } => {
                let o = self.outcome();
                Ok((Report::Anomaly(Envelope::Request { id, method, params }), o))
            },
            Envelope::SuccessResponse { id, result } => {
                if id_answers(&id, exec_id) {
                    Ok((Report::Reply, Some(SessionOutcome::Success)))
                } else {
                    let o = self.outcome();
                    Ok((Report::Unrelated(Envelope::SuccessResponse { id, result }), o))
                }
            },
            Envelope::ErrorResponse { id, error } => {
                if id_answers(&id, exec_id) {
                    Ok((Report::ServerError(error), Some(SessionOutcome::Failure)))
                } else {
                    let o = self.outcome();
                    Ok((Report::Unrelated(Envelope::ErrorResponse { id, error }), o))
                }
            },
            Envelope::Notification { method, params } => {
                if text_is(&method, "window/logMessage") {
                    match params {
                        Some(Json::Object(o)) => {
                            proof {
                                reveal_strlit("type");
                                reveal_strlit("message");
                                assert("type"@.len() != "message"@.len());
                            }
                            let (t, m) = take_two(o, "type", "message");
                            match (t, m) {
                                (Some(Json::Number(t)), Some(Json::Str(text))) => {
                                    match parse_i64(t.as_str().as_bytes()) {
                                        Some(level) => {
                                            if text_is(&text, "Exited with code 0") {
                                                self.success = true;
                                            }
                                            if text_is(&text, "Done") {
                                                self.done = true;
                                            }
                                            if level == ERROR_LEVEL {
                                                self.failure = true;
                                            }
                                            let o = self.outcome();
                                            Ok((Report::Log(text), o))
                                        },
                                        None => Err(ParamsError::LogMessage),
                                    }
                                },
                                _ => Err(ParamsError::LogMessage),
                            }
                        },
                        _ => Err(ParamsError::LogMessage),
                    }
                } else if text_is(&method, "textDocument/publishDiagnostics") {
                    match params {
                        Some(Json::Object(o)) => {
                            proof {
                                reveal_strlit("uri");
                                reveal_strlit("diagnostics");
                                assert("uri"@.len() != "diagnostics"@.len());
                            }
                            let (u, d) = take_two(o, "uri", "diagnostics");
                            match (u, d) {
                                (Some(Json::Str(uri)), Some(Json::Array(diagnostics))) => {
                                    let o = self.outcome();
                                    Ok((Report::Diagnostics { uri, diagnostics }, o))
                                },
                                _ => Err(ParamsError::Diagnostics),
                            }
                        },
                        _ => Err(ParamsError::Diagnostics),
                    }
                } else {
                    let o = self.outcome();
                    Ok((Report::Notice(Envelope::Notification { method, params }), o))
                }
            },
        }
    }
}

/// Where a run of messages leaves the wait.
#[derive(Debug, Clone, Copy, PartialEq, Eq, Structural)]
pub enum Progress {
    /// No message has ended the wait; the flags stand as given.
    Waiting(ExitTrackingState),
    /// A message ended the wait with this outcome.
    Finished(SessionOutcome),
    /// A notification lacked what its method carries.
    Aborted(ParamsError),
}

/// Feeds messages to the machine in order, up to the first that ends the
/// wait; the rest are not read.
pub open spec fn run(s: ExitTrackingState, es: Seq<Envelope>, exec_id: i64) -> Progress
    decreases es.len(),
{
    if es.len() == 0 {
        Progress::Waiting(s)
    } else {
        match transition(s, es[0], exec_id) {
            Ok((_, Some(o))) => Progress::Finished(o),
            Ok((next, None)) => run(next, es.drop_first(), exec_id),
            Err(e) => Progress::Aborted(e),
        }
    }
}

/// `e` is a log message of severity `level` and text `text`.
pub open spec fn is_log(e: Envelope, level: i64, text: Seq<char>) -> bool {
    match e {
        Envelope::Notification { method, params } => method@ == log_method() && match log_params(
            params,
        ) {
            Some((l, t)) => l == level && t@ == text,
            None => false,
        },
        _ => false,
    }
}

/// Feeds the messages of `es` in order to the machine, waiting on the
/// command with id `exec_id`, and stops at the first that ends the wait.
pub fn monitor(es: Vec<Envelope>, exec_id: i64) -> (r: Progress)
    ensures
        r == run(initial_state(), es@, exec_id),
{
    let mut state = ExitTrackingState::new();
    let ghost all = es@;
    let total = es.len();
    let mut rest = es;
    let mut taken: usize = 0;
    assert(all.subrange(0, all.len() as int) =~= all);
    while taken < total
        invariant
            taken + rest@.len() == all.len(),
            total == all.len(),
            all == es@,
            rest@ == all.subrange(taken as int, all.len() as int),
            run(initial_state(), all, exec_id) == run(
                state,
                all.subrange(taken as int, all.len() as int),
                exec_id,
            ),
        decreases rest@.len(),
    {
        let ghost tail = all.subrange(taken as int, all.len() as int);
        let ghost before = state;
        let e = rest.remove(0);
        assert(e == tail[0]);
        assert(tail.drop_first() =~= all.subrange(taken + 1, all.len() as int));
        assert(run(before, tail, exec_id) == match transition(before, e, exec_id) {
            Ok((_, Some(o))) => Progress::Finished(o),
            Ok((next, None)) => run(next, tail.drop_first(), exec_id),
            Err(err) => Progress::Aborted(err),
        });
        let r = state.step(e, exec_id);
        match r {
            Ok((_, Some(o))) => {
                return Progress::Finished(o);
            },
            Ok((_, None)) => {},
            Err(err) => {
                return Progress::Aborted(err);
            },
        }
        taken = taken + 1;
    }
    Progress::Waiting(state)
}

/// A run that logs `Exited with code 0` and then `Done`, neither at error
/// severity, ends in success.
pub proof fn lemma_success_path(e1: Envelope, e2: Envelope, l1: i64, l2: i64, exec_id: i64)
    requires
        l1 != ERROR_LEVEL,
        l2 != ERROR_LEVEL,
        is_log(e1, l1, exited_ok_text()),
        is_log(e2, l2, done_text()),
    ensures
        run(initial_state(), seq![e1, e2], exec_id) == Progress::Finished(SessionOutcome::Success),
{
    reveal_with_fuel(run, 3);
    reveal_strlit("Exited with code 0");
    reveal_strlit("Done");
    assert(exited_ok_text().len() != done_text().len());
    let es = seq![e1, e2];
    assert(es[0] == e1);
    assert(es.drop_first() =~= seq![e2]);
    assert(seq![e2].drop_first() =~= Seq::<Envelope>::empty());
}

/// A run that logs `Done` and then a message at error severity (any text
/// but `Exited with code 0`) ends in failure.
pub proof fn lemma_failure_path(e1: Envelope, e2: Envelope, l1: i64, t2: Seq<char>, exec_id: i64)
    requires
        l1 != ERROR_LEVEL,
        t2 != exited_ok_text(),
        is_log(e1, l1, done_text()),
        is_log(e2, ERROR_LEVEL, t2),
    ensures
        run(initial_state(), seq![e1, e2], exec_id) == Progress::Finished(SessionOutcome::Failure),
{
    reveal_with_fuel(run, 3);
    reveal_strlit("Exited with code 0");
    reveal_strlit("Done");
    assert(exited_ok_text().len() != done_text().len());
    let es = seq![e1, e2];
    assert(es[0] == e1);
    assert(es.drop_first() =~= seq![e2]);
    assert(seq![e2].drop_first() =~= Seq::<Envelope>::empty());
}

/// A success response whose id is not the awaited one leaves the machine as
/// it was and the wait open; one with the awaited id that follows it ends
/// the wait in success.
pub proof fn lemma_unrelated_response(
    s: ExitTrackingState,
    e1: Envelope,
    e2: Envelope,
    exec_id: i64,
)
    requires
        decide(s) is None,
        e1 matches Envelope::SuccessResponse { id, .. } && !id_matches(id, exec_id),
        e2 matches Envelope::SuccessResponse { id, .. } && id_matches(id, exec_id),
    ensures
        transition(s, e1, exec_id) == Ok::<(ExitTrackingState, Option<SessionOutcome>), ParamsError>(
            (s, None),
        ),
        run(s, seq![e1, e2], exec_id) == Progress::Finished(SessionOutcome::Success),
{
    reveal_with_fuel(run, 3);
    let es = seq![e1, e2];
    assert(es[0] == e1);
    assert(es.drop_first() =~= seq![e2]);
}

} // verus!
