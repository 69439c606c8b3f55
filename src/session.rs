//! The session: a handshake on one connection, then a command submitted on
//! a second and watched there until it ends. The caller does the reading
//! and writing; these functions make the requests and the decisions.
use vstd::prelude::*;
use crate::envelope::Envelope;
use crate::exit_status::{
    done_text, exited_ok_text, initial_state, is_log, lemma_success_path, run, Progress,
    SessionOutcome, ERROR_LEVEL,
};
use crate::json::Json;
use crate::message::{frames_json, is_request, make_request};

verus! {

/// The id of the `initialize` request.
pub const INITIALIZE_ID: i64 = 1;

/// The id of the command request, which its answer carries.
pub const EXEC_ID: i64 = 2;

/// What the reply to `initialize` gives the operator to see.
#[derive(Debug, PartialEq)]
pub enum HandshakeReport {
    /// Nothing: the reply is taken and its content set aside.
    Quiet,
    /// A request from the server, which should send none.
    Anomaly(Envelope),
}

pub open spec fn handshake_report_of(e: Envelope) -> HandshakeReport {
    match e {
        Envelope::Request { .. } => HandshakeReport::Anomaly(e),
        _ => HandshakeReport::Quiet,
    }
}

/// Takes the one reply read after `initialize`. No reply stops the session:
/// the handshake only has to be completed.
pub fn handshake_reply(e: Envelope) -> (r: HandshakeReport)
    ensures
        r == handshake_report_of(e),
{
    match e {
        Envelope::Request { id, method, params } => HandshakeReport::Anomaly(
            Envelope::Request { id, method, params },
        ),
        _ => HandshakeReport::Quiet,
    }
}

pub open spec fn initialize_params(p: Json) -> bool {
    p matches Json::Object(o) && o@.len() == 0
}

/// `p` is `{"commandLine": command_line}`.
pub open spec fn exec_params(p: Json, command_line: Seq<char>) -> bool {
    match p {
        Json::Object(o) => o@.len() == 1 && o@[0].0@ == "commandLine"@ && (o@[0].1 matches Json::Str(
            c,
        ) && c@ == command_line),
        _ => false,
    }
}

/// The framed `initialize` request, with id 1 and empty parameters.
pub fn initialize_request() -> (r: Option<Vec<u8>>)
    ensures
        exists|j: Json, p: Json|
            #[trigger] is_request(j, INITIALIZE_ID, "initialize"@, p) && initialize_params(p)
                && frames_json(r, j),
{
    let params = Json::Object(Vec::new());
    make_request(INITIALIZE_ID, "initialize", params)
}

/// The framed `sbt/exec` request, with id 2, that submits `command_line`.
pub fn exec_request(command_line: &str) -> (r: Option<Vec<u8>>)
    ensures
        exists|j: Json, p: Json|
            #[trigger] is_request(j, EXEC_ID, "sbt/exec"@, p) && exec_params(p, command_line@)
                && frames_json(r, j),
{
    let params = Json::Object(vec![("commandLine".to_owned(), Json::Str(command_line.to_owned()))]);
    make_request(EXEC_ID, "sbt/exec", params)
}

/// A session whose handshake is answered by a notification, and whose
/// command is answered by a log of `Exited with code 0` and then one of
/// `Done`, neither at error severity, shows nothing for the handshake and
/// ends in success.
pub proof fn lemma_session_success(
    reply: Envelope,
    e1: Envelope,
    e2: Envelope,
    l1: i64,
    l2: i64,
)
    requires
        reply is Notification,
        l1 != ERROR_LEVEL,
        l2 != ERROR_LEVEL,
        is_log(e1, l1, exited_ok_text()),
        is_log(e2, l2, done_text()),
    ensures
        handshake_report_of(reply) == HandshakeReport::Quiet,
        run(initial_state(), seq![e1, e2], EXEC_ID) == Progress::Finished(SessionOutcome::Success),
{
    lemma_success_path(e1, e2, l1, l2, EXEC_ID);
}

} // verus!
