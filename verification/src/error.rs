//! The error type, its stable `kind` names, and the exit-code contract.
//!
//! Errors are reported by the command-line tool as a structured envelope
//! `{"error":{"kind":...,"message":...,"exit_code":...,"hint":...}}`; every kind
//! here is declared in the tool's schema.

use vstd::prelude::*;
use crate::json::{Json, jget, lemma_find_key_at, lemma_find_key_none, oget, onum, ostr};
use crate::text::{dec_int, dec_int_string};

verus! {

#[derive(Debug, Clone, PartialEq, Eq)]
pub enum Error {
    /// Invalid command-line arguments.
    Usage { message: String },
    /// A device name was not found in the cache.
    NotFound { message: String },
    /// The device required authentication we did not have or that was rejected.
    Auth { message: String },
    /// The device was unreachable, timed out, or the transport failed.
    Network { message: String },
    /// The device answered HTTP 200 but rejected the command in the JSON body.
    CommandRejected { command: String, message: String },
    /// A device response did not have the shape required to answer the query.
    Parse { message: String },
    /// A local file operation failed (device cache, backup file).
    Io { message: String },
    /// The requested datum is genuinely not available from the device.
    Unavailable { message: String },
    /// The user declined a confirmation prompt for a destructive operation.
    Aborted { message: String },
}

/// The mathematical value of an [`Error`].
pub enum ErrorView {
    Usage(Seq<char>),
    NotFound(Seq<char>),
    Auth(Seq<char>),
    Network(Seq<char>),
    CommandRejected(Seq<char>, Seq<char>),
    Parse(Seq<char>),
    Io(Seq<char>),
    Unavailable(Seq<char>),
    Aborted(Seq<char>),
}

impl View for Error {
    type V = ErrorView;

    open spec fn view(&self) -> ErrorView {
        match self {
            Error::Usage { message } => ErrorView::Usage(message@),
            Error::NotFound { message } => ErrorView::NotFound(message@),
            Error::Auth { message } => ErrorView::Auth(message@),
            Error::Network { message } => ErrorView::Network(message@),
            Error::CommandRejected { command, message } => ErrorView::CommandRejected(
                command@,
                message@,
            ),
            Error::Parse { message } => ErrorView::Parse(message@),
            Error::Io { message } => ErrorView::Io(message@),
            Error::Unavailable { message } => ErrorView::Unavailable(message@),
            Error::Aborted { message } => ErrorView::Aborted(message@),
        }
    }
}

/// The stable snake_case identifier of an error.
pub open spec fn kind_name(e: ErrorView) -> Seq<char> {
    match e {
        ErrorView::Usage(_) => "usage"@,
        ErrorView::NotFound(_) => "not_found"@,
        ErrorView::Auth(_) => "auth"@,
        ErrorView::Network(_) => "network"@,
        ErrorView::CommandRejected(_, _) => "command_rejected"@,
        ErrorView::Parse(_) => "parse"@,
        ErrorView::Io(_) => "io"@,
        ErrorView::Unavailable(_) => "unavailable"@,
        ErrorView::Aborted(_) => "aborted"@,
    }
}

/// The process exit code of an error.
pub open spec fn exit_code_of(e: ErrorView) -> i32 {
    match e {
        ErrorView::Io(_) => 1,
        ErrorView::Aborted(_) => 2,
        ErrorView::Usage(_) => 3,
        ErrorView::NotFound(_) => 4,
        ErrorView::Auth(_) => 5,
        ErrorView::Network(_) => 6,
        ErrorView::CommandRejected(_, _) => 7,
        ErrorView::Parse(_) => 8,
        ErrorView::Unavailable(_) => 9,
    }
}

/// The remediation hint of an error, when there is one.
pub open spec fn hint_of(e: ErrorView) -> Option<Seq<char>> {
    match e {
        ErrorView::Usage(_) => Some("see `tasmota --help` or `tasmota schema`"@),
        ErrorView::NotFound(_) => Some(
            "run `tasmota discover` first, or target with `--host <ip>`"@,
        ),
        ErrorView::Auth(_) => Some(
            "pass `--user`/`--password`, or set TASMOTA_USER / TASMOTA_PASSWORD"@,
        ),
        ErrorView::Network(_) => Some("check the device is powered and on the network"@),
        _ => None,
    }
}

/// The human-readable message of an error.
pub open spec fn message_of(e: ErrorView) -> Seq<char> {
    match e {
        ErrorView::CommandRejected(command, message) => "device rejected command `"@ + command
            + "`: "@ + message,
        ErrorView::Usage(m) => m,
        ErrorView::NotFound(m) => m,
        ErrorView::Auth(m) => m,
        ErrorView::Network(m) => m,
        ErrorView::Parse(m) => m,
        ErrorView::Io(m) => m,
        ErrorView::Unavailable(m) => m,
        ErrorView::Aborted(m) => m,
    }
}

impl Error {
    /// Stable snake_case identifier consumers branch on (the schema `errors` set).
    pub fn kind(&self) -> (r: &'static str)
        ensures
            r@ == kind_name(self@),
    {
        match self {
            Error::Usage { .. } => "usage",
            Error::NotFound { .. } => "not_found",
            Error::Auth { .. } => "auth",
            Error::Network { .. } => "network",
            Error::CommandRejected { .. } => "command_rejected",
            Error::Parse { .. } => "parse",
            Error::Io { .. } => "io",
            Error::Unavailable { .. } => "unavailable",
            Error::Aborted { .. } => "aborted",
        }
    }

    /// Actionable remediation, when there is one.
    pub fn hint(&self) -> (r: Option<&'static str>)
        ensures
            match r {
                Some(h) => hint_of(self@) == Some(h@),
                None => hint_of(self@) is None,
            },
    {
        match self {
            Error::Usage { .. } => Some("see `tasmota --help` or `tasmota schema`"),
            Error::NotFound { .. } => Some(
                "run `tasmota discover` first, or target with `--host <ip>`",
            ),
            Error::Auth { .. } => Some(
                "pass `--user`/`--password`, or set TASMOTA_USER / TASMOTA_PASSWORD",
            ),
            Error::Network { .. } => Some("check the device is powered and on the network"),
            _ => None,
        }
    }

    /// The process exit code associated with this error.
    pub fn exit_code(&self) -> (r: i32)
        ensures
            r == exit_code_of(self@),
    {
        match self {
            Error::Io { .. } => 1,
            Error::Aborted { .. } => 2,
            Error::Usage { .. } => 3,
            Error::NotFound { .. } => 4,
            Error::Auth { .. } => 5,
            Error::Network { .. } => 6,
            Error::CommandRejected { .. } => 7,
            Error::Parse { .. } => 8,
            Error::Unavailable { .. } => 9,
        }
    }

    /// The human-readable message (what the error displays as).
    pub fn message(&self) -> (r: String)
        ensures
            r@ == message_of(self@),
    {
        match self {
            Error::CommandRejected { command, message } => {
                let mut s = String::from_str("device rejected command `");
                s.append(command.as_str());
                s.append("`: ");
                s.append(message.as_str());
                s
            },
            Error::Usage { message } => message.clone(),
            Error::NotFound { message } => message.clone(),
            Error::Auth { message } => message.clone(),
            Error::Network { message } => message.clone(),
            Error::Parse { message } => message.clone(),
            Error::Io { message } => message.clone(),
            Error::Unavailable { message } => message.clone(),
            Error::Aborted { message } => message.clone(),
        }
    }
}

/// The inner object of an error envelope.
pub open spec fn envelope_body(r: Json) -> Option<Json> {
    jget(r, "error"@)
}

impl Error {
    /// The structured envelope the tool reports an error in:
    /// `{"error":{"exit_code":..,"hint":..,"kind":..,"message":..}}`, the hint only
    /// when the error has one.
    pub fn envelope(&self) -> (r: Json)
        ensures
            ostr(oget(envelope_body(r), "kind"@)) == Some(kind_name(self@)),
            ostr(oget(envelope_body(r), "message"@)) == Some(message_of(self@)),
            onum(oget(envelope_body(r), "exit_code"@)) == Some(dec_int(exit_code_of(self@) as int)),
            ostr(oget(envelope_body(r), "hint"@)) == hint_of(self@),
            oget(envelope_body(r), "hint"@) is Some <==> hint_of(self@) is Some,
            envelope_body(r) matches Some(Json::Object(es)) && es@.len() == if hint_of(
                self@,
            ) is Some {
                4nat
            } else {
                3nat
            },
    {
        let mut es: Vec<(String, Json)> = Vec::new();
        es.push((String::from_str("exit_code"), Json::Number(dec_int_string(self.exit_code() as i64))));
        let hint = self.hint();
        match hint {
            Some(h) => es.push((String::from_str("hint"), Json::Str(String::from_str(h)))),
            None => {},
        }
        es.push((String::from_str("kind"), Json::Str(String::from_str(self.kind()))));
        es.push((String::from_str("message"), Json::Str(self.message())));
        proof {
            reveal_strlit("exit_code");
            reveal_strlit("hint");
            reveal_strlit("kind");
            reveal_strlit("message");
            let n = es@.len() as int;
            assert("hint"@[0] != "kind"@[0]);
            assert(es@[0].0@.len() != "kind"@.len());
            assert(forall|j: int| 0 <= j < n - 2 ==> (#[trigger] es@[j]).0@ != "kind"@);
            assert(forall|j: int|
                0 <= j < n - 1 ==> (#[trigger] es@[j]).0@.len() != "message"@.len());
            lemma_find_key_at(es@, "exit_code"@, 0);
            lemma_find_key_at(es@, "kind"@, n - 2);
            lemma_find_key_at(es@, "message"@, n - 1);
            if hint is Some {
                lemma_find_key_at(es@, "hint"@, 1);
            } else {
                assert(forall|j: int| 0 <= j < n ==> (#[trigger] es@[j]).0@ != "hint"@);
                lemma_find_key_none(es@, "hint"@);
            }
        }
        let body = Json::Object(es);
        let mut outer: Vec<(String, Json)> = Vec::new();
        outer.push((String::from_str("error"), body));
        proof {
            reveal_strlit("error");
            lemma_find_key_at(outer@, "error"@, 0);
        }
        Json::Object(outer)
    }
}

/// Each error kind has its own exit code, and the exit code determines the kind.
pub proof fn exit_code_identifies_kind(a: Error, b: Error)
    ensures
        (exit_code_of(a@) == exit_code_of(b@)) <==> (kind_name(a@) == kind_name(b@)),
        1 <= exit_code_of(a@) <= 9,
{
    reveal_strlit("usage");
    reveal_strlit("not_found");
    reveal_strlit("auth");
    reveal_strlit("network");
    reveal_strlit("command_rejected");
    reveal_strlit("parse");
    reveal_strlit("io");
    reveal_strlit("unavailable");
    reveal_strlit("aborted");
    let ka = kind_name(a@);
    let kb = kind_name(b@);
    if ka == kb {
        assert(ka.len() == kb.len() && ka[0] == kb[0]);
    }
}

/// The exit codes of the tool's contract: `io` 1, `aborted` 2, `usage` 3, `not_found`
/// 4, `auth` 5, `network` 6, `command_rejected` 7, `parse` 8, `unavailable` 9.
pub proof fn exit_codes_follow_the_contract(e: Error)
    ensures
        kind_name(e@) == "usage"@ ==> exit_code_of(e@) == 3,
        kind_name(e@) == "not_found"@ ==> exit_code_of(e@) == 4,
        kind_name(e@) == "auth"@ ==> exit_code_of(e@) == 5,
        kind_name(e@) == "network"@ ==> exit_code_of(e@) == 6,
        kind_name(e@) == "command_rejected"@ ==> exit_code_of(e@) == 7,
        kind_name(e@) == "parse"@ ==> exit_code_of(e@) == 8,
        kind_name(e@) == "io"@ ==> exit_code_of(e@) == 1,
        kind_name(e@) == "unavailable"@ ==> exit_code_of(e@) == 9,
        kind_name(e@) == "aborted"@ ==> exit_code_of(e@) == 2,
{
    reveal_strlit("usage");
    reveal_strlit("not_found");
    reveal_strlit("auth");
    reveal_strlit("network");
    reveal_strlit("command_rejected");
    reveal_strlit("parse");
    reveal_strlit("io");
    reveal_strlit("unavailable");
    reveal_strlit("aborted");
    match e@ {
        ErrorView::Usage(_) => {
            assert("usage"@.len() != "not_found"@.len());
            assert("usage"@.len() != "auth"@.len());
            assert("usage"@.len() != "network"@.len());
            assert("usage"@.len() != "command_rejected"@.len());
            assert("usage"@[0] != "parse"@[0]);
            assert("usage"@.len() != "io"@.len());
            assert("usage"@.len() != "unavailable"@.len());
            assert("usage"@.len() != "aborted"@.len());
        },
        ErrorView::NotFound(_) => {
            assert("not_found"@.len() != "usage"@.len());
            assert("not_found"@.len() != "auth"@.len());
            assert("not_found"@.len() != "network"@.len());
            assert("not_found"@.len() != "command_rejected"@.len());
            assert("not_found"@.len() != "parse"@.len());
            assert("not_found"@.len() != "io"@.len());
            assert("not_found"@.len() != "unavailable"@.len());
            assert("not_found"@.len() != "aborted"@.len());
        },
        ErrorView::Auth(_) => {
            assert("auth"@.len() != "usage"@.len());
            assert("auth"@.len() != "not_found"@.len());
            assert("auth"@.len() != "network"@.len());
            assert("auth"@.len() != "command_rejected"@.len());
            assert("auth"@.len() != "parse"@.len());
            assert("auth"@.len() != "io"@.len());
            assert("auth"@.len() != "unavailable"@.len());
            assert("auth"@.len() != "aborted"@.len());
        },
        ErrorView::Network(_) => {
            assert("network"@.len() != "usage"@.len());
            assert("network"@.len() != "not_found"@.len());
            assert("network"@.len() != "auth"@.len());
            assert("network"@.len() != "command_rejected"@.len());
            assert("network"@.len() != "parse"@.len());
            assert("network"@.len() != "io"@.len());
            assert("network"@.len() != "unavailable"@.len());
            assert("network"@[0] != "aborted"@[0]);
        },
        ErrorView::CommandRejected(_, _) => {
            assert("command_rejected"@.len() != "usage"@.len());
            assert("command_rejected"@.len() != "not_found"@.len());
            assert("command_rejected"@.len() != "auth"@.len());
            assert("command_rejected"@.len() != "network"@.len());
            assert("command_rejected"@.len() != "parse"@.len());
            assert("command_rejected"@.len() != "io"@.len());
            assert("command_rejected"@.len() != "unavailable"@.len());
            assert("command_rejected"@.len() != "aborted"@.len());
        },
        ErrorView::Parse(_) => {
            assert("parse"@[0] != "usage"@[0]);
            assert("parse"@.len() != "not_found"@.len());
            assert("parse"@.len() != "auth"@.len());
            assert("parse"@.len() != "network"@.len());
            assert("parse"@.len() != "command_rejected"@.len());
            assert("parse"@.len() != "io"@.len());
            assert("parse"@.len() != "unavailable"@.len());
            assert("parse"@.len() != "aborted"@.len());
        },
        ErrorView::Io(_) => {
            assert("io"@.len() != "usage"@.len());
            assert("io"@.len() != "not_found"@.len());
            assert("io"@.len() != "auth"@.len());
            assert("io"@.len() != "network"@.len());
            assert("io"@.len() != "command_rejected"@.len());
            assert("io"@.len() != "parse"@.len());
            assert("io"@.len() != "unavailable"@.len());
            assert("io"@.len() != "aborted"@.len());
        },
        ErrorView::Unavailable(_) => {
            assert("unavailable"@.len() != "usage"@.len());
            assert("unavailable"@.len() != "not_found"@.len());
            assert("unavailable"@.len() != "auth"@.len());
            assert("unavailable"@.len() != "network"@.len());
            assert("unavailable"@.len() != "command_rejected"@.len());
            assert("unavailable"@.len() != "parse"@.len());
            assert("unavailable"@.len() != "io"@.len());
            assert("unavailable"@.len() != "aborted"@.len());
        },
        ErrorView::Aborted(_) => {
            assert("aborted"@.len() != "usage"@.len());
            assert("aborted"@.len() != "not_found"@.len());
            assert("aborted"@.len() != "auth"@.len());
            assert("aborted"@[0] != "network"@[0]);
            assert("aborted"@.len() != "command_rejected"@.len());
            assert("aborted"@.len() != "parse"@.len());
            assert("aborted"@.len() != "io"@.len());
            assert("aborted"@.len() != "unavailable"@.len());
        },
    }
}

} // verus!
