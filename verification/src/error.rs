//! The project's single error type.

use vstd::prelude::*;
use vstd::string::*;

verus! {

/// `std::io::Error`, carried inside [`Error::Io`] as an opaque value.
#[verifier::external_type_specification]
#[verifier::external_body]
pub struct ExIoError(std::io::Error);

/// Errors returned by every layer of the project.
#[derive(Debug)]
pub enum Error {
    Io(std::io::Error),
    Invite(String),
    Config(String),
    Protocol(String),
    Signal(String),
    Net(String),
    Tunnel(String),
    /// A refusal from the coordinator: the numeric code travels separately from
    /// the human-readable reason, so decisions are taken on the code.
    Refused { code: u16, reason: String },
    Other(String),
}

pub type Result<T> = core::result::Result<T, Error>;

impl Error {
    /// A catch-all error carrying a message.
    pub fn other(msg: String) -> (e: Error)
        ensures
            e matches Error::Other(m) && m@ == msg@,
    {
        Error::Other(msg)
    }

    /// The coordinator's refusal code, if this error is a refusal.
    pub fn refusal_code(&self) -> (c: Option<u16>)
        ensures
            c == (match self {
                Error::Refused { code, .. } => Some(*code),
                _ => None::<u16>,
            }),
    {
        match self {
            Error::Refused { code, .. } => Some(*code),
            _ => None,
        }
    }

    /// What the error says to a person (its text without the kind, for a
    /// refusal only the reason). An I/O error's own text comes from the
    /// system and is not described here.
    pub fn message(&self) -> (m: String)
        ensures
            match self {
                Error::Invite(t) => m@ == "код-приглашение: "@ + t@,
                Error::Config(t) => m@ == "конфиг: "@ + t@,
                Error::Protocol(t) => m@ == "протокол: "@ + t@,
                Error::Signal(t) => m@ == "знакомство/сигналинг: "@ + t@,
                Error::Net(t) => m@ == "сеть/NAT: "@ + t@,
                Error::Tunnel(t) => m@ == "туннель: "@ + t@,
                Error::Refused { reason, .. } => m@ == reason@,
                Error::Other(t) => m@ == t@,
                Error::Io(_) => exists|t: Seq<char>| m@ == "ввод-вывод: "@ + t,
            },
    {
        match self {
            Error::Io(e) => {
                let t = io_error_text(e);
                let m = prefixed("ввод-вывод: ", &t);
                assert(m@ == "ввод-вывод: "@ + t@);
                m
            },
            Error::Invite(t) => prefixed("код-приглашение: ", t),
            Error::Config(t) => prefixed("конфиг: ", t),
            Error::Protocol(t) => prefixed("протокол: ", t),
            Error::Signal(t) => prefixed("знакомство/сигналинг: ", t),
            Error::Net(t) => prefixed("сеть/NAT: ", t),
            Error::Tunnel(t) => prefixed("туннель: ", t),
            Error::Refused { reason, .. } => reason.clone(),
            Error::Other(t) => t.clone(),
        }
    }
}

fn prefixed(p: &str, t: &String) -> (m: String)
    ensures
        m@ == p@ + t@,
{
    let mut m = String::from_str(p);
    m.append(t.as_str());
    m
}

/// The system's text for an I/O error (`Display` of `std::io::Error`). It
/// depends on the platform and its language, so nothing is promised of it.
#[verifier::external_body]
fn io_error_text(e: &std::io::Error) -> String {
    format!("{e}")
}

} // verus!
