//! The errors of the library.

use crate::strs::{cat2, cat5, cat6};
use vstd::prelude::*;

verus! {

#[derive(Debug)]
pub enum Error {
    NoWorkspaceConfig { path: String },
    NoSnapshot { date: String, snap_root: String },
    InvalidJson { date: String, file: String, source: String },
    Io(String),
    Json(String),
    Config(String),
    Meta(String),
    Secrets(String),
    Llm(String),
    LlmAuth(String),
}

/// What the message of an error says.
pub open spec fn message_of(e: Error) -> Seq<char> {
    match e {
        Error::NoWorkspaceConfig { path } => "no workspace config at "@ + path@
            + "\ncopy crates/moneyball-core/examples/example.fincity.json (or your own) and edit it."@,
        Error::NoSnapshot { date, snap_root } => "no snapshot for date "@ + date@ + " (looked in "@
            + snap_root@ + ")"@,
        Error::InvalidJson { date, file, source } => "snapshot "@ + date@ + "/"@ + file@
            + ": invalid JSON: "@ + source@,
        Error::Io(m) => "io: "@ + m@,
        Error::Json(m) => "json: "@ + m@,
        Error::Config(m) => "config: "@ + m@,
        Error::Meta(m) => "meta api: "@ + m@,
        Error::Secrets(m) => "secrets: "@ + m@,
        Error::Llm(m) => "llm: "@ + m@,
        Error::LlmAuth(m) => "llm auth: "@ + m@,
    }
}

impl Error {
    pub fn message(&self) -> (r: String)
        ensures
            r@ == message_of(*self),
    {
        match self {
            Error::NoWorkspaceConfig { path } => cat2(
                cat2("no workspace config at ", path.as_str()).as_str(),
                "\ncopy crates/moneyball-core/examples/example.fincity.json (or your own) and edit it.",
            ),
            Error::NoSnapshot { date, snap_root } => cat5(
                "no snapshot for date ",
                date.as_str(),
                " (looked in ",
                snap_root.as_str(),
                ")",
            ),
            Error::InvalidJson { date, file, source } => cat6(
                "snapshot ",
                date.as_str(),
                "/",
                file.as_str(),
                ": invalid JSON: ",
                source.as_str(),
            ),
            Error::Io(m) => cat2("io: ", m.as_str()),
            Error::Json(m) => cat2("json: ", m.as_str()),
            Error::Config(m) => cat2("config: ", m.as_str()),
            Error::Meta(m) => cat2("meta api: ", m.as_str()),
            Error::Secrets(m) => cat2("secrets: ", m.as_str()),
            Error::Llm(m) => cat2("llm: ", m.as_str()),
            Error::LlmAuth(m) => cat2("llm auth: ", m.as_str()),
        }
    }
}

} // verus!
