//! The companion CLI's logic: command-line model, OUI lookups, status and
//! reply handling, and splitting the device's output into files.
use vstd::prelude::*;
use crate::error::{error_text, Error as ProtoError};
use crate::text::owned;
use crate::error::prefixed;

pub mod cli;
pub mod io_util;
pub mod oui;
pub mod session;
pub mod setup;
pub mod vendor_regex;

verus! {

/// Every way a CLI operation can fail.
#[derive(Debug, Clone, PartialEq, Eq)]
pub enum Error {
    Proto(ProtoError),
    Msg(String),
    Io(String),
    Serial(String),
    Json(String),
    Regex(String),
}

/// The text an error prints.
pub open spec fn host_error_text(e: Error) -> Seq<char> {
    match e {
        Error::Proto(p) => error_text(p),
        Error::Msg(m) => m@,
        Error::Io(m) => "io: "@ + m@,
        Error::Serial(m) => "serial: "@ + m@,
        Error::Json(m) => "json: "@ + m@,
        Error::Regex(m) => "invalid regex: "@ + m@,
    }
}

impl Error {
    /// A plain message.
    pub fn msg(m: &str) -> (e: Self)
        ensures
            e matches Error::Msg(s) && s@ == m@,
    {
        Error::Msg(owned(m))
    }

    /// The message this error prints (the `Display` text).
    pub fn message(&self) -> (s: String)
        ensures
            s@ == host_error_text(*self),
    {
        match self {
            Error::Proto(p) => p.message(),
            Error::Msg(m) => m.clone(),
            Error::Io(m) => prefixed("io: ", m),
            Error::Serial(m) => prefixed("serial: ", m),
            Error::Json(m) => prefixed("json: ", m),
            Error::Regex(m) => prefixed("invalid regex: ", m),
        }
    }
}

impl From<ProtoError> for Error {
    fn from(e: ProtoError) -> (r: Self) {
        Error::Proto(e)
    }
}

impl vstd::std_specs::convert::FromSpecImpl<ProtoError> for Error {
    open spec fn obeys_from_spec() -> bool {
        true
    }

    open spec fn from_spec(v: ProtoError) -> Self {
        Error::Proto(v)
    }
}

} // verus!
