//! Errors of the protocol layer.
use vstd::prelude::*;
use crate::text::{owned, push_str};

verus! {

/// Every way a protocol operation can fail.
#[derive(Debug, Clone, PartialEq, Eq)]
pub enum Error {
    Json(String),
    UnknownCommand,
    UnknownEvent,
    Config(String),
    Mac(String),
    Hopmask(String),
    Regex(String),
    ShortFrame,
    TruncatedFrame,
    BadMagic,
}

/// The human-readable text of an error.
pub open spec fn error_text(e: Error) -> Seq<char> {
    match e {
        Error::Json(m) => "invalid json: "@ + m@,
        Error::UnknownCommand => "unknown command"@,
        Error::UnknownEvent => "unknown event"@,
        Error::Config(m) => m@,
        Error::Mac(m) => "invalid mac: "@ + m@,
        Error::Hopmask(m) => "invalid hopmask: "@ + m@,
        Error::Regex(m) => "invalid regex: "@ + m@,
        Error::ShortFrame => "short 802.11 frame"@,
        Error::TruncatedFrame => "truncated pcap frame"@,
        Error::BadMagic => "bad pcap magic"@,
    }
}

impl Error {
    /// A configuration error carrying `msg`.
    pub fn config(msg: &str) -> (e: Self)
        ensures
            e matches Error::Config(m) && m@ == msg@,
    {
        Error::Config(owned(msg))
    }

    /// The message this error prints (the `Display` text).
    pub fn message(&self) -> (s: String)
        ensures
            s@ == error_text(*self),
    {
        match self {
            Error::Json(m) => prefixed("invalid json: ", m),
            Error::UnknownCommand => owned("unknown command"),
            Error::UnknownEvent => owned("unknown event"),
            Error::Config(m) => m.clone(),
            Error::Mac(m) => prefixed("invalid mac: ", m),
            Error::Hopmask(m) => prefixed("invalid hopmask: ", m),
            Error::Regex(m) => prefixed("invalid regex: ", m),
            Error::ShortFrame => owned("short 802.11 frame"),
            Error::TruncatedFrame => owned("truncated pcap frame"),
            Error::BadMagic => owned("bad pcap magic"),
        }
    }
}

/// `head` followed by `tail`.
pub fn prefixed(head: &str, tail: &String) -> (s: String)
    ensures
        s@ == head@ + tail@,
{
    let mut s = owned(head);
    push_str(&mut s, tail.as_str());
    s
}

} // verus!
