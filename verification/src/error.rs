use vstd::prelude::*;
use crate::text::{concat2, owned};

verus! {

/// Errors of the shared library, each carrying its human readable detail.
#[derive(Debug, Clone)]
pub enum RcwError {
    MissingConfig(String),
    InvalidConfig(String),
    Protocol(String),
    Io(String),
    Json(String),
    Url(String),
    Other(String),
}

/// The variant of an [`RcwError`], without its detail.
#[derive(Debug, Clone, Copy, PartialEq, Eq, Structural)]
pub enum RcwErrorKind {
    MissingConfig,
    InvalidConfig,
    Protocol,
    Io,
    Json,
    Url,
    Other,
}

impl View for RcwError {
    type V = (RcwErrorKind, Seq<char>);

    open spec fn view(&self) -> (RcwErrorKind, Seq<char>) {
        match self {
            RcwError::MissingConfig(m) => (RcwErrorKind::MissingConfig, m@),
            RcwError::InvalidConfig(m) => (RcwErrorKind::InvalidConfig, m@),
            RcwError::Protocol(m) => (RcwErrorKind::Protocol, m@),
            RcwError::Io(m) => (RcwErrorKind::Io, m@),
            RcwError::Json(m) => (RcwErrorKind::Json, m@),
            RcwError::Url(m) => (RcwErrorKind::Url, m@),
            RcwError::Other(m) => (RcwErrorKind::Other, m@),
        }
    }
}

pub type RcwResult<T> = Result<T, RcwError>;

/// The text of an error as it is shown to users and recorded among the
/// causes of a failed command: a prefix naming the variant, then the detail.
pub open spec fn error_text(e: (RcwErrorKind, Seq<char>)) -> Seq<char> {
    match e.0 {
        RcwErrorKind::MissingConfig => "missing required configuration: "@ + e.1,
        RcwErrorKind::InvalidConfig => "invalid configuration: "@ + e.1,
        RcwErrorKind::Protocol => "protocol error: "@ + e.1,
        RcwErrorKind::Io => "io error: "@ + e.1,
        RcwErrorKind::Json => "json error: "@ + e.1,
        RcwErrorKind::Url => "url error: "@ + e.1,
        RcwErrorKind::Other => e.1,
    }
}

impl RcwError {
    /// The error's text (what `to_string` gives).
    pub fn to_text(&self) -> (r: String)
        ensures
            r@ == error_text(self@),
    {
        match self {
            RcwError::MissingConfig(m) => concat2("missing required configuration: ", m.as_str()),
            RcwError::InvalidConfig(m) => concat2("invalid configuration: ", m.as_str()),
            RcwError::Protocol(m) => concat2("protocol error: ", m.as_str()),
            RcwError::Io(m) => concat2("io error: ", m.as_str()),
            RcwError::Json(m) => concat2("json error: ", m.as_str()),
            RcwError::Url(m) => concat2("url error: ", m.as_str()),
            RcwError::Other(m) => owned(m.as_str()),
        }
    }
}

} // verus!
