//! What can go wrong while a report is read.

use vstd::prelude::*;
use crate::text::{decimal, push_decimal};

verus! {

/// Why the head of a report could not be read.
#[derive(Debug)]
pub enum HeaderFault {
    /// The report has no line that is not blank.
    Empty,
    /// The report declares a version of the format other than `1`.
    VersionMismatch { version: String },
    /// The report has no `events` line.
    MissingEvents,
    /// The `events` line names something that is no kind of event.
    UnknownEvent { name: String },
    /// The `events` line names a kind twice.
    DuplicateEvent { name: String },
}

/// What a `HeaderFault` holds.
pub enum HeaderFaultView {
    Empty,
    VersionMismatch { version: Seq<char> },
    MissingEvents,
    UnknownEvent { name: Seq<char> },
    DuplicateEvent { name: Seq<char> },
}

impl View for HeaderFault {
    type V = HeaderFaultView;

    open spec fn view(&self) -> HeaderFaultView {
        match self {
            HeaderFault::Empty => HeaderFaultView::Empty,
            HeaderFault::VersionMismatch { version } => HeaderFaultView::VersionMismatch {
                version: version@,
            },
            HeaderFault::MissingEvents => HeaderFaultView::MissingEvents,
            HeaderFault::UnknownEvent { name } => HeaderFaultView::UnknownEvent { name: name@ },
            HeaderFault::DuplicateEvent { name } => HeaderFaultView::DuplicateEvent { name: name@ },
        }
    }
}

impl HeaderFaultView {
    /// The fault in words.
    pub open spec fn message(self) -> Seq<char> {
        match self {
            HeaderFaultView::Empty => "Empty file"@,
            HeaderFaultView::VersionMismatch { version } => "Version mismatch: Requires version '1' but was '"@
                + version + "'"@,
            HeaderFaultView::MissingEvents => "Header field 'events' must be present"@,
            HeaderFaultView::UnknownEvent { name } => "Unknown event type: "@ + name,
            HeaderFaultView::DuplicateEvent { name } => "Duplicate event type: "@ + name,
        }
    }
}

impl HeaderFault {
    /// The fault in words.
    pub fn to_string(&self) -> (r: String)
        ensures
            r@ == self@.message(),
    {
        match self {
            HeaderFault::Empty => String::from_str("Empty file"),
            HeaderFault::VersionMismatch { version } => {
                let mut out = String::from_str("Version mismatch: Requires version '1' but was '");
                out.append(version.as_str());
                out.append("'");
                out
            },
            HeaderFault::MissingEvents => String::from_str("Header field 'events' must be present"),
            HeaderFault::UnknownEvent { name } => {
                let mut out = String::from_str("Unknown event type: ");
                out.append(name.as_str());
                out
            },
            HeaderFault::DuplicateEvent { name } => {
                let mut out = String::from_str("Duplicate event type: ");
                out.append(name.as_str());
                out
            },
        }
    }
}

/// Why a report gave no costs. Each error names the report by its label.
#[derive(Debug)]
pub enum Error {
    /// The head of the report could not be read.
    HeaderParseError { label: String, fault: HeaderFault },
    /// A cost line of the function sought holds a token that writes no
    /// counter. `line` counts the lines of the report from one.
    MalformedCostLine { label: String, line: usize, token: String },
    /// The report has no record of the function sought.
    SentinelNotFound { label: String, sentinel: String },
}

/// What an `Error` holds.
pub enum ErrorView {
    HeaderParseError { label: Seq<char>, fault: HeaderFaultView },
    MalformedCostLine { label: Seq<char>, line: int, token: Seq<char> },
    SentinelNotFound { label: Seq<char>, sentinel: Seq<char> },
}

impl View for Error {
    type V = ErrorView;

    open spec fn view(&self) -> ErrorView {
        match self {
            Error::HeaderParseError { label, fault } => ErrorView::HeaderParseError {
                label: label@,
                fault: fault@,
            },
            Error::MalformedCostLine { label, line, token } => ErrorView::MalformedCostLine {
                label: label@,
                line: *line as int,
                token: token@,
            },
            Error::SentinelNotFound { label, sentinel } => ErrorView::SentinelNotFound {
                label: label@,
                sentinel: sentinel@,
            },
        }
    }
}

impl ErrorView {
    /// The label of the report that the error is about.
    pub open spec fn label(self) -> Seq<char> {
        match self {
            ErrorView::HeaderParseError { label, .. } => label,
            ErrorView::MalformedCostLine { label, .. } => label,
            ErrorView::SentinelNotFound { label, .. } => label,
        }
    }

    /// The cause in words, without the label.
    pub open spec fn cause(self) -> Seq<char> {
        match self {
            ErrorView::HeaderParseError { fault, .. } => fault.message(),
            ErrorView::MalformedCostLine { line, token, .. } => "Malformed cost line "@ + decimal(
                line as nat,
            ) + ": '"@ + token + "' is not a counter"@,
            ErrorView::SentinelNotFound { sentinel, .. } => "Sentinel '"@ + sentinel
                + "' not found"@,
        }
    }

    /// The error in words.
    pub open spec fn message(self) -> Seq<char> {
        "Error parsing file '"@ + self.label() + "': "@ + self.cause()
    }
}

impl Error {
    /// The label of the report that the error is about.
    pub fn label(&self) -> (r: &str)
        ensures
            r@ == self@.label(),
    {
        match self {
            Error::HeaderParseError { label, .. } => label.as_str(),
            Error::MalformedCostLine { label, .. } => label.as_str(),
            Error::SentinelNotFound { label, .. } => label.as_str(),
        }
    }

    /// The cause in words, without the label.
    pub fn cause(&self) -> (r: String)
        ensures
            r@ == self@.cause(),
    {
        match self {
            Error::HeaderParseError { fault, .. } => fault.to_string(),
            Error::MalformedCostLine { line, token, .. } => {
                let mut out = String::from_str("Malformed cost line ");
                push_decimal(&mut out, *line as u128);
                out.append(": '");
                out.append(token.as_str());
                out.append("' is not a counter");
                out
            },
            Error::SentinelNotFound { sentinel, .. } => {
                let mut out = String::from_str("Sentinel '");
                out.append(sentinel.as_str());
                out.append("' not found");
                out
            },
        }
    }

    /// The error in words.
    pub fn to_string(&self) -> (r: String)
        ensures
            r@ == self@.message(),
    {
        let mut out = String::from_str("Error parsing file '");
        out.append(self.label());
        out.append("': ");
        out.append(self.cause().as_str());
        out
    }
}

} // verus!
