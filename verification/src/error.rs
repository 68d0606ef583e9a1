//! Error taxonomy of the library.
//!
//! Parse errors are scoped to one listing entry or one CLI output; stream
//! consumption errors are scoped to one VM/backend pairing; rotation errors
//! propagate, since a failed deletion leaves retention unenforced.

use vstd::prelude::*;

verus! {

/// Why decoding a flat backup name failed.
#[derive(Debug, Clone, Copy, PartialEq, Eq, Structural)]
pub enum DecodeError {
    /// The name does not have exactly four separator-delimited fields.
    MalformedName,
    /// The timestamp field is not a parsable RFC 3339 instant.
    BadTimestamp,
    /// The job-kind token is not in the closed job-kind mapping.
    UnknownJobType,
}

/// Why parsing `xe` CLI output failed.
#[derive(Debug, Clone, PartialEq)]
pub enum XApiParseError {
    /// A timestamp field of the CLI output did not parse.
    TimestampParseError,
    /// A field of the CLI output had an unexpected shape.
    GenericParseError(String),
    /// The CLI returned nothing where a value was required.
    EmptyOutput,
}

/// Why a call through the `xe` CLI failed.
#[derive(Debug, Clone, PartialEq)]
pub enum XApiCliError {
    /// `xe` ran but snapshot creation failed; holds its stderr.
    SnapshotFailure(String),
    /// `xe` could not be executed at all.
    CommandExecutionError(String),
    /// `xe` ran and reported failure; holds its stderr.
    CommandFailed(String),
    /// `xe` ran but its stdout could not be parsed.
    XApiParseError(XApiParseError),
}

/// Hypervisor collaborator failure as the job engine sees it.
#[derive(Debug, Clone, PartialEq)]
pub enum XApiError {
    XApiCliError(XApiCliError),
}

/// Why a storage backend operation failed.
#[derive(Debug, Clone, PartialEq)]
pub enum StorageError {
    /// Preparing the backend failed; fatal for the run.
    Init(String),
    /// The export's error stream was non-empty, or the write failed; holds
    /// the error text.  The partial artifact has been removed.
    StreamConsumption(String),
    /// Deleting an artifact during rotation failed.
    Rotation(String),
}

impl DecodeError {
    /// Human-readable rendering, for error reports.
    pub fn describe(&self) -> (r: String)
        ensures
            r@.len() > 0,
    {
        let s = match self {
            DecodeError::MalformedName => "invalid backup object name",
            DecodeError::BadTimestamp => "invalid timestamp in backup object name",
            DecodeError::UnknownJobType => "invalid job type in backup object name",
        };
        proof {
            reveal_strlit("invalid backup object name");
            reveal_strlit("invalid timestamp in backup object name");
            reveal_strlit("invalid job type in backup object name");
        }
        s.to_owned()
    }
}

/// Mathematical image of `XApiParseError`, its text payload as a sequence.
#[verifier::ext_equal]
pub enum XApiParseErrorView {
    TimestampParseError,
    GenericParseError(Seq<char>),
    EmptyOutput,
}

impl DeepView for XApiParseError {
    type V = XApiParseErrorView;

    open spec fn deep_view(&self) -> XApiParseErrorView {
        match self {
            XApiParseError::TimestampParseError => XApiParseErrorView::TimestampParseError,
            XApiParseError::GenericParseError(s) => XApiParseErrorView::GenericParseError(s@),
            XApiParseError::EmptyOutput => XApiParseErrorView::EmptyOutput,
        }
    }
}

/// Mathematical image of `XApiCliError`, its text payloads as sequences.
#[verifier::ext_equal]
pub enum XApiCliErrorView {
    SnapshotFailure(Seq<char>),
    CommandExecutionError(Seq<char>),
    CommandFailed(Seq<char>),
    XApiParseError(XApiParseErrorView),
}

impl DeepView for XApiCliError {
    type V = XApiCliErrorView;

    open spec fn deep_view(&self) -> XApiCliErrorView {
        match self {
            XApiCliError::SnapshotFailure(s) => XApiCliErrorView::SnapshotFailure(s@),
            XApiCliError::CommandExecutionError(s) => XApiCliErrorView::CommandExecutionError(
                s@,
            ),
            XApiCliError::CommandFailed(s) => XApiCliErrorView::CommandFailed(s@),
            XApiCliError::XApiParseError(p) => XApiCliErrorView::XApiParseError(p.deep_view()),
        }
    }
}

/// The rendered text of `e`.
pub open spec fn parse_err_text(e: XApiParseErrorView) -> Seq<char> {
    match e {
        XApiParseErrorView::TimestampParseError => "Failed to parse xen timestamp"@,
        XApiParseErrorView::GenericParseError(s) => "Failed to parse xen output: "@ + s,
        XApiParseErrorView::EmptyOutput => "Empty output"@,
    }
}

/// The rendered text of `e`.
pub open spec fn cli_err_text(e: XApiCliErrorView) -> Seq<char> {
    match e {
        XApiCliErrorView::SnapshotFailure(s) => "Failed to create snapshot: "@ + s,
        XApiCliErrorView::CommandExecutionError(s) => "'xe' command could not be executed: "@
            + s,
        XApiCliErrorView::CommandFailed(s) => "'xe' cli-command failed: "@ + s,
        XApiCliErrorView::XApiParseError(p) => "Failed to parse cli stdout to struct: "@
            + parse_err_text(p),
    }
}

impl XApiParseError {
    /// Human-readable rendering, for error reports.
    pub fn describe(&self) -> (r: String)
        ensures
            r@ == parse_err_text(self.deep_view()),
    {
        match self {
            XApiParseError::TimestampParseError => "Failed to parse xen timestamp".to_owned(),
            XApiParseError::GenericParseError(s) => {
                let mut m = String::new();
                m.append("Failed to parse xen output: ");
                m.append(s.as_str());
                proof {
                    assert(m@ =~= parse_err_text(self.deep_view()));
                }
                m
            },
            XApiParseError::EmptyOutput => "Empty output".to_owned(),
        }
    }
}

impl XApiCliError {
    /// Human-readable rendering, for error reports.
    pub fn describe(&self) -> (r: String)
        ensures
            r@ == cli_err_text(self.deep_view()),
    {
        let mut m = String::new();
        match self {
            XApiCliError::SnapshotFailure(s) => {
                m.append("Failed to create snapshot: ");
                m.append(s.as_str());
            },
            XApiCliError::CommandExecutionError(s) => {
                m.append("'xe' command could not be executed: ");
                m.append(s.as_str());
            },
            XApiCliError::CommandFailed(s) => {
                m.append("'xe' cli-command failed: ");
                m.append(s.as_str());
            },
            XApiCliError::XApiParseError(p) => {
                m.append("Failed to parse cli stdout to struct: ");
                let inner = p.describe();
                m.append(inner.as_str());
            },
        }
        proof {
            assert(m@ =~= cli_err_text(self.deep_view()));
        }
        m
    }
}

} // verus!
