//! The calls of the service, and what can go wrong with them.
use vstd::prelude::*;

verus! {

/// Errors of the standard library's I/O traits, carried through unread.
#[verifier::external_type_specification]
#[verifier::external_body]
pub struct ExIoError(std::io::Error);

/// The calls of the service that report a failed status by name.
#[derive(Clone, Copy, Debug, PartialEq, Eq, Structural)]
pub enum Call {
    StreamCpp,
    RecordCppFate,
    RefreshTabContext,
    FsSyncFile,
}

/// What can go wrong between a message and its answer.
#[derive(Debug)]
pub enum CursorError {
    /// The message could not be compressed. Memory takes everything that is written to
    /// it, so no call gives this.
    Compress(std::io::Error),
    /// A compressed message could not be decompressed.
    Decompress(std::io::Error),
    /// The service answered with a status other than success.
    Status { call: Call, status: String, body: String },
}

/// The words that open the report of a failed call.
pub open spec fn call_label(call: Call) -> Seq<char> {
    match call {
        Call::StreamCpp => "API"@,
        Call::RecordCppFate => "RecordCppFate"@,
        Call::RefreshTabContext => "RefreshTabContext"@,
        Call::FsSyncFile => "FSSyncFile"@,
    }
}

/// The report of a failed call: `<label> returned status <status>: <body>`.
pub open spec fn status_message(call: Call, status: Seq<char>, body: Seq<char>) -> Seq<char> {
    call_label(call) + " returned status "@ + status + ": "@ + body
}

/// Whatever the status and the body, the report names the call, then the status, then the
/// body, and leaves nothing of them out.
pub proof fn law_status_message(status: Seq<char>, body: Seq<char>)
    ensures
        status_message(Call::StreamCpp, status, body) == "API"@ + " returned status "@ + status
            + ": "@ + body,
        status_message(Call::RecordCppFate, status, body) == "RecordCppFate"@
            + " returned status "@ + status + ": "@ + body,
        status_message(Call::RefreshTabContext, status, body) == "RefreshTabContext"@
            + " returned status "@ + status + ": "@ + body,
        status_message(Call::FsSyncFile, status, body) == "FSSyncFile"@ + " returned status "@
            + status + ": "@ + body,
{
}

impl Call {
    /// The words that open the report of a failure of this call.
    pub fn label(self) -> (label: &'static str)
        ensures
            label@ == call_label(self),
            self == Call::StreamCpp ==> label@ == "API"@,
            self == Call::RecordCppFate ==> label@ == "RecordCppFate"@,
            self == Call::RefreshTabContext ==> label@ == "RefreshTabContext"@,
            self == Call::FsSyncFile ==> label@ == "FSSyncFile"@,
    {
        match self {
            Call::StreamCpp => "API",
            Call::RecordCppFate => "RecordCppFate",
            Call::RefreshTabContext => "RefreshTabContext",
            Call::FsSyncFile => "FSSyncFile",
        }
    }
}

impl CursorError {
    /// The report of a failed call, or `None` where the failure is an I/O error
    /// with a text of its own.
    pub fn message(&self) -> (message: Option<String>)
        ensures
            match *self {
                CursorError::Status { call, status, body } => message matches Some(text)
                    && text@ == status_message(call, status@, body@),
                _ => message is None,
            },
    {
        match self {
            CursorError::Status { call, status, body } => {
                let mut text = String::new();
                text.append(call.label());
                text.append(" returned status ");
                text.append(status.as_str());
                text.append(": ");
                text.append(body.as_str());
                assert(text@ =~= status_message(*call, status@, body@));
                Some(text)
            },
            _ => None,
        }
    }
}

} // verus!
