//! The error shape of the mutation operations (write, create, delete): a
//! verbatim message from the filesystem plus a fixed categorical code, so a
//! caller can branch on the failure category without matching on text.

use vstd::prelude::*;
use vstd::string::StringExecFns;

verus! {

/// A failed mutation: the underlying I/O error text, verbatim, and the
/// category of the operation that failed.
#[derive(Debug, Clone)]
pub struct FileError {
    pub message: String,
    pub code: String,
}

/// The mathematical value of a `FileError`.
pub struct ErrorView {
    pub message: Seq<char>,
    pub code: Seq<char>,
}

impl View for FileError {
    type V = ErrorView;

    open spec fn view(&self) -> ErrorView {
        ErrorView { message: self.message@, code: self.code@ }
    }
}

/// The four mutation operations, each with its own error category.
#[derive(Debug, Clone, Copy, PartialEq, Eq, Structural)]
pub enum MutationKind {
    Write,
    CreateFile,
    CreateDirectory,
    Delete,
}

/// The categorical code attached to a failure of each mutation.
pub open spec fn code_of(kind: MutationKind) -> Seq<char> {
    match kind {
        MutationKind::Write => "WRITE_ERROR"@,
        MutationKind::CreateFile => "CREATE_ERROR"@,
        MutationKind::CreateDirectory => "CREATE_DIR_ERROR"@,
        MutationKind::Delete => "DELETE_ERROR"@,
    }
}

/// Shapes the outcome of one mutation: success passes through, and a failure
/// message is paired with the fixed code of the operation's category.
pub fn mutation_outcome(kind: MutationKind, outcome: Result<(), String>) -> (r: Result<
    (),
    FileError,
>)
    ensures
        r is Ok <==> outcome is Ok,
        outcome matches Err(m) ==> (r matches Err(e) && e.message@ == m@ && e.code@ == code_of(
            kind,
        )),
{
    match outcome {
        Ok(()) => Ok(()),
        Err(m) => {
            let code = match kind {
                MutationKind::Write => String::from_str("WRITE_ERROR"),
                MutationKind::CreateFile => String::from_str("CREATE_ERROR"),
                MutationKind::CreateDirectory => String::from_str("CREATE_DIR_ERROR"),
                MutationKind::Delete => String::from_str("DELETE_ERROR"),
            };
            Err(FileError { message: m, code })
        },
    }
}

} // verus!
