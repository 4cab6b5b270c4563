use vstd::prelude::*;

verus! {

/// The closed set of failures the tool can report. Every fallible operation
/// of the library names one of these; nothing is reported through an opaque
/// boxed error.
#[derive(Debug, Clone, PartialEq, Eq)]
pub enum CliError {
    /// The named configuration entry does not exist.
    ConfigNotFound,
    /// The schema cache artifact has never been written.
    CacheMissing,
    /// The schema cache artifact does not deserialize.
    CacheCorrupt,
    /// The schema cache artifact could not be written.
    CacheWriteFailed,
    /// An update batch mixed `key=value` tokens with plain tokens.
    InvalidFieldFormat,
    /// The remote service answered with a non-success status.
    RemoteError { status: u16, body: String },
}

/// A status code counts as success exactly when it lies in the 2xx range.
pub open spec fn is_success_status(status: u16) -> bool {
    200 <= status < 300
}

/// Decides the outcome of one remote exchange: the raw body on a success
/// status, a `RemoteError` carrying status and body otherwise. No status is
/// silently absorbed.
pub fn check_status(status: u16, body: String) -> (r: Result<String, CliError>)
    ensures
        is_success_status(status) ==> r == Ok::<String, CliError>(body),
        !is_success_status(status) ==> r == Err::<String, CliError>(
            CliError::RemoteError { status, body },
        ),
{
    if 200 <= status && status < 300 {
        Ok(body)
    } else {
        Err(CliError::RemoteError { status, body })
    }
}

} // verus!
