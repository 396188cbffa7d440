//! The error that a utility returns: an exit code and, optionally, a message.
use vstd::prelude::*;

verus! {

/// A failed run. `code` becomes the process exit status; `message`, where
/// there is one, is printed on the error channel.
#[derive(Debug)]
pub struct Error {
    pub code: i32,
    pub message: Option<String>,
}

impl Error {
    pub fn new(code: i32, message: String) -> (e: Error)
        ensures
            e.code == code,
            e.message == Some(message),
    {
        Error { code, message: Some(message) }
    }

    pub fn new_nomsg(code: i32) -> (e: Error)
        ensures
            e.code == code,
            e.message.is_none(),
    {
        Error { code, message: None }
    }
}

/// The exit status of a run: 0 on success, the error's code otherwise.
pub fn exit_code(result: &Result<(), Error>) -> (code: i32)
    ensures
        code == match result {
            Ok(_) => 0i32,
            Err(e) => e.code,
        },
{
    match result {
        Ok(_) => 0,
        Err(e) => e.code,
    }
}

} // verus!
