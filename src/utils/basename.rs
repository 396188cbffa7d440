//! basename: the final component of a path.
use vstd::prelude::*;

use crate::err::Error;
use crate::pathname::{file_name_of, path_file_name};

verus! {

/// The final component of `path`, or `path` itself where it has none.
pub fn basename(path: &str) -> (r: Result<String, Error>)
    ensures
        r matches Ok(s) && s@ == match file_name_of(path@) {
            Some(b) => b,
            None => path@,
        },
{
    match path_file_name(path) {
        Some(base) => Ok(base),
        None => Ok(path.to_owned()),
    }
}

} // verus!
