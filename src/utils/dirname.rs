//! dirname: a path without its final component.
use vstd::prelude::*;

use crate::err::Error;
use crate::pathname::{parent_of, path_parent};

verus! {

/// `path` without its final component, or `path` itself where it has none.
pub fn dirname(path: &str) -> (r: Result<String, Error>)
    ensures
        r matches Ok(s) && s@ == match parent_of(path@) {
            Some(b) => b,
            None => path@,
        },
{
    match path_parent(path) {
        Some(dir) => Ok(dir),
        None => Ok(path.to_owned()),
    }
}

} // verus!
