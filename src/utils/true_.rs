//! true: succeed.
use vstd::prelude::*;

use crate::err::Error;

verus! {

pub fn util(_args: &[String]) -> (r: Result<(), Error>)
    ensures
        r is Ok,
{
    Ok(())
}

} // verus!
