//! false: fail, with nothing to say.
use vstd::prelude::*;

use crate::err::Error;

verus! {

pub fn util(_args: &[String]) -> (r: Result<(), Error>)
    ensures
        r matches Err(e) && e.code == 1 && e.message.is_none(),
{
    Err(Error::new_nomsg(1))
}

} // verus!
