//! The utilities, and the table of names under which they are installed.
use vstd::prelude::*;

pub mod basename;
pub mod cal;
pub mod df;
pub mod dirname;
pub mod false_;
pub mod ln_link;
pub mod strings;
pub mod true_;
pub mod uname;
pub mod wc;

use crate::pathname::{file_name_of, path_file_name};

verus! {

/// Each utility's name and its install path below the prefix, in name
/// order.
pub open spec fn util_table() -> Seq<(&'static str, &'static str)> {
    seq![
        ("basename", "usr/bin/basename"),
        ("cal", "usr/bin/cal"),
        ("cat", "bin/cat"),
        ("df", "bin/df"),
        ("dirname", "usr/bin/dirname"),
        ("echo", "bin/echo"),
        ("false", "bin/false"),
        ("head", "usr/bin/head"),
        ("link", "bin/link"),
        ("ln", "bin/ln"),
        ("nice", "usr/bin/nice"),
        ("pwd", "bin/pwd"),
        ("renice", "usr/bin/renice"),
        ("reutils", "usr/sbin/reutils"),
        ("sleep", "bin/sleep"),
        ("strings", "usr/bin/strings"),
        ("tail", "usr/bin/tail"),
        ("tee", "usr/bin/tee"),
        ("true", "bin/true"),
        ("tty", "usr/bin/tty"),
        ("uname", "usr/bin/uname"),
        ("wc", "usr/bin/wc"),
    ]
}

/// The name and install path of every utility.
pub fn paths() -> (r: Vec<(&'static str, &'static str)>)
    ensures
        r@ == util_table(),
{
    let r = vec![
        ("basename", "usr/bin/basename"),
        ("cal", "usr/bin/cal"),
        ("cat", "bin/cat"),
        ("df", "bin/df"),
        ("dirname", "usr/bin/dirname"),
        ("echo", "bin/echo"),
        ("false", "bin/false"),
        ("head", "usr/bin/head"),
        ("link", "bin/link"),
        ("ln", "bin/ln"),
        ("nice", "usr/bin/nice"),
        ("pwd", "bin/pwd"),
        ("renice", "usr/bin/renice"),
        ("reutils", "usr/sbin/reutils"),
        ("sleep", "bin/sleep"),
        ("strings", "usr/bin/strings"),
        ("tail", "usr/bin/tail"),
        ("tee", "usr/bin/tee"),
        ("true", "bin/true"),
        ("tty", "usr/bin/tty"),
        ("uname", "usr/bin/uname"),
        ("wc", "usr/bin/wc"),
    ];
    assert(r@ =~= util_table());
    r
}

/// The utility that a program name calls for: the final component of the
/// path it was run by, or `None` where that path has none.
pub fn get_util_name(arg0: &str) -> (r: Option<String>)
    ensures
        r is Some <==> file_name_of(arg0@) is Some,
        r matches Some(s) ==> file_name_of(arg0@) == Some(s@),
{
    path_file_name(arg0)
}

} // verus!
