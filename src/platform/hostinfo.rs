//! Host information for Windows, from values the OS reported.
use vstd::prelude::*;

pub mod version;

use crate::platform::hostinfo::version::{
    at_least, is_windows_10_or_greater, is_windows_11_or_greater, is_windows_7_or_greater,
    is_windows_7_sp1_or_greater, is_windows_8_or_greater, is_windows_8_point_1_or_greater,
    is_windows_threshold_or_greater, is_windows_vista_or_greater, is_windows_vista_sp1_or_greater,
    is_windows_vista_sp2_or_greater, is_windows_xp_or_greater, is_windows_xp_sp1_or_greater,
    is_windows_xp_sp2_or_greater, is_windows_xp_sp3_or_greater, OsVersion,
};

verus! {

/// The name of the newest release that `host` is at least, checked from the
/// newest down.
pub open spec fn release_name(host: OsVersion) -> Seq<char> {
    if at_least(host, 10, 0, 0) && host.build >= 22000 {
        "11"@
    } else if at_least(host, 10, 0, 0) {
        "10"@
    } else if at_least(host, 6, 3, 0) {
        "8.1"@
    } else if at_least(host, 6, 2, 0) {
        "8"@
    } else if at_least(host, 6, 1, 1) {
        "7 SP1"@
    } else if at_least(host, 6, 1, 0) {
        "7"@
    } else if at_least(host, 6, 0, 2) {
        "Vista SP2"@
    } else if at_least(host, 6, 0, 1) {
        "Vista SP1"@
    } else if at_least(host, 6, 0, 0) {
        "Vista"@
    } else if at_least(host, 5, 1, 3) {
        "XP SP3"@
    } else if at_least(host, 5, 1, 2) {
        "XP SP2"@
    } else if at_least(host, 5, 1, 1) {
        "XP SP1"@
    } else if at_least(host, 5, 1, 0) {
        "XP"@
    } else {
        "<unknown>"@
    }
}

pub open spec fn edition_name(server: bool) -> Seq<char> {
    if server {
        "Server"@
    } else {
        "Client"@
    }
}

fn release_of(host: &OsVersion) -> (r: &'static str)
    ensures
        r@ == release_name(*host),
{
    if is_windows_11_or_greater(host) {
        "11"
    } else if is_windows_10_or_greater(host) {
        "10"
    } else if is_windows_threshold_or_greater(host) {
        "Threshold"
    } else if is_windows_8_point_1_or_greater(host) {
        "8.1"
    } else if is_windows_8_or_greater(host) {
        "8"
    } else if is_windows_7_sp1_or_greater(host) {
        "7 SP1"
    } else if is_windows_7_or_greater(host) {
        "7"
    } else if is_windows_vista_sp2_or_greater(host) {
        "Vista SP2"
    } else if is_windows_vista_sp1_or_greater(host) {
        "Vista SP1"
    } else if is_windows_vista_or_greater(host) {
        "Vista"
    } else if is_windows_xp_sp3_or_greater(host) {
        "XP SP3"
    } else if is_windows_xp_sp2_or_greater(host) {
        "XP SP2"
    } else if is_windows_xp_sp1_or_greater(host) {
        "XP SP1"
    } else if is_windows_xp_or_greater(host) {
        "XP"
    } else {
        "<unknown>"
    }
}

/// "Windows", the release and the edition, separated by spaces. `server`
/// says whether the host is a server edition.
pub fn version(host: &OsVersion, server: bool) -> (r: String)
    ensures
        r@ == "Windows "@ + release_name(*host) + " "@ + edition_name(server),
{
    let mut r = String::from_str("Windows ");
    r.append(release_of(host));
    r.append(" ");
    if server {
        r.append("Server");
    } else {
        r.append("Client");
    }
    r
}

} // verus!
