//! Windows version checks. The host's version is read by the caller (an OS
//! query) and passed in as plain numbers; each check compares it with one
//! release.
use vstd::prelude::*;

verus! {

/// A Windows version as the OS reports it.
#[derive(PartialEq, Eq, Structural, Clone, Copy, Debug)]
pub struct OsVersion {
    pub major: u32,
    pub minor: u32,
    pub service_pack: u16,
    pub build: u32,
}

/// The host is at least version `major.minor` with service pack `sp`,
/// compared in that order.
pub open spec fn at_least(host: OsVersion, major: u32, minor: u32, sp: u16) -> bool {
    host.major > major || (host.major == major && (host.minor > minor || (host.minor == minor
        && host.service_pack >= sp)))
}

/// At least the given version and service pack, and a build number of at
/// least `buildno` besides.
fn is_windows_version_or_greater(
    host: &OsVersion,
    major: u32,
    minor: u32,
    servpack: u16,
    buildno: u32,
) -> (r: bool)
    ensures
        r == (at_least(*host, major, minor, servpack) && host.build >= buildno),
{
    let version_ok = if host.major != major {
        host.major > major
    } else if host.minor != minor {
        host.minor > minor
    } else {
        host.service_pack >= servpack
    };
    version_ok && host.build >= buildno
}

pub fn is_windows_xp_or_greater(host: &OsVersion) -> (r: bool)
    ensures
        r == at_least(*host, 5, 1, 0),
{
    is_windows_version_or_greater(host, 5, 1, 0, 0)
}

pub fn is_windows_xp_sp1_or_greater(host: &OsVersion) -> (r: bool)
    ensures
        r == at_least(*host, 5, 1, 1),
{
    is_windows_version_or_greater(host, 5, 1, 1, 0)
}

pub fn is_windows_xp_sp2_or_greater(host: &OsVersion) -> (r: bool)
    ensures
        r == at_least(*host, 5, 1, 2),
{
    is_windows_version_or_greater(host, 5, 1, 2, 0)
}

pub fn is_windows_xp_sp3_or_greater(host: &OsVersion) -> (r: bool)
    ensures
        r == at_least(*host, 5, 1, 3),
{
    is_windows_version_or_greater(host, 5, 1, 3, 0)
}

pub fn is_windows_vista_or_greater(host: &OsVersion) -> (r: bool)
    ensures
        r == at_least(*host, 6, 0, 0),
{
    is_windows_version_or_greater(host, 6, 0, 0, 0)
}

pub fn is_windows_vista_sp1_or_greater(host: &OsVersion) -> (r: bool)
    ensures
        r == at_least(*host, 6, 0, 1),
{
    is_windows_version_or_greater(host, 6, 0, 1, 0)
}

pub fn is_windows_vista_sp2_or_greater(host: &OsVersion) -> (r: bool)
    ensures
        r == at_least(*host, 6, 0, 2),
{
    is_windows_version_or_greater(host, 6, 0, 2, 0)
}

pub fn is_windows_7_or_greater(host: &OsVersion) -> (r: bool)
    ensures
        r == at_least(*host, 6, 1, 0),
{
    is_windows_version_or_greater(host, 6, 1, 0, 0)
}

pub fn is_windows_7_sp1_or_greater(host: &OsVersion) -> (r: bool)
    ensures
        r == at_least(*host, 6, 1, 1),
{
    is_windows_version_or_greater(host, 6, 1, 1, 0)
}

pub fn is_windows_8_or_greater(host: &OsVersion) -> (r: bool)
    ensures
        r == at_least(*host, 6, 2, 0),
{
    is_windows_version_or_greater(host, 6, 2, 0, 0)
}

pub fn is_windows_8_point_1_or_greater(host: &OsVersion) -> (r: bool)
    ensures
        r == at_least(*host, 6, 3, 0),
{
    is_windows_version_or_greater(host, 6, 3, 0, 0)
}

pub fn is_windows_threshold_or_greater(host: &OsVersion) -> (r: bool)
    ensures
        r == at_least(*host, 10, 0, 0),
{
    is_windows_version_or_greater(host, 10, 0, 0, 0)
}

pub fn is_windows_10_or_greater(host: &OsVersion) -> (r: bool)
    ensures
        r == at_least(*host, 10, 0, 0),
{
    is_windows_version_or_greater(host, 10, 0, 0, 0)
}

/// Windows 11 reports version 10.0; it is told apart by its build number.
pub fn is_windows_11_or_greater(host: &OsVersion) -> (r: bool)
    ensures
        r == (at_least(*host, 10, 0, 0) && host.build >= 22000),
{
    is_windows_version_or_greater(host, 10, 0, 0, 22000)
}

} // verus!
