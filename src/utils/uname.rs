//! uname: which fields of the system's identity to print, and how.
use vstd::prelude::*;

use crate::text::{lemma_contains_push, trim_end, trim_white_end};

verus! {

#[derive(PartialEq, Eq, Structural, Clone, Copy, Debug)]
pub enum SysName {
    ShowSysName,
    NoSysName,
}

#[derive(PartialEq, Eq, Structural, Clone, Copy, Debug)]
pub enum NodeName {
    ShowNodeName,
    NoNodeName,
}

#[derive(PartialEq, Eq, Structural, Clone, Copy, Debug)]
pub enum Release {
    ShowRelease,
    NoRelease,
}

#[derive(PartialEq, Eq, Structural, Clone, Copy, Debug)]
pub enum Version {
    ShowVersion,
    NoVersion,
}

#[derive(PartialEq, Eq, Structural, Clone, Copy, Debug)]
pub enum Machine {
    ShowMachine,
    NoMachine,
}

/// The fields to print.
#[derive(PartialEq, Eq, Structural, Clone, Copy, Debug)]
pub struct UnameFlags {
    pub sysname: SysName,
    pub nodename: NodeName,
    pub release: Release,
    pub version: Version,
    pub machine: Machine,
}

/// The system's identity, as the OS reports it.
pub struct UnameFields {
    pub sysname: String,
    pub nodename: String,
    pub release: String,
    pub version: String,
    pub machine: String,
}

/// Whether `opts` asks for a field, by its own letter or by `a`.
pub open spec fn asks(opts: Seq<char>, letter: char) -> bool {
    opts.contains(letter) || opts.contains('a')
}

/// No field is asked for at all.
pub open spec fn asks_none(opts: Seq<char>) -> bool {
    !asks(opts, 's') && !asks(opts, 'n') && !asks(opts, 'r') && !asks(opts, 'v') && !asks(
        opts,
        'm',
    )
}

impl UnameFlags {
    pub fn new() -> (f: UnameFlags)
        ensures
            f.sysname == SysName::NoSysName,
            f.nodename == NodeName::NoNodeName,
            f.release == Release::NoRelease,
            f.version == Version::NoVersion,
            f.machine == Machine::NoMachine,
    {
        UnameFlags {
            sysname: SysName::NoSysName,
            nodename: NodeName::NoNodeName,
            release: Release::NoRelease,
            version: Version::NoVersion,
            machine: Machine::NoMachine,
        }
    }

    /// The fields that the short options `opts` select: `s`, `n`, `r`, `v`,
    /// `m` one each, `a` all of them; the system name alone where none is
    /// selected. Other options are ignored.
    pub fn from_options(opts: &Vec<char>) -> (f: UnameFlags)
        ensures
            (f.sysname == SysName::ShowSysName) == (asks(opts@, 's') || asks_none(opts@)),
            (f.nodename == NodeName::ShowNodeName) == asks(opts@, 'n'),
            (f.release == Release::ShowRelease) == asks(opts@, 'r'),
            (f.version == Version::ShowVersion) == asks(opts@, 'v'),
            (f.machine == Machine::ShowMachine) == asks(opts@, 'm'),
    {
        let mut f = UnameFlags::new();
        let mut i: usize = 0;
        while i < opts.len()
            invariant
                i <= opts@.len(),
                (f.sysname == SysName::ShowSysName) == asks(opts@.take(i as int), 's'),
                (f.nodename == NodeName::ShowNodeName) == asks(opts@.take(i as int), 'n'),
                (f.release == Release::ShowRelease) == asks(opts@.take(i as int), 'r'),
                (f.version == Version::ShowVersion) == asks(opts@.take(i as int), 'v'),
                (f.machine == Machine::ShowMachine) == asks(opts@.take(i as int), 'm'),
            decreases opts@.len() - i,
        {
            let c = opts[i];
            let ghost before = opts@.take(i as int);
            assert(opts@.take(i + 1) =~= before.push(c));
            proof {
                lemma_contains_push(before, c, 'a');
                lemma_contains_push(before, c, 's');
                lemma_contains_push(before, c, 'n');
                lemma_contains_push(before, c, 'r');
                lemma_contains_push(before, c, 'v');
                lemma_contains_push(before, c, 'm');
            }
            if c == 'a' {
                f.machine = Machine::ShowMachine;
                f.nodename = NodeName::ShowNodeName;
                f.release = Release::ShowRelease;
                f.sysname = SysName::ShowSysName;
                f.version = Version::ShowVersion;
            } else if c == 'm' {
                f.machine = Machine::ShowMachine;
            } else if c == 'n' {
                f.nodename = NodeName::ShowNodeName;
            } else if c == 'r' {
                f.release = Release::ShowRelease;
            } else if c == 's' {
                f.sysname = SysName::ShowSysName;
            } else if c == 'v' {
                f.version = Version::ShowVersion;
            }
            i = i + 1;
        }
        assert(opts@.take(opts@.len() as int) =~= opts@);
        if f.machine == Machine::NoMachine && f.nodename == NodeName::NoNodeName && f.release
            == Release::NoRelease && f.sysname == SysName::NoSysName && f.version
            == Version::NoVersion {
            f.sysname = SysName::ShowSysName;
        }
        f
    }
}

/// The fields that `flags` selects, in the order system name, node name,
/// release, version, machine.
pub open spec fn selected(flags: UnameFlags, fields: UnameFields) -> Seq<Seq<char>> {
    (if flags.sysname == SysName::ShowSysName {
        seq![fields.sysname@]
    } else {
        seq![]
    }) + (if flags.nodename == NodeName::ShowNodeName {
        seq![fields.nodename@]
    } else {
        seq![]
    }) + (if flags.release == Release::ShowRelease {
        seq![fields.release@]
    } else {
        seq![]
    }) + (if flags.version == Version::ShowVersion {
        seq![fields.version@]
    } else {
        seq![]
    }) + (if flags.machine == Machine::ShowMachine {
        seq![fields.machine@]
    } else {
        seq![]
    })
}

/// Each part followed by one space.
pub open spec fn spaced(parts: Seq<Seq<char>>) -> Seq<char>
    decreases parts.len(),
{
    if parts.len() == 0 {
        Seq::empty()
    } else {
        spaced(parts.drop_last()) + parts.last() + " "@
    }
}

/// The selected fields, each followed by a space, with trailing whitespace
/// removed.
pub fn uname(flags: &UnameFlags, fields: &UnameFields) -> (r: String)
    ensures
        r@ == trim_white_end(spaced(selected(*flags, *fields))),
{
    let mut parts: Vec<&str> = Vec::new();
    if flags.sysname == SysName::ShowSysName {
        parts.push(fields.sysname.as_str());
    }
    if flags.nodename == NodeName::ShowNodeName {
        parts.push(fields.nodename.as_str());
    }
    if flags.release == Release::ShowRelease {
        parts.push(fields.release.as_str());
    }
    if flags.version == Version::ShowVersion {
        parts.push(fields.version.as_str());
    }
    if flags.machine == Machine::ShowMachine {
        parts.push(fields.machine.as_str());
    }
    assert(parts@.map_values(|p: &str| p@) =~= selected(*flags, *fields));
    let all = space_after_each(&parts);
    trim_end(all.as_str()).to_owned()
}

/// `parts`, each followed by one space.
pub fn space_after_each(parts: &Vec<&str>) -> (r: String)
    ensures
        r@ == spaced(parts@.map_values(|p: &str| p@)),
{
    let ghost all = parts@.map_values(|p: &str| p@);
    let mut r = String::new();
    let mut i: usize = 0;
    assert(all.take(0) =~= Seq::<Seq<char>>::empty());
    while i < parts.len()
        invariant
            i <= parts@.len(),
            all == parts@.map_values(|p: &str| p@),
            r@ == spaced(all.take(i as int)),
        decreases parts@.len() - i,
    {
        let ghost next = all.take(i + 1);
        assert(next.drop_last() =~= all.take(i as int));
        assert(next.last() == parts@[i as int]@);
        r.append(parts[i]);
        r.append(" ");
        i = i + 1;
    }
    assert(all.take(parts@.len() as int) =~= all);
    r
}

} // verus!
