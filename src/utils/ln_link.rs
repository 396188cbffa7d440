//! ln and link: which link to make, and between which paths.
use vstd::prelude::*;

use crate::err::Error;
use crate::text::lemma_contains_push;

verus! {

#[derive(PartialEq, Eq, Structural, Clone, Copy, Debug)]
pub enum LinkType {
    HardlinkNormal,
    Symlink,
    /// Selected by `-L`: a hard link made without following a symbolic link.
    HardlinkToSymlink,
    /// Selected by `-P`: a hard link made through a symbolic link.
    HardlinkToSymlinkDirect,
}

/// A link to make: `new` is to name what `old` names.
pub struct LinkRequest {
    pub old: String,
    pub new: String,
    pub link_type: LinkType,
    pub force: bool,
}

/// The options of ln, read in order: `s` asks for a symbolic link, `f` to
/// replace an existing target, `L` and `P` for the two kinds of hard link to
/// a symbolic link. Returns the link type and whether to force, or a usage
/// error where `L` comes while `P` is in force, or `P` while `L` is.
pub fn ln_options(opts: &Vec<char>) -> (r: Result<(LinkType, bool), Error>)
    ensures
        r is Err <==> ln_conflict(opts@),
        r matches Err(e) ==> e.code == 1 && e.message.is_none(),
        r matches Ok((t, f)) ==> f == opts@.contains('f') && t == link_type_of(opts@),
{
    let mut link_type = LinkType::HardlinkNormal;
    let mut force = false;
    let mut i: usize = 0;
    while i < opts.len()
        invariant
            i <= opts@.len(),
            !ln_conflict(opts@.take(i as int)),
            force == opts@.take(i as int).contains('f'),
            link_type == link_type_of(opts@.take(i as int)),
        decreases opts@.len() - i,
    {
        let c = opts[i];
        let ghost before = opts@.take(i as int);
        assert(opts@.take(i + 1) =~= before.push(c));
        assert(before.push(c).drop_last() =~= before);
        proof {
            lemma_contains_push(before, c, 'f');
        }
        if c == 's' {
            link_type = LinkType::Symlink;
        } else if c == 'f' {
            force = true;
        } else if c == 'L' {
            if link_type == LinkType::HardlinkToSymlinkDirect {
                proof {
                    lemma_conflict_stays(opts@, i + 1);
                }
                return Err(Error::new_nomsg(1));
            }
            link_type = LinkType::HardlinkToSymlink;
        } else if c == 'P' {
            if link_type == LinkType::HardlinkToSymlink {
                proof {
                    lemma_conflict_stays(opts@, i + 1);
                }
                return Err(Error::new_nomsg(1));
            }
            link_type = LinkType::HardlinkToSymlinkDirect;
        }
        i = i + 1;
    }
    assert(opts@.take(opts@.len() as int) =~= opts@);
    Ok((link_type, force))
}

/// Some `L` comes while `P` is in force, or some `P` while `L` is.
pub open spec fn ln_conflict(opts: Seq<char>) -> bool
    decreases opts.len(),
{
    if opts.len() == 0 {
        false
    } else {
        ln_conflict(opts.drop_last()) || (opts.last() == 'L' && link_type_of(opts.drop_last())
            == LinkType::HardlinkToSymlinkDirect) || (opts.last() == 'P' && link_type_of(
            opts.drop_last(),
        ) == LinkType::HardlinkToSymlink)
    }
}

proof fn lemma_conflict_stays(opts: Seq<char>, k: int)
    requires
        0 <= k <= opts.len(),
        ln_conflict(opts.take(k)),
    ensures
        ln_conflict(opts),
    decreases opts.len() - k,
{
    if k < opts.len() {
        assert(opts.take(k + 1).drop_last() =~= opts.take(k));
        lemma_conflict_stays(opts, k + 1);
    } else {
        assert(opts.take(k) =~= opts);
    }
}

/// The link type after the options `opts`: the last of `s`, `L`, `P` wins.
pub open spec fn link_type_of(opts: Seq<char>) -> LinkType
    decreases opts.len(),
{
    if opts.len() == 0 {
        LinkType::HardlinkNormal
    } else if opts.last() == 's' {
        LinkType::Symlink
    } else if opts.last() == 'L' {
        LinkType::HardlinkToSymlink
    } else if opts.last() == 'P' {
        LinkType::HardlinkToSymlinkDirect
    } else {
        link_type_of(opts.drop_last())
    }
}

/// link: a plain hard link from the first argument after the program name
/// to the second, or a usage error where there are fewer than two.
pub fn util_link(args: &[String]) -> (r: Result<LinkRequest, Error>)
    ensures
        r is Err <==> args@.len() < 3,
        r matches Err(e) ==> e.code == 1 && e.message.is_none(),
        r matches Ok(q) ==> q.old@ == args@[1]@ && q.new@ == args@[2]@ && q.link_type
            == LinkType::HardlinkNormal && !q.force,
{
    if args.len() < 3 {
        return Err(Error::new_nomsg(1));
    }
    let old = args[1].clone();
    let new = args[2].clone();
    Ok(LinkRequest { old, new, link_type: LinkType::HardlinkNormal, force: false })
}

} // verus!
