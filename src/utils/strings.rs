//! strings: which runs of text to print.
use vstd::prelude::*;

use crate::err::Error;
use vstd::std_specs::iter::IteratorSpec;

use crate::text::{is_control, is_control_char, is_white_space, is_whitespace, push_char};

verus! {

/// How offsets would be shown (`-t`).
#[derive(PartialEq, Eq, Structural, Clone, Copy, Debug)]
pub enum FlagsOffsetType {
    NoneType,
    Hex,
    Octal,
    Dec,
}

pub struct Flags {
    pub offset_type: FlagsOffsetType,
    /// A run is printed when it is longer than this many bytes.
    pub min_len: u64,
}

impl Flags {
    pub fn new() -> (f: Flags)
        ensures
            f.offset_type == FlagsOffsetType::NoneType,
            f.min_len == 4,
    {
        Flags { offset_type: FlagsOffsetType::NoneType, min_len: 4 }
    }
}

/// The offset format named by the argument of `-t`: `d`, `o` or `x`.
pub fn offset_type_from(arg: &str) -> (r: Result<FlagsOffsetType, Error>)
    ensures
        arg@ == seq!['d'] ==> r == Ok::<FlagsOffsetType, Error>(FlagsOffsetType::Dec),
        arg@ == seq!['o'] ==> r == Ok::<FlagsOffsetType, Error>(FlagsOffsetType::Octal),
        arg@ == seq!['x'] ==> r == Ok::<FlagsOffsetType, Error>(FlagsOffsetType::Hex),
        r is Err <==> !(arg@ == seq!['d'] || arg@ == seq!['o'] || arg@ == seq!['x']),
        r matches Err(e) ==> e.code == 1 && (e.message matches Some(m) && m@
            == "-t: invalid format specifier "@ + arg@),
{
    if arg.unicode_len() == 1 {
        let c = arg.get_char(0);
        if c == 'd' {
            assert(arg@ =~= seq!['d']);
            return Ok(FlagsOffsetType::Dec);
        } else if c == 'o' {
            assert(arg@ =~= seq!['o']);
            return Ok(FlagsOffsetType::Octal);
        } else if c == 'x' {
            assert(arg@ =~= seq!['x']);
            return Ok(FlagsOffsetType::Hex);
        }
    }
    let mut msg = String::from_str("-t: invalid format specifier ");
    msg.append(arg);
    Err(Error::new(1, msg))
}

/// The minimum length given to `-n`; zero is refused.
pub fn min_len_from(value: u64) -> (r: Result<u64, Error>)
    ensures
        r is Ok <==> value > 0,
        r matches Ok(v) ==> v == value,
        r matches Err(e) ==> e.code == 1 && (e.message matches Some(m) && m@
            == "-n: Total cannot be zero"@),
{
    if value == 0 {
        let msg = String::from_str("-n: Total cannot be zero");
        Err(Error::new(1, msg))
    } else {
        Ok(value)
    }
}

/// Characters that are kept: neither control characters nor whitespace
/// other than the plain space.
pub open spec fn is_kept(c: char) -> bool {
    !(is_control_char(c) || (is_white_space(c) && c != ' '))
}

/// The kept characters of `s`, in order.
pub open spec fn kept_text(s: Seq<char>) -> Seq<char>
    decreases s.len(),
{
    if s.len() == 0 {
        Seq::empty()
    } else if is_kept(s.last()) {
        kept_text(s.drop_last()).push(s.last())
    } else {
        kept_text(s.drop_last())
    }
}

/// `text` without control characters and without whitespace other than
/// the plain space.
pub fn printable(text: &str) -> (r: String)
    ensures
        r@ == kept_text(text@),
{
    let n = text.unicode_len();
    let mut r = String::new();
    let mut i: usize = 0;
    let mut it = text.chars();
    proof {
        broadcast use vstd::string::axiom_spec_iter;
    }
    while i < n
        invariant
            i <= n,
            n == text@.len(),
            it.remaining() == text@.skip(i as int),
            it.obeys_prophetic_iter_laws(),
            r@ == kept_text(text@.take(i as int)),
        decreases n - i,
    {
        let ghost before = it;
        let next = it.next();
        proof {
            vstd::string::next_postcondition(&before, &it, next);
        }
        let c = next.unwrap();
        assert(c == text@[i as int]);
        let ghost prefix = text@.take(i as int);
        assert(text@.take(i + 1).drop_last() =~= prefix);
        assert(text@.take(i + 1).last() == c);
        if !(is_control(c) || (is_whitespace(c) && c != ' ')) {
            push_char(&mut r, c);
        }
        i = i + 1;
        assert(it.remaining() =~= text@.skip(i as int));
    }
    assert(text@.take(n as int) =~= text@);
    r
}

} // verus!
