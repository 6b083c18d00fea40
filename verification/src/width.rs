//! The width of text on a terminal, in columns.

use crate::text::chars_of;
use vstd::prelude::*;
use vstd::utf8;

verus! {

/// The characters that take two columns: the common ranges of CJK, Hangul,
/// full-width forms and emoji.
pub open spec fn wide(c: char) -> bool {
    let cp = c as u32;
    ||| 0x1100 <= cp <= 0x115F
    ||| 0x2E80 <= cp <= 0xA4CF
    ||| 0xAC00 <= cp <= 0xD7A3
    ||| 0xF900 <= cp <= 0xFAFF
    ||| 0xFE30 <= cp <= 0xFE4F
    ||| 0xFF00 <= cp <= 0xFF60
    ||| 0xFFE0 <= cp <= 0xFFE6
    ||| 0x1F300 <= cp <= 0x1FAFF
    ||| 0x20000 <= cp <= 0x3FFFD
}

/// Whether `c` takes two columns.
pub fn is_wide(c: char) -> (r: bool)
    ensures
        r == wide(c),
{
    let cp: u32 = c as u32;
    (0x1100 <= cp && cp <= 0x115F) || (0x2E80 <= cp && cp <= 0xA4CF) || (0xAC00 <= cp && cp
        <= 0xD7A3) || (0xF900 <= cp && cp <= 0xFAFF) || (0xFE30 <= cp && cp <= 0xFE4F) || (0xFF00
        <= cp && cp <= 0xFF60) || (0xFFE0 <= cp && cp <= 0xFFE6) || (0x1F300 <= cp && cp <= 0x1FAFF)
        || (0x20000 <= cp && cp <= 0x3FFFD)
}

/// The number of columns of a character.
pub open spec fn columns(c: char) -> nat {
    if wide(c) {
        2
    } else {
        1
    }
}

/// The number of columns of a text.
pub open spec fn width_of(s: Seq<char>) -> nat
    decreases s.len(),
{
    if s.len() == 0 {
        0
    } else {
        width_of(s.drop_last()) + columns(s.last())
    }
}

/// The width of a text is that of its first character and the rest.
proof fn width_from_front(s: Seq<char>)
    requires
        s.len() > 0,
    ensures
        width_of(s) == columns(s[0]) + width_of(s.drop_first()),
    decreases s.len(),
{
    if s.len() == 1 {
        assert(s.drop_first() =~= Seq::empty());
        assert(s.drop_last() =~= Seq::empty());
    } else {
        width_from_front(s.drop_last());
        assert(s.drop_last().drop_first() =~= s.drop_first().drop_last());
    }
}

/// A text has no more columns than bytes.
pub proof fn width_fits_the_bytes(s: Seq<char>)
    ensures
        width_of(s) <= utf8::encode_utf8(s).len(),
    decreases s.len(),
{
    if s.len() > 0 {
        width_from_front(s);
        width_fits_the_bytes(s.drop_first());
        assert(columns(s[0]) <= utf8::encode_scalar(s[0] as u32).len());
    }
}

/// A longer beginning of a text is at least as wide.
proof fn width_grows(s: Seq<char>, i: int)
    requires
        0 <= i <= s.len(),
    ensures
        width_of(s.take(i)) <= width_of(s),
    decreases s.len(),
{
    if i < s.len() {
        width_grows(s.drop_last(), i);
        assert(s.drop_last().take(i) =~= s.take(i));
    } else {
        assert(s.take(i) =~= s);
    }
}

/// The number of columns of a text.
pub fn display_width(s: &str) -> (r: usize)
    ensures
        r == width_of(s@),
{
    let bytes = s.as_bytes();
    assert(bytes@.len() == bytes.len());
    proof {
        width_fits_the_bytes(s@);
    }
    let cs = chars_of(s);
    let mut total: usize = 0;
    let mut i: usize = 0;
    assert(cs@.take(0) =~= Seq::empty());
    while i < cs.len()
        invariant
            i <= cs@.len(),
            cs@ == s@,
            width_of(s@) <= usize::MAX,
            total == width_of(cs@.take(i as int)),
        decreases cs@.len() - i,
    {
        proof {
            assert(cs@.take(i + 1).drop_last() =~= cs@.take(i as int));
            width_grows(cs@, i + 1);
        }
        if is_wide(cs[i]) {
            total += 2;
        } else {
            total += 1;
        }
        i += 1;
    }
    assert(cs@.take(i as int) =~= cs@);
    total
}

} // verus!
