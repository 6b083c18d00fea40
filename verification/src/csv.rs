//! Lists of texts on one line, with commas between them.

use crate::text;
use crate::text::{chars_of, join, string_of, trim};
use vstd::prelude::*;

verus! {

/// The pieces of `s` between its commas.
pub open spec fn pieces(s: Seq<char>) -> Seq<Seq<char>>
    decreases s.len(),
{
    if s.len() == 0 {
        seq![Seq::empty()]
    } else {
        let before = pieces(s.drop_last());
        if s.last() == ',' {
            before.push(Seq::empty())
        } else {
            before.drop_last().push(before.last().push(s.last()))
        }
    }
}

/// The pieces with the white space around them removed, without those that are
/// then empty.
pub open spec fn cleaned(parts: Seq<Seq<char>>) -> Seq<Seq<char>> {
    parts.map_values(|p: Seq<char>| text::trimmed(p)).filter(|p: Seq<char>| p.len() > 0)
}

/// The texts that a line lists.
pub open spec fn listed(line: Seq<char>) -> Seq<Seq<char>> {
    cleaned(pieces(line))
}

/// The line that lists `items`.
pub open spec fn line_of(items: Seq<Seq<char>>) -> Seq<char> {
    text::joined(items, ", "@)
}

/// The line that lists `items`.
pub fn to_csv(items: &Vec<String>) -> (r: String)
    ensures
        r@ == line_of(text::views(items@)),
{
    join(items, ", ")
}

/// One more piece is cleaned on its own.
proof fn cleaned_push(parts: Seq<Seq<char>>, p: Seq<char>)
    ensures
        cleaned(parts.push(p)) == if text::trimmed(p).len() > 0 {
            cleaned(parts).push(text::trimmed(p))
        } else {
            cleaned(parts)
        },
{
    reveal(Seq::filter);
    let trim = |p: Seq<char>| text::trimmed(p);
    assert(parts.push(p).map_values(trim).drop_last() =~= parts.map_values(trim));
}

/// Adds the piece `cs[from..to]`, trimmed, unless it is blank.
fn add_piece(out: &mut Vec<String>, cs: &Vec<char>, from: usize, to: usize)
    requires
        from <= to <= cs@.len(),
    ensures
        ({
            let p = text::trimmed(cs@.subrange(from as int, to as int));
            text::views(final(out)@) == if p.len() > 0 {
                text::views(old(out)@).push(p)
            } else {
                text::views(old(out)@)
            }
        }),
{
    let piece = string_of(cs, from, to);
    let item = trim(piece.as_str());
    if !item.as_str().is_empty() {
        out.push(item);
        assert(text::views(out@) =~= text::views(old(out)@).push(item@));
    }
}

/// The texts that a line lists.
pub fn from_csv(line: &str) -> (r: Vec<String>)
    ensures
        text::views(r@) == listed(line@),
{
    let cs = chars_of(line);
    let ghost mut done: Seq<Seq<char>> = Seq::empty();
    let mut out: Vec<String> = Vec::new();
    let mut start: usize = 0;
    let mut i: usize = 0;
    proof {
        reveal(Seq::filter);
        assert(cleaned(done) =~= Seq::empty());
        assert(text::views(out@) =~= Seq::empty());
        assert(cs@.take(0) =~= Seq::empty());
        assert(pieces(cs@.take(0)) =~= done.push(cs@.subrange(0, 0)));
    }
    while i < cs.len()
        invariant
            start <= i <= cs@.len(),
            text::views(out@) == cleaned(done),
            pieces(cs@.take(i as int)) == done.push(cs@.subrange(start as int, i as int)),
        decreases cs@.len() - i,
    {
        let ghost piece = cs@.subrange(start as int, i as int);
        proof {
            assert(cs@.take(i + 1).drop_last() =~= cs@.take(i as int));
            assert(cs@.take(i + 1).last() == cs@[i as int]);
        }
        if cs[i] == ',' {
            add_piece(&mut out, &cs, start, i);
            proof {
                cleaned_push(done, piece);
                done = done.push(piece);
                assert(cs@.subrange(i + 1, i + 1) =~= Seq::empty());
            }
            start = i + 1;
        } else {
            proof {
                assert(done.push(piece).drop_last() =~= done);
                assert(cs@.subrange(start as int, i + 1) =~= piece.push(cs@[i as int]));
            }
        }
        i += 1;
    }
    add_piece(&mut out, &cs, start, i);
    proof {
        assert(cs@.take(i as int) =~= cs@);
        cleaned_push(done, cs@.subrange(start as int, i as int));
    }
    out
}

} // verus!
