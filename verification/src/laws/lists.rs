//! Laws of trimming and of comma-separated lists.

use crate::csv;
use crate::seqs;
use crate::text;
use vstd::prelude::*;

verus! {

/// Neither end of `s` is white space.
pub open spec fn bare(s: Seq<char>) -> bool {
    s.len() > 0 ==> !text::white(s[0]) && !text::white(s.last())
}

/// Cutting white space off the end leaves no white space there, and takes away
/// only from the end.
proof fn trim_end_cuts(s: Seq<char>)
    ensures
        ({
            let t = text::trim_end(s);
            &&& t.len() <= s.len()
            &&& t == s.take(t.len() as int)
            &&& t.len() > 0 ==> !text::white(t.last())
        }),
    decreases s.len(),
{
    if s.len() > 0 && text::white(s.last()) {
        trim_end_cuts(s.drop_last());
        let t = text::trim_end(s);
        assert(s.drop_last().take(t.len() as int) =~= s.take(t.len() as int));
    } else {
        assert(s.take(s.len() as int) =~= s);
    }
}

/// Cutting white space off the start leaves no white space there, and takes away
/// only from the start.
proof fn trim_start_cuts(s: Seq<char>)
    ensures
        ({
            let t = text::trim_start(s);
            &&& t.len() <= s.len()
            &&& t == s.skip(s.len() - t.len())
            &&& t.len() > 0 ==> !text::white(t[0])
        }),
    decreases s.len(),
{
    if s.len() > 0 && text::white(s[0]) {
        let rest = s.subrange(1, s.len() as int);
        trim_start_cuts(rest);
        let t = text::trim_start(s);
        assert(rest.skip(rest.len() - t.len()) =~= s.skip(s.len() - t.len()));
    } else {
        assert(s.skip(0) =~= s);
    }
}

/// Trimming takes a piece out of a text, with nothing white at its ends.
pub proof fn trimmed_is_a_bare_piece(s: Seq<char>)
    ensures
        bare(text::trimmed(s)),
        exists|i: int, j: int|
            0 <= i <= j <= s.len() && text::trimmed(s) == #[trigger] s.subrange(i, j),
{
    trim_start_cuts(s);
    let t = text::trim_start(s);
    trim_end_cuts(t);
    let u = text::trimmed(s);
    let i = s.len() - t.len();
    assert(u =~= s.subrange(i, i + u.len()));
    if u.len() > 0 {
        assert(u[0] == t[0]);
    }
}

/// A text with nothing white at its ends is left alone by trimming.
pub proof fn bare_text_is_kept(s: Seq<char>)
    requires
        bare(s),
    ensures
        text::trimmed(s) == s,
{
}

/// Trimming twice is trimming once.
pub proof fn trimming_is_idempotent(s: Seq<char>)
    ensures
        text::trimmed(text::trimmed(s)) == text::trimmed(s),
{
    trimmed_is_a_bare_piece(s);
    bare_text_is_kept(text::trimmed(s));
}

/// A text without a comma.
pub open spec fn plain(s: Seq<char>) -> bool {
    forall|i: int| 0 <= i < s.len() ==> #[trigger] s[i] != ','
}

/// A text that can stand in a list: not empty, no comma in it, and nothing white
/// at its ends.
pub open spec fn listable(s: Seq<char>) -> bool {
    s.len() > 0 && plain(s) && bare(s)
}

/// There is always a last piece.
proof fn pieces_are_some(s: Seq<char>)
    ensures
        csv::pieces(s).len() > 0,
    decreases s.len(),
{
    if s.len() > 0 {
        pieces_are_some(s.drop_last());
    }
}

/// No piece has a comma in it.
proof fn pieces_are_plain(s: Seq<char>)
    ensures
        forall|i: int| 0 <= i < csv::pieces(s).len() ==> plain(#[trigger] csv::pieces(s)[i]),
    decreases s.len(),
{
    if s.len() > 0 {
        pieces_are_some(s.drop_last());
        pieces_are_plain(s.drop_last());
        let before = csv::pieces(s.drop_last());
        assert(plain(before[before.len() - 1]));
        assert forall|i: int| 0 <= i < csv::pieces(s).len() implies plain(
            #[trigger] csv::pieces(s)[i],
        ) by {
            if i < before.len() - 1 {
                assert(csv::pieces(s)[i] == before[i]);
            }
        }
    }
}

/// What a line lists can stand in a list.
pub proof fn listed_texts_are_listable(line: Seq<char>)
    ensures
        forall|i: int| 0 <= i < csv::listed(line).len() ==> listable(#[trigger] csv::listed(line)[i]),
{
    let parts = csv::pieces(line);
    let trim = |p: Seq<char>| text::trimmed(p);
    let some = |p: Seq<char>| p.len() > 0;
    let items = parts.map_values(trim);
    seqs::filter_members(items, some);
    pieces_are_plain(line);
    assert forall|i: int| 0 <= i < csv::listed(line).len() implies listable(
        #[trigger] csv::listed(line)[i],
    ) by {
        let item = csv::listed(line)[i];
        assert(items.filter(some).contains(item));
        let k = choose|k: int| 0 <= k < items.len() && items[k] == item;
        assert(plain(parts[k]));
        trimmed_is_a_bare_piece(parts[k]);
        let (a, b) = choose|a: int, b: int|
            0 <= a <= b <= parts[k].len() && text::trimmed(parts[k]) == #[trigger] parts[
                k].subrange(a, b);
        assert forall|j: int| 0 <= j < item.len() implies #[trigger] item[j] != ',' by {
            assert(item[j] == parts[k][a + j]);
        }
    }
}

/// A text without a comma is one piece.
proof fn plain_text_is_one_piece(s: Seq<char>)
    requires
        plain(s),
    ensures
        csv::pieces(s) == seq![s],
    decreases s.len(),
{
    if s.len() > 0 {
        assert(plain(s.drop_last()));
        plain_text_is_one_piece(s.drop_last());
        assert(s[s.len() - 1] != ',');
        assert(s.drop_last().push(s.last()) =~= s);
        assert(csv::pieces(s) =~= seq![s]);
    } else {
        assert(s =~= Seq::empty());
    }
}

/// What follows a comma and has none itself is one more piece.
proof fn comma_starts_a_piece(a: Seq<char>, b: Seq<char>)
    requires
        plain(b),
    ensures
        csv::pieces(a + seq![','] + b) == csv::pieces(a).push(b),
    decreases b.len(),
{
    let s = a + seq![','] + b;
    if b.len() == 0 {
        assert(s.drop_last() =~= a);
        assert(b =~= Seq::empty());
    } else {
        assert(plain(b.drop_last()));
        comma_starts_a_piece(a, b.drop_last());
        assert(s.drop_last() =~= a + seq![','] + b.drop_last());
        assert(s.last() == b[b.len() - 1]);
        assert(csv::pieces(s) =~= csv::pieces(a).push(b)) by {
            let before = csv::pieces(s.drop_last());
            assert(before.drop_last() =~= csv::pieces(a));
            assert(b.drop_last().push(b.last()) =~= b);
        }
    }
}

/// A space before a text is trimmed away.
proof fn leading_space_is_trimmed(s: Seq<char>)
    requires
        bare(s),
    ensures
        text::trimmed(seq![' '] + s) == s,
{
    let t = seq![' '] + s;
    assert(t.subrange(1, t.len() as int) =~= s);
    assert(text::trim_start(t) == text::trim_start(s));
}

/// The pieces of a line that lists `items`, cleaned, are the items.
proof fn line_lists_its_items(items: Seq<Seq<char>>)
    requires
        forall|i: int| 0 <= i < items.len() ==> listable(#[trigger] items[i]),
        items.len() > 0,
    ensures
        csv::cleaned(csv::pieces(csv::line_of(items))) == items,
    decreases items.len(),
{
    reveal(Seq::filter);
    let trim = |p: Seq<char>| text::trimmed(p);
    if items.len() == 1 {
        plain_text_is_one_piece(items[0]);
        bare_text_is_kept(items[0]);
        let parts = seq![items[0]];
        assert(parts.map_values(trim).drop_last() =~= Seq::empty());
        assert(csv::cleaned(parts) =~= items);
    } else {
        let rest = items.drop_last();
        assert forall|i: int| 0 <= i < rest.len() implies listable(#[trigger] rest[i]) by {
            assert(rest[i] == items[i]);
        }
        line_lists_its_items(rest);
        let last = items.last();
        assert(listable(items[items.len() - 1]));
        reveal_strlit(", ");
        let line = csv::line_of(rest);
        let tail = seq![' '] + last;
        assert(csv::line_of(items) =~= line + seq![','] + tail);
        assert forall|i: int| 0 <= i < tail.len() implies #[trigger] tail[i] != ',' by {
            if i > 0 {
                assert(tail[i] == last[i - 1]);
            }
        }
        comma_starts_a_piece(line, tail);
        leading_space_is_trimmed(last);
        let parts = csv::pieces(line);
        assert(parts.push(tail).map_values(trim).drop_last() =~= parts.map_values(trim));
        assert(csv::cleaned(parts.push(tail)) =~= csv::cleaned(parts).push(last));
        assert(rest.push(last) =~= items);
    }
}

/// Writing a list on a line and reading it back gives the list, as long as every
/// text of it can stand in a list.
pub proof fn list_survives_the_line(items: Seq<Seq<char>>)
    requires
        forall|i: int| 0 <= i < items.len() ==> listable(#[trigger] items[i]),
    ensures
        csv::listed(csv::line_of(items)) == items,
{
    if items.len() > 0 {
        line_lists_its_items(items);
    } else {
        let trim = |p: Seq<char>| text::trimmed(p);
        let parts = csv::pieces(csv::line_of(items));
        assert(parts == seq![Seq::<char>::empty()]);
        seqs::filter_none(parts.map_values(trim), |p: Seq<char>| p.len() > 0);
        assert(csv::cleaned(parts) =~= items);
    }
}

/// Reading a line, writing what it lists and reading that again gives the same
/// list.
pub proof fn reading_is_stable(line: Seq<char>)
    ensures
        csv::listed(csv::line_of(csv::listed(line))) == csv::listed(line),
{
    listed_texts_are_listable(line);
    list_survives_the_line(csv::listed(line));
}

} // verus!
