//! What the operations on texts come to, told on their characters alone.

use crate::config::BackendView;
use crate::csv;
use crate::laws::choice;
use crate::screen;
use crate::seqs;
use crate::text;
use crate::width;
use vstd::prelude::*;

verus! {

/// White space is what Unicode calls so.
pub proof fn white_space_is_that_of_unicode(c: char)
    ensures
        text::white(c) <==> {
            let n = c as int;
            (9 <= n <= 13) || n == 32 || n == 0x85 || n == 0xA0 || n == 0x1680 || (0x2000 <= n
                <= 0x200A) || n == 0x2028 || n == 0x2029 || n == 0x202F || n == 0x205F || n
                == 0x3000
        },
{
}

/// Trimming takes the white space off both ends, all of it and nothing else.
pub proof fn trimming_takes_white_space_off_both_ends(s: Seq<char>)
    ensures
        exists|i: int, j: int|
            {
                &&& 0 <= i <= j <= s.len()
                &&& text::trimmed(s) == #[trigger] s.subrange(i, j)
                &&& forall|k: int| 0 <= k < i ==> text::white(#[trigger] s[k])
                &&& forall|k: int| j <= k < s.len() ==> text::white(#[trigger] s[k])
                &&& i < j ==> !text::white(s[i]) && !text::white(s[j - 1])
            },
{
    choice::white_start_is_cut(s);
    let t = text::trim_start(s);
    choice::white_end_is_cut(t);
    let u = text::trimmed(s);
    let i = s.len() - t.len();
    let j = i + u.len();
    assert(u =~= s.subrange(i, j));
    assert forall|k: int| j <= k < s.len() implies text::white(#[trigger] s[k]) by {
        assert(t[k - i] == s[k]);
    }
    if i < j {
        assert(t[0] == s[i]);
        assert(u[u.len() - 1] == s[j - 1]);
        assert(u[0] == s[i]);
    }
}

/// Joined texts: nothing for no text, the text itself for one, and each further
/// text after one more separator.
pub proof fn joining_puts_separators_between(
    items: Seq<Seq<char>>,
    last: Seq<char>,
    sep: Seq<char>,
)
    ensures
        text::joined(Seq::empty(), sep).len() == 0,
        items.len() == 0 ==> text::joined(items.push(last), sep) == last,
        items.len() > 0 ==> text::joined(items.push(last), sep) == text::joined(items, sep) + sep
            + last,
{
    assert(items.push(last).drop_last() =~= items);
}

/// A list on a line: each further text after one more comma and a space.
pub proof fn lists_are_written_with_commas(items: Seq<Seq<char>>, last: Seq<char>)
    ensures
        csv::line_of(Seq::empty()).len() == 0,
        items.len() == 0 ==> csv::line_of(items.push(last)) == last,
        items.len() > 0 ==> csv::line_of(items.push(last)) == csv::line_of(items) + seq![',', ' ']
            + last,
{
    reveal_strlit(", ");
    assert(", "@ =~= seq![',', ' ']);
    joining_puts_separators_between(items, last, ", "@);
}

/// The pieces before a comma and those after it are the pieces of the whole.
proof fn commas_part_the_pieces(a: Seq<char>, b: Seq<char>)
    ensures
        csv::pieces(a + seq![','] + b) == csv::pieces(a) + csv::pieces(b),
        csv::pieces(b).len() > 0,
    decreases b.len(),
{
    let s = a + seq![','] + b;
    if b.len() == 0 {
        assert(s.drop_last() =~= a);
        assert(csv::pieces(s) =~= csv::pieces(a) + csv::pieces(b));
    } else {
        let c = b.drop_last();
        commas_part_the_pieces(a, c);
        assert(s.drop_last() =~= a + seq![','] + c);
        assert(s.last() == b.last());
        let before = csv::pieces(s.drop_last());
        assert(before.last() == csv::pieces(c).last());
        assert(before.drop_last() =~= csv::pieces(a) + csv::pieces(c).drop_last());
        assert(csv::pieces(s) =~= csv::pieces(a) + csv::pieces(b));
    }
}

/// A comma parts a line: what the two sides list is what the line lists.
pub proof fn commas_part_a_list(a: Seq<char>, b: Seq<char>)
    ensures
        csv::listed(a + seq![','] + b) == csv::listed(a) + csv::listed(b),
{
    commas_part_the_pieces(a, b);
    let trim = |p: Seq<char>| text::trimmed(p);
    let some = |p: Seq<char>| p.len() > 0;
    let x = csv::pieces(a).map_values(trim);
    let y = csv::pieces(b).map_values(trim);
    assert((csv::pieces(a) + csv::pieces(b)).map_values(trim) =~= x + y);
    Seq::filter_distributes_over_add(x, y, some);
}

/// A line without a comma lists itself, trimmed, or nothing where it is white
/// space throughout.
pub proof fn line_without_commas_lists_itself(s: Seq<char>)
    requires
        forall|i: int| 0 <= i < s.len() ==> #[trigger] s[i] != ',',
    ensures
        (forall|i: int| 0 <= i < s.len() ==> text::white(#[trigger] s[i])) ==> csv::listed(s).len()
            == 0,
        (exists|i: int| 0 <= i < s.len() && !text::white(#[trigger] s[i])) ==> csv::listed(s)
            == seq![text::trimmed(s)],
{
    one_piece(s);
    choice::blank_texts_are_white(s);
    let trim = |p: Seq<char>| text::trimmed(p);
    let parts = seq![s];
    let some = |p: Seq<char>| p.len() > 0;
    let items = parts.map_values(trim);
    assert(items =~= seq![text::trimmed(s)]);
    if text::trimmed(s).len() > 0 {
        seqs::filter_all(items, some);
    } else {
        seqs::filter_none(items, some);
    }
}

proof fn one_piece(s: Seq<char>)
    requires
        forall|i: int| 0 <= i < s.len() ==> #[trigger] s[i] != ',',
    ensures
        csv::pieces(s) == seq![s],
    decreases s.len(),
{
    if s.len() > 0 {
        let rest = s.drop_last();
        assert forall|i: int| 0 <= i < rest.len() implies #[trigger] rest[i] != ',' by {
            assert(rest[i] == s[i]);
        }
        one_piece(rest);
        assert(s[s.len() - 1] != ',');
        assert(rest.push(s.last()) =~= s);
        assert(csv::pieces(s) =~= seq![s]);
    } else {
        assert(s =~= Seq::empty());
    }
}

/// The number that a text of decimal digits stands for.
pub open spec fn number(s: Seq<char>) -> int
    decreases s.len(),
{
    if s.len() == 0 {
        0
    } else {
        10 * number(s.drop_last()) + (s.last() as int - 48)
    }
}

/// A number in decimal notation is made of digits, stands for the number, and
/// has no zero too many in front.
pub proof fn decimal_notation_stands_for_its_number(n: nat)
    ensures
        ({
            let s = text::decimal(n);
            &&& s.len() > 0
            &&& forall|i: int| 0 <= i < s.len() ==> '0' <= #[trigger] s[i] <= '9'
            &&& number(s) == n
            &&& s.len() > 1 ==> s[0] != '0'
            &&& n > 0 ==> s[0] != '0'
        }),
    decreases n,
{
    let s = text::decimal(n);
    if n < 10 {
        assert(s.drop_last() =~= Seq::empty());
        assert(number(s.drop_last()) == 0);
        assert(s.last() as int == 48 + n);
    } else {
        let front = text::decimal(n / 10);
        decimal_notation_stands_for_its_number(n / 10);
        assert(s.drop_last() =~= front);
        assert(s.last() as int == 48 + n % 10);
        assert(s[0] == front[0]);
        assert forall|i: int| 0 <= i < s.len() implies '0' <= #[trigger] s[i] <= '9' by {
            if i < front.len() {
                assert(s[i] == front[i]);
            }
        }
    }
}

/// Widths add up, and no text is more than none.
pub proof fn widths_add_up(a: Seq<char>, b: Seq<char>)
    ensures
        width::width_of(a + b) == width::width_of(a) + width::width_of(b),
        width::width_of(Seq::empty()) == 0,
    decreases b.len(),
{
    if b.len() == 0 {
        assert(a + b =~= a);
    } else {
        widths_add_up(a, b.drop_last());
        assert((a + b).drop_last() =~= a + b.drop_last());
        assert((a + b).last() == b.last());
    }
}

/// A character of the ranges for CJK, Hangul, full-width forms and emoji takes
/// two columns, and any other character takes one.
pub proof fn characters_take_one_or_two_columns(c: char)
    ensures
        ({
            let n = c as int;
            let two = (0x1100 <= n <= 0x115F) || (0x2E80 <= n <= 0xA4CF) || (0xAC00 <= n <= 0xD7A3)
                || (0xF900 <= n <= 0xFAFF) || (0xFE30 <= n <= 0xFE4F) || (0xFF00 <= n <= 0xFF60)
                || (0xFFE0 <= n <= 0xFFE6) || (0x1F300 <= n <= 0x1FAFF) || (0x20000 <= n
                <= 0x3FFFD);
            &&& two ==> width::width_of(seq![c]) == 2
            &&& !two ==> width::width_of(seq![c]) == 1
            &&& width::wide(c) == two
        }),
{
    assert(seq![c].drop_last() =~= Seq::empty());
    assert(width::width_of(seq![c].drop_last()) == 0);
}

/// The cursor stands one column past the border and as many further as the text
/// before it is wide, unless that is beyond the end of the field or of the
/// screen.
pub proof fn cursor_stands_behind_the_text(x: u16, field: u16, line: Seq<char>, cursor: int)
    requires
        0 <= cursor,
    ensures
        ({
            let before = if cursor < line.len() {
                line.take(cursor)
            } else {
                line
            };
            let at = x + 1 + width::width_of(before);
            let end = if field < 2 {
                x as int
            } else {
                x + field - 2
            };
            let r = screen::cursor_column(x, field, line, cursor);
            &&& r <= 65535
            &&& r <= end
            &&& at <= end && at <= 65535 ==> r == at
            &&& at > end && end <= 65535 ==> r == end
            &&& at > 65535 && end > 65535 ==> r == 65535
        }),
{
    assert(line.take(line.len() as int) =~= line);
}

/// The cursor stands one row below the border, unless that is beyond the end of
/// the screen.
pub proof fn cursor_stands_below_the_border(y: u16)
    ensures
        y < 65535 ==> screen::capped(y as int, 1) == y + 1,
        y == 65535 ==> screen::capped(y as int, 1) == 65535,
{
}

/// The entry of a backend in the list: its number, its name and its address,
/// each in its own place, and a word where the name or the address is white
/// space throughout.
pub proof fn backends_are_labelled(i: nat, b: BackendView)
    ensures
        ({
            let no_name = forall|k: int| 0 <= k < b.name.len() ==> text::white(#[trigger] b.name[k]);
            let no_url = forall|k: int|
                0 <= k < b.base_url.len() ==> text::white(#[trigger] b.base_url[k]);
            let name = if no_name {
                "(未命名)"@
            } else {
                b.name
            };
            let url = if no_url {
                "(无 URL)"@
            } else {
                b.base_url
            };
            screen::label_of(i, b) == text::decimal(i) + ". "@ + name + "\n   "@ + url
        }),
{
    choice::blank_texts_are_white(b.name);
    choice::blank_texts_are_white(b.base_url);
}

/// Each field has its own label and its own placeholder.
pub proof fn fields_are_labelled()
    ensures
        screen::label_of_field(crate::admin::NAME as int) == "name"@,
        screen::label_of_field(crate::admin::URL as int) == "base_url"@,
        screen::label_of_field(crate::admin::KEYS as int) == "keys  (逗号分隔)"@,
        screen::label_of_field(crate::admin::MODELS as int) == "models  (逗号分隔)"@,
        screen::placeholder_of(crate::admin::NAME as int) == "名称…"@,
        screen::placeholder_of(crate::admin::URL as int) == "https://api.example.com"@,
        screen::placeholder_of(crate::admin::KEYS as int) == "sk-key-1, sk-key-2"@,
        screen::placeholder_of(crate::admin::MODELS as int) == "model-a, model-b"@,
{
}

} // verus!
