//! What the configuration editor shows: labels, hints and the place of the
//! cursor.

use crate::config::{Backend, BackendView};
use crate::text;
use crate::text::{chars_of, is_blank, join3, string_of, to_decimal};
use crate::width;
use crate::width::display_width;
use vstd::prelude::*;

verus! {

/// The title of the editor; a star says that there are unsaved changes.
pub fn title(dirty: bool) -> (r: String)
    ensures
        r@ == " llm-hub — 配置编辑器"@ + (if dirty {
            " *"@
        } else {
            ""@
        }) + " "@,
{
    join3(
        " llm-hub — 配置编辑器",
        if dirty {
            " *"
        } else {
            ""
        },
        " ",
    )
}

/// `s`, or `substitute` where `s` is blank.
pub open spec fn shown_or(s: Seq<char>, substitute: Seq<char>) -> Seq<char> {
    if text::blank(s) {
        substitute
    } else {
        s
    }
}

/// The entry of the backend at `i` in the list of backends: its number, its
/// name, and on a second line its address.
pub open spec fn label_of(i: nat, b: BackendView) -> Seq<char> {
    text::decimal(i) + ". "@ + shown_or(b.name, "(未命名)"@) + "\n   "@ + shown_or(
        b.base_url,
        "(无 URL)"@,
    )
}

/// The entry of the backend at `i` in the list of backends.
pub fn backend_label(i: usize, b: &Backend) -> (r: String)
    ensures
        r@ == label_of(i as nat, b@),
{
    let mut out = to_decimal(i);
    out.append(". ");
    if is_blank(b.name.as_str()) {
        out.append("(未命名)");
    } else {
        out.append(b.name.as_str());
    }
    out.append("\n   ");
    if is_blank(b.base_url.as_str()) {
        out.append("(无 URL)");
    } else {
        out.append(b.base_url.as_str());
    }
    out
}

/// The entry of the list that is highlighted, if there is one.
pub fn highlighted(selected: usize, n: usize) -> (r: Option<usize>)
    ensures
        r == if n == 0 {
            None::<usize>
        } else if selected < n {
            Some(selected)
        } else {
            Some((n - 1) as usize)
        },
{
    if n == 0 {
        None
    } else if selected < n {
        Some(selected)
    } else {
        Some(n - 1)
    }
}

/// The label of a field.
pub open spec fn label_of_field(field: int) -> Seq<char> {
    if field == 0 {
        "name"@
    } else if field == 1 {
        "base_url"@
    } else if field == 2 {
        "keys  (逗号分隔)"@
    } else {
        "models  (逗号分隔)"@
    }
}

/// The label of a field.
pub fn field_label(field: usize) -> (r: &'static str)
    ensures
        r@ == label_of_field(field as int),
{
    match field {
        0 => "name",
        1 => "base_url",
        2 => "keys  (逗号分隔)",
        _ => "models  (逗号分隔)",
    }
}

/// What an empty field shows.
pub open spec fn placeholder_of(field: int) -> Seq<char> {
    if field == 0 {
        "名称…"@
    } else if field == 1 {
        "https://api.example.com"@
    } else if field == 2 {
        "sk-key-1, sk-key-2"@
    } else {
        "model-a, model-b"@
    }
}

/// What an empty field shows.
pub fn placeholder(field: usize) -> (r: &'static str)
    ensures
        r@ == placeholder_of(field as int),
{
    match field {
        0 => "名称…",
        1 => "https://api.example.com",
        2 => "sk-key-1, sk-key-2",
        _ => "model-a, model-b",
    }
}

/// The keys that can be used.
pub fn hint(editing: bool) -> (r: &'static str)
    ensures
        r@ == if editing {
            " Esc/Enter 提交  Tab/↑↓ 切换字段  ←→ Home/End 移动光标  Backspace/Delete 删除"@
        } else {
            " ↑↓ 选择后端  Enter 编辑字段  a 新增  d 删除  s 保存  f 获取模型  q 退出"@
        },
{
    if editing {
        " Esc/Enter 提交  Tab/↑↓ 切换字段  ←→ Home/End 移动光标  Backspace/Delete 删除"
    } else {
        " ↑↓ 选择后端  Enter 编辑字段  a 新增  d 删除  s 保存  f 获取模型  q 退出"
    }
}

/// The status message in brackets, or nothing where there is none.
pub fn status_note(status: &str) -> (r: String)
    ensures
        r@ == if status@.len() == 0 {
            Seq::empty()
        } else {
            "["@ + status@ + "]  "@
        },
{
    if status.is_empty() {
        String::new()
    } else {
        join3("[", status, "]  ")
    }
}

/// The mark of unsaved changes.
pub fn dirty_note(dirty: bool) -> (r: &'static str)
    ensures
        r@ == if dirty {
            " ● 未保存"@
        } else {
            ""@
        },
{
    if dirty {
        " ● 未保存"
    } else {
        ""
    }
}

/// The smaller of two numbers.
pub open spec fn least(a: int, b: int) -> int {
    if a < b {
        a
    } else {
        b
    }
}

/// The sum, capped at the largest coordinate.
pub open spec fn capped(a: int, b: int) -> int {
    least(a + b, 65535)
}

/// The column of the cursor in a bordered field that starts at `x` and is
/// `width` wide: one past the border and the text before the cursor, but no
/// further than the field reaches.
pub open spec fn cursor_column(x: u16, width: u16, line: Seq<char>, cursor: int) -> int {
    let before = line.take(least(cursor, line.len() as int));
    let right = capped(
        x as int,
        if width < 2 {
            0
        } else {
            width - 2
        },
    );
    least(capped(capped(x as int, 1), least(width::width_of(before) as int, 65535)), right)
}

/// The place of the cursor in a bordered field with its corner at `x`, `y`.
pub fn cursor_cell(x: u16, y: u16, width: u16, line: &str, cursor: usize) -> (r: (u16, u16))
    ensures
        r.0 == cursor_column(x, width, line@, cursor as int),
        r.1 == capped(y as int, 1),
{
    let cs = chars_of(line);
    let n: usize = if cursor < cs.len() {
        cursor
    } else {
        cs.len()
    };
    let before = string_of(&cs, 0, n);
    assert(before@ =~= line@.take(least(cursor as int, line@.len() as int)));
    let col: usize = display_width(before.as_str());
    let col: u16 = if col > 65535 {
        65535
    } else {
        col as u16
    };
    let right: u16 = x.saturating_add(width.saturating_sub(2));
    let at: u16 = x.saturating_add(1).saturating_add(col);
    let at: u16 = if at < right {
        at
    } else {
        right
    };
    (at, y.saturating_add(1))
}

} // verus!
