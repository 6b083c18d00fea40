//! What each key press and each outcome does to the configuration editor, told
//! on the backends, the fields and the cursor alone.

use crate::admin;
use crate::admin::{AppView, EffectView, Input, Key, KeyPress};
use crate::config::BackendView;
use crate::csv;
use crate::editor;
use crate::editor::EditorView;
use crate::laws::choice;
use crate::text;
use vstd::prelude::*;

verus! {

/// A character is typed in front of what follows the cursor, and the cursor
/// moves behind it.
pub proof fn typing_puts_a_character_at_the_cursor(e: EditorView, c: char)
    requires
        e.wf(),
    ensures
        e.inserted(c).text == e.text.take(e.cursor) + seq![c] + e.text.skip(e.cursor),
        e.inserted(c).cursor == e.cursor + 1,
{
    assert(e.inserted(c).text =~= e.text.take(e.cursor) + seq![c] + e.text.skip(e.cursor));
}

/// Backspace takes away the one character before the cursor, and delete the one
/// behind it. At the start and at the end there is none.
pub proof fn removing_takes_one_character(e: EditorView)
    requires
        e.wf(),
    ensures
        e.cursor == 0 ==> e.backspaced() == e,
        e.cursor > 0 ==> e.backspaced().text == e.text.take(e.cursor - 1) + e.text.skip(e.cursor),
        e.cursor > 0 ==> e.backspaced().cursor == e.cursor - 1,
        e.cursor == e.text.len() ==> e.deleted() == e,
        e.cursor < e.text.len() ==> e.deleted().text == e.text.take(e.cursor) + e.text.skip(
            e.cursor + 1,
        ),
        e.deleted().cursor == e.cursor,
{
    if e.cursor > 0 {
        assert(e.backspaced().text =~= e.text.take(e.cursor - 1) + e.text.skip(e.cursor));
    }
    if e.cursor < e.text.len() {
        assert(e.deleted().text =~= e.text.take(e.cursor) + e.text.skip(e.cursor + 1));
    }
}

/// Moves change the cursor alone: by one, but not beyond the ends, or to an end.
/// An editor begins at the end of its text.
pub proof fn moves_change_the_cursor(e: EditorView, s: Seq<char>)
    requires
        e.wf(),
    ensures
        e.moved_left().text == e.text,
        e.moved_left().cursor == if e.cursor == 0 {
            0
        } else {
            e.cursor - 1
        },
        e.moved_right().text == e.text,
        e.moved_right().cursor == if e.cursor == e.text.len() {
            e.cursor
        } else {
            e.cursor + 1
        },
        e.at_home().text == e.text,
        e.at_home().cursor == 0,
        e.at_end().text == e.text,
        e.at_end().cursor == e.text.len(),
        editor::editor_on(s).text == s,
        editor::editor_on(s).cursor == s.len(),
{
}

/// Whether the form shows the backend `b`, with the cursor at the end of each
/// field.
pub open spec fn shows(form: Seq<EditorView>, b: BackendView) -> bool {
    &&& form.len() == 4
    &&& form[0].text == b.name
    &&& form[1].text == b.base_url
    &&& form[2].text == csv::line_of(b.keys)
    &&& form[3].text == csv::line_of(b.models)
    &&& forall|i: int| 0 <= i < 4 ==> (#[trigger] form[i]).cursor == form[i].text.len()
}

/// Whether every field of `b` is empty.
pub open spec fn is_empty(b: BackendView) -> bool {
    b.name.len() == 0 && b.base_url.len() == 0 && b.keys.len() == 0 && b.models.len() == 0
}

/// A key press without the control key.
pub open spec fn pressed(key: Key) -> Input {
    Input::Key(KeyPress { key, control: false })
}

/// The editor opens on the first backend, with nothing to save. A configuration
/// without backends gets an empty one to edit.
pub proof fn editor_opens_on_the_first_backend(config: Seq<BackendView>)
    ensures
        ({
            let v = admin::opened(config);
            &&& config.len() > 0 ==> v.config == config
            &&& config.len() == 0 ==> v.config.len() == 1 && is_empty(v.config[0])
            &&& v.selected == 0
            &&& shows(v.edits, v.config[0])
            &&& !v.dirty
            &&& !v.editing
            &&& !v.quit
            &&& v.field == 0
            &&& v.status.len() == 0
            &&& v.snapshot is None
            &&& v.pending_fetch_for is None
        }),
{
}

/// Up and Down select the neighbour in the list, where there is one, and the form
/// then shows it. The backends stay as they are.
pub proof fn arrows_select_the_neighbour(v: AppView)
    requires
        v.wf(),
        !v.editing,
        v.config.len() > 0,
    ensures
        ({
            let (up, e) = v.after(pressed(Key::Up));
            &&& e is Nothing
            &&& up.selected == if v.selected > 0 {
                v.selected - 1
            } else {
                0
            }
            &&& shows(up.edits, v.config[up.selected])
            &&& up == (AppView { selected: up.selected, edits: up.edits, ..v })
        }),
        ({
            let (down, e) = v.after(pressed(Key::Down));
            &&& e is Nothing
            &&& down.selected == if v.selected + 1 < v.config.len() {
                v.selected + 1
            } else {
                v.selected
            }
            &&& shows(down.edits, v.config[down.selected])
            &&& down == (AppView { selected: down.selected, edits: down.edits, ..v })
        }),
{
}

/// The selection moves by as much as it is told, but stops at the ends.
pub proof fn selection_moves_within_the_list(v: AppView, delta: int)
    requires
        v.wf(),
        v.config.len() > 0,
        !v.editing,
    ensures
        ({
            let w = v.selection_moved(delta);
            let wanted = v.selected + delta;
            &&& 0 <= wanted < v.config.len() ==> w.selected == wanted
            &&& wanted < 0 ==> w.selected == 0
            &&& wanted >= v.config.len() ==> w.selected == v.config.len() - 1
            &&& shows(w.edits, v.config[w.selected])
            &&& w == (AppView { selected: w.selected, edits: w.edits, ..v })
        }),
{
}

/// Enter opens the form on the selected backend, at its first field.
pub proof fn enter_opens_the_form(v: AppView)
    requires
        v.wf(),
        !v.editing,
        v.config.len() > 0,
    ensures
        ({
            let (w, e) = v.after(pressed(Key::Enter));
            &&& e is Nothing
            &&& w.editing
            &&& w.field == 0
            &&& shows(w.edits, v.config[v.selected])
            &&& w.snapshot == Some(v.config[v.selected])
            &&& w.status.len() == 0
            &&& w.config == v.config
            &&& w.selected == v.selected
            &&& w.dirty == v.dirty
            &&& w.pending_fetch_for == v.pending_fetch_for
            &&& w.quit == v.quit
        }),
{
}

/// `a` puts an empty backend behind all others and opens the form on it.
pub proof fn adding_puts_an_empty_backend_last(v: AppView)
    requires
        v.wf(),
        !v.editing,
    ensures
        ({
            let (w, e) = v.after(pressed(Key::Char('a')));
            let n = v.config.len() as int;
            &&& e is Nothing
            &&& w.config.len() == n + 1
            &&& forall|i: int| 0 <= i < n ==> #[trigger] w.config[i] == v.config[i]
            &&& is_empty(w.config[n])
            &&& w.selected == n
            &&& w.dirty
            &&& w.editing
            &&& w.field == 0
            &&& w.snapshot == Some(w.config[n])
            &&& shows(w.edits, w.config[n])
            &&& w.pending_fetch_for == v.pending_fetch_for
            &&& w.quit == v.quit
        }),
{
}

/// `d` removes the selected backend and no other: those before it keep their
/// places, and those after it move up by one. The selection stays in place, or
/// goes to the new last backend, and the form shows what is then selected.
pub proof fn deleting_removes_the_selected_backend(v: AppView)
    requires
        v.wf(),
        !v.editing,
        0 <= v.selected < v.config.len(),
    ensures
        ({
            let (w, e) = v.after(pressed(Key::Char('d')));
            let n = v.config.len() as int;
            let at = v.selected;
            &&& e is Nothing
            &&& w == v.backend_deleted()
            &&& w.config == v.config.take(at) + v.config.skip(at + 1)
            &&& w.config.len() == n - 1
            &&& forall|i: int| 0 <= i < at ==> #[trigger] w.config[i] == v.config[i]
            &&& forall|i: int| at <= i < n - 1 ==> #[trigger] w.config[i] == v.config[i + 1]
            &&& at < n - 1 ==> w.selected == at
            &&& at == n - 1 && n > 1 ==> w.selected == n - 2
            &&& n == 1 ==> w.selected == 0
            &&& n > 1 ==> shows(w.edits, w.config[w.selected])
            &&& w.dirty
            &&& !w.editing
            &&& w.status == "已删除后端 #"@ + text::decimal(at as nat)
            &&& v.pending_fetch_for is Some && v.pending_fetch_for->0 < at
                ==> w.pending_fetch_for == v.pending_fetch_for
            &&& v.pending_fetch_for is None || v.pending_fetch_for->0 >= at
                ==> w.pending_fetch_for is None
            &&& w.quit == v.quit
            &&& w.field == v.field
        }),
{
    let at = v.selected;
    assert(v.config.remove(at) =~= v.config.take(at) + v.config.skip(at + 1));
}

/// Without backends there is nothing to move through, to open or to delete.
pub proof fn nothing_happens_without_backends(v: AppView)
    requires
        v.wf(),
        v.config.len() == 0,
    ensures
        v.after(pressed(Key::Up)) == (v, EffectView::Nothing),
        v.after(pressed(Key::Down)) == (v, EffectView::Nothing),
        v.after(pressed(Key::Enter)) == (v, EffectView::Nothing),
        v.after(pressed(Key::Char('d'))) == (v, EffectView::Nothing),
{
}

/// `s` asks for a save and `q` for the end, with a save where there is something
/// unsaved; control-C does as `q` does, also while a form is open. None of them
/// changes the state by itself.
pub proof fn saving_and_leaving_are_asked_for(v: AppView)
    requires
        v.wf(),
    ensures
        !v.editing ==> v.after(pressed(Key::Char('s'))) == (v, EffectView::Save),
        !v.editing ==> v.after(pressed(Key::Char('q'))) == (
            v,
            EffectView::Quit { save: v.dirty },
        ),
        v.after(Input::Key(KeyPress { key: Key::Char('c'), control: true })) == (
            v,
            EffectView::Quit { save: v.dirty },
        ),
        v.after(Input::Other) == (v, EffectView::Nothing),
{
}

/// While the list is browsed, no other key does anything.
pub proof fn other_keys_do_nothing_in_the_list(v: AppView, key: Key)
    requires
        v.wf(),
        !v.editing,
        key != Key::Up,
        key != Key::Down,
        key != Key::Enter,
        key != Key::Char('a'),
        key != Key::Char('d'),
        key != Key::Char('s'),
        key != Key::Char('q'),
        key != Key::Char('f'),
    ensures
        v.after(pressed(key)) == (v, EffectView::Nothing),
{
}

/// The outcome of a save: a success leaves nothing unsaved, and a failure says
/// why and leaves what was unsaved.
pub proof fn saves_are_reported(v: AppView, reason: Seq<char>)
    ensures
        ({
            let w = v.saved(Ok(()));
            !w.dirty && w.status == "已保存"@ && w == (AppView {
                dirty: false,
                status: w.status,
                ..v
            })
        }),
        ({
            let w = v.saved(Err(reason));
            w.status == "保存失败: "@ + reason && w == (AppView { status: w.status, ..v })
        }),
        v.ended(true) == (AppView { dirty: false, quit: true, ..v }),
        v.ended(false) == (AppView { quit: true, ..v }),
{
}

/// Whether `e` is the active field of `w`, and all else in `w` is as in `v`.
pub open spec fn only_active_field(v: AppView, w: AppView, e: EditorView) -> bool {
    &&& w.edits.len() == v.edits.len()
    &&& w.edits[v.field] == e
    &&& forall|i: int|
        0 <= i < v.edits.len() && i != v.field ==> #[trigger] w.edits[i] == v.edits[i]
    &&& w == (AppView { edits: w.edits, ..v })
}

/// While a form is open, letters, backspace, delete and the cursor keys work on
/// the active field and on nothing else.
pub proof fn keys_work_on_the_active_field(v: AppView, c: char)
    requires
        v.wf(),
        v.editing,
    ensures
        ({
            let e = v.edits[v.field];
            &&& only_active_field(v, v.after(pressed(Key::Char(c))).0, e.inserted(c))
            &&& only_active_field(v, v.after(pressed(Key::Backspace)).0, e.backspaced())
            &&& only_active_field(v, v.after(pressed(Key::Delete)).0, e.deleted())
            &&& only_active_field(v, v.after(pressed(Key::Left)).0, e.moved_left())
            &&& only_active_field(v, v.after(pressed(Key::Right)).0, e.moved_right())
            &&& only_active_field(v, v.after(pressed(Key::Home)).0, e.at_home())
            &&& only_active_field(v, v.after(pressed(Key::End)).0, e.at_end())
            &&& v.after(pressed(Key::Other)).0 == v
            &&& v.after(pressed(Key::Char(c))).1 is Nothing
            &&& v.after(pressed(Key::Backspace)).1 is Nothing
            &&& v.after(pressed(Key::Enter)).1 is Nothing
            &&& v.after(pressed(Key::Esc)).1 is Nothing
        }),
{
}

/// While a form is open, Tab and Down go to the next field, Shift-Tab and Up to
/// the one before, around the ends, and nothing else changes.
pub proof fn keys_go_through_the_fields(v: AppView)
    requires
        v.wf(),
        v.editing,
    ensures
        ({
            let next = if v.field == 3 {
                0
            } else {
                v.field + 1
            };
            let before = if v.field == 0 {
                3
            } else {
                v.field - 1
            };
            &&& v.after(pressed(Key::Tab)).0 == (AppView { field: next, ..v })
            &&& v.after(pressed(Key::Down)).0 == (AppView { field: next, ..v })
            &&& v.after(pressed(Key::BackTab)).0 == (AppView { field: before, ..v })
            &&& v.after(pressed(Key::Up)).0 == (AppView { field: before, ..v })
        }),
{
}

/// The active field moves by as much as it is told, around the ends, and nothing
/// else changes.
pub proof fn fields_are_counted_around(v: AppView, delta: int)
    requires
        v.wf(),
    ensures
        ({
            let w = v.field_cycled(delta);
            &&& 0 <= w.field < 4
            &&& exists|rounds: int| w.field == v.field + delta + #[trigger] (4 * rounds)
            &&& w == (AppView { field: w.field, ..v })
        }),
{
    let w = v.field_cycled(delta);
    let rounds = -((v.field + delta) / 4);
    assert(w.field == v.field + delta + 4 * rounds);
}

/// The control key matters together with `c` alone.
pub proof fn control_matters_for_c_alone(v: AppView, key: Key)
    requires
        key != Key::Char('c'),
    ensures
        v.after(Input::Key(KeyPress { key, control: true })) == v.after(pressed(key)),
{
}

/// Enter and Escape close the form. The selected backend becomes what the form
/// describes: name and address trimmed, keys and models as they are listed. That
/// counts as unsaved where it differs from the backend that the form was opened
/// on; otherwise, and for every other backend, nothing changes.
pub proof fn closing_the_form_takes_it_over(v: AppView)
    requires
        v.wf(),
        v.editing,
    ensures
        v.after(pressed(Key::Esc)) == v.after(pressed(Key::Enter)),
        ({
            let w = v.after(pressed(Key::Enter)).0;
            let b = v.snapshot->0;
            let name = text::trimmed(v.edits[0].text);
            let base_url = text::trimmed(v.edits[1].text);
            let keys = csv::listed(v.edits[2].text);
            let models = csv::listed(v.edits[3].text);
            let same = b.name == name && b.base_url == base_url && b.keys == keys && b.models
                == models;
            &&& w.config.len() == v.config.len()
            &&& forall|i: int|
                0 <= i < v.config.len() && i != v.selected ==> #[trigger] w.config[i]
                    == v.config[i]
            &&& same ==> {
                &&& w.config[v.selected] == v.config[v.selected]
                &&& w.dirty == v.dirty
                &&& w.status == v.status
            }
            &&& !same ==> {
                &&& w.config[v.selected].name == name
                &&& w.config[v.selected].base_url == base_url
                &&& w.config[v.selected].keys == keys
                &&& w.config[v.selected].models == models
                &&& w.dirty
                &&& w.status == "已应用"@
            }
            &&& !w.editing
            &&& w.snapshot is None
            &&& w.selected == v.selected
            &&& shows(w.edits, w.config[w.selected])
            &&& w.pending_fetch_for == v.pending_fetch_for
            &&& w.quit == v.quit
        }),
{
}

/// Whether `key` is the first of `keys` that is not white space throughout,
/// trimmed.
pub open spec fn first_of(keys: Seq<Seq<char>>, key: Seq<char>) -> bool {
    exists|i: int|
        {
            &&& 0 <= i < keys.len()
            &&& !white_throughout(#[trigger] keys[i])
            &&& forall|j: int| 0 <= j < i ==> white_throughout(#[trigger] keys[j])
            &&& key == text::trimmed(keys[i])
        }
}

/// Whether every character of `s` is white space.
pub open spec fn white_throughout(s: Seq<char>) -> bool {
    forall|i: int| 0 <= i < s.len() ==> text::white(#[trigger] s[i])
}

proof fn first_key_is_the_first(keys: Seq<Seq<char>>)
    ensures
        admin::first_key(keys) is Some ==> first_of(keys, admin::first_key(keys)->0),
        admin::first_key(keys) is None <==> forall|i: int|
            0 <= i < keys.len() ==> white_throughout(#[trigger] keys[i]),
    decreases keys.len(),
{
    if keys.len() > 0 {
        choice::blank_texts_are_white(keys[0]);
        if text::blank(keys[0]) {
            let rest = keys.skip(1);
            first_key_is_the_first(rest);
            if admin::first_key(rest) is Some {
                let key = admin::first_key(rest)->0;
                let i = choose|i: int|
                    {
                        &&& 0 <= i < rest.len()
                        &&& !white_throughout(#[trigger] rest[i])
                        &&& forall|j: int| 0 <= j < i ==> white_throughout(#[trigger] rest[j])
                        &&& key == text::trimmed(rest[i])
                    };
                assert(keys[i + 1] == rest[i]);
                assert forall|j: int| 0 <= j < i + 1 implies white_throughout(
                    #[trigger] keys[j],
                ) by {
                    if j > 0 {
                        assert(rest[j - 1] == keys[j]);
                    }
                }
            } else {
                assert forall|i: int| 0 <= i < keys.len() implies white_throughout(
                    #[trigger] keys[i],
                ) by {
                    if i > 0 {
                        assert(rest[i - 1] == keys[i]);
                    }
                }
            }
            if forall|i: int| 0 <= i < keys.len() ==> white_throughout(#[trigger] keys[i]) {
                assert forall|i: int| 0 <= i < rest.len() implies white_throughout(
                    #[trigger] rest[i],
                ) by {
                    assert(rest[i] == keys[i + 1]);
                }
            }
        } else {
            assert(!white_throughout(keys[0]));
        }
    }
}

/// `f` asks for the models of the selected backend, with its trimmed address
/// without the slashes at the end and its first key, where it has both. Without
/// them the user is told, and nothing is asked for.
pub proof fn fetching_needs_an_address_and_a_key(v: AppView, base: Seq<char>)
    requires
        v.wf(),
        !v.editing,
        v.config.len() > 0,
        choice::stripped(text::trimmed(v.config[v.selected].base_url), base),
    ensures
        ({
            let (w, e) = v.after(pressed(Key::Char('f')));
            let keys = v.config[v.selected].keys;
            let able = base.len() > 0 && exists|i: int|
                0 <= i < keys.len() && !white_throughout(#[trigger] keys[i]);
            &&& able ==> {
                &&& e is Fetch
                &&& e->Fetch_backend_index == v.selected
                &&& e->Fetch_base == base
                &&& first_of(keys, e->Fetch_key)
                &&& w == (AppView {
                    pending_fetch_for: Some(v.selected),
                    status: "正在获取模型列表…"@,
                    ..v
                })
            }
            &&& !able ==> {
                &&& e is Nothing
                &&& w == (AppView { status: "请先填写 base_url 和 key"@, ..v })
            }
        }),
{
    let b = v.config[v.selected];
    let url = text::trimmed(b.base_url);
    choice::addresses_lose_their_slashes(url);
    stripped_is_unique(url, base, text::without_slashes(url));
    first_key_is_the_first(b.keys);
}

proof fn stripped_is_unique(s: Seq<char>, a: Seq<char>, b: Seq<char>)
    requires
        choice::stripped(s, a),
        choice::stripped(s, b),
    ensures
        a == b,
{
    if a.len() < b.len() {
        assert(s[b.len() - 1] == '/');
        assert(b[b.len() - 1] == s[b.len() - 1]);
    }
    if b.len() < a.len() {
        assert(s[a.len() - 1] == '/');
        assert(a[a.len() - 1] == s[a.len() - 1]);
    }
}

/// The awaited models of the selected backend are taken over, into the
/// configuration and into the form, and count as unsaved. Other backends, and
/// the other fields of this one, stay as they are.
pub proof fn awaited_models_are_taken_over(v: AppView, models: Seq<Seq<char>>)
    requires
        v.wf(),
        0 <= v.selected < v.config.len(),
        v.pending_fetch_for == Some(v.selected),
    ensures
        ({
            let at = v.selected;
            let w = v.fetched(at, Ok(models));
            &&& w.config.len() == v.config.len()
            &&& forall|i: int|
                0 <= i < v.config.len() && i != at ==> #[trigger] w.config[i] == v.config[i]
            &&& w.config[at].models == models
            &&& w.config[at].name == v.config[at].name
            &&& w.config[at].base_url == v.config[at].base_url
            &&& w.config[at].keys == v.config[at].keys
            &&& w.edits.len() == 4
            &&& w.edits[3].text == csv::line_of(models)
            &&& w.edits[3].cursor == csv::line_of(models).len()
            &&& forall|i: int| 0 <= i < 3 ==> #[trigger] w.edits[i] == v.edits[i]
            &&& w.dirty
            &&& w.pending_fetch_for is None
            &&& models.len() == 0 ==> w.status == "未获取到模型（响应中无 data.id）"@
            &&& models.len() > 0 ==> w.status == "已获取 "@ + text::decimal(models.len())
                + " 个模型"@
            &&& w.editing == v.editing
            &&& w.selected == v.selected
            &&& w.field == v.field
            &&& w.snapshot == v.snapshot
            &&& w.quit == v.quit
        }),
{
}

/// An awaited fetch of the selected backend that failed is reported, and changes
/// nothing else.
pub proof fn failed_fetches_are_reported(v: AppView, reason: Seq<char>)
    requires
        v.wf(),
        v.pending_fetch_for == Some(v.selected),
    ensures
        v.fetched(v.selected, Err(reason)) == (AppView {
            pending_fetch_for: None,
            status: "获取失败: "@ + reason,
            ..v
        }),
{
}

} // verus!
