//! Laws of the line editor and of the configuration editor.

use crate::admin;
use crate::admin::{AppView, EffectView, Input, Key, KeyPress};
use crate::config::BackendView;
use crate::csv;
use crate::editor::EditorView;
use crate::laws::lists;
use vstd::prelude::*;

verus! {

/// A character that was just typed is taken back by a backspace, and, after a
/// step to the left, by a delete.
pub proof fn typing_can_be_taken_back(e: EditorView, c: char)
    requires
        e.wf(),
    ensures
        e.inserted(c).backspaced() == e,
        e.inserted(c).moved_left().deleted() == e,
{
    assert(e.text.insert(e.cursor, c).remove(e.cursor) =~= e.text);
}

/// A character that was just removed can be typed again.
pub proof fn removal_can_be_taken_back(e: EditorView)
    requires
        e.wf(),
    ensures
        e.cursor > 0 ==> e.backspaced().inserted(e.text[e.cursor - 1]) == e,
        e.cursor < e.text.len() ==> e.deleted().inserted(e.text[e.cursor]).moved_left() == e,
{
    if e.cursor > 0 {
        assert(e.text.remove(e.cursor - 1).insert(e.cursor - 1, e.text[e.cursor - 1]) =~= e.text);
    }
    if e.cursor < e.text.len() {
        assert(e.text.remove(e.cursor).insert(e.cursor, e.text[e.cursor]) =~= e.text);
    }
}

/// Steps to the left and to the right cancel out where there is room, and no
/// move changes the text.
pub proof fn moves_cancel_out(e: EditorView)
    requires
        e.wf(),
    ensures
        e.cursor > 0 ==> e.moved_left().moved_right() == e,
        e.cursor < e.text.len() ==> e.moved_right().moved_left() == e,
        e.moved_left().text == e.text,
        e.moved_right().text == e.text,
        e.at_home().text == e.text,
        e.at_end().text == e.text,
{
}

/// A backend that the form can show and take back without a change.
pub open spec fn tidy(b: BackendView) -> bool {
    &&& lists::bare(b.name)
    &&& lists::bare(b.base_url)
    &&& forall|i: int| 0 <= i < b.keys.len() ==> lists::listable(#[trigger] b.keys[i])
    &&& forall|i: int| 0 <= i < b.models.len() ==> lists::listable(#[trigger] b.models[i])
}

/// What the form describes is tidy, whatever was typed.
pub proof fn forms_describe_tidy_backends(form: Seq<EditorView>)
    ensures
        tidy(admin::backend_of(form)),
{
    lists::trimmed_is_a_bare_piece(form[0].text);
    lists::trimmed_is_a_bare_piece(form[1].text);
    lists::listed_texts_are_listable(form[2].text);
    lists::listed_texts_are_listable(form[3].text);
}

/// A tidy backend survives the form.
pub proof fn tidy_backend_survives_the_form(b: BackendView)
    requires
        tidy(b),
    ensures
        admin::backend_of(admin::form_of(b)) == b,
{
    lists::bare_text_is_kept(b.name);
    lists::bare_text_is_kept(b.base_url);
    lists::list_survives_the_line(b.keys);
    lists::list_survives_the_line(b.models);
}

/// Opening the form of a tidy backend and committing it as it is changes neither
/// the configuration nor the mark of unsaved changes.
pub proof fn untouched_form_changes_nothing(v: AppView)
    requires
        v.wf(),
        v.selected < v.config.len(),
        tidy(v.config[v.selected]),
    ensures
        ({
            let w = v.edit_begun().edit_committed();
            &&& w.config == v.config
            &&& w.dirty == v.dirty
            &&& w.selected == v.selected
            &&& !w.editing
        }),
{
    tidy_backend_survives_the_form(v.config[v.selected]);
}

/// A committed form is what the configuration then holds for the selected
/// backend. It differs from what editing began with only if the changes are
/// marked as unsaved.
pub proof fn committed_form_is_kept(v: AppView)
    requires
        v.wf(),
        v.editing,
    ensures
        ({
            let w = v.edit_committed();
            &&& v.changed() ==> w.config[v.selected] == admin::backend_of(v.edits) && w.dirty
            &&& !v.changed() ==> w.config == v.config && w.dirty == v.dirty
            &&& forall|i: int|
                0 <= i < v.config.len() && i != v.selected ==> #[trigger] w.config[i]
                    == v.config[i]
        }),
{
}

/// No key press changes the configuration without a mark of unsaved changes, and
/// none takes such a mark away.
pub proof fn changes_are_marked(v: AppView, input: Input)
    requires
        v.wf(),
    ensures
        ({
            let w = v.after(input).0;
            &&& w.config == v.config || w.dirty
            &&& v.dirty ==> w.dirty
        }),
{
}

/// The outcome of a fetch changes the configuration only with a mark of unsaved
/// changes, and then only the models of the backend at the position that it
/// names.
pub proof fn fetch_touches_one_list_of_models(
    v: AppView,
    idx: int,
    outcome: Result<Seq<Seq<char>>, Seq<char>>,
)
    requires
        v.wf(),
    ensures
        ({
            let w = v.fetched(idx, outcome);
            &&& w.config == v.config || w.dirty
            &&& w.config.len() == v.config.len()
            &&& forall|i: int|
                0 <= i < v.config.len() ==> {
                    &&& (#[trigger] w.config[i]).name == v.config[i].name
                    &&& w.config[i].base_url == v.config[i].base_url
                    &&& w.config[i].keys == v.config[i].keys
                    &&& i != idx ==> w.config[i].models == v.config[i].models
                }
        }),
{
}

/// The outcome of a fetch that is not awaited is discarded and changes nothing
/// at all; in particular, the fetch that is awaited stays so. An awaited outcome
/// whose backend is not selected any longer is discarded too. When the fetch
/// failed, the configuration and the form stay as they are.
pub proof fn stale_fetch_is_discarded(
    v: AppView,
    idx: int,
    outcome: Result<Seq<Seq<char>>, Seq<char>>,
)
    ensures
        ({
            let w = v.fetched(idx, outcome);
            &&& v.pending_fetch_for != Some(idx) ==> w == v
            &&& v.pending_fetch_for == Some(idx) && v.selected != idx ==> w == (AppView {
                pending_fetch_for: None,
                ..v
            })
            &&& outcome is Err ==> w.config == v.config && w.edits == v.edits && w.dirty == v.dirty
        }),
{
}

/// Outcomes for other backends do not keep an awaited outcome from being
/// applied.
pub proof fn superseded_outcome_leaves_the_awaited_one(
    v: AppView,
    other: int,
    stale: Result<Seq<Seq<char>>, Seq<char>>,
    idx: int,
    models: Seq<Seq<char>>,
)
    requires
        v.wf(),
        v.pending_fetch_for == Some(idx),
        v.selected == idx,
        idx < v.config.len(),
        other != idx,
    ensures
        ({
            let w = v.fetched(other, stale).fetched(idx, Ok(models));
            &&& w == v.fetched(idx, Ok(models))
            &&& w.config[idx].models == models
        }),
{
}

/// When a backend is deleted, no fetch stays awaited for it, nor for a backend
/// that moves up: an outcome under one of their positions changes nothing.
pub proof fn deletion_discards_fetches(
    v: AppView,
    idx: int,
    outcome: Result<Seq<Seq<char>>, Seq<char>>,
)
    requires
        v.wf(),
        v.config.len() > 0,
        idx >= v.selected,
    ensures
        v.backend_deleted().fetched(idx, outcome) == v.backend_deleted(),
{
}

/// The models that a fetch brings are what the configuration then holds, and
/// what the form shows.
pub proof fn fetched_models_are_kept(v: AppView, idx: int, models: Seq<Seq<char>>)
    requires
        v.wf(),
        v.pending_fetch_for == Some(idx),
        v.selected == idx,
        idx < v.config.len(),
    ensures
        ({
            let w = v.fetched(idx, Ok(models));
            &&& w.config[idx].models == models
            &&& w.edits[3].text == csv::line_of(models)
            &&& w.dirty
            &&& w.pending_fetch_for is None
        }),
{
}

/// Control-C ends the editor from anywhere and asks for a write exactly when
/// there are unsaved changes; so does `q` while the list is browsed.
pub proof fn leaving_saves_what_is_unsaved(v: AppView, control: bool)
    ensures
        v.after(Input::Key(KeyPress { key: Key::Char('c'), control: true })) == (
            v,
            EffectView::Quit { save: v.dirty },
        ),
        !v.editing ==> v.after(Input::Key(KeyPress { key: Key::Char('q'), control })) == (
            v,
            EffectView::Quit { save: v.dirty },
        ),
        v.ended(true).quit && !v.ended(true).dirty,
        v.ended(false).quit && v.ended(false).dirty == v.dirty,
{
}

/// While a field is edited, every letter is text: `f` fetches nothing and `q`
/// does not leave.
pub proof fn letters_are_text_while_editing(v: AppView, c: char)
    requires
        v.editing,
    ensures
        v.after(Input::Key(KeyPress { key: Key::Char(c), control: false })) == (
            v.typed(v.active().inserted(c)),
            EffectView::Nothing,
        ),
{
}

/// Four steps through the fields lead back, and a step forward and one back
/// cancel out.
pub proof fn fields_go_round(v: AppView)
    requires
        0 <= v.field < 4,
    ensures
        v.field_cycled(1).field_cycled(1).field_cycled(1).field_cycled(1) == v,
        v.field_cycled(1).field_cycled(-1) == v,
        v.field_cycled(-1).field_cycled(1) == v,
{
}

/// The selection stays within the list however it is moved, and moving it
/// changes no backend.
pub proof fn selection_stays_in_the_list(v: AppView, delta: int)
    requires
        v.wf(),
        v.config.len() > 0,
    ensures
        0 <= v.selection_moved(delta).selected < v.config.len(),
        v.selection_moved(delta).config == v.config,
        v.selection_moved(delta).dirty == v.dirty,
{
}

/// A backend that was added and left empty can be deleted again, which leaves
/// the backends that there were.
pub proof fn added_backend_can_be_deleted(v: AppView)
    requires
        v.wf(),
        !v.editing,
    ensures
        v.backend_added().edit_committed().backend_deleted().config == v.config,
{
    let b = crate::config::empty_backend();
    let w = v.backend_added();
    assert(w.config == v.config.push(b));
    assert(w.selected == v.config.len());
    assert(w.config[w.selected] == b);
    tidy_backend_survives_the_form(b);
    assert(!w.changed());
    let x = w.edit_committed();
    assert(x.config.remove(v.config.len() as int) =~= v.config);
}

} // verus!
