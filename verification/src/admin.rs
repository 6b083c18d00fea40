//! The configuration editor: a list of backends, and a form with four fields for
//! the selected one.
//!
//! The editor performs no input or output itself. It takes in key presses and
//! says by an [`Effect`] what is to be done outside; the outcome comes back
//! through [`App::save`], [`App::quit`] and [`App::apply_fetch`].

use crate::config::{backend_eq, Backend, BackendView, Config};
use crate::config;
use crate::csv;
use crate::csv::{from_csv, to_csv};
use crate::editor;
use crate::editor::{Editor, EditorView};
use crate::text;
use crate::text::{join2, join3, to_decimal, trim, trim_slashes};
use vstd::prelude::*;

verus! {

/// The name field of the form.
pub const NAME: usize = 0;

/// The address field of the form.
pub const URL: usize = 1;

/// The field with the keys.
pub const KEYS: usize = 2;

/// The field with the models.
pub const MODELS: usize = 3;

/// The number of fields.
pub const FIELDS: usize = 4;

/// A key of the keyboard.
#[derive(Debug, Clone, Copy, PartialEq, Eq, Structural)]
pub enum Key {
    Up,
    Down,
    Left,
    Right,
    Home,
    End,
    Enter,
    Esc,
    Tab,
    BackTab,
    Backspace,
    Delete,
    Char(char),
    Other,
}

/// A key press. `control` says whether the control key was held down.
#[derive(Debug, Clone, Copy, PartialEq, Eq, Structural)]
pub struct KeyPress {
    pub key: Key,
    pub control: bool,
}

/// What comes from the terminal.
#[derive(Debug, Clone, Copy, PartialEq, Eq, Structural)]
pub enum Input {
    Key(KeyPress),
    /// Anything else, such as a change of size.
    Other,
}

/// What is to be done outside the editor.
pub enum Effect {
    Nothing,
    /// Write the configuration and report the outcome to [`App::save`].
    Save,
    /// Write the configuration if `save` is set, and report to [`App::quit`]
    /// whether it was written.
    Quit { save: bool },
    /// Fetch the models of a backend and report them to [`App::apply_fetch`].
    Fetch { backend_index: usize, base: String, key: String },
}

/// What an [`Effect`] holds.
#[verifier::ext_equal]
pub enum EffectView {
    Nothing,
    Save,
    Quit { save: bool },
    Fetch { backend_index: int, base: Seq<char>, key: Seq<char> },
}

impl View for Effect {
    type V = EffectView;

    open spec fn view(&self) -> EffectView {
        match self {
            Effect::Nothing => EffectView::Nothing,
            Effect::Save => EffectView::Save,
            Effect::Quit { save } => EffectView::Quit { save: *save },
            Effect::Fetch { backend_index, base, key } => EffectView::Fetch {
                backend_index: *backend_index as int,
                base: base@,
                key: key@,
            },
        }
    }
}

/// The state of the configuration editor.
pub struct App {
    config: Config,
    dirty: bool,
    selected: usize,
    editing: bool,
    field: usize,
    edits: Vec<Editor>,
    snapshot: Option<Backend>,
    pending_fetch_for: Option<usize>,
    status: String,
    quit: bool,
}

/// What an [`App`] holds.
#[verifier::ext_equal]
pub struct AppView {
    pub config: Seq<BackendView>,
    /// Whether the configuration differs from the one on disk.
    pub dirty: bool,
    /// The position of the selected backend.
    pub selected: int,
    /// Whether the form is being edited.
    pub editing: bool,
    /// The active field of the form.
    pub field: int,
    /// The contents of the form.
    pub edits: Seq<EditorView>,
    /// The backend as it was when editing began.
    pub snapshot: Option<BackendView>,
    /// The backend for which a fetch is under way.
    pub pending_fetch_for: Option<int>,
    /// The message in the status line.
    pub status: Seq<char>,
    /// Whether the editor is to end.
    pub quit: bool,
}

impl View for App {
    type V = AppView;

    closed spec fn view(&self) -> AppView {
        AppView {
            config: self.config@,
            dirty: self.dirty,
            selected: self.selected as int,
            editing: self.editing,
            field: self.field as int,
            edits: self.edits@.map_values(|e: Editor| e@),
            snapshot: match self.snapshot {
                Some(b) => Some(b@),
                None => None,
            },
            pending_fetch_for: match self.pending_fetch_for {
                Some(i) => Some(i as int),
                None => None,
            },
            status: self.status@,
            quit: self.quit,
        }
    }
}

/// The form for a backend.
pub open spec fn form_of(b: BackendView) -> Seq<EditorView> {
    seq![
        editor::editor_on(b.name),
        editor::editor_on(b.base_url),
        editor::editor_on(csv::line_of(b.keys)),
        editor::editor_on(csv::line_of(b.models)),
    ]
}

/// The backend that a form describes.
pub open spec fn backend_of(form: Seq<EditorView>) -> BackendView {
    BackendView {
        name: text::trimmed(form[0].text),
        base_url: text::trimmed(form[1].text),
        keys: csv::listed(form[2].text),
        models: csv::listed(form[3].text),
    }
}

/// The first of `keys` that is not blank, trimmed.
pub open spec fn first_key(keys: Seq<Seq<char>>) -> Option<Seq<char>>
    decreases keys.len(),
{
    if keys.len() == 0 {
        None
    } else if !text::blank(keys[0]) {
        Some(text::trimmed(keys[0]))
    } else {
        first_key(keys.skip(1))
    }
}

/// The state that the editor starts with. A configuration without backends gets
/// an empty one, so that there is something to edit.
pub open spec fn opened(config: Seq<BackendView>) -> AppView {
    AppView {
        config: if config.len() == 0 {
            seq![config::empty_backend()]
        } else {
            config
        },
        dirty: false,
        selected: 0,
        editing: false,
        field: 0,
        edits: Seq::empty(),
        snapshot: None,
        pending_fetch_for: None,
        status: Seq::empty(),
        quit: false,
    }.synced()
}

impl AppView {
    /// The form that shows the selected backend, empty where there is none.
    pub open spec fn shown_form(self) -> Seq<EditorView> {
        if 0 <= self.selected < self.config.len() {
            form_of(self.config[self.selected])
        } else {
            form_of(config::empty_backend())
        }
    }

    /// The form refreshed from the selected backend.
    pub open spec fn synced(self) -> AppView {
        AppView { edits: self.shown_form(), ..self }
    }

    /// The selection is within the list, the form has its four fields, and while
    /// nothing is edited the form shows the selected backend.
    pub open spec fn wf(self) -> bool {
        &&& 0 <= self.selected
        &&& self.selected < self.config.len() || (self.config.len() == 0 && self.selected == 0)
        &&& 0 <= self.field < FIELDS
        &&& self.edits.len() == FIELDS
        &&& forall|i: int| 0 <= i < self.edits.len() ==> (#[trigger] self.edits[i]).wf()
        &&& self.editing <==> self.snapshot is Some
        &&& self.editing ==> self.selected < self.config.len()
        &&& !self.editing ==> self.edits == self.shown_form()
        &&& self.config.len() <= usize::MAX
    }

    /// The selection moved by `delta`, but not beyond the ends of the list.
    pub open spec fn selection_moved(self, delta: int) -> AppView {
        let n = self.config.len();
        let next = if self.selected + delta < 0 {
            0
        } else if self.selected + delta >= n {
            n - 1
        } else {
            self.selected + delta
        };
        if n == 0 || next == self.selected {
            self
        } else {
            AppView { selected: next, ..self }.synced()
        }
    }

    /// The form opened for editing.
    pub open spec fn edit_begun(self) -> AppView {
        if 0 <= self.selected < self.config.len() {
            AppView {
                snapshot: Some(self.config[self.selected]),
                field: 0,
                editing: true,
                status: Seq::empty(),
                ..self.synced()
            }
        } else {
            self
        }
    }

    /// Whether the form describes another backend than the one that editing
    /// began with.
    pub open spec fn changed(self) -> bool {
        self.snapshot != Some(backend_of(self.edits))
    }

    /// The form taken over into the configuration.
    pub open spec fn edit_committed(self) -> AppView {
        let applied = if self.changed() {
            AppView {
                config: if 0 <= self.selected < self.config.len() {
                    self.config.update(self.selected, backend_of(self.edits))
                } else {
                    self.config
                },
                dirty: true,
                status: "已应用"@,
                ..self
            }
        } else {
            self
        };
        AppView { editing: false, snapshot: None, ..applied }.synced()
    }

    /// The active field moved by `delta`, around the ends of the form.
    pub open spec fn field_cycled(self, delta: int) -> AppView {
        AppView { field: (self.field + delta) % 4, ..self }
    }

    /// A new, empty backend at the end of the list, opened for editing.
    pub open spec fn backend_added(self) -> AppView {
        AppView {
            config: self.config.push(config::empty_backend()),
            selected: self.config.len() as int,
            dirty: true,
            status: "已新增后端，请编辑"@,
            ..self
        }.edit_begun()
    }

    /// The selected backend removed. The selection stays where it is, or moves
    /// to the new last backend. A fetch for the removed backend, or for one whose
    /// position changes with it, is not awaited any longer: its outcome would
    /// come in under the position of another backend.
    pub open spec fn backend_deleted(self) -> AppView {
        let n = self.config.len() as int;
        if n == 0 {
            self
        } else {
            let gone = if self.selected < n {
                self.selected
            } else {
                n - 1
            };
            AppView {
                config: self.config.remove(gone),
                selected: if n == 1 {
                    0
                } else if self.selected >= n - 1 {
                    n - 2
                } else {
                    self.selected
                },
                dirty: true,
                pending_fetch_for: match self.pending_fetch_for {
                    Some(i) => if i < gone {
                        Some(i)
                    } else {
                        None
                    },
                    None => None,
                },
                status: "已删除后端 #"@ + text::decimal(gone as nat),
                ..self
            }.synced()
        }
    }

    /// After an attempt to write the configuration.
    pub open spec fn saved(self, outcome: Result<(), Seq<char>>) -> AppView {
        match outcome {
            Ok(_) => AppView { dirty: false, status: "已保存"@, ..self },
            Err(reason) => AppView { status: "保存失败: "@ + reason, ..self },
        }
    }

    /// At the end. Unsaved changes stay unsaved unless they were just written.
    pub open spec fn ended(self, written: bool) -> AppView {
        AppView { dirty: self.dirty && !written, quit: true, ..self }
    }

    /// The address and the key to fetch the models of the selected backend with,
    /// where it has both.
    pub open spec fn fetch_target(self) -> Option<(Seq<char>, Seq<char>)> {
        if 0 <= self.selected < self.config.len() {
            let b = self.config[self.selected];
            let base = text::without_slashes(text::trimmed(b.base_url));
            match first_key(b.keys) {
                Some(key) => if base.len() > 0 {
                    Some((base, key))
                } else {
                    None
                },
                None => None,
            }
        } else {
            None
        }
    }

    /// A fetch of the models of the selected backend asked for.
    pub open spec fn fetch_requested(self) -> (AppView, EffectView) {
        match self.fetch_target() {
            Some((base, key)) => (
                AppView {
                    status: "正在获取模型列表…"@,
                    pending_fetch_for: Some(self.selected),
                    ..self
                },
                EffectView::Fetch { backend_index: self.selected, base, key },
            ),
            None => (
                AppView { status: "请先填写 base_url 和 key"@, ..self },
                EffectView::Nothing,
            ),
        }
    }

    /// After a fetch for the backend at `idx` came back. The outcome counts only
    /// if this fetch is the one that is awaited and its backend is still
    /// selected. An outcome that is not awaited leaves the awaited fetch alone.
    pub open spec fn fetched(
        self,
        idx: int,
        outcome: Result<Seq<Seq<char>>, Seq<char>>,
    ) -> AppView {
        let calm = AppView { pending_fetch_for: None, ..self };
        if self.pending_fetch_for != Some(idx) {
            self
        } else if idx != self.selected {
            calm
        } else {
            match outcome {
                Ok(models) => {
                    let filled = AppView {
                        config: if 0 <= idx < self.config.len() {
                            self.config.update(
                                idx,
                                BackendView { models, ..self.config[idx] },
                            )
                        } else {
                            self.config
                        },
                        dirty: true,
                        status: if models.len() == 0 {
                            "未获取到模型（响应中无 data.id）"@
                        } else {
                            "已获取 "@ + text::decimal(models.len()) + " 个模型"@
                        },
                        ..calm
                    };
                    AppView {
                        edits: if self.editing {
                            self.edits.update(3, filled.shown_form()[3])
                        } else {
                            filled.shown_form()
                        },
                        ..filled
                    }
                },
                Err(reason) => AppView { status: "获取失败: "@ + reason, ..calm },
            }
        }
    }

    /// The active field after a change.
    pub open spec fn typed(self, e: EditorView) -> AppView {
        AppView { edits: self.edits.update(self.field, e), ..self }
    }

    /// The active field.
    pub open spec fn active(self) -> EditorView {
        self.edits[self.field]
    }

    /// A key press while the list is browsed.
    pub open spec fn browsed(self, key: Key) -> (AppView, EffectView) {
        match key {
            Key::Up => (self.selection_moved(-1), EffectView::Nothing),
            Key::Down => (self.selection_moved(1), EffectView::Nothing),
            Key::Enter => (self.edit_begun(), EffectView::Nothing),
            Key::Char('a') => (self.backend_added(), EffectView::Nothing),
            Key::Char('d') => (self.backend_deleted(), EffectView::Nothing),
            Key::Char('s') => (self, EffectView::Save),
            Key::Char('q') => (self, EffectView::Quit { save: self.dirty }),
            _ => (self, EffectView::Nothing),
        }
    }

    /// A key press while the form is edited.
    pub open spec fn edited(self, key: Key) -> AppView {
        match key {
            Key::Esc => self.edit_committed(),
            Key::Enter => self.edit_committed(),
            Key::Tab => self.field_cycled(1),
            Key::Down => self.field_cycled(1),
            Key::BackTab => self.field_cycled(-1),
            Key::Up => self.field_cycled(-1),
            Key::Backspace => self.typed(self.active().backspaced()),
            Key::Delete => self.typed(self.active().deleted()),
            Key::Left => self.typed(self.active().moved_left()),
            Key::Right => self.typed(self.active().moved_right()),
            Key::Home => self.typed(self.active().at_home()),
            Key::End => self.typed(self.active().at_end()),
            Key::Char(c) => self.typed(self.active().inserted(c)),
            Key::Other => self,
        }
    }

    /// What an input leads to. Control-C ends the editor from anywhere; `f`
    /// fetches models, but only while the list is browsed.
    pub open spec fn after(self, input: Input) -> (AppView, EffectView) {
        match input {
            Input::Other => (self, EffectView::Nothing),
            Input::Key(press) => if press.control && press.key == Key::Char('c') {
                (self, EffectView::Quit { save: self.dirty })
            } else if !self.editing && press.key == Key::Char('f') {
                self.fetch_requested()
            } else if self.editing {
                (self.edited(press.key), EffectView::Nothing)
            } else {
                self.browsed(press.key)
            },
        }
    }
}

/// The form for a backend.
fn form_for(b: &Backend) -> (r: Vec<Editor>)
    ensures
        r@.map_values(|e: Editor| e@) == form_of(b@),
{
    let r = vec![
        Editor::from_str(b.name.as_str()),
        Editor::from_str(b.base_url.as_str()),
        Editor::from_str(to_csv(&b.keys).as_str()),
        Editor::from_str(to_csv(&b.models).as_str()),
    ];
    assert(r@.map_values(|e: Editor| e@) =~= form_of(b@));
    r
}

/// The first of `keys` that is not blank, trimmed.
fn first_usable(keys: &Vec<String>) -> (r: Option<String>)
    ensures
        match r {
            Some(k) => first_key(text::views(keys@)) == Some(k@),
            None => first_key(text::views(keys@)) is None,
        },
{
    let ghost shown = text::views(keys@);
    let mut i: usize = 0;
    assert(shown.skip(0) =~= shown);
    while i < keys.len()
        invariant
            i <= keys@.len(),
            shown == text::views(keys@),
            first_key(shown) == first_key(shown.skip(i as int)),
        decreases keys@.len() - i,
    {
        proof {
            assert(shown.skip(i as int)[0] == keys@[i as int]@);
            assert(shown.skip(i as int).skip(1) =~= shown.skip(i + 1));
        }
        let key = trim(keys[i].as_str());
        if !key.as_str().is_empty() {
            return Some(key);
        }
        i += 1;
    }
    None
}

impl App {
    /// Opens the editor on a configuration.
    pub fn from_config(config: Config) -> (r: Self)
        ensures
            r@.wf(),
            r@ == opened(config@),
    {
        let mut config = config;
        let ghost given = config@;
        if config.backends.len() == 0 {
            config.backends.push(Backend::empty());
            assert(config@ =~= seq![config::empty_backend()]);
        }
        assert(config.backends.len() <= usize::MAX);
        let edits = form_for(&config.backends[0]);
        let r = App {
            config,
            dirty: false,
            selected: 0,
            editing: false,
            field: NAME,
            edits,
            snapshot: None,
            pending_fetch_for: None,
            status: String::new(),
            quit: false,
        };
        assert(r@ =~= opened(given));
        r
    }

    /// The configuration.
    pub fn config(&self) -> (r: &Config)
        ensures
            r@ == self@.config,
    {
        &self.config
    }

    /// Whether there are unsaved changes.
    pub fn dirty(&self) -> (r: bool)
        ensures
            r == self@.dirty,
    {
        self.dirty
    }

    /// The position of the selected backend.
    pub fn selected(&self) -> (r: usize)
        ensures
            r == self@.selected,
    {
        self.selected
    }

    /// Whether the form is being edited.
    pub fn editing(&self) -> (r: bool)
        ensures
            r == self@.editing,
    {
        self.editing
    }

    /// The active field.
    pub fn field(&self) -> (r: usize)
        ensures
            r == self@.field,
    {
        self.field
    }

    /// The contents of a field.
    pub fn edit(&self, field: usize) -> (r: &Editor)
        requires
            field < self@.edits.len(),
        ensures
            r@ == self@.edits[field as int],
    {
        &self.edits[field]
    }

    /// The message in the status line.
    pub fn status(&self) -> (r: &str)
        ensures
            r@ == self@.status,
    {
        self.status.as_str()
    }

    /// Whether the editor goes on.
    pub fn running(&self) -> (r: bool)
        ensures
            r == !self@.quit,
    {
        !self.quit
    }

    /// Refreshes the form from the selected backend.
    fn sync_edits(&mut self)
        ensures
            final(self)@ == old(self)@.synced(),
    {
        let ghost v = self@;
        if self.selected < self.config.backends.len() {
            assert(v.config[v.selected] == self.config.backends@[v.selected]@);
            self.edits = form_for(&self.config.backends[self.selected]);
        } else {
            let none = Backend::empty();
            self.edits = form_for(&none);
        }
        assert(self@ =~= v.synced());
    }

    /// Moves the selection.
    pub fn move_selection(&mut self, delta: i32)
        requires
            old(self)@.wf(),
        ensures
            final(self)@.wf(),
            final(self)@ == old(self)@.selection_moved(delta as int),
    {
        let ghost v = self@;
        let n: usize = self.config.backends.len();
        if n == 0 {
            return;
        }
        let wanted: i128 = self.selected as i128 + delta as i128;
        let next: usize = if wanted < 0 {
            0
        } else if wanted >= n as i128 {
            n - 1
        } else {
            wanted as usize
        };
        if next != self.selected {
            self.selected = next;
            assert(self@ =~= (AppView { selected: next as int, ..v }));
            self.sync_edits();
        }
    }

    /// Opens the form on the selected backend.
    fn open_form(&mut self)
        requires
            old(self)@.selected < old(self)@.config.len(),
        ensures
            final(self)@.wf(),
            final(self)@ == old(self)@.edit_begun(),
    {
        let ghost v = self@;
        assert(v.config[v.selected] == self.config.backends@[v.selected]@);
        assert(self.config.backends.len() <= usize::MAX);
        self.sync_edits();
        self.snapshot = Some(self.config.backends[self.selected].clone());
        self.field = NAME;
        self.editing = true;
        self.status = String::new();
        assert(self@ =~= v.edit_begun());
    }

    /// Opens the form for editing, where there is a backend to edit.
    pub fn begin_edit(&mut self)
        requires
            old(self)@.wf(),
        ensures
            final(self)@.wf(),
            final(self)@ == old(self)@.edit_begun(),
    {
        if self.selected < self.config.backends.len() {
            self.open_form();
        }
    }

    /// Takes the form over into the configuration.
    pub fn commit_edit(&mut self)
        requires
            old(self)@.wf(),
        ensures
            final(self)@.wf(),
            final(self)@ == old(self)@.edit_committed(),
    {
        let ghost v = self@;
        proof {
            assert(v.edits[0] == self.edits@[0]@);
            assert(v.edits[1] == self.edits@[1]@);
            assert(v.edits[2] == self.edits@[2]@);
            assert(v.edits[3] == self.edits@[3]@);
        }
        let new_backend = Backend {
            name: trim(self.edits[NAME].text()),
            base_url: trim(self.edits[URL].text()),
            keys: from_csv(self.edits[KEYS].text()),
            models: from_csv(self.edits[MODELS].text()),
        };
        assert(new_backend@ =~= backend_of(v.edits));
        let changed = match &self.snapshot {
            Some(old_backend) => !backend_eq(old_backend, &new_backend),
            None => true,
        };
        if changed {
            if self.selected < self.config.backends.len() {
                self.config.backends.set(self.selected, new_backend);
                assert(self.config@ =~= v.config.update(v.selected, backend_of(v.edits)));
            }
            self.dirty = true;
            self.status = "已应用".to_owned();
        }
        self.editing = false;
        self.snapshot = None;
        self.sync_edits();
        assert(self@ =~= v.edit_committed());
    }

    /// Moves to another field of the form.
    pub fn cycle_field(&mut self, delta: i32)
        requires
            old(self)@.wf(),
        ensures
            final(self)@.wf(),
            final(self)@ == old(self)@.field_cycled(delta as int),
    {
        let ghost v = self@;
        // A shift by a whole number of rounds makes the sum non-negative.
        let raw: i64 = self.field as i64 + delta as i64 + 4_294_967_296;
        let next: usize = (raw % 4) as usize;
        self.field = next;
        proof {
            vstd::arithmetic::div_mod::lemma_mod_multiples_vanish(
                1_073_741_824,
                v.field + delta,
                4,
            );
        }
        assert(self@ =~= v.field_cycled(delta as int));
    }

    /// Adds an empty backend and opens it for editing.
    pub fn add_backend(&mut self)
        requires
            old(self)@.wf(),
        ensures
            final(self)@.wf(),
            final(self)@ == old(self)@.backend_added(),
    {
        let ghost v = self@;
        let n: usize = self.config.backends.len();
        self.config.backends.push(Backend::empty());
        self.selected = n;
        self.dirty = true;
        self.status = "已新增后端，请编辑".to_owned();
        assert(self.config@ =~= v.config.push(config::empty_backend()));
        self.open_form();
        assert(self@ =~= v.backend_added());
    }

    /// Removes the selected backend.
    pub fn delete_backend(&mut self)
        requires
            old(self)@.wf(),
            !old(self)@.editing,
        ensures
            final(self)@.wf(),
            final(self)@ == old(self)@.backend_deleted(),
    {
        let ghost v = self@;
        let n: usize = self.config.backends.len();
        if n == 0 {
            return;
        }
        let gone: usize = if self.selected < n {
            self.selected
        } else {
            n - 1
        };
        self.config.backends.remove(gone);
        assert(self.config@ =~= v.config.remove(gone as int));
        if n == 1 {
            self.selected = 0;
        } else if self.selected >= n - 1 {
            self.selected = n - 2;
        }
        if let Some(i) = self.pending_fetch_for {
            if i >= gone {
                self.pending_fetch_for = None;
            }
        }
        self.dirty = true;
        self.status = join2("已删除后端 #", to_decimal(gone).as_str());
        self.sync_edits();
        assert(self@ =~= v.backend_deleted());
    }

    /// Takes in the outcome of writing the configuration.
    pub fn save(&mut self, outcome: Result<(), String>)
        requires
            old(self)@.wf(),
        ensures
            final(self)@.wf(),
            final(self)@ == old(self)@.saved(
                match outcome {
                    Ok(_) => Ok(()),
                    Err(reason) => Err(reason@),
                },
            ),
    {
        let ghost v = self@;
        match outcome {
            Ok(_) => {
                self.dirty = false;
                self.status = "已保存".to_owned();
            },
            Err(reason) => {
                self.status = join2("保存失败: ", reason.as_str());
            },
        }
        assert(self@.edits =~= v.edits);
    }

    /// Ends the editor. `written` says whether the configuration was just
    /// written.
    pub fn quit(&mut self, written: bool)
        requires
            old(self)@.wf(),
        ensures
            final(self)@.wf(),
            final(self)@ == old(self)@.ended(written),
    {
        if self.dirty && written {
            self.dirty = false;
        }
        self.quit = true;
    }

    /// Asks for the models of the selected backend. That needs an address and a
    /// key; without them only the status line changes.
    pub fn request_fetch(&mut self) -> (r: Effect)
        requires
            old(self)@.wf(),
        ensures
            final(self)@.wf(),
            (final(self)@, r@) == old(self)@.fetch_requested(),
    {
        let ghost v = self@;
        let (base, key) = if self.selected < self.config.backends.len() {
            let b = &self.config.backends[self.selected];
            assert(v.config[v.selected] == b@);
            (trim_slashes(trim(b.base_url.as_str()).as_str()), first_usable(&b.keys))
        } else {
            (String::new(), None)
        };
        match key {
            Some(key) => {
                if base.as_str().is_empty() {
                    self.status = "请先填写 base_url 和 key".to_owned();
                    Effect::Nothing
                } else {
                    self.status = "正在获取模型列表…".to_owned();
                    self.pending_fetch_for = Some(self.selected);
                    Effect::Fetch { backend_index: self.selected, base, key }
                }
            },
            None => {
                self.status = "请先填写 base_url 和 key".to_owned();
                Effect::Nothing
            },
        }
    }

    /// Takes in the outcome of the fetch for the backend at `idx`.
    pub fn apply_fetch(&mut self, idx: usize, outcome: Result<Vec<String>, String>)
        requires
            old(self)@.wf(),
        ensures
            final(self)@.wf(),
            final(self)@ == old(self)@.fetched(
                idx as int,
                match outcome {
                    Ok(models) => Ok(text::views(models@)),
                    Err(reason) => Err(reason@),
                },
            ),
    {
        let ghost v = self@;
        let awaited = match self.pending_fetch_for {
            Some(i) => i == idx,
            None => false,
        };
        if !awaited {
            return;
        }
        self.pending_fetch_for = None;
        if idx != self.selected {
            return;
        }
        match outcome {
            Ok(models) => {
                let count: usize = models.len();
                let ghost shown = text::views(models@);
                if idx < self.config.backends.len() {
                    let b = Backend {
                        name: self.config.backends[idx].name.clone(),
                        base_url: self.config.backends[idx].base_url.clone(),
                        keys: text::copy_all(&self.config.backends[idx].keys),
                        models,
                    };
                    assert(v.config[idx as int] == self.config.backends@[idx as int]@);
                    assert(b@ =~= (BackendView { models: shown, ..v.config[idx as int] }));
                    self.config.backends.set(idx, b);
                    assert(self.config@ =~= v.config.update(
                        idx as int,
                        BackendView { models: shown, ..v.config[idx as int] },
                    ));
                }
                self.dirty = true;
                self.status = if count == 0 {
                    "未获取到模型（响应中无 data.id）".to_owned()
                } else {
                    join3("已获取 ", to_decimal(count).as_str(), " 个模型")
                };
                if self.editing {
                    let line = to_csv(&self.config.backends[idx].models);
                    self.edits.set(MODELS, Editor::from_str(line.as_str()));
                } else {
                    self.sync_edits();
                }
                assert(self@ =~= v.fetched(idx as int, Ok(shown)));
            },
            Err(reason) => {
                self.status = join2("获取失败: ", reason.as_str());
            },
        }
    }

    /// The active field.
    fn current_editor_mut(&mut self) -> (r: &mut Editor)
        requires
            old(self)@.field < old(self)@.edits.len(),
        ensures
            r@ == old(self)@.active(),
            final(self)@ == old(self)@.typed(final(r)@),
    {
        &mut self.edits[self.field]
    }

    /// Takes in a key press while the list is browsed.
    pub fn handle_browse_key(&mut self, key: Key) -> (r: Effect)
        requires
            old(self)@.wf(),
            !old(self)@.editing,
        ensures
            final(self)@.wf(),
            (final(self)@, r@) == old(self)@.browsed(key),
    {
        match key {
            Key::Up => {
                self.move_selection(-1);
                Effect::Nothing
            },
            Key::Down => {
                self.move_selection(1);
                Effect::Nothing
            },
            Key::Enter => {
                self.begin_edit();
                Effect::Nothing
            },
            Key::Char('a') => {
                self.add_backend();
                Effect::Nothing
            },
            Key::Char('d') => {
                self.delete_backend();
                Effect::Nothing
            },
            Key::Char('s') => Effect::Save,
            Key::Char('q') => Effect::Quit { save: self.dirty },
            _ => Effect::Nothing,
        }
    }

    /// Takes in a key press while the form is edited.
    pub fn handle_edit_key(&mut self, key: Key)
        requires
            old(self)@.wf(),
            old(self)@.editing,
        ensures
            final(self)@.wf(),
            final(self)@ == old(self)@.edited(key),
    {
        match key {
            Key::Esc => self.commit_edit(),
            Key::Enter => self.commit_edit(),
            Key::Tab => self.cycle_field(1),
            Key::Down => self.cycle_field(1),
            Key::BackTab => self.cycle_field(-1),
            Key::Up => self.cycle_field(-1),
            Key::Backspace => self.current_editor_mut().backspace(),
            Key::Delete => self.current_editor_mut().delete(),
            Key::Left => self.current_editor_mut().left(),
            Key::Right => self.current_editor_mut().right(),
            Key::Home => self.current_editor_mut().home(),
            Key::End => self.current_editor_mut().end(),
            Key::Char(c) => self.current_editor_mut().insert(c),
            Key::Other => {},
        }
    }

    /// Takes in an input and says what is to be done outside.
    pub fn handle_event(&mut self, input: Input) -> (r: Effect)
        requires
            old(self)@.wf(),
        ensures
            final(self)@.wf(),
            (final(self)@, r@) == old(self)@.after(input),
    {
        match input {
            Input::Other => Effect::Nothing,
            Input::Key(press) => {
                if press.control && press.key == Key::Char('c') {
                    Effect::Quit { save: self.dirty }
                } else if !self.editing && press.key == Key::Char('f') {
                    self.request_fetch()
                } else if self.editing {
                    self.handle_edit_key(press.key);
                    Effect::Nothing
                } else {
                    self.handle_browse_key(press.key)
                }
            },
        }
    }
}

} // verus!
