//! The configuration editor and the texts that it works on.

use llm_hub::admin::{App, Effect, Input, Key, KeyPress, FIELDS, KEYS, MODELS, NAME, URL};
use llm_hub::cli;
use llm_hub::cli::{InitStep, Mode};
use llm_hub::config::{backend_eq, Backend, Config, Loaded};
use llm_hub::csv::{from_csv, to_csv};
use llm_hub::editor::Editor;
use llm_hub::screen;
use llm_hub::text;
use llm_hub::width::{display_width, is_wide};

fn texts(items: &[&str]) -> Vec<String> {
    items.iter().map(|s| s.to_string()).collect()
}

fn backend(name: &str, url: &str, keys: &[&str], models: &[&str]) -> Backend {
    Backend {
        name: name.into(),
        base_url: url.into(),
        keys: texts(keys),
        models: texts(models),
    }
}

fn two() -> App {
    App::from_config(Config {
        backends: vec![
            backend("one", "https://one/", &[" ", "k1"], &["m1"]),
            backend("two", "https://two", &["k2", "k3"], &["m2", "m3"]),
        ],
    })
}

fn press(app: &mut App, key: Key) -> Effect {
    app.handle_event(Input::Key(KeyPress { key, control: false }))
}

fn write(app: &mut App, s: &str) {
    for c in s.chars() {
        press(app, Key::Char(c));
    }
}

fn names(app: &App) -> Vec<String> {
    app.config().backends.iter().map(|b| b.name.clone()).collect()
}

#[test]
fn editor_starts_at_the_end() {
    let e = Editor::from_str("硅流");
    assert_eq!(e.text(), "硅流");
    assert_eq!(e.cursor(), 2);
}

#[test]
fn typing_is_taken_back() {
    let mut e = Editor::from_str("硅流");
    e.left();
    e.insert('x');
    assert_eq!((e.text(), e.cursor()), ("硅x流", 2));
    e.backspace();
    assert_eq!((e.text(), e.cursor()), ("硅流", 1));
    e.insert('y');
    e.left();
    e.delete();
    assert_eq!((e.text(), e.cursor()), ("硅流", 1));
}

#[test]
fn removed_characters_can_be_typed_again() {
    let mut e = Editor::from_str("abc");
    e.left();
    e.backspace();
    assert_eq!((e.text(), e.cursor()), ("ac", 1));
    e.insert('b');
    assert_eq!((e.text(), e.cursor()), ("abc", 2));
}

#[test]
fn editor_stops_at_the_ends() {
    let mut e = Editor::from_str("ab");
    e.right();
    e.delete();
    assert_eq!((e.text(), e.cursor()), ("ab", 2));
    e.home();
    e.left();
    e.backspace();
    assert_eq!((e.text(), e.cursor()), ("ab", 0));
    e.right();
    assert_eq!(e.cursor(), 1);
    e.end();
    assert_eq!(e.cursor(), 2);
}

#[test]
fn lists_are_written_and_read() {
    assert_eq!(to_csv(&texts(&["a", "b", "c"])), "a, b, c");
    assert_eq!(to_csv(&Vec::new()), "");
    assert_eq!(from_csv(" a ,, b,\t, c d ,"), texts(&["a", "b", "c d"]));
    assert_eq!(from_csv(""), Vec::<String>::new());
    assert_eq!(from_csv(" , ,"), Vec::<String>::new());
    let items = texts(&["sk-1", "模型 二", "x"]);
    assert_eq!(from_csv(&to_csv(&items)), items);
    let line = " p,q ,";
    assert_eq!(from_csv(&to_csv(&from_csv(line))), from_csv(line));
}

#[test]
fn whitespace_is_that_of_the_standard_library() {
    for c in '\0'..=char::MAX {
        assert_eq!(text::is_whitespace(c), c.is_whitespace(), "{:?}", c);
    }
}

#[test]
fn texts_are_cut_as_the_standard_library_cuts_them() {
    for s in ["", " ", "a", "\u{3000} 硅 流\n", "//", "a/", "/a//", " / "] {
        assert_eq!(text::trim(s), s.trim());
        assert_eq!(text::trim(&text::trim(s)), s.trim());
        assert_eq!(text::is_blank(s), s.trim().is_empty());
        assert_eq!(text::trim_slashes(s), s.trim_end_matches('/'));
    }
}

#[test]
fn texts_are_joined_and_compared() {
    assert_eq!(text::join2("a", "硅"), "a硅");
    assert_eq!(text::join3("a", "", "c"), "ac");
    assert_eq!(text::join(&texts(&["x", "y"]), "; "), "x; y");
    assert!(text::has_text(&texts(&["x", "y"]), "y"));
    assert!(!text::has_text(&texts(&["x", "y"]), "z"));
    assert!(text::same_texts(&texts(&["x"]), &texts(&["x"])));
    assert!(!text::same_texts(&texts(&["x"]), &texts(&["x", "y"])));
    assert_eq!(text::copy_all(&texts(&["x", "y"])), texts(&["x", "y"]));
    assert_eq!(text::string_of(&text::chars_of("a硅b"), 1, 2), "硅");
    for n in [0usize, 7, 10, 65535, usize::MAX] {
        assert_eq!(text::to_decimal(n), n.to_string());
    }
}

#[test]
fn backends_are_compared_by_field() {
    let b = backend("n", "u", &["k"], &["m"]);
    assert!(backend_eq(&b, &b.clone()));
    assert!(!backend_eq(&b, &backend("x", "u", &["k"], &["m"])));
    assert!(!backend_eq(&b, &backend("n", "x", &["k"], &["m"])));
    assert!(!backend_eq(&b, &backend("n", "u", &["x"], &["m"])));
    assert!(!backend_eq(&b, &backend("n", "u", &["k"], &["m", "x"])));
}

#[test]
fn wide_characters_take_two_columns() {
    assert_eq!(display_width(""), 0);
    assert_eq!(display_width("ab"), 2);
    assert_eq!(display_width("a硅流🎉"), 7);
    for (c, wide) in [
        ('\u{10FF}', false),
        ('\u{1100}', true),
        ('\u{115F}', true),
        ('\u{1160}', false),
        ('\u{2E80}', true),
        ('\u{A4CF}', true),
        ('\u{A4D0}', false),
        ('\u{AC00}', true),
        ('\u{D7A3}', true),
        ('\u{D7A4}', false),
        ('\u{F900}', true),
        ('\u{FAFF}', true),
        ('\u{FB00}', false),
        ('\u{FE30}', true),
        ('\u{FE4F}', true),
        ('\u{FE50}', false),
        ('\u{FF00}', true),
        ('\u{FF60}', true),
        ('\u{FF61}', false),
        ('\u{FFE0}', true),
        ('\u{FFE6}', true),
        ('\u{FFE7}', false),
        ('\u{1F300}', true),
        ('\u{1FAFF}', true),
        ('\u{1FB00}', false),
        ('\u{20000}', true),
        ('\u{3FFFD}', true),
        ('\u{3FFFE}', false),
    ] {
        assert_eq!(is_wide(c), wide, "{:?}", c);
    }
}

#[test]
fn screen_texts() {
    assert_eq!(screen::title(false), " llm-hub — 配置编辑器 ");
    assert_eq!(screen::title(true), " llm-hub — 配置编辑器 * ");
    let b = backend("one", "https://one", &[], &[]);
    assert_eq!(screen::backend_label(12, &b), "12. one\n   https://one");
    assert_eq!(
        screen::backend_label(0, &backend(" ", "", &[], &[])),
        "0. (未命名)\n   (无 URL)"
    );
    assert_eq!(screen::highlighted(0, 0), None);
    assert_eq!(screen::highlighted(1, 3), Some(1));
    assert_eq!(screen::highlighted(9, 3), Some(2));
    let labels: Vec<&str> = (0..FIELDS).map(screen::field_label).collect();
    assert_eq!(labels, vec!["name", "base_url", "keys  (逗号分隔)", "models  (逗号分隔)"]);
    let placeholders: Vec<&str> = (0..FIELDS).map(screen::placeholder).collect();
    assert_eq!(
        placeholders,
        vec!["名称…", "https://api.example.com", "sk-key-1, sk-key-2", "model-a, model-b"]
    );
    assert_eq!(screen::status_note(""), "");
    assert_eq!(screen::status_note("已保存"), "[已保存]  ");
    assert_eq!(screen::dirty_note(true), " ● 未保存");
    assert_eq!(screen::dirty_note(false), "");
    assert!(screen::hint(true).starts_with(" Esc/Enter"));
    assert!(screen::hint(false).ends_with("q 退出"));
}

#[test]
fn cursor_stays_in_its_field() {
    assert_eq!(screen::cursor_cell(10, 5, 20, "a硅b", 2), (14, 6));
    assert_eq!(screen::cursor_cell(10, 5, 20, "a硅b", 99), (15, 6));
    assert_eq!(screen::cursor_cell(10, 5, 6, "abcdefgh", 8), (14, 6));
    assert_eq!(screen::cursor_cell(10, 5, 1, "abc", 3), (10, 6));
    assert_eq!(
        screen::cursor_cell(u16::MAX, u16::MAX, u16::MAX, "abc", 1),
        (u16::MAX, u16::MAX)
    );
}

#[test]
fn empty_configuration_gets_a_backend_to_edit() {
    let app = App::from_config(Config::default());
    assert_eq!(app.config().backends.len(), 1);
    assert!(!app.dirty());
    assert!(!app.editing());
    assert!(app.running());
    assert_eq!(app.selected(), 0);
    assert_eq!(app.edit(NAME).text(), "");
}

#[test]
fn form_shows_the_selected_backend() {
    let mut app = two();
    assert_eq!(app.edit(NAME).text(), "one");
    assert_eq!(app.edit(KEYS).text(), " , k1");
    press(&mut app, Key::Down);
    assert_eq!(app.selected(), 1);
    assert_eq!(app.edit(URL).text(), "https://two");
    assert_eq!(app.edit(MODELS).text(), "m2, m3");
    press(&mut app, Key::Down);
    assert_eq!(app.selected(), 1);
    app.move_selection(i32::MIN);
    assert_eq!(app.selected(), 0);
    app.move_selection(i32::MAX);
    assert_eq!(app.selected(), 1);
    assert!(!app.dirty());
}

#[test]
fn untouched_form_changes_nothing() {
    let mut app = two();
    press(&mut app, Key::Down);
    press(&mut app, Key::Enter);
    assert!(app.editing());
    press(&mut app, Key::Esc);
    assert!(!app.editing());
    assert!(!app.dirty());
    assert!(backend_eq(
        &app.config().backends[1],
        &backend("two", "https://two", &["k2", "k3"], &["m2", "m3"])
    ));
}

#[test]
fn untidy_backend_is_tidied_by_a_commit() {
    let mut app = two();
    press(&mut app, Key::Enter);
    press(&mut app, Key::Enter);
    // The blank key does not survive the form, which counts as a change.
    assert!(app.dirty());
    assert_eq!(app.config().backends[0].keys, texts(&["k1"]));
}

#[test]
fn edits_are_committed() {
    let mut app = two();
    press(&mut app, Key::Enter);
    write(&mut app, " fq ");
    press(&mut app, Key::Tab);
    press(&mut app, Key::Backspace);
    press(&mut app, Key::Down);
    press(&mut app, Key::Home);
    write(&mut app, "k0");
    press(&mut app, Key::Tab);
    press(&mut app, Key::End);
    write(&mut app, ", m9,");
    assert_eq!(app.edit(NAME).text(), "one fq ");
    assert_eq!(app.config().backends[0].name, "one");
    press(&mut app, Key::Enter);
    assert!(app.dirty());
    assert_eq!(app.status(), "已应用");
    assert!(backend_eq(
        &app.config().backends[0],
        &backend("one fq", "https://one", &["k0", "k1"], &["m1", "m9"])
    ));
    assert_eq!(app.edit(NAME).text(), "one fq");
    assert_eq!(names(&app), vec!["one fq", "two"]);
}

#[test]
fn cursor_keys_work_in_the_active_field() {
    let mut app = two();
    press(&mut app, Key::Enter);
    press(&mut app, Key::Left);
    press(&mut app, Key::Left);
    press(&mut app, Key::Right);
    press(&mut app, Key::Delete);
    assert_eq!(app.edit(NAME).text(), "on");
    assert_eq!(app.edit(NAME).cursor(), 2);
    press(&mut app, Key::Other);
    assert_eq!(app.edit(NAME).text(), "on");
}

#[test]
fn fields_go_round() {
    let mut app = two();
    press(&mut app, Key::Enter);
    assert_eq!(app.field(), NAME);
    press(&mut app, Key::BackTab);
    assert_eq!(app.field(), MODELS);
    press(&mut app, Key::Tab);
    assert_eq!(app.field(), NAME);
    for _ in 0..FIELDS {
        press(&mut app, Key::Down);
    }
    assert_eq!(app.field(), NAME);
    press(&mut app, Key::Up);
    assert_eq!(app.field(), MODELS);
    app.cycle_field(-6);
    assert_eq!(app.field(), URL);
    app.cycle_field(i32::MIN);
    assert_eq!(app.field(), URL);
}

#[test]
fn backend_is_added_and_deleted() {
    let mut app = two();
    press(&mut app, Key::Char('a'));
    assert!(app.editing());
    assert!(app.dirty());
    assert_eq!(app.selected(), 2);
    assert_eq!(app.status(), "");
    write(&mut app, "three");
    press(&mut app, Key::Esc);
    assert_eq!(names(&app), vec!["one", "two", "three"]);
    press(&mut app, Key::Char('d'));
    assert_eq!(names(&app), vec!["one", "two"]);
    assert_eq!(app.status(), "已删除后端 #2");
    assert_eq!(app.selected(), 1);
    assert_eq!(app.edit(NAME).text(), "two");
}

#[test]
fn all_backends_can_be_deleted() {
    let mut app = two();
    press(&mut app, Key::Char('d'));
    assert_eq!(names(&app), vec!["two"]);
    assert_eq!(app.selected(), 0);
    press(&mut app, Key::Char('d'));
    assert!(app.config().backends.is_empty());
    assert_eq!(app.edit(NAME).text(), "");
    press(&mut app, Key::Char('d'));
    press(&mut app, Key::Enter);
    press(&mut app, Key::Down);
    assert!(!app.editing());
    press(&mut app, Key::Char('f'));
    assert_eq!(app.status(), "请先填写 base_url 和 key");
    press(&mut app, Key::Char('a'));
    assert!(app.editing());
    assert_eq!(app.selected(), 0);
}

#[test]
fn saving_clears_the_mark() {
    let mut app = two();
    press(&mut app, Key::Char('d'));
    assert!(matches!(press(&mut app, Key::Char('s')), Effect::Save));
    app.save(Err("disk full".to_string()));
    assert!(app.dirty());
    assert_eq!(app.status(), "保存失败: disk full");
    app.save(Ok(()));
    assert!(!app.dirty());
    assert_eq!(app.status(), "已保存");
}

#[test]
fn leaving_saves_what_is_unsaved() {
    let mut app = two();
    assert!(matches!(press(&mut app, Key::Char('q')), Effect::Quit { save: false }));
    app.quit(false);
    assert!(!app.running());

    let mut app = two();
    press(&mut app, Key::Char('a'));
    let control_c = Input::Key(KeyPress {
        key: Key::Char('c'),
        control: true,
    });
    assert!(matches!(app.handle_event(control_c), Effect::Quit { save: true }));
    app.quit(true);
    assert!(!app.dirty());

    let mut app = two();
    press(&mut app, Key::Char('d'));
    app.quit(false);
    assert!(app.dirty());
    assert!(!app.running());
}

#[test]
fn letters_are_text_while_editing() {
    let mut app = two();
    press(&mut app, Key::Enter);
    assert!(matches!(press(&mut app, Key::Char('f')), Effect::Nothing));
    assert!(matches!(press(&mut app, Key::Char('q')), Effect::Nothing));
    assert!(matches!(press(&mut app, Key::Char('c')), Effect::Nothing));
    assert_eq!(app.edit(NAME).text(), "onefqc");
}

#[test]
fn other_inputs_change_nothing() {
    let mut app = two();
    assert!(matches!(app.handle_event(Input::Other), Effect::Nothing));
    assert!(matches!(press(&mut app, Key::Tab), Effect::Nothing));
    assert!(matches!(press(&mut app, Key::Char('z')), Effect::Nothing));
    assert_eq!(names(&app), vec!["one", "two"]);
    assert!(!app.dirty());
}

#[test]
fn fetch_is_asked_for_with_the_first_usable_key() {
    let mut app = two();
    match press(&mut app, Key::Char('f')) {
        Effect::Fetch { backend_index, base, key } => {
            assert_eq!(backend_index, 0);
            assert_eq!(base, "https://one");
            assert_eq!(key, "k1");
        }
        _ => panic!("expected a fetch"),
    }
    assert_eq!(app.status(), "正在获取模型列表…");
}

#[test]
fn fetch_needs_an_address_and_a_key() {
    for b in [
        backend("x", " // ", &["k"], &[]),
        backend("x", "", &["k"], &[]),
        backend("x", "https://x", &["", "  "], &[]),
        backend("x", "https://x", &[], &[]),
    ] {
        let mut app = App::from_config(Config { backends: vec![b] });
        assert!(matches!(press(&mut app, Key::Char('f')), Effect::Nothing));
        assert_eq!(app.status(), "请先填写 base_url 和 key");
    }
}

#[test]
fn fetched_models_are_kept() {
    let mut app = two();
    press(&mut app, Key::Char('f'));
    app.apply_fetch(0, Ok(texts(&["n1", "n2"])));
    assert!(app.dirty());
    assert_eq!(app.status(), "已获取 2 个模型");
    assert_eq!(app.config().backends[0].models, texts(&["n1", "n2"]));
    assert_eq!(app.config().backends[0].keys, texts(&[" ", "k1"]));
    assert_eq!(app.edit(MODELS).text(), "n1, n2");
}

#[test]
fn fetched_models_reach_an_open_form() {
    let mut app = two();
    press(&mut app, Key::Char('f'));
    press(&mut app, Key::Enter);
    write(&mut app, "!");
    app.apply_fetch(0, Ok(texts(&["n"])));
    assert_eq!(app.edit(NAME).text(), "one!");
    assert_eq!(app.edit(MODELS).text(), "n");
    press(&mut app, Key::Enter);
    assert_eq!(app.config().backends[0].models, texts(&["n"]));
}

#[test]
fn empty_fetch_says_so() {
    let mut app = two();
    press(&mut app, Key::Char('f'));
    app.apply_fetch(0, Ok(Vec::new()));
    assert_eq!(app.status(), "未获取到模型（响应中无 data.id）");
    assert!(app.config().backends[0].models.is_empty());
}

#[test]
fn failed_fetch_leaves_the_models() {
    let mut app = two();
    press(&mut app, Key::Char('f'));
    app.apply_fetch(0, Err("HTTP 404 Not Found".to_string()));
    assert_eq!(app.status(), "获取失败: HTTP 404 Not Found");
    assert_eq!(app.config().backends[0].models, texts(&["m1"]));
    assert!(!app.dirty());
}

#[test]
fn stale_fetch_is_discarded() {
    let mut app = two();
    app.apply_fetch(0, Ok(texts(&["n"])));
    assert_eq!(app.config().backends[0].models, texts(&["m1"]));

    press(&mut app, Key::Char('f'));
    press(&mut app, Key::Down);
    app.apply_fetch(0, Ok(texts(&["n"])));
    assert_eq!(app.config().backends[0].models, texts(&["m1"]));
    assert_eq!(app.config().backends[1].models, texts(&["m2", "m3"]));

    // The fetch that was discarded is not awaited any longer.
    press(&mut app, Key::Up);
    app.apply_fetch(0, Ok(texts(&["n"])));
    assert_eq!(app.config().backends[0].models, texts(&["m1"]));
    assert!(!app.dirty());
}

#[test]
fn settings_are_loaded() {
    for raw in [None, Some(""), Some(" \n\t")] {
        match Config::load(raw) {
            Loaded::Ready(config) => assert!(config.backends.is_empty()),
            Loaded::Parse => panic!("nothing to parse"),
        }
    }
    assert!(matches!(Config::load(Some("{}")), Loaded::Parse));
    assert!(matches!(Config::load(Some("oops")), Loaded::Parse));
}

#[test]
fn sample_has_one_backend() {
    let config = Config::sample();
    assert_eq!(config.backends.len(), 1);
    assert!(backend_eq(
        &config.backends[0],
        &backend(
            "硅流",
            "https://api.siliconflow.cn",
            &["sk-your-api-key"],
            &["Qwen/Qwen3-32B", "deepseek-ai/DeepSeek-V3"]
        )
    ));
    assert!(backend_eq(&config.clone().backends[0], &config.backends[0]));
    assert_eq!(Backend::empty().name, "");
}

#[test]
fn flags_choose_the_mode() {
    assert_eq!(cli::choose_mode(false, false, false), Mode::Help);
    assert_eq!(cli::choose_mode(true, false, false), Mode::Serve);
    assert_eq!(cli::choose_mode(false, true, false), Mode::Admin);
    assert_eq!(cli::choose_mode(true, false, true), Mode::Init);
}

#[test]
fn init_leaves_an_existing_file_alone() {
    assert!(matches!(cli::run_init(None), InitStep::NoDirectory));
    assert!(matches!(cli::run_init(Some(true)), InitStep::AlreadyExists));
    match cli::run_init(Some(false)) {
        InitStep::Write(config) => assert_eq!(config.backends[0].name, "硅流"),
        _ => panic!("expected a configuration"),
    }
    assert_eq!(
        cli::bind_error("nowhere", "invalid socket address syntax"),
        "invalid --bind address 'nowhere': invalid socket address syntax"
    );
}

#[test]
fn superseded_outcome_leaves_the_awaited_one() {
    let mut app = two();
    press(&mut app, Key::Char('f'));
    press(&mut app, Key::Down);
    press(&mut app, Key::Char('f'));
    app.apply_fetch(0, Ok(texts(&["old"])));
    assert_eq!(app.config().backends[0].models, texts(&["m1"]));
    app.apply_fetch(1, Ok(texts(&["new"])));
    assert_eq!(app.config().backends[0].models, texts(&["m1"]));
    assert_eq!(app.config().backends[1].models, texts(&["new"]));
}

#[test]
fn deletion_discards_the_fetch_for_the_deleted_backend() {
    let mut app = two();
    press(&mut app, Key::Char('f'));
    press(&mut app, Key::Char('d'));
    app.apply_fetch(0, Ok(texts(&["n"])));
    assert_eq!(names(&app), vec!["two"]);
    assert_eq!(app.config().backends[0].models, texts(&["m2", "m3"]));
}

#[test]
fn deletion_discards_the_fetch_for_a_backend_that_moves_up() {
    let mut app = two();
    press(&mut app, Key::Char('a'));
    press(&mut app, Key::Esc);
    press(&mut app, Key::Up);
    press(&mut app, Key::Char('f'));
    press(&mut app, Key::Up);
    press(&mut app, Key::Char('d'));
    press(&mut app, Key::Down);
    app.apply_fetch(1, Ok(texts(&["n"])));
    assert!(app.config().backends[1].models.is_empty());
    assert_eq!(app.config().backends[0].models, texts(&["m2", "m3"]));
}

#[test]
fn deletion_keeps_the_fetch_for_an_earlier_backend() {
    let mut app = two();
    press(&mut app, Key::Char('f'));
    press(&mut app, Key::Down);
    press(&mut app, Key::Char('d'));
    app.apply_fetch(0, Ok(texts(&["n"])));
    assert_eq!(app.config().backends[0].models, texts(&["n"]));
}
