use filebrowse::{
    command_for, dir_preview, file_preview, handle_key_events, list_dir, App, Command, DirEntry,
    DirPath, File, KeyCode, KeyEvent, KeyModifiers, Preview, Request,
};

fn entry(name: &str, is_dir: bool) -> DirEntry {
    DirEntry { name: name.to_string(), is_dir }
}

fn path(parts: &[&str]) -> DirPath {
    DirPath { parts: parts.iter().map(|p| p.to_string()).collect() }
}

fn names(files: &[File]) -> Vec<String> {
    files.iter().map(|f| f.name.clone()).collect()
}

fn plain() -> KeyModifiers {
    KeyModifiers { shift: false, control: false, alt: false, other: false }
}

fn control() -> KeyModifiers {
    KeyModifiers { shift: false, control: true, alt: false, other: false }
}

fn key(code: KeyCode) -> KeyEvent {
    KeyEvent { code, modifiers: plain() }
}

fn ctrl(c: char) -> KeyEvent {
    KeyEvent { code: KeyCode::Char(c), modifiers: control() }
}

fn app_with(entries: &[DirEntry]) -> App {
    App::new(path(&["home", "user"]), &entries.to_vec(), 5)
}

fn five() -> Vec<DirEntry> {
    vec![
        entry("e", false),
        entry("a", false),
        entry("d", true),
        entry("c", false),
        entry("b", true),
    ]
}

#[test]
fn file_new_labels() {
    let d = File::new("docs".to_string(), true);
    assert_eq!(d.formated_name, "\u{1F5C0} docs");
    assert!(d.is_dir);
    let f = File::new("notes.txt".to_string(), false);
    assert_eq!(f.formated_name, "\u{1F5CE} notes.txt");
    assert_eq!(f.name, "notes.txt");
}

#[test]
fn list_dir_directories_first() {
    let raw = vec![entry("b", false), entry("a", true), entry("c", true)];
    let files = list_dir(&raw, false);
    assert_eq!(names(&files), vec!["a", "c", "b"]);
    assert!(files[0].is_dir && files[1].is_dir && !files[2].is_dir);
}

#[test]
fn list_dir_byte_order_is_case_sensitive() {
    let raw = vec![entry("b", false), entry("B", false), entry("a", false), entry("Z", false)];
    assert_eq!(names(&list_dir(&raw, false)), vec!["B", "Z", "a", "b"]);
}

#[test]
fn list_dir_prefix_sorts_first() {
    let raw = vec![entry("abc", false), entry("ab", false), entry("abd", false)];
    assert_eq!(names(&list_dir(&raw, false)), vec!["ab", "abc", "abd"]);
}

#[test]
fn list_dir_hidden_filter() {
    let raw = vec![entry(".git", true), entry("src", true), entry(".env", false)];
    assert_eq!(names(&list_dir(&raw, false)), vec!["src"]);
    assert_eq!(names(&list_dir(&raw, true)), vec![".git", "src", ".env"]);
}

#[test]
fn list_dir_empty() {
    assert!(list_dir(&Vec::new(), true).is_empty());
}

#[test]
fn new_selects_first_or_none() {
    let app = app_with(&five());
    assert_eq!(app.selected, Some(0));
    assert!(app.running && !app.show_hidden && !app.show_help);
    assert_eq!(names(&app.files), vec!["b", "d", "a", "c", "e"]);
    let empty = app_with(&[]);
    assert_eq!(empty.selected, None);
    assert_eq!(empty.get_files_selected(), 0);
}

#[test]
fn select_next_cycles() {
    let mut app = app_with(&five());
    app.selected = Some(2);
    for _ in 0..5 {
        app.select_next();
    }
    assert_eq!(app.selected, Some(2));
    for _ in 0..5 {
        app.select_previous();
    }
    assert_eq!(app.selected, Some(2));
}

#[test]
fn selection_wraps_around() {
    let mut app = app_with(&five());
    app.selected = Some(4);
    app.select_next();
    assert_eq!(app.selected, Some(0));
    app.select_previous();
    assert_eq!(app.selected, Some(4));
    app.select_previous();
    assert_eq!(app.selected, Some(3));
}

#[test]
fn selection_on_empty_is_noop() {
    let mut app = app_with(&[]);
    app.select_next();
    assert_eq!(app.selected, None);
    app.select_previous();
    assert_eq!(app.selected, None);
}

#[test]
fn toggle_hidden_twice_restores_entries() {
    let raw = vec![entry(".cfg", false), entry("sub", true), entry("a.txt", false)];
    let mut app = app_with(&raw);
    let before = names(&app.files);
    for _ in 0..2 {
        match app.toggle_hidden() {
            Request::List { dir, show_hidden } => app.refresh_files(dir, show_hidden, &raw),
            other => panic!("unexpected request {:?}", other),
        }
        if app.show_hidden {
            assert_eq!(names(&app.files), vec!["sub", ".cfg", "a.txt"]);
        }
    }
    assert!(!app.show_hidden);
    assert_eq!(names(&app.files), before);
    assert_eq!(app.current_dir, path(&["home", "user"]));
}

#[test]
fn deleting_sole_entry_empties_listing() {
    let mut app = app_with(&[entry("only.txt", false)]);
    assert_eq!(app.move_to_trash(), Request::Trash(path(&["home", "user", "only.txt"])));
    assert_eq!(app.remove_file(), Request::Remove(path(&["home", "user", "only.txt"])));
    match app.reload() {
        Request::List { dir, show_hidden } => app.refresh_files(dir, show_hidden, &Vec::new()),
        other => panic!("unexpected request {:?}", other),
    }
    assert!(app.files.is_empty());
    assert_eq!(app.selected, None);
    assert_eq!(app.move_to_trash(), Request::Nothing);
    assert_eq!(app.remove_file(), Request::Nothing);
}

#[test]
fn open_subdirectory_end_to_end() {
    let raw = vec![entry("b.txt", false), entry(".cfg", false), entry("a.txt", false), entry("sub", true)];
    let mut app = app_with(&raw);
    assert_eq!(names(&app.files), vec!["sub", "a.txt", "b.txt"]);
    assert_eq!(app.selected, Some(0));
    let request = handle_key_events(key(KeyCode::Enter), &mut app);
    assert_eq!(
        request,
        Request::List { dir: path(&["home", "user", "sub"]), show_hidden: false }
    );
    if let Request::List { dir, show_hidden } = request {
        app.refresh_files(dir, show_hidden, &vec![entry("inner", false)]);
    }
    assert_eq!(app.current_dir, path(&["home", "user", "sub"]));
    assert_eq!(names(&app.files), vec!["inner"]);
    assert_eq!(app.selected, Some(0));
    app.refresh_files(path(&["home", "user", "sub"]), false, &Vec::new());
    assert_eq!(app.selected, None);
}

#[test]
fn open_file_asks_default_application() {
    let mut app = app_with(&[entry("a.txt", false)]);
    assert_eq!(
        handle_key_events(key(KeyCode::Enter), &mut app),
        Request::OpenFile(path(&["home", "user", "a.txt"]))
    );
    assert_eq!(app.current_dir, path(&["home", "user"]));
}

#[test]
fn help_overlay_scrolls_instead_of_selecting() {
    let mut app = app_with(&five());
    app.selected = Some(1);
    let before = names(&app.files);
    let r = handle_key_events(key(KeyCode::Char('?')), &mut app);
    assert_eq!(r, Request::Nothing);
    assert!(app.show_help);
    assert_eq!(app.selected, Some(1));
    assert_eq!(names(&app.files), before);
    handle_key_events(key(KeyCode::Down), &mut app);
    handle_key_events(key(KeyCode::Down), &mut app);
    assert_eq!(app.help_offset, 2);
    assert_eq!(app.selected, Some(1));
    handle_key_events(key(KeyCode::Up), &mut app);
    assert_eq!(app.help_offset, 1);
    handle_key_events(key(KeyCode::Char('?')), &mut app);
    assert!(!app.show_help);
    handle_key_events(key(KeyCode::Down), &mut app);
    assert_eq!(app.selected, Some(2));
    assert_eq!(app.help_offset, 1);
}

#[test]
fn help_scroll_is_clamped() {
    let mut app = app_with(&[]);
    app.toggle_help();
    handle_key_events(key(KeyCode::Up), &mut app);
    assert_eq!(app.help_offset, 0);
    for _ in 0..10 {
        handle_key_events(key(KeyCode::Down), &mut app);
    }
    assert_eq!(app.help_offset, 4);
}

#[test]
fn help_overlay_suppresses_browsing_actions() {
    let mut app = app_with(&five());
    app.toggle_help();
    assert_eq!(handle_key_events(key(KeyCode::Enter), &mut app), Request::Nothing);
    assert_eq!(handle_key_events(key(KeyCode::Backspace), &mut app), Request::Nothing);
    assert_eq!(handle_key_events(key(KeyCode::Char('d')), &mut app), Request::Nothing);
    assert_eq!(handle_key_events(ctrl('d'), &mut app), Request::Nothing);
    assert_eq!(handle_key_events(ctrl('h'), &mut app), Request::Nothing);
    assert!(app.running);
    handle_key_events(key(KeyCode::Char('q')), &mut app);
    assert!(!app.running);
}

#[test]
fn quit_keys() {
    for k in [key(KeyCode::Esc), key(KeyCode::Char('q')), ctrl('c')] {
        let mut app = app_with(&five());
        assert_eq!(handle_key_events(k, &mut app), Request::Nothing);
        assert!(!app.running);
    }
    let mut app = app_with(&five());
    handle_key_events(key(KeyCode::Char('c')), &mut app);
    assert!(app.running);
}

#[test]
fn browsing_requests() {
    let mut app = app_with(&five());
    assert_eq!(
        handle_key_events(ctrl('h'), &mut app),
        Request::List { dir: path(&["home", "user"]), show_hidden: true }
    );
    assert!(!app.show_hidden);
    assert_eq!(
        handle_key_events(key(KeyCode::Backspace), &mut app),
        Request::List { dir: path(&["home"]), show_hidden: false }
    );
    assert_eq!(
        handle_key_events(key(KeyCode::Char('d')), &mut app),
        Request::Trash(path(&["home", "user", "b"]))
    );
    assert_eq!(
        handle_key_events(ctrl('d'), &mut app),
        Request::Remove(path(&["home", "user", "b"]))
    );
    assert_eq!(handle_key_events(key(KeyCode::Char('h')), &mut app), Request::Nothing);
    assert_eq!(handle_key_events(key(KeyCode::Other), &mut app), Request::Nothing);
}

#[test]
fn control_with_other_modifiers_is_not_control() {
    let k = KeyEvent {
        code: KeyCode::Char('d'),
        modifiers: KeyModifiers { shift: true, control: true, alt: false, other: false },
    };
    assert_eq!(command_for(k, false), Command::Trash);
    assert_eq!(command_for(ctrl('d'), false), Command::Remove);
    assert_eq!(command_for(key(KeyCode::Char('x')), false), Command::Ignore);
    assert_eq!(command_for(key(KeyCode::Up), true), Command::ScrollUp);
    assert_eq!(command_for(key(KeyCode::Up), false), Command::SelectPrevious);
}

#[test]
fn return_path_at_root_is_noop() {
    let app = App::new(DirPath::root(), &five(), 5);
    assert_eq!(app.return_path(), Request::Nothing);
}

#[test]
fn dir_path_parent_and_join() {
    let p = path(&["a", "b"]);
    assert_eq!(p.parent(), Some(path(&["a"])));
    assert_eq!(p.join(&"c".to_string()), path(&["a", "b", "c"]));
    assert_eq!(DirPath::root().parent(), None);
    assert_eq!(p.duplicate(), p);
}

#[test]
fn file_names_are_labels() {
    let app = app_with(&[entry("x", false), entry("y", true)]);
    assert_eq!(app.get_file_names(), vec!["\u{1F5C0} y".to_string(), "\u{1F5CE} x".to_string()]);
}

#[test]
fn preview_sources() {
    let mut app = app_with(&[entry("x.txt", false), entry("y", true)]);
    assert_eq!(app.get_preview(), Preview::Dir(path(&["home", "user", "y"])));
    app.select_next();
    assert_eq!(app.get_preview(), Preview::File(path(&["home", "user", "x.txt"])));
    assert_eq!(app_with(&[]).get_preview(), Preview::Empty);
}

#[test]
fn preview_texts() {
    let raw = vec![entry("b", false), entry(".h", false), entry("a", true)];
    assert_eq!(dir_preview(Some(&raw), false), "\u{1F5C0} a\n\u{1F5CE} b");
    assert_eq!(dir_preview(Some(&raw), true), "\u{1F5C0} a\n\u{1F5CE} .h\n\u{1F5CE} b");
    assert_eq!(dir_preview(Some(&Vec::new()), false), "");
    assert_eq!(dir_preview(None, false), "--Cannot read file--");
    assert_eq!(file_preview(Some("hello\n".to_string())), "hello\n");
    assert_eq!(file_preview(None), "--Cannot read file--");
}
