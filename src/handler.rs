use vstd::prelude::*;

use crate::app::{previous_index, next_index, App, Request, RequestModel};

verus! {

/// The key of a key press.
#[derive(Clone, Copy, Debug, PartialEq, Eq, Structural)]
pub enum KeyCode {
    Esc,
    Up,
    Down,
    Backspace,
    Enter,
    Char(char),
    Other,
}

/// The modifier keys held during a key press.
#[derive(Clone, Copy, Debug, PartialEq, Eq, Structural)]
pub struct KeyModifiers {
    pub shift: bool,
    pub control: bool,
    pub alt: bool,
    /// Any other modifier (super, hyper, meta).
    pub other: bool,
}

/// A key press: a key and the set of modifiers held.
#[derive(Clone, Copy, Debug, PartialEq, Eq, Structural)]
pub struct KeyEvent {
    pub code: KeyCode,
    pub modifiers: KeyModifiers,
}

/// The operation that a key press selects.
#[derive(Clone, Copy, Debug, PartialEq, Eq, Structural)]
pub enum Command {
    Quit,
    SelectPrevious,
    SelectNext,
    ScrollUp,
    ScrollDown,
    ToggleHidden,
    ReturnPath,
    Open,
    Remove,
    Trash,
    ToggleHelp,
    Ignore,
}

/// Control is held, and no other modifier.
pub open spec fn control_only(m: KeyModifiers) -> bool {
    m.control && !m.shift && !m.alt && !m.other
}

/// The command for a key press, in browsing mode (`show_help` false) or with
/// the help overlay shown.
pub open spec fn dispatch(key: KeyEvent, show_help: bool) -> Command {
    match key.code {
        KeyCode::Esc => Command::Quit,
        KeyCode::Char('q') => Command::Quit,
        KeyCode::Char('c') => if control_only(key.modifiers) {
            Command::Quit
        } else {
            Command::Ignore
        },
        KeyCode::Up => if show_help {
            Command::ScrollUp
        } else {
            Command::SelectPrevious
        },
        KeyCode::Down => if show_help {
            Command::ScrollDown
        } else {
            Command::SelectNext
        },
        KeyCode::Char('h') => if control_only(key.modifiers) && !show_help {
            Command::ToggleHidden
        } else {
            Command::Ignore
        },
        KeyCode::Backspace => if show_help {
            Command::Ignore
        } else {
            Command::ReturnPath
        },
        KeyCode::Enter => if show_help {
            Command::Ignore
        } else {
            Command::Open
        },
        KeyCode::Char('d') => if show_help {
            Command::Ignore
        } else if control_only(key.modifiers) {
            Command::Remove
        } else {
            Command::Trash
        },
        KeyCode::Char('?') => Command::ToggleHelp,
        _ => Command::Ignore,
    }
}

fn is_control_only(m: KeyModifiers) -> (r: bool)
    ensures
        r == control_only(m),
{
    m.control && !m.shift && !m.alt && !m.other
}

/// Decodes a key press into the command that it selects.
pub fn command_for(key: KeyEvent, show_help: bool) -> (r: Command)
    ensures
        r == dispatch(key, show_help),
{
    match key.code {
        KeyCode::Esc => Command::Quit,
        KeyCode::Up => if show_help {
            Command::ScrollUp
        } else {
            Command::SelectPrevious
        },
        KeyCode::Down => if show_help {
            Command::ScrollDown
        } else {
            Command::SelectNext
        },
        KeyCode::Backspace => if show_help {
            Command::Ignore
        } else {
            Command::ReturnPath
        },
        KeyCode::Enter => if show_help {
            Command::Ignore
        } else {
            Command::Open
        },
        KeyCode::Char(c) => {
            if c == 'q' {
                Command::Quit
            } else if c == 'c' {
                if is_control_only(key.modifiers) {
                    Command::Quit
                } else {
                    Command::Ignore
                }
            } else if c == 'h' {
                if is_control_only(key.modifiers) && !show_help {
                    Command::ToggleHidden
                } else {
                    Command::Ignore
                }
            } else if c == 'd' {
                if show_help {
                    Command::Ignore
                } else if is_control_only(key.modifiers) {
                    Command::Remove
                } else {
                    Command::Trash
                }
            } else if c == '?' {
                Command::ToggleHelp
            } else {
                Command::Ignore
            }
        },
        KeyCode::Other => Command::Ignore,
    }
}

/// Carries out a key press on `app`. Changes that need no outside work are
/// made at once; the rest come back as a request, and `app` is left as it was.
pub fn handle_key_events(key_event: KeyEvent, app: &mut App) -> (r: Request)
    requires
        old(app).wf(),
    ensures
        final(app).wf(),
        match dispatch(key_event, old(app).show_help) {
            Command::Quit => *final(app) == (App { running: false, ..*old(app) }) && r@
                == RequestModel::Nothing,
            Command::SelectPrevious => *final(app) == (App {
                selected: previous_index(old(app).selected, old(app).files.len() as nat),
                ..*old(app)
            }) && r@ == RequestModel::Nothing,
            Command::SelectNext => *final(app) == (App {
                selected: next_index(old(app).selected, old(app).files.len() as nat),
                ..*old(app)
            }) && r@ == RequestModel::Nothing,
            Command::ScrollUp => *final(app) == (App {
                help_offset: if old(app).help_offset > 0 {
                    (old(app).help_offset - 1) as usize
                } else {
                    0
                },
                ..*old(app)
            }) && r@ == RequestModel::Nothing,
            Command::ScrollDown => *final(app) == (App {
                help_offset: if old(app).help_offset + 1 < old(app).help_lines {
                    (old(app).help_offset + 1) as usize
                } else {
                    old(app).help_offset
                },
                ..*old(app)
            }) && r@ == RequestModel::Nothing,
            Command::ToggleHidden => *final(app) == *old(app) && r@ == RequestModel::List(
                old(app).current_dir@,
                !old(app).show_hidden,
            ),
            Command::ReturnPath => *final(app) == *old(app) && (if old(
                app,
            ).current_dir@.len() == 0 {
                r@ == RequestModel::Nothing
            } else {
                r@ == RequestModel::List(old(app).current_dir@.drop_last(), old(app).show_hidden)
            }),
            Command::Open => *final(app) == *old(app) && (if old(app).selected is None {
                r@ == RequestModel::Nothing
            } else if old(app).selected_is_dir() {
                r@ == RequestModel::List(old(app).selected_path(), old(app).show_hidden)
            } else {
                r@ == RequestModel::OpenFile(old(app).selected_path())
            }),
            Command::Remove => *final(app) == *old(app) && (if old(app).selected is None {
                r@ == RequestModel::Nothing
            } else {
                r@ == RequestModel::Remove(old(app).selected_path())
            }),
            Command::Trash => *final(app) == *old(app) && (if old(app).selected is None {
                r@ == RequestModel::Nothing
            } else {
                r@ == RequestModel::Trash(old(app).selected_path())
            }),
            Command::ToggleHelp => *final(app) == (App {
                show_help: !old(app).show_help,
                ..*old(app)
            }) && r@ == RequestModel::Nothing,
            Command::Ignore => *final(app) == *old(app) && r@ == RequestModel::Nothing,
        },
{
    match command_for(key_event, app.show_help) {
        Command::Quit => {
            app.quit();
            Request::Nothing
        },
        Command::SelectPrevious => {
            app.select_previous();
            Request::Nothing
        },
        Command::SelectNext => {
            app.select_next();
            Request::Nothing
        },
        Command::ScrollUp => {
            app.scroll_help(false);
            Request::Nothing
        },
        Command::ScrollDown => {
            app.scroll_help(true);
            Request::Nothing
        },
        Command::ToggleHidden => app.toggle_hidden(),
        Command::ReturnPath => app.return_path(),
        Command::Open => app.open(),
        Command::Remove => app.remove_file(),
        Command::Trash => app.move_to_trash(),
        Command::ToggleHelp => {
            app.toggle_help();
            Request::Nothing
        },
        Command::Ignore => Request::Nothing,
    }
}

} // verus!
