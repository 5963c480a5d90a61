//! How the watcher follows keys.
use crate::watcher::app::{App, View};
use vstd::prelude::*;
use vstd::view::View as _;

verus! {

/// The keys that are told apart.
#[derive(Debug, Clone, Copy, PartialEq, Eq, Structural)]
pub enum KeyCode {
    Char(char),
    Esc,
    Up,
    Down,
    Other,
}

/// A key, with or without the control key.
#[derive(Debug, Clone, Copy, PartialEq, Eq, Structural)]
pub struct KeyEvent {
    pub code: KeyCode,
    pub control: bool,
}

/// What a key asks for.
#[derive(Debug, Clone, Copy, PartialEq, Eq, Structural)]
pub enum Command {
    Quit,
    Show(View),
    ScrollUp,
    ScrollDown,
    NextColumn,
    Nothing,
}

/// What a key asks for.
pub open spec fn command_of(key: KeyEvent) -> Command {
    match key.code {
        KeyCode::Esc => Command::Quit,
        KeyCode::Up => Command::ScrollUp,
        KeyCode::Down => Command::ScrollDown,
        KeyCode::Other => Command::Nothing,
        KeyCode::Char(c) => if c == 'q' || (c == 'c' && key.control) {
            Command::Quit
        } else if c == '1' {
            Command::Show(View::Tree)
        } else if c == '2' {
            Command::Show(View::List)
        } else if c == '3' {
            Command::Show(View::Events)
        } else if c == 'k' {
            Command::ScrollUp
        } else if c == 'j' {
            Command::ScrollDown
        } else if c == 's' {
            Command::NextColumn
        } else {
            Command::Nothing
        },
    }
}

/// What a key asks for.
pub fn command(key: KeyEvent) -> (r: Command)
    ensures
        r == command_of(key),
{
    match key.code {
        KeyCode::Esc => Command::Quit,
        KeyCode::Up => Command::ScrollUp,
        KeyCode::Down => Command::ScrollDown,
        KeyCode::Other => Command::Nothing,
        KeyCode::Char(c) => {
            if c == 'q' || (c == 'c' && key.control) {
                Command::Quit
            } else if c == '1' {
                Command::Show(View::Tree)
            } else if c == '2' {
                Command::Show(View::List)
            } else if c == '3' {
                Command::Show(View::Events)
            } else if c == 'k' {
                Command::ScrollUp
            } else if c == 'j' {
                Command::ScrollDown
            } else if c == 's' {
                Command::NextColumn
            } else {
                Command::Nothing
            }
        },
    }
}

/// The watcher after a command, with that many lines shown. Another view starts at its top.
pub open spec fn obeyed(app: App, command: Command, item_count: usize) -> App {
    match command {
        Command::Quit => App { should_quit: true, ..app },
        Command::Show(view) => App { view, scroll_offset: 0, ..app },
        Command::ScrollUp => App {
            scroll_offset: if app.scroll_offset > 0 {
                (app.scroll_offset - 1) as usize
            } else {
                0
            },
            ..app
        },
        Command::ScrollDown => App {
            scroll_offset: if app.scroll_offset + 1 < item_count {
                (app.scroll_offset + 1) as usize
            } else {
                app.scroll_offset
            },
            ..app
        },
        Command::NextColumn => App { sort_column: app.sort_column.successor(), ..app },
        Command::Nothing => app,
    }
}

/// Follows a key, with that many lines shown.
pub fn handle_key(app: &mut App, key: KeyEvent, item_count: usize)
    ensures
        *final(app) == obeyed(*old(app), command_of(key), item_count),
{
    match command(key) {
        Command::Quit => {
            app.should_quit = true;
        },
        Command::Show(view) => {
            app.view = view;
            app.scroll_offset = 0;
        },
        Command::ScrollUp => {
            app.scroll_up();
        },
        Command::ScrollDown => {
            app.scroll_down(item_count);
        },
        Command::NextColumn => {
            app.sort_column = app.sort_column.next();
        },
        Command::Nothing => {},
    }
}

/// No key scrolls beyond the last line, and none brings a watcher back that is to quit.
pub proof fn keys_stay_in_bounds(app: App, key: KeyEvent, item_count: usize)
    requires
        app.scroll_offset == 0 || app.scroll_offset < item_count,
    ensures
        ({
            let after = obeyed(app, command_of(key), item_count);
            &&& after.scroll_offset == 0 || after.scroll_offset < item_count
            &&& app.should_quit ==> after.should_quit
            &&& after.processes == app.processes
            &&& after.events == app.events
        }),
{
}

/// Keys that mean the same do the same, each key does what it is for, and a key that is for nothing
/// changes nothing.
pub proof fn keys_do_what_they_are_for(app: App, key: KeyEvent, control: bool, item_count: usize)
    ensures
        obeyed(app, command_of(KeyEvent { code: KeyCode::Char('k'), control }), item_count)
            == obeyed(app, command_of(KeyEvent { code: KeyCode::Up, control }), item_count),
        obeyed(app, command_of(KeyEvent { code: KeyCode::Char('j'), control }), item_count)
            == obeyed(app, command_of(KeyEvent { code: KeyCode::Down, control }), item_count),
        obeyed(app, command_of(key), item_count).should_quit <==> app.should_quit || key.code
            == KeyCode::Esc || key.code == KeyCode::Char('q') || (key.code == KeyCode::Char('c')
            && key.control),
        key.code == KeyCode::Char('1') ==> obeyed(app, command_of(key), item_count).view
            == View::Tree,
        key.code == KeyCode::Char('2') ==> obeyed(app, command_of(key), item_count).view
            == View::List,
        key.code == KeyCode::Char('3') ==> obeyed(app, command_of(key), item_count).view
            == View::Events,
        key.code == KeyCode::Char('1') || key.code == KeyCode::Char('2') || key.code
            == KeyCode::Char('3') ==> obeyed(app, command_of(key), item_count).scroll_offset == 0,
        key.code == KeyCode::Char('s') ==> obeyed(app, command_of(key), item_count).sort_column
            == app.sort_column.successor(),
        key.code != KeyCode::Char('s') ==> obeyed(app, command_of(key), item_count).sort_column
            == app.sort_column,
        key.code == KeyCode::Other ==> obeyed(app, command_of(key), item_count) == app,
{
}

/// Going down and up again leads back, where there is a line to go down to; going up stops at the
/// top, and going down at the last line.
pub proof fn up_undoes_down(app: App, item_count: usize)
    ensures
        app.scroll_offset + 1 < item_count ==> {
            let down = obeyed(app, Command::ScrollDown, item_count);
            &&& down.scroll_offset == app.scroll_offset + 1
            &&& obeyed(down, Command::ScrollUp, item_count) == app
        },
        app.scroll_offset + 1 >= item_count ==> obeyed(app, Command::ScrollDown, item_count)
            == app,
        app.scroll_offset == 0 ==> obeyed(app, Command::ScrollUp, item_count) == app,
{
}

/// A key that quits makes the watcher quit, and a key that shows a view shows it from its top;
/// whatever the key, nothing that is known is lost.
pub proof fn keys_are_followed(
    before: App,
    key: KeyEvent,
    n: usize,
    after: App,
)
    requires
        exists|m: &mut App|
            *m == before && *final(m) == after && #[trigger] call_ensures(
                handle_key,
                (m, key, n),
                (),
            ),
    ensures
        key.code == KeyCode::Esc || key.code == KeyCode::Char('q') ==> after.should_quit,
        key.code == KeyCode::Char('1') ==> after.view == View::Tree && after.scroll_offset == 0,
        key.code == KeyCode::Char('2') ==> after.view == View::List && after.scroll_offset == 0,
        key.code == KeyCode::Char('3') ==> after.view == View::Events && after.scroll_offset == 0,
        after.processes == before.processes,
        after.events == before.events,
        key.code == KeyCode::Other ==> after == before,
{
}

} // verus!
