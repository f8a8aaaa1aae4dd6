use vstd::prelude::*;

use crate::app::{
    can_move, confirmed_pid, spec_cancel_kill, spec_cycle_sort, spec_jump_to_first, spec_jump_to_last,
    spec_move_selection, spec_request_kill, spec_speed_down, spec_speed_up, App, AppView,
};
use crate::layout::{sat_add_u16, spec_contains, Position};

verus! {

/// The keys that the monitor tells apart.
#[derive(Clone, Copy, PartialEq, Eq, Structural, Debug)]
pub enum KeyCode {
    Char(char),
    Enter,
    Esc,
    Up,
    Down,
    PageUp,
    PageDown,
    Home,
    End,
    Delete,
    Other,
}

/// A key press, and whether Control was held.
#[derive(Clone, Copy, PartialEq, Eq, Structural, Debug)]
pub struct KeyInput {
    pub code: KeyCode,
    pub ctrl: bool,
}

/// The mouse events that the monitor tells apart.
#[derive(Clone, Copy, PartialEq, Eq, Structural, Debug)]
pub enum MouseKind {
    ScrollUp,
    ScrollDown,
    LeftDown,
    Other,
}

/// A mouse event at a terminal cell.
#[derive(Clone, Copy, PartialEq, Eq, Structural, Debug)]
pub struct MouseInput {
    pub kind: MouseKind,
    pub column: u16,
    pub row: u16,
}

/// What the caller does after a key: nothing more, read the system again, or
/// terminate a process and then read the system again.
#[derive(Clone, Copy, PartialEq, Eq, Structural, Debug)]
pub enum Action {
    Nothing,
    Refresh,
    Kill(u32),
}

/// Whether `key` asks to quit: `q` always, `c` with Control.
pub open spec fn is_quit_while_confirming(key: KeyInput) -> bool {
    key.code == KeyCode::Char('q') || (key.code == KeyCode::Char('c') && key.ctrl)
}

/// The rows that a key moves the highlight by, if it moves it.
pub open spec fn key_move(key: KeyInput) -> Option<int> {
    match key.code {
        KeyCode::Up => Some(-1),
        KeyCode::Char('k') => Some(-1),
        KeyCode::Down => Some(1),
        KeyCode::Char('j') => Some(1),
        KeyCode::PageUp => Some(-10),
        KeyCode::PageDown => Some(10),
        _ => None,
    }
}

/// The state and the follow-up after a key press while a kill waits for
/// confirmation: `y`, `Y` or Enter confirm it, `n`, `N` or Esc cancel it,
/// `q` or Control-`c` quit, any other key does nothing.
pub open spec fn spec_confirm_key(a: AppView, key: KeyInput) -> (AppView, Action) {
    match key.code {
        KeyCode::Char('y') | KeyCode::Char('Y') | KeyCode::Enter => (
            spec_cancel_kill(a),
            match confirmed_pid(a) {
                Some(pid) => Action::Kill(pid),
                None => Action::Nothing,
            },
        ),
        KeyCode::Char('n') | KeyCode::Char('N') | KeyCode::Esc => (spec_cancel_kill(a), Action::Nothing),
        _ => if is_quit_while_confirming(key) {
            (AppView { should_quit: true, ..a }, Action::Nothing)
        } else {
            (a, Action::Nothing)
        },
    }
}

/// The state and the follow-up after a key press.
pub open spec fn spec_handle_key(a: AppView, key: KeyInput) -> (AppView, Action) {
    if a.confirm is Some {
        spec_confirm_key(a, key)
    } else {
        match key.code {
            KeyCode::Char('q') | KeyCode::Esc => (AppView { should_quit: true, ..a }, Action::Nothing),
            KeyCode::Char('c') if key.ctrl => (AppView { should_quit: true, ..a }, Action::Nothing),
            KeyCode::Up | KeyCode::Char('k') => (spec_move_selection(a, -1), Action::Nothing),
            KeyCode::Down | KeyCode::Char('j') => (spec_move_selection(a, 1), Action::Nothing),
            KeyCode::PageUp => (spec_move_selection(a, -10), Action::Nothing),
            KeyCode::PageDown => (spec_move_selection(a, 10), Action::Nothing),
            KeyCode::Home => (spec_jump_to_first(a), Action::Nothing),
            KeyCode::End => (spec_jump_to_last(a), Action::Nothing),
            KeyCode::Char('d') | KeyCode::Delete => (spec_request_kill(a), Action::Nothing),
            KeyCode::Char('p') => (AppView { paused: !a.paused, ..a }, Action::Nothing),
            KeyCode::Char('s') => (spec_cycle_sort(a), Action::Nothing),
            KeyCode::Char('r') => (a, Action::Refresh),
            KeyCode::Char('+') | KeyCode::Char(']') => (spec_speed_up(a), Action::Nothing),
            KeyCode::Char('-') | KeyCode::Char('[') => (spec_speed_down(a), Action::Nothing),
            _ => (a, Action::Nothing),
        }
    }
}

/// The states in which a key cannot overflow: moving the highlight stays
/// within `isize`, doubling the refresh period within `u64`.
pub open spec fn key_safe(a: AppView, key: KeyInput) -> bool {
    a.confirm is None ==> {
        &&& (key_move(key) matches Some(d) ==> can_move(a, d))
        &&& ((key.code == KeyCode::Char('-') || key.code == KeyCode::Char('[')) ==> a.interval_ms
            <= u64::MAX / 2)
    }
}

fn confirm_key(app: &mut App, key: KeyInput) -> (action: Action)
    requires
        old(app).confirm is Some,
    ensures
        (final(app)@, action) == spec_confirm_key(old(app)@, key),
{
    let act = match key.code {
        KeyCode::Char('y') | KeyCode::Char('Y') | KeyCode::Enter => match app.confirm_kill() {
            Some(pid) => Action::Kill(pid),
            None => Action::Nothing,
        },
        KeyCode::Char('n') | KeyCode::Char('N') | KeyCode::Esc => {
            app.cancel_kill();
            Action::Nothing
        },
        KeyCode::Char('q') => {
            app.should_quit = true;
            Action::Nothing
        },
        _ => {
            if key.code == KeyCode::Char('c') && key.ctrl {
                app.should_quit = true;
            }
            Action::Nothing
        },
    };
    act
}

/// Applies a key press; the returned action is the caller's to carry out.
pub fn handle_key(app: &mut App, key: KeyInput) -> (action: Action)
    requires
        key_safe(old(app)@, key),
    ensures
        (final(app)@, action) == spec_handle_key(old(app)@, key),
{
    if app.confirm.is_some() {
        return confirm_key(app, key);
    }
    match key.code {
        KeyCode::Char('q') | KeyCode::Esc => app.should_quit = true,
        KeyCode::Char('c') if key.ctrl => app.should_quit = true,
        KeyCode::Up | KeyCode::Char('k') => app.move_selection(-1),
        KeyCode::Down | KeyCode::Char('j') => app.move_selection(1),
        KeyCode::PageUp => app.move_selection(-10),
        KeyCode::PageDown => app.move_selection(10),
        KeyCode::Home => app.jump_to_first(),
        KeyCode::End => app.jump_to_last(),
        KeyCode::Char('d') | KeyCode::Delete => app.request_kill(),
        KeyCode::Char('p') => app.paused = !app.paused,
        KeyCode::Char('s') => app.cycle_sort(),
        KeyCode::Char('r') => {
            return Action::Refresh;
        },
        KeyCode::Char('+') | KeyCode::Char(']') => app.speed_up(),
        KeyCode::Char('-') | KeyCode::Char('[') => app.speed_down(),
        _ => {},
    }
    Action::Nothing
}

/// The row that a click at `row` selects in the table drawn at `area`, if
/// the click falls below the two header lines: the row shown there, counting
/// from the table's scroll offset, or the last row when the click is below it.
pub open spec fn clicked_row(a: AppView, mouse: MouseInput) -> Option<usize> {
    match a.table_area {
        Some(area) => {
            let header_end = sat_add_u16(area.y, 2);
            if spec_contains(area, Position { x: mouse.column, y: mouse.row }) && mouse.row
                >= header_end {
                let max: int = if a.processes.len() == 0 {
                    0
                } else {
                    a.processes.len() - 1
                };
                let pos: int = a.table_offset + (mouse.row - header_end);
                Some((if pos < max { pos } else { max }) as usize)
            } else {
                None
            }
        },
        None => None,
    }
}

/// The state after a mouse event: the wheel moves the highlight, a left
/// click on a table row selects it; while a kill waits, nothing changes.
pub open spec fn spec_handle_mouse(a: AppView, mouse: MouseInput) -> AppView {
    if a.confirm is Some {
        a
    } else {
        match mouse.kind {
            MouseKind::ScrollUp => spec_move_selection(a, -1),
            MouseKind::ScrollDown => spec_move_selection(a, 1),
            MouseKind::LeftDown => match clicked_row(a, mouse) {
                Some(i) => AppView { selected: Some(i), ..a },
                None => a,
            },
            MouseKind::Other => a,
        }
    }
}

/// The states in which a mouse event cannot overflow.
pub open spec fn mouse_safe(a: AppView, mouse: MouseInput) -> bool {
    a.confirm is None ==> {
        &&& (mouse.kind == MouseKind::ScrollUp ==> can_move(a, -1))
        &&& (mouse.kind == MouseKind::ScrollDown ==> can_move(a, 1))
    }
}

pub fn handle_mouse(app: &mut App, mouse: MouseInput)
    requires
        mouse_safe(old(app)@, mouse),
    ensures
        final(app)@ == spec_handle_mouse(old(app)@, mouse),
{
    if app.confirm.is_some() {
        return;
    }
    match mouse.kind {
        MouseKind::ScrollUp => app.move_selection(-1),
        MouseKind::ScrollDown => app.move_selection(1),
        MouseKind::LeftDown => {
            if let Some(area) = app.table_area {
                let pos = Position { x: mouse.column, y: mouse.row };
                let header_end = area.y.saturating_add(2);
                if area.contains(pos) && mouse.row >= header_end {
                    let max = app.processes.len().saturating_sub(1);
                    let idx = (mouse.row - header_end) as usize;
                    let off = app.table_offset;
                    app.selected = Some(if off > max || idx > max - off { max } else { off + idx });
                }
            }
        },
        MouseKind::Other => {},
    }
}

} // verus!
