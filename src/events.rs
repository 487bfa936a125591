use vstd::prelude::*;
use crate::app::{same_except_table, App, PAGE_ROWS};
use crate::proc_table_component::SortTableParam;
use crate::selection::{nav_step, Nav};

verus! {

/// A key press, as the input source reports it.
#[derive(Clone, Copy, Debug, PartialEq, Eq)]
pub enum Key {
    Char(char),
    F(u8),
    Up,
    Down,
    PageUp,
    PageDown,
    Other,
}

/// What a key press asks for.
#[derive(Clone, Copy, Debug, PartialEq, Eq)]
pub enum KeyAction {
    Quit,
    Move(Nav),
    Kill,
    Sort(SortTableParam),
    Ignore,
}

/// What the loop does after a key press has been handled.
#[derive(Clone, Copy, Debug, PartialEq, Eq)]
pub enum KeyOutcome {
    /// Go on: render again and wait.
    Continue,
    /// Leave the loop.
    Quit,
    /// Terminate this pid, then refresh at once.
    Kill(u32),
}

/// The key bindings: q and F10 quit; Up and Down move one row; PageUp and
/// PageDown move twenty; F9 kills the selected process; 1 to 7 pick the
/// sort key Pid, User, Cpu, Mem, Time, Name, Command.
pub open spec fn action_spec(key: Key) -> KeyAction {
    match key {
        Key::Char('q') => KeyAction::Quit,
        Key::F(10) => KeyAction::Quit,
        Key::Down => KeyAction::Move(Nav::Next),
        Key::Up => KeyAction::Move(Nav::Previous),
        Key::PageDown => KeyAction::Move(Nav::PageDown(PAGE_ROWS)),
        Key::PageUp => KeyAction::Move(Nav::PageUp(PAGE_ROWS)),
        Key::F(9) => KeyAction::Kill,
        Key::Char('1') => KeyAction::Sort(SortTableParam::Pid),
        Key::Char('2') => KeyAction::Sort(SortTableParam::User),
        Key::Char('3') => KeyAction::Sort(SortTableParam::Cpu),
        Key::Char('4') => KeyAction::Sort(SortTableParam::Mem),
        Key::Char('5') => KeyAction::Sort(SortTableParam::Time),
        Key::Char('6') => KeyAction::Sort(SortTableParam::Name),
        Key::Char('7') => KeyAction::Sort(SortTableParam::Command),
        _ => KeyAction::Ignore,
    }
}

/// The action bound to `key`.
pub fn action_for_key(key: Key) -> (r: KeyAction)
    ensures
        r == action_spec(key),
{
    match key {
        Key::Char('q') => KeyAction::Quit,
        Key::F(10) => KeyAction::Quit,
        Key::Down => KeyAction::Move(Nav::Next),
        Key::Up => KeyAction::Move(Nav::Previous),
        Key::PageDown => KeyAction::Move(Nav::PageDown(PAGE_ROWS)),
        Key::PageUp => KeyAction::Move(Nav::PageUp(PAGE_ROWS)),
        Key::F(9) => KeyAction::Kill,
        Key::Char('1') => KeyAction::Sort(SortTableParam::Pid),
        Key::Char('2') => KeyAction::Sort(SortTableParam::User),
        Key::Char('3') => KeyAction::Sort(SortTableParam::Cpu),
        Key::Char('4') => KeyAction::Sort(SortTableParam::Mem),
        Key::Char('5') => KeyAction::Sort(SortTableParam::Time),
        Key::Char('6') => KeyAction::Sort(SortTableParam::Name),
        Key::Char('7') => KeyAction::Sort(SortTableParam::Command),
        _ => KeyAction::Ignore,
    }
}

impl App {
    /// Handles one key press: moves the selection or switches the sort key
    /// in place, and tells the loop whether to quit or which pid to kill
    /// (a kill with an empty table does nothing).
    pub fn handle_key(&mut self, key: Key) -> (r: KeyOutcome)
        requires
            old(self).wf(),
        ensures
            final(self).wf(),
            same_except_table(*old(self), *final(self)),
            final(self).process_table_items_vec@ == old(self).process_table_items_vec@,
            final(self).process_table_sort_param == match action_spec(key) {
                KeyAction::Sort(k) => k,
                _ => old(self).process_table_sort_param,
            },
            final(self).selected == match action_spec(key) {
                KeyAction::Move(cmd) => nav_step(old(self).selected as int, old(self).process_table_items_vec@.len() as int, cmd),
                _ => old(self).selected as int,
            },
            r == match action_spec(key) {
                KeyAction::Quit => KeyOutcome::Quit,
                KeyAction::Kill => if old(self).process_table_items_vec@.len() == 0 {
                    KeyOutcome::Continue
                } else {
                    KeyOutcome::Kill(old(self).process_table_items_vec@[old(self).selected as int].pid)
                },
                _ => KeyOutcome::Continue,
            },
    {
        match action_for_key(key) {
            KeyAction::Quit => KeyOutcome::Quit,
            KeyAction::Move(cmd) => {
                self.navigate(cmd);
                KeyOutcome::Continue
            },
            KeyAction::Kill => match self.kill_selected_process_from_table() {
                Some(pid) => KeyOutcome::Kill(pid),
                None => KeyOutcome::Continue,
            },
            KeyAction::Sort(k) => {
                self.set_sort_param(k);
                KeyOutcome::Continue
            },
            KeyAction::Ignore => KeyOutcome::Continue,
        }
    }
}

/// How long to wait for input before the next tick is due: the interval
/// less the time since the last tick, or zero once it has passed.
pub fn poll_timeout(tick_rate_ms: u64, elapsed_ms: u64) -> (r: u64)
    ensures
        r == if elapsed_ms >= tick_rate_ms { 0 } else { (tick_rate_ms - elapsed_ms) as int },
{
    if elapsed_ms >= tick_rate_ms {
        0
    } else {
        tick_rate_ms - elapsed_ms
    }
}

/// Whether a refresh is due: a full interval has passed since the last one.
pub fn tick_due(tick_rate_ms: u64, elapsed_ms: u64) -> (r: bool)
    ensures
        r == (elapsed_ms >= tick_rate_ms),
{
    elapsed_ms >= tick_rate_ms
}

} // verus!
