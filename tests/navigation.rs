use slm::app::{App, Snapshot, PAGE_ROWS};
use slm::process_object::{Owner, RawProcess};
use slm::events::{action_for_key, poll_timeout, tick_due, Key, KeyAction, KeyOutcome};
use slm::proc_table_component::SortTableParam;
use slm::selection::{apply_nav, clamp_index, next_index, page_down_index, page_up_index, previous_index, Nav};

#[test]
fn page_down_on_five_rows_stops_at_last() {
    assert_eq!(page_down_index(2, 20, 5), 4);
}

#[test]
fn page_down_at_last_row_is_noop() {
    assert_eq!(page_down_index(4, 20, 5), 4);
    assert_eq!(page_down_index(1, 2, 5), 3);
}

#[test]
fn page_up_clamps_at_zero() {
    assert_eq!(page_up_index(3, 20, 5), 0);
    assert_eq!(page_up_index(3, 2, 5), 1);
    assert_eq!(page_up_index(0, 0, 0), 0);
}

#[test]
fn next_and_previous_clamp() {
    assert_eq!(next_index(0, 3), 1);
    assert_eq!(next_index(2, 3), 2);
    assert_eq!(previous_index(0, 3), 0);
    assert_eq!(previous_index(2, 3), 1);
}

#[test]
fn empty_table_keeps_index_zero() {
    assert_eq!(next_index(0, 0), 0);
    assert_eq!(previous_index(0, 0), 0);
    assert_eq!(page_down_index(0, 20, 0), 0);
    assert_eq!(page_up_index(0, 20, 0), 0);
    assert_eq!(clamp_index(7, 0), 0);
}

#[test]
fn clamp_brings_index_into_range() {
    assert_eq!(clamp_index(9, 4), 3);
    assert_eq!(clamp_index(2, 4), 2);
}

#[test]
fn any_command_sequence_stays_in_range() {
    let cmds = [
        Nav::Next,
        Nav::Next,
        Nav::PageDown(100),
        Nav::Next,
        Nav::PageUp(3),
        Nav::Previous,
        Nav::PageUp(usize::MAX),
        Nav::Previous,
        Nav::PageDown(usize::MAX),
    ];
    for n in 0..8usize {
        let mut i = 0usize;
        for c in cmds.iter() {
            i = apply_nav(i, n, *c);
            assert!(i < std::cmp::max(1, n));
        }
    }
}

#[test]
fn key_bindings() {
    assert_eq!(action_for_key(Key::Char('q')), KeyAction::Quit);
    assert_eq!(action_for_key(Key::F(10)), KeyAction::Quit);
    assert_eq!(action_for_key(Key::Down), KeyAction::Move(Nav::Next));
    assert_eq!(action_for_key(Key::Up), KeyAction::Move(Nav::Previous));
    assert_eq!(action_for_key(Key::PageDown), KeyAction::Move(Nav::PageDown(PAGE_ROWS)));
    assert_eq!(action_for_key(Key::PageUp), KeyAction::Move(Nav::PageUp(20)));
    assert_eq!(action_for_key(Key::F(9)), KeyAction::Kill);
    assert_eq!(action_for_key(Key::Char('1')), KeyAction::Sort(SortTableParam::Pid));
    assert_eq!(action_for_key(Key::Char('2')), KeyAction::Sort(SortTableParam::User));
    assert_eq!(action_for_key(Key::Char('3')), KeyAction::Sort(SortTableParam::Cpu));
    assert_eq!(action_for_key(Key::Char('4')), KeyAction::Sort(SortTableParam::Mem));
    assert_eq!(action_for_key(Key::Char('5')), KeyAction::Sort(SortTableParam::Time));
    assert_eq!(action_for_key(Key::Char('6')), KeyAction::Sort(SortTableParam::Name));
    assert_eq!(action_for_key(Key::Char('7')), KeyAction::Sort(SortTableParam::Command));
    assert_eq!(action_for_key(Key::Char('x')), KeyAction::Ignore);
    assert_eq!(action_for_key(Key::Other), KeyAction::Ignore);
}

#[test]
fn handle_key_on_empty_table() {
    let mut app = App::new(1000, vec![(0, 0)], vec![(0, 0)]);
    assert_eq!(app.handle_key(Key::F(9)), KeyOutcome::Continue);
    assert_eq!(app.handle_key(Key::Down), KeyOutcome::Continue);
    assert_eq!(app.selected, 0);
    assert_eq!(app.handle_key(Key::Char('5')), KeyOutcome::Continue);
    assert_eq!(app.process_table_sort_param, SortTableParam::Time);
    assert_eq!(app.handle_key(Key::Char('q')), KeyOutcome::Quit);
}

#[test]
fn scheduler_timing() {
    assert_eq!(poll_timeout(1000, 250), 750);
    assert_eq!(poll_timeout(1000, 1000), 0);
    assert_eq!(poll_timeout(1000, 5000), 0);
    assert!(!tick_due(1000, 999));
    assert!(tick_due(1000, 1000));
}

fn loaded_app() -> App {
    let mut app = App::new(1000, vec![(0, 0)], vec![(0, 0)]);
    let p = |pid: u32| RawProcess {
        pid,
        owner: Owner::NoUid,
        cpu: pid as u64,
        memory: 10,
        run_time: 1,
        name: "p".to_string(),
        exe: String::new(),
    };
    app.update_state(Some(Snapshot {
        total_memory: 100,
        used_memory: 40,
        total_swap: 10,
        used_swap: 5,
        uptime: 7,
        global_cpu: 900,
        processes: vec![p(1), p(2), p(3)],
    }));
    app
}

fn totals(app: &App) -> (u64, u64, u64, bool, usize, usize, String) {
    (
        app.mem.usage_per,
        app.swap.usage_per,
        app.cpu_usage_human,
        app.stale,
        app.cpu_usage_trend.samples.len(),
        app.mem_usage_trend.samples.len(),
        app.system_uptime.clone(),
    )
}

#[test]
fn keys_leave_totals_and_trends_alone() {
    let mut app = loaded_app();
    let before = totals(&app);
    for key in [Key::Char('4'), Key::Down, Key::PageUp, Key::Other, Key::Char('z'), Key::F(10)] {
        app.handle_key(key);
        assert_eq!(totals(&app), before);
    }
    assert_eq!(app.process_table_sort_param, SortTableParam::Mem);
    assert_eq!(app.process_table_items_vec.len(), 3);
}

#[test]
fn ignored_key_changes_nothing() {
    let mut app = loaded_app();
    app.process_table_next_row();
    let rows: Vec<u32> = app.process_table_items_vec.iter().map(|r| r.pid).collect();
    assert_eq!(app.handle_key(Key::Char('x')), KeyOutcome::Continue);
    assert_eq!(app.selected, 1);
    assert_eq!(app.process_table_sort_param, SortTableParam::Cpu);
    assert_eq!(app.process_table_items_vec.iter().map(|r| r.pid).collect::<Vec<u32>>(), rows);
    assert_eq!(app.handle_key(Key::F(9)), KeyOutcome::Kill(2));
}
