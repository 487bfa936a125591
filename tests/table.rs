use slm::app::{App, Snapshot};
use slm::proc_table_component::{convert_processes_to_table_items, header, lex_compare, sort_rows, ProcTableComponent, SortTableParam};
use slm::process_object::{owner_name, Owner, ProcessObject, RawProcess};

fn raw(pid: u32, owner: Owner, cpu: u64, memory: u64, run_time: u64, name: &str, exe: &str) -> RawProcess {
    RawProcess { pid, owner, cpu, memory, run_time, name: name.to_string(), exe: exe.to_string() }
}

fn sample() -> Vec<RawProcess> {
    vec![
        raw(30, Owner::Named("alice".to_string()), 150, 2_000, 10, "zsh", "/bin/zsh"),
        raw(4, Owner::Unresolved, 990, 500, 4000, "init", "/sbin/init"),
        raw(17, Owner::NoUid, 150, 8_000, 65, "kworker", ""),
        raw(8, Owner::Named("bob".to_string()), 20, 100, 10, "bash", "/bin/bash"),
    ]
}

fn pids(rows: &[ProcessObject]) -> Vec<u32> {
    rows.iter().map(|r| r.pid).collect()
}

fn snapshot(processes: Vec<RawProcess>) -> Snapshot {
    Snapshot {
        total_memory: 10_000,
        used_memory: 2_500,
        total_swap: 0,
        used_swap: 0,
        uptime: 61,
        global_cpu: 3000,
        processes,
    }
}

#[test]
fn owner_fallbacks() {
    assert_eq!(owner_name(&Owner::NoUid), "");
    assert_eq!(owner_name(&Owner::Unresolved), "root");
    assert_eq!(owner_name(&Owner::Named("eve".to_string())), "eve");
}

#[test]
fn row_from_raw() {
    let r = ProcessObject::from_raw(&raw(9, Owner::Unresolved, 1250, 2_500, 3725, "n", "/x/n"), 10_000);
    assert_eq!(r.pid(), 9);
    assert_eq!(r.user(), "root");
    assert_eq!(r.cpu(), 1250);
    assert_eq!(r.mem(), 2500);
    assert_eq!(r.time(), "1:2:5");
    assert_eq!(r.name(), "n");
    assert_eq!(r.command(), "/x/n");
    assert_eq!(r.ref_array(), vec!["9", "root", "12.50", "25.00", "1:2:5", "n", "/x/n"]);
}

#[test]
fn empty_row() {
    let r = ProcessObject::new();
    assert_eq!(r.pid(), 0);
    assert_eq!(r.user(), "");
    assert_eq!(r.time(), "");
}

#[test]
fn sort_orders_per_key() {
    let raws = sample();
    let by = |k| pids(&convert_processes_to_table_items(&raws, 10_000, k));
    assert_eq!(by(SortTableParam::Pid), vec![4, 8, 17, 30]);
    assert_eq!(by(SortTableParam::Cpu), vec![4, 17, 30, 8]);
    assert_eq!(by(SortTableParam::Mem), vec![17, 30, 4, 8]);
    assert_eq!(by(SortTableParam::Time), vec![8, 30, 17, 4]);
    assert_eq!(by(SortTableParam::User), vec![17, 30, 8, 4]);
    assert_eq!(by(SortTableParam::Name), vec![8, 4, 17, 30]);
    assert_eq!(by(SortTableParam::Command), vec![17, 8, 30, 4]);
}

#[test]
fn sort_twice_is_identical() {
    let raws = sample();
    for k in [
        SortTableParam::Pid,
        SortTableParam::User,
        SortTableParam::Cpu,
        SortTableParam::Mem,
        SortTableParam::Time,
        SortTableParam::Name,
        SortTableParam::Command,
    ] {
        let a = convert_processes_to_table_items(&raws, 10_000, k);
        let b = sort_rows(a.clone(), k);
        let c = convert_processes_to_table_items(&raws, 10_000, k);
        assert_eq!(pids(&a), pids(&b));
        assert_eq!(pids(&a), pids(&c));
        if k == SortTableParam::Cpu {
            assert!(a[0].cpu >= a[a.len() - 1].cpu);
        }
        if k == SortTableParam::Mem {
            assert!(a[0].mem >= a[a.len() - 1].mem);
        }
        if k == SortTableParam::Pid {
            assert!(a[0].pid <= a[a.len() - 1].pid);
        }
    }
}

#[test]
fn memory_percent_uses_current_total() {
    let rows = convert_processes_to_table_items(&sample(), 20_000, SortTableParam::Pid);
    assert_eq!(rows[3].mem, 1000);
}

#[test]
fn byte_order_comparison() {
    assert_eq!(lex_compare(b"abc", b"abd"), -1);
    assert_eq!(lex_compare(b"ab", b"abc"), -1);
    assert_eq!(lex_compare(b"b", b"abc"), 1);
    assert_eq!(lex_compare(b"", b""), 0);
}

#[test]
fn rows_compare_by_pid() {
    let a = ProcessObject::from_raw(&raw(3, Owner::NoUid, 1, 1, 1, "a", ""), 10);
    let b = ProcessObject::from_raw(&raw(3, Owner::NoUid, 9, 9, 9, "b", ""), 10);
    let c = ProcessObject::from_raw(&raw(5, Owner::NoUid, 1, 1, 1, "a", ""), 10);
    assert!(a == b);
    assert!(a != c);
    assert!(a < c);
    assert_eq!(c.partial_cmp(&a), Some(std::cmp::Ordering::Greater));
}

#[test]
fn table_component_highlights_sort_column() {
    let rows = Vec::new();
    let key = SortTableParam::Mem;
    let t = ProcTableComponent::new(&rows, &key);
    assert_eq!(t.sort_column(), 3);
    assert_eq!(header(t.sort_column()), "MEM%");
    assert_eq!(header(6), "Command");
}

#[test]
fn refresh_rebuilds_and_clamps() {
    let mut app = App::new(1000, vec![(0, 0)], vec![(0, 0)]);
    app.update_state(Some(snapshot(sample())));
    assert!(!app.stale);
    assert_eq!(pids(&app.process_table_items_vec), vec![4, 17, 30, 8]);
    assert_eq!(app.mem.usage_per, 2500);
    assert_eq!(app.cpu_usage_human, 1000);
    assert_eq!(app.system_uptime, "0 days, 0:1:1");
    assert_eq!(app.cpu_usage_trend.samples, vec![(0, 0), (1, 1000)]);
    assert_eq!(app.mem_usage_trend.samples, vec![(0, 0), (1, 2500)]);
    app.process_table_pagedown_row(20);
    assert_eq!(app.selected, 3);
    app.process_table_previous_row();
    assert_eq!(app.selected, 2);
    app.process_table_next_row();
    app.process_table_next_row();
    assert_eq!(app.selected, 3);
    app.process_table_pageup_row(2);
    assert_eq!(app.selected, 1);
    app.process_table_pageup_row(20);
    assert_eq!(app.selected, 0);
    app.process_table_pagedown_row(20);
    app.update_state(Some(snapshot(sample()[..2].to_vec())));
    assert_eq!(app.selected, 1);
}

#[test]
fn failed_refresh_keeps_last_good_state() {
    let mut app = App::new(1000, vec![(0, 0)], vec![(0, 0)]);
    app.update_state(Some(snapshot(sample())));
    app.update_state(None);
    assert!(app.stale);
    assert_eq!(app.process_table_items_vec.len(), 4);
    assert_eq!(app.cpu_usage_trend.samples.len(), 2);
    app.update_state(Some(snapshot(sample())));
    assert!(!app.stale);
}

#[test]
fn sort_key_takes_effect_on_next_rebuild() {
    let mut app = App::new(1000, vec![(0, 0)], vec![(0, 0)]);
    app.update_state(Some(snapshot(sample())));
    app.set_sort_param(SortTableParam::Pid);
    assert_eq!(pids(&app.process_table_items_vec), vec![4, 17, 30, 8]);
    app.update_state(Some(snapshot(sample())));
    assert_eq!(pids(&app.process_table_items_vec), vec![4, 8, 17, 30]);
}

#[test]
fn killed_pid_leaves_table_after_refresh() {
    let mut app = App::new(1000, vec![(0, 0)], vec![(0, 0)]);
    app.update_state(Some(snapshot(sample())));
    app.process_table_next_row();
    let pid = app.kill_selected_process_from_table().unwrap();
    assert_eq!(pid, 17);
    let rest: Vec<RawProcess> = sample().into_iter().filter(|p| p.pid != pid).collect();
    app.update_state(Some(snapshot(rest)));
    assert!(app.process_table_items_vec.iter().all(|r| r.pid != pid));
    assert_eq!(app.process_table_items_vec.len(), 3);
}

#[test]
fn kill_on_empty_table_gives_nothing() {
    let app = App::new(1000, vec![(0, 0)], vec![(0, 0)]);
    assert_eq!(app.kill_selected_process_from_table(), None);
}
