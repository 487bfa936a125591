use vstd::prelude::*;
use crate::metrics::{mem_calc, CpuSmoother, MemFigures, FULL_CENTI_PERCENT, gib_centi_spec, mean_spec, percent_centi_spec};
use crate::proc_table_component::{convert_processes_to_table_items, lemma_rebuilt_pids, rebuilt_from, SortTableParam};
use crate::process_object::{ProcessObject, RawProcess};
use crate::selection::{apply_nav, clamp_index, clamp_spec, index_valid, nav_step, Nav};
use crate::text::{uptime_calc, uptime_chars};
use crate::trend::{append_spec, TrendBuffer, DEFAULT_TREND_WINDOW};

verus! {

/// The rows that PageUp and PageDown move by.
pub const PAGE_ROWS: usize = 20;

/// One reading of the metrics source: totals and the raw process list.
pub struct Snapshot {
    pub total_memory: u64,
    pub used_memory: u64,
    pub total_swap: u64,
    pub used_swap: u64,
    /// System uptime in seconds.
    pub uptime: u64,
    /// Global CPU usage in hundredths of a percent.
    pub global_cpu: u64,
    pub processes: Vec<RawProcess>,
}

/// The dashboard state: derived totals, trends, and the process table with
/// its sort key and selection.
pub struct App {
    /// The refresh interval in milliseconds.
    pub tick_rate: u64,
    pub system_uptime: String,
    pub mem: MemFigures,
    pub swap: MemFigures,
    pub cpu_smoother: CpuSmoother,
    /// The smoothed global CPU usage, in hundredths of a percent.
    pub cpu_usage_human: u64,
    pub cpu_usage_trend: TrendBuffer,
    pub mem_usage_trend: TrendBuffer,
    pub process_table_items_vec: Vec<ProcessObject>,
    /// The selected row; 0 with an empty table, meaning no selection.
    pub selected: usize,
    pub process_table_sort_param: SortTableParam,
    /// The last refresh failed: what is shown is from the one before.
    pub stale: bool,
    pub info_string: String,
}

/// Some row of `rows` has this pid.
pub open spec fn has_pid(rows: Seq<ProcessObject>, pid: u32) -> bool {
    exists|k: int| 0 <= k < rows.len() && #[trigger] rows[k].pid == pid
}

/// The reading reports a process with this pid.
pub open spec fn reports_pid(raws: Seq<RawProcess>, pid: u32) -> bool {
    exists|i: int| 0 <= i < raws.len() && #[trigger] raws[i].pid == pid
}

/// `b` holds the same totals, trends, flags and settings as `a`: only the
/// table, its selection and its sort key may differ.
pub open spec fn same_except_table(a: App, b: App) -> bool {
    &&& b.tick_rate == a.tick_rate
    &&& b.system_uptime@ == a.system_uptime@
    &&& b.mem == a.mem
    &&& b.swap == a.swap
    &&& b.cpu_smoother.readings@ == a.cpu_smoother.readings@
    &&& b.cpu_usage_human == a.cpu_usage_human
    &&& b.cpu_usage_trend@ == a.cpu_usage_trend@
    &&& b.cpu_usage_trend.window == a.cpu_usage_trend.window
    &&& b.mem_usage_trend@ == a.mem_usage_trend@
    &&& b.mem_usage_trend.window == a.mem_usage_trend.window
    &&& b.stale == a.stale
    &&& b.info_string@ == a.info_string@
}

/// The trend after appending `v`, or unchanged when its tick counter is full.
pub open spec fn trend_after(t: TrendBuffer, v: u64) -> Seq<(u64, u64)> {
    if t.can_append_spec() {
        append_spec(t@, t.window as nat, v)
    } else {
        t@
    }
}

impl App {
    pub open spec fn wf(&self) -> bool {
        &&& self.cpu_smoother.wf()
        &&& self.cpu_usage_trend.wf()
        &&& self.mem_usage_trend.wf()
        &&& index_valid(self.selected as int, self.process_table_items_vec@.len() as int)
    }

    /// Starts the state from two seed series (one sample each in live mode,
    /// a loaded history in bootstrap mode), sorted by CPU usage.
    pub fn new(tick_rate: u64, cpu_seed: Vec<(u64, u64)>, mem_seed: Vec<(u64, u64)>) -> (r: App)
        requires
            cpu_seed@.len() >= 1,
            mem_seed@.len() >= 1,
        ensures
            r.wf(),
            r.tick_rate == tick_rate,
            r.cpu_usage_trend.window == DEFAULT_TREND_WINDOW,
            r.mem_usage_trend.window == DEFAULT_TREND_WINDOW,
            r.cpu_usage_trend@ == crate::trend::seed_spec(cpu_seed@, DEFAULT_TREND_WINDOW as nat),
            r.mem_usage_trend@ == crate::trend::seed_spec(mem_seed@, DEFAULT_TREND_WINDOW as nat),
            r.cpu_smoother.readings@ == seq![0u64, 0u64, 0u64],
            r.cpu_usage_human == 0,
            r.process_table_items_vec@.len() == 0,
            r.selected == 0,
            r.process_table_sort_param == SortTableParam::Cpu,
            !r.stale,
    {
        let zero = MemFigures { total_gib_centi: 0, usage_gib_centi: 0, total_per: 0, usage_per: 0 };
        App {
            tick_rate,
            system_uptime: String::new(),
            mem: zero,
            swap: zero,
            cpu_smoother: CpuSmoother::new(),
            cpu_usage_human: 0,
            cpu_usage_trend: TrendBuffer::seed(DEFAULT_TREND_WINDOW, cpu_seed),
            mem_usage_trend: TrendBuffer::seed(DEFAULT_TREND_WINDOW, mem_seed),
            process_table_items_vec: Vec::new(),
            selected: 0,
            process_table_sort_param: SortTableParam::Cpu,
            stale: false,
            info_string: String::from_str(
                "Down/PageDown/Up/PageUp; Sort: 1 - Pid, 2 - User, 3 - Cpu, 4 - Mem, 5 - Time, 6 - Name, 7 - Command; F9 - kill selected process; q / F10 - for quit",
            ),
        }
    }

    /// One refresh. With a reading, derives the totals and percentages,
    /// smooths the CPU figure, appends both trends, rebuilds the table under
    /// the active sort key and re-clamps the selection. Without one (the
    /// source failed), keeps everything and marks the state stale.
    pub fn update_state(&mut self, snapshot: Option<Snapshot>)
        requires
            old(self).wf(),
        ensures
            final(self).wf(),
            final(self).tick_rate == old(self).tick_rate,
            final(self).process_table_sort_param == old(self).process_table_sort_param,
            final(self).cpu_usage_trend.window == old(self).cpu_usage_trend.window,
            final(self).mem_usage_trend.window == old(self).mem_usage_trend.window,
            match snapshot {
                None => {
                    &&& final(self).stale
                    &&& final(self).process_table_items_vec@ == old(self).process_table_items_vec@
                    &&& final(self).selected == old(self).selected
                    &&& final(self).mem == old(self).mem
                    &&& final(self).swap == old(self).swap
                    &&& final(self).cpu_usage_human == old(self).cpu_usage_human
                    &&& final(self).cpu_smoother.readings@ == old(self).cpu_smoother.readings@
                    &&& final(self).cpu_usage_trend@ == old(self).cpu_usage_trend@
                    &&& final(self).mem_usage_trend@ == old(self).mem_usage_trend@
                    &&& final(self).system_uptime@ == old(self).system_uptime@
                },
                Some(s) => {
                    &&& !final(self).stale
                    &&& final(self).system_uptime@ == uptime_chars(s.uptime as nat)
                    &&& final(self).mem.total_gib_centi == gib_centi_spec(s.total_memory as nat)
                    &&& final(self).mem.usage_gib_centi == gib_centi_spec(s.used_memory as nat)
                    &&& final(self).mem.total_per == FULL_CENTI_PERCENT
                    &&& final(self).mem.usage_per == percent_centi_spec(s.used_memory as nat, s.total_memory as nat)
                    &&& final(self).swap.total_gib_centi == gib_centi_spec(s.total_swap as nat)
                    &&& final(self).swap.usage_gib_centi == gib_centi_spec(s.used_swap as nat)
                    &&& final(self).swap.total_per == FULL_CENTI_PERCENT
                    &&& final(self).swap.usage_per == percent_centi_spec(s.used_swap as nat, s.total_swap as nat)
                    &&& final(self).cpu_smoother.readings@ == old(self).cpu_smoother.readings@.drop_first().push(s.global_cpu)
                    &&& final(self).cpu_usage_human == mean_spec(final(self).cpu_smoother.readings@)
                    &&& final(self).cpu_usage_trend@ == trend_after(old(self).cpu_usage_trend, final(self).cpu_usage_human)
                    &&& final(self).mem_usage_trend@ == trend_after(old(self).mem_usage_trend, final(self).mem.usage_per)
                    &&& rebuilt_from(final(self).process_table_items_vec@, s.processes@, s.total_memory as nat, old(self).process_table_sort_param)
                    &&& forall|pid: u32| #[trigger] has_pid(final(self).process_table_items_vec@, pid) <==> reports_pid(s.processes@, pid)
                    &&& final(self).selected == clamp_spec(old(self).selected as int, final(self).process_table_items_vec@.len() as int)
                },
            },
    {
        match snapshot {
            None => {
                self.stale = true;
            },
            Some(s) => {
                self.stale = false;
                self.system_uptime = uptime_calc(s.uptime);
                self.mem = mem_calc(s.total_memory, s.used_memory);
                self.cpu_usage_human = self.cpu_smoother.usage_calc(s.global_cpu);
                self.swap = mem_calc(s.total_swap, s.used_swap);
                if self.cpu_usage_trend.can_append() {
                    self.cpu_usage_trend.append(self.cpu_usage_human);
                }
                if self.mem_usage_trend.can_append() {
                    self.mem_usage_trend.append(self.mem.usage_per);
                }
                self.process_table_items_vec = convert_processes_to_table_items(
                    &s.processes,
                    s.total_memory,
                    self.process_table_sort_param,
                );
                self.selected = clamp_index(self.selected, self.process_table_items_vec.len());
                proof {
                    assert forall|pid: u32| #[trigger] has_pid(self.process_table_items_vec@, pid) <==> reports_pid(s.processes@, pid) by {
                        lemma_rebuilt_pids(self.process_table_items_vec@, s.processes@, s.total_memory as nat, self.process_table_sort_param, pid);
                    }
                }
            },
        }
    }

    /// Moves the selection by one navigation command.
    pub fn navigate(&mut self, cmd: Nav)
        requires
            old(self).wf(),
        ensures
            same_except_table(*old(self), *final(self)),
            final(self).wf(),
            final(self).selected == nav_step(old(self).selected as int, old(self).process_table_items_vec@.len() as int, cmd),
            final(self).process_table_items_vec@ == old(self).process_table_items_vec@,
            final(self).process_table_sort_param == old(self).process_table_sort_param,
    {
        self.selected = apply_nav(self.selected, self.process_table_items_vec.len(), cmd);
    }

    /// Selects the next row, stopping at the last.
    pub fn process_table_next_row(&mut self)
        requires
            old(self).wf(),
        ensures
            same_except_table(*old(self), *final(self)),
            final(self).wf(),
            final(self).selected == nav_step(old(self).selected as int, old(self).process_table_items_vec@.len() as int, Nav::Next),
            final(self).process_table_items_vec@ == old(self).process_table_items_vec@,
            final(self).process_table_sort_param == old(self).process_table_sort_param,
    {
        self.navigate(Nav::Next);
    }

    /// Selects the previous row, stopping at the first.
    pub fn process_table_previous_row(&mut self)
        requires
            old(self).wf(),
        ensures
            same_except_table(*old(self), *final(self)),
            final(self).wf(),
            final(self).selected == nav_step(old(self).selected as int, old(self).process_table_items_vec@.len() as int, Nav::Previous),
            final(self).process_table_items_vec@ == old(self).process_table_items_vec@,
            final(self).process_table_sort_param == old(self).process_table_sort_param,
    {
        self.navigate(Nav::Previous);
    }

    /// Moves the selection `row_count` rows down, stopping at the last row.
    pub fn process_table_pagedown_row(&mut self, row_count: usize)
        requires
            old(self).wf(),
        ensures
            same_except_table(*old(self), *final(self)),
            final(self).wf(),
            final(self).selected == nav_step(old(self).selected as int, old(self).process_table_items_vec@.len() as int, Nav::PageDown(row_count)),
            final(self).process_table_items_vec@ == old(self).process_table_items_vec@,
            final(self).process_table_sort_param == old(self).process_table_sort_param,
    {
        self.navigate(Nav::PageDown(row_count));
    }

    /// Moves the selection `row_count` rows up, stopping at the first row.
    pub fn process_table_pageup_row(&mut self, row_count: usize)
        requires
            old(self).wf(),
        ensures
            same_except_table(*old(self), *final(self)),
            final(self).wf(),
            final(self).selected == nav_step(old(self).selected as int, old(self).process_table_items_vec@.len() as int, Nav::PageUp(row_count)),
            final(self).process_table_items_vec@ == old(self).process_table_items_vec@,
            final(self).process_table_sort_param == old(self).process_table_sort_param,
    {
        self.navigate(Nav::PageUp(row_count));
    }

    /// Switches the sort key; the table is re-sorted on the next rebuild.
    pub fn set_sort_param(&mut self, key: SortTableParam)
        requires
            old(self).wf(),
        ensures
            same_except_table(*old(self), *final(self)),
            final(self).wf(),
            final(self).process_table_sort_param == key,
            final(self).process_table_items_vec@ == old(self).process_table_items_vec@,
            final(self).selected == old(self).selected,
    {
        self.process_table_sort_param = key;
    }

    /// The pid of the selected row, which the caller is to terminate before
    /// refreshing; `None` when the table is empty.
    pub fn kill_selected_process_from_table(&self) -> (r: Option<u32>)
        requires
            self.wf(),
        ensures
            r == if self.process_table_items_vec@.len() == 0 {
                None::<u32>
            } else {
                Some(self.process_table_items_vec@[self.selected as int].pid)
            },
    {
        if self.process_table_items_vec.len() == 0 {
            None
        } else {
            Some(self.process_table_items_vec[self.selected].pid)
        }
    }
}

} // verus!
