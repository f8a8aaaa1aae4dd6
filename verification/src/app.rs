use std::collections::VecDeque;

use vstd::prelude::*;

use crate::config::Config;
use crate::layout::Rect;
use crate::process::{ordered_rows, sort_processes};
use crate::text::{ascii_lower_all, ascii_lower_chars, chars_eq, chars_of, trim, trim_chars};
pub use crate::process::ProcessInfo;
use crate::theme::{
    colors_view, dark, name_view, resolve, spec_dark, spec_resolve, Theme,
};

verus! {

/// How many samples each usage history keeps.
pub const HISTORY_LEN: usize = 128;

/// The column by which the process table is ordered.
#[derive(Clone, Copy, PartialEq, Eq, Structural, Debug)]
pub enum SortKey {
    Cpu,
    Memory,
    Name,
    Pid,
}

/// The text shown in the table's title for a sort key.
pub open spec fn spec_label(k: SortKey) -> Seq<char> {
    match k {
        SortKey::Cpu => seq!['C', 'P', 'U'],
        SortKey::Memory => seq!['M', 'E', 'M'],
        SortKey::Name => seq!['N', 'A', 'M', 'E'],
        SortKey::Pid => seq!['P', 'I', 'D'],
    }
}

/// Whether a key orders by a measured quantity (these sort largest first).
pub open spec fn spec_is_numeric(k: SortKey) -> bool {
    k == SortKey::Cpu || k == SortKey::Memory
}

/// The sort key that a settings text names, ignoring surrounding white space
/// and ASCII letter case.
pub open spec fn spec_parse_sort_key(s: Seq<char>) -> Result<SortKey, ()> {
    let k = ascii_lower_all(trim(s));
    if k == seq!['c', 'p', 'u'] {
        Ok(SortKey::Cpu)
    } else if k == seq!['m', 'e', 'm', 'o', 'r', 'y'] || k == seq!['m', 'e', 'm'] {
        Ok(SortKey::Memory)
    } else if k == seq!['n', 'a', 'm', 'e'] {
        Ok(SortKey::Name)
    } else if k == seq!['p', 'i', 'd'] {
        Ok(SortKey::Pid)
    } else {
        Err(())
    }
}

/// The key that follows `k` when the user cycles the sort: CPU, memory,
/// name, PID, and round again.
pub open spec fn spec_next_sort(k: SortKey) -> SortKey {
    match k {
        SortKey::Cpu => SortKey::Memory,
        SortKey::Memory => SortKey::Name,
        SortKey::Name => SortKey::Pid,
        SortKey::Pid => SortKey::Cpu,
    }
}

impl SortKey {
    pub fn label(self) -> (r: &'static str)
        ensures
            r@ == spec_label(self),
    {
        match self {
            SortKey::Cpu => {
                proof {
                    reveal_strlit("CPU");
                }
                "CPU"
            },
            SortKey::Memory => {
                proof {
                    reveal_strlit("MEM");
                }
                "MEM"
            },
            SortKey::Name => {
                proof {
                    reveal_strlit("NAME");
                }
                "NAME"
            },
            SortKey::Pid => {
                proof {
                    reveal_strlit("PID");
                }
                "PID"
            },
        }
    }

    pub fn is_numeric(self) -> (r: bool)
        ensures
            r == spec_is_numeric(self),
    {
        match self {
            SortKey::Cpu | SortKey::Memory => true,
            _ => false,
        }
    }

    /// Reads a sort key from settings text: `cpu`, `memory` or `mem`, `name`, `pid`.
    pub fn parse(s: &str) -> (r: Result<SortKey, ()>)
        ensures
            r == spec_parse_sort_key(s@),
    {
        let k = ascii_lower_chars(&trim_chars(&chars_of(s)));
        assert(['c', 'p', 'u']@ =~= seq!['c', 'p', 'u']);
        assert(['m', 'e', 'm', 'o', 'r', 'y']@ =~= seq!['m', 'e', 'm', 'o', 'r', 'y']);
        assert(['m', 'e', 'm']@ =~= seq!['m', 'e', 'm']);
        assert(['n', 'a', 'm', 'e']@ =~= seq!['n', 'a', 'm', 'e']);
        assert(['p', 'i', 'd']@ =~= seq!['p', 'i', 'd']);
        if chars_eq(k.as_slice(), &['c', 'p', 'u']) {
            Ok(SortKey::Cpu)
        } else if chars_eq(k.as_slice(), &['m', 'e', 'm', 'o', 'r', 'y']) || chars_eq(
            k.as_slice(),
            &['m', 'e', 'm'],
        ) {
            Ok(SortKey::Memory)
        } else if chars_eq(k.as_slice(), &['n', 'a', 'm', 'e']) {
            Ok(SortKey::Name)
        } else if chars_eq(k.as_slice(), &['p', 'i', 'd']) {
            Ok(SortKey::Pid)
        } else {
            Err(())
        }
    }
}

impl std::str::FromStr for SortKey {
    type Err = ();

    fn from_str(s: &str) -> (r: Result<Self, Self::Err>)
        ensures
            r == spec_parse_sort_key(s@),
    {
        SortKey::parse(s)
    }
}


/// One mounted disk as shown in the disks panel.
pub struct DiskInfo {
    pub name: String,
    pub mount: String,
    pub kind: String,
    pub fs: String,
    pub total: u64,
    pub used: u64,
}

impl DiskInfo {
    /// A disk's row from its size and free space: the used space is the
    /// difference, or zero when more is reported free than the disk holds.
    pub fn from_space(
        name: String,
        mount: String,
        kind: String,
        fs: String,
        total: u64,
        available: u64,
    ) -> (d: DiskInfo)
        ensures
            d.name == name,
            d.mount == mount,
            d.kind == kind,
            d.fs == fs,
            d.total == total,
            d.used == (if available > total { 0 } else { total - available }),
    {
        DiskInfo { name, mount, kind, fs, total, used: total.saturating_sub(available) }
    }
}

/// What one refresh reads from the system.
pub struct Readings {
    /// Every process, in the order the system listed them.
    pub processes: Vec<ProcessInfo>,
    /// Overall CPU usage scaled to 0..=255.
    pub cpu_sample: u64,
    /// Used share of memory scaled to 0..=255.
    pub memory_sample: u64,
    /// Each core's usage in percent.
    pub core_samples: Vec<u64>,
    pub disks: Vec<DiskInfo>,
    pub net_down_speed: u64,
    pub net_up_speed: u64,
    pub net_down_total: u64,
    pub net_up_total: u64,
}

/// The sum of a list of counters.
pub open spec fn counters_sum(v: Seq<u64>) -> nat
    decreases v.len(),
{
    if v.len() == 0 {
        0
    } else {
        counters_sum(v.drop_last()) + v.last() as nat
    }
}

proof fn lemma_counters_sum_prefix(v: Seq<u64>, i: int)
    requires
        0 <= i <= v.len(),
    ensures
        counters_sum(v.take(i)) <= counters_sum(v),
    decreases v.len() - i,
{
    if i < v.len() {
        lemma_counters_sum_prefix(v, i + 1);
        assert(v.take(i + 1).drop_last() =~= v.take(i));
    } else {
        assert(v.take(i) =~= v);
    }
}

/// Adds up per-interface network counters; `None` when the total does not
/// fit in a `u64`.
pub fn sum_counters(values: &Vec<u64>) -> (r: Option<u64>)
    ensures
        r == (if counters_sum(values@) <= u64::MAX {
            Some(counters_sum(values@) as u64)
        } else {
            None
        }),
{
    let mut total: u64 = 0;
    let mut i: usize = 0;
    assert(values@.take(0) =~= Seq::<u64>::empty());
    while i < values.len()
        invariant
            i <= values@.len(),
            total == counters_sum(values@.take(i as int)),
        decreases values@.len() - i,
    {
        assert(values@.take(i + 1).drop_last() =~= values@.take(i as int));
        match total.checked_add(values[i]) {
            Some(t) => total = t,
            None => {
                proof {
                    lemma_counters_sum_prefix(values@, i + 1);
                }
                return None;
            },
        }
        i += 1;
    }
    assert(values@.take(values@.len() as int) =~= values@);
    Some(total)
}

/// What the main loop does when it wakes: keep waiting, start a new period
/// without reading (while paused), or read the system and start a new period.
#[derive(Clone, Copy, PartialEq, Eq, Structural, Debug)]
pub enum Tick {
    Wait,
    Restart,
    Refresh,
}

/// A period has passed once `elapsed_ms` reaches the refresh period; a paused
/// monitor then starts the next period without reading the system.
pub open spec fn spec_tick(a: AppView, elapsed_ms: u64) -> Tick {
    if elapsed_ms < a.interval_ms {
        Tick::Wait
    } else if a.paused {
        Tick::Restart
    } else {
        Tick::Refresh
    }
}

/// The monitor's state between frames.
pub struct App {
    pub theme: Theme,
    pub cpu_history: VecDeque<u64>,
    pub memory_history: VecDeque<u64>,
    pub core_history: Vec<VecDeque<u64>>,
    pub disk_info: Vec<DiskInfo>,
    /// Every process of the last refresh, unordered.
    pub all_processes: Vec<ProcessInfo>,
    /// The rows shown: `all_processes` ordered, at most `max_processes` of them.
    pub processes: Vec<ProcessInfo>,
    pub max_processes: usize,
    pub process_count: usize,
    /// The highlighted row of the process table.
    pub selected: Option<usize>,
    /// Where the process table was last drawn.
    pub table_area: Option<Rect>,
    /// The row shown at the top of the process table when it was last drawn
    /// (the table scrolls to keep the highlight in view).
    pub table_offset: usize,
    pub sort: SortKey,
    pub sort_desc: bool,
    pub should_quit: bool,
    pub paused: bool,
    pub interval_ms: u64,
    /// A kill waiting for confirmation: the process's PID and name.
    pub confirm: Option<(u32, String)>,
    pub net_down_speed: u64,
    pub net_up_speed: u64,
    pub net_down_total: u64,
    pub net_up_total: u64,
}

/// The monitor's state as values.
pub struct AppView {
    pub theme: Theme,
    pub cpu_history: Seq<u64>,
    pub memory_history: Seq<u64>,
    pub core_history: Seq<Seq<u64>>,
    pub disk_info: Seq<DiskInfo>,
    pub all_processes: Seq<ProcessInfo>,
    pub processes: Seq<ProcessInfo>,
    pub max_processes: usize,
    pub process_count: usize,
    pub selected: Option<usize>,
    pub table_area: Option<Rect>,
    pub table_offset: usize,
    pub sort: SortKey,
    pub sort_desc: bool,
    pub should_quit: bool,
    pub paused: bool,
    pub interval_ms: u64,
    pub confirm: Option<(u32, Seq<char>)>,
    pub net_down_speed: u64,
    pub net_up_speed: u64,
    pub net_down_total: u64,
    pub net_up_total: u64,
}

pub open spec fn histories_view(h: Seq<VecDeque<u64>>) -> Seq<Seq<u64>> {
    h.map_values(|v: VecDeque<u64>| v@)
}

pub open spec fn confirm_view(c: Option<(u32, String)>) -> Option<(u32, Seq<char>)> {
    match c {
        Some((pid, name)) => Some((pid, name@)),
        None => None,
    }
}

impl View for App {
    type V = AppView;

    open spec fn view(&self) -> AppView {
        AppView {
            theme: self.theme,
            cpu_history: self.cpu_history@,
            memory_history: self.memory_history@,
            core_history: histories_view(self.core_history@),
            disk_info: self.disk_info@,
            all_processes: self.all_processes@,
            processes: self.processes@,
            max_processes: self.max_processes,
            process_count: self.process_count,
            selected: self.selected,
            table_area: self.table_area,
            table_offset: self.table_offset,
            sort: self.sort,
            sort_desc: self.sort_desc,
            should_quit: self.should_quit,
            paused: self.paused,
            interval_ms: self.interval_ms,
            confirm: confirm_view(self.confirm),
            net_down_speed: self.net_down_speed,
            net_up_speed: self.net_up_speed,
            net_down_total: self.net_down_total,
            net_up_total: self.net_up_total,
        }
    }
}

/// `v` held within `lo..=hi`.
pub open spec fn clamp(v: int, lo: int, hi: int) -> int {
    if v < lo {
        lo
    } else if v > hi {
        hi
    } else {
        v
    }
}

/// The refresh period, held within 200 ms to 5 s.
pub open spec fn clamp_interval(ms: int) -> u64 {
    clamp(ms, 200, 5000) as u64
}

/// The rows the table shows: all rows ordered, cut to `max`.
pub open spec fn shown_rows(a: AppView) -> Seq<ProcessInfo> {
    let o = ordered_rows(a.sort, a.sort_desc, a.all_processes);
    if a.max_processes < o.len() {
        o.take(a.max_processes as int)
    } else {
        o
    }
}

/// The table rebuilt from the last refresh's processes; the highlighted row
/// stays where it was, moved up to the last row if the table got shorter.
pub open spec fn spec_update_processes(a: AppView) -> AppView {
    let rows = shown_rows(a);
    AppView {
        processes: rows,
        selected: if rows.len() > 0 {
            Some(clamp(a.selected.unwrap_or(0) as int, 0, rows.len() - 1) as usize)
        } else {
            None
        },
        ..a
    }
}

/// A usage history after one more sample: the oldest sample drops out once
/// there are more than `HISTORY_LEN`.
pub open spec fn bounded_push(h: Seq<u64>, x: u64) -> Seq<u64> {
    if h.push(x).len() > HISTORY_LEN {
        h.push(x).drop_first()
    } else {
        h.push(x)
    }
}

/// The per-core histories after a refresh: started afresh when the number of
/// cores changed, then one sample pushed onto each.
pub open spec fn next_core_history(h: Seq<Seq<u64>>, samples: Seq<u64>) -> Seq<Seq<u64>> {
    let base = if h.len() != samples.len() {
        Seq::new(samples.len(), |i: int| Seq::<u64>::empty())
    } else {
        h
    };
    Seq::new(samples.len(), |i: int| bounded_push(base[i], samples[i]))
}

/// The state after a refresh that read `r`.
pub open spec fn spec_refresh(a: AppView, r: Readings) -> AppView {
    spec_update_processes(
        AppView {
            cpu_history: bounded_push(a.cpu_history, r.cpu_sample),
            memory_history: bounded_push(a.memory_history, r.memory_sample),
            core_history: next_core_history(a.core_history, r.core_samples@),
            disk_info: r.disks@,
            all_processes: r.processes@,
            process_count: r.processes@.len() as usize,
            net_down_speed: r.net_down_speed,
            net_up_speed: r.net_up_speed,
            net_down_total: r.net_down_total,
            net_up_total: r.net_up_total,
            ..a
        },
    )
}

/// `i as isize`: indices past `isize::MAX` wrap round to negative values.
pub open spec fn as_isize(i: usize) -> int {
    if i <= isize::MAX {
        i as int
    } else {
        i - (usize::MAX + 1)
    }
}

/// The highlighted row as the move counts from it (none counts as the first).
pub open spec fn move_origin(a: AppView) -> int {
    as_isize(a.selected.unwrap_or(0))
}

/// Whether moving the highlight by `delta` rows stays within `isize` (a
/// table cannot hold more than `isize::MAX` rows).
pub open spec fn can_move(a: AppView, delta: int) -> bool {
    a.processes.len() > 0 ==> {
        &&& a.processes.len() <= isize::MAX
        &&& isize::MIN <= move_origin(a) + delta <= isize::MAX
    }
}

/// The highlight moved by `delta` rows, held within the table.
pub open spec fn spec_move_selection(a: AppView, delta: int) -> AppView {
    if a.processes.len() == 0 {
        a
    } else {
        AppView {
            selected: Some(clamp(move_origin(a) + delta, 0, a.processes.len() - 1) as usize),
            ..a
        }
    }
}

/// `i as isize`, wrapping as the cast does.
fn wrap_to_isize(i: usize) -> (r: isize)
    ensures
        r == as_isize(i),
{
    if i <= isize::MAX as usize {
        i as isize
    } else {
        ((i - isize::MAX as usize - 1) as isize) + isize::MIN
    }
}

pub open spec fn spec_jump_to_first(a: AppView) -> AppView {
    if a.processes.len() == 0 {
        a
    } else {
        AppView { selected: Some(0), ..a }
    }
}

pub open spec fn spec_jump_to_last(a: AppView) -> AppView {
    if a.processes.len() == 0 {
        a
    } else {
        AppView { selected: Some((a.processes.len() - 1) as usize), ..a }
    }
}

/// Asking to kill the highlighted process: it waits for confirmation.
pub open spec fn spec_request_kill(a: AppView) -> AppView {
    match a.selected {
        Some(i) => if i < a.processes.len() {
            AppView { confirm: Some((a.processes[i as int].pid, a.processes[i as int].name@)), ..a }
        } else {
            a
        },
        None => a,
    }
}

pub open spec fn spec_cancel_kill(a: AppView) -> AppView {
    AppView { confirm: None, ..a }
}

/// The PID that a confirmation kills.
pub open spec fn confirmed_pid(a: AppView) -> Option<u32> {
    match a.confirm {
        Some((pid, _)) => Some(pid),
        None => None,
    }
}

pub open spec fn spec_cycle_sort(a: AppView) -> AppView {
    let k = spec_next_sort(a.sort);
    spec_update_processes(AppView { sort: k, sort_desc: spec_is_numeric(k), ..a })
}

pub open spec fn spec_speed_up(a: AppView) -> AppView {
    AppView { interval_ms: clamp_interval((a.interval_ms / 2) as int), ..a }
}

pub open spec fn spec_speed_down(a: AppView) -> AppView {
    AppView { interval_ms: clamp_interval(a.interval_ms * 2), ..a }
}

/// The sort key that settings ask for, CPU when none is given or it is unknown.
pub open spec fn configured_sort(cfg: Config) -> SortKey {
    match cfg.file {
        Some(f) => match f.monitor {
            Some(m) => match m.sort {
                Some(s) => match spec_parse_sort_key(s@) {
                    Ok(k) => k,
                    Err(_) => SortKey::Cpu,
                },
                None => SortKey::Cpu,
            },
            None => SortKey::Cpu,
        },
        None => SortKey::Cpu,
    }
}

/// The refresh period that settings ask for (1 s when none is given).
pub open spec fn configured_refresh_ms(cfg: Config) -> u64 {
    match cfg.file {
        Some(f) => match f.monitor {
            Some(m) => match m.refresh_ms {
                Some(ms) => ms,
                None => 1000,
            },
            None => 1000,
        },
        None => 1000,
    }
}

/// The table length that settings ask for (300 when none is given).
pub open spec fn configured_max_processes(cfg: Config) -> usize {
    match cfg.file {
        Some(f) => match f.monitor {
            Some(m) => match m.max_processes {
                Some(n) => n,
                None => 300,
            },
            None => 300,
        },
        None => 300,
    }
}

/// The theme that settings select; dark when there is no `[theme]` section.
pub open spec fn configured_theme(cfg: Config) -> Theme {
    match cfg.file {
        Some(f) => match f.theme {
            Some(t) => spec_resolve(
                match t.name {
                    Some(n) => Some(n@),
                    None => None,
                },
                t.colors,
            ),
            None => spec_dark(),
        },
        None => spec_dark(),
    }
}

/// The state that settings start the monitor in, before the first refresh.
pub open spec fn spec_with_config(cfg: Config) -> AppView {
    let k = configured_sort(cfg);
    AppView {
        theme: configured_theme(cfg),
        cpu_history: Seq::empty(),
        memory_history: Seq::empty(),
        core_history: Seq::empty(),
        disk_info: Seq::empty(),
        all_processes: Seq::empty(),
        processes: Seq::empty(),
        max_processes: if configured_max_processes(cfg) < 1 {
            1
        } else {
            configured_max_processes(cfg)
        },
        process_count: 0,
        selected: None,
        table_area: None,
        table_offset: 0,
        sort: k,
        sort_desc: spec_is_numeric(k),
        should_quit: false,
        paused: false,
        interval_ms: clamp_interval(configured_refresh_ms(cfg) as int),
        confirm: None,
        net_down_speed: 0,
        net_up_speed: 0,
        net_down_total: 0,
        net_up_total: 0,
    }
}

fn push_sample(h: &mut VecDeque<u64>, x: u64)
    ensures
        final(h)@ == bounded_push(old(h)@, x),
{
    h.push_back(x);
    if h.len() > HISTORY_LEN {
        h.pop_front();
        assert(final(h)@ =~= old(h)@.push(x).drop_first());
    }
}

fn settings_sort(cfg: &Config) -> (k: SortKey)
    ensures
        k == configured_sort(*cfg),
{
    if let Some(file) = &cfg.file {
        if let Some(mon) = &file.monitor {
            if let Some(s) = &mon.sort {
                if let Ok(k) = SortKey::parse(s.as_str()) {
                    return k;
                }
            }
        }
    }
    SortKey::Cpu
}

fn settings_refresh_ms(cfg: &Config) -> (ms: u64)
    ensures
        ms == configured_refresh_ms(*cfg),
{
    if let Some(file) = &cfg.file {
        if let Some(mon) = &file.monitor {
            if let Some(ms) = mon.refresh_ms {
                return ms;
            }
        }
    }
    1000
}

fn settings_max_processes(cfg: &Config) -> (n: usize)
    ensures
        n == configured_max_processes(*cfg),
{
    if let Some(file) = &cfg.file {
        if let Some(mon) = &file.monitor {
            if let Some(n) = mon.max_processes {
                return n;
            }
        }
    }
    300
}

fn settings_theme(cfg: &Config) -> (t: Theme)
    ensures
        t == configured_theme(*cfg),
{
    if let Some(file) = &cfg.file {
        if let Some(t) = &file.theme {
            let name = match &t.name {
                Some(n) => Some(n.as_str()),
                None => None,
            };
            let colors = match &t.colors {
                Some(c) => Some(c),
                None => None,
            };
            assert(name_view(name) == match t.name {
                Some(n) => Some(n@),
                None => None::<Seq<char>>,
            });
            assert(colors_view(colors) == t.colors);
            return resolve(name, colors);
        }
    }
    dark()
}

fn clamp_ms(ms: u64) -> (r: u64)
    ensures
        r == clamp_interval(ms as int),
{
    if ms < 200 {
        200
    } else if ms > 5000 {
        5000
    } else {
        ms
    }
}

impl App {
    /// The monitor as built-in defaults start it, before any refresh: every
    /// history and table is empty until the caller hands in the first readings.
    pub fn new() -> (a: App)
        ensures
            a@ == spec_with_config(Config { file: None, path: None }),
    {
        App::with_config(Config { file: None, path: None })
    }

    /// The monitor as `cfg` starts it, before any refresh: every history and
    /// table is empty until the caller hands in the first readings.
    pub fn with_config(cfg: Config) -> (a: App)
        ensures
            a@ == spec_with_config(cfg),
    {
        let sort = settings_sort(&cfg);
        let refresh_ms = settings_refresh_ms(&cfg);
        let max_procs = settings_max_processes(&cfg);
        let theme = settings_theme(&cfg);
        let a = App {
            theme,
            cpu_history: VecDeque::new(),
            memory_history: VecDeque::new(),
            core_history: Vec::new(),
            disk_info: Vec::new(),
            all_processes: Vec::new(),
            processes: Vec::new(),
            max_processes: if max_procs < 1 {
                1
            } else {
                max_procs
            },
            process_count: 0,
            selected: None,
            table_area: None,
            table_offset: 0,
            sort,
            sort_desc: sort.is_numeric(),
            should_quit: false,
            paused: false,
            interval_ms: clamp_ms(refresh_ms),
            confirm: None,
            net_down_speed: 0,
            net_up_speed: 0,
            net_down_total: 0,
            net_up_total: 0,
        };
        assert(a@.core_history =~= Seq::<Seq<u64>>::empty());
        a
    }

    /// Takes in what one refresh read: histories, disks, network figures and
    /// the process table.
    pub fn refresh(&mut self, r: Readings)
        ensures
            final(self)@ == spec_refresh(old(self)@, r),
    {
        let ghost r0 = r;
        let Readings {
            processes,
            cpu_sample,
            memory_sample,
            core_samples,
            disks,
            net_down_speed,
            net_up_speed,
            net_down_total,
            net_up_total,
        } = r;
        self.process_count = processes.len();
        push_sample(&mut self.cpu_history, cpu_sample);
        push_sample(&mut self.memory_history, memory_sample);
        self.update_core_history(&core_samples);
        self.disk_info = disks;
        self.all_processes = processes;
        self.net_down_speed = net_down_speed;
        self.net_up_speed = net_up_speed;
        self.net_down_total = net_down_total;
        self.net_up_total = net_up_total;
        self.update_processes();
    }

    fn update_core_history(&mut self, samples: &Vec<u64>)
        ensures
            final(self)@ == (AppView {
                core_history: next_core_history(old(self)@.core_history, samples@),
                ..old(self)@
            }),
    {
        let n = samples.len();
        let mut base: Vec<VecDeque<u64>> = Vec::new();
        std::mem::swap(&mut base, &mut self.core_history);
        if base.len() != n {
            base = Vec::new();
            let mut i: usize = 0;
            while i < n
                invariant
                    i <= n,
                    base@.len() == i,
                    forall|j: int| 0 <= j < i ==> (#[trigger] base@[j])@ == Seq::<u64>::empty(),
                decreases n - i,
            {
                base.push(VecDeque::new());
                i += 1;
            }
        }
        let ghost start = histories_view(base@);
        assert(start == (if histories_view(old(self).core_history@).len() != samples@.len() {
            Seq::new(samples@.len(), |i: int| Seq::<u64>::empty())
        } else {
            histories_view(old(self).core_history@)
        }));
        let mut out: Vec<VecDeque<u64>> = Vec::new();
        let mut i: usize = 0;
        while i < n
            invariant
                n == samples@.len(),
                i <= n,
                base@.len() == n - i,
                histories_view(base@) == start.subrange(i as int, n as int),
                start.len() == n,
                out@.len() == i,
                forall|j: int| 0 <= j < i ==> (#[trigger] out@[j])@ == bounded_push(start[j], samples@[j]),
            decreases n - i,
        {
            let ghost b0 = base@;
            assert(histories_view(b0)[0] == b0[0]@);
            assert(start.subrange(i as int, n as int)[0] == start[i as int]);
            let mut h = base.remove(0);
            assert(h@ == start[i as int]);
            push_sample(&mut h, samples[i]);
            out.push(h);
            assert forall|j: int| 0 <= j < base@.len() implies #[trigger] histories_view(base@)[j]
                == start.subrange(i + 1, n as int)[j] by {
                assert(base@[j] == b0[j + 1]);
                assert(histories_view(b0)[j + 1] == b0[j + 1]@);
                assert(start.subrange(i as int, n as int)[j + 1] == start[i + 1 + j]);
            }
            assert(histories_view(base@) =~= start.subrange(i + 1, n as int));
            i += 1;
        }
        self.core_history = out;
        assert(histories_view(self.core_history@) =~= next_core_history(
            histories_view(old(self).core_history@),
            samples@,
        ));
    }

    fn update_processes(&mut self)
        ensures
            final(self)@ == spec_update_processes(old(self)@),
    {
        let ghost a = self@;
        let mut list = self.all_processes.clone();
        assert(list@ =~= self.all_processes@);
        sort_processes(&mut list, self.sort, self.sort_desc);
        list.truncate(self.max_processes);
        assert(list@ =~= shown_rows(a));
        self.processes = list;
        let selected = match self.selected {
            Some(i) => i,
            None => 0,
        };
        if self.processes.len() > 0 {
            let last = self.processes.len() - 1;
            self.selected = Some(if selected < last { selected } else { last });
        } else {
            self.selected = None;
        }
    }

    /// Moves the highlight by `delta` rows, stopping at the first and last row.
    pub fn move_selection(&mut self, delta: isize)
        requires
            can_move(old(self)@, delta as int),
        ensures
            final(self)@ == spec_move_selection(old(self)@, delta as int),
    {
        if self.processes.len() == 0 {
            return;
        }
        let n = self.processes.len() as isize;
        let cur = wrap_to_isize(
            match self.selected {
                Some(i) => i,
                None => 0,
            },
        );
        let sum = cur + delta;
        let next = if sum < 0 {
            0
        } else if sum > n - 1 {
            n - 1
        } else {
            sum
        };
        self.selected = Some(next as usize);
    }

    pub fn jump_to_first(&mut self)
        ensures
            final(self)@ == spec_jump_to_first(old(self)@),
    {
        if self.processes.len() > 0 {
            self.selected = Some(0);
        }
    }

    pub fn jump_to_last(&mut self)
        ensures
            final(self)@ == spec_jump_to_last(old(self)@),
    {
        if self.processes.len() > 0 {
            self.selected = Some(self.processes.len() - 1);
        }
    }

    /// Asks to kill the highlighted process; nothing happens until it is confirmed.
    pub fn request_kill(&mut self)
        ensures
            final(self)@ == spec_request_kill(old(self)@),
    {
        if let Some(idx) = self.selected {
            if idx < self.processes.len() {
                let pid = self.processes[idx].pid;
                let name = self.processes[idx].name.clone();
                self.confirm = Some((pid, name));
            }
        }
    }

    /// Confirms the waiting kill: hands back the PID to terminate (the caller
    /// kills it and refreshes), or `None` when no kill was waiting.
    pub fn confirm_kill(&mut self) -> (pid: Option<u32>)
        ensures
            final(self)@ == spec_cancel_kill(old(self)@),
            pid == confirmed_pid(old(self)@),
    {
        let taken = self.confirm.take();
        match taken {
            Some((pid, _)) => Some(pid),
            None => None,
        }
    }

    pub fn cancel_kill(&mut self)
        ensures
            final(self)@ == spec_cancel_kill(old(self)@),
    {
        self.confirm = None;
    }

    /// Orders the table by the next key: CPU, memory, name, PID; CPU and
    /// memory largest first, name and PID ascending.
    pub fn cycle_sort(&mut self)
        ensures
            final(self)@ == spec_cycle_sort(old(self)@),
    {
        self.sort = match self.sort {
            SortKey::Cpu => SortKey::Memory,
            SortKey::Memory => SortKey::Name,
            SortKey::Name => SortKey::Pid,
            SortKey::Pid => SortKey::Cpu,
        };
        self.sort_desc = self.sort.is_numeric();
        self.update_processes();
    }

    /// Halves the refresh period, no lower than 200 ms.
    pub fn speed_up(&mut self)
        ensures
            final(self)@ == spec_speed_up(old(self)@),
    {
        self.interval_ms = clamp_ms(self.interval_ms / 2);
    }

    /// Doubles the refresh period, no higher than 5 s.
    pub fn speed_down(&mut self)
        requires
            old(self).interval_ms <= u64::MAX / 2,
        ensures
            final(self)@ == spec_speed_down(old(self)@),
    {
        self.interval_ms = clamp_ms(self.interval_ms * 2);
    }

    /// What to do when `elapsed_ms` have passed since the period began.
    pub fn tick(&self, elapsed_ms: u64) -> (r: Tick)
        ensures
            r == spec_tick(self@, elapsed_ms),
    {
        if elapsed_ms < self.interval_ms {
            Tick::Wait
        } else if self.paused {
            Tick::Restart
        } else {
            Tick::Refresh
        }
    }

    /// How long to wait for input before the period ends.
    pub fn poll_timeout_ms(&self, elapsed_ms: u64) -> (r: u64)
        ensures
            r == (if elapsed_ms < self.interval_ms { self.interval_ms - elapsed_ms } else { 0 }),
    {
        self.interval_ms.saturating_sub(elapsed_ms)
    }
}

impl Default for App {
    fn default() -> (a: App)
        ensures
            a@ == spec_with_config(Config { file: None, path: None }),
    {
        App::new()
    }
}

} // verus!
