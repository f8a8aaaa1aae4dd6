use vstd::prelude::*;

use crate::app::{
    spec_label, spec_parse_sort_key, SortKey, spec_tick, Tick, spec_cycle_sort, spec_is_numeric, spec_refresh, spec_speed_down,
    spec_speed_up, spec_update_processes, spec_with_config, AppView, Readings, HISTORY_LEN,
};
use crate::config::{Config, ThemeColors};
use crate::format::{as_f64, decimal, digit, f64_shift, pow2, round_half_even, spec_human_bytes};
use crate::handlers::{
    spec_handle_key, spec_handle_mouse, Action, KeyCode, KeyInput, MouseInput, MouseKind,
};
use crate::layout::{sat_add_u16, spec_contains, Position};
use crate::process::{is_stable_sort, key_le, lemma_stable_sorted_sorts, stable_sorted, ProcessInfo};
use crate::text::{ascii_lower, ascii_lower_all, is_white_space, trim, trim_end, trim_start};
use crate::theme::{
    spec_dark, spec_dracula, spec_from_name, spec_gruvbox, spec_light, spec_nord, spec_parse_hex,
    spec_resolve, spec_solarized, Rgb, Theme,
};

verus! {

/// The highlight is on a row of the table (or on the first row of an empty one).
pub open spec fn highlight_on_table(a: AppView) -> bool {
    a.selected matches Some(i) ==> (i < a.processes.len() || i == 0)
}

/// Every usage history holds at most `HISTORY_LEN` samples.
pub open spec fn histories_bounded(a: AppView) -> bool {
    &&& a.cpu_history.len() <= HISTORY_LEN
    &&& a.memory_history.len() <= HISTORY_LEN
    &&& forall|i: int| 0 <= i < a.core_history.len() ==> (#[trigger] a.core_history[i]).len() <= HISTORY_LEN
}

pub open spec fn key(c: char) -> KeyInput {
    KeyInput { code: KeyCode::Char(c), ctrl: false }
}

/// Cycling the sort four times comes back to the same key and direction, and
/// after each step numeric keys sort largest first and the others ascending.
pub proof fn law_sort_cycle_has_four_steps(a: AppView)
    ensures
        spec_cycle_sort(a).sort_desc == spec_is_numeric(spec_cycle_sort(a).sort),
        spec_cycle_sort(a).sort != a.sort,
        spec_cycle_sort(spec_cycle_sort(spec_cycle_sort(spec_cycle_sort(a)))).sort == a.sort,
        spec_cycle_sort(spec_cycle_sort(spec_cycle_sort(spec_cycle_sort(a)))).sort_desc
            == spec_is_numeric(a.sort),
{
}

/// The refresh period stays between 200 ms and 5 s; speeding up never
/// lengthens it and slowing down never shortens it.
pub proof fn law_refresh_period_bounds(a: AppView)
    ensures
        200 <= spec_speed_up(a).interval_ms <= 5000,
        200 <= spec_speed_down(a).interval_ms <= 5000,
        200 <= a.interval_ms <= 5000 ==> spec_speed_up(a).interval_ms <= a.interval_ms,
        200 <= a.interval_ms <= 5000 ==> spec_speed_down(a).interval_ms >= a.interval_ms,
{
}

/// Settings always start the monitor with a refresh period between 200 ms and
/// 5 s, a table of at least one row, and the direction that its key calls for.
pub proof fn law_settings_start_in_range(cfg: Config)
    ensures
        200 <= spec_with_config(cfg).interval_ms <= 5000,
        spec_with_config(cfg).max_processes >= 1,
        spec_with_config(cfg).sort_desc == spec_is_numeric(spec_with_config(cfg).sort),
        highlight_on_table(spec_with_config(cfg)),
        histories_bounded(spec_with_config(cfg)),
{
}

/// Pausing twice leaves the monitor as it was.
pub proof fn law_pause_toggles(a: AppView)
    requires
        a.confirm is None,
    ensures
        spec_handle_key(spec_handle_key(a, key('p')).0, key('p')).0 == a,
        spec_handle_key(a, key('p')).0.paused == !a.paused,
{
}

/// A process is only ever killed by confirming a request for it: the kill
/// names the PID that waits for confirmation, and it follows `y`, `Y` or Enter.
pub proof fn law_kill_needs_confirmation(a: AppView, k: KeyInput)
    ensures
        spec_handle_key(a, k).1 matches Action::Kill(pid) ==> {
            &&& a.confirm matches Some((p, _)) && p == pid
            &&& (k.code == KeyCode::Char('y') || k.code == KeyCode::Char('Y') || k.code
                == KeyCode::Enter)
        },
{
}

/// Asking to kill the highlighted row and confirming kills that row's process
/// and clears the request; asking and cancelling changes nothing.
pub proof fn law_request_then_answer(a: AppView, i: usize)
    requires
        a.confirm is None,
        a.selected == Some(i),
        i < a.processes.len(),
    ensures
        spec_handle_key(a, key('d')).1 == Action::Nothing,
        spec_handle_key(spec_handle_key(a, key('d')).0, key('y')) == (a, Action::Kill(a.processes[i as int].pid)),
        spec_handle_key(spec_handle_key(a, key('d')).0, key('n')) == (a, Action::Nothing),
{
}

/// While a kill waits for confirmation, keys other than the answers and quit
/// change nothing and ask for nothing.
pub proof fn law_other_keys_wait(a: AppView, k: KeyInput)
    requires
        a.confirm is Some,
        !(k.code == KeyCode::Char('y') || k.code == KeyCode::Char('Y') || k.code == KeyCode::Enter
            || k.code == KeyCode::Char('n') || k.code == KeyCode::Char('N') || k.code
            == KeyCode::Esc || k.code == KeyCode::Char('q') || (k.code == KeyCode::Char('c')
            && k.ctrl)),
    ensures
        spec_handle_key(a, k) == (a, Action::Nothing),
{
}

proof fn lemma_update_keeps_highlight(a: AppView)
    ensures
        highlight_on_table(spec_update_processes(a)),
        spec_update_processes(a).selected is Some <==> spec_update_processes(a).processes.len() > 0,
{
}

/// Whatever key is pressed, the highlight stays on the table.
pub proof fn law_keys_keep_highlight(a: AppView, k: KeyInput)
    requires
        highlight_on_table(a),
    ensures
        highlight_on_table(spec_handle_key(a, k).0),
{
    lemma_update_keeps_highlight(a);
    lemma_update_keeps_highlight(
        AppView {
            sort: crate::app::spec_next_sort(a.sort),
            sort_desc: spec_is_numeric(crate::app::spec_next_sort(a.sort)),
            ..a
        },
    );
}

/// Whatever the mouse does, the highlight stays on the table.
pub proof fn law_mouse_keeps_highlight(a: AppView, m: MouseInput)
    requires
        highlight_on_table(a),
    ensures
        highlight_on_table(spec_handle_mouse(a, m)),
{
}

/// A refresh puts the highlight on the table (none when the table is empty),
/// keeps every history within `HISTORY_LEN` samples with the new sample last,
/// and shows at most `max_processes` rows.
pub proof fn law_refresh_keeps_bounds(a: AppView, r: Readings)
    requires
        histories_bounded(a),
    ensures
        highlight_on_table(spec_refresh(a, r)),
        histories_bounded(spec_refresh(a, r)),
        spec_refresh(a, r).cpu_history.last() == r.cpu_sample,
        spec_refresh(a, r).memory_history.last() == r.memory_sample,
        spec_refresh(a, r).processes.len() <= a.max_processes,
        spec_refresh(a, r).core_history.len() == r.core_samples@.len(),
{
    let b = spec_refresh(a, r);
    assert forall|i: int| 0 <= i < b.core_history.len() implies (#[trigger] b.core_history[i]).len()
        <= HISTORY_LEN by {
    }
}


/// Without overrides, a theme name selects that built-in theme, and a name
/// that is not one of them selects dark.
pub proof fn law_unknown_theme_is_dark(n: Seq<char>)
    ensures
        spec_resolve(Some(n), None) == match spec_from_name(n) {
            Some(t) => t,
            None => spec_dark(),
        },
        spec_resolve(None, None) == spec_dark(),
{
}

/// What `char::to_ascii_uppercase` gives.
pub open spec fn ascii_upper(c: char) -> char {
    if 'a' <= c <= 'z' {
        ((c as u32) - 32) as char
    } else {
        c
    }
}

pub open spec fn ascii_upper_all(s: Seq<char>) -> Seq<char> {
    s.map_values(|c: char| ascii_upper(c))
}

proof fn lemma_trim_start_upper(s: Seq<char>)
    ensures
        trim_start(ascii_upper_all(s)) == ascii_upper_all(trim_start(s)),
    decreases s.len(),
{
    let u = ascii_upper_all(s);
    if s.len() > 0 {
        assert(u[0] == ascii_upper(s[0]));
        assert(is_white_space(u[0]) == is_white_space(s[0]));
        if is_white_space(s[0]) {
            assert(u.drop_first() =~= ascii_upper_all(s.drop_first()));
            lemma_trim_start_upper(s.drop_first());
        }
    } else {
        assert(u =~= s);
    }
}

proof fn lemma_trim_end_upper(s: Seq<char>)
    ensures
        trim_end(ascii_upper_all(s)) == ascii_upper_all(trim_end(s)),
    decreases s.len(),
{
    let u = ascii_upper_all(s);
    if s.len() > 0 {
        assert(u.last() == ascii_upper(s.last()));
        assert(is_white_space(u.last()) == is_white_space(s.last()));
        if is_white_space(s.last()) {
            assert(u.drop_last() =~= ascii_upper_all(s.drop_last()));
            lemma_trim_end_upper(s.drop_last());
        }
    } else {
        assert(u =~= s);
    }
}

/// Theme names do not depend on ASCII letter case: writing a name in capitals
/// selects the same theme.
pub proof fn law_theme_names_ignore_case(s: Seq<char>)
    ensures
        spec_from_name(ascii_upper_all(s)) == spec_from_name(s),
{
    lemma_trim_start_upper(s);
    lemma_trim_end_upper(trim_start(s));
    let t = trim(s);
    assert(ascii_lower_all(ascii_upper_all(t)) =~= ascii_lower_all(t));
}

/// The lowercase hex digit for `d` (below sixteen).
pub open spec fn hex_char(d: nat) -> char {
    if d < 10 {
        (d + 48) as char
    } else {
        (d + 87) as char
    }
}

/// A colour written as `#rrggbb`.
pub open spec fn hex_text(c: Rgb) -> Seq<char> {
    seq![
        '#',
        hex_char((c.0 / 16) as nat),
        hex_char((c.0 % 16) as nat),
        hex_char((c.1 / 16) as nat),
        hex_char((c.1 % 16) as nat),
        hex_char((c.2 / 16) as nat),
        hex_char((c.2 % 16) as nat),
    ]
}

/// Every colour can be written as an override: reading `#rrggbb` gives the
/// colour back.
pub proof fn law_hex_round_trip(c: Rgb)
    ensures
        spec_parse_hex(hex_text(c)) == Some(c),
{
    let t = hex_text(c);
    assert(!is_white_space(t[0]));
    assert(trim_start(t) == t);
    assert(!is_white_space(t.last()));
    assert(trim_end(t) == t);
    assert(trim(t) == t);
}


/// Byte counts below 2^53 are shown from their exact value.
pub proof fn law_counts_below_2_pow_53_are_exact(b: nat)
    requires
        b < 0x20_0000_0000_0000,
    ensures
        as_f64(b) == b,
{
    assert(f64_shift(b) == 0);
    assert(pow2(0) == 1);
}

/// A count below 1024 bytes is shown whole, in bytes: `b.0 B`.
pub proof fn law_small_counts_in_bytes(b: nat)
    requires
        b < 1024,
    ensures
        spec_human_bytes(b) == decimal(b) + seq!['.', '0', ' ', 'B'],
{
    law_counts_below_2_pow_53_are_exact(b);
    assert(round_half_even(10 * b, 1) == 10 * b);
    assert((10 * b) / 10 == b);
    assert((10 * b) % 10 == 0);
    assert(digit(0) == '0');
}


/// A paused monitor never reads the system on its own; a running one reads it
/// once every refresh period.
pub proof fn law_pause_freezes(a: AppView, elapsed_ms: u64)
    ensures
        a.paused ==> spec_tick(a, elapsed_ms) != Tick::Refresh,
        !a.paused && elapsed_ms >= a.interval_ms ==> spec_tick(a, elapsed_ms) == Tick::Refresh,
        elapsed_ms < a.interval_ms ==> spec_tick(a, elapsed_ms) == Tick::Wait,
{
}

/// A left click on a process row selects the process shown on that row,
/// however far the table has scrolled.
pub proof fn law_click_selects_shown_row(a: AppView, m: MouseInput)
    requires
        a.confirm is None,
        m.kind == MouseKind::LeftDown,
        a.table_area matches Some(area) && spec_contains(area, Position { x: m.column, y: m.row })
            && m.row >= sat_add_u16(area.y, 2) && a.table_offset + (m.row - sat_add_u16(area.y, 2))
            < a.processes.len(),
    ensures
        spec_handle_mouse(a, m).selected == Some(
            (a.table_offset + (m.row - sat_add_u16(a.table_area->0.y, 2))) as usize,
        ),
{
}


/// Every sort key's label reads back as that key.
pub proof fn law_labels_parse_back(k: SortKey)
    ensures
        spec_parse_sort_key(spec_label(k)) == Ok::<SortKey, ()>(k),
{
    let l = spec_label(k);
    assert(!is_white_space(l[0]));
    assert(trim_start(l) == l);
    assert(!is_white_space(l.last()));
    assert(trim_end(l) == l);
    assert(trim(l) == l);
    match k {
        SortKey::Cpu => assert(ascii_lower_all(l) =~= seq!['c', 'p', 'u']),
        SortKey::Memory => assert(ascii_lower_all(l) =~= seq!['m', 'e', 'm']),
        SortKey::Name => assert(ascii_lower_all(l) =~= seq!['n', 'a', 'm', 'e']),
        SortKey::Pid => assert(ascii_lower_all(l) =~= seq!['p', 'i', 'd']),
    }
}

proof fn lemma_trim_start_clean(s: Seq<char>)
    ensures
        trim_start(s).len() > 0 ==> !is_white_space(trim_start(s)[0]),
    decreases s.len(),
{
    if s.len() > 0 && is_white_space(s[0]) {
        lemma_trim_start_clean(s.drop_first());
    }
}

proof fn lemma_trim_end_clean(t: Seq<char>)
    ensures
        trim_end(t).len() <= t.len(),
        forall|i: int| 0 <= i < trim_end(t).len() ==> #[trigger] trim_end(t)[i] == t[i],
        trim_end(t).len() > 0 ==> !is_white_space(trim_end(t).last()),
    decreases t.len(),
{
    if t.len() > 0 && is_white_space(t.last()) {
        lemma_trim_end_clean(t.drop_last());
    }
}

/// Lowercasing neither makes nor unmakes white space, and does nothing twice.
proof fn lemma_lower_char(c: char)
    ensures
        is_white_space(ascii_lower(c)) == is_white_space(c),
        ascii_lower(ascii_lower(c)) == ascii_lower(c),
{
}

/// Reading a sort key does not change when the text is first trimmed and
/// ASCII-lowercased.
pub proof fn law_parse_ignores_space_and_case(s: Seq<char>)
    ensures
        spec_parse_sort_key(ascii_lower_all(trim(s))) == spec_parse_sort_key(s),
{
    let t = trim(s);
    let u = ascii_lower_all(t);
    lemma_trim_start_clean(s);
    lemma_trim_end_clean(trim_start(s));
    if u.len() > 0 {
        assert(t[0] == trim_start(s)[0]);
        lemma_lower_char(t[0]);
        lemma_lower_char(t.last());
        assert(u[0] == ascii_lower(t[0]));
        assert(u.last() == ascii_lower(t.last()));
    }
    assert(trim_start(u) == u);
    assert(trim_end(u) == u);
    assert forall|i: int| 0 <= i < u.len() implies #[trigger] ascii_lower_all(u)[i] == u[i] by {
        lemma_lower_char(t[i]);
    }
    assert(ascii_lower_all(trim(u)) =~= u);
}

/// `rows` are the first `max` rows (all of them when there are fewer) of the
/// stable ascending sort of `all` by `sort`, turned around first when `desc`.
pub open spec fn leading_sorted_rows(
    sort: SortKey,
    desc: bool,
    max: usize,
    all: Seq<ProcessInfo>,
    rows: Seq<ProcessInfo>,
) -> bool {
    let m: int = if max < all.len() { max as int } else { all.len() as int };
    &&& rows.len() == m
    &&& forall|s: Seq<ProcessInfo>|
        #[trigger] is_stable_sort(sort, all, s) ==> rows == (if desc { s.reverse() } else { s }).take(m)
}

/// Each row's key is at most the next row's (at least, when `desc`).
pub open spec fn rows_in_order(sort: SortKey, desc: bool, rows: Seq<ProcessInfo>) -> bool {
    forall|i: int, j: int|
        0 <= i < j < rows.len() ==> if desc {
            key_le(sort, #[trigger] rows[j], #[trigger] rows[i])
        } else {
            key_le(sort, rows[i], rows[j])
        }
}

/// Rebuilding the table shows the first `max_processes` rows of the stable
/// ascending sort of every process by the current key, turned around exactly
/// when `sort_desc` holds; so the rows run from smallest to largest key, or
/// from largest to smallest when `sort_desc` holds.
pub proof fn law_table_is_leading_sorted_rows(a: AppView)
    ensures
        leading_sorted_rows(
            a.sort,
            a.sort_desc,
            a.max_processes,
            a.all_processes,
            spec_update_processes(a).processes,
        ),
        rows_in_order(a.sort, a.sort_desc, spec_update_processes(a).processes),
{
    let all = a.all_processes;
    let s = stable_sorted(a.sort, all);
    lemma_stable_sorted_sorts(a.sort, all);
    let o = if a.sort_desc { s.reverse() } else { s };
    let m: int = if a.max_processes < all.len() { a.max_processes as int } else { all.len() as int };
    let rows = spec_update_processes(a).processes;
    assert(o.take(o.len() as int) =~= o);
    assert(rows == o.take(m));
    assert forall|t: Seq<ProcessInfo>| #[trigger] is_stable_sort(a.sort, all, t) implies rows == (if a.sort_desc {
        t.reverse()
    } else {
        t
    }).take(m) by {
        crate::process::lemma_stable_sort_unique(a.sort, all, s, t);
    }
    assert forall|i: int, j: int| 0 <= i < j < rows.len() implies if a.sort_desc {
        key_le(a.sort, #[trigger] rows[j], #[trigger] rows[i])
    } else {
        key_le(a.sort, rows[i], rows[j])
    } by {
        if a.sort_desc {
            let n = s.len();
            assert(rows[i] == s[n - 1 - i]);
            assert(rows[j] == s[n - 1 - j]);
            assert(key_le(a.sort, s[n - 1 - j], s[n - 1 - i]));
        } else {
            assert(rows[i] == s[i] && rows[j] == s[j]);
        }
    }
}

/// A refresh shows the first `max_processes` of the processes just read,
/// stably sorted by the current key and turned around exactly when
/// `sort_desc` holds, and counts every process read.
pub proof fn law_refresh_orders_table(a: AppView, r: Readings)
    ensures
        leading_sorted_rows(a.sort, a.sort_desc, a.max_processes, r.processes@, spec_refresh(a, r).processes),
        rows_in_order(a.sort, a.sort_desc, spec_refresh(a, r).processes),
        spec_refresh(a, r).sort == a.sort,
        spec_refresh(a, r).sort_desc == a.sort_desc,
{
    law_table_is_leading_sorted_rows(
        AppView {
            cpu_history: crate::app::bounded_push(a.cpu_history, r.cpu_sample),
            memory_history: crate::app::bounded_push(a.memory_history, r.memory_sample),
            core_history: crate::app::next_core_history(a.core_history, r.core_samples@),
            disk_info: r.disks@,
            all_processes: r.processes@,
            process_count: r.processes@.len() as usize,
            net_down_speed: r.net_down_speed,
            net_up_speed: r.net_up_speed,
            net_down_total: r.net_down_total,
            net_up_total: r.net_up_total,
            ..a
        },
    );
}

/// Changing the sort key orders the table by the next key: CPU and memory
/// largest first (each row's value at least the next row's), name and PID
/// ascending; the rows are the first `max_processes` of that order.
pub proof fn law_sort_change_orders_table(a: AppView)
    ensures
        ({
            let b = spec_cycle_sort(a);
            &&& b.sort_desc == (b.sort == SortKey::Cpu || b.sort == SortKey::Memory)
            &&& leading_sorted_rows(b.sort, b.sort_desc, a.max_processes, a.all_processes, b.processes)
            &&& rows_in_order(b.sort, b.sort_desc, b.processes)
            &&& b.sort == SortKey::Cpu ==> forall|i: int, j: int|
                0 <= i < j < b.processes.len() ==> #[trigger] b.processes[i].cpu >= #[trigger] b.processes[j].cpu
            &&& b.sort == SortKey::Memory ==> forall|i: int, j: int|
                0 <= i < j < b.processes.len() ==> #[trigger] b.processes[i].mem >= #[trigger] b.processes[j].mem
            &&& b.sort == SortKey::Pid ==> forall|i: int, j: int|
                0 <= i < j < b.processes.len() ==> #[trigger] b.processes[i].pid <= #[trigger] b.processes[j].pid
        }),
{
    let k = crate::app::spec_next_sort(a.sort);
    let c = AppView { sort: k, sort_desc: spec_is_numeric(k), ..a };
    law_table_is_leading_sorted_rows(c);
    let b = spec_cycle_sort(a);
    assert(b == spec_update_processes(c));
    assert forall|i: int, j: int| 0 <= i < j < b.processes.len() implies if b.sort_desc {
        key_le(b.sort, #[trigger] b.processes[j], #[trigger] b.processes[i])
    } else {
        key_le(b.sort, b.processes[i], b.processes[j])
    } by {
    }
}

/// A refresh replaces the disks, the process list, the process count and the
/// network figures with what was just read, whatever the state held before;
/// the theme, the sort, the table length, the refresh period, pausing,
/// quitting and a waiting kill stay as they were.
pub proof fn law_refresh_takes_readings(a: AppView, r: Readings)
    ensures
        spec_refresh(a, r).disk_info == r.disks@,
        spec_refresh(a, r).all_processes == r.processes@,
        spec_refresh(a, r).process_count == r.processes.len(),
        spec_refresh(a, r).net_down_speed == r.net_down_speed,
        spec_refresh(a, r).net_up_speed == r.net_up_speed,
        spec_refresh(a, r).net_down_total == r.net_down_total,
        spec_refresh(a, r).net_up_total == r.net_up_total,
        spec_refresh(a, r).theme == a.theme,
        spec_refresh(a, r).max_processes == a.max_processes,
        spec_refresh(a, r).interval_ms == a.interval_ms,
        spec_refresh(a, r).paused == a.paused,
        spec_refresh(a, r).should_quit == a.should_quit,
        spec_refresh(a, r).confirm == a.confirm,
{
}

/// With no kill waiting, `q`, Esc and Control-`c` make the monitor quit and
/// no other key does; while a kill waits, `q` and Control-`c` quit (Esc then
/// cancels the kill) and no other key does. A monitor that is quitting stays so.
pub proof fn law_quit_keys(a: AppView, k: KeyInput)
    ensures
        a.confirm is None ==> spec_handle_key(a, k).0.should_quit == (a.should_quit || k.code
            == KeyCode::Char('q') || k.code == KeyCode::Esc || (k.code == KeyCode::Char('c')
            && k.ctrl)),
        a.confirm is Some ==> spec_handle_key(a, k).0.should_quit == (a.should_quit || k.code
            == KeyCode::Char('q') || (k.code == KeyCode::Char('c') && k.ctrl)),
        a.confirm is None && (k.code == KeyCode::Char('q') || k.code == KeyCode::Esc) ==> spec_handle_key(a, k)
            == (AppView { should_quit: true, ..a }, Action::Nothing),
{
}

/// The names of the built-in themes.
pub open spec fn builtin_theme_names() -> Seq<Seq<char>> {
    seq![
        seq!['d', 'a', 'r', 'k'],
        seq!['l', 'i', 'g', 'h', 't'],
        seq!['g', 'r', 'u', 'v', 'b', 'o', 'x'],
        seq!['d', 'r', 'a', 'c', 'u', 'l', 'a'],
        seq!['s', 'o', 'l', 'a', 'r', 'i', 'z', 'e', 'd'],
        seq!['n', 'o', 'r', 'd'],
    ]
}

/// A theme name selects the built-in theme of that name, whatever its case
/// and surrounding white space: there is a theme exactly for the built-in
/// names, its name is the trimmed, lowercased text, and it is the built-in
/// theme of that name.
pub proof fn law_theme_name_selects_that_theme(s: Seq<char>)
    ensures
        spec_from_name(s) is Some <==> builtin_theme_names().contains(ascii_lower_all(trim(s))),
        spec_from_name(s) matches Some(t) ==> {
            &&& t.name@ == ascii_lower_all(trim(s))
            &&& (t == spec_dark() || t == spec_light() || t == spec_gruvbox() || t == spec_dracula()
                || t == spec_solarized() || t == spec_nord())
        },
{
    reveal_strlit("dark");
    reveal_strlit("light");
    reveal_strlit("gruvbox");
    reveal_strlit("dracula");
    reveal_strlit("solarized");
    reveal_strlit("nord");
    let k = ascii_lower_all(trim(s));
    let names = builtin_theme_names();
    if names.contains(k) {
        let i = choose|i: int| 0 <= i < names.len() && names[i] == k;
        assert(0 <= i < 6);
    } else {
        assert(k != names[0] && k != names[1] && k != names[2]);
        assert(k != names[3] && k != names[4] && k != names[5]);
    }
    if spec_from_name(s) is Some {
        assert(names[0] == seq!['d', 'a', 'r', 'k']);
        assert(names[1] == seq!['l', 'i', 'g', 'h', 't']);
        assert(names[2] == seq!['g', 'r', 'u', 'v', 'b', 'o', 'x']);
        assert(names[3] == seq!['d', 'r', 'a', 'c', 'u', 'l', 'a']);
        assert(names[4] == seq!['s', 'o', 'l', 'a', 'r', 'i', 'z', 'e', 'd']);
        assert(names[5] == seq!['n', 'o', 'r', 'd']);
    }
}

/// A name of lowercase letters reads as itself once trimmed and lowercased.
proof fn lemma_plain_name(n: Seq<char>)
    requires
        n.len() > 0,
        forall|i: int| 0 <= i < n.len() ==> 'a' <= #[trigger] n[i] <= 'z',
    ensures
        ascii_lower_all(trim(n)) == n,
{
    assert(trim_start(n) == n);
    assert(trim_end(n) == n);
    assert(ascii_lower_all(n) =~= n);
}

/// `t` is named `name` and has the colours `c`, slot by slot: bg, panel,
/// accent, title, text, dim, ok, warn, danger.
pub open spec fn has_palette(t: Theme, name: Seq<char>, c: (Rgb, Rgb, Rgb, Rgb, Rgb, Rgb, Rgb, Rgb, Rgb)) -> bool {
    &&& t.name@ == name
    &&& t.bg == c.0 && t.panel == c.1 && t.accent == c.2
    &&& t.title == c.3 && t.text == c.4 && t.dim == c.5
    &&& t.ok == c.6 && t.warn == c.7 && t.danger == c.8
}

/// Each built-in name selects its own palette.
pub proof fn law_builtin_palettes()
    ensures
        spec_from_name(builtin_theme_names()[0]) matches Some(t) && has_palette(t, builtin_theme_names()[0], (
            Rgb(18, 22, 32), Rgb(24, 29, 42), Rgb(88, 176, 255), Rgb(121, 216, 255), Rgb(214, 221, 232),
            Rgb(112, 122, 140), Rgb(92, 220, 152), Rgb(255, 199, 92), Rgb(255, 94, 104),
        )),
        spec_from_name(builtin_theme_names()[1]) matches Some(t) && has_palette(t, builtin_theme_names()[1], (
            Rgb(252, 252, 252), Rgb(240, 242, 246), Rgb(47, 108, 184), Rgb(29, 78, 148), Rgb(30, 34, 42),
            Rgb(120, 128, 140), Rgb(16, 128, 78), Rgb(180, 130, 20), Rgb(200, 40, 50),
        )),
        spec_from_name(builtin_theme_names()[2]) matches Some(t) && has_palette(t, builtin_theme_names()[2], (
            Rgb(40, 40, 40), Rgb(60, 56, 54), Rgb(131, 165, 152), Rgb(250, 189, 47), Rgb(235, 219, 178),
            Rgb(146, 131, 116), Rgb(152, 151, 26), Rgb(214, 93, 14), Rgb(204, 36, 29),
        )),
        spec_from_name(builtin_theme_names()[3]) matches Some(t) && has_palette(t, builtin_theme_names()[3], (
            Rgb(40, 42, 54), Rgb(52, 54, 68), Rgb(189, 147, 249), Rgb(255, 121, 198), Rgb(248, 248, 242),
            Rgb(98, 114, 164), Rgb(80, 250, 123), Rgb(241, 250, 140), Rgb(255, 85, 85),
        )),
        spec_from_name(builtin_theme_names()[4]) matches Some(t) && has_palette(t, builtin_theme_names()[4], (
            Rgb(0, 43, 54), Rgb(7, 54, 66), Rgb(38, 139, 210), Rgb(42, 161, 152), Rgb(131, 148, 150),
            Rgb(88, 110, 117), Rgb(133, 153, 0), Rgb(181, 137, 0), Rgb(220, 50, 47),
        )),
        spec_from_name(builtin_theme_names()[5]) matches Some(t) && has_palette(t, builtin_theme_names()[5], (
            Rgb(46, 52, 64), Rgb(59, 66, 82), Rgb(136, 192, 208), Rgb(143, 188, 187), Rgb(216, 222, 233),
            Rgb(94, 108, 132), Rgb(163, 190, 140), Rgb(235, 203, 139), Rgb(191, 97, 106),
        )),
{
    let names = builtin_theme_names();
    assert(names[0] == seq!['d', 'a', 'r', 'k']);
    assert(names[1] == seq!['l', 'i', 'g', 'h', 't']);
    assert(names[2] == seq!['g', 'r', 'u', 'v', 'b', 'o', 'x']);
    assert(names[3] == seq!['d', 'r', 'a', 'c', 'u', 'l', 'a']);
    assert(names[4] == seq!['s', 'o', 'l', 'a', 'r', 'i', 'z', 'e', 'd']);
    assert(names[5] == seq!['n', 'o', 'r', 'd']);
    lemma_plain_name(names[0]);
    lemma_plain_name(names[1]);
    lemma_plain_name(names[2]);
    lemma_plain_name(names[3]);
    lemma_plain_name(names[4]);
    lemma_plain_name(names[5]);
    reveal_strlit("dark");
    reveal_strlit("light");
    reveal_strlit("gruvbox");
    reveal_strlit("dracula");
    reveal_strlit("solarized");
    reveal_strlit("nord");
    assert(spec_from_name(names[0]) == Some(spec_dark()));
    assert(spec_from_name(names[1]) == Some(spec_light()));
    assert(spec_from_name(names[2]) == Some(spec_gruvbox()));
    assert(spec_from_name(names[3]) == Some(spec_dracula()));
    assert(spec_from_name(names[4]) == Some(spec_solarized()));
    assert(spec_from_name(names[5]) == Some(spec_nord()));
    assert(spec_dark().name@ == names[0]);
    assert(spec_light().name@ == names[1]);
    assert(spec_gruvbox().name@ == names[2]);
    assert(spec_dracula().name@ == names[3]);
    assert(spec_solarized().name@ == names[4]);
    assert(spec_nord().name@ == names[5]);
}

/// The built-in theme that `name` selects; dark when there is no name or it
/// is not a built-in one.
pub open spec fn named_base(name: Option<Seq<char>>) -> Theme {
    match name {
        Some(n) => match spec_from_name(n) {
            Some(t) => t,
            None => spec_dark(),
        },
        None => spec_dark(),
    }
}

/// `slot` is the colour that `text` reads as, or `base` when there is no text
/// or it does not read as a colour.
pub open spec fn slot_follows(slot: Rgb, text: Option<String>, base: Rgb) -> bool {
    match text {
        Some(x) => match spec_parse_hex(x@) {
            Some(c) => slot == c,
            None => slot == base,
        },
        None => slot == base,
    }
}

/// `t` is `base` with each slot of `c` that reads as a colour put in place.
pub open spec fn follows_overrides(t: Theme, base: Theme, c: ThemeColors) -> bool {
    &&& t.name == base.name
    &&& slot_follows(t.bg, c.bg, base.bg)
    &&& slot_follows(t.panel, c.panel, base.panel)
    &&& slot_follows(t.accent, c.accent, base.accent)
    &&& slot_follows(t.title, c.title, base.title)
    &&& slot_follows(t.text, c.text, base.text)
    &&& slot_follows(t.dim, c.dim, base.dim)
    &&& slot_follows(t.ok, c.ok, base.ok)
    &&& slot_follows(t.warn, c.warn, base.warn)
    &&& slot_follows(t.danger, c.danger, base.danger)
}

/// Resolving a theme starts from the named built-in theme (dark when the
/// name is missing or unknown) and keeps its name; each slot whose override
/// reads as `#rrggbb` takes that colour, every other slot keeps the base
/// theme's colour.
pub proof fn law_resolve_applies_overrides(name: Option<Seq<char>>, overrides: Option<ThemeColors>)
    ensures
        overrides is None ==> spec_resolve(name, overrides) == named_base(name),
        overrides matches Some(c) ==> follows_overrides(spec_resolve(name, overrides), named_base(name), c),
{
}

/// The settings start the monitor with the theme that the `[theme]` section
/// resolves to: its named built-in theme with every `[theme.colors]` slot
/// that reads as a colour put in place (so `accent = "#ff0000"` gives an
/// accent of `Rgb(255, 0, 0)`); dark when there is no `[theme]` section.
pub proof fn law_settings_theme(cfg: Config)
    ensures
        match cfg.file {
            Some(f) => match f.theme {
                Some(t) => {
                    let name = match t.name {
                        Some(n) => Some(n@),
                        None => None,
                    };
                    &&& spec_with_config(cfg).theme == spec_resolve(name, t.colors)
                    &&& (t.colors matches Some(c) ==> follows_overrides(
                        spec_with_config(cfg).theme,
                        named_base(name),
                        c,
                    ))
                    &&& (t.colors is None ==> spec_with_config(cfg).theme == named_base(name))
                },
                None => spec_with_config(cfg).theme == spec_dark(),
            },
            None => spec_with_config(cfg).theme == spec_dark(),
        },
{
    if let Some(f) = cfg.file {
        if let Some(t) = f.theme {
            let name = match t.name {
                Some(n) => Some(n@),
                None => None,
            };
            law_resolve_applies_overrides(name, t.colors);
        }
    }
}

/// The settings start the monitor with the `[monitor]` section's sort key
/// (CPU when it is missing or does not read as a key, largest first for CPU
/// and memory), its refresh period held within 200 ms to 5 s (1 s when
/// missing) and its table length (300 when missing, at least one row); with
/// no `[monitor]` section, CPU largest first, 1 s and 300 rows.
pub proof fn law_settings_monitor(cfg: Config)
    ensures
        ({
            let a = spec_with_config(cfg);
            &&& a.sort_desc == (a.sort == SortKey::Cpu || a.sort == SortKey::Memory)
            &&& match cfg.file {
                Some(f) => match f.monitor {
                    Some(m) => {
                        &&& a.sort == match m.sort {
                            Some(x) => match spec_parse_sort_key(x@) {
                                Ok(k) => k,
                                Err(_) => SortKey::Cpu,
                            },
                            None => SortKey::Cpu,
                        }
                        &&& a.interval_ms == match m.refresh_ms {
                            Some(ms) => if ms < 200 {
                                200
                            } else if ms > 5000 {
                                5000
                            } else {
                                ms
                            },
                            None => 1000,
                        }
                        &&& a.max_processes == match m.max_processes {
                            Some(n) => if n == 0 {
                                1
                            } else {
                                n
                            },
                            None => 300,
                        }
                    },
                    None => a.sort == SortKey::Cpu && a.interval_ms == 1000 && a.max_processes == 300,
                },
                None => a.sort == SortKey::Cpu && a.interval_ms == 1000 && a.max_processes == 300,
            }
        }),
{
}

/// A history after one more sample: the sample is added last, and the oldest
/// one drops out when the history already held `HISTORY_LEN`.
pub open spec fn appended(before: Seq<u64>, after: Seq<u64>, x: u64) -> bool {
    &&& before.len() < HISTORY_LEN ==> after == before.push(x)
    &&& before.len() == HISTORY_LEN ==> after == before.push(x).subrange(1, HISTORY_LEN + 1)
}

/// A refresh adds each new sample at the end of its history, dropping the
/// oldest once the history is full; the per-core histories start afresh, each
/// with its one sample, when the number of cores changed.
pub proof fn law_refresh_appends_samples(a: AppView, r: Readings)
    ensures
        appended(a.cpu_history, spec_refresh(a, r).cpu_history, r.cpu_sample),
        appended(a.memory_history, spec_refresh(a, r).memory_history, r.memory_sample),
        spec_refresh(a, r).core_history.len() == r.core_samples@.len(),
        a.core_history.len() == r.core_samples@.len() ==> forall|i: int|
            0 <= i < a.core_history.len() ==> appended(
                a.core_history[i],
                #[trigger] spec_refresh(a, r).core_history[i],
                r.core_samples@[i],
            ),
        a.core_history.len() != r.core_samples@.len() ==> forall|i: int|
            0 <= i < r.core_samples@.len() ==> #[trigger] spec_refresh(a, r).core_history[i] == seq![
                r.core_samples@[i],
            ],
{
    let b = spec_refresh(a, r);
    assert(a.cpu_history.len() == HISTORY_LEN ==> a.cpu_history.push(r.cpu_sample).drop_first()
        =~= a.cpu_history.push(r.cpu_sample).subrange(1, HISTORY_LEN + 1));
    assert(a.memory_history.len() == HISTORY_LEN ==> a.memory_history.push(r.memory_sample).drop_first()
        =~= a.memory_history.push(r.memory_sample).subrange(1, HISTORY_LEN + 1));
    if a.core_history.len() == r.core_samples@.len() {
        assert forall|i: int| 0 <= i < a.core_history.len() implies appended(
            a.core_history[i],
            #[trigger] b.core_history[i],
            r.core_samples@[i],
        ) by {
            let h = a.core_history[i];
            let x = r.core_samples@[i];
            assert(h.len() == HISTORY_LEN ==> h.push(x).drop_first() =~= h.push(x).subrange(1, HISTORY_LEN + 1));
        }
    } else {
        assert forall|i: int| 0 <= i < r.core_samples@.len() implies #[trigger] b.core_history[i] == seq![
            r.core_samples@[i],
        ] by {
            assert(Seq::<u64>::empty().push(r.core_samples@[i]) =~= seq![r.core_samples@[i]]);
        }
    }
}

/// Rebuilding the table keeps the highlight on the same row number, moved up
/// to the last row when the table got shorter (on the first row when there
/// was none), with no highlight on an empty table; nothing else changes but
/// the rows.
pub proof fn law_rebuild_keeps_highlight_row(a: AppView)
    ensures
        ({
            let b = spec_update_processes(a);
            let n = b.processes.len();
            let was: int = match a.selected {
                Some(i) => i as int,
                None => 0,
            };
            &&& n == 0 ==> b.selected is None
            &&& n > 0 ==> b.selected == Some((if was < n - 1 { was } else { n - 1 }) as usize)
            &&& b == AppView { processes: b.processes, selected: b.selected, ..a }
        }),
{
}

/// Changing the sort key goes from CPU to memory, to name, to PID and back to
/// CPU, and `s` is the key that does it.
pub proof fn law_sort_keys_in_turn(a: AppView)
    ensures
        spec_cycle_sort(a).sort == match a.sort {
            SortKey::Cpu => SortKey::Memory,
            SortKey::Memory => SortKey::Name,
            SortKey::Name => SortKey::Pid,
            SortKey::Pid => SortKey::Cpu,
        },
        a.confirm is None ==> spec_handle_key(a, key('s')) == (spec_cycle_sort(a), Action::Nothing),
{
}

} // verus!
