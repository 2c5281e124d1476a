//! What the pages show and which engine requests their controls make.

use vstd::prelude::*;

use std::collections::VecDeque;

use crate::activity::ActivityLog;
use crate::config::AppConfig;
use crate::theme::StatusColors;
use crate::calendar::{civil_from_days, days_from_civil, is_valid_date, trunc_rem};
use crate::client::{
    add_uri_request, change_global_option_plan, is_list_param, is_remove_plan, is_remove_result_plan,
    remove_download_result_plan, remove_plan, RpcParam, RpcPlan, RpcRequest,
};
use crate::daemon::{install_hint, install_hint_text, Platform};
use crate::format::{bytes_text, eta_text, format_bytes, format_eta, format_speed};
use crate::state::{EngineStatus, TaskFilter};
use crate::text::{dec_nat, owned, push_decimal, push_str};
use crate::types::{file_name_of, path_file_name, Task, TaskStatus};

verus! {

// ---- Dashboard ----

/// Heatmap shade (0..=4) of a day's downloaded bytes: none, under 10 MB,
/// under 100 MB, under 1 GB, and more.
pub open spec fn heat_of(bytes: u64) -> nat {
    if bytes == 0 {
        0
    } else if bytes < 10 * 1024 * 1024 {
        1
    } else if bytes < 100 * 1024 * 1024 {
        2
    } else if bytes < 1024 * 1024 * 1024 {
        3
    } else {
        4
    }
}

pub fn heat_level(bytes: u64) -> (level: usize)
    ensures
        level == heat_of(bytes),
{
    if bytes == 0 {
        0
    } else if bytes < 10 * 1024 * 1024 {
        1
    } else if bytes < 100 * 1024 * 1024 {
        2
    } else if bytes < 1024 * 1024 * 1024 {
        3
    } else {
        4
    }
}

/// More bytes never give a lighter shade.
pub proof fn lemma_heat_monotone(a: u64, b: u64)
    requires
        a <= b,
    ensures
        heat_of(a) <= heat_of(b) <= 4,
{
}

/// Number of week columns of the activity heatmap.
pub const HEATMAP_WEEKS: usize = 40;

pub open spec fn month_abbrev(m: nat) -> Seq<char> {
    if m == 1 {
        "Jan"@
    } else if m == 2 {
        "Feb"@
    } else if m == 3 {
        "Mar"@
    } else if m == 4 {
        "Apr"@
    } else if m == 5 {
        "May"@
    } else if m == 6 {
        "Jun"@
    } else if m == 7 {
        "Jul"@
    } else if m == 8 {
        "Aug"@
    } else if m == 9 {
        "Sep"@
    } else if m == 10 {
        "Oct"@
    } else if m == 11 {
        "Nov"@
    } else {
        "Dec"@
    }
}

fn month_name(m: u32) -> (r: &'static str)
    ensures
        r@ == month_abbrev(m as nat),
{
    if m == 1 {
        "Jan"
    } else if m == 2 {
        "Feb"
    } else if m == 3 {
        "Mar"
    } else if m == 4 {
        "Apr"
    } else if m == 5 {
        "May"
    } else if m == 6 {
        "Jun"
    } else if m == 7 {
        "Jul"
    } else if m == 8 {
        "Aug"
    } else if m == 9 {
        "Sep"
    } else if m == 10 {
        "Oct"
    } else if m == 11 {
        "Nov"
    } else {
        "Dec"
    }
}

/// The month (1..=12) of the day numbered `z`.
pub open spec fn month_of_day(z: int) -> int {
    (choose|t: (int, int, int)| is_valid_date(t.0, t.1, t.2) && days_from_civil(t.0, t.1, t.2) == z).1
}

/// First day of the heatmap's week column `w` (weeks run Sunday to
/// Saturday; the last column holds `today`).
pub open spec fn week_start(today: int, w: int) -> int {
    today - trunc_rem(today + 4, 7) - (HEATMAP_WEEKS - 1) * 7 + 7 * w
}

/// One week column of the activity heatmap.
pub struct HeatmapWeek {
    /// The month's name where a new month starts, else empty.
    pub label: &'static str,
    /// Shade of each day, Sunday first; `None` for days after today.
    pub levels: Vec<Option<usize>>,
}

/// The month of the day numbered `z`.
fn month_at(z: i64) -> (m: u32)
    requires
        z <= i64::MAX - 719468,
    ensures
        m == month_of_day(z as int),
        1 <= m <= 12,
{
    let (y, month, dd) = civil_from_days(z);
    proof {
        let t = choose|t: (int, int, int)| is_valid_date(t.0, t.1, t.2) && days_from_civil(t.0, t.1, t.2) == z;
        assert(is_valid_date(y as int, month as int, dd as int) && days_from_civil(y as int, month as int, dd as int) == z);
        crate::calendar::lemma_days_from_civil_injective(t.0, t.1, t.2, y as int, month as int, dd as int);
    }
    month
}

/// Shades of the seven days starting at `ws`; `None` for days after `today`.
fn week_levels(log: &ActivityLog, today: i64, ws: i64) -> (levels: Vec<Option<usize>>)
    requires
        ws <= i64::MAX - 7,
    ensures
        levels@.len() == 7,
        forall|d: int|
            0 <= d < 7 ==> #[trigger] levels@[d] == if ws + d > today {
                None::<usize>
            } else {
                Some(heat_of(log.bytes_of((ws + d) as i64)) as usize)
            },
{
    let mut levels: Vec<Option<usize>> = Vec::new();
    let mut dow: i64 = 0;
    while dow < 7
        invariant
            0 <= dow <= 7,
            levels@.len() == dow,
            ws <= i64::MAX - 7,
            forall|d: int|
                0 <= d < dow ==> #[trigger] levels@[d] == if ws + d > today {
                    None::<usize>
                } else {
                    Some(heat_of(log.bytes_of((ws + d) as i64)) as usize)
                },
        decreases 7 - dow,
    {
        let day = ws + dow;
        if day > today {
            levels.push(None);
        } else {
            levels.push(Some(heat_level(log.bytes_on(day))));
        }
        dow = dow + 1;
    }
    levels
}

/// Week column `w` of the heatmap ending with `today`'s week is `col`.
pub open spec fn is_heatmap_week(col: HeatmapWeek, log: ActivityLog, today: int, w: int) -> bool {
    let ws = week_start(today, w);
    let m = month_of_day(ws);
    &&& col.label@ == if w == 0 || m != month_of_day(ws - 7) {
        month_abbrev(m as nat)
    } else {
        Seq::<char>::empty()
    }
    &&& col.levels@.len() == 7
    &&& forall|d: int|
        0 <= d < 7 ==> #[trigger] col.levels@[d] == if ws + d > today {
            None::<usize>
        } else {
            Some(heat_of(log.bytes_of((ws + d) as i64)) as usize)
        }
}

/// The 40 week columns of the activity heatmap ending with today's week.
pub fn heatmap(log: &ActivityLog, today: i64) -> (weeks: Vec<HeatmapWeek>)
    requires
        i64::MIN + 300 <= today <= i64::MAX - 719468,
    ensures
        weeks@.len() == HEATMAP_WEEKS,
        forall|w: int| 0 <= w < HEATMAP_WEEKS ==> is_heatmap_week(#[trigger] weeks@[w], *log, today as int, w),
{
    let dow_today = (today + 4) % 7;
    let current_sunday = today - dow_today;
    let start_sunday = current_sunday - (HEATMAP_WEEKS as i64 - 1) * 7;
    let mut weeks: Vec<HeatmapWeek> = Vec::new();
    let mut last_month: u32 = 0;
    let mut week: usize = 0;
    while week < HEATMAP_WEEKS
        invariant
            week <= HEATMAP_WEEKS,
            i64::MIN + 300 <= today <= i64::MAX - 719468,
            start_sunday == week_start(today as int, 0),
            weeks@.len() == week,
            week > 0 ==> last_month == month_of_day(week_start(today as int, week - 1)),
            week == 0 ==> last_month == 0,
            forall|w: int| 0 <= w < week ==> is_heatmap_week(#[trigger] weeks@[w], *log, today as int, w),
        decreases HEATMAP_WEEKS - week,
    {
        let ws = start_sunday + week as i64 * 7;
        assert(ws == week_start(today as int, week as int));
        let month = month_at(ws);
        let label: &'static str = if month != last_month {
            month_name(month)
        } else {
            proof {
                reveal_strlit("");
            }
            ""
        };
        last_month = month;
        let levels = week_levels(log, today, ws);
        let col = HeatmapWeek { label, levels };
        proof {
            if week > 0 {
                assert(week_start(today as int, week - 1) == ws - 7);
            }
            let m = month_of_day(ws as int);
            assert(m == month as int);
            assert(col.label@ == if week == 0 || m != month_of_day(ws - 7) {
                month_abbrev(m as nat)
            } else {
                Seq::<char>::empty()
            });
            assert(col.levels@.len() == 7);
            assert(is_heatmap_week(col, *log, today as int, week as int));
        }
        weeks.push(col);
        week = week + 1;
    }
    weeks
}

/// (downloading, waiting, seeding) task counts; paused tasks count as
/// waiting.
pub open spec fn tally_of(tasks: Seq<Task>) -> (nat, nat, nat)
    decreases tasks.len(),
{
    if tasks.len() == 0 {
        (0, 0, 0)
    } else {
        let (a, w, s) = tally_of(tasks.drop_last());
        match tasks.last().status {
            TaskStatus::Active => (a + 1, w, s),
            TaskStatus::Waiting | TaskStatus::Paused => (a, w + 1, s),
            TaskStatus::Seeding => (a, w, s + 1),
            _ => (a, w, s),
        }
    }
}

pub fn task_tally(tasks: &Vec<Task>) -> (r: (usize, usize, usize))
    ensures
        (r.0 as nat, r.1 as nat, r.2 as nat) == tally_of(tasks@),
{
    let mut downloading: usize = 0;
    let mut waiting: usize = 0;
    let mut seeding: usize = 0;
    let mut i: usize = 0;
    while i < tasks.len()
        invariant
            i <= tasks.len(),
            (downloading as nat, waiting as nat, seeding as nat) == tally_of(tasks@.take(i as int)),
            downloading + waiting + seeding <= i,
        decreases tasks.len() - i,
    {
        proof {
            assert(tasks@.take(i + 1).drop_last() =~= tasks@.take(i as int));
        }
        match tasks[i].status {
            TaskStatus::Active => downloading = downloading + 1,
            TaskStatus::Waiting | TaskStatus::Paused => waiting = waiting + 1,
            TaskStatus::Seeding => seeding = seeding + 1,
            _ => {},
        }
        i = i + 1;
    }
    assert(tasks@.take(tasks.len() as int) =~= tasks@);
    (downloading, waiting, seeding)
}

/// The dashboard's active-task count (downloading plus seeding) is the
/// status bar's active count.
pub proof fn lemma_active_tally(tasks: Seq<Task>)
    ensures
        crate::state::count_status(tasks, |s: TaskStatus| crate::state::is_active(s)) == tally_of(tasks).0
            + tally_of(tasks).2,
    decreases tasks.len(),
{
    if tasks.len() > 0 {
        lemma_active_tally(tasks.drop_last());
    }
}

/// Engine tile: its label and the colour of its dot.
pub fn engine_tile(engine: EngineStatus) -> (r: (&'static str, u32))
    ensures
        r.0@ == match engine {
            EngineStatus::Ready => "Ready"@,
            EngineStatus::Starting => "Starting"@,
            EngineStatus::Offline => "Offline"@,
        },
        r.1 == match engine {
            EngineStatus::Ready => StatusColors::GREEN_500,
            EngineStatus::Starting => StatusColors::BLUE_500,
            EngineStatus::Offline => StatusColors::RED_500,
        },
{
    match engine {
        EngineStatus::Ready => ("Ready", StatusColors::GREEN_500),
        EngineStatus::Starting => ("Starting", StatusColors::BLUE_500),
        EngineStatus::Offline => ("Offline", StatusColors::RED_500),
    }
}

/// The engine tile's caption: a missing aria2c with the install hint, else
/// the engine's version when known.
pub fn engine_caption(aria2_missing: bool, version: &String, platform: Platform) -> (r: String)
    ensures
        r@ == if aria2_missing {
            "aria2c not found \u{b7} "@ + install_hint_text(platform)
        } else if version@.len() == 0 {
            "aria2"@
        } else {
            "aria2 v"@ + version@
        },
{
    if aria2_missing {
        let mut s = owned("aria2c not found \u{b7} ");
        push_str(&mut s, install_hint(platform));
        s
    } else if version.as_str().is_empty() {
        owned("aria2")
    } else {
        let mut s = owned("aria2 v");
        push_str(&mut s, version.as_str());
        s
    }
}

/// The speed-limit tile's caption.
pub fn limit_caption(limit: u64) -> (r: String)
    ensures
        r@ == if limit == 0 {
            "Standard mode"@
        } else {
            "Limited to "@ + bytes_text(limit) + "/s"@
        },
{
    if limit == 0 {
        owned("Standard mode")
    } else {
        let mut s = owned("Limited to ");
        push_str(&mut s, format_bytes(limit).as_str());
        push_str(&mut s, "/s");
        s
    }
}

/// The options a speed-limit preset sends to the engine.
pub fn limit_options(limit: u64) -> (o: Vec<(String, String)>)
    ensures
        o@.len() == 1,
        o@[0].0@ == "max-overall-download-limit"@,
        o@[0].1@ == dec_nat(limit as nat),
{
    let mut v = String::new();
    push_decimal(&mut v, limit);
    vec![(owned("max-overall-download-limit"), v)]
}

/// A speed-limit preset of the dashboard.
pub struct LimitChip {
    pub id: &'static str,
    pub label: &'static str,
    /// bytes/s, 0 = unlimited
    pub limit: u64,
    /// The preset is the current limit.
    pub active: bool,
}

/// The presets "Full", "10M" and "1M", the one equal to `current` marked
/// active.
pub fn limit_chips(current: u64) -> (r: Vec<LimitChip>)
    ensures
        r@.len() == 3,
        r@[0].id@ == "limit-off"@ && r@[0].label@ == "Full"@ && r@[0].limit == 0,
        r@[1].id@ == "limit-10m"@ && r@[1].label@ == "10M"@ && r@[1].limit == 10 * 1024 * 1024,
        r@[2].id@ == "limit-1m"@ && r@[2].label@ == "1M"@ && r@[2].limit == 1024 * 1024,
        forall|i: int| 0 <= i < 3 ==> (#[trigger] r@[i]).active == (r@[i].limit == current),
{
    let presets: Vec<(&'static str, &'static str, u64)> = vec![
        ("limit-off", "Full", 0),
        ("limit-10m", "10M", 10 * 1024 * 1024),
        ("limit-1m", "1M", 1024 * 1024),
    ];
    let mut out: Vec<LimitChip> = Vec::new();
    let mut i: usize = 0;
    while i < presets.len()
        invariant
            i <= presets.len(),
            presets@.len() == 3,
            presets@[0] == ("limit-off", "Full", 0u64),
            presets@[1] == ("limit-10m", "10M", 10485760u64),
            presets@[2] == ("limit-1m", "1M", 1048576u64),
            out@.len() == i,
            forall|k: int|
                0 <= k < i ==> (#[trigger] out@[k]).id == presets@[k].0 && out@[k].label == presets@[k].1
                    && out@[k].limit == presets@[k].2 && out@[k].active == (presets@[k].2 == current),
        decreases presets.len() - i,
    {
        let (id, label, limit) = presets[i];
        out.push(LimitChip { id, label, limit, active: limit == current });
        i = i + 1;
    }
    out
}

/// A click on a preset: the limit becomes the configured one and is sent
/// to the engine.
pub fn choose_limit(config: &mut AppConfig, limit: u64) -> (p: RpcPlan)
    ensures
        final(config).max_overall_download_limit == limit,
        final(config).max_overall_upload_limit == old(config).max_overall_upload_limit,
        final(config).download_dir == old(config).download_dir,
        final(config).bt_trackers == old(config).bt_trackers,
        p.primary.method == "changeGlobalOption",
        p.primary.params@.len() == 1,
        p.primary.params@[0] matches RpcParam::Options(o) && o@.len() == 1 && o@[0].0@
            == "max-overall-download-limit"@ && o@[0].1@ == dec_nat(limit as nat),
        p.fallback is None,
{
    config.max_overall_download_limit = limit;
    change_global_option_plan(limit_options(limit))
}

/// A speed chart has something to draw: some sample is above zero.
pub fn has_samples(h: &VecDeque<u64>) -> (r: bool)
    ensures
        r == exists|i: int| 0 <= i < h@.len() && h@[i] > 0,
{
    let mut i: usize = 0;
    while i < h.len()
        invariant
            i <= h@.len(),
            forall|k: int| 0 <= k < i ==> h@[k] == 0,
        decreases h@.len() - i,
    {
        if h[i] > 0 {
            return true;
        }
        i = i + 1;
    }
    false
}

/// The all-time total under today's transfer.
pub fn all_time_caption(total: u64) -> (r: String)
    ensures
        r@ == "All time \u{b7} "@ + bytes_text(total),
{
    let mut s = owned("All time \u{b7} ");
    push_str(&mut s, format_bytes(total).as_str());
    s
}

/// The dot of a notification: green for a finished download, red for a
/// failed one.
pub fn event_dot(ok: bool) -> (r: u32)
    ensures
        r == if ok {
            StatusColors::GREEN_500
        } else {
            StatusColors::RED_500
        },
{
    if ok {
        StatusColors::GREEN_500
    } else {
        StatusColors::RED_500
    }
}

// ---- Downloads ----

/// The status pill of a task row: background, text and progress-bar colours
/// and the label.
pub struct RowStyle {
    pub pill_bg: u32,
    pub pill_fg: u32,
    pub bar: u32,
    pub label: &'static str,
}

pub open spec fn pill_label(s: TaskStatus) -> Seq<char> {
    match s {
        TaskStatus::Active => "Downloading"@,
        TaskStatus::Waiting => "Queued"@,
        TaskStatus::Paused => "Paused"@,
        TaskStatus::Seeding => "Seeding"@,
        TaskStatus::Complete => "Completed"@,
        TaskStatus::Error => "Error"@,
        TaskStatus::Removed => "Removed"@,
    }
}

pub fn row_style(s: TaskStatus) -> (r: RowStyle)
    ensures
        r.label@ == pill_label(s),
        (r.pill_bg, r.pill_fg, r.bar) == match s {
            TaskStatus::Active => (StatusColors::BLUE_100, StatusColors::BLUE_800, StatusColors::BLUE_500),
            TaskStatus::Waiting => (StatusColors::BLUE_100, StatusColors::BLUE_800, StatusColors::BLUE_500),
            TaskStatus::Paused => (StatusColors::AMBER_100, StatusColors::AMBER_700, StatusColors::AMBER_500),
            TaskStatus::Seeding => (StatusColors::GREEN_100, StatusColors::GREEN_700, StatusColors::GREEN_500),
            TaskStatus::Complete => (StatusColors::SLATE_100, StatusColors::SLATE_600, StatusColors::GREEN_500),
            TaskStatus::Error => (StatusColors::RED_100, StatusColors::RED_700, StatusColors::RED_500),
            TaskStatus::Removed => (StatusColors::SLATE_100, StatusColors::SLATE_400, StatusColors::SLATE_400),
        },
{
    match s {
        TaskStatus::Active => RowStyle {
            pill_bg: StatusColors::BLUE_100,
            pill_fg: StatusColors::BLUE_800,
            bar: StatusColors::BLUE_500,
            label: "Downloading",
        },
        TaskStatus::Waiting => RowStyle {
            pill_bg: StatusColors::BLUE_100,
            pill_fg: StatusColors::BLUE_800,
            bar: StatusColors::BLUE_500,
            label: "Queued",
        },
        TaskStatus::Paused => RowStyle {
            pill_bg: StatusColors::AMBER_100,
            pill_fg: StatusColors::AMBER_700,
            bar: StatusColors::AMBER_500,
            label: "Paused",
        },
        TaskStatus::Seeding => RowStyle {
            pill_bg: StatusColors::GREEN_100,
            pill_fg: StatusColors::GREEN_700,
            bar: StatusColors::GREEN_500,
            label: "Seeding",
        },
        TaskStatus::Complete => RowStyle {
            pill_bg: StatusColors::SLATE_100,
            pill_fg: StatusColors::SLATE_600,
            bar: StatusColors::GREEN_500,
            label: "Completed",
        },
        TaskStatus::Error => RowStyle {
            pill_bg: StatusColors::RED_100,
            pill_fg: StatusColors::RED_700,
            bar: StatusColors::RED_500,
            label: "Error",
        },
        TaskStatus::Removed => RowStyle {
            pill_bg: StatusColors::SLATE_100,
            pill_fg: StatusColors::SLATE_400,
            bar: StatusColors::SLATE_400,
            label: "Removed",
        },
    }
}

/// The second line of a task row: its error, else its kind and file count.
pub open spec fn subtitle_text(t: Task) -> Seq<char> {
    match t.error_message {
        Some(e) => e@,
        None => (if t.is_bt {
            "BT"@
        } else {
            "HTTP"@
        }) + if t.file_count > 1 {
            " \u{b7} "@ + dec_nat(t.file_count as nat) + " files"@
        } else {
            " \u{b7} 1 file"@
        },
    }
}

pub fn row_subtitle(t: &Task) -> (r: String)
    ensures
        r@ == subtitle_text(*t),
{
    match &t.error_message {
        Some(e) => e.clone(),
        None => {
            let mut s = owned(if t.is_bt {
                "BT"
            } else {
                "HTTP"
            });
            if t.file_count > 1 {
                push_str(&mut s, " \u{b7} ");
                push_decimal(&mut s, t.file_count as u64);
                push_str(&mut s, " files");
            } else {
                push_str(&mut s, " \u{b7} 1 file");
            }
            s
        },
    }
}

/// The speed column: the download speed, or a dash when idle.
pub fn row_speed(t: &Task) -> (r: String)
    ensures
        r@ == if t.download_speed > 0 {
            bytes_text(t.download_speed) + "/s"@
        } else {
            "\u{2014}"@
        },
{
    if t.download_speed > 0 {
        format_speed(t.download_speed)
    } else {
        owned("\u{2014}")
    }
}

/// The ETA column: the remaining time, or a dash when unknown.
pub fn row_eta(t: &Task) -> (r: String)
    ensures
        r@ == match crate::types::eta_of(*t) {
            Some(secs) => eta_text(secs),
            None => "\u{2014}"@,
        },
{
    match t.eta_seconds() {
        Some(secs) => format_eta(secs),
        None => owned("\u{2014}"),
    }
}

/// The size column: the total size, or a dash while unknown.
pub fn row_size(t: &Task) -> (r: String)
    ensures
        r@ == if t.total_length > 0 {
            bytes_text(t.total_length)
        } else {
            "\u{2014}"@
        },
{
    if t.total_length > 0 {
        format_bytes(t.total_length)
    } else {
        owned("\u{2014}")
    }
}

/// The entries of a task's context menu.
#[derive(Debug, Clone, Copy, PartialEq, Eq, Structural)]
pub enum MenuEntry {
    Pause,
    Resume,
    Restart,
    OpenFolder,
    CopyLink,
    Remove,
}

pub open spec fn menu_of(t: Task) -> Seq<MenuEntry> {
    let a = if crate::state::running(t.status) {
        seq![MenuEntry::Pause]
    } else {
        Seq::empty()
    };
    let b = if t.status == TaskStatus::Paused {
        a.push(MenuEntry::Resume)
    } else {
        a
    };
    let c = if t.status == TaskStatus::Error {
        b.push(MenuEntry::Restart)
    } else {
        b
    };
    let d = c.push(MenuEntry::OpenFolder);
    let e = if t.uri is Some {
        d.push(MenuEntry::CopyLink)
    } else {
        d
    };
    e.push(MenuEntry::Remove)
}

/// The context menu of a task row: pause for running tasks, resume for
/// paused ones, restart for failed ones, then open folder, copy link (when
/// there is a URI) and remove.
pub fn context_menu(t: &Task) -> (r: Vec<MenuEntry>)
    ensures
        r@ == menu_of(*t),
{
    let mut v: Vec<MenuEntry> = Vec::new();
    if matches!(t.status, TaskStatus::Active | TaskStatus::Waiting | TaskStatus::Seeding) {
        v.push(MenuEntry::Pause);
    }
    if t.status == TaskStatus::Paused {
        v.push(MenuEntry::Resume);
    }
    if t.status == TaskStatus::Error {
        v.push(MenuEntry::Restart);
    }
    v.push(MenuEntry::OpenFolder);
    if t.uri.is_some() {
        v.push(MenuEntry::CopyLink);
    }
    v.push(MenuEntry::Remove);
    assert(v@ =~= menu_of(*t));
    v
}

/// The plan that removes task `gid` in `status`: an unfinished task is
/// removed, a finished one has its download result removed.
pub open spec fn is_removal_plan(p: RpcPlan, gid: Seq<char>, status: TaskStatus) -> bool {
    if matches!(status, TaskStatus::Active | TaskStatus::Waiting | TaskStatus::Paused | TaskStatus::Seeding) {
        is_remove_plan(p, gid)
    } else {
        is_remove_result_plan(p, gid)
    }
}

/// The entries of the filter menu: All, Downloading, Waiting, Completed and
/// Stopped, in that order, only the current filter checked.
pub fn filter_menu(current: TaskFilter) -> (r: Vec<(TaskFilter, bool)>)
    ensures
        r@.len() == 5,
        r@[0].0 == TaskFilter::All,
        r@[1].0 == TaskFilter::Downloading,
        r@[2].0 == TaskFilter::Waiting,
        r@[3].0 == TaskFilter::Completed,
        r@[4].0 == TaskFilter::Stopped,
        forall|i: int| 0 <= i < 5 ==> (#[trigger] r@[i]).1 == (r@[i].0 == current),
{
    vec![
        (TaskFilter::All, current == TaskFilter::All),
        (TaskFilter::Downloading, current == TaskFilter::Downloading),
        (TaskFilter::Waiting, current == TaskFilter::Waiting),
        (TaskFilter::Completed, current == TaskFilter::Completed),
        (TaskFilter::Stopped, current == TaskFilter::Stopped),
    ]
}

/// Removing a task: unfinished tasks are removed, finished ones have their
/// download result removed.
pub fn remove_task_plan(gid: &str, status: TaskStatus) -> (p: RpcPlan)
    ensures
        is_removal_plan(p, gid@, status),
{
    match status {
        TaskStatus::Active | TaskStatus::Waiting | TaskStatus::Paused | TaskStatus::Seeding => remove_plan(gid),
        _ => remove_download_result_plan(gid),
    }
}

/// Restarting a failed task with a URI: drop its result, then add the URI
/// again into the same directory. `None` when the task has no URI.
pub fn restart_requests(t: &Task) -> (r: Option<(RpcPlan, RpcRequest)>)
    ensures
        r is Some <==> t.uri is Some,
        r matches Some(p) ==> {
            &&& is_remove_result_plan(p.0, t.gid@)
            &&& p.1.method == "addUri"
            &&& p.1.params@.len() == 2
            &&& is_list_param(p.1.params@[0], seq![t.uri->0@])
            &&& p.1.params@[1] matches RpcParam::Options(o) && o@.len() == 1 && o@[0].0@ == "dir"@
                && o@[0].1@ == t.dir@
        },
{
    match &t.uri {
        Some(u) => {
            let opts = vec![(owned("dir"), t.dir.clone())];
            let uris = vec![u.clone()];
            assert(uris@.map_values(|s: String| s@) =~= seq![u@]);
            let req = add_uri_request(uris, opts);
            Some((remove_download_result_plan(t.gid.as_str()), req))
        },
        None => None,
    }
}

/// What double-clicking a completed task opens.
pub enum FolderTarget {
    /// Reveal the downloaded file.
    Reveal(String),
    /// Open the download directory.
    Open(String),
    Nothing,
}

/// Reveal the task's file when it exists on disk (`file_exists`), else open
/// its directory when it has one.
pub fn folder_target(t: &Task, file_exists: bool) -> (r: FolderTarget)
    ensures
        match r {
            FolderTarget::Reveal(p) => file_exists && (t.file_path matches Some(f) && p@ == f@),
            FolderTarget::Open(d) => !(file_exists && t.file_path is Some) && t.dir@.len() > 0 && d@ == t.dir@,
            FolderTarget::Nothing => !(file_exists && t.file_path is Some) && t.dir@.len() == 0,
        },
{
    match &t.file_path {
        Some(p) => if file_exists {
            return FolderTarget::Reveal(p.clone());
        },
        None => {},
    }
    if !t.dir.as_str().is_empty() {
        FolderTarget::Open(t.dir.clone())
    } else {
        FolderTarget::Nothing
    }
}

/// `s` without trailing `/` characters.
pub open spec fn strip_trailing_slashes(s: Seq<char>) -> Seq<char>
    decreases s.len(),
{
    if s.len() > 0 && s.last() == '/' {
        strip_trailing_slashes(s.drop_last())
    } else {
        s
    }
}

/// The files to move to the Trash with a task: its file and aria2's control
/// file next to it, and for a multi-file torrent its folder `dir/name`.
pub open spec fn trash_list(t: Task) -> Seq<Seq<char>> {
    let a = trash_files_part(t);
    if t.is_bt && t.dir@.len() > 0 && t.name@.len() > 0 && t.file_count > 1 {
        a.push(strip_trailing_slashes(t.dir@) + seq!['/'] + t.name@)
    } else {
        a
    }
}

pub open spec fn trash_files_part(t: Task) -> Seq<Seq<char>> {
    match t.file_path {
        Some(p) => seq![p@, p@ + ".aria2"@],
        None => Seq::empty(),
    }
}

pub fn trash_paths(t: &Task) -> (r: Vec<String>)
    ensures
        r@.map_values(|s: String| s@) == trash_list(*t),
{
    let mut paths: Vec<String> = Vec::new();
    match &t.file_path {
        Some(p) => {
            paths.push(p.clone());
            let mut c = p.clone();
            push_str(&mut c, ".aria2");
            paths.push(c);
        },
        None => {},
    }
    let ghost a = trash_files_part(*t);
    assert(paths@.map_values(|s: String| s@) =~= a);
    if t.is_bt && !t.dir.as_str().is_empty() && !t.name.as_str().is_empty() && t.file_count > 1 {
        let chars = crate::text::chars_of(t.dir.as_str());
        let mut end = chars.len();
        assert(chars@.take(end as int) =~= chars@);
        while end > 0 && chars[end - 1] == '/'
            invariant
                chars@ == t.dir@,
                end <= chars.len(),
                strip_trailing_slashes(chars@.take(end as int)) == strip_trailing_slashes(t.dir@),
            decreases end,
        {
            assert(chars@.take(end as int).drop_last() =~= chars@.take(end - 1));
            end = end - 1;
        }
        let mut s = crate::text::string_from_chars(&chars, 0, end);
        proof {
            assert(chars@.subrange(0, end as int) =~= chars@.take(end as int));
            assert(strip_trailing_slashes(chars@.take(end as int)) == chars@.take(end as int));
        }
        crate::text::push_char(&mut s, '/');
        push_str(&mut s, t.name.as_str());
        assert(s@ =~= strip_trailing_slashes(t.dir@) + seq!['/'] + t.name@);
        paths.push(s);
        assert(paths@.map_values(|s: String| s@) =~= a.push(strip_trailing_slashes(t.dir@) + seq!['/'] + t.name@));
    }
    assert(paths@.map_values(|s: String| s@) =~= trash_list(*t));
    paths
}

/// What confirming the removal of a task does: the files to move to the
/// Trash first (none unless asked for), then the engine request.
pub struct RemovalStep {
    pub trash: Vec<String>,
    pub plan: RpcPlan,
}

/// The steps of removing `tasks`, in order; with `delete_files` each task's
/// files go to the Trash before it is removed.
pub fn removal_steps(tasks: &Vec<Task>, delete_files: bool) -> (r: Vec<RemovalStep>)
    ensures
        r@.len() == tasks@.len(),
        forall|i: int|
            0 <= i < r@.len() ==> {
                &&& (#[trigger] r@[i]).trash@.map_values(|s: String| s@) == if delete_files {
                    trash_list(tasks@[i])
                } else {
                    Seq::empty()
                }
                &&& is_removal_plan(r@[i].plan, tasks@[i].gid@, tasks@[i].status)
            },
{
    let mut out: Vec<RemovalStep> = Vec::new();
    let mut i: usize = 0;
    while i < tasks.len()
        invariant
            i <= tasks.len(),
            out@.len() == i,
            forall|k: int|
                0 <= k < i ==> {
                    &&& (#[trigger] out@[k]).trash@.map_values(|s: String| s@) == if delete_files {
                        trash_list(tasks@[k])
                    } else {
                        Seq::empty()
                    }
                    &&& is_removal_plan(out@[k].plan, tasks@[k].gid@, tasks@[k].status)
                },
        decreases tasks.len() - i,
    {
        let t = &tasks[i];
        let trash = if delete_files {
            trash_paths(t)
        } else {
            let v: Vec<String> = Vec::new();
            assert(v@.map_values(|s: String| s@) =~= Seq::<Seq<char>>::empty());
            v
        };
        let plan = remove_task_plan(t.gid.as_str(), t.status);
        out.push(RemovalStep { trash, plan });
        i = i + 1;
    }
    out
}

/// The name a file gets in the Trash: its own name ("download" when it has
/// none), followed by a dash and `stamp` when that name is taken.
pub open spec fn trash_name(file_name: Option<String>, taken: bool, stamp: u64) -> Seq<char> {
    let base = match file_name {
        Some(n) => n@,
        None => "download"@,
    };
    let suffix = if taken {
        "-"@ + dec_nat(stamp as nat)
    } else {
        Seq::<char>::empty()
    };
    base + suffix
}

/// The name in the Trash of a file whose own name is `file_name`.
pub fn trash_entry_name(file_name: Option<String>, taken: bool, stamp: u64) -> (r: String)
    ensures
        r@ == trash_name(file_name, taken, stamp),
{
    let mut name = match file_name {
        Some(n) => n,
        None => owned("download"),
    };
    let ghost base = name@;
    if taken {
        push_str(&mut name, "-");
        push_decimal(&mut name, stamp);
        assert(name@ =~= base + ("-"@ + dec_nat(stamp as nat)));
    } else {
        assert(base + Seq::<char>::empty() =~= base);
    }
    name
}

/// The name in the Trash of the file at `path`, named by the path's final
/// component.
pub fn trash_entry_for(path: &str, taken: bool, stamp: u64) -> (r: String)
    ensures
        exists|n: Option<String>| file_name_of(path@, n) && r@ == #[trigger] trash_name(n, taken, stamp),
{
    let n = path_file_name(path);
    let ghost g = n;
    let r = trash_entry_name(n, taken, stamp);
    assert(file_name_of(path@, g) && r@ == trash_name(g, taken, stamp));
    r
}

/// The confirmation message for removing `tasks`: the task's name, or how
/// many are selected.
pub fn remove_message(tasks: &Vec<Task>) -> (r: String)
    ensures
        r@ == if tasks@.len() == 1 {
            tasks@[0].name@
        } else {
            dec_nat(tasks@.len()) + " tasks selected"@
        },
{
    if tasks.len() == 1 {
        tasks[0].name.clone()
    } else {
        let mut s = String::new();
        push_decimal(&mut s, tasks.len() as u64);
        push_str(&mut s, " tasks selected");
        s
    }
}

/// Title and hint of the empty task list.
pub fn empty_state(query_active: bool, filter: crate::state::TaskFilter) -> (r: (&'static str, &'static str))
    ensures
        (r.0@, r.1@) == if query_active {
            ("No matching tasks"@, "Try a different search"@)
        } else if filter != crate::state::TaskFilter::All {
            ("No tasks match this filter"@, "Switch back to All Downloads"@)
        } else {
            ("No downloads yet"@, "Press + to add one"@)
        },
{
    if query_active {
        ("No matching tasks", "Try a different search")
    } else if filter != crate::state::TaskFilter::All {
        ("No tasks match this filter", "Switch back to All Downloads")
    } else {
        ("No downloads yet", "Press + to add one")
    }
}

/// "shown/total" next to the page title.
pub fn shown_of_total(shown: usize, total: usize) -> (r: String)
    ensures
        r@ == dec_nat(shown as nat) + "/"@ + dec_nat(total as nat),
{
    let mut s = String::new();
    push_decimal(&mut s, shown as u64);
    push_str(&mut s, "/");
    push_decimal(&mut s, total as u64);
    s
}

/// "N selected" on the selection bar.
pub fn selection_caption(n: usize) -> (r: String)
    ensures
        r@ == dec_nat(n as nat) + " selected"@,
{
    let mut s = String::new();
    push_decimal(&mut s, n as u64);
    push_str(&mut s, " selected");
    s
}

/// The status bar's task counts.
pub fn status_summary(active: usize, completed: usize, error: usize) -> (r: String)
    ensures
        r@ == "Active "@ + dec_nat(active as nat) + " \u{b7} Completed "@ + dec_nat(completed as nat)
            + " \u{b7} Error "@ + dec_nat(error as nat),
{
    let mut s = owned("Active ");
    push_decimal(&mut s, active as u64);
    push_str(&mut s, " \u{b7} Completed ");
    push_decimal(&mut s, completed as u64);
    push_str(&mut s, " \u{b7} Error ");
    push_decimal(&mut s, error as u64);
    s
}

/// The status bar's engine badge: dot colour and label.
pub fn engine_badge(engine: EngineStatus) -> (r: (u32, &'static str))
    ensures
        r.0 == match engine {
            EngineStatus::Starting => StatusColors::BLUE_500,
            EngineStatus::Ready => StatusColors::GREEN_500,
            EngineStatus::Offline => StatusColors::RED_500,
        },
        r.1@ == match engine {
            EngineStatus::Starting => "Engine starting"@,
            EngineStatus::Ready => "Engine ready"@,
            EngineStatus::Offline => "Engine offline"@,
        },
{
    match engine {
        EngineStatus::Starting => (StatusColors::BLUE_500, "Engine starting"),
        EngineStatus::Ready => (StatusColors::GREEN_500, "Engine ready"),
        EngineStatus::Offline => (StatusColors::RED_500, "Engine offline"),
    }
}

} // verus!
