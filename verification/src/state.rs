//! Application state shared by the views, and the decisions of the poll loop.

use std::collections::VecDeque;
use vstd::prelude::*;

use crate::activity::{unix_time_secs, ActivityLog};
use crate::calendar::{trunc_div, trunc_rem};
use crate::client::{save_session_plan, shutdown_plan, unpause_all_plan, RpcPlan};
use crate::config::AppConfig;
use vstd::string::StrSliceExecFns;
use crate::text::{
    contains_str, dec_nat, has_substring, lowercase, push_char, push_decimal, to_lowercase, trim,
    trimmed,
};
use crate::pages::Selection;
use crate::types::{GlobalStat, Task, TaskStatus};

verus! {

/// Number of speed samples kept for the dashboard charts.
pub const HISTORY_LEN: usize = 60;

/// Number of task events kept for the notifications page.
pub const MAX_EVENTS: usize = 100;

/// Which task collection the Downloads page shows.
#[derive(Debug, Clone, Copy, PartialEq, Eq, Structural)]
pub enum TaskFilter {
    All,
    Downloading,
    Waiting,
    Completed,
    Stopped,
}

pub open spec fn filter_label(f: TaskFilter) -> Seq<char> {
    match f {
        TaskFilter::All => "All Downloads"@,
        TaskFilter::Downloading => "Downloading"@,
        TaskFilter::Waiting => "Waiting"@,
        TaskFilter::Completed => "Completed"@,
        TaskFilter::Stopped => "Stopped"@,
    }
}

pub open spec fn filter_matches(f: TaskFilter, s: TaskStatus) -> bool {
    match f {
        TaskFilter::All => s != TaskStatus::Removed,
        TaskFilter::Downloading => s == TaskStatus::Active || s == TaskStatus::Seeding,
        TaskFilter::Waiting => s == TaskStatus::Waiting || s == TaskStatus::Paused,
        TaskFilter::Completed => s == TaskStatus::Complete,
        TaskFilter::Stopped => s == TaskStatus::Error || s == TaskStatus::Removed,
    }
}

impl TaskFilter {
    pub fn label(&self) -> (r: &'static str)
        ensures
            r@ == filter_label(*self),
    {
        match self {
            TaskFilter::All => "All Downloads",
            TaskFilter::Downloading => "Downloading",
            TaskFilter::Waiting => "Waiting",
            TaskFilter::Completed => "Completed",
            TaskFilter::Stopped => "Stopped",
        }
    }

    pub fn matches(&self, task: &Task) -> (r: bool)
        ensures
            r == filter_matches(*self, task.status),
    {
        match self {
            TaskFilter::All => task.status != TaskStatus::Removed,
            TaskFilter::Downloading => {
                matches!(task.status, TaskStatus::Active | TaskStatus::Seeding)
            },
            TaskFilter::Waiting => {
                matches!(task.status, TaskStatus::Waiting | TaskStatus::Paused)
            },
            TaskFilter::Completed => task.status == TaskStatus::Complete,
            TaskFilter::Stopped => {
                matches!(task.status, TaskStatus::Error | TaskStatus::Removed)
            },
        }
    }
}

/// Every status is shown by exactly one of the four specific filters, and
/// "All Downloads" shows every status but Removed.
pub proof fn lemma_filters_partition(s: TaskStatus)
    ensures
        filter_matches(TaskFilter::All, s) <==> s != TaskStatus::Removed,
        (filter_matches(TaskFilter::Downloading, s) as int) + (filter_matches(TaskFilter::Waiting, s)
            as int) + (filter_matches(TaskFilter::Completed, s) as int) + (filter_matches(
            TaskFilter::Stopped,
            s,
        ) as int) == 1,
{
}

#[derive(Debug, Clone, Copy, PartialEq, Eq, Structural)]
pub enum EngineStatus {
    Starting,
    Ready,
    Offline,
}

#[derive(Debug, Clone, Copy, PartialEq, Eq, Structural)]
pub enum Route {
    Dashboard,
    Downloads,
    Trackers,
    Plugins,
    Notifications,
    Settings,
}

/// A finished or failed download, as listed on the notifications page.
pub struct TaskEvent {
    pub title: &'static str,
    pub name: String,
    pub ok: bool,
    pub time: String,
}

/// A system notification to show.
pub struct Notice {
    pub title: &'static str,
    pub body: String,
}

/// What the poll loop has to do after a successful poll.
pub struct PollActions {
    /// Persist the activity log now.
    pub save_activity: bool,
    /// The engine just became reachable: ask it for its version.
    pub fetch_version: bool,
    /// System notifications to show, in order.
    pub notices: Vec<Notice>,
}

pub open spec fn running(s: TaskStatus) -> bool {
    s == TaskStatus::Active || s == TaskStatus::Waiting || s == TaskStatus::Seeding
}

/// Index of the first task with the given gid, or -1.
pub open spec fn gid_position(tasks: Seq<Task>, gid: Seq<char>) -> int
    decreases tasks.len(),
{
    if tasks.len() == 0 {
        -1
    } else {
        let p = gid_position(tasks.drop_last(), gid);
        if p >= 0 {
            p
        } else if tasks.last().gid@ == gid {
            tasks.len() - 1
        } else {
            -1
        }
    }
}

/// How the task `t` just ended, judged against the previous poll: it was
/// running and is now complete (`Some(true)`) or failed (`Some(false)`).
pub open spec fn outcome(old_tasks: Seq<Task>, t: Task) -> Option<bool> {
    let i = gid_position(old_tasks, t.gid@);
    if i >= 0 && running(old_tasks[i].status) {
        if t.status == TaskStatus::Complete {
            Some(true)
        } else if t.status == TaskStatus::Error {
            Some(false)
        } else {
            None
        }
    } else {
        None
    }
}

/// The downloads of `new_tasks` that just ended, in order: (succeeded, name).
pub open spec fn finished(old_tasks: Seq<Task>, new_tasks: Seq<Task>) -> Seq<(bool, Seq<char>)>
    decreases new_tasks.len(),
{
    if new_tasks.len() == 0 {
        Seq::empty()
    } else {
        let p = finished(old_tasks, new_tasks.drop_last());
        match outcome(old_tasks, new_tasks.last()) {
            Some(ok) => p.push((ok, new_tasks.last().name@)),
            None => p,
        }
    }
}

pub open spec fn event_title(ok: bool) -> Seq<char> {
    if ok {
        "Download complete"@
    } else {
        "Download failed"@
    }
}

/// The notifications the settings ask for, among the finished downloads.
pub open spec fn notices_for(f: Seq<(bool, Seq<char>)>, notify_on_complete: bool, notify_on_error: bool) -> Seq<
    (Seq<char>, Seq<char>),
>
    decreases f.len(),
{
    if f.len() == 0 {
        Seq::empty()
    } else {
        let p = notices_for(f.drop_last(), notify_on_complete, notify_on_error);
        let (ok, name) = f.last();
        if (ok && notify_on_complete) || (!ok && notify_on_error) {
            p.push((event_title(ok), name))
        } else {
            p
        }
    }
}

/// A clock value printed "HH:MM" as `{:02}:{:02}` prints the hour of the day
/// and the minute of the hour (Rust remainders, so negative before the epoch).
pub open spec fn pad2(n: int) -> Seq<char> {
    if n < 0 {
        seq!['-'] + dec_nat((-n) as nat)
    } else if n < 10 {
        seq!['0'] + dec_nat(n as nat)
    } else {
        dec_nat(n as nat)
    }
}

pub open spec fn hhmm_text(secs: i64) -> Seq<char> {
    pad2(trunc_rem(trunc_div(secs as int, 3600), 24)) + seq![':'] + pad2(
        trunc_rem(trunc_div(secs as int, 60), 60),
    )
}

/// At and after the epoch the clock text is five chars "HH:MM", the hour
/// below 24 and the minute below 60.
pub proof fn lemma_clock_text_shape(secs: i64)
    requires
        secs >= 0,
    ensures
        hhmm_text(secs).len() == 5,
        hhmm_text(secs)[2] == ':',
        trunc_rem(trunc_div(secs as int, 3600), 24) < 24,
        trunc_rem(trunc_div(secs as int, 60), 60) < 60,
{
    let h = trunc_rem(trunc_div(secs as int, 3600), 24);
    let m = trunc_rem(trunc_div(secs as int, 60), 60);
    assert(0 <= h < 24);
    assert(0 <= m < 60);
    assert(pad2(h).len() == 2) by {
        if h >= 10 {
            assert(dec_nat((h / 10) as nat) == seq![crate::text::digit_char((h / 10) as nat)]);
        }
    }
    assert(pad2(m).len() == 2) by {
        if m >= 10 {
            assert(dec_nat((m / 10) as nat) == seq![crate::text::digit_char((m / 10) as nat)]);
        }
    }
}

pub open spec fn is_clock_text(t: Seq<char>) -> bool {
    exists|secs: i64| t == hhmm_text(secs)
}

/// `event` records the finished download `f`.
pub open spec fn records(event: TaskEvent, f: (bool, Seq<char>)) -> bool {
    &&& event.ok == f.0
    &&& event.name@ == f.1
    &&& event.title@ == event_title(f.0)
    &&& is_clock_text(event.time@)
}

/// The event list after the finished downloads `f` were added newest first
/// and the list was cut to its first 100 entries.
pub open spec fn events_after(new_events: Seq<TaskEvent>, old_events: Seq<TaskEvent>, f: Seq<(bool, Seq<char>)>) -> bool {
    let n = f.len();
    &&& new_events.len() == if n + old_events.len() > MAX_EVENTS {
        MAX_EVENTS as int
    } else {
        (n + old_events.len()) as int
    }
    &&& forall|i: int|
        0 <= i < new_events.len() ==> if i < n {
            records(#[trigger] new_events[i], f[n - 1 - i])
        } else {
            new_events[i] == old_events[i - n]
        }
}

/// The first task with gid `g` is found where it stands.
proof fn lemma_gid_position_first(tasks: Seq<Task>, g: Seq<char>, i: int)
    requires
        0 <= i < tasks.len(),
        tasks[i].gid@ == g,
        forall|k: int| 0 <= k < i ==> (#[trigger] tasks[k]).gid@ != g,
    ensures
        gid_position(tasks, g) == i,
    decreases tasks.len(),
{
    let p = tasks.drop_last();
    if i < tasks.len() - 1 {
        assert forall|k: int| 0 <= k < i implies (#[trigger] p[k]).gid@ != g by {
            assert(p[k] == tasks[k]);
        }
        assert(p[i] == tasks[i]);
        lemma_gid_position_first(p, g, i);
    } else {
        lemma_gid_position_absent(p, g);
    }
}

/// No task has gid `g`: none is found.
proof fn lemma_gid_position_absent(tasks: Seq<Task>, g: Seq<char>)
    requires
        forall|k: int| 0 <= k < tasks.len() ==> (#[trigger] tasks[k]).gid@ != g,
    ensures
        gid_position(tasks, g) == -1,
    decreases tasks.len(),
{
    if tasks.len() > 0 {
        let p = tasks.drop_last();
        assert forall|k: int| 0 <= k < p.len() implies (#[trigger] p[k]).gid@ != g by {
            assert(p[k] == tasks[k]);
        }
        lemma_gid_position_absent(p, g);
        assert(tasks.last() == tasks[tasks.len() - 1]);
    }
}

/// A task that just ended is listed among the finished downloads, which are
/// never more than the tasks.
proof fn lemma_finished_lists(old_tasks: Seq<Task>, new_tasks: Seq<Task>, j: int)
    requires
        0 <= j < new_tasks.len(),
        outcome(old_tasks, new_tasks[j]) is Some,
    ensures
        finished(old_tasks, new_tasks).len() <= new_tasks.len(),
        exists|p: int|
            0 <= p < finished(old_tasks, new_tasks).len() && #[trigger] finished(old_tasks, new_tasks)[p] == (
                outcome(old_tasks, new_tasks[j]).unwrap(),
                new_tasks[j].name@,
            ),
    decreases new_tasks.len(),
{
    let q = new_tasks.drop_last();
    lemma_finished_len(old_tasks, q);
    let f = finished(old_tasks, new_tasks);
    let fq = finished(old_tasks, q);
    if j < new_tasks.len() - 1 {
        assert(q[j] == new_tasks[j]);
        lemma_finished_lists(old_tasks, q, j);
        let p = choose|p: int| 0 <= p < fq.len() && #[trigger] fq[p] == (outcome(old_tasks, q[j]).unwrap(), q[j].name@);
        assert(f[p] == fq[p]);
    } else {
        assert(new_tasks.last() == new_tasks[j]);
        assert(f[fq.len() as int] == (outcome(old_tasks, new_tasks[j]).unwrap(), new_tasks[j].name@));
    }
}

proof fn lemma_finished_len(old_tasks: Seq<Task>, new_tasks: Seq<Task>)
    ensures
        finished(old_tasks, new_tasks).len() <= new_tasks.len(),
    decreases new_tasks.len(),
{
    if new_tasks.len() > 0 {
        lemma_finished_len(old_tasks, new_tasks.drop_last());
    }
}

/// A finished download whose kind of notice is on is among the notices.
proof fn lemma_notices_list(f: Seq<(bool, Seq<char>)>, on_complete: bool, on_error: bool, p: int)
    requires
        0 <= p < f.len(),
        (f[p].0 && on_complete) || (!f[p].0 && on_error),
    ensures
        notices_for(f, on_complete, on_error).contains((event_title(f[p].0), f[p].1)),
    decreases f.len(),
{
    let q = f.drop_last();
    let nq = notices_for(q, on_complete, on_error);
    let nf = notices_for(f, on_complete, on_error);
    if p < f.len() - 1 {
        assert(q[p] == f[p]);
        lemma_notices_list(q, on_complete, on_error, p);
        let k = choose|k: int| 0 <= k < nq.len() && nq[k] == (event_title(f[p].0), f[p].1);
        assert(nf[k] == nq[k]);
    } else {
        assert(f.last() == f[p]);
        assert(nf[nq.len() as int] == (event_title(f[p].0), f[p].1));
    }
}

/// A download that was active, waiting or seeding at the last poll and is
/// now complete (or failed) is reported: it is listed as finished with its
/// name, a "Download complete" (or "Download failed") notice for it is sent
/// when that kind of notice is on, and (with at most 100 tasks, so that no
/// report falls off the list) the event list gains such an entry for it.
pub proof fn lemma_end_of_running_task_reported(
    old_tasks: Seq<Task>,
    new_tasks: Seq<Task>,
    i: int,
    j: int,
    notify_on_complete: bool,
    notify_on_error: bool,
    old_events: Seq<TaskEvent>,
    new_events: Seq<TaskEvent>,
)
    requires
        0 <= i < old_tasks.len(),
        0 <= j < new_tasks.len(),
        old_tasks[i].gid@ == new_tasks[j].gid@,
        forall|k: int| 0 <= k < i ==> (#[trigger] old_tasks[k]).gid@ != new_tasks[j].gid@,
        old_tasks[i].status == TaskStatus::Active || old_tasks[i].status == TaskStatus::Waiting
            || old_tasks[i].status == TaskStatus::Seeding,
        new_tasks[j].status == TaskStatus::Complete || new_tasks[j].status == TaskStatus::Error,
    ensures
        finished(old_tasks, new_tasks).contains(
            (new_tasks[j].status == TaskStatus::Complete, new_tasks[j].name@),
        ),
        new_tasks[j].status == TaskStatus::Complete && notify_on_complete ==> notices_for(
            finished(old_tasks, new_tasks),
            notify_on_complete,
            notify_on_error,
        ).contains(("Download complete"@, new_tasks[j].name@)),
        new_tasks[j].status == TaskStatus::Error && notify_on_error ==> notices_for(
            finished(old_tasks, new_tasks),
            notify_on_complete,
            notify_on_error,
        ).contains(("Download failed"@, new_tasks[j].name@)),
        events_after(new_events, old_events, finished(old_tasks, new_tasks)) && new_tasks.len() <= MAX_EVENTS
            ==> exists|k: int|
            0 <= k < new_events.len() && (#[trigger] new_events[k]).name@ == new_tasks[j].name@
                && new_events[k].title@ == (if new_tasks[j].status == TaskStatus::Complete {
                "Download complete"@
            } else {
                "Download failed"@
            }) && new_events[k].ok == (new_tasks[j].status == TaskStatus::Complete),
{
    lemma_gid_position_first(old_tasks, new_tasks[j].gid@, i);
    let ok = new_tasks[j].status == TaskStatus::Complete;
    assert(outcome(old_tasks, new_tasks[j]) == Some(ok));
    lemma_finished_lists(old_tasks, new_tasks, j);
    let f = finished(old_tasks, new_tasks);
    let p = choose|p: int| 0 <= p < f.len() && #[trigger] f[p] == (ok, new_tasks[j].name@);
    if (ok && notify_on_complete) || (!ok && notify_on_error) {
        lemma_notices_list(f, notify_on_complete, notify_on_error, p);
    }
    if events_after(new_events, old_events, f) && new_tasks.len() <= MAX_EVENTS {
        let k = f.len() - 1 - p;
        assert(records(new_events[k], f[f.len() - 1 - k]));
    }
}

/// The task found for a gid has that gid.
proof fn lemma_gid_position_found(tasks: Seq<Task>, g: Seq<char>)
    ensures
        -1 <= gid_position(tasks, g) < tasks.len(),
        gid_position(tasks, g) >= 0 ==> tasks[gid_position(tasks, g)].gid@ == g,
    decreases tasks.len(),
{
    if tasks.len() > 0 {
        let p = tasks.drop_last();
        lemma_gid_position_found(p, g);
        if gid_position(p, g) >= 0 {
            assert(tasks[gid_position(p, g)] == p[gid_position(p, g)]);
        }
    }
}

/// Only downloads that just ended are reported: each finished entry is a
/// task of the new poll, now complete (a success) or failed (a failure),
/// whose gid was at the last poll a task that was active, waiting or
/// seeding.
pub proof fn lemma_only_ended_tasks_reported(old_tasks: Seq<Task>, new_tasks: Seq<Task>)
    ensures
        forall|p: int|
            0 <= p < finished(old_tasks, new_tasks).len() ==> exists|j: int, i: int|
                #![trigger new_tasks[j], old_tasks[i]]
                0 <= j < new_tasks.len() && 0 <= i < old_tasks.len()
                    && (#[trigger] finished(old_tasks, new_tasks)[p]).1 == new_tasks[j].name@
                    && new_tasks[j].status == (if finished(old_tasks, new_tasks)[p].0 {
                    TaskStatus::Complete
                } else {
                    TaskStatus::Error
                }) && old_tasks[i].gid@ == new_tasks[j].gid@ && (old_tasks[i].status == TaskStatus::Active
                    || old_tasks[i].status == TaskStatus::Waiting || old_tasks[i].status
                    == TaskStatus::Seeding),
    decreases new_tasks.len(),
{
    if new_tasks.len() > 0 {
        let q = new_tasks.drop_last();
        lemma_only_ended_tasks_reported(old_tasks, q);
        let f = finished(old_tasks, new_tasks);
        let fq = finished(old_tasks, q);
        let n = new_tasks.len() - 1;
        assert(new_tasks.last() == new_tasks[n]);
        assert forall|p: int| 0 <= p < f.len() implies exists|j: int, i: int|
            #![trigger new_tasks[j], old_tasks[i]]
            0 <= j < new_tasks.len() && 0 <= i < old_tasks.len() && (#[trigger] f[p]).1 == new_tasks[j].name@
                && new_tasks[j].status == (if f[p].0 {
                TaskStatus::Complete
            } else {
                TaskStatus::Error
            }) && old_tasks[i].gid@ == new_tasks[j].gid@ && (old_tasks[i].status == TaskStatus::Active
                || old_tasks[i].status == TaskStatus::Waiting || old_tasks[i].status == TaskStatus::Seeding) by {
            if p < fq.len() {
                assert(f[p] == fq[p]);
                let (j, i) = choose|j: int, i: int|
                    #![trigger q[j], old_tasks[i]]
                    0 <= j < q.len() && 0 <= i < old_tasks.len() && fq[p].1 == q[j].name@ && q[j].status == (
                    if fq[p].0 {
                        TaskStatus::Complete
                    } else {
                        TaskStatus::Error
                    }) && old_tasks[i].gid@ == q[j].gid@ && (old_tasks[i].status == TaskStatus::Active
                        || old_tasks[i].status == TaskStatus::Waiting || old_tasks[i].status
                        == TaskStatus::Seeding);
                assert(q[j] == new_tasks[j]);
            } else {
                let i = gid_position(old_tasks, new_tasks[n].gid@);
                lemma_gid_position_found(old_tasks, new_tasks[n].gid@);
                assert(old_tasks[i].gid@ == new_tasks[n].gid@);
                assert(f[p].1 == new_tasks[n].name@);
            }
        }
    }
}

fn pad2_push(s: &mut String, n: i64)
    requires
        -100 < n < 100,
    ensures
        final(s)@ == old(s)@ + pad2(n as int),
{
    if n < 0 {
        push_char(s, '-');
        push_decimal(s, (-n) as u64);
    } else if n < 10 {
        push_char(s, '0');
        push_decimal(s, n as u64);
    } else {
        push_decimal(s, n as u64);
    }
    assert(final(s)@ =~= old(s)@ + pad2(n as int));
}

/// "HH:MM" of `secs` seconds after the epoch.
pub fn hhmm(secs: i64) -> (r: String)
    ensures
        r@ == hhmm_text(secs),
{
    let mut s = String::new();
    pad2_push(&mut s, (secs / 3600) % 24);
    push_char(&mut s, ':');
    pad2_push(&mut s, (secs / 60) % 60);
    assert(s@ =~= hhmm_text(secs));
    s
}

/// The local time of day, "HH:MM", from the clock shifted by `utc_offset_secs`.
pub fn now_hhmm(utc_offset_secs: i64) -> (r: String)
    ensures
        is_clock_text(r@),
{
    let secs = (unix_time_secs() as i64).wrapping_add(utc_offset_secs);
    hhmm(secs)
}

/// Adds one event per download of `new_tasks` that just finished (newest
/// first), keeps the 100 latest, and returns the system notifications that
/// the settings ask for.
fn notify_transitions(
    events: &mut Vec<TaskEvent>,
    old_tasks: &Vec<Task>,
    new_tasks: &Vec<Task>,
    config: &AppConfig,
    utc_offset_secs: i64,
) -> (notices: Vec<Notice>)
    ensures
        events_after(final(events)@, old(events)@, finished(old_tasks@, new_tasks@)),
        notices@.len() == notices_for(
            finished(old_tasks@, new_tasks@),
            config.notify_on_complete,
            config.notify_on_error,
        ).len(),
        forall|i: int|
            0 <= i < notices@.len() ==> (#[trigger] notices@[i]).title@ == notices_for(
                finished(old_tasks@, new_tasks@),
                config.notify_on_complete,
                config.notify_on_error,
            )[i].0 && notices@[i].body@ == notices_for(
                finished(old_tasks@, new_tasks@),
                config.notify_on_complete,
                config.notify_on_error,
            )[i].1,
{
    let ghost f0 = finished(old_tasks@, new_tasks@);
    let mut fresh: Vec<TaskEvent> = Vec::new();
    let mut notices: Vec<Notice> = Vec::new();
    let mut k: usize = 0;
    while k < new_tasks.len()
        invariant
            k <= new_tasks.len(),
            fresh@.len() == finished(old_tasks@, new_tasks@.take(k as int)).len(),
            forall|i: int|
                0 <= i < fresh@.len() ==> records(
                    #[trigger] fresh@[i],
                    finished(old_tasks@, new_tasks@.take(k as int))[i],
                ),
            notices@.len() == notices_for(
                finished(old_tasks@, new_tasks@.take(k as int)),
                config.notify_on_complete,
                config.notify_on_error,
            ).len(),
            forall|i: int|
                0 <= i < notices@.len() ==> (#[trigger] notices@[i]).title@ == notices_for(
                    finished(old_tasks@, new_tasks@.take(k as int)),
                    config.notify_on_complete,
                    config.notify_on_error,
                )[i].0 && notices@[i].body@ == notices_for(
                    finished(old_tasks@, new_tasks@.take(k as int)),
                    config.notify_on_complete,
                    config.notify_on_error,
                )[i].1,
        decreases new_tasks.len() - k,
    {
        let task = &new_tasks[k];
        let ghost prefix = new_tasks@.take(k as int);
        proof {
            assert(new_tasks@.take(k + 1).drop_last() =~= prefix);
            assert(new_tasks@.take(k + 1).last() == new_tasks@[k as int]);
        }
        let pos = gid_find(old_tasks, &task.gid);
        let ended: Option<bool> = match pos {
            Some(j) => {
                let was_running = matches!(
                    old_tasks[j].status,
                    TaskStatus::Active | TaskStatus::Waiting | TaskStatus::Seeding
                );
                if !was_running {
                    None
                } else if task.status == TaskStatus::Complete {
                    Some(true)
                } else if task.status == TaskStatus::Error {
                    Some(false)
                } else {
                    None
                }
            },
            None => None,
        };
        assert(ended == outcome(old_tasks@, new_tasks@[k as int]));
        match ended {
            Some(ok) => {
                let title: &'static str = if ok {
                    "Download complete"
                } else {
                    "Download failed"
                };
                fresh.push(TaskEvent { title, name: task.name.clone(), ok, time: now_hhmm(utc_offset_secs) });
                if (ok && config.notify_on_complete) || (!ok && config.notify_on_error) {
                    notices.push(Notice { title, body: task.name.clone() });
                }
            },
            None => {},
        }
        proof {
            let fk = finished(old_tasks@, prefix);
            let fk1 = finished(old_tasks@, new_tasks@.take(k + 1));
            if ended is Some {
                assert(fk1.drop_last() =~= fk);
            }
        }
        k = k + 1;
    }
    proof {
        assert(new_tasks@.take(new_tasks.len() as int) =~= new_tasks@);
    }
    let ghost old_events = events@;
    let n = fresh.len();
    let mut i: usize = 0;
    let mut fresh = fresh;
    while i < n
        invariant
            i <= n,
            fresh@.len() == n - i,
            n == f0.len(),
            forall|j: int| 0 <= j < fresh@.len() ==> records(#[trigger] fresh@[j], f0[i + j]),
            events@.len() == i + old_events.len(),
            forall|j: int|
                0 <= j < events@.len() ==> if j < i {
                    records(#[trigger] events@[j], f0[i - 1 - j])
                } else {
                    events@[j] == old_events[j - i]
                },
        decreases n - i,
    {
        let e = fresh.remove(0);
        events.insert(0, e);
        i = i + 1;
    }
    events.truncate(MAX_EVENTS);
    notices
}

/// Position of the first task with the given gid.
fn gid_find(tasks: &Vec<Task>, gid: &String) -> (r: Option<usize>)
    ensures
        match r {
            Some(j) => j == gid_position(tasks@, gid@) && j < tasks@.len(),
            None => gid_position(tasks@, gid@) == -1,
        },
{
    let mut j: usize = 0;
    while j < tasks.len()
        invariant
            j <= tasks.len(),
            gid_position(tasks@.take(j as int), gid@) == -1,
        decreases tasks.len() - j,
    {
        assert(tasks@.take(j + 1).drop_last() =~= tasks@.take(j as int));
        if tasks[j].gid == *gid {
            proof {
                lemma_gid_position_prefix(tasks@, gid@, j as int + 1);
            }
            return Some(j);
        }
        j = j + 1;
    }
    assert(tasks@.take(tasks.len() as int) =~= tasks@);
    None
}

proof fn lemma_gid_position_prefix(s: Seq<Task>, gid: Seq<char>, n: int)
    requires
        0 <= n <= s.len(),
        gid_position(s.take(n), gid) >= 0,
    ensures
        gid_position(s, gid) == gid_position(s.take(n), gid),
    decreases s.len(),
{
    if n < s.len() {
        assert(s.drop_last().take(n) =~= s.take(n));
        lemma_gid_position_prefix(s.drop_last(), gid, n);
    } else {
        assert(s.take(n) =~= s);
    }
}

/// Whether the task `t` is shown for filter `f` and the lower-cased search
/// query `q`.
pub open spec fn visible(t: Task, f: TaskFilter, q: Seq<char>) -> bool {
    filter_matches(f, t.status) && (q.len() == 0 || has_substring(lowercase(t.name@), q))
}

/// The tasks shown, in order.
pub open spec fn visible_tasks(tasks: Seq<Task>, f: TaskFilter, q: Seq<char>) -> Seq<Task>
    decreases tasks.len(),
{
    if tasks.len() == 0 {
        Seq::empty()
    } else {
        let p = visible_tasks(tasks.drop_last(), f, q);
        if visible(tasks.last(), f, q) {
            p.push(tasks.last())
        } else {
            p
        }
    }
}

/// Number of tasks whose status satisfies `p`.
pub open spec fn count_status(tasks: Seq<Task>, p: spec_fn(TaskStatus) -> bool) -> nat
    decreases tasks.len(),
{
    if tasks.len() == 0 {
        0
    } else {
        count_status(tasks.drop_last(), p) + if p(tasks.last().status) {
            1nat
        } else {
            0nat
        }
    }
}

pub open spec fn is_active(s: TaskStatus) -> bool {
    s == TaskStatus::Active || s == TaskStatus::Seeding
}

pub open spec fn is_complete(s: TaskStatus) -> bool {
    s == TaskStatus::Complete
}

pub open spec fn is_error(s: TaskStatus) -> bool {
    s == TaskStatus::Error
}

/// `h` with `x` appended, keeping only its last 60 samples.
pub open spec fn history_push(h: Seq<u64>, x: u64) -> Seq<u64> {
    let p = h.push(x);
    if p.len() > HISTORY_LEN {
        p.subrange(p.len() - HISTORY_LEN, p.len() as int)
    } else {
        p
    }
}

/// The speed history is a sliding window: it never grows beyond 60 samples,
/// the newest sample comes last, and a full window drops its oldest sample.
pub proof fn lemma_history_window(h: Seq<u64>, x: u64)
    ensures
        history_push(h, x).len() == if h.len() + 1 > HISTORY_LEN {
            HISTORY_LEN as int
        } else {
            h.len() + 1int
        },
        history_push(h, x).last() == x,
        h.len() == HISTORY_LEN ==> history_push(h, x) == h.drop_first().push(x),
        h.len() < HISTORY_LEN ==> history_push(h, x) == h.push(x),
{
    if h.len() == HISTORY_LEN {
        assert(history_push(h, x) =~= h.drop_first().push(x));
    }
}

/// A successful poll on full speed histories (as `on_poll_success` states
/// them) drops the oldest sample of each and appends the new speeds, so both
/// stay at 60 samples.
pub proof fn lemma_poll_histories(
    old_down: Seq<u64>,
    old_up: Seq<u64>,
    new_down: Seq<u64>,
    new_up: Seq<u64>,
    stat: GlobalStat,
)
    requires
        old_down.len() == HISTORY_LEN,
        old_up.len() == HISTORY_LEN,
        new_down == history_push(old_down, stat.download_speed),
        new_up == history_push(old_up, stat.upload_speed),
    ensures
        new_down == old_down.drop_first().push(stat.download_speed),
        new_up == old_up.drop_first().push(stat.upload_speed),
        new_down.len() == HISTORY_LEN,
        new_up.len() == HISTORY_LEN,
{
    lemma_history_window(old_down, stat.download_speed);
    lemma_history_window(old_up, stat.upload_speed);
}

pub struct AppState {
    pub config: AppConfig,
    pub tasks: Vec<Task>,
    pub stat: GlobalStat,
    pub engine_status: EngineStatus,
    pub engine_version: String,
    pub filter: TaskFilter,
    pub search_query: String,
    pub search_open: bool,
    /// The tasks selected on the Downloads page.
    pub selected: Selection,
    pub route: Route,
    pub activity: ActivityLog,
    pub events: Vec<TaskEvent>,
    /// Last 60 samples (1s apart) of global speeds, for the dashboard charts.
    pub down_history: VecDeque<u64>,
    pub up_history: VecDeque<u64>,
    /// An aria2 process of our own is running.
    pub daemon_running: bool,
}

fn zero_history() -> (h: VecDeque<u64>)
    ensures
        h@ == Seq::new(HISTORY_LEN as nat, |i: int| 0u64),
{
    let mut h: VecDeque<u64> = VecDeque::new();
    let mut i: usize = 0;
    while i < HISTORY_LEN
        invariant
            i <= HISTORY_LEN,
            h@ == Seq::new(i as nat, |j: int| 0u64),
        decreases HISTORY_LEN - i,
    {
        h.push_back(0);
        i = i + 1;
        assert(h@ =~= Seq::new(i as nat, |j: int| 0u64));
    }
    h
}

/// Appends a speed sample and drops the oldest beyond 60.
fn push_sample(h: &mut VecDeque<u64>, x: u64)
    ensures
        final(h)@ == history_push(old(h)@, x),
{
    h.push_back(x);
    proof {
        let p = old(h)@.push(x);
        assert(h@ =~= p.subrange(p.len() - h@.len(), p.len() as int));
    }
    while h.len() > HISTORY_LEN
        invariant
            ({
                let p = old(h)@.push(x);
                &&& h@.len() <= p.len()
                &&& h@.len() >= if p.len() > HISTORY_LEN {
                    HISTORY_LEN as int
                } else {
                    p.len() as int
                }
                &&& h@ == p.subrange(p.len() - h@.len(), p.len() as int)
            }),
        decreases h@.len(),
    {
        let ghost before = h@;
        h.pop_front();
        proof {
            let p = old(h)@.push(x);
            assert(h@ =~= p.subrange(p.len() - h@.len(), p.len() as int));
        }
    }
    proof {
        let p = old(h)@.push(x);
        if p.len() <= HISTORY_LEN {
            assert(h@ =~= p);
        } else {
            assert(h@.len() == HISTORY_LEN);
        }
    }
}

impl AppState {
    /// The state at startup: the engine is starting when a daemon of our own
    /// was launched and offline otherwise; no tasks, empty histories of 60
    /// zero samples, the Downloads page with all tasks shown.
    pub fn new(config: AppConfig, daemon_running: bool, activity: ActivityLog) -> (st: AppState)
        ensures
            st.config == config,
            st.tasks@.len() == 0,
            st.engine_status == if daemon_running {
                EngineStatus::Starting
            } else {
                EngineStatus::Offline
            },
            st.engine_version@.len() == 0,
            st.filter == TaskFilter::All,
            st.search_query@.len() == 0,
            !st.search_open,
            st.route == Route::Downloads,
            st.selected.wf(),
            st.selected.set() == Set::<Seq<char>>::empty(),
            st.stat == (GlobalStat {
                download_speed: 0,
                upload_speed: 0,
                num_active: 0,
                num_waiting: 0,
                num_stopped: 0,
            }),
            st.activity == activity,
            st.events@.len() == 0,
            st.down_history@ == Seq::new(HISTORY_LEN as nat, |i: int| 0u64),
            st.up_history@ == Seq::new(HISTORY_LEN as nat, |i: int| 0u64),
            st.daemon_running == daemon_running,
    {
        AppState {
            config,
            tasks: Vec::new(),
            stat: GlobalStat::default(),
            engine_status: if daemon_running {
                EngineStatus::Starting
            } else {
                EngineStatus::Offline
            },
            engine_version: String::new(),
            filter: TaskFilter::All,
            search_query: String::new(),
            search_open: false,
            selected: Selection::new(),
            route: Route::Downloads,
            activity,
            events: Vec::new(),
            down_history: zero_history(),
            up_history: zero_history(),
            daemon_running,
        }
    }

    /// The tasks the Downloads page shows: those the filter admits whose
    /// lower-cased name contains the trimmed, lower-cased search query.
    pub fn filtered_tasks(&self) -> (r: Vec<&Task>)
        ensures
            r@.map_values(|t: &Task| *t) == visible_tasks(
                self.tasks@,
                self.filter,
                lowercase(trimmed(self.search_query@)),
            ),
    {
        let trimmed_query = trim(self.search_query.as_str());
        let query = to_lowercase(trimmed_query.as_str());
        let ghost q = lowercase(trimmed(self.search_query@));
        let empty = query.as_str().unicode_len() == 0;
        let mut out: Vec<&Task> = Vec::new();
        let mut i: usize = 0;
        while i < self.tasks.len()
            invariant
                i <= self.tasks.len(),
                query@ == q,
                empty == (q.len() == 0),
                out@.map_values(|t: &Task| *t) == visible_tasks(self.tasks@.take(i as int), self.filter, q),
            decreases self.tasks.len() - i,
        {
            let t = &self.tasks[i];
            proof {
                assert(self.tasks@.take(i + 1).drop_last() =~= self.tasks@.take(i as int));
            }
            let shown = self.filter.matches(t) && (empty || contains_str(
                to_lowercase(t.name.as_str()).as_str(),
                query.as_str(),
            ));
            if shown {
                out.push(t);
            }
            proof {
                assert(out@.map_values(|t: &Task| *t) =~= visible_tasks(self.tasks@.take(i + 1), self.filter, q));
            }
            i = i + 1;
        }
        assert(self.tasks@.take(self.tasks.len() as int) =~= self.tasks@);
        out
    }

    /// The header's "shown/total": the tasks the page shows, and all tasks
    /// but removed ones.
    pub fn header_counts(&self) -> (r: (usize, usize))
        ensures
            r.0 == visible_tasks(self.tasks@, self.filter, lowercase(trimmed(self.search_query@))).len(),
            r.1 == count_status(self.tasks@, |s: TaskStatus| s != TaskStatus::Removed),
    {
        let shown = self.filtered_tasks().len();
        let mut total: usize = 0;
        let mut i: usize = 0;
        while i < self.tasks.len()
            invariant
                i <= self.tasks.len(),
                total == count_status(self.tasks@.take(i as int), |s: TaskStatus| s != TaskStatus::Removed),
                total <= i,
            decreases self.tasks.len() - i,
        {
            proof {
                assert(self.tasks@.take(i + 1).drop_last() =~= self.tasks@.take(i as int));
            }
            if self.tasks[i].status != TaskStatus::Removed {
                total = total + 1;
            }
            i = i + 1;
        }
        assert(self.tasks@.take(self.tasks.len() as int) =~= self.tasks@);
        proof {
            assert(shown == visible_tasks(self.tasks@, self.filter, lowercase(trimmed(self.search_query@))).len());
        }
        (shown, total)
    }

    /// Picking a filter shows its tasks and clears the selection.
    pub fn set_filter(&mut self, filter: TaskFilter)
        ensures
            final(self).filter == filter,
            final(self).selected.wf(),
            final(self).selected.set() == Set::<Seq<char>>::empty(),
            final(self).tasks == old(self).tasks,
            final(self).search_query == old(self).search_query,
    {
        self.filter = filter;
        self.selected.clear();
    }

    /// The search button: opens the search field, or closes it and clears
    /// the query.
    pub fn toggle_search(&mut self)
        ensures
            final(self).search_open == !old(self).search_open,
            final(self).search_query@ == if old(self).search_open {
                Seq::<char>::empty()
            } else {
                old(self).search_query@
            },
            final(self).tasks == old(self).tasks,
            final(self).filter == old(self).filter,
    {
        self.search_open = !self.search_open;
        if !self.search_open {
            self.search_query = String::new();
        }
    }

    /// (active, completed, error) task counts; seeding counts as active.
    pub fn counts(&self) -> (r: (usize, usize, usize))
        ensures
            r.0 == count_status(self.tasks@, |s: TaskStatus| is_active(s)),
            r.1 == count_status(self.tasks@, |s: TaskStatus| is_complete(s)),
            r.2 == count_status(self.tasks@, |s: TaskStatus| is_error(s)),
    {
        let mut active: usize = 0;
        let mut completed: usize = 0;
        let mut error: usize = 0;
        let mut i: usize = 0;
        while i < self.tasks.len()
            invariant
                i <= self.tasks.len(),
                active == count_status(self.tasks@.take(i as int), |s: TaskStatus| is_active(s)),
                completed == count_status(self.tasks@.take(i as int), |s: TaskStatus| is_complete(s)),
                error == count_status(self.tasks@.take(i as int), |s: TaskStatus| is_error(s)),
                active + completed + error <= i,
            decreases self.tasks.len() - i,
        {
            proof {
                assert(self.tasks@.take(i + 1).drop_last() =~= self.tasks@.take(i as int));
            }
            match self.tasks[i].status {
                TaskStatus::Active | TaskStatus::Seeding => active = active + 1,
                TaskStatus::Complete => completed = completed + 1,
                TaskStatus::Error => error = error + 1,
                _ => {},
            }
            i = i + 1;
        }
        assert(self.tasks@.take(self.tasks.len() as int) =~= self.tasks@);
        (active, completed, error)
    }

    /// True when we have no aria2 process of our own and RPC is unreachable,
    /// i.e. aria2c is most likely not installed.
    pub fn aria2_missing(&self) -> (r: bool)
        ensures
            r == (!self.daemon_running && self.engine_status != EngineStatus::Ready),
    {
        !self.daemon_running && self.engine_status != EngineStatus::Ready
    }

    pub fn has_running_tasks(&self) -> (r: bool)
        ensures
            r == exists|i: int| 0 <= i < self.tasks@.len() && running(#[trigger] self.tasks@[i].status),
    {
        let mut i: usize = 0;
        while i < self.tasks.len()
            invariant
                i <= self.tasks.len(),
                forall|j: int| 0 <= j < i ==> !running(#[trigger] self.tasks@[j].status),
            decreases self.tasks.len() - i,
        {
            if matches!(
                self.tasks[i].status,
                TaskStatus::Active | TaskStatus::Waiting | TaskStatus::Seeding
            ) {
                return true;
            }
            i = i + 1;
        }
        false
    }

    /// Applies a successful poll made on the local day `day`: records
    /// finished downloads (stamped with the local time of day, `utc_offset_secs`
    /// east of UTC), the download speed in the activity log and both speed
    /// histories, then takes the new tasks and statistics; the engine becomes
    /// ready, and the first time it does its version is to be fetched.
    pub fn on_poll_success(
        &mut self,
        tasks: Vec<Task>,
        stat: GlobalStat,
        day: i64,
        utc_offset_secs: i64,
    ) -> (actions: PollActions)
        requires
            stat.download_speed > 0 ==> old(self).activity.bytes_of(day) + stat.download_speed <= u64::MAX,
        ensures
            events_after(final(self).events@, old(self).events@, finished(old(self).tasks@, tasks@)),
            actions.notices@.len() == notices_for(
                finished(old(self).tasks@, tasks@),
                old(self).config.notify_on_complete,
                old(self).config.notify_on_error,
            ).len(),
            forall|i: int|
                0 <= i < actions.notices@.len() ==> (#[trigger] actions.notices@[i]).title@ == notices_for(
                    finished(old(self).tasks@, tasks@),
                    old(self).config.notify_on_complete,
                    old(self).config.notify_on_error,
                )[i].0 && actions.notices@[i].body@ == notices_for(
                    finished(old(self).tasks@, tasks@),
                    old(self).config.notify_on_complete,
                    old(self).config.notify_on_error,
                )[i].1,
            final(self).activity.wf(),
            final(self).activity.days() == crate::activity::add_bytes(
                old(self).activity.days(),
                day,
                stat.download_speed,
            ),
            actions.save_activity == (crate::activity::ticks_after(
                old(self).activity.pending_ticks(),
                stat.download_speed,
            ) >= crate::activity::SAVE_EVERY_TICKS),
            final(self).activity.pending_ticks() == if actions.save_activity {
                0
            } else {
                crate::activity::ticks_after(old(self).activity.pending_ticks(), stat.download_speed)
            },
            final(self).down_history@ == history_push(old(self).down_history@, stat.download_speed),
            final(self).up_history@ == history_push(old(self).up_history@, stat.upload_speed),
            final(self).tasks@ == tasks@,
            final(self).stat == stat,
            final(self).engine_status == EngineStatus::Ready,
            actions.fetch_version == (old(self).engine_status != EngineStatus::Ready),
            final(self).config == old(self).config,
            final(self).engine_version == old(self).engine_version,
            final(self).filter == old(self).filter,
            final(self).search_query == old(self).search_query,
            final(self).search_open == old(self).search_open,
            final(self).route == old(self).route,
            final(self).selected == old(self).selected,
            final(self).daemon_running == old(self).daemon_running,
    {
        let notices = notify_transitions(
            &mut self.events,
            &self.tasks,
            &tasks,
            &self.config,
            utc_offset_secs,
        );
        let save_activity = self.activity.record_on(day, stat.download_speed);
        push_sample(&mut self.down_history, stat.download_speed);
        push_sample(&mut self.up_history, stat.upload_speed);
        self.tasks = tasks;
        self.stat = stat;
        let fetch_version = self.engine_status != EngineStatus::Ready;
        if fetch_version {
            self.engine_status = EngineStatus::Ready;
        }
        PollActions { save_activity, fetch_version, notices }
    }

    /// Quitting asks for confirmation when the settings say so and some
    /// download is still running.
    pub fn should_warn_on_quit(&self) -> (r: bool)
        ensures
            r == (self.config.warn_before_quit && exists|i: int|
                0 <= i < self.tasks@.len() && running(#[trigger] self.tasks@[i].status)),
    {
        self.config.warn_before_quit && self.has_running_tasks()
    }

    /// The engine requests of quitting: with a daemon of our own, its session
    /// is saved and it is shut down; otherwise nothing is sent.
    pub fn shutdown_plans(&self) -> (r: Vec<RpcPlan>)
        ensures
            self.daemon_running ==> r@.len() == 2 && r@[0].primary.method == "saveSession"
                && r@[0].primary.params@.len() == 0 && r@[0].fallback is None && r@[1].primary.method
                == "shutdown" && r@[1].primary.params@.len() == 0 && r@[1].fallback is None,
            !self.daemon_running ==> r@.len() == 0,
    {
        if self.daemon_running {
            vec![save_session_plan(), shutdown_plan()]
        } else {
            Vec::new()
        }
    }

    /// At launch, unfinished downloads are resumed when the settings say so.
    pub fn launch_plan(&self) -> (r: Option<RpcPlan>)
        ensures
            r is Some <==> self.config.resume_all_when_app_launched,
            r matches Some(p) ==> p.primary.method == "unpauseAll" && p.primary.params@.len() == 0
                && p.fallback is None,
    {
        if self.config.resume_all_when_app_launched {
            Some(unpause_all_plan())
        } else {
            None
        }
    }

    /// Applies a failed poll: a ready engine goes offline. Returns true when
    /// no daemon of our own runs, so that launching one should be tried.
    pub fn on_poll_failure(&mut self) -> (try_spawn: bool)
        ensures
            try_spawn == !old(self).daemon_running,
            final(self).engine_status == if old(self).engine_status == EngineStatus::Ready {
                EngineStatus::Offline
            } else {
                old(self).engine_status
            },
            final(self).config == old(self).config,
            final(self).tasks == old(self).tasks,
            final(self).stat == old(self).stat,
            final(self).engine_version == old(self).engine_version,
            final(self).filter == old(self).filter,
            final(self).search_query == old(self).search_query,
            final(self).search_open == old(self).search_open,
            final(self).selected == old(self).selected,
            final(self).route == old(self).route,
            final(self).activity == old(self).activity,
            final(self).events == old(self).events,
            final(self).down_history == old(self).down_history,
            final(self).up_history == old(self).up_history,
            final(self).daemon_running == old(self).daemon_running,
    {
        if self.engine_status == EngineStatus::Ready {
            self.engine_status = EngineStatus::Offline;
        }
        !self.daemon_running
    }

    /// A daemon of our own was launched after a failed poll: the engine is
    /// starting.
    pub fn on_daemon_spawned(&mut self)
        ensures
            final(self).daemon_running,
            final(self).engine_status == EngineStatus::Starting,
            final(self).config == old(self).config,
            final(self).tasks == old(self).tasks,
            final(self).stat == old(self).stat,
            final(self).engine_version == old(self).engine_version,
            final(self).filter == old(self).filter,
            final(self).search_query == old(self).search_query,
            final(self).search_open == old(self).search_open,
            final(self).selected == old(self).selected,
            final(self).route == old(self).route,
            final(self).activity == old(self).activity,
            final(self).events == old(self).events,
            final(self).down_history == old(self).down_history,
            final(self).up_history == old(self).up_history,
    {
        self.daemon_running = true;
        self.engine_status = EngineStatus::Starting;
    }
}

} // verus!
