//! aria2's string-typed task records and the normalized task model.

use vstd::prelude::*;

use crate::text::{
    chars_of, find_first, find_last, index_of_first, index_of_last, lemma_index_of_first_bounds,
    lemma_index_of_last_bounds, owned, push_str, spec_parse_u64, str_equals, string_from_chars,
    u64_from_decimal,
};
use vstd::string::*;

verus! {

#[derive(Debug, Clone, Copy, PartialEq, Eq, Hash, Structural)]
pub enum TaskStatus {
    Active,
    Waiting,
    Paused,
    Complete,
    Error,
    Removed,
    Seeding,
}

pub open spec fn status_label(s: TaskStatus) -> Seq<char> {
    match s {
        TaskStatus::Active => "Downloading"@,
        TaskStatus::Waiting => "Waiting"@,
        TaskStatus::Paused => "Paused"@,
        TaskStatus::Complete => "Completed"@,
        TaskStatus::Error => "Error"@,
        TaskStatus::Removed => "Removed"@,
        TaskStatus::Seeding => "Seeding"@,
    }
}

impl TaskStatus {
    pub fn label(&self) -> (r: &'static str)
        ensures
            r@ == status_label(*self),
    {
        match self {
            TaskStatus::Active => "Downloading",
            TaskStatus::Waiting => "Waiting",
            TaskStatus::Paused => "Paused",
            TaskStatus::Complete => "Completed",
            TaskStatus::Error => "Error",
            TaskStatus::Removed => "Removed",
            TaskStatus::Seeding => "Seeding",
        }
    }
}

#[derive(Debug, Clone)]
pub struct RawFile {
    pub path: String,
    pub length: Option<String>,
    pub completed_length: Option<String>,
    pub selected: Option<String>,
    pub uris: Vec<RawUri>,
}

#[derive(Debug, Clone)]
pub struct RawUri {
    pub uri: String,
}

#[derive(Debug, Clone)]
pub struct RawBittorrentInfo {
    pub name: Option<String>,
}

#[derive(Debug, Clone)]
pub struct RawBittorrent {
    pub info: Option<RawBittorrentInfo>,
}

#[derive(Debug, Clone)]
pub struct RawTask {
    pub gid: String,
    pub status: String,
    pub total_length: Option<String>,
    pub completed_length: Option<String>,
    pub upload_length: Option<String>,
    pub download_speed: Option<String>,
    pub upload_speed: Option<String>,
    pub connections: Option<String>,
    pub num_seeders: Option<String>,
    pub seeder: Option<String>,
    pub dir: Option<String>,
    pub files: Vec<RawFile>,
    pub bittorrent: Option<RawBittorrent>,
    pub info_hash: Option<String>,
    pub error_code: Option<String>,
    pub error_message: Option<String>,
}

/// UI-facing task model, normalized from aria2's string-typed JSON.
#[derive(Debug, Clone)]
pub struct Task {
    pub gid: String,
    pub name: String,
    pub status: TaskStatus,
    pub total_length: u64,
    pub completed_length: u64,
    pub upload_length: u64,
    pub download_speed: u64,
    pub upload_speed: u64,
    pub connections: u32,
    pub num_seeders: u32,
    pub dir: String,
    pub file_path: Option<String>,
    pub file_count: usize,
    pub is_bt: bool,
    pub error_message: Option<String>,
    pub uri: Option<String>,
}

/// The chars of an optional string.
pub open spec fn opt_chars(o: Option<String>) -> Option<Seq<char>> {
    match o {
        Some(s) => Some(s@),
        None => None,
    }
}

/// `Some(s)` when `s` is not empty.
pub open spec fn non_empty(s: Seq<char>) -> Option<Seq<char>> {
    if s.len() > 0 {
        Some(s)
    } else {
        None
    }
}

/// A numeric field of aria2's JSON: its decimal value, 0 when absent or not a
/// `u64`.
pub open spec fn field_u64(o: Option<String>) -> u64 {
    match o {
        Some(s) => match spec_parse_u64(s@) {
            Some(v) => v,
            None => 0,
        },
        None => 0,
    }
}

pub open spec fn raw_is_bt(raw: RawTask) -> bool {
    raw.bittorrent is Some || raw.info_hash is Some
}

/// aria2's status string mapped to a status; an active BitTorrent task that
/// reports itself as a seeder is seeding, and unknown strings count as waiting.
pub open spec fn raw_status(raw: RawTask) -> TaskStatus {
    if raw.status@ == "active"@ {
        if raw_is_bt(raw) && opt_chars(raw.seeder) == Some("true"@) {
            TaskStatus::Seeding
        } else {
            TaskStatus::Active
        }
    } else if raw.status@ == "waiting"@ {
        TaskStatus::Waiting
    } else if raw.status@ == "paused"@ {
        TaskStatus::Paused
    } else if raw.status@ == "complete"@ {
        TaskStatus::Complete
    } else if raw.status@ == "error"@ {
        TaskStatus::Error
    } else if raw.status@ == "removed"@ {
        TaskStatus::Removed
    } else {
        TaskStatus::Waiting
    }
}

/// A file counts as selected unless aria2 marks it `selected: "false"`.
pub open spec fn file_selected(f: RawFile) -> bool {
    opt_chars(f.selected) != Some("false"@)
}

pub open spec fn selected_count(files: Seq<RawFile>) -> nat
    decreases files.len(),
{
    if files.len() == 0 {
        0
    } else {
        selected_count(files.drop_last()) + if file_selected(files.last()) {
            1nat
        } else {
            0nat
        }
    }
}

/// Index of the first selected file, or -1.
pub open spec fn first_selected(files: Seq<RawFile>) -> int
    decreases files.len(),
{
    if files.len() == 0 {
        -1
    } else {
        let prev = first_selected(files.drop_last());
        if prev >= 0 {
            prev
        } else if file_selected(files.last()) {
            files.len() - 1
        } else {
            -1
        }
    }
}

pub proof fn lemma_first_selected_bounds(files: Seq<RawFile>)
    ensures
        -1 <= first_selected(files) < files.len(),
    decreases files.len(),
{
    if files.len() > 0 {
        lemma_first_selected_bounds(files.drop_last());
    }
}

/// The file a task is shown by: its first selected file, else its first file.
pub open spec fn main_file(raw: RawTask) -> Option<RawFile> {
    let i = first_selected(raw.files@);
    if i >= 0 {
        Some(raw.files@[i])
    } else if raw.files@.len() > 0 {
        Some(raw.files@[0])
    } else {
        None
    }
}

/// The torrent's name from its metainfo, when present and not empty.
pub open spec fn bt_name(raw: RawTask) -> Option<Seq<char>> {
    match raw.bittorrent {
        Some(b) => match b.info {
            Some(info) => match info.name {
                Some(n) => non_empty(n@),
                None => None,
            },
            None => None,
        },
        None => None,
    }
}

/// The first URI of the main file, when present and not empty.
pub open spec fn task_uri(raw: RawTask) -> Option<Seq<char>> {
    match main_file(raw) {
        Some(f) => if f.uris@.len() > 0 {
            non_empty(f.uris@[0].uri@)
        } else {
            None
        },
        None => None,
    }
}

/// The last `/`-separated segment of a URI, cut before its first `?`.
pub open spec fn uri_tail(u: Seq<char>) -> Seq<char> {
    let seg = u.subrange(index_of_last(u, '/') + 1, u.len() as int);
    let q = index_of_first(seg, '?');
    if q >= 0 {
        seg.subrange(0, q)
    } else {
        seg
    }
}

/// The name shown for a task: the torrent's name, else the main file's file
/// name (`file_name`, the final component of its path), else the tail of its
/// URI, else "Task <gid>".
pub open spec fn task_name(raw: RawTask, file_name: Option<String>) -> Seq<char> {
    match bt_name(raw) {
        Some(n) => n,
        None => {
            let from_path: Option<Seq<char>> = if main_file(raw) is Some {
                match file_name {
                    Some(n) => non_empty(n@),
                    None => None,
                }
            } else {
                None
            };
            match from_path {
                Some(n) => n,
                None => match task_uri(raw) {
                    Some(u) => if uri_tail(u).len() > 0 {
                        uri_tail(u)
                    } else {
                        "Task "@ + raw.gid@
                    },
                    None => "Task "@ + raw.gid@,
                },
            }
        },
    }
}

/// `t` is the task that `raw` normalizes to, `file_name` being the final
/// component of the main file's path.
pub open spec fn normalizes_to(t: Task, raw: RawTask, file_name: Option<String>) -> bool {
    &&& t.gid@ == raw.gid@
    &&& t.name@ == task_name(raw, file_name)
    &&& t.status == raw_status(raw)
    &&& t.total_length == field_u64(raw.total_length)
    &&& t.completed_length == field_u64(raw.completed_length)
    &&& t.upload_length == field_u64(raw.upload_length)
    &&& t.download_speed == field_u64(raw.download_speed)
    &&& t.upload_speed == field_u64(raw.upload_speed)
    &&& t.connections == field_u64(raw.connections) as u32
    &&& t.num_seeders == field_u64(raw.num_seeders) as u32
    &&& t.dir@ == match raw.dir {
        Some(d) => d@,
        None => Seq::<char>::empty(),
    }
    &&& opt_chars(t.file_path) == match main_file(raw) {
        Some(f) => non_empty(f.path@),
        None => None,
    }
    &&& t.file_count == if selected_count(raw.files@) > 0 {
        selected_count(raw.files@)
    } else {
        1
    }
    &&& t.is_bt == raw_is_bt(raw)
    &&& opt_chars(t.error_message) == match raw.error_message {
        Some(m) => non_empty(m@),
        None => None,
    }
    &&& opt_chars(t.uri) == task_uri(raw)
}

/// `t` is what `raw` normalizes to, the name coming from a file name of its
/// main file's path as `file_name_of` describes it (none when the task has
/// no file).
pub open spec fn normalized_from(t: Task, raw: RawTask) -> bool {
    match main_file(raw) {
        Some(f) => exists|n: Option<String>| file_name_of(f.path@, n) && #[trigger] normalizes_to(t, raw, n),
        None => normalizes_to(t, raw, None),
    }
}

/// Seconds left at the current download speed, when there is a speed and
/// something left.
pub open spec fn eta_of(t: Task) -> Option<u64> {
    if t.download_speed == 0 || t.total_length <= t.completed_length {
        None
    } else {
        Some(((t.total_length - t.completed_length) / t.download_speed as int) as u64)
    }
}

/// The value of a numeric field (0 when absent or not a decimal `u64`).
pub fn p64(v: &Option<String>) -> (r: u64)
    ensures
        r == field_u64(*v),
{
    match v {
        Some(s) => match u64_from_decimal(s.as_str()) {
            Some(n) => n,
            None => 0,
        },
        None => 0,
    }
}

/// `Some` of a copy of `s` when it is not empty.
fn non_empty_string(s: &String) -> (r: Option<String>)
    ensures
        opt_chars(r) == non_empty(s@),
{
    if s.as_str().unicode_len() > 0 {
        Some(s.clone())
    } else {
        None
    }
}

/// The last `/`-separated segment of a path.
pub open spec fn last_segment(p: Seq<char>) -> Seq<char> {
    p.subrange(index_of_last(p, '/') + 1, p.len() as int)
}

/// The path starts with a drive: an ASCII letter and a colon.
pub open spec fn starts_with_drive(p: Seq<char>) -> bool {
    &&& p.len() >= 2
    &&& ('a' <= p[0] <= 'z' || 'A' <= p[0] <= 'Z')
    &&& p[1] == ':'
}

/// A path whose final component is the same on every platform: no
/// backslash, no leading `//`, and, when it starts with a drive, the drive
/// is followed by `/` and is not itself the path's last named segment.
pub open spec fn plain_path(p: Seq<char>) -> bool {
    &&& !p.contains('\\')
    &&& !(p.len() >= 2 && p[0] == '/' && p[1] == '/')
    &&& starts_with_drive(p) ==> p.len() >= 3 && p[2] == '/' && last_name_segment(p) != Some(
        p.subrange(0, 2),
    )
}

/// The last segment of the path `p` that is neither empty nor `.` (the
/// components that path parsing skips), if there is one.
pub open spec fn last_name_segment(p: Seq<char>) -> Option<Seq<char>>
    decreases p.len(),
{
    if p.len() == 0 {
        None
    } else {
        let i = index_of_last(p, '/');
        let seg = p.subrange(i + 1, p.len() as int);
        if seg.len() > 0 && seg != "."@ {
            Some(seg)
        } else if i < 0 {
            None
        } else {
            proof {
                lemma_index_of_last_bounds(p, '/');
            }
            last_name_segment(p.subrange(0, i))
        }
    }
}

/// What is known on every platform of `n`, the file name of the path `p`:
/// `..`, a path that ends in `/..` (unless it starts with two backslashes,
/// a verbatim prefix on Windows), and the root `/` have none; for a plain
/// path it is its last segment that is neither empty nor `.`, unless that
/// is `..` or there is none (an empty path, `.`, `/`), when there is no name.
pub open spec fn file_name_of(p: Seq<char>, n: Option<String>) -> bool {
    &&& (p == ".."@ || p == "/"@ || (p.len() >= 3 && p.subrange(p.len() - 3, p.len() as int) == "/.."@
        && !(p[0] == '\\' && p[1] == '\\'))) ==> n is None
    &&& plain_path(p) ==> match last_name_segment(p) {
        Some(seg) => if seg == ".."@ {
            n is None
        } else {
            n matches Some(s) && s@ == seg
        },
        None => n is None,
    }
}

/// A named segment is never empty.
proof fn lemma_last_name_segment_nonempty(p: Seq<char>)
    ensures
        last_name_segment(p) matches Some(seg) ==> seg.len() > 0,
    decreases p.len(),
{
    if p.len() > 0 {
        let i = index_of_last(p, '/');
        if i >= 0 {
            lemma_index_of_last_bounds(p, '/');
            lemma_last_name_segment_nonempty(p.subrange(0, i));
        }
    }
}

/// A task without a torrent name is named after its main file whenever the
/// file's path gives a non-empty file name, whatever its URI is; the URI's
/// tail, and then "Task <gid>", stand in only when the path gives none.
pub proof fn lemma_file_name_wins(t: Task, raw: RawTask, file_name: Option<String>)
    requires
        normalizes_to(t, raw, file_name),
        bt_name(raw) is None,
        main_file(raw) is Some,
    ensures
        file_name is Some && file_name.unwrap()@.len() > 0 ==> t.name@ == file_name.unwrap()@,
        !(file_name is Some && file_name.unwrap()@.len() > 0) ==> t.name@ == match task_uri(raw) {
            Some(u) => if uri_tail(u).len() > 0 {
                uri_tail(u)
            } else {
                "Task "@ + raw.gid@
            },
            None => "Task "@ + raw.gid@,
        },
{
}

/// A torrent's own non-empty name names its task, whatever its files and
/// URI are.
pub proof fn lemma_torrent_name_wins(t: Task, raw: RawTask, file_name: Option<String>)
    requires
        normalizes_to(t, raw, file_name),
        raw.bittorrent is Some,
        raw.bittorrent.unwrap().info is Some,
        raw.bittorrent.unwrap().info.unwrap().name is Some,
        raw.bittorrent.unwrap().info.unwrap().name.unwrap()@.len() > 0,
    ensures
        t.name@ == raw.bittorrent.unwrap().info.unwrap().name.unwrap()@,
{
}

/// For a task without a torrent name whose main file has a plain path, the
/// name is the path's last named segment (unless that is `..`), whatever
/// the task's URI is.
pub proof fn lemma_plain_path_names_task(t: Task, raw: RawTask)
    requires
        normalized_from(t, raw),
        bt_name(raw) is None,
        main_file(raw) is Some,
        plain_path(main_file(raw).unwrap().path@),
        last_name_segment(main_file(raw).unwrap().path@) is Some,
        last_name_segment(main_file(raw).unwrap().path@).unwrap() != ".."@,
    ensures
        t.name@ == last_name_segment(main_file(raw).unwrap().path@).unwrap(),
{
    let f = main_file(raw).unwrap();
    lemma_last_name_segment_nonempty(f.path@);
    let n = choose|n: Option<String>| file_name_of(f.path@, n) && #[trigger] normalizes_to(t, raw, n);
    lemma_file_name_wins(t, raw, n);
}

/// `std::path::Path::file_name` of `path`, as a string: the final component
/// of the path, or `None` when there is none. The contract states what holds
/// on every platform (`file_name_of`): no file name for `..`, for a path that
/// ends in `/..` and does not start with two backslashes, or for the root;
/// and for a plain path (no backslash, no leading `//`, a leading drive `X:`
/// followed by `/` and not the last named segment; the empty path included)
/// its last segment that is neither empty nor `.`, unless that is `..` or
/// there is none. What counts as the final component of other paths depends
/// on the platform's path syntax, and is left unsaid.
#[verifier::external_body]
pub(crate) fn path_file_name(path: &str) -> (r: Option<String>)
    ensures
        file_name_of(path@, r),
{
    std::path::Path::new(path).file_name().map(|n| n.to_string_lossy().to_string())
}

/// The tail of a URI: its last `/`-separated segment, cut before any `?`.
fn uri_tail_of(u: &String) -> (r: String)
    ensures
        r@ == uri_tail(u@),
{
    let chars = chars_of(u.as_str());
    proof {
        lemma_index_of_last_bounds(chars@, '/');
    }
    let start = match find_last(&chars, '/') {
        Some(i) => i + 1,
        None => 0,
    };
    let seg = string_from_chars(&chars, start, chars.len());
    let seg_chars = chars_of(seg.as_str());
    proof {
        lemma_index_of_first_bounds(seg_chars@, '?');
    }
    match find_first(&seg_chars, '?') {
        Some(q) => string_from_chars(&seg_chars, 0, q),
        None => seg,
    }
}

impl Task {
    /// Normalizes aria2's task record.
    pub fn from_raw(raw: RawTask) -> (t: Task)
        ensures
            normalized_from(t, raw),
    {
        let (sel_count, first_sel) = selection_of(&raw.files);
        let file_name = match first_sel {
            Some(i) => path_file_name(raw.files[i].path.as_str()),
            None => if raw.files.len() > 0 {
                path_file_name(raw.files[0].path.as_str())
            } else {
                None
            },
        };
        Task::from_raw_with(raw, file_name)
    }

    /// Normalizes aria2's task record, `file_name` being the final component
    /// of the path of the task's main file.
    pub fn from_raw_with(raw: RawTask, file_name: Option<String>) -> (t: Task)
        ensures
            normalizes_to(t, raw, file_name),
    {
        let is_bt = raw.bittorrent.is_some() || raw.info_hash.is_some();
        let seeding = str_equals(raw.status.as_str(), "active") && is_bt && match &raw.seeder {
            Some(s) => str_equals(s.as_str(), "true"),
            None => false,
        };
        let status = if str_equals(raw.status.as_str(), "active") {
            if seeding {
                TaskStatus::Seeding
            } else {
                TaskStatus::Active
            }
        } else if str_equals(raw.status.as_str(), "waiting") {
            TaskStatus::Waiting
        } else if str_equals(raw.status.as_str(), "paused") {
            TaskStatus::Paused
        } else if str_equals(raw.status.as_str(), "complete") {
            TaskStatus::Complete
        } else if str_equals(raw.status.as_str(), "error") {
            TaskStatus::Error
        } else if str_equals(raw.status.as_str(), "removed") {
            TaskStatus::Removed
        } else {
            TaskStatus::Waiting
        };

        let (sel_count, first_sel) = selection_of(&raw.files);
        let first_file: Option<usize> = match first_sel {
            Some(i) => Some(i),
            None => if raw.files.len() > 0 {
                Some(0)
            } else {
                None
            },
        };

        let bt_name: Option<String> = match &raw.bittorrent {
            Some(b) => match &b.info {
                Some(info) => match &info.name {
                    Some(n) => non_empty_string(n),
                    None => None,
                },
                None => None,
            },
            None => None,
        };

        let uri: Option<String> = match first_file {
            Some(i) => if raw.files[i].uris.len() > 0 {
                non_empty_string(&raw.files[i].uris[0].uri)
            } else {
                None
            },
            None => None,
        };

        let from_path: Option<String> = match first_file {
            Some(_) => match &file_name {
                Some(n) => non_empty_string(n),
                None => None,
            },
            None => None,
        };

        let name = match bt_name {
            Some(n) => n,
            None => match from_path {
                Some(n) => n,
                None => {
                    let from_uri: Option<String> = match &uri {
                        Some(u) => non_empty_string(&uri_tail_of(u)),
                        None => None,
                    };
                    match from_uri {
                        Some(n) => n,
                        None => {
                            let mut n = owned("Task ");
                            push_str(&mut n, raw.gid.as_str());
                            n
                        },
                    }
                },
            },
        };

        let file_path = match first_file {
            Some(i) => non_empty_string(&raw.files[i].path),
            None => None,
        };

        let dir = match &raw.dir {
            Some(d) => d.clone(),
            None => String::new(),
        };

        let error_message = match &raw.error_message {
            Some(m) => non_empty_string(m),
            None => None,
        };

        let t = Task {
            gid: raw.gid.clone(),
            name,
            status,
            total_length: p64(&raw.total_length),
            completed_length: p64(&raw.completed_length),
            upload_length: p64(&raw.upload_length),
            download_speed: p64(&raw.download_speed),
            upload_speed: p64(&raw.upload_speed),
            connections: #[verifier::truncate] (p64(&raw.connections) as u32),
            num_seeders: #[verifier::truncate] (p64(&raw.num_seeders) as u32),
            dir,
            file_path,
            file_count: if sel_count > 0 {
                sel_count
            } else {
                1
            },
            is_bt,
            error_message,
            uri,
        };
        t
    }

    /// Remaining seconds at the current speed, or None when unknown.
    pub fn eta_seconds(&self) -> (r: Option<u64>)
        ensures
            r == eta_of(*self),
    {
        if self.download_speed == 0 || self.total_length <= self.completed_length {
            return None;
        }
        Some((self.total_length - self.completed_length) / self.download_speed)
    }
}

/// Number of selected files and the index of the first one.
fn selection_of(files: &Vec<RawFile>) -> (r: (usize, Option<usize>))
    ensures
        r.0 == selected_count(files@),
        match r.1 {
            Some(i) => i == first_selected(files@) && i < files@.len(),
            None => first_selected(files@) == -1,
        },
{
    proof {
        lemma_first_selected_bounds(files@);
    }
    let mut count: usize = 0;
    let mut first: Option<usize> = None;
    let mut i: usize = 0;
    while i < files.len()
        invariant
            i <= files.len(),
            count == selected_count(files@.take(i as int)),
            count <= i,
            match first {
                Some(k) => k == first_selected(files@.take(i as int)),
                None => first_selected(files@.take(i as int)) == -1,
            },
        decreases files.len() - i,
    {
        assert(files@.take(i + 1).drop_last() =~= files@.take(i as int));
        let selected = match &files[i].selected {
            Some(s) => !str_equals(s.as_str(), "false"),
            None => true,
        };
        if selected {
            count = count + 1;
            if first.is_none() {
                first = Some(i);
            }
        }
        i = i + 1;
    }
    assert(files@.take(files.len() as int) =~= files@);
    (count, first)
}

#[derive(Debug, Clone)]
pub struct RawGlobalStat {
    pub download_speed: Option<String>,
    pub upload_speed: Option<String>,
    pub num_active: Option<String>,
    pub num_waiting: Option<String>,
    pub num_stopped_total: Option<String>,
}

#[derive(Debug, Clone, Copy)]
pub struct GlobalStat {
    pub download_speed: u64,
    pub upload_speed: u64,
    pub num_active: u32,
    pub num_waiting: u32,
    pub num_stopped: u32,
}

impl GlobalStat {
    pub fn from_raw(raw: RawGlobalStat) -> (g: GlobalStat)
        ensures
            g.download_speed == field_u64(raw.download_speed),
            g.upload_speed == field_u64(raw.upload_speed),
            g.num_active == field_u64(raw.num_active) as u32,
            g.num_waiting == field_u64(raw.num_waiting) as u32,
            g.num_stopped == field_u64(raw.num_stopped_total) as u32,
    {
        GlobalStat {
            download_speed: p64(&raw.download_speed),
            upload_speed: p64(&raw.upload_speed),
            num_active: #[verifier::truncate] (p64(&raw.num_active) as u32),
            num_waiting: #[verifier::truncate] (p64(&raw.num_waiting) as u32),
            num_stopped: #[verifier::truncate] (p64(&raw.num_stopped_total) as u32),
        }
    }
}

impl Default for GlobalStat {
    /// All-zero statistics.
    fn default() -> (g: GlobalStat)
        ensures
            g.download_speed == 0 && g.upload_speed == 0 && g.num_active == 0 && g.num_waiting == 0
                && g.num_stopped == 0,
    {
        GlobalStat { download_speed: 0, upload_speed: 0, num_active: 0, num_waiting: 0, num_stopped: 0 }
    }
}

} // verus!
