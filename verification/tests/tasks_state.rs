use motrix::activity::ActivityLog;
use motrix::config::AppConfig;
use motrix::state::{AppState, EngineStatus, Route, TaskFilter, HISTORY_LEN, MAX_EVENTS};
use motrix::types::{
    p64, GlobalStat, RawBittorrent, RawBittorrentInfo, RawFile, RawGlobalStat, RawTask, RawUri,
    Task, TaskStatus,
};

fn raw(gid: &str, status: &str) -> RawTask {
    RawTask {
        gid: gid.to_string(),
        status: status.to_string(),
        total_length: None,
        completed_length: None,
        upload_length: None,
        download_speed: None,
        upload_speed: None,
        connections: None,
        num_seeders: None,
        seeder: None,
        dir: None,
        files: Vec::new(),
        bittorrent: None,
        info_hash: None,
        error_code: None,
        error_message: None,
    }
}

fn file(path: &str, selected: Option<&str>, uri: Option<&str>) -> RawFile {
    RawFile {
        path: path.to_string(),
        length: None,
        completed_length: None,
        selected: selected.map(|s| s.to_string()),
        uris: uri.map(|u| vec![RawUri { uri: u.to_string() }]).unwrap_or_default(),
    }
}

fn task(gid: &str, name: &str, status: TaskStatus) -> Task {
    Task {
        gid: gid.to_string(),
        name: name.to_string(),
        status,
        total_length: 0,
        completed_length: 0,
        upload_length: 0,
        download_speed: 0,
        upload_speed: 0,
        connections: 0,
        num_seeders: 0,
        dir: String::new(),
        file_path: None,
        file_count: 1,
        is_bt: false,
        error_message: None,
        uri: None,
    }
}

fn stat(down: u64, up: u64) -> GlobalStat {
    GlobalStat { download_speed: down, upload_speed: up, num_active: 0, num_waiting: 0, num_stopped: 0 }
}

#[test]
fn status_labels() {
    assert_eq!(TaskStatus::Active.label(), "Downloading");
    assert_eq!(TaskStatus::Complete.label(), "Completed");
    assert_eq!(TaskStatus::Seeding.label(), "Seeding");
    assert_eq!(TaskStatus::Removed.label(), "Removed");
}

#[test]
fn numeric_fields_parse_or_default_to_zero() {
    assert_eq!(p64(&None), 0);
    assert_eq!(p64(&Some("1234".to_string())), 1234);
    assert_eq!(p64(&Some("".to_string())), 0);
    assert_eq!(p64(&Some("-5".to_string())), 0);
    assert_eq!(p64(&Some("18446744073709551615".to_string())), u64::MAX);
    assert_eq!(p64(&Some("18446744073709551616".to_string())), 0);
}

#[test]
fn from_raw_status_mapping_and_numbers() {
    let mut r = raw("a1", "active");
    r.total_length = Some("1000".to_string());
    r.completed_length = Some("250".to_string());
    r.download_speed = Some("50".to_string());
    r.connections = Some("4294967297".to_string());
    r.dir = Some("/tmp".to_string());
    let t = Task::from_raw(r);
    assert_eq!(t.status, TaskStatus::Active);
    assert_eq!(t.total_length, 1000);
    assert_eq!(t.completed_length, 250);
    assert_eq!(t.connections, 1);
    assert_eq!(t.dir, "/tmp");
    assert_eq!(t.name, "Task a1");
    assert_eq!(t.file_count, 1);
    assert_eq!(t.eta_seconds(), Some(15));

    for (s, expected) in [
        ("waiting", TaskStatus::Waiting),
        ("paused", TaskStatus::Paused),
        ("complete", TaskStatus::Complete),
        ("error", TaskStatus::Error),
        ("removed", TaskStatus::Removed),
        ("weird", TaskStatus::Waiting),
    ] {
        assert_eq!(Task::from_raw(raw("g", s)).status, expected);
    }
}

#[test]
fn from_raw_seeding_needs_bittorrent_and_seeder_flag() {
    let mut r = raw("b", "active");
    r.seeder = Some("true".to_string());
    assert_eq!(Task::from_raw(r.clone()).status, TaskStatus::Active);
    r.info_hash = Some("abc".to_string());
    let t = Task::from_raw(r);
    assert_eq!(t.status, TaskStatus::Seeding);
    assert!(t.is_bt);
}

#[test]
fn from_raw_name_sources() {
    // Torrent name first.
    let mut r = raw("c", "active");
    r.bittorrent = Some(RawBittorrent { info: Some(RawBittorrentInfo { name: Some("ubuntu".to_string()) }) });
    r.files = vec![file("/d/file.iso", None, None)];
    assert_eq!(Task::from_raw(r).name, "ubuntu");

    // Then the file name of the first selected file.
    let mut r = raw("c", "active");
    r.files = vec![
        file("/d/skip.bin", Some("false"), None),
        file("/d/keep.bin", Some("true"), None),
        file("/d/also.bin", None, None),
    ];
    let t = Task::from_raw(r);
    assert_eq!(t.name, "keep.bin");
    assert_eq!(t.file_path.as_deref(), Some("/d/keep.bin"));
    assert_eq!(t.file_count, 2);

    // Then the tail of the URI, cut at '?'.
    let mut r = raw("c", "waiting");
    r.files = vec![file("", None, Some("https://host/path/pkg.tar.gz?token=1"))];
    let t = Task::from_raw(r);
    assert_eq!(t.name, "pkg.tar.gz");
    assert_eq!(t.uri.as_deref(), Some("https://host/path/pkg.tar.gz?token=1"));
    assert_eq!(t.file_path, None);

    // A URI ending in '/' gives no name.
    let mut r = raw("c9", "waiting");
    r.files = vec![file("", None, Some("https://host/dir/"))];
    assert_eq!(Task::from_raw(r).name, "Task c9");

    // No selected file: the first file stands in.
    let mut r = raw("c", "paused");
    r.files = vec![file("/x/only.txt", Some("false"), None)];
    let t = Task::from_raw(r);
    assert_eq!(t.name, "only.txt");
    assert_eq!(t.file_count, 1);
}

#[test]
fn from_raw_with_given_file_name() {
    let mut r = raw("d", "active");
    r.files = vec![file("C:\\x\\y.txt", None, None)];
    r.error_message = Some(String::new());
    let t = Task::from_raw_with(r, Some("y.txt".to_string()));
    assert_eq!(t.name, "y.txt");
    assert_eq!(t.error_message, None);
}

#[test]
fn eta_unknown_without_speed_or_remaining() {
    let mut t = task("e", "e", TaskStatus::Active);
    t.total_length = 100;
    t.completed_length = 100;
    t.download_speed = 10;
    assert_eq!(t.eta_seconds(), None);
    t.completed_length = 0;
    t.download_speed = 0;
    assert_eq!(t.eta_seconds(), None);
    t.download_speed = 30;
    assert_eq!(t.eta_seconds(), Some(3));
}

#[test]
fn global_stat_from_raw_truncates_counts() {
    let g = GlobalStat::from_raw(RawGlobalStat {
        download_speed: Some("100".to_string()),
        upload_speed: Some("x".to_string()),
        num_active: Some("4294967298".to_string()),
        num_waiting: None,
        num_stopped_total: Some("7".to_string()),
    });
    assert_eq!(g.download_speed, 100);
    assert_eq!(g.upload_speed, 0);
    assert_eq!(g.num_active, 2);
    assert_eq!(g.num_waiting, 0);
    assert_eq!(g.num_stopped, 7);
}

#[test]
fn filters_label_and_partition() {
    assert_eq!(TaskFilter::All.label(), "All Downloads");
    assert_eq!(TaskFilter::Stopped.label(), "Stopped");
    let all = [
        TaskStatus::Active,
        TaskStatus::Waiting,
        TaskStatus::Paused,
        TaskStatus::Complete,
        TaskStatus::Error,
        TaskStatus::Removed,
        TaskStatus::Seeding,
    ];
    for s in all {
        let t = task("f", "f", s);
        let specific = [TaskFilter::Downloading, TaskFilter::Waiting, TaskFilter::Completed, TaskFilter::Stopped]
            .iter()
            .filter(|f| f.matches(&t))
            .count();
        assert_eq!(specific, 1);
        assert_eq!(TaskFilter::All.matches(&t), s != TaskStatus::Removed);
    }
}

fn fresh_state(daemon: bool) -> AppState {
    AppState::new(AppConfig::default_in("/downloads".to_string()), daemon, ActivityLog::new())
}

#[test]
fn new_state_defaults() {
    let st = fresh_state(true);
    assert_eq!(st.engine_status, EngineStatus::Starting);
    assert_eq!(st.route, Route::Downloads);
    assert_eq!(st.filter, TaskFilter::All);
    assert_eq!(st.down_history.len(), HISTORY_LEN);
    assert!(st.up_history.iter().all(|x| *x == 0));
    assert!(!st.aria2_missing());
    let st = fresh_state(false);
    assert_eq!(st.engine_status, EngineStatus::Offline);
    assert!(st.aria2_missing());
}

#[test]
fn filtered_tasks_by_filter_and_query() {
    let mut st = fresh_state(true);
    st.tasks = vec![
        task("1", "Ubuntu.ISO", TaskStatus::Active),
        task("2", "movie.mkv", TaskStatus::Complete),
        task("3", "debian.iso", TaskStatus::Removed),
        task("4", "arch.iso", TaskStatus::Paused),
    ];
    st.search_query = "  iso ".to_string();
    let names: Vec<&str> = st.filtered_tasks().iter().map(|t| t.name.as_str()).collect();
    assert_eq!(names, vec!["Ubuntu.ISO", "arch.iso"]);
    st.filter = TaskFilter::Stopped;
    let names: Vec<&str> = st.filtered_tasks().iter().map(|t| t.name.as_str()).collect();
    assert_eq!(names, vec!["debian.iso"]);
    st.search_query = String::new();
    st.filter = TaskFilter::Completed;
    assert_eq!(st.filtered_tasks().len(), 1);
    assert_eq!(st.counts(), (1, 1, 0));
}

#[test]
fn counts_and_running() {
    let mut st = fresh_state(true);
    st.tasks = vec![
        task("1", "a", TaskStatus::Seeding),
        task("2", "b", TaskStatus::Active),
        task("3", "c", TaskStatus::Error),
        task("4", "d", TaskStatus::Complete),
        task("5", "e", TaskStatus::Paused),
    ];
    assert_eq!(st.counts(), (2, 1, 1));
    assert!(st.has_running_tasks());
    st.tasks = vec![task("4", "d", TaskStatus::Complete), task("5", "e", TaskStatus::Paused)];
    assert!(!st.has_running_tasks());
}

#[test]
fn poll_success_records_transitions_newest_first() {
    let mut st = fresh_state(true);
    st.config.notify_on_error = true;
    st.config.notify_on_complete = false;
    st.tasks = vec![
        task("1", "one", TaskStatus::Active),
        task("2", "two", TaskStatus::Waiting),
        task("3", "three", TaskStatus::Paused),
    ];
    let next = vec![
        task("1", "one", TaskStatus::Complete),
        task("2", "two", TaskStatus::Error),
        task("3", "three", TaskStatus::Complete),
        task("4", "four", TaskStatus::Complete),
    ];
    let actions = st.on_poll_success(next, stat(500, 20), 19000, 0);
    assert!(actions.fetch_version);
    assert!(!actions.save_activity);
    assert_eq!(st.engine_status, EngineStatus::Ready);
    assert_eq!(st.events.len(), 2);
    assert_eq!(st.events[0].name, "two");
    assert_eq!(st.events[0].title, "Download failed");
    assert!(!st.events[0].ok);
    assert_eq!(st.events[1].name, "one");
    assert_eq!(st.events[1].title, "Download complete");
    assert_eq!(st.events[1].time.len(), 5);
    assert_eq!(actions.notices.len(), 1);
    assert_eq!(actions.notices[0].title, "Download failed");
    assert_eq!(actions.notices[0].body, "two");
    assert_eq!(st.tasks.len(), 4);
    assert_eq!(st.down_history.len(), HISTORY_LEN);
    assert_eq!(*st.down_history.back().unwrap(), 500);
    assert_eq!(*st.up_history.back().unwrap(), 20);
    assert_eq!(st.activity.total_bytes(), 500);
    assert_eq!(st.activity.bytes_on(19000), 500);

    let again = st.on_poll_success(st.tasks.clone(), stat(0, 0), 19000, 0);
    assert!(!again.fetch_version);
    assert_eq!(st.events.len(), 2);
}

#[test]
fn poll_success_saves_activity_every_thirty_ticks() {
    let mut st = fresh_state(true);
    let mut saves = 0;
    for i in 0..60 {
        let a = st.on_poll_success(Vec::new(), stat(10, 0), 19000, 0);
        if a.save_activity {
            saves += 1;
            assert!(i == 29 || i == 59);
        }
    }
    assert_eq!(saves, 2);
}

#[test]
fn events_are_capped() {
    let mut st = fresh_state(true);
    for round in 0..120 {
        let gid = format!("g{round}");
        st.tasks = vec![task(&gid, &gid, TaskStatus::Active)];
        st.on_poll_success(vec![task(&gid, &gid, TaskStatus::Complete)], stat(0, 0), 19000, 0);
    }
    assert_eq!(st.events.len(), MAX_EVENTS);
    assert_eq!(st.events[0].name, "g119");
    assert_eq!(st.events[99].name, "g20");
}

#[test]
fn poll_failure_and_respawn() {
    let mut st = fresh_state(false);
    st.on_poll_success(Vec::new(), stat(0, 0), 19000, 0);
    assert!(st.on_poll_failure());
    assert_eq!(st.engine_status, EngineStatus::Offline);
    st.on_daemon_spawned();
    assert_eq!(st.engine_status, EngineStatus::Starting);
    assert!(!st.on_poll_failure());
    assert_eq!(st.engine_status, EngineStatus::Starting);
}
