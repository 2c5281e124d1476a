use std::collections::VecDeque;

use motrix::activity::ActivityLog;
use motrix::client::RpcParam;
use motrix::config::{AppConfig, ThemeMode};
use motrix::daemon::{aria2c_candidates, aria2c_exe, not_found_message, Platform};
use motrix::forms::{parse_urls, submit_torrent, submit_urls, task_options, torrent_label};
use motrix::notify::{asks_permission, notification_route, osascript_script, NotificationRoute};
use motrix::pages::{about_caption, credits, secret_caption, settings_grid, theme_choices, AppIcon, Card, Toggle};
use motrix::state::{hhmm, AppState, HISTORY_LEN};
use motrix::theme::{inset_bg, palette, Shade};
use motrix::trackers::{TrackerSource, TrackersModel};
use motrix::types::{p64, GlobalStat, Task, TaskStatus};
use motrix::views::{
    all_time_caption, choose_limit, event_dot, has_samples, limit_chips, removal_steps, task_tally,
    trash_entry_for, trash_entry_name,
};

fn task(gid: &str, name: &str, status: TaskStatus) -> Task {
    Task {
        gid: gid.to_string(),
        name: name.to_string(),
        status,
        total_length: 0,
        completed_length: 0,
        upload_length: 0,
        download_speed: 0,
        upload_speed: 0,
        connections: 0,
        num_seeders: 0,
        dir: String::new(),
        file_path: None,
        file_count: 1,
        is_bt: false,
        error_message: None,
        uri: None,
    }
}

fn str_param(p: &RpcParam) -> &str {
    match p {
        RpcParam::Str(s) => s.as_str(),
        _ => panic!("not a string parameter"),
    }
}

fn options(p: &RpcParam) -> Vec<(String, String)> {
    match p {
        RpcParam::Options(o) => o.clone(),
        _ => panic!("not options"),
    }
}

fn state() -> AppState {
    AppState::new(AppConfig::default_in("/dl".to_string()), true, ActivityLog::new())
}

#[test]
fn activity_entries_round_trip() {
    let mut log = ActivityLog::new();
    log.record_on(19000, 10);
    log.record_on(-3, 7);
    log.record_on(19000, 5);
    log.record_on(0, 0);
    let mut entries = log.to_entries();
    entries.sort();
    assert_eq!(entries, vec![("-3".to_string(), 7), ("19000".to_string(), 15)]);
    let back = ActivityLog::from_entries(entries);
    assert_eq!(back.bytes_on(19000), 15);
    assert_eq!(back.bytes_on(-3), 7);
    assert_eq!(back.bytes_on(0), 0);
    assert_eq!(back.total_bytes(), 22);
}

#[test]
fn recording_adds_to_the_total() {
    let mut log = ActivityLog::new();
    let mut expected = 0;
    for (i, b) in [5u64, 0, 17, 1 << 40, 3].iter().enumerate() {
        log.record_on(i as i64 % 2, *b);
        expected += b;
        assert_eq!(log.total_bytes(), expected);
    }
}

#[test]
fn history_window_stays_at_sixty() {
    let mut st = state();
    for k in 1..=75u64 {
        let stat = GlobalStat { download_speed: k, upload_speed: 0, num_active: 0, num_waiting: 0, num_stopped: 0 };
        st.on_poll_success(Vec::new(), stat, 19000, 0);
        assert_eq!(st.down_history.len(), HISTORY_LEN);
        assert_eq!(*st.down_history.back().unwrap(), k);
    }
    assert_eq!(*st.down_history.front().unwrap(), 16);
}

#[test]
fn kept_urls_are_clean() {
    for text in ["  a \n#b\n\t c\t\r\n\n", "\u{3000}x\u{3000}\n  # y", ""] {
        for u in parse_urls(text) {
            assert!(!u.is_empty());
            assert_eq!(u.trim(), u);
            assert!(!u.starts_with('#'));
        }
    }
}

#[test]
fn active_count_matches_tally() {
    let mut st = state();
    st.tasks = vec![
        task("1", "a", TaskStatus::Active),
        task("2", "b", TaskStatus::Seeding),
        task("3", "c", TaskStatus::Paused),
        task("4", "d", TaskStatus::Active),
    ];
    let (down, _, seed) = task_tally(&st.tasks);
    assert_eq!(st.counts().0, down + seed);
}

#[test]
fn trackers_page_sync_flow() {
    let builtin = vec!["udp://b1".to_string()];
    let mut m = TrackersModel::new(&Vec::new(), builtin.clone());
    assert_eq!(m.trackers, builtin);
    assert_eq!(
        m.start_sync(TrackerSource::Best),
        Some("https://raw.githubusercontent.com/ngosang/trackerslist/master/trackers_best.txt")
    );
    assert!(m.loading);
    assert_eq!(m.start_sync(TrackerSource::All), None);
    m.finish_sync(Err("timed out".to_string()));
    assert!(!m.loading);
    assert_eq!(m.error.as_deref(), Some("Sync failed: timed out"));
    assert_eq!(m.trackers, builtin);
    assert_eq!(
        m.start_sync(TrackerSource::All),
        Some("https://raw.githubusercontent.com/ngosang/trackerslist/master/trackers_all.txt")
    );
    assert_eq!(m.error, None);
    m.finish_sync(Ok("\n \n".to_string()));
    assert_eq!(m.error.as_deref(), Some("Sync returned an empty list."));
    m.start_sync(TrackerSource::Best);
    m.finish_sync(Ok(" udp://x \nhttp://y\n".to_string()));
    assert_eq!(m.trackers, vec!["udp://x".to_string(), "http://y".to_string()]);
    assert_eq!(m.error, None);

    let mut config = AppConfig::default_in("/dl".to_string());
    let (plan, msg) = m.apply(&mut config);
    assert_eq!(config.bt_trackers, m.trackers);
    assert_eq!(plan.primary.method, "changeGlobalOption");
    assert_eq!(options(&plan.primary.params[0]), vec![("bt-tracker".to_string(), "udp://x,http://y".to_string())]);
    assert_eq!(msg, "2 trackers applied to the engine.");

    let configured = vec!["udp://c".to_string()];
    assert_eq!(TrackersModel::new(&configured, builtin).trackers, configured);
}

#[test]
fn new_task_submission() {
    let opts = vec![("dir".to_string(), "/dl".to_string())];
    assert_eq!(submit_urls(" \n# only a comment\n", &opts).err(), Some("Enter at least one URL."));
    let (reqs, msg) = submit_urls("http://a\nhttp://b\n", &opts).unwrap();
    assert_eq!(reqs.len(), 2);
    assert_eq!(msg, "Added 2 tasks.");
    match &reqs[0].params[0] {
        RpcParam::StrList(l) => assert_eq!(l, &vec!["http://a".to_string()]),
        _ => panic!("uris"),
    }
    let (_, msg) = submit_urls("magnet:?xt=1", &opts).unwrap();
    assert_eq!(msg, "Added 1 task.");

    assert_eq!(submit_torrent(None, opts.clone()).err(), Some("Choose a .torrent file first."));
    assert_eq!(submit_torrent(Some(None), opts.clone()).err(), Some("Failed to read the torrent file."));
    let (req, msg) = submit_torrent(Some(Some(b"abc".to_vec())), opts.clone()).unwrap();
    assert_eq!(msg, "Torrent task added.");
    assert_eq!(req.method, "addTorrent");
    assert_eq!(str_param(&req.params[0]), "YWJj");
    assert_eq!(options(&req.params[2]), opts);
}

#[test]
fn dashboard_limit_chips_and_charts() {
    let chips = limit_chips(1024 * 1024);
    let summary: Vec<(&str, &str, u64, bool)> = chips.iter().map(|c| (c.id, c.label, c.limit, c.active)).collect();
    assert_eq!(
        summary,
        vec![
            ("limit-off", "Full", 0, false),
            ("limit-10m", "10M", 10 * 1024 * 1024, false),
            ("limit-1m", "1M", 1024 * 1024, true)
        ]
    );
    assert!(limit_chips(0)[0].active);
    assert!(limit_chips(5).iter().all(|c| !c.active));

    let mut config = AppConfig::default_in("/dl".to_string());
    let plan = choose_limit(&mut config, 10 * 1024 * 1024);
    assert_eq!(config.max_overall_download_limit, 10485760);
    assert_eq!(options(&plan.primary.params[0]), vec![("max-overall-download-limit".to_string(), "10485760".to_string())]);

    let mut h: VecDeque<u64> = VecDeque::from(vec![0; 60]);
    assert!(!has_samples(&h));
    h[59] = 3;
    assert!(has_samples(&h));
    assert!(!has_samples(&VecDeque::new()));
    assert_eq!(all_time_caption(0), "All time \u{b7} 0 B");
    assert_eq!(all_time_caption(3 * 1024 * 1024 * 1024), "All time \u{b7} 3.0 GB");
    assert_eq!(event_dot(true), 0x22C55E);
    assert_eq!(event_dot(false), 0xEF4444);
}

#[test]
fn removal_steps_and_trash_names() {
    let mut a = task("a", "pkg", TaskStatus::Complete);
    a.file_path = Some("/dl/pkg.zip".to_string());
    let b = task("b", "run", TaskStatus::Active);
    let tasks = vec![a, b];
    let steps = removal_steps(&tasks, true);
    assert_eq!(steps.len(), 2);
    assert_eq!(steps[0].trash, vec!["/dl/pkg.zip".to_string(), "/dl/pkg.zip.aria2".to_string()]);
    assert_eq!(steps[0].plan.primary.method, "removeDownloadResult");
    assert!(steps[1].trash.is_empty());
    assert_eq!(steps[1].plan.primary.method, "remove");
    assert_eq!(steps[1].plan.fallback.as_ref().unwrap().method, "forceRemove");
    assert!(removal_steps(&tasks, false).iter().all(|s| s.trash.is_empty()));

    assert_eq!(trash_entry_name(Some("pkg.zip".to_string()), false, 99), "pkg.zip");
    assert_eq!(trash_entry_name(Some("pkg.zip".to_string()), true, 1700000000), "pkg.zip-1700000000");
    assert_eq!(trash_entry_name(None, false, 5), "download");
    assert_eq!(trash_entry_name(None, true, 5), "download-5");
}

#[test]
fn settings_models() {
    let grid = settings_grid();
    assert_eq!(grid.len(), 3);
    assert_eq!(grid[0], vec![Card::General, Card::Appearance, Card::Downloads]);
    assert_eq!(grid[2], vec![Card::Advanced, Card::About]);

    let mut config = AppConfig::default_in("/dl".to_string());
    assert!(!Toggle::NotifyOnError.value(&config));
    Toggle::NotifyOnError.set(&mut config, true);
    assert!(config.notify_on_error);
    assert!(config.notify_on_complete);
    Toggle::WarnBeforeQuit.set(&mut config, false);
    assert!(!config.warn_before_quit);
    assert!(!Toggle::WarnBeforeQuit.value(&config));
    Toggle::ResumeOnLaunch.set(&mut config, true);
    assert!(config.resume_all_when_app_launched);

    let choices = theme_choices(ThemeMode::Dark);
    let summary: Vec<(&str, &str, bool)> = choices.iter().map(|c| (c.id, c.label, c.active)).collect();
    assert_eq!(summary, vec![("theme-system", "Auto", false), ("theme-light", "Light", false), ("theme-dark", "Dark", true)]);

    assert_eq!(secret_caption(&String::new()), "(none)");
    assert_eq!(secret_caption(&"abc".to_string()), "abc");
    assert_eq!(about_caption(&String::new()), "Version 0.1.0 \u{b7} aria2 \u{2014}");
    assert_eq!(about_caption(&"1.37.0".to_string()), "Version 0.1.0 \u{b7} aria2 v1.37.0");
    let c = credits();
    assert_eq!(c.len(), 6);
    assert_eq!(c[5], ("trackerslist", "https://github.com/ngosang/trackerslist"));
}

#[test]
fn icons_by_path() {
    for icon in [AppIcon::Download, AppIcon::Trash, AppIcon::FileText, AppIcon::Link] {
        assert_eq!(AppIcon::from_path(icon.path()), Some(icon));
    }
    assert_eq!(AppIcon::from_path("icons/bell.svg"), None);
    assert_eq!(AppIcon::from_path(""), None);
}

#[test]
fn notifications() {
    assert_eq!(
        osascript_script("Say \"hi\"", "C:\\dir \"x\""),
        "display notification \"C:dir 'x'\" with title \"Say 'hi'\""
    );
    assert!(matches!(notification_route(Platform::MacOs, true, "t", "b"), NotificationRoute::NotificationCenter));
    assert!(matches!(notification_route(Platform::Other, false, "t", "b"), NotificationRoute::Desktop));
    match notification_route(Platform::MacOs, false, "Done", "file") {
        NotificationRoute::AppleScript(s) => assert_eq!(s, "display notification \"file\" with title \"Done\""),
        _ => panic!("expected a script"),
    }
    assert!(asks_permission(Platform::MacOs, true));
    assert!(!asks_permission(Platform::MacOs, false));
    assert!(!asks_permission(Platform::Windows, true));
}

#[test]
fn palettes() {
    let light = palette(false);
    let dark = palette(true);
    assert_eq!(light.background, Shade::Solid(0xFFFFFF));
    assert_eq!(dark.background, Shade::Solid(0x0A0A0A));
    assert_eq!(light.sidebar, Shade::Rgba(0xFFFFFF8C));
    assert_eq!(dark.border, Shade::Translucent(0xFFFFFF, 10));
    assert_eq!(light.chart_1, Shade::Solid(0x16BCE9));
    assert_eq!(dark.chart_2, Shade::Solid(0x7C76F9));
    assert_eq!((light.radius, light.radius_lg), (8, 14));
    assert_eq!(inset_bg(true), Shade::Translucent(0x0A0A0A, 80));
    assert_eq!(inset_bg(false), Shade::Translucent(0xFFFFFF, 88));
}

#[test]
fn aria2c_search() {
    let path = vec!["/usr/bin".to_string(), "/bin".to_string()];
    let c = aria2c_candidates(Some("/app/bin".to_string()), Some("/app".to_string()), &path, Platform::MacOs);
    let flat: Vec<(String, Vec<&str>)> = c.iter().map(|p| (p.base.clone(), p.rest.clone())).collect();
    assert_eq!(
        flat,
        vec![
            ("/app/bin".to_string(), vec!["aria2c"]),
            ("/app".to_string(), vec!["Resources", "aria2c"]),
            ("/usr/bin".to_string(), vec!["aria2c"]),
            ("/bin".to_string(), vec!["aria2c"]),
            ("/opt/homebrew/bin/aria2c".to_string(), vec![]),
            ("/usr/local/bin/aria2c".to_string(), vec![]),
            ("/usr/bin/aria2c".to_string(), vec![]),
        ]
    );
    let c = aria2c_candidates(Some("D:\\m".to_string()), Some("D:\\".to_string()), &Vec::new(), Platform::Windows);
    let flat: Vec<(String, Vec<&str>)> = c.iter().map(|p| (p.base.clone(), p.rest.clone())).collect();
    assert_eq!(
        flat,
        vec![
            ("D:\\m".to_string(), vec!["aria2c.exe"]),
            ("C:\\Program Files\\aria2\\aria2c.exe".to_string(), vec![]),
            ("C:\\ProgramData\\chocolatey\\bin\\aria2c.exe".to_string(), vec![]),
        ]
    );
    assert_eq!(aria2c_candidates(None, None, &Vec::new(), Platform::Other).len(), 3);
    assert_eq!(aria2c_exe(Platform::Other), "aria2c");
    assert_eq!(not_found_message(Platform::Other), "aria2c not found. Install it with `sudo apt install aria2`.");
}

#[test]
fn quitting_and_launching() {
    let mut st = state();
    assert!(!st.should_warn_on_quit());
    st.tasks = vec![task("1", "a", TaskStatus::Waiting)];
    assert!(st.should_warn_on_quit());
    st.config.warn_before_quit = false;
    assert!(!st.should_warn_on_quit());
    let plans = st.shutdown_plans();
    let methods: Vec<&str> = plans.iter().map(|p| p.primary.method).collect();
    assert_eq!(methods, vec!["saveSession", "shutdown"]);
    st.daemon_running = false;
    assert!(st.shutdown_plans().is_empty());
    assert!(st.launch_plan().is_none());
    st.config.resume_all_when_app_launched = true;
    assert_eq!(st.launch_plan().unwrap().primary.method, "unpauseAll");
}

#[test]
fn header_counts_and_search_toggle() {
    let mut st = state();
    st.tasks = vec![
        task("1", "alpha", TaskStatus::Active),
        task("2", "beta", TaskStatus::Removed),
        task("3", "alphabet", TaskStatus::Complete),
    ];
    assert_eq!(st.header_counts(), (2, 2));
    st.toggle_search();
    assert!(st.search_open);
    st.search_query = "bet".to_string();
    assert_eq!(st.header_counts(), (1, 2));
    st.toggle_search();
    assert!(!st.search_open);
    assert_eq!(st.search_query, "");
    assert_eq!(st.header_counts(), (2, 2));
}

#[test]
fn clock_text() {
    assert_eq!(hhmm(0), "00:00");
    assert_eq!(hhmm(3600 * 13 + 60 * 7 + 59), "13:07");
    assert_eq!(hhmm(86400 * 3 + 3600 * 23 + 60 * 59), "23:59");
    assert_eq!(hhmm(-60), format!("{:02}:{:02}", (-60i64 / 3600) % 24, (-60i64 / 60) % 60));
    for s in (0..200_000i64).step_by(7919) {
        let t = hhmm(s);
        assert_eq!(t.len(), 5);
        assert_eq!(&t[2..3], ":");
    }
}

#[test]
fn filter_change_clears_selection() {
    let mut st = state();
    st.selected.toggle("a", false);
    st.selected.toggle("b", true);
    assert_eq!(st.selected.len(), 2);
    st.set_filter(motrix::state::TaskFilter::Completed);
    assert!(st.selected.is_empty());
    assert_eq!(st.filter, motrix::state::TaskFilter::Completed);
}

#[test]
fn torrent_encoding_vectors() {
    for (input, expected) in [
        ("", ""),
        ("f", "Zg=="),
        ("fo", "Zm8="),
        ("foo", "Zm9v"),
        ("foob", "Zm9vYg=="),
        ("fooba", "Zm9vYmE="),
        ("foobar", "Zm9vYmFy"),
    ] {
        match submit_torrent(Some(Some(input.as_bytes().to_vec())), Vec::new()) {
            Ok((req, _)) => assert_eq!(str_param(&req.params[0]), expected),
            Err(e) => panic!("{e}"),
        }
    }
    let bytes: Vec<u8> = vec![0, 0xff, 0xfe, 0x3e, 0x3f, 0x80];
    match submit_torrent(Some(Some(bytes)), Vec::new()) {
        Ok((req, _)) => assert_eq!(str_param(&req.params[0]), "AP/+Pj+A"),
        Err(e) => panic!("{e}"),
    }
}

#[test]
fn filter_menu_entries() {
    let menu = motrix::views::filter_menu(motrix::state::TaskFilter::Waiting);
    let expected = vec![
        (motrix::state::TaskFilter::All, false),
        (motrix::state::TaskFilter::Downloading, false),
        (motrix::state::TaskFilter::Waiting, true),
        (motrix::state::TaskFilter::Completed, false),
        (motrix::state::TaskFilter::Stopped, false),
    ];
    assert_eq!(menu, expected);
}

#[test]
fn settings_saving_messages() {
    let mut config = AppConfig::default_in("/dl".to_string());
    let s = motrix::forms::read_download_settings("8", "4", "100", "", " ua ");
    let (plan, msg) = motrix::forms::save_download_settings(&mut config, &s);
    assert_eq!(msg, "Download settings saved.");
    assert_eq!(config.max_concurrent_downloads, 8);
    assert_eq!(config.split, 4);
    assert_eq!(
        options(&plan.primary.params[0]),
        vec![
            ("max-concurrent-downloads".to_string(), "8".to_string()),
            ("max-overall-download-limit".to_string(), "102400".to_string()),
            ("max-overall-upload-limit".to_string(), "0".to_string()),
            ("user-agent".to_string(), "ua".to_string()),
        ]
    );
    let (plan, msg) = motrix::forms::save_tracker_list(&mut config, " udp://a \n\nudp://b\n");
    assert_eq!(msg, "Tracker list saved.");
    assert_eq!(config.bt_trackers, vec!["udp://a".to_string(), "udp://b".to_string()]);
    assert_eq!(options(&plan.primary.params[0]), vec![("bt-tracker".to_string(), "udp://a,udp://b".to_string())]);
    let (plan, msg) = motrix::forms::clear_history();
    assert_eq!(msg, "Download history cleared.");
    assert_eq!(plan.primary.method, "purgeDownloadResult");
}

#[test]
fn rpc_port_input() {
    let f = motrix::forms::rpc_port_update;
    assert_eq!(f(" 6800 ", 29101), Some(6800));
    assert_eq!(f("29101", 29101), None);
    assert_eq!(f("65536", 29101), None);
    assert_eq!(f("65535", 29101), Some(65535));
    assert_eq!(f("abc", 29101), None);
    assert_eq!(f("", 29101), None);
}

#[test]
fn plan_steps() {
    let p = motrix::client::pause_plan("g");
    assert!(matches!(motrix::client::after_primary(p.fallback, Ok(())), motrix::client::PlanStep::Done(Ok(()))));
    let p = motrix::client::pause_plan("g");
    match motrix::client::after_primary(p.fallback, Err("busy".to_string())) {
        motrix::client::PlanStep::Send(r) => assert_eq!(r.method, "forcePause"),
        _ => panic!("expected the fallback"),
    }
    let p = motrix::client::unpause_plan("g");
    match motrix::client::after_primary(p.fallback, Err("busy".to_string())) {
        motrix::client::PlanStep::Done(Err(e)) => assert_eq!(e, "busy"),
        _ => panic!("expected the failure"),
    }
}

#[test]
fn split_input_digits_only() {
    assert!(motrix::forms::split_input_ok(""));
    assert!(motrix::forms::split_input_ok("16"));
    assert!(!motrix::forms::split_input_ok("1a"));
    assert!(!motrix::forms::split_input_ok(" 8"));
    assert!(!motrix::forms::split_input_ok("8\n"));
    assert!(motrix::forms::split_input_ok("\u{0663}"));
}

#[test]
fn name_from_selected_file_path() {
    let file = |path: &str, sel: &str| motrix::types::RawFile {
        path: path.to_string(),
        length: None,
        completed_length: None,
        selected: Some(sel.to_string()),
        uris: Vec::new(),
    };
    let raw = motrix::types::RawTask {
        gid: "g".to_string(),
        status: "active".to_string(),
        total_length: None,
        completed_length: None,
        upload_length: None,
        download_speed: None,
        upload_speed: None,
        connections: None,
        num_seeders: None,
        seeder: None,
        dir: None,
        files: vec![file("/d/first.bin", "false"), file("/d/second.bin", "true")],
        bittorrent: None,
        info_hash: None,
        error_code: None,
        error_message: None,
    };
    assert_eq!(Task::from_raw(raw).name, "second.bin");
}

fn raw_with_path(path: &str, uri: Option<&str>) -> motrix::types::RawTask {
    motrix::types::RawTask {
        gid: "7".to_string(),
        status: "paused".to_string(),
        total_length: Some("2048".to_string()),
        completed_length: Some("abc".to_string()),
        upload_length: None,
        download_speed: None,
        upload_speed: None,
        connections: None,
        num_seeders: None,
        seeder: None,
        dir: None,
        files: vec![motrix::types::RawFile {
            path: path.to_string(),
            length: None,
            completed_length: None,
            selected: None,
            uris: match uri {
                Some(u) => vec![motrix::types::RawUri { uri: u.to_string() }],
                None => Vec::new(),
            },
        }],
        bittorrent: None,
        info_hash: None,
        error_code: None,
        error_message: None,
    }
}

#[test]
fn empty_path_takes_name_from_uri() {
    let t = Task::from_raw(raw_with_path("", Some("https://x.org/pub/file.zip?sig=1")));
    assert_eq!(t.name, "file.zip");
    assert_eq!(t.uri, Some("https://x.org/pub/file.zip?sig=1".to_string()));
    assert_eq!(t.file_path, None);
    assert_eq!(t.status, TaskStatus::Paused);
    assert_eq!(t.total_length, 2048);
    assert_eq!(t.completed_length, 0);
    assert_eq!(t.file_count, 1);
    assert!(!t.is_bt);
}

#[test]
fn trailing_separators_and_dots_in_paths() {
    assert_eq!(Task::from_raw(raw_with_path("/d/dir/", None)).name, "dir");
    assert_eq!(Task::from_raw(raw_with_path("a/.", None)).name, "a");
    assert_eq!(Task::from_raw(raw_with_path("./", Some("http://h/x.iso"))).name, "x.iso");
    assert_eq!(Task::from_raw(raw_with_path("/d/..", None)).name, "Task 7");
    assert_eq!(Task::from_raw(raw_with_path("/", None)).name, "Task 7");
}

#[test]
fn torrent_picker_label() {
    assert_eq!(torrent_label(&None), "Click to select a .torrent file");
    assert_eq!(torrent_label(&Some("/home/u/ubuntu.torrent".to_string())), "ubuntu.torrent");
    assert_eq!(torrent_label(&Some("/tmp/dl/".to_string())), "dl");
    assert_eq!(torrent_label(&Some("/".to_string())), "torrent file");
    assert_eq!(torrent_label(&Some(String::new())), "torrent file");
}

#[test]
fn trash_names_from_paths() {
    assert_eq!(trash_entry_for("/d/movie.mkv", false, 5), "movie.mkv");
    assert_eq!(trash_entry_for("/d/movie.mkv", true, 1700000000), "movie.mkv-1700000000");
    assert_eq!(trash_entry_for("/d/..", true, 3), "download-3");
}

#[test]
fn numeric_fields_follow_str_parse() {
    let f = |s: &str| p64(&Some(s.to_string()));
    assert_eq!(f("2048"), 2048);
    assert_eq!(f("+17"), 17);
    assert_eq!(f("007"), 7);
    assert_eq!(f("18446744073709551615"), u64::MAX);
    assert_eq!(f("18446744073709551616"), 0);
    assert_eq!(f(""), 0);
    assert_eq!(f("+"), 0);
    assert_eq!(f("-1"), 0);
    assert_eq!(f(" 5"), 0);
    assert_eq!(f("1e3"), 0);
    assert_eq!(p64(&None), 0);
}

#[test]
fn activity_days_follow_signed_parse() {
    let log = ActivityLog::from_entries(vec![
        ("-9223372036854775808".to_string(), 1),
        ("9223372036854775807".to_string(), 2),
        ("9223372036854775808".to_string(), 4),
        ("+12".to_string(), 8),
        ("-".to_string(), 16),
    ]);
    assert_eq!(log.bytes_on(i64::MIN), 1);
    assert_eq!(log.bytes_on(i64::MAX), 2);
    assert_eq!(log.bytes_on(12), 8);
    assert_eq!(log.total_bytes(), 11);
}

#[test]
fn connections_input_fits_u32() {
    let dir = "/dl".to_string();
    let split = |s: &str| task_options(&dir, "", s).iter().find(|p| p.0 == "split").map(|p| p.1.clone());
    assert_eq!(split(" 4294967295 "), Some("4294967295".to_string()));
    assert_eq!(split("4294967296"), None);
    assert_eq!(split("+8"), Some("8".to_string()));
    assert_eq!(split("-8"), None);
    assert_eq!(split("0"), None);
}

#[test]
fn drive_letter_paths_keep_their_file_name() {
    assert_eq!(Task::from_raw(raw_with_path("C:/Users/me/x.bin", None)).name, "x.bin");
    assert_eq!(Task::from_raw(raw_with_path("D:/dl/dir/", None)).name, "dir");
    assert_eq!(Task::from_raw(raw_with_path("/srv/a:b.iso", None)).name, "a:b.iso");
    assert_eq!(torrent_label(&Some("E:/t/ubuntu.torrent".to_string())), "ubuntu.torrent");
}

#[test]
fn activity_json_save_and_load() {
    let mut log = ActivityLog::new();
    log.record_on(19000, 10);
    log.record_on(-3, 7);
    let text = log.save().expect("serializable");
    let back = ActivityLog::load(Some(text));
    assert_eq!(back.bytes_on(19000), 10);
    assert_eq!(back.bytes_on(-3), 7);
    assert_eq!(back.total_bytes(), 17);
    let parsed = ActivityLog::load(Some("{\"19001\": 5, \"oops\": 9, \"-1\": 2}".to_string()));
    assert_eq!(parsed.bytes_on(19001), 5);
    assert_eq!(parsed.bytes_on(-1), 2);
    assert_eq!(parsed.total_bytes(), 7);
    assert_eq!(ActivityLog::load(Some("{\"1\": -5}".to_string())).total_bytes(), 0);
    assert_eq!(ActivityLog::load(Some("not json".to_string())).total_bytes(), 0);
    assert_eq!(ActivityLog::load(None).total_bytes(), 0);
    assert_eq!(ActivityLog::new().save(), Some("{}".to_string()));
}

#[test]
fn recording_grows_the_total_by_the_bytes() {
    let mut log = ActivityLog::from_entries(vec![("3".to_string(), 4), ("8".to_string(), 1)]);
    log.record_on(3, 6);
    assert_eq!(log.total_bytes(), 11);
    log.record_on(9, 0);
    assert_eq!(log.total_bytes(), 11);
    assert_eq!(log.bytes_on(9), 0);
}
