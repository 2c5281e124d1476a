use motrix::activity::ActivityLog;
use motrix::client::{
    check_reply, fetch_all_tasks_requests, pause_all_plan, pause_plan, version_text, Aria2Client,
    RpcParam, RpcRequest, TASK_PAGE,
};
use motrix::config::{generate_secret, AppConfig, ThemeMode};
use motrix::daemon::{daemon_args, install_hint, join, Platform};
use motrix::forms::{
    added_message, apply_download_settings, builtin_trackers, download_settings_options,
    initial_trackers, limit_input_text, parse_urls, read_download_settings, save_dir_update,
    sync_result, task_options, torrent_request, tracker_options, url_requests,
};
use motrix::pages::{AppIcon, Card, CardIcon, PluginsPage, Selection};
use motrix::state::{EngineStatus, TaskFilter};
use motrix::theme::StatusColors;
use motrix::types::{Task, TaskStatus};
use motrix::views::{
    context_menu, empty_state, engine_badge, engine_caption, engine_tile, folder_target, heat_level,
    heatmap, limit_caption, limit_options, remove_message, remove_task_plan, restart_requests,
    row_eta, row_size, row_speed, row_style, row_subtitle, selection_caption, shown_of_total,
    status_summary, task_tally, trash_paths, FolderTarget, MenuEntry, HEATMAP_WEEKS,
};

fn task(gid: &str, name: &str, status: TaskStatus) -> Task {
    Task {
        gid: gid.to_string(),
        name: name.to_string(),
        status,
        total_length: 0,
        completed_length: 0,
        upload_length: 0,
        download_speed: 0,
        upload_speed: 0,
        connections: 0,
        num_seeders: 0,
        dir: String::new(),
        file_path: None,
        file_count: 1,
        is_bt: false,
        error_message: None,
        uri: None,
    }
}

fn str_param(p: &RpcParam) -> &str {
    match p {
        RpcParam::Str(s) => s.as_str(),
        _ => panic!("not a string parameter"),
    }
}

fn options_of(p: &RpcParam) -> Vec<(String, String)> {
    match p {
        RpcParam::Options(o) => o.clone(),
        _ => panic!("not an options parameter"),
    }
}

fn pairs(v: &[(&str, &str)]) -> Vec<(String, String)> {
    v.iter().map(|(a, b)| (a.to_string(), b.to_string())).collect()
}

fn gid_of(r: &RpcRequest) -> &str {
    assert_eq!(r.params.len(), 1);
    str_param(&r.params[0])
}

#[test]
fn heat_levels_at_thresholds() {
    assert_eq!(heat_level(0), 0);
    assert_eq!(heat_level(1), 1);
    assert_eq!(heat_level(10 * 1024 * 1024 - 1), 1);
    assert_eq!(heat_level(10 * 1024 * 1024), 2);
    assert_eq!(heat_level(100 * 1024 * 1024), 3);
    assert_eq!(heat_level(1024 * 1024 * 1024 - 1), 3);
    assert_eq!(heat_level(1024 * 1024 * 1024), 4);
    assert_eq!(heat_level(u64::MAX), 4);
    let mut prev = 0;
    for k in 0..64 {
        let l = heat_level(1u64 << k);
        assert!(l >= prev && l <= 4);
        prev = l;
    }
}

#[test]
fn heatmap_columns() {
    let mut log = ActivityLog::new();
    // 2024-03-06 is day 19788, a Wednesday.
    let today = 19788;
    log.record_on(today, 20 * 1024 * 1024);
    log.record_on(today - 3, 5);
    let weeks = heatmap(&log, today);
    assert_eq!(weeks.len(), HEATMAP_WEEKS);
    let last = &weeks[HEATMAP_WEEKS - 1];
    // Sunday 2024-03-03 starts the last column.
    assert_eq!(last.levels, vec![Some(1), Some(0), Some(0), Some(2), None, None, None]);
    assert_eq!(last.label, "Mar");
    assert_eq!(weeks[HEATMAP_WEEKS - 2].label, "");
    // The first column (Sunday 2023-06-04) is labelled with its month.
    assert_eq!(weeks[0].label, "Jun");
    let labels: Vec<&str> = weeks.iter().map(|w| w.label).filter(|l| !l.is_empty()).collect();
    assert_eq!(labels, vec!["Jun", "Jul", "Aug", "Sep", "Oct", "Nov", "Dec", "Jan", "Feb", "Mar"]);
    assert_eq!(weeks[0].levels, vec![Some(0); 7]);
}

#[test]
fn tally_counts_paused_as_waiting() {
    let tasks = vec![
        task("1", "a", TaskStatus::Active),
        task("2", "b", TaskStatus::Paused),
        task("3", "c", TaskStatus::Waiting),
        task("4", "d", TaskStatus::Seeding),
        task("5", "e", TaskStatus::Error),
    ];
    assert_eq!(task_tally(&tasks), (1, 2, 1));
}

#[test]
fn dashboard_captions() {
    assert_eq!(engine_tile(EngineStatus::Ready), ("Ready", StatusColors::GREEN_500));
    assert_eq!(engine_tile(EngineStatus::Offline).0, "Offline");
    assert_eq!(engine_caption(true, &String::new(), Platform::MacOs), "aria2c not found \u{b7} brew install aria2");
    assert_eq!(engine_caption(false, &String::new(), Platform::Other), "aria2");
    assert_eq!(engine_caption(false, &"1.37.0".to_string(), Platform::Windows), "aria2 v1.37.0");
    assert_eq!(limit_caption(0), "Standard mode");
    assert_eq!(limit_caption(512 * 1024), "Limited to 512.0 KB/s");
    assert_eq!(limit_options(1048576), pairs(&[("max-overall-download-limit", "1048576")]));
    assert_eq!(install_hint(Platform::Windows), "winget install aria2");
    assert_eq!(install_hint(Platform::Other), "sudo apt install aria2");
}

#[test]
fn row_texts() {
    let mut t = task("1", "file", TaskStatus::Active);
    assert_eq!(row_subtitle(&t), "HTTP \u{b7} 1 file");
    t.is_bt = true;
    t.file_count = 3;
    assert_eq!(row_subtitle(&t), "BT \u{b7} 3 files");
    t.error_message = Some("boom".to_string());
    assert_eq!(row_subtitle(&t), "boom");
    assert_eq!(row_speed(&t), "\u{2014}");
    assert_eq!(row_size(&t), "\u{2014}");
    assert_eq!(row_eta(&t), "\u{2014}");
    t.download_speed = 2048;
    t.total_length = 1024 * 1024;
    t.completed_length = 1024 * 1024 - 2048 * 90;
    assert_eq!(row_speed(&t), "2.0 KB/s");
    assert_eq!(row_size(&t), "1.0 MB");
    assert_eq!(row_eta(&t), "1m 30s");
    let s = row_style(TaskStatus::Waiting);
    assert_eq!(s.label, "Queued");
    assert_eq!(s.pill_bg, StatusColors::BLUE_100);
    assert_eq!(row_style(TaskStatus::Complete).bar, StatusColors::GREEN_500);
    assert_eq!(row_style(TaskStatus::Error).label, "Error");
}

#[test]
fn menus_per_status() {
    let mut t = task("1", "f", TaskStatus::Active);
    assert_eq!(context_menu(&t), vec![MenuEntry::Pause, MenuEntry::OpenFolder, MenuEntry::Remove]);
    t.status = TaskStatus::Paused;
    t.uri = Some("http://x/y".to_string());
    assert_eq!(context_menu(&t), vec![MenuEntry::Resume, MenuEntry::OpenFolder, MenuEntry::CopyLink, MenuEntry::Remove]);
    t.status = TaskStatus::Error;
    assert_eq!(context_menu(&t), vec![MenuEntry::Restart, MenuEntry::OpenFolder, MenuEntry::CopyLink, MenuEntry::Remove]);
    t.status = TaskStatus::Complete;
    t.uri = None;
    assert_eq!(context_menu(&t), vec![MenuEntry::OpenFolder, MenuEntry::Remove]);
}

#[test]
fn remove_and_restart_requests() {
    let p = remove_task_plan("abc", TaskStatus::Paused);
    assert_eq!(p.primary.method, "remove");
    assert_eq!(gid_of(&p.primary), "abc");
    assert_eq!(p.fallback.as_ref().map(|f| f.method), Some("forceRemove"));
    let p = remove_task_plan("abc", TaskStatus::Complete);
    assert_eq!(p.primary.method, "removeDownloadResult");
    assert!(p.fallback.is_none());

    let mut t = task("g1", "f", TaskStatus::Error);
    assert!(restart_requests(&t).is_none());
    t.uri = Some("http://h/f.bin".to_string());
    t.dir = "/dl".to_string();
    let (plan, req) = restart_requests(&t).unwrap();
    assert_eq!(plan.primary.method, "removeDownloadResult");
    assert_eq!(gid_of(&plan.primary), "g1");
    assert_eq!(req.method, "addUri");
    match &req.params[0] {
        RpcParam::StrList(l) => assert_eq!(l, &vec!["http://h/f.bin".to_string()]),
        _ => panic!("uris"),
    }
    assert_eq!(options_of(&req.params[1]), pairs(&[("dir", "/dl")]));
}

#[test]
fn folder_and_trash() {
    let mut t = task("1", "pack", TaskStatus::Complete);
    assert!(matches!(folder_target(&t, true), FolderTarget::Nothing));
    t.dir = "/dl/".to_string();
    assert!(matches!(folder_target(&t, true), FolderTarget::Open(ref d) if d == "/dl/"));
    t.file_path = Some("/dl/pack/a.bin".to_string());
    assert!(matches!(folder_target(&t, true), FolderTarget::Reveal(ref p) if p == "/dl/pack/a.bin"));
    assert!(matches!(folder_target(&t, false), FolderTarget::Open(_)));

    assert_eq!(trash_paths(&t), vec!["/dl/pack/a.bin".to_string(), "/dl/pack/a.bin.aria2".to_string()]);
    t.is_bt = true;
    t.file_count = 2;
    t.dir = "/dl///".to_string();
    assert_eq!(
        trash_paths(&t),
        vec!["/dl/pack/a.bin".to_string(), "/dl/pack/a.bin.aria2".to_string(), "/dl/pack".to_string()]
    );
    t.file_path = None;
    assert_eq!(trash_paths(&t), vec!["/dl/pack".to_string()]);
}

#[test]
fn list_captions() {
    assert_eq!(remove_message(&vec![task("1", "movie.mkv", TaskStatus::Complete)]), "movie.mkv");
    assert_eq!(
        remove_message(&vec![task("1", "a", TaskStatus::Complete), task("2", "b", TaskStatus::Error)]),
        "2 tasks selected"
    );
    assert_eq!(empty_state(true, TaskFilter::All), ("No matching tasks", "Try a different search"));
    assert_eq!(empty_state(false, TaskFilter::Waiting).0, "No tasks match this filter");
    assert_eq!(empty_state(false, TaskFilter::All), ("No downloads yet", "Press + to add one"));
    assert_eq!(shown_of_total(3, 10), "3/10");
    assert_eq!(selection_caption(4), "4 selected");
    assert_eq!(status_summary(1, 2, 3), "Active 1 \u{b7} Completed 2 \u{b7} Error 3");
    assert_eq!(engine_badge(EngineStatus::Starting), (StatusColors::BLUE_500, "Engine starting"));
}

#[test]
fn selection_toggles() {
    let mut s = Selection::new();
    assert!(s.is_empty());
    s.toggle("a", false);
    s.toggle("b", true);
    assert_eq!(s.len(), 2);
    s.toggle("b", true);
    assert!(!s.contains("b"));
    assert!(s.contains("a"));
    s.toggle("c", false);
    assert_eq!(s.len(), 1);
    assert!(s.contains("c"));
    s.select_for_menu("c");
    assert!(s.contains("c"));
    s.toggle("d", true);
    s.select_for_menu("c");
    assert_eq!(s.len(), 2);
    s.select_for_menu("z");
    assert_eq!(s.len(), 1);
    assert!(s.insert("y"));
    assert!(!s.insert("y"));
    s.remove("y");
    s.remove("y");
    assert_eq!(s.len(), 1);
    let tasks = vec![task("y", "1", TaskStatus::Active), task("z", "2", TaskStatus::Active), task("q", "3", TaskStatus::Active)];
    let picked: Vec<&str> = s.selected_tasks(&tasks).iter().map(|t| t.gid.as_str()).collect();
    assert_eq!(picked, vec!["z"]);
    s.clear();
    assert!(s.is_empty());
}

#[test]
fn cards_and_icons() {
    assert_eq!(Card::BitTorrent.title(), "BitTorrent");
    assert_eq!(Card::Network.description(), "RPC endpoint and proxy");
    assert_eq!(Card::About.icon(), (CardIcon::Library("Info"), 0xEAB308));
    assert_eq!(Card::Downloads.icon(), (CardIcon::Own(AppIcon::Download), 0xEF4444));
    assert_eq!(AppIcon::Trash.path(), "icons/trash-2.svg");
    assert_eq!(AppIcon::Link.path(), "icons/link-2.svg");
    let _page = PluginsPage::new();
}

#[test]
fn url_box_and_task_options() {
    let urls = parse_urls("  http://a/1 \r\n# comment\n\n magnet:?xt=abc\n   #also\n");
    assert_eq!(urls, vec!["http://a/1".to_string(), "magnet:?xt=abc".to_string()]);
    assert!(parse_urls("\n  \n#x").is_empty());
    assert_eq!(task_options(&"/dl".to_string(), "  ", " x "), pairs(&[("dir", "/dl")]));
    assert_eq!(
        task_options(&"/dl".to_string(), " out.bin ", " 8 "),
        pairs(&[("dir", "/dl"), ("out", "out.bin"), ("split", "8")])
    );
    assert_eq!(task_options(&"/dl".to_string(), "", "0"), pairs(&[("dir", "/dl")]));
    let reqs = url_requests(urls, &pairs(&[("dir", "/dl")]));
    assert_eq!(reqs.len(), 2);
    assert_eq!(reqs[1].method, "addUri");
    assert_eq!(options_of(&reqs[1].params[1]), pairs(&[("dir", "/dl")]));
    assert_eq!(added_message(1), "Added 1 task.");
    assert_eq!(added_message(3), "Added 3 tasks.");
}

#[test]
fn torrent_is_base64_encoded() {
    let req = torrent_request(&b"d8:announce".to_vec(), pairs(&[("dir", "/dl")]));
    assert_eq!(req.method, "addTorrent");
    assert_eq!(str_param(&req.params[0]), "ZDg6YW5ub3VuY2U=");
    assert!(matches!(&req.params[1], RpcParam::StrList(l) if l.is_empty()));
    let req = torrent_request(&Vec::new(), Vec::new());
    assert_eq!(str_param(&req.params[0]), "");
}

#[test]
fn download_settings_inputs() {
    let s = read_download_settings(" 100 ", "abc", " 512 ", "", "  aria2/1.0 ");
    assert_eq!(s.max_concurrent_downloads, 64);
    assert_eq!(s.split, 16);
    assert_eq!(s.max_overall_download_limit, 512 * 1024);
    assert_eq!(s.max_overall_upload_limit, 0);
    assert_eq!(s.user_agent, "aria2/1.0");
    let s0 = read_download_settings("0", "", "x", "1", "");
    assert_eq!(s0.max_concurrent_downloads, 1);
    assert_eq!(s0.split, 16);
    assert_eq!(s0.max_overall_download_limit, 0);
    assert_eq!(s0.max_overall_upload_limit, 1024);

    let mut config = AppConfig::default_in("/dl".to_string());
    apply_download_settings(&mut config, &s);
    assert_eq!(config.max_concurrent_downloads, 64);
    assert_eq!(config.user_agent, "aria2/1.0");
    assert_eq!(config.download_dir, "/dl");
    assert_eq!(
        download_settings_options(&s),
        pairs(&[
            ("max-concurrent-downloads", "64"),
            ("max-overall-download-limit", "524288"),
            ("max-overall-upload-limit", "0"),
            ("user-agent", "aria2/1.0"),
        ])
    );
    assert_eq!(limit_input_text(0), "");
    assert_eq!(limit_input_text(524288), "512");
    assert_eq!(limit_input_text(1000), "0");
    assert_eq!(save_dir_update("  ", &"/dl".to_string()), None);
    assert_eq!(save_dir_update(" /dl ", &"/dl".to_string()), None);
    assert_eq!(save_dir_update(" /new ", &"/dl".to_string()), Some("/new".to_string()));
}

#[test]
fn tracker_lists() {
    let bundled = builtin_trackers("udp://a:1/announce\n\n  http://b/announce  \n");
    assert_eq!(bundled, vec!["udp://a:1/announce".to_string(), "http://b/announce".to_string()]);
    assert_eq!(initial_trackers(&Vec::new(), bundled.clone()), bundled);
    let configured = vec!["udp://c".to_string()];
    assert_eq!(initial_trackers(&configured, bundled.clone()), configured);
    assert_eq!(tracker_options(&bundled), pairs(&[("bt-tracker", "udp://a:1/announce,http://b/announce")]));
    assert_eq!(sync_result(Ok("x\n\ny\n".to_string())), Ok(vec!["x".to_string(), "y".to_string()]));
    assert_eq!(sync_result(Ok(" \n".to_string())), Err("Sync returned an empty list.".to_string()));
    assert_eq!(sync_result(Err("timeout".to_string())), Err("Sync failed: timeout".to_string()));
    assert_eq!(join(&Vec::new(), ","), "");
    assert_eq!(join(&vec!["a".to_string()], ","), "a");
}

#[test]
fn client_framing() {
    let mut c = Aria2Client::new(6800, "s3cret".to_string());
    assert_eq!(c.endpoint(), "http://127.0.0.1:6800/jsonrpc");
    let call = c.call("pause", vec![RpcParam::Str("g".to_string())]);
    assert_eq!(call.method, "aria2.pause");
    assert_eq!(call.params.len(), 2);
    assert_eq!(str_param(&call.params[0]), "token:s3cret");
    assert_eq!(str_param(&call.params[1]), "g");
    let next = c.call("getVersion", Vec::new());
    assert_eq!(next.id, call.id + 1);
    let mut open = Aria2Client::new(1, String::new());
    let call = open.call("getVersion", Vec::new());
    assert!(call.params.is_empty());
    assert_eq!(call.id, 1);
    assert_eq!(open.call("getVersion", Vec::new()).id, 2);
    assert_eq!(open.call("getVersion", Vec::new()).id, 3);
    assert_eq!(open.endpoint(), "http://127.0.0.1:1/jsonrpc");

    assert_eq!(check_reply(None, true), Ok(()));
    assert_eq!(check_reply(None, false), Err("aria2: missing result".to_string()));
    assert_eq!(check_reply(Some(None), true), Err("aria2: unknown aria2 error".to_string()));
    assert_eq!(check_reply(Some(Some("bad gid".to_string())), false), Err("aria2: bad gid".to_string()));
    assert_eq!(version_text(None), "unknown");
    assert_eq!(version_text(Some("1.37.0".to_string())), "1.37.0");

    let (a, w, s) = fetch_all_tasks_requests();
    assert_eq!(a.method, "tellActive");
    assert_eq!(w.method, "tellWaiting");
    assert!(matches!(w.params[1], RpcParam::Int(n) if n == TASK_PAGE));
    assert_eq!(s.method, "tellStopped");
    match &a.params[0] {
        RpcParam::StrList(keys) => {
            assert_eq!(keys.len(), 16);
            assert_eq!(keys[0], "gid");
            assert_eq!(keys[15], "errorMessage");
        }
        _ => panic!("keys"),
    }
    let p = pause_plan("g");
    assert_eq!((p.primary.method, p.fallback.as_ref().unwrap().method), ("pause", "forcePause"));
    let p = pause_all_plan();
    assert_eq!(p.fallback.unwrap().method, "forcePauseAll");
}

#[test]
fn config_defaults_and_secret() {
    let c = AppConfig::default_in("/home/u/Downloads".to_string());
    assert_eq!(c.theme, ThemeMode::System);
    assert_eq!(c.rpc_port, 29101);
    assert_eq!(c.split, 16);
    assert_eq!(c.max_concurrent_downloads, 5);
    assert_eq!(c.user_agent, "Transmission/4.0.5");
    assert!(c.notify_on_complete && !c.notify_on_error);
    let s = generate_secret();
    assert_eq!(s.len(), 32);
    assert!(s.chars().all(|ch| ch.is_ascii_hexdigit() && !ch.is_ascii_uppercase()));
}

#[test]
fn daemon_arguments_follow_config() {
    let mut c = AppConfig::default_in("/dl".to_string());
    c.rpc_secret = "tok".to_string();
    c.split = 32;
    c.max_overall_upload_limit = 2048;
    let builtin = vec!["udp://t1".to_string(), "udp://t2".to_string()];
    let args = daemon_args(&c, "/data/aria2.session", &builtin);
    assert_eq!(args[0], "--enable-rpc=true");
    assert_eq!(args[1], "--rpc-listen-port=29101");
    assert_eq!(args[4], "--dir=/dl");
    assert_eq!(args[5], "--save-session=/data/aria2.session");
    assert_eq!(args[6], "--input-file=/data/aria2.session");
    assert_eq!(args[10], "--split=32");
    assert_eq!(args[11], "--max-connection-per-server=16");
    assert_eq!(args[22], "--quiet=true");
    assert_eq!(
        &args[23..],
        &[
            "--rpc-secret=tok".to_string(),
            "--user-agent=Transmission/4.0.5".to_string(),
            "--max-overall-upload-limit=2048".to_string(),
            "--bt-tracker=udp://t1,udp://t2".to_string(),
        ]
    );
    c.rpc_secret = String::new();
    c.user_agent = String::new();
    c.max_overall_upload_limit = 0;
    c.split = 4;
    c.bt_trackers = vec!["udp://mine".to_string()];
    let args = daemon_args(&c, "s", &builtin);
    assert_eq!(args[11], "--max-connection-per-server=4");
    assert_eq!(&args[23..], &["--bt-tracker=udp://mine".to_string()]);
    c.bt_trackers.clear();
    assert_eq!(daemon_args(&c, "s", &Vec::new()).len(), 23);
}
