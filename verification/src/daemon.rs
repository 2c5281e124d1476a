//! How the local aria2c process is launched.

use vstd::prelude::*;

use crate::config::AppConfig;
use crate::types::opt_chars;
use crate::text::{dec_nat, owned, push_decimal, push_str};

verus! {

/// The operating system the application runs on.
#[derive(Debug, Clone, Copy, PartialEq, Eq, Structural)]
pub enum Platform {
    Windows,
    MacOs,
    Other,
}

pub open spec fn install_hint_text(p: Platform) -> Seq<char> {
    match p {
        Platform::Windows => "winget install aria2"@,
        Platform::MacOs => "brew install aria2"@,
        Platform::Other => "sudo apt install aria2"@,
    }
}

/// Per-platform hint shown when aria2c cannot be found.
pub fn install_hint(platform: Platform) -> (r: &'static str)
    ensures
        r@ == install_hint_text(platform),
{
    match platform {
        Platform::Windows => "winget install aria2",
        Platform::MacOs => "brew install aria2",
        Platform::Other => "sudo apt install aria2",
    }
}

/// The error of a launch without an aria2c binary.
pub fn not_found_message(platform: Platform) -> (r: String)
    ensures
        r@ == "aria2c not found. Install it with `"@ + install_hint_text(platform) + "`."@,
{
    let mut s = owned("aria2c not found. Install it with `");
    push_str(&mut s, install_hint(platform));
    push_str(&mut s, "`.");
    s
}

pub open spec fn exe_name(p: Platform) -> Seq<char> {
    match p {
        Platform::Windows => "aria2c.exe"@,
        _ => "aria2c"@,
    }
}

/// The file name of the aria2c binary.
pub fn aria2c_exe(platform: Platform) -> (r: &'static str)
    ensures
        r@ == exe_name(platform),
{
    match platform {
        Platform::Windows => "aria2c.exe",
        _ => "aria2c",
    }
}

/// A place where aria2c may be installed: `base` with the path components
/// `rest` joined onto it.
pub struct PathCandidate {
    pub base: String,
    pub rest: Vec<&'static str>,
}

pub open spec fn candidate_is(c: PathCandidate, base: Seq<char>, rest: Seq<Seq<char>>) -> bool {
    c.base@ == base && c.rest@.map_values(|s: &'static str| s@) == rest
}

/// The fixed install locations tried last.
pub open spec fn fixed_locations(p: Platform) -> Seq<Seq<char>> {
    match p {
        Platform::Windows => seq!["C:\\Program Files\\aria2\\aria2c.exe"@, "C:\\ProgramData\\chocolatey\\bin\\aria2c.exe"@],
        _ => seq!["/opt/homebrew/bin/aria2c"@, "/usr/local/bin/aria2c"@, "/usr/bin/aria2c"@],
    }
}

/// Where aria2c is looked for, in order: next to the executable (in the
/// directory `exe_dir`), in a macOS bundle's `Resources` (beside `exe_dir`,
/// inside its parent `exe_dir_parent`), in each directory of the `PATH`, and
/// at the fixed install locations. The first that is a file is used.
pub open spec fn search_order(
    exe_dir: Option<Seq<char>>,
    exe_dir_parent: Option<Seq<char>>,
    path_dirs: Seq<Seq<char>>,
    p: Platform,
) -> Seq<(Seq<char>, Seq<Seq<char>>)> {
    let exe = exe_name(p);
    let own: Seq<(Seq<char>, Seq<Seq<char>>)> = match exe_dir {
        Some(d) => {
            let here = seq![(d, seq![exe])];
            match exe_dir_parent {
                Some(parent) => if p == Platform::MacOs {
                    here.push((parent, seq!["Resources"@, exe]))
                } else {
                    here
                },
                None => here,
            }
        },
        None => Seq::empty(),
    };
    own + path_dirs.map_values(|d: Seq<char>| (d, seq![exe])) + fixed_locations(p).map_values(
        |f: Seq<char>| (f, Seq::<Seq<char>>::empty()),
    )
}

pub open spec fn candidates_match(c: Seq<PathCandidate>, order: Seq<(Seq<char>, Seq<Seq<char>>)>) -> bool {
    &&& c.len() == order.len()
    &&& forall|i: int| 0 <= i < c.len() ==> candidate_is(#[trigger] c[i], order[i].0, order[i].1)
}

/// The places to look for aria2c, in the order they are tried.
pub fn aria2c_candidates(
    exe_dir: Option<String>,
    exe_dir_parent: Option<String>,
    path_dirs: &Vec<String>,
    platform: Platform,
) -> (r: Vec<PathCandidate>)
    ensures
        candidates_match(
            r@,
            search_order(opt_chars(exe_dir), opt_chars(exe_dir_parent), strings(path_dirs@), platform),
        ),
{
    let exe = aria2c_exe(platform);
    let ghost ed = opt_chars(exe_dir);
    let ghost pd = opt_chars(exe_dir_parent);
    let ghost order = search_order(ed, pd, strings(path_dirs@), platform);
    let mut out: Vec<PathCandidate> = Vec::new();
    match exe_dir {
        Some(d) => {
            out.push(PathCandidate { base: d, rest: vec![exe] });
            assert(out@[0].rest@.map_values(|s: &'static str| s@) =~= seq![exe@]);
            match exe_dir_parent {
                Some(parent) => if platform == Platform::MacOs {
                    out.push(PathCandidate { base: parent, rest: vec!["Resources", exe] });
                    assert(out@[1].rest@.map_values(|s: &'static str| s@) =~= seq!["Resources"@, exe@]);
                },
                None => {},
            }
        },
        None => {},
    }
    let ghost own_len = out@.len();
    assert(candidates_match(out@, order.take(own_len as int)));
    let mut i: usize = 0;
    while i < path_dirs.len()
        invariant
            i <= path_dirs.len(),
            exe@ == exe_name(platform),
            order == search_order(ed, pd, strings(path_dirs@), platform),
            own_len + path_dirs@.len() <= order.len(),
            forall|k: int|
                own_len <= k < own_len + path_dirs@.len() ==> #[trigger] order[k] == (
                    path_dirs@[k - own_len]@,
                    seq![exe_name(platform)],
                ),
            candidates_match(out@, order.take(own_len + i)),
        decreases path_dirs.len() - i,
    {
        out.push(PathCandidate { base: path_dirs[i].clone(), rest: vec![exe] });
        proof {
            let n = own_len + i;
            assert(out@[n].rest@.map_values(|s: &'static str| s@) =~= seq![exe@]);
            assert forall|k: int| 0 <= k < out@.len() implies candidate_is(
                #[trigger] out@[k],
                order.take(n + 1)[k].0,
                order.take(n + 1)[k].1,
            ) by {
                if k < n {
                    assert(order.take(n + 1)[k] == order.take(n)[k]);
                }
            }
        }
        i = i + 1;
    }
    let fixed: Vec<&'static str> = match platform {
        Platform::Windows => vec!["C:\\Program Files\\aria2\\aria2c.exe", "C:\\ProgramData\\chocolatey\\bin\\aria2c.exe"],
        _ => vec!["/opt/homebrew/bin/aria2c", "/usr/local/bin/aria2c", "/usr/bin/aria2c"],
    };
    let ghost start = own_len + path_dirs@.len();
    let mut j: usize = 0;
    while j < fixed.len()
        invariant
            j <= fixed.len(),
            fixed@.map_values(|s: &'static str| s@) == fixed_locations(platform),
            order == search_order(ed, pd, strings(path_dirs@), platform),
            start + fixed@.len() == order.len(),
            forall|k: int|
                start <= k < order.len() ==> #[trigger] order[k] == (
                    fixed_locations(platform)[k - start],
                    Seq::<Seq<char>>::empty(),
                ),
            candidates_match(out@, order.take(start + j)),
        decreases fixed.len() - j,
    {
        out.push(PathCandidate { base: owned(fixed[j]), rest: Vec::new() });
        proof {
            let n = start + j;
            assert(out@[n].rest@.map_values(|s: &'static str| s@) =~= Seq::<Seq<char>>::empty());
            assert(fixed_locations(platform)[j as int] == fixed@[j as int]@);
            assert forall|k: int| 0 <= k < out@.len() implies candidate_is(
                #[trigger] out@[k],
                order.take(n + 1)[k].0,
                order.take(n + 1)[k].1,
            ) by {
                if k < n {
                    assert(order.take(n + 1)[k] == order.take(n)[k]);
                }
            }
        }
        j = j + 1;
    }
    assert(order.take(order.len() as int) =~= order);
    out
}

/// The strings of `list` joined by `sep`.
pub open spec fn join_with(list: Seq<Seq<char>>, sep: Seq<char>) -> Seq<char>
    decreases list.len(),
{
    if list.len() == 0 {
        Seq::empty()
    } else if list.len() == 1 {
        list[0]
    } else {
        join_with(list.drop_last(), sep) + sep + list.last()
    }
}

pub open spec fn strings(v: Seq<String>) -> Seq<Seq<char>> {
    v.map_values(|s: String| s@)
}

/// The tracker list handed to aria2: the configured one, else the bundled one.
pub open spec fn trackers_in_use(config: AppConfig, builtin: Seq<String>) -> Seq<Seq<char>> {
    if config.bt_trackers@.len() == 0 {
        strings(builtin)
    } else {
        strings(config.bt_trackers@)
    }
}

/// The command-line arguments aria2c is started with.
pub open spec fn daemon_arguments(config: AppConfig, session: Seq<char>, builtin: Seq<String>) -> Seq<Seq<char>> {
    let split_conns: nat = if config.split < 16 {
        config.split as nat
    } else {
        16
    };
    let fixed = seq![
        "--enable-rpc=true"@,
        "--rpc-listen-port="@ + dec_nat(config.rpc_port as nat),
        "--rpc-allow-origin-all=true"@,
        "--rpc-listen-all=false"@,
        "--dir="@ + config.download_dir@,
        "--save-session="@ + session,
        "--input-file="@ + session,
        "--save-session-interval=30"@,
        "--continue=true"@,
        "--max-concurrent-downloads="@ + dec_nat(config.max_concurrent_downloads as nat),
        "--split="@ + dec_nat(config.split as nat),
        "--max-connection-per-server="@ + dec_nat(split_conns),
        "--min-split-size=1M"@,
        "--allow-overwrite=false"@,
        "--auto-file-renaming=true"@,
        "--follow-torrent=true"@,
        "--bt-save-metadata=true"@,
        "--enable-dht=true"@,
        "--enable-peer-exchange=true"@,
        "--seed-ratio=1.0"@,
        "--seed-time=60"@,
        "--file-allocation=none"@,
        "--quiet=true"@,
    ];
    let with_secret = if config.rpc_secret@.len() > 0 {
        fixed.push("--rpc-secret="@ + config.rpc_secret@)
    } else {
        fixed
    };
    let with_ua = if config.user_agent@.len() > 0 {
        with_secret.push("--user-agent="@ + config.user_agent@)
    } else {
        with_secret
    };
    let with_dl = if config.max_overall_download_limit > 0 {
        with_ua.push("--max-overall-download-limit="@ + dec_nat(config.max_overall_download_limit as nat))
    } else {
        with_ua
    };
    let with_ul = if config.max_overall_upload_limit > 0 {
        with_dl.push("--max-overall-upload-limit="@ + dec_nat(config.max_overall_upload_limit as nat))
    } else {
        with_dl
    };
    let trackers = trackers_in_use(config, builtin);
    if trackers.len() > 0 {
        with_ul.push("--bt-tracker="@ + join_with(trackers, ","@))
    } else {
        with_ul
    }
}


/// A string that differs from `p` at an index within both is not prefixed by `p`.
proof fn lemma_differs_at(p: Seq<char>, e: Seq<char>, k: int)
    requires
        0 <= k < p.len(),
        k < e.len(),
        e[k] != p[k],
    ensures
        !p.is_prefix_of(e),
{
    if p.is_prefix_of(e) {
        assert(e.subrange(0, p.len() as int)[k] == e[k]);
    }
}

/// No argument of `args` starts with the download-limit flag.
pub open spec fn lacks_download_limit(args: Seq<Seq<char>>) -> bool {
    forall|i: int| 0 <= i < args.len() ==> !"--max-overall-download-limit="@.is_prefix_of(#[trigger] args[i])
}

/// aria2c is given the overall download limit exactly when one is set: with
/// a limit, the arguments hold `--max-overall-download-limit=` followed by
/// its decimal value; without one, no argument starts with that flag.
pub proof fn lemma_download_limit_argument(config: AppConfig, session: Seq<char>, builtin: Seq<String>)
    ensures
        config.max_overall_download_limit > 0 ==> daemon_arguments(config, session, builtin).contains(
            "--max-overall-download-limit="@ + dec_nat(config.max_overall_download_limit as nat),
        ),
        config.max_overall_download_limit == 0 ==> lacks_download_limit(daemon_arguments(config, session, builtin)),
{
    let p = "--max-overall-download-limit="@;
    reveal_strlit("--max-overall-download-limit=");
    reveal_strlit("--enable-rpc=true");
    reveal_strlit("--rpc-listen-port=");
    reveal_strlit("--rpc-allow-origin-all=true");
    reveal_strlit("--rpc-listen-all=false");
    reveal_strlit("--dir=");
    reveal_strlit("--save-session=");
    reveal_strlit("--input-file=");
    reveal_strlit("--save-session-interval=30");
    reveal_strlit("--continue=true");
    reveal_strlit("--max-concurrent-downloads=");
    reveal_strlit("--split=");
    reveal_strlit("--max-connection-per-server=");
    reveal_strlit("--min-split-size=1M");
    reveal_strlit("--allow-overwrite=false");
    reveal_strlit("--auto-file-renaming=true");
    reveal_strlit("--follow-torrent=true");
    reveal_strlit("--bt-save-metadata=true");
    reveal_strlit("--enable-dht=true");
    reveal_strlit("--enable-peer-exchange=true");
    reveal_strlit("--seed-ratio=1.0");
    reveal_strlit("--seed-time=60");
    reveal_strlit("--file-allocation=none");
    reveal_strlit("--quiet=true");
    reveal_strlit("--rpc-secret=");
    reveal_strlit("--user-agent=");
    reveal_strlit("--max-overall-upload-limit=");
    reveal_strlit("--bt-tracker=");
    let split_conns: nat = if config.split < 16 {
        config.split as nat
    } else {
        16
    };
    let fixed = seq![
        "--enable-rpc=true"@,
        "--rpc-listen-port="@ + dec_nat(config.rpc_port as nat),
        "--rpc-allow-origin-all=true"@,
        "--rpc-listen-all=false"@,
        "--dir="@ + config.download_dir@,
        "--save-session="@ + session,
        "--input-file="@ + session,
        "--save-session-interval=30"@,
        "--continue=true"@,
        "--max-concurrent-downloads="@ + dec_nat(config.max_concurrent_downloads as nat),
        "--split="@ + dec_nat(config.split as nat),
        "--max-connection-per-server="@ + dec_nat(split_conns),
        "--min-split-size=1M"@,
        "--allow-overwrite=false"@,
        "--auto-file-renaming=true"@,
        "--follow-torrent=true"@,
        "--bt-save-metadata=true"@,
        "--enable-dht=true"@,
        "--enable-peer-exchange=true"@,
        "--seed-ratio=1.0"@,
        "--seed-time=60"@,
        "--file-allocation=none"@,
        "--quiet=true"@,
    ];
    let with_secret = if config.rpc_secret@.len() > 0 {
        fixed.push("--rpc-secret="@ + config.rpc_secret@)
    } else {
        fixed
    };
    let with_ua = if config.user_agent@.len() > 0 {
        with_secret.push("--user-agent="@ + config.user_agent@)
    } else {
        with_secret
    };
    let with_dl = if config.max_overall_download_limit > 0 {
        with_ua.push(p + dec_nat(config.max_overall_download_limit as nat))
    } else {
        with_ua
    };
    let with_ul = if config.max_overall_upload_limit > 0 {
        with_dl.push("--max-overall-upload-limit="@ + dec_nat(config.max_overall_upload_limit as nat))
    } else {
        with_dl
    };
    let trackers = trackers_in_use(config, builtin);
    let args = if trackers.len() > 0 {
        with_ul.push("--bt-tracker="@ + join_with(trackers, ","@))
    } else {
        with_ul
    };
    assert(args == daemon_arguments(config, session, builtin));
    if config.max_overall_download_limit > 0 {
        let idx = with_ua.len() as int;
        assert(with_dl[idx] == p + dec_nat(config.max_overall_download_limit as nat));
        assert(args[idx] == with_dl[idx]);
    } else {
        assert forall|i: int| 0 <= i < fixed.len() implies !p.is_prefix_of(#[trigger] fixed[i]) by {
            if i == 0 {
                lemma_differs_at(p, fixed[i], 2);
            } else if i == 1 {
                lemma_differs_at(p, fixed[i], 2);
            } else if i == 2 {
                lemma_differs_at(p, fixed[i], 2);
            } else if i == 3 {
                lemma_differs_at(p, fixed[i], 2);
            } else if i == 4 {
                lemma_differs_at(p, fixed[i], 2);
            } else if i == 5 {
                lemma_differs_at(p, fixed[i], 2);
            } else if i == 6 {
                lemma_differs_at(p, fixed[i], 2);
            } else if i == 7 {
                lemma_differs_at(p, fixed[i], 2);
            } else if i == 8 {
                lemma_differs_at(p, fixed[i], 2);
            } else if i == 9 {
                lemma_differs_at(p, fixed[i], 6);
            } else if i == 10 {
                lemma_differs_at(p, fixed[i], 2);
            } else if i == 11 {
                lemma_differs_at(p, fixed[i], 6);
            } else if i == 12 {
                lemma_differs_at(p, fixed[i], 3);
            } else if i == 13 {
                lemma_differs_at(p, fixed[i], 2);
            } else if i == 14 {
                lemma_differs_at(p, fixed[i], 2);
            } else if i == 15 {
                lemma_differs_at(p, fixed[i], 2);
            } else if i == 16 {
                lemma_differs_at(p, fixed[i], 2);
            } else if i == 17 {
                lemma_differs_at(p, fixed[i], 2);
            } else if i == 18 {
                lemma_differs_at(p, fixed[i], 2);
            } else if i == 19 {
                lemma_differs_at(p, fixed[i], 2);
            } else if i == 20 {
                lemma_differs_at(p, fixed[i], 2);
            } else if i == 21 {
                lemma_differs_at(p, fixed[i], 2);
            } else if i == 22 {
                lemma_differs_at(p, fixed[i], 2);
            }
        }
        assert forall|i: int| 0 <= i < args.len() implies !p.is_prefix_of(#[trigger] args[i]) by {
            if i < fixed.len() {
                assert(args[i] == fixed[i]);
            } else if config.rpc_secret@.len() > 0 && i == fixed.len() {
                lemma_differs_at(p, args[i], 2);
            } else if i == with_secret.len() && config.user_agent@.len() > 0 {
                lemma_differs_at(p, args[i], 2);
            } else if i == with_dl.len() && config.max_overall_upload_limit > 0 {
                lemma_differs_at(p, args[i], 14);
            } else {
                lemma_differs_at(p, args[i], 2);
            }
        }
    }
}

/// `prefix` followed by `value`.
fn flag(prefix: &str, value: &str) -> (r: String)
    ensures
        r@ == prefix@ + value@,
{
    let mut s = owned(prefix);
    push_str(&mut s, value);
    s
}

/// `prefix` followed by the decimal `n`.
fn flag_num(prefix: &str, n: u64) -> (r: String)
    ensures
        r@ == prefix@ + dec_nat(n as nat),
{
    let mut s = owned(prefix);
    push_decimal(&mut s, n);
    s
}

/// The strings of `list` joined by `sep`.
pub fn join(list: &Vec<String>, sep: &str) -> (r: String)
    ensures
        r@ == join_with(strings(list@), sep@),
{
    let mut s = String::new();
    let mut i: usize = 0;
    while i < list.len()
        invariant
            i <= list.len(),
            s@ == join_with(strings(list@.take(i as int)), sep@),
        decreases list.len() - i,
    {
        proof {
            assert(strings(list@.take(i + 1)).drop_last() =~= strings(list@.take(i as int)));
        }
        if i > 0 {
            push_str(&mut s, sep);
        }
        push_str(&mut s, list[i].as_str());
        proof {
            if i == 0 {
                assert(s@ =~= strings(list@.take(1))[0]);
            }
        }
        i = i + 1;
    }
    assert(list@.take(list.len() as int) =~= list@);
    s
}

/// The command-line arguments aria2c is started with, for `config`, the
/// session file at `session_path` and the bundled tracker list.
pub fn daemon_args(config: &AppConfig, session_path: &str, builtin_trackers: &Vec<String>) -> (args: Vec<String>)
    ensures
        strings(args@) == daemon_arguments(*config, session_path@, builtin_trackers@),
{
    let mut args: Vec<String> = Vec::new();
    args.push(owned("--enable-rpc=true"));
    args.push(flag_num("--rpc-listen-port=", config.rpc_port as u64));
    args.push(owned("--rpc-allow-origin-all=true"));
    args.push(owned("--rpc-listen-all=false"));
    args.push(flag("--dir=", config.download_dir.as_str()));
    args.push(flag("--save-session=", session_path));
    args.push(flag("--input-file=", session_path));
    args.push(owned("--save-session-interval=30"));
    args.push(owned("--continue=true"));
    args.push(flag_num("--max-concurrent-downloads=", config.max_concurrent_downloads as u64));
    args.push(flag_num("--split=", config.split as u64));
    let conns: u32 = if config.split < 16 {
        config.split
    } else {
        16
    };
    args.push(flag_num("--max-connection-per-server=", conns as u64));
    args.push(owned("--min-split-size=1M"));
    args.push(owned("--allow-overwrite=false"));
    args.push(owned("--auto-file-renaming=true"));
    args.push(owned("--follow-torrent=true"));
    args.push(owned("--bt-save-metadata=true"));
    args.push(owned("--enable-dht=true"));
    args.push(owned("--enable-peer-exchange=true"));
    args.push(owned("--seed-ratio=1.0"));
    args.push(owned("--seed-time=60"));
    args.push(owned("--file-allocation=none"));
    args.push(owned("--quiet=true"));
    let ghost fixed = strings(args@);
    let ghost split_conns: nat = if config.split < 16 {
        config.split as nat
    } else {
        16
    };
    assert(fixed =~= seq![
        "--enable-rpc=true"@,
        "--rpc-listen-port="@ + dec_nat(config.rpc_port as nat),
        "--rpc-allow-origin-all=true"@,
        "--rpc-listen-all=false"@,
        "--dir="@ + config.download_dir@,
        "--save-session="@ + session_path@,
        "--input-file="@ + session_path@,
        "--save-session-interval=30"@,
        "--continue=true"@,
        "--max-concurrent-downloads="@ + dec_nat(config.max_concurrent_downloads as nat),
        "--split="@ + dec_nat(config.split as nat),
        "--max-connection-per-server="@ + dec_nat(split_conns),
        "--min-split-size=1M"@,
        "--allow-overwrite=false"@,
        "--auto-file-renaming=true"@,
        "--follow-torrent=true"@,
        "--bt-save-metadata=true"@,
        "--enable-dht=true"@,
        "--enable-peer-exchange=true"@,
        "--seed-ratio=1.0"@,
        "--seed-time=60"@,
        "--file-allocation=none"@,
        "--quiet=true"@,
    ]);
    if !config.rpc_secret.as_str().is_empty() {
        args.push(flag("--rpc-secret=", config.rpc_secret.as_str()));
    }
    let ghost s1 = strings(args@);
    assert(s1 =~= if config.rpc_secret@.len() > 0 { fixed.push("--rpc-secret="@ + config.rpc_secret@) } else { fixed });
    if !config.user_agent.as_str().is_empty() {
        args.push(flag("--user-agent=", config.user_agent.as_str()));
    }
    let ghost s2 = strings(args@);
    assert(s2 =~= if config.user_agent@.len() > 0 { s1.push("--user-agent="@ + config.user_agent@) } else { s1 });
    if config.max_overall_download_limit > 0 {
        args.push(flag_num("--max-overall-download-limit=", config.max_overall_download_limit));
    }
    let ghost s3 = strings(args@);
    assert(s3 =~= if config.max_overall_download_limit > 0 { s2.push("--max-overall-download-limit="@ + dec_nat(config.max_overall_download_limit as nat)) } else { s2 });
    if config.max_overall_upload_limit > 0 {
        args.push(flag_num("--max-overall-upload-limit=", config.max_overall_upload_limit));
    }
    let ghost s4 = strings(args@);
    assert(s4 =~= if config.max_overall_upload_limit > 0 { s3.push("--max-overall-upload-limit="@ + dec_nat(config.max_overall_upload_limit as nat)) } else { s3 });
    let trackers = if config.bt_trackers.len() == 0 {
        builtin_trackers
    } else {
        &config.bt_trackers
    };
    if trackers.len() > 0 {
        args.push(flag("--bt-tracker=", join(trackers, ",").as_str()));
    }
    assert(strings(trackers@) == trackers_in_use(*config, builtin_trackers@));
    assert(strings(args@) =~= if strings(trackers@).len() > 0 { s4.push("--bt-tracker="@ + join_with(strings(trackers@), ","@)) } else { s4 });
    assert(strings(args@) =~= daemon_arguments(*config, session_path@, builtin_trackers@));
    args
}

} // verus!
