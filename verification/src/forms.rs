//! What the forms of the application read from their inputs: the new-task
//! dialog, the settings and the tracker list.

use vstd::prelude::*;

use crate::client::{
    add_torrent_request, add_uri_request, change_global_option_plan, is_add_uri_request,
    purge_download_result_plan, RpcParam, RpcPlan, RpcRequest,
};
use crate::config::AppConfig;
use crate::types::{file_name_of, path_file_name};
use crate::daemon::{join, join_with, strings};
use crate::text::{
    all_digits, dec_nat, is_ascii_digit, lines, lines_of, owned, push_decimal, push_str, spec_parse_u32,
    spec_parse_u64, trim,
    trimmed, u32_from_decimal, u64_from_decimal,
};

verus! {

/// The trimmed lines of `text` kept by `keep`.
pub open spec fn kept_lines(ls: Seq<Seq<char>>, comments: bool) -> Seq<Seq<char>>
    decreases ls.len(),
{
    if ls.len() == 0 {
        Seq::empty()
    } else {
        let p = kept_lines(ls.drop_last(), comments);
        let t = trimmed(ls.last());
        if t.len() > 0 && !(comments && t[0] == '#') {
            p.push(t)
        } else {
            p
        }
    }
}

/// Every kept line is non-empty, starts and ends with a char that is not
/// white space, and (when comments are dropped) does not start with `#`.
pub proof fn lemma_kept_lines_clean(ls: Seq<Seq<char>>, comments: bool)
    ensures
        forall|i: int|
            0 <= i < kept_lines(ls, comments).len() ==> {
                let l = #[trigger] kept_lines(ls, comments)[i];
                &&& l.len() > 0
                &&& !crate::text::is_white_space(l[0])
                &&& !crate::text::is_white_space(l.last())
                &&& !(comments && l[0] == '#')
            },
    decreases ls.len(),
{
    if ls.len() > 0 {
        let p = kept_lines(ls.drop_last(), comments);
        let k = kept_lines(ls, comments);
        lemma_kept_lines_clean(ls.drop_last(), comments);
        crate::text::lemma_trimmed_edges(ls.last());
        assert forall|i: int| 0 <= i < k.len() implies {
            let l = #[trigger] k[i];
            &&& l.len() > 0
            &&& !crate::text::is_white_space(l[0])
            &&& !crate::text::is_white_space(l.last())
            &&& !(comments && l[0] == '#')
        } by {
            if i < p.len() {
                assert(k[i] == p[i]);
            }
        }
    }
}

/// The non-empty trimmed lines of `text`, dropping those starting with `#`
/// when `comments` is set.
fn trimmed_lines(text: &str, comments: bool) -> (r: Vec<String>)
    ensures
        strings(r@) == kept_lines(lines_of(text@), comments),
{
    let ls = lines(text);
    let ghost lv = ls@.map_values(|l: String| l@);
    let mut out: Vec<String> = Vec::new();
    let mut i: usize = 0;
    while i < ls.len()
        invariant
            i <= ls.len(),
            lv == ls@.map_values(|l: String| l@),
            lv == lines_of(text@),
            strings(out@) == kept_lines(lv.take(i as int), comments),
        decreases ls.len() - i,
    {
        proof {
            assert(lv.take(i + 1).drop_last() =~= lv.take(i as int));
            assert(lv.take(i + 1).last() == ls@[i as int]@);
        }
        let t = trim(ls[i].as_str());
        let chars = crate::text::chars_of(t.as_str());
        let keep = chars.len() > 0 && !(comments && chars[0] == '#');
        if keep {
            out.push(t);
        }
        proof {
            assert(strings(out@) =~= kept_lines(lv.take(i + 1), comments));
        }
        i = i + 1;
    }
    assert(lv.take(ls.len() as int) =~= lv);
    out
}

/// The URLs of the new-task box: its non-empty trimmed lines, `#` lines
/// being comments.
pub fn parse_urls(text: &str) -> (urls: Vec<String>)
    ensures
        strings(urls@) == kept_lines(lines_of(text@), true),
{
    trimmed_lines(text, true)
}

/// A tracker list: the non-empty trimmed lines of `text`.
pub fn tracker_lines(text: &str) -> (trackers: Vec<String>)
    ensures
        strings(trackers@) == kept_lines(lines_of(text@), false),
{
    trimmed_lines(text, false)
}

/// The bundled tracker list, from the text of the bundled list file.
pub fn builtin_trackers(bundled: &str) -> (trackers: Vec<String>)
    ensures
        strings(trackers@) == kept_lines(lines_of(bundled@), false),
{
    tracker_lines(bundled)
}

/// The value of a numeric text input: the trimmed text parsed as a decimal
/// number, or `default` when it does not parse.
pub open spec fn input_u64(text: Seq<char>, default: u64) -> u64 {
    match spec_parse_u64(trimmed(text)) {
        Some(v) => v,
        None => default,
    }
}

pub open spec fn input_u32(text: Seq<char>, default: u32) -> u32 {
    match spec_parse_u32(trimmed(text)) {
        Some(v) => v,
        None => default,
    }
}

fn read_u64(text: &str, default: u64) -> (r: u64)
    ensures
        r == input_u64(text@, default),
{
    match u64_from_decimal(trim(text).as_str()) {
        Some(v) => v,
        None => default,
    }
}

fn read_u32(text: &str, default: u32) -> (r: u32)
    ensures
        r == input_u32(text@, default),
{
    match u32_from_decimal(trim(text).as_str()) {
        Some(v) => v,
        None => default,
    }
}

/// The aria2 options of a new task: its directory, then the file name and
/// the number of connections when given.
pub open spec fn task_option_list(dir: Seq<char>, filename: Seq<char>, split: Seq<char>) -> Seq<(Seq<char>, Seq<char>)> {
    let out = trimmed(filename);
    let n = input_u32(split, 0);
    let a = seq![("dir"@, dir)];
    let b = if out.len() > 0 {
        a.push(("out"@, out))
    } else {
        a
    };
    if n > 0 {
        b.push(("split"@, dec_nat(n as nat)))
    } else {
        b
    }
}

pub open spec fn option_pairs(o: Seq<(String, String)>) -> Seq<(Seq<char>, Seq<char>)> {
    o.map_values(|p: (String, String)| (p.0@, p.1@))
}

/// The options of a new task from the dialog's directory and its filename
/// and connections inputs.
pub fn task_options(dir: &String, filename: &str, split: &str) -> (o: Vec<(String, String)>)
    ensures
        option_pairs(o@) == task_option_list(dir@, filename@, split@),
{
    let out = trim(filename);
    let n = read_u32(split, 0);
    let mut o: Vec<(String, String)> = Vec::new();
    o.push((owned("dir"), dir.clone()));
    if !out.as_str().is_empty() {
        o.push((owned("out"), out));
    }
    if n > 0 {
        let mut v = String::new();
        push_decimal(&mut v, n as u64);
        o.push((owned("split"), v));
    }
    assert(option_pairs(o@) =~= task_option_list(dir@, filename@, split@));
    o
}

/// Whether `s` matches the pattern `^\d*$`: every char is a decimal digit
/// in Unicode's sense (general category Nd, which `\d` means by default).
pub uninterp spec fn digits_pattern_match(s: Seq<char>) -> bool;

/// `regex::Regex::is_match` of the pattern `^\d*$` on `s`. Besides naming
/// the result, the contract states what the regex documentation gives for
/// ASCII text: a string of ASCII digits (the empty one too) matches, and a
/// string holding an ASCII char that is not a digit does not.
#[verifier::external_body]
fn matches_digit_pattern(s: &str) -> (r: bool)
    ensures
        r == digits_pattern_match(s@),
        all_digits(s@) ==> r,
        (exists|i: int| 0 <= i < s@.len() && (s@[i] as u32) < 128 && !is_ascii_digit(#[trigger] s@[i])) ==> !r,
{
    regex::Regex::new(r"^\d*$").map(|re| re.is_match(s)).unwrap_or(false)
}

/// The connections input of the new-task dialog accepts only digits.
pub fn split_input_ok(text: &str) -> (r: bool)
    ensures
        r == digits_pattern_match(text@),
        all_digits(text@) ==> r,
        (exists|i: int| 0 <= i < text@.len() && (text@[i] as u32) < 128 && !is_ascii_digit(#[trigger] text@[i])) ==> !r,
{
    matches_digit_pattern(text)
}

/// One `addUri` request per URL, each with the same options.
pub fn url_requests(urls: Vec<String>, options: &Vec<(String, String)>) -> (r: Vec<RpcRequest>)
    ensures
        r@.len() == urls@.len(),
        forall|i: int|
            0 <= i < r@.len() ==> is_add_uri_request(#[trigger] r@[i], seq![urls@[i]@], options@),
{
    let mut out: Vec<RpcRequest> = Vec::new();
    let mut i: usize = 0;
    while i < urls.len()
        invariant
            i <= urls.len(),
            out@.len() == i,
            forall|k: int|
                0 <= k < out@.len() ==> is_add_uri_request(#[trigger] out@[k], seq![urls@[k]@], options@),
        decreases urls.len() - i,
    {
        let one = vec![urls[i].clone()];
        assert(one@.map_values(|s: String| s@) =~= seq![urls@[i as int]@]);
        out.push(add_uri_request(one, clone_options(options)));
        i = i + 1;
    }
    out
}

/// A copy of an option list.
pub fn clone_options(o: &Vec<(String, String)>) -> (r: Vec<(String, String)>)
    ensures
        r@ == o@,
{
    let mut r: Vec<(String, String)> = Vec::new();
    let mut i: usize = 0;
    while i < o.len()
        invariant
            i <= o.len(),
            r@ == o@.take(i as int),
        decreases o.len() - i,
    {
        r.push((o[i].0.clone(), o[i].1.clone()));
        assert(r@ =~= o@.take(i + 1));
        i = i + 1;
    }
    assert(o@.take(o.len() as int) =~= o@);
    r
}

/// "Added N task(s)." after submitting URLs.
pub fn added_message(count: usize) -> (r: String)
    ensures
        r@ == "Added "@ + dec_nat(count as nat) + (if count == 1 {
            " task."@
        } else {
            " tasks."@
        }),
{
    let mut s = owned("Added ");
    push_decimal(&mut s, count as u64);
    push_str(&mut s, if count == 1 {
        " task."
    } else {
        " tasks."
    });
    s
}

/// The digit of value `v` (0..64) in the standard base64 alphabet:
/// `A`-`Z`, `a`-`z`, `0`-`9`, `+`, `/`.
pub open spec fn base64_digit(v: int) -> char {
    if v < 26 {
        (65 + v) as char
    } else if v < 52 {
        (97 + (v - 26)) as char
    } else if v < 62 {
        (48 + (v - 52)) as char
    } else if v == 62 {
        '+'
    } else {
        '/'
    }
}

/// The standard base64 encoding (RFC 4648, with `=` padding) of `bytes`:
/// each group of three bytes becomes four digits of six bits each, and a
/// final group of one or two bytes is padded to four chars with `=`.
pub open spec fn base64_standard(bytes: Seq<u8>) -> Seq<char>
    decreases bytes.len(),
{
    if bytes.len() == 0 {
        Seq::empty()
    } else if bytes.len() == 1 {
        let b0 = bytes[0] as int;
        seq![base64_digit(b0 / 4), base64_digit((b0 % 4) * 16), '=', '=']
    } else if bytes.len() == 2 {
        let b0 = bytes[0] as int;
        let b1 = bytes[1] as int;
        seq![base64_digit(b0 / 4), base64_digit((b0 % 4) * 16 + b1 / 16), base64_digit((b1 % 16) * 4), '=']
    } else {
        let b0 = bytes[0] as int;
        let b1 = bytes[1] as int;
        let b2 = bytes[2] as int;
        seq![
            base64_digit(b0 / 4),
            base64_digit((b0 % 4) * 16 + b1 / 16),
            base64_digit((b1 % 16) * 4 + b2 / 64),
            base64_digit(b2 % 64),
        ] + base64_standard(bytes.subrange(3, bytes.len() as int))
    }
}

/// `base64::engine::general_purpose::STANDARD.encode`: the standard
/// alphabet with `=` padding, as `base64_standard` writes it out. The length
/// bound keeps the encoded length within `usize`, which the crate checks
/// with a panic.
#[verifier::external_body]
fn encode_base64(bytes: &[u8]) -> (r: String)
    requires
        bytes@.len() <= usize::MAX / 2,
    ensures
        r@ == base64_standard(bytes@),
{
    base64::Engine::encode(&base64::engine::general_purpose::STANDARD, bytes)
}

/// The request that adds the torrent file `bytes` with `options`.
pub fn torrent_request(bytes: &Vec<u8>, options: Vec<(String, String)>) -> (r: RpcRequest)
    requires
        bytes@.len() <= usize::MAX / 2,
    ensures
        r.method == "addTorrent",
        r.params@.len() == 3,
        crate::client::is_str_param(r.params@[0], base64_standard(bytes@)),
        crate::client::is_list_param(r.params@[1], Seq::empty()),
        crate::client::is_options_param(r.params@[2], options@),
{
    add_torrent_request(encode_base64(bytes.as_slice()), options)
}

/// The URL tab of the new-task dialog is submitted: one `addUri` request per
/// URL of the box, and the message to show; `Err` with the message when the
/// box holds no URL.
pub fn submit_urls(text: &str, options: &Vec<(String, String)>) -> (r: Result<(Vec<RpcRequest>, String), &'static str>)
    ensures
        ({
            let urls = kept_lines(lines_of(text@), true);
            match r {
                Ok((reqs, msg)) => {
                    &&& urls.len() > 0
                    &&& reqs@.len() == urls.len()
                    &&& forall|i: int|
                        0 <= i < reqs@.len() ==> is_add_uri_request(#[trigger] reqs@[i], seq![urls[i]], options@)
                    &&& msg@ == "Added "@ + dec_nat(urls.len()) + (if urls.len() == 1 {
                        " task."@
                    } else {
                        " tasks."@
                    })
                },
                Err(e) => urls.len() == 0 && e@ == "Enter at least one URL."@,
            }
        }),
{
    let urls = parse_urls(text);
    if urls.len() == 0 {
        return Err("Enter at least one URL.");
    }
    let count = urls.len();
    let ghost names = strings(urls@);
    let reqs = url_requests(urls, options);
    assert forall|i: int| 0 <= i < reqs@.len() implies is_add_uri_request(
        #[trigger] reqs@[i],
        seq![kept_lines(lines_of(text@), true)[i]],
        options@,
    ) by {
        assert(names[i] == kept_lines(lines_of(text@), true)[i]);
    }
    Ok((reqs, added_message(count)))
}

/// The torrent tab of the new-task dialog is submitted. `file` is `None` when
/// no torrent was chosen, `Some(None)` when it could not be read, and the
/// file's bytes otherwise. `Ok` holds the request and the message to show.
pub fn submit_torrent(file: Option<Option<Vec<u8>>>, options: Vec<(String, String)>) -> (r: Result<(RpcRequest, &'static str), &'static str>)
    requires
        file matches Some(Some(b)) ==> b@.len() <= usize::MAX / 2,
    ensures
        match file {
            None => r matches Err(e) && e@ == "Choose a .torrent file first."@,
            Some(None) => r matches Err(e) && e@ == "Failed to read the torrent file."@,
            Some(Some(bytes)) => r matches Ok((req, msg)) && msg@ == "Torrent task added."@ && req.method
                == "addTorrent" && req.params@.len() == 3 && crate::client::is_str_param(
                req.params@[0],
                base64_standard(bytes@),
            ) && crate::client::is_list_param(req.params@[1], Seq::empty())
                && crate::client::is_options_param(req.params@[2], options@),
        },
{
    match file {
        None => Err("Choose a .torrent file first."),
        Some(None) => Err("Failed to read the torrent file."),
        Some(Some(bytes)) => Ok((torrent_request(&bytes, options), "Torrent task added.")),
    }
}

/// Settings of the Downloads card as read from its inputs.
pub struct DownloadSettings {
    pub max_concurrent_downloads: u32,
    pub split: u32,
    /// bytes/s, 0 = unlimited
    pub max_overall_download_limit: u64,
    /// bytes/s, 0 = unlimited
    pub max_overall_upload_limit: u64,
    pub user_agent: String,
}

pub open spec fn clamp(v: u32, lo: u32, hi: u32) -> u32 {
    if v < lo {
        lo
    } else if v > hi {
        hi
    } else {
        v
    }
}

/// Reads the Downloads card: concurrency and connections default to 5 and
/// 16 and are kept within 1..=64; the limits are in KB/s (0 or unreadable
/// meaning unlimited) and stored in bytes/s.
pub fn read_download_settings(concurrent: &str, split: &str, dl_kb: &str, ul_kb: &str, user_agent: &str) -> (s: DownloadSettings)
    requires
        input_u64(dl_kb@, 0) * 1024 <= u64::MAX,
        input_u64(ul_kb@, 0) * 1024 <= u64::MAX,
    ensures
        s.max_concurrent_downloads == clamp(input_u32(concurrent@, 5), 1, 64),
        s.split == clamp(input_u32(split@, 16), 1, 64),
        s.max_overall_download_limit == input_u64(dl_kb@, 0) * 1024,
        s.max_overall_upload_limit == input_u64(ul_kb@, 0) * 1024,
        s.user_agent@ == trimmed(user_agent@),
{
    let c = read_u32(concurrent, 5);
    let sp = read_u32(split, 16);
    let dl = read_u64(dl_kb, 0);
    let ul = read_u64(ul_kb, 0);
    DownloadSettings {
        max_concurrent_downloads: if c < 1 {
            1
        } else if c > 64 {
            64
        } else {
            c
        },
        split: if sp < 1 {
            1
        } else if sp > 64 {
            64
        } else {
            sp
        },
        max_overall_download_limit: dl * 1024,
        max_overall_upload_limit: ul * 1024,
        user_agent: trim(user_agent),
    }
}

/// Stores the Downloads card's settings in the configuration.
pub fn apply_download_settings(config: &mut AppConfig, s: &DownloadSettings)
    ensures
        final(config).max_concurrent_downloads == s.max_concurrent_downloads,
        final(config).split == s.split,
        final(config).max_overall_download_limit == s.max_overall_download_limit,
        final(config).max_overall_upload_limit == s.max_overall_upload_limit,
        final(config).user_agent@ == s.user_agent@,
        final(config).download_dir == old(config).download_dir,
        final(config).rpc_port == old(config).rpc_port,
        final(config).rpc_secret == old(config).rpc_secret,
        final(config).bt_trackers == old(config).bt_trackers,
        final(config).theme == old(config).theme,
{
    config.max_concurrent_downloads = s.max_concurrent_downloads;
    config.split = s.split;
    config.max_overall_download_limit = s.max_overall_download_limit;
    config.max_overall_upload_limit = s.max_overall_upload_limit;
    config.user_agent = s.user_agent.clone();
}

/// The options the Downloads card sends to the engine.
pub fn download_settings_options(s: &DownloadSettings) -> (o: Vec<(String, String)>)
    ensures
        option_pairs(o@) == seq![
            ("max-concurrent-downloads"@, dec_nat(s.max_concurrent_downloads as nat)),
            ("max-overall-download-limit"@, dec_nat(s.max_overall_download_limit as nat)),
            ("max-overall-upload-limit"@, dec_nat(s.max_overall_upload_limit as nat)),
            ("user-agent"@, s.user_agent@),
        ],
{
    let mut a = String::new();
    push_decimal(&mut a, s.max_concurrent_downloads as u64);
    let mut b = String::new();
    push_decimal(&mut b, s.max_overall_download_limit);
    let mut c = String::new();
    push_decimal(&mut c, s.max_overall_upload_limit);
    let o = vec![
        (owned("max-concurrent-downloads"), a),
        (owned("max-overall-download-limit"), b),
        (owned("max-overall-upload-limit"), c),
        (owned("user-agent"), s.user_agent.clone()),
    ];
    assert(option_pairs(o@) =~= seq![
        ("max-concurrent-downloads"@, dec_nat(s.max_concurrent_downloads as nat)),
        ("max-overall-download-limit"@, dec_nat(s.max_overall_download_limit as nat)),
        ("max-overall-upload-limit"@, dec_nat(s.max_overall_upload_limit as nat)),
        ("user-agent"@, s.user_agent@),
    ]);
    o
}

/// "Save" on the Downloads card: the settings are stored in the
/// configuration, sent to the engine (all but the connections per task,
/// which apply to new tasks), and "Download settings saved." is shown.
pub fn save_download_settings(config: &mut AppConfig, s: &DownloadSettings) -> (r: (RpcPlan, &'static str))
    ensures
        final(config).max_concurrent_downloads == s.max_concurrent_downloads,
        final(config).split == s.split,
        final(config).max_overall_download_limit == s.max_overall_download_limit,
        final(config).max_overall_upload_limit == s.max_overall_upload_limit,
        final(config).user_agent@ == s.user_agent@,
        final(config).download_dir == old(config).download_dir,
        final(config).rpc_port == old(config).rpc_port,
        final(config).rpc_secret == old(config).rpc_secret,
        final(config).bt_trackers == old(config).bt_trackers,
        final(config).theme == old(config).theme,
        r.0.primary.method == "changeGlobalOption",
        r.0.primary.params@.len() == 1,
        r.0.primary.params@[0] matches RpcParam::Options(o) && option_pairs(o@) == seq![
            ("max-concurrent-downloads"@, dec_nat(s.max_concurrent_downloads as nat)),
            ("max-overall-download-limit"@, dec_nat(s.max_overall_download_limit as nat)),
            ("max-overall-upload-limit"@, dec_nat(s.max_overall_upload_limit as nat)),
            ("user-agent"@, s.user_agent@),
        ],
        r.0.fallback is None,
        r.1@ == "Download settings saved."@,
{
    apply_download_settings(config, s);
    (change_global_option_plan(download_settings_options(s)), "Download settings saved.")
}

/// "Save" on the BitTorrent card: the non-empty trimmed lines of the text
/// become the configured tracker list, which is sent to the engine
/// comma-separated, and "Tracker list saved." is shown.
pub fn save_tracker_list(config: &mut AppConfig, text: &str) -> (r: (RpcPlan, &'static str))
    ensures
        strings(final(config).bt_trackers@) == kept_lines(lines_of(text@), false),
        final(config).download_dir == old(config).download_dir,
        final(config).rpc_port == old(config).rpc_port,
        final(config).rpc_secret == old(config).rpc_secret,
        final(config).user_agent == old(config).user_agent,
        r.0.primary.method == "changeGlobalOption",
        r.0.primary.params@.len() == 1,
        r.0.primary.params@[0] matches RpcParam::Options(o) && option_pairs(o@) == seq![
            ("bt-tracker"@, join_with(kept_lines(lines_of(text@), false), ","@)),
        ],
        r.0.fallback is None,
        r.1@ == "Tracker list saved."@,
{
    let trackers = tracker_lines(text);
    let plan = change_global_option_plan(tracker_options(&trackers));
    config.bt_trackers = trackers;
    (plan, "Tracker list saved.")
}

/// "Clear history" on the Advanced card: finished, failed and removed
/// task records are purged, and "Download history cleared." is shown.
pub fn clear_history() -> (r: (RpcPlan, &'static str))
    ensures
        r.0.primary.method == "purgeDownloadResult",
        r.0.primary.params@.len() == 0,
        r.0.fallback is None,
        r.1@ == "Download history cleared."@,
{
    (purge_download_result_plan(), "Download history cleared.")
}

/// The value of a port input: the trimmed text parsed as a decimal `u16`.
pub open spec fn input_port(text: Seq<char>) -> Option<u16> {
    match spec_parse_u64(trimmed(text)) {
        Some(v) => if v <= u16::MAX {
            Some(v as u16)
        } else {
            None
        },
        None => None,
    }
}

/// The RPC port typed on the Network card, to be stored in the settings
/// (it takes effect after a restart): `None` when the input is not a port
/// or names the current one.
pub fn rpc_port_update(input: &str, current: u16) -> (r: Option<u16>)
    ensures
        r == match input_port(input@) {
            Some(p) => if p == current {
                None
            } else {
                Some(p)
            },
            None => None::<u16>,
        },
{
    match u64_from_decimal(trim(input).as_str()) {
        Some(v) => if v <= 65535 && v != current as u64 {
            Some(v as u16)
        } else {
            None
        },
        None => None,
    }
}

/// A speed limit as shown in its KB/s input: empty when unlimited.
pub fn limit_input_text(limit: u64) -> (r: String)
    ensures
        r@ == if limit > 0 {
            dec_nat((limit / 1024) as nat)
        } else {
            Seq::<char>::empty()
        },
{
    let mut s = String::new();
    if limit > 0 {
        push_decimal(&mut s, limit / 1024);
    }
    assert(limit == 0 ==> s@ =~= Seq::<char>::empty());
    s
}

/// The new download directory typed in the settings: `None` when the input
/// is blank or names the current directory.
pub fn save_dir_update(input: &str, current: &String) -> (r: Option<String>)
    ensures
        r is None <==> (trimmed(input@).len() == 0 || trimmed(input@) == current@),
        r matches Some(d) ==> d@ == trimmed(input@),
{
    let dir = trim(input);
    if dir.as_str().is_empty() {
        return None;
    }
    if dir == *current {
        return None;
    }
    Some(dir)
}

/// The options that set the engine's download directory.
pub fn dir_options(dir: String) -> (o: Vec<(String, String)>)
    ensures
        option_pairs(o@) == seq![("dir"@, dir@)],
{
    let o = vec![(owned("dir"), dir)];
    assert(option_pairs(o@) =~= seq![("dir"@, dir@)]);
    o
}

/// The options that hand a tracker list to the engine (comma-separated).
pub fn tracker_options(trackers: &Vec<String>) -> (o: Vec<(String, String)>)
    ensures
        option_pairs(o@) == seq![("bt-tracker"@, join_with(strings(trackers@), ","@))],
{
    let o = vec![(owned("bt-tracker"), join(trackers, ","))];
    assert(option_pairs(o@) =~= seq![("bt-tracker"@, join_with(strings(trackers@), ","@))]);
    o
}

/// A copy of a list of strings.
pub fn copy_strings(v: &Vec<String>) -> (r: Vec<String>)
    ensures
        strings(r@) == strings(v@),
{
    let mut r: Vec<String> = Vec::new();
    let mut i: usize = 0;
    while i < v.len()
        invariant
            i <= v.len(),
            strings(r@) == strings(v@.take(i as int)),
        decreases v.len() - i,
    {
        let ghost before = r@;
        r.push(v[i].clone());
        assert(strings(r@) =~= strings(before).push(v@[i as int]@));
        assert(strings(v@.take(i + 1)) =~= strings(v@.take(i as int)).push(v@[i as int]@));
        i = i + 1;
    }
    assert(v@.take(v.len() as int) =~= v@);
    r
}

/// The trackers page starts from the configured list, else the bundled one.
pub fn initial_trackers(configured: &Vec<String>, builtin: Vec<String>) -> (r: Vec<String>)
    ensures
        strings(r@) == if configured@.len() == 0 {
            strings(builtin@)
        } else {
            strings(configured@)
        },
{
    if configured.len() == 0 {
        builtin
    } else {
        copy_strings(configured)
    }
}

/// The outcome of syncing the tracker list: the downloaded list when it has
/// trackers, else an error message. `fetched` is the downloaded text or the
/// download's error.
pub fn sync_result(fetched: Result<String, String>) -> (r: Result<Vec<String>, String>)
    ensures
        match fetched {
            Ok(body) => {
                let list = kept_lines(lines_of(body@), false);
                match r {
                    Ok(v) => list.len() > 0 && strings(v@) == list,
                    Err(e) => list.len() == 0 && e@ == "Sync returned an empty list."@,
                }
            },
            Err(err) => r matches Err(e) && e@ == "Sync failed: "@ + err@,
        },
{
    match fetched {
        Ok(body) => {
            let list = tracker_lines(body.as_str());
            if list.len() > 0 {
                Ok(list)
            } else {
                Err(owned("Sync returned an empty list."))
            }
        },
        Err(err) => {
            let mut e = owned("Sync failed: ");
            push_str(&mut e, err.as_str());
            Err(e)
        },
    }
}

/// "N trackers applied to the engine."
pub fn applied_message(count: usize) -> (r: String)
    ensures
        r@ == dec_nat(count as nat) + " trackers applied to the engine."@,
{
    let mut s = String::new();
    push_decimal(&mut s, count as u64);
    push_str(&mut s, " trackers applied to the engine.");
    s
}


/// The label of the torrent picker for a chosen file with the file name
/// `file_name` ("torrent file" when its path has none).
pub open spec fn picked_label(file_name: Option<String>) -> Seq<char> {
    match file_name {
        Some(n) => n@,
        None => "torrent file"@,
    }
}

/// The label of the torrent picker: the chosen file's name, or an
/// invitation to pick one.
pub fn torrent_label(path: &Option<String>) -> (r: String)
    ensures
        match path {
            Some(p) => exists|n: Option<String>| file_name_of(p@, n) && r@ == #[trigger] picked_label(n),
            None => r@ == "Click to select a .torrent file"@,
        },
{
    match path {
        Some(p) => {
            let n = path_file_name(p.as_str());
            let ghost g = n;
            let r = match n {
                Some(name) => name,
                None => owned("torrent file"),
            };
            assert(file_name_of(p@, g) && r@ == picked_label(g));
            r
        },
        None => owned("Click to select a .torrent file"),
    }
}

} // verus!
