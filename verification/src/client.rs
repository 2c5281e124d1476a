//! aria2's JSON-RPC interface: the requests the application makes and how
//! replies are judged. Sending a request over HTTP is left to the caller.

use vstd::prelude::*;

use crate::text::{dec_nat, owned, push_decimal, push_str};
use crate::types::{normalized_from, RawTask, Task};

verus! {

/// One positional parameter of a JSON-RPC call.
pub enum RpcParam {
    /// A JSON string.
    Str(String),
    /// A JSON number.
    Int(u64),
    /// A JSON array of strings.
    StrList(Vec<String>),
    /// A JSON object whose values are strings (aria2 option names to values).
    Options(Vec<(String, String)>),
}

/// An aria2 method (without the `aria2.` prefix) and its parameters.
pub struct RpcRequest {
    pub method: &'static str,
    pub params: Vec<RpcParam>,
}

/// A request to try, and the one to send when it fails.
pub struct RpcPlan {
    pub primary: RpcRequest,
    pub fallback: Option<RpcRequest>,
}

/// A framed JSON-RPC 2.0 call: `{"jsonrpc": "2.0", "id", "method", "params"}`.
pub struct RpcCall {
    pub id: u64,
    pub method: String,
    pub params: Vec<RpcParam>,
}

/// Blocking JSON-RPC client state for aria2 over HTTP: the endpoint, the
/// RPC secret and the counter of call ids.
pub struct Aria2Client {
    endpoint: String,
    secret: String,
    next_id: u64,
}

pub open spec fn endpoint_for(port: u16) -> Seq<char> {
    "http://127.0.0.1:"@ + dec_nat(port as nat) + "/jsonrpc"@
}

pub open spec fn is_token_param(p: RpcParam, secret: Seq<char>) -> bool {
    match p {
        RpcParam::Str(s) => s@ == "token:"@ + secret,
        _ => false,
    }
}

impl Aria2Client {
    pub closed spec fn spec_endpoint(&self) -> Seq<char> {
        self.endpoint@
    }

    pub closed spec fn spec_secret(&self) -> Seq<char> {
        self.secret@
    }

    /// The id the next call gets.
    pub closed spec fn spec_next_id(&self) -> u64 {
        self.next_id
    }

    pub fn new(port: u16, secret: String) -> (c: Aria2Client)
        ensures
            c.spec_endpoint() == endpoint_for(port),
            c.spec_secret() == secret@,
            c.spec_next_id() == 1,
    {
        let mut endpoint = owned("http://127.0.0.1:");
        push_decimal(&mut endpoint, port as u64);
        push_str(&mut endpoint, "/jsonrpc");
        Aria2Client { endpoint, secret, next_id: 1 }
    }

    pub fn endpoint(&self) -> (r: &str)
        ensures
            r@ == self.spec_endpoint(),
    {
        self.endpoint.as_str()
    }

    /// Frames a call of `aria2.<method>`: the secret goes in front of the
    /// parameters as `token:<secret>` when it is not empty, and the call gets
    /// the client's next id, the counter then moving on by one (wrapping).
    pub fn call(&mut self, method: &str, params: Vec<RpcParam>) -> (c: RpcCall)
        ensures
            c.id == old(self).spec_next_id(),
            final(self).spec_next_id() == if old(self).spec_next_id() == u64::MAX {
                0
            } else {
                (old(self).spec_next_id() + 1) as u64
            },
            final(self).spec_endpoint() == old(self).spec_endpoint(),
            final(self).spec_secret() == old(self).spec_secret(),
            c.method@ == "aria2."@ + method@,
            old(self).spec_secret().len() == 0 ==> c.params@ == params@,
            old(self).spec_secret().len() > 0 ==> c.params@.len() == params@.len() + 1 && is_token_param(
                c.params@[0],
                old(self).spec_secret(),
            ) && c.params@.drop_first() == params@,
    {
        let mut params = params;
        let ghost orig = params@;
        if !self.secret.as_str().is_empty() {
            let mut token = owned("token:");
            push_str(&mut token, self.secret.as_str());
            params.insert(0, RpcParam::Str(token));
            assert(params@.drop_first() =~= orig);
        }
        let id = self.next_id;
        self.next_id = if id == u64::MAX {
            0
        } else {
            id + 1
        };
        let mut name = owned("aria2.");
        push_str(&mut name, method);
        RpcCall { id, method: name, params }
    }
}

/// How a reply is judged: an `error` member fails the call with its
/// message (or "unknown aria2 error"), and a reply with neither an error nor a
/// `result` fails as "missing result".
pub open spec fn reply_error_text(error: Option<Option<String>>, has_result: bool) -> Option<Seq<char>> {
    match error {
        Some(m) => Some(
            "aria2: "@ + match m {
                Some(t) => t@,
                None => "unknown aria2 error"@,
            },
        ),
        None => if has_result {
            None
        } else {
            Some("aria2: missing result"@)
        },
    }
}

/// Judges a reply: `error` is `Some` when the reply has an `error` member
/// (with the text of its `message` when that is a string), `has_result` tells
/// whether it has a `result` member. `Err` carries the error text.
pub fn check_reply(error: Option<Option<String>>, has_result: bool) -> (r: Result<(), String>)
    ensures
        match r {
            Ok(()) => reply_error_text(error, has_result) is None,
            Err(e) => reply_error_text(error, has_result) == Some(e@),
        },
{
    match error {
        Some(m) => {
            let mut text = owned("aria2: ");
            match m {
                Some(t) => push_str(&mut text, t.as_str()),
                None => push_str(&mut text, "unknown aria2 error"),
            }
            Err(text)
        },
        None => if has_result {
            Ok(())
        } else {
            Err(owned("aria2: missing result"))
        },
    }
}

/// What to do once the primary request of a plan has been answered.
pub enum PlanStep {
    /// The plan is over, with this outcome.
    Done(Result<(), String>),
    /// Send the fallback; its outcome is the plan's.
    Send(RpcRequest),
}

/// The primary request of a plan answered with `outcome`, `fallback` being
/// the plan's fallback: a success ends the plan, a failure sends the
/// fallback when there is one and otherwise ends the plan with that failure.
pub fn after_primary(fallback: Option<RpcRequest>, outcome: Result<(), String>) -> (r: PlanStep)
    ensures
        match outcome {
            Ok(()) => r matches PlanStep::Done(Ok(())),
            Err(e) => match fallback {
                Some(f) => r matches PlanStep::Send(g) && g == f,
                None => r matches PlanStep::Done(Err(e2)) && e2 == e,
            },
        },
{
    match outcome {
        Ok(()) => PlanStep::Done(Ok(())),
        Err(e) => match fallback {
            Some(f) => PlanStep::Send(f),
            None => PlanStep::Done(Err(e)),
        },
    }
}

/// A request without fallback.
fn single(method: &'static str, params: Vec<RpcParam>) -> (p: RpcPlan)
    ensures
        p.primary.method == method,
        p.primary.params@ == params@,
        p.fallback is None,
{
    RpcPlan { primary: RpcRequest { method, params }, fallback: None }
}

/// A request, and the forceful variant to send when it fails.
fn with_fallback(method: &'static str, fallback: &'static str, params: Vec<RpcParam>, fallback_params: Vec<RpcParam>) -> (p: RpcPlan)
    ensures
        p.primary.method == method,
        p.primary.params@ == params@,
        p.fallback matches Some(f) && f.method == fallback && f.params@ == fallback_params@,
{
    RpcPlan {
        primary: RpcRequest { method, params },
        fallback: Some(RpcRequest { method: fallback, params: fallback_params }),
    }
}

pub open spec fn is_str_param(p: RpcParam, s: Seq<char>) -> bool {
    match p {
        RpcParam::Str(t) => t@ == s,
        _ => false,
    }
}

pub open spec fn is_int_param(p: RpcParam, n: u64) -> bool {
    match p {
        RpcParam::Int(m) => m == n,
        _ => false,
    }
}

pub open spec fn is_list_param(p: RpcParam, l: Seq<Seq<char>>) -> bool {
    match p {
        RpcParam::StrList(v) => v@.map_values(|s: String| s@) == l,
        _ => false,
    }
}

pub open spec fn is_options_param(p: RpcParam, o: Seq<(String, String)>) -> bool {
    match p {
        RpcParam::Options(v) => v@ == o,
        _ => false,
    }
}

/// The task fields `fetch_all_tasks` asks aria2 for.
pub open spec fn task_keys() -> Seq<Seq<char>> {
    seq![
        "gid"@,
        "status"@,
        "totalLength"@,
        "completedLength"@,
        "uploadLength"@,
        "downloadSpeed"@,
        "uploadSpeed"@,
        "connections"@,
        "numSeeders"@,
        "seeder"@,
        "dir"@,
        "files"@,
        "bittorrent"@,
        "infoHash"@,
        "errorCode"@,
        "errorMessage"@,
    ]
}

fn task_keys_list() -> (v: Vec<String>)
    ensures
        v@.map_values(|s: String| s@) == task_keys(),
{
    let mut v: Vec<String> = Vec::new();
    v.push(owned("gid"));
    v.push(owned("status"));
    v.push(owned("totalLength"));
    v.push(owned("completedLength"));
    v.push(owned("uploadLength"));
    v.push(owned("downloadSpeed"));
    v.push(owned("uploadSpeed"));
    v.push(owned("connections"));
    v.push(owned("numSeeders"));
    v.push(owned("seeder"));
    v.push(owned("dir"));
    v.push(owned("files"));
    v.push(owned("bittorrent"));
    v.push(owned("infoHash"));
    v.push(owned("errorCode"));
    v.push(owned("errorMessage"));
    assert(v@.map_values(|s: String| s@) =~= task_keys());
    v
}

/// The number of waiting and of stopped tasks asked for at once.
pub const TASK_PAGE: u64 = 1000;

/// The three requests that fetch the active, waiting and stopped tasks.
pub fn fetch_all_tasks_requests() -> (r: (RpcRequest, RpcRequest, RpcRequest))
    ensures
        r.0.method == "tellActive" && r.0.params@.len() == 1 && is_list_param(r.0.params@[0], task_keys()),
        r.1.method == "tellWaiting" && r.1.params@.len() == 3 && is_int_param(r.1.params@[0], 0)
            && is_int_param(r.1.params@[1], TASK_PAGE) && is_list_param(r.1.params@[2], task_keys()),
        r.2.method == "tellStopped" && r.2.params@.len() == 3 && is_int_param(r.2.params@[0], 0)
            && is_int_param(r.2.params@[1], TASK_PAGE) && is_list_param(r.2.params@[2], task_keys()),
{
    let active = RpcRequest { method: "tellActive", params: vec![RpcParam::StrList(task_keys_list())] };
    let waiting = RpcRequest {
        method: "tellWaiting",
        params: vec![RpcParam::Int(0), RpcParam::Int(TASK_PAGE), RpcParam::StrList(task_keys_list())],
    };
    let stopped = RpcRequest {
        method: "tellStopped",
        params: vec![RpcParam::Int(0), RpcParam::Int(TASK_PAGE), RpcParam::StrList(task_keys_list())],
    };
    (active, waiting, stopped)
}

/// Every task of `raws`, normalized, in order.
pub open spec fn all_normalized(tasks: Seq<Task>, raws: Seq<RawTask>) -> bool {
    &&& tasks.len() == raws.len()
    &&& forall|i: int| 0 <= i < tasks.len() ==> normalized_from(#[trigger] tasks[i], raws[i])
}

/// The active, then the waiting, then the stopped tasks, normalized.
pub fn tasks_from_raw(active: Vec<RawTask>, waiting: Vec<RawTask>, stopped: Vec<RawTask>) -> (tasks: Vec<Task>)
    ensures
        all_normalized(tasks@, active@ + waiting@ + stopped@),
{
    let mut out: Vec<Task> = Vec::new();
    append_normalized(&mut out, active, Ghost(Seq::empty()));
    append_normalized(&mut out, waiting, Ghost(active@));
    append_normalized(&mut out, stopped, Ghost(active@ + waiting@));
    assert(active@ + waiting@ + stopped@ =~= (Seq::empty() + active@) + waiting@ + stopped@);
    out
}

/// Appends the normalized `raws` to `out`, which holds the normalized `done`.
fn append_normalized(out: &mut Vec<Task>, raws: Vec<RawTask>, Ghost(done): Ghost<Seq<RawTask>>)
    requires
        all_normalized(old(out)@, done),
    ensures
        all_normalized(final(out)@, done + raws@),
{
    let ghost start = out@.len();
    for raw in it: raws.into_iter()
        invariant
            it.seq() == raws@,
            all_normalized(out@, done + raws@.take(it.index() as int)),
    {
        let ghost before = out@;
        let ghost r = raw;
        assert(r == raws@[it.index() as int]);
        let t = Task::from_raw(raw);
        out.push(t);
        proof {
            let old_prefix = done + raws@.take(it.index() as int);
            let prefix = done + raws@.take(it.index() + 1);
            assert(prefix =~= old_prefix.push(r));
            assert forall|i: int| 0 <= i < out@.len() implies normalized_from(#[trigger] out@[i], prefix[i]) by {
                if i < before.len() {
                    assert(out@[i] == before[i]);
                    assert(prefix[i] == old_prefix[i]);
                } else {
                    assert(out@[i] == t);
                    assert(prefix[i] == r);
                }
            }
            assert(out@.len() == prefix.len());
            assert(all_normalized(out@, prefix));
        }
    }
    assert(raws@.take(raws@.len() as int) =~= raws@);
}

/// The request for aria2's version.
pub fn get_version_request() -> (r: RpcRequest)
    ensures
        r.method == "getVersion",
        r.params@.len() == 0,
{
    RpcRequest { method: "getVersion", params: Vec::new() }
}

/// The version in a `getVersion` reply, "unknown" when it has none.
pub fn version_text(version: Option<String>) -> (r: String)
    ensures
        r@ == match version {
            Some(v) => v@,
            None => "unknown"@,
        },
{
    match version {
        Some(v) => v,
        None => owned("unknown"),
    }
}

pub fn get_global_stat_request() -> (r: RpcRequest)
    ensures
        r.method == "getGlobalStat",
        r.params@.len() == 0,
{
    RpcRequest { method: "getGlobalStat", params: Vec::new() }
}

/// `r` adds a download of `uris` with `options`.
pub open spec fn is_add_uri_request(r: RpcRequest, uris: Seq<Seq<char>>, options: Seq<(String, String)>) -> bool {
    &&& r.method == "addUri"
    &&& r.params@.len() == 2
    &&& is_list_param(r.params@[0], uris)
    &&& is_options_param(r.params@[1], options)
}

/// Adds a download of `uris`.
pub fn add_uri_request(uris: Vec<String>, options: Vec<(String, String)>) -> (r: RpcRequest)
    ensures
        is_add_uri_request(r, uris@.map_values(|s: String| s@), options@),
{
    RpcRequest { method: "addUri", params: vec![RpcParam::StrList(uris), RpcParam::Options(options)] }
}

/// Adds a torrent given as base64, with no web seeds.
pub fn add_torrent_request(torrent_base64: String, options: Vec<(String, String)>) -> (r: RpcRequest)
    ensures
        r.method == "addTorrent",
        r.params@.len() == 3,
        is_str_param(r.params@[0], torrent_base64@),
        is_list_param(r.params@[1], Seq::empty()),
        is_options_param(r.params@[2], options@),
{
    let r = RpcRequest {
        method: "addTorrent",
        params: vec![RpcParam::Str(torrent_base64), RpcParam::StrList(Vec::new()), RpcParam::Options(options)],
    };
    assert(Seq::<String>::empty().map_values(|s: String| s@) =~= Seq::<Seq<char>>::empty());
    r
}

/// The gid in an `addUri` / `addTorrent` reply (empty when the result is not
/// a string).
pub fn gid_text(result: Option<String>) -> (r: String)
    ensures
        r@ == match result {
            Some(g) => g@,
            None => Seq::<char>::empty(),
        },
{
    match result {
        Some(g) => g,
        None => String::new(),
    }
}

/// `r` calls `method` with the gid as its one parameter.
pub open spec fn is_gid_request(r: RpcRequest, method: &'static str, gid: Seq<char>) -> bool {
    r.method == method && r.params@.len() == 1 && is_str_param(r.params@[0], gid)
}

/// The plan that removes task `gid`, forcefully when the graceful removal fails.
pub open spec fn is_remove_plan(p: RpcPlan, gid: Seq<char>) -> bool {
    &&& is_gid_request(p.primary, "remove", gid)
    &&& p.fallback matches Some(f) && is_gid_request(f, "forceRemove", gid)
}

/// The plan that drops the stored result of the finished task `gid`.
pub open spec fn is_remove_result_plan(p: RpcPlan, gid: Seq<char>) -> bool {
    &&& is_gid_request(p.primary, "removeDownloadResult", gid)
    &&& p.fallback is None
}

/// Pauses a task; a stuck BitTorrent task is paused forcefully instead.
pub fn pause_plan(gid: &str) -> (p: RpcPlan)
    ensures
        p.primary.method == "pause" && p.primary.params@.len() == 1 && is_str_param(p.primary.params@[0], gid@),
        p.fallback matches Some(f) && f.method == "forcePause" && f.params@.len() == 1 && is_str_param(
            f.params@[0],
            gid@,
        ),
{
    with_fallback("pause", "forcePause", vec![RpcParam::Str(owned(gid))], vec![RpcParam::Str(owned(gid))])
}

pub fn unpause_plan(gid: &str) -> (p: RpcPlan)
    ensures
        p.primary.method == "unpause" && p.primary.params@.len() == 1 && is_str_param(p.primary.params@[0], gid@),
        p.fallback is None,
{
    single("unpause", vec![RpcParam::Str(owned(gid))])
}

/// Removes a task; when that fails it is removed forcefully.
pub fn remove_plan(gid: &str) -> (p: RpcPlan)
    ensures
        is_remove_plan(p, gid@),
{
    with_fallback("remove", "forceRemove", vec![RpcParam::Str(owned(gid))], vec![RpcParam::Str(owned(gid))])
}

pub fn remove_download_result_plan(gid: &str) -> (p: RpcPlan)
    ensures
        is_remove_result_plan(p, gid@),
{
    single("removeDownloadResult", vec![RpcParam::Str(owned(gid))])
}

pub fn purge_download_result_plan() -> (p: RpcPlan)
    ensures
        p.primary.method == "purgeDownloadResult" && p.primary.params@.len() == 0,
        p.fallback is None,
{
    single("purgeDownloadResult", Vec::new())
}

/// Pauses every task; forcefully when the graceful pause fails.
pub fn pause_all_plan() -> (p: RpcPlan)
    ensures
        p.primary.method == "pauseAll" && p.primary.params@.len() == 0,
        p.fallback matches Some(f) && f.method == "forcePauseAll" && f.params@.len() == 0,
{
    with_fallback("pauseAll", "forcePauseAll", Vec::new(), Vec::new())
}

pub fn unpause_all_plan() -> (p: RpcPlan)
    ensures
        p.primary.method == "unpauseAll" && p.primary.params@.len() == 0,
        p.fallback is None,
{
    single("unpauseAll", Vec::new())
}

pub fn change_global_option_plan(options: Vec<(String, String)>) -> (p: RpcPlan)
    ensures
        p.primary.method == "changeGlobalOption" && p.primary.params@.len() == 1 && is_options_param(
            p.primary.params@[0],
            options@,
        ),
        p.fallback is None,
{
    single("changeGlobalOption", vec![RpcParam::Options(options)])
}

pub fn save_session_plan() -> (p: RpcPlan)
    ensures
        p.primary.method == "saveSession" && p.primary.params@.len() == 0,
        p.fallback is None,
{
    single("saveSession", Vec::new())
}

pub fn shutdown_plan() -> (p: RpcPlan)
    ensures
        p.primary.method == "shutdown" && p.primary.params@.len() == 0,
        p.fallback is None,
{
    single("shutdown", Vec::new())
}

} // verus!
