//! User settings.

use vstd::prelude::*;

use std::collections::hash_map::{DefaultHasher, RandomState};
use std::hash::{BuildHasher, Hasher};

use crate::text::{owned, push_char};

verus! {

#[derive(Debug, Clone, Copy, PartialEq, Eq, Structural)]
pub enum ThemeMode {
    Light,
    Dark,
    System,
}

#[derive(Debug, Clone)]
pub struct AppConfig {
    pub theme: ThemeMode,
    pub download_dir: String,
    pub max_concurrent_downloads: u32,
    pub split: u32,
    /// bytes/s, 0 = unlimited
    pub max_overall_download_limit: u64,
    /// bytes/s, 0 = unlimited
    pub max_overall_upload_limit: u64,
    pub user_agent: String,
    pub rpc_port: u16,
    pub rpc_secret: String,
    pub bt_trackers: Vec<String>,
    pub resume_all_when_app_launched: bool,
    pub new_task_show_downloading: bool,
    pub keep_window_state: bool,
    pub notify_on_complete: bool,
    pub notify_on_error: bool,
    pub warn_before_quit: bool,
}

impl AppConfig {
    /// The settings of a first run, downloading into `download_dir`.
    pub fn default_in(download_dir: String) -> (c: AppConfig)
        ensures
            c.theme == ThemeMode::System,
            c.download_dir@ == download_dir@,
            c.max_concurrent_downloads == 5,
            c.split == 16,
            c.max_overall_download_limit == 0,
            c.max_overall_upload_limit == 0,
            c.user_agent@ == "Transmission/4.0.5"@,
            c.rpc_port == 29101,
            c.rpc_secret@ == Seq::<char>::empty(),
            c.bt_trackers@.len() == 0,
            !c.resume_all_when_app_launched,
            c.new_task_show_downloading,
            c.keep_window_state,
            c.notify_on_complete,
            !c.notify_on_error,
            c.warn_before_quit,
    {
        AppConfig {
            theme: ThemeMode::System,
            download_dir,
            max_concurrent_downloads: 5,
            split: 16,
            max_overall_download_limit: 0,
            max_overall_upload_limit: 0,
            user_agent: owned("Transmission/4.0.5"),
            rpc_port: 29101,
            rpc_secret: String::new(),
            bt_trackers: Vec::new(),
            resume_all_when_app_launched: false,
            new_task_show_downloading: true,
            keep_window_state: true,
            notify_on_complete: true,
            notify_on_error: false,
            warn_before_quit: true,
        }
    }
}

/// Hexadecimal digit `d` (0..=15) in lower case.
pub open spec fn hex_digit(d: nat) -> char {
    if d < 10 {
        (48 + d) as char
    } else {
        (87 + d) as char
    }
}

/// `x` as 16 lower-case hexadecimal digits, most significant first.
pub open spec fn hex16(x: nat) -> Seq<char> {
    Seq::new(16, |i: int| hex_digit(((x / pow16((15 - i) as nat)) % 16) as nat))
}

pub open spec fn pow16(k: nat) -> nat
    decreases k,
{
    if k == 0 {
        1
    } else {
        16 * pow16((k - 1) as nat)
    }
}

fn hex_char(d: u64) -> (c: char)
    requires
        d < 16,
    ensures
        c == hex_digit(d as nat),
{
    if d < 10 {
        ((48 + d) as u8) as char
    } else {
        ((87 + d) as u8) as char
    }
}

proof fn lemma_pow16_step(k: nat)
    ensures
        pow16(k + 1) == 16 * pow16(k),
        pow16(k) >= 1,
    decreases k,
{
    if k > 0 {
        lemma_pow16_step((k - 1) as nat);
    }
}

/// Appends `x` as 16 lower-case hexadecimal digits (`{:016x}`).
fn push_hex16(s: &mut String, x: u64)
    ensures
        final(s)@ == old(s)@ + hex16(x as nat),
{
    let mut i: usize = 0;
    let mut div: u64 = 0x1000_0000_0000_0000;
    proof {
        reveal_with_fuel(pow16, 16);
    }
    while i < 16
        invariant
            i <= 16,
            div == pow16((15 - i) as nat) || i == 16,
            s@ == old(s)@ + hex16(x as nat).take(i as int),
        decreases 16 - i,
    {
        proof {
            lemma_pow16_step((15 - i) as nat);
        }
        let d = (x / div) % 16;
        push_char(s, hex_char(d));
        proof {
            assert(hex16(x as nat)[i as int] == hex_digit(d as nat));
            assert(hex16(x as nat).take(i + 1) =~= hex16(x as nat).take(i as int).push(hex_digit(
                d as nat,
            )));
            if i < 15 {
                lemma_pow16_step((14 - i) as nat);
            }
        }
        if i < 15 {
            div = div / 16;
        }
        i = i + 1;
    }
    assert(hex16(x as nat).take(16) =~= hex16(x as nat));
}

/// `RandomState::new`: hasher keys drawn at random for this process.
#[verifier::external_body]
fn random_state() -> RandomState {
    RandomState::new()
}

/// `BuildHasher::build_hasher` of a `RandomState`. Nothing is stated of the
/// hasher: its keys are random, so what it computes is unknown.
#[verifier::external_body]
fn random_hasher(state: &RandomState) -> DefaultHasher {
    state.build_hasher()
}

/// The eight bytes of `x`, least significant first.
fn le_bytes(x: u64) -> (b: Vec<u8>)
    ensures
        b@.len() == 8,
{
    let mut b: Vec<u8> = Vec::new();
    let mut k: u64 = 0;
    while k < 8
        invariant
            k <= 8,
            b@.len() == k,
        decreases 8 - k,
    {
        b.push(#[verifier::truncate] ((x >> (8 * k)) as u8));
        k = k + 1;
    }
    b
}

/// `x` hashed by a hasher with fresh random keys.
fn random_hash(x: u64) -> u64 {
    let state = random_state();
    let mut hasher = random_hasher(&state);
    let bytes = le_bytes(x);
    hasher.write(bytes.as_slice());
    hasher.finish()
}

/// Sub-second nanoseconds of the system clock (0 before the epoch).
#[verifier::external_body]
fn clock_subsec_nanos() -> u64 {
    std::time::SystemTime::now().duration_since(std::time::UNIX_EPOCH).map(|d| d.subsec_nanos() as u64).unwrap_or(0)
}

/// A fresh RPC secret: two random 64-bit values as 32 lower-case hex digits.
pub fn generate_secret() -> (secret: String)
    ensures
        exists|a: u64, b: u64| secret@ == hex16(a as nat) + hex16(b as nat),
{
    let mut out = String::new();
    let a = random_hash(clock_subsec_nanos());
    push_hex16(&mut out, a);
    let b = random_hash(clock_subsec_nanos());
    push_hex16(&mut out, b);
    assert(out@ =~= hex16(a as nat) + hex16(b as nat));
    out
}

} // verus!
