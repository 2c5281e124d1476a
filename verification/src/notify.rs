//! System notifications: which service shows one on each platform, and the
//! AppleScript that shows one through `osascript` where no notification
//! centre is available.

use vstd::prelude::*;

use crate::daemon::Platform;
use crate::text::{chars_of, owned, push_char, push_str};

verus! {

/// `s` with every `"` turned into `'`.
pub open spec fn quotes_to_apostrophes(s: Seq<char>) -> Seq<char>
    decreases s.len(),
{
    if s.len() == 0 {
        Seq::empty()
    } else {
        quotes_to_apostrophes(s.drop_last()).push(
            if s.last() == '"' {
                '\''
            } else {
                s.last()
            },
        )
    }
}

/// `s` without its backslashes.
pub open spec fn without_backslashes(s: Seq<char>) -> Seq<char>
    decreases s.len(),
{
    if s.len() == 0 {
        Seq::empty()
    } else if s.last() == '\\' {
        without_backslashes(s.drop_last())
    } else {
        without_backslashes(s.drop_last()).push(s.last())
    }
}

/// Appends `s` with quotes turned into apostrophes, and without backslashes
/// when `drop_backslashes` is set.
fn push_escaped(out: &mut String, s: &str, drop_backslashes: bool)
    ensures
        final(out)@ == old(out)@ + if drop_backslashes {
            quotes_to_apostrophes(without_backslashes(s@))
        } else {
            quotes_to_apostrophes(s@)
        },
{
    let v = chars_of(s);
    let mut i: usize = 0;
    while i < v.len()
        invariant
            i <= v.len(),
            v@ == s@,
            out@ == old(out)@ + if drop_backslashes {
                quotes_to_apostrophes(without_backslashes(v@.take(i as int)))
            } else {
                quotes_to_apostrophes(v@.take(i as int))
            },
        decreases v.len() - i,
    {
        let c = v[i];
        proof {
            assert(v@.take(i + 1).drop_last() =~= v@.take(i as int));
            assert(v@.take(i + 1).last() == c);
        }
        if drop_backslashes && c == '\\' {
        } else if c == '"' {
            push_char(out, '\'');
        } else {
            push_char(out, c);
        }
        proof {
            if drop_backslashes && c != '\\' {
                assert(without_backslashes(v@.take(i + 1)) =~= without_backslashes(v@.take(i as int)).push(c));
                assert(without_backslashes(v@.take(i + 1)).drop_last() =~= without_backslashes(
                    v@.take(i as int),
                ));
            }
            if !drop_backslashes {
                assert(v@.take(i + 1).drop_last() =~= v@.take(i as int));
            }
        }
        i = i + 1;
    }
    assert(v@.take(v.len() as int) =~= v@);
}

/// The AppleScript `display notification "<body>" with title "<title>"`:
/// quotes in both become apostrophes and backslashes leave the body.
pub fn osascript_script(title: &str, body: &str) -> (r: String)
    ensures
        r@ == "display notification \""@ + quotes_to_apostrophes(without_backslashes(body@))
            + "\" with title \""@ + quotes_to_apostrophes(title@) + "\""@,
{
    let mut s = owned("display notification \"");
    push_escaped(&mut s, body, true);
    push_str(&mut s, "\" with title \"");
    push_escaped(&mut s, title, false);
    push_str(&mut s, "\"");
    s
}

/// How a system notification is shown.
pub enum NotificationRoute {
    /// The macOS notification centre (an application bundle has one).
    NotificationCenter,
    /// `osascript -e <script>` on macOS outside a bundle.
    AppleScript(String),
    /// The desktop notification service, as the application "Motrix".
    Desktop,
}

/// The way to show a notification titled `title` saying `body`: on macOS the
/// notification centre when running as a bundle, else an AppleScript; the
/// desktop service elsewhere.
pub fn notification_route(platform: Platform, bundled: bool, title: &str, body: &str) -> (r: NotificationRoute)
    ensures
        platform == Platform::MacOs && bundled ==> r is NotificationCenter,
        platform == Platform::MacOs && !bundled ==> (r matches NotificationRoute::AppleScript(s) && s@
            == "display notification \""@ + quotes_to_apostrophes(without_backslashes(body@))
            + "\" with title \""@ + quotes_to_apostrophes(title@) + "\""@),
        platform != Platform::MacOs ==> r is Desktop,
{
    if platform == Platform::MacOs {
        if bundled {
            NotificationRoute::NotificationCenter
        } else {
            NotificationRoute::AppleScript(osascript_script(title, body))
        }
    } else {
        NotificationRoute::Desktop
    }
}

/// Permission to notify is asked for at launch only by a macOS bundle.
pub fn asks_permission(platform: Platform, bundled: bool) -> (r: bool)
    ensures
        r == (platform == Platform::MacOs && bundled),
{
    platform == Platform::MacOs && bundled
}

} // verus!
