//! The Trackers page: the tracker list shown, its sync from the community
//! lists and how it is applied to the engine.

use vstd::prelude::*;

use crate::client::{change_global_option_plan, RpcPlan};
use crate::config::AppConfig;
use crate::daemon::{join_with, strings};
use crate::forms::{
    applied_message, copy_strings, initial_trackers, kept_lines, option_pairs, sync_result, tracker_options,
};
use crate::text::{dec_nat, lines_of};

verus! {

/// The community tracker lists the page can sync from.
#[derive(Debug, Clone, Copy, PartialEq, Eq, Structural)]
pub enum TrackerSource {
    Best,
    All,
}

pub open spec fn source_url(s: TrackerSource) -> Seq<char> {
    match s {
        TrackerSource::Best => "https://raw.githubusercontent.com/ngosang/trackerslist/master/trackers_best.txt"@,
        TrackerSource::All => "https://raw.githubusercontent.com/ngosang/trackerslist/master/trackers_all.txt"@,
    }
}

impl TrackerSource {
    /// The address of the list.
    pub fn url(self) -> (r: &'static str)
        ensures
            r@ == source_url(self),
    {
        match self {
            TrackerSource::Best => "https://raw.githubusercontent.com/ngosang/trackerslist/master/trackers_best.txt",
            TrackerSource::All => "https://raw.githubusercontent.com/ngosang/trackerslist/master/trackers_all.txt",
        }
    }
}

/// What the Trackers page holds: the list shown, whether a sync is under
/// way, and the error of the last sync.
pub struct TrackersModel {
    pub trackers: Vec<String>,
    pub loading: bool,
    pub error: Option<String>,
}

impl TrackersModel {
    /// The page starts from the configured list, else the bundled one.
    pub fn new(configured: &Vec<String>, builtin: Vec<String>) -> (m: TrackersModel)
        ensures
            strings(m.trackers@) == if configured@.len() == 0 {
                strings(builtin@)
            } else {
                strings(configured@)
            },
            !m.loading,
            m.error is None,
    {
        TrackersModel { trackers: initial_trackers(configured, builtin), loading: false, error: None }
    }

    /// A click on a sync button: while a sync runs nothing happens (`None`);
    /// otherwise the page starts loading, forgets the last error, and the
    /// list at the returned address is to be downloaded.
    pub fn start_sync(&mut self, source: TrackerSource) -> (url: Option<&'static str>)
        ensures
            old(self).loading ==> url is None && final(self).loading && final(self).error == old(self).error,
            !old(self).loading ==> (url matches Some(u) && u@ == source_url(source)) && final(self).loading
                && final(self).error is None,
            final(self).trackers == old(self).trackers,
    {
        if self.loading {
            return None;
        }
        self.loading = true;
        self.error = None;
        Some(source.url())
    }

    /// The download finished with `fetched` (the text, or the error): a
    /// non-empty list replaces the one shown, otherwise the error is kept.
    pub fn finish_sync(&mut self, fetched: Result<String, String>)
        ensures
            !final(self).loading,
            match fetched {
                Ok(body) => {
                    let list = kept_lines(lines_of(body@), false);
                    if list.len() > 0 {
                        strings(final(self).trackers@) == list && final(self).error is None
                    } else {
                        final(self).trackers == old(self).trackers && (final(self).error matches Some(e)
                            && e@ == "Sync returned an empty list."@)
                    }
                },
                Err(err) => final(self).trackers == old(self).trackers && (final(self).error matches Some(e)
                    && e@ == "Sync failed: "@ + err@),
            },
    {
        self.loading = false;
        match sync_result(fetched) {
            Ok(list) => {
                self.trackers = list;
                self.error = None;
            },
            Err(e) => {
                self.error = Some(e);
            },
        }
    }

    /// "Apply to engine": the list becomes the configured one, the engine is
    /// handed it comma-separated, and the returned message says how many
    /// trackers were applied.
    pub fn apply(&self, config: &mut AppConfig) -> (r: (RpcPlan, String))
        ensures
            strings(final(config).bt_trackers@) == strings(self.trackers@),
            r.0.primary.method == "changeGlobalOption",
            r.0.fallback is None,
            r.0.primary.params@.len() == 1,
            r.0.primary.params@[0] matches crate::client::RpcParam::Options(o) && option_pairs(o@) == seq![
                ("bt-tracker"@, join_with(strings(self.trackers@), ","@)),
            ],
            r.1@ == dec_nat(self.trackers@.len()) + " trackers applied to the engine."@,
            final(config).download_dir == old(config).download_dir,
            final(config).rpc_port == old(config).rpc_port,
            final(config).rpc_secret == old(config).rpc_secret,
    {
        config.bt_trackers = copy_strings(&self.trackers);
        let plan = change_global_option_plan(tracker_options(&self.trackers));
        (plan, applied_message(self.trackers.len()))
    }
}

} // verus!
