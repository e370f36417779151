//! The configuration source and watcher.
//!
//! The source decodes what the backing store handed over; reading the
//! store itself is the runtime shell's work. The watcher owns the
//! current snapshot and its version: on every poll it replaces the
//! snapshot and bumps the version exactly when a load succeeded with a
//! structurally different snapshot, so subscribers are woken only on
//! real change, and a failed load never erases a good snapshot.
//! Subscribers read the latest snapshot whenever they check: updates
//! between two checks coalesce, none is queued.

use vstd::prelude::*;
use crate::config::{Config, ConfigV};
use crate::decode::{config_decode, decode_config};
use crate::errors::{SourceError, SourceErrorV};
use crate::rule_types::RuleType;

verus! {

/// The externally supplied set of rule kinds one process instance
/// actually evaluates.
#[derive(Debug, Clone)]
pub struct Configuration {
    pub rules: Vec<RuleType>,
}

/// What one load attempt yields once the store's answer is in hand:
/// unreadable content fails as `Unavailable`, readable content that does
/// not decode fails as `Malformed`, and nothing else fails.
pub open spec fn source_load(content: Option<Seq<char>>) -> Result<ConfigV, SourceErrorV> {
    match content {
        None => Err(SourceErrorV::Unavailable),
        Some(s) => match config_decode(s) {
            Ok(c) => Ok(c),
            Err(e) => Err(SourceErrorV::Malformed(e)),
        },
    }
}

/// Decodes one load attempt of the configuration source: `content` is
/// the store's full answer, or `None` where it could not be read. The
/// source keeps no state between calls.
pub fn load_config(content: Option<&str>) -> (r: Result<Config, SourceError>)
    ensures
        match r {
            Ok(c) => source_load(match content {
                Some(s) => Some(s@),
                None => None,
            }) == Ok::<ConfigV, SourceErrorV>(c@),
            Err(e) => source_load(match content {
                Some(s) => Some(s@),
                None => None,
            }) matches Err(ev) && ev == e@,
        },
{
    match content {
        None => Err(SourceError::Unavailable),
        Some(s) => match decode_config(s) {
            Ok(c) => Ok(c),
            Err(e) => Err(SourceError::Malformed(e)),
        },
    }
}

/// The mathematical state of a watcher: its snapshot and how often it
/// has been replaced.
pub ghost struct WatcherV {
    pub current: ConfigV,
    pub version: int,
}

/// The view of one load attempt's result.
pub open spec fn loaded_view(loaded: Result<Config, SourceError>) -> Result<ConfigV, SourceErrorV> {
    match loaded {
        Ok(c) => Ok(c@),
        Err(e) => Err(e@),
    }
}

/// The watcher's transition on one poll: a successful load of a
/// different snapshot replaces it and bumps the version; an equal load
/// or a failed load changes nothing.
pub open spec fn poll_transition(w: WatcherV, loaded: Result<ConfigV, SourceErrorV>) -> WatcherV {
    match loaded {
        Ok(c) => if c != w.current {
            WatcherV { current: c, version: w.version + 1 }
        } else {
            w
        },
        Err(_) => w,
    }
}

/// What one poll did.
#[derive(Debug, Clone)]
pub enum PollOutcome {
    /// The snapshot changed and subscribers are to be woken.
    Published,
    /// The load succeeded with an equal snapshot; nothing happened.
    Unchanged,
    /// The load failed; the previous snapshot stays live.
    Failed(SourceError),
}

/// The holder of the current snapshot. The background loop of the
/// runtime shell is its single writer; any number of subscriptions read
/// it.
#[derive(Debug, Clone)]
pub struct ConfigWatcher {
    pub current: Config,
    pub version: u64,
}

/// One consumer's handle: the last version it has observed.
#[derive(Debug, Clone)]
pub struct Subscription {
    pub seen: u64,
}

impl View for ConfigWatcher {
    type V = WatcherV;

    open spec fn view(&self) -> WatcherV {
        WatcherV { current: self.current@, version: self.version as int }
    }
}

impl ConfigWatcher {
    /// Construction from the first load. It fails exactly when that load
    /// failed: with no prior good snapshot there is nothing to fall back
    /// on, so the failure is fatal to construction.
    pub fn new(initial: Result<Config, SourceError>) -> (r: Result<ConfigWatcher, SourceError>)
        ensures
            match r {
                Ok(w) => loaded_view(initial) matches Ok(c) && w@.current == c && w@.version == 0,
                Err(e) => loaded_view(initial) matches Err(ev) && ev == e@,
            },
    {
        match initial {
            Ok(c) => Ok(ConfigWatcher { current: c, version: 0 }),
            Err(e) => Err(e),
        }
    }

    /// Applies one poll's load result: exactly the `poll_transition`
    /// step, with the outcome saying whether subscribers are to be woken.
    pub fn apply_poll(&mut self, loaded: Result<Config, SourceError>) -> (r: PollOutcome)
        requires
            old(self)@.version < u64::MAX,
        ensures
            final(self)@ == poll_transition(old(self)@, loaded_view(loaded)),
            match r {
                PollOutcome::Published => loaded_view(loaded) matches Ok(c) && c != old(
                    self,
                )@.current,
                PollOutcome::Unchanged => loaded_view(loaded) matches Ok(c) && c == old(
                    self,
                )@.current,
                PollOutcome::Failed(e) => loaded_view(loaded) matches Err(ev) && ev == e@,
            },
    {
        match loaded {
            Err(e) => PollOutcome::Failed(e),
            Ok(c) => {
                if !(c == self.current) {
                    self.current = c;
                    self.version = self.version + 1;
                    PollOutcome::Published
                } else {
                    PollOutcome::Unchanged
                }
            },
        }
    }

    /// The latest snapshot, read without blocking.
    pub fn current_snapshot(&self) -> (c: &Config)
        ensures
            c@ == self@.current,
    {
        &self.current
    }

    /// A new subscription, caught up with the current version.
    pub fn subscribe(&self) -> (s: Subscription)
        ensures
            s.seen == self.version,
    {
        Subscription { seen: self.version }
    }

    /// Whether a subscription has a replacement it has not observed yet.
    pub fn has_update(&self, sub: &Subscription) -> (b: bool)
        ensures
            b == (sub.seen != self.version),
    {
        sub.seen != self.version
    }

    /// Reads the latest snapshot and marks the subscription as caught
    /// up: a slow subscriber observes only the latest value, never the
    /// queue of intermediate ones.
    pub fn read_latest<'a>(&'a self, sub: &mut Subscription) -> (c: &'a Config)
        ensures
            final(sub).seen == self.version,
            c@ == self@.current,
    {
        sub.seen = self.version;
        &self.current
    }
}

/// A load that returns a snapshot equal to the current one leaves the
/// watcher exactly as it was: no replacement, no wake-up.
pub proof fn lemma_equal_poll_is_silent(w: WatcherV, c: ConfigV)
    requires
        c == w.current,
    ensures
        poll_transition(w, Ok(c)) == w,
{
}

/// One poll wakes subscribers exactly when it loaded a different
/// snapshot: the version moves by one on change and not at all
/// otherwise, and the snapshot after the poll is the loaded one exactly
/// on change.
pub proof fn lemma_wake_iff_distinct(w: WatcherV, c: ConfigV)
    ensures
        poll_transition(w, Ok(c)).version == if c != w.current {
            w.version + 1
        } else {
            w.version
        },
        poll_transition(w, Ok(c)).current == if c != w.current {
            c
        } else {
            w.current
        },
{
}

/// A failed load keeps the previous snapshot live and wakes nobody.
pub proof fn lemma_failed_poll_keeps_snapshot(w: WatcherV, e: SourceErrorV)
    ensures
        poll_transition(w, Err(e)) == w,
{
}

/// The watcher after a whole sequence of polls.
pub open spec fn run_polls(w: WatcherV, loads: Seq<Result<ConfigV, SourceErrorV>>) -> WatcherV
    decreases loads.len(),
{
    if loads.len() == 0 {
        w
    } else {
        run_polls(poll_transition(w, loads[0]), loads.drop_first())
    }
}

/// How many of the polls in `loads` load a snapshot different from the
/// snapshot current at that moment.
pub open spec fn distinct_changes(w: WatcherV, loads: Seq<Result<ConfigV, SourceErrorV>>) -> int
    decreases loads.len(),
{
    if loads.len() == 0 {
        0
    } else {
        let change: int = match loads[0] {
            Ok(c) => if c != w.current {
                1
            } else {
                0
            },
            Err(_) => 0,
        };
        change + distinct_changes(poll_transition(w, loads[0]), loads.drop_first())
    }
}

/// Over any poll sequence, the number of wake-ups equals the number of
/// polls that loaded a distinct snapshot: equal reloads and failures
/// wake nobody.
pub proof fn lemma_wakes_count_distinct(w: WatcherV, loads: Seq<Result<ConfigV, SourceErrorV>>)
    ensures
        run_polls(w, loads).version == w.version + distinct_changes(w, loads),
    decreases loads.len(),
{
    if loads.len() > 0 {
        lemma_wakes_count_distinct(poll_transition(w, loads[0]), loads.drop_first());
    }
}

} // verus!
