//! The node's event loop, one step at a time.
//!
//! The loop waits for whichever comes first, a network event or the tick
//! of one of four timers, and hands it to [`run_step`]. Nothing here
//! waits: a step returns the actions to start and whether to go on.

use crate::event::{
    event_actions, handle_network_event, peers_after, replication_actions, Action, Marker,
    NetworkEvent, NodeConfig, NodeEvent, NodeState,
};
use crate::random::random_in_range;
use vstd::prelude::*;

verus! {

/// Longest time between two periodic replications, in seconds. A node
/// replicates at least every half of it.
pub const PERIODIC_REPLICATION_INTERVAL_MAX_S: u64 = 180;

/// Longest time between two rounds of storage challenges, in seconds.
pub const STORE_CHALLENGE_INTERVAL_MAX_S: u64 = 7200;

/// Time between two updates of the uptime metric, in seconds.
pub const UPTIME_METRICS_UPDATE_INTERVAL_S: u64 = 10;

/// Time between two cleanups of irrelevant records, in seconds.
pub const UNRELEVANT_RECORDS_CLEANUP_INTERVAL_S: u64 = 3600;

/// The periods of the four timers, in seconds.
#[derive(Clone, Copy, Debug, PartialEq, Eq)]
pub struct Schedule {
    pub replication_interval_s: u64,
    pub uptime_metrics_interval_s: u64,
    pub cleanup_interval_s: u64,
    pub storage_challenge_interval_s: u64,
}

/// The four timers.
#[derive(Clone, Copy, Debug, PartialEq, Eq)]
pub enum Ticker {
    Replication,
    UptimeMetrics,
    Cleanup,
    StorageChallenge,
}

/// What wakes the loop.
#[derive(Debug, PartialEq, Eq)]
pub enum Wake {
    /// The swarm driver reported an event.
    Event(NetworkEvent),
    /// The swarm driver is gone: no event will follow.
    EventsClosed,
    /// A timer ticked.
    Tick(Ticker),
}

/// Which timers have ticked before. A timer's first tick comes at once
/// when the timer starts and is passed over, so that a starting node does
/// not do everything at the same moment.
#[derive(Clone, Copy, Debug, PartialEq, Eq)]
pub struct TickersSeen {
    pub replication: bool,
    pub uptime_metrics: bool,
    pub cleanup: bool,
    pub storage_challenge: bool,
}

/// What the loop remembers between steps.
#[derive(Clone, Copy, Debug, PartialEq, Eq)]
pub struct Runtime {
    pub node: NodeState,
    pub seen: TickersSeen,
}

/// Whether an interval suits a timer that may wait `max_s` at most.
pub open spec fn is_jittered(interval_s: u64, max_s: u64) -> bool {
    max_s / 2 <= interval_s <= max_s
}

/// Whether a schedule is one that a starting node may choose.
pub open spec fn is_valid_schedule(schedule: Schedule) -> bool {
    &&& is_jittered(schedule.replication_interval_s, PERIODIC_REPLICATION_INTERVAL_MAX_S)
    &&& is_jittered(schedule.storage_challenge_interval_s, STORE_CHALLENGE_INTERVAL_MAX_S)
    &&& schedule.uptime_metrics_interval_s == UPTIME_METRICS_UPDATE_INTERVAL_S
    &&& schedule.cleanup_interval_s == UNRELEVANT_RECORDS_CLEANUP_INTERVAL_S
}

/// An interval between half of `max_s` and `max_s`, drawn at random so
/// that neighbouring nodes do not act in step.
pub fn jittered_interval(max_s: u64) -> (interval_s: u64)
    requires
        max_s < u64::MAX,
    ensures
        is_jittered(interval_s, max_s),
{
    random_in_range(max_s / 2, max_s + 1)
}

/// The schedule with the two given drawn intervals and the two fixed
/// ones.
pub fn schedule_with(replication_interval_s: u64, storage_challenge_interval_s: u64) -> (schedule:
    Schedule)
    ensures
        schedule == (Schedule {
            replication_interval_s,
            uptime_metrics_interval_s: UPTIME_METRICS_UPDATE_INTERVAL_S,
            cleanup_interval_s: UNRELEVANT_RECORDS_CLEANUP_INTERVAL_S,
            storage_challenge_interval_s,
        }),
{
    Schedule {
        replication_interval_s,
        uptime_metrics_interval_s: UPTIME_METRICS_UPDATE_INTERVAL_S,
        cleanup_interval_s: UNRELEVANT_RECORDS_CLEANUP_INTERVAL_S,
        storage_challenge_interval_s,
    }
}

/// Chooses the schedule of a starting node: the replication and the
/// storage-challenge interval are drawn once, the others are fixed.
pub fn choose_schedule() -> (schedule: Schedule)
    ensures
        is_valid_schedule(schedule),
{
    let replication_interval_s = jittered_interval(PERIODIC_REPLICATION_INTERVAL_MAX_S);
    let storage_challenge_interval_s = jittered_interval(STORE_CHALLENGE_INTERVAL_MAX_S);
    schedule_with(replication_interval_s, storage_challenge_interval_s)
}

/// The state of a loop that has not taken a step yet.
pub fn new_runtime() -> (runtime: Runtime)
    ensures
        runtime == (Runtime {
            node: NodeState { peers_connected: 0 },
            seen: TickersSeen {
                replication: false,
                uptime_metrics: false,
                cleanup: false,
                storage_challenge: false,
            },
        }),
{
    Runtime {
        node: NodeState { peers_connected: 0 },
        seen: TickersSeen {
            replication: false,
            uptime_metrics: false,
            cleanup: false,
            storage_challenge: false,
        },
    }
}

/// Whether the timer has ticked before.
pub open spec fn has_ticked(seen: TickersSeen, ticker: Ticker) -> bool {
    match ticker {
        Ticker::Replication => seen.replication,
        Ticker::UptimeMetrics => seen.uptime_metrics,
        Ticker::Cleanup => seen.cleanup,
        Ticker::StorageChallenge => seen.storage_challenge,
    }
}

/// The record of ticks after one more tick of `ticker`.
pub open spec fn after_tick(seen: TickersSeen, ticker: Ticker) -> TickersSeen {
    match ticker {
        Ticker::Replication => TickersSeen { replication: true, ..seen },
        Ticker::UptimeMetrics => TickersSeen { uptime_metrics: true, ..seen },
        Ticker::Cleanup => TickersSeen { cleanup: true, ..seen },
        Ticker::StorageChallenge => TickersSeen { storage_challenge: true, ..seen },
    }
}

/// What a tick of a timer sets off, once the timer's first tick has been
/// passed over.
pub open spec fn tick_actions(ticker: Ticker) -> Seq<Action> {
    match ticker {
        Ticker::Replication => replication_actions(),
        Ticker::UptimeMetrics => seq![Action::UpdateUptime],
        Ticker::Cleanup => seq![Action::CleanupIrrelevantRecords],
        Ticker::StorageChallenge => seq![Action::StartStorageChallenge],
    }
}

/// The actions a step sets off.
pub open spec fn step_actions(config: NodeConfig, runtime: Runtime, wake: Wake) -> Seq<Action> {
    match wake {
        Wake::Event(event) => event_actions(config, runtime.node.peers_connected, event),
        Wake::EventsClosed => seq![Action::Broadcast(NodeEvent::ChannelClosed)],
        Wake::Tick(ticker) => if has_ticked(runtime.seen, ticker) {
            tick_actions(ticker)
        } else {
            Seq::empty()
        },
    }
}

/// What the loop remembers after a step.
pub open spec fn step_runtime(runtime: Runtime, wake: Wake) -> Runtime {
    match wake {
        Wake::Event(event) => Runtime {
            node: NodeState { peers_connected: peers_after(runtime.node.peers_connected, event) },
            seen: runtime.seen,
        },
        Wake::EventsClosed => runtime,
        Wake::Tick(ticker) => Runtime { node: runtime.node, seen: after_tick(runtime.seen, ticker) },
    }
}

/// Takes one step of the loop.
///
/// A network event is handled as [`handle_network_event`] says. When the
/// stream of events has ended the supervisors are told and the loop ends:
/// nothing else ends it, a request to terminate included. A tick sets off
/// its timer's work, except for the first tick of each timer.
pub fn run_step(config: &NodeConfig, runtime: &mut Runtime, wake: Wake) -> (step: (Vec<Action>, bool))
    ensures
        step.0@ == step_actions(*config, *old(runtime), wake),
        step.1 == !(wake is EventsClosed),
        *final(runtime) == step_runtime(*old(runtime), wake),
{
    match wake {
        Wake::Event(event) => {
            let mut node = runtime.node;
            let actions = handle_network_event(config, &mut node, event);
            runtime.node = node;
            (actions, true)
        },
        Wake::EventsClosed => {
            let mut actions: Vec<Action> = Vec::new();
            actions.push(Action::Broadcast(NodeEvent::ChannelClosed));
            (actions, false)
        },
        Wake::Tick(ticker) => {
            let mut actions: Vec<Action> = Vec::new();
            let seen = runtime.seen;
            match ticker {
                Ticker::Replication => {
                    if seen.replication {
                        actions.push(Action::RecordMetric(Marker::IntervalReplicationTriggered));
                        actions.push(Action::TriggerReplication);
                    }
                    runtime.seen.replication = true;
                },
                Ticker::UptimeMetrics => {
                    if seen.uptime_metrics {
                        actions.push(Action::UpdateUptime);
                    }
                    runtime.seen.uptime_metrics = true;
                },
                Ticker::Cleanup => {
                    if seen.cleanup {
                        actions.push(Action::CleanupIrrelevantRecords);
                    }
                    runtime.seen.cleanup = true;
                },
                Ticker::StorageChallenge => {
                    if seen.storage_challenge {
                        actions.push(Action::StartStorageChallenge);
                    }
                    runtime.seen.storage_challenge = true;
                },
            }
            assert(actions@ =~= step_actions(*config, *old(runtime), wake));
            (actions, true)
        },
    }
}

} // verus!
