//! Events from the swarm driver and what the node does about each.
//!
//! Handling an event never waits for the network: it updates the node's
//! small state and returns the list of actions the runtime has to start.

use crate::address::{NetworkAddress, PeerId, RecordKey, CLOSE_GROUP_SIZE};
use crate::evm::RewardsAddress;
use crate::messages::{CmdResponse, Query, QueryResponse, Response};
use crate::quote::Quote;
use crate::store::Record;
use vstd::prelude::*;

verus! {

/// Where the answer to a received query has to be sent.
#[derive(Clone, Copy, Debug, PartialEq, Eq)]
pub struct ResponseChannel {
    pub id: u64,
}

/// What the swarm driver reports to the node.
#[derive(Debug, PartialEq, Eq)]
pub enum NetworkEvent {
    /// A peer entered the routing table, which now holds this many peers.
    PeerAdded(PeerId, usize),
    /// A peer left the routing table, which now holds this many peers.
    PeerRemoved(PeerId, usize),
    /// A peer speaks another protocol version.
    PeerWithUnsupportedProtocol { our_protocol: String, their_protocol: String },
    /// The node started to listen on this address.
    NewListenAddr(String),
    /// A response arrived that nobody was waiting for.
    ResponseReceived { res: Response },
    /// Peers announced keys that this node should hold.
    KeysToFetchForReplication(Vec<(PeerId, RecordKey)>),
    /// A peer asks a question.
    QueryRequestReceived { query: Query, channel: ResponseChannel },
    /// A record arrived that has not been validated yet.
    UnverifiedRecord(Record),
    /// The driver cannot go on.
    TerminateNode { reason: String },
    /// Replication could not fetch copies from these peers.
    FailedToFetchHolders(Vec<PeerId>),
    /// Quotes of other nodes are to be checked against local knowledge.
    QuoteVerification { quotes: Vec<(PeerId, Quote)> },
    /// A peer is to be challenged on the chunk at `key_to_verify`.
    ChunkProofVerification { peer_id: PeerId, key_to_verify: NetworkAddress },
}

/// What the node tells its supervisors.
#[derive(Clone, Debug, PartialEq, Eq)]
pub enum NodeEvent {
    /// The node knows enough peers to serve a close group.
    ConnectedToNetwork,
    /// A peer was found while connecting.
    PeerAdded { max_peers_to_connect: usize },
    /// The stream of network events ended.
    ChannelClosed,
    /// The node has to stop, for the given reason.
    TerminateNode(String),
}

/// Points of interest that are logged and counted.
#[derive(Clone, Copy, Debug, PartialEq, Eq)]
pub enum Marker {
    PeersInRoutingTable(usize),
    PeerAddedToRoutingTable(PeerId),
    PeerRemovedFromRoutingTable(PeerId),
    IntervalReplicationTriggered,
    FetchingKeysForReplication { fetching_keys_len: usize },
}

/// A misbehaviour attributed to a peer.
#[derive(Clone, Copy, Debug, PartialEq, Eq)]
pub enum NodeIssue {
    ReplicationFailure,
    FailedChunkProofCheck,
}

/// What to make of a response that reached the common handler.
#[derive(Clone, Copy, Debug, PartialEq, Eq)]
pub enum ResponseNote {
    /// A replicate acknowledgement that should have been consumed earlier.
    MishandledReplicate,
    /// A replicated record that only its requester should receive.
    MisroutedReplicatedRecord,
    /// Any other response: nothing handles it here.
    NotHandled,
}

/// Work the runtime starts on behalf of the event handler. None of it is
/// waited for by the handler itself.
#[derive(Debug, PartialEq, Eq)]
pub enum Action {
    /// Tell the supervisors.
    Broadcast(NodeEvent),
    /// Log and count.
    RecordMetric(Marker),
    /// Send the local record keys to the closest peers.
    TriggerReplication,
    /// Dial this address.
    Dial(String),
    /// Answer the query and send the answer down the channel.
    HandleQuery { query: Query, channel: ResponseChannel },
    /// Validate the record, payment included, and store it.
    ValidateAndStore(Record),
    /// Log the classification of a stray response.
    NoteResponse(ResponseNote),
    /// Queue these keys for fetching.
    FetchReplicationKeys(Vec<(PeerId, RecordKey)>),
    /// Hold the issue against the peer.
    RecordNodeIssue(PeerId, NodeIssue),
    /// Check these quotes against local knowledge.
    VerifyQuotes(Vec<(PeerId, Quote)>),
    /// Challenge the peer on the chunk at `key`.
    ChallengePeer { peer: PeerId, key: NetworkAddress },
    /// Set the uptime metric to the time the node has been running.
    UpdateUptime,
    /// Drop the records that are no longer this node's to hold.
    CleanupIrrelevantRecords,
    /// Challenge the close group on the chunks held here.
    StartStorageChallenge,
}

/// What a node is started with.
#[derive(Clone, Debug, PartialEq, Eq)]
pub struct NodeConfig {
    /// Addresses dialled once the node listens.
    pub initial_peers: Vec<String>,
    /// Local-only mode: the initial peers are not dialled.
    pub local: bool,
    /// Where payments to this node go.
    pub reward_address: RewardsAddress,
}

/// What the event handler remembers between events.
#[derive(Clone, Copy, Debug, PartialEq, Eq)]
pub struct NodeState {
    /// How many peers were added since the node started. Never decreases.
    pub peers_connected: usize,
}

/// The classification of a stray response.
pub open spec fn response_note(response: Response) -> ResponseNote {
    match response {
        Response::Cmd(CmdResponse::Replicate(Ok(()))) => ResponseNote::MishandledReplicate,
        Response::Query(QueryResponse::GetReplicatedRecord(_)) => ResponseNote::MisroutedReplicatedRecord,
        _ => ResponseNote::NotHandled,
    }
}

/// One `Dial` per address, in the given order.
pub open spec fn dial_actions(peers: Seq<String>) -> Seq<Action> {
    Seq::new(peers.len(), |i: int| Action::Dial(peers[i]))
}

/// The same issue held against each peer, in the given order.
pub open spec fn issue_actions(peers: Seq<PeerId>, issue: NodeIssue) -> Seq<Action> {
    Seq::new(peers.len(), |i: int| Action::RecordNodeIssue(peers[i], issue))
}

/// The peer counter after an event: one more after `PeerAdded`, unless it
/// is at its maximum; unchanged otherwise.
pub open spec fn peers_after(peers_connected: usize, event: NetworkEvent) -> usize {
    if event is PeerAdded && peers_connected < usize::MAX {
        (peers_connected + 1) as usize
    } else {
        peers_connected
    }
}

/// What replication after a change of the routing table consists of.
pub open spec fn replication_actions() -> Seq<Action> {
    seq![Action::RecordMetric(Marker::IntervalReplicationTriggered), Action::TriggerReplication]
}

/// The actions an event calls for, given the peer counter before it.
pub open spec fn event_actions(
    config: NodeConfig,
    peers_connected: usize,
    event: NetworkEvent,
) -> Seq<Action> {
    match event {
        NetworkEvent::PeerAdded(peer, in_table) => {
            let announce = if peers_connected + 1 == CLOSE_GROUP_SIZE {
                seq![Action::Broadcast(NodeEvent::ConnectedToNetwork)]
            } else {
                Seq::empty()
            };
            announce + seq![
                Action::RecordMetric(Marker::PeersInRoutingTable(in_table)),
                Action::RecordMetric(Marker::PeerAddedToRoutingTable(peer)),
            ] + replication_actions()
        },
        NetworkEvent::PeerRemoved(peer, in_table) => seq![
            Action::RecordMetric(Marker::PeersInRoutingTable(in_table)),
            Action::RecordMetric(Marker::PeerRemovedFromRoutingTable(peer)),
        ] + replication_actions(),
        NetworkEvent::PeerWithUnsupportedProtocol { .. } => Seq::empty(),
        NetworkEvent::NewListenAddr(_) => if config.local {
            Seq::empty()
        } else {
            dial_actions(config.initial_peers@)
        },
        NetworkEvent::ResponseReceived { res } => seq![Action::NoteResponse(response_note(res))],
        NetworkEvent::KeysToFetchForReplication(keys) => seq![
            Action::RecordMetric(Marker::FetchingKeysForReplication { fetching_keys_len: keys.len() }),
            Action::FetchReplicationKeys(keys),
        ],
        NetworkEvent::QueryRequestReceived { query, channel } => seq![
            Action::HandleQuery { query, channel },
        ],
        NetworkEvent::UnverifiedRecord(record) => seq![Action::ValidateAndStore(record)],
        NetworkEvent::TerminateNode { reason } => seq![
            Action::Broadcast(NodeEvent::TerminateNode(reason)),
        ],
        NetworkEvent::FailedToFetchHolders(bad_nodes) => issue_actions(
            bad_nodes@,
            NodeIssue::ReplicationFailure,
        ),
        NetworkEvent::QuoteVerification { quotes } => seq![Action::VerifyQuotes(quotes)],
        NetworkEvent::ChunkProofVerification { peer_id, key_to_verify } => seq![
            Action::ChallengePeer { peer: peer_id, key: key_to_verify },
        ],
    }
}

/// Classifies a response that was not awaited where the request was sent.
pub fn handle_response(response: &Response) -> (note: ResponseNote)
    ensures
        note == response_note(*response),
{
    match response {
        Response::Cmd(CmdResponse::Replicate(Ok(()))) => ResponseNote::MishandledReplicate,
        Response::Query(QueryResponse::GetReplicatedRecord(_)) => ResponseNote::MisroutedReplicatedRecord,
        _ => ResponseNote::NotHandled,
    }
}

/// Handles one event of the swarm driver: counts the peer if one was
/// added, and returns what the runtime has to start, in order.
pub fn handle_network_event(
    config: &NodeConfig,
    state: &mut NodeState,
    event: NetworkEvent,
) -> (actions: Vec<Action>)
    ensures
        actions@ == event_actions(*config, old(state).peers_connected, event),
        final(state).peers_connected == peers_after(old(state).peers_connected, event),
{
    let mut actions: Vec<Action> = Vec::new();
    match event {
        NetworkEvent::PeerAdded(peer, in_table) => {
            if state.peers_connected < usize::MAX {
                state.peers_connected = state.peers_connected + 1;
                if state.peers_connected == CLOSE_GROUP_SIZE {
                    actions.push(Action::Broadcast(NodeEvent::ConnectedToNetwork));
                }
            }
            actions.push(Action::RecordMetric(Marker::PeersInRoutingTable(in_table)));
            actions.push(Action::RecordMetric(Marker::PeerAddedToRoutingTable(peer)));
            actions.push(Action::RecordMetric(Marker::IntervalReplicationTriggered));
            actions.push(Action::TriggerReplication);
        },
        NetworkEvent::PeerRemoved(peer, in_table) => {
            actions.push(Action::RecordMetric(Marker::PeersInRoutingTable(in_table)));
            actions.push(Action::RecordMetric(Marker::PeerRemovedFromRoutingTable(peer)));
            actions.push(Action::RecordMetric(Marker::IntervalReplicationTriggered));
            actions.push(Action::TriggerReplication);
        },
        NetworkEvent::PeerWithUnsupportedProtocol { .. } => {},
        NetworkEvent::NewListenAddr(_) => {
            if !config.local {
                let mut i: usize = 0;
                while i < config.initial_peers.len()
                    invariant
                        i <= config.initial_peers@.len(),
                        actions@ == dial_actions(config.initial_peers@.take(i as int)),
                    decreases config.initial_peers@.len() - i,
                {
                    actions.push(Action::Dial(config.initial_peers[i].clone()));
                    assert(actions@ =~= dial_actions(config.initial_peers@.take(i as int + 1)));
                    i = i + 1;
                }
                assert(config.initial_peers@.take(i as int) =~= config.initial_peers@);
            }
        },
        NetworkEvent::ResponseReceived { res } => {
            actions.push(Action::NoteResponse(handle_response(&res)));
        },
        NetworkEvent::KeysToFetchForReplication(keys) => {
            actions.push(
                Action::RecordMetric(
                    Marker::FetchingKeysForReplication { fetching_keys_len: keys.len() },
                ),
            );
            actions.push(Action::FetchReplicationKeys(keys));
        },
        NetworkEvent::QueryRequestReceived { query, channel } => {
            actions.push(Action::HandleQuery { query, channel });
        },
        NetworkEvent::UnverifiedRecord(record) => {
            actions.push(Action::ValidateAndStore(record));
        },
        NetworkEvent::TerminateNode { reason } => {
            actions.push(Action::Broadcast(NodeEvent::TerminateNode(reason)));
        },
        NetworkEvent::FailedToFetchHolders(bad_nodes) => {
            let mut i: usize = 0;
            while i < bad_nodes.len()
                invariant
                    i <= bad_nodes@.len(),
                    actions@ == issue_actions(
                        bad_nodes@.take(i as int),
                        NodeIssue::ReplicationFailure,
                    ),
                decreases bad_nodes@.len() - i,
            {
                actions.push(Action::RecordNodeIssue(bad_nodes[i], NodeIssue::ReplicationFailure));
                assert(actions@ =~= issue_actions(
                    bad_nodes@.take(i as int + 1),
                    NodeIssue::ReplicationFailure,
                ));
                i = i + 1;
            }
            assert(bad_nodes@.take(i as int) =~= bad_nodes@);
        },
        NetworkEvent::QuoteVerification { quotes } => {
            actions.push(Action::VerifyQuotes(quotes));
        },
        NetworkEvent::ChunkProofVerification { peer_id, key_to_verify } => {
            actions.push(Action::ChallengePeer { peer: peer_id, key: key_to_verify });
        },
    }
    assert(actions@ =~= event_actions(*config, old(state).peers_connected, event));
    actions
}

/// The actions of a whole run: the events handled one after the other,
/// starting from the given peer counter.
pub open spec fn run_actions(
    config: NodeConfig,
    peers_connected: usize,
    events: Seq<NetworkEvent>,
) -> Seq<Action>
    decreases events.len(),
{
    if events.len() == 0 {
        Seq::empty()
    } else {
        event_actions(config, peers_connected, events[0]) + run_actions(
            config,
            peers_after(peers_connected, events[0]),
            events.drop_first(),
        )
    }
}

/// How many of the events are `PeerAdded`.
pub open spec fn peers_added(events: Seq<NetworkEvent>) -> nat
    decreases events.len(),
{
    if events.len() == 0 {
        0
    } else {
        (if events[0] is PeerAdded {
            1nat
        } else {
            0nat
        }) + peers_added(events.drop_first())
    }
}

/// Whether the action announces that the node is connected.
pub open spec fn announces_connected(action: Action) -> bool {
    action == Action::Broadcast(NodeEvent::ConnectedToNetwork)
}

/// How many of the actions announce that the node is connected.
pub open spec fn connected_announcements(actions: Seq<Action>) -> nat
    decreases actions.len(),
{
    if actions.len() == 0 {
        0
    } else {
        connected_announcements(actions.drop_last()) + (if announces_connected(actions.last()) {
            1nat
        } else {
            0nat
        })
    }
}

proof fn lemma_announcements_add(a: Seq<Action>, b: Seq<Action>)
    ensures
        connected_announcements(a + b) == connected_announcements(a) + connected_announcements(b),
    decreases b.len(),
{
    if b.len() == 0 {
        assert(a + b =~= a);
    } else {
        assert((a + b).drop_last() =~= a + b.drop_last());
        assert((a + b).last() == b.last());
        lemma_announcements_add(a, b.drop_last());
    }
}

proof fn lemma_no_announcements(actions: Seq<Action>)
    requires
        forall|i: int| 0 <= i < actions.len() ==> !announces_connected(#[trigger] actions[i]),
    ensures
        connected_announcements(actions) == 0,
    decreases actions.len(),
{
    if actions.len() > 0 {
        lemma_no_announcements(actions.drop_last());
    }
}

/// One event announces the connection exactly when it is the `PeerAdded`
/// that takes the counter to the close-group size.
proof fn lemma_event_announcements(config: NodeConfig, peers_connected: usize, event: NetworkEvent)
    ensures
        connected_announcements(event_actions(config, peers_connected, event)) == (if event
            is PeerAdded && peers_connected + 1 == CLOSE_GROUP_SIZE {
            1nat
        } else {
            0nat
        }),
{
    let actions = event_actions(config, peers_connected, event);
    if event is PeerAdded && peers_connected + 1 == CLOSE_GROUP_SIZE {
        let head = seq![Action::Broadcast(NodeEvent::ConnectedToNetwork)];
        let tail = actions.subrange(1, actions.len() as int);
        assert(actions =~= head + tail);
        lemma_announcements_add(head, tail);
        lemma_no_announcements(tail);
        assert(head.drop_last() =~= Seq::<Action>::empty());
        assert(connected_announcements(head.drop_last()) == 0);
        assert(announces_connected(head.last()));
        assert(connected_announcements(head) == 1);
    } else {
        lemma_no_announcements(actions);
    }
}

/// The node announces that it is connected exactly once in a run that
/// takes the peer counter from below the close-group size to it or
/// beyond, and never in any other run.
pub proof fn lemma_connected_announced_once(
    config: NodeConfig,
    peers_connected: usize,
    events: Seq<NetworkEvent>,
)
    ensures
        connected_announcements(run_actions(config, peers_connected, events)) == (if peers_connected
            < CLOSE_GROUP_SIZE && peers_connected + peers_added(events) >= CLOSE_GROUP_SIZE {
            1nat
        } else {
            0nat
        }),
    decreases events.len(),
{
    if events.len() > 0 {
        let first = event_actions(config, peers_connected, events[0]);
        let next = peers_after(peers_connected, events[0]);
        let rest = run_actions(config, next, events.drop_first());
        lemma_event_announcements(config, peers_connected, events[0]);
        lemma_connected_announced_once(config, next, events.drop_first());
        lemma_announcements_add(first, rest);
    }
}

} // verus!
