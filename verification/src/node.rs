//! Setting a node up.

use crate::event::NodeConfig;
use crate::evm::RewardsAddress;
use crate::network::Network;
use crate::runtime::{choose_schedule, is_valid_schedule, new_runtime, Runtime, Schedule};
use vstd::prelude::*;

verus! {

/// Everything a node is built from.
pub struct NodeBuilder {
    identity_keypair: libp2p::identity::Keypair,
    evm_address: RewardsAddress,
    evm_network: Network,
    addr: String,
    initial_peers: Vec<String>,
    local: bool,
    root_dir: String,
    /// Set to `Some` to enable the metrics server.
    metrics_server_port: Option<u16>,
    /// Enable hole punching for nodes connecting from home networks.
    pub is_behind_home_network: bool,
    upnp: bool,
}

/// What a builder holds.
pub struct NodeSettings {
    pub identity_keypair: libp2p::identity::Keypair,
    pub evm_address: RewardsAddress,
    pub evm_network: Network,
    pub addr: String,
    pub initial_peers: Vec<String>,
    pub local: bool,
    pub root_dir: String,
    pub metrics_server_port: Option<u16>,
    pub is_behind_home_network: bool,
    pub upnp: bool,
}

/// A node that is ready to run: what its swarm driver is set up with, and
/// what its event loop starts from.
pub struct NodeSetup {
    pub identity_keypair: libp2p::identity::Keypair,
    pub evm_network: Network,
    pub listen_addr: String,
    pub root_dir: String,
    pub metrics_server_port: Option<u16>,
    /// Whether metrics are recorded: they are where the metrics server is
    /// enabled.
    pub record_metrics: bool,
    pub is_behind_home_network: bool,
    pub upnp: bool,
    pub config: NodeConfig,
    pub runtime: Runtime,
    pub schedule: Schedule,
}

impl NodeBuilder {
    /// The builder's settings.
    pub closed spec fn settings(self) -> NodeSettings {
        NodeSettings {
            identity_keypair: self.identity_keypair,
            evm_address: self.evm_address,
            evm_network: self.evm_network,
            addr: self.addr,
            initial_peers: self.initial_peers,
            local: self.local,
            root_dir: self.root_dir,
            metrics_server_port: self.metrics_server_port,
            is_behind_home_network: self.is_behind_home_network,
            upnp: self.upnp,
        }
    }

    /// Instantiate the builder. The metrics server is off and the node is
    /// taken not to be behind a home network.
    pub fn new(
        identity_keypair: libp2p::identity::Keypair,
        evm_address: RewardsAddress,
        evm_network: Network,
        addr: String,
        initial_peers: Vec<String>,
        local: bool,
        root_dir: String,
        upnp: bool,
    ) -> (builder: Self)
        ensures
            builder.settings() == (NodeSettings {
                identity_keypair,
                evm_address,
                evm_network,
                addr,
                initial_peers,
                local,
                root_dir,
                metrics_server_port: None,
                is_behind_home_network: false,
                upnp,
            }),
    {
        Self {
            identity_keypair,
            evm_address,
            evm_network,
            addr,
            initial_peers,
            local,
            root_dir,
            metrics_server_port: None,
            is_behind_home_network: false,
            upnp,
        }
    }

    /// Set the port of the metrics server; `None` switches the server
    /// off.
    pub fn metrics_server_port(&mut self, port: Option<u16>)
        ensures
            final(self).settings() == (NodeSettings {
                metrics_server_port: port,
                ..old(self).settings()
            }),
    {
        self.metrics_server_port = port;
    }

    /// Builds the node and what its run starts from: the settings of the
    /// swarm driver, the event handler's configuration, a loop that has
    /// taken no step, and the schedule of its timers, drawn now.
    pub fn build_and_run(self) -> (setup: NodeSetup)
        ensures
            setup.identity_keypair == self.settings().identity_keypair,
            setup.evm_network == self.settings().evm_network,
            setup.listen_addr == self.settings().addr,
            setup.root_dir == self.settings().root_dir,
            setup.metrics_server_port == self.settings().metrics_server_port,
            setup.record_metrics == self.settings().metrics_server_port is Some,
            setup.is_behind_home_network == self.settings().is_behind_home_network,
            setup.upnp == self.settings().upnp,
            setup.config == (NodeConfig {
                initial_peers: self.settings().initial_peers,
                local: self.settings().local,
                reward_address: self.settings().evm_address,
            }),
            setup.runtime.node.peers_connected == 0,
            setup.runtime.seen == (crate::runtime::TickersSeen {
                replication: false,
                uptime_metrics: false,
                cleanup: false,
                storage_challenge: false,
            }),
            is_valid_schedule(setup.schedule),
    {
        let record_metrics = self.metrics_server_port.is_some();
        NodeSetup {
            identity_keypair: self.identity_keypair,
            evm_network: self.evm_network,
            listen_addr: self.addr,
            root_dir: self.root_dir,
            metrics_server_port: self.metrics_server_port,
            record_metrics,
            is_behind_home_network: self.is_behind_home_network,
            upnp: self.upnp,
            config: NodeConfig {
                initial_peers: self.initial_peers,
                local: self.local,
                reward_address: self.evm_address,
            },
            runtime: new_runtime(),
            schedule: choose_schedule(),
        }
    }
}

} // verus!
