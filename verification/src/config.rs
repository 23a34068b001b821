use vstd::prelude::*;

use crate::types::{PublicKey, Tier};

verus! {

/// Configuration of a node: its identity, where it keeps its data, the ports
/// it listens on, its caches, and whether it joins a cluster or uses a GPU.
/// Paths are held as strings.
#[derive(Clone, Debug)]
pub struct NodeConfig {
    pub tier: Tier,
    pub public_key: PublicKey,
    pub data_dir: String,
    pub http_port: u16,
    pub grpc_port: u16,
    pub metrics_port: u16,
    pub expert_count: u32,
    pub vram_cache_entries: usize,
    pub ram_cache_entries: usize,
    pub cluster_mode: bool,
    pub cluster_id: String,
    pub gpu_enabled: bool,
    pub enable_tracing: bool,
    pub plugin_dirs: Vec<String>,
}

impl NodeConfig {
    /// Whether a configuration holds the default settings: a standard-tier
    /// node with an all-zero key, data under `./data`, HTTP on 8080, gRPC on
    /// 50051, metrics on 9090, 1024 experts, caches of 16 (VRAM) and 256 (RAM)
    /// entries, no cluster, no GPU, no tracing and no plugin directory.
    pub open spec fn is_default(self) -> bool {
        &&& self.tier == Tier::Standard
        &&& self.public_key.0@ == Seq::new(32, |i: int| 0u8)
        &&& self.data_dir@ == "./data"@
        &&& self.http_port == 8080
        &&& self.grpc_port == 50051
        &&& self.metrics_port == 9090
        &&& self.expert_count == 1024
        &&& self.vram_cache_entries == 16
        &&& self.ram_cache_entries == 256
        &&& !self.cluster_mode
        &&& self.cluster_id@ == Seq::<char>::empty()
        &&& !self.gpu_enabled
        &&& !self.enable_tracing
        &&& self.plugin_dirs@ == Seq::<String>::empty()
    }
}

impl Default for NodeConfig {
    fn default() -> (c: Self)
        ensures
            c.is_default(),
    {
        let c = NodeConfig {
            tier: Tier::Standard,
            public_key: PublicKey([0u8; 32]),
            data_dir: String::from_str("./data"),
            http_port: 8080,
            grpc_port: 50051,
            metrics_port: 9090,
            expert_count: 1024,
            vram_cache_entries: 16,
            ram_cache_entries: 256,
            cluster_mode: false,
            cluster_id: String::new(),
            gpu_enabled: false,
            enable_tracing: false,
            plugin_dirs: Vec::new(),
        };
        assert(c.public_key.0@ =~= Seq::new(32, |i: int| 0u8));
        c
    }
}

/// A snapshot of a running node, as reported to operators.
#[derive(Clone, Copy, Debug, PartialEq, Eq, Structural)]
pub struct NodeStatus {
    pub running: bool,
    pub tier: Tier,
    pub uptime_seconds: u64,
    pub requests_processed: u64,
    pub requests_failed: u64,
    pub cluster_enabled: bool,
}

/// Builds a node configuration from the defaults, one setting at a time.
pub struct NodeBuilder {
    pub config: NodeConfig,
}

impl NodeBuilder {
    /// A builder holding the default configuration.
    pub fn new() -> (b: Self)
        ensures
            b.config.is_default(),
    {
        NodeBuilder { config: NodeConfig::default() }
    }

    /// Sets the tier; every other setting stays.
    pub fn with_tier(self, tier: Tier) -> (b: Self)
        ensures
            b.config == (NodeConfig { tier, ..self.config }),
    {
        let mut b = self;
        b.config.tier = tier;
        b
    }

    /// Sets the HTTP port; every other setting stays.
    pub fn with_http_port(self, port: u16) -> (b: Self)
        ensures
            b.config == (NodeConfig { http_port: port, ..self.config }),
    {
        let mut b = self;
        b.config.http_port = port;
        b
    }

    /// Sets whether the node joins a cluster and the cluster's id; every other
    /// setting stays.
    pub fn with_cluster_mode(self, enabled: bool, cluster_id: String) -> (b: Self)
        ensures
            b.config == (NodeConfig { cluster_mode: enabled, cluster_id, ..self.config }),
    {
        let mut b = self;
        b.config.cluster_mode = enabled;
        b.config.cluster_id = cluster_id;
        b
    }

    /// Sets whether the node uses a GPU; every other setting stays.
    pub fn with_gpu(self, enabled: bool) -> (b: Self)
        ensures
            b.config == (NodeConfig { gpu_enabled: enabled, ..self.config }),
    {
        let mut b = self;
        b.config.gpu_enabled = enabled;
        b
    }

    /// Sets the data directory; every other setting stays.
    pub fn with_data_dir(self, dir: String) -> (b: Self)
        ensures
            b.config == (NodeConfig { data_dir: dir, ..self.config }),
    {
        let mut b = self;
        b.config.data_dir = dir;
        b
    }
}

} // verus!
