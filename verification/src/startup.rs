use vstd::prelude::*;

verus! {

/// Port the peer-to-peer service listens on when none is given.
pub const DEFAULT_P2P_PORT: u16 = 9000;

/// The peer-to-peer port to listen on: the one given, or the default.
pub fn p2p_port_or_default(p2p_port: Option<u16>) -> (port: u16)
    ensures
        port == match p2p_port {
            Some(p) => p,
            None => DEFAULT_P2P_PORT,
        },
{
    match p2p_port {
        Some(p) => p,
        None => DEFAULT_P2P_PORT,
    }
}

/// Whether a text holds the character `c`.
pub fn str_contains_char(text: &str, c: char) -> (r: bool)
    ensures
        r == text@.contains(c),
{
    let mut found = false;
    for d in it: text.chars()
        invariant
            it.seq() == text@,
            found == text@.take(it.index() as int).contains(c),
    {
        proof {
            let i = it.index() as int;
            assert(text@.take(i + 1) =~= text@.take(i).push(d));
            if text@.take(i).contains(c) {
                let k = choose|k: int| 0 <= k < text@.take(i).len() && text@.take(i)[k] == c;
                assert(text@.take(i + 1)[k] == c);
            }
            if d == c {
                assert(text@.take(i + 1)[i] == c);
            }
        }
        found = found || d == c;
    }
    assert(text@.take(text@.len() as int) =~= text@);
    found
}

/// The address of a bootstrap node: as given when it names a port (holds a
/// `:`), else the host with the default peer-to-peer port, `:9000`.
pub fn bootstrap_address(node: &str) -> (addr: String)
    ensures
        addr@ == if node@.contains(':') {
            node@
        } else {
            node@ + ":9000"@
        },
{
    let mut addr = String::from_str(node);
    if !str_contains_char(node, ':') {
        addr.append(":9000");
    }
    addr
}

/// The settlement contract to use: the one given, or the zero address.
pub fn settlement_contract_or_zero(contract: Option<String>) -> (addr: String)
    ensures
        addr@ == match contract {
            Some(c) => c@,
            None => "0x0000000000000000000000000000000000000000"@,
        },
{
    match contract {
        Some(c) => c,
        None => String::from_str("0x0000000000000000000000000000000000000000"),
    }
}

/// How the peer-to-peer service of a starting node is set up.
#[derive(Clone, Debug)]
pub struct P2PSettings {
    pub listen_address: String,
    pub listen_port: u16,
    pub max_peers: usize,
    pub enable_discovery: bool,
}

/// The peer-to-peer setup of a starting node: listening on every interface
/// (`0.0.0.0`) at the given port (the default when none is given), with up to
/// 50 peers and peer discovery on.
pub fn p2p_settings(p2p_port: Option<u16>) -> (s: P2PSettings)
    ensures
        s.listen_address@ == "0.0.0.0"@,
        s.listen_port == match p2p_port {
            Some(p) => p,
            None => DEFAULT_P2P_PORT,
        },
        s.max_peers == 50,
        s.enable_discovery,
{
    P2PSettings {
        listen_address: String::from_str("0.0.0.0"),
        listen_port: p2p_port_or_default(p2p_port),
        max_peers: 50,
        enable_discovery: true,
    }
}

/// When on-chain settlement runs.
#[derive(Clone, Copy, Debug, PartialEq, Eq, Structural)]
pub struct SettlementSchedule {
    pub settlement_interval_seconds: u64,
    pub min_receipts_for_settlement: u64,
    pub auto_settle: bool,
    pub settle_on_threshold: bool,
    pub threshold_receipts: u64,
}

/// The settlement schedule of a node: hourly, once at least 10 receipts
/// wait, not settling on its own but as soon as 100 receipts wait.
pub fn settlement_schedule() -> (s: SettlementSchedule)
    ensures
        s == (SettlementSchedule {
            settlement_interval_seconds: 3600,
            min_receipts_for_settlement: 10,
            auto_settle: false,
            settle_on_threshold: true,
            threshold_receipts: 100,
        }),
{
    SettlementSchedule {
        settlement_interval_seconds: 3600,
        min_receipts_for_settlement: 10,
        auto_settle: false,
        settle_on_threshold: true,
        threshold_receipts: 100,
    }
}

/// How a node takes part in a cluster.
#[derive(Clone, Copy, Debug, PartialEq, Eq, Structural)]
pub struct ClusterTiming {
    pub heartbeat_interval_ms: u64,
    pub election_timeout_ms: u64,
    pub max_workers: usize,
    pub task_timeout_seconds: u64,
    pub failure_detection_threshold: u32,
}

/// The cluster timing of a node: a heartbeat every second, elections after 5
/// seconds without one, up to 100 workers, tasks timing out after 300 seconds,
/// and a peer taken as failed after 3 missed checks.
pub fn cluster_timing() -> (t: ClusterTiming)
    ensures
        t == (ClusterTiming {
            heartbeat_interval_ms: 1000,
            election_timeout_ms: 5000,
            max_workers: 100,
            task_timeout_seconds: 300,
            failure_detection_threshold: 3,
        }),
{
    ClusterTiming {
        heartbeat_interval_ms: 1000,
        election_timeout_ms: 5000,
        max_workers: 100,
        task_timeout_seconds: 300,
        failure_detection_threshold: 3,
    }
}

} // verus!
