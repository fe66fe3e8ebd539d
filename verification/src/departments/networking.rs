//! Networking: the topology as a store of configuration, the services
//! registered on it, and the metrics that monitoring samples.
//!
//! The topology refers to segments and backends by name only; nothing checks
//! that a name it holds is bound. Latencies are held in milliseconds, packet
//! loss in parts of `FULL_SCALE` (`5` is 0.05%), bandwidth in bits per second.

use crate::agents::Agent;
use crate::agents::AgentError;
use crate::agents::AgentTrait;
use crate::agents::Department;
use crate::chance::draw;
use crate::chance::falls_under;
use crate::chance::happens;
use crate::chance::sample;
use crate::chance::spread;
use crate::clock::now;
use crate::communication::is_note_to_self;
use crate::communication::parameter_or;
use crate::communication::Message;
use crate::ids::fresh_id;
use crate::ids::NIL_ID;
use crate::ids::simple_string;
use crate::ids::simple_text;
use crate::table::bound;
use crate::table::distinct_keys;
use crate::table::lemma_placed_keeps_distinct;
use crate::table::Entry;
use crate::table::Table;
use crate::text::reads;
use crate::text::texts;
use vstd::prelude::*;
use vstd::string::StringExecFns;

verus! {

/// The average latency, in milliseconds, above which a content delivery
/// network is suggested.
pub const LATENCY_ALERT_ABOVE: u32 = 30;

/// The packet loss, in parts of ten thousand, above which an investigation is
/// suggested.
pub const LOSS_ALERT_ABOVE: u32 = 5;

/// The chance, in parts of ten thousand, that a tunnel is found connected.
pub const TUNNEL_UP_CHANCE: u32 = 9_800;

/// The kind of a network device.
#[derive(Clone, Copy, Debug, PartialEq, Eq, Structural)]
pub enum DeviceType {
    Router,
    Switch,
    Firewall,
    LoadBalancer,
    Server,
    AccessPoint,
}

/// Whether a network device is reachable.
#[derive(Clone, Copy, Debug, PartialEq, Eq, Structural)]
pub enum DeviceStatus {
    Online,
    Offline,
    Degraded,
    Maintenance,
}

/// How exposed a segment is.
#[derive(Clone, Copy, Debug, PartialEq, Eq, Structural)]
pub enum SecurityLevel {
    Public,
    DMZ,
    Internal,
    Restricted,
    Critical,
}

/// The protocol that a firewall rule speaks of.
#[derive(Clone, Copy, Debug, PartialEq, Eq, Structural)]
pub enum Protocol {
    TCP,
    UDP,
    ICMP,
    Any,
}

/// What a firewall rule does with the traffic it matches.
#[derive(Clone, Copy, Debug, PartialEq, Eq, Structural)]
pub enum FirewallAction {
    Allow,
    Deny,
    Log,
}

/// How a load balancer picks a backend.
#[derive(Clone, Copy, Debug, PartialEq, Eq, Structural)]
pub enum LoadBalancingAlgorithm {
    RoundRobin,
    LeastConnections,
    IPHash,
    WeightedRoundRobin,
}

/// How a load balancer probes its backends.
#[derive(Clone, Copy, Debug, PartialEq, Eq, Structural)]
pub enum HealthCheckType {
    HTTP,
    TCP,
    ICMP,
}

/// Whether a load balancer takes traffic.
#[derive(Clone, Copy, Debug, PartialEq, Eq, Structural)]
pub enum LoadBalancerStatus {
    Active,
    Draining,
    Offline,
}

/// The type of a DNS record.
#[derive(Clone, Copy, Debug, PartialEq, Eq, Structural)]
pub enum RecordType {
    A,
    AAAA,
    CNAME,
    MX,
    TXT,
    SRV,
}

/// The kind of a tunnel.
#[derive(Clone, Copy, Debug, PartialEq, Eq, Structural)]
pub enum VPNType {
    IPSec,
    OpenVPN,
    WireGuard,
    SSLVPN,
}

/// Where a tunnel stands.
#[derive(Clone, Copy, Debug, PartialEq, Eq, Structural)]
pub enum VPNStatus {
    Connected,
    Connecting,
    Disconnected,
    Failed,
}

/// The kind of a network service.
#[derive(Clone, Copy, Debug, PartialEq, Eq, Structural)]
pub enum ServiceType {
    WebServer,
    Database,
    Cache,
    MessageQueue,
    API,
    Monitoring,
}

/// The health of a network service.
#[derive(Clone, Copy, Debug, PartialEq, Eq, Structural)]
pub enum ServiceStatus {
    Healthy,
    Degraded,
    Unhealthy,
    Offline,
}

/// An internet address, version 4 or 6, as the number it is.
#[derive(Clone, Copy, Debug, PartialEq, Eq, Structural)]
pub enum IpAddress {
    V4(u32),
    V6(u128),
}

/// A device on a segment.
#[derive(Clone, Debug)]
pub struct NetworkDevice {
    pub id: String,
    pub device_type: DeviceType,
    pub ip_address: IpAddress,
    pub mac_address: String,
    pub status: DeviceStatus,
    pub last_seen: i64,
}

/// A segment of the network. The segments it is connected to are named by
/// identifier only.
#[derive(Clone, Debug)]
pub struct NetworkSegment {
    pub id: String,
    pub name: String,
    pub cidr: String,
    pub security_level: SecurityLevel,
    pub connected_segments: Vec<String>,
    pub devices: Vec<NetworkDevice>,
}

/// A range of ports, both ends included.
#[derive(Clone, Copy, Debug, PartialEq, Eq, Structural)]
pub struct PortRange {
    pub start: u16,
    pub end: u16,
}

/// A rule of the firewall between two segments, which it names by identifier
/// only.
#[derive(Clone, Debug)]
pub struct FirewallRule {
    pub id: String,
    pub name: String,
    pub source_segment: String,
    pub destination_segment: String,
    pub port_range: PortRange,
    pub protocol: Protocol,
    pub action: FirewallAction,
    pub enabled: bool,
}

/// A backend of a load balancer.
#[derive(Clone, Copy, Debug, PartialEq, Eq, Structural)]
pub struct BackendServer {
    pub ip_address: IpAddress,
    pub port: u16,
    pub weight: u32,
    pub healthy: bool,
}

/// How a load balancer probes its backends, and how often.
#[derive(Clone, Copy, Debug, PartialEq, Eq, Structural)]
pub struct HealthCheck {
    pub check_type: HealthCheckType,
    pub interval_seconds: u32,
    pub timeout_seconds: u32,
    pub healthy_threshold: u32,
    pub unhealthy_threshold: u32,
}

/// A load balancer and its backends.
#[derive(Clone, Debug)]
pub struct LoadBalancer {
    pub id: String,
    pub name: String,
    pub algorithm: LoadBalancingAlgorithm,
    pub backends: Vec<BackendServer>,
    pub health_check: HealthCheck,
    pub status: LoadBalancerStatus,
}

/// What a domain is bound to.
#[derive(Clone, Debug)]
pub struct DNSRecord {
    pub record_type: RecordType,
    pub value: String,
    pub ttl: u32,
    pub proxied: bool,
}

/// The DNS records by domain, and the name servers.
#[derive(Clone, Debug)]
pub struct DNSConfig {
    pub records: Table<String, DNSRecord>,
    pub name_servers: Vec<String>,
    pub dnssec_enabled: bool,
    pub last_update: i64,
}

/// A tunnel between local and remote networks.
#[derive(Clone, Debug)]
pub struct VPNConfig {
    pub id: String,
    pub name: String,
    pub vpn_type: VPNType,
    pub remote_endpoint: String,
    pub local_networks: Vec<String>,
    pub remote_networks: Vec<String>,
    pub status: VPNStatus,
}

/// The configuration of the network: segments by identifier, firewall rules,
/// load balancers, names, tunnels.
#[derive(Clone, Debug)]
pub struct NetworkTopology {
    pub segments: Table<String, NetworkSegment>,
    pub firewall_rules: Vec<FirewallRule>,
    pub load_balancers: Vec<LoadBalancer>,
    pub dns_config: DNSConfig,
    pub vpn_configs: Vec<VPNConfig>,
}

/// A service registered on the network.
#[derive(Clone, Debug)]
pub struct NetworkService {
    pub name: String,
    pub service_type: ServiceType,
    pub endpoints: Vec<String>,
    pub status: ServiceStatus,
    pub last_health_check: i64,
}

/// The bandwidth sampled for a segment, in bits per second, and the bytes
/// moved.
#[derive(Clone, Copy, Debug, PartialEq, Eq, Structural)]
pub struct BandwidthMetrics {
    pub inbound_bps: u64,
    pub outbound_bps: u64,
    pub total_bytes: u64,
}

/// The latencies sampled, in milliseconds.
#[derive(Clone, Copy, Debug, PartialEq, Eq, Structural)]
pub struct LatencyStats {
    pub average_ms: u32,
    pub min_ms: u32,
    pub max_ms: u32,
    pub p95_ms: u32,
}

/// The packet loss sampled; `percentage` is held in parts of ten thousand.
#[derive(Clone, Copy, Debug, PartialEq, Eq, Structural)]
pub struct PacketLossStats {
    pub percentage: u32,
    pub total_packets: u64,
    pub lost_packets: u64,
}

/// The connections counted.
#[derive(Clone, Copy, Debug, PartialEq, Eq, Structural)]
pub struct ConnectionStats {
    pub active_connections: u32,
    pub total_connections: u64,
    pub peak_connections: u32,
}

/// The latest sample of each metric. A sample overwrites the one before it.
#[derive(Clone, Debug)]
pub struct NetworkMetrics {
    pub bandwidth_usage: Table<String, BandwidthMetrics>,
    pub latency_stats: LatencyStats,
    pub packet_loss: PacketLossStats,
    pub connection_counts: ConnectionStats,
    pub last_update: i64,
}

/// What to configure as a segment.
#[derive(Clone, Debug)]
pub struct SegmentConfig {
    pub name: String,
    pub cidr: String,
    pub security_level: SecurityLevel,
}

/// What to add as a firewall rule.
#[derive(Clone, Debug)]
pub struct FirewallRuleConfig {
    pub name: String,
    pub source_segment: String,
    pub destination_segment: String,
    pub port_range: PortRange,
    pub protocol: Protocol,
    pub action: FirewallAction,
}

/// What to configure as a load balancer.
#[derive(Clone, Debug)]
pub struct LoadBalancerConfig {
    pub name: String,
    pub algorithm: LoadBalancingAlgorithm,
    pub backends: Vec<BackendServer>,
    pub health_check: HealthCheck,
}

/// What to register as a service.
#[derive(Clone, Debug)]
pub struct ServiceConfig {
    pub name: String,
    pub service_type: ServiceType,
    pub endpoints: Vec<String>,
}

/// Why an operation of the Networking department failed.
#[derive(Debug)]
pub enum NetworkingError {
    ConfigurationError(String),
    DeviceNotFound(String),
    ServiceUnavailable(String),
    DNSError(String),
    VPNError(String),
}

/// An agent of the Networking department.
#[derive(Clone, Debug)]
pub struct NetworkingAgent {
    pub agent: Agent,
    pub network_skill: u8,
    pub security_skill: u8,
    pub performance_skill: u8,
    pub network_topology: NetworkTopology,
    pub network_services: Table<String, NetworkService>,
    pub performance_metrics: NetworkMetrics,
}

/// `topology` is the topology of a new agent: nothing configured but the two
/// public name servers, with DNSSEC on.
pub open spec fn is_initial_topology(topology: NetworkTopology) -> bool {
    &&& topology.segments@.len() == 0
    &&& topology.firewall_rules@.len() == 0
    &&& topology.load_balancers@.len() == 0
    &&& topology.dns_config.records@.len() == 0
    &&& texts(topology.dns_config.name_servers@) == seq!["8.8.8.8"@, "1.1.1.1"@]
    &&& topology.dns_config.dnssec_enabled
    &&& topology.vpn_configs@.len() == 0
}

/// `metrics` are the metrics of a new agent.
pub open spec fn is_initial_metrics(metrics: NetworkMetrics) -> bool {
    &&& metrics.bandwidth_usage@.len() == 0
    &&& metrics.latency_stats == (LatencyStats {
        average_ms: 15,
        min_ms: 5,
        max_ms: 50,
        p95_ms: 25,
    })
    &&& metrics.packet_loss == (PacketLossStats {
        percentage: 1,
        total_packets: 1_000_000,
        lost_packets: 100,
    })
    &&& metrics.connection_counts == (ConnectionStats {
        active_connections: 150,
        total_connections: 50_000,
        peak_connections: 200,
    })
}

impl Default for NetworkTopology {
    fn default() -> (topology: Self)
        ensures
            is_initial_topology(topology),
    {
        let mut name_servers: Vec<String> = Vec::new();
        name_servers.push(String::from_str("8.8.8.8"));
        name_servers.push(String::from_str("1.1.1.1"));
        assert(texts(name_servers@) =~= seq!["8.8.8.8"@, "1.1.1.1"@]);
        NetworkTopology {
            segments: Table::new(),
            firewall_rules: Vec::new(),
            load_balancers: Vec::new(),
            dns_config: DNSConfig {
                records: Table::new(),
                name_servers,
                dnssec_enabled: true,
                last_update: now(),
            },
            vpn_configs: Vec::new(),
        }
    }
}

impl Default for NetworkMetrics {
    fn default() -> (metrics: Self)
        ensures
            is_initial_metrics(metrics),
    {
        NetworkMetrics {
            bandwidth_usage: Table::new(),
            latency_stats: LatencyStats {
                average_ms: 15,
                min_ms: 5,
                max_ms: 50,
                p95_ms: 25,
            },
            packet_loss: PacketLossStats {
                percentage: 1,
                total_packets: 1_000_000,
                lost_packets: 100,
            },
            connection_counts: ConnectionStats {
                active_connections: 150,
                total_connections: 50_000,
                peak_connections: 200,
            },
            last_update: now(),
        }
    }
}

/// The identifier that `prefix` and the raw identifier `raw_id` make.
pub open spec fn prefixed_id(prefix: Seq<char>, raw_id: u128) -> Seq<char> {
    prefix + simple_text(raw_id)
}

/// `post` is `pre` with the topology replaced by `topology`, and nothing else
/// changed.
pub open spec fn topology_replaced(
    pre: NetworkingAgent,
    topology: NetworkTopology,
    post: NetworkingAgent,
) -> bool {
    post == (NetworkingAgent { network_topology: topology, ..pre })
}

/// `segment` is a segment as configuring leaves it: under its identifier,
/// connected to nothing, with no device.
pub open spec fn is_new_segment(
    segment: NetworkSegment,
    name: Seq<char>,
    cidr: Seq<char>,
    security_level: SecurityLevel,
    raw_id: u128,
) -> bool {
    &&& segment.id@ == prefixed_id("seg-"@, raw_id)
    &&& segment.name@ == name
    &&& segment.cidr@ == cidr
    &&& segment.security_level == security_level
    &&& segment.connected_segments@.len() == 0
    &&& segment.devices@.len() == 0
}

/// `post` is `pre` after a segment of the given description was configured
/// under the raw identifier `raw_id`.
pub open spec fn segment_configured(
    pre: NetworkingAgent,
    name: Seq<char>,
    cidr: Seq<char>,
    security_level: SecurityLevel,
    raw_id: u128,
    post: NetworkingAgent,
) -> bool {
    &&& exists|segment: NetworkSegment|
        {
            &&& is_new_segment(segment, name, cidr, security_level, raw_id)
            &&& bound(
                pre.network_topology.segments@,
                prefixed_id("seg-"@, raw_id),
                segment,
                post.network_topology.segments@,
            )
        }
    &&& topology_replaced(
        pre,
        NetworkTopology { segments: post.network_topology.segments, ..pre.network_topology },
        post,
    )
}

/// `rule` is a firewall rule as adding leaves it: under its identifier, and
/// enabled.
pub open spec fn is_new_rule(
    rule: FirewallRule,
    name: Seq<char>,
    source_segment: Seq<char>,
    destination_segment: Seq<char>,
    port_range: PortRange,
    protocol: Protocol,
    action: FirewallAction,
    raw_id: u128,
) -> bool {
    &&& rule.id@ == prefixed_id("fw-"@, raw_id)
    &&& rule.name@ == name
    &&& rule.source_segment@ == source_segment
    &&& rule.destination_segment@ == destination_segment
    &&& rule.port_range == port_range
    &&& rule.protocol == protocol
    &&& rule.action == action
    &&& rule.enabled
}

/// `post` is `pre` after a firewall rule of the given description was added
/// at the end of the rules, under the raw identifier `raw_id`.
pub open spec fn rule_added(
    pre: NetworkingAgent,
    name: Seq<char>,
    source_segment: Seq<char>,
    destination_segment: Seq<char>,
    port_range: PortRange,
    protocol: Protocol,
    action: FirewallAction,
    raw_id: u128,
    post: NetworkingAgent,
) -> bool {
    &&& post.network_topology.firewall_rules@.len() == pre.network_topology.firewall_rules@.len()
        + 1
    &&& post.network_topology.firewall_rules@.drop_last() == pre.network_topology.firewall_rules@
    &&& is_new_rule(
        post.network_topology.firewall_rules@.last(),
        name,
        source_segment,
        destination_segment,
        port_range,
        protocol,
        action,
        raw_id,
    )
    &&& topology_replaced(
        pre,
        NetworkTopology {
            firewall_rules: post.network_topology.firewall_rules,
            ..pre.network_topology
        },
        post,
    )
}

/// `post` is `pre` after a load balancer of the given configuration was added
/// at the end of the load balancers, active, under the raw identifier
/// `raw_id`.
pub open spec fn balancer_configured(
    pre: NetworkingAgent,
    config: LoadBalancerConfig,
    raw_id: u128,
    post: NetworkingAgent,
) -> bool {
    &&& post.network_topology.load_balancers@.len() == pre.network_topology.load_balancers@.len()
        + 1
    &&& post.network_topology.load_balancers@.drop_last() == pre.network_topology.load_balancers@
    &&& post.network_topology.load_balancers@.last().id@ == prefixed_id("lb-"@, raw_id)
    &&& post.network_topology.load_balancers@.last().name@ == config.name@
    &&& post.network_topology.load_balancers@.last().algorithm == config.algorithm
    &&& post.network_topology.load_balancers@.last().backends@ == config.backends@
    &&& post.network_topology.load_balancers@.last().health_check == config.health_check
    &&& post.network_topology.load_balancers@.last().status == LoadBalancerStatus::Active
    &&& topology_replaced(
        pre,
        NetworkTopology {
            load_balancers: post.network_topology.load_balancers,
            ..pre.network_topology
        },
        post,
    )
}

/// `post` is `pre` after `domain` was bound to `record` at time `now`.
pub open spec fn dns_updated(
    pre: NetworkingAgent,
    domain: Seq<char>,
    record: DNSRecord,
    now: i64,
    post: NetworkingAgent,
) -> bool {
    &&& bound(
        pre.network_topology.dns_config.records@,
        domain,
        record,
        post.network_topology.dns_config.records@,
    )
    &&& topology_replaced(
        pre,
        NetworkTopology {
            dns_config: DNSConfig {
                records: post.network_topology.dns_config.records,
                last_update: now,
                ..pre.network_topology.dns_config
            },
            ..pre.network_topology
        },
        post,
    )
}

/// `service` is a service as registration leaves it: healthy, checked at
/// `now`.
pub open spec fn is_new_service(
    service: NetworkService,
    name: Seq<char>,
    service_type: ServiceType,
    endpoints: Seq<Seq<char>>,
    now: i64,
) -> bool {
    &&& service.name@ == name
    &&& service.service_type == service_type
    &&& texts(service.endpoints@) == endpoints
    &&& service.status == ServiceStatus::Healthy
    &&& service.last_health_check == now
}

/// `post` is `pre` after a service of the given description was registered
/// under its name at time `now`.
pub open spec fn service_registered(
    pre: NetworkingAgent,
    name: Seq<char>,
    service_type: ServiceType,
    endpoints: Seq<Seq<char>>,
    now: i64,
    post: NetworkingAgent,
) -> bool {
    &&& exists|service: NetworkService|
        {
            &&& is_new_service(service, name, service_type, endpoints, now)
            &&& bound(pre.network_services@, name, service, post.network_services@)
        }
    &&& post == (NetworkingAgent { network_services: post.network_services, ..pre })
}

/// The bandwidth that three raw draws stand for: up to a million bits per
/// second each way, and up to a billion bytes in all.
pub open spec fn bandwidth_sample(
    inbound_raw: u64,
    outbound_raw: u64,
    total_raw: u64,
) -> BandwidthMetrics {
    BandwidthMetrics {
        inbound_bps: spread(inbound_raw, 1_000_000) as u64,
        outbound_bps: spread(outbound_raw, 1_000_000) as u64,
        total_bytes: spread(total_raw, 1_000_000_000) as u64,
    }
}

/// The three draws that make the sample of bandwidth of one segment.
#[derive(Clone, Copy, Debug)]
pub struct SegmentDraws {
    pub inbound_raw: u64,
    pub outbound_raw: u64,
    pub total_raw: u64,
}

/// What monitoring needs from outside: the draws for the segments, in the
/// order of the topology, for the latencies and for the packet loss, and the
/// time of the sampling.
#[derive(Clone, Debug)]
pub struct PerformanceDraws {
    pub segments: Vec<SegmentDraws>,
    pub average_raw: u64,
    pub min_raw: u64,
    pub max_raw: u64,
    pub p95_raw: u64,
    pub share_raw: u64,
    pub packets_raw: u64,
    pub lost_raw: u64,
    pub now: i64,
}

/// `post` is the bandwidth table `pre` after each of `segments` got the
/// sample that the draws made for it stand for, in order: the sample is bound
/// to the identifier of the segment.
pub open spec fn bandwidth_sampled_with(
    pre: Seq<Entry<String, BandwidthMetrics>>,
    segments: Seq<Entry<String, NetworkSegment>>,
    draws: Seq<SegmentDraws>,
    post: Seq<Entry<String, BandwidthMetrics>>,
) -> bool
    decreases segments.len(),
{
    if segments.len() == 0 {
        post == pre && draws.len() == 0
    } else {
        &&& draws.len() == segments.len()
        &&& exists|mid: Seq<Entry<String, BandwidthMetrics>>|
            {
                &&& bandwidth_sampled_with(pre, segments.drop_last(), draws.drop_last(), mid)
                &&& #[trigger] bound(
                    mid,
                    segments.last().key@,
                    bandwidth_sample(
                        draws.last().inbound_raw,
                        draws.last().outbound_raw,
                        draws.last().total_raw,
                    ),
                    post,
                )
            }
    }
}

/// How many segments are sampled: as many as there are segments and draws for
/// them.
pub open spec fn sampled_for(
    segments: Seq<Entry<String, NetworkSegment>>,
    draws: Seq<SegmentDraws>,
) -> int {
    if draws.len() < segments.len() {
        draws.len() as int
    } else {
        segments.len() as int
    }
}

/// `post` is the bandwidth table `pre` after each of `segments` got a fresh
/// sample, in order.
pub open spec fn bandwidth_sampled(
    pre: Seq<Entry<String, BandwidthMetrics>>,
    segments: Seq<Entry<String, NetworkSegment>>,
    post: Seq<Entry<String, BandwidthMetrics>>,
) -> bool
    decreases segments.len(),
{
    if segments.len() == 0 {
        post == pre
    } else {
        exists|
            mid: Seq<Entry<String, BandwidthMetrics>>,
            inbound_raw: u64,
            outbound_raw: u64,
            total_raw: u64,
        |
            {
                &&& bandwidth_sampled(pre, segments.drop_last(), mid)
                &&& bound(
                    mid,
                    segments.last().key@,
                    bandwidth_sample(inbound_raw, outbound_raw, total_raw),
                    post,
                )
            }
    }
}

/// The latencies that four raw draws stand for: the average from 15 ms, the
/// minimum from 5 ms, the maximum from 50 ms, the 95th percentile from 25 ms.
pub open spec fn latency_sample(
    average_raw: u64,
    min_raw: u64,
    max_raw: u64,
    p95_raw: u64,
) -> LatencyStats {
    LatencyStats {
        average_ms: (15 + spread(average_raw, 10)) as u32,
        min_ms: (5 + spread(min_raw, 5)) as u32,
        max_ms: (50 + spread(max_raw, 50)) as u32,
        p95_ms: (25 + spread(p95_raw, 15)) as u32,
    }
}

/// The packet loss that three raw draws stand for: under 0.1%, of one to ten
/// million packets, with under a thousand lost.
pub open spec fn loss_sample(share_raw: u64, packets_raw: u64, lost_raw: u64) -> PacketLossStats {
    PacketLossStats {
        percentage: spread(share_raw, 10) as u32,
        total_packets: (1_000_000 + spread(packets_raw, 9_000_000)) as u64,
        lost_packets: spread(lost_raw, 1_000) as u64,
    }
}

/// `post` is `pre` after monitoring sampled every metric under the draws made
/// for it: the bandwidth of the segments, the segments and their draws taken
/// in order, the latencies, and the packet loss, stamped with the time of the
/// sampling. A segment for which there is no draw keeps the sample it had.
/// The connection counts stay.
pub open spec fn performance_monitored_with(
    pre: NetworkingAgent,
    draws: PerformanceDraws,
    post: NetworkingAgent,
) -> bool {
    let part = sampled_for(pre.network_topology.segments@, draws.segments@);
    &&& bandwidth_sampled_with(
        pre.performance_metrics.bandwidth_usage@,
        pre.network_topology.segments@.take(part),
        draws.segments@.take(part),
        post.performance_metrics.bandwidth_usage@,
    )
    &&& post == (NetworkingAgent {
        performance_metrics: NetworkMetrics {
            bandwidth_usage: post.performance_metrics.bandwidth_usage,
            latency_stats: latency_sample(
                draws.average_raw,
                draws.min_raw,
                draws.max_raw,
                draws.p95_raw,
            ),
            packet_loss: loss_sample(draws.share_raw, draws.packets_raw, draws.lost_raw),
            last_update: draws.now,
            ..pre.performance_metrics
        },
        ..pre
    })
}

/// `post` is `pre` after monitoring sampled every metric: the bandwidth of
/// every segment, the latencies, the packet loss. The connection counts stay.
pub open spec fn performance_monitored(pre: NetworkingAgent, post: NetworkingAgent) -> bool {
    &&& bandwidth_sampled(
        pre.performance_metrics.bandwidth_usage@,
        pre.network_topology.segments@,
        post.performance_metrics.bandwidth_usage@,
    )
    &&& exists|average_raw: u64, min_raw: u64, max_raw: u64, p95_raw: u64|
        post.performance_metrics.latency_stats == latency_sample(
            average_raw,
            min_raw,
            max_raw,
            p95_raw,
        )
    &&& exists|share_raw: u64, packets_raw: u64, lost_raw: u64|
        post.performance_metrics.packet_loss == loss_sample(share_raw, packets_raw, lost_raw)
    &&& post == (NetworkingAgent {
        performance_metrics: NetworkMetrics {
            bandwidth_usage: post.performance_metrics.bandwidth_usage,
            latency_stats: post.performance_metrics.latency_stats,
            packet_loss: post.performance_metrics.packet_loss,
            last_update: post.performance_metrics.last_update,
            ..pre.performance_metrics
        },
        ..pre
    })
}

/// The number of healthy backends.
pub open spec fn healthy_backends(backends: Seq<BackendServer>) -> nat
    decreases backends.len(),
{
    if backends.len() == 0 {
        0
    } else {
        healthy_backends(backends.drop_last()) + if backends.last().healthy {
            1nat
        } else {
            0nat
        }
    }
}

/// Fewer than half of the load balancer's backends are healthy: the healthy
/// ones, counted twice, do not make up the number of backends.
pub open spec fn short_of_backends(balancer: LoadBalancer) -> bool {
    2 * healthy_backends(balancer.backends@) < balancer.backends@.len()
}

/// The suggestion for a load balancer that is short of healthy backends.
pub open spec fn balancer_suggestion(name: Seq<char>) -> Seq<char> {
    "Load balancer "@ + name + " has low healthy backend count"@
}

/// The suggestions for the load balancers that are short of healthy
/// backends, in their order.
pub open spec fn balancer_suggestions(balancers: Seq<LoadBalancer>) -> Seq<Seq<char>>
    decreases balancers.len(),
{
    if balancers.len() == 0 {
        Seq::empty()
    } else if short_of_backends(balancers.last()) {
        balancer_suggestions(balancers.drop_last()).push(
            balancer_suggestion(balancers.last().name@),
        )
    } else {
        balancer_suggestions(balancers.drop_last())
    }
}

/// What the metrics and the load balancers suggest: a content delivery
/// network where the average latency is above 30 ms, an investigation where
/// packet loss is above 0.05%, and a look at every load balancer with fewer
/// than half of its backends healthy.
pub open spec fn findings(agent: NetworkingAgent) -> Seq<Seq<char>> {
    (if agent.performance_metrics.latency_stats.average_ms > LATENCY_ALERT_ABOVE {
        seq!["High latency detected - consider CDN optimization"@]
    } else {
        Seq::empty()
    }) + (if agent.performance_metrics.packet_loss.percentage > LOSS_ALERT_ABOVE {
        seq!["Packet loss detected - investigate network issues"@]
    } else {
        Seq::empty()
    }) + balancer_suggestions(agent.network_topology.load_balancers@)
}

/// The advice on the network: its findings, or the statement that all is
/// well where there is none.
pub open spec fn advice(agent: NetworkingAgent) -> Seq<Seq<char>> {
    if findings(agent).len() == 0 {
        seq!["Network performance is optimal"@]
    } else {
        findings(agent)
    }
}

/// The status in which a raw draw finds a tunnel: connected for 98 draws in a
/// hundred, failed for the rest.
pub open spec fn tunnel_status(raw: u64) -> VPNStatus {
    if falls_under(raw, TUNNEL_UP_CHANCE) {
        VPNStatus::Connected
    } else {
        VPNStatus::Failed
    }
}

/// The status in which a raw draw finds a tunnel.
pub fn status_of_tunnel(raw: u64) -> (status: VPNStatus)
    ensures
        status == tunnel_status(raw),
{
    if happens(raw, TUNNEL_UP_CHANCE) {
        VPNStatus::Connected
    } else {
        VPNStatus::Failed
    }
}

/// `post` is the tunnel `pre` after its status was checked under the raw
/// draw: in the status that the draw stands for, and otherwise as it was.
pub open spec fn tunnel_checked_with(pre: VPNConfig, raw: u64, post: VPNConfig) -> bool {
    post == (VPNConfig { status: tunnel_status(raw), ..pre })
}

/// `post` is the tunnel `pre` after its status was checked: in the status
/// that some draw stands for, connected or failed, and otherwise as it was.
pub open spec fn tunnel_checked(pre: VPNConfig, post: VPNConfig) -> bool {
    exists|raw: u64| tunnel_checked_with(pre, raw, post)
}

/// `post` is `pre` after the status of the tunnels was checked under the draws
/// made for them, the tunnels and the draws taken in order. A tunnel for which
/// there is no draw stays as it was.
pub open spec fn tunnels_checked_with(
    pre: NetworkingAgent,
    draws: Seq<u64>,
    post: NetworkingAgent,
) -> bool {
    &&& post.network_topology.vpn_configs@.len() == pre.network_topology.vpn_configs@.len()
    &&& forall|i: int|
        0 <= i < pre.network_topology.vpn_configs@.len() ==> if i < draws.len() {
            tunnel_checked_with(
                pre.network_topology.vpn_configs@[i],
                draws[i],
                #[trigger] post.network_topology.vpn_configs@[i],
            )
        } else {
            post.network_topology.vpn_configs@[i] == pre.network_topology.vpn_configs@[i]
        }
    &&& topology_replaced(
        pre,
        NetworkTopology { vpn_configs: post.network_topology.vpn_configs, ..pre.network_topology },
        post,
    )
}

/// `post` is `pre` after the status of every tunnel was checked.
pub open spec fn tunnels_checked(pre: NetworkingAgent, post: NetworkingAgent) -> bool {
    &&& post.network_topology.vpn_configs@.len() == pre.network_topology.vpn_configs@.len()
    &&& forall|i: int|
        0 <= i < pre.network_topology.vpn_configs@.len() ==> tunnel_checked(
            pre.network_topology.vpn_configs@[i],
            #[trigger] post.network_topology.vpn_configs@[i],
        )
    &&& topology_replaced(
        pre,
        NetworkTopology { vpn_configs: post.network_topology.vpn_configs, ..pre.network_topology },
        post,
    )
}

/// Counts the healthy backends.
pub fn count_healthy(backends: &Vec<BackendServer>) -> (n: usize)
    ensures
        n == healthy_backends(backends@),
        n <= backends@.len(),
{
    let mut n: usize = 0;
    let mut i: usize = 0;
    while i < backends.len()
        invariant
            i <= backends@.len(),
            n == healthy_backends(backends@.take(i as int)),
            n <= i,
        decreases backends@.len() - i,
    {
        assert(backends@.take(i + 1).drop_last() =~= backends@.take(i as int));
        if backends[i].healthy {
            n = n + 1;
        }
        i += 1;
    }
    assert(backends@.take(i as int) =~= backends@);
    n
}

/// `a` is a Networking agent as it starts: of the given name and manager,
/// with its skills, the initial topology and metrics, and no service.
pub open spec fn is_new_agent(
    a: NetworkingAgent,
    name: Seq<char>,
    manager_id: Option<u128>,
) -> bool {
    &&& a.agent.name@ == name
    &&& a.agent.department == Department::Networking
    &&& a.agent.manager_id == manager_id
    &&& a.network_skill == 90
    &&& a.security_skill == 80
    &&& a.performance_skill == 85
    &&& is_initial_topology(a.network_topology)
    &&& a.network_services@.len() == 0
    &&& is_initial_metrics(a.performance_metrics)
}

impl NetworkingAgent {
    /// A new Networking agent, under a fresh identifier.
    pub fn new(name: String, manager_id: Option<u128>) -> (a: Self)
        ensures
            a.agent == (Agent {
                id: a.agent.id,
                name,
                department: Department::Networking,
                manager_id,
            }),
            a.agent.id != NIL_ID,
            is_new_agent(a, name@, manager_id),
    {
        NetworkingAgent {
            agent: Agent::new(name, Department::Networking, manager_id),
            network_skill: 90,
            security_skill: 80,
            performance_skill: 85,
            network_topology: NetworkTopology::default(),
            network_services: Table::new(),
            performance_metrics: NetworkMetrics::default(),
        }
    }

    /// Configures a segment under the raw identifier `raw_id` and returns its
    /// identifier.
    pub fn configure_segment_with(&mut self, config: SegmentConfig, raw_id: u128) -> (r: String)
        ensures
            r@ == prefixed_id("seg-"@, raw_id),
            segment_configured(
                *old(self),
                config.name@,
                config.cidr@,
                config.security_level,
                raw_id,
                *final(self),
            ),
    {
        let segment_id = String::from_str("seg-").concat(simple_string(raw_id).as_str());
        let segment = NetworkSegment {
            id: segment_id.clone(),
            name: config.name,
            cidr: config.cidr,
            security_level: config.security_level,
            connected_segments: Vec::new(),
            devices: Vec::new(),
        };
        assert(is_new_segment(segment, config.name@, config.cidr@, config.security_level, raw_id));
        self.network_topology.segments.insert(segment_id.clone(), segment);
        segment_id
    }

    /// Configures a network segment under a fresh identifier and returns the
    /// identifier.
    pub fn configure_segment(&mut self, config: SegmentConfig) -> (r: Result<
        String,
        NetworkingError,
    >)
        ensures
            r matches Ok(id) && exists|raw_id: u128|
                id@ == prefixed_id("seg-"@, raw_id) && segment_configured(
                    *old(self),
                    config.name@,
                    config.cidr@,
                    config.security_level,
                    raw_id,
                    *final(self),
                ),
    {
        let raw_id = fresh_id();
        Ok(self.configure_segment_with(config, raw_id))
    }

    /// Adds a firewall rule under the raw identifier `raw_id` and returns its
    /// identifier.
    pub fn add_firewall_rule_with(&mut self, rule_config: FirewallRuleConfig, raw_id: u128) -> (r:
        String)
        ensures
            r@ == prefixed_id("fw-"@, raw_id),
            rule_added(
                *old(self),
                rule_config.name@,
                rule_config.source_segment@,
                rule_config.destination_segment@,
                rule_config.port_range,
                rule_config.protocol,
                rule_config.action,
                raw_id,
                *final(self),
            ),
    {
        let rule_id = String::from_str("fw-").concat(simple_string(raw_id).as_str());
        let rule = FirewallRule {
            id: rule_id.clone(),
            name: rule_config.name,
            source_segment: rule_config.source_segment,
            destination_segment: rule_config.destination_segment,
            port_range: rule_config.port_range,
            protocol: rule_config.protocol,
            action: rule_config.action,
            enabled: true,
        };
        self.network_topology.firewall_rules.push(rule);
        assert(self.network_topology.firewall_rules@.drop_last() =~= old(
            self,
        ).network_topology.firewall_rules@);
        rule_id
    }

    /// Adds a firewall rule under a fresh identifier and returns the
    /// identifier.
    pub fn add_firewall_rule(&mut self, rule_config: FirewallRuleConfig) -> (r: Result<
        String,
        NetworkingError,
    >)
        ensures
            r matches Ok(id) && exists|raw_id: u128|
                id@ == prefixed_id("fw-"@, raw_id) && rule_added(
                    *old(self),
                    rule_config.name@,
                    rule_config.source_segment@,
                    rule_config.destination_segment@,
                    rule_config.port_range,
                    rule_config.protocol,
                    rule_config.action,
                    raw_id,
                    *final(self),
                ),
    {
        let raw_id = fresh_id();
        Ok(self.add_firewall_rule_with(rule_config, raw_id))
    }

    /// Configures a load balancer under the raw identifier `raw_id` and
    /// returns its identifier.
    pub fn configure_load_balancer_with(&mut self, config: LoadBalancerConfig, raw_id: u128) -> (r:
        String)
        ensures
            r@ == prefixed_id("lb-"@, raw_id),
            balancer_configured(*old(self), config, raw_id, *final(self)),
    {
        let lb_id = String::from_str("lb-").concat(simple_string(raw_id).as_str());
        let load_balancer = LoadBalancer {
            id: lb_id.clone(),
            name: config.name,
            algorithm: config.algorithm,
            backends: config.backends,
            health_check: config.health_check,
            status: LoadBalancerStatus::Active,
        };
        self.network_topology.load_balancers.push(load_balancer);
        assert(self.network_topology.load_balancers@.drop_last() =~= old(
            self,
        ).network_topology.load_balancers@);
        lb_id
    }

    /// Configures a load balancer under a fresh identifier and returns the
    /// identifier.
    pub fn configure_load_balancer(&mut self, config: LoadBalancerConfig) -> (r: Result<
        String,
        NetworkingError,
    >)
        ensures
            r matches Ok(id) && exists|raw_id: u128|
                id@ == prefixed_id("lb-"@, raw_id) && balancer_configured(
                    *old(self),
                    config,
                    raw_id,
                    *final(self),
                ),
    {
        let raw_id = fresh_id();
        Ok(self.configure_load_balancer_with(config, raw_id))
    }

    /// Binds `domain` to `record` at time `now`.
    pub fn update_dns_record_with(&mut self, domain: &str, record: DNSRecord, now: i64) -> (r:
        Result<(), NetworkingError>)
        ensures
            r is Ok,
            dns_updated(*old(self), domain@, record, now, *final(self)),
    {
        self.network_topology.dns_config.records.insert(String::from_str(domain), record);
        self.network_topology.dns_config.last_update = now;
        Ok(())
    }

    /// Binds `domain` to `record`, replacing the record it had, if any.
    pub fn update_dns_record(&mut self, domain: &str, record: DNSRecord) -> (r: Result<
        (),
        NetworkingError,
    >)
        ensures
            r is Ok,
            exists|now: i64| dns_updated(*old(self), domain@, record, now, *final(self)),
    {
        let at = now();
        self.update_dns_record_with(domain, record, at)
    }

    /// Adds a tunnel at the end of the tunnels, as it is configured, and
    /// returns its identifier.
    pub fn configure_vpn(&mut self, config: VPNConfig) -> (r: Result<String, NetworkingError>)
        ensures
            r matches Ok(id) && id == config.id,
            final(self).network_topology.vpn_configs@ == old(
                self,
            ).network_topology.vpn_configs@.push(config),
            topology_replaced(
                *old(self),
                NetworkTopology {
                    vpn_configs: final(self).network_topology.vpn_configs,
                    ..old(self).network_topology
                },
                *final(self),
            ),
    {
        let vpn_id = config.id.clone();
        self.network_topology.vpn_configs.push(config);
        Ok(vpn_id)
    }

    /// Registers a service under its name at time `now`.
    pub fn register_service_with(&mut self, service_config: ServiceConfig, now: i64) -> (r: Result<
        (),
        NetworkingError,
    >)
        ensures
            r is Ok,
            service_registered(
                *old(self),
                service_config.name@,
                service_config.service_type,
                texts(service_config.endpoints@),
                now,
                *final(self),
            ),
    {
        let service = NetworkService {
            name: service_config.name.clone(),
            service_type: service_config.service_type,
            endpoints: service_config.endpoints,
            status: ServiceStatus::Healthy,
            last_health_check: now,
        };
        assert(is_new_service(
            service,
            service_config.name@,
            service_config.service_type,
            texts(service_config.endpoints@),
            now,
        ));
        self.network_services.insert(service_config.name, service);
        Ok(())
    }

    /// Registers a network service under its name, replacing the service that
    /// had the name, if any.
    pub fn register_service(&mut self, service_config: ServiceConfig) -> (r: Result<
        (),
        NetworkingError,
    >)
        ensures
            r is Ok,
            exists|now: i64|
                service_registered(
                    *old(self),
                    service_config.name@,
                    service_config.service_type,
                    texts(service_config.endpoints@),
                    now,
                    *final(self),
                ),
    {
        let at = now();
        self.register_service_with(service_config, at)
    }

    /// Binds to the segment at position `at` of the topology the sample of
    /// bandwidth that the draws stand for. Where the topology has no such
    /// position, nothing changes.
    pub fn sample_bandwidth_with(&mut self, at: usize, draws: SegmentDraws)
        ensures
            at < old(self).network_topology.segments@.len() ==> bound(
                old(self).performance_metrics.bandwidth_usage@,
                old(self).network_topology.segments@[at as int].key@,
                bandwidth_sample(draws.inbound_raw, draws.outbound_raw, draws.total_raw),
                final(self).performance_metrics.bandwidth_usage@,
            ),
            at >= old(self).network_topology.segments@.len() ==> *final(self) == *old(self),
            *final(self) == (NetworkingAgent {
                performance_metrics: NetworkMetrics {
                    bandwidth_usage: final(self).performance_metrics.bandwidth_usage,
                    ..old(self).performance_metrics
                },
                ..*old(self)
            }),
    {
        if at >= self.network_topology.segments.len() {
            return ;
        }
        let metrics = BandwidthMetrics {
            inbound_bps: sample(draws.inbound_raw, 1_000_000) as u64,
            outbound_bps: sample(draws.outbound_raw, 1_000_000) as u64,
            total_bytes: sample(draws.total_raw, 1_000_000_000) as u64,
        };
        let key = self.network_topology.segments.entries[at].key.clone();
        self.performance_metrics.bandwidth_usage.insert(key, metrics);
    }

    /// Samples every metric under the draws made for it: the bandwidth of the
    /// segments, the latencies, the packet loss. Each sample overwrites the
    /// one before it.
    pub fn monitor_performance_with(&mut self, draws: &PerformanceDraws) -> (r: Result<
        (),
        NetworkingError,
    >)
        ensures
            r is Ok,
            performance_monitored_with(*old(self), *draws, *final(self)),
    {
        let part: usize = if draws.segments.len() < self.network_topology.segments.len() {
            draws.segments.len()
        } else {
            self.network_topology.segments.len()
        };
        let mut i: usize = 0;
        proof {
            assert(self.network_topology.segments@.take(0) =~= Seq::empty());
            assert(draws.segments@.take(0) =~= Seq::empty());
        }
        while i < part
            invariant
                i <= part,
                part == sampled_for(old(self).network_topology.segments@, draws.segments@),
                bandwidth_sampled_with(
                    old(self).performance_metrics.bandwidth_usage@,
                    self.network_topology.segments@.take(i as int),
                    draws.segments@.take(i as int),
                    self.performance_metrics.bandwidth_usage@,
                ),
                *self == (NetworkingAgent {
                    performance_metrics: NetworkMetrics {
                        bandwidth_usage: self.performance_metrics.bandwidth_usage,
                        ..old(self).performance_metrics
                    },
                    ..*old(self)
                }),
            decreases part - i,
        {
            let ghost mid = self.performance_metrics.bandwidth_usage@;
            self.sample_bandwidth_with(i, draws.segments[i]);
            proof {
                let upto = self.network_topology.segments@.take(i + 1);
                let drawn = draws.segments@.take(i + 1);
                assert(upto.last() == self.network_topology.segments@[i as int]);
                assert(drawn.last() == draws.segments@[i as int]);
                assert(upto.drop_last() =~= self.network_topology.segments@.take(i as int));
                assert(drawn.drop_last() =~= draws.segments@.take(i as int));
                assert(bandwidth_sampled_with(
                    old(self).performance_metrics.bandwidth_usage@,
                    upto.drop_last(),
                    drawn.drop_last(),
                    mid,
                ));
                assert(bound(
                    mid,
                    upto.last().key@,
                    bandwidth_sample(
                        drawn.last().inbound_raw,
                        drawn.last().outbound_raw,
                        drawn.last().total_raw,
                    ),
                    self.performance_metrics.bandwidth_usage@,
                ));
            }
            i += 1;
        }
        self.performance_metrics.latency_stats = LatencyStats {
            average_ms: 15 + sample(draws.average_raw, 10),
            min_ms: 5 + sample(draws.min_raw, 5),
            max_ms: 50 + sample(draws.max_raw, 50),
            p95_ms: 25 + sample(draws.p95_raw, 15),
        };
        self.performance_metrics.packet_loss = PacketLossStats {
            percentage: sample(draws.share_raw, 10),
            total_packets: 1_000_000 + (sample(draws.packets_raw, 9_000_000) as u64),
            lost_packets: sample(draws.lost_raw, 1_000) as u64,
        };
        self.performance_metrics.last_update = draws.now;
        Ok(())
    }

    /// Draws what monitoring needs from outside.
    fn draw_for_monitoring(&self) -> (draws: PerformanceDraws)
        ensures
            draws.segments@.len() == self.network_topology.segments@.len(),
    {
        let mut segments: Vec<SegmentDraws> = Vec::new();
        while segments.len() < self.network_topology.segments.len()
            invariant
                segments@.len() <= self.network_topology.segments@.len(),
            decreases self.network_topology.segments@.len() - segments@.len(),
        {
            segments.push(
                SegmentDraws { inbound_raw: draw(), outbound_raw: draw(), total_raw: draw() },
            );
        }
        PerformanceDraws {
            segments,
            average_raw: draw(),
            min_raw: draw(),
            max_raw: draw(),
            p95_raw: draw(),
            share_raw: draw(),
            packets_raw: draw(),
            lost_raw: draw(),
            now: now(),
        }
    }

    /// Samples every metric: the bandwidth of every segment, the latencies,
    /// the packet loss. Each sample overwrites the one before it.
    pub fn monitor_performance(&mut self) -> (r: Result<(), NetworkingError>)
        ensures
            r is Ok,
            performance_monitored(*old(self), *final(self)),
    {
        let draws = self.draw_for_monitoring();
        let r = self.monitor_performance_with(&draws);
        proof {
            lemma_monitoring_under_draws(*old(self), draws, *self);
        }
        r
    }

    /// Reads the metrics and the load balancers and gives advice. Nothing is
    /// changed.
    pub fn optimize_performance(&mut self) -> (r: Result<Vec<String>, NetworkingError>)
        ensures
            *final(self) == *old(self),
            r matches Ok(optimizations) && texts(optimizations@) == advice(*old(self)),
    {
        let mut optimizations: Vec<String> = Vec::new();
        if self.performance_metrics.latency_stats.average_ms > LATENCY_ALERT_ABOVE {
            optimizations.push(
                String::from_str("High latency detected - consider CDN optimization"),
            );
        }
        if self.performance_metrics.packet_loss.percentage > LOSS_ALERT_ABOVE {
            optimizations.push(
                String::from_str("Packet loss detected - investigate network issues"),
            );
        }
        let ghost head = texts(optimizations@);
        let mut i: usize = 0;
        while i < self.network_topology.load_balancers.len()
            invariant
                i <= self.network_topology.load_balancers@.len(),
                texts(optimizations@) == head + balancer_suggestions(
                    self.network_topology.load_balancers@.take(i as int),
                ),
            decreases self.network_topology.load_balancers@.len() - i,
        {
            assert(self.network_topology.load_balancers@.take(i + 1).drop_last()
                =~= self.network_topology.load_balancers@.take(i as int));
            let healthy = count_healthy(&self.network_topology.load_balancers[i].backends);
            if healthy < self.network_topology.load_balancers[i].backends.len() - healthy {
                let ghost before = optimizations@;
                optimizations.push(
                    String::from_str("Load balancer ").concat(
                        self.network_topology.load_balancers[i].name.as_str(),
                    ).concat(" has low healthy backend count"),
                );
                proof {
                    let balancer = self.network_topology.load_balancers@[i as int];
                    assert(texts(optimizations@) =~= texts(before).push(
                        balancer_suggestion(balancer.name@),
                    ));
                }
            }
            i += 1;
        }
        assert(self.network_topology.load_balancers@.take(i as int)
            =~= self.network_topology.load_balancers@);
        if optimizations.len() == 0 {
            optimizations.push(String::from_str("Network performance is optimal"));
        }
        Ok(optimizations)
    }

    /// Checks the status of the tunnels under the draws made for them: each is
    /// found in the status that its draw stands for.
    pub fn check_tunnels_with(&mut self, draws: &Vec<u64>)
        ensures
            tunnels_checked_with(*old(self), draws@, *final(self)),
    {
        let part: usize = if draws.len() < self.network_topology.vpn_configs.len() {
            draws.len()
        } else {
            self.network_topology.vpn_configs.len()
        };
        let mut i: usize = 0;
        while i < part
            invariant
                i <= part,
                part <= draws@.len(),
                part <= self.network_topology.vpn_configs@.len(),
                self.network_topology.vpn_configs@.len() == old(
                    self,
                ).network_topology.vpn_configs@.len(),
                forall|j: int|
                    0 <= j < i ==> tunnel_checked_with(
                        old(self).network_topology.vpn_configs@[j],
                        draws@[j],
                        #[trigger] self.network_topology.vpn_configs@[j],
                    ),
                forall|j: int|
                    i <= j < self.network_topology.vpn_configs@.len()
                        ==> #[trigger] self.network_topology.vpn_configs@[j] == old(
                        self,
                    ).network_topology.vpn_configs@[j],
                *self == (NetworkingAgent {
                    network_topology: NetworkTopology {
                        vpn_configs: self.network_topology.vpn_configs,
                        ..old(self).network_topology
                    },
                    ..*old(self)
                }),
            decreases part - i,
        {
            self.network_topology.vpn_configs[i].status = status_of_tunnel(draws[i]);
            i += 1;
        }
    }

    /// Checks the status of every tunnel: each is found connected or failed.
    pub fn check_tunnels(&mut self)
        ensures
            tunnels_checked(*old(self), *final(self)),
    {
        let mut draws: Vec<u64> = Vec::new();
        while draws.len() < self.network_topology.vpn_configs.len()
            invariant
                draws@.len() <= self.network_topology.vpn_configs@.len(),
            decreases self.network_topology.vpn_configs@.len() - draws@.len(),
        {
            draws.push(draw());
        }
        self.check_tunnels_with(&draws);
        proof {
            assert forall|i: int|
                0 <= i < old(self).network_topology.vpn_configs@.len() implies tunnel_checked(
                old(self).network_topology.vpn_configs@[i],
                #[trigger] self.network_topology.vpn_configs@[i],
            ) by {
                assert(tunnel_checked_with(
                    old(self).network_topology.vpn_configs@[i],
                    draws@[i],
                    self.network_topology.vpn_configs@[i],
                ));
            }
        }
    }
}

/// Sampling bandwidth under draws is sampling bandwidth.
pub proof fn lemma_sampling_under_draws(
    pre: Seq<Entry<String, BandwidthMetrics>>,
    segments: Seq<Entry<String, NetworkSegment>>,
    draws: Seq<SegmentDraws>,
    post: Seq<Entry<String, BandwidthMetrics>>,
)
    requires
        bandwidth_sampled_with(pre, segments, draws, post),
    ensures
        bandwidth_sampled(pre, segments, post),
    decreases segments.len(),
{
    if segments.len() > 0 {
        let mid = choose|mid: Seq<Entry<String, BandwidthMetrics>>|
            {
                &&& bandwidth_sampled_with(pre, segments.drop_last(), draws.drop_last(), mid)
                &&& #[trigger] bound(
                    mid,
                    segments.last().key@,
                    bandwidth_sample(
                        draws.last().inbound_raw,
                        draws.last().outbound_raw,
                        draws.last().total_raw,
                    ),
                    post,
                )
            };
        lemma_sampling_under_draws(pre, segments.drop_last(), draws.drop_last(), mid);
    }
}

/// Monitoring under draws for every segment is monitoring.
pub proof fn lemma_monitoring_under_draws(
    pre: NetworkingAgent,
    draws: PerformanceDraws,
    post: NetworkingAgent,
)
    requires
        draws.segments@.len() == pre.network_topology.segments@.len(),
        performance_monitored_with(pre, draws, post),
    ensures
        performance_monitored(pre, post),
{
    let segments = pre.network_topology.segments@;
    assert(segments.take(segments.len() as int) =~= segments);
    assert(draws.segments@.take(draws.segments@.len() as int) =~= draws.segments@);
    lemma_sampling_under_draws(
        pre.performance_metrics.bandwidth_usage@,
        segments,
        draws.segments@,
        post.performance_metrics.bandwidth_usage@,
    );
    assert(post.performance_metrics.latency_stats == latency_sample(
        draws.average_raw,
        draws.min_raw,
        draws.max_raw,
        draws.p95_raw,
    ));
    assert(post.performance_metrics.packet_loss == loss_sample(
        draws.share_raw,
        draws.packets_raw,
        draws.lost_raw,
    ));
}

/// The kinds of message that the department knows are four different texts.
pub proof fn lemma_kinds_differ()
    ensures
        "configure_segment"@ != "add_firewall_rule"@,
        "configure_segment"@ != "performance_monitor"@,
        "configure_segment"@ != "register_service"@,
        "add_firewall_rule"@ != "performance_monitor"@,
        "add_firewall_rule"@ != "register_service"@,
        "performance_monitor"@ != "register_service"@,
{
    reveal_strlit("configure_segment");
    reveal_strlit("add_firewall_rule");
    reveal_strlit("performance_monitor");
    reveal_strlit("register_service");
    assert("add_firewall_rule"@.len() == 17);
    assert("performance_monitor"@.len() == 19);
    assert("configure_segment"@[0] == 'c');
}

impl AgentTrait for NetworkingAgent {
    /// Every message can be taken.
    open spec fn accepts(&self, message: Message) -> bool {
        true
    }

    /// What each kind of message does:
    /// `configure_segment` configures an internal segment, named by the
    /// parameter `name` (default `default`) with the range given by `cidr`
    /// (default `10.0.0.0/24`);
    /// `add_firewall_rule` adds a rule that allows TCP on ports 80 to 443,
    /// named by `name` (default `default-rule`), from `source` to
    /// `destination` (default `any` each);
    /// `performance_monitor` samples the metrics;
    /// `register_service` registers a web server named by `name` (default
    /// `unknown`) at the endpoint given by `endpoint` (default
    /// `localhost:8080`);
    /// any other kind changes nothing.
    open spec fn handles(pre: Self, message: Message, post: Self) -> bool {
        if message.message_type@ == "configure_segment"@ {
            exists|raw_id: u128|
                segment_configured(
                    pre,
                    parameter_or(message.metadata@, "name"@, "default"@),
                    parameter_or(message.metadata@, "cidr"@, "10.0.0.0/24"@),
                    SecurityLevel::Internal,
                    raw_id,
                    post,
                )
        } else if message.message_type@ == "add_firewall_rule"@ {
            exists|raw_id: u128|
                rule_added(
                    pre,
                    parameter_or(message.metadata@, "name"@, "default-rule"@),
                    parameter_or(message.metadata@, "source"@, "any"@),
                    parameter_or(message.metadata@, "destination"@, "any"@),
                    PortRange { start: 80, end: 443 },
                    Protocol::TCP,
                    FirewallAction::Allow,
                    raw_id,
                    post,
                )
        } else if message.message_type@ == "performance_monitor"@ {
            performance_monitored(pre, post)
        } else if message.message_type@ == "register_service"@ {
            exists|now: i64|
                service_registered(
                    pre,
                    parameter_or(message.metadata@, "name"@, "unknown"@),
                    ServiceType::WebServer,
                    seq![parameter_or(message.metadata@, "endpoint"@, "localhost:8080"@)],
                    now,
                    post,
                )
        } else {
            post == pre
        }
    }

    open spec fn fit_for_daily_tasks(&self) -> bool {
        true
    }

    /// The daily round: performance monitoring, as a note to self, and then a
    /// check of every tunnel.
    open spec fn maintains(pre: Self, post: Self) -> bool {
        exists|first: Message, monitored: Self|
            {
                &&& is_note_to_self(
                    first,
                    pre.agent.id,
                    "performance_monitor"@,
                    "Daily performance monitoring"@,
                )
                &&& Self::handles(pre, first, monitored)
                &&& tunnels_checked(monitored, post)
            }
    }

    open spec fn record(&self) -> Agent {
        self.agent
    }

    fn process_message(&mut self, message: Message) -> (r: Result<(), AgentError>) {
        proof {
            lemma_kinds_differ();
        }
        if reads(&message.message_type, "configure_segment") {
            let config = SegmentConfig {
                name: message.parameter_or("name", "default"),
                cidr: message.parameter_or("cidr", "10.0.0.0/24"),
                security_level: SecurityLevel::Internal,
            };
            match self.configure_segment(config) {
                Ok(_) => {},
                Err(e) => {
                    return Err(AgentError::Networking(e));
                },
            }
        } else if reads(&message.message_type, "add_firewall_rule") {
            let rule_config = FirewallRuleConfig {
                name: message.parameter_or("name", "default-rule"),
                source_segment: message.parameter_or("source", "any"),
                destination_segment: message.parameter_or("destination", "any"),
                port_range: PortRange { start: 80, end: 443 },
                protocol: Protocol::TCP,
                action: FirewallAction::Allow,
            };
            match self.add_firewall_rule(rule_config) {
                Ok(_) => {},
                Err(e) => {
                    return Err(AgentError::Networking(e));
                },
            }
        } else if reads(&message.message_type, "performance_monitor") {
            match self.monitor_performance() {
                Ok(_) => {},
                Err(e) => {
                    return Err(AgentError::Networking(e));
                },
            }
            match self.optimize_performance() {
                Ok(_) => {},
                Err(e) => {
                    return Err(AgentError::Networking(e));
                },
            }
        } else if reads(&message.message_type, "register_service") {
            let mut endpoints: Vec<String> = Vec::new();
            endpoints.push(message.parameter_or("endpoint", "localhost:8080"));
            assert(texts(endpoints@) =~= seq![
                parameter_or(message.metadata@, "endpoint"@, "localhost:8080"@),
            ]);
            let service_config = ServiceConfig {
                name: message.parameter_or("name", "unknown"),
                service_type: ServiceType::WebServer,
                endpoints,
            };
            match self.register_service(service_config) {
                Ok(_) => {},
                Err(e) => {
                    return Err(AgentError::Networking(e));
                },
            }
        }
        Ok(())
    }

    fn perform_daily_tasks(&mut self) -> (r: Result<(), AgentError>) {
        let first = Message::note_to_self(
            self.agent.id,
            "performance_monitor",
            "Daily performance monitoring",
        );
        let _ = self.process_message(first);
        self.check_tunnels();
        Ok(())
    }

    fn can_accept(&self, message: &Message) -> (b: bool) {
        true
    }

    fn can_run_daily_tasks(&self) -> (b: bool) {
        true
    }

    fn get_agent(&self) -> (a: &Agent) {
        &self.agent
    }

    fn get_agent_mut(&mut self) -> (a: &mut Agent) {
        &mut self.agent
    }
}

/// Taking a message changes neither the agent's record nor its skills.
pub proof fn lemma_handling_keeps_record(
    pre: NetworkingAgent,
    message: Message,
    post: NetworkingAgent,
)
    requires
        NetworkingAgent::handles(pre, message, post),
    ensures
        post.agent == pre.agent,
        post.network_skill == pre.network_skill,
        post.security_skill == pre.security_skill,
        post.performance_skill == pre.performance_skill,
{
}

/// The daily round changes neither the agent's record nor its skills.
pub proof fn lemma_daily_round_keeps_record(pre: NetworkingAgent, post: NetworkingAgent)
    requires
        NetworkingAgent::maintains(pre, post),
    ensures
        post.agent == pre.agent,
{
    let (first, monitored) = choose|first: Message, monitored: NetworkingAgent|
        {
            &&& is_note_to_self(
                first,
                pre.agent.id,
                "performance_monitor"@,
                "Daily performance monitoring"@,
            )
            &&& NetworkingAgent::handles(pre, first, monitored)
            &&& tunnels_checked(monitored, post)
        };
    lemma_handling_keeps_record(pre, first, monitored);
}

impl NetworkingAgent {
    /// The tables are in order: no identifier stands for two segments, no
    /// domain for two records, no name for two services, and no segment has
    /// two samples of bandwidth.
    pub open spec fn sound(self) -> bool {
        &&& distinct_keys(self.network_topology.segments@)
        &&& distinct_keys(self.network_topology.dns_config.records@)
        &&& distinct_keys(self.network_services@)
        &&& distinct_keys(self.performance_metrics.bandwidth_usage@)
    }
}

/// An agent as it starts is sound.
pub proof fn lemma_new_agent_is_sound(
    agent: NetworkingAgent,
    name: Seq<char>,
    manager_id: Option<u128>,
)
    requires
        is_new_agent(agent, name, manager_id),
    ensures
        agent.sound(),
{
}

/// Sampling bandwidth keeps one sample for each segment.
pub proof fn lemma_sampling_keeps_distinct(
    pre: Seq<Entry<String, BandwidthMetrics>>,
    segments: Seq<Entry<String, NetworkSegment>>,
    post: Seq<Entry<String, BandwidthMetrics>>,
)
    requires
        distinct_keys(pre),
        bandwidth_sampled(pre, segments, post),
    ensures
        distinct_keys(post),
    decreases segments.len(),
{
    if segments.len() > 0 {
        let (mid, inbound_raw, outbound_raw, total_raw) = choose|
            mid: Seq<Entry<String, BandwidthMetrics>>,
            inbound_raw: u64,
            outbound_raw: u64,
            total_raw: u64,
        |
            {
                &&& bandwidth_sampled(pre, segments.drop_last(), mid)
                &&& bound(
                    mid,
                    segments.last().key@,
                    bandwidth_sample(inbound_raw, outbound_raw, total_raw),
                    post,
                )
            };
        lemma_sampling_keeps_distinct(pre, segments.drop_last(), mid);
        lemma_placed_keeps_distinct(mid, segments.last().key@, post);
    }
}

/// Taking a message keeps the agent sound.
pub proof fn lemma_handling_keeps_sound(
    pre: NetworkingAgent,
    message: Message,
    post: NetworkingAgent,
)
    requires
        pre.sound(),
        NetworkingAgent::handles(pre, message, post),
    ensures
        post.sound(),
{
    lemma_kinds_differ();
    if message.message_type@ == "configure_segment"@ {
        let raw_id = choose|raw_id: u128|
            segment_configured(
                pre,
                parameter_or(message.metadata@, "name"@, "default"@),
                parameter_or(message.metadata@, "cidr"@, "10.0.0.0/24"@),
                SecurityLevel::Internal,
                raw_id,
                post,
            );
        lemma_placed_keeps_distinct(
            pre.network_topology.segments@,
            prefixed_id("seg-"@, raw_id),
            post.network_topology.segments@,
        );
    } else if message.message_type@ == "performance_monitor"@ {
        lemma_sampling_keeps_distinct(
            pre.performance_metrics.bandwidth_usage@,
            pre.network_topology.segments@,
            post.performance_metrics.bandwidth_usage@,
        );
    } else if message.message_type@ == "register_service"@ {
        lemma_placed_keeps_distinct(
            pre.network_services@,
            parameter_or(message.metadata@, "name"@, "unknown"@),
            post.network_services@,
        );
    }
}

/// The daily round keeps the agent sound.
pub proof fn lemma_daily_round_keeps_sound(pre: NetworkingAgent, post: NetworkingAgent)
    requires
        pre.sound(),
        NetworkingAgent::maintains(pre, post),
    ensures
        post.sound(),
{
    let (first, monitored) = choose|first: Message, monitored: NetworkingAgent|
        {
            &&& is_note_to_self(
                first,
                pre.agent.id,
                "performance_monitor"@,
                "Daily performance monitoring"@,
            )
            &&& NetworkingAgent::handles(pre, first, monitored)
            &&& tunnels_checked(monitored, post)
        };
    lemma_handling_keeps_sound(pre, first, monitored);
}

} // verus!
