use ai_company::agents::AgentTrait;
use ai_company::agents::Department;
use ai_company::communication::Message;
use ai_company::communication::MessagePriority;
use ai_company::departments::networking::BackendServer;
use ai_company::departments::networking::count_healthy;
use ai_company::departments::networking::DNSRecord;
use ai_company::departments::networking::FirewallAction;
use ai_company::departments::networking::FirewallRuleConfig;
use ai_company::departments::networking::HealthCheck;
use ai_company::departments::networking::HealthCheckType;
use ai_company::departments::networking::IpAddress;
use ai_company::departments::networking::LoadBalancerConfig;
use ai_company::departments::networking::LoadBalancerStatus;
use ai_company::departments::networking::LoadBalancingAlgorithm;
use ai_company::departments::networking::NetworkingAgent;
use ai_company::departments::networking::PerformanceDraws;
use ai_company::departments::networking::PortRange;
use ai_company::departments::networking::Protocol;
use ai_company::departments::networking::RecordType;
use ai_company::departments::networking::SecurityLevel;
use ai_company::departments::networking::SegmentConfig;
use ai_company::departments::networking::SegmentDraws;
use ai_company::departments::networking::ServiceConfig;
use ai_company::departments::networking::ServiceStatus;
use ai_company::departments::networking::ServiceType;
use ai_company::departments::networking::status_of_tunnel;
use ai_company::departments::networking::VPNConfig;
use ai_company::departments::networking::VPNStatus;
use ai_company::departments::networking::VPNType;
use ai_company::table::Table;

fn network_note(kind: &str, parameters: &[(&str, &str)]) -> Message {
    let mut metadata: Table<String, String> = Table::new();
    for (key, value) in parameters {
        metadata.insert(key.to_string(), value.to_string());
    }
    Message {
        id: 1,
        from_agent: 0,
        to_agent: 2,
        message_type: kind.to_string(),
        content: "content".to_string(),
        priority: MessagePriority::Normal,
        timestamp: 0,
        metadata,
    }
}

fn backend(healthy: bool) -> BackendServer {
    BackendServer { ip_address: IpAddress::V4(0x0a00_0001), port: 8080, weight: 1, healthy }
}

fn balancer(name: &str, health: &[bool]) -> LoadBalancerConfig {
    LoadBalancerConfig {
        name: name.to_string(),
        algorithm: LoadBalancingAlgorithm::RoundRobin,
        backends: health.iter().map(|h| backend(*h)).collect(),
        health_check: HealthCheck {
            check_type: HealthCheckType::HTTP,
            interval_seconds: 10,
            timeout_seconds: 2,
            healthy_threshold: 2,
            unhealthy_threshold: 3,
        },
    }
}

fn tunnel(id: &str, status: VPNStatus) -> VPNConfig {
    VPNConfig {
        id: id.to_string(),
        name: format!("tunnel {}", id),
        vpn_type: VPNType::WireGuard,
        remote_endpoint: "vpn.example.com".to_string(),
        local_networks: vec!["10.0.0.0/24".to_string()],
        remote_networks: vec!["10.1.0.0/24".to_string()],
        status,
    }
}

#[test]
fn test_networking_agent_creation() {
    let agent = NetworkingAgent::new("Test Networking Agent".to_string(), None);
    assert_eq!(agent.agent.name, "Test Networking Agent");
    assert_eq!(agent.agent.department, Department::Networking);
    assert_eq!(agent.network_skill, 90);
    assert_eq!(agent.security_skill, 80);
}

#[test]
fn test_segment_configuration() {
    let mut agent = NetworkingAgent::new("Test Agent".to_string(), None);
    let config = SegmentConfig {
        name: "web-tier".to_string(),
        cidr: "10.0.1.0/24".to_string(),
        security_level: SecurityLevel::DMZ,
    };

    let result = agent.configure_segment(config);
    assert!(result.is_ok());
    assert_eq!(agent.network_topology.segments.len(), 1);
}

#[test]
fn test_firewall_rule_creation() {
    let mut agent = NetworkingAgent::new("Test Agent".to_string(), None);
    let rule_config = FirewallRuleConfig {
        name: "allow-http".to_string(),
        source_segment: "internet".to_string(),
        destination_segment: "web".to_string(),
        port_range: PortRange { start: 80, end: 80 },
        protocol: Protocol::TCP,
        action: FirewallAction::Allow,
    };

    let result = agent.add_firewall_rule(rule_config);
    assert!(result.is_ok());
    assert_eq!(agent.network_topology.firewall_rules.len(), 1);
}

#[test]
fn test_performance_monitoring() {
    let mut agent = NetworkingAgent::new("Test Agent".to_string(), None);
    let result = agent.monitor_performance();
    assert!(result.is_ok());
    assert_eq!(
        agent.performance_metrics.bandwidth_usage.len(),
        agent.network_topology.segments.len()
    );
}

#[test]
fn monitoring_samples_each_configured_segment() {
    let mut agent = NetworkingAgent::new("Test Agent".to_string(), None);
    let id = agent
        .configure_segment(SegmentConfig {
            name: "web-tier".to_string(),
            cidr: "10.0.1.0/24".to_string(),
            security_level: SecurityLevel::DMZ,
        })
        .unwrap();
    let result = agent.monitor_performance();
    assert!(result.is_ok());
    assert!(!agent.performance_metrics.bandwidth_usage.is_empty());
    assert_eq!(agent.performance_metrics.bandwidth_usage.len(), 1);
    assert!(agent.performance_metrics.bandwidth_usage.get(&id).is_some());
}

#[test]
fn test_service_registration() {
    let mut agent = NetworkingAgent::new("Test Agent".to_string(), None);
    let service_config = ServiceConfig {
        name: "web-api".to_string(),
        service_type: ServiceType::API,
        endpoints: vec!["api.example.com:443".to_string()],
    };

    let result = agent.register_service(service_config);
    assert!(result.is_ok());
    assert_eq!(agent.network_services.len(), 1);
}

#[test]
fn new_networking_agent_starts_with_the_default_topology() {
    let agent = NetworkingAgent::new("Nia".to_string(), None);
    assert_eq!(agent.performance_skill, 85);
    assert!(agent.network_topology.segments.is_empty());
    assert!(agent.network_topology.firewall_rules.is_empty());
    assert!(agent.network_topology.load_balancers.is_empty());
    assert!(agent.network_topology.vpn_configs.is_empty());
    assert!(agent.network_topology.dns_config.records.is_empty());
    assert_eq!(
        agent.network_topology.dns_config.name_servers,
        vec!["8.8.8.8".to_string(), "1.1.1.1".to_string()]
    );
    assert!(agent.network_topology.dns_config.dnssec_enabled);
    assert!(agent.network_services.is_empty());
    assert!(agent.performance_metrics.bandwidth_usage.is_empty());
    assert_eq!(agent.performance_metrics.latency_stats.average_ms, 15);
    assert_eq!(agent.performance_metrics.latency_stats.min_ms, 5);
    assert_eq!(agent.performance_metrics.latency_stats.max_ms, 50);
    assert_eq!(agent.performance_metrics.latency_stats.p95_ms, 25);
    assert_eq!(agent.performance_metrics.packet_loss.percentage, 1);
    assert_eq!(agent.performance_metrics.packet_loss.total_packets, 1_000_000);
    assert_eq!(agent.performance_metrics.packet_loss.lost_packets, 100);
    assert_eq!(agent.performance_metrics.connection_counts.active_connections, 150);
    assert_eq!(agent.performance_metrics.connection_counts.total_connections, 50_000);
    assert_eq!(agent.performance_metrics.connection_counts.peak_connections, 200);
}

#[test]
fn monitoring_without_segments_samples_no_bandwidth() {
    let mut agent = NetworkingAgent::new("Nia".to_string(), None);
    assert!(agent.monitor_performance().is_ok());
    assert!(agent.performance_metrics.bandwidth_usage.is_empty());
}

#[test]
fn configured_segment_is_stored_under_its_identifier() {
    let mut agent = NetworkingAgent::new("Nia".to_string(), None);
    let id = agent.configure_segment_with(
        SegmentConfig {
            name: "db-tier".to_string(),
            cidr: "10.0.2.0/24".to_string(),
            security_level: SecurityLevel::Restricted,
        },
        0x0123456789abcdef0123456789abcdef,
    );
    assert_eq!(id, "seg-0123456789abcdef0123456789abcdef");
    let segment = agent.network_topology.segments.get(&id).unwrap();
    assert_eq!(segment.id, id);
    assert_eq!(segment.name, "db-tier");
    assert_eq!(segment.cidr, "10.0.2.0/24");
    assert_eq!(segment.security_level, SecurityLevel::Restricted);
    assert!(segment.connected_segments.is_empty());
    assert!(segment.devices.is_empty());
}

#[test]
fn firewall_rule_is_enabled_and_may_name_unknown_segments() {
    let mut agent = NetworkingAgent::new("Nia".to_string(), None);
    let id = agent.add_firewall_rule_with(
        FirewallRuleConfig {
            name: "deny-all".to_string(),
            source_segment: "nowhere".to_string(),
            destination_segment: "nothing".to_string(),
            port_range: PortRange { start: 1, end: 65_535 },
            protocol: Protocol::Any,
            action: FirewallAction::Deny,
        },
        1,
    );
    assert_eq!(id, "fw-00000000000000000000000000000001");
    let rule = &agent.network_topology.firewall_rules[0];
    assert_eq!(rule.id, id);
    assert_eq!(rule.name, "deny-all");
    assert_eq!(rule.source_segment, "nowhere");
    assert_eq!(rule.destination_segment, "nothing");
    assert_eq!(rule.port_range, PortRange { start: 1, end: 65_535 });
    assert_eq!(rule.protocol, Protocol::Any);
    assert_eq!(rule.action, FirewallAction::Deny);
    assert!(rule.enabled);
    assert!(agent.network_topology.segments.is_empty());
}

#[test]
fn load_balancer_is_active_with_its_backends() {
    let mut agent = NetworkingAgent::new("Nia".to_string(), None);
    let id = agent.configure_load_balancer_with(balancer("edge", &[true, false]), 0x10);
    assert_eq!(id, "lb-00000000000000000000000000000010");
    let fresh = agent.configure_load_balancer(balancer("inner", &[])).unwrap();
    assert!(fresh.starts_with("lb-"));
    assert_eq!(fresh.len(), 3 + 32);
    assert_eq!(agent.network_topology.load_balancers.len(), 2);
    let stored = &agent.network_topology.load_balancers[0];
    assert_eq!(stored.id, id);
    assert_eq!(stored.name, "edge");
    assert_eq!(stored.algorithm, LoadBalancingAlgorithm::RoundRobin);
    assert_eq!(stored.backends, vec![backend(true), backend(false)]);
    assert_eq!(stored.health_check.check_type, HealthCheckType::HTTP);
    assert_eq!(stored.status, LoadBalancerStatus::Active);
}

#[test]
fn dns_record_is_bound_and_replaced() {
    let mut agent = NetworkingAgent::new("Nia".to_string(), None);
    let record = |value: &str| DNSRecord {
        record_type: RecordType::A,
        value: value.to_string(),
        ttl: 300,
        proxied: false,
    };
    agent.update_dns_record_with("example.com", record("1.2.3.4"), 10).unwrap();
    agent.update_dns_record_with("example.org", record("5.6.7.8"), 11).unwrap();
    agent.update_dns_record_with("example.com", record("9.9.9.9"), 12).unwrap();
    assert_eq!(agent.network_topology.dns_config.records.len(), 2);
    assert_eq!(agent.network_topology.dns_config.last_update, 12);
    let bound = agent.network_topology.dns_config.records.get(&"example.com".to_string()).unwrap();
    assert_eq!(bound.value, "9.9.9.9");
    assert_eq!(agent.network_topology.dns_config.records.entries[0].key, "example.com");
    assert!(agent.update_dns_record("example.net", record("1.1.1.1")).is_ok());
    assert_eq!(agent.network_topology.dns_config.records.len(), 3);
}

#[test]
fn vpn_is_added_as_configured() {
    let mut agent = NetworkingAgent::new("Nia".to_string(), None);
    let id = agent.configure_vpn(tunnel("vpn-1", VPNStatus::Connecting)).unwrap();
    assert_eq!(id, "vpn-1");
    assert_eq!(agent.network_topology.vpn_configs.len(), 1);
    assert_eq!(agent.network_topology.vpn_configs[0].name, "tunnel vpn-1");
    assert_eq!(agent.network_topology.vpn_configs[0].status, VPNStatus::Connecting);
}

#[test]
fn service_is_registered_healthy_under_its_name() {
    let mut agent = NetworkingAgent::new("Nia".to_string(), None);
    let config = |kind: ServiceType, endpoint: &str| ServiceConfig {
        name: "cache".to_string(),
        service_type: kind,
        endpoints: vec![endpoint.to_string()],
    };
    agent.register_service_with(config(ServiceType::Cache, "cache-1:6379"), 5).unwrap();
    agent.register_service_with(config(ServiceType::Database, "cache-2:6379"), 6).unwrap();
    assert_eq!(agent.network_services.len(), 1);
    let service = agent.network_services.get(&"cache".to_string()).unwrap();
    assert_eq!(service.name, "cache");
    assert_eq!(service.service_type, ServiceType::Database);
    assert_eq!(service.endpoints, vec!["cache-2:6379".to_string()]);
    assert_eq!(service.status, ServiceStatus::Healthy);
    assert_eq!(service.last_health_check, 6);
}

#[test]
fn monitoring_samples_within_the_documented_ranges() {
    let mut agent = NetworkingAgent::new("Nia".to_string(), None);
    let first = agent
        .configure_segment(SegmentConfig {
            name: "a".to_string(),
            cidr: "10.0.0.0/24".to_string(),
            security_level: SecurityLevel::Internal,
        })
        .unwrap();
    let second = agent
        .configure_segment(SegmentConfig {
            name: "b".to_string(),
            cidr: "10.0.1.0/24".to_string(),
            security_level: SecurityLevel::Public,
        })
        .unwrap();
    for _ in 0..30 {
        agent.monitor_performance().unwrap();
        let metrics = &agent.performance_metrics;
        assert_eq!(metrics.bandwidth_usage.len(), 2);
        assert_eq!(metrics.bandwidth_usage.entries[0].key, first);
        assert_eq!(metrics.bandwidth_usage.entries[1].key, second);
        for entry in &metrics.bandwidth_usage.entries {
            assert!(entry.value.inbound_bps < 1_000_000);
            assert!(entry.value.outbound_bps < 1_000_000);
            assert!(entry.value.total_bytes < 1_000_000_000);
        }
        assert!((15..25).contains(&metrics.latency_stats.average_ms));
        assert!((5..10).contains(&metrics.latency_stats.min_ms));
        assert!((50..100).contains(&metrics.latency_stats.max_ms));
        assert!((25..40).contains(&metrics.latency_stats.p95_ms));
        assert!(metrics.packet_loss.percentage < 10);
        assert!((1_000_000..10_000_000).contains(&metrics.packet_loss.total_packets));
        assert!(metrics.packet_loss.lost_packets < 1_000);
        assert_eq!(metrics.connection_counts.active_connections, 150);
    }
}

#[test]
fn advice_follows_the_thresholds() {
    let mut agent = NetworkingAgent::new("Nia".to_string(), None);
    assert_eq!(
        agent.optimize_performance().unwrap(),
        vec!["Network performance is optimal".to_string()]
    );
    agent.performance_metrics.latency_stats.average_ms = 30;
    agent.performance_metrics.packet_loss.percentage = 5;
    assert_eq!(
        agent.optimize_performance().unwrap(),
        vec!["Network performance is optimal".to_string()]
    );
    agent.performance_metrics.latency_stats.average_ms = 31;
    assert_eq!(
        agent.optimize_performance().unwrap(),
        vec!["High latency detected - consider CDN optimization".to_string()]
    );
    agent.performance_metrics.packet_loss.percentage = 6;
    agent.configure_load_balancer_with(balancer("edge", &[true, false, false, false]), 1);
    agent.configure_load_balancer_with(balancer("half", &[true, false]), 2);
    agent.configure_load_balancer_with(balancer("empty", &[]), 3);
    agent.configure_load_balancer_with(balancer("down", &[false, false]), 4);
    agent.configure_load_balancer_with(balancer("third", &[true, false, false]), 5);
    agent.configure_load_balancer_with(balancer("most", &[true, true, false]), 6);
    assert_eq!(
        agent.optimize_performance().unwrap(),
        vec![
            "High latency detected - consider CDN optimization".to_string(),
            "Packet loss detected - investigate network issues".to_string(),
            "Load balancer edge has low healthy backend count".to_string(),
            "Load balancer down has low healthy backend count".to_string(),
            "Load balancer third has low healthy backend count".to_string(),
        ]
    );
    agent.performance_metrics.latency_stats.average_ms = 0;
    agent.performance_metrics.packet_loss.percentage = 0;
    assert_eq!(agent.optimize_performance().unwrap().len(), 3);
    assert_eq!(agent.network_topology.load_balancers.len(), 6);
}

#[test]
fn one_healthy_backend_of_three_is_reported() {
    let mut agent = NetworkingAgent::new("Test Agent".to_string(), None);
    agent.configure_load_balancer_with(balancer("lb", &[true, false, false]), 1);
    assert_eq!(
        agent.optimize_performance().unwrap(),
        vec!["Load balancer lb has low healthy backend count".to_string()]
    );
}

#[test]
fn healthy_backends_are_counted() {
    assert_eq!(count_healthy(&vec![]), 0);
    assert_eq!(count_healthy(&vec![backend(true), backend(false), backend(true)]), 2);
}

#[test]
fn tunnels_are_found_connected_or_failed() {
    let mut agent = NetworkingAgent::new("Nia".to_string(), None);
    agent.configure_vpn(tunnel("a", VPNStatus::Connecting)).unwrap();
    agent.configure_vpn(tunnel("b", VPNStatus::Disconnected)).unwrap();
    agent.check_tunnels();
    assert_eq!(agent.network_topology.vpn_configs.len(), 2);
    for vpn in &agent.network_topology.vpn_configs {
        assert!(vpn.status == VPNStatus::Connected || vpn.status == VPNStatus::Failed);
        assert_eq!(vpn.remote_endpoint, "vpn.example.com");
    }
    assert_eq!(agent.network_topology.vpn_configs[0].id, "a");
    assert_eq!(agent.network_topology.vpn_configs[1].id, "b");
}

#[test]
fn messages_configure_with_defaults() {
    let mut agent = NetworkingAgent::new("Nia".to_string(), None);
    agent.process_message(network_note("configure_segment", &[])).unwrap();
    agent
        .process_message(network_note("configure_segment", &[("name", "dmz"), ("cidr", "192.168.0.0/16")]))
        .unwrap();
    assert_eq!(agent.network_topology.segments.len(), 2);
    let first = &agent.network_topology.segments.entries[0].value;
    assert_eq!(first.name, "default");
    assert_eq!(first.cidr, "10.0.0.0/24");
    assert_eq!(first.security_level, SecurityLevel::Internal);
    assert!(first.id.starts_with("seg-"));
    assert_eq!(agent.network_topology.segments.entries[0].key, first.id);
    let second = &agent.network_topology.segments.entries[1].value;
    assert_eq!(second.name, "dmz");
    assert_eq!(second.cidr, "192.168.0.0/16");

    agent.process_message(network_note("add_firewall_rule", &[("source", "dmz")])).unwrap();
    let rule = &agent.network_topology.firewall_rules[0];
    assert_eq!(rule.name, "default-rule");
    assert_eq!(rule.source_segment, "dmz");
    assert_eq!(rule.destination_segment, "any");
    assert_eq!(rule.port_range, PortRange { start: 80, end: 443 });
    assert_eq!(rule.protocol, Protocol::TCP);
    assert_eq!(rule.action, FirewallAction::Allow);
    assert!(rule.enabled);

    agent.process_message(network_note("register_service", &[])).unwrap();
    agent
        .process_message(network_note("register_service", &[("name", "api"), ("endpoint", "api:443")]))
        .unwrap();
    assert_eq!(agent.network_services.len(), 2);
    let unknown = agent.network_services.get(&"unknown".to_string()).unwrap();
    assert_eq!(unknown.service_type, ServiceType::WebServer);
    assert_eq!(unknown.endpoints, vec!["localhost:8080".to_string()]);
    assert_eq!(unknown.status, ServiceStatus::Healthy);
    let api = agent.network_services.get(&"api".to_string()).unwrap();
    assert_eq!(api.endpoints, vec!["api:443".to_string()]);

    agent.process_message(network_note("make_coffee", &[])).unwrap();
    assert_eq!(agent.network_topology.segments.len(), 2);
    assert_eq!(agent.network_services.len(), 2);
}

#[test]
fn networking_daily_tasks_monitor_and_check_tunnels() {
    let mut agent = NetworkingAgent::new("Nia".to_string(), None);
    agent.process_message(network_note("configure_segment", &[])).unwrap();
    agent.configure_vpn(tunnel("a", VPNStatus::Disconnected)).unwrap();
    agent.register_service_with(
        ServiceConfig {
            name: "web".to_string(),
            service_type: ServiceType::WebServer,
            endpoints: vec![],
        },
        3,
    )
    .unwrap();
    assert!(agent.can_run_daily_tasks());
    agent.perform_daily_tasks().unwrap();
    assert_eq!(agent.performance_metrics.bandwidth_usage.len(), 1);
    let status = agent.network_topology.vpn_configs[0].status;
    assert!(status == VPNStatus::Connected || status == VPNStatus::Failed);
    let service = agent.network_services.get(&"web".to_string()).unwrap();
    assert_eq!(service.status, ServiceStatus::Healthy);
    assert_eq!(service.last_health_check, 3);
    assert_eq!(agent.get_agent().department, Department::Networking);
}

#[test]
fn tunnel_is_up_for_ninety_eight_draws_in_a_hundred() {
    assert_eq!(status_of_tunnel(0), VPNStatus::Connected);
    assert_eq!(status_of_tunnel(9_799), VPNStatus::Connected);
    assert_eq!(status_of_tunnel(9_800), VPNStatus::Failed);
    assert_eq!(status_of_tunnel(9_999), VPNStatus::Failed);
    assert_eq!(status_of_tunnel(10_000), VPNStatus::Connected);
    assert_eq!(status_of_tunnel(29_800), VPNStatus::Failed);
}

#[test]
fn tunnels_are_checked_under_their_draws() {
    let mut agent = NetworkingAgent::new("Nia".to_string(), None);
    agent.configure_vpn(tunnel("a", VPNStatus::Connecting)).unwrap();
    agent.configure_vpn(tunnel("b", VPNStatus::Connected)).unwrap();
    agent.configure_vpn(tunnel("c", VPNStatus::Disconnected)).unwrap();
    agent.check_tunnels_with(&vec![9_800, 123]);
    let tunnels = &agent.network_topology.vpn_configs;
    assert_eq!(tunnels.len(), 3);
    assert_eq!(tunnels[0].status, VPNStatus::Failed);
    assert_eq!(tunnels[1].status, VPNStatus::Connected);
    // No draw was made for the third: it is as it was.
    assert_eq!(tunnels[2].status, VPNStatus::Disconnected);
    assert_eq!(tunnels[0].id, "a");
    assert_eq!(tunnels[0].name, "tunnel a");
    assert_eq!(tunnels[2].id, "c");
}

#[test]
fn monitoring_under_given_draws_is_determined() {
    let mut agent = NetworkingAgent::new("Nia".to_string(), None);
    let segment = SegmentConfig {
        name: "web-tier".to_string(),
        cidr: "10.0.1.0/24".to_string(),
        security_level: SecurityLevel::DMZ,
    };
    let first = agent.configure_segment_with(segment.clone(), 1);
    let second = agent.configure_segment_with(segment, 2);
    let draws = PerformanceDraws {
        segments: vec![
            SegmentDraws { inbound_raw: 3_000_007, outbound_raw: 999_999, total_raw: 5 },
            SegmentDraws { inbound_raw: 1, outbound_raw: 2, total_raw: 7_000_000_003 },
        ],
        average_raw: 19,
        min_raw: 4,
        max_raw: 50,
        p95_raw: 29,
        share_raw: 16,
        packets_raw: 9_000_001,
        lost_raw: 1_999,
        now: 1_234,
    };

    agent.monitor_performance_with(&draws).unwrap();

    let metrics = &agent.performance_metrics;
    assert_eq!(metrics.bandwidth_usage.len(), 2);
    let sample = metrics.bandwidth_usage.get(&first).unwrap();
    assert_eq!(sample.inbound_bps, 7);
    assert_eq!(sample.outbound_bps, 999_999);
    assert_eq!(sample.total_bytes, 5);
    let sample = metrics.bandwidth_usage.get(&second).unwrap();
    assert_eq!(sample.inbound_bps, 1);
    assert_eq!(sample.outbound_bps, 2);
    assert_eq!(sample.total_bytes, 3);
    assert_eq!(metrics.latency_stats.average_ms, 24);
    assert_eq!(metrics.latency_stats.min_ms, 9);
    assert_eq!(metrics.latency_stats.max_ms, 50);
    assert_eq!(metrics.latency_stats.p95_ms, 39);
    assert_eq!(metrics.packet_loss.percentage, 6);
    assert_eq!(metrics.packet_loss.total_packets, 1_000_001);
    assert_eq!(metrics.packet_loss.lost_packets, 999);
    assert_eq!(metrics.last_update, 1_234);
}

#[test]
fn one_segment_is_sampled_under_its_draws() {
    let mut agent = NetworkingAgent::new("Nia".to_string(), None);
    let segment = SegmentConfig {
        name: "db-tier".to_string(),
        cidr: "10.0.2.0/24".to_string(),
        security_level: SecurityLevel::Restricted,
    };
    let first = agent.configure_segment_with(segment.clone(), 1);
    let second = agent.configure_segment_with(segment, 2);
    agent.sample_bandwidth_with(
        1,
        SegmentDraws { inbound_raw: 1_000_000, outbound_raw: 1_000_001, total_raw: 999_999_999 },
    );
    assert_eq!(agent.performance_metrics.bandwidth_usage.len(), 1);
    assert!(agent.performance_metrics.bandwidth_usage.get(&first).is_none());
    let sample = agent.performance_metrics.bandwidth_usage.get(&second).unwrap();
    assert_eq!(sample.inbound_bps, 0);
    assert_eq!(sample.outbound_bps, 1);
    assert_eq!(sample.total_bytes, 999_999_999);
    // A second sample replaces the first.
    agent.sample_bandwidth_with(1, SegmentDraws { inbound_raw: 5, outbound_raw: 6, total_raw: 7 });
    assert_eq!(agent.performance_metrics.bandwidth_usage.len(), 1);
    assert_eq!(agent.performance_metrics.bandwidth_usage.get(&second).unwrap().inbound_bps, 5);
    // There is no third segment.
    agent.sample_bandwidth_with(2, SegmentDraws { inbound_raw: 8, outbound_raw: 8, total_raw: 8 });
    assert_eq!(agent.performance_metrics.bandwidth_usage.len(), 1);
    assert_eq!(agent.performance_metrics.bandwidth_usage.get(&second).unwrap().inbound_bps, 5);
}
