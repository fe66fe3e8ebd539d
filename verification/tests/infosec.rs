use ai_company::agents::AgentTrait;
use ai_company::agents::Department;
use ai_company::communication::Message;
use ai_company::communication::MessagePriority;
use ai_company::departments::infosec::Announcement;
use ai_company::departments::infosec::ControlStatus;
use ai_company::departments::infosec::ControlType;
use ai_company::departments::infosec::count_severity;
use ai_company::departments::infosec::EventType;
use ai_company::departments::infosec::IncidentReport;
use ai_company::departments::infosec::IncidentStatus;
use ai_company::departments::infosec::InfoSecAgent;
use ai_company::departments::infosec::ScanResults;
use ai_company::departments::infosec::ScanStatus;
use ai_company::departments::infosec::score_posture;
use ai_company::departments::infosec::SecurityControl;
use ai_company::departments::infosec::Severity;
use ai_company::departments::infosec::Vulnerability;
use ai_company::table::Table;

fn finding(severity: Severity) -> Vulnerability {
    Vulnerability {
        id: "CVE-2024-1".to_string(),
        title: "finding".to_string(),
        severity,
        cvss_score: 50,
        description: "description".to_string(),
        affected_system: "system".to_string(),
        remediation: "patch".to_string(),
        discovered_at: 0,
    }
}

fn scan(severities: &[Severity]) -> ScanResults {
    let vulnerabilities: Vec<Vulnerability> = severities.iter().map(|s| finding(*s)).collect();
    ScanResults {
        target: "system".to_string(),
        scan_start: 0,
        scan_end: 1,
        vulnerabilities_found: vulnerabilities.len() as u32,
        vulnerabilities,
        scan_status: ScanStatus::Completed,
    }
}

fn security_note(kind: &str, content: &str, parameters: &[(&str, &str)]) -> Message {
    let mut metadata: Table<String, String> = Table::new();
    for (key, value) in parameters {
        metadata.insert(key.to_string(), value.to_string());
    }
    Message {
        id: 1,
        from_agent: 0,
        to_agent: 2,
        message_type: kind.to_string(),
        content: content.to_string(),
        priority: MessagePriority::High,
        timestamp: 0,
        metadata,
    }
}

#[test]
fn test_infosec_agent_creation() {
    let agent = InfoSecAgent::new("Test InfoSec Agent".to_string(), None);
    assert_eq!(agent.agent.name, "Test InfoSec Agent");
    assert_eq!(agent.agent.department, Department::InfoSec);
    assert_eq!(agent.security_skill, 95);
    assert_eq!(agent.threat_detection_skill, 90);
}

#[test]
fn test_vulnerability_scan() {
    let mut agent = InfoSecAgent::new("Test Agent".to_string(), None);
    let result = agent.perform_vulnerability_scan("test-system");
    assert!(result.is_ok());

    let scan_results = result.unwrap();
    assert_eq!(scan_results.target, "test-system");
    assert_eq!(scan_results.scan_status, ScanStatus::Completed);
}

#[test]
fn test_incident_handling() {
    let mut agent = InfoSecAgent::new("Test Agent".to_string(), None);
    let incident_report = IncidentReport {
        title: "Test Security Incident".to_string(),
        description: "Test incident description".to_string(),
        severity: Severity::High,
        affected_systems: vec!["web-server".to_string()],
    };

    let result = agent.handle_incident(incident_report);
    assert!(result.is_ok());
    assert_eq!(agent.active_incidents.len(), 1);
}

#[test]
fn test_compliance_audit() {
    let mut agent = InfoSecAgent::new("Test Agent".to_string(), None);
    let result = agent.perform_compliance_audit();
    assert!(result.is_ok());

    let audit_results = result.unwrap();
    assert!(audit_results.overall_compliance >= 0);
    assert!(audit_results.overall_compliance <= 100);
}

#[test]
fn new_infosec_agent_starts_with_the_default_posture() {
    let agent = InfoSecAgent::new("Eve".to_string(), Some(3));
    assert_eq!(agent.agent.manager_id, Some(3));
    assert_eq!(agent.incident_response_skill, 85);
    assert_eq!(agent.security_posture.overall_score, 85);
    assert_eq!(agent.security_posture.vulnerabilities.critical, 0);
    assert_eq!(agent.security_posture.vulnerabilities.high, 2);
    assert_eq!(agent.security_posture.vulnerabilities.medium, 5);
    assert_eq!(agent.security_posture.vulnerabilities.low, 12);
    assert_eq!(agent.security_posture.vulnerabilities.info, 25);
    assert!(agent.security_posture.active_controls.is_empty());
    assert!(agent.security_posture.recent_events.is_empty());
    assert!(agent.active_incidents.is_empty());
    assert_eq!(agent.compliance_status.gdpr_compliance, 85);
    assert_eq!(agent.compliance_status.soc2_compliance, 88);
    assert_eq!(agent.compliance_status.iso27001_compliance, 82);
    assert!(agent.compliance_status.open_issues.is_empty());
}

#[test]
fn posture_score_formula() {
    assert_eq!(score_posture(0, 0, 0), 100);
    assert_eq!(score_posture(1, 2, 3), 100 - (20 + 20 + 15));
    assert_eq!(score_posture(0, 0, 1), 95);
    assert_eq!(score_posture(0, 1, 0), 90);
    assert_eq!(score_posture(1, 0, 0), 80);
    assert_eq!(score_posture(4, 1, 1), 5);
    assert_eq!(score_posture(5, 0, 0), 0);
    assert_eq!(score_posture(4, 2, 0), 0);
    assert_eq!(score_posture(0, 0, 21), 0);
    assert_eq!(score_posture(usize::MAX, usize::MAX, usize::MAX), 0);
}

#[test]
fn posture_score_never_rises_with_the_counts() {
    for critical in 0..7usize {
        for high in 0..12usize {
            for medium in 0..22usize {
                let score = score_posture(critical, high, medium);
                assert!(score <= 100);
                assert!(score_posture(critical + 1, high, medium) <= score);
                assert!(score_posture(critical, high + 1, medium) <= score);
                assert!(score_posture(critical, high, medium + 1) <= score);
            }
        }
    }
}

#[test]
fn scan_with_zero_findings_gives_the_full_score() {
    let mut agent = InfoSecAgent::new("Eve".to_string(), None);
    let results = scan(&[]);
    assert_eq!(results.vulnerabilities_found, 0);
    agent.update_security_posture_with(&results, 500).unwrap();
    assert_eq!(agent.security_posture.overall_score, 100);
    assert_eq!(agent.security_posture.vulnerabilities.critical, 0);
    assert_eq!(agent.security_posture.vulnerabilities.high, 0);
    assert_eq!(agent.security_posture.vulnerabilities.medium, 0);
    assert_eq!(agent.security_posture.vulnerabilities.low, 0);
    assert_eq!(agent.security_posture.vulnerabilities.info, 0);
    assert_eq!(agent.security_posture.last_assessment, 500);
}

#[test]
fn posture_counts_are_overwritten_by_each_scan() {
    let mut agent = InfoSecAgent::new("Eve".to_string(), None);
    let results = scan(&[
        Severity::Critical,
        Severity::High,
        Severity::High,
        Severity::Medium,
        Severity::Low,
        Severity::Info,
        Severity::Info,
    ]);
    assert_eq!(count_severity(&results.vulnerabilities, Severity::High), 2);
    assert_eq!(count_severity(&results.vulnerabilities, Severity::Info), 2);
    agent.update_security_posture(&results).unwrap();
    assert_eq!(agent.security_posture.vulnerabilities.critical, 1);
    assert_eq!(agent.security_posture.vulnerabilities.high, 2);
    assert_eq!(agent.security_posture.vulnerabilities.medium, 1);
    assert_eq!(agent.security_posture.vulnerabilities.low, 1);
    assert_eq!(agent.security_posture.vulnerabilities.info, 2);
    assert_eq!(agent.security_posture.overall_score, 100 - (20 + 20 + 5));
    agent.update_security_posture(&scan(&[Severity::Low])).unwrap();
    assert_eq!(agent.security_posture.vulnerabilities.critical, 0);
    assert_eq!(agent.security_posture.vulnerabilities.low, 1);
    assert_eq!(agent.security_posture.overall_score, 100);
}

#[test]
fn synthetic_scan_reports_one_medium_finding() {
    let mut agent = InfoSecAgent::new("Eve".to_string(), None);
    let incident_count = agent.active_incidents.len();
    let results = agent.perform_vulnerability_scan_with("db-01", 1_230_042, 1, 2, 3, 4).unwrap();
    assert_eq!(results.target, "db-01");
    assert_eq!(results.scan_start, 2);
    assert_eq!(results.scan_end, 3);
    assert_eq!(results.vulnerabilities_found, 1);
    assert_eq!(results.vulnerabilities.len(), 1);
    assert_eq!(results.scan_status, ScanStatus::Completed);
    let found = &results.vulnerabilities[0];
    assert_eq!(found.id, "CVE-2024-42");
    assert_eq!(found.title, "Sample Vulnerability");
    assert_eq!(found.severity, Severity::Medium);
    assert_eq!(found.cvss_score, 65);
    assert_eq!(found.description, "Sample vulnerability description");
    assert_eq!(found.affected_system, "db-01");
    assert_eq!(found.remediation, "Apply security patch");
    assert_eq!(found.discovered_at, 1);
    assert_eq!(agent.security_posture.overall_score, 95);
    assert_eq!(agent.security_posture.vulnerabilities.medium, 1);
    assert_eq!(agent.security_posture.vulnerabilities.high, 0);
    assert_eq!(agent.security_posture.last_assessment, 4);
    assert_eq!(agent.active_incidents.len(), incident_count);
}

#[test]
fn incident_is_opened_and_assigned_to_the_reporting_agent() {
    let mut agent = InfoSecAgent::new("Eve".to_string(), None);
    let report = IncidentReport {
        title: "Phishing".to_string(),
        description: "Mail with a forged sender".to_string(),
        severity: Severity::Critical,
        affected_systems: vec!["mail".to_string(), "web".to_string()],
    };
    let id = agent.handle_incident_with(report, 77, 10, 11);
    assert_eq!(id, 77);
    let incident = agent.active_incidents.get(&77).unwrap();
    assert_eq!(incident.id, 77);
    assert_eq!(incident.title, "Phishing");
    assert_eq!(incident.description, "Mail with a forged sender");
    assert_eq!(incident.severity, Severity::Critical);
    assert_eq!(incident.status, IncidentStatus::Open);
    assert_eq!(incident.assigned_to, Some(agent.agent.id));
    assert_eq!(incident.created_at, 10);
    assert_eq!(incident.updated_at, 11);
    assert_eq!(incident.resolution_steps, vec!["Initial assessment".to_string()]);
    assert_eq!(incident.affected_systems, vec!["mail".to_string(), "web".to_string()]);
}

#[test]
fn required_controls_are_added_once() {
    let mut agent = InfoSecAgent::new("Eve".to_string(), None);
    agent.security_posture.active_controls.push(SecurityControl {
        id: "encryption".to_string(),
        name: "Custom encryption".to_string(),
        control_type: ControlType::Encryption,
        status: ControlStatus::Degraded,
        last_check: 1,
        effectiveness: 40,
    });
    agent.update_security_controls().unwrap();
    let controls: Vec<(&str, &str, ControlType, ControlStatus, u8)> = agent
        .security_posture
        .active_controls
        .iter()
        .map(|c| (c.id.as_str(), c.name.as_str(), c.control_type, c.status, c.effectiveness))
        .collect();
    assert_eq!(
        controls,
        vec![
            ("encryption", "Custom encryption", ControlType::Encryption, ControlStatus::Degraded, 40),
            (
                "access_control",
                "Multi-Factor Authentication",
                ControlType::AccessControl,
                ControlStatus::Active,
                85
            ),
            ("firewall", "Network Firewall", ControlType::NetworkSecurity, ControlStatus::Active, 85),
            (
                "monitoring",
                "Security Information and Event Management",
                ControlType::Monitoring,
                ControlStatus::Active,
                85
            ),
        ]
    );
    agent.update_security_controls().unwrap();
    assert_eq!(agent.security_posture.active_controls.len(), 4);
    assert!(agent.has_control("firewall"));
    assert!(!agent.has_control("antivirus"));
}

#[test]
fn audit_scores_follow_the_draws() {
    let mut agent = InfoSecAgent::new("Eve".to_string(), None);
    let results = agent.perform_compliance_audit_with(19, 14, 9, 100, 101).unwrap();
    assert_eq!(results.gdpr_compliance, 99);
    assert_eq!(results.soc2_compliance, 99);
    assert_eq!(results.iso27001_compliance, 99);
    assert_eq!(results.overall_compliance, 99);
    assert_eq!(results.audit_date, 101);
    assert!(results.issues_found.is_empty());
    assert_eq!(
        results.recommendations,
        vec![
            "Review access control policies".to_string(),
            "Update encryption standards".to_string(),
            "Enhance monitoring capabilities".to_string(),
        ]
    );
    assert_eq!(agent.compliance_status.gdpr_compliance, 99);
    assert_eq!(agent.compliance_status.last_audit, 100);

    let results = agent.perform_compliance_audit_with(20, 15, 10, 0, 0).unwrap();
    assert_eq!(results.gdpr_compliance, 80);
    assert_eq!(results.soc2_compliance, 85);
    assert_eq!(results.iso27001_compliance, 90);
    assert_eq!(results.overall_compliance, 85);

    let results = agent.perform_compliance_audit_with(1, 0, 0, 0, 0).unwrap();
    assert_eq!(results.overall_compliance, 85);
    assert_eq!(agent.compliance_status.soc2_compliance, 85);
    assert_eq!(agent.compliance_status.iso27001_compliance, 90);
}

#[test]
fn fresh_audit_scores_stay_in_their_ranges() {
    let mut agent = InfoSecAgent::new("Eve".to_string(), None);
    for _ in 0..50 {
        let results = agent.perform_compliance_audit().unwrap();
        assert!((80..100).contains(&results.gdpr_compliance));
        assert!((85..100).contains(&results.soc2_compliance));
        assert!((90..100).contains(&results.iso27001_compliance));
        assert!((85..100).contains(&results.overall_compliance));
    }
}

#[test]
fn threat_monitoring_detects_by_chance() {
    let mut agent = InfoSecAgent::new("Eve".to_string(), None);
    let nothing = agent.monitor_threats_with(1_000, 0, 0, 1, 0).unwrap();
    assert!(nothing.is_empty());
    assert!(agent.security_posture.recent_events.is_empty());

    let events = agent.monitor_threats_with(999, 1, 2_999, 5, 60).unwrap();
    assert_eq!(events.len(), 1);
    assert_eq!(events[0].id, 5);
    assert_eq!(events[0].event_type, EventType::UnauthorizedAccess);
    assert_eq!(events[0].severity, Severity::High);
    assert_eq!(events[0].description, "Detected unauthorizedaccess with high severity");
    assert_eq!(events[0].source, "threat_monitoring_system");
    assert_eq!(events[0].timestamp, 60);
    assert!(!events[0].resolved);
    assert_eq!(agent.security_posture.recent_events.len(), 1);
    assert_eq!(agent.security_posture.recent_events[0].id, 5);

    let kinds: Vec<(EventType, Severity)> = [(0u64, 999u64), (1, 1_000), (2, 3_000), (3, 6_000)]
        .iter()
        .map(|(kind, severity)| {
            let events = agent.monitor_threats_with(0, *kind, *severity, 6, 0).unwrap();
            (events[0].event_type, events[0].severity)
        })
        .collect();
    assert_eq!(
        kinds,
        vec![
            (EventType::SuspiciousActivity, Severity::Critical),
            (EventType::UnauthorizedAccess, Severity::High),
            (EventType::MalwareDetected, Severity::Medium),
            (EventType::SuspiciousActivity, Severity::Low),
        ]
    );
    assert_eq!(agent.security_posture.recent_events.len(), 5);
    assert_eq!(
        agent.security_posture.recent_events[4].description,
        "Detected suspiciousactivity with low severity"
    );
}

#[test]
fn only_critical_incidents_are_alerts() {
    assert_eq!(Severity::Critical.announce(), Announcement::Alert);
    for severity in [Severity::High, Severity::Medium, Severity::Low, Severity::Info] {
        assert_eq!(severity.announce(), Announcement::Entry);
    }
}

#[test]
fn lower_case_names() {
    assert_eq!(EventType::DDoSAttack.lower_str(), "ddosattack");
    assert_eq!(EventType::SystemCompromise.lower_str(), "systemcompromise");
    assert_eq!(Severity::Info.lower_str(), "info");
}

#[test]
fn incident_report_message_opens_a_high_severity_incident() {
    let mut agent = InfoSecAgent::new("Eve".to_string(), None);
    agent.process_message(security_note("incident_report", "Odd logins at night", &[])).unwrap();
    agent
        .process_message(security_note(
            "incident_report",
            "Port scan",
            &[("title", "Scan from outside")],
        ))
        .unwrap();
    assert_eq!(agent.active_incidents.len(), 2);
    let first = &agent.active_incidents.entries[0].value;
    assert_eq!(first.title, "Security Incident");
    assert_eq!(first.description, "Odd logins at night");
    assert_eq!(first.severity, Severity::High);
    assert_eq!(first.status, IncidentStatus::Open);
    assert_eq!(first.assigned_to, Some(agent.agent.id));
    assert_eq!(first.affected_systems, vec!["unknown".to_string()]);
    assert_eq!(agent.active_incidents.entries[1].value.title, "Scan from outside");
}

#[test]
fn scan_message_needs_a_target() {
    let mut agent = InfoSecAgent::new("Eve".to_string(), None);
    agent.process_message(security_note("vulnerability_scan", "", &[])).unwrap();
    assert_eq!(agent.security_posture.overall_score, 85);
    agent
        .process_message(security_note("vulnerability_scan", "", &[("target", "web-01")]))
        .unwrap();
    assert_eq!(agent.security_posture.overall_score, 95);
    assert!(agent.active_incidents.is_empty());
}

#[test]
fn ops_kind_is_unknown_to_infosec() {
    let mut agent = InfoSecAgent::new("Eve".to_string(), None);
    let message = security_note("declare_incident", "Suspicious activity", &[("severity", "Sev2")]);
    assert!(agent.can_accept(&message));
    agent.process_message(message).unwrap();
    assert!(agent.active_incidents.is_empty());
    assert_eq!(agent.security_posture.overall_score, 85);
}

#[test]
fn infosec_daily_tasks_leave_the_posture_unscanned() {
    let mut agent = InfoSecAgent::new("Eve".to_string(), None);
    assert!(agent.can_run_daily_tasks());
    agent.perform_daily_tasks().unwrap();
    // The daily scan names no target, so the score is not recomputed.
    assert_eq!(agent.security_posture.overall_score, 85);
    assert_eq!(agent.security_posture.active_controls.len(), 4);
    assert!((80..100).contains(&agent.compliance_status.gdpr_compliance));
    assert!(agent.security_posture.recent_events.len() <= 1);
    assert!(agent.active_incidents.is_empty());
    assert_eq!(agent.get_agent().department, Department::InfoSec);
}
