use ai_company::agents::AgentTrait;
use ai_company::agents::Department;
use ai_company::communication::Message;
use ai_company::communication::MessagePriority;
use ai_company::departments::ops::ChangeRequest;
use ai_company::departments::ops::ChangeStatus;
use ai_company::departments::ops::ChangeType;
use ai_company::departments::ops::IncidentReport;
use ai_company::departments::ops::IncidentStatus;
use ai_company::departments::ops::IncidentUpdate;
use ai_company::departments::ops::MaintenanceTask;
use ai_company::departments::ops::MaintenanceType;
use ai_company::departments::ops::MeasureDraws;
use ai_company::departments::ops::OpsAgent;
use ai_company::departments::ops::OpsError;
use ai_company::departments::ops::percent_string;
use ai_company::departments::ops::Priority;
use ai_company::departments::ops::Response;
use ai_company::departments::ops::RiskLevel;
use ai_company::departments::ops::Severity;
use ai_company::departments::ops::SLA;
use ai_company::departments::ops::TicketRequest;
use ai_company::departments::ops::TicketStatus;
use ai_company::table::Table;

fn ops_note(kind: &str, content: &str, parameters: &[(&str, &str)]) -> Message {
    let mut metadata: Table<String, String> = Table::new();
    for (key, value) in parameters {
        metadata.insert(key.to_string(), value.to_string());
    }
    Message {
        id: 1,
        from_agent: 0,
        to_agent: 2,
        message_type: kind.to_string(),
        content: content.to_string(),
        priority: MessagePriority::Normal,
        timestamp: 0,
        metadata,
    }
}

fn change(id: u128, title: &str, status: ChangeStatus) -> ChangeRequest {
    ChangeRequest {
        id,
        title: title.to_string(),
        description: "description".to_string(),
        change_type: ChangeType::Normal,
        risk_level: RiskLevel::Low,
        impact: "none".to_string(),
        rollback_plan: "revert".to_string(),
        scheduled_time: 0,
        status,
        requester: 1,
        approver: None,
    }
}

fn report(title: &str, severity: Severity) -> IncidentReport {
    IncidentReport {
        title: title.to_string(),
        description: "description".to_string(),
        severity,
        affected_services: vec!["web-service".to_string()],
    }
}

#[test]
fn test_ops_agent_creation() {
    let agent = OpsAgent::new("Test Ops Agent".to_string(), None);
    assert_eq!(agent.agent.name, "Test Ops Agent");
    assert_eq!(agent.agent.department, Department::Ops);
    assert_eq!(agent.sysadmin_skill, 88);
    assert_eq!(agent.support_skill, 85);
}

#[test]
fn test_ticket_creation() {
    let mut agent = OpsAgent::new("Test Agent".to_string(), None);
    let ticket_request = TicketRequest {
        title: "Test Support Ticket".to_string(),
        description: "Test ticket description".to_string(),
        priority: Priority::Normal,
        customer_id: Some("customer123".to_string()),
        tags: vec!["test".to_string()],
    };

    let result = agent.create_ticket(ticket_request);
    assert!(result.is_ok());
    assert_eq!(agent.support_tickets.len(), 1);
}

#[test]
fn test_incident_declaration() {
    let mut agent = OpsAgent::new("Test Agent".to_string(), None);
    let incident_report = IncidentReport {
        title: "Test System Incident".to_string(),
        description: "Test incident description".to_string(),
        severity: Severity::Sev2,
        affected_services: vec!["web-service".to_string()],
    };

    let result = agent.declare_incident(incident_report);
    assert!(result.is_ok());
    assert_eq!(agent.incidents.len(), 1);
}

#[test]
fn test_sla_monitoring() {
    let mut agent = OpsAgent::new("Test Agent".to_string(), None);
    let result = agent.monitor_sla();
    assert!(result.is_ok());
    assert!(!agent.sla_tracking.compliance.is_empty());
}

#[test]
fn test_operations_report() {
    let agent = OpsAgent::new("Test Agent".to_string(), None);
    let result = agent.generate_report();
    assert!(result.is_ok());

    let report = result.unwrap();
    assert!(report.generated_at <= chrono::Utc::now().timestamp());
}

#[test]
fn new_ops_agent_tracks_the_web_service() {
    let agent = OpsAgent::new("Opal".to_string(), Some(4));
    assert_eq!(agent.incident_skill, 90);
    assert_eq!(agent.agent.manager_id, Some(4));
    assert!(agent.support_tickets.is_empty());
    assert!(agent.incidents.is_empty());
    assert!(agent.change_queue.is_empty());
    assert_eq!(agent.sla_tracking.slas.len(), 1);
    assert_eq!(agent.sla_tracking.slas.entries[0].key, "web-service");
    let sla = &agent.sla_tracking.slas.entries[0].value;
    assert_eq!(sla.service_name, "web-service");
    assert_eq!(sla.uptime_target, 9_990);
    assert_eq!(sla.response_time_target, 500);
    assert_eq!(sla.resolution_time_target, 4);
    assert_eq!(sla.measurement_period, "monthly");
    assert!(agent.sla_tracking.compliance.is_empty());
    assert!(agent.sla_tracking.violations.is_empty());
}

#[test]
fn ticket_from_message_is_routed_to_the_handling_agent() {
    let mut agent = OpsAgent::new("Opal".to_string(), None);
    let mut message = ops_note("create_ticket", "Printer is on fire", &[("priority", "Normal")]);
    message.priority = MessagePriority::Normal;
    agent.process_message(message).unwrap();
    assert_eq!(agent.support_tickets.len(), 1);
    let ticket = &agent.support_tickets.entries[0].value;
    assert_eq!(ticket.status, TicketStatus::InProgress);
    assert_eq!(ticket.assigned_to, Some(agent.agent.id));
    assert_eq!(ticket.title, "Support Request");
    assert_eq!(ticket.description, "Printer is on fire");
    assert_eq!(ticket.priority, Priority::Normal);
    assert_eq!(ticket.customer_id, None);
    assert_eq!(ticket.resolution, None);
    assert!(ticket.tags.is_empty());
    assert_eq!(agent.support_tickets.entries[0].key, ticket.id);
}

#[test]
fn ticket_from_message_keeps_title_and_customer() {
    let mut agent = OpsAgent::new("Opal".to_string(), None);
    agent
        .process_message(ops_note(
            "create_ticket",
            "Slow site",
            &[("title", "Website Performance Issue"), ("customer_id", "cust-17")],
        ))
        .unwrap();
    let ticket = &agent.support_tickets.entries[0].value;
    assert_eq!(ticket.title, "Website Performance Issue");
    assert_eq!(ticket.customer_id, Some("cust-17".to_string()));
    assert_eq!(ticket.status, TicketStatus::InProgress);
}

#[test]
fn created_ticket_has_the_requested_fields() {
    let mut agent = OpsAgent::new("Opal".to_string(), None);
    let request = TicketRequest {
        title: "Reset password".to_string(),
        description: "Locked out".to_string(),
        priority: Priority::Urgent,
        customer_id: Some("cust-1".to_string()),
        tags: vec!["auth".to_string(), "vip".to_string()],
    };
    let id = agent.create_ticket_with(request, 31, 100, 101);
    assert_eq!(id, 31);
    let ticket = agent.support_tickets.get(&31).unwrap();
    assert_eq!(ticket.id, 31);
    assert_eq!(ticket.title, "Reset password");
    assert_eq!(ticket.description, "Locked out");
    assert_eq!(ticket.priority, Priority::Urgent);
    assert_eq!(ticket.status, TicketStatus::InProgress);
    assert_eq!(ticket.customer_id, Some("cust-1".to_string()));
    assert_eq!(ticket.assigned_to, Some(agent.agent.id));
    assert_eq!(ticket.created_at, 100);
    assert_eq!(ticket.updated_at, 101);
    assert_eq!(ticket.resolution, None);
    assert_eq!(ticket.tags, vec!["auth".to_string(), "vip".to_string()]);
}

#[test]
fn assignment_leaves_finished_and_unknown_tickets_alone() {
    let mut agent = OpsAgent::new("Opal".to_string(), None);
    let request = TicketRequest {
        title: "t".to_string(),
        description: "d".to_string(),
        priority: Priority::Low,
        customer_id: None,
        tags: vec![],
    };
    agent.create_ticket_with(request, 1, 0, 0);
    for status in [TicketStatus::Resolved, TicketStatus::Closed] {
        agent.support_tickets.entries[0].value.status = status;
        agent.support_tickets.entries[0].value.assigned_to = Some(9);
        agent.assign_ticket(1).unwrap();
        assert_eq!(agent.support_tickets.entries[0].value.status, status);
        assert_eq!(agent.support_tickets.entries[0].value.assigned_to, Some(9));
        assert!(status.is_terminal());
    }
    agent.support_tickets.entries[0].value.status = TicketStatus::PendingCustomer;
    assert!(!TicketStatus::PendingCustomer.is_terminal());
    agent.assign_ticket(1).unwrap();
    assert_eq!(agent.support_tickets.entries[0].value.status, TicketStatus::InProgress);
    assert_eq!(agent.support_tickets.entries[0].value.assigned_to, Some(agent.agent.id));
    assert!(agent.assign_ticket(2).is_ok());
    assert_eq!(agent.support_tickets.len(), 1);
}

#[test]
fn declared_incident_is_open() {
    let mut agent = OpsAgent::new("Opal".to_string(), None);
    let id = agent.declare_incident_with(report("Outage", Severity::Sev1), 8, 50);
    assert_eq!(id, 8);
    let incident = agent.incidents.get(&8).unwrap();
    assert_eq!(incident.id, 8);
    assert_eq!(incident.title, "Outage");
    assert_eq!(incident.severity, Severity::Sev1);
    assert_eq!(incident.status, IncidentStatus::Open);
    assert_eq!(incident.affected_services, vec!["web-service".to_string()]);
    assert_eq!(incident.root_cause, None);
    assert_eq!(incident.resolution, None);
    assert_eq!(incident.created_at, 50);
    assert_eq!(incident.resolved_at, None);
    assert_eq!(incident.assigned_team, None);
}

#[test]
fn incident_update_records_cause_and_resolution() {
    let mut agent = OpsAgent::new("Opal".to_string(), None);
    agent.declare_incident_with(report("Outage", Severity::Sev2), 8, 50);
    agent
        .update_incident_with(
            8,
            IncidentUpdate {
                status: IncidentStatus::Investigating,
                root_cause: Some("disk full".to_string()),
                resolution: None,
            },
            60,
        )
        .unwrap();
    let incident = agent.incidents.get(&8).unwrap();
    assert_eq!(incident.status, IncidentStatus::Investigating);
    assert_eq!(incident.root_cause, Some("disk full".to_string()));
    assert_eq!(incident.resolution, None);
    assert_eq!(incident.resolved_at, None);

    agent
        .update_incident_with(
            8,
            IncidentUpdate {
                status: IncidentStatus::Resolved,
                root_cause: None,
                resolution: Some("disk cleaned".to_string()),
            },
            70,
        )
        .unwrap();
    let incident = agent.incidents.get(&8).unwrap();
    assert_eq!(incident.status, IncidentStatus::Resolved);
    assert_eq!(incident.root_cause, Some("disk full".to_string()));
    assert_eq!(incident.resolution, Some("disk cleaned".to_string()));
    assert_eq!(incident.resolved_at, Some(70));
}

#[test]
fn finished_incident_keeps_its_status() {
    let mut agent = OpsAgent::new("Opal".to_string(), None);
    agent.declare_incident_with(report("Outage", Severity::Sev2), 8, 50);
    for terminal in [IncidentStatus::Resolved, IncidentStatus::Closed] {
        agent.incidents.entries[0].value.status = terminal;
        assert!(terminal.is_terminal());
        for next in [
            IncidentStatus::Open,
            IncidentStatus::Investigating,
            IncidentStatus::Mitigating,
            IncidentStatus::Resolved,
            IncidentStatus::PostMortem,
            IncidentStatus::Closed,
        ] {
            let result = agent.update_incident(
                8,
                IncidentUpdate { status: next, root_cause: None, resolution: None },
            );
            assert!(result.is_ok());
            assert_eq!(agent.incidents.entries[0].value.status, terminal);
        }
    }
    assert!(!IncidentStatus::PostMortem.is_terminal());
    assert!(!IncidentStatus::Mitigating.is_terminal());
}

#[test]
fn update_of_unknown_incident_is_an_error() {
    let mut agent = OpsAgent::new("Opal".to_string(), None);
    agent.declare_incident_with(report("Outage", Severity::Sev2), 8, 50);
    let result = agent.update_incident(
        9,
        IncidentUpdate { status: IncidentStatus::Closed, root_cause: None, resolution: None },
    );
    assert!(matches!(result, Err(OpsError::IncidentNotFound(9))));
    assert_eq!(agent.incidents.len(), 1);
    assert_eq!(agent.incidents.entries[0].value.status, IncidentStatus::Open);
}

#[test]
fn change_is_approved_by_its_approver() {
    let mut agent = OpsAgent::new("Opal".to_string(), None);
    let submitted = agent.submit_change_request(change(21, "Upgrade database", ChangeStatus::Draft));
    assert!(matches!(submitted, Ok(21)));
    assert_eq!(agent.change_queue.len(), 1);
    assert_eq!(agent.change_queue[0].status, ChangeStatus::Draft);

    let approved = agent.approve_change(21, 0xA);
    assert!(approved.is_ok());
    assert_eq!(agent.change_queue[0].status, ChangeStatus::Approved);
    assert_eq!(agent.change_queue[0].approver, Some(0xA));
    assert_eq!(agent.change_queue[0].title, "Upgrade database");
}

#[test]
fn approving_an_unknown_change_is_an_error_and_changes_nothing() {
    let mut agent = OpsAgent::new("Opal".to_string(), None);
    agent.submit_change_request(change(21, "Upgrade database", ChangeStatus::PendingApproval)).unwrap();
    agent.submit_change_request(change(22, "Rotate keys", ChangeStatus::Draft)).unwrap();
    let result = agent.approve_change(23, 0xA);
    assert!(matches!(result, Err(OpsError::ChangeNotFound(23))));
    assert_eq!(agent.change_queue.len(), 2);
    assert_eq!(agent.change_queue[0].status, ChangeStatus::PendingApproval);
    assert_eq!(agent.change_queue[0].approver, None);
    assert_eq!(agent.change_queue[1].status, ChangeStatus::Draft);
    assert_eq!(agent.change_queue[1].approver, None);
    assert_eq!(agent.find_change(22), Some(1));
    assert_eq!(agent.find_change(23), None);
}

#[test]
fn finished_change_is_not_approved_again() {
    let mut agent = OpsAgent::new("Opal".to_string(), None);
    agent.submit_change_request(change(1, "done", ChangeStatus::Completed)).unwrap();
    agent.submit_change_request(change(2, "dropped", ChangeStatus::Cancelled)).unwrap();
    agent.submit_change_request(change(3, "broken", ChangeStatus::Failed)).unwrap();
    assert!(agent.approve_change(1, 7).is_ok());
    assert!(agent.approve_change(2, 7).is_ok());
    assert!(agent.approve_change(3, 7).is_ok());
    assert_eq!(agent.change_queue[0].status, ChangeStatus::Completed);
    assert_eq!(agent.change_queue[0].approver, None);
    assert_eq!(agent.change_queue[1].status, ChangeStatus::Cancelled);
    assert_eq!(agent.change_queue[1].approver, None);
    assert_eq!(agent.change_queue[2].status, ChangeStatus::Approved);
    assert_eq!(agent.change_queue[2].approver, Some(7));
    assert!(ChangeStatus::Completed.is_terminal());
    assert!(ChangeStatus::Cancelled.is_terminal());
    assert!(!ChangeStatus::Failed.is_terminal());
}

#[test]
fn sla_measurement_stays_in_range_and_logs_violations() {
    let mut agent = OpsAgent::new("Opal".to_string(), None);
    let mut expected_violations = 0;
    for _ in 0..40 {
        agent.monitor_sla().unwrap();
        assert_eq!(agent.sla_tracking.compliance.len(), 1);
        assert_eq!(agent.sla_tracking.compliance.entries[0].key, "web-service");
        let value = agent.sla_tracking.compliance.entries[0].value;
        assert!((9_900..10_100).contains(&value));
        if value < 9_990 {
            expected_violations += 1;
            let violation = agent.sla_tracking.violations.last().unwrap();
            assert_eq!(violation.service, "web-service");
            assert_eq!(violation.violation_type, "Uptime Target");
            assert_eq!(
                violation.impact,
                format!("Uptime {}.{:02}% below target 99.90%", value / 100, value % 100)
            );
            assert_eq!(violation.resolution, None);
        }
        assert_eq!(agent.sla_tracking.violations.len(), expected_violations);
    }
}

#[test]
fn every_agreed_service_is_measured() {
    let mut agent = OpsAgent::new("Opal".to_string(), None);
    agent.sla_tracking.slas.insert(
        "api".to_string(),
        SLA {
            service_name: "api".to_string(),
            uptime_target: 10_100,
            response_time_target: 200,
            resolution_time_target: 2,
            measurement_period: "monthly".to_string(),
        },
    );
    agent.sla_tracking.slas.entries[0].value.uptime_target = 0;
    agent.monitor_sla().unwrap();
    assert_eq!(agent.sla_tracking.compliance.len(), 2);
    assert_eq!(agent.sla_tracking.compliance.entries[0].key, "web-service");
    assert_eq!(agent.sla_tracking.compliance.entries[1].key, "api");
    // A target of 101% is always missed, one of 0% never.
    assert_eq!(agent.sla_tracking.violations.len(), 1);
    assert_eq!(agent.sla_tracking.violations[0].service, "api");
    assert!(agent.sla_tracking.violations[0].impact.ends_with("% below target 101.00%"));
}

#[test]
fn severity_sets_the_speed_of_the_response() {
    assert_eq!(Severity::Sev1.respond(), Response::Immediate);
    assert_eq!(Severity::Sev2.respond(), Response::WithinTheHour);
    assert_eq!(Severity::Sev3.respond(), Response::Standard);
    assert_eq!(Severity::Sev4.respond(), Response::Standard);
}

#[test]
fn percentages_are_written_with_two_places() {
    assert_eq!(percent_string(9_990), "99.90");
    assert_eq!(percent_string(9_905), "99.05");
    assert_eq!(percent_string(10_000), "100.00");
    assert_eq!(percent_string(7), "0.07");
    assert_eq!(percent_string(0), "0.00");
    assert_eq!(percent_string(4_294_967_295), "42949672.95");
}

#[test]
fn maintenance_leaves_no_trace() {
    let mut agent = OpsAgent::new("Opal".to_string(), None);
    let task = MaintenanceTask {
        title: "Rotate logs".to_string(),
        task_type: MaintenanceType::LogRotation,
        scheduled_time: 0,
        estimated_duration: 30,
    };
    assert!(agent.perform_maintenance(task).is_ok());
    assert!(agent.support_tickets.is_empty());
    assert!(agent.incidents.is_empty());
    assert!(agent.sla_tracking.violations.is_empty());
}

#[test]
fn report_counts_tickets_incidents_and_approved_changes() {
    let mut agent = OpsAgent::new("Opal".to_string(), None);
    for id in 1..=3u128 {
        let request = TicketRequest {
            title: format!("ticket {}", id),
            description: "d".to_string(),
            priority: Priority::Normal,
            customer_id: None,
            tags: vec![],
        };
        agent.create_ticket_with(request, id, 0, 0);
    }
    agent.support_tickets.entries[1].value.status = TicketStatus::Open;
    agent.declare_incident_with(report("a", Severity::Sev1), 1, 0);
    agent.declare_incident_with(report("b", Severity::Sev3), 2, 0);
    agent.declare_incident_with(report("c", Severity::Sev1), 3, 0);
    agent.incidents.entries[2].value.status = IncidentStatus::Closed;
    agent.incidents.entries[1].value.status = IncidentStatus::Resolved;
    agent.submit_change_request(change(1, "first", ChangeStatus::Approved)).unwrap();
    agent.submit_change_request(change(2, "second", ChangeStatus::Draft)).unwrap();
    agent.submit_change_request(change(3, "third", ChangeStatus::Draft)).unwrap();
    agent.approve_change(3, 5).unwrap();
    agent.sla_tracking.compliance.insert("web-service".to_string(), 9_991);

    let report = agent.generate_report_with(900).unwrap();
    assert_eq!(report.generated_at, 900);
    assert_eq!(report.ticket_summary.total_tickets, 3);
    assert_eq!(report.ticket_summary.open_tickets, 1);
    assert_eq!(report.ticket_summary.resolved_today, 0);
    assert_eq!(report.ticket_summary.average_resolution_time, 252);
    assert_eq!(report.incident_summary.total_incidents, 3);
    assert_eq!(report.incident_summary.active_incidents, 2);
    assert_eq!(report.incident_summary.sev1_incidents, 2);
    assert_eq!(report.incident_summary.mttr, 150);
    assert_eq!(report.sla_compliance.len(), 1);
    assert_eq!(report.sla_compliance.entries[0].key, "web-service");
    assert_eq!(report.sla_compliance.entries[0].value, 9_991);
    assert_eq!(report.upcoming_changes, vec!["first".to_string(), "third".to_string()]);
}

#[test]
fn incident_from_message_has_severity_three() {
    let mut agent = OpsAgent::new("Opal".to_string(), None);
    agent
        .process_message(ops_note("declare_incident", "Queue is stuck", &[("severity", "Sev1")]))
        .unwrap();
    let incident = &agent.incidents.entries[0].value;
    assert_eq!(incident.title, "System Incident");
    assert_eq!(incident.description, "Queue is stuck");
    assert_eq!(incident.severity, Severity::Sev3);
    assert_eq!(incident.status, IncidentStatus::Open);
    assert_eq!(incident.affected_services, vec!["unknown".to_string()]);
}

#[test]
fn ops_daily_tasks_measure_and_leave_tickets_alone() {
    let mut agent = OpsAgent::new("Opal".to_string(), None);
    let request = TicketRequest {
        title: "old".to_string(),
        description: "d".to_string(),
        priority: Priority::Normal,
        customer_id: None,
        tags: vec![],
    };
    agent.create_ticket_with(request, 1, 0, 0);
    agent.support_tickets.entries[0].value.status = TicketStatus::Resolved;
    assert!(agent.can_run_daily_tasks());
    agent.perform_daily_tasks().unwrap();
    assert_eq!(agent.sla_tracking.compliance.len(), 1);
    assert_eq!(agent.support_tickets.entries[0].value.status, TicketStatus::Resolved);
    assert!(agent.can_accept(&ops_note("generate_report", "", &[])));
    agent.process_message(ops_note("maintenance_task", "", &[("title", "Patch")])).unwrap();
    agent.process_message(ops_note("generate_report", "", &[])).unwrap();
    agent.process_message(ops_note("something_else", "", &[])).unwrap();
    assert_eq!(agent.support_tickets.len(), 1);
    assert_eq!(agent.get_agent().department, Department::Ops);
}

#[test]
fn one_service_is_measured_under_its_draw() {
    let mut agent = OpsAgent::new("Opal".to_string(), None);
    // 9900 + 89 = 98.89%, under the target of 99.90%.
    agent.measure_service_with(0, 289, 77);
    assert_eq!(agent.sla_tracking.compliance.len(), 1);
    assert_eq!(agent.sla_tracking.compliance.entries[0].key, "web-service");
    assert_eq!(agent.sla_tracking.compliance.entries[0].value, 9_989);
    assert_eq!(agent.sla_tracking.violations.len(), 1);
    let violation = &agent.sla_tracking.violations[0];
    assert_eq!(violation.service, "web-service");
    assert_eq!(violation.violation_type, "Uptime Target");
    assert_eq!(violation.timestamp, 77);
    assert_eq!(violation.impact, "Uptime 99.89% below target 99.90%");
    assert_eq!(violation.resolution, None);

    // 99.90% meets the target: the measurement is replaced, nothing is logged.
    agent.measure_service_with(0, 90, 78);
    assert_eq!(agent.sla_tracking.compliance.len(), 1);
    assert_eq!(agent.sla_tracking.compliance.entries[0].value, 9_990);
    assert_eq!(agent.sla_tracking.violations.len(), 1);

    // No second service is agreed.
    agent.measure_service_with(1, 0, 79);
    assert_eq!(agent.sla_tracking.compliance.len(), 1);
    assert_eq!(agent.sla_tracking.compliance.entries[0].value, 9_990);
    assert_eq!(agent.sla_tracking.violations.len(), 1);
}

#[test]
fn services_are_measured_under_their_draws_in_order() {
    let mut agent = OpsAgent::new("Opal".to_string(), None);
    let mut second = agent.sla_tracking.slas.entries[0].value.clone();
    second.uptime_target = 10_050;
    agent.sla_tracking.slas.insert("api".to_string(), second);
    let draws = vec![
        MeasureDraws { raw: 199, now: 1 },
        MeasureDraws { raw: 49, now: 2 },
        MeasureDraws { raw: 0, now: 3 },
    ];

    agent.monitor_sla_with(&draws).unwrap();

    let tracking = &agent.sla_tracking;
    assert_eq!(tracking.compliance.len(), 2);
    assert_eq!(*tracking.compliance.get(&"web-service".to_string()).unwrap(), 10_099);
    assert_eq!(*tracking.compliance.get(&"api".to_string()).unwrap(), 9_949);
    assert_eq!(tracking.violations.len(), 1);
    assert_eq!(tracking.violations[0].service, "api");
    assert_eq!(tracking.violations[0].timestamp, 2);
    assert_eq!(tracking.violations[0].impact, "Uptime 99.49% below target 100.50%");

    // With one draw only the first service is measured again.
    agent.monitor_sla_with(&vec![MeasureDraws { raw: 0, now: 4 }]).unwrap();
    let tracking = &agent.sla_tracking;
    assert_eq!(*tracking.compliance.get(&"web-service".to_string()).unwrap(), 9_900);
    assert_eq!(*tracking.compliance.get(&"api".to_string()).unwrap(), 9_949);
    assert_eq!(tracking.violations.len(), 2);
    assert_eq!(tracking.violations[1].service, "web-service");
}
