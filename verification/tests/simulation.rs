use ai_company::agents::Agent;
use ai_company::agents::AgentError;
use ai_company::agents::AgentTrait;
use ai_company::agents::Department;
use ai_company::communication::DeliveryError;
use ai_company::communication::Message;
use ai_company::communication::MessagePriority;
use ai_company::departments::ops::TicketStatus;
use ai_company::simulation::ActivitySignal;
use ai_company::simulation::AgentDraws;
use ai_company::simulation::chance_of_activity;
use ai_company::simulation::choose_event;
use ai_company::simulation::CompanyEvent;
use ai_company::simulation::CompanySimulation;
use ai_company::simulation::Delivery;
use ai_company::simulation::DepartmentAgent;
use ai_company::simulation::EventDraws;
use ai_company::simulation::ExchangeDraws;
use ai_company::simulation::Move;
use ai_company::simulation::SimulationConfig;
use ai_company::simulation::StepDraws;
use ai_company::table::Table;

fn draws() -> EventDraws {
    EventDraws {
        project_id: 0xa1a2a3a4b1b2c1c2d1d2d3d4d5d6d7d8,
        customer_raw: (7u64 << 32) + 42,
        first_id: 101,
        first_at: 1_000,
        second_id: 102,
        second_at: 1_001,
    }
}

fn first_id_of(simulation: &CompanySimulation, department: Department) -> u128 {
    let at = simulation.find_department(department).unwrap();
    simulation.agents.entries[at].value.get_agent().id
}

fn parameters(message: &Message) -> Vec<(String, String)> {
    message.metadata.entries.iter().map(|e| (e.key.clone(), e.value.clone())).collect()
}

#[test]
fn test_simulation_initialization() {
    let simulation = CompanySimulation::new();
    assert!(simulation.is_ok());

    let sim = simulation.unwrap();
    assert!(!sim.agents.is_empty());
    assert!(sim.agents.len() >= 10); // At least managers + department agents
}

#[test]
fn test_department_creation() {
    let simulation = CompanySimulation::new().unwrap();

    // Check that we have agents from all departments
    let mut departments_found = std::collections::HashSet::new();
    for agent in simulation.agents.entries.iter() {
        departments_found.insert(agent.value.get_agent().department.as_str());
    }

    assert!(departments_found.contains("DevOps"));
    assert!(departments_found.contains("InfoSec"));
    assert!(departments_found.contains("Networking"));
    assert!(departments_found.contains("Ops"));
}

#[test]
fn company_is_staffed_in_order() {
    let simulation = CompanySimulation::new().unwrap();
    let roster: Vec<(String, Department)> = simulation
        .agents
        .entries
        .iter()
        .map(|e| (e.value.get_agent().name.clone(), e.value.get_agent().department))
        .collect();
    let expected: Vec<(String, Department)> = [
        ("Sarah Chen", Department::Engineering),
        ("Mike Rodriguez", Department::Sales),
        ("Jordan Smith", Department::DevOps),
        ("Alex Thompson", Department::InfoSec),
        ("Lisa Park", Department::Networking),
        ("David Wilson", Department::Ops),
        ("DevOps Agent 1", Department::DevOps),
        ("DevOps Agent 2", Department::DevOps),
        ("DevOps Agent 3", Department::DevOps),
        ("InfoSec Agent 1", Department::InfoSec),
        ("InfoSec Agent 2", Department::InfoSec),
        ("Networking Agent 1", Department::Networking),
        ("Networking Agent 2", Department::Networking),
        ("Ops Agent 1", Department::Ops),
        ("Ops Agent 2", Department::Ops),
        ("Ops Agent 3", Department::Ops),
    ]
    .iter()
    .map(|(name, department)| (name.to_string(), *department))
    .collect();
    assert_eq!(roster, expected);

    let devops_manager = simulation.agents.entries[2].value.get_agent().id;
    for entry in &simulation.agents.entries {
        let record = entry.value.get_agent();
        assert_eq!(entry.key, record.id);
        assert!(simulation.message_bus.is_registered(record.id));
        if record.name.starts_with("DevOps Agent") {
            assert_eq!(record.manager_id, Some(devops_manager));
        }
    }
    for manager in &simulation.agents.entries[0..6] {
        assert_eq!(manager.value.get_agent().manager_id, None);
    }
    assert!(matches!(simulation.agents.entries[0].value, DepartmentAgent::Other(_)));
    assert!(matches!(simulation.agents.entries[2].value, DepartmentAgent::DevOps(_)));
    assert!(matches!(simulation.agents.entries[3].value, DepartmentAgent::InfoSec(_)));
    assert!(matches!(simulation.agents.entries[4].value, DepartmentAgent::Networking(_)));
    assert!(matches!(simulation.agents.entries[5].value, DepartmentAgent::Ops(_)));
    assert_eq!(simulation.message_bus.pending(), 0);
    assert!(simulation.projects.is_empty());
    assert_eq!(simulation.config.speed_multiplier, 100);
    assert!(simulation.config.autonomous_mode);
    assert_eq!(simulation.config.working_hours, (9, 18));
    assert_eq!(simulation.config.max_steps, None);
}

#[test]
fn plan_follows_budget_hours_and_speed() {
    let mut config = SimulationConfig::default();
    assert!(config.is_valid());
    assert_eq!(config.plan(0, 9), Move::Work { pause_seconds: 60 });
    assert_eq!(config.plan(0, 17), Move::Work { pause_seconds: 60 });
    assert_eq!(config.plan(0, 18), Move::Rest { seconds: 300 });
    assert_eq!(config.plan(0, 8), Move::Rest { seconds: 300 });
    assert_eq!(config.plan(1_000_000, 0), Move::Rest { seconds: 300 });

    config.speed_multiplier = 150;
    assert_eq!(config.plan(0, 12), Move::Work { pause_seconds: 40 });
    config.speed_multiplier = 200;
    assert_eq!(config.plan(0, 12), Move::Work { pause_seconds: 30 });
    config.speed_multiplier = 7_000;
    assert_eq!(config.plan(0, 12), Move::Work { pause_seconds: 0 });
    config.speed_multiplier = 1;
    assert_eq!(config.plan(0, 12), Move::Work { pause_seconds: 6_000 });

    config.speed_multiplier = 100;
    config.max_steps = Some(3);
    assert_eq!(config.plan(0, 12), Move::Work { pause_seconds: 60 });
    assert_eq!(config.plan(1, 12), Move::Work { pause_seconds: 60 });
    assert_eq!(config.plan(2, 12), Move::Stop);
    assert_eq!(config.plan(2, 3), Move::Stop);
    assert_eq!(config.plan(1, 3), Move::Rest { seconds: 300 });

    config.max_steps = Some(1);
    assert_eq!(config.plan(0, 12), Move::Stop);
    config.max_steps = Some(0);
    assert_eq!(config.plan(0, 12), Move::Stop);
    config.max_steps = Some(u64::MAX);
    assert_eq!(config.plan(u64::MAX - 2, 12), Move::Work { pause_seconds: 60 });
    assert_eq!(config.plan(u64::MAX - 1, 12), Move::Stop);
    assert_eq!(config.plan(u64::MAX, 12), Move::Stop);
    config.max_steps = None;
    assert_eq!(config.plan(u64::MAX, 12), Move::Work { pause_seconds: 60 });

    config.speed_multiplier = 0;
    assert!(!config.is_valid());
    assert_eq!(config.plan(0, 12), Move::Work { pause_seconds: u64::MAX });
    config.speed_multiplier = 100;
    config.working_hours = (9, 24);
    assert!(!config.is_valid());
}

#[test]
fn events_follow_the_draw() {
    assert_eq!(choose_event(0), Some(CompanyEvent::NewProject));
    assert_eq!(choose_event(499), Some(CompanyEvent::NewProject));
    assert_eq!(choose_event(500), Some(CompanyEvent::SecurityIncident));
    assert_eq!(choose_event(799), Some(CompanyEvent::SecurityIncident));
    assert_eq!(choose_event(800), Some(CompanyEvent::InfrastructureIssue));
    assert_eq!(choose_event(1_199), Some(CompanyEvent::InfrastructureIssue));
    assert_eq!(choose_event(1_200), Some(CompanyEvent::CustomerRequest));
    assert_eq!(choose_event(1_799), Some(CompanyEvent::CustomerRequest));
    assert_eq!(choose_event(1_800), None);
    assert_eq!(choose_event(9_999), None);
    assert_eq!(choose_event(10_000), Some(CompanyEvent::NewProject));
    assert_eq!(chance_of_activity(Department::DevOps), 3_000);
    assert_eq!(chance_of_activity(Department::InfoSec), 2_000);
    assert_eq!(chance_of_activity(Department::Networking), 2_500);
    assert_eq!(chance_of_activity(Department::Ops), 4_000);
    assert_eq!(chance_of_activity(Department::Legal), 0);
}

#[test]
fn sending_to_an_unknown_recipient_changes_nothing() {
    let mut simulation = CompanySimulation::new().unwrap();
    let before: Vec<(u128, String)> = simulation
        .agents
        .entries
        .iter()
        .map(|e| (e.key, e.value.get_agent().name.clone()))
        .collect();
    let message = Message::note_to_self_with(12345, "create_ticket", "help", 1, 0);
    let result = simulation.send_message(message);
    assert!(matches!(
        result,
        Err(AgentError::Delivery(DeliveryError::UnknownRecipient(12345)))
    ));
    assert_eq!(simulation.message_bus.pending(), 0);
    assert_eq!(simulation.message_bus.directory.len(), 16);
    let after: Vec<(u128, String)> = simulation
        .agents
        .entries
        .iter()
        .map(|e| (e.key, e.value.get_agent().name.clone()))
        .collect();
    assert_eq!(before, after);
    match &simulation.agents.entries[13].value {
        DepartmentAgent::Ops(agent) => assert!(agent.support_tickets.is_empty()),
        _ => unreachable!(),
    }
}

#[test]
fn new_project_is_told_to_engineering_and_ops() {
    let mut simulation = CompanySimulation::new().unwrap();
    let result = simulation.generate_company_activities_with(0, draws());
    assert!(matches!(result, Ok(Some(CompanyEvent::NewProject))));
    assert_eq!(simulation.message_bus.pending(), 2);
    let engineering = first_id_of(&simulation, Department::Engineering);
    let ops = first_id_of(&simulation, Department::Ops);
    let first = &simulation.message_bus.queue[0];
    assert_eq!(first.id, 101);
    assert_eq!(first.from_agent, 0);
    assert_eq!(first.to_agent, engineering);
    assert_eq!(first.message_type, "project_assignment");
    assert_eq!(first.content, "Assigned to project a1a2a3a4b1b2c1c2d1d2d3d4d5d6d7d8");
    assert_eq!(first.priority, MessagePriority::Normal);
    assert_eq!(first.timestamp, 1_000);
    assert_eq!(
        parameters(first),
        vec![("project_id".to_string(), "a1a2a3a4-b1b2-c1c2-d1d2-d3d4d5d6d7d8".to_string())]
    );
    let second = &simulation.message_bus.queue[1];
    assert_eq!(second.id, 102);
    assert_eq!(second.to_agent, ops);
    assert_eq!(second.timestamp, 1_001);
    assert_eq!(second.message_type, "project_assignment");
}

#[test]
fn other_events_are_told_to_their_department() {
    let mut simulation = CompanySimulation::new().unwrap();
    assert!(matches!(
        simulation.generate_company_activities_with(500, draws()),
        Ok(Some(CompanyEvent::SecurityIncident))
    ));
    assert!(matches!(
        simulation.generate_company_activities_with(800, draws()),
        Ok(Some(CompanyEvent::InfrastructureIssue))
    ));
    assert!(matches!(
        simulation.generate_company_activities_with(1_200, draws()),
        Ok(Some(CompanyEvent::CustomerRequest))
    ));
    assert!(matches!(simulation.generate_company_activities_with(1_800, draws()), Ok(None)));
    assert_eq!(simulation.message_bus.pending(), 3);

    let incident = &simulation.message_bus.queue[0];
    assert_eq!(incident.to_agent, first_id_of(&simulation, Department::InfoSec));
    assert_eq!(incident.message_type, "declare_incident");
    assert_eq!(
        incident.content,
        "Security incident: Suspicious activity detected on customer portal"
    );
    assert_eq!(incident.priority, MessagePriority::High);
    assert_eq!(
        parameters(incident),
        vec![
            ("title".to_string(), "Security Incident - Suspicious Activity".to_string()),
            ("severity".to_string(), "Sev2".to_string()),
        ]
    );

    let issue = &simulation.message_bus.queue[1];
    assert_eq!(issue.to_agent, first_id_of(&simulation, Department::DevOps));
    assert_eq!(issue.message_type, "infrastructure_alert");
    assert_eq!(issue.content, "High CPU usage detected on web servers");
    assert_eq!(issue.priority, MessagePriority::High);
    assert!(issue.metadata.is_empty());

    let request = &simulation.message_bus.queue[2];
    assert_eq!(request.to_agent, first_id_of(&simulation, Department::Ops));
    assert_eq!(request.from_agent, 0);
    assert_eq!(request.message_type, "create_ticket");
    assert_eq!(request.content, "Customer reports website loading slowly");
    assert_eq!(request.priority, MessagePriority::Normal);
    assert_eq!(
        parameters(request),
        vec![
            ("title".to_string(), "Website Performance Issue".to_string()),
            ("priority".to_string(), "Normal".to_string()),
            ("customer_id".to_string(), "cust-42".to_string()),
        ]
    );
}

#[test]
fn event_for_a_department_without_agents_does_nothing() {
    let mut simulation = CompanySimulation::empty().unwrap();
    assert!(matches!(simulation.generate_company_activities_with(0, draws()), Ok(Some(_))));
    assert!(matches!(simulation.handle_security_incident(), Ok(())));
    assert!(matches!(simulation.handle_infrastructure_issue(), Ok(())));
    assert!(matches!(simulation.handle_customer_request(), Ok(())));
    assert!(matches!(simulation.assign_project_task(5, Department::Legal), Ok(())));
    assert_eq!(simulation.message_bus.pending(), 0);
    assert_eq!(simulation.find_department(Department::Ops), None);
}

#[test]
fn event_for_an_unlisted_agent_is_refused() {
    let mut simulation = CompanySimulation::empty().unwrap();
    let agent = DepartmentAgent::Other(Agent::with_id(
        77,
        "Lone".to_string(),
        Department::Engineering,
        None,
    ));
    simulation.agents.insert(77, agent);
    let result = simulation.assign_project_task_with(5, Department::Engineering, 1, 0);
    assert!(matches!(
        result,
        Err(AgentError::Delivery(DeliveryError::UnknownRecipient(77)))
    ));
    assert!(matches!(
        simulation.generate_company_activities_with(0, draws()),
        Err(AgentError::Delivery(DeliveryError::UnknownRecipient(77)))
    ));
    assert_eq!(simulation.message_bus.pending(), 0);
    assert_eq!(simulation.agents.len(), 1);
}

#[test]
fn customer_request_becomes_a_ticket_when_delivered() {
    let mut simulation = CompanySimulation::new().unwrap();
    simulation.handle_customer_request_with(99, 7, 70).unwrap();
    let ops = first_id_of(&simulation, Department::Ops);
    assert!(simulation.can_deliver_next());
    let delivery = simulation.deliver_next().unwrap();
    assert_eq!(delivery, Delivery::Handled(ops));
    assert_eq!(simulation.message_bus.pending(), 0);
    match &simulation.agents.entries[5].value {
        DepartmentAgent::Ops(agent) => {
            assert_eq!(agent.agent.id, ops);
            assert_eq!(agent.support_tickets.len(), 1);
            let ticket = &agent.support_tickets.entries[0].value;
            assert_eq!(ticket.title, "Website Performance Issue");
            assert_eq!(ticket.description, "Customer reports website loading slowly");
            assert_eq!(ticket.customer_id, Some("cust-99".to_string()));
            assert_eq!(ticket.status, TicketStatus::InProgress);
            assert_eq!(ticket.assigned_to, Some(ops));
        },
        _ => unreachable!(),
    }
    match &simulation.agents.entries[13].value {
        DepartmentAgent::Ops(agent) => assert!(agent.support_tickets.is_empty()),
        _ => unreachable!(),
    }
    assert_eq!(simulation.deliver_next().unwrap(), Delivery::Idle);
}

#[test]
fn messages_are_delivered_in_the_order_sent() {
    let mut simulation = CompanySimulation::new().unwrap();
    let ops = first_id_of(&simulation, Department::Ops);
    for n in 1..=3u128 {
        let mut message =
            Message::note_to_self_with(ops, "create_ticket", &format!("request {}", n), n, 0);
        message.from_agent = 0;
        simulation.send_message(message).unwrap();
    }
    for _ in 0..3 {
        assert_eq!(simulation.deliver_next().unwrap(), Delivery::Handled(ops));
    }
    match &simulation.agents.entries[5].value {
        DepartmentAgent::Ops(agent) => {
            let described: Vec<&str> = agent
                .support_tickets
                .entries
                .iter()
                .map(|e| e.value.description.as_str())
                .collect();
            assert_eq!(described, vec!["request 1", "request 2", "request 3"]);
        },
        _ => unreachable!(),
    }
}

#[test]
fn message_for_a_departed_agent_is_dropped() {
    let mut simulation = CompanySimulation::empty().unwrap();
    simulation.message_bus.register(5);
    simulation.send_message(Message::note_to_self_with(5, "health_check", "", 1, 0)).unwrap();
    assert_eq!(simulation.message_bus.pending(), 1);
    assert!(simulation.can_deliver_next());
    assert_eq!(simulation.deliver_next().unwrap(), Delivery::Dropped);
    assert_eq!(simulation.message_bus.pending(), 0);
}

#[test]
fn exchange_goes_between_two_different_agents() {
    let mut simulation = CompanySimulation::new().unwrap();
    assert!(matches!(simulation.process_messages_with(1_500, 0, 0, 0, 1, 0), Ok(false)));
    assert_eq!(simulation.message_bus.pending(), 0);

    // Sender 2 of 16 (DevOps manager); receiver draw 2 of the 15 others is agent 3.
    assert!(matches!(simulation.process_messages_with(1_499, 18, 17, 5, 9, 90), Ok(true)));
    let message = &simulation.message_bus.queue[0];
    assert_eq!(message.id, 9);
    assert_eq!(message.from_agent, simulation.agents.entries[2].value.get_agent().id);
    assert_eq!(message.to_agent, simulation.agents.entries[3].value.get_agent().id);
    assert_eq!(message.message_type, "collaboration_request");
    assert_eq!(message.content, "Automated collaboration request from DevOps department");
    assert_eq!(message.priority, MessagePriority::Normal);
    assert_eq!(message.timestamp, 90);
    assert!(message.metadata.is_empty());

    // Receiver draw 1 of the others stays agent 1, before the sender.
    assert!(matches!(simulation.process_messages_with(0, 2, 1, 0, 10, 0), Ok(true)));
    let message = &simulation.message_bus.queue[1];
    assert_eq!(message.to_agent, simulation.agents.entries[1].value.get_agent().id);
    assert_eq!(message.message_type, "status_update");
    assert_eq!(message.content, "Automated status update from DevOps department");

    for (kind, expected) in [(2u64, "issue_report"), (3, "resource_request")] {
        simulation.process_messages_with(0, 0, 0, kind, 11, 0).unwrap();
        let message = simulation.message_bus.queue.last().unwrap();
        assert_eq!(message.message_type, expected);
        assert_eq!(message.from_agent, simulation.agents.entries[0].value.get_agent().id);
        assert_eq!(message.to_agent, simulation.agents.entries[1].value.get_agent().id);
        assert!(message.content.ends_with("from Engineering department"));
    }

    for sender in 0..16u64 {
        for receiver in 0..15u64 {
            simulation.process_messages_with(0, sender, receiver, 0, 12, 0).unwrap();
            let message = simulation.message_bus.queue.last().unwrap();
            assert_ne!(message.from_agent, message.to_agent);
        }
    }
}

#[test]
fn exchange_needs_two_agents() {
    let mut simulation = CompanySimulation::empty().unwrap();
    assert!(matches!(simulation.process_messages_with(0, 0, 0, 0, 1, 0), Ok(false)));
    simulation.create_agent(Department::Ops, "Only", None).unwrap();
    assert!(matches!(simulation.process_messages_with(0, 0, 0, 0, 1, 0), Ok(false)));
    assert!(matches!(simulation.process_messages(), Ok(false)));
    assert_eq!(simulation.message_bus.pending(), 0);
}

#[test]
fn health_summary_counts_every_department() {
    let simulation = CompanySimulation::new().unwrap();
    assert!(matches!(simulation.monitor_system_health_with(1_000), Ok(None)));
    let summary = simulation.monitor_system_health_with(999).unwrap().unwrap();
    assert_eq!(summary.total_agents, 16);
    assert_eq!(summary.active_projects, 0);
    let counts: Vec<(Department, usize)> =
        summary.department_counts.iter().map(|c| (c.department, c.agents)).collect();
    assert_eq!(
        counts,
        vec![
            (Department::Engineering, 1),
            (Department::Sales, 1),
            (Department::DevOps, 4),
            (Department::InfoSec, 3),
            (Department::Networking, 3),
            (Department::Ops, 4),
            (Department::Marketing, 0),
            (Department::Finance, 0),
            (Department::HR, 0),
            (Department::Legal, 0),
        ]
    );
    assert_eq!(simulation.count_department(Department::Ops), 4);
}

#[test]
fn steps_keep_the_registry_and_only_queue_messages() {
    let mut simulation = CompanySimulation::new().unwrap();
    let ids: Vec<u128> = simulation.agents.entries.iter().map(|e| e.key).collect();
    let mut queued = 0;
    for _ in 0..25 {
        assert!(simulation.can_run_step());
        let report = simulation.run_simulation_step().unwrap();
        for signal in &report.signals {
            assert!(ids.contains(&signal.agent_id));
            assert!(chance_of_activity(signal.department) > 0);
        }
        assert!(report.signals.len() <= 14);
        if report.exchanged {
            queued += 1;
        }
        match report.event {
            Some(CompanyEvent::NewProject) => queued += 2,
            Some(_) => queued += 1,
            None => {},
        }
        if let Some(summary) = &report.health {
            assert_eq!(summary.total_agents, 16);
        }
        assert_eq!(simulation.message_bus.pending(), queued);
        let now: Vec<u128> = simulation.agents.entries.iter().map(|e| e.key).collect();
        assert_eq!(now, ids);
    }
    assert_eq!(simulation.deliver_pending().unwrap(), queued);
    assert_eq!(simulation.message_bus.pending(), 0);
    assert_eq!(simulation.deliver_pending().unwrap(), 0);
}

#[test]
fn draining_stops_at_a_message_that_cannot_be_taken() {
    let mut simulation = CompanySimulation::new().unwrap();
    let devops = first_id_of(&simulation, Department::DevOps);
    let mut first = Message::note_to_self_with(devops, "backup_request", "", 1, 0);
    first.from_agent = 0;
    let mut second = Message::note_to_self_with(devops, "backup_request", "", 2, 0);
    second.from_agent = 0;
    let mut third = Message::note_to_self_with(devops, "scale_request", "", 3, 0);
    third.from_agent = 0;
    simulation.send_message(first).unwrap();
    simulation.send_message(second).unwrap();
    simulation.send_message(third).unwrap();
    match &mut simulation.agents.entries[2].value {
        DepartmentAgent::DevOps(agent) => {
            agent.infrastructure_state.backups.total_backups = u32::MAX - 1;
        },
        _ => unreachable!(),
    }
    assert_eq!(simulation.deliver_pending().unwrap(), 1);
    assert_eq!(simulation.message_bus.pending(), 2);
    assert!(!simulation.can_deliver_next());
    assert!(!simulation.can_run_step());
    assert_eq!(simulation.message_bus.queue[0].id, 2);
    match &simulation.agents.entries[2].value {
        DepartmentAgent::DevOps(agent) => {
            assert_eq!(agent.infrastructure_state.backups.total_backups, u32::MAX);
        },
        _ => unreachable!(),
    }
}

#[test]
fn enrolling_under_a_used_identifier_replaces_the_agent() {
    let mut simulation = CompanySimulation::empty().unwrap();
    let first = Agent::with_id(3, "First".to_string(), Department::Sales, None);
    let second = Agent::with_id(3, "Second".to_string(), Department::Legal, Some(1));
    assert_eq!(simulation.enroll(DepartmentAgent::Other(first)), 3);
    assert_eq!(simulation.enroll(DepartmentAgent::Other(second)), 3);
    assert_eq!(simulation.agents.len(), 1);
    assert_eq!(simulation.message_bus.directory, vec![3]);
    assert_eq!(simulation.agents.entries[0].value.get_agent().name, "Second");
    let mut agent = simulation.agents.entries[0].value.clone();
    assert!(agent.can_run_daily_tasks());
    agent.perform_daily_tasks().unwrap();
    agent.process_message(Message::note_to_self_with(3, "anything", "", 1, 0)).unwrap();
    agent.get_agent_mut().name = "Third".to_string();
    assert_eq!(agent.get_agent().name, "Third");
}

#[test]
fn department_agents_are_numbered_from_one() {
    let mut simulation = CompanySimulation::empty().unwrap();
    let manager = simulation.create_agent(Department::Marketing, "Mara", None).unwrap();
    simulation.create_department_agents(Department::Marketing, manager, 11).unwrap();
    simulation.create_department_agents(Department::HR, manager, 0).unwrap();
    assert_eq!(simulation.agents.len(), 12);
    assert_eq!(simulation.agents.entries[1].value.get_agent().name, "Marketing Agent 1");
    assert_eq!(simulation.agents.entries[10].value.get_agent().name, "Marketing Agent 10");
    assert_eq!(simulation.agents.entries[11].value.get_agent().name, "Marketing Agent 11");
    assert_eq!(simulation.agents.entries[11].value.get_agent().manager_id, Some(manager));
    assert_eq!(simulation.agents.entries[11].value.get_agent().department, Department::Marketing);
}

fn quiet() -> AgentDraws {
    AgentDraws { activity_raw: 9_999, daily_raw: 9_999 }
}

#[test]
fn activities_follow_the_draws_of_each_agent() {
    let mut simulation = CompanySimulation::new().unwrap();
    let before = simulation.clone();
    let mut draws = vec![quiet(); 16];
    // Engineering shows no activity whatever is drawn.
    draws[0].activity_raw = 0;
    // The DevOps manager: under 3000 of 10000.
    draws[2].activity_raw = 2_999;
    // The InfoSec manager: 2000 is not under 2000.
    draws[3].activity_raw = 2_000;
    // The Networking manager: the draw counts modulo 10000.
    draws[4].activity_raw = 30_000 + 2_499;
    // The last Ops agent: under 4000.
    draws[15].activity_raw = 3_999;

    let signals = simulation.process_agent_activities_with(&draws).unwrap();

    let expected: Vec<ActivitySignal> = [2usize, 4, 15]
        .iter()
        .map(|at| ActivitySignal {
            agent_id: before.agents.entries[*at].key,
            department: before.agents.entries[*at].value.get_agent().department,
        })
        .collect();
    assert_eq!(signals.len(), 3);
    for (signal, wanted) in signals.iter().zip(expected.iter()) {
        assert_eq!(signal.agent_id, wanted.agent_id);
        assert_eq!(signal.department, wanted.department);
    }
    assert_eq!(signals[0].department, Department::DevOps);
    assert_eq!(signals[1].department, Department::Networking);
    assert_eq!(signals[2].department, Department::Ops);
    // No draw called for a daily round: nothing else happened.
    assert_eq!(simulation.message_bus.pending(), 0);
    for (now, then) in simulation.agents.entries.iter().zip(before.agents.entries.iter()) {
        assert_eq!(now.key, then.key);
        assert_eq!(now.value.get_agent().name, then.value.get_agent().name);
        if let DepartmentAgent::Ops(agent) = &now.value {
            assert!(agent.sla_tracking.compliance.is_empty());
            assert!(agent.sla_tracking.violations.is_empty());
        }
    }
}

#[test]
fn daily_round_is_run_where_its_draw_calls_for_it() {
    let mut simulation = CompanySimulation::new().unwrap();
    let mut draws = vec![quiet(); 16];
    // The Ops manager runs its round, which measures its one service.
    draws[5].daily_raw = 999;
    // 1000 is not under 1000: the last Ops agent does not.
    draws[15].daily_raw = 1_000;
    let signals = simulation.process_agent_activities_with(&draws).unwrap();
    assert!(signals.is_empty());
    match &simulation.agents.entries[5].value {
        DepartmentAgent::Ops(agent) => assert_eq!(agent.sla_tracking.compliance.len(), 1),
        _ => panic!("the sixth agent is the Ops manager"),
    }
    match &simulation.agents.entries[15].value {
        DepartmentAgent::Ops(agent) => assert!(agent.sla_tracking.compliance.is_empty()),
        _ => panic!("the last agent is an Ops agent"),
    }
}

#[test]
fn agents_without_a_draw_take_no_part() {
    let mut simulation = CompanySimulation::new().unwrap();
    let busy = AgentDraws { activity_raw: 0, daily_raw: 9_999 };
    let signals = simulation.process_agent_activities_with(&vec![busy; 3]).unwrap();
    // Of the first three agents only the DevOps manager can show activity.
    assert_eq!(signals.len(), 1);
    assert_eq!(signals[0].agent_id, simulation.agents.entries[2].key);
    assert!(simulation.process_agent_activities_with(&Vec::new()).unwrap().is_empty());
    // Draws beyond the registry are not used.
    let signals = simulation.process_agent_activities_with(&vec![busy; 40]).unwrap();
    assert_eq!(signals.len(), 14);
}

#[test]
fn step_under_given_draws_is_determined() {
    let mut simulation = CompanySimulation::new().unwrap();
    let mut agents = vec![quiet(); 16];
    agents[9].activity_raw = 1_999;
    let step = StepDraws {
        agents,
        exchange: ExchangeDraws {
            chance_raw: 1_499,
            sender_raw: 18,
            receiver_raw: 17,
            kind_raw: 5,
            id: 9,
            now: 90,
        },
        // Past the projects (500): a security incident.
        event_raw: 500,
        event: draws(),
        health_raw: 999,
    };

    let report = simulation.run_simulation_step_with(&step).unwrap();

    assert_eq!(report.signals.len(), 1);
    assert_eq!(report.signals[0].agent_id, simulation.agents.entries[9].key);
    assert_eq!(report.signals[0].department, Department::InfoSec);
    assert!(report.exchanged);
    assert_eq!(report.event, Some(CompanyEvent::SecurityIncident));
    let summary = report.health.unwrap();
    assert_eq!(summary.total_agents, 16);
    assert_eq!(summary.active_projects, 0);

    assert_eq!(simulation.message_bus.pending(), 2);
    let exchanged = &simulation.message_bus.queue[0];
    assert_eq!(exchanged.id, 9);
    assert_eq!(exchanged.timestamp, 90);
    assert_eq!(exchanged.message_type, "collaboration_request");
    assert_eq!(exchanged.from_agent, simulation.agents.entries[2].key);
    assert_eq!(exchanged.to_agent, simulation.agents.entries[3].key);
    let told = &simulation.message_bus.queue[1];
    assert_eq!(told.id, 101);
    assert_eq!(told.to_agent, first_id_of(&simulation, Department::InfoSec));
}

#[test]
fn step_in_which_nothing_is_drawn_changes_nothing() {
    let mut simulation = CompanySimulation::new().unwrap();
    let step = StepDraws {
        agents: vec![quiet(); 16],
        exchange: ExchangeDraws {
            chance_raw: 1_500,
            sender_raw: 0,
            receiver_raw: 0,
            kind_raw: 0,
            id: 1,
            now: 0,
        },
        event_raw: 9_999,
        event: draws(),
        health_raw: 1_000,
    };
    let report = simulation.run_simulation_step_with(&step).unwrap();
    assert!(report.signals.is_empty());
    assert!(!report.exchanged);
    assert_eq!(report.event, None);
    assert!(report.health.is_none());
    assert_eq!(simulation.message_bus.pending(), 0);
    assert!(simulation.projects.is_empty());
}
