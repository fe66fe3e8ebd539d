//! Operations: support tickets, system incidents, change requests, service
//! levels, reports.
//!
//! Percentages are held in parts of `FULL_SCALE` (`9_990` is 99.9%), durations
//! of the report in minutes.

use crate::agents::Agent;
use crate::agents::AgentError;
use crate::agents::AgentTrait;
use crate::agents::Department;
use crate::chance::draw;
use crate::chance::sample;
use crate::chance::spread;
use crate::clock::now;
use crate::communication::is_note_to_self;
use crate::communication::parameter;
use crate::communication::parameter_or;
use crate::communication::Message;
use crate::counts::wrap;
use crate::counts::wrapped;
use crate::ids::fresh_id;
use crate::ids::NIL_ID;
use crate::table::bound;
use crate::table::distinct_keys;
use crate::table::lemma_placed_keeps_distinct;
use crate::table::has_key;
use crate::table::kept;
use crate::table::lemma_placed_under_new_key;
use crate::table::landing;
use crate::table::lemma_placed_has_key;
use crate::table::placed;
use crate::table::slot_of;
use crate::table::Entry;
use crate::table::Table;
use crate::text::digits;
use crate::text::lemma_digits_len;
use crate::text::padded;
use crate::text::reads;
use crate::text::texts;
use crate::text::unsigned_string;
use vstd::prelude::*;
use vstd::string::StringExecFns;

verus! {

/// The lowest compliance that a measurement can show.
pub const COMPLIANCE_FLOOR: u32 = 9_900;

/// The width of the range in which a measurement falls.
pub const COMPLIANCE_SPAN: u32 = 200;

/// How urgent a ticket is.
#[derive(Clone, Copy, Debug, PartialEq, Eq, Structural)]
pub enum Priority {
    Low,
    Normal,
    High,
    Urgent,
    Critical,
}

/// Where a support ticket stands. `Resolved` and `Closed` end it.
#[derive(Clone, Copy, Debug, PartialEq, Eq, Structural)]
pub enum TicketStatus {
    Open,
    InProgress,
    PendingCustomer,
    Resolved,
    Closed,
}

/// How grave a system incident is, from `Sev1` (service down) to `Sev4`
/// (cosmetic).
#[derive(Clone, Copy, Debug, PartialEq, Eq, Structural)]
pub enum Severity {
    Sev1,
    Sev2,
    Sev3,
    Sev4,
}

/// Where a system incident stands. `Resolved` and `Closed` end it.
#[derive(Clone, Copy, Debug, PartialEq, Eq, Structural)]
pub enum IncidentStatus {
    Open,
    Investigating,
    Mitigating,
    Resolved,
    PostMortem,
    Closed,
}

/// The kind of a change.
#[derive(Clone, Copy, Debug, PartialEq, Eq, Structural)]
pub enum ChangeType {
    Standard,
    Normal,
    Emergency,
    Major,
}

/// The risk that a change carries.
#[derive(Clone, Copy, Debug, PartialEq, Eq, Structural)]
pub enum RiskLevel {
    Low,
    Medium,
    High,
    Critical,
}

/// Where a change request stands, from `Draft` over `PendingApproval`,
/// `Approved`, `Scheduled` and `InProgress` to `Completed`, `Failed` or
/// `Cancelled`. `Completed` and `Cancelled` end it.
#[derive(Clone, Copy, Debug, PartialEq, Eq, Structural)]
pub enum ChangeStatus {
    Draft,
    PendingApproval,
    Approved,
    Scheduled,
    InProgress,
    Completed,
    Failed,
    Cancelled,
}

/// The kind of a maintenance task.
#[derive(Clone, Copy, Debug, PartialEq, Eq, Structural)]
pub enum MaintenanceType {
    SecurityPatch,
    DatabaseOptimization,
    BackupVerification,
    LogRotation,
    SystemUpdate,
}

/// How fast an incident is responded to.
#[derive(Clone, Copy, Debug, PartialEq, Eq, Structural)]
pub enum Response {
    /// At once: the service is down.
    Immediate,
    /// Within one hour.
    WithinTheHour,
    /// In the standard time.
    Standard,
}

impl Severity {
    /// How fast an incident of this severity is responded to. The severity
    /// decides nothing else: an incident is stored the same way whatever its
    /// severity.
    pub open spec fn response(self) -> Response {
        match self {
            Severity::Sev1 => Response::Immediate,
            Severity::Sev2 => Response::WithinTheHour,
            _ => Response::Standard,
        }
    }

    /// How fast an incident of this severity is responded to.
    pub fn respond(&self) -> (r: Response)
        ensures
            r == self.response(),
    {
        match self {
            Severity::Sev1 => Response::Immediate,
            Severity::Sev2 => Response::WithinTheHour,
            _ => Response::Standard,
        }
    }
}

impl TicketStatus {
    /// A ticket that is resolved or closed has reached its end.
    pub open spec fn terminal(self) -> bool {
        self == TicketStatus::Resolved || self == TicketStatus::Closed
    }

    /// Whether the status is one that a ticket never leaves.
    pub fn is_terminal(&self) -> (b: bool)
        ensures
            b == self.terminal(),
    {
        match self {
            TicketStatus::Resolved => true,
            TicketStatus::Closed => true,
            _ => false,
        }
    }
}

impl IncidentStatus {
    /// An incident that is resolved or closed has reached its end.
    pub open spec fn terminal(self) -> bool {
        self == IncidentStatus::Resolved || self == IncidentStatus::Closed
    }

    /// Whether the status is one that an incident never leaves.
    pub fn is_terminal(&self) -> (b: bool)
        ensures
            b == self.terminal(),
    {
        match self {
            IncidentStatus::Resolved => true,
            IncidentStatus::Closed => true,
            _ => false,
        }
    }
}

impl ChangeStatus {
    /// A change that is completed or cancelled has reached its end.
    pub open spec fn terminal(self) -> bool {
        self == ChangeStatus::Completed || self == ChangeStatus::Cancelled
    }

    /// Whether the status is one that a change request never leaves.
    pub fn is_terminal(&self) -> (b: bool)
        ensures
            b == self.terminal(),
    {
        match self {
            ChangeStatus::Completed => true,
            ChangeStatus::Cancelled => true,
            _ => false,
        }
    }
}

/// A support ticket and who works on it.
#[derive(Clone, Debug)]
pub struct SupportTicket {
    pub id: u128,
    pub title: String,
    pub description: String,
    pub priority: Priority,
    pub status: TicketStatus,
    pub customer_id: Option<String>,
    pub assigned_to: Option<u128>,
    pub created_at: i64,
    pub updated_at: i64,
    pub resolution: Option<String>,
    pub tags: Vec<String>,
}

/// A system incident.
#[derive(Clone, Debug)]
pub struct Incident {
    pub id: u128,
    pub title: String,
    pub description: String,
    pub severity: Severity,
    pub status: IncidentStatus,
    pub affected_services: Vec<String>,
    pub root_cause: Option<String>,
    pub resolution: Option<String>,
    pub created_at: i64,
    pub resolved_at: Option<i64>,
    pub assigned_team: Option<String>,
}

/// What a service is held to.
#[derive(Clone, Debug)]
pub struct SLA {
    pub service_name: String,
    pub uptime_target: u32,
    pub response_time_target: u32,
    pub resolution_time_target: u32,
    pub measurement_period: String,
}

/// A record that a service fell under what it is held to.
#[derive(Clone, Debug)]
pub struct SLAViolation {
    pub service: String,
    pub violation_type: String,
    pub timestamp: i64,
    pub impact: String,
    pub resolution: Option<String>,
}

/// The service levels agreed, the compliance last measured for each service,
/// and the log of violations. The log only grows.
#[derive(Clone, Debug)]
pub struct SLATracking {
    pub slas: Table<String, SLA>,
    pub compliance: Table<String, u32>,
    pub violations: Vec<SLAViolation>,
}

/// A request for a change, and who approved it.
#[derive(Clone, Debug)]
pub struct ChangeRequest {
    pub id: u128,
    pub title: String,
    pub description: String,
    pub change_type: ChangeType,
    pub risk_level: RiskLevel,
    pub impact: String,
    pub rollback_plan: String,
    pub scheduled_time: i64,
    pub status: ChangeStatus,
    pub requester: u128,
    pub approver: Option<u128>,
}

/// What is known of a ticket when it is created.
#[derive(Clone, Debug)]
pub struct TicketRequest {
    pub title: String,
    pub description: String,
    pub priority: Priority,
    pub customer_id: Option<String>,
    pub tags: Vec<String>,
}

/// What is known of an incident when it is declared.
#[derive(Clone, Debug)]
pub struct IncidentReport {
    pub title: String,
    pub description: String,
    pub severity: Severity,
    pub affected_services: Vec<String>,
}

/// What to record of an incident: its next status, and a root cause and a
/// resolution where they are known.
#[derive(Clone, Debug)]
pub struct IncidentUpdate {
    pub status: IncidentStatus,
    pub root_cause: Option<String>,
    pub resolution: Option<String>,
}

/// A maintenance task; `estimated_duration` is in minutes.
#[derive(Clone, Debug)]
pub struct MaintenanceTask {
    pub title: String,
    pub task_type: MaintenanceType,
    pub scheduled_time: i64,
    pub estimated_duration: u32,
}

/// The tickets in numbers; `average_resolution_time` is in minutes.
#[derive(Clone, Copy, Debug, PartialEq, Eq, Structural)]
pub struct TicketSummary {
    pub total_tickets: u32,
    pub open_tickets: u32,
    pub resolved_today: u32,
    pub average_resolution_time: u32,
}

/// The incidents in numbers; `mttr`, the mean time to resolution, is in
/// minutes.
#[derive(Clone, Copy, Debug, PartialEq, Eq, Structural)]
pub struct IncidentSummary {
    pub total_incidents: u32,
    pub active_incidents: u32,
    pub sev1_incidents: u32,
    pub mttr: u32,
}

/// A report on the operations.
#[derive(Clone, Debug)]
pub struct OpsReport {
    pub generated_at: i64,
    pub ticket_summary: TicketSummary,
    pub incident_summary: IncidentSummary,
    pub sla_compliance: Table<String, u32>,
    pub upcoming_changes: Vec<String>,
}

/// Why an operation of the Operations department failed.
#[derive(Debug)]
pub enum OpsError {
    TicketNotFound(u128),
    IncidentNotFound(u128),
    ChangeNotFound(u128),
    SLACalculationError(String),
    MaintenanceFailed(String),
}

/// An agent of the Operations department.
#[derive(Clone, Debug)]
pub struct OpsAgent {
    pub agent: Agent,
    pub sysadmin_skill: u8,
    pub support_skill: u8,
    pub incident_skill: u8,
    pub support_tickets: Table<u128, SupportTicket>,
    pub incidents: Table<u128, Incident>,
    pub sla_tracking: SLATracking,
    pub change_queue: Vec<ChangeRequest>,
}

/// `tracking` is the tracking of a new agent: the web service held to 99.9%
/// uptime, nothing measured, nothing violated.
pub open spec fn is_initial_tracking(tracking: SLATracking) -> bool {
    &&& tracking.slas@.len() == 1
    &&& tracking.slas@[0].key@ == "web-service"@
    &&& tracking.slas@[0].value.service_name@ == "web-service"@
    &&& tracking.slas@[0].value.uptime_target == 9_990
    &&& tracking.slas@[0].value.response_time_target == 500
    &&& tracking.slas@[0].value.resolution_time_target == 4
    &&& tracking.slas@[0].value.measurement_period@ == "monthly"@
    &&& tracking.compliance@.len() == 0
    &&& tracking.violations@.len() == 0
}

impl Default for SLATracking {
    fn default() -> (tracking: Self)
        ensures
            is_initial_tracking(tracking),
    {
        let mut slas: Table<String, SLA> = Table::new();
        slas.insert(
            String::from_str("web-service"),
            SLA {
                service_name: String::from_str("web-service"),
                uptime_target: 9_990,
                response_time_target: 500,
                resolution_time_target: 4,
                measurement_period: String::from_str("monthly"),
            },
        );
        SLATracking { slas, compliance: Table::new(), violations: Vec::new() }
    }
}

/// `post` is the ticket `pre` after the routing assigned it to `agent_id`: a
/// ticket that has not reached its end is in progress with that agent, and one
/// that has stays as it is.
pub open spec fn ticket_assigned(pre: SupportTicket, agent_id: u128, post: SupportTicket) -> bool {
    if pre.status.terminal() {
        post == pre
    } else {
        post == (SupportTicket {
            assigned_to: Some(agent_id),
            status: TicketStatus::InProgress,
            ..pre
        })
    }
}

/// `ticket` is a ticket as creation leaves it, before it is assigned: open,
/// unassigned, unresolved.
pub open spec fn is_new_ticket(
    ticket: SupportTicket,
    title: Seq<char>,
    description: Seq<char>,
    priority: Priority,
    customer_id: Option<Seq<char>>,
    tags: Seq<Seq<char>>,
    id: u128,
    created: i64,
    updated: i64,
) -> bool {
    &&& ticket.id == id
    &&& ticket.title@ == title
    &&& ticket.description@ == description
    &&& ticket.priority == priority
    &&& ticket.status == TicketStatus::Open
    &&& match customer_id {
        Some(customer) => ticket.customer_id matches Some(c) && c@ == customer,
        None => ticket.customer_id is None,
    }
    &&& ticket.assigned_to is None
    &&& ticket.created_at == created
    &&& ticket.updated_at == updated
    &&& ticket.resolution is None
    &&& texts(ticket.tags@) == tags
}

/// `post` is `pre` with a ticket entered under `id`, and nothing else
/// changed.
pub open spec fn ticket_entered(pre: OpsAgent, id: u128, post: OpsAgent) -> bool {
    &&& placed(pre.support_tickets@, id, post.support_tickets@)
    &&& post == (OpsAgent { support_tickets: post.support_tickets, ..pre })
}

/// The ticket that `ticket_entered(pre, id, post)` speaks of.
pub open spec fn ticket_created(pre: OpsAgent, id: u128, post: OpsAgent) -> SupportTicket {
    post.support_tickets@[landing(pre.support_tickets@, id)].value
}

/// `ticket` is a ticket as `create_ticket` leaves it: created open and at
/// once assigned to the creating agent and in progress.
pub open spec fn is_routed_ticket(
    ticket: SupportTicket,
    title: Seq<char>,
    description: Seq<char>,
    priority: Priority,
    customer_id: Option<Seq<char>>,
    tags: Seq<Seq<char>>,
    agent_id: u128,
    id: u128,
    created: i64,
    updated: i64,
) -> bool {
    exists|fresh: SupportTicket|
        {
            &&& is_new_ticket(
                fresh,
                title,
                description,
                priority,
                customer_id,
                tags,
                id,
                created,
                updated,
            )
            &&& ticket_assigned(fresh, agent_id, ticket)
        }
}

/// The text of an optional string.
pub open spec fn optional_text(s: Option<String>) -> Option<Seq<char>> {
    match s {
        Some(text) => Some(text@),
        None => None,
    }
}

/// `post` is `pre` after a ticket of the given description was created.
pub open spec fn ticket_requested(
    pre: OpsAgent,
    title: Seq<char>,
    description: Seq<char>,
    priority: Priority,
    customer_id: Option<Seq<char>>,
    tags: Seq<Seq<char>>,
    post: OpsAgent,
) -> bool {
    exists|id: u128, created: i64, updated: i64|
        {
            &&& ticket_entered(pre, id, post)
            &&& is_routed_ticket(
                ticket_created(pre, id, post),
                title,
                description,
                priority,
                customer_id,
                tags,
                pre.agent.id,
                id,
                created,
                updated,
            )
        }
}

/// `incident` is an incident as declaration leaves it: open, with no cause,
/// resolution or team yet.
pub open spec fn is_new_incident(
    incident: Incident,
    title: Seq<char>,
    description: Seq<char>,
    severity: Severity,
    affected_services: Seq<Seq<char>>,
    id: u128,
    created: i64,
) -> bool {
    &&& incident.id == id
    &&& incident.title@ == title
    &&& incident.description@ == description
    &&& incident.severity == severity
    &&& incident.status == IncidentStatus::Open
    &&& texts(incident.affected_services@) == affected_services
    &&& incident.root_cause is None
    &&& incident.resolution is None
    &&& incident.created_at == created
    &&& incident.resolved_at is None
    &&& incident.assigned_team is None
}

/// `post` is `pre` with an incident entered under `id`, and nothing else
/// changed.
pub open spec fn incident_entered(pre: OpsAgent, id: u128, post: OpsAgent) -> bool {
    &&& placed(pre.incidents@, id, post.incidents@)
    &&& post == (OpsAgent { incidents: post.incidents, ..pre })
}

/// The incident that `incident_entered(pre, id, post)` speaks of.
pub open spec fn incident_declared(pre: OpsAgent, id: u128, post: OpsAgent) -> Incident {
    post.incidents@[landing(pre.incidents@, id)].value
}

/// `post` is `pre` after an incident of the given description was declared.
pub open spec fn incident_reported(
    pre: OpsAgent,
    title: Seq<char>,
    description: Seq<char>,
    severity: Severity,
    affected_services: Seq<Seq<char>>,
    post: OpsAgent,
) -> bool {
    exists|id: u128, created: i64|
        {
            &&& incident_entered(pre, id, post)
            &&& is_new_incident(
                incident_declared(pre, id, post),
                title,
                description,
                severity,
                affected_services,
                id,
                created,
            )
        }
}

/// `post` is the incident `pre` after `update` was recorded at `now`. The
/// status follows the update unless the incident has reached its end, in
/// which case it stays. A root cause or a resolution that the update brings
/// is recorded, and a resolution also sets the time of resolving.
pub open spec fn incident_updated(
    pre: Incident,
    update: IncidentUpdate,
    now: i64,
    post: Incident,
) -> bool {
    post == (Incident {
        status: if pre.status.terminal() {
            pre.status
        } else {
            update.status
        },
        root_cause: if update.root_cause is Some {
            update.root_cause
        } else {
            pre.root_cause
        },
        resolution: if update.resolution is Some {
            update.resolution
        } else {
            pre.resolution
        },
        resolved_at: if update.resolution is Some {
            Some(now)
        } else {
            pre.resolved_at
        },
        ..pre
    })
}

/// `post` is `pre` with the incident at position `at` replaced by `incident`,
/// and nothing else changed.
pub open spec fn incident_replaced(
    pre: OpsAgent,
    at: int,
    incident: Incident,
    post: OpsAgent,
) -> bool {
    &&& post.incidents@ == pre.incidents@.update(
        at,
        Entry { key: pre.incidents@[at].key, value: incident },
    )
    &&& post == (OpsAgent { incidents: post.incidents, ..pre })
}

/// `post` is `pre` with the ticket at position `at` replaced by `ticket`, and
/// nothing else changed.
pub open spec fn ticket_replaced(
    pre: OpsAgent,
    at: int,
    ticket: SupportTicket,
    post: OpsAgent,
) -> bool {
    &&& post.support_tickets@ == pre.support_tickets@.update(
        at,
        Entry { key: pre.support_tickets@[at].key, value: ticket },
    )
    &&& post == (OpsAgent { support_tickets: post.support_tickets, ..pre })
}

/// `i` is the position of the first change request in `queue` with the
/// identifier `id`.
pub open spec fn first_change(queue: Seq<ChangeRequest>, id: u128, i: int) -> bool {
    &&& 0 <= i < queue.len()
    &&& queue[i].id == id
    &&& forall|j: int| 0 <= j < i ==> (#[trigger] queue[j]).id != id
}

/// Some change request in `queue` has the identifier `id`.
pub open spec fn has_change(queue: Seq<ChangeRequest>, id: u128) -> bool {
    exists|i: int| 0 <= i < queue.len() && (#[trigger] queue[i]).id == id
}

/// `post` is the change request `pre` after `approver` approved it: approved
/// by that approver, unless the request has reached its end, in which case it
/// stays as it is.
pub open spec fn change_approved(pre: ChangeRequest, approver: u128, post: ChangeRequest) -> bool {
    if pre.status.terminal() {
        post == pre
    } else {
        post == (ChangeRequest { status: ChangeStatus::Approved, approver: Some(approver), ..pre })
    }
}

/// The text of a percentage held in parts of ten thousand, with two decimal
/// places.
pub open spec fn percent_text(value: u32) -> Seq<char> {
    digits((value / 100) as nat) + "."@ + padded((value % 100) as nat, 2)
}

/// The compliance that a raw draw stands for: between 99% and 101%.
pub open spec fn measured_compliance(raw: u64) -> u32 {
    (COMPLIANCE_FLOOR + spread(raw, COMPLIANCE_SPAN)) as u32
}

/// `violation` records that `service` fell to `value`, under its target, at
/// `now`.
pub open spec fn is_uptime_violation(
    violation: SLAViolation,
    service: Seq<char>,
    value: u32,
    target: u32,
    now: i64,
) -> bool {
    &&& violation.service@ == service
    &&& violation.violation_type@ == "Uptime Target"@
    &&& violation.timestamp == now
    &&& violation.impact@ == "Uptime "@ + percent_text(value) + "% below target "@ + percent_text(
        target,
    ) + "%"@
    &&& violation.resolution is None
}

/// `post` is the tracking `pre` after `service` was measured at `now` with
/// the raw draw against `target`: the value measured is the compliance now
/// held for the service, and where it lies under the target a violation joins
/// the end of the log.
pub open spec fn service_measured(
    pre: SLATracking,
    service: Seq<char>,
    target: u32,
    raw: u64,
    now: i64,
    post: SLATracking,
) -> bool {
    &&& post.slas == pre.slas
    &&& bound(pre.compliance@, service, measured_compliance(raw), post.compliance@)
    &&& if measured_compliance(raw) < target {
        &&& post.violations@.len() == pre.violations@.len() + 1
        &&& post.violations@.drop_last() == pre.violations@
        &&& is_uptime_violation(
            post.violations@.last(),
            service,
            measured_compliance(raw),
            target,
            now,
        )
    } else {
        post.violations == pre.violations
    }
}

/// What the measurement of one service needs from outside: the raw draw
/// that stands for the compliance, and the time of the measurement.
#[derive(Clone, Copy, Debug)]
pub struct MeasureDraws {
    pub raw: u64,
    pub now: i64,
}

/// `post` is the tracking `pre` after each of `services` was measured once,
/// in order, each under the draws made for it.
pub open spec fn measured_through_with(
    pre: SLATracking,
    services: Seq<Entry<String, SLA>>,
    draws: Seq<MeasureDraws>,
    post: SLATracking,
) -> bool
    decreases services.len(),
{
    if services.len() == 0 {
        post == pre && draws.len() == 0
    } else {
        &&& draws.len() == services.len()
        &&& exists|mid: SLATracking|
            {
                &&& measured_through_with(pre, services.drop_last(), draws.drop_last(), mid)
                &&& #[trigger] service_measured(
                    mid,
                    services.last().key@,
                    services.last().value.uptime_target,
                    draws.last().raw,
                    draws.last().now,
                    post,
                )
            }
    }
}

/// How many services are measured: as many as there are agreed levels and
/// draws for them.
pub open spec fn measured_for(services: Seq<Entry<String, SLA>>, draws: Seq<MeasureDraws>) -> int {
    if draws.len() < services.len() {
        draws.len() as int
    } else {
        services.len() as int
    }
}

/// `post` is `pre` after the services with an agreed level were measured
/// under the draws made for them, the services and the draws taken in order,
/// and nothing else changed. A service for which there is no draw is not
/// measured.
pub open spec fn sla_monitored_with(
    pre: OpsAgent,
    draws: Seq<MeasureDraws>,
    post: OpsAgent,
) -> bool {
    let part = measured_for(pre.sla_tracking.slas@, draws);
    &&& measured_through_with(
        pre.sla_tracking,
        pre.sla_tracking.slas@.take(part),
        draws.take(part),
        post.sla_tracking,
    )
    &&& post == (OpsAgent { sla_tracking: post.sla_tracking, ..pre })
}

/// `post` is the tracking `pre` after each of `services` was measured once,
/// in order.
pub open spec fn measured_through(
    pre: SLATracking,
    services: Seq<Entry<String, SLA>>,
    post: SLATracking,
) -> bool
    decreases services.len(),
{
    if services.len() == 0 {
        post == pre
    } else {
        exists|mid: SLATracking, raw: u64, now: i64|
            {
                &&& measured_through(pre, services.drop_last(), mid)
                &&& service_measured(
                    mid,
                    services.last().key@,
                    services.last().value.uptime_target,
                    raw,
                    now,
                    post,
                )
            }
    }
}

/// `post` is `pre` after every service with an agreed level was measured,
/// and nothing else changed.
pub open spec fn sla_monitored(pre: OpsAgent, post: OpsAgent) -> bool {
    &&& measured_through(pre.sla_tracking, pre.sla_tracking.slas@, post.sla_tracking)
    &&& post == (OpsAgent { sla_tracking: post.sla_tracking, ..pre })
}

/// The number of tickets that are open.
pub open spec fn open_tickets(tickets: Seq<Entry<u128, SupportTicket>>) -> nat
    decreases tickets.len(),
{
    if tickets.len() == 0 {
        0
    } else {
        open_tickets(tickets.drop_last()) + if tickets.last().value.status == TicketStatus::Open {
            1nat
        } else {
            0nat
        }
    }
}

/// The number of incidents that are not closed.
pub open spec fn active_incidents(incidents: Seq<Entry<u128, Incident>>) -> nat
    decreases incidents.len(),
{
    if incidents.len() == 0 {
        0
    } else {
        active_incidents(incidents.drop_last()) + if incidents.last().value.status
            != IncidentStatus::Closed {
            1nat
        } else {
            0nat
        }
    }
}

/// The number of incidents of the highest severity.
pub open spec fn sev1_incidents(incidents: Seq<Entry<u128, Incident>>) -> nat
    decreases incidents.len(),
{
    if incidents.len() == 0 {
        0
    } else {
        sev1_incidents(incidents.drop_last()) + if incidents.last().value.severity
            == Severity::Sev1 {
            1nat
        } else {
            0nat
        }
    }
}

/// The titles of the approved change requests, in queue order.
pub open spec fn approved_titles(queue: Seq<ChangeRequest>) -> Seq<Seq<char>>
    decreases queue.len(),
{
    if queue.len() == 0 {
        Seq::empty()
    } else if queue.last().status == ChangeStatus::Approved {
        approved_titles(queue.drop_last()).push(queue.last().title@)
    } else {
        approved_titles(queue.drop_last())
    }
}

/// `copy` holds the same services with the same compliance as `held`, in
/// the same order.
pub open spec fn same_compliance(
    held: Seq<Entry<String, u32>>,
    copy: Seq<Entry<String, u32>>,
) -> bool {
    &&& copy.len() == held.len()
    &&& forall|i: int|
        0 <= i < held.len() ==> (#[trigger] copy[i]).key@ == held[i].key@ && copy[i].value
            == held[i].value
}

/// `report`, generated at `now`, reports on `agent`. Its counts are kept in
/// 32 bits.
pub open spec fn is_report_on(agent: OpsAgent, now: i64, report: OpsReport) -> bool {
    &&& report.generated_at == now
    &&& report.ticket_summary == (TicketSummary {
        total_tickets: wrapped(agent.support_tickets@.len()),
        open_tickets: wrapped(open_tickets(agent.support_tickets@)),
        resolved_today: 0,
        average_resolution_time: 252,
    })
    &&& report.incident_summary == (IncidentSummary {
        total_incidents: wrapped(agent.incidents@.len()),
        active_incidents: wrapped(active_incidents(agent.incidents@)),
        sev1_incidents: wrapped(sev1_incidents(agent.incidents@)),
        mttr: 150,
    })
    &&& same_compliance(agent.sla_tracking.compliance@, report.sla_compliance@)
    &&& texts(report.upcoming_changes@) == approved_titles(agent.change_queue@)
}

/// `a` is an Operations agent as it starts: of the given name and manager,
/// with its skills, the initial tracking of service levels, and no ticket,
/// incident or change request.
pub open spec fn is_new_agent(a: OpsAgent, name: Seq<char>, manager_id: Option<u128>) -> bool {
    &&& a.agent.name@ == name
    &&& a.agent.department == Department::Ops
    &&& a.agent.manager_id == manager_id
    &&& a.sysadmin_skill == 88
    &&& a.support_skill == 85
    &&& a.incident_skill == 90
    &&& a.support_tickets@.len() == 0
    &&& a.incidents@.len() == 0
    &&& is_initial_tracking(a.sla_tracking)
    &&& a.change_queue@.len() == 0
}

impl OpsAgent {
    /// A new Operations agent, under a fresh identifier.
    pub fn new(name: String, manager_id: Option<u128>) -> (a: Self)
        ensures
            a.agent == (Agent { id: a.agent.id, name, department: Department::Ops, manager_id }),
            a.agent.id != NIL_ID,
            is_new_agent(a, name@, manager_id),
    {
        OpsAgent {
            agent: Agent::new(name, Department::Ops, manager_id),
            sysadmin_skill: 88,
            support_skill: 85,
            incident_skill: 90,
            support_tickets: Table::new(),
            incidents: Table::new(),
            sla_tracking: SLATracking::default(),
            change_queue: Vec::new(),
        }
    }

    /// Assigns a ticket to this agent and sets it in progress. A ticket that
    /// is unknown, or that has reached its end, is left alone.
    pub fn assign_ticket(&mut self, ticket_id: u128) -> (r: Result<(), OpsError>)
        ensures
            r is Ok,
            has_key(old(self).support_tickets@, ticket_id) ==> {
                let at = slot_of(old(self).support_tickets@, ticket_id);
                &&& ticket_replaced(
                    *old(self),
                    at,
                    final(self).support_tickets@[at].value,
                    *final(self),
                )
                &&& ticket_assigned(
                    old(self).support_tickets@[at].value,
                    old(self).agent.id,
                    final(self).support_tickets@[at].value,
                )
            },
            !has_key(old(self).support_tickets@, ticket_id) ==> *final(self) == *old(self),
    {
        match self.support_tickets.find(&ticket_id) {
            Some(at) => {
                if !self.support_tickets.entries[at].value.status.is_terminal() {
                    self.support_tickets.entries[at].value.assigned_to = Some(self.agent.id);
                    self.support_tickets.entries[at].value.status = TicketStatus::InProgress;
                }
                assert(self.support_tickets@ =~= old(self).support_tickets@.update(
                    at as int,
                    Entry {
                        key: old(self).support_tickets@[at as int].key,
                        value: self.support_tickets@[at as int].value,
                    },
                ));
            },
            None => {},
        }
        Ok(())
    }

    /// Creates a ticket under the identifier `id`, created at `created` and
    /// last updated at `updated`, and routes it: the ticket is assigned to
    /// this agent and in progress.
    pub fn create_ticket_with(
        &mut self,
        ticket_request: TicketRequest,
        id: u128,
        created: i64,
        updated: i64,
    ) -> (r: u128)
        ensures
            r == id,
            ticket_entered(*old(self), id, *final(self)),
            is_routed_ticket(
                ticket_created(*old(self), id, *final(self)),
                ticket_request.title@,
                ticket_request.description@,
                ticket_request.priority,
                optional_text(ticket_request.customer_id),
                texts(ticket_request.tags@),
                old(self).agent.id,
                id,
                created,
                updated,
            ),
    {
        let ticket = SupportTicket {
            id,
            title: ticket_request.title,
            description: ticket_request.description,
            priority: ticket_request.priority,
            status: TicketStatus::Open,
            customer_id: ticket_request.customer_id,
            assigned_to: None,
            created_at: created,
            updated_at: updated,
            resolution: None,
            tags: ticket_request.tags,
        };
        self.support_tickets.insert(id, ticket);
        proof {
            lemma_placed_has_key(old(self).support_tickets@, id, self.support_tickets@);
        }
        let _ = self.assign_ticket(id);
        id
    }

    /// Creates a support ticket under a fresh identifier and routes it: the
    /// ticket is assigned to this agent and in progress.
    pub fn create_ticket(&mut self, ticket_request: TicketRequest) -> (r: Result<u128, OpsError>)
        ensures
            r matches Ok(id) && ticket_entered(*old(self), id, *final(self)) && exists|
                created: i64,
                updated: i64,
            |
                is_routed_ticket(
                    ticket_created(*old(self), id, *final(self)),
                    ticket_request.title@,
                    ticket_request.description@,
                    ticket_request.priority,
                    optional_text(ticket_request.customer_id),
                    texts(ticket_request.tags@),
                    old(self).agent.id,
                    id,
                    created,
                    updated,
                ),
    {
        let id = fresh_id();
        let created = now();
        let updated = now();
        Ok(self.create_ticket_with(ticket_request, id, created, updated))
    }

    /// Declares an incident under the identifier `id` at time `created`.
    pub fn declare_incident_with(
        &mut self,
        incident_report: IncidentReport,
        id: u128,
        created: i64,
    ) -> (r: u128)
        ensures
            r == id,
            incident_entered(*old(self), id, *final(self)),
            is_new_incident(
                incident_declared(*old(self), id, *final(self)),
                incident_report.title@,
                incident_report.description@,
                incident_report.severity,
                texts(incident_report.affected_services@),
                id,
                created,
            ),
    {
        let incident = Incident {
            id,
            title: incident_report.title,
            description: incident_report.description,
            severity: incident_report.severity,
            status: IncidentStatus::Open,
            affected_services: incident_report.affected_services,
            root_cause: None,
            resolution: None,
            created_at: created,
            resolved_at: None,
            assigned_team: None,
        };
        self.incidents.insert(id, incident);
        id
    }

    /// Declares a system incident under a fresh identifier.
    pub fn declare_incident(&mut self, incident_report: IncidentReport) -> (r: Result<
        u128,
        OpsError,
    >)
        ensures
            r matches Ok(id) && incident_entered(*old(self), id, *final(self)) && exists|
                created: i64,
            |
                is_new_incident(
                    incident_declared(*old(self), id, *final(self)),
                    incident_report.title@,
                    incident_report.description@,
                    incident_report.severity,
                    texts(incident_report.affected_services@),
                    id,
                    created,
                ),
    {
        let id = fresh_id();
        let created = now();
        Ok(self.declare_incident_with(incident_report, id, created))
    }

    /// Records an update of an incident at time `now`. An unknown incident is
    /// an error and changes nothing.
    pub fn update_incident_with(
        &mut self,
        incident_id: u128,
        update: IncidentUpdate,
        now: i64,
    ) -> (r: Result<(), OpsError>)
        ensures
            has_key(old(self).incidents@, incident_id) ==> {
                let at = slot_of(old(self).incidents@, incident_id);
                &&& r is Ok
                &&& incident_replaced(
                    *old(self),
                    at,
                    final(self).incidents@[at].value,
                    *final(self),
                )
                &&& incident_updated(
                    old(self).incidents@[at].value,
                    update,
                    now,
                    final(self).incidents@[at].value,
                )
            },
            !has_key(old(self).incidents@, incident_id) ==> r == Err::<(), OpsError>(
                OpsError::IncidentNotFound(incident_id),
            ) && *final(self) == *old(self),
    {
        match self.incidents.find(&incident_id) {
            Some(at) => {
                if !self.incidents.entries[at].value.status.is_terminal() {
                    self.incidents.entries[at].value.status = update.status;
                }
                match update.root_cause {
                    Some(root_cause) => {
                        self.incidents.entries[at].value.root_cause = Some(root_cause);
                    },
                    None => {},
                }
                match update.resolution {
                    Some(resolution) => {
                        self.incidents.entries[at].value.resolution = Some(resolution);
                        self.incidents.entries[at].value.resolved_at = Some(now);
                    },
                    None => {},
                }
                assert(self.incidents@ =~= old(self).incidents@.update(
                    at as int,
                    Entry {
                        key: old(self).incidents@[at as int].key,
                        value: self.incidents@[at as int].value,
                    },
                ));
                Ok(())
            },
            None => Err(OpsError::IncidentNotFound(incident_id)),
        }
    }

    /// Records an update of an incident. An unknown incident is an error and
    /// changes nothing.
    pub fn update_incident(&mut self, incident_id: u128, update: IncidentUpdate) -> (r: Result<
        (),
        OpsError,
    >)
        ensures
            has_key(old(self).incidents@, incident_id) ==> {
                let at = slot_of(old(self).incidents@, incident_id);
                &&& r is Ok
                &&& incident_replaced(
                    *old(self),
                    at,
                    final(self).incidents@[at].value,
                    *final(self),
                )
                &&& exists|now: i64|
                    incident_updated(
                        old(self).incidents@[at].value,
                        update,
                        now,
                        final(self).incidents@[at].value,
                    )
            },
            !has_key(old(self).incidents@, incident_id) ==> r == Err::<(), OpsError>(
                OpsError::IncidentNotFound(incident_id),
            ) && *final(self) == *old(self),
    {
        let at = now();
        self.update_incident_with(incident_id, update, at)
    }

    /// Puts a change request at the end of the queue, as it is, and returns
    /// its identifier.
    pub fn submit_change_request(&mut self, change_request: ChangeRequest) -> (r: Result<
        u128,
        OpsError,
    >)
        ensures
            r == Ok::<u128, OpsError>(change_request.id),
            final(self).change_queue@ == old(self).change_queue@.push(change_request),
            *final(self) == (OpsAgent { change_queue: final(self).change_queue, ..*old(self) }),
    {
        let change_id = change_request.id;
        self.change_queue.push(change_request);
        Ok(change_id)
    }

    /// The position of the first change request with the given identifier.
    pub fn find_change(&self, change_id: u128) -> (r: Option<usize>)
        ensures
            match r {
                Some(i) => first_change(self.change_queue@, change_id, i as int),
                None => !has_change(self.change_queue@, change_id),
            },
    {
        let mut i: usize = 0;
        while i < self.change_queue.len()
            invariant
                i <= self.change_queue@.len(),
                forall|j: int| 0 <= j < i ==> (#[trigger] self.change_queue@[j]).id != change_id,
            decreases self.change_queue@.len() - i,
        {
            if self.change_queue[i].id == change_id {
                return Some(i);
            }
            i += 1;
        }
        None
    }

    /// Approves the first change request with the given identifier in the
    /// name of `approver`. An unknown identifier is an error and leaves the
    /// queue as it was.
    pub fn approve_change(&mut self, change_id: u128, approver: u128) -> (r: Result<(), OpsError>)
        ensures
            *final(self) == (OpsAgent { change_queue: final(self).change_queue, ..*old(self) }),
            has_change(old(self).change_queue@, change_id) ==> r is Ok && exists|at: int|
                {
                    &&& first_change(old(self).change_queue@, change_id, at)
                    &&& final(self).change_queue@ == old(self).change_queue@.update(
                        at,
                        final(self).change_queue@[at],
                    )
                    &&& change_approved(
                        old(self).change_queue@[at],
                        approver,
                        final(self).change_queue@[at],
                    )
                },
            !has_change(old(self).change_queue@, change_id) ==> r == Err::<(), OpsError>(
                OpsError::ChangeNotFound(change_id),
            ) && *final(self) == *old(self),
    {
        match self.find_change(change_id) {
            Some(at) => {
                if !self.change_queue[at].status.is_terminal() {
                    self.change_queue[at].status = ChangeStatus::Approved;
                    self.change_queue[at].approver = Some(approver);
                }
                Ok(())
            },
            None => Err(OpsError::ChangeNotFound(change_id)),
        }
    }

    /// Measures the service at position `at` of the agreed levels, at time
    /// `now` with the raw draw: the compliance that the draw stands for is
    /// held for the service, and a violation is logged where it lies under
    /// the target. Where no level is agreed at that position, nothing changes.
    pub fn measure_service_with(&mut self, at: usize, raw: u64, now: i64)
        ensures
            at < old(self).sla_tracking.slas@.len() ==> service_measured(
                old(self).sla_tracking,
                old(self).sla_tracking.slas@[at as int].key@,
                old(self).sla_tracking.slas@[at as int].value.uptime_target,
                raw,
                now,
                final(self).sla_tracking,
            ),
            at >= old(self).sla_tracking.slas@.len() ==> *final(self) == *old(self),
            *final(self) == (OpsAgent { sla_tracking: final(self).sla_tracking, ..*old(self) }),
    {
        if at >= self.sla_tracking.slas.len() {
            return ;
        }
        let value: u32 = COMPLIANCE_FLOOR + sample(raw, COMPLIANCE_SPAN);
        let target: u32 = self.sla_tracking.slas.entries[at].value.uptime_target;
        let service = self.sla_tracking.slas.entries[at].key.clone();
        if value < target {
            let impact = String::from_str("Uptime ").concat(percent_string(value).as_str()).concat(
                "% below target ",
            ).concat(percent_string(target).as_str()).concat("%");
            self.sla_tracking.violations.push(
                SLAViolation {
                    service: service.clone(),
                    violation_type: String::from_str("Uptime Target"),
                    timestamp: now,
                    impact,
                    resolution: None,
                },
            );
            assert(self.sla_tracking.violations@.drop_last() =~= old(
                self,
            ).sla_tracking.violations@);
        }
        self.sla_tracking.compliance.insert(service, value);
    }

    /// Measures the services with an agreed level under the draws made for
    /// them: the compliance held for a service is overwritten with what its
    /// draw stands for, and a violation is logged wherever that lies under the
    /// target.
    pub fn monitor_sla_with(&mut self, draws: &Vec<MeasureDraws>) -> (r: Result<(), OpsError>)
        ensures
            r is Ok,
            sla_monitored_with(*old(self), draws@, *final(self)),
    {
        let part: usize = if draws.len() < self.sla_tracking.slas.len() {
            draws.len()
        } else {
            self.sla_tracking.slas.len()
        };
        let mut i: usize = 0;
        proof {
            assert(old(self).sla_tracking.slas@.take(0) =~= Seq::empty());
            assert(draws@.take(0) =~= Seq::empty());
        }
        while i < part
            invariant
                i <= part,
                part == measured_for(old(self).sla_tracking.slas@, draws@),
                self.sla_tracking.slas == old(self).sla_tracking.slas,
                measured_through_with(
                    old(self).sla_tracking,
                    old(self).sla_tracking.slas@.take(i as int),
                    draws@.take(i as int),
                    self.sla_tracking,
                ),
                *self == (OpsAgent { sla_tracking: self.sla_tracking, ..*old(self) }),
            decreases part - i,
        {
            let ghost mid = self.sla_tracking;
            self.measure_service_with(i, draws[i].raw, draws[i].now);
            proof {
                let upto = old(self).sla_tracking.slas@.take(i + 1);
                let drawn = draws@.take(i + 1);
                assert(upto.drop_last() =~= old(self).sla_tracking.slas@.take(i as int));
                assert(drawn.drop_last() =~= draws@.take(i as int));
                assert(upto.last() == old(self).sla_tracking.slas@[i as int]);
                assert(drawn.last() == draws@[i as int]);
                assert(service_measured(
                    mid,
                    upto.last().key@,
                    upto.last().value.uptime_target,
                    drawn.last().raw,
                    drawn.last().now,
                    self.sla_tracking,
                ));
            }
            i += 1;
        }
        Ok(())
    }

    /// Draws what the measurement of every service needs from outside.
    fn draw_for_measuring(&self) -> (draws: Vec<MeasureDraws>)
        ensures
            draws@.len() == self.sla_tracking.slas@.len(),
    {
        let mut draws: Vec<MeasureDraws> = Vec::new();
        while draws.len() < self.sla_tracking.slas.len()
            invariant
                draws@.len() <= self.sla_tracking.slas@.len(),
            decreases self.sla_tracking.slas@.len() - draws@.len(),
        {
            draws.push(MeasureDraws { raw: draw(), now: now() });
        }
        draws
    }

    /// Measures every service with an agreed level: the compliance held for
    /// the service is overwritten with a fresh measurement, and a violation is
    /// logged wherever the measurement lies under the target.
    pub fn monitor_sla(&mut self) -> (r: Result<(), OpsError>)
        ensures
            r is Ok,
            sla_monitored(*old(self), *final(self)),
    {
        let draws = self.draw_for_measuring();
        let r = self.monitor_sla_with(&draws);
        proof {
            let services = old(self).sla_tracking.slas@;
            assert(services.take(services.len() as int) =~= services);
            assert(draws@.take(draws@.len() as int) =~= draws@);
            lemma_measuring_under_draws(
                old(self).sla_tracking,
                services,
                draws@,
                self.sla_tracking,
            );
        }
        r
    }

    /// Carries out a maintenance task. The task leaves no trace in the
    /// agent's state.
    pub fn perform_maintenance(&mut self, maintenance_task: MaintenanceTask) -> (r: Result<
        (),
        OpsError,
    >)
        ensures
            r is Ok,
            *final(self) == *old(self),
    {
        Ok(())
    }

    /// Reports, as of `now`, on tickets, incidents, compliance, and the
    /// approved changes.
    pub fn generate_report_with(&self, now: i64) -> (r: Result<OpsReport, OpsError>)
        ensures
            r matches Ok(report) && is_report_on(*self, now, report),
    {
        let mut open: usize = 0;
        let mut i: usize = 0;
        while i < self.support_tickets.len()
            invariant
                i <= self.support_tickets@.len(),
                open == open_tickets(self.support_tickets@.take(i as int)),
                open <= i,
            decreases self.support_tickets@.len() - i,
        {
            assert(self.support_tickets@.take(i + 1).drop_last() =~= self.support_tickets@.take(
                i as int,
            ));
            if self.support_tickets.entries[i].value.status == TicketStatus::Open {
                open = open + 1;
            }
            i += 1;
        }
        assert(self.support_tickets@.take(i as int) =~= self.support_tickets@);
        let mut active: usize = 0;
        let mut sev1: usize = 0;
        let mut j: usize = 0;
        while j < self.incidents.len()
            invariant
                j <= self.incidents@.len(),
                active == active_incidents(self.incidents@.take(j as int)),
                sev1 == sev1_incidents(self.incidents@.take(j as int)),
                active <= j,
                sev1 <= j,
            decreases self.incidents@.len() - j,
        {
            assert(self.incidents@.take(j + 1).drop_last() =~= self.incidents@.take(j as int));
            if self.incidents.entries[j].value.status != IncidentStatus::Closed {
                active = active + 1;
            }
            if self.incidents.entries[j].value.severity == Severity::Sev1 {
                sev1 = sev1 + 1;
            }
            j += 1;
        }
        assert(self.incidents@.take(j as int) =~= self.incidents@);
        let mut sla_compliance: Table<String, u32> = Table::new();
        let mut k: usize = 0;
        while k < self.sla_tracking.compliance.len()
            invariant
                k <= self.sla_tracking.compliance@.len(),
                sla_compliance@.len() == k,
                forall|n: int|
                    0 <= n < k ==> (#[trigger] sla_compliance@[n]).key@
                        == self.sla_tracking.compliance@[n].key@ && sla_compliance@[n].value
                        == self.sla_tracking.compliance@[n].value,
            decreases self.sla_tracking.compliance@.len() - k,
        {
            sla_compliance.entries.push(
                Entry {
                    key: self.sla_tracking.compliance.entries[k].key.clone(),
                    value: self.sla_tracking.compliance.entries[k].value,
                },
            );
            k += 1;
        }
        let mut upcoming_changes: Vec<String> = Vec::new();
        let mut m: usize = 0;
        while m < self.change_queue.len()
            invariant
                m <= self.change_queue@.len(),
                texts(upcoming_changes@) == approved_titles(self.change_queue@.take(m as int)),
            decreases self.change_queue@.len() - m,
        {
            assert(self.change_queue@.take(m + 1).drop_last() =~= self.change_queue@.take(
                m as int,
            ));
            if self.change_queue[m].status == ChangeStatus::Approved {
                upcoming_changes.push(self.change_queue[m].title.clone());
            }
            m += 1;
        }
        assert(self.change_queue@.take(m as int) =~= self.change_queue@);
        Ok(
            OpsReport {
                generated_at: now,
                ticket_summary: TicketSummary {
                    total_tickets: wrap(self.support_tickets.len()),
                    open_tickets: wrap(open),
                    resolved_today: 0,
                    average_resolution_time: 252,
                },
                incident_summary: IncidentSummary {
                    total_incidents: wrap(self.incidents.len()),
                    active_incidents: wrap(active),
                    sev1_incidents: wrap(sev1),
                    mttr: 150,
                },
                sla_compliance,
                upcoming_changes,
            },
        )
    }

    /// Reports on tickets, incidents, compliance, and the approved changes.
    pub fn generate_report(&self) -> (r: Result<OpsReport, OpsError>)
        ensures
            r matches Ok(report) && is_report_on(*self, report.generated_at, report),
    {
        let at = now();
        self.generate_report_with(at)
    }
}

/// The text of a percentage held in parts of ten thousand, with two decimal
/// places.
pub fn percent_string(value: u32) -> (s: String)
    ensures
        s@ == percent_text(value),
{
    let whole = unsigned_string((value / 100) as u64);
    let fraction = unsigned_string((value % 100) as u64);
    proof {
        reveal_strlit("0");
        lemma_digits_len(((value % 100) as u64) as nat);
    }
    let s = if value % 100 < 10 {
        whole.concat(".").concat("0").concat(fraction.as_str())
    } else {
        whole.concat(".").concat(fraction.as_str())
    };
    s
}

/// A ticket that has reached its end stays as it is when it is assigned.
pub proof fn lemma_ticket_end_is_final(pre: SupportTicket, agent_id: u128, post: SupportTicket)
    requires
        ticket_assigned(pre, agent_id, post),
        pre.status.terminal(),
    ensures
        post == pre,
{
}

/// An incident that has reached its end keeps its status whatever update is
/// recorded.
pub proof fn lemma_incident_end_is_final(
    pre: Incident,
    update: IncidentUpdate,
    now: i64,
    post: Incident,
)
    requires
        incident_updated(pre, update, now, post),
        pre.status.terminal(),
    ensures
        post.status == pre.status,
{
}

/// A change request that has reached its end stays as it is when it is
/// approved.
pub proof fn lemma_change_end_is_final(pre: ChangeRequest, approver: u128, post: ChangeRequest)
    requires
        change_approved(pre, approver, post),
        pre.status.terminal(),
    ensures
        post == pre,
{
}

/// `trace` is a history of one incident: each state follows from the one
/// before it by some recorded update.
pub open spec fn is_incident_history(trace: Seq<Incident>) -> bool {
    forall|i: int| 0 <= i < trace.len() - 1 ==> incident_follows(#[trigger] trace[i], trace[i + 1])
}

/// `post` follows from `pre` by some recorded update.
pub open spec fn incident_follows(pre: Incident, post: Incident) -> bool {
    exists|update: IncidentUpdate, now: i64| incident_updated(pre, update, now, post)
}

/// Over any history of an incident, a status at which the incident has
/// reached its end is the status of every later state.
pub proof fn lemma_incident_history_ends(trace: Seq<Incident>, i: int, j: int)
    requires
        is_incident_history(trace),
        0 <= i <= j < trace.len(),
        trace[i].status.terminal(),
    ensures
        trace[j].status == trace[i].status,
    decreases j - i,
{
    if i < j {
        lemma_incident_history_ends(trace, i, j - 1);
    }
}

/// The kinds of message that the department knows are five different texts.
pub proof fn lemma_kinds_differ()
    ensures
        "create_ticket"@ != "declare_incident"@,
        "create_ticket"@ != "sla_check"@,
        "create_ticket"@ != "maintenance_task"@,
        "create_ticket"@ != "generate_report"@,
        "declare_incident"@ != "sla_check"@,
        "declare_incident"@ != "maintenance_task"@,
        "declare_incident"@ != "generate_report"@,
        "sla_check"@ != "maintenance_task"@,
        "sla_check"@ != "generate_report"@,
        "maintenance_task"@ != "generate_report"@,
{
    reveal_strlit("create_ticket");
    reveal_strlit("declare_incident");
    reveal_strlit("sla_check");
    reveal_strlit("maintenance_task");
    reveal_strlit("generate_report");
    assert("create_ticket"@.len() == 13);
    assert("sla_check"@.len() == 9);
    assert("maintenance_task"@.len() == 16);
    assert("declare_incident"@[0] == 'd');
}

impl AgentTrait for OpsAgent {
    /// Every message can be taken.
    open spec fn accepts(&self, message: Message) -> bool {
        true
    }

    /// What each kind of message does:
    /// `create_ticket` creates and routes a ticket of normal priority, titled
    /// by the parameter `title` (default `Support Request`), described by the
    /// content of the message, for the customer named by the parameter
    /// `customer_id`, if any;
    /// `declare_incident` declares an incident of severity 3, titled by the
    /// parameter `title` (default `System Incident`), with the affected
    /// service unknown;
    /// `sla_check` measures the service levels;
    /// `maintenance_task` and `generate_report` leave the state as it is;
    /// so does any other kind.
    open spec fn handles(pre: Self, message: Message, post: Self) -> bool {
        if message.message_type@ == "create_ticket"@ {
            ticket_requested(
                pre,
                parameter_or(message.metadata@, "title"@, "Support Request"@),
                message.content@,
                Priority::Normal,
                parameter(message.metadata@, "customer_id"@),
                Seq::empty(),
                post,
            )
        } else if message.message_type@ == "declare_incident"@ {
            incident_reported(
                pre,
                parameter_or(message.metadata@, "title"@, "System Incident"@),
                message.content@,
                Severity::Sev3,
                seq!["unknown"@],
                post,
            )
        } else if message.message_type@ == "sla_check"@ {
            sla_monitored(pre, post)
        } else {
            post == pre
        }
    }

    open spec fn fit_for_daily_tasks(&self) -> bool {
        true
    }

    /// The daily round: a check of the service levels, the daily maintenance,
    /// the daily report, each as a note to self.
    open spec fn maintains(pre: Self, post: Self) -> bool {
        exists|first: Message, measured: Self, second: Message, serviced: Self, third: Message|
            {
                &&& is_note_to_self(first, pre.agent.id, "sla_check"@, "Daily SLA monitoring"@)
                &&& Self::handles(pre, first, measured)
                &&& is_note_to_self(
                    second,
                    pre.agent.id,
                    "maintenance_task"@,
                    "Daily system maintenance"@,
                )
                &&& Self::handles(measured, second, serviced)
                &&& is_note_to_self(
                    third,
                    pre.agent.id,
                    "generate_report"@,
                    "Daily operations report"@,
                )
                &&& Self::handles(serviced, third, post)
            }
    }

    open spec fn record(&self) -> Agent {
        self.agent
    }

    fn process_message(&mut self, message: Message) -> (r: Result<(), AgentError>) {
        proof {
            lemma_kinds_differ();
        }
        if reads(&message.message_type, "create_ticket") {
            let title = message.parameter_or("title", "Support Request");
            let customer_id = match message.parameter("customer_id") {
                Some(customer) => Some(customer.clone()),
                None => None,
            };
            let tags: Vec<String> = Vec::new();
            assert(texts(tags@) =~= Seq::empty());
            let ticket_request = TicketRequest {
                title,
                description: message.content,
                priority: Priority::Normal,
                customer_id,
                tags,
            };
            match self.create_ticket(ticket_request) {
                Ok(_) => {},
                Err(e) => {
                    return Err(AgentError::Ops(e));
                },
            }
        } else if reads(&message.message_type, "declare_incident") {
            let title = message.parameter_or("title", "System Incident");
            let mut affected_services: Vec<String> = Vec::new();
            affected_services.push(String::from_str("unknown"));
            assert(texts(affected_services@) =~= seq!["unknown"@]);
            let incident_report = IncidentReport {
                title,
                description: message.content,
                severity: Severity::Sev3,
                affected_services,
            };
            match self.declare_incident(incident_report) {
                Ok(_) => {},
                Err(e) => {
                    return Err(AgentError::Ops(e));
                },
            }
        } else if reads(&message.message_type, "sla_check") {
            match self.monitor_sla() {
                Ok(_) => {},
                Err(e) => {
                    return Err(AgentError::Ops(e));
                },
            }
        } else if reads(&message.message_type, "maintenance_task") {
            let maintenance_task = MaintenanceTask {
                title: message.parameter_or("title", "System Maintenance"),
                task_type: MaintenanceType::SecurityPatch,
                scheduled_time: now(),
                estimated_duration: 30,
            };
            match self.perform_maintenance(maintenance_task) {
                Ok(_) => {},
                Err(e) => {
                    return Err(AgentError::Ops(e));
                },
            }
        } else if reads(&message.message_type, "generate_report") {
            match self.generate_report() {
                Ok(_) => {},
                Err(e) => {
                    return Err(AgentError::Ops(e));
                },
            }
        }
        Ok(())
    }

    fn perform_daily_tasks(&mut self) -> (r: Result<(), AgentError>) {
        proof {
            lemma_kinds_differ();
        }
        let first = Message::note_to_self(self.agent.id, "sla_check", "Daily SLA monitoring");
        let _ = self.process_message(first);
        let second = Message::note_to_self(
            self.agent.id,
            "maintenance_task",
            "Daily system maintenance",
        );
        let _ = self.process_message(second);
        let third = Message::note_to_self(
            self.agent.id,
            "generate_report",
            "Daily operations report",
        );
        let _ = self.process_message(third);
        Ok(())
    }

    fn can_accept(&self, message: &Message) -> (b: bool) {
        true
    }

    fn can_run_daily_tasks(&self) -> (b: bool) {
        true
    }

    fn get_agent(&self) -> (a: &Agent) {
        &self.agent
    }

    fn get_agent_mut(&mut self) -> (a: &mut Agent) {
        &mut self.agent
    }
}

/// Measuring under draws is measuring.
pub proof fn lemma_measuring_under_draws(
    pre: SLATracking,
    services: Seq<Entry<String, SLA>>,
    draws: Seq<MeasureDraws>,
    post: SLATracking,
)
    requires
        measured_through_with(pre, services, draws, post),
    ensures
        measured_through(pre, services, post),
    decreases services.len(),
{
    if services.len() > 0 {
        let mid = choose|mid: SLATracking|
            {
                &&& measured_through_with(pre, services.drop_last(), draws.drop_last(), mid)
                &&& #[trigger] service_measured(
                    mid,
                    services.last().key@,
                    services.last().value.uptime_target,
                    draws.last().raw,
                    draws.last().now,
                    post,
                )
            };
        lemma_measuring_under_draws(pre, services.drop_last(), draws.drop_last(), mid);
    }
}

/// Measuring service levels leaves the agreed levels as they were.
pub proof fn lemma_measuring_keeps_levels(
    pre: SLATracking,
    services: Seq<Entry<String, SLA>>,
    post: SLATracking,
)
    requires
        measured_through(pre, services, post),
    ensures
        post.slas == pre.slas,
        post.violations@.len() >= pre.violations@.len(),
        forall|i: int|
            0 <= i < pre.violations@.len() ==> #[trigger] post.violations@[i] == pre.violations@[i],
    decreases services.len(),
{
    if services.len() > 0 {
        let (mid, raw, now) = choose|mid: SLATracking, raw: u64, now: i64|
            {
                &&& measured_through(pre, services.drop_last(), mid)
                &&& service_measured(
                    mid,
                    services.last().key@,
                    services.last().value.uptime_target,
                    raw,
                    now,
                    post,
                )
            };
        lemma_measuring_keeps_levels(pre, services.drop_last(), mid);
        assert forall|i: int| 0 <= i < pre.violations@.len() implies #[trigger] post.violations@[i]
            == pre.violations@[i] by {
            if post.violations != mid.violations {
                assert(post.violations@.drop_last()[i] == post.violations@[i]);
            }
        }
    }
}

/// Taking a message changes neither the agent's record nor its skills, and
/// it moves no ticket, incident or change request on: the change queue stays
/// as it is, and the tickets and the incidents stay as they are, in their
/// places, but for the one ticket or incident that the message enters.
pub proof fn lemma_handling_moves_nothing_on(pre: OpsAgent, message: Message, post: OpsAgent)
    requires
        OpsAgent::handles(pre, message, post),
    ensures
        post.agent == pre.agent,
        post.sysadmin_skill == pre.sysadmin_skill,
        post.support_skill == pre.support_skill,
        post.incident_skill == pre.incident_skill,
        post.change_queue == pre.change_queue,
        post.support_tickets == pre.support_tickets || (message.message_type@ == "create_ticket"@
            && exists|id: u128| placed(pre.support_tickets@, id, post.support_tickets@)),
        post.incidents == pre.incidents || (message.message_type@ == "declare_incident"@
            && exists|id: u128| placed(pre.incidents@, id, post.incidents@)),
{
    lemma_kinds_differ();
}

/// The daily round changes neither the agent's record nor any ticket,
/// incident or change request.
pub proof fn lemma_daily_round_moves_nothing_on(pre: OpsAgent, post: OpsAgent)
    requires
        OpsAgent::maintains(pre, post),
    ensures
        post.agent == pre.agent,
        post.support_tickets == pre.support_tickets,
        post.incidents == pre.incidents,
        post.change_queue == pre.change_queue,
{
    lemma_kinds_differ();
    let (first, measured, second, serviced, third) = choose|
        first: Message,
        measured: OpsAgent,
        second: Message,
        serviced: OpsAgent,
        third: Message,
    |
        {
            &&& is_note_to_self(first, pre.agent.id, "sla_check"@, "Daily SLA monitoring"@)
            &&& OpsAgent::handles(pre, first, measured)
            &&& is_note_to_self(
                second,
                pre.agent.id,
                "maintenance_task"@,
                "Daily system maintenance"@,
            )
            &&& OpsAgent::handles(measured, second, serviced)
            &&& is_note_to_self(
                third,
                pre.agent.id,
                "generate_report"@,
                "Daily operations report"@,
            )
            &&& OpsAgent::handles(serviced, third, post)
        };
    lemma_handling_moves_nothing_on(pre, first, measured);
    lemma_handling_moves_nothing_on(measured, second, serviced);
    lemma_handling_moves_nothing_on(serviced, third, post);
}

impl OpsAgent {
    /// The tables are in order: no identifier stands for two tickets or for
    /// two incidents, and no service has two agreed levels or two
    /// measurements.
    pub open spec fn sound(self) -> bool {
        &&& distinct_keys(self.support_tickets@)
        &&& distinct_keys(self.incidents@)
        &&& distinct_keys(self.sla_tracking.slas@)
        &&& distinct_keys(self.sla_tracking.compliance@)
    }
}

/// An agent as it starts is sound.
pub proof fn lemma_new_agent_is_sound(agent: OpsAgent, name: Seq<char>, manager_id: Option<u128>)
    requires
        is_new_agent(agent, name, manager_id),
    ensures
        agent.sound(),
{
}

/// Measuring service levels keeps one measurement for each service.
pub proof fn lemma_measuring_keeps_distinct(
    pre: SLATracking,
    services: Seq<Entry<String, SLA>>,
    post: SLATracking,
)
    requires
        distinct_keys(pre.compliance@),
        measured_through(pre, services, post),
    ensures
        distinct_keys(post.compliance@),
    decreases services.len(),
{
    if services.len() > 0 {
        let (mid, raw, now) = choose|mid: SLATracking, raw: u64, now: i64|
            {
                &&& measured_through(pre, services.drop_last(), mid)
                &&& service_measured(
                    mid,
                    services.last().key@,
                    services.last().value.uptime_target,
                    raw,
                    now,
                    post,
                )
            };
        lemma_measuring_keeps_distinct(pre, services.drop_last(), mid);
        lemma_placed_keeps_distinct(mid.compliance@, services.last().key@, post.compliance@);
    }
}

/// Taking a message keeps the agent sound.
pub proof fn lemma_handling_keeps_sound(pre: OpsAgent, message: Message, post: OpsAgent)
    requires
        pre.sound(),
        OpsAgent::handles(pre, message, post),
    ensures
        post.sound(),
{
    lemma_kinds_differ();
    lemma_handling_moves_nothing_on(pre, message, post);
    if message.message_type@ == "create_ticket"@ {
        if post.support_tickets != pre.support_tickets {
            let id = choose|id: u128| placed(pre.support_tickets@, id, post.support_tickets@);
            lemma_placed_keeps_distinct(pre.support_tickets@, id, post.support_tickets@);
        }
    } else if message.message_type@ == "declare_incident"@ {
        if post.incidents != pre.incidents {
            let id = choose|id: u128| placed(pre.incidents@, id, post.incidents@);
            lemma_placed_keeps_distinct(pre.incidents@, id, post.incidents@);
        }
    } else if message.message_type@ == "sla_check"@ {
        lemma_measuring_keeps_levels(pre.sla_tracking, pre.sla_tracking.slas@, post.sla_tracking);
        lemma_measuring_keeps_distinct(
            pre.sla_tracking,
            pre.sla_tracking.slas@,
            post.sla_tracking,
        );
    }
}

/// The daily round keeps the agent sound.
pub proof fn lemma_daily_round_keeps_sound(pre: OpsAgent, post: OpsAgent)
    requires
        pre.sound(),
        OpsAgent::maintains(pre, post),
    ensures
        post.sound(),
{
    let (first, measured, second, serviced, third) = choose|
        first: Message,
        measured: OpsAgent,
        second: Message,
        serviced: OpsAgent,
        third: Message,
    |
        {
            &&& is_note_to_self(first, pre.agent.id, "sla_check"@, "Daily SLA monitoring"@)
            &&& OpsAgent::handles(pre, first, measured)
            &&& is_note_to_self(
                second,
                pre.agent.id,
                "maintenance_task"@,
                "Daily system maintenance"@,
            )
            &&& OpsAgent::handles(measured, second, serviced)
            &&& is_note_to_self(
                third,
                pre.agent.id,
                "generate_report"@,
                "Daily operations report"@,
            )
            &&& OpsAgent::handles(serviced, third, post)
        };
    lemma_handling_keeps_sound(pre, first, measured);
    lemma_handling_keeps_sound(measured, second, serviced);
    lemma_handling_keeps_sound(serviced, third, post);
}

/// A ticket created under an identifier that is not in use joins the end of
/// the table: the table grows by one, and every ticket that was there stays
/// as it was.
pub proof fn lemma_ticket_under_new_id(pre: OpsAgent, id: u128, post: OpsAgent)
    requires
        ticket_entered(pre, id, post),
        !has_key(pre.support_tickets@, id),
    ensures
        post.support_tickets@.len() == pre.support_tickets@.len() + 1,
        kept(pre.support_tickets@, post.support_tickets@),
        post.support_tickets@.last().value == ticket_created(pre, id, post),
{
    lemma_placed_under_new_key(pre.support_tickets@, id, post.support_tickets@);
}

/// An incident declared under an identifier that is not in use joins the end
/// of the table: the table grows by one, and every incident that was there
/// stays as it was.
pub proof fn lemma_incident_under_new_id(pre: OpsAgent, id: u128, post: OpsAgent)
    requires
        incident_entered(pre, id, post),
        !has_key(pre.incidents@, id),
    ensures
        post.incidents@.len() == pre.incidents@.len() + 1,
        kept(pre.incidents@, post.incidents@),
        post.incidents@.last().value == incident_declared(pre, id, post),
{
    lemma_placed_under_new_key(pre.incidents@, id, post.incidents@);
}

/// Taking a message leaves every ticket, incident and change request that
/// was there as it was, in its place; one that has reached its end in
/// particular stays at its end. The one exception is a ticket or an incident
/// whose drawn identifier is already in use: it replaces the record that
/// stood under that identifier.
pub proof fn lemma_handling_keeps_records(pre: OpsAgent, message: Message, post: OpsAgent)
    requires
        OpsAgent::handles(pre, message, post),
    ensures
        post.change_queue == pre.change_queue,
        kept(pre.support_tickets@, post.support_tickets@) || (message.message_type@
            == "create_ticket"@ && exists|id: u128|
            has_key(pre.support_tickets@, id) && placed(
                pre.support_tickets@,
                id,
                post.support_tickets@,
            )),
        kept(pre.incidents@, post.incidents@) || (message.message_type@ == "declare_incident"@
            && exists|id: u128|
            has_key(pre.incidents@, id) && placed(pre.incidents@, id, post.incidents@)),
{
    lemma_handling_moves_nothing_on(pre, message, post);
    if post.support_tickets != pre.support_tickets {
        let id = choose|id: u128| placed(pre.support_tickets@, id, post.support_tickets@);
        if !has_key(pre.support_tickets@, id) {
            lemma_placed_under_new_key(pre.support_tickets@, id, post.support_tickets@);
        }
    }
    if post.incidents != pre.incidents {
        let id = choose|id: u128| placed(pre.incidents@, id, post.incidents@);
        if !has_key(pre.incidents@, id) {
            lemma_placed_under_new_key(pre.incidents@, id, post.incidents@);
        }
    }
}

} // verus!
