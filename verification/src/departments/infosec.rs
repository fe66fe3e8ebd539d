//! InfoSec: the security posture and its score, incidents, controls,
//! compliance audits, threat monitoring.
//!
//! Scores are whole numbers from 0 to 100; a CVSS score is held in tenths.

use crate::agents::Agent;
use crate::agents::AgentError;
use crate::agents::AgentTrait;
use crate::agents::Department;
use crate::chance::draw;
use crate::chance::falls_under;
use crate::chance::happens;
use crate::chance::sample;
use crate::chance::spread;
use crate::clock::now;
use crate::communication::is_note_to_self;
use crate::communication::parameter;
use crate::communication::parameter_or;
use crate::communication::Message;
use crate::counts::wrap;
use crate::counts::wrapped;
use crate::ids::fresh_id;
use crate::ids::NIL_ID;
use crate::table::distinct_keys;
use crate::table::has_key;
use crate::table::kept;
use crate::table::landing;
use crate::table::lemma_placed_under_new_key;
use crate::table::lemma_placed_keeps_distinct;
use crate::table::placed;
use crate::table::Table;
use crate::text::digits;
use crate::text::reads;
use crate::text::texts;
use crate::text::unsigned_string;
use vstd::prelude::*;
use vstd::string::StringExecFns;

verus! {

/// The chance, in parts of ten thousand, that threat monitoring detects
/// something.
pub const DETECTION_CHANCE: u32 = 1_000;

/// How grave a finding, an event or an incident is.
#[derive(Clone, Copy, Debug, PartialEq, Eq, Structural)]
pub enum Severity {
    Critical,
    High,
    Medium,
    Low,
    Info,
}

/// What a security control protects.
#[derive(Clone, Copy, Debug, PartialEq, Eq, Structural)]
pub enum ControlType {
    AccessControl,
    Encryption,
    NetworkSecurity,
    EndpointProtection,
    Monitoring,
    IncidentResponse,
}

/// Whether a security control is in force.
#[derive(Clone, Copy, Debug, PartialEq, Eq, Structural)]
pub enum ControlStatus {
    Active,
    Inactive,
    Degraded,
    Failed,
}

/// The kind of a security event.
#[derive(Clone, Copy, Debug, PartialEq, Eq, Structural)]
pub enum EventType {
    UnauthorizedAccess,
    MalwareDetected,
    DDoSAttack,
    DataBreach,
    PolicyViolation,
    SuspiciousActivity,
    SystemCompromise,
}

/// Where a security incident stands.
#[derive(Clone, Copy, Debug, PartialEq, Eq, Structural)]
pub enum IncidentStatus {
    Open,
    Investigating,
    Mitigating,
    Resolved,
    Closed,
}

/// Where a vulnerability scan stands.
#[derive(Clone, Copy, Debug, PartialEq, Eq, Structural)]
pub enum ScanStatus {
    Pending,
    InProgress,
    Completed,
    Failed,
}

/// How many vulnerabilities of each severity the last scan found.
#[derive(Clone, Copy, Debug, PartialEq, Eq, Structural)]
pub struct VulnerabilityCounts {
    pub critical: u32,
    pub high: u32,
    pub medium: u32,
    pub low: u32,
    pub info: u32,
}

/// A security control; `effectiveness` is a score from 0 to 100.
#[derive(Clone, Debug)]
pub struct SecurityControl {
    pub id: String,
    pub name: String,
    pub control_type: ControlType,
    pub status: ControlStatus,
    pub last_check: i64,
    pub effectiveness: u8,
}

/// Something that threat monitoring detected.
#[derive(Debug)]
pub struct SecurityEvent {
    pub id: u128,
    pub event_type: EventType,
    pub severity: Severity,
    pub description: String,
    pub source: String,
    pub timestamp: i64,
    pub resolved: bool,
}

impl Clone for SecurityEvent {
    fn clone(&self) -> (e: Self)
        ensures
            e == *self,
    {
        SecurityEvent {
            id: self.id,
            event_type: self.event_type,
            severity: self.severity,
            description: self.description.clone(),
            source: self.source.clone(),
            timestamp: self.timestamp,
            resolved: self.resolved,
        }
    }
}

/// The posture: a score derived from the vulnerability counts of the last
/// scan, the controls in force, and the log of security events.
#[derive(Clone, Debug)]
pub struct SecurityPosture {
    pub overall_score: u8,
    pub vulnerabilities: VulnerabilityCounts,
    pub active_controls: Vec<SecurityControl>,
    pub recent_events: Vec<SecurityEvent>,
    pub last_assessment: i64,
}

/// A security incident and who works on it.
#[derive(Clone, Debug)]
pub struct SecurityIncident {
    pub id: u128,
    pub title: String,
    pub description: String,
    pub severity: Severity,
    pub status: IncidentStatus,
    pub assigned_to: Option<u128>,
    pub created_at: i64,
    pub updated_at: i64,
    pub resolution_steps: Vec<String>,
    pub affected_systems: Vec<String>,
}

/// A requirement of a standard that is not met yet.
#[derive(Clone, Debug)]
pub struct ComplianceIssue {
    pub id: String,
    pub standard: String,
    pub requirement: String,
    pub severity: Severity,
    pub status: String,
    pub due_date: i64,
}

/// The scores of the last audit, each from 0 to 100, and the open issues.
#[derive(Clone, Debug)]
pub struct ComplianceStatus {
    pub gdpr_compliance: u8,
    pub soc2_compliance: u8,
    pub iso27001_compliance: u8,
    pub last_audit: i64,
    pub open_issues: Vec<ComplianceIssue>,
}

/// One finding of a scan; `cvss_score` is held in tenths.
#[derive(Clone, Debug)]
pub struct Vulnerability {
    pub id: String,
    pub title: String,
    pub severity: Severity,
    pub cvss_score: u8,
    pub description: String,
    pub affected_system: String,
    pub remediation: String,
    pub discovered_at: i64,
}

/// What a vulnerability scan found.
#[derive(Clone, Debug)]
pub struct ScanResults {
    pub target: String,
    pub scan_start: i64,
    pub scan_end: i64,
    pub vulnerabilities_found: u32,
    pub vulnerabilities: Vec<Vulnerability>,
    pub scan_status: ScanStatus,
}

/// What is known of an incident when it is reported.
#[derive(Clone, Debug)]
pub struct IncidentReport {
    pub title: String,
    pub description: String,
    pub severity: Severity,
    pub affected_systems: Vec<String>,
}

/// The report of a compliance audit: the three scores and their average,
/// each from 0 to 100.
#[derive(Clone, Debug)]
pub struct AuditResults {
    pub audit_date: i64,
    pub gdpr_compliance: u8,
    pub soc2_compliance: u8,
    pub iso27001_compliance: u8,
    pub overall_compliance: u8,
    pub issues_found: Vec<String>,
    pub recommendations: Vec<String>,
}

/// Why an operation of the InfoSec department failed.
#[derive(Debug)]
pub enum InfoSecError {
    ScanFailed(String),
    IncidentHandlingFailed(String),
    ComplianceAuditFailed(String),
    SecurityControlError(String),
}

/// An agent of the InfoSec department.
#[derive(Clone, Debug)]
pub struct InfoSecAgent {
    pub agent: Agent,
    pub security_skill: u8,
    pub threat_detection_skill: u8,
    pub incident_response_skill: u8,
    pub security_posture: SecurityPosture,
    pub active_incidents: Table<u128, SecurityIncident>,
    pub compliance_status: ComplianceStatus,
}

/// The security score for the given counts of critical, high and medium
/// vulnerabilities: 100 less 20, 10 and 5 for each, and never under 0.
pub open spec fn posture_score(critical: nat, high: nat, medium: nat) -> int {
    if 20 * critical + 10 * high + 5 * medium >= 100 {
        0
    } else {
        100 - (20 * critical + 10 * high + 5 * medium)
    }
}

/// The security score lies between 0 and 100, and it does not rise when any
/// of the three counts rises while the others stay.
pub proof fn lemma_posture_score_bounded_and_monotone(
    critical: nat,
    high: nat,
    medium: nat,
    more_critical: nat,
    more_high: nat,
    more_medium: nat,
)
    requires
        critical <= more_critical,
        high <= more_high,
        medium <= more_medium,
    ensures
        0 <= posture_score(critical, high, medium) <= 100,
        posture_score(more_critical, more_high, more_medium) <= posture_score(
            critical,
            high,
            medium,
        ),
{
}

/// The number of vulnerabilities of one severity.
pub open spec fn count_with(vulnerabilities: Seq<Vulnerability>, severity: Severity) -> nat
    decreases vulnerabilities.len(),
{
    if vulnerabilities.len() == 0 {
        0
    } else {
        count_with(vulnerabilities.drop_last(), severity) + if vulnerabilities.last().severity
            == severity {
            1nat
        } else {
            0nat
        }
    }
}

/// The counts by severity of what a scan found, each kept in 32 bits.
pub open spec fn counts_of(vulnerabilities: Seq<Vulnerability>) -> VulnerabilityCounts {
    VulnerabilityCounts {
        critical: wrapped(count_with(vulnerabilities, Severity::Critical)),
        high: wrapped(count_with(vulnerabilities, Severity::High)),
        medium: wrapped(count_with(vulnerabilities, Severity::Medium)),
        low: wrapped(count_with(vulnerabilities, Severity::Low)),
        info: wrapped(count_with(vulnerabilities, Severity::Info)),
    }
}

/// `post` is `pre` after its posture was assessed at `now` on what a scan
/// found: the counts are overwritten with those of the scan, as 32 bits hold
/// them, and the score is recomputed from the numbers of critical, high and
/// medium findings. Nothing else changes; incidents in particular are not
/// touched.
pub open spec fn assessed(
    pre: InfoSecAgent,
    vulnerabilities: Seq<Vulnerability>,
    now: i64,
    post: InfoSecAgent,
) -> bool {
    post == (InfoSecAgent {
        security_posture: SecurityPosture {
            vulnerabilities: counts_of(vulnerabilities),
            overall_score: posture_score(
                count_with(vulnerabilities, Severity::Critical),
                count_with(vulnerabilities, Severity::High),
                count_with(vulnerabilities, Severity::Medium),
            ) as u8,
            last_assessment: now,
            ..pre.security_posture
        },
        ..pre
    })
}

/// The identifier of the finding that a scan reports for the raw draw.
pub open spec fn finding_id(raw: u64) -> Seq<char> {
    "CVE-2024-"@ + digits(spread(raw, 10_000) as nat)
}

/// `v` is the one finding that a scan of `target` reports.
pub open spec fn is_sample_finding(
    v: Vulnerability,
    target: Seq<char>,
    raw: u64,
    discovered: i64,
) -> bool {
    &&& v.id@ == finding_id(raw)
    &&& v.title@ == "Sample Vulnerability"@
    &&& v.severity == Severity::Medium
    &&& v.cvss_score == 65
    &&& v.description@ == "Sample vulnerability description"@
    &&& v.affected_system@ == target
    &&& v.remediation@ == "Apply security patch"@
    &&& v.discovered_at == discovered
}

/// `results` is what a scan of `target` reports: completed, with its one
/// finding.
pub open spec fn is_scan_report(
    results: ScanResults,
    target: Seq<char>,
    raw: u64,
    discovered: i64,
    started: i64,
    ended: i64,
) -> bool {
    &&& results.target@ == target
    &&& results.scan_start == started
    &&& results.scan_end == ended
    &&& results.vulnerabilities_found == 1
    &&& results.vulnerabilities@.len() == 1
    &&& is_sample_finding(results.vulnerabilities@[0], target, raw, discovered)
    &&& results.scan_status == ScanStatus::Completed
}

/// `incident` is an incident as reporting leaves it: open, assigned to the
/// agent that took the report, with the initial assessment as its only
/// resolution step.
pub open spec fn is_new_incident(
    incident: SecurityIncident,
    title: Seq<char>,
    description: Seq<char>,
    severity: Severity,
    affected_systems: Seq<Seq<char>>,
    agent_id: u128,
    id: u128,
    created: i64,
    updated: i64,
) -> bool {
    &&& incident.id == id
    &&& incident.title@ == title
    &&& incident.description@ == description
    &&& incident.severity == severity
    &&& incident.status == IncidentStatus::Open
    &&& incident.assigned_to == Some(agent_id)
    &&& incident.created_at == created
    &&& incident.updated_at == updated
    &&& texts(incident.resolution_steps@) == seq!["Initial assessment"@]
    &&& texts(incident.affected_systems@) == affected_systems
}

/// `post` is `pre` with an incident entered under `id`, and nothing else
/// changed.
pub open spec fn incident_opened(pre: InfoSecAgent, id: u128, post: InfoSecAgent) -> bool {
    &&& placed(pre.active_incidents@, id, post.active_incidents@)
    &&& post == (InfoSecAgent { active_incidents: post.active_incidents, ..pre })
}

/// The incident that `incident_opened(pre, id, post)` speaks of.
pub open spec fn incident_entered(
    pre: InfoSecAgent,
    id: u128,
    post: InfoSecAgent,
) -> SecurityIncident {
    post.active_incidents@[landing(pre.active_incidents@, id)].value
}

/// `post` is `pre` after an incident of the given description was reported.
pub open spec fn incident_reported(
    pre: InfoSecAgent,
    title: Seq<char>,
    description: Seq<char>,
    severity: Severity,
    affected_systems: Seq<Seq<char>>,
    post: InfoSecAgent,
) -> bool {
    exists|id: u128, created: i64, updated: i64|
        {
            &&& incident_opened(pre, id, post)
            &&& is_new_incident(
                incident_entered(pre, id, post),
                title,
                description,
                severity,
                affected_systems,
                pre.agent.id,
                id,
                created,
                updated,
            )
        }
}

/// Some control among `controls` has the identifier `id`.
pub open spec fn has_control(controls: Seq<SecurityControl>, id: Seq<char>) -> bool {
    exists|i: int| 0 <= i < controls.len() && (#[trigger] controls[i]).id@ == id
}

/// `post` is `pre` with the required control `id` in force: where `pre` has a
/// control of that identifier nothing changes, and where it has none an
/// active one of the given name and type is added at the end.
pub open spec fn control_ensured(
    pre: Seq<SecurityControl>,
    id: Seq<char>,
    name: Seq<char>,
    control_type: ControlType,
    post: Seq<SecurityControl>,
) -> bool {
    if has_control(pre, id) {
        post == pre
    } else {
        &&& post.len() == pre.len() + 1
        &&& post.drop_last() == pre
        &&& post.last().id@ == id
        &&& post.last().name@ == name
        &&& post.last().control_type == control_type
        &&& post.last().status == ControlStatus::Active
        &&& post.last().effectiveness == 85
    }
}

/// `post` is `pre` with the four required controls in force: access control,
/// encryption, firewall and monitoring, ensured in that order.
pub open spec fn controls_ensured(pre: Seq<SecurityControl>, post: Seq<SecurityControl>) -> bool {
    exists|first: Seq<SecurityControl>, second: Seq<SecurityControl>, third: Seq<SecurityControl>|
        {
            &&& control_ensured(
                pre,
                "access_control"@,
                "Multi-Factor Authentication"@,
                ControlType::AccessControl,
                first,
            )
            &&& control_ensured(
                first,
                "encryption"@,
                "Data Encryption at Rest"@,
                ControlType::Encryption,
                second,
            )
            &&& control_ensured(
                second,
                "firewall"@,
                "Network Firewall"@,
                ControlType::NetworkSecurity,
                third,
            )
            &&& control_ensured(
                third,
                "monitoring"@,
                "Security Information and Event Management"@,
                ControlType::Monitoring,
                post,
            )
        }
}

/// `post` is `pre` after its required controls were brought in force, and
/// nothing else changed.
pub open spec fn controls_updated(pre: InfoSecAgent, post: InfoSecAgent) -> bool {
    &&& controls_ensured(
        pre.security_posture.active_controls@,
        post.security_posture.active_controls@,
    )
    &&& post == (InfoSecAgent {
        security_posture: SecurityPosture {
            active_controls: post.security_posture.active_controls,
            ..pre.security_posture
        },
        ..pre
    })
}

/// The three scores that an audit gives for its three raw draws: GDPR from 80,
/// SOC 2 from 85, ISO 27001 from 90, each under 100.
pub open spec fn gdpr_score(raw: u64) -> int {
    80 + spread(raw, 20)
}

/// The SOC 2 score that a raw draw stands for.
pub open spec fn soc2_score(raw: u64) -> int {
    85 + spread(raw, 15)
}

/// The ISO 27001 score that a raw draw stands for.
pub open spec fn iso27001_score(raw: u64) -> int {
    90 + spread(raw, 10)
}

/// `post` is `pre` after an audit at `audited` that drew the three raw
/// values, and `results`, dated `dated`, is its report: the three scores,
/// their average, no issue, and the three standing recommendations.
pub open spec fn audited(
    pre: InfoSecAgent,
    gdpr_raw: u64,
    soc2_raw: u64,
    iso27001_raw: u64,
    audited: i64,
    dated: i64,
    post: InfoSecAgent,
    results: AuditResults,
) -> bool {
    &&& post == (InfoSecAgent {
        compliance_status: ComplianceStatus {
            gdpr_compliance: gdpr_score(gdpr_raw) as u8,
            soc2_compliance: soc2_score(soc2_raw) as u8,
            iso27001_compliance: iso27001_score(iso27001_raw) as u8,
            last_audit: audited,
            ..pre.compliance_status
        },
        ..pre
    })
    &&& results.audit_date == dated
    &&& results.gdpr_compliance == gdpr_score(gdpr_raw)
    &&& results.soc2_compliance == soc2_score(soc2_raw)
    &&& results.iso27001_compliance == iso27001_score(iso27001_raw)
    &&& results.overall_compliance == (gdpr_score(gdpr_raw) + soc2_score(soc2_raw)
        + iso27001_score(iso27001_raw)) / 3
    &&& results.issues_found@.len() == 0
    &&& texts(results.recommendations@) == seq![
        "Review access control policies"@,
        "Update encryption standards"@,
        "Enhance monitoring capabilities"@,
    ]
}

/// `post` is `pre` after some audit.
pub open spec fn reaudited(pre: InfoSecAgent, post: InfoSecAgent) -> bool {
    exists|
        gdpr_raw: u64,
        soc2_raw: u64,
        iso27001_raw: u64,
        at: i64,
        dated: i64,
        results: AuditResults,
    | audited(pre, gdpr_raw, soc2_raw, iso27001_raw, at, dated, post, results)
}

/// The kind of threat that a raw draw stands for.
pub open spec fn threat_kind(raw: u64) -> EventType {
    if spread(raw, 3) == 0 {
        EventType::SuspiciousActivity
    } else if spread(raw, 3) == 1 {
        EventType::UnauthorizedAccess
    } else {
        EventType::MalwareDetected
    }
}

/// The severity of a threat that a raw draw stands for: critical for one
/// draw in ten, high for two, medium for three, low for the rest.
pub open spec fn threat_severity(raw: u64) -> Severity {
    if falls_under(raw, 1_000) {
        Severity::Critical
    } else if falls_under(raw, 3_000) {
        Severity::High
    } else if falls_under(raw, 6_000) {
        Severity::Medium
    } else {
        Severity::Low
    }
}

impl EventType {
    /// The name of the kind of event in lower case.
    pub open spec fn lower_name(self) -> Seq<char> {
        match self {
            EventType::UnauthorizedAccess => "unauthorizedaccess"@,
            EventType::MalwareDetected => "malwaredetected"@,
            EventType::DDoSAttack => "ddosattack"@,
            EventType::DataBreach => "databreach"@,
            EventType::PolicyViolation => "policyviolation"@,
            EventType::SuspiciousActivity => "suspiciousactivity"@,
            EventType::SystemCompromise => "systemcompromise"@,
        }
    }

    /// The name of the kind of event in lower case.
    pub fn lower_str(&self) -> (s: &'static str)
        ensures
            s@ == self.lower_name(),
    {
        match self {
            EventType::UnauthorizedAccess => "unauthorizedaccess",
            EventType::MalwareDetected => "malwaredetected",
            EventType::DDoSAttack => "ddosattack",
            EventType::DataBreach => "databreach",
            EventType::PolicyViolation => "policyviolation",
            EventType::SuspiciousActivity => "suspiciousactivity",
            EventType::SystemCompromise => "systemcompromise",
        }
    }
}

/// How an incident is announced.
#[derive(Clone, Copy, Debug, PartialEq, Eq, Structural)]
pub enum Announcement {
    /// As an alert, for everyone to see.
    Alert,
    /// As an entry of the log.
    Entry,
}

impl Severity {
    /// How an incident of this severity is announced: a critical one as an
    /// alert, any other as an entry of the log.
    pub open spec fn announcement(self) -> Announcement {
        if self == Severity::Critical {
            Announcement::Alert
        } else {
            Announcement::Entry
        }
    }

    /// How an incident of this severity is announced.
    pub fn announce(&self) -> (a: Announcement)
        ensures
            a == self.announcement(),
    {
        match self {
            Severity::Critical => Announcement::Alert,
            _ => Announcement::Entry,
        }
    }

    /// The name of the severity in lower case.
    pub open spec fn lower_name(self) -> Seq<char> {
        match self {
            Severity::Critical => "critical"@,
            Severity::High => "high"@,
            Severity::Medium => "medium"@,
            Severity::Low => "low"@,
            Severity::Info => "info"@,
        }
    }

    /// The name of the severity in lower case.
    pub fn lower_str(&self) -> (s: &'static str)
        ensures
            s@ == self.lower_name(),
    {
        match self {
            Severity::Critical => "critical",
            Severity::High => "high",
            Severity::Medium => "medium",
            Severity::Low => "low",
            Severity::Info => "info",
        }
    }
}

/// `event` is the event that threat monitoring logs for the raw draws.
pub open spec fn is_threat_event(
    event: SecurityEvent,
    kind_raw: u64,
    severity_raw: u64,
    id: u128,
    now: i64,
) -> bool {
    &&& event.id == id
    &&& event.event_type == threat_kind(kind_raw)
    &&& event.severity == threat_severity(severity_raw)
    &&& event.description@ == "Detected "@ + threat_kind(kind_raw).lower_name() + " with "@
        + threat_severity(severity_raw).lower_name() + " severity"@
    &&& event.source@ == "threat_monitoring_system"@
    &&& event.timestamp == now
    &&& !event.resolved
}

/// `post` is `pre` after threat monitoring with the given draws, and `events`
/// is what it detected: one event, logged at the end of the recent events,
/// where the first draw falls under the chance of detection, and nothing
/// otherwise.
pub open spec fn monitored(
    pre: InfoSecAgent,
    chance_raw: u64,
    kind_raw: u64,
    severity_raw: u64,
    id: u128,
    now: i64,
    post: InfoSecAgent,
    events: Seq<SecurityEvent>,
) -> bool {
    if falls_under(chance_raw, DETECTION_CHANCE) {
        &&& events.len() == 1
        &&& is_threat_event(events[0], kind_raw, severity_raw, id, now)
        &&& post.security_posture.recent_events@ == pre.security_posture.recent_events@.push(
            events[0],
        )
        &&& post == (InfoSecAgent {
            security_posture: SecurityPosture {
                recent_events: post.security_posture.recent_events,
                ..pre.security_posture
            },
            ..pre
        })
    } else {
        events.len() == 0 && post == pre
    }
}

/// `post` is `pre` after some round of threat monitoring.
pub open spec fn watched(pre: InfoSecAgent, post: InfoSecAgent) -> bool {
    exists|
        chance_raw: u64,
        kind_raw: u64,
        severity_raw: u64,
        id: u128,
        now: i64,
        events: Seq<SecurityEvent>,
    | monitored(pre, chance_raw, kind_raw, severity_raw, id, now, post, events)
}

/// `post` is `pre` after some scan with its one finding of medium severity
/// was assessed.
pub open spec fn rescanned(pre: InfoSecAgent, target: Seq<char>, post: InfoSecAgent) -> bool {
    exists|results: ScanResults, raw: u64, discovered: i64, started: i64, ended: i64, at: i64|
        {
            &&& is_scan_report(results, target, raw, discovered, started, ended)
            &&& assessed(pre, results.vulnerabilities@, at, post)
        }
}

impl Default for SecurityPosture {
    /// The posture of a new agent, assessed as of the current time.
    fn default() -> (p: Self)
        ensures
            p.overall_score == 85,
            p.vulnerabilities == (VulnerabilityCounts {
                critical: 0,
                high: 2,
                medium: 5,
                low: 12,
                info: 25,
            }),
            p.active_controls@.len() == 0,
            p.recent_events@.len() == 0,
    {
        SecurityPosture {
            overall_score: 85,
            vulnerabilities: VulnerabilityCounts {
                critical: 0,
                high: 2,
                medium: 5,
                low: 12,
                info: 25,
            },
            active_controls: Vec::new(),
            recent_events: Vec::new(),
            last_assessment: now(),
        }
    }
}

impl Default for ComplianceStatus {
    /// The compliance of a new agent, audited as of the current time.
    fn default() -> (c: Self)
        ensures
            c.gdpr_compliance == 85,
            c.soc2_compliance == 88,
            c.iso27001_compliance == 82,
            c.open_issues@.len() == 0,
    {
        ComplianceStatus {
            gdpr_compliance: 85,
            soc2_compliance: 88,
            iso27001_compliance: 82,
            last_audit: now(),
            open_issues: Vec::new(),
        }
    }
}

/// Counts the vulnerabilities of one severity.
pub fn count_severity(vulnerabilities: &Vec<Vulnerability>, severity: Severity) -> (n: usize)
    ensures
        n == count_with(vulnerabilities@, severity),
{
    let mut n: usize = 0;
    let mut i: usize = 0;
    while i < vulnerabilities.len()
        invariant
            i <= vulnerabilities@.len(),
            n == count_with(vulnerabilities@.take(i as int), severity),
            n <= i,
        decreases vulnerabilities@.len() - i,
    {
        assert(vulnerabilities@.take(i + 1).drop_last() =~= vulnerabilities@.take(i as int));
        if vulnerabilities[i].severity == severity {
            n = n + 1;
        }
        i += 1;
    }
    assert(vulnerabilities@.take(i as int) =~= vulnerabilities@);
    n
}

/// Computes the security score from the counts of critical, high and medium
/// vulnerabilities.
pub fn score_posture(critical: usize, high: usize, medium: usize) -> (score: u8)
    ensures
        score == posture_score(critical as nat, high as nat, medium as nat),
{
    let penalty: u128 = 20 * (critical as u128) + 10 * (high as u128) + 5 * (medium as u128);
    if penalty >= 100 {
        0
    } else {
        (100 - penalty) as u8
    }
}

/// `a` is an InfoSec agent as it starts: of the given name and manager, with
/// its skills, the default posture and compliance, and no incident.
pub open spec fn is_new_agent(a: InfoSecAgent, name: Seq<char>, manager_id: Option<u128>) -> bool {
    &&& a.agent.name@ == name
    &&& a.agent.department == Department::InfoSec
    &&& a.agent.manager_id == manager_id
    &&& a.security_skill == 95
    &&& a.threat_detection_skill == 90
    &&& a.incident_response_skill == 85
    &&& a.security_posture.overall_score == 85
    &&& a.security_posture.vulnerabilities == (VulnerabilityCounts {
        critical: 0,
        high: 2,
        medium: 5,
        low: 12,
        info: 25,
    })
    &&& a.security_posture.active_controls@.len() == 0
    &&& a.security_posture.recent_events@.len() == 0
    &&& a.active_incidents@.len() == 0
    &&& a.compliance_status.gdpr_compliance == 85
    &&& a.compliance_status.soc2_compliance == 88
    &&& a.compliance_status.iso27001_compliance == 82
    &&& a.compliance_status.open_issues@.len() == 0
}

impl InfoSecAgent {
    /// A new InfoSec agent, under a fresh identifier.
    pub fn new(name: String, manager_id: Option<u128>) -> (a: Self)
        ensures
            a.agent == (Agent {
                id: a.agent.id,
                name,
                department: Department::InfoSec,
                manager_id,
            }),
            a.agent.id != NIL_ID,
            is_new_agent(a, name@, manager_id),
    {
        InfoSecAgent {
            agent: Agent::new(name, Department::InfoSec, manager_id),
            security_skill: 95,
            threat_detection_skill: 90,
            incident_response_skill: 85,
            security_posture: SecurityPosture::default(),
            active_incidents: Table::new(),
            compliance_status: ComplianceStatus::default(),
        }
    }

    /// Assesses the posture at `now` on what a scan found.
    pub fn update_security_posture_with(&mut self, scan_results: &ScanResults, now: i64) -> (r:
        Result<(), InfoSecError>)
        ensures
            r is Ok,
            assessed(*old(self), scan_results.vulnerabilities@, now, *final(self)),
    {
        let critical = count_severity(&scan_results.vulnerabilities, Severity::Critical);
        let high = count_severity(&scan_results.vulnerabilities, Severity::High);
        let medium = count_severity(&scan_results.vulnerabilities, Severity::Medium);
        let low = count_severity(&scan_results.vulnerabilities, Severity::Low);
        let info = count_severity(&scan_results.vulnerabilities, Severity::Info);
        self.security_posture.vulnerabilities = VulnerabilityCounts {
            critical: wrap(critical),
            high: wrap(high),
            medium: wrap(medium),
            low: wrap(low),
            info: wrap(info),
        };
        self.security_posture.overall_score = score_posture(critical, high, medium);
        self.security_posture.last_assessment = now;
        Ok(())
    }

    /// Assesses the posture, as of the current time, on what a scan found.
    pub fn update_security_posture(&mut self, scan_results: &ScanResults) -> (r: Result<
        (),
        InfoSecError,
    >)
        ensures
            r is Ok,
            exists|now: i64| assessed(*old(self), scan_results.vulnerabilities@, now, *final(self)),
    {
        let at = now();
        self.update_security_posture_with(scan_results, at)
    }

    /// Scans `target` and assesses the posture on the result. The scan is
    /// synthetic: it reports one finding of medium severity, numbered by the
    /// raw draw, found at `discovered`; the scan runs from `started` to
    /// `ended` and the posture is assessed at `assessed_at`.
    pub fn perform_vulnerability_scan_with(
        &mut self,
        target: &str,
        raw: u64,
        discovered: i64,
        started: i64,
        ended: i64,
        assessed_at: i64,
    ) -> (r: Result<ScanResults, InfoSecError>)
        ensures
            r matches Ok(results) && is_scan_report(
                results,
                target@,
                raw,
                discovered,
                started,
                ended,
            ) && assessed(*old(self), results.vulnerabilities@, assessed_at, *final(self)),
    {
        let number: u32 = sample(raw, 10_000);
        let finding = Vulnerability {
            id: String::from_str("CVE-2024-").concat(unsigned_string(number as u64).as_str()),
            title: String::from_str("Sample Vulnerability"),
            severity: Severity::Medium,
            cvss_score: 65,
            description: String::from_str("Sample vulnerability description"),
            affected_system: String::from_str(target),
            remediation: String::from_str("Apply security patch"),
            discovered_at: discovered,
        };
        let mut vulnerabilities: Vec<Vulnerability> = Vec::new();
        vulnerabilities.push(finding);
        let results = ScanResults {
            target: String::from_str(target),
            scan_start: started,
            scan_end: ended,
            vulnerabilities_found: 1,
            vulnerabilities,
            scan_status: ScanStatus::Completed,
        };
        let _ = self.update_security_posture_with(&results, assessed_at);
        Ok(results)
    }

    /// Scans `target` and assesses the posture on the result.
    pub fn perform_vulnerability_scan(&mut self, target: &str) -> (r: Result<
        ScanResults,
        InfoSecError,
    >)
        ensures
            r matches Ok(results) && exists|
                raw: u64,
                discovered: i64,
                started: i64,
                ended: i64,
                at: i64,
            |
                {
                    &&& is_scan_report(results, target@, raw, discovered, started, ended)
                    &&& assessed(*old(self), results.vulnerabilities@, at, *final(self))
                },
    {
        let raw = draw();
        let discovered = now();
        let started = now();
        let ended = now();
        let at = now();
        self.perform_vulnerability_scan_with(target, raw, discovered, started, ended, at)
    }

    /// Opens an incident for a report, under the identifier `id`, created at
    /// `created` and last updated at `updated`. The incident is assigned to
    /// this agent.
    pub fn handle_incident_with(
        &mut self,
        incident_report: IncidentReport,
        id: u128,
        created: i64,
        updated: i64,
    ) -> (r: u128)
        ensures
            r == id,
            incident_opened(*old(self), id, *final(self)),
            is_new_incident(
                incident_entered(*old(self), id, *final(self)),
                incident_report.title@,
                incident_report.description@,
                incident_report.severity,
                texts(incident_report.affected_systems@),
                old(self).agent.id,
                id,
                created,
                updated,
            ),
    {
        let mut resolution_steps: Vec<String> = Vec::new();
        resolution_steps.push(String::from_str("Initial assessment"));
        assert(texts(resolution_steps@) =~= seq!["Initial assessment"@]);
        let incident = SecurityIncident {
            id,
            title: incident_report.title,
            description: incident_report.description,
            severity: incident_report.severity,
            status: IncidentStatus::Open,
            assigned_to: Some(self.agent.id),
            created_at: created,
            updated_at: updated,
            resolution_steps,
            affected_systems: incident_report.affected_systems,
        };
        self.active_incidents.insert(id, incident);
        id
    }

    /// Opens an incident for a report, under a fresh identifier.
    pub fn handle_incident(&mut self, incident_report: IncidentReport) -> (r: Result<
        u128,
        InfoSecError,
    >)
        ensures
            r matches Ok(id) && incident_opened(*old(self), id, *final(self)) && exists|
                created: i64,
                updated: i64,
            |
                is_new_incident(
                    incident_entered(*old(self), id, *final(self)),
                    incident_report.title@,
                    incident_report.description@,
                    incident_report.severity,
                    texts(incident_report.affected_systems@),
                    old(self).agent.id,
                    id,
                    created,
                    updated,
                ),
    {
        let id = fresh_id();
        let created = now();
        let updated = now();
        Ok(self.handle_incident_with(incident_report, id, created, updated))
    }

    /// Whether a control of the given identifier is in force.
    pub fn has_control(&self, id: &str) -> (b: bool)
        ensures
            b == has_control(self.security_posture.active_controls@, id@),
    {
        let wanted = String::from_str(id);
        let mut i: usize = 0;
        while i < self.security_posture.active_controls.len()
            invariant
                i <= self.security_posture.active_controls@.len(),
                wanted@ == id@,
                forall|j: int|
                    0 <= j < i ==> (#[trigger] self.security_posture.active_controls@[j]).id@
                        != id@,
            decreases self.security_posture.active_controls@.len() - i,
        {
            if self.security_posture.active_controls[i].id == wanted {
                return true;
            }
            i += 1;
        }
        false
    }

    /// Brings one required control in force, checked at `now`, unless a
    /// control of that identifier is there already.
    pub fn ensure_control_with(&mut self, id: &str, name: &str, control_type: ControlType, now: i64)
        ensures
            control_ensured(
                old(self).security_posture.active_controls@,
                id@,
                name@,
                control_type,
                final(self).security_posture.active_controls@,
            ),
            !has_control(old(self).security_posture.active_controls@, id@) ==> {
                final(self).security_posture.active_controls@.last().last_check == now
            },
            *final(self) == (InfoSecAgent {
                security_posture: SecurityPosture {
                    active_controls: final(self).security_posture.active_controls,
                    ..old(self).security_posture
                },
                ..*old(self)
            }),
    {
        if !self.has_control(id) {
            self.security_posture.active_controls.push(
                SecurityControl {
                    id: String::from_str(id),
                    name: String::from_str(name),
                    control_type,
                    status: ControlStatus::Active,
                    last_check: now,
                    effectiveness: 85,
                },
            );
            assert(self.security_posture.active_controls@.drop_last() =~= old(
                self,
            ).security_posture.active_controls@);
        }
    }

    /// Brings the four required controls in force: multi-factor
    /// authentication, encryption at rest, the network firewall, and security
    /// monitoring. A control that is there already is left as it is.
    pub fn update_security_controls(&mut self) -> (r: Result<(), InfoSecError>)
        ensures
            r is Ok,
            controls_updated(*old(self), *final(self)),
    {
        self.ensure_control_with(
            "access_control",
            "Multi-Factor Authentication",
            ControlType::AccessControl,
            now(),
        );
        self.ensure_control_with(
            "encryption",
            "Data Encryption at Rest",
            ControlType::Encryption,
            now(),
        );
        self.ensure_control_with(
            "firewall",
            "Network Firewall",
            ControlType::NetworkSecurity,
            now(),
        );
        self.ensure_control_with(
            "monitoring",
            "Security Information and Event Management",
            ControlType::Monitoring,
            now(),
        );
        Ok(())
    }

    /// Audits compliance at `audited_at` with the three raw draws, and dates
    /// the report `dated`.
    pub fn perform_compliance_audit_with(
        &mut self,
        gdpr_raw: u64,
        soc2_raw: u64,
        iso27001_raw: u64,
        audited_at: i64,
        dated: i64,
    ) -> (r: Result<AuditResults, InfoSecError>)
        ensures
            r matches Ok(results) && audited(
                *old(self),
                gdpr_raw,
                soc2_raw,
                iso27001_raw,
                audited_at,
                dated,
                *final(self),
                results,
            ),
    {
        let gdpr: u8 = (80 + sample(gdpr_raw, 20)) as u8;
        let soc2: u8 = (85 + sample(soc2_raw, 15)) as u8;
        let iso27001: u8 = (90 + sample(iso27001_raw, 10)) as u8;
        self.compliance_status.gdpr_compliance = gdpr;
        self.compliance_status.soc2_compliance = soc2;
        self.compliance_status.iso27001_compliance = iso27001;
        self.compliance_status.last_audit = audited_at;
        let mut recommendations: Vec<String> = Vec::new();
        recommendations.push(String::from_str("Review access control policies"));
        recommendations.push(String::from_str("Update encryption standards"));
        recommendations.push(String::from_str("Enhance monitoring capabilities"));
        assert(texts(recommendations@) =~= seq![
            "Review access control policies"@,
            "Update encryption standards"@,
            "Enhance monitoring capabilities"@,
        ]);
        Ok(
            AuditResults {
                audit_date: dated,
                gdpr_compliance: gdpr,
                soc2_compliance: soc2,
                iso27001_compliance: iso27001,
                overall_compliance: (((gdpr as u16) + (soc2 as u16) + (iso27001 as u16)) / 3) as u8,
                issues_found: Vec::new(),
                recommendations,
            },
        )
    }

    /// Audits compliance: recomputes the three scores and reports them with
    /// their average and the standing recommendations.
    pub fn perform_compliance_audit(&mut self) -> (r: Result<AuditResults, InfoSecError>)
        ensures
            r matches Ok(results) && exists|
                gdpr_raw: u64,
                soc2_raw: u64,
                iso27001_raw: u64,
                at: i64,
                dated: i64,
            |
                audited(
                    *old(self),
                    gdpr_raw,
                    soc2_raw,
                    iso27001_raw,
                    at,
                    dated,
                    *final(self),
                    results,
                ),
    {
        let gdpr_raw = draw();
        let soc2_raw = draw();
        let iso27001_raw = draw();
        let at = now();
        let dated = now();
        self.perform_compliance_audit_with(gdpr_raw, soc2_raw, iso27001_raw, at, dated)
    }

    /// Looks for threats with the given draws: `chance_raw` decides whether
    /// anything is detected, `kind_raw` and `severity_raw` what. A detected
    /// event gets the identifier `id` and the time `now`, is logged, and is
    /// returned.
    pub fn monitor_threats_with(
        &mut self,
        chance_raw: u64,
        kind_raw: u64,
        severity_raw: u64,
        id: u128,
        now: i64,
    ) -> (r: Result<Vec<SecurityEvent>, InfoSecError>)
        ensures
            r matches Ok(events) && monitored(
                *old(self),
                chance_raw,
                kind_raw,
                severity_raw,
                id,
                now,
                *final(self),
                events@,
            ),
    {
        let mut events: Vec<SecurityEvent> = Vec::new();
        if happens(chance_raw, DETECTION_CHANCE) {
            let pick: u32 = sample(kind_raw, 3);
            let event_type = if pick == 0 {
                EventType::SuspiciousActivity
            } else if pick == 1 {
                EventType::UnauthorizedAccess
            } else {
                EventType::MalwareDetected
            };
            let severity = if happens(severity_raw, 1_000) {
                Severity::Critical
            } else if happens(severity_raw, 3_000) {
                Severity::High
            } else if happens(severity_raw, 6_000) {
                Severity::Medium
            } else {
                Severity::Low
            };
            let event = SecurityEvent {
                id,
                event_type,
                severity,
                description: String::from_str("Detected ").concat(event_type.lower_str()).concat(
                    " with ",
                ).concat(severity.lower_str()).concat(" severity"),
                source: String::from_str("threat_monitoring_system"),
                timestamp: now,
                resolved: false,
            };
            events.push(event.clone());
            self.security_posture.recent_events.push(event);
        }
        Ok(events)
    }

    /// Looks for threats. What is detected is logged and returned.
    pub fn monitor_threats(&mut self) -> (r: Result<Vec<SecurityEvent>, InfoSecError>)
        ensures
            r matches Ok(events) && exists|
                chance_raw: u64,
                kind_raw: u64,
                severity_raw: u64,
                id: u128,
                now: i64,
            |
                monitored(
                    *old(self),
                    chance_raw,
                    kind_raw,
                    severity_raw,
                    id,
                    now,
                    *final(self),
                    events@,
                ),
    {
        let chance_raw = draw();
        let kind_raw = draw();
        let severity_raw = draw();
        let id = fresh_id();
        let at = now();
        self.monitor_threats_with(chance_raw, kind_raw, severity_raw, id, at)
    }
}

/// The kinds of message that the department knows are five different texts.
pub proof fn lemma_kinds_differ()
    ensures
        "vulnerability_scan"@ != "incident_report"@,
        "vulnerability_scan"@ != "threat_check"@,
        "vulnerability_scan"@ != "compliance_audit"@,
        "vulnerability_scan"@ != "security_update"@,
        "incident_report"@ != "threat_check"@,
        "incident_report"@ != "compliance_audit"@,
        "incident_report"@ != "security_update"@,
        "threat_check"@ != "compliance_audit"@,
        "threat_check"@ != "security_update"@,
        "compliance_audit"@ != "security_update"@,
{
    reveal_strlit("vulnerability_scan");
    reveal_strlit("incident_report");
    reveal_strlit("threat_check");
    reveal_strlit("compliance_audit");
    reveal_strlit("security_update");
    assert("vulnerability_scan"@.len() == 18);
    assert("threat_check"@.len() == 12);
    assert("compliance_audit"@.len() == 16);
    assert("incident_report"@[0] == 'i');
}

impl AgentTrait for InfoSecAgent {
    /// Every message can be taken.
    open spec fn accepts(&self, message: Message) -> bool {
        true
    }

    /// What each kind of message does:
    /// `vulnerability_scan` scans the system named by the parameter `target`
    /// and assesses the posture, and does nothing where no target is given;
    /// `incident_report` opens an incident of high severity, titled by the
    /// parameter `title` (default `Security Incident`) and described by the
    /// content of the message, with the affected system unknown;
    /// `threat_check` looks for threats; `compliance_audit` audits;
    /// `security_update` brings the required controls in force; any other
    /// kind changes nothing.
    open spec fn handles(pre: Self, message: Message, post: Self) -> bool {
        if message.message_type@ == "vulnerability_scan"@ {
            match parameter(message.metadata@, "target"@) {
                Some(target) => rescanned(pre, target, post),
                None => post == pre,
            }
        } else if message.message_type@ == "incident_report"@ {
            incident_reported(
                pre,
                parameter_or(message.metadata@, "title"@, "Security Incident"@),
                message.content@,
                Severity::High,
                seq!["unknown"@],
                post,
            )
        } else if message.message_type@ == "threat_check"@ {
            watched(pre, post)
        } else if message.message_type@ == "compliance_audit"@ {
            reaudited(pre, post)
        } else if message.message_type@ == "security_update"@ {
            controls_updated(pre, post)
        } else {
            post == pre
        }
    }

    open spec fn fit_for_daily_tasks(&self) -> bool {
        true
    }

    /// The daily round: threat monitoring, a vulnerability scan, an update of
    /// the controls, a compliance audit, each as a note to self. The note for
    /// the scan names no target.
    open spec fn maintains(pre: Self, post: Self) -> bool {
        exists|
            first: Message,
            watched: Self,
            second: Message,
            scanned: Self,
            third: Message,
            updated: Self,
            fourth: Message,
        |
            {
                &&& is_note_to_self(
                    first,
                    pre.agent.id,
                    "threat_check"@,
                    "Daily threat monitoring"@,
                )
                &&& Self::handles(pre, first, watched)
                &&& is_note_to_self(
                    second,
                    pre.agent.id,
                    "vulnerability_scan"@,
                    "Daily vulnerability scan"@,
                )
                &&& Self::handles(watched, second, scanned)
                &&& is_note_to_self(
                    third,
                    pre.agent.id,
                    "security_update"@,
                    "Daily security control update"@,
                )
                &&& Self::handles(scanned, third, updated)
                &&& is_note_to_self(
                    fourth,
                    pre.agent.id,
                    "compliance_audit"@,
                    "Regular compliance audit"@,
                )
                &&& Self::handles(updated, fourth, post)
            }
    }

    open spec fn record(&self) -> Agent {
        self.agent
    }

    fn process_message(&mut self, message: Message) -> (r: Result<(), AgentError>) {
        proof {
            lemma_kinds_differ();
        }
        if reads(&message.message_type, "vulnerability_scan") {
            match message.parameter("target") {
                Some(target) => {
                    match self.perform_vulnerability_scan(target.as_str()) {
                        Ok(_) => {},
                        Err(e) => {
                            return Err(AgentError::InfoSec(e));
                        },
                    }
                },
                None => {},
            }
        } else if reads(&message.message_type, "incident_report") {
            let title = message.parameter_or("title", "Security Incident");
            let mut affected_systems: Vec<String> = Vec::new();
            affected_systems.push(String::from_str("unknown"));
            assert(texts(affected_systems@) =~= seq!["unknown"@]);
            let incident_report = IncidentReport {
                title,
                description: message.content,
                severity: Severity::High,
                affected_systems,
            };
            match self.handle_incident(incident_report) {
                Ok(_) => {},
                Err(e) => {
                    return Err(AgentError::InfoSec(e));
                },
            }
        } else if reads(&message.message_type, "threat_check") {
            match self.monitor_threats() {
                Ok(_) => {},
                Err(e) => {
                    return Err(AgentError::InfoSec(e));
                },
            }
        } else if reads(&message.message_type, "compliance_audit") {
            match self.perform_compliance_audit() {
                Ok(_) => {},
                Err(e) => {
                    return Err(AgentError::InfoSec(e));
                },
            }
        } else if reads(&message.message_type, "security_update") {
            match self.update_security_controls() {
                Ok(_) => {},
                Err(e) => {
                    return Err(AgentError::InfoSec(e));
                },
            }
        }
        Ok(())
    }

    fn perform_daily_tasks(&mut self) -> (r: Result<(), AgentError>) {
        let first = Message::note_to_self(self.agent.id, "threat_check", "Daily threat monitoring");
        let ghost first_sent = first;
        let _ = self.process_message(first);
        let ghost watched = *self;
        let second = Message::note_to_self(
            self.agent.id,
            "vulnerability_scan",
            "Daily vulnerability scan",
        );
        let ghost second_sent = second;
        let _ = self.process_message(second);
        let ghost scanned = *self;
        let third = Message::note_to_self(
            self.agent.id,
            "security_update",
            "Daily security control update",
        );
        let ghost third_sent = third;
        let _ = self.process_message(third);
        let ghost updated = *self;
        let fourth = Message::note_to_self(
            self.agent.id,
            "compliance_audit",
            "Regular compliance audit",
        );
        let _ = self.process_message(fourth);
        proof {
            lemma_kinds_differ();
            lemma_handling_keeps_record(*old(self), first_sent, watched);
            lemma_handling_keeps_record(watched, second_sent, scanned);
            lemma_handling_keeps_record(scanned, third_sent, updated);
        }
        Ok(())
    }

    fn can_accept(&self, message: &Message) -> (b: bool) {
        true
    }

    fn can_run_daily_tasks(&self) -> (b: bool) {
        true
    }

    fn get_agent(&self) -> (a: &Agent) {
        &self.agent
    }

    fn get_agent_mut(&mut self) -> (a: &mut Agent) {
        &mut self.agent
    }
}

/// Taking a message changes neither the agent's record nor its skills.
pub proof fn lemma_handling_keeps_record(pre: InfoSecAgent, message: Message, post: InfoSecAgent)
    requires
        InfoSecAgent::handles(pre, message, post),
    ensures
        post.agent == pre.agent,
        post.security_skill == pre.security_skill,
        post.threat_detection_skill == pre.threat_detection_skill,
        post.incident_response_skill == pre.incident_response_skill,
        message.message_type@ != "incident_report"@ ==> post.active_incidents
            == pre.active_incidents,
{
    lemma_kinds_differ();
}

/// The daily round changes neither the agent's record nor any incident.
pub proof fn lemma_daily_round_keeps_record(pre: InfoSecAgent, post: InfoSecAgent)
    requires
        InfoSecAgent::maintains(pre, post),
    ensures
        post.agent == pre.agent,
        post.active_incidents == pre.active_incidents,
{
    lemma_kinds_differ();
    let (first, watched, second, scanned, third, updated, fourth) = choose|
        first: Message,
        watched: InfoSecAgent,
        second: Message,
        scanned: InfoSecAgent,
        third: Message,
        updated: InfoSecAgent,
        fourth: Message,
    |
        {
            &&& is_note_to_self(first, pre.agent.id, "threat_check"@, "Daily threat monitoring"@)
            &&& InfoSecAgent::handles(pre, first, watched)
            &&& is_note_to_self(
                second,
                pre.agent.id,
                "vulnerability_scan"@,
                "Daily vulnerability scan"@,
            )
            &&& InfoSecAgent::handles(watched, second, scanned)
            &&& is_note_to_self(
                third,
                pre.agent.id,
                "security_update"@,
                "Daily security control update"@,
            )
            &&& InfoSecAgent::handles(scanned, third, updated)
            &&& is_note_to_self(
                fourth,
                pre.agent.id,
                "compliance_audit"@,
                "Regular compliance audit"@,
            )
            &&& InfoSecAgent::handles(updated, fourth, post)
        };
    lemma_handling_keeps_record(pre, first, watched);
    lemma_handling_keeps_record(watched, second, scanned);
    lemma_handling_keeps_record(scanned, third, updated);
    lemma_handling_keeps_record(updated, fourth, post);
}

/// A scan never touches an incident: whatever it finds only moves the score.
pub proof fn lemma_scan_spares_incidents(pre: InfoSecAgent, target: Seq<char>, post: InfoSecAgent)
    requires
        rescanned(pre, target, post),
    ensures
        post.active_incidents == pre.active_incidents,
        post.security_posture.overall_score == 95,
        post.security_posture.vulnerabilities == (VulnerabilityCounts {
            critical: 0,
            high: 0,
            medium: 1,
            low: 0,
            info: 0,
        }),
{
    let (results, raw, discovered, started, ended, at) = choose|
        results: ScanResults,
        raw: u64,
        discovered: i64,
        started: i64,
        ended: i64,
        at: i64,
    |
        {
            &&& is_scan_report(results, target, raw, discovered, started, ended)
            &&& assessed(pre, results.vulnerabilities@, at, post)
        };
    reveal_with_fuel(count_with, 2);
}

impl InfoSecAgent {
    /// The registry is in order: no identifier stands for two incidents.
    pub open spec fn sound(self) -> bool {
        distinct_keys(self.active_incidents@)
    }
}

/// An agent as it starts is sound.
pub proof fn lemma_new_agent_is_sound(
    agent: InfoSecAgent,
    name: Seq<char>,
    manager_id: Option<u128>,
)
    requires
        is_new_agent(agent, name, manager_id),
    ensures
        agent.sound(),
{
}

/// Taking a message keeps the agent sound.
pub proof fn lemma_handling_keeps_sound(pre: InfoSecAgent, message: Message, post: InfoSecAgent)
    requires
        pre.sound(),
        InfoSecAgent::handles(pre, message, post),
    ensures
        post.sound(),
{
    lemma_kinds_differ();
    lemma_handling_keeps_record(pre, message, post);
    if message.message_type@ == "incident_report"@ {
        let (id, created, updated) = choose|id: u128, created: i64, updated: i64|
            {
                &&& incident_opened(pre, id, post)
                &&& is_new_incident(
                    incident_entered(pre, id, post),
                    parameter_or(message.metadata@, "title"@, "Security Incident"@),
                    message.content@,
                    Severity::High,
                    seq!["unknown"@],
                    pre.agent.id,
                    id,
                    created,
                    updated,
                )
            };
        lemma_placed_keeps_distinct(pre.active_incidents@, id, post.active_incidents@);
    }
}

/// The daily round keeps the agent sound.
pub proof fn lemma_daily_round_keeps_sound(pre: InfoSecAgent, post: InfoSecAgent)
    requires
        pre.sound(),
        InfoSecAgent::maintains(pre, post),
    ensures
        post.sound(),
{
    lemma_daily_round_keeps_record(pre, post);
}

/// An incident opened under an identifier that is not in use joins the end of
/// the registry: the registry grows by one, every incident that was there
/// stays as it was, and posture and compliance are not touched.
pub proof fn lemma_incident_under_new_id(pre: InfoSecAgent, id: u128, post: InfoSecAgent)
    requires
        incident_opened(pre, id, post),
        !has_key(pre.active_incidents@, id),
    ensures
        post.active_incidents@.len() == pre.active_incidents@.len() + 1,
        kept(pre.active_incidents@, post.active_incidents@),
        post.active_incidents@.last().value == incident_entered(pre, id, post),
        post.security_posture == pre.security_posture,
        post.compliance_status == pre.compliance_status,
{
    lemma_placed_under_new_key(pre.active_incidents@, id, post.active_incidents@);
}

/// Of two assessments, the one on the scan with no fewer critical, high and
/// medium findings gives no higher score, and where the three numbers are the
/// same the scores are the same, whatever the numbers of low and
/// informational findings.
pub proof fn lemma_assessment_is_monotone(
    pre: InfoSecAgent,
    fewer: Seq<Vulnerability>,
    now: i64,
    post: InfoSecAgent,
    other_pre: InfoSecAgent,
    more: Seq<Vulnerability>,
    other_now: i64,
    other_post: InfoSecAgent,
)
    requires
        assessed(pre, fewer, now, post),
        assessed(other_pre, more, other_now, other_post),
        count_with(fewer, Severity::Critical) <= count_with(more, Severity::Critical),
        count_with(fewer, Severity::High) <= count_with(more, Severity::High),
        count_with(fewer, Severity::Medium) <= count_with(more, Severity::Medium),
    ensures
        0 <= other_post.security_posture.overall_score <= post.security_posture.overall_score
            <= 100,
        count_with(fewer, Severity::Critical) == count_with(more, Severity::Critical)
            && count_with(fewer, Severity::High) == count_with(more, Severity::High) && count_with(
            fewer,
            Severity::Medium,
        ) == count_with(more, Severity::Medium) ==> other_post.security_posture.overall_score
            == post.security_posture.overall_score,
{
    lemma_posture_score_bounded_and_monotone(
        count_with(fewer, Severity::Critical),
        count_with(fewer, Severity::High),
        count_with(fewer, Severity::Medium),
        count_with(more, Severity::Critical),
        count_with(more, Severity::High),
        count_with(more, Severity::Medium),
    );
}

} // verus!
