//! DevOps: the server registry and its health, deployments and their
//! pipeline, backups.
//!
//! Utilisation is held in parts of `FULL_SCALE` (`8_500` is 85%), times in
//! seconds since the epoch.

use crate::agents::Agent;
use crate::agents::AgentError;
use crate::agents::AgentTrait;
use crate::agents::Department;
use crate::chance::draw;
use crate::chance::sample;
use crate::chance::spread;
use crate::chance::FULL_SCALE;
use crate::clock::now;
use crate::communication::is_note_to_self;
use crate::communication::parameter;
use crate::communication::parameter_or;
use crate::communication::Message;
use crate::ids::fresh_id;
use crate::ids::NIL_ID;
use crate::ids::parse_id;
use crate::ids::parsed_id;
use crate::ids::simple_string;
use crate::ids::simple_text;
use crate::table::bound;
use crate::table::distinct_keys;
use crate::table::lemma_placed_keeps_distinct;
use crate::table::lemma_placed_keys;
use crate::table::lemma_placed_under_new_key;
use crate::table::has_key;
use crate::table::kept;
use crate::table::landing;
use crate::table::placed;
use crate::table::slot_of;
use crate::table::Entry;
use crate::table::Table;
use crate::text::decimal;
use crate::text::decimal_string;
use crate::text::reads;
use crate::text::texts;
use vstd::prelude::*;
use vstd::string::StringExecFns;

verus! {

/// Utilisation above which a server is `Critical`.
pub const CRITICAL_ABOVE: u32 = 9_000;

/// Utilisation above which a server is `Degraded`.
pub const DEGRADED_ABOVE: u32 = 7_500;

/// Utilisation above which auto-scaling adds a server.
pub const SCALE_ABOVE: u32 = 8_000;

/// The highest processor utilisation that a health check records.
pub const CPU_CEILING: u32 = 9_500;

/// The highest memory utilisation that a health check records.
pub const MEMORY_CEILING: u32 = 9_000;

/// The highest disk utilisation that a health check records.
pub const DISK_CEILING: u32 = 8_500;

/// The seconds of uptime that one health check accounts for.
pub const CHECK_PERIOD: u64 = 300;

/// The health of a server. A health check sets it to `Online`, `Degraded` or
/// `Critical`; the other states are set by hand.
#[derive(Clone, Copy, Debug, PartialEq, Eq, Structural)]
pub enum ServerState {
    Online,
    Offline,
    Degraded,
    Maintenance,
    Critical,
}

/// A server and its freshest utilisation sample.
#[derive(Debug)]
pub struct ServerStatus {
    pub id: String,
    pub hostname: String,
    pub status: ServerState,
    pub cpu_usage: u32,
    pub memory_usage: u32,
    pub disk_usage: u32,
    pub uptime: u64,
    pub last_check: i64,
}

impl Clone for ServerStatus {
    fn clone(&self) -> (s: Self)
        ensures
            s == *self,
    {
        ServerStatus {
            id: self.id.clone(),
            hostname: self.hostname.clone(),
            status: self.status,
            cpu_usage: self.cpu_usage,
            memory_usage: self.memory_usage,
            disk_usage: self.disk_usage,
            uptime: self.uptime,
            last_check: self.last_check,
        }
    }
}

/// The health of a cluster.
#[derive(Clone, Copy, Debug, PartialEq, Eq, Structural)]
pub enum ClusterHealth {
    Healthy,
    Degraded,
    Critical,
    Offline,
}

/// A cluster of nodes and how many of them are healthy.
#[derive(Clone, Debug)]
pub struct ClusterStatus {
    pub name: String,
    pub nodes: Vec<String>,
    pub healthy_nodes: usize,
    pub status: ClusterHealth,
    pub last_health_check: i64,
}

/// Which parts of the monitoring are up, and how many alerts are active.
#[derive(Clone, Copy, Debug)]
pub struct MonitoringStatus {
    pub prometheus_up: bool,
    pub grafana_up: bool,
    pub alertmanager_up: bool,
    pub active_alerts: u32,
    pub last_update: i64,
}

/// When the last backup was made, whether it went well, and how many were
/// made in all.
#[derive(Clone, Copy, Debug)]
pub struct BackupStatus {
    pub last_backup: i64,
    pub backup_success: bool,
    pub retention_days: u32,
    pub total_backups: u32,
}

/// What the department runs: servers and clusters by identifier, and the
/// state of monitoring and backups.
#[derive(Clone, Debug)]
pub struct InfrastructureState {
    pub servers: Table<String, ServerStatus>,
    pub clusters: Table<String, ClusterStatus>,
    pub monitoring: MonitoringStatus,
    pub backups: BackupStatus,
}

/// Where a deployment stands: `Pending` until it is started, `InProgress`
/// while its steps run, then `Success` or `Failed`; a failed one can become
/// `RolledBack`.
#[derive(Clone, Copy, Debug, PartialEq, Eq, Structural)]
pub enum DeploymentStatus {
    Pending,
    InProgress,
    Success,
    Failed,
    RolledBack,
}

/// Where one step of a deployment stands.
#[derive(Clone, Copy, Debug, PartialEq, Eq, Structural)]
pub enum StepStatus {
    Pending,
    Running,
    Success,
    Failed,
    Skipped,
}

/// One step of a deployment. `timeout_seconds` is declared here and enforced
/// by whoever executes the step.
#[derive(Clone, Debug)]
pub struct DeploymentStep {
    pub name: String,
    pub command: String,
    pub timeout_seconds: u32,
    pub status: StepStatus,
    pub output: Option<String>,
    pub error: Option<String>,
}

/// A deployment: its steps in order, and a cursor on the step that is next.
#[derive(Clone, Debug)]
pub struct Deployment {
    pub id: u128,
    pub project_id: u128,
    pub environment: String,
    pub status: DeploymentStatus,
    pub start_time: i64,
    pub steps: Vec<DeploymentStep>,
    pub current_step: usize,
}

/// What to provision.
#[derive(Clone, Debug)]
pub struct ServerConfig {
    pub hostname: String,
    pub cpu_cores: u32,
    pub memory_gb: u32,
    pub disk_gb: u32,
}

/// What to deploy, and where.
#[derive(Clone, Debug)]
pub struct DeploymentConfig {
    pub project_id: u128,
    pub environment: String,
    pub steps: Vec<DeploymentStep>,
}

/// Why an operation of the DevOps department failed.
#[derive(Debug)]
pub enum DevOpsError {
    ServerNotFound(String),
    DeploymentFailed(String),
    InfrastructureError(String),
    MonitoringError(String),
}

/// An agent of the DevOps department.
#[derive(Clone, Debug)]
pub struct DevOpsAgent {
    pub agent: Agent,
    pub infrastructure_skill: u8,
    pub deployment_skill: u8,
    pub monitoring_skill: u8,
    pub infrastructure_state: InfrastructureState,
    pub active_deployments: Table<u128, Deployment>,
}

/// The state of the infrastructure before anything was provisioned, with
/// monitoring last updated at `updated` and the last backup at `backed_up`.
pub open spec fn is_initial_infrastructure(
    s: InfrastructureState,
    updated: i64,
    backed_up: i64,
) -> bool {
    &&& s.servers@.len() == 0
    &&& s.clusters@.len() == 0
    &&& s.monitoring == (MonitoringStatus {
        prometheus_up: true,
        grafana_up: true,
        alertmanager_up: true,
        active_alerts: 0,
        last_update: updated,
    })
    &&& s.backups == (BackupStatus {
        last_backup: backed_up,
        backup_success: true,
        retention_days: 30,
        total_backups: 0,
    })
}

impl InfrastructureState {
    /// The state before anything was provisioned.
    pub fn starting_with(updated: i64, backed_up: i64) -> (s: Self)
        ensures
            is_initial_infrastructure(s, updated, backed_up),
    {
        InfrastructureState {
            servers: Table::new(),
            clusters: Table::new(),
            monitoring: MonitoringStatus {
                prometheus_up: true,
                grafana_up: true,
                alertmanager_up: true,
                active_alerts: 0,
                last_update: updated,
            },
            backups: BackupStatus {
                last_backup: backed_up,
                backup_success: true,
                retention_days: 30,
                total_backups: 0,
            },
        }
    }
}

impl Default for InfrastructureState {
    /// The state before anything was provisioned, stamped with the current
    /// time.
    fn default() -> (s: Self)
        ensures
            is_initial_infrastructure(s, s.monitoring.last_update, s.backups.last_backup),
    {
        let updated = now();
        let backed_up = now();
        InfrastructureState::starting_with(updated, backed_up)
    }
}

/// The identifier of the server provisioned under the raw identifier `raw_id`.
pub open spec fn server_id_text(raw_id: u128) -> Seq<char> {
    "srv-"@ + simple_text(raw_id)
}

/// `s` is a server as provisioning leaves it: online, idle, never checked
/// since `now`.
pub open spec fn is_fresh_server(
    s: ServerStatus,
    hostname: Seq<char>,
    raw_id: u128,
    now: i64,
) -> bool {
    &&& s.id@ == server_id_text(raw_id)
    &&& s.hostname@ == hostname
    &&& s.status == ServerState::Online
    &&& s.cpu_usage == 0
    &&& s.memory_usage == 0
    &&& s.disk_usage == 0
    &&& s.uptime == 0
    &&& s.last_check == now
}

/// `post` is `pre` with `server` entered in the registry under its
/// identifier, and nothing else changed.
pub open spec fn provisioned(pre: DevOpsAgent, server: ServerStatus, post: DevOpsAgent) -> bool {
    &&& bound(
        pre.infrastructure_state.servers@,
        server.id@,
        server,
        post.infrastructure_state.servers@,
    )
    &&& post == (DevOpsAgent {
        infrastructure_state: InfrastructureState {
            servers: post.infrastructure_state.servers,
            ..pre.infrastructure_state
        },
        ..pre
    })
}

/// `d` is a deployment as submission leaves it: pending, cursor on the first
/// step, every step pending and otherwise as configured.
pub open spec fn is_new_deployment(
    d: Deployment,
    project_id: u128,
    environment: Seq<char>,
    steps: Seq<DeploymentStep>,
    id: u128,
    now: i64,
) -> bool {
    &&& d.id == id
    &&& d.project_id == project_id
    &&& d.environment@ == environment
    &&& d.status == DeploymentStatus::Pending
    &&& d.start_time == now
    &&& d.current_step == 0
    &&& d.steps@.len() == steps.len()
    &&& forall|i: int|
        0 <= i < steps.len() ==> #[trigger] d.steps@[i] == (DeploymentStep {
            status: StepStatus::Pending,
            ..steps[i]
        })
}

/// `post` is `pre` with a deployment entered under `id`, and nothing else
/// changed.
pub open spec fn deployed(pre: DevOpsAgent, id: u128, post: DevOpsAgent) -> bool {
    &&& placed(pre.active_deployments@, id, post.active_deployments@)
    &&& post == (DevOpsAgent { active_deployments: post.active_deployments, ..pre })
}

/// The deployment that `deployed(pre, id, post)` speaks of.
pub open spec fn deployment_entered(pre: DevOpsAgent, id: u128, post: DevOpsAgent) -> Deployment {
    post.active_deployments@[landing(pre.active_deployments@, id)].value
}

/// The utilisation that a raw draw stands for, held under `ceiling`.
pub open spec fn capped(raw: u64, ceiling: u32) -> u32 {
    if spread(raw, FULL_SCALE) > ceiling {
        ceiling
    } else {
        spread(raw, FULL_SCALE) as u32
    }
}

/// The health that a utilisation sample shows: critical above 90% processor
/// or memory, degraded above 75%, online otherwise.
pub open spec fn health_of(cpu_usage: u32, memory_usage: u32) -> ServerState {
    if cpu_usage > CRITICAL_ABOVE || memory_usage > CRITICAL_ABOVE {
        ServerState::Critical
    } else if cpu_usage > DEGRADED_ABOVE || memory_usage > DEGRADED_ABOVE {
        ServerState::Degraded
    } else {
        ServerState::Online
    }
}

/// `post` is the server `pre` after a health check at `now` that drew the
/// three raw samples.
pub open spec fn checked(
    pre: ServerStatus,
    cpu_raw: u64,
    memory_raw: u64,
    disk_raw: u64,
    now: i64,
    post: ServerStatus,
) -> bool {
    post == (ServerStatus {
        cpu_usage: capped(cpu_raw, CPU_CEILING),
        memory_usage: capped(memory_raw, MEMORY_CEILING),
        disk_usage: capped(disk_raw, DISK_CEILING),
        uptime: (pre.uptime + CHECK_PERIOD) as u64,
        last_check: now,
        status: health_of(capped(cpu_raw, CPU_CEILING), capped(memory_raw, MEMORY_CEILING)),
        ..pre
    })
}

/// `post` is the server `pre` after some health check.
pub open spec fn rechecked(pre: ServerStatus, post: ServerStatus) -> bool {
    exists|cpu_raw: u64, memory_raw: u64, disk_raw: u64, now: i64|
        checked(pre, cpu_raw, memory_raw, disk_raw, now, post)
}

/// `post` is `pre` with the server at position `at` of the registry replaced
/// by `server`, and nothing else changed.
pub open spec fn server_replaced(
    pre: DevOpsAgent,
    at: int,
    server: ServerStatus,
    post: DevOpsAgent,
) -> bool {
    &&& post.infrastructure_state.servers@ == pre.infrastructure_state.servers@.update(
        at,
        Entry { key: pre.infrastructure_state.servers@[at].key, value: server },
    )
    &&& post == (DevOpsAgent {
        infrastructure_state: InfrastructureState {
            servers: post.infrastructure_state.servers,
            ..pre.infrastructure_state
        },
        ..pre
    })
}

/// `post` is `pre` after a backup at `now`.
pub open spec fn backed_up(pre: DevOpsAgent, now: i64, post: DevOpsAgent) -> bool {
    post == (DevOpsAgent {
        infrastructure_state: InfrastructureState {
            backups: BackupStatus {
                last_backup: now,
                backup_success: true,
                total_backups: (pre.infrastructure_state.backups.total_backups + 1) as u32,
                ..pre.infrastructure_state.backups
            },
            ..pre.infrastructure_state
        },
        ..pre
    })
}

impl ServerStatus {
    /// Whether the server is loaded enough for auto-scaling to add another.
    pub open spec fn overloaded(self) -> bool {
        self.cpu_usage > SCALE_ABOVE || self.memory_usage > SCALE_ABOVE
    }

    /// Whether the server is loaded enough for auto-scaling to add another.
    pub fn is_overloaded(&self) -> (b: bool)
        ensures
            b == self.overloaded(),
    {
        self.cpu_usage > SCALE_ABOVE || self.memory_usage > SCALE_ABOVE
    }

    /// Whether a health check can add its period to the uptime.
    pub open spec fn can_be_checked(self) -> bool {
        self.uptime + CHECK_PERIOD <= u64::MAX
    }

    /// Records a health check at `now` that drew the three raw samples.
    pub fn record_check(&mut self, cpu_raw: u64, memory_raw: u64, disk_raw: u64, now: i64)
        requires
            old(self).can_be_checked(),
        ensures
            checked(*old(self), cpu_raw, memory_raw, disk_raw, now, *final(self)),
    {
        let cpu: u32 = sample(cpu_raw, FULL_SCALE);
        let memory: u32 = sample(memory_raw, FULL_SCALE);
        let disk: u32 = sample(disk_raw, FULL_SCALE);
        self.cpu_usage = if cpu > CPU_CEILING {
            CPU_CEILING
        } else {
            cpu
        };
        self.memory_usage = if memory > MEMORY_CEILING {
            MEMORY_CEILING
        } else {
            memory
        };
        self.disk_usage = if disk > DISK_CEILING {
            DISK_CEILING
        } else {
            disk
        };
        self.uptime = self.uptime + CHECK_PERIOD;
        self.last_check = now;
        self.status = if self.cpu_usage > CRITICAL_ABOVE || self.memory_usage > CRITICAL_ABOVE {
            ServerState::Critical
        } else if self.cpu_usage > DEGRADED_ABOVE || self.memory_usage > DEGRADED_ABOVE {
            ServerState::Degraded
        } else {
            ServerState::Online
        };
    }
}

/// `a` is a DevOps agent as it starts: of the given name and manager, with
/// its skills, its infrastructure in the initial state, and no deployment.
pub open spec fn is_new_agent(a: DevOpsAgent, name: Seq<char>, manager_id: Option<u128>) -> bool {
    &&& a.agent.name@ == name
    &&& a.agent.department == Department::DevOps
    &&& a.agent.manager_id == manager_id
    &&& a.infrastructure_skill == 85
    &&& a.deployment_skill == 90
    &&& a.monitoring_skill == 80
    &&& is_initial_infrastructure(
        a.infrastructure_state,
        a.infrastructure_state.monitoring.last_update,
        a.infrastructure_state.backups.last_backup,
    )
    &&& a.active_deployments@.len() == 0
}

impl DevOpsAgent {
    /// A DevOps agent with the given record, whose infrastructure is in its
    /// initial state.
    pub fn with_record(agent: Agent, updated: i64, backed_up: i64) -> (a: Self)
        ensures
            a.agent == agent,
            a.infrastructure_skill == 85,
            a.deployment_skill == 90,
            a.monitoring_skill == 80,
            is_initial_infrastructure(a.infrastructure_state, updated, backed_up),
            a.active_deployments@.len() == 0,
    {
        DevOpsAgent {
            agent,
            infrastructure_skill: 85,
            deployment_skill: 90,
            monitoring_skill: 80,
            infrastructure_state: InfrastructureState::starting_with(updated, backed_up),
            active_deployments: Table::new(),
        }
    }

    /// A new DevOps agent, under a fresh identifier.
    pub fn new(name: String, manager_id: Option<u128>) -> (a: Self)
        ensures
            a.agent == (Agent { id: a.agent.id, name, department: Department::DevOps, manager_id }),
            a.agent.id != NIL_ID,
            is_new_agent(a, name@, manager_id),
    {
        let agent = Agent::new(name, Department::DevOps, manager_id);
        let updated = now();
        let backed_up = now();
        DevOpsAgent::with_record(agent, updated, backed_up)
    }

    /// Provisions a server under the raw identifier `raw_id` at time `now`,
    /// and enters it in the registry.
    pub fn provision_server_with(
        &mut self,
        server_config: ServerConfig,
        raw_id: u128,
        now: i64,
    ) -> (server: ServerStatus)
        ensures
            is_fresh_server(server, server_config.hostname@, raw_id, now),
            provisioned(*old(self), server, *final(self)),
    {
        let id = String::from_str("srv-").concat(simple_string(raw_id).as_str());
        let server = ServerStatus {
            id: id.clone(),
            hostname: server_config.hostname,
            status: ServerState::Online,
            cpu_usage: 0,
            memory_usage: 0,
            disk_usage: 0,
            uptime: 0,
            last_check: now,
        };
        self.infrastructure_state.servers.insert(id, server.clone());
        server
    }

    /// Provisions a server under a fresh identifier and enters it in the
    /// registry.
    pub fn provision_server(&mut self, server_config: ServerConfig) -> (r: Result<
        ServerStatus,
        DevOpsError,
    >)
        ensures
            r matches Ok(server) && provisioned(*old(self), server, *final(self)) && exists|
                raw_id: u128,
                now: i64,
            | is_fresh_server(server, server_config.hostname@, raw_id, now),
    {
        let raw_id = fresh_id();
        let at = now();
        Ok(self.provision_server_with(server_config, raw_id, at))
    }

    /// Submits a deployment under the identifier `id` at time `now`. The
    /// deployment is entered as pending; executing it is not part of the
    /// submission.
    pub fn deploy_application_with(
        &mut self,
        deployment_config: DeploymentConfig,
        id: u128,
        now: i64,
    ) -> (r: u128)
        ensures
            r == id,
            deployed(*old(self), id, *final(self)),
            is_new_deployment(
                deployment_entered(*old(self), id, *final(self)),
                deployment_config.project_id,
                deployment_config.environment@,
                deployment_config.steps@,
                id,
                now,
            ),
    {
        let ghost configured = deployment_config.steps@;
        let mut steps = deployment_config.steps;
        let mut i: usize = 0;
        while i < steps.len()
            invariant
                i <= steps@.len(),
                steps@.len() == configured.len(),
                forall|j: int|
                    0 <= j < i ==> #[trigger] steps@[j] == (DeploymentStep {
                        status: StepStatus::Pending,
                        ..configured[j]
                    }),
                forall|j: int| i <= j < steps@.len() ==> #[trigger] steps@[j] == configured[j],
            decreases steps@.len() - i,
        {
            steps[i].status = StepStatus::Pending;
            i += 1;
        }
        let deployment = Deployment {
            id,
            project_id: deployment_config.project_id,
            environment: deployment_config.environment,
            status: DeploymentStatus::Pending,
            start_time: now,
            steps,
            current_step: 0,
        };
        self.active_deployments.insert(id, deployment);
        id
    }

    /// Submits a deployment under a fresh identifier and returns the
    /// identifier at once. The deployment is entered as pending; its outcome
    /// is learnt by looking it up later.
    pub fn deploy_application(&mut self, deployment_config: DeploymentConfig) -> (r: Result<
        u128,
        DevOpsError,
    >)
        ensures
            r matches Ok(id) && deployed(*old(self), id, *final(self)) && exists|now: i64|
                is_new_deployment(
                    deployment_entered(*old(self), id, *final(self)),
                    deployment_config.project_id,
                    deployment_config.environment@,
                    deployment_config.steps@,
                    id,
                    now,
                ),
    {
        let id = fresh_id();
        let at = now();
        Ok(self.deploy_application_with(deployment_config, id, at))
    }

    /// Checks the health of the server at position `at` of the registry, with
    /// the three raw samples drawn at time `now`.
    fn check_server_at(&mut self, at: usize, cpu_raw: u64, memory_raw: u64, disk_raw: u64, now: i64)
        requires
            at < old(self).infrastructure_state.servers@.len(),
            old(self).infrastructure_state.servers@[at as int].value.can_be_checked(),
        ensures
            server_replaced(
                *old(self),
                at as int,
                final(self).infrastructure_state.servers@[at as int].value,
                *final(self),
            ),
            checked(
                old(self).infrastructure_state.servers@[at as int].value,
                cpu_raw,
                memory_raw,
                disk_raw,
                now,
                final(self).infrastructure_state.servers@[at as int].value,
            ),
    {
        self.infrastructure_state.servers.entries[at].value.record_check(
            cpu_raw,
            memory_raw,
            disk_raw,
            now,
        );
    }

    /// Whether a health check of the server `server_id` can add its period to
    /// the uptime.
    pub open spec fn can_check(self, server_id: Seq<char>) -> bool {
        has_key(self.infrastructure_state.servers@, server_id)
            ==> self.infrastructure_state.servers@[slot_of(
            self.infrastructure_state.servers@,
            server_id,
        )].value.can_be_checked()
    }

    /// Checks the health of one server with the three raw samples drawn at
    /// time `now`: utilisation is overwritten with the samples, held under
    /// their ceilings, the uptime grows by one period, and the status follows
    /// from processor and memory utilisation.
    pub fn check_server_health_with(
        &mut self,
        server_id: &str,
        cpu_raw: u64,
        memory_raw: u64,
        disk_raw: u64,
        now: i64,
    ) -> (r: Result<(), DevOpsError>)
        requires
            old(self).can_check(server_id@),
        ensures
            has_key(old(self).infrastructure_state.servers@, server_id@) ==> {
                let at = slot_of(old(self).infrastructure_state.servers@, server_id@);
                &&& r is Ok
                &&& server_replaced(
                    *old(self),
                    at,
                    final(self).infrastructure_state.servers@[at].value,
                    *final(self),
                )
                &&& checked(
                    old(self).infrastructure_state.servers@[at].value,
                    cpu_raw,
                    memory_raw,
                    disk_raw,
                    now,
                    final(self).infrastructure_state.servers@[at].value,
                )
            },
            !has_key(old(self).infrastructure_state.servers@, server_id@) ==> {
                &&& r matches Err(DevOpsError::ServerNotFound(name))
                &&& name@ == server_id@
                &&& *final(self) == *old(self)
            },
    {
        match self.infrastructure_state.servers.find(&String::from_str(server_id)) {
            Some(at) => {
                self.check_server_at(at, cpu_raw, memory_raw, disk_raw, now);
                Ok(())
            },
            None => Err(DevOpsError::ServerNotFound(String::from_str(server_id))),
        }
    }

    /// Checks the health of one server with fresh samples.
    pub fn check_server_health(&mut self, server_id: &str) -> (r: Result<(), DevOpsError>)
        requires
            old(self).can_check(server_id@),
        ensures
            has_key(old(self).infrastructure_state.servers@, server_id@) ==> {
                let at = slot_of(old(self).infrastructure_state.servers@, server_id@);
                &&& r is Ok
                &&& server_replaced(
                    *old(self),
                    at,
                    final(self).infrastructure_state.servers@[at].value,
                    *final(self),
                )
                &&& rechecked(
                    old(self).infrastructure_state.servers@[at].value,
                    final(self).infrastructure_state.servers@[at].value,
                )
            },
            !has_key(old(self).infrastructure_state.servers@, server_id@) ==> {
                &&& r matches Err(DevOpsError::ServerNotFound(name))
                &&& name@ == server_id@
                &&& *final(self) == *old(self)
            },
    {
        let cpu_raw = draw();
        let memory_raw = draw();
        let disk_raw = draw();
        let at = now();
        self.check_server_health_with(server_id, cpu_raw, memory_raw, disk_raw, at)
    }

    /// Whether a backup can add to the count of backups.
    pub open spec fn can_back_up(self) -> bool {
        self.infrastructure_state.backups.total_backups < u32::MAX
    }

    /// Records a backup made at `now`.
    pub fn perform_backup_with(&mut self, now: i64) -> (r: Result<(), DevOpsError>)
        requires
            old(self).can_back_up(),
        ensures
            r is Ok,
            backed_up(*old(self), now, *final(self)),
    {
        self.infrastructure_state.backups.last_backup = now;
        self.infrastructure_state.backups.backup_success = true;
        self.infrastructure_state.backups.total_backups =
            self.infrastructure_state.backups.total_backups + 1;
        Ok(())
    }

    /// Makes a backup and records it.
    pub fn perform_backup(&mut self) -> (r: Result<(), DevOpsError>)
        requires
            old(self).can_back_up(),
        ensures
            r is Ok,
            exists|now: i64| backed_up(*old(self), now, *final(self)),
    {
        let at = now();
        self.perform_backup_with(at)
    }
}

/// What the executor of a deployment reports.
#[derive(Debug)]
pub enum DeploymentEvent {
    /// Execution began.
    Started,
    /// The step under the cursor succeeded, with the output it left, if any.
    StepSucceeded(Option<String>),
    /// The step under the cursor failed, with the error it gave.
    StepFailed(String),
    /// The failed deployment was rolled back.
    RolledBack,
}

impl Deployment {
    /// The cursor is on a step or just past the last one.
    pub open spec fn well_formed(self) -> bool {
        self.current_step <= self.steps@.len()
    }

    /// Whether the deployment, as it stands, takes `event`. A pending
    /// deployment can be started; one in progress takes the outcome of the
    /// step under its cursor; a failed one can be rolled back. Nothing else is
    /// taken.
    pub open spec fn takes(self, event: DeploymentEvent) -> bool {
        match event {
            DeploymentEvent::Started => self.status == DeploymentStatus::Pending,
            DeploymentEvent::StepSucceeded(_) => self.status == DeploymentStatus::InProgress
                && self.current_step < self.steps@.len(),
            DeploymentEvent::StepFailed(_) => self.status == DeploymentStatus::InProgress
                && self.current_step < self.steps@.len(),
            DeploymentEvent::RolledBack => self.status == DeploymentStatus::Failed,
        }
    }

    /// `post` is the deployment `pre` after `event`. An event that is not
    /// taken changes nothing. Starting leads to `InProgress`, or straight to
    /// `Success` where there is no step to run. A step that succeeds is marked
    /// so, keeps its output, and moves the cursor on; after the last step the
    /// deployment is a `Success`. A step that fails is marked so, keeps its
    /// error, and makes the deployment `Failed` with the cursor left on it.
    /// Rolling back leads from `Failed` to `RolledBack`.
    pub open spec fn evolves(pre: Deployment, event: DeploymentEvent, post: Deployment) -> bool {
        if !pre.takes(event) {
            post == pre
        } else {
            match event {
                DeploymentEvent::Started => post == (Deployment {
                    status: if pre.steps@.len() == 0 {
                        DeploymentStatus::Success
                    } else {
                        DeploymentStatus::InProgress
                    },
                    ..pre
                }),
                DeploymentEvent::StepSucceeded(output) => {
                    &&& post.steps@ == pre.steps@.update(
                        pre.current_step as int,
                        DeploymentStep {
                            status: StepStatus::Success,
                            output,
                            ..pre.steps@[pre.current_step as int]
                        },
                    )
                    &&& post == (Deployment {
                        status: if pre.current_step + 1 == pre.steps@.len() {
                            DeploymentStatus::Success
                        } else {
                            DeploymentStatus::InProgress
                        },
                        current_step: (pre.current_step + 1) as usize,
                        steps: post.steps,
                        ..pre
                    })
                },
                DeploymentEvent::StepFailed(error) => {
                    &&& post.steps@ == pre.steps@.update(
                        pre.current_step as int,
                        DeploymentStep {
                            status: StepStatus::Failed,
                            error: Some(error),
                            ..pre.steps@[pre.current_step as int]
                        },
                    )
                    &&& post == (Deployment {
                        status: DeploymentStatus::Failed,
                        steps: post.steps,
                        ..pre
                    })
                },
                DeploymentEvent::RolledBack => post == (Deployment {
                    status: DeploymentStatus::RolledBack,
                    ..pre
                }),
            }
        }
    }

    /// Applies what the executor reports, and says whether it was taken.
    pub fn apply(&mut self, event: DeploymentEvent) -> (taken: bool)
        ensures
            taken == old(self).takes(event),
            Deployment::evolves(*old(self), event, *final(self)),
    {
        match event {
            DeploymentEvent::Started => {
                if self.status == DeploymentStatus::Pending {
                    self.status = if self.steps.len() == 0 {
                        DeploymentStatus::Success
                    } else {
                        DeploymentStatus::InProgress
                    };
                    true
                } else {
                    false
                }
            },
            DeploymentEvent::StepSucceeded(output) => {
                if self.status == DeploymentStatus::InProgress && self.current_step
                    < self.steps.len() {
                    let at = self.current_step;
                    self.steps[at].status = StepStatus::Success;
                    self.steps[at].output = output;
                    self.current_step = at + 1;
                    if self.current_step == self.steps.len() {
                        self.status = DeploymentStatus::Success;
                    }
                    assert(self.steps@ =~= old(self).steps@.update(
                        at as int,
                        DeploymentStep {
                            status: StepStatus::Success,
                            output,
                            ..old(self).steps@[at as int]
                        },
                    ));
                    true
                } else {
                    false
                }
            },
            DeploymentEvent::StepFailed(error) => {
                if self.status == DeploymentStatus::InProgress && self.current_step
                    < self.steps.len() {
                    let at = self.current_step;
                    self.steps[at].status = StepStatus::Failed;
                    self.steps[at].error = Some(error);
                    self.status = DeploymentStatus::Failed;
                    assert(self.steps@ =~= old(self).steps@.update(
                        at as int,
                        DeploymentStep {
                            status: StepStatus::Failed,
                            error: Some(error),
                            ..old(self).steps@[at as int]
                        },
                    ));
                    true
                } else {
                    false
                }
            },
            DeploymentEvent::RolledBack => {
                if self.status == DeploymentStatus::Failed {
                    self.status = DeploymentStatus::RolledBack;
                    true
                } else {
                    false
                }
            },
        }
    }
}

/// The cursor of a deployment stays within its steps and never moves back,
/// whatever the executor reports; the steps keep their number.
pub proof fn lemma_cursor_only_advances(pre: Deployment, event: DeploymentEvent, post: Deployment)
    requires
        pre.well_formed(),
        Deployment::evolves(pre, event, post),
    ensures
        post.well_formed(),
        pre.current_step <= post.current_step,
        post.steps@.len() == pre.steps@.len(),
        post.id == pre.id,
{
    assert(pre.steps.len() == pre.steps@.len());
}

/// A deployment becomes `RolledBack` only from `Failed`, and a finished one
/// (`Success` or `RolledBack`) stays as it is.
pub proof fn lemma_rolled_back_only_from_failed(
    pre: Deployment,
    event: DeploymentEvent,
    post: Deployment,
)
    requires
        Deployment::evolves(pre, event, post),
    ensures
        post.status == DeploymentStatus::RolledBack && pre.status != DeploymentStatus::RolledBack
            ==> pre.status == DeploymentStatus::Failed,
        pre.status == DeploymentStatus::Success || pre.status == DeploymentStatus::RolledBack
            ==> post == pre,
{
}

/// `trace` is a history of one deployment: each state follows from the one
/// before it by some report of the executor.
pub open spec fn is_history(trace: Seq<Deployment>) -> bool {
    forall|i: int| 0 <= i < trace.len() - 1 ==> follows(#[trigger] trace[i], trace[i + 1])
}

/// `post` follows from `pre` by some report of the executor.
pub open spec fn follows(pre: Deployment, post: Deployment) -> bool {
    exists|event: DeploymentEvent| Deployment::evolves(pre, event, post)
}

/// Over any history of a deployment the cursor stays within the steps and
/// never moves back.
pub proof fn lemma_history_cursor(trace: Seq<Deployment>, i: int, j: int)
    requires
        is_history(trace),
        0 <= i <= j < trace.len(),
        trace[i].well_formed(),
    ensures
        trace[j].well_formed(),
        trace[i].current_step <= trace[j].current_step,
        trace[j].steps@.len() == trace[i].steps@.len(),
    decreases j - i,
{
    if i < j {
        lemma_history_cursor(trace, i, j - 1);
        let before = trace[j - 1];
        let after = trace[j];
        let event = choose|event: DeploymentEvent| Deployment::evolves(before, event, after);
        lemma_cursor_only_advances(before, event, after);
    }
}

/// A deployment whose history ends in `RolledBack` without beginning there
/// was `Failed` at some earlier point of that history.
pub proof fn lemma_history_rolled_back(trace: Seq<Deployment>)
    requires
        is_history(trace),
        trace.len() > 0,
        trace[0].status != DeploymentStatus::RolledBack,
        trace.last().status == DeploymentStatus::RolledBack,
    ensures
        exists|k: int|
            0 <= k < trace.len() - 1 && (#[trigger] trace[k]).status == DeploymentStatus::Failed,
    decreases trace.len(),
{
    let n = trace.len() as int;
    let before = trace[n - 2];
    let after = trace[n - 1];
    let event = choose|event: DeploymentEvent| Deployment::evolves(before, event, after);
    lemma_rolled_back_only_from_failed(before, event, after);
    if before.status != DeploymentStatus::Failed {
        lemma_history_rolled_back(trace.drop_last());
    }
}

/// `post` is `pre` with the deployment at position `at` replaced by
/// `deployment`, and nothing else changed.
pub open spec fn deployment_replaced(
    pre: DevOpsAgent,
    at: int,
    deployment: Deployment,
    post: DevOpsAgent,
) -> bool {
    &&& post.active_deployments@ == pre.active_deployments@.update(
        at,
        Entry { key: pre.active_deployments@[at].key, value: deployment },
    )
    &&& post == (DevOpsAgent { active_deployments: post.active_deployments, ..pre })
}

/// The identifiers of the pending deployments, in registry order.
pub open spec fn pending_ids(deployments: Seq<Entry<u128, Deployment>>) -> Seq<u128>
    decreases deployments.len(),
{
    if deployments.len() == 0 {
        Seq::empty()
    } else if deployments.last().value.status == DeploymentStatus::Pending {
        pending_ids(deployments.drop_last()).push(deployments.last().key)
    } else {
        pending_ids(deployments.drop_last())
    }
}

/// `post` is `pre` after every pending deployment was started, and nothing
/// else changed: each deployment stands under its key, in its place, as the
/// report that execution began leaves it.
pub open spec fn pending_started(pre: DevOpsAgent, post: DevOpsAgent) -> bool {
    &&& post.active_deployments@.len() == pre.active_deployments@.len()
    &&& forall|i: int|
        0 <= i < pre.active_deployments@.len() ==> {
            &&& (#[trigger] post.active_deployments@[i]).key == pre.active_deployments@[i].key
            &&& Deployment::evolves(
                pre.active_deployments@[i].value,
                DeploymentEvent::Started,
                post.active_deployments@[i].value,
            )
        }
    &&& post == (DevOpsAgent { active_deployments: post.active_deployments, ..pre })
}

impl DevOpsAgent {
    /// Starts every pending deployment and names them, in registry order, for
    /// whoever executes them. A deployment is named once: after this call it
    /// is pending no more.
    pub fn start_pending_deployments(&mut self) -> (started: Vec<u128>)
        ensures
            started@ == pending_ids(old(self).active_deployments@),
            pending_started(*old(self), *final(self)),
    {
        let mut started: Vec<u128> = Vec::new();
        let mut i: usize = 0;
        assert(old(self).active_deployments@.take(0) =~= Seq::empty());
        while i < self.active_deployments.len()
            invariant
                i <= self.active_deployments@.len(),
                self.active_deployments@.len() == old(self).active_deployments@.len(),
                started@ == pending_ids(old(self).active_deployments@.take(i as int)),
                forall|j: int|
                    0 <= j < i ==> {
                        &&& (#[trigger] self.active_deployments@[j]).key == old(
                            self,
                        ).active_deployments@[j].key
                        &&& Deployment::evolves(
                            old(self).active_deployments@[j].value,
                            DeploymentEvent::Started,
                            self.active_deployments@[j].value,
                        )
                    },
                forall|j: int|
                    i <= j < self.active_deployments@.len()
                        ==> #[trigger] self.active_deployments@[j] == old(
                        self,
                    ).active_deployments@[j],
                *self == (DevOpsAgent {
                    active_deployments: self.active_deployments,
                    ..*old(self)
                }),
            decreases self.active_deployments@.len() - i,
        {
            assert(old(self).active_deployments@.take(i + 1).drop_last() =~= old(
                self,
            ).active_deployments@.take(i as int));
            if self.active_deployments.entries[i].value.apply(DeploymentEvent::Started) {
                started.push(self.active_deployments.entries[i].key);
            }
            i += 1;
        }
        assert(old(self).active_deployments@.take(i as int) =~= old(self).active_deployments@);
        started
    }

    /// The status of a deployment, for whoever waits for its outcome.
    pub fn deployment_status(&self, deployment_id: u128) -> (r: Option<DeploymentStatus>)
        ensures
            r == if has_key(self.active_deployments@, deployment_id) {
                Some(
                    self.active_deployments@[slot_of(
                        self.active_deployments@,
                        deployment_id,
                    )].value.status,
                )
            } else {
                None
            },
    {
        match self.active_deployments.get(&deployment_id) {
            Some(deployment) => Some(deployment.status),
            None => None,
        }
    }

    /// Records what the executor reports of one deployment. Only that
    /// deployment changes, and only as `Deployment::evolves` allows. The
    /// result says whether the report was taken; `None` says that no such
    /// deployment is known, and then nothing changes.
    pub fn record_deployment_event(&mut self, deployment_id: u128, event: DeploymentEvent) -> (r:
        Option<bool>)
        ensures
            has_key(old(self).active_deployments@, deployment_id) ==> {
                let at = slot_of(old(self).active_deployments@, deployment_id);
                &&& r == Some(old(self).active_deployments@[at].value.takes(event))
                &&& deployment_replaced(
                    *old(self),
                    at,
                    final(self).active_deployments@[at].value,
                    *final(self),
                )
                &&& Deployment::evolves(
                    old(self).active_deployments@[at].value,
                    event,
                    final(self).active_deployments@[at].value,
                )
            },
            !has_key(old(self).active_deployments@, deployment_id) ==> r is None && *final(self)
                == *old(self),
    {
        match self.active_deployments.find(&deployment_id) {
            Some(at) => {
                let taken = self.active_deployments.entries[at].value.apply(event);
                Some(taken)
            },
            None => None,
        }
    }
}

/// The host names of the overloaded servers among `servers`, in registry
/// order.
pub open spec fn overloaded_hosts(servers: Seq<Entry<String, ServerStatus>>) -> Seq<Seq<char>>
    decreases servers.len(),
{
    if servers.len() == 0 {
        Seq::empty()
    } else if servers.last().value.overloaded() {
        overloaded_hosts(servers.drop_last()).push(servers.last().value.hostname@)
    } else {
        overloaded_hosts(servers.drop_last())
    }
}

/// The host name of the server that scaling adds beside the host `base` at
/// time `stamp`.
pub open spec fn scaled_hostname(base: Seq<char>, stamp: i64) -> Seq<char> {
    base + "-scale-"@ + decimal(stamp as int)
}

/// The report of one scale-up.
pub open spec fn scale_report(hostname: Seq<char>) -> Seq<char> {
    "Scaled up: added server "@ + hostname
}

/// What one scale-up needs from outside: the time that names the new server,
/// its raw identifier, and the time of its provisioning.
#[derive(Clone, Copy, Debug)]
pub struct ScaleDraws {
    pub stamp: i64,
    pub raw_id: u128,
    pub now: i64,
}

/// `post` is `pre` after one server was provisioned beside the host `base`
/// under the given draws, and `report` reports it: the server is named after
/// the host and the time `stamp`, stands under the raw identifier `raw_id`,
/// and was provisioned at `now`.
pub open spec fn scaled_up_with(
    pre: DevOpsAgent,
    base: Seq<char>,
    draws: ScaleDraws,
    post: DevOpsAgent,
    report: Seq<char>,
) -> bool {
    exists|server: ServerStatus|
        {
            &&& is_fresh_server(
                server,
                scaled_hostname(base, draws.stamp),
                draws.raw_id,
                draws.now,
            )
            &&& provisioned(pre, server, post)
            &&& report == scale_report(server.hostname@)
        }
}

/// `post` is `pre` after one server was provisioned beside the host `base`,
/// and `report` reports it.
pub open spec fn scaled_up(
    pre: DevOpsAgent,
    base: Seq<char>,
    post: DevOpsAgent,
    report: Seq<char>,
) -> bool {
    exists|draws: ScaleDraws| scaled_up_with(pre, base, draws, post, report)
}

/// `post` is `pre` after one server was provisioned beside each host of
/// `bases`, in order, each under the draws made for it, and `reports` holds
/// one report for each.
pub open spec fn scaled_out_with(
    pre: DevOpsAgent,
    bases: Seq<Seq<char>>,
    draws: Seq<ScaleDraws>,
    post: DevOpsAgent,
    reports: Seq<Seq<char>>,
) -> bool
    decreases bases.len(),
{
    if bases.len() == 0 {
        post == pre && reports.len() == 0 && draws.len() == 0
    } else {
        &&& reports.len() == bases.len()
        &&& draws.len() == bases.len()
        &&& exists|mid: DevOpsAgent|
            {
                &&& scaled_out_with(
                    pre,
                    bases.drop_last(),
                    draws.drop_last(),
                    mid,
                    reports.drop_last(),
                )
                &&& scaled_up_with(mid, bases.last(), draws.last(), post, reports.last())
            }
    }
}

/// How many servers are scaled for: as many as there are overloaded servers
/// and draws for them.
pub open spec fn scaled_for(bases: Seq<Seq<char>>, draws: Seq<ScaleDraws>) -> int {
    if draws.len() < bases.len() {
        draws.len() as int
    } else {
        bases.len() as int
    }
}

/// `post` is `pre` after one server was provisioned beside each host of
/// `bases`, in order, and `reports` holds one report for each.
pub open spec fn scaled_out(
    pre: DevOpsAgent,
    bases: Seq<Seq<char>>,
    post: DevOpsAgent,
    reports: Seq<Seq<char>>,
) -> bool
    decreases bases.len(),
{
    if bases.len() == 0 {
        post == pre && reports.len() == 0
    } else {
        &&& reports.len() == bases.len()
        &&& exists|mid: DevOpsAgent|
            {
                &&& scaled_out(pre, bases.drop_last(), mid, reports.drop_last())
                &&& scaled_up(mid, bases.last(), post, reports.last())
            }
    }
}

/// The pipeline of a deployment requested by message: build, test, deploy.
pub open spec fn is_standard_pipeline(steps: Seq<DeploymentStep>) -> bool {
    &&& steps.len() == 3
    &&& is_standard_step(steps[0], "Build"@, "cargo build --release"@, 300)
    &&& is_standard_step(steps[1], "Test"@, "cargo test"@, 600)
    &&& is_standard_step(steps[2], "Deploy"@, "./deploy.sh"@, 300)
}

/// `step` is a pending step of the given name, command and timeout, with
/// nothing captured.
pub open spec fn is_standard_step(
    step: DeploymentStep,
    name: Seq<char>,
    command: Seq<char>,
    timeout_seconds: u32,
) -> bool {
    &&& step.name@ == name
    &&& step.command@ == command
    &&& step.timeout_seconds == timeout_seconds
    &&& step.status == StepStatus::Pending
    &&& step.output is None
    &&& step.error is None
}

/// `post` is `pre` after a deployment of `project_id` to `environment` was
/// submitted with the standard pipeline.
pub open spec fn deployment_requested(
    pre: DevOpsAgent,
    project_id: u128,
    environment: Seq<char>,
    post: DevOpsAgent,
) -> bool {
    exists|id: u128, now: i64|
        {
            &&& deployed(pre, id, post)
            &&& is_requested_deployment(
                deployment_entered(pre, id, post),
                project_id,
                environment,
                id,
                now,
            )
        }
}

/// `d` is a deployment as a request by message leaves it.
pub open spec fn is_requested_deployment(
    d: Deployment,
    project_id: u128,
    environment: Seq<char>,
    id: u128,
    now: i64,
) -> bool {
    &&& d.id == id
    &&& d.project_id == project_id
    &&& d.environment@ == environment
    &&& d.status == DeploymentStatus::Pending
    &&& d.start_time == now
    &&& d.current_step == 0
    &&& is_standard_pipeline(d.steps@)
}

/// `post` is `pre` after every server of the registry had a health check.
pub open spec fn all_rechecked(pre: DevOpsAgent, post: DevOpsAgent) -> bool {
    &&& post.infrastructure_state.servers@.len() == pre.infrastructure_state.servers@.len()
    &&& forall|i: int|
        0 <= i < pre.infrastructure_state.servers@.len() ==> {
            &&& (#[trigger] post.infrastructure_state.servers@[i]).key
                == pre.infrastructure_state.servers@[i].key
            &&& rechecked(
                pre.infrastructure_state.servers@[i].value,
                post.infrastructure_state.servers@[i].value,
            )
        }
    &&& post == (DevOpsAgent {
        infrastructure_state: InfrastructureState {
            servers: post.infrastructure_state.servers,
            ..pre.infrastructure_state
        },
        ..pre
    })
}

/// Every server of the registry can take a health check.
pub open spec fn all_can_be_checked(servers: Seq<Entry<String, ServerStatus>>) -> bool {
    forall|i: int| 0 <= i < servers.len() ==> (#[trigger] servers[i]).value.can_be_checked()
}

impl DevOpsAgent {
    /// The host names of the overloaded servers, in registry order.
    pub fn overloaded_hostnames(&self) -> (hosts: Vec<String>)
        ensures
            texts(hosts@) == overloaded_hosts(self.infrastructure_state.servers@),
    {
        let mut hosts: Vec<String> = Vec::new();
        let mut i: usize = 0;
        while i < self.infrastructure_state.servers.len()
            invariant
                i <= self.infrastructure_state.servers@.len(),
                texts(hosts@) == overloaded_hosts(
                    self.infrastructure_state.servers@.take(i as int),
                ),
            decreases self.infrastructure_state.servers@.len() - i,
        {
            assert(self.infrastructure_state.servers@.take(i + 1).drop_last()
                =~= self.infrastructure_state.servers@.take(i as int));
            if self.infrastructure_state.servers.entries[i].value.is_overloaded() {
                hosts.push(self.infrastructure_state.servers.entries[i].value.hostname.clone());
            }
            i += 1;
        }
        assert(self.infrastructure_state.servers@.take(i as int)
            =~= self.infrastructure_state.servers@);
        hosts
    }

    /// Provisions one server beside the host `base`: named after it with the
    /// time `stamp`, under the raw identifier `raw_id`, at time `now`.
    pub fn scale_up_with(
        &mut self,
        base: &str,
        stamp: i64,
        raw_id: u128,
        now: i64,
    ) -> (report: String)
        ensures
            scaled_up_with(
                *old(self),
                base@,
                ScaleDraws { stamp, raw_id, now },
                *final(self),
                report@,
            ),
    {
        let hostname = String::from_str(base).concat("-scale-").concat(
            decimal_string(stamp).as_str(),
        );
        let server = self.provision_server_with(
            ServerConfig { hostname, cpu_cores: 4, memory_gb: 8, disk_gb: 100 },
            raw_id,
            now,
        );
        let report = String::from_str("Scaled up: added server ").concat(server.hostname.as_str());
        assert(is_fresh_server(server, scaled_hostname(base@, stamp), raw_id, now));
        report
    }

    /// Adds one server for every server that is above 80% processor or
    /// memory utilisation, each under the draws made for it, the overloaded
    /// servers and the draws taken in order, and reports each addition. An
    /// overloaded server for which there is no draw is passed over. Servers
    /// added here are not themselves inspected.
    pub fn auto_scale_with(&mut self, draws: &Vec<ScaleDraws>) -> (r: Result<
        Vec<String>,
        DevOpsError,
    >)
        ensures
            r matches Ok(reports) && ({
                let bases = overloaded_hosts(old(self).infrastructure_state.servers@);
                let part = scaled_for(bases, draws@);
                scaled_out_with(
                    *old(self),
                    bases.take(part),
                    draws@.take(part),
                    *final(self),
                    texts(reports@),
                )
            }),
    {
        let hosts = self.overloaded_hostnames();
        let mut reports: Vec<String> = Vec::new();
        let part: usize = if draws.len() < hosts.len() {
            draws.len()
        } else {
            hosts.len()
        };
        let mut k: usize = 0;
        let ghost bases = texts(hosts@);
        proof {
            assert(bases.take(0) =~= Seq::empty());
            assert(draws@.take(0) =~= Seq::empty());
            assert(texts(reports@) =~= Seq::empty());
        }
        while k < part
            invariant
                k <= part,
                part <= hosts@.len(),
                part <= draws@.len(),
                bases == texts(hosts@),
                scaled_out_with(
                    *old(self),
                    bases.take(k as int),
                    draws@.take(k as int),
                    *self,
                    texts(reports@),
                ),
            decreases part - k,
        {
            let ghost reported = reports@;
            let ghost mid = *self;
            let report = self.scale_up_with(
                hosts[k].as_str(),
                draws[k].stamp,
                draws[k].raw_id,
                draws[k].now,
            );
            reports.push(report);
            proof {
                let upto = bases.take(k + 1);
                let drawn = draws@.take(k + 1);
                assert(upto.drop_last() =~= bases.take(k as int));
                assert(drawn.drop_last() =~= draws@.take(k as int));
                assert(upto.last() == hosts@[k as int]@);
                assert(drawn.last() == draws@[k as int]);
                assert(texts(reports@).drop_last() =~= texts(reported));
                assert(texts(reports@).last() == report@);
                assert(scaled_out_with(
                    *old(self),
                    upto.drop_last(),
                    drawn.drop_last(),
                    mid,
                    texts(reports@).drop_last(),
                ));
                assert(scaled_up_with(
                    mid,
                    upto.last(),
                    drawn.last(),
                    *self,
                    texts(reports@).last(),
                ));
            }
            k += 1;
        }
        Ok(reports)
    }

    /// Draws what a scale-up needs from outside for every overloaded server.
    fn draw_for_scaling(&self) -> (draws: Vec<ScaleDraws>)
        ensures
            draws@.len() == overloaded_hosts(self.infrastructure_state.servers@).len(),
    {
        let wanted = self.overloaded_hostnames().len();
        let mut draws: Vec<ScaleDraws> = Vec::new();
        while draws.len() < wanted
            invariant
                draws@.len() <= wanted,
            decreases wanted - draws@.len(),
        {
            draws.push(ScaleDraws { stamp: now(), raw_id: fresh_id(), now: now() });
        }
        draws
    }

    /// Adds one server for every server that is above 80% processor or
    /// memory utilisation, and reports each addition. Servers added here are
    /// not themselves inspected.
    pub fn auto_scale(&mut self) -> (r: Result<Vec<String>, DevOpsError>)
        ensures
            r matches Ok(reports) && scaled_out(
                *old(self),
                overloaded_hosts(old(self).infrastructure_state.servers@),
                *final(self),
                texts(reports@),
            ),
    {
        let draws = self.draw_for_scaling();
        let r = self.auto_scale_with(&draws);
        proof {
            let bases = overloaded_hosts(old(self).infrastructure_state.servers@);
            assert(bases.take(bases.len() as int) =~= bases);
            assert(draws@.take(draws@.len() as int) =~= draws@);
            lemma_scaling_under_draws(*old(self), bases, draws@, *self, texts(r->Ok_0@));
        }
        r
    }

    /// Whether every server of the registry can take a health check.
    pub fn all_servers_can_be_checked(&self) -> (b: bool)
        ensures
            b == all_can_be_checked(self.infrastructure_state.servers@),
    {
        let mut i: usize = 0;
        while i < self.infrastructure_state.servers.len()
            invariant
                i <= self.infrastructure_state.servers@.len(),
                forall|j: int|
                    0 <= j < i ==> (
                    #[trigger] self.infrastructure_state.servers@[j]).value.can_be_checked(),
            decreases self.infrastructure_state.servers@.len() - i,
        {
            if self.infrastructure_state.servers.entries[i].value.uptime > u64::MAX - CHECK_PERIOD {
                return false;
            }
            i += 1;
        }
        true
    }

    /// Gives every server of the registry a health check with fresh samples.
    pub fn check_all_servers(&mut self)
        requires
            all_can_be_checked(old(self).infrastructure_state.servers@),
        ensures
            all_rechecked(*old(self), *final(self)),
    {
        let mut i: usize = 0;
        while i < self.infrastructure_state.servers.len()
            invariant
                i <= self.infrastructure_state.servers@.len(),
                self.infrastructure_state.servers@.len() == old(
                    self,
                ).infrastructure_state.servers@.len(),
                forall|j: int|
                    0 <= j < i ==> {
                        &&& (#[trigger] self.infrastructure_state.servers@[j]).key == old(
                            self,
                        ).infrastructure_state.servers@[j].key
                        &&& rechecked(
                            old(self).infrastructure_state.servers@[j].value,
                            self.infrastructure_state.servers@[j].value,
                        )
                    },
                forall|j: int|
                    i <= j < self.infrastructure_state.servers@.len()
                        ==> #[trigger] self.infrastructure_state.servers@[j] == old(
                        self,
                    ).infrastructure_state.servers@[j],
                all_can_be_checked(old(self).infrastructure_state.servers@),
                *self == (DevOpsAgent {
                    infrastructure_state: InfrastructureState {
                        servers: self.infrastructure_state.servers,
                        ..old(self).infrastructure_state
                    },
                    ..*old(self)
                }),
            decreases self.infrastructure_state.servers@.len() - i,
        {
            let cpu_raw = draw();
            let memory_raw = draw();
            let disk_raw = draw();
            let at = now();
            self.check_server_at(i, cpu_raw, memory_raw, disk_raw, at);
            i += 1;
        }
    }

    /// Submits the deployment that a message requests: of `project_id` to
    /// `environment`, with the standard pipeline.
    pub fn request_deployment_with(
        &mut self,
        project_id: u128,
        environment: String,
        id: u128,
        now: i64,
    )
        ensures
            deployed(*old(self), id, *final(self)),
            is_requested_deployment(
                deployment_entered(*old(self), id, *final(self)),
                project_id,
                environment@,
                id,
                now,
            ),
    {
        let mut steps: Vec<DeploymentStep> = Vec::new();
        steps.push(
            DeploymentStep {
                name: String::from_str("Build"),
                command: String::from_str("cargo build --release"),
                timeout_seconds: 300,
                status: StepStatus::Pending,
                output: None,
                error: None,
            },
        );
        steps.push(
            DeploymentStep {
                name: String::from_str("Test"),
                command: String::from_str("cargo test"),
                timeout_seconds: 600,
                status: StepStatus::Pending,
                output: None,
                error: None,
            },
        );
        steps.push(
            DeploymentStep {
                name: String::from_str("Deploy"),
                command: String::from_str("./deploy.sh"),
                timeout_seconds: 300,
                status: StepStatus::Pending,
                output: None,
                error: None,
            },
        );
        self.deploy_application_with(DeploymentConfig { project_id, environment, steps }, id, now);
    }
}

/// The kinds of message that the department knows are four different texts.
pub proof fn lemma_kinds_differ()
    ensures
        "deploy_request"@ != "health_check"@,
        "deploy_request"@ != "scale_request"@,
        "deploy_request"@ != "backup_request"@,
        "health_check"@ != "scale_request"@,
        "health_check"@ != "backup_request"@,
        "scale_request"@ != "backup_request"@,
{
    reveal_strlit("deploy_request");
    reveal_strlit("health_check");
    reveal_strlit("scale_request");
    reveal_strlit("backup_request");
    assert("health_check"@.len() == 12);
    assert("scale_request"@.len() == 13);
    assert("deploy_request"@[0] == 'd');
}

impl AgentTrait for DevOpsAgent {
    /// A health check needs room in every server's uptime, a backup room in
    /// the count of backups.
    open spec fn accepts(&self, message: Message) -> bool {
        &&& message.message_type@ == "health_check"@ ==> all_can_be_checked(
            self.infrastructure_state.servers@,
        )
        &&& message.message_type@ == "backup_request"@ ==> self.can_back_up()
    }

    /// What each kind of message does:
    /// `deploy_request` submits a deployment of the project named by the
    /// parameter `project_id` to `environment` (default `staging`), and does
    /// nothing where the project is not given or is no identifier;
    /// `health_check` checks every server; `scale_request` scales out;
    /// `backup_request` makes a backup; any other kind changes nothing.
    open spec fn handles(pre: Self, message: Message, post: Self) -> bool {
        if message.message_type@ == "deploy_request"@ {
            match parameter(message.metadata@, "project_id"@) {
                Some(text) => match parsed_id(text) {
                    Some(project_id) => deployment_requested(
                        pre,
                        project_id,
                        parameter_or(message.metadata@, "environment"@, "staging"@),
                        post,
                    ),
                    None => post == pre,
                },
                None => post == pre,
            }
        } else if message.message_type@ == "health_check"@ {
            all_rechecked(pre, post)
        } else if message.message_type@ == "scale_request"@ {
            exists|reports: Seq<Seq<char>>|
                scaled_out(
                    pre,
                    overloaded_hosts(pre.infrastructure_state.servers@),
                    post,
                    reports,
                )
        } else if message.message_type@ == "backup_request"@ {
            exists|now: i64| backed_up(pre, now, post)
        } else {
            post == pre
        }
    }

    open spec fn fit_for_daily_tasks(&self) -> bool {
        &&& all_can_be_checked(self.infrastructure_state.servers@)
        &&& self.can_back_up()
    }

    /// The daily round: a health check, a backup, a scaling check, each as a
    /// note to self.
    open spec fn maintains(pre: Self, post: Self) -> bool {
        exists|first: Message, checked: Self, second: Message, saved: Self, third: Message|
            {
                &&& is_note_to_self(first, pre.agent.id, "health_check"@, "Daily health check"@)
                &&& Self::handles(pre, first, checked)
                &&& is_note_to_self(second, pre.agent.id, "backup_request"@, "Daily backup"@)
                &&& Self::handles(checked, second, saved)
                &&& is_note_to_self(third, pre.agent.id, "scale_request"@, "Daily scaling check"@)
                &&& Self::handles(saved, third, post)
            }
    }

    open spec fn record(&self) -> Agent {
        self.agent
    }

    fn process_message(&mut self, message: Message) -> (r: Result<(), AgentError>) {
        proof {
            lemma_kinds_differ();
        }
        if reads(&message.message_type, "deploy_request") {
            match message.parameter("project_id") {
                Some(text) => match parse_id(text.as_str()) {
                    Some(project_id) => {
                        let environment = message.parameter_or("environment", "staging");
                        let id = fresh_id();
                        let at = now();
                        self.request_deployment_with(project_id, environment, id, at);
                    },
                    None => {},
                },
                None => {},
            }
        } else if reads(&message.message_type, "health_check") {
            self.check_all_servers();
        } else if reads(&message.message_type, "scale_request") {
            match self.auto_scale() {
                Ok(_) => {},
                Err(e) => {
                    return Err(AgentError::DevOps(e));
                },
            }
        } else if reads(&message.message_type, "backup_request") {
            match self.perform_backup() {
                Ok(_) => {},
                Err(e) => {
                    return Err(AgentError::DevOps(e));
                },
            }
        }
        Ok(())
    }

    fn perform_daily_tasks(&mut self) -> (r: Result<(), AgentError>) {
        proof {
            lemma_kinds_differ();
        }
        let first = Message::note_to_self(self.agent.id, "health_check", "Daily health check");
        let _ = self.process_message(first);
        let second = Message::note_to_self(self.agent.id, "backup_request", "Daily backup");
        let _ = self.process_message(second);
        let third = Message::note_to_self(self.agent.id, "scale_request", "Daily scaling check");
        let _ = self.process_message(third);
        Ok(())
    }

    fn can_accept(&self, message: &Message) -> (b: bool) {
        proof {
            lemma_kinds_differ();
        }
        if reads(&message.message_type, "health_check") {
            self.all_servers_can_be_checked()
        } else if reads(&message.message_type, "backup_request") {
            self.infrastructure_state.backups.total_backups < u32::MAX
        } else {
            true
        }
    }

    fn can_run_daily_tasks(&self) -> (b: bool) {
        self.all_servers_can_be_checked() && self.infrastructure_state.backups.total_backups
            < u32::MAX
    }

    fn get_agent(&self) -> (a: &Agent) {
        &self.agent
    }

    fn get_agent_mut(&mut self) -> (a: &mut Agent) {
        &mut self.agent
    }
}

/// Scaling out under draws is scaling out.
pub proof fn lemma_scaling_under_draws(
    pre: DevOpsAgent,
    bases: Seq<Seq<char>>,
    draws: Seq<ScaleDraws>,
    post: DevOpsAgent,
    reports: Seq<Seq<char>>,
)
    requires
        scaled_out_with(pre, bases, draws, post, reports),
    ensures
        scaled_out(pre, bases, post, reports),
    decreases bases.len(),
{
    if bases.len() > 0 {
        let mid = choose|mid: DevOpsAgent|
            {
                &&& scaled_out_with(
                    pre,
                    bases.drop_last(),
                    draws.drop_last(),
                    mid,
                    reports.drop_last(),
                )
                &&& scaled_up_with(mid, bases.last(), draws.last(), post, reports.last())
            };
        lemma_scaling_under_draws(
            pre,
            bases.drop_last(),
            draws.drop_last(),
            mid,
            reports.drop_last(),
        );
        assert(scaled_up(mid, bases.last(), post, reports.last()));
    }
}

/// The identifier under which the `k`-th of `draws` provisions a server.
pub open spec fn drawn_id(draws: Seq<ScaleDraws>, k: int) -> Seq<char> {
    server_id_text(draws[k].raw_id)
}

/// The identifiers under which `draws` provision are new to `servers`, and no
/// two of them are the same.
pub open spec fn draws_are_new(
    servers: Seq<Entry<String, ServerStatus>>,
    draws: Seq<ScaleDraws>,
) -> bool {
    &&& forall|k: int| 0 <= k < draws.len() ==> !has_key(servers, #[trigger] drawn_id(draws, k))
    &&& forall|j: int, k: int|
        0 <= j < k < draws.len() ==> #[trigger] drawn_id(draws, j) != #[trigger] drawn_id(draws, k)
}

/// Where every drawn identifier is new, scaling out adds exactly one server
/// for each overloaded server: the registry grows by their number, the
/// servers that were there stay as they were, in their places, and behind
/// them stand the new servers in order, each online and idle, named after its
/// host and under its drawn identifier.
pub proof fn lemma_scaling_adds_one_server_each(
    pre: DevOpsAgent,
    bases: Seq<Seq<char>>,
    draws: Seq<ScaleDraws>,
    post: DevOpsAgent,
    reports: Seq<Seq<char>>,
)
    requires
        scaled_out_with(pre, bases, draws, post, reports),
        draws_are_new(pre.infrastructure_state.servers@, draws),
    ensures
        post.infrastructure_state.servers@.len() == pre.infrastructure_state.servers@.len()
            + bases.len(),
        post.infrastructure_state.servers@.take(pre.infrastructure_state.servers@.len() as int)
            == pre.infrastructure_state.servers@,
        forall|k: int|
            0 <= k < bases.len() ==> is_fresh_server(
                (#[trigger] post.infrastructure_state.servers@[pre.infrastructure_state.servers@.len()
                    + k]).value,
                scaled_hostname(bases[k], draws[k].stamp),
                draws[k].raw_id,
                draws[k].now,
            ),
        forall|key: Seq<char>|
            has_key(post.infrastructure_state.servers@, key) ==> has_key(
                pre.infrastructure_state.servers@,
                key,
            ) || exists|k: int| 0 <= k < draws.len() && key == #[trigger] drawn_id(draws, k),
        post.active_deployments == pre.active_deployments,
    decreases bases.len(),
{
    let before = pre.infrastructure_state.servers@;
    let after = post.infrastructure_state.servers@;
    if bases.len() == 0 {
        assert(after.take(before.len() as int) =~= before);
    } else {
        let mid = choose|mid: DevOpsAgent|
            {
                &&& scaled_out_with(
                    pre,
                    bases.drop_last(),
                    draws.drop_last(),
                    mid,
                    reports.drop_last(),
                )
                &&& scaled_up_with(mid, bases.last(), draws.last(), post, reports.last())
            };
        let fewer = draws.drop_last();
        assert forall|k: int| 0 <= k < fewer.len() implies !has_key(
            before,
            #[trigger] drawn_id(fewer, k),
        ) by {
            assert(drawn_id(fewer, k) == drawn_id(draws, k));
        }
        assert forall|j: int, k: int| 0 <= j < k < fewer.len() implies #[trigger] drawn_id(
            fewer,
            j,
        ) != #[trigger] drawn_id(fewer, k) by {
            assert(drawn_id(fewer, j) == drawn_id(draws, j));
            assert(drawn_id(fewer, k) == drawn_id(draws, k));
        }
        lemma_scaling_adds_one_server_each(pre, bases.drop_last(), fewer, mid, reports.drop_last());
        let between = mid.infrastructure_state.servers@;
        let last = draws.len() - 1;
        let server = choose|server: ServerStatus|
            {
                &&& is_fresh_server(
                    server,
                    scaled_hostname(bases.last(), draws.last().stamp),
                    draws.last().raw_id,
                    draws.last().now,
                )
                &&& provisioned(mid, server, post)
                &&& reports.last() == scale_report(server.hostname@)
            };
        assert(server.id@ == drawn_id(draws, last));
        if has_key(between, server.id@) {
            assert(!has_key(before, drawn_id(draws, last)));
            let k = choose|k: int|
                0 <= k < fewer.len() && server.id@ == #[trigger] drawn_id(fewer, k);
            assert(drawn_id(fewer, k) == drawn_id(draws, k));
            assert(drawn_id(draws, k) != drawn_id(draws, last));
        }
        lemma_placed_under_new_key(between, server.id@, after);
        assert(after.take(before.len() as int) =~= before) by {
            assert(between.take(before.len() as int) == before);
            assert forall|i: int| 0 <= i < before.len() implies after[i] == before[i] by {
                assert(after.drop_last()[i] == between[i]);
                assert(between.take(before.len() as int)[i] == between[i]);
            }
        }
        assert forall|k: int| 0 <= k < bases.len() implies is_fresh_server(
            (#[trigger] after[before.len() + k]).value,
            scaled_hostname(bases[k], draws[k].stamp),
            draws[k].raw_id,
            draws[k].now,
        ) by {
            if k < bases.len() - 1 {
                assert(after.drop_last()[before.len() + k] == between[before.len() + k]);
                assert(bases.drop_last()[k] == bases[k]);
                assert(fewer[k] == draws[k]);
            } else {
                assert(after[before.len() + k] == after.last());
            }
        }
        assert forall|key: Seq<char>| has_key(after, key) implies has_key(before, key) || exists|
            k: int,
        | 0 <= k < draws.len() && key == #[trigger] drawn_id(draws, k) by {
            lemma_placed_keys(between, server.id@, after, key);
            if key == server.id@ {
                assert(key == drawn_id(draws, last));
            } else if !has_key(before, key) {
                let k = choose|k: int| 0 <= k < fewer.len() && key == #[trigger] drawn_id(fewer, k);
                assert(drawn_id(fewer, k) == drawn_id(draws, k));
            }
        }
    }
}

/// Scaling out touches the registry of servers and nothing else.
pub proof fn lemma_scaling_touches_servers_only(
    pre: DevOpsAgent,
    bases: Seq<Seq<char>>,
    post: DevOpsAgent,
    reports: Seq<Seq<char>>,
)
    requires
        scaled_out(pre, bases, post, reports),
    ensures
        post == (DevOpsAgent {
            infrastructure_state: InfrastructureState {
                servers: post.infrastructure_state.servers,
                ..pre.infrastructure_state
            },
            ..pre
        }),
    decreases bases.len(),
{
    if bases.len() > 0 {
        let mid = choose|mid: DevOpsAgent|
            scaled_out(pre, bases.drop_last(), mid, reports.drop_last()) && scaled_up(
                mid,
                bases.last(),
                post,
                reports.last(),
            );
        lemma_scaling_touches_servers_only(pre, bases.drop_last(), mid, reports.drop_last());
    }
}

/// Taking a message changes neither the agent's record nor its skills, and it
/// leaves every deployment as it was, in its place, but for the one that a
/// deployment request enters: of all kinds of message only `deploy_request`
/// touches the deployments, and all it does is enter one.
pub proof fn lemma_handling_spares_deployments(
    pre: DevOpsAgent,
    message: Message,
    post: DevOpsAgent,
)
    requires
        DevOpsAgent::handles(pre, message, post),
    ensures
        post.agent == pre.agent,
        post.infrastructure_skill == pre.infrastructure_skill,
        post.deployment_skill == pre.deployment_skill,
        post.monitoring_skill == pre.monitoring_skill,
        post.active_deployments == pre.active_deployments || (message.message_type@
            == "deploy_request"@ && exists|id: u128|
            placed(pre.active_deployments@, id, post.active_deployments@)
                && deployment_entered(pre, id, post).well_formed()
                && deployment_entered(pre, id, post).status == DeploymentStatus::Pending),
{
    lemma_kinds_differ();
    if message.message_type@ == "scale_request"@ {
        let reports = choose|reports: Seq<Seq<char>>|
            scaled_out(pre, overloaded_hosts(pre.infrastructure_state.servers@), post, reports);
        lemma_scaling_touches_servers_only(
            pre,
            overloaded_hosts(pre.infrastructure_state.servers@),
            post,
            reports,
        );
    }
}

/// The daily round changes neither the agent's record nor any deployment.
pub proof fn lemma_daily_round_spares_deployments(pre: DevOpsAgent, post: DevOpsAgent)
    requires
        DevOpsAgent::maintains(pre, post),
    ensures
        post.agent == pre.agent,
        post.active_deployments == pre.active_deployments,
{
    lemma_kinds_differ();
    let (first, checked, second, saved, third) = choose|
        first: Message,
        checked: DevOpsAgent,
        second: Message,
        saved: DevOpsAgent,
        third: Message,
    |
        {
            &&& is_note_to_self(first, pre.agent.id, "health_check"@, "Daily health check"@)
            &&& DevOpsAgent::handles(pre, first, checked)
            &&& is_note_to_self(second, pre.agent.id, "backup_request"@, "Daily backup"@)
            &&& DevOpsAgent::handles(checked, second, saved)
            &&& is_note_to_self(third, pre.agent.id, "scale_request"@, "Daily scaling check"@)
            &&& DevOpsAgent::handles(saved, third, post)
        };
    lemma_handling_spares_deployments(pre, first, checked);
    lemma_handling_spares_deployments(checked, second, saved);
    lemma_handling_spares_deployments(saved, third, post);
}

/// A deployment as submission leaves it is well formed: its cursor is on the
/// first step.
pub proof fn lemma_new_deployment_is_well_formed(
    d: Deployment,
    project_id: u128,
    environment: Seq<char>,
    steps: Seq<DeploymentStep>,
    id: u128,
    now: i64,
)
    requires
        is_new_deployment(d, project_id, environment, steps, id, now),
    ensures
        d.well_formed(),
        d.status == DeploymentStatus::Pending,
        d.current_step == 0,
{
}

impl DevOpsAgent {
    /// The registries are in order: no identifier stands for two servers or
    /// for two deployments, and the cursor of every deployment is on one of
    /// its steps or just past the last.
    pub open spec fn sound(self) -> bool {
        &&& distinct_keys(self.infrastructure_state.servers@)
        &&& distinct_keys(self.active_deployments@)
        &&& forall|i: int|
            0 <= i < self.active_deployments@.len() ==> (
            #[trigger] self.active_deployments@[i]).value.well_formed()
    }
}

/// An agent as it starts is sound.
pub proof fn lemma_new_agent_is_sound(agent: DevOpsAgent, name: Seq<char>, manager_id: Option<u128>)
    requires
        is_new_agent(agent, name, manager_id),
    ensures
        agent.sound(),
{
}

/// Scaling out keeps the identifiers of the servers distinct.
pub proof fn lemma_scaling_keeps_servers_distinct(
    pre: DevOpsAgent,
    bases: Seq<Seq<char>>,
    post: DevOpsAgent,
    reports: Seq<Seq<char>>,
)
    requires
        distinct_keys(pre.infrastructure_state.servers@),
        scaled_out(pre, bases, post, reports),
    ensures
        distinct_keys(post.infrastructure_state.servers@),
    decreases bases.len(),
{
    if bases.len() > 0 {
        let mid = choose|mid: DevOpsAgent|
            scaled_out(pre, bases.drop_last(), mid, reports.drop_last()) && scaled_up(
                mid,
                bases.last(),
                post,
                reports.last(),
            );
        lemma_scaling_keeps_servers_distinct(pre, bases.drop_last(), mid, reports.drop_last());
        let draws = choose|draws: ScaleDraws|
            scaled_up_with(mid, bases.last(), draws, post, reports.last());
        let server = choose|server: ServerStatus|
            {
                &&& is_fresh_server(
                    server,
                    scaled_hostname(bases.last(), draws.stamp),
                    draws.raw_id,
                    draws.now,
                )
                &&& provisioned(mid, server, post)
                &&& reports.last() == scale_report(server.hostname@)
            };
        lemma_placed_keeps_distinct(
            mid.infrastructure_state.servers@,
            server.id@,
            post.infrastructure_state.servers@,
        );
    }
}

/// Taking a message keeps the agent sound: whatever the message, afterwards
/// the cursor of every deployment still lies within its steps.
pub proof fn lemma_handling_keeps_sound(pre: DevOpsAgent, message: Message, post: DevOpsAgent)
    requires
        pre.sound(),
        DevOpsAgent::handles(pre, message, post),
    ensures
        post.sound(),
{
    lemma_kinds_differ();
    lemma_handling_spares_deployments(pre, message, post);
    if message.message_type@ == "deploy_request"@ {
        if post.active_deployments != pre.active_deployments {
            let id = choose|id: u128|
                placed(pre.active_deployments@, id, post.active_deployments@)
                    && deployment_entered(pre, id, post).well_formed() && deployment_entered(
                    pre,
                    id,
                    post,
                ).status == DeploymentStatus::Pending;
            lemma_placed_keeps_distinct(pre.active_deployments@, id, post.active_deployments@);
        }
    } else if message.message_type@ == "scale_request"@ {
        let reports = choose|reports: Seq<Seq<char>>|
            scaled_out(pre, overloaded_hosts(pre.infrastructure_state.servers@), post, reports);
        lemma_scaling_keeps_servers_distinct(
            pre,
            overloaded_hosts(pre.infrastructure_state.servers@),
            post,
            reports,
        );
    }
}

/// The daily round keeps the agent sound.
pub proof fn lemma_daily_round_keeps_sound(pre: DevOpsAgent, post: DevOpsAgent)
    requires
        pre.sound(),
        DevOpsAgent::maintains(pre, post),
    ensures
        post.sound(),
{
    let (first, checked, second, saved, third) = choose|
        first: Message,
        checked: DevOpsAgent,
        second: Message,
        saved: DevOpsAgent,
        third: Message,
    |
        {
            &&& is_note_to_self(first, pre.agent.id, "health_check"@, "Daily health check"@)
            &&& DevOpsAgent::handles(pre, first, checked)
            &&& is_note_to_self(second, pre.agent.id, "backup_request"@, "Daily backup"@)
            &&& DevOpsAgent::handles(checked, second, saved)
            &&& is_note_to_self(third, pre.agent.id, "scale_request"@, "Daily scaling check"@)
            &&& DevOpsAgent::handles(saved, third, post)
        };
    lemma_handling_keeps_sound(pre, first, checked);
    lemma_handling_keeps_sound(checked, second, saved);
    lemma_handling_keeps_sound(saved, third, post);
}

/// Recording a report of the executor keeps the agent sound, and moves the
/// cursor of the deployment forward or not at all.
pub proof fn lemma_recording_keeps_sound(
    pre: DevOpsAgent,
    at: int,
    event: DeploymentEvent,
    post: DevOpsAgent,
)
    requires
        pre.sound(),
        0 <= at < pre.active_deployments@.len(),
        deployment_replaced(pre, at, post.active_deployments@[at].value, post),
        Deployment::evolves(
            pre.active_deployments@[at].value,
            event,
            post.active_deployments@[at].value,
        ),
    ensures
        post.sound(),
        pre.active_deployments@[at].value.current_step
            <= post.active_deployments@[at].value.current_step,
{
    lemma_cursor_only_advances(
        pre.active_deployments@[at].value,
        event,
        post.active_deployments@[at].value,
    );
}

/// A deployment submitted under an identifier that is not in use joins the
/// end of the registry: the registry grows by one, and every deployment that
/// was there stays as it was, cursor and all.
pub proof fn lemma_submission_under_new_id(pre: DevOpsAgent, id: u128, post: DevOpsAgent)
    requires
        deployed(pre, id, post),
        !has_key(pre.active_deployments@, id),
    ensures
        post.active_deployments@.len() == pre.active_deployments@.len() + 1,
        kept(pre.active_deployments@, post.active_deployments@),
        post.active_deployments@.last().value == deployment_entered(pre, id, post),
{
    lemma_placed_under_new_key(pre.active_deployments@, id, post.active_deployments@);
}

/// Taking a message moves no cursor back and leaves every cursor within its
/// steps: afterwards the agent is sound, and every deployment that was there
/// stays as it was, in its place. The one exception is a deployment request
/// whose drawn identifier is already in use: it replaces the deployment that
/// stood under that identifier by the new one.
pub proof fn lemma_handling_keeps_cursors(pre: DevOpsAgent, message: Message, post: DevOpsAgent)
    requires
        pre.sound(),
        DevOpsAgent::handles(pre, message, post),
    ensures
        post.sound(),
        kept(pre.active_deployments@, post.active_deployments@) || (message.message_type@
            == "deploy_request"@ && exists|id: u128|
            has_key(pre.active_deployments@, id) && placed(
                pre.active_deployments@,
                id,
                post.active_deployments@,
            )),
{
    lemma_handling_keeps_sound(pre, message, post);
    lemma_handling_spares_deployments(pre, message, post);
    if post.active_deployments != pre.active_deployments {
        let id = choose|id: u128|
            placed(pre.active_deployments@, id, post.active_deployments@) && deployment_entered(
                pre,
                id,
                post,
            ).well_formed() && deployment_entered(pre, id, post).status
                == DeploymentStatus::Pending;
        if !has_key(pre.active_deployments@, id) {
            lemma_placed_under_new_key(pre.active_deployments@, id, post.active_deployments@);
        }
    }
}

} // verus!
