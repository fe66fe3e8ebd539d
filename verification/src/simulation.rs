//! The orchestrator: the registry of agents, the bus, and what one step of
//! the simulation does.
//!
//! The orchestrator decides; it does not wait. Whoever drives it asks `plan`
//! what to do next, sleeps as told, and calls `run_simulation_step` for each
//! step of work.

use crate::agents::Agent;
use crate::agents::AgentError;
use crate::agents::AgentTrait;
use crate::agents::Department;
use crate::chance::draw;
use crate::chance::falls_under;
use crate::chance::happens;
use crate::clock::now;
use crate::communication::listed;
use crate::communication::DeliveryError;
use crate::communication::Message;
use crate::communication::MessageBus;
use crate::communication::MessagePriority;
use crate::departments::devops::DevOpsAgent;
use crate::departments::infosec::InfoSecAgent;
use crate::departments::networking::NetworkingAgent;
use crate::departments::ops::OpsAgent;
use crate::departments::devops;
use crate::departments::infosec;
use crate::departments::networking;
use crate::departments::ops;
use crate::ids::fresh_id;
use crate::ids::hyphenated_string;
use crate::ids::hyphenated_text;
use crate::ids::simple_string;
use crate::ids::simple_text;
use crate::ids::NIL_ID;
use crate::table::bound;
use crate::table::distinct_keys;
use crate::table::has_key;
use crate::table::lemma_placed_keeps_distinct;
use crate::table::landing;
use crate::table::lemma_slot_of;
use crate::table::slot_of;
use crate::table::Entry;
use crate::table::Table;
use crate::text::digits;
use crate::text::unsigned_string;
use vstd::prelude::*;
use vstd::string::StringExecFns;

verus! {

/// An agent of any department. The four departments that are modelled in
/// depth have agents of their own kind; an agent of any other department is
/// its record and nothing more.
#[derive(Clone, Debug)]
pub enum DepartmentAgent {
    DevOps(DevOpsAgent),
    InfoSec(InfoSecAgent),
    Networking(NetworkingAgent),
    Ops(OpsAgent),
    Other(Agent),
}

impl AgentTrait for DepartmentAgent {
    open spec fn accepts(&self, message: Message) -> bool {
        match *self {
            DepartmentAgent::DevOps(agent) => agent.accepts(message),
            DepartmentAgent::InfoSec(agent) => agent.accepts(message),
            DepartmentAgent::Networking(agent) => agent.accepts(message),
            DepartmentAgent::Ops(agent) => agent.accepts(message),
            DepartmentAgent::Other(_) => true,
        }
    }

    /// An agent takes a message as its department does; an agent of a
    /// department that is not modelled takes every message and changes
    /// nothing.
    open spec fn handles(pre: Self, message: Message, post: Self) -> bool {
        match pre {
            DepartmentAgent::DevOps(agent) => post matches DepartmentAgent::DevOps(after)
                && DevOpsAgent::handles(agent, message, after),
            DepartmentAgent::InfoSec(agent) => post matches DepartmentAgent::InfoSec(after)
                && InfoSecAgent::handles(agent, message, after),
            DepartmentAgent::Networking(agent) => post matches DepartmentAgent::Networking(after)
                && NetworkingAgent::handles(agent, message, after),
            DepartmentAgent::Ops(agent) => post matches DepartmentAgent::Ops(after)
                && OpsAgent::handles(agent, message, after),
            DepartmentAgent::Other(_) => post == pre,
        }
    }

    open spec fn fit_for_daily_tasks(&self) -> bool {
        match *self {
            DepartmentAgent::DevOps(agent) => agent.fit_for_daily_tasks(),
            DepartmentAgent::InfoSec(agent) => agent.fit_for_daily_tasks(),
            DepartmentAgent::Networking(agent) => agent.fit_for_daily_tasks(),
            DepartmentAgent::Ops(agent) => agent.fit_for_daily_tasks(),
            DepartmentAgent::Other(_) => true,
        }
    }

    /// An agent runs the daily round of its department; an agent of a
    /// department that is not modelled has none.
    open spec fn maintains(pre: Self, post: Self) -> bool {
        match pre {
            DepartmentAgent::DevOps(agent) => post matches DepartmentAgent::DevOps(after)
                && DevOpsAgent::maintains(agent, after),
            DepartmentAgent::InfoSec(agent) => post matches DepartmentAgent::InfoSec(after)
                && InfoSecAgent::maintains(agent, after),
            DepartmentAgent::Networking(agent) => post matches DepartmentAgent::Networking(after)
                && NetworkingAgent::maintains(agent, after),
            DepartmentAgent::Ops(agent) => post matches DepartmentAgent::Ops(after)
                && OpsAgent::maintains(agent, after),
            DepartmentAgent::Other(_) => post == pre,
        }
    }

    open spec fn record(&self) -> Agent {
        match *self {
            DepartmentAgent::DevOps(agent) => agent.agent,
            DepartmentAgent::InfoSec(agent) => agent.agent,
            DepartmentAgent::Networking(agent) => agent.agent,
            DepartmentAgent::Ops(agent) => agent.agent,
            DepartmentAgent::Other(agent) => agent,
        }
    }

    fn process_message(&mut self, message: Message) -> (r: Result<(), AgentError>) {
        match self {
            DepartmentAgent::DevOps(agent) => agent.process_message(message),
            DepartmentAgent::InfoSec(agent) => agent.process_message(message),
            DepartmentAgent::Networking(agent) => agent.process_message(message),
            DepartmentAgent::Ops(agent) => agent.process_message(message),
            DepartmentAgent::Other(_) => Ok(()),
        }
    }

    fn perform_daily_tasks(&mut self) -> (r: Result<(), AgentError>) {
        match self {
            DepartmentAgent::DevOps(agent) => agent.perform_daily_tasks(),
            DepartmentAgent::InfoSec(agent) => agent.perform_daily_tasks(),
            DepartmentAgent::Networking(agent) => agent.perform_daily_tasks(),
            DepartmentAgent::Ops(agent) => agent.perform_daily_tasks(),
            DepartmentAgent::Other(_) => Ok(()),
        }
    }

    fn can_accept(&self, message: &Message) -> (b: bool) {
        match self {
            DepartmentAgent::DevOps(agent) => agent.can_accept(message),
            DepartmentAgent::InfoSec(agent) => agent.can_accept(message),
            DepartmentAgent::Networking(agent) => agent.can_accept(message),
            DepartmentAgent::Ops(agent) => agent.can_accept(message),
            DepartmentAgent::Other(_) => true,
        }
    }

    fn can_run_daily_tasks(&self) -> (b: bool) {
        match self {
            DepartmentAgent::DevOps(agent) => agent.can_run_daily_tasks(),
            DepartmentAgent::InfoSec(agent) => agent.can_run_daily_tasks(),
            DepartmentAgent::Networking(agent) => agent.can_run_daily_tasks(),
            DepartmentAgent::Ops(agent) => agent.can_run_daily_tasks(),
            DepartmentAgent::Other(_) => true,
        }
    }

    fn get_agent(&self) -> (a: &Agent) {
        match self {
            DepartmentAgent::DevOps(agent) => &agent.agent,
            DepartmentAgent::InfoSec(agent) => &agent.agent,
            DepartmentAgent::Networking(agent) => &agent.agent,
            DepartmentAgent::Ops(agent) => &agent.agent,
            DepartmentAgent::Other(agent) => agent,
        }
    }

    fn get_agent_mut(&mut self) -> (a: &mut Agent) {
        match self {
            DepartmentAgent::DevOps(agent) => &mut agent.agent,
            DepartmentAgent::InfoSec(agent) => &mut agent.agent,
            DepartmentAgent::Networking(agent) => &mut agent.agent,
            DepartmentAgent::Ops(agent) => &mut agent.agent,
            DepartmentAgent::Other(agent) => agent,
        }
    }
}

/// How the simulation is run. The speed is held in hundredths (`100` runs in
/// real time, `200` twice as fast); the working hours are a start and an end
/// hour of the day, the end not included.
#[derive(Clone, Copy, Debug)]
pub struct SimulationConfig {
    pub speed_multiplier: u32,
    pub autonomous_mode: bool,
    pub working_hours: (u8, u8),
    pub max_steps: Option<u64>,
}

/// The seconds to rest before looking at the clock again outside working
/// hours.
pub const REST_SECONDS: u64 = 300;

/// The seconds between two steps at real-time speed.
pub const STEP_SECONDS: u64 = 60;

/// What the driver of the simulation is to do next.
#[derive(Clone, Copy, Debug, PartialEq, Eq, Structural)]
pub enum Move {
    /// The step budget is used up: end the run.
    Stop,
    /// It is outside working hours: sleep, then ask again. No step is
    /// counted.
    Rest { seconds: u64 },
    /// Run one step, count it, and then sleep.
    Work { pause_seconds: u64 },
}

impl SimulationConfig {
    /// The speed is positive and the working hours are hours of the day.
    pub open spec fn valid(self) -> bool {
        &&& self.speed_multiplier > 0
        &&& self.working_hours.0 <= 23
        &&& self.working_hours.1 <= 23
    }

    /// Whether the configuration can be run.
    pub fn is_valid(&self) -> (b: bool)
        ensures
            b == self.valid(),
    {
        self.speed_multiplier > 0 && self.working_hours.0 <= 23 && self.working_hours.1 <= 23
    }

    /// Whether `hour` lies within the working hours.
    pub open spec fn at_work(self, hour: u8) -> bool {
        self.working_hours.0 <= hour < self.working_hours.1
    }

    /// The seconds to pause between two steps: a minute divided by the speed.
    /// At speed nought the pause has no end.
    pub open spec fn pause(self) -> u64 {
        if self.speed_multiplier == 0 {
            u64::MAX
        } else {
            ((STEP_SECONDS * 100) / self.speed_multiplier as int) as u64
        }
    }

    /// What to do after `completed` steps when the clock shows `hour`: stop
    /// where the step that would come next reaches the budget; rest outside
    /// working hours; otherwise work, and then pause.
    pub open spec fn next_move(self, completed: u64, hour: u8) -> Move {
        if self.max_steps matches Some(budget) && completed + 1 >= budget {
            Move::Stop
        } else if !self.at_work(hour) {
            Move::Rest { seconds: REST_SECONDS }
        } else {
            Move::Work { pause_seconds: self.pause() }
        }
    }

    /// Decides what the driver is to do after `completed` steps when the
    /// clock shows `hour`.
    pub fn plan(&self, completed: u64, hour: u8) -> (m: Move)
        ensures
            m == self.next_move(completed, hour),
    {
        let reached = match self.max_steps {
            Some(budget) => budget == 0 || completed >= budget - 1,
            None => false,
        };
        if reached {
            Move::Stop
        } else if hour < self.working_hours.0 || hour >= self.working_hours.1 {
            Move::Rest { seconds: REST_SECONDS }
        } else if self.speed_multiplier == 0 {
            Move::Work { pause_seconds: u64::MAX }
        } else {
            Move::Work { pause_seconds: (STEP_SECONDS * 100) / (self.speed_multiplier as u64) }
        }
    }
}

impl Default for SimulationConfig {
    /// Real-time speed, autonomous, at work from 9 to 18, with no step
    /// budget.
    fn default() -> (c: Self)
        ensures
            c.speed_multiplier == 100,
            c.autonomous_mode,
            c.working_hours == (9u8, 18u8),
            c.max_steps is None,
            c.valid(),
    {
        SimulationConfig {
            speed_multiplier: 100,
            autonomous_mode: true,
            working_hours: (9, 18),
            max_steps: None,
        }
    }
}

/// The company: its agents by identifier, the bus they share, the active
/// projects, and the configuration of the run.
#[derive(Clone, Debug)]
pub struct CompanySimulation {
    pub agents: Table<u128, DepartmentAgent>,
    pub message_bus: MessageBus,
    pub projects: Vec<u128>,
    pub config: SimulationConfig,
}

/// `agent` is an agent of `department` as it starts, of the given name and
/// manager: of the kind that the department has, and in the state in which
/// such an agent starts. An agent of a department that is not modelled is its
/// record.
pub open spec fn is_newcomer(
    agent: DepartmentAgent,
    department: Department,
    name: Seq<char>,
    manager_id: Option<u128>,
) -> bool {
    match department {
        Department::DevOps => agent matches DepartmentAgent::DevOps(a) && devops::is_new_agent(
            a,
            name,
            manager_id,
        ),
        Department::InfoSec => agent matches DepartmentAgent::InfoSec(a) && infosec::is_new_agent(
            a,
            name,
            manager_id,
        ),
        Department::Networking => agent matches DepartmentAgent::Networking(a)
            && networking::is_new_agent(a, name, manager_id),
        Department::Ops => agent matches DepartmentAgent::Ops(a) && ops::is_new_agent(
            a,
            name,
            manager_id,
        ),
        _ => agent matches DepartmentAgent::Other(record) && record.name@ == name
            && record.department == department && record.manager_id == manager_id,
    }
}

/// The directory after `id` was listed in it.
pub open spec fn with_listed(directory: Seq<u128>, id: u128) -> Seq<u128> {
    if listed(directory, id) {
        directory
    } else {
        directory.push(id)
    }
}

/// `post` is `pre` after `agent` joined: it is in the registry under its
/// identifier and listed on the bus. Nothing else changed.
pub open spec fn enrolled(
    pre: CompanySimulation,
    agent: DepartmentAgent,
    post: CompanySimulation,
) -> bool {
    &&& bound(pre.agents@, agent.record().id, agent, post.agents@)
    &&& post.message_bus.directory@ == with_listed(pre.message_bus.directory@, agent.record().id)
    &&& post == (CompanySimulation {
        agents: post.agents,
        message_bus: MessageBus {
            directory: post.message_bus.directory,
            ..pre.message_bus
        },
        ..pre
    })
}

/// `post` is `pre` after a new agent of `department` with the given name and
/// manager joined under the identifier `id`, which is not the nil
/// identifier.
pub open spec fn hired(
    pre: CompanySimulation,
    department: Department,
    name: Seq<char>,
    manager_id: Option<u128>,
    post: CompanySimulation,
    id: u128,
) -> bool {
    exists|agent: DepartmentAgent|
        {
            &&& enrolled(pre, agent, post)
            &&& is_newcomer(agent, department, name, manager_id)
            &&& agent.record().id == id
            &&& id != NIL_ID
        }
}

/// The name of the `number`-th agent of a department.
pub open spec fn staff_name(department: Department, number: nat) -> Seq<char> {
    department.name() + " Agent "@ + digits(number)
}

/// `post` is `pre` after `count` agents of `department` joined, one after the
/// other, all reporting to `manager_id` and named by their number from 1.
pub open spec fn staffed(
    pre: CompanySimulation,
    department: Department,
    manager_id: u128,
    count: nat,
    post: CompanySimulation,
) -> bool
    decreases count,
{
    if count == 0 {
        post == pre
    } else {
        exists|mid: CompanySimulation, id: u128|
            {
                &&& staffed(pre, department, manager_id, (count - 1) as nat, mid)
                &&& hired(
                    mid,
                    department,
                    staff_name(department, count),
                    Some(manager_id),
                    post,
                    id,
                )
            }
    }
}

/// `post` is `pre` after the company was staffed: a manager for each of
/// Engineering, Sales, DevOps, InfoSec, Networking and Ops, and then three
/// agents for DevOps, two for InfoSec, two for Networking and three for Ops,
/// each group reporting to the manager of its department.
pub open spec fn departments_initialized(pre: CompanySimulation, post: CompanySimulation) -> bool {
    exists|
        with_engineering: CompanySimulation,
        engineering: u128,
        with_sales: CompanySimulation,
        sales: u128,
        with_devops: CompanySimulation,
        devops: u128,
        with_infosec: CompanySimulation,
        infosec: u128,
        with_networking: CompanySimulation,
        networking: u128,
        with_ops: CompanySimulation,
        ops: u128,
        devops_staffed: CompanySimulation,
        infosec_staffed: CompanySimulation,
        networking_staffed: CompanySimulation,
    |
        {
            &&& hired(
                pre,
                Department::Engineering,
                "Sarah Chen"@,
                None,
                with_engineering,
                engineering,
            )
            &&& hired(
                with_engineering,
                Department::Sales,
                "Mike Rodriguez"@,
                None,
                with_sales,
                sales,
            )
            &&& hired(with_sales, Department::DevOps, "Jordan Smith"@, None, with_devops, devops)
            &&& hired(
                with_devops,
                Department::InfoSec,
                "Alex Thompson"@,
                None,
                with_infosec,
                infosec,
            )
            &&& hired(
                with_infosec,
                Department::Networking,
                "Lisa Park"@,
                None,
                with_networking,
                networking,
            )
            &&& hired(with_networking, Department::Ops, "David Wilson"@, None, with_ops, ops)
            &&& staffed(with_ops, Department::DevOps, devops, 3, devops_staffed)
            &&& staffed(devops_staffed, Department::InfoSec, infosec, 2, infosec_staffed)
            &&& staffed(
                infosec_staffed,
                Department::Networking,
                networking,
                2,
                networking_staffed,
            )
            &&& staffed(networking_staffed, Department::Ops, ops, 3, post)
        }
}

/// `s` is a company without agents, messages or projects, under the default
/// configuration.
pub open spec fn is_empty_company(s: CompanySimulation) -> bool {
    &&& s.agents@.len() == 0
    &&& s.message_bus.directory@.len() == 0
    &&& s.message_bus.queue@.len() == 0
    &&& s.projects@.len() == 0
    &&& s.config.speed_multiplier == 100
    &&& s.config.autonomous_mode
    &&& s.config.working_hours == (9u8, 18u8)
    &&& s.config.max_steps is None
}

impl CompanySimulation {
    /// A company without agents, under the default configuration.
    pub fn empty() -> (r: Result<Self, AgentError>)
        ensures
            r matches Ok(s) && is_empty_company(s),
    {
        match MessageBus::new() {
            Ok(message_bus) => Ok(
                CompanySimulation {
                    agents: Table::new(),
                    message_bus,
                    projects: Vec::new(),
                    config: SimulationConfig::default(),
                },
            ),
            Err(e) => Err(AgentError::Delivery(e)),
        }
    }

    /// Takes an agent into the company: enters it in the registry under its
    /// identifier and lists it on the bus.
    pub fn enroll(&mut self, agent: DepartmentAgent) -> (id: u128)
        ensures
            id == agent.record().id,
            enrolled(*old(self), agent, *final(self)),
    {
        let id = agent.get_agent().id;
        self.agents.insert(id, agent);
        self.message_bus.register(id);
        id
    }

    /// Creates an agent for a department and takes it into the company. The
    /// four departments that are modelled in depth get an agent of their own
    /// kind; any other department gets a plain record.
    pub fn create_agent(
        &mut self,
        department: Department,
        name: &str,
        manager_id: Option<u128>,
    ) -> (r: Result<u128, AgentError>)
        ensures
            r matches Ok(id) && hired(*old(self), department, name@, manager_id, *final(self), id),
    {
        let agent = match department {
            Department::DevOps => DepartmentAgent::DevOps(
                DevOpsAgent::new(String::from_str(name), manager_id),
            ),
            Department::InfoSec => DepartmentAgent::InfoSec(
                InfoSecAgent::new(String::from_str(name), manager_id),
            ),
            Department::Networking => DepartmentAgent::Networking(
                NetworkingAgent::new(String::from_str(name), manager_id),
            ),
            Department::Ops => DepartmentAgent::Ops(
                OpsAgent::new(String::from_str(name), manager_id),
            ),
            _ => DepartmentAgent::Other(Agent::new(String::from_str(name), department, manager_id)),
        };
        let id = self.enroll(agent);
        Ok(id)
    }

    /// Creates `count` agents for a department, all reporting to
    /// `manager_id`, named by their number from 1.
    pub fn create_department_agents(
        &mut self,
        department: Department,
        manager_id: u128,
        count: usize,
    ) -> (r: Result<(), AgentError>)
        ensures
            r is Ok,
            staffed(*old(self), department, manager_id, count as nat, *final(self)),
    {
        let mut done: usize = 0;
        while done < count
            invariant
                done <= count,
                staffed(*old(self), department, manager_id, done as nat, *self),
            decreases count - done,
        {
            let ghost mid = *self;
            done += 1;
            let name = String::from_str(department.as_str()).concat(" Agent ").concat(
                unsigned_string(done as u64).as_str(),
            );
            let id = self.create_agent(department, name.as_str(), Some(manager_id))?;
            assert(hired(
                mid,
                department,
                staff_name(department, done as nat),
                Some(manager_id),
                *self,
                id,
            ));
        }
        Ok(())
    }

    /// Staffs the company: the six managers, then the agents of the four
    /// departments that are modelled in depth.
    pub fn initialize_departments(&mut self) -> (r: Result<(), AgentError>)
        ensures
            r is Ok,
            departments_initialized(*old(self), *final(self)),
    {
        self.create_agent(Department::Engineering, "Sarah Chen", None)?;
        self.create_agent(Department::Sales, "Mike Rodriguez", None)?;
        let devops = self.create_agent(Department::DevOps, "Jordan Smith", None)?;
        let infosec = self.create_agent(Department::InfoSec, "Alex Thompson", None)?;
        let networking = self.create_agent(Department::Networking, "Lisa Park", None)?;
        let ops = self.create_agent(Department::Ops, "David Wilson", None)?;
        self.create_department_agents(Department::DevOps, devops, 3)?;
        self.create_department_agents(Department::InfoSec, infosec, 2)?;
        self.create_department_agents(Department::Networking, networking, 2)?;
        self.create_department_agents(Department::Ops, ops, 3)?;
        Ok(())
    }

    /// A company staffed and ready to run, under the default configuration.
    pub fn new() -> (r: Result<Self, AgentError>)
        ensures
            r matches Ok(s) && exists|empty: CompanySimulation|
                is_empty_company(empty) && departments_initialized(empty, s),
    {
        let mut simulation = CompanySimulation::empty()?;
        simulation.initialize_departments()?;
        Ok(simulation)
    }
}

/// The chance, in parts of ten thousand, that a step brings a new project.
/// The chances of the four company events are taken from one draw, so at most
/// one event comes of it.
pub const PROJECT_CHANCE: u32 = 500;

/// The chance, in parts of ten thousand, that a step brings a security
/// incident.
pub const INCIDENT_CHANCE: u32 = 300;

/// The chance, in parts of ten thousand, that a step brings an infrastructure
/// issue.
pub const INFRASTRUCTURE_CHANCE: u32 = 400;

/// The chance, in parts of ten thousand, that a step brings a customer
/// request.
pub const CUSTOMER_CHANCE: u32 = 600;

/// Something that happens to the company from outside.
#[derive(Clone, Copy, Debug, PartialEq, Eq, Structural)]
pub enum CompanyEvent {
    NewProject,
    SecurityIncident,
    InfrastructureIssue,
    CustomerRequest,
}

/// The event that a raw draw stands for, if any: a new project for 5 draws in
/// a hundred, a security incident for the next 3, an infrastructure issue for
/// the next 4, a customer request for the next 6.
pub open spec fn event_for(raw: u64) -> Option<CompanyEvent> {
    if falls_under(raw, PROJECT_CHANCE) {
        Some(CompanyEvent::NewProject)
    } else if falls_under(raw, (PROJECT_CHANCE + INCIDENT_CHANCE) as u32) {
        Some(CompanyEvent::SecurityIncident)
    } else if falls_under(raw, (PROJECT_CHANCE + INCIDENT_CHANCE + INFRASTRUCTURE_CHANCE) as u32) {
        Some(CompanyEvent::InfrastructureIssue)
    } else if falls_under(
        raw,
        (PROJECT_CHANCE + INCIDENT_CHANCE + INFRASTRUCTURE_CHANCE + CUSTOMER_CHANCE) as u32,
    ) {
        Some(CompanyEvent::CustomerRequest)
    } else {
        None
    }
}

/// Picks the event that a raw draw stands for.
pub fn choose_event(raw: u64) -> (event: Option<CompanyEvent>)
    ensures
        event == event_for(raw),
{
    if happens(raw, PROJECT_CHANCE) {
        Some(CompanyEvent::NewProject)
    } else if happens(raw, PROJECT_CHANCE + INCIDENT_CHANCE) {
        Some(CompanyEvent::SecurityIncident)
    } else if happens(raw, PROJECT_CHANCE + INCIDENT_CHANCE + INFRASTRUCTURE_CHANCE) {
        Some(CompanyEvent::InfrastructureIssue)
    } else if happens(
        raw,
        PROJECT_CHANCE + INCIDENT_CHANCE + INFRASTRUCTURE_CHANCE + CUSTOMER_CHANCE,
    ) {
        Some(CompanyEvent::CustomerRequest)
    } else {
        None
    }
}

/// What a message from the system says: its kind, its content, its priority,
/// and its parameters in the order they were given.
pub struct Notice {
    pub kind: Seq<char>,
    pub content: Seq<char>,
    pub priority: MessagePriority,
    pub parameters: Seq<(Seq<char>, Seq<char>)>,
}

/// The parameters of a message as pairs of texts.
pub open spec fn pairs(metadata: Seq<Entry<String, String>>) -> Seq<(Seq<char>, Seq<char>)> {
    metadata.map_values(|e: Entry<String, String>| (e.key@, e.value@))
}

/// `m` is the message that tells `recipient` of `notice` in the name of the
/// system, under the identifier `id`, stamped `now`.
pub open spec fn carries(m: Message, recipient: u128, notice: Notice, id: u128, now: i64) -> bool {
    &&& m.id == id
    &&& m.from_agent == NIL_ID
    &&& m.to_agent == recipient
    &&& m.message_type@ == notice.kind
    &&& m.content@ == notice.content
    &&& m.priority == notice.priority
    &&& m.timestamp == now
    &&& pairs(m.metadata@) == notice.parameters
}

/// `i` is the position of the first agent of `department`.
pub open spec fn first_of(
    agents: Seq<Entry<u128, DepartmentAgent>>,
    department: Department,
    i: int,
) -> bool {
    &&& 0 <= i < agents.len()
    &&& agents[i].value.record().department == department
    &&& forall|j: int| 0 <= j < i ==> (#[trigger] agents[j]).value.record().department != department
}

/// Some agent belongs to `department`.
pub open spec fn has_department(
    agents: Seq<Entry<u128, DepartmentAgent>>,
    department: Department,
) -> bool {
    exists|i: int|
        0 <= i < agents.len() && (#[trigger] agents[i]).value.record().department == department
}

/// The position of the first agent of `department`; meaningful where
/// `has_department`.
pub open spec fn lead_of(agents: Seq<Entry<u128, DepartmentAgent>>, department: Department) -> int {
    choose|i: int| first_of(agents, department, i)
}

/// `post` is `pre` after `message` joined the end of the queue, and nothing
/// else changed.
pub open spec fn queued(pre: CompanySimulation, message: Message, post: CompanySimulation) -> bool {
    &&& post.message_bus.queue@ == pre.message_bus.queue@.push(message)
    &&& post == (CompanySimulation {
        message_bus: MessageBus { queue: post.message_bus.queue, ..pre.message_bus },
        ..pre
    })
}

/// `post` and `r` are what comes of telling the first agent of `department`
/// of `notice`, under the identifier `id` at time `now`, in state `pre`.
/// Where the department has no agent nothing happens. Where its first agent
/// is listed on the bus the message joins the queue and the agent is named in
/// the result. Where that agent is not listed the bus refuses, the refusal is
/// the result, and nothing changes.
pub open spec fn notified(
    pre: CompanySimulation,
    department: Department,
    notice: Notice,
    id: u128,
    now: i64,
    post: CompanySimulation,
    r: Result<Option<u128>, AgentError>,
) -> bool {
    if !has_department(pre.agents@, department) {
        r == Ok::<Option<u128>, AgentError>(None) && post == pre
    } else {
        let recipient = pre.agents@[lead_of(pre.agents@, department)].value.record().id;
        if listed(pre.message_bus.directory@, recipient) {
            &&& r == Ok::<Option<u128>, AgentError>(Some(recipient))
            &&& post.message_bus.queue@.len() > 0
            &&& carries(post.message_bus.queue@.last(), recipient, notice, id, now)
            &&& queued(pre, post.message_bus.queue@.last(), post)
        } else {
            &&& r == Err::<Option<u128>, AgentError>(
                AgentError::Delivery(DeliveryError::UnknownRecipient(recipient)),
            )
            &&& post == pre
        }
    }
}

/// What the system tells a department of a new project.
pub open spec fn project_notice(project_id: u128) -> Notice {
    Notice {
        kind: "project_assignment"@,
        content: "Assigned to project "@ + simple_text(project_id),
        priority: MessagePriority::Normal,
        parameters: seq![("project_id"@, hyphenated_text(project_id))],
    }
}

/// What the system tells InfoSec of a security incident.
pub open spec fn security_notice() -> Notice {
    Notice {
        kind: "declare_incident"@,
        content: "Security incident: Suspicious activity detected on customer portal"@,
        priority: MessagePriority::High,
        parameters: seq![
            ("title"@, "Security Incident - Suspicious Activity"@),
            ("severity"@, "Sev2"@),
        ],
    }
}

/// What the system tells DevOps of an infrastructure issue.
pub open spec fn infrastructure_notice() -> Notice {
    Notice {
        kind: "infrastructure_alert"@,
        content: "High CPU usage detected on web servers"@,
        priority: MessagePriority::High,
        parameters: Seq::empty(),
    }
}

/// The name of the customer that a raw draw stands for.
pub open spec fn customer_name(raw: u64) -> Seq<char> {
    "cust-"@ + digits((raw as int % 0x1_0000_0000) as nat)
}

/// What the system tells Ops of a customer request.
pub open spec fn customer_notice(customer_raw: u64) -> Notice {
    Notice {
        kind: "create_ticket"@,
        content: "Customer reports website loading slowly"@,
        priority: MessagePriority::Normal,
        parameters: seq![
            ("title"@, "Website Performance Issue"@),
            ("priority"@, "Normal"@),
            ("customer_id"@, customer_name(customer_raw)),
        ],
    }
}

/// Adds a parameter at the end of `metadata`.
fn append_parameter(metadata: &mut Table<String, String>, key: &str, value: String)
    ensures
        pairs(final(metadata)@) == pairs(old(metadata)@).push((key@, value@)),
{
    metadata.entries.push(Entry { key: String::from_str(key), value });
}

impl CompanySimulation {
    /// The position of the first agent of `department`, if it has one.
    pub fn find_department(&self, department: Department) -> (r: Option<usize>)
        ensures
            match r {
                Some(i) => first_of(self.agents@, department, i as int) && i as int == lead_of(
                    self.agents@,
                    department,
                ),
                None => !has_department(self.agents@, department),
            },
    {
        let mut i: usize = 0;
        while i < self.agents.len()
            invariant
                i <= self.agents@.len(),
                forall|j: int|
                    0 <= j < i ==> (#[trigger] self.agents@[j]).value.record().department
                        != department,
            decreases self.agents@.len() - i,
        {
            if self.agents.entries[i].value.get_agent().department == department {
                return Some(i);
            }
            i += 1;
        }
        None
    }

    /// Hands a message to the bus. A message to an unknown recipient is
    /// refused, and then nothing changes; no agent changes in either case.
    pub fn send_message(&mut self, message: Message) -> (r: Result<(), AgentError>)
        ensures
            final(self).agents == old(self).agents,
            listed(old(self).message_bus.directory@, message.to_agent) ==> r is Ok && queued(
                *old(self),
                message,
                *final(self),
            ),
            !listed(old(self).message_bus.directory@, message.to_agent) ==> {
                &&& r == Err::<(), AgentError>(
                    AgentError::Delivery(DeliveryError::UnknownRecipient(message.to_agent)),
                )
                &&& *final(self) == *old(self)
            },
    {
        match self.message_bus.send_message(message) {
            Ok(_) => Ok(()),
            Err(e) => Err(AgentError::Delivery(e)),
        }
    }

    /// Tells the first agent of `department` of something in the name of the
    /// system, under the identifier `id` at time `now`.
    pub fn notify_department_with(
        &mut self,
        department: Department,
        kind: &str,
        content: String,
        priority: MessagePriority,
        metadata: Table<String, String>,
        id: u128,
        now: i64,
    ) -> (r: Result<Option<u128>, AgentError>)
        ensures
            notified(
                *old(self),
                department,
                Notice { kind: kind@, content: content@, priority, parameters: pairs(metadata@) },
                id,
                now,
                *final(self),
                r,
            ),
    {
        match self.find_department(department) {
            Some(at) => {
                let recipient = self.agents.entries[at].value.get_agent().id;
                let message = Message {
                    id,
                    from_agent: NIL_ID,
                    to_agent: recipient,
                    message_type: String::from_str(kind),
                    content,
                    priority,
                    timestamp: now,
                    metadata,
                };
                match self.send_message(message) {
                    Ok(_) => Ok(Some(recipient)),
                    Err(e) => Err(e),
                }
            },
            None => Ok(None),
        }
    }

    /// Tells the first agent of `department` that it is assigned to a
    /// project, under the identifier `id` at time `now`.
    pub fn assign_project_task_with(
        &mut self,
        project_id: u128,
        department: Department,
        id: u128,
        now: i64,
    ) -> (r: Result<Option<u128>, AgentError>)
        ensures
            notified(*old(self), department, project_notice(project_id), id, now, *final(self), r),
    {
        let mut metadata: Table<String, String> = Table::new();
        assert(pairs(metadata@) =~= Seq::empty());
        append_parameter(&mut metadata, "project_id", hyphenated_string(project_id));
        let content = String::from_str("Assigned to project ").concat(
            simple_string(project_id).as_str(),
        );
        self.notify_department_with(
            department,
            "project_assignment",
            content,
            MessagePriority::Normal,
            metadata,
            id,
            now,
        )
    }

    /// Tells the first agent of `department` that it is assigned to a
    /// project.
    pub fn assign_project_task(&mut self, project_id: u128, department: Department) -> (r: Result<
        (),
        AgentError,
    >)
        ensures
            exists|id: u128, now: i64, told: Result<Option<u128>, AgentError>|
                {
                    &&& notified(
                        *old(self),
                        department,
                        project_notice(project_id),
                        id,
                        now,
                        *final(self),
                        told,
                    )
                    &&& outcome_of(told, r)
                },
    {
        let id = fresh_id();
        let at = now();
        let told = self.assign_project_task_with(project_id, department, id, at);
        let r = settle(told);
        r
    }

    /// Tells the first InfoSec agent of a security incident, under the
    /// identifier `id` at time `now`.
    pub fn handle_security_incident_with(&mut self, id: u128, now: i64) -> (r: Result<
        Option<u128>,
        AgentError,
    >)
        ensures
            notified(*old(self), Department::InfoSec, security_notice(), id, now, *final(self), r),
    {
        let mut metadata: Table<String, String> = Table::new();
        append_parameter(
            &mut metadata,
            "title",
            String::from_str("Security Incident - Suspicious Activity"),
        );
        append_parameter(&mut metadata, "severity", String::from_str("Sev2"));
        assert(pairs(metadata@) =~= security_notice().parameters);
        self.notify_department_with(
            Department::InfoSec,
            "declare_incident",
            String::from_str("Security incident: Suspicious activity detected on customer portal"),
            MessagePriority::High,
            metadata,
            id,
            now,
        )
    }

    /// Tells the first InfoSec agent of a security incident.
    pub fn handle_security_incident(&mut self) -> (r: Result<(), AgentError>)
        ensures
            exists|id: u128, now: i64, told: Result<Option<u128>, AgentError>|
                {
                    &&& notified(
                        *old(self),
                        Department::InfoSec,
                        security_notice(),
                        id,
                        now,
                        *final(self),
                        told,
                    )
                    &&& outcome_of(told, r)
                },
    {
        let id = fresh_id();
        let at = now();
        let told = self.handle_security_incident_with(id, at);
        let r = settle(told);
        r
    }

    /// Tells the first DevOps agent of an infrastructure issue, under the
    /// identifier `id` at time `now`.
    pub fn handle_infrastructure_issue_with(&mut self, id: u128, now: i64) -> (r: Result<
        Option<u128>,
        AgentError,
    >)
        ensures
            notified(
                *old(self),
                Department::DevOps,
                infrastructure_notice(),
                id,
                now,
                *final(self),
                r,
            ),
    {
        let metadata: Table<String, String> = Table::new();
        assert(pairs(metadata@) =~= Seq::empty());
        self.notify_department_with(
            Department::DevOps,
            "infrastructure_alert",
            String::from_str("High CPU usage detected on web servers"),
            MessagePriority::High,
            metadata,
            id,
            now,
        )
    }

    /// Tells the first DevOps agent of an infrastructure issue.
    pub fn handle_infrastructure_issue(&mut self) -> (r: Result<(), AgentError>)
        ensures
            exists|id: u128, now: i64, told: Result<Option<u128>, AgentError>|
                {
                    &&& notified(
                        *old(self),
                        Department::DevOps,
                        infrastructure_notice(),
                        id,
                        now,
                        *final(self),
                        told,
                    )
                    &&& outcome_of(told, r)
                },
    {
        let id = fresh_id();
        let at = now();
        let told = self.handle_infrastructure_issue_with(id, at);
        let r = settle(told);
        r
    }

    /// Tells the first Ops agent of a customer request, for the customer
    /// that the raw draw stands for, under the identifier `id` at time `now`.
    pub fn handle_customer_request_with(&mut self, customer_raw: u64, id: u128, now: i64) -> (r:
        Result<Option<u128>, AgentError>)
        ensures
            notified(
                *old(self),
                Department::Ops,
                customer_notice(customer_raw),
                id,
                now,
                *final(self),
                r,
            ),
    {
        let mut metadata: Table<String, String> = Table::new();
        append_parameter(&mut metadata, "title", String::from_str("Website Performance Issue"));
        append_parameter(&mut metadata, "priority", String::from_str("Normal"));
        append_parameter(
            &mut metadata,
            "customer_id",
            String::from_str("cust-").concat(
                unsigned_string(customer_raw % 0x1_0000_0000).as_str(),
            ),
        );
        assert(pairs(metadata@) =~= customer_notice(customer_raw).parameters);
        self.notify_department_with(
            Department::Ops,
            "create_ticket",
            String::from_str("Customer reports website loading slowly"),
            MessagePriority::Normal,
            metadata,
            id,
            now,
        )
    }

    /// Tells the first Ops agent of a customer request.
    pub fn handle_customer_request(&mut self) -> (r: Result<(), AgentError>)
        ensures
            exists|customer_raw: u64, id: u128, now: i64, told: Result<Option<u128>, AgentError>|
                {
                    &&& notified(
                        *old(self),
                        Department::Ops,
                        customer_notice(customer_raw),
                        id,
                        now,
                        *final(self),
                        told,
                    )
                    &&& outcome_of(told, r)
                },
    {
        let customer_raw = draw();
        let id = fresh_id();
        let at = now();
        let told = self.handle_customer_request_with(customer_raw, id, at);
        let r = settle(told);
        r
    }
}

/// `r` is the result `told` without the name of the agent that was told.
pub open spec fn outcome_of(
    told: Result<Option<u128>, AgentError>,
    r: Result<(), AgentError>,
) -> bool {
    match told {
        Ok(_) => r is Ok,
        Err(e) => r == Err::<(), AgentError>(e),
    }
}

/// Drops the name of the agent that was told.
pub fn settle(told: Result<Option<u128>, AgentError>) -> (r: Result<(), AgentError>)
    ensures
        outcome_of(told, r),
{
    match told {
        Ok(_) => Ok(()),
        Err(e) => Err(e),
    }
}

/// The result of an event that led to telling a department: the event where
/// the telling went well, and the refusal of the bus where it did not.
pub open spec fn result_of(
    told: Result<Option<u128>, AgentError>,
    event: CompanyEvent,
    r: Result<Option<CompanyEvent>, AgentError>,
) -> bool {
    match told {
        Ok(_) => r == Ok::<Option<CompanyEvent>, AgentError>(Some(event)),
        Err(e) => r == Err::<Option<CompanyEvent>, AgentError>(e),
    }
}

/// What a company event needs from outside: the identifier of a new project,
/// a draw for the name of a customer, and an identifier and a time for each
/// of up to two messages.
#[derive(Clone, Copy, Debug)]
pub struct EventDraws {
    pub project_id: u128,
    pub customer_raw: u64,
    pub first_id: u128,
    pub first_at: i64,
    pub second_id: u128,
    pub second_at: i64,
}

/// `post` and `r` are what comes of the company event that `event_raw`
/// stands for, in state `pre`. A new project is told to Engineering and then
/// to Ops; a security incident to InfoSec; an infrastructure issue to DevOps;
/// a customer request to Ops. A refusal of the bus ends the event at once and
/// is the result.
pub open spec fn company_stirred(
    pre: CompanySimulation,
    event_raw: u64,
    draws: EventDraws,
    post: CompanySimulation,
    r: Result<Option<CompanyEvent>, AgentError>,
) -> bool {
    match event_for(event_raw) {
        None => r == Ok::<Option<CompanyEvent>, AgentError>(None) && post == pre,
        Some(CompanyEvent::NewProject) => exists|
            mid: CompanySimulation,
            first: Result<Option<u128>, AgentError>,
        |
            {
                &&& notified(
                    pre,
                    Department::Engineering,
                    project_notice(draws.project_id),
                    draws.first_id,
                    draws.first_at,
                    mid,
                    first,
                )
                &&& match first {
                    Err(e) => post == mid && r == Err::<Option<CompanyEvent>, AgentError>(e),
                    Ok(_) => exists|second: Result<Option<u128>, AgentError>|
                        {
                            &&& notified(
                                mid,
                                Department::Ops,
                                project_notice(draws.project_id),
                                draws.second_id,
                                draws.second_at,
                                post,
                                second,
                            )
                            &&& result_of(second, CompanyEvent::NewProject, r)
                        },
                }
            },
        Some(CompanyEvent::SecurityIncident) => exists|told: Result<Option<u128>, AgentError>|
            {
                &&& notified(
                    pre,
                    Department::InfoSec,
                    security_notice(),
                    draws.first_id,
                    draws.first_at,
                    post,
                    told,
                )
                &&& result_of(told, CompanyEvent::SecurityIncident, r)
            },
        Some(CompanyEvent::InfrastructureIssue) => exists|told: Result<Option<u128>, AgentError>|
            {
                &&& notified(
                    pre,
                    Department::DevOps,
                    infrastructure_notice(),
                    draws.first_id,
                    draws.first_at,
                    post,
                    told,
                )
                &&& result_of(told, CompanyEvent::InfrastructureIssue, r)
            },
        Some(CompanyEvent::CustomerRequest) => exists|told: Result<Option<u128>, AgentError>|
            {
                &&& notified(
                    pre,
                    Department::Ops,
                    customer_notice(draws.customer_raw),
                    draws.first_id,
                    draws.first_at,
                    post,
                    told,
                )
                &&& result_of(told, CompanyEvent::CustomerRequest, r)
            },
    }
}

/// The chance, in parts of ten thousand, that two agents exchange a message
/// in a step.
pub const CHATTER_CHANCE: u32 = 1_500;

/// The kind of message that two agents exchange, for a raw draw.
pub open spec fn chatter_kind(raw: u64) -> Seq<char> {
    if raw % 4 == 0 {
        "status_update"@
    } else if raw % 4 == 1 {
        "collaboration_request"@
    } else if raw % 4 == 2 {
        "issue_report"@
    } else {
        "resource_request"@
    }
}

/// The kind of message that two agents exchange, in words.
pub open spec fn chatter_subject(raw: u64) -> Seq<char> {
    if raw % 4 == 0 {
        "status update"@
    } else if raw % 4 == 1 {
        "collaboration request"@
    } else if raw % 4 == 2 {
        "issue report"@
    } else {
        "resource request"@
    }
}

/// The position of the sender that a raw draw picks among `count` agents.
pub open spec fn sender_at(raw: u64, count: int) -> int {
    raw as int % count
}

/// The position of the receiver that a raw draw picks among the `count - 1`
/// agents other than the sender.
pub open spec fn receiver_at(sender: int, raw: u64, count: int) -> int {
    if raw as int % (count - 1) >= sender {
        raw as int % (count - 1) + 1
    } else {
        raw as int % (count - 1)
    }
}

/// `m` is the message that the agent `sender` sends to `recipient` for the
/// raw draw `kind_raw`, under the identifier `id`, stamped `now`.
pub open spec fn is_chatter(
    m: Message,
    sender: Agent,
    recipient: u128,
    kind_raw: u64,
    id: u128,
    now: i64,
) -> bool {
    &&& m.id == id
    &&& m.from_agent == sender.id
    &&& m.to_agent == recipient
    &&& m.message_type@ == chatter_kind(kind_raw)
    &&& m.content@ == "Automated "@ + chatter_subject(kind_raw) + " from "@
        + sender.department.name() + " department"@
    &&& m.priority == MessagePriority::Normal
    &&& m.timestamp == now
    &&& m.metadata@.len() == 0
}

/// `post` and `r` are what comes of the exchange between agents that the
/// draws stand for, in state `pre`. Nothing happens where the first draw does
/// not fall under the chance of an exchange, or where there are fewer than
/// two agents. Otherwise a sender and a different receiver are picked and one
/// message goes from the one to the other through the bus; `r` says whether a
/// message was sent, or is the refusal of the bus.
pub open spec fn chattered(
    pre: CompanySimulation,
    chance_raw: u64,
    sender_raw: u64,
    receiver_raw: u64,
    kind_raw: u64,
    id: u128,
    now: i64,
    post: CompanySimulation,
    r: Result<bool, AgentError>,
) -> bool {
    if !falls_under(chance_raw, CHATTER_CHANCE) || pre.agents@.len() < 2 {
        r == Ok::<bool, AgentError>(false) && post == pre
    } else {
        let count = pre.agents@.len() as int;
        let from = sender_at(sender_raw, count);
        let to = receiver_at(from, receiver_raw, count);
        let sender = pre.agents@[from].value.record();
        let recipient = pre.agents@[to].value.record().id;
        if listed(pre.message_bus.directory@, recipient) {
            &&& r == Ok::<bool, AgentError>(true)
            &&& post.message_bus.queue@.len() > 0
            &&& is_chatter(post.message_bus.queue@.last(), sender, recipient, kind_raw, id, now)
            &&& queued(pre, post.message_bus.queue@.last(), post)
        } else {
            &&& r == Err::<bool, AgentError>(
                AgentError::Delivery(DeliveryError::UnknownRecipient(recipient)),
            )
            &&& post == pre
        }
    }
}

/// The sender and the receiver of an exchange are two different agents of
/// the registry.
pub proof fn lemma_exchange_is_between_two(sender_raw: u64, receiver_raw: u64, count: int)
    requires
        count >= 2,
    ensures
        0 <= sender_at(sender_raw, count) < count,
        0 <= receiver_at(sender_at(sender_raw, count), receiver_raw, count) < count,
        sender_at(sender_raw, count) != receiver_at(
            sender_at(sender_raw, count),
            receiver_raw,
            count,
        ),
{
}

impl CompanySimulation {
    /// Brings about the company event that `event_raw` stands for, if any.
    pub fn generate_company_activities_with(&mut self, event_raw: u64, draws: EventDraws) -> (r:
        Result<Option<CompanyEvent>, AgentError>)
        ensures
            company_stirred(*old(self), event_raw, draws, *final(self), r),
    {
        match choose_event(event_raw) {
            None => Ok(None),
            Some(CompanyEvent::NewProject) => {
                let first = self.assign_project_task_with(
                    draws.project_id,
                    Department::Engineering,
                    draws.first_id,
                    draws.first_at,
                );
                let ghost mid = *self;
                match first {
                    Err(e) => {
                        Err(e)
                    },
                    Ok(_) => {
                        let second = self.assign_project_task_with(
                            draws.project_id,
                            Department::Ops,
                            draws.second_id,
                            draws.second_at,
                        );
                        let r = match second {
                            Ok(_) => Ok(Some(CompanyEvent::NewProject)),
                            Err(e) => Err(e),
                        };
                        proof {
                            assert(notified(
                                mid,
                                Department::Ops,
                                project_notice(draws.project_id),
                                draws.second_id,
                                draws.second_at,
                                *self,
                                second,
                            ) && result_of(second, CompanyEvent::NewProject, r));
                        }
                        r
                    },
                }
            },
            Some(CompanyEvent::SecurityIncident) => {
                let told = self.handle_security_incident_with(draws.first_id, draws.first_at);
                let r = match told {
                    Ok(_) => Ok(Some(CompanyEvent::SecurityIncident)),
                    Err(e) => Err(e),
                };
                proof {
                    assert(notified(
                        *old(self),
                        Department::InfoSec,
                        security_notice(),
                        draws.first_id,
                        draws.first_at,
                        *self,
                        told,
                    ) && result_of(told, CompanyEvent::SecurityIncident, r));
                }
                r
            },
            Some(CompanyEvent::InfrastructureIssue) => {
                let told = self.handle_infrastructure_issue_with(draws.first_id, draws.first_at);
                let r = match told {
                    Ok(_) => Ok(Some(CompanyEvent::InfrastructureIssue)),
                    Err(e) => Err(e),
                };
                proof {
                    assert(notified(
                        *old(self),
                        Department::DevOps,
                        infrastructure_notice(),
                        draws.first_id,
                        draws.first_at,
                        *self,
                        told,
                    ) && result_of(told, CompanyEvent::InfrastructureIssue, r));
                }
                r
            },
            Some(CompanyEvent::CustomerRequest) => {
                let told = self.handle_customer_request_with(
                    draws.customer_raw,
                    draws.first_id,
                    draws.first_at,
                );
                let r = match told {
                    Ok(_) => Ok(Some(CompanyEvent::CustomerRequest)),
                    Err(e) => Err(e),
                };
                proof {
                    assert(notified(
                        *old(self),
                        Department::Ops,
                        customer_notice(draws.customer_raw),
                        draws.first_id,
                        draws.first_at,
                        *self,
                        told,
                    ) && result_of(told, CompanyEvent::CustomerRequest, r));
                }
                r
            },
        }
    }

    /// Brings about at most one company event, by chance.
    pub fn generate_company_activities(&mut self) -> (r: Result<Option<CompanyEvent>, AgentError>)
        ensures
            exists|event_raw: u64, draws: EventDraws|
                company_stirred(*old(self), event_raw, draws, *final(self), r),
    {
        let event_raw = draw();
        let draws = EventDraws {
            project_id: fresh_id(),
            customer_raw: draw(),
            first_id: fresh_id(),
            first_at: now(),
            second_id: fresh_id(),
            second_at: now(),
        };
        self.generate_company_activities_with(event_raw, draws)
    }

    /// Lets two agents exchange a message, as the draws decide.
    pub fn process_messages_with(
        &mut self,
        chance_raw: u64,
        sender_raw: u64,
        receiver_raw: u64,
        kind_raw: u64,
        id: u128,
        now: i64,
    ) -> (r: Result<bool, AgentError>)
        ensures
            chattered(
                *old(self),
                chance_raw,
                sender_raw,
                receiver_raw,
                kind_raw,
                id,
                now,
                *final(self),
                r,
            ),
    {
        if !happens(chance_raw, CHATTER_CHANCE) || self.agents.len() < 2 {
            return Ok(false);
        }
        let count: u64 = self.agents.len() as u64;
        let from: usize = (sender_raw % count) as usize;
        let among_others: usize = (receiver_raw % (count - 1)) as usize;
        let to: usize = if among_others >= from {
            among_others + 1
        } else {
            among_others
        };
        let kind: u64 = kind_raw % 4;
        let message_type = if kind == 0 {
            "status_update"
        } else if kind == 1 {
            "collaboration_request"
        } else if kind == 2 {
            "issue_report"
        } else {
            "resource_request"
        };
        let subject = if kind == 0 {
            "status update"
        } else if kind == 1 {
            "collaboration request"
        } else if kind == 2 {
            "issue report"
        } else {
            "resource request"
        };
        let sender = self.agents.entries[from].value.get_agent();
        let recipient = self.agents.entries[to].value.get_agent().id;
        let message = Message {
            id,
            from_agent: sender.id,
            to_agent: recipient,
            message_type: String::from_str(message_type),
            content: String::from_str("Automated ").concat(subject).concat(" from ").concat(
                sender.department.as_str(),
            ).concat(" department"),
            priority: MessagePriority::Normal,
            timestamp: now,
            metadata: Table::new(),
        };
        match self.send_message(message) {
            Ok(_) => Ok(true),
            Err(e) => Err(e),
        }
    }

    /// Lets two agents exchange a message, by chance.
    pub fn process_messages(&mut self) -> (r: Result<bool, AgentError>)
        ensures
            exists|
                chance_raw: u64,
                sender_raw: u64,
                receiver_raw: u64,
                kind_raw: u64,
                id: u128,
                now: i64,
            |
                chattered(
                    *old(self),
                    chance_raw,
                    sender_raw,
                    receiver_raw,
                    kind_raw,
                    id,
                    now,
                    *final(self),
                    r,
                ),
    {
        let chance_raw = draw();
        let sender_raw = draw();
        let receiver_raw = draw();
        let kind_raw = draw();
        let id = fresh_id();
        let at = now();
        self.process_messages_with(chance_raw, sender_raw, receiver_raw, kind_raw, id, at)
    }
}

/// The chance, in parts of ten thousand, that an agent runs its daily round
/// in a step.
pub const DAILY_CHANCE: u32 = 1_000;

/// The chance, in parts of ten thousand, that a step ends with a summary of
/// the company's health.
pub const HEALTH_CHANCE: u32 = 1_000;

/// The chance, in parts of ten thousand, that an agent of `department` shows
/// activity in a step. Agents of departments that are not modelled show none.
pub open spec fn activity_chance(department: Department) -> u32 {
    match department {
        Department::DevOps => 3_000,
        Department::InfoSec => 2_000,
        Department::Networking => 2_500,
        Department::Ops => 4_000,
        _ => 0,
    }
}

/// The chance that an agent of `department` shows activity in a step.
pub fn chance_of_activity(department: Department) -> (chance: u32)
    ensures
        chance == activity_chance(department),
{
    match department {
        Department::DevOps => 3_000,
        Department::InfoSec => 2_000,
        Department::Networking => 2_500,
        Department::Ops => 4_000,
        _ => 0,
    }
}

/// An agent was seen at the work of its department.
#[derive(Clone, Copy, Debug, PartialEq, Eq, Structural)]
pub struct ActivitySignal {
    pub agent_id: u128,
    pub department: Department,
}

/// The two draws that decide what an agent does in a step.
#[derive(Clone, Copy, Debug)]
pub struct AgentDraws {
    pub activity_raw: u64,
    pub daily_raw: u64,
}

/// `post` is the agent `pre` after its part of a step: its daily round where
/// the draw falls under the chance of one, and no change otherwise.
pub open spec fn stirred(pre: DepartmentAgent, draws: AgentDraws, post: DepartmentAgent) -> bool {
    if falls_under(draws.daily_raw, DAILY_CHANCE) {
        DepartmentAgent::maintains(pre, post)
    } else {
        post == pre
    }
}

/// The signals of the agents that show activity, in registry order.
pub open spec fn signals_among(
    agents: Seq<Entry<u128, DepartmentAgent>>,
    draws: Seq<AgentDraws>,
) -> Seq<ActivitySignal>
    decreases agents.len(),
{
    if agents.len() == 0 || draws.len() != agents.len() {
        Seq::empty()
    } else if falls_under(
        draws.last().activity_raw,
        activity_chance(agents.last().value.record().department),
    ) {
        signals_among(agents.drop_last(), draws.drop_last()).push(
            ActivitySignal {
                agent_id: agents.last().value.record().id,
                department: agents.last().value.record().department,
            },
        )
    } else {
        signals_among(agents.drop_last(), draws.drop_last())
    }
}

/// `post` is `pre` after every agent had its part of a step, and `signals`
/// names the agents that showed activity. Each agent stays under its key, in
/// its place; the bus, the projects and the configuration stay as they were.
pub open spec fn activities_processed(
    pre: CompanySimulation,
    post: CompanySimulation,
    signals: Seq<ActivitySignal>,
) -> bool {
    &&& post.agents@.len() == pre.agents@.len()
    &&& exists|draws: Seq<AgentDraws>|
        {
            &&& draws.len() == pre.agents@.len()
            &&& forall|i: int|
                0 <= i < pre.agents@.len() ==> (#[trigger] post.agents@[i]).key
                    == pre.agents@[i].key && stirred(
                    pre.agents@[i].value,
                    draws[i],
                    post.agents@[i].value,
                )
            &&& signals == signals_among(pre.agents@, draws)
        }
    &&& post == (CompanySimulation { agents: post.agents, ..pre })
}

/// How many agents take part in a step for which `draws` were drawn: as many
/// as there are agents and draws for them.
pub open spec fn taking_part(
    agents: Seq<Entry<u128, DepartmentAgent>>,
    draws: Seq<AgentDraws>,
) -> int {
    if draws.len() < agents.len() {
        draws.len() as int
    } else {
        agents.len() as int
    }
}

/// Every agent whose draw calls for its daily round can run it.
pub open spec fn fit_for_draws(
    agents: Seq<Entry<u128, DepartmentAgent>>,
    draws: Seq<AgentDraws>,
) -> bool {
    forall|i: int|
        0 <= i < taking_part(agents, draws) && falls_under(draws[i].daily_raw, DAILY_CHANCE) ==> (
        #[trigger] agents[i]).value.fit_for_daily_tasks()
}

/// `post` is `pre` after every agent had its part of a step under the draw
/// made for it, the agents and the draws taken in order, and `signals` names
/// the agents that showed activity. An agent runs its daily round exactly
/// where its draw falls under the chance of one, and is signalled exactly
/// where its draw falls under the chance of activity of its department. An
/// agent for which there is no draw takes no part. Each agent stays under its
/// key, in its place; the bus, the projects and the configuration stay as they
/// were.
pub open spec fn activities_processed_with(
    pre: CompanySimulation,
    draws: Seq<AgentDraws>,
    post: CompanySimulation,
    signals: Seq<ActivitySignal>,
) -> bool {
    let part = taking_part(pre.agents@, draws);
    &&& post.agents@.len() == pre.agents@.len()
    &&& forall|i: int|
        0 <= i < pre.agents@.len() ==> {
            &&& (#[trigger] post.agents@[i]).key == pre.agents@[i].key
            &&& if i < part {
                stirred(pre.agents@[i].value, draws[i], post.agents@[i].value)
            } else {
                post.agents@[i].value == pre.agents@[i].value
            }
        }
    &&& signals == signals_among(pre.agents@.take(part), draws.take(part))
    &&& post == (CompanySimulation { agents: post.agents, ..pre })
}

/// Every agent can run its daily round.
pub open spec fn all_fit(agents: Seq<Entry<u128, DepartmentAgent>>) -> bool {
    forall|i: int| 0 <= i < agents.len() ==> (#[trigger] agents[i]).value.fit_for_daily_tasks()
}

/// The ten departments, in their order.
pub open spec fn all_departments() -> Seq<Department> {
    seq![
        Department::Engineering,
        Department::Sales,
        Department::DevOps,
        Department::InfoSec,
        Department::Networking,
        Department::Ops,
        Department::Marketing,
        Department::Finance,
        Department::HR,
        Department::Legal,
    ]
}

/// The number of agents of `department`.
pub open spec fn headcount(agents: Seq<Entry<u128, DepartmentAgent>>, department: Department) -> nat
    decreases agents.len(),
{
    if agents.len() == 0 {
        0
    } else {
        headcount(agents.drop_last(), department) + if agents.last().value.record().department
            == department {
            1nat
        } else {
            0nat
        }
    }
}

/// How many agents a department has.
#[derive(Clone, Copy, Debug, PartialEq, Eq, Structural)]
pub struct DepartmentCount {
    pub department: Department,
    pub agents: usize,
}

/// The health of the company in numbers: its agents, its active projects,
/// and the agents of each of the ten departments.
#[derive(Clone, Debug)]
pub struct HealthSummary {
    pub total_agents: usize,
    pub active_projects: usize,
    pub department_counts: Vec<DepartmentCount>,
}

/// `summary` sums up the company `s`.
pub open spec fn sums_up(s: CompanySimulation, summary: HealthSummary) -> bool {
    &&& summary.total_agents == s.agents@.len()
    &&& summary.active_projects == s.projects@.len()
    &&& summary.department_counts@.len() == 10
    &&& forall|k: int|
        0 <= k < 10 ==> #[trigger] summary.department_counts@[k] == (DepartmentCount {
            department: all_departments()[k],
            agents: headcount(s.agents@, all_departments()[k]) as usize,
        })
}

/// What a step did: who showed activity, whether two agents exchanged a
/// message, which company event came about, and the summary of health, if
/// one was made.
#[derive(Clone, Debug)]
pub struct StepReport {
    pub signals: Vec<ActivitySignal>,
    pub exchanged: bool,
    pub event: Option<CompanyEvent>,
    pub health: Option<HealthSummary>,
}

/// What an exchange between two agents needs from outside: the draws that
/// decide whether there is one, between whom and of what kind, and the
/// identifier and the time of the message.
#[derive(Clone, Copy, Debug)]
pub struct ExchangeDraws {
    pub chance_raw: u64,
    pub sender_raw: u64,
    pub receiver_raw: u64,
    pub kind_raw: u64,
    pub id: u128,
    pub now: i64,
}

/// What one step needs from outside: the draws for the agents, in registry
/// order, for the exchange, for the company event, and for the summary of
/// health.
#[derive(Clone, Debug)]
pub struct StepDraws {
    pub agents: Vec<AgentDraws>,
    pub exchange: ExchangeDraws,
    pub event_raw: u64,
    pub event: EventDraws,
    pub health_raw: u64,
}

/// `post` and `r` are what comes of one step in state `pre` under the draws
/// made for it: the agents' activities, then the exchange between two agents,
/// then the company event, then the summary of health, which is made exactly
/// where its draw falls under the chance of one. A refusal of the bus ends the
/// step at once and is its result.
pub open spec fn step_taken_with(
    pre: CompanySimulation,
    draws: StepDraws,
    post: CompanySimulation,
    r: Result<StepReport, AgentError>,
) -> bool {
    exists|
        active: CompanySimulation,
        signals: Seq<ActivitySignal>,
        chatted: CompanySimulation,
        exchange: Result<bool, AgentError>,
    |
        {
            &&& activities_processed_with(pre, draws.agents@, active, signals)
            &&& chattered(
                active,
                draws.exchange.chance_raw,
                draws.exchange.sender_raw,
                draws.exchange.receiver_raw,
                draws.exchange.kind_raw,
                draws.exchange.id,
                draws.exchange.now,
                chatted,
                exchange,
            )
            &&& match exchange {
                Err(e) => post == chatted && r == Err::<StepReport, AgentError>(e),
                Ok(exchanged) => exists|event: Result<Option<CompanyEvent>, AgentError>|
                    {
                        &&& company_stirred(chatted, draws.event_raw, draws.event, post, event)
                        &&& match event {
                            Err(e) => r == Err::<StepReport, AgentError>(e),
                            Ok(happened) => {
                                &&& r matches Ok(report)
                                &&& report.signals@ == signals
                                &&& report.exchanged == exchanged
                                &&& report.event == happened
                                &&& match report.health {
                                    Some(summary) => falls_under(draws.health_raw, HEALTH_CHANCE)
                                        && sums_up(post, summary),
                                    None => !falls_under(draws.health_raw, HEALTH_CHANCE),
                                }
                            },
                        }
                    },
            }
        }
}

/// `post` and `r` are what comes of one step in state `pre`: the agents'
/// activities, then the exchange between two agents, then the company event,
/// then the summary of health. A refusal of the bus ends the step at once and
/// is its result.
pub open spec fn step_taken(
    pre: CompanySimulation,
    post: CompanySimulation,
    r: Result<StepReport, AgentError>,
) -> bool {
    exists|
        active: CompanySimulation,
        signals: Seq<ActivitySignal>,
        chatted: CompanySimulation,
        exchange: Result<bool, AgentError>,
    |
        {
            &&& activities_processed(pre, active, signals)
            &&& exchange_made(active, chatted, exchange)
            &&& match exchange {
                Err(e) => post == chatted && r == Err::<StepReport, AgentError>(e),
                Ok(exchanged) => exists|event: Result<Option<CompanyEvent>, AgentError>|
                    {
                        &&& event_made(chatted, post, event)
                        &&& match event {
                            Err(e) => r == Err::<StepReport, AgentError>(e),
                            Ok(happened) => {
                                &&& r matches Ok(report)
                                &&& report.signals@ == signals
                                &&& report.exchanged == exchanged
                                &&& report.event == happened
                                &&& report.health matches Some(summary) ==> sums_up(post, summary)
                            },
                        }
                    },
            }
        }
}

/// `post` and `r` are what comes of some exchange between agents in state
/// `pre`.
pub open spec fn exchange_made(
    pre: CompanySimulation,
    post: CompanySimulation,
    r: Result<bool, AgentError>,
) -> bool {
    exists|
        chance_raw: u64,
        sender_raw: u64,
        receiver_raw: u64,
        kind_raw: u64,
        id: u128,
        now: i64,
    | chattered(pre, chance_raw, sender_raw, receiver_raw, kind_raw, id, now, post, r)
}

/// `post` and `r` are what comes of some company event in state `pre`.
pub open spec fn event_made(
    pre: CompanySimulation,
    post: CompanySimulation,
    r: Result<Option<CompanyEvent>, AgentError>,
) -> bool {
    exists|event_raw: u64, draws: EventDraws| company_stirred(pre, event_raw, draws, post, r)
}

/// What became of the message at the head of the queue.
#[derive(Clone, Copy, Debug, PartialEq, Eq, Structural)]
pub enum Delivery {
    /// Nothing was queued.
    Idle,
    /// The message was addressed to no agent of the registry, and is gone.
    Dropped,
    /// The agent of this identifier took the message.
    Handled(u128),
}

/// The message at the head of the queue can be delivered: its recipient, if
/// it is in the registry, can take it.
pub open spec fn deliverable(s: CompanySimulation) -> bool {
    s.message_bus.queue@.len() > 0 && has_key(s.agents@, s.message_bus.queue@[0].to_agent)
        ==> s.agents@[slot_of(s.agents@, s.message_bus.queue@[0].to_agent)].value.accepts(
        s.message_bus.queue@[0],
    )
}

/// `post` and `r` are what comes of delivering the message at the head of
/// the queue in state `pre`. The message leaves the queue whatever becomes of
/// it. Its recipient, if it is in the registry, takes it, and no other agent
/// changes.
pub open spec fn delivered(pre: CompanySimulation, post: CompanySimulation, r: Delivery) -> bool {
    if pre.message_bus.queue@.len() == 0 {
        r == Delivery::Idle && post == pre
    } else {
        let message = pre.message_bus.queue@[0];
        &&& post.message_bus.queue@ == pre.message_bus.queue@.drop_first()
        &&& post == (CompanySimulation {
            agents: post.agents,
            message_bus: MessageBus { queue: post.message_bus.queue, ..pre.message_bus },
            ..pre
        })
        &&& if has_key(pre.agents@, message.to_agent) {
            let at = slot_of(pre.agents@, message.to_agent);
            &&& r == Delivery::Handled(message.to_agent)
            &&& post.agents@ == pre.agents@.update(
                at,
                Entry { key: pre.agents@[at].key, value: post.agents@[at].value },
            )
            &&& DepartmentAgent::handles(pre.agents@[at].value, message, post.agents@[at].value)
        } else {
            r == Delivery::Dropped && post.agents == pre.agents
        }
    }
}

impl CompanySimulation {
    /// Whether every agent can run its daily round, so that a step can be
    /// taken.
    pub fn can_run_step(&self) -> (b: bool)
        ensures
            b == all_fit(self.agents@),
    {
        let mut i: usize = 0;
        while i < self.agents.len()
            invariant
                i <= self.agents@.len(),
                forall|j: int|
                    0 <= j < i ==> (#[trigger] self.agents@[j]).value.fit_for_daily_tasks(),
            decreases self.agents@.len() - i,
        {
            if !self.agents.entries[i].value.can_run_daily_tasks() {
                return false;
            }
            i += 1;
        }
        true
    }

    /// Gives every agent its part of a step under the draw made for it: the
    /// agent is signalled where its first draw falls under the chance of
    /// activity of its department, and runs its daily round where its second
    /// draw falls under the chance of one.
    pub fn process_agent_activities_with(&mut self, draws: &Vec<AgentDraws>) -> (r: Result<
        Vec<ActivitySignal>,
        AgentError,
    >)
        requires
            fit_for_draws(old(self).agents@, draws@),
        ensures
            r matches Ok(signals) && activities_processed_with(
                *old(self),
                draws@,
                *final(self),
                signals@,
            ),
    {
        let mut signals: Vec<ActivitySignal> = Vec::new();
        let part: usize = if draws.len() < self.agents.len() {
            draws.len()
        } else {
            self.agents.len()
        };
        let mut i: usize = 0;
        assert(old(self).agents@.take(0) =~= Seq::empty());
        while i < part
            invariant
                i <= part,
                part == taking_part(old(self).agents@, draws@),
                self.agents@.len() == old(self).agents@.len(),
                fit_for_draws(old(self).agents@, draws@),
                forall|j: int|
                    0 <= j < i ==> (#[trigger] self.agents@[j]).key == old(self).agents@[j].key
                        && stirred(old(self).agents@[j].value, draws@[j], self.agents@[j].value),
                forall|j: int|
                    i <= j < self.agents@.len() ==> #[trigger] self.agents@[j] == old(
                        self,
                    ).agents@[j],
                signals@ == signals_among(
                    old(self).agents@.take(i as int),
                    draws@.take(i as int),
                ),
                *self == (CompanySimulation { agents: self.agents, ..*old(self) }),
            decreases part - i,
        {
            let record = self.agents.entries[i].value.get_agent();
            let agent_id = record.id;
            let department = record.department;
            if happens(draws[i].activity_raw, chance_of_activity(department)) {
                signals.push(ActivitySignal { agent_id, department });
            }
            if happens(draws[i].daily_raw, DAILY_CHANCE) {
                let _ = self.agents.entries[i].value.perform_daily_tasks();
            }
            proof {
                assert(old(self).agents@.take(i + 1).drop_last() =~= old(self).agents@.take(
                    i as int,
                ));
                assert(draws@.take(i + 1).drop_last() =~= draws@.take(i as int));
            }
            i += 1;
        }
        Ok(signals)
    }

    /// Gives every agent its part of a step: by chance the agent shows
    /// activity, and by chance it runs its daily round.
    pub fn process_agent_activities(&mut self) -> (r: Result<Vec<ActivitySignal>, AgentError>)
        requires
            all_fit(old(self).agents@),
        ensures
            r matches Ok(signals) && activities_processed(*old(self), *final(self), signals@),
    {
        let draws = self.draw_for_agents();
        let r = self.process_agent_activities_with(&draws);
        proof {
            lemma_activities_under_draws(*old(self), draws@, *self, r->Ok_0@);
        }
        r
    }

    /// Draws for every agent the two numbers that decide its part of a step.
    fn draw_for_agents(&self) -> (draws: Vec<AgentDraws>)
        ensures
            draws@.len() == self.agents@.len(),
    {
        let mut draws: Vec<AgentDraws> = Vec::new();
        while draws.len() < self.agents.len()
            invariant
                draws@.len() <= self.agents@.len(),
            decreases self.agents@.len() - draws@.len(),
        {
            draws.push(AgentDraws { activity_raw: draw(), daily_raw: draw() });
        }
        draws
    }

    /// The number of agents of `department`.
    pub fn count_department(&self, department: Department) -> (n: usize)
        ensures
            n == headcount(self.agents@, department),
    {
        let mut n: usize = 0;
        let mut i: usize = 0;
        while i < self.agents.len()
            invariant
                i <= self.agents@.len(),
                n == headcount(self.agents@.take(i as int), department),
                n <= i,
            decreases self.agents@.len() - i,
        {
            assert(self.agents@.take(i + 1).drop_last() =~= self.agents@.take(i as int));
            if self.agents.entries[i].value.get_agent().department == department {
                n = n + 1;
            }
            i += 1;
        }
        assert(self.agents@.take(i as int) =~= self.agents@);
        n
    }

    /// Sums up the health of the company.
    pub fn summarize_health(&self) -> (summary: HealthSummary)
        ensures
            sums_up(*self, summary),
    {
        let mut department_counts: Vec<DepartmentCount> = Vec::new();
        department_counts.push(
            DepartmentCount {
                department: Department::Engineering,
                agents: self.count_department(Department::Engineering),
            },
        );
        department_counts.push(
            DepartmentCount {
                department: Department::Sales,
                agents: self.count_department(Department::Sales),
            },
        );
        department_counts.push(
            DepartmentCount {
                department: Department::DevOps,
                agents: self.count_department(Department::DevOps),
            },
        );
        department_counts.push(
            DepartmentCount {
                department: Department::InfoSec,
                agents: self.count_department(Department::InfoSec),
            },
        );
        department_counts.push(
            DepartmentCount {
                department: Department::Networking,
                agents: self.count_department(Department::Networking),
            },
        );
        department_counts.push(
            DepartmentCount {
                department: Department::Ops,
                agents: self.count_department(Department::Ops),
            },
        );
        department_counts.push(
            DepartmentCount {
                department: Department::Marketing,
                agents: self.count_department(Department::Marketing),
            },
        );
        department_counts.push(
            DepartmentCount {
                department: Department::Finance,
                agents: self.count_department(Department::Finance),
            },
        );
        department_counts.push(
            DepartmentCount {
                department: Department::HR,
                agents: self.count_department(Department::HR),
            },
        );
        department_counts.push(
            DepartmentCount {
                department: Department::Legal,
                agents: self.count_department(Department::Legal),
            },
        );
        HealthSummary {
            total_agents: self.agents.len(),
            active_projects: self.projects.len(),
            department_counts,
        }
    }

    /// Sums up the health of the company where the draw falls under the
    /// chance of a summary.
    pub fn monitor_system_health_with(&self, chance_raw: u64) -> (r: Result<
        Option<HealthSummary>,
        AgentError,
    >)
        ensures
            match r {
                Ok(Some(summary)) => falls_under(chance_raw, HEALTH_CHANCE) && sums_up(
                    *self,
                    summary,
                ),
                Ok(None) => !falls_under(chance_raw, HEALTH_CHANCE),
                Err(_) => false,
            },
    {
        if happens(chance_raw, HEALTH_CHANCE) {
            Ok(Some(self.summarize_health()))
        } else {
            Ok(None)
        }
    }

    /// Sums up the health of the company, by chance.
    pub fn monitor_system_health(&self) -> (r: Result<Option<HealthSummary>, AgentError>)
        ensures
            r is Ok,
            r matches Ok(Some(summary)) ==> sums_up(*self, summary),
    {
        let chance_raw = draw();
        self.monitor_system_health_with(chance_raw)
    }

    /// Takes one step under the draws made for it: the agents' activities, an
    /// exchange between two agents, a company event, and a summary of health.
    pub fn run_simulation_step_with(&mut self, draws: &StepDraws) -> (r: Result<
        StepReport,
        AgentError,
    >)
        requires
            fit_for_draws(old(self).agents@, draws.agents@),
        ensures
            step_taken_with(*old(self), *draws, *final(self), r),
    {
        let signals = self.process_agent_activities_with(&draws.agents)?;
        let ghost active = *self;
        let exchange = self.process_messages_with(
            draws.exchange.chance_raw,
            draws.exchange.sender_raw,
            draws.exchange.receiver_raw,
            draws.exchange.kind_raw,
            draws.exchange.id,
            draws.exchange.now,
        );
        let ghost chatted = *self;
        let exchanged = match exchange {
            Ok(exchanged) => exchanged,
            Err(e) => {
                proof {
                    assert(activities_processed_with(*old(self), draws.agents@, active, signals@));
                }
                return Err(e);
            },
        };
        let event = self.generate_company_activities_with(draws.event_raw, draws.event);
        let happened = match event {
            Ok(happened) => happened,
            Err(e) => {
                proof {
                    assert(activities_processed_with(*old(self), draws.agents@, active, signals@));
                    assert(company_stirred(chatted, draws.event_raw, draws.event, *self, event));
                }
                return Err(e);
            },
        };
        let health = self.monitor_system_health_with(draws.health_raw)?;
        let report = StepReport { signals, exchanged, event: happened, health };
        proof {
            assert(activities_processed_with(*old(self), draws.agents@, active, signals@));
            assert(company_stirred(chatted, draws.event_raw, draws.event, *self, event));
        }
        Ok(report)
    }

    /// Draws what one step needs from outside.
    fn draw_for_step(&self) -> (draws: StepDraws)
        ensures
            draws.agents@.len() == self.agents@.len(),
    {
        StepDraws {
            agents: self.draw_for_agents(),
            exchange: ExchangeDraws {
                chance_raw: draw(),
                sender_raw: draw(),
                receiver_raw: draw(),
                kind_raw: draw(),
                id: fresh_id(),
                now: now(),
            },
            event_raw: draw(),
            event: EventDraws {
                project_id: fresh_id(),
                customer_raw: draw(),
                first_id: fresh_id(),
                first_at: now(),
                second_id: fresh_id(),
                second_at: now(),
            },
            health_raw: draw(),
        }
    }

    /// Takes one step: the agents' activities, an exchange between two
    /// agents, a company event, and a summary of health, each by chance.
    pub fn run_simulation_step(&mut self) -> (r: Result<StepReport, AgentError>)
        requires
            all_fit(old(self).agents@),
        ensures
            step_taken(*old(self), *final(self), r),
    {
        let draws = self.draw_for_step();
        let r = self.run_simulation_step_with(&draws);
        proof {
            lemma_step_under_draws_is_a_step(*old(self), draws, *self, r);
        }
        r
    }

    /// Whether the message at the head of the queue can be delivered.
    pub fn can_deliver_next(&self) -> (b: bool)
        ensures
            b == deliverable(*self),
    {
        if self.message_bus.queue.len() == 0 {
            return true;
        }
        match self.agents.find(&self.message_bus.queue[0].to_agent) {
            Some(at) => self.agents.entries[at].value.can_accept(&self.message_bus.queue[0]),
            None => true,
        }
    }

    /// Delivers the message at the head of the queue to its recipient, who
    /// takes it at once. A message is delivered at most once: it leaves the
    /// queue whatever becomes of it.
    pub fn deliver_next(&mut self) -> (r: Result<Delivery, AgentError>)
        requires
            deliverable(*old(self)),
        ensures
            r matches Ok(delivery) && delivered(*old(self), *final(self), delivery),
    {
        if self.message_bus.queue.len() == 0 {
            return Ok(Delivery::Idle);
        }
        let message = self.message_bus.queue.remove(0);
        let recipient = message.to_agent;
        match self.agents.find(&recipient) {
            Some(at) => {
                let _ = self.agents.entries[at].value.process_message(message);
                Ok(Delivery::Handled(recipient))
            },
            None => Ok(Delivery::Dropped),
        }
    }
}

/// `post` is `pre` after `count` messages were delivered from the head of the
/// queue, one after the other.
pub open spec fn drained(pre: CompanySimulation, count: nat, post: CompanySimulation) -> bool
    decreases count,
{
    if count == 0 {
        post == pre
    } else {
        exists|mid: CompanySimulation, delivery: Delivery|
            {
                &&& drained(pre, (count - 1) as nat, mid)
                &&& mid.message_bus.queue@.len() > 0
                &&& deliverable(mid)
                &&& delivered(mid, post, delivery)
            }
    }
}

impl CompanySimulation {
    /// Delivers the queued messages from the head of the queue, one after the
    /// other, until the queue is empty or its head cannot be delivered, and
    /// says how many were delivered.
    pub fn deliver_pending(&mut self) -> (r: Result<usize, AgentError>)
        ensures
            r matches Ok(count) && drained(*old(self), count as nat, *final(self)),
            final(self).message_bus.queue@.len() == 0 || !deliverable(*final(self)),
    {
        let mut count: usize = 0;
        assert(self.message_bus.queue.len() == self.message_bus.queue@.len());
        while self.message_bus.queue.len() > 0 && self.can_deliver_next()
            invariant
                drained(*old(self), count as nat, *self),
                count + self.message_bus.queue@.len() <= usize::MAX,
            decreases self.message_bus.queue@.len(),
        {
            self.deliver_next()?;
            count = count + 1;
        }
        Ok(count)
    }
}

/// A step under draws for every agent is a step.
pub proof fn lemma_step_under_draws_is_a_step(
    pre: CompanySimulation,
    draws: StepDraws,
    post: CompanySimulation,
    r: Result<StepReport, AgentError>,
)
    requires
        draws.agents@.len() == pre.agents@.len(),
        step_taken_with(pre, draws, post, r),
    ensures
        step_taken(pre, post, r),
{
    let (active, signals, chatted, exchange) = choose|
        active: CompanySimulation,
        signals: Seq<ActivitySignal>,
        chatted: CompanySimulation,
        exchange: Result<bool, AgentError>,
    |
        {
            &&& activities_processed_with(pre, draws.agents@, active, signals)
            &&& chattered(
                active,
                draws.exchange.chance_raw,
                draws.exchange.sender_raw,
                draws.exchange.receiver_raw,
                draws.exchange.kind_raw,
                draws.exchange.id,
                draws.exchange.now,
                chatted,
                exchange,
            )
            &&& match exchange {
                Err(e) => post == chatted && r == Err::<StepReport, AgentError>(e),
                Ok(exchanged) => exists|event: Result<Option<CompanyEvent>, AgentError>|
                    {
                        &&& company_stirred(chatted, draws.event_raw, draws.event, post, event)
                        &&& match event {
                            Err(e) => r == Err::<StepReport, AgentError>(e),
                            Ok(happened) => {
                                &&& r matches Ok(report)
                                &&& report.signals@ == signals
                                &&& report.exchanged == exchanged
                                &&& report.event == happened
                                &&& match report.health {
                                    Some(summary) => falls_under(draws.health_raw, HEALTH_CHANCE)
                                        && sums_up(post, summary),
                                    None => !falls_under(draws.health_raw, HEALTH_CHANCE),
                                }
                            },
                        }
                    },
            }
        };
    lemma_activities_under_draws(pre, draws.agents@, active, signals);
    assert(exchange_made(active, chatted, exchange));
    if exchange is Ok {
        let event = choose|event: Result<Option<CompanyEvent>, AgentError>|
            {
                &&& company_stirred(chatted, draws.event_raw, draws.event, post, event)
                &&& match event {
                    Err(e) => r == Err::<StepReport, AgentError>(e),
                    Ok(happened) => {
                        &&& r matches Ok(report)
                        &&& report.signals@ == signals
                        &&& report.exchanged == exchange->Ok_0
                        &&& report.event == happened
                        &&& match report.health {
                            Some(summary) => falls_under(draws.health_raw, HEALTH_CHANCE)
                                && sums_up(post, summary),
                            None => !falls_under(draws.health_raw, HEALTH_CHANCE),
                        }
                    },
                }
            };
        assert(event_made(chatted, post, event));
    }
}

/// The agents' activities under draws for every agent are activities of the
/// agents.
pub proof fn lemma_activities_under_draws(
    pre: CompanySimulation,
    draws: Seq<AgentDraws>,
    post: CompanySimulation,
    signals: Seq<ActivitySignal>,
)
    requires
        draws.len() == pre.agents@.len(),
        activities_processed_with(pre, draws, post, signals),
    ensures
        activities_processed(pre, post, signals),
{
    assert(pre.agents@.take(pre.agents@.len() as int) =~= pre.agents@);
    assert(draws.take(draws.len() as int) =~= draws);
}

/// Messages leave the queue in the order in which they came: after a
/// delivery the queue is what it was without its head, so a message that was
/// behind another is still behind it.
pub proof fn lemma_delivery_keeps_order(
    pre: CompanySimulation,
    post: CompanySimulation,
    r: Delivery,
    i: int,
)
    requires
        delivered(pre, post, r),
        1 <= i < pre.message_bus.queue@.len(),
    ensures
        post.message_bus.queue@.len() == pre.message_bus.queue@.len() - 1,
        post.message_bus.queue@[i - 1] == pre.message_bus.queue@[i],
{
}

/// A message that the bus refuses changes no agent, and nothing else.
pub proof fn lemma_refusal_changes_nothing(
    pre: CompanySimulation,
    department: Department,
    notice: Notice,
    id: u128,
    now: i64,
    post: CompanySimulation,
    r: Result<Option<u128>, AgentError>,
)
    requires
        notified(pre, department, notice, id, now, post, r),
        r is Err,
    ensures
        post == pre,
{
}

/// Neither a message nor the daily round changes who an agent is: its
/// identifier, its name, its department and its manager stay.
pub proof fn lemma_record_is_kept(pre: DepartmentAgent, post: DepartmentAgent)
    requires
        DepartmentAgent::maintains(pre, post) || exists|message: Message|
            DepartmentAgent::handles(pre, message, post),
    ensures
        post.record() == pre.record(),
{
    if DepartmentAgent::maintains(pre, post) {
        match pre {
            DepartmentAgent::DevOps(agent) => {
                let after = post->DevOps_0;
                devops::lemma_daily_round_spares_deployments(agent, after);
            },
            DepartmentAgent::InfoSec(agent) => {
                let after = post->InfoSec_0;
                infosec::lemma_daily_round_keeps_record(agent, after);
            },
            DepartmentAgent::Networking(agent) => {
                let after = post->Networking_0;
                networking::lemma_daily_round_keeps_record(agent, after);
            },
            DepartmentAgent::Ops(agent) => {
                let after = post->Ops_0;
                ops::lemma_daily_round_moves_nothing_on(agent, after);
            },
            DepartmentAgent::Other(_) => {},
        }
    } else {
        let message = choose|message: Message| DepartmentAgent::handles(pre, message, post);
        match pre {
            DepartmentAgent::DevOps(agent) => {
                let after = post->DevOps_0;
                devops::lemma_handling_spares_deployments(agent, message, after);
            },
            DepartmentAgent::InfoSec(agent) => {
                let after = post->InfoSec_0;
                infosec::lemma_handling_keeps_record(agent, message, after);
            },
            DepartmentAgent::Networking(agent) => {
                let after = post->Networking_0;
                networking::lemma_handling_keeps_record(agent, message, after);
            },
            DepartmentAgent::Ops(agent) => {
                let after = post->Ops_0;
                ops::lemma_handling_moves_nothing_on(agent, message, after);
            },
            DepartmentAgent::Other(_) => {},
        }
    }
}

impl DepartmentAgent {
    /// The state of the agent is in order, as its department has it.
    pub open spec fn sound(self) -> bool {
        match self {
            DepartmentAgent::DevOps(agent) => agent.sound(),
            DepartmentAgent::InfoSec(agent) => agent.sound(),
            DepartmentAgent::Networking(agent) => agent.sound(),
            DepartmentAgent::Ops(agent) => agent.sound(),
            DepartmentAgent::Other(_) => true,
        }
    }
}

/// Neither a message nor the daily round puts the state of an agent out of
/// order.
pub proof fn lemma_soundness_is_kept(pre: DepartmentAgent, post: DepartmentAgent)
    requires
        pre.sound(),
        DepartmentAgent::maintains(pre, post) || exists|message: Message|
            DepartmentAgent::handles(pre, message, post),
    ensures
        post.sound(),
{
    if DepartmentAgent::maintains(pre, post) {
        match pre {
            DepartmentAgent::DevOps(agent) => {
                let after = post->DevOps_0;
                devops::lemma_daily_round_keeps_sound(agent, after);
            },
            DepartmentAgent::InfoSec(agent) => {
                let after = post->InfoSec_0;
                infosec::lemma_daily_round_keeps_sound(agent, after);
            },
            DepartmentAgent::Networking(agent) => {
                let after = post->Networking_0;
                networking::lemma_daily_round_keeps_sound(agent, after);
            },
            DepartmentAgent::Ops(agent) => {
                let after = post->Ops_0;
                ops::lemma_daily_round_keeps_sound(agent, after);
            },
            DepartmentAgent::Other(_) => {},
        }
    } else {
        let message = choose|message: Message| DepartmentAgent::handles(pre, message, post);
        match pre {
            DepartmentAgent::DevOps(agent) => {
                let after = post->DevOps_0;
                devops::lemma_handling_keeps_sound(agent, message, after);
            },
            DepartmentAgent::InfoSec(agent) => {
                let after = post->InfoSec_0;
                infosec::lemma_handling_keeps_sound(agent, message, after);
            },
            DepartmentAgent::Networking(agent) => {
                let after = post->Networking_0;
                networking::lemma_handling_keeps_sound(agent, message, after);
            },
            DepartmentAgent::Ops(agent) => {
                let after = post->Ops_0;
                ops::lemma_handling_keeps_sound(agent, message, after);
            },
            DepartmentAgent::Other(_) => {},
        }
    }
}

/// An agent as it starts is sound.
pub proof fn lemma_newcomer_is_sound(
    agent: DepartmentAgent,
    department: Department,
    name: Seq<char>,
    manager_id: Option<u128>,
)
    requires
        is_newcomer(agent, department, name, manager_id),
    ensures
        agent.sound(),
        agent.record().department == department,
        agent.record().name@ == name,
        agent.record().manager_id == manager_id,
{
    match agent {
        DepartmentAgent::DevOps(a) => devops::lemma_new_agent_is_sound(a, name, manager_id),
        DepartmentAgent::InfoSec(a) => infosec::lemma_new_agent_is_sound(a, name, manager_id),
        DepartmentAgent::Networking(a) => networking::lemma_new_agent_is_sound(
            a,
            name,
            manager_id,
        ),
        DepartmentAgent::Ops(a) => ops::lemma_new_agent_is_sound(a, name, manager_id),
        DepartmentAgent::Other(_) => {},
    }
}

/// The company is in order: no identifier stands for two agents; every agent
/// stands under its own identifier and is listed on the bus, so that a message
/// to it can be delivered; and the state of every agent is in order.
pub open spec fn consistent(s: CompanySimulation) -> bool {
    &&& distinct_keys(s.agents@)
    &&& forall|i: int|
        0 <= i < s.agents@.len() ==> {
            &&& (#[trigger] s.agents@[i]).key == s.agents@[i].value.record().id
            &&& listed(s.message_bus.directory@, s.agents@[i].key)
            &&& s.agents@[i].value.sound()
        }
}

/// A company without agents is consistent.
pub proof fn lemma_empty_is_consistent(s: CompanySimulation)
    requires
        is_empty_company(s),
    ensures
        consistent(s),
{
}

/// Taking an agent in keeps the company consistent, where the state of the
/// agent is in order.
pub proof fn lemma_enrolling_keeps_consistent(
    pre: CompanySimulation,
    agent: DepartmentAgent,
    post: CompanySimulation,
)
    requires
        consistent(pre),
        agent.sound(),
        enrolled(pre, agent, post),
    ensures
        consistent(post),
{
    let id = agent.record().id;
    let at = landing(pre.agents@, id);
    lemma_placed_keeps_distinct(pre.agents@, id, post.agents@);
    if has_key(pre.agents@, id) {
        lemma_slot_of(pre.agents@, id);
    }
    let directory = pre.message_bus.directory@;
    if !listed(directory, id) {
        assert(directory.push(id)[directory.len() as int] == id);
    }
    assert forall|i: int| 0 <= i < post.agents@.len() implies {
        &&& (#[trigger] post.agents@[i]).key == post.agents@[i].value.record().id
        &&& listed(post.message_bus.directory@, post.agents@[i].key)
        &&& post.agents@[i].value.sound()
    } by {
        if i != at {
            let key = pre.agents@[i].key;
            let k = choose|k: int| 0 <= k < directory.len() && directory[k] == key;
            assert(post.message_bus.directory@[k] == key);
        }
    }
}

/// Staffing a department keeps the company consistent.
pub proof fn lemma_staffing_keeps_consistent(
    pre: CompanySimulation,
    department: Department,
    manager_id: u128,
    count: nat,
    post: CompanySimulation,
)
    requires
        consistent(pre),
        staffed(pre, department, manager_id, count, post),
    ensures
        consistent(post),
    decreases count,
{
    if count > 0 {
        let (mid, id) = choose|mid: CompanySimulation, id: u128|
            {
                &&& staffed(pre, department, manager_id, (count - 1) as nat, mid)
                &&& hired(
                    mid,
                    department,
                    staff_name(department, count),
                    Some(manager_id),
                    post,
                    id,
                )
            };
        lemma_staffing_keeps_consistent(pre, department, manager_id, (count - 1) as nat, mid);
        lemma_hiring_keeps_consistent(
            mid,
            department,
            staff_name(department, count),
            Some(manager_id),
            post,
            id,
        );
    }
}

/// Hiring an agent keeps the company consistent.
pub proof fn lemma_hiring_keeps_consistent(
    pre: CompanySimulation,
    department: Department,
    name: Seq<char>,
    manager_id: Option<u128>,
    post: CompanySimulation,
    id: u128,
)
    requires
        consistent(pre),
        hired(pre, department, name, manager_id, post, id),
    ensures
        consistent(post),
{
    let agent = choose|agent: DepartmentAgent|
        {
            &&& enrolled(pre, agent, post)
            &&& is_newcomer(agent, department, name, manager_id)
            &&& agent.record().id == id
            &&& id != NIL_ID
        };
    lemma_newcomer_is_sound(agent, department, name, manager_id);
    lemma_enrolling_keeps_consistent(pre, agent, post);
}

/// A company staffed from nothing is consistent: every one of its agents can
/// be reached through the bus.
pub proof fn lemma_staffed_company_is_consistent(pre: CompanySimulation, post: CompanySimulation)
    requires
        consistent(pre),
        departments_initialized(pre, post),
    ensures
        consistent(post),
{
    let (
        with_engineering,
        engineering,
        with_sales,
        sales,
        with_devops,
        devops,
        with_infosec,
        infosec,
        with_networking,
        networking,
        with_ops,
        ops,
        devops_staffed,
        infosec_staffed,
        networking_staffed,
    ) = choose|
        with_engineering: CompanySimulation,
        engineering: u128,
        with_sales: CompanySimulation,
        sales: u128,
        with_devops: CompanySimulation,
        devops: u128,
        with_infosec: CompanySimulation,
        infosec: u128,
        with_networking: CompanySimulation,
        networking: u128,
        with_ops: CompanySimulation,
        ops: u128,
        devops_staffed: CompanySimulation,
        infosec_staffed: CompanySimulation,
        networking_staffed: CompanySimulation,
    |
        {
            &&& hired(
                pre,
                Department::Engineering,
                "Sarah Chen"@,
                None,
                with_engineering,
                engineering,
            )
            &&& hired(
                with_engineering,
                Department::Sales,
                "Mike Rodriguez"@,
                None,
                with_sales,
                sales,
            )
            &&& hired(with_sales, Department::DevOps, "Jordan Smith"@, None, with_devops, devops)
            &&& hired(
                with_devops,
                Department::InfoSec,
                "Alex Thompson"@,
                None,
                with_infosec,
                infosec,
            )
            &&& hired(
                with_infosec,
                Department::Networking,
                "Lisa Park"@,
                None,
                with_networking,
                networking,
            )
            &&& hired(with_networking, Department::Ops, "David Wilson"@, None, with_ops, ops)
            &&& staffed(with_ops, Department::DevOps, devops, 3, devops_staffed)
            &&& staffed(devops_staffed, Department::InfoSec, infosec, 2, infosec_staffed)
            &&& staffed(
                infosec_staffed,
                Department::Networking,
                networking,
                2,
                networking_staffed,
            )
            &&& staffed(networking_staffed, Department::Ops, ops, 3, post)
        };
    lemma_hiring_keeps_consistent(
        pre,
        Department::Engineering,
        "Sarah Chen"@,
        None,
        with_engineering,
        engineering,
    );
    lemma_hiring_keeps_consistent(
        with_engineering,
        Department::Sales,
        "Mike Rodriguez"@,
        None,
        with_sales,
        sales,
    );
    lemma_hiring_keeps_consistent(
        with_sales,
        Department::DevOps,
        "Jordan Smith"@,
        None,
        with_devops,
        devops,
    );
    lemma_hiring_keeps_consistent(
        with_devops,
        Department::InfoSec,
        "Alex Thompson"@,
        None,
        with_infosec,
        infosec,
    );
    lemma_hiring_keeps_consistent(
        with_infosec,
        Department::Networking,
        "Lisa Park"@,
        None,
        with_networking,
        networking,
    );
    lemma_hiring_keeps_consistent(
        with_networking,
        Department::Ops,
        "David Wilson"@,
        None,
        with_ops,
        ops,
    );
    lemma_staffing_keeps_consistent(with_ops, Department::DevOps, devops, 3, devops_staffed);
    lemma_staffing_keeps_consistent(
        devops_staffed,
        Department::InfoSec,
        infosec,
        2,
        infosec_staffed,
    );
    lemma_staffing_keeps_consistent(
        infosec_staffed,
        Department::Networking,
        networking,
        2,
        networking_staffed,
    );
    lemma_staffing_keeps_consistent(networking_staffed, Department::Ops, ops, 3, post);
}

/// In a consistent company the bus refuses no message from the system: the
/// first agent of a department is always listed.
pub proof fn lemma_consistent_is_never_refused(
    pre: CompanySimulation,
    department: Department,
    notice: Notice,
    id: u128,
    now: i64,
    post: CompanySimulation,
    r: Result<Option<u128>, AgentError>,
)
    requires
        consistent(pre),
        notified(pre, department, notice, id, now, post, r),
    ensures
        r is Ok,
        consistent(post),
        post.agents == pre.agents,
{
    if has_department(pre.agents@, department) {
        let w = choose|i: int|
            0 <= i < pre.agents@.len() && (#[trigger] pre.agents@[i]).value.record().department
                == department;
        lemma_first_of_department(pre.agents@, department, w);
    }
}

/// An agent of a department at `w` implies a first agent of it at or before
/// `w`.
proof fn lemma_first_of_department(
    agents: Seq<Entry<u128, DepartmentAgent>>,
    department: Department,
    w: int,
)
    requires
        0 <= w < agents.len(),
        agents[w].value.record().department == department,
    ensures
        exists|i: int| first_of(agents, department, i),
    decreases w,
{
    if exists|j: int|
        0 <= j < w && (#[trigger] agents[j]).value.record().department == department {
        let j = choose|j: int|
            0 <= j < w && (#[trigger] agents[j]).value.record().department == department;
        lemma_first_of_department(agents, department, j);
    } else {
        assert(first_of(agents, department, w));
    }
}

/// In a consistent company an exchange between agents is never refused.
pub proof fn lemma_consistent_exchange_is_never_refused(
    pre: CompanySimulation,
    chance_raw: u64,
    sender_raw: u64,
    receiver_raw: u64,
    kind_raw: u64,
    id: u128,
    now: i64,
    post: CompanySimulation,
    r: Result<bool, AgentError>,
)
    requires
        consistent(pre),
        chattered(pre, chance_raw, sender_raw, receiver_raw, kind_raw, id, now, post, r),
    ensures
        r is Ok,
        consistent(post),
        post.agents == pre.agents,
{
    if falls_under(chance_raw, CHATTER_CHANCE) && pre.agents@.len() >= 2 {
        let count = pre.agents@.len() as int;
        lemma_exchange_is_between_two(sender_raw, receiver_raw, count);
    }
}

/// The agents' activities keep the company consistent.
pub proof fn lemma_activities_keep_consistent(
    pre: CompanySimulation,
    post: CompanySimulation,
    signals: Seq<ActivitySignal>,
)
    requires
        consistent(pre),
        activities_processed(pre, post, signals),
    ensures
        consistent(post),
{
    let draws = choose|draws: Seq<AgentDraws>|
        {
            &&& draws.len() == pre.agents@.len()
            &&& forall|i: int|
                0 <= i < pre.agents@.len() ==> (#[trigger] post.agents@[i]).key
                    == pre.agents@[i].key && stirred(
                    pre.agents@[i].value,
                    draws[i],
                    post.agents@[i].value,
                )
            &&& signals == signals_among(pre.agents@, draws)
        };
    assert forall|i: int| 0 <= i < post.agents@.len() implies {
        &&& (#[trigger] post.agents@[i]).key == post.agents@[i].value.record().id
        &&& listed(post.message_bus.directory@, post.agents@[i].key)
        &&& post.agents@[i].value.sound()
    } by {
        if falls_under(draws[i].daily_raw, DAILY_CHANCE) {
            lemma_record_is_kept(pre.agents@[i].value, post.agents@[i].value);
            lemma_soundness_is_kept(pre.agents@[i].value, post.agents@[i].value);
        }
    }
}

/// A delivery keeps the company consistent.
pub proof fn lemma_delivery_keeps_consistent(
    pre: CompanySimulation,
    post: CompanySimulation,
    r: Delivery,
)
    requires
        consistent(pre),
        delivered(pre, post, r),
    ensures
        consistent(post),
{
    if pre.message_bus.queue@.len() > 0 {
        let message = pre.message_bus.queue@[0];
        if has_key(pre.agents@, message.to_agent) {
            let at = slot_of(pre.agents@, message.to_agent);
            lemma_slot_of(pre.agents@, message.to_agent);
            lemma_record_is_kept(pre.agents@[at].value, post.agents@[at].value);
            lemma_soundness_is_kept(pre.agents@[at].value, post.agents@[at].value);
            assert forall|i: int| 0 <= i < post.agents@.len() implies {
                &&& (#[trigger] post.agents@[i]).key == post.agents@[i].value.record().id
                &&& listed(post.message_bus.directory@, post.agents@[i].key)
                &&& post.agents@[i].value.sound()
            } by {
            }
        }
    }
}

/// A step in a consistent company is never refused by the bus: it gives its
/// report and leaves the company consistent.
pub proof fn lemma_consistent_step_succeeds(
    pre: CompanySimulation,
    post: CompanySimulation,
    r: Result<StepReport, AgentError>,
)
    requires
        consistent(pre),
        step_taken(pre, post, r),
    ensures
        r is Ok,
        consistent(post),
{
    let (active, signals, chatted, exchange) = choose|
        active: CompanySimulation,
        signals: Seq<ActivitySignal>,
        chatted: CompanySimulation,
        exchange: Result<bool, AgentError>,
    |
        {
            &&& activities_processed(pre, active, signals)
            &&& exchange_made(active, chatted, exchange)
            &&& match exchange {
                Err(e) => post == chatted && r == Err::<StepReport, AgentError>(e),
                Ok(exchanged) => exists|event: Result<Option<CompanyEvent>, AgentError>|
                    {
                        &&& event_made(chatted, post, event)
                        &&& match event {
                            Err(e) => r == Err::<StepReport, AgentError>(e),
                            Ok(happened) => {
                                &&& r matches Ok(report)
                                &&& report.signals@ == signals
                                &&& report.exchanged == exchanged
                                &&& report.event == happened
                                &&& report.health matches Some(summary) ==> sums_up(post, summary)
                            },
                        }
                    },
            }
        };
    lemma_activities_keep_consistent(pre, active, signals);
    let (chance_raw, sender_raw, receiver_raw, kind_raw, id, now) = choose|
        chance_raw: u64,
        sender_raw: u64,
        receiver_raw: u64,
        kind_raw: u64,
        id: u128,
        now: i64,
    | chattered(active, chance_raw, sender_raw, receiver_raw, kind_raw, id, now, chatted, exchange);
    lemma_consistent_exchange_is_never_refused(
        active,
        chance_raw,
        sender_raw,
        receiver_raw,
        kind_raw,
        id,
        now,
        chatted,
        exchange,
    );
    let event = choose|event: Result<Option<CompanyEvent>, AgentError>|
        event_made(chatted, post, event) && match event {
            Err(e) => r == Err::<StepReport, AgentError>(e),
            Ok(happened) => {
                &&& r matches Ok(report)
                &&& report.signals@ == signals
                &&& report.exchanged == exchange->Ok_0
                &&& report.event == happened
                &&& report.health matches Some(summary) ==> sums_up(post, summary)
            },
        };
    let (event_raw, draws) = choose|event_raw: u64, draws: EventDraws|
        company_stirred(chatted, event_raw, draws, post, event);
    lemma_consistent_event_is_never_refused(chatted, event_raw, draws, post, event);
}

/// In a consistent company a company event is never refused by the bus.
pub proof fn lemma_consistent_event_is_never_refused(
    pre: CompanySimulation,
    event_raw: u64,
    draws: EventDraws,
    post: CompanySimulation,
    r: Result<Option<CompanyEvent>, AgentError>,
)
    requires
        consistent(pre),
        company_stirred(pre, event_raw, draws, post, r),
    ensures
        r is Ok,
        consistent(post),
        post.agents == pre.agents,
{
    match event_for(event_raw) {
        None => {},
        Some(CompanyEvent::NewProject) => {
            let (mid, first) = choose|
                mid: CompanySimulation,
                first: Result<Option<u128>, AgentError>,
            |
                {
                    &&& notified(
                        pre,
                        Department::Engineering,
                        project_notice(draws.project_id),
                        draws.first_id,
                        draws.first_at,
                        mid,
                        first,
                    )
                    &&& match first {
                        Err(e) => post == mid && r == Err::<Option<CompanyEvent>, AgentError>(e),
                        Ok(_) => exists|second: Result<Option<u128>, AgentError>|
                            {
                                &&& notified(
                                    mid,
                                    Department::Ops,
                                    project_notice(draws.project_id),
                                    draws.second_id,
                                    draws.second_at,
                                    post,
                                    second,
                                )
                                &&& result_of(second, CompanyEvent::NewProject, r)
                            },
                    }
                };
            lemma_consistent_is_never_refused(
                pre,
                Department::Engineering,
                project_notice(draws.project_id),
                draws.first_id,
                draws.first_at,
                mid,
                first,
            );
            let second = choose|second: Result<Option<u128>, AgentError>|
                {
                    &&& notified(
                        mid,
                        Department::Ops,
                        project_notice(draws.project_id),
                        draws.second_id,
                        draws.second_at,
                        post,
                        second,
                    )
                    &&& result_of(second, CompanyEvent::NewProject, r)
                };
            lemma_consistent_is_never_refused(
                mid,
                Department::Ops,
                project_notice(draws.project_id),
                draws.second_id,
                draws.second_at,
                post,
                second,
            );
        },
        Some(CompanyEvent::SecurityIncident) => {
            let told = choose|told: Result<Option<u128>, AgentError>|
                {
                    &&& notified(
                        pre,
                        Department::InfoSec,
                        security_notice(),
                        draws.first_id,
                        draws.first_at,
                        post,
                        told,
                    )
                    &&& result_of(told, CompanyEvent::SecurityIncident, r)
                };
            lemma_consistent_is_never_refused(
                pre,
                Department::InfoSec,
                security_notice(),
                draws.first_id,
                draws.first_at,
                post,
                told,
            );
        },
        Some(CompanyEvent::InfrastructureIssue) => {
            let told = choose|told: Result<Option<u128>, AgentError>|
                {
                    &&& notified(
                        pre,
                        Department::DevOps,
                        infrastructure_notice(),
                        draws.first_id,
                        draws.first_at,
                        post,
                        told,
                    )
                    &&& result_of(told, CompanyEvent::InfrastructureIssue, r)
                };
            lemma_consistent_is_never_refused(
                pre,
                Department::DevOps,
                infrastructure_notice(),
                draws.first_id,
                draws.first_at,
                post,
                told,
            );
        },
        Some(CompanyEvent::CustomerRequest) => {
            let told = choose|told: Result<Option<u128>, AgentError>|
                {
                    &&& notified(
                        pre,
                        Department::Ops,
                        customer_notice(draws.customer_raw),
                        draws.first_id,
                        draws.first_at,
                        post,
                        told,
                    )
                    &&& result_of(told, CompanyEvent::CustomerRequest, r)
                };
            lemma_consistent_is_never_refused(
                pre,
                Department::Ops,
                customer_notice(draws.customer_raw),
                draws.first_id,
                draws.first_at,
                post,
                told,
            );
        },
    }
}

} // verus!
