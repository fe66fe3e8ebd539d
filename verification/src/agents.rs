//! Agent records, the closed set of departments, and the behaviour that every
//! department agent offers.

use crate::communication::DeliveryError;
use crate::communication::Message;
use crate::departments::devops::DevOpsError;
use crate::departments::infosec::InfoSecError;
use crate::departments::networking::NetworkingError;
use crate::departments::ops::OpsError;
use crate::ids::fresh_id;
use crate::ids::lemma_versioned_is_not_nil;
use crate::ids::NIL_ID;
use vstd::prelude::*;

verus! {

/// The department an agent belongs to.
#[derive(Clone, Copy, Debug, PartialEq, Eq, Structural)]
pub enum Department {
    Engineering,
    Sales,
    DevOps,
    InfoSec,
    Networking,
    Ops,
    Marketing,
    Finance,
    HR,
    Legal,
}

impl Department {
    /// The display name of the department.
    pub open spec fn name(self) -> Seq<char> {
        match self {
            Department::Engineering => "Engineering"@,
            Department::Sales => "Sales"@,
            Department::DevOps => "DevOps"@,
            Department::InfoSec => "InfoSec"@,
            Department::Networking => "Networking"@,
            Department::Ops => "Ops"@,
            Department::Marketing => "Marketing"@,
            Department::Finance => "Finance"@,
            Department::HR => "HR"@,
            Department::Legal => "Legal"@,
        }
    }

    /// The display name of the department.
    pub fn as_str(&self) -> (s: &'static str)
        ensures
            s@ == self.name(),
    {
        match self {
            Department::Engineering => "Engineering",
            Department::Sales => "Sales",
            Department::DevOps => "DevOps",
            Department::InfoSec => "InfoSec",
            Department::Networking => "Networking",
            Department::Ops => "Ops",
            Department::Marketing => "Marketing",
            Department::Finance => "Finance",
            Department::HR => "HR",
            Department::Legal => "Legal",
        }
    }
}

/// Who an agent is: identity, display name, department, and the manager it
/// reports to, if any. The manager is named by identifier only.
#[derive(Debug)]
pub struct Agent {
    pub id: u128,
    pub name: String,
    pub department: Department,
    pub manager_id: Option<u128>,
}

impl Clone for Agent {
    fn clone(&self) -> (a: Self)
        ensures
            a == *self,
    {
        Agent {
            id: self.id,
            name: self.name.clone(),
            department: self.department,
            manager_id: self.manager_id,
        }
    }
}

impl Agent {
    /// The record of an agent whose identifier is already known.
    pub fn with_id(id: u128, name: String, department: Department, manager_id: Option<u128>) -> (a:
        Self)
        ensures
            a == (Agent { id, name, department, manager_id }),
    {
        Agent { id, name, department, manager_id }
    }

    /// The record of a new agent, under a fresh identifier.
    pub fn new(name: String, department: Department, manager_id: Option<u128>) -> (a: Self)
        ensures
            a == (Agent { id: a.id, name, department, manager_id }),
            a.id != NIL_ID,
    {
        let id = fresh_id();
        proof {
            lemma_versioned_is_not_nil(id);
        }
        Agent::with_id(id, name, department, manager_id)
    }
}

/// Why an agent could not finish what it was asked.
#[derive(Debug)]
pub enum AgentError {
    DevOps(DevOpsError),
    InfoSec(InfoSecError),
    Networking(NetworkingError),
    Ops(OpsError),
    Delivery(DeliveryError),
}

/// What every department agent can do: react to a message, run its periodic
/// maintenance, and show its agent record.
pub trait AgentTrait: Sized {
    /// The agent can take `message` without a counter running over.
    spec fn accepts(&self, message: Message) -> bool;

    /// `post` is a state in which the agent may be after it took `message` in
    /// state `pre`.
    spec fn handles(pre: Self, message: Message, post: Self) -> bool;

    /// The agent can run its periodic maintenance without a counter running
    /// over.
    spec fn fit_for_daily_tasks(&self) -> bool;

    /// `post` is a state in which the agent may be after its periodic
    /// maintenance in state `pre`.
    spec fn maintains(pre: Self, post: Self) -> bool;

    /// The agent's record.
    spec fn record(&self) -> Agent;

    /// Reacts to a message. A message of a kind that the department does not
    /// know is accepted and changes nothing.
    fn process_message(&mut self, message: Message) -> (r: Result<(), AgentError>)
        requires
            old(self).accepts(message),
        ensures
            r is Ok,
            Self::handles(*old(self), message, *final(self)),
    ;

    /// Runs the department's periodic maintenance: a fixed sequence of
    /// messages that the agent sends to itself.
    fn perform_daily_tasks(&mut self) -> (r: Result<(), AgentError>)
        requires
            old(self).fit_for_daily_tasks(),
        ensures
            r is Ok,
            Self::maintains(*old(self), *final(self)),
    ;

    /// Whether the agent can take `message`.
    fn can_accept(&self, message: &Message) -> (b: bool)
        ensures
            b == self.accepts(*message),
    ;

    /// Whether the agent can run its periodic maintenance.
    fn can_run_daily_tasks(&self) -> (b: bool)
        ensures
            b == self.fit_for_daily_tasks(),
    ;

    /// The agent's record.
    fn get_agent(&self) -> (a: &Agent)
        ensures
            *a == self.record(),
    ;

    /// The agent's record, for change.
    fn get_agent_mut(&mut self) -> (a: &mut Agent)
        ensures
            *a == old(self).record(),
            final(self).record() == *final(a),
    ;
}

} // verus!
