//! A company of software agents, grouped into departments, that exchange
//! messages and keep per-department operational state.
//!
//! `simulation` holds the orchestrator: the registry of agents, the bus, and
//! what one step does. `departments` holds the four departments that are
//! modelled in depth, each with the state machine it owns. `agents` and
//! `communication` hold what they share: the agent record, the behaviour of
//! an agent, messages and the bus. `table` is the keyed collection that the
//! state is kept in.
//!
//! Three things come from outside and are believed, not proved: fresh
//! identifiers and their text (`ids`), the time (`clock`), and raw random
//! draws (`chance`). Every function that uses one of them has a twin, named
//! with `_with`, that takes what was drawn as arguments and says exactly what
//! it does with it.
//!
//! Fractions are held as integers: percentages and probabilities in parts of
//! ten thousand, times in seconds since the epoch.

pub mod agents;
pub mod chance;
pub mod clock;
pub mod communication;
pub mod counts;
pub mod departments;
pub mod ids;
pub mod simulation;
pub mod table;
pub mod text;
