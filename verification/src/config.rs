//! The node's settings.
//!
//! The command queue is bounded on purpose: a caller whose command does not
//! fit waits, so callers are served one after another in the order in which
//! the queue took their commands. With the capacity of one that is the
//! default, a single command waits in the queue at any time.

use vstd::prelude::*;

verus! {

/// How many replicas must answer for a read or write of a record to count.
#[derive(Debug, Clone, Copy, PartialEq, Eq, Structural)]
pub enum Quorum {
    /// A single replica suffices.
    One,
    /// More than half of the replicas.
    Majority,
    /// Every replica.
    All,
    /// The given number of replicas.
    N(usize),
}

/// The settings of a node.
#[derive(Debug, Clone, Copy, PartialEq, Eq, Structural)]
pub struct Config {
    /// How many commands the command queue holds.
    pub command_queue_capacity: usize,
    /// How many events the queue towards the application holds.
    pub event_queue_capacity: usize,
    /// The quorum for reads and writes of records.
    pub quorum: Quorum,
}

/// True of settings that a node can run with: each queue holds at least one
/// item, and a quorum given as a number asks for at least one replica.
pub open spec fn spec_valid(c: Config) -> bool {
    &&& c.command_queue_capacity >= 1
    &&& c.event_queue_capacity >= 1
    &&& (c.quorum matches Quorum::N(n) ==> n >= 1)
}

impl Default for Config {
    /// Queues of capacity one and a quorum of one.
    fn default() -> (c: Config)
        ensures
            c == (Config {
                command_queue_capacity: 1,
                event_queue_capacity: 1,
                quorum: Quorum::One,
            }),
            spec_valid(c),
    {
        Config { command_queue_capacity: 1, event_queue_capacity: 1, quorum: Quorum::One }
    }
}

impl Config {
    /// Tells whether a node can run with these settings.
    pub fn is_valid(&self) -> (r: bool)
        ensures
            r == spec_valid(*self),
    {
        let quorum_ok = match self.quorum {
            Quorum::N(n) => n >= 1,
            _ => true,
        };
        self.command_queue_capacity >= 1 && self.event_queue_capacity >= 1 && quorum_ok
    }
}

} // verus!
