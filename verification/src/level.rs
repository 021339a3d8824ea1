//! Consistency levels and the policy that holds the ones in force.

use vstd::prelude::*;

verus! {

/// How many replicas must acknowledge a statement before it counts as done.
#[derive(Clone, Copy, Debug, PartialEq, Eq, Structural)]
pub enum Level {
    Any,
    One,
    Two,
    Three,
    Quorum,
    All,
    LocalQuorum,
    EachQuorum,
    Serial,
    LocalSerial,
    LocalOne,
}

/// The number that stands for each level on the wire.
pub open spec fn level_code(level: Level) -> u16 {
    match level {
        Level::Any => 0,
        Level::One => 1,
        Level::Two => 2,
        Level::Three => 3,
        Level::Quorum => 4,
        Level::All => 5,
        Level::LocalQuorum => 6,
        Level::EachQuorum => 7,
        Level::Serial => 8,
        Level::LocalSerial => 9,
        Level::LocalOne => 10,
    }
}

impl Level {
    /// The number that stands for this level on the wire.
    pub fn code(&self) -> (c: u16)
        ensures
            c == level_code(*self),
    {
        match self {
            Level::Any => 0,
            Level::One => 1,
            Level::Two => 2,
            Level::Three => 3,
            Level::Quorum => 4,
            Level::All => 5,
            Level::LocalQuorum => 6,
            Level::EachQuorum => 7,
            Level::Serial => 8,
            Level::LocalSerial => 9,
            Level::LocalOne => 10,
        }
    }
}

/// Level at which facts are read unless set otherwise.
pub open spec fn default_read_level() -> Level {
    Level::One
}

/// Level at which facts are written unless set otherwise.
pub open spec fn default_write_level() -> Level {
    Level::LocalQuorum
}

/// Copies of each row that the keyspace is created with unless set otherwise.
pub const DEFAULT_REPLICAS: u32 = 2;

/// The consistency levels in force and the replication factor. The two
/// levels are independent; the replication factor is used only when the
/// keyspace is created.
#[derive(Clone, Copy, Debug, PartialEq, Eq, Structural)]
pub struct ConsistencyPolicy {
    pub read: Level,
    pub write: Level,
    pub replica_count: u32,
}

impl ConsistencyPolicy {
    /// The policy a store starts with.
    pub fn new() -> (p: ConsistencyPolicy)
        ensures
            p.read == default_read_level(),
            p.write == default_write_level(),
            p.replica_count == DEFAULT_REPLICAS,
    {
        ConsistencyPolicy {
            read: Level::One,
            write: Level::LocalQuorum,
            replica_count: DEFAULT_REPLICAS,
        }
    }

    /// The starting policy with another replication factor.
    pub fn with_replicas(replica_count: u32) -> (p: ConsistencyPolicy)
        ensures
            p.read == default_read_level(),
            p.write == default_write_level(),
            p.replica_count == replica_count,
    {
        ConsistencyPolicy { read: Level::One, write: Level::LocalQuorum, replica_count }
    }

    /// The level for reads.
    pub fn get_read_consistency(&self) -> (l: Level)
        ensures
            l == self.read,
    {
        self.read
    }

    /// The level for writes.
    pub fn get_write_consistency(&self) -> (l: Level)
        ensures
            l == self.write,
    {
        self.write
    }

    /// The replication factor.
    pub fn get_replica_count(&self) -> (n: u32)
        ensures
            n == self.replica_count,
    {
        self.replica_count
    }

    /// Sets the level for reads; nothing else changes.
    pub fn set_read_consistency(&mut self, level: Level)
        ensures
            final(self).read == level,
            final(self).write == old(self).write,
            final(self).replica_count == old(self).replica_count,
    {
        self.read = level;
    }

    /// Sets the level for writes; nothing else changes.
    pub fn set_write_consistency(&mut self, level: Level)
        ensures
            final(self).write == level,
            final(self).read == old(self).read,
            final(self).replica_count == old(self).replica_count,
    {
        self.write = level;
    }
}

} // verus!
