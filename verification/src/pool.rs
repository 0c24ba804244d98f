//! The bookkeeping of the bounded connection pool.
//!
//! The pool itself, with its connections and the workers that wait for one,
//! lives outside this library. What is decided here is who gets what: a
//! worker that asks for a connection takes an idle one, or may open a new
//! one while the pool is below its size, or has to wait; a connection that
//! comes back is idle again. The counts never exceed the size of the pool.

use vstd::prelude::*;

verus! {

/// The counts of a pool.
#[derive(Debug)]
pub struct Pool {
    capacity: usize,
    idle: usize,
    leased: usize,
}

/// The mathematical content of a pool.
pub struct PoolView {
    /// How many connections the pool may hold at most.
    pub capacity: nat,
    /// How many connections wait in the pool.
    pub idle: nat,
    /// How many connections are with a worker.
    pub leased: nat,
}

/// What a worker that asks for a connection is told.
#[derive(Debug, Clone, Copy, PartialEq, Eq, Structural)]
pub enum Grant {
    /// Take an idle connection.
    Reuse,
    /// Open a new connection; if that fails, release with nothing to reuse.
    Open,
    /// Every connection is with a worker: wait for a release and ask again.
    Wait,
    /// The pool can never hold a connection: acquisition fails.
    Refused,
}

impl View for Pool {
    type V = PoolView;

    closed spec fn view(&self) -> PoolView {
        PoolView {
            capacity: self.capacity as nat,
            idle: self.idle as nat,
            leased: self.leased as nat,
        }
    }
}

impl PoolView {
    /// What a worker that asks now is told.
    pub open spec fn grant(self) -> Grant {
        if self.capacity == 0 {
            Grant::Refused
        } else if self.idle > 0 {
            Grant::Reuse
        } else if self.leased < self.capacity {
            Grant::Open
        } else {
            Grant::Wait
        }
    }

    /// The pool after a worker has asked: a granted connection is with the
    /// worker, and was idle before if it is reused.
    pub open spec fn acquired(self) -> PoolView {
        match self.grant() {
            Grant::Reuse => PoolView {
                capacity: self.capacity,
                idle: (self.idle - 1) as nat,
                leased: self.leased + 1,
            },
            Grant::Open => PoolView {
                capacity: self.capacity,
                idle: self.idle,
                leased: self.leased + 1,
            },
            Grant::Wait | Grant::Refused => self,
        }
    }

    /// The pool after a worker has handed its connection back, to be used
    /// again or not. Without a connection out, nothing changes.
    pub open spec fn released(self, reusable: bool) -> PoolView {
        if self.leased == 0 {
            self
        } else {
            PoolView {
                capacity: self.capacity,
                idle: if reusable {
                    self.idle + 1
                } else {
                    self.idle
                },
                leased: (self.leased - 1) as nat,
            }
        }
    }

    /// Whether the counts stay within the size of the pool.
    pub open spec fn bounded(self) -> bool {
        self.idle + self.leased <= self.capacity
    }
}

impl Pool {
    #[verifier::type_invariant]
    spec fn within_capacity(self) -> bool {
        self.idle + self.leased <= self.capacity
    }

    /// An empty pool of this size.
    pub fn new(capacity: usize) -> (pool: Pool)
        ensures
            pool@ == (PoolView { capacity: capacity as nat, idle: 0, leased: 0 }),
    {
        Pool { capacity, idle: 0, leased: 0 }
    }

    /// How many connections the pool may hold at most.
    pub fn capacity(&self) -> (n: usize)
        ensures
            n == self@.capacity,
    {
        self.capacity
    }

    /// How many connections wait in the pool.
    pub fn idle(&self) -> (n: usize)
        ensures
            n == self@.idle,
            self@.bounded(),
    {
        proof {
            use_type_invariant(self);
        }
        self.idle
    }

    /// How many connections are with a worker.
    pub fn leased(&self) -> (n: usize)
        ensures
            n == self@.leased,
            self@.bounded(),
    {
        proof {
            use_type_invariant(self);
        }
        self.leased
    }

    /// Answers a worker that asks for a connection, and counts the
    /// connection as leased when one is granted.
    pub fn acquire(&mut self) -> (grant: Grant)
        ensures
            grant == old(self)@.grant(),
            final(self)@ == old(self)@.acquired(),
            final(self)@.bounded(),
    {
        proof {
            use_type_invariant(&*self);
        }
        if self.capacity == 0 {
            Grant::Refused
        } else if self.idle > 0 {
            self.idle = self.idle - 1;
            self.leased = self.leased + 1;
            Grant::Reuse
        } else if self.leased < self.capacity {
            self.leased = self.leased + 1;
            Grant::Open
        } else {
            Grant::Wait
        }
    }

    /// Takes back the connection of a worker. `reusable` says whether there
    /// is a connection to keep: it is not after a failed attempt to open
    /// one, or when the connection broke. Returns whether a connection was
    /// out at all.
    pub fn release(&mut self, reusable: bool) -> (released: bool)
        ensures
            released == (old(self)@.leased > 0),
            final(self)@ == old(self)@.released(reusable),
            final(self)@.bounded(),
    {
        proof {
            use_type_invariant(&*self);
        }
        if self.leased == 0 {
            return false;
        }
        self.leased = self.leased - 1;
        if reusable {
            self.idle = self.idle + 1;
        }
        true
    }
}

/// Scoped acquisition. A connection that was granted and is handed back
/// for reuse leaves as many connections with the workers as before, and one
/// idle connection for the next worker, who is then told to reuse it.
pub proof fn law_release_undoes_acquire(pool: PoolView)
    requires
        pool.bounded(),
        pool.grant() == Grant::Reuse || pool.grant() == Grant::Open,
    ensures
        pool.acquired().bounded(),
        pool.acquired().released(true).bounded(),
        pool.acquired().released(true).leased == pool.leased,
        pool.acquired().released(true).idle >= 1,
        pool.acquired().released(true).grant() == Grant::Reuse,
        pool.grant() == Grant::Reuse ==> pool.acquired().released(true) == pool,
{
}

/// A bounded pool makes nobody wait while it has an idle connection or room
/// for a new one, and makes everybody wait exactly when all its connections
/// are with workers.
pub proof fn law_wait_only_when_exhausted(pool: PoolView)
    requires
        pool.bounded(),
        pool.capacity > 0,
    ensures
        pool.grant() == Grant::Wait <==> pool.leased == pool.capacity,
        pool.grant() != Grant::Refused,
{
}

} // verus!
