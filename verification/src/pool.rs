use vstd::prelude::*;

verus! {

/// Placeholder health state of an upstream replica.
#[derive(Debug, Clone, Copy, PartialEq, Eq, Structural)]
pub enum HealthState {
    Alive,
    Dead,
}

/// The wire protocol a pool speaks, fixed at upstream-registration time and
/// never mixed within one pool.
#[derive(Debug, Clone, Copy, PartialEq, Eq, Structural)]
pub enum Protocol {
    HTTP1,
    HTTP2,
}

/// One live transport handle, named by the key under which the unverified
/// I/O layer keeps the real HTTP/1 or HTTP/2 sender. A handle is exclusively
/// owned by at most one in-flight request at a time: it moves out of the
/// pool on borrow and back in (or is discarded) on release.
#[derive(Debug, Clone, Copy, PartialEq, Eq, Structural)]
pub enum PooledConnection {
    Http1(u64),
    Http2(u64),
}

impl PooledConnection {
    pub open spec fn spec_id(&self) -> u64 {
        match self {
            PooledConnection::Http1(id) => *id,
            PooledConnection::Http2(id) => *id,
        }
    }

    pub fn id(&self) -> (r: u64)
        ensures
            r == self.spec_id(),
    {
        match self {
            PooledConnection::Http1(id) => *id,
            PooledConnection::Http2(id) => *id,
        }
    }

    pub open spec fn spec_protocol(&self) -> Protocol {
        match self {
            PooledConnection::Http1(_) => Protocol::HTTP1,
            PooledConnection::Http2(_) => Protocol::HTTP2,
        }
    }
}

#[verifier::external_type_specification]
#[verifier::external_body]
#[verifier::reject_recursive_types(T)]
pub struct ExSegQueue<T>(crossbeam::queue::SegQueue<T>);

/// The handle keys the idle queue holds, oldest first.
pub uninterp spec fn idle_ids(q: crossbeam::queue::SegQueue<u64>) -> Seq<u64>;

/// Relies on crossbeam's SegQueue::new: the new queue is empty.
#[verifier::external_body]
fn idle_new() -> (q: crossbeam::queue::SegQueue<u64>)
    ensures
        idle_ids(q) == Seq::<u64>::empty(),
{
    crossbeam::queue::SegQueue::new()
}

/// Relies on crossbeam's SegQueue::push: appends the element at the tail.
#[verifier::external_body]
fn idle_push(q: &mut crossbeam::queue::SegQueue<u64>, id: u64)
    ensures
        idle_ids(*final(q)) == idle_ids(*old(q)).push(id),
{
    q.push(id);
}

/// Relies on crossbeam's SegQueue::pop: removes and returns the element at
/// the head, or `None` exactly when the queue is empty.
#[verifier::external_body]
fn idle_pop(q: &mut crossbeam::queue::SegQueue<u64>) -> (r: Option<u64>)
    ensures
        match r {
            Some(id) => idle_ids(*old(q)).len() > 0 && id == idle_ids(*old(q))[0] && idle_ids(
                *final(q),
            ) == idle_ids(*old(q)).subrange(1, idle_ids(*old(q)).len() as int),
            None => idle_ids(*old(q)).len() == 0 && idle_ids(*final(q)) == idle_ids(*old(q)),
        },
{
    q.pop()
}

/// The mathematical state of a connection pool: its capacity, the count of
/// connections currently out of the pool serving requests, and the idle
/// handle keys, oldest first.
pub struct PoolModel {
    pub max_connections: nat,
    pub total_connections: nat,
    pub idle: Seq<u64>,
}

impl PoolModel {
    /// Outstanding plus idle connections never exceed the capacity.
    pub open spec fn wf(&self) -> bool {
        self.idle.len() + self.total_connections <= self.max_connections
    }
}

/// What `borrow` decided: hand out an idle handle, ask the caller to open a
/// fresh connection (there is room), or refuse because the pool is at
/// capacity.
#[derive(Debug, Clone, Copy, PartialEq, Eq, Structural)]
pub enum BorrowOutcome {
    Reused(u64),
    MustOpen,
    Overloaded,
}

/// The borrow transition: pop the oldest idle handle if any; otherwise admit
/// a fresh connection only below capacity.
pub open spec fn spec_borrow(m: PoolModel) -> (BorrowOutcome, PoolModel) {
    if m.idle.len() > 0 {
        (
            BorrowOutcome::Reused(m.idle[0]),
            PoolModel {
                total_connections: m.total_connections + 1,
                idle: m.idle.subrange(1, m.idle.len() as int),
                ..m
            },
        )
    } else if m.total_connections >= m.max_connections {
        (BorrowOutcome::Overloaded, m)
    } else {
        (BorrowOutcome::MustOpen, m)
    }
}

/// The release transition: the outstanding count drops by one, exactly once,
/// and a reusable handle rejoins the idle queue while a dead one is
/// discarded with no further decrement.
pub open spec fn spec_release(m: PoolModel, id: u64, reusable: bool) -> PoolModel {
    PoolModel {
        total_connections: (m.total_connections - 1) as nat,
        idle: if reusable {
            m.idle.push(id)
        } else {
            m.idle
        },
        ..m
    }
}

/// Law (pool admission): with the idle queue empty and the outstanding count
/// at capacity, a borrow reports `Overloaded` and leaves the pool unchanged.
pub proof fn lemma_pool_admission(m: PoolModel)
    requires
        m.idle.len() == 0,
        m.total_connections >= m.max_connections,
    ensures
        spec_borrow(m).0 is Overloaded,
        spec_borrow(m).1 == m,
{
}

/// Law (borrow/release round trip, reusable half): a handle released
/// reusable into an otherwise idle-empty pool is exactly what the next
/// borrow returns, and the outstanding count returns to its prior value.
pub proof fn lemma_release_then_borrow_reuses(m: PoolModel, id: u64)
    requires
        m.idle.len() == 0,
        m.total_connections >= 1,
    ensures
        ({
            let released = spec_release(m, id, true);
            let (outcome, after) = spec_borrow(released);
            &&& outcome == BorrowOutcome::Reused(id)
            &&& after.total_connections == m.total_connections
            &&& after.idle.len() == 0
        }),
{
    let released = spec_release(m, id, true);
    assert(released.idle.len() == 1);
    assert(released.idle[0] == id);
}

/// Law (borrow/release round trip, discard half): after a handle is
/// released non-reusable into an otherwise idle-empty pool, the next borrow
/// cannot reuse anything and must open a fresh connection.
pub proof fn lemma_release_discard_then_borrow_opens(m: PoolModel, id: u64)
    requires
        m.idle.len() == 0,
        1 <= m.total_connections <= m.max_connections,
    ensures
        spec_borrow(spec_release(m, id, false)).0 is MustOpen,
{
}

/// A bounded, protocol-aware store of reusable outbound connections for one
/// upstream. The idle queue is crossbeam's lock-free `SegQueue`; the
/// verified state machine above governs every transition.
pub struct ConnectionPool {
    pub server_addr: String,
    pub protocol: Protocol,
    pub max_connections: usize,
    pub total_connections: usize,
    pub idle_connections: crossbeam::queue::SegQueue<u64>,
}

impl View for ConnectionPool {
    type V = PoolModel;

    open spec fn view(&self) -> PoolModel {
        PoolModel {
            max_connections: self.max_connections as nat,
            total_connections: self.total_connections as nat,
            idle: idle_ids(self.idle_connections),
        }
    }
}

impl ConnectionPool {
    pub open spec fn wf(&self) -> bool {
        self@.wf()
    }

    /// A fresh, empty pool for one upstream address and protocol.
    pub fn new(server_addr: String, max_connections: usize, protocol: Protocol) -> (p: Self)
        ensures
            p.wf(),
            p.server_addr == server_addr,
            p.protocol == protocol,
            p@.max_connections == max_connections,
            p@.total_connections == 0,
            p@.idle.len() == 0,
    {
        ConnectionPool {
            server_addr,
            protocol,
            max_connections,
            total_connections: 0,
            idle_connections: idle_new(),
        }
    }

    /// Borrow a connection: reuse the oldest idle handle when one exists,
    /// otherwise admit a fresh one only below capacity, otherwise refuse.
    pub fn try_borrow(&mut self) -> (r: BorrowOutcome)
        requires
            old(self).wf(),
        ensures
            final(self).wf(),
            final(self).server_addr == old(self).server_addr,
            final(self).protocol == old(self).protocol,
            (r, final(self)@) == spec_borrow(old(self)@),
    {
        match idle_pop(&mut self.idle_connections) {
            Some(id) => {
                self.total_connections = self.total_connections + 1;
                BorrowOutcome::Reused(id)
            },
            None => {
                if self.total_connections >= self.max_connections {
                    BorrowOutcome::Overloaded
                } else {
                    BorrowOutcome::MustOpen
                }
            },
        }
    }

    /// Record a freshly opened connection, admitted earlier by `try_borrow`
    /// returning `MustOpen`.
    pub fn register_opened(&mut self)
        requires
            old(self).wf(),
            old(self)@.idle.len() + old(self)@.total_connections < old(self)@.max_connections,
        ensures
            final(self).wf(),
            final(self).server_addr == old(self).server_addr,
            final(self).protocol == old(self).protocol,
            final(self)@ == (PoolModel {
                total_connections: old(self)@.total_connections + 1,
                ..old(self)@
            }),
    {
        self.total_connections = self.total_connections + 1;
    }

    /// Release a borrowed connection exactly once: the outstanding count
    /// drops by one, and only a reusable handle rejoins the idle queue.
    pub fn release(&mut self, conn: PooledConnection, reusable: bool)
        requires
            old(self).wf(),
            old(self)@.total_connections >= 1,
        ensures
            final(self).wf(),
            final(self).server_addr == old(self).server_addr,
            final(self).protocol == old(self).protocol,
            final(self)@ == spec_release(old(self)@, conn.spec_id(), reusable),
    {
        self.total_connections = self.total_connections - 1;
        if reusable {
            idle_push(&mut self.idle_connections, conn.id());
        }
    }

    /// Wrap a handle key in the connection variant this pool speaks.
    pub fn make_connection(&self, id: u64) -> (c: PooledConnection)
        ensures
            c.spec_id() == id,
            c.spec_protocol() == self.protocol,
    {
        match self.protocol {
            Protocol::HTTP1 => PooledConnection::Http1(id),
            Protocol::HTTP2 => PooledConnection::Http2(id),
        }
    }
}

} // verus!
