//! Connection-pool routing: the association of live connections by host
//! address. Creation is lazy and idempotent per IP, and a newly created
//! connection has its STARTUP queued as its first outbound message; a
//! routed request lands in the connection of its target host. The reactor
//! loop that feeds this table from socket readiness is I/O and lives
//! outside the library.

use vstd::prelude::*;
use crate::connection::Connection;
use crate::connection::spec_max_id;
use crate::def::CqlPair;
use crate::def::CqlRequest;
use crate::def::CqlRequestBody;
use crate::def::CqlStringMap;
use crate::def::IpAddress;
use crate::def::OpcodeRequest;
use crate::error::RCError;
use crate::error::RCErrorType;
use crate::error::RCResult;
use crate::format::RequestBodyV;
use crate::format::RequestV;
use crate::format::request_view;

verus! {

/// Whether the pool holds a connection for this host.
pub open spec fn pool_has_ip(s: Seq<(IpAddress, Connection)>, ip: IpAddress) -> bool {
    exists|i: int| 0 <= i < s.len() && (#[trigger] s[i]).0 == ip
}

/// Well-formedness of the pool: one connection per host, each well-formed.
pub open spec fn pool_wf(s: Seq<(IpAddress, Connection)>) -> bool {
    &&& forall|i: int, j: int| 0 <= i < j < s.len() ==> (#[trigger] s[i]).0 != (#[trigger] s[j]).0
    &&& forall|i: int| 0 <= i < s.len() ==> (#[trigger] s[i]).1.wf()
}

/// The STARTUP request a fresh connection opens with.
fn startup_request(version: u8) -> (r: CqlRequest)
    ensures
        request_view(r) == (RequestV {
            version,
            flags: 0,
            stream: 1,
            opcode: OpcodeRequest::OpcodeStartup,
            body: RequestBodyV::RStartup(seq![("CQL_VERSION"@, "3.0.0"@)]),
        }),
{
    let mut pairs: Vec<CqlPair> = Vec::new();
    pairs.push(CqlPair { key: "CQL_VERSION".to_owned(), value: "3.0.0".to_owned() });
    proof {
        assert(pairs@.map_values(|p: CqlPair| (p.key@, p.value@)) =~= seq![
            ("CQL_VERSION"@, "3.0.0"@),
        ]);
    }
    CqlRequest {
        version,
        flags: 0,
        stream: 1,
        opcode: OpcodeRequest::OpcodeStartup,
        body: CqlRequestBody::RequestStartup(CqlStringMap { pairs }),
    }
}

/// Build the connection a new host gets: fresh at the given version, with
/// STARTUP queued as its first (and only) outbound message on stream 1.
pub fn create_connection(version: u8) -> (r: Connection)
    requires
        1 <= version <= 3,
    ensures
        r.wf(),
        r.version == version,
        r.pendings_complete@.len() == 0,
        r.response@.len() == 0,
        r.pendings_send@.len() == 1,
        r.pendings_send@[0].stream == 1,
        request_view(r.pendings_send@[0]) == (RequestV {
            version,
            flags: 0,
            stream: 1,
            opcode: OpcodeRequest::OpcodeStartup,
            body: RequestBodyV::RStartup(seq![("CQL_VERSION"@, "3.0.0"@)]),
        }),
{
    let mut conn = Connection::new(version);
    let startup = startup_request(version);
    let ghost conn0 = conn;
    let res = conn.insert_request(startup);
    proof {
        if res is Err {
            // unreachable: a fresh connection has every stream id free
            assert(conn0.has_id(1));
            assert(!conn0.has_id(1));
            assert(false);
        }
    }
    conn
}

/// The per-host table of live connections.
pub struct ConnectionPool {
    pub connections: Vec<(IpAddress, Connection)>,
}

impl ConnectionPool {
    /// Well-formedness of the pool.
    pub open spec fn wf(self) -> bool {
        pool_wf(self.connections@)
    }

    /// An empty pool.
    pub fn new() -> (r: ConnectionPool)
        ensures
            r.wf(),
            r.connections@.len() == 0,
    {
        ConnectionPool { connections: Vec::new() }
    }

    /// Whether a connection for this host exists.
    pub fn exists_connection_by_ip(&self, address: &IpAddress) -> (r: bool)
        ensures
            r == pool_has_ip(self.connections@, *address),
    {
        let n = self.connections.len();
        let mut i: usize = 0;
        while i < n
            invariant
                i <= n,
                n == self.connections@.len(),
                forall|j: int| 0 <= j < i ==> (#[trigger] self.connections@[j]).0 != *address,
            decreases n - i,
        {
            if self.connections[i].0 == *address {
                return true;
            }
            i = i + 1;
        }
        false
    }

    /// The connection recorded for this host, if one is there.
    pub fn find_connection_by_ip(&self, address: &IpAddress) -> (r: Option<&Connection>)
        ensures
            (match r {
                Some(c) => exists|i: int|
                    0 <= i < self.connections@.len() && #[trigger] self.connections@[i] == (
                        *address,
                        *c,
                    ),
                None => !pool_has_ip(self.connections@, *address),
            }),
    {
        let n = self.connections.len();
        let mut i: usize = 0;
        while i < n
            invariant
                i <= n,
                n == self.connections@.len(),
                forall|j: int| 0 <= j < i ==> (#[trigger] self.connections@[j]).0 != *address,
            decreases n - i,
        {
            if self.connections[i].0 == *address {
                proof {
                    assert(self.connections@[i as int].0 == *address);
                }
                return Some(&self.connections[i].1);
            }
            i = i + 1;
        }
        None
    }

    /// Record a connection for a host the pool does not know yet.
    pub fn add_connection(&mut self, address: IpAddress, conn: Connection)
        requires
            old(self).wf(),
            conn.wf(),
            !pool_has_ip(old(self).connections@, address),
        ensures
            final(self).wf(),
            final(self).connections@ == old(self).connections@.push((address, conn)),
    {
        self.connections.push((address, conn));
        proof {
            assert forall|i: int, j: int|
                0 <= i < j < self.connections@.len() implies (
            #[trigger] self.connections@[i]).0 != (#[trigger] self.connections@[j]).0 by {
                if j < old(self).connections@.len() {
                    assert(self.connections@[i] == old(self).connections@[i]);
                    assert(self.connections@[j] == old(self).connections@[j]);
                } else {
                    assert(self.connections@[i] == old(self).connections@[i]);
                    assert(!pool_has_ip(old(self).connections@, address));
                }
            }
            assert forall|i: int| 0 <= i < self.connections@.len() implies (
            #[trigger] self.connections@[i]).1.wf() by {
                if i < old(self).connections@.len() {
                    assert(self.connections@[i] == old(self).connections@[i]);
                }
            }
        }
    }

    /// Take the connection of this host out of the pool, to work on it.
    fn take_connection(&mut self, address: &IpAddress) -> (r: Option<Connection>)
        requires
            old(self).wf(),
        ensures
            final(self).wf(),
            (match r {
                Some(c) => exists|i: int|
                    {
                        &&& 0 <= i < old(self).connections@.len()
                        &&& #[trigger] old(self).connections@[i] == (*address, c)
                        &&& final(self).connections@ == old(self).connections@.remove(i)
                    },
                None => !pool_has_ip(old(self).connections@, *address) && final(self).connections@ == old(self).connections@,
            }),
            !pool_has_ip(final(self).connections@, *address),
    {
        let n = self.connections.len();
        let mut i: usize = 0;
        while i < n
            invariant
                i <= n,
                n == self.connections@.len(),
                *self == *old(self),
                old(self).wf(),
                forall|j: int| 0 <= j < i ==> (#[trigger] self.connections@[j]).0 != *address,
            decreases n - i,
        {
            if self.connections[i].0 == *address {
                let (_, conn) = self.connections.remove(i);
                proof {
                    assert(old(self).connections@[i as int] == (*address, conn));
                    assert forall|a: int, b: int|
                        0 <= a < b < self.connections@.len() implies (
                    #[trigger] self.connections@[a]).0 != (#[trigger] self.connections@[b]).0 by {
                        let oa = if a < i { a } else { a + 1 };
                        let ob = if b < i { b } else { b + 1 };
                        assert(self.connections@[a] == old(self).connections@[oa]);
                        assert(self.connections@[b] == old(self).connections@[ob]);
                    }
                    assert forall|a: int| 0 <= a < self.connections@.len() implies (
                    #[trigger] self.connections@[a]).1.wf() by {
                        let oa = if a < i { a } else { a + 1 };
                        assert(self.connections@[a] == old(self).connections@[oa]);
                    }
                    assert forall|a: int| 0 <= a < self.connections@.len() implies (
                    #[trigger] self.connections@[a]).0 != *address by {
                        let oa = if a < i { a } else { a + 1 };
                        assert(self.connections@[a] == old(self).connections@[oa]);
                        if oa != i {
                            assert(old(self).connections@[i as int].0 == *address);
                        }
                    }
                }
                return Some(conn);
            }
            i = i + 1;
        }
        None
    }

    /// Route a request to the connection of its target host, creating that
    /// connection (with STARTUP queued first) when the host is new. The
    /// returned id is the stream the request was queued under; the call
    /// fails exactly when the host's connection speaks another version or
    /// has every stream id in flight, and the pool keeps its entries
    /// either way.
    pub fn route_request(&mut self, address: IpAddress, version: u8, msg: CqlRequest) -> (r:
        RCResult<i16>)
        requires
            old(self).wf(),
            1 <= version <= 3,
            msg.version == version,
        ensures
            final(self).wf(),
            pool_has_ip(final(self).connections@, address),
            pool_has_ip(old(self).connections@, address) ==> final(self).connections@.len() == old(
                self,
            ).connections@.len(),
            !pool_has_ip(old(self).connections@, address) ==> final(self).connections@.len() == old(
                self,
            ).connections@.len() + 1,
            forall|i: int|
                0 <= i < old(self).connections@.len() && (#[trigger] old(
                    self,
                ).connections@[i]).0 != address ==> exists|j: int|
                    0 <= j < final(self).connections@.len() && final(self).connections@[j] == old(
                        self,
                    ).connections@[i],
            final(self).connections@.len() > 0 && final(self).connections@.last().0 == address,
            (match r {
                Ok(id) => ({
                    let c2 = final(self).connections@.last().1;
                    &&& 1 <= id <= spec_max_id(version)
                    &&& c2.version == version
                    &&& c2.pendings_send@.len() > 0
                    &&& c2.pendings_send@.last() == (CqlRequest { stream: id, ..msg })
                    &&& (!pool_has_ip(old(self).connections@, address)
                        ==> c2.pendings_send@.len() == 2 && request_view(c2.pendings_send@[0])
                        == (RequestV {
                        version,
                        flags: 0,
                        stream: 1,
                        opcode: OpcodeRequest::OpcodeStartup,
                        body: RequestBodyV::RStartup(seq![("CQL_VERSION"@, "3.0.0"@)]),
                    }))
                    &&& (pool_has_ip(old(self).connections@, address) ==> exists|i: int|
                        {
                            &&& 0 <= i < old(self).connections@.len()
                            &&& #[trigger] old(self).connections@[i].0 == address
                            &&& !old(self).connections@[i].1.has_id(id)
                            &&& c2.pendings_send@ == old(
                                self,
                            ).connections@[i].1.pendings_send@.push(
                                CqlRequest { stream: id, ..msg },
                            )
                            &&& c2.pendings_complete@ == old(
                                self,
                            ).connections@[i].1.pendings_complete@
                            &&& c2.response@ == old(self).connections@[i].1.response@
                        })
                }),
                Err(e) => exists|j: int|
                    {
                        &&& 0 <= j < final(self).connections@.len()
                        &&& (#[trigger] final(self).connections@[j]).0 == address
                        &&& (final(self).connections@[j].1.version != version || (forall|id: i16|
                            1 <= id <= spec_max_id(version) ==> final(self).connections@[j].1.has_id(id)))
                    },
            }),
    {
        let ghost old_table = self.connections@;
        match self.take_connection(&address) {
            Some(conn) => {
                let ghost i = choose|i: int|
                    0 <= i < old_table.len() && #[trigger] old_table[i] == (address, conn)
                        && self.connections@ == old_table.remove(i);
                let mut conn = conn;
                let ghost conn_in = conn;
                if conn.version != version {
                    let ghost before = self.connections@;
                    self.connections.push((address, conn));
                    proof {
                        lemma_pool_push(before, self.connections@, address, conn_in);
                        lemma_route_preserved(old_table, before, self.connections@, address, i);
                        assert(self.connections@.last().0 == address);
                    }
                    return Err(
                        RCError::new(
                            "The host's connection speaks another version",
                            RCErrorType::ConnectionError,
                        ),
                    );
                }
                let res = conn.insert_request(msg);
                let ghost before = self.connections@;
                let ghost conn_after = conn;
                self.connections.push((address, conn));
                proof {
                    lemma_pool_push(before, self.connections@, address, conn_after);
                    lemma_route_preserved(old_table, before, self.connections@, address, i);
                    assert(self.connections@.last() == (address, conn_after));
                    if res is Ok {
                        assert(old_table[i].0 == address && !old_table[i].1.has_id(res->Ok_0)
                            && conn_after.pendings_send@ == old_table[i].1.pendings_send@.push(
                            CqlRequest { stream: res->Ok_0, ..msg },
                        ));
                    } else {
                        // the failed enqueue left the queues untouched, so
                        // the routed connection still has every id in flight
                        let j = self.connections@.len() - 1;
                        assert(self.connections@[j] == (address, conn_after));
                        assert forall|id2: i16|
                            1 <= id2 <= spec_max_id(version) implies self.connections@[
                        j].1.has_id(id2) by {
                            assert(conn_in.has_id(id2));
                            assert(conn_after.pendings_send@ == conn_in.pendings_send@);
                            assert(conn_after.pendings_complete@ == conn_in.pendings_complete@);
                        }
                    }
                }
                res
            },
            None => {
                let mut conn = create_connection(version);
                let ghost conn0 = conn;
                let res = conn.insert_request(msg);
                proof {
                    if res is Err {
                        // a fresh connection holds only the STARTUP id, so
                        // the id space cannot be exhausted
                        assert(spec_max_id(version) >= 2);
                        assert(conn0.has_id(2));
                        assert(!conn0.has_id(2)) by {
                            if conn0.has_id(2) {
                                assert(conn0.pendings_send@[0].stream == 1);
                            }
                        }
                        assert(false);
                    }
                }
                let ghost before = self.connections@;
                let ghost conn_after = conn;
                self.connections.push((address, conn));
                proof {
                    lemma_pool_push(before, self.connections@, address, conn_after);
                    assert(self.connections@.last() == (address, conn_after));
                    assert(conn_after.pendings_send@.len() == 2);
                    assert(request_view(conn_after.pendings_send@[0]) == (RequestV {
                        version,
                        flags: 0,
                        stream: 1,
                        opcode: OpcodeRequest::OpcodeStartup,
                        body: RequestBodyV::RStartup(seq![("CQL_VERSION"@, "3.0.0"@)]),
                    })) by {
                        assert(conn_after.pendings_send@[0] == conn0.pendings_send@[0]);
                    }
                }
                res
            },
        }
    }
}

/// Entries for other hosts survive a take-and-push of the routed host.
proof fn lemma_route_preserved(
    old_table: Seq<(IpAddress, Connection)>,
    mid: Seq<(IpAddress, Connection)>,
    after: Seq<(IpAddress, Connection)>,
    address: IpAddress,
    i: int,
)
    requires
        0 <= i < old_table.len(),
        old_table[i].0 == address,
        mid == old_table.remove(i),
        mid.len() < after.len(),
        forall|a: int| 0 <= a < mid.len() ==> #[trigger] after[a] == #[trigger] mid[a],
    ensures
        forall|oi: int|
            0 <= oi < old_table.len() && (#[trigger] old_table[oi]).0 != address ==> exists|j: int|
                0 <= j < after.len() && #[trigger] after[j] == old_table[oi],
{
    assert forall|oi: int|
        0 <= oi < old_table.len() && (#[trigger] old_table[oi]).0 != address implies exists|j: int|
        0 <= j < after.len() && #[trigger] after[j] == old_table[oi] by {
        let j = if oi < i {
            oi
        } else {
            oi - 1
        };
        assert(mid[j] == old_table[oi]);
        assert(after[j] == old_table[oi]);
    }
}

/// Pushing an entry whose key the table lacks keeps the pool well-formed/// Pushing an entry whose key the table lacks keeps the pool well-formed
/// and every earlier entry in place.
proof fn lemma_pool_push(
    before: Seq<(IpAddress, Connection)>,
    after: Seq<(IpAddress, Connection)>,
    address: IpAddress,
    conn: Connection,
)
    requires
        pool_wf(before),
        conn.wf(),
        !pool_has_ip(before, address),
        after == before.push((address, conn)),
    ensures
        pool_wf(after),
        pool_has_ip(after, address),
        after.len() == before.len() + 1,
        after.last() == (address, conn),
        forall|i: int|
            0 <= i < before.len() ==> exists|j: int|
                0 <= j < after.len() && #[trigger] after[j] == #[trigger] before[i],
{
    assert forall|i: int, j: int|
        0 <= i < j < after.len() implies (#[trigger] after[i]).0 != (#[trigger] after[j]).0 by {
        assert(after[i] == before[i]);
        if j < before.len() {
            assert(after[j] == before[j]);
        }
    }
    assert forall|i: int| 0 <= i < after.len() implies (#[trigger] after[i]).1.wf() by {
        if i < before.len() {
            assert(after[i] == before[i]);
        }
    }
    assert(after[after.len() - 1] == (address, conn));
    assert forall|i: int| 0 <= i < before.len() implies exists|j: int|
        0 <= j < after.len() && #[trigger] after[j] == #[trigger] before[i] by {
        assert(after[i] == before[i]);
    }
}

} // verus!
