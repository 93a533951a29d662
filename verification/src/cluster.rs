//! Cluster state: the live and dead host tables, the event handler that
//! keeps them current from server-pushed events, and the cluster-level
//! operations that pick a host and build its requests. Threads, locks and
//! sockets live outside the library.

use vstd::prelude::*;
use crate::def::BatchType;
use crate::def::Consistency;
use crate::def::CqlEvent;
use crate::def::CqlRequest;
use crate::def::CqlResponse;
use crate::def::CqlResponseBody;
use crate::def::CqlValue;
use crate::def::IpAddress;
use crate::def::Query;
use crate::def::StatusChangeType;
use crate::def::TopologyChangeType;
use crate::error::RCError;
use crate::error::RCErrorType;
use crate::error::RCResult;
use crate::load_balancing::BalancerType;
use crate::load_balancing::LatencyAware;
use crate::load_balancing::RoundRobin;
use crate::node::Node;

verus! {

/// Whether the table holds an entry for this key.
pub open spec fn table_has_key(s: Seq<(IpAddress, Node)>, ip: IpAddress) -> bool {
    exists|i: int| 0 <= i < s.len() && (#[trigger] s[i]).0 == ip
}

/// `after` is `before` with `(ip, node)` inserted: the first entry keyed
/// `ip` replaced in place, or a new entry at the back. Either way every
/// other entry is unchanged.
pub open spec fn table_upserted(
    before: Seq<(IpAddress, Node)>,
    after: Seq<(IpAddress, Node)>,
    ip: IpAddress,
    node: Node,
) -> bool {
    if table_has_key(before, ip) {
        exists|i: int|
            {
                &&& 0 <= i < before.len()
                &&& (#[trigger] before[i]).0 == ip
                &&& (forall|j: int| 0 <= j < i ==> (#[trigger] before[j]).0 != ip)
                &&& after == before.update(i, (ip, node))
            }
    } else {
        after == before.push((ip, node))
    }
}

/// `after` is `before` with the first entry keyed `ip` taken out, or
/// `before` itself when no such entry is there. Every other entry is
/// unchanged.
pub open spec fn table_removed(
    before: Seq<(IpAddress, Node)>,
    after: Seq<(IpAddress, Node)>,
    ip: IpAddress,
) -> bool {
    if table_has_key(before, ip) {
        exists|i: int|
            {
                &&& 0 <= i < before.len()
                &&& (#[trigger] before[i]).0 == ip
                &&& (forall|j: int| 0 <= j < i ==> (#[trigger] before[j]).0 != ip)
                &&& after == before.remove(i)
            }
    } else {
        after == before
    }
}

/// Insert or update `ip` in an association table: the first entry with
/// that key is replaced, or a new entry goes to the back.
fn table_upsert(table: &mut Vec<(IpAddress, Node)>, ip: IpAddress, node: Node)
    ensures
        table_has_key(final(table)@, ip),
        table_upserted(old(table)@, final(table)@, ip, node),
{
    let n = table.len();
    let mut i: usize = 0;
    while i < n
        invariant
            i <= n,
            n == table@.len(),
            *table == *old(table),
            forall|j: int| 0 <= j < i ==> (#[trigger] table@[j]).0 != ip,
        decreases n - i,
    {
        if table[i].0 == ip {
            table.set(i, (ip, node));
            proof {
                assert(old(table)@[i as int].0 == ip);
                assert(table@ == old(table)@.update(i as int, (ip, node)));
                assert(table@[i as int].0 == ip);
            }
            return ;
        }
        i = i + 1;
    }
    table.push((ip, node));
    proof {
        assert(table@[table@.len() - 1].0 == ip);
    }
}

/// Remove the entry for `ip` from an association table, if one is there.
/// Returns the removed node.
fn table_remove(table: &mut Vec<(IpAddress, Node)>, ip: IpAddress) -> (r: Option<Node>)
    ensures
        table_removed(old(table)@, final(table)@, ip),
        (match r {
            Some(_) => exists|i: int|
                {
                    &&& 0 <= i < old(table)@.len()
                    &&& (#[trigger] old(table)@[i]).0 == ip
                    &&& (forall|j: int| 0 <= j < i ==> (#[trigger] old(table)@[j]).0 != ip)
                    &&& final(table)@ == old(table)@.remove(i)
                    &&& r == Some(old(table)@[i].1)
                },
            None => !table_has_key(old(table)@, ip) && final(table)@ == old(table)@,
        }),
{
    let n = table.len();
    let mut i: usize = 0;
    while i < n
        invariant
            i <= n,
            n == table@.len(),
            *table == *old(table),
            forall|j: int| 0 <= j < i ==> (#[trigger] table@[j]).0 != ip,
        decreases n - i,
    {
        if table[i].0 == ip {
            let (_, node) = table.remove(i);
            proof {
                assert(old(table)@[i as int].0 == ip);
            }
            return Some(node);
        }
        i = i + 1;
    }
    None
}

/// Look up the node recorded for `ip`.
fn table_find(table: &Vec<(IpAddress, Node)>, ip: IpAddress) -> (r: Option<Node>)
    ensures
        (match r {
            Some(node) => exists|i: int|
                0 <= i < table@.len() && #[trigger] table@[i] == (ip, node),
            None => !table_has_key(table@, ip),
        }),
{
    let n = table.len();
    let mut i: usize = 0;
    while i < n
        invariant
            i <= n,
            n == table@.len(),
            forall|j: int| 0 <= j < i ==> (#[trigger] table@[j]).0 != ip,
        decreases n - i,
    {
        if table[i].0 == ip {
            let node = Node {
                address: table[i].1.address,
                version: table[i].1.version,
                latency: table[i].1.latency,
            };
            proof {
                assert(table@[i as int] == (ip, node));
            }
            return Some(node);
        }
        i = i + 1;
    }
    None
}

/// A well-formed answer to the peers-discovery query: a rows result with
/// at least one row, the first column of every row a non-NULL inet value.
pub open spec fn peers_response_wf(response: CqlResponse) -> bool {
    match response.body {
        CqlResponseBody::ResultRows(rows) => rows.rows@.len() > 0 && (forall|i: int|
            0 <= i < rows.rows@.len() ==> (#[trigger] rows.rows@[i]).cols@.len() > 0 && (
            rows.rows@[i].cols@[0] matches CqlValue::CqlInet(Some(_)))),
        _ => false,
    }
}

/// Consumer of server-pushed events: keeps the live and dead host tables
/// of the cluster current.
pub struct EventHandler {
    pub available_nodes: Vec<(IpAddress, Node)>,
    pub unavailable_nodes: Vec<(IpAddress, Node)>,
}

impl EventHandler {
    /// Empty host tables.
    pub fn new() -> (r: EventHandler)
        ensures
            r.available_nodes@.len() == 0,
            r.unavailable_nodes@.len() == 0,
    {
        EventHandler { available_nodes: Vec::new(), unavailable_nodes: Vec::new() }
    }

    /// Apply one event to the host tables.
    ///
    /// A new or moved node is inserted into the available table; a removed
    /// node leaves it. UP moves a host from unavailable to available, DOWN
    /// the other way; the absence of the expected entry is a no-op, not an
    /// error. Schema changes and unknown events change nothing.
    pub fn notify(&mut self, msg: CqlEvent)
        ensures
            (match msg {
                CqlEvent::TopologyChange(t, addr) => match t {
                    TopologyChangeType::NewNode => {
                        &&& table_upserted(
                            old(self).available_nodes@,
                            final(self).available_nodes@,
                            addr.ip,
                            (Node {
                                address: addr,
                                version: crate::CQL_MAX_SUPPORTED_VERSION,
                                latency: crate::node::UNPROBED_LATENCY,
                            }),
                        )
                        &&& final(self).unavailable_nodes@ == old(self).unavailable_nodes@
                    },
                    TopologyChangeType::MovedNode => {
                        &&& table_upserted(
                            old(self).available_nodes@,
                            final(self).available_nodes@,
                            addr.ip,
                            (Node {
                                address: addr,
                                version: crate::CQL_MAX_SUPPORTED_VERSION,
                                latency: crate::node::UNPROBED_LATENCY,
                            }),
                        )
                        &&& final(self).unavailable_nodes@ == old(self).unavailable_nodes@
                    },
                    TopologyChangeType::RemovedNode => {
                        &&& table_removed(
                            old(self).available_nodes@,
                            final(self).available_nodes@,
                            addr.ip,
                        )
                        &&& final(self).unavailable_nodes@ == old(self).unavailable_nodes@
                    },
                    TopologyChangeType::UnknownChange => final(self).available_nodes@ == old(
                        self,
                    ).available_nodes@ && final(self).unavailable_nodes@ == old(
                        self,
                    ).unavailable_nodes@,
                },
                CqlEvent::StatusChange(t, addr) => match t {
                    StatusChangeType::Up => if table_has_key(
                        old(self).unavailable_nodes@,
                        addr.ip,
                    ) {
                        exists|i: int|
                            {
                                &&& 0 <= i < old(self).unavailable_nodes@.len()
                                &&& (#[trigger] old(self).unavailable_nodes@[i]).0 == addr.ip
                                &&& (forall|j: int|
                                    0 <= j < i ==> (#[trigger] old(
                                        self,
                                    ).unavailable_nodes@[j]).0 != addr.ip)
                                &&& final(self).unavailable_nodes@ == old(
                                    self,
                                ).unavailable_nodes@.remove(i)
                                &&& table_upserted(
                                    old(self).available_nodes@,
                                    final(self).available_nodes@,
                                    addr.ip,
                                    old(self).unavailable_nodes@[i].1,
                                )
                            }
                    } else {
                        final(self).available_nodes@ == old(self).available_nodes@ && final(self).unavailable_nodes@ == old(self).unavailable_nodes@
                    },
                    StatusChangeType::Down => if table_has_key(
                        old(self).available_nodes@,
                        addr.ip,
                    ) {
                        exists|i: int|
                            {
                                &&& 0 <= i < old(self).available_nodes@.len()
                                &&& (#[trigger] old(self).available_nodes@[i]).0 == addr.ip
                                &&& (forall|j: int|
                                    0 <= j < i ==> (#[trigger] old(self).available_nodes@[j]).0
                                        != addr.ip)
                                &&& final(self).available_nodes@ == old(
                                    self,
                                ).available_nodes@.remove(i)
                                &&& table_upserted(
                                    old(self).unavailable_nodes@,
                                    final(self).unavailable_nodes@,
                                    addr.ip,
                                    old(self).available_nodes@[i].1,
                                )
                            }
                    } else {
                        final(self).available_nodes@ == old(self).available_nodes@ && final(self).unavailable_nodes@ == old(self).unavailable_nodes@
                    },
                    StatusChangeType::UnknownStatus => final(self).available_nodes@ == old(
                        self,
                    ).available_nodes@ && final(self).unavailable_nodes@ == old(
                        self,
                    ).unavailable_nodes@,
                },
                CqlEvent::SchemaChange(_, _) => final(self).available_nodes@ == old(
                    self,
                ).available_nodes@ && final(self).unavailable_nodes@ == old(
                    self,
                ).unavailable_nodes@,
                CqlEvent::UnknownEvent => final(self).available_nodes@ == old(
                    self,
                ).available_nodes@ && final(self).unavailable_nodes@ == old(
                    self,
                ).unavailable_nodes@,
            }),
    {
        match msg {
            CqlEvent::TopologyChange(t, addr) => match t {
                TopologyChangeType::NewNode => {
                    table_upsert(&mut self.available_nodes, addr.ip, Node::new(addr));
                },
                TopologyChangeType::MovedNode => {
                    table_upsert(&mut self.available_nodes, addr.ip, Node::new(addr));
                },
                TopologyChangeType::RemovedNode => {
                    let _ = table_remove(&mut self.available_nodes, addr.ip);
                },
                TopologyChangeType::UnknownChange => {},
            },
            CqlEvent::StatusChange(t, addr) => match t {
                StatusChangeType::Up => {
                    match table_remove(&mut self.unavailable_nodes, addr.ip) {
                        Some(node) => {
                            table_upsert(&mut self.available_nodes, addr.ip, node);
                        },
                        None => {},
                    }
                },
                StatusChangeType::Down => {
                    match table_remove(&mut self.available_nodes, addr.ip) {
                        Some(node) => {
                            table_upsert(&mut self.unavailable_nodes, addr.ip, node);
                        },
                        None => {},
                    }
                },
                StatusChangeType::UnknownStatus => {},
            },
            CqlEvent::SchemaChange(_, _) => {},
            CqlEvent::UnknownEvent => {},
        }
    }
}

/// Entry point: host tables, the current host, and the balancing strategy.
pub struct Cluster {
    pub available_nodes: Vec<(IpAddress, Node)>,
    pub unavailable_nodes: Vec<(IpAddress, Node)>,
    pub current_node: IpAddress,
    pub balancer: BalancerType,
    pub rotation: RoundRobin,
}

impl Cluster {
    /// A cluster with empty host tables, rotating selection, and the
    /// unspecified address as current host.
    pub fn new() -> (r: Cluster)
        ensures
            r.available_nodes@.len() == 0,
            r.unavailable_nodes@.len() == 0,
            r.current_node == IpAddress::Ipv4(0, 0, 0, 0),
            r.balancer is RoundRobin,
            r.rotation.index == 0,
    {
        Cluster {
            available_nodes: Vec::new(),
            unavailable_nodes: Vec::new(),
            current_node: IpAddress::Ipv4(0, 0, 0, 0),
            balancer: BalancerType::RoundRobin,
            rotation: RoundRobin { index: 0 },
        }
    }

    /// Whether the live table is still empty (no host joined yet).
    pub fn are_available_nodes(&self) -> (r: bool)
        ensures
            r == (self.available_nodes@.len() == 0),
    {
        self.available_nodes.len() == 0
    }

    /// Choose the balancing strategy.
    pub fn set_load_balancing(&mut self, balancer: BalancerType)
        ensures
            *final(self) == (Cluster { balancer, ..*old(self) }),
    {
        self.balancer = balancer;
    }

    /// Record a host that connected as available, or one that failed as
    /// unavailable.
    pub fn add_node(&mut self, ip: IpAddress, node: Node, connected: bool)
        ensures
            connected ==> table_has_key(final(self).available_nodes@, ip) && table_upserted(
                old(self).available_nodes@,
                final(self).available_nodes@,
                ip,
                node,
            ) && final(self).unavailable_nodes@ == old(self).unavailable_nodes@,
            !connected ==> table_has_key(final(self).unavailable_nodes@, ip) && table_upserted(
                old(self).unavailable_nodes@,
                final(self).unavailable_nodes@,
                ip,
                node,
            ) && final(self).available_nodes@ == old(self).available_nodes@,
            final(self).current_node == old(self).current_node,
            final(self).balancer == old(self).balancer,
    {
        if connected {
            table_upsert(&mut self.available_nodes, ip, node);
        } else {
            table_upsert(&mut self.unavailable_nodes, ip, node);
        }
    }

    /// Re-select the current host with the configured strategy. With an
    /// empty live table nothing changes. Under rotation the index moves
    /// one host forward (wrapping at the end) and the host under it
    /// becomes current; under latency-aware selection the first host with
    /// the lowest recorded probe becomes current.
    pub fn refresh_current(&mut self)
        ensures
            final(self).available_nodes@ == old(self).available_nodes@,
            final(self).unavailable_nodes@ == old(self).unavailable_nodes@,
            final(self).balancer == old(self).balancer,
            old(self).available_nodes@.len() == 0 ==> final(self).current_node == old(
                self,
            ).current_node && final(self).rotation == old(self).rotation,
            old(self).available_nodes@.len() > 0 && (old(self).balancer is RoundRobin) ==> {
                let n = old(self).available_nodes@.len() as int;
                &&& final(self).rotation.index < n
                &&& (old(self).rotation.index + 1 < n ==> final(self).rotation.index == old(
                    self,
                ).rotation.index + 1)
                &&& (old(self).rotation.index + 1 >= n ==> final(self).rotation.index == 0)
                &&& final(self).current_node == old(self).available_nodes@[final(self).rotation.index as int].0
            },
            old(self).available_nodes@.len() > 0 && (old(self).balancer is LatencyAware) ==> (
            exists|m: int|
                {
                    &&& 0 <= m < old(self).available_nodes@.len()
                    &&& final(self).current_node == (#[trigger] old(self).available_nodes@[m]).0
                    &&& (forall|j: int|
                        0 <= j < old(self).available_nodes@.len() ==> (#[trigger] old(
                            self,
                        ).available_nodes@[j]).1.latency >= old(self).available_nodes@[m].1.latency)
                    &&& (forall|j: int|
                        0 <= j < m ==> (#[trigger] old(self).available_nodes@[j]).1.latency
                            > old(self).available_nodes@[m].1.latency)
                }) && final(self).rotation == old(self).rotation,
    {
        match self.balancer {
            BalancerType::RoundRobin => {
                let picked = self.rotation.select_rotating(&self.available_nodes);
                match picked {
                    Some(ip) => {
                        self.current_node = ip;
                    },
                    None => {},
                }
            },
            BalancerType::LatencyAware => {
                let la = LatencyAware {  };
                let picked = la.select_fastest(&self.available_nodes);
                match picked {
                    Some(ip) => {
                        self.current_node = ip;
                    },
                    None => {},
                }
            },
        }
    }

    /// The node recorded for the current host, or the no-live-hosts error.
    fn current(&self) -> (r: RCResult<Node>)
        ensures
            (match r {
                Ok(node) => exists|i: int|
                    0 <= i < self.available_nodes@.len() && #[trigger] self.available_nodes@[i]
                        == (self.current_node, node),
                Err(e) => !table_has_key(self.available_nodes@, self.current_node) && e.kind
                    == RCErrorType::ClusterError,
            }),
    {
        match table_find(&self.available_nodes, self.current_node) {
            Some(node) => Ok(node),
            None => Err(
                RCError::new("No live host is selected", RCErrorType::ClusterError),
            ),
        }
    }

    /// Build a QUERY request against the current host. Fails exactly when
    /// the current host is not in the live table.
    pub fn exec_query(&self, query_str: &str, con: Consistency) -> (r: RCResult<CqlRequest>)
        ensures
            (match r {
                Ok(req) => table_has_key(self.available_nodes@, self.current_node) && (exists|
                    i: int,
                |
                    0 <= i < self.available_nodes@.len() && (
                    #[trigger] self.available_nodes@[i]).0 == self.current_node
                        && crate::format::request_view(req) == (crate::format::RequestV {
                        version: self.available_nodes@[i].1.version,
                        flags: 0,
                        stream: 1,
                        opcode: crate::def::OpcodeRequest::OpcodeQuery,
                        body: crate::format::RequestBodyV::RQuery(query_str@, con, 0),
                    })),
                Err(e) => !table_has_key(self.available_nodes@, self.current_node) && e.kind
                    == RCErrorType::ClusterError,
            }),
    {
        match self.current() {
            Ok(node) => Ok(node.exec_query(query_str, con)),
            Err(e) => Err(e),
        }
    }

    /// Build an EXECUTE request against the current host.
    pub fn exec_prepared(&self, preps: &Vec<u8>, params: Vec<CqlValue>, con: Consistency) -> (r:
        RCResult<CqlRequest>)
        ensures
            (r is Ok <==> table_has_key(self.available_nodes@, self.current_node)),
            (match r {
                Ok(req) => exists|i: int|
                    0 <= i < self.available_nodes@.len() && (
                    #[trigger] self.available_nodes@[i]).0 == self.current_node
                        && crate::format::request_view(req) == (crate::format::RequestV {
                        version: self.available_nodes@[i].1.version,
                        flags: 0,
                        stream: 1,
                        opcode: crate::def::OpcodeRequest::OpcodeExecute,
                        body: crate::format::RequestBodyV::RExec(
                            preps@,
                            params@.map_values(|v: CqlValue| crate::format::value_view(v)),
                            con,
                            1,
                        ),
                    }),
                Err(e) => e.kind == RCErrorType::ClusterError,
            }),
    {
        match self.current() {
            Ok(node) => Ok(node.exec_prepared(preps, params, con)),
            Err(e) => Err(e),
        }
    }

    /// Build a BATCH request against the current host.
    pub fn exec_batch(&self, q_type: BatchType, q_vec: Vec<Query>, con: Consistency) -> (r:
        RCResult<CqlRequest>)
        ensures
            (r is Ok <==> table_has_key(self.available_nodes@, self.current_node)),
            (match r {
                Ok(req) => exists|i: int|
                    0 <= i < self.available_nodes@.len() && (
                    #[trigger] self.available_nodes@[i]).0 == self.current_node
                        && crate::format::request_view(req) == (crate::format::RequestV {
                        version: self.available_nodes@[i].1.version,
                        flags: 0,
                        stream: 1,
                        opcode: crate::def::OpcodeRequest::OpcodeBatch,
                        body: crate::format::RequestBodyV::RBatch(
                            q_vec@.map_values(|q: Query| crate::format::query_view(q)),
                            q_type,
                            con,
                            0,
                        ),
                    }),
                Err(e) => e.kind == RCErrorType::ClusterError,
            }),
    {
        match self.current() {
            Ok(node) => Ok(node.exec_batch(q_type, q_vec, con)),
            Err(e) => Err(e),
        }
    }

    /// Build a PREPARE request against the current host.
    pub fn prepared_statement(&self, query_str: &str) -> (r: RCResult<CqlRequest>)
        ensures
            (r is Ok <==> table_has_key(self.available_nodes@, self.current_node)),
            (match r {
                Ok(req) => exists|i: int|
                    0 <= i < self.available_nodes@.len() && (
                    #[trigger] self.available_nodes@[i]).0 == self.current_node
                        && crate::format::request_view(req) == (crate::format::RequestV {
                        version: self.available_nodes@[i].1.version,
                        flags: 0,
                        stream: 1,
                        opcode: crate::def::OpcodeRequest::OpcodePrepare,
                        body: crate::format::RequestBodyV::RPrepare(query_str@),
                    }),
                Err(e) => e.kind == RCErrorType::ClusterError,
            }),
    {
        match self.current() {
            Ok(node) => Ok(node.prepared_statement(query_str)),
            Err(e) => Err(e),
        }
    }

    /// Build the peers-discovery request against the current host.
    pub fn get_peers(&self) -> (r: RCResult<CqlRequest>)
        ensures
            (r is Ok <==> table_has_key(self.available_nodes@, self.current_node)),
            (match r {
                Ok(req) => exists|i: int|
                    0 <= i < self.available_nodes@.len() && (
                    #[trigger] self.available_nodes@[i]).0 == self.current_node
                        && crate::format::request_view(req) == (crate::format::RequestV {
                        version: self.available_nodes@[i].1.version,
                        flags: 0,
                        stream: 1,
                        opcode: crate::def::OpcodeRequest::OpcodeQuery,
                        body: crate::format::RequestBodyV::RQuery(
                            "SELECT peer,data_center,host_id,rack,rpc_address FROM system.peers;"@,
                            Consistency::One,
                            0,
                        ),
                    }),
                Err(e) => e.kind == RCErrorType::ClusterError,
            }),
    {
        match self.current() {
            Ok(node) => Ok(node.get_peers()),
            Err(e) => Err(e),
        }
    }

    /// Build the REGISTER request against the current host.
    pub fn register(&self) -> (r: RCResult<CqlRequest>)
        ensures
            (r is Ok <==> table_has_key(self.available_nodes@, self.current_node)),
            (match r {
                Ok(req) => exists|i: int|
                    0 <= i < self.available_nodes@.len() && (
                    #[trigger] self.available_nodes@[i]).0 == self.current_node
                        && crate::format::request_view(req) == (crate::format::RequestV {
                        version: self.available_nodes@[i].1.version,
                        flags: 0,
                        stream: 1,
                        opcode: crate::def::OpcodeRequest::OpcodeRegister,
                        body: crate::format::RequestBodyV::RRegister(
                            seq!["TOPOLOGY_CHANGE"@, "STATUS_CHANGE"@],
                        ),
                    }),
                Err(e) => e.kind == RCErrorType::ClusterError,
            }),
    {
        match self.current() {
            Ok(node) => Ok(node.send_register()),
            Err(e) => Err(e),
        }
    }

    /// Pull the peer addresses out of the response to the discovery query.
    /// The call succeeds exactly when the response is a rows result with at
    /// least one row whose first column is a non-NULL inet value in every
    /// row.
    pub fn parse_nodes(&self, response: &CqlResponse) -> (r: RCResult<Vec<IpAddress>>)
        ensures
            r is Ok <==> peers_response_wf(*response),
            (match r {
                Ok(ips) => (match response.body {
                    CqlResponseBody::ResultRows(rows) => {
                        &&& rows.rows@.len() > 0
                        &&& ips@.len() == rows.rows@.len()
                        &&& forall|i: int|
                            0 <= i < ips@.len() ==> (#[trigger] rows.rows@[i]).cols@.len() > 0
                                && rows.rows@[i].cols@[0] == CqlValue::CqlInet(Some(ips@[i]))
                    },
                    _ => false,
                }),
                Err(e) => e.kind == RCErrorType::ReadError || e.kind == RCErrorType::ClusterError,
            }),
    {
        match &response.body {
            CqlResponseBody::ResultRows(cql_rows) => {
                let n = cql_rows.rows.len();
                if n == 0 {
                    return Err(
                        RCError::new("CqlResponse contains no rows", RCErrorType::ReadError),
                    );
                }
                let mut nodes: Vec<IpAddress> = Vec::new();
                let mut i: usize = 0;
                while i < n
                    invariant
                        i <= n,
                        n == cql_rows.rows@.len(),
                        response.body == CqlResponseBody::ResultRows(*cql_rows),
                        nodes@.len() == i,
                        forall|j: int|
                            0 <= j < i ==> (#[trigger] cql_rows.rows@[j]).cols@.len() > 0
                                && cql_rows.rows@[j].cols@[0] == CqlValue::CqlInet(
                                Some(nodes@[j]),
                            ),
                    decreases n - i,
                {
                    if cql_rows.rows[i].cols.len() == 0 {
                        proof {
                            assert(!peers_response_wf(*response)) by {
                                if peers_response_wf(*response) {
                                    assert(cql_rows.rows@[i as int].cols@.len() > 0);
                                }
                            }
                        }
                        return Err(
                            RCError::new("Peer row has no columns", RCErrorType::ReadError),
                        );
                    }
                    match &cql_rows.rows[i].cols[0] {
                        CqlValue::CqlInet(o) => match o {
                            Some(ip) => {
                                nodes.push(*ip);
                            },
                            None => {
                                proof {
                                    assert(!peers_response_wf(*response)) by {
                                        if peers_response_wf(*response) {
                                            assert(cql_rows.rows@[i as int].cols@.len() > 0);
                                            assert(cql_rows.rows@[
                                                i as int
                                            ].cols@[0] matches CqlValue::CqlInet(Some(_)));
                                        }
                                    }
                                }
                                return Err(
                                    RCError::new(
                                        "Peer row has a NULL address",
                                        RCErrorType::ReadError,
                                    ),
                                );
                            },
                        },
                        _ => {
                            proof {
                                assert(!peers_response_wf(*response)) by {
                                    if peers_response_wf(*response) {
                                        assert(cql_rows.rows@[i as int].cols@.len() > 0);
                                        assert(cql_rows.rows@[
                                            i as int
                                        ].cols@[0] matches CqlValue::CqlInet(Some(_)));
                                    }
                                }
                            }
                            return Err(
                                RCError::new(
                                    "Peer row does not carry an inet address",
                                    RCErrorType::ReadError,
                                ),
                            );
                        },
                    }
                    i = i + 1;
                }
                proof {
                    assert forall|j: int|
                        0 <= j < cql_rows.rows@.len() implies (
                    #[trigger] cql_rows.rows@[j]).cols@.len() > 0 && (cql_rows.rows@[
                        j
                    ].cols@[0] matches CqlValue::CqlInet(Some(_))) by {
                        assert(cql_rows.rows@[j].cols@[0] == CqlValue::CqlInet(Some(nodes@[j])));
                    }
                }
                Ok(nodes)
            },
            _ => Err(
                RCError::new("CqlResponse type must be ResultRows", RCErrorType::ClusterError),
            ),
        }
    }
}

/// The next protocol version to try after a failed STARTUP: one below,
/// until v1 is exhausted.
pub fn downgrade_version(version: u8) -> (r: Option<u8>)
    ensures
        r == (if version > 1 {
            Some((version - 1) as u8)
        } else {
            None::<u8>
        }),
{
    if version > 1 {
        Some(version - 1)
    } else {
        None
    }
}

} // verus!
