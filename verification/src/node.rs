//! Per-host request building. A node knows its address, its protocol
//! version and its last latency probe, and turns application calls into
//! request frames; shipping them and awaiting completions happens outside
//! the library.

use vstd::prelude::*;
use crate::def::BatchType;
use crate::def::Consistency;
use crate::def::CqlPair;
use crate::def::CqlPreparedStat;
use crate::def::CqlRequest;
use crate::def::CqlRequestBody;
use crate::def::CqlResponse;
use crate::def::CqlResponseBody;
use crate::def::CqlStringMap;
use crate::def::CqlValue;
use crate::def::OpcodeRequest;
use crate::def::Query;
use crate::def::SockAddr;
use crate::error::RCError;
use crate::error::RCErrorType;
use crate::error::RCResult;
use crate::format::RequestBodyV;
use crate::format::RequestV;
use crate::format::request_view;
use crate::format::strings_view;

verus! {

/// The latency recorded before any probe has run.
pub const UNPROBED_LATENCY: u64 = 0xFFFF_FFFF_FFFF_FFFF;

/// A per-host handle: address, protocol version, and the last round-trip
/// probe in milliseconds.
pub struct Node {
    pub address: SockAddr,
    pub version: u8,
    pub latency: u64,
}

impl Node {
    /// A node at the given address, at the highest supported version, with
    /// no probe yet.
    pub fn new(address: SockAddr) -> (r: Node)
        ensures
            r.address == address,
            r.version == crate::CQL_MAX_SUPPORTED_VERSION,
            r.latency == UNPROBED_LATENCY,
    {
        Node { address, version: crate::CQL_MAX_SUPPORTED_VERSION, latency: UNPROBED_LATENCY }
    }

    /// The node's socket address.
    pub fn get_sock_addr(&self) -> (r: SockAddr)
        ensures
            r == self.address,
    {
        self.address
    }

    /// Record a round-trip probe, in milliseconds.
    pub fn set_latency(&mut self, ms: u64)
        ensures
            *final(self) == (Node { latency: ms, ..*old(self) }),
    {
        self.latency = ms;
    }

    /// Build a QUERY request for this query text at the given consistency.
    pub fn exec_query(&self, query_str: &str, con: Consistency) -> (r: CqlRequest)
        ensures
            request_view(r) == (RequestV {
                version: self.version,
                flags: 0,
                stream: 1,
                opcode: OpcodeRequest::OpcodeQuery,
                body: RequestBodyV::RQuery(query_str@, con, 0),
            }),
    {
        CqlRequest {
            version: self.version,
            flags: 0,
            stream: 1,
            opcode: OpcodeRequest::OpcodeQuery,
            body: CqlRequestBody::RequestQuery(query_str.to_owned(), con, 0),
        }
    }

    /// Build the peers-discovery query.
    pub fn get_peers(&self) -> (r: CqlRequest)
        ensures
            request_view(r) == (RequestV {
                version: self.version,
                flags: 0,
                stream: 1,
                opcode: OpcodeRequest::OpcodeQuery,
                body: RequestBodyV::RQuery(
                    "SELECT peer,data_center,host_id,rack,rpc_address FROM system.peers;"@,
                    Consistency::One,
                    0,
                ),
            }),
    {
        self.exec_query(
            "SELECT peer,data_center,host_id,rack,rpc_address FROM system.peers;",
            Consistency::One,
        )
    }

    /// Build the trivial query whose round trip the latency probe times.
    pub fn exec_dummy_query(&self) -> (r: CqlRequest)
        ensures
            request_view(r) == (RequestV {
                version: self.version,
                flags: 0,
                stream: 1,
                opcode: OpcodeRequest::OpcodeQuery,
                body: RequestBodyV::RQuery(
                    "SELECT now() FROM system.local;"@,
                    Consistency::One,
                    0,
                ),
            }),
    {
        self.exec_query("SELECT now() FROM system.local;", Consistency::One)
    }

    /// Build an EXECUTE request binding `params` to the prepared statement
    /// with server id `preps`.
    pub fn exec_prepared(&self, preps: &Vec<u8>, params: Vec<CqlValue>, con: Consistency) -> (r:
        CqlRequest)
        ensures
            request_view(r) == (RequestV {
                version: self.version,
                flags: 0,
                stream: 1,
                opcode: OpcodeRequest::OpcodeExecute,
                body: RequestBodyV::RExec(
                    preps@,
                    params@.map_values(|v: CqlValue| crate::format::value_view(v)),
                    con,
                    1,
                ),
            }),
    {
        let mut id: Vec<u8> = Vec::new();
        id.extend_from_slice(preps.as_slice());
        proof {
            assert(id@ =~= preps@);
        }
        CqlRequest {
            version: self.version,
            flags: 0,
            stream: 1,
            opcode: OpcodeRequest::OpcodeExecute,
            body: CqlRequestBody::RequestExec(id, params, con, 1),
        }
    }

    /// Build a BATCH request.
    pub fn exec_batch(&self, q_type: BatchType, q_vec: Vec<Query>, con: Consistency) -> (r:
        CqlRequest)
        ensures
            request_view(r) == (RequestV {
                version: self.version,
                flags: 0,
                stream: 1,
                opcode: OpcodeRequest::OpcodeBatch,
                body: RequestBodyV::RBatch(
                    q_vec@.map_values(|q: Query| crate::format::query_view(q)),
                    q_type,
                    con,
                    0,
                ),
            }),
    {
        CqlRequest {
            version: self.version,
            flags: 0,
            stream: 1,
            opcode: OpcodeRequest::OpcodeBatch,
            body: CqlRequestBody::RequestBatch(q_vec, q_type, con, 0),
        }
    }

    /// Build a PREPARE request for this query text.
    pub fn prepared_statement(&self, query_str: &str) -> (r: CqlRequest)
        ensures
            request_view(r) == (RequestV {
                version: self.version,
                flags: 0,
                stream: 1,
                opcode: OpcodeRequest::OpcodePrepare,
                body: RequestBodyV::RPrepare(query_str@),
            }),
    {
        CqlRequest {
            version: self.version,
            flags: 0,
            stream: 1,
            opcode: OpcodeRequest::OpcodePrepare,
            body: CqlRequestBody::RequestPrepare(query_str.to_owned()),
        }
    }

    /// Build the REGISTER request subscribing to topology and status
    /// events.
    pub fn send_register(&self) -> (r: CqlRequest)
        ensures
            request_view(r) == (RequestV {
                version: self.version,
                flags: 0,
                stream: 1,
                opcode: OpcodeRequest::OpcodeRegister,
                body: RequestBodyV::RRegister(seq!["TOPOLOGY_CHANGE"@, "STATUS_CHANGE"@]),
            }),
    {
        let mut names: Vec<String> = Vec::new();
        names.push("TOPOLOGY_CHANGE".to_owned());
        names.push("STATUS_CHANGE".to_owned());
        proof {
            assert(strings_view(names@) =~= seq!["TOPOLOGY_CHANGE"@, "STATUS_CHANGE"@]);
        }
        CqlRequest {
            version: self.version,
            flags: 0,
            stream: 1,
            opcode: OpcodeRequest::OpcodeRegister,
            body: CqlRequestBody::RequestRegister(names),
        }
    }

    /// Build the STARTUP request advertising the CQL version.
    pub fn connect(&self) -> (r: CqlRequest)
        ensures
            request_view(r) == (RequestV {
                version: self.version,
                flags: 0,
                stream: 1,
                opcode: OpcodeRequest::OpcodeStartup,
                body: RequestBodyV::RStartup(seq![("CQL_VERSION"@, "3.0.0"@)]),
            }),
    {
        let mut pairs: Vec<CqlPair> = Vec::new();
        pairs.push(CqlPair { key: "CQL_VERSION".to_owned(), value: "3.0.0".to_owned() });
        proof {
            assert(pairs@.map_values(|p: CqlPair| (p.key@, p.value@)) =~= seq![
                ("CQL_VERSION"@, "3.0.0"@),
            ]);
        }
        CqlRequest {
            version: self.version,
            flags: 0,
            stream: 1,
            opcode: OpcodeRequest::OpcodeStartup,
            body: CqlRequestBody::RequestStartup(CqlStringMap { pairs }),
        }
    }
}

/// Pull the prepared-statement handle out of the response to a PREPARE
/// request; any other response is an error.
pub fn prepared_from_response(response: CqlResponse) -> (r: RCResult<CqlPreparedStat>)
    ensures
        (match r {
            Ok(p) => response.body == CqlResponseBody::ResultPrepared(p),
            Err(e) => !(response.body is ResultPrepared) && e.kind == RCErrorType::ReadError,
        }),
{
    match response.body {
        CqlResponseBody::ResultPrepared(p) => Ok(p),
        _ => Err(
            RCError::new("Response does not contain prepared statement", RCErrorType::ReadError),
        ),
    }
}

} // verus!
