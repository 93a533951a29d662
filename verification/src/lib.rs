//! Core of a client driver for a wide-column store speaking a versioned,
//! length-delimited binary framing protocol (revisions v1, v2, v3).
//!
//! The crate covers the protocol engine: the frame codec (requests,
//! responses, typed values, column metadata), the connection state with its
//! stream-id multiplexing and handshake, the event handler that keeps the
//! cluster's host tables current, and the load-balancing strategies.
//! Socket I/O and threading live outside the library; every function here is
//! a pure computation over byte buffers and protocol state.

pub mod cluster;
pub mod connection;
pub mod connection_pool;
pub mod def;
pub mod error;
pub mod format;
pub mod load_balancing;
pub mod node;
pub mod reader;
pub mod roundtrip;
pub mod serialize;
pub mod util;
pub mod wire;

pub use cluster::Cluster;
pub use cluster::EventHandler;
pub use connection::Connection;
pub use connection_pool::ConnectionPool;
pub use def::BatchType;
pub use def::CQLList;
pub use def::CQLMap;
pub use def::CQLSet;
pub use def::Consistency;
pub use def::CqlBytesSize;
pub use def::CqlEventType;
pub use def::CqlResponseBody;
pub use def::CqlValue;
pub use def::OpcodeResponse;
pub use def::Query;
pub use error::RCError;
pub use error::RCErrorType;
pub use error::RCResult;
pub use reader::CqlReader;

use vstd::prelude::*;

verus! {

/// Highest protocol revision this driver speaks.
pub const CQL_MAX_SUPPORTED_VERSION: u8 = 3;

/// Default server port.
pub const CQL_DEFAULT_PORT: u16 = 9042;

/// Highest assignable stream id for protocol v1 and v2 (the header
/// carries the id on one signed byte, and 0 and -1 are reserved).
pub const CQL_MAX_STREAM_ID_V1_V2: i16 = 127;

/// Highest assignable stream id for protocol v3 (stream ids are `i16`,
/// and 0 and -1 are reserved).
pub const CQL_MAX_STREAM_ID_V3: i16 = 32767;

/// The CQL version string advertised in STARTUP, for every protocol revision.
pub fn cql_version_string(version: u8) -> (r: &'static str)
    ensures
        r@ == "3.0.0"@,
{
    let s = "3.0.0";
    s
}

} // verus!
