//! Protocol data model: opcodes, consistency levels, typed values, column
//! metadata, requests and responses, and the tables mapping wire codes to
//! their enums.

use vstd::prelude::*;
use crate::error::RCError;
use crate::error::RCErrorType;
use crate::error::RCResult;

verus! {

/// Opcode of a request frame.
#[derive(Clone, Copy, Debug, PartialEq, Eq, Structural)]
pub enum OpcodeRequest {
    OpcodeStartup,
    OpcodeOptions,
    OpcodeQuery,
    OpcodePrepare,
    OpcodeExecute,
    OpcodeRegister,
    OpcodeBatch,
    OpcodeAuthResponse,
}

/// Wire value of a request opcode.
pub open spec fn spec_opcode_request_value(op: OpcodeRequest) -> u8 {
    match op {
        OpcodeRequest::OpcodeStartup => 0x01,
        OpcodeRequest::OpcodeOptions => 0x05,
        OpcodeRequest::OpcodeQuery => 0x07,
        OpcodeRequest::OpcodePrepare => 0x09,
        OpcodeRequest::OpcodeExecute => 0x0A,
        OpcodeRequest::OpcodeRegister => 0x0B,
        OpcodeRequest::OpcodeBatch => 0x0D,
        OpcodeRequest::OpcodeAuthResponse => 0x0F,
    }
}

#[verifier::when_used_as_spec(spec_opcode_request_value)]
pub fn opcode_request_value(op: OpcodeRequest) -> (r: u8)
    ensures
        r == spec_opcode_request_value(op),
{
    match op {
        OpcodeRequest::OpcodeStartup => 0x01,
        OpcodeRequest::OpcodeOptions => 0x05,
        OpcodeRequest::OpcodeQuery => 0x07,
        OpcodeRequest::OpcodePrepare => 0x09,
        OpcodeRequest::OpcodeExecute => 0x0A,
        OpcodeRequest::OpcodeRegister => 0x0B,
        OpcodeRequest::OpcodeBatch => 0x0D,
        OpcodeRequest::OpcodeAuthResponse => 0x0F,
    }
}

/// The request opcode encoded by a wire value, if any.
pub open spec fn spec_opcode_request_from(val: u8) -> Option<OpcodeRequest> {
    match val {
        0x01 => Some(OpcodeRequest::OpcodeStartup),
        0x05 => Some(OpcodeRequest::OpcodeOptions),
        0x07 => Some(OpcodeRequest::OpcodeQuery),
        0x09 => Some(OpcodeRequest::OpcodePrepare),
        0x0A => Some(OpcodeRequest::OpcodeExecute),
        0x0B => Some(OpcodeRequest::OpcodeRegister),
        0x0D => Some(OpcodeRequest::OpcodeBatch),
        0x0F => Some(OpcodeRequest::OpcodeAuthResponse),
        _ => None,
    }
}

#[verifier::when_used_as_spec(spec_opcode_request_from)]
pub fn opcode_request_from(val: u8) -> (r: Option<OpcodeRequest>)
    ensures
        r == spec_opcode_request_from(val),
{
    match val {
        0x01 => Some(OpcodeRequest::OpcodeStartup),
        0x05 => Some(OpcodeRequest::OpcodeOptions),
        0x07 => Some(OpcodeRequest::OpcodeQuery),
        0x09 => Some(OpcodeRequest::OpcodePrepare),
        0x0A => Some(OpcodeRequest::OpcodeExecute),
        0x0B => Some(OpcodeRequest::OpcodeRegister),
        0x0D => Some(OpcodeRequest::OpcodeBatch),
        0x0F => Some(OpcodeRequest::OpcodeAuthResponse),
        _ => None,
    }
}

/// Opcode of a response frame.
#[derive(Clone, Copy, Debug, PartialEq, Eq, Structural)]
pub enum OpcodeResponse {
    OpcodeError,
    OpcodeReady,
    OpcodeAuthenticate,
    OpcodeSupported,
    OpcodeResult,
    OpcodeEvent,
    OpcodeAuthChallenge,
    OpcodeAuthSuccess,
    OpcodeUnknown,
}

/// The response opcode a wire value stands for; unknown values map to
/// `OpcodeUnknown`.
pub open spec fn spec_opcode_response(val: u8) -> OpcodeResponse {
    match val {
        0x00 => OpcodeResponse::OpcodeError,
        0x02 => OpcodeResponse::OpcodeReady,
        0x03 => OpcodeResponse::OpcodeAuthenticate,
        0x06 => OpcodeResponse::OpcodeSupported,
        0x08 => OpcodeResponse::OpcodeResult,
        0x0C => OpcodeResponse::OpcodeEvent,
        0x0E => OpcodeResponse::OpcodeAuthChallenge,
        0x10 => OpcodeResponse::OpcodeAuthSuccess,
        _ => OpcodeResponse::OpcodeUnknown,
    }
}

#[verifier::when_used_as_spec(spec_opcode_response)]
pub fn opcode_response(val: u8) -> (r: OpcodeResponse)
    ensures
        r == spec_opcode_response(val),
{
    match val {
        0x00 => OpcodeResponse::OpcodeError,
        0x02 => OpcodeResponse::OpcodeReady,
        0x03 => OpcodeResponse::OpcodeAuthenticate,
        0x06 => OpcodeResponse::OpcodeSupported,
        0x08 => OpcodeResponse::OpcodeResult,
        0x0C => OpcodeResponse::OpcodeEvent,
        0x0E => OpcodeResponse::OpcodeAuthChallenge,
        0x10 => OpcodeResponse::OpcodeAuthSuccess,
        _ => OpcodeResponse::OpcodeUnknown,
    }
}

/// Wire value of a response opcode; `OpcodeUnknown` has none and maps to a
/// value no real opcode uses.
pub open spec fn spec_opcode_response_value(op: OpcodeResponse) -> u8 {
    match op {
        OpcodeResponse::OpcodeError => 0x00,
        OpcodeResponse::OpcodeReady => 0x02,
        OpcodeResponse::OpcodeAuthenticate => 0x03,
        OpcodeResponse::OpcodeSupported => 0x06,
        OpcodeResponse::OpcodeResult => 0x08,
        OpcodeResponse::OpcodeEvent => 0x0C,
        OpcodeResponse::OpcodeAuthChallenge => 0x0E,
        OpcodeResponse::OpcodeAuthSuccess => 0x10,
        OpcodeResponse::OpcodeUnknown => 0xFF,
    }
}

#[verifier::when_used_as_spec(spec_opcode_response_value)]
pub fn opcode_response_value(op: OpcodeResponse) -> (r: u8)
    ensures
        r == spec_opcode_response_value(op),
{
    match op {
        OpcodeResponse::OpcodeError => 0x00,
        OpcodeResponse::OpcodeReady => 0x02,
        OpcodeResponse::OpcodeAuthenticate => 0x03,
        OpcodeResponse::OpcodeSupported => 0x06,
        OpcodeResponse::OpcodeResult => 0x08,
        OpcodeResponse::OpcodeEvent => 0x0C,
        OpcodeResponse::OpcodeAuthChallenge => 0x0E,
        OpcodeResponse::OpcodeAuthSuccess => 0x10,
        OpcodeResponse::OpcodeUnknown => 0xFF,
    }
}

impl OpcodeResponse {
    /// Whether this opcode marks a server-initiated event frame.
    pub fn is_event_code(&self) -> (r: bool)
        ensures
            r == (*self == OpcodeResponse::OpcodeEvent),
    {
        match *self {
            OpcodeResponse::OpcodeEvent => true,
            _ => false,
        }
    }
}

/// Header of one frame: version byte, flags, stream id and opcode, before the
/// 4-byte body length.
#[derive(Clone, Copy, Debug, PartialEq, Eq, Structural)]
pub struct CqlFrameHeader {
    pub version: u8,
    pub flags: u8,
    pub stream: i16,
    pub opcode: u8,
}

/// Sub-kind of a RESULT response.
#[derive(Clone, Copy, Debug, PartialEq, Eq, Structural)]
pub enum KindResult {
    KindVoid,
    KindRows,
    KindSetKeyspace,
    KindPrepared,
    KindSchemaChange,
}

/// The RESULT kind a wire value stands for, if any.
pub open spec fn spec_kind_result_from(val: u32) -> Option<KindResult> {
    match val {
        0x0001u32 => Some(KindResult::KindVoid),
        0x0002u32 => Some(KindResult::KindRows),
        0x0003u32 => Some(KindResult::KindSetKeyspace),
        0x0004u32 => Some(KindResult::KindPrepared),
        0x0005u32 => Some(KindResult::KindSchemaChange),
        _ => None,
    }
}

#[verifier::when_used_as_spec(spec_kind_result_from)]
pub fn kind_result_from(val: u32) -> (r: Option<KindResult>)
    ensures
        r == spec_kind_result_from(val),
{
    match val {
        0x0001u32 => Some(KindResult::KindVoid),
        0x0002u32 => Some(KindResult::KindRows),
        0x0003u32 => Some(KindResult::KindSetKeyspace),
        0x0004u32 => Some(KindResult::KindPrepared),
        0x0005u32 => Some(KindResult::KindSchemaChange),
        _ => None,
    }
}

/// Wire value of a RESULT kind.
pub open spec fn spec_kind_result_value(k: KindResult) -> u32 {
    match k {
        KindResult::KindVoid => 0x0001,
        KindResult::KindRows => 0x0002,
        KindResult::KindSetKeyspace => 0x0003,
        KindResult::KindPrepared => 0x0004,
        KindResult::KindSchemaChange => 0x0005,
    }
}

#[verifier::when_used_as_spec(spec_kind_result_value)]
pub fn kind_result_value(k: KindResult) -> (r: u32)
    ensures
        r == spec_kind_result_value(k),
{
    match k {
        KindResult::KindVoid => 0x0001,
        KindResult::KindRows => 0x0002,
        KindResult::KindSetKeyspace => 0x0003,
        KindResult::KindPrepared => 0x0004,
        KindResult::KindSchemaChange => 0x0005,
    }
}

/// Replication quorum choice carried by queries and batches.
#[derive(Clone, Copy, Debug, PartialEq, Eq, Structural)]
pub enum Consistency {
    Any,
    One,
    Two,
    Three,
    Quorum,
    All,
    LocalQuorum,
    EachQuorum,
    Unknown,
}

/// Wire value of a consistency level; `Unknown` has none and maps to a value
/// no real level uses.
pub open spec fn spec_consistency_value(c: Consistency) -> u16 {
    match c {
        Consistency::Any => 0x0000,
        Consistency::One => 0x0001,
        Consistency::Two => 0x0002,
        Consistency::Three => 0x0003,
        Consistency::Quorum => 0x0004,
        Consistency::All => 0x0005,
        Consistency::LocalQuorum => 0x0006,
        Consistency::EachQuorum => 0x0007,
        Consistency::Unknown => 0xFFFF,
    }
}

#[verifier::when_used_as_spec(spec_consistency_value)]
pub fn consistency_value(c: Consistency) -> (r: u16)
    ensures
        r == spec_consistency_value(c),
{
    match c {
        Consistency::Any => 0x0000,
        Consistency::One => 0x0001,
        Consistency::Two => 0x0002,
        Consistency::Three => 0x0003,
        Consistency::Quorum => 0x0004,
        Consistency::All => 0x0005,
        Consistency::LocalQuorum => 0x0006,
        Consistency::EachQuorum => 0x0007,
        Consistency::Unknown => 0xFFFF,
    }
}

/// The consistency level a wire value stands for; unknown values map to
/// `Unknown`.
pub open spec fn spec_consistency_from(val: u16) -> Consistency {
    match val {
        0x0000u16 => Consistency::Any,
        0x0001u16 => Consistency::One,
        0x0002u16 => Consistency::Two,
        0x0003u16 => Consistency::Three,
        0x0004u16 => Consistency::Quorum,
        0x0005u16 => Consistency::All,
        0x0006u16 => Consistency::LocalQuorum,
        0x0007u16 => Consistency::EachQuorum,
        _ => Consistency::Unknown,
    }
}

#[verifier::when_used_as_spec(spec_consistency_from)]
pub fn consistency_from(val: u16) -> (r: Consistency)
    ensures
        r == spec_consistency_from(val),
{
    match val {
        0x0000u16 => Consistency::Any,
        0x0001u16 => Consistency::One,
        0x0002u16 => Consistency::Two,
        0x0003u16 => Consistency::Three,
        0x0004u16 => Consistency::Quorum,
        0x0005u16 => Consistency::All,
        0x0006u16 => Consistency::LocalQuorum,
        0x0007u16 => Consistency::EachQuorum,
        _ => Consistency::Unknown,
    }
}

/// Kind of a batch: server-atomic, unlogged, or counter-only.
#[derive(Clone, Copy, Debug, PartialEq, Eq, Structural)]
pub enum BatchType {
    Logged,
    Unlogged,
    Counter,
}

/// Wire value of a batch type.
pub open spec fn spec_batch_type_value(b: BatchType) -> u8 {
    match b {
        BatchType::Logged => 0x00,
        BatchType::Unlogged => 0x01,
        BatchType::Counter => 0x02,
    }
}

#[verifier::when_used_as_spec(spec_batch_type_value)]
pub fn batch_type_value(b: BatchType) -> (r: u8)
    ensures
        r == spec_batch_type_value(b),
{
    match b {
        BatchType::Logged => 0x00,
        BatchType::Unlogged => 0x01,
        BatchType::Counter => 0x02,
    }
}

/// The batch type a wire value stands for, if any.
pub open spec fn spec_batch_type_from(val: u8) -> Option<BatchType> {
    match val {
        0x00u8 => Some(BatchType::Logged),
        0x01u8 => Some(BatchType::Unlogged),
        0x02u8 => Some(BatchType::Counter),
        _ => None,
    }
}

#[verifier::when_used_as_spec(spec_batch_type_from)]
pub fn batch_type_from(val: u8) -> (r: Option<BatchType>)
    ensures
        r == spec_batch_type_from(val),
{
    match val {
        0x00u8 => Some(BatchType::Logged),
        0x01u8 => Some(BatchType::Unlogged),
        0x02u8 => Some(BatchType::Counter),
        _ => None,
    }
}

/// The type of a column, as carried in RESULT metadata.
#[derive(Clone, Copy, Debug, PartialEq, Eq, Structural)]
pub enum CqlValueType {
    ColumnCustom,
    ColumnASCII,
    ColumnBigInt,
    ColumnBlob,
    ColumnBoolean,
    ColumnCounter,
    ColumnDecimal,
    ColumnDouble,
    ColumnFloat,
    ColumnInt,
    ColumnText,
    ColumnTimestamp,
    ColumnUuid,
    ColumnVarChar,
    ColumnVarint,
    ColumnTimeUuid,
    ColumnInet,
    ColumnList,
    ColumnMap,
    ColumnSet,
    ColumnUnknown,
}

/// The column type a wire type-key stands for; unknown keys map to
/// `ColumnUnknown`.
pub open spec fn spec_cql_column_type(val: u16) -> CqlValueType {
    match val {
        0x0000u16 => CqlValueType::ColumnCustom,
        0x0001u16 => CqlValueType::ColumnASCII,
        0x0002u16 => CqlValueType::ColumnBigInt,
        0x0003u16 => CqlValueType::ColumnBlob,
        0x0004u16 => CqlValueType::ColumnBoolean,
        0x0005u16 => CqlValueType::ColumnCounter,
        0x0006u16 => CqlValueType::ColumnDecimal,
        0x0007u16 => CqlValueType::ColumnDouble,
        0x0008u16 => CqlValueType::ColumnFloat,
        0x0009u16 => CqlValueType::ColumnInt,
        0x000Au16 => CqlValueType::ColumnText,
        0x000Bu16 => CqlValueType::ColumnTimestamp,
        0x000Cu16 => CqlValueType::ColumnUuid,
        0x000Du16 => CqlValueType::ColumnVarChar,
        0x000Eu16 => CqlValueType::ColumnVarint,
        0x000Fu16 => CqlValueType::ColumnTimeUuid,
        0x0010u16 => CqlValueType::ColumnInet,
        0x0020u16 => CqlValueType::ColumnList,
        0x0021u16 => CqlValueType::ColumnMap,
        0x0022u16 => CqlValueType::ColumnSet,
        _ => CqlValueType::ColumnUnknown,
    }
}

#[verifier::when_used_as_spec(spec_cql_column_type)]
pub fn cql_column_type(val: u16) -> (r: CqlValueType)
    ensures
        r == spec_cql_column_type(val),
{
    match val {
        0x0000u16 => CqlValueType::ColumnCustom,
        0x0001u16 => CqlValueType::ColumnASCII,
        0x0002u16 => CqlValueType::ColumnBigInt,
        0x0003u16 => CqlValueType::ColumnBlob,
        0x0004u16 => CqlValueType::ColumnBoolean,
        0x0005u16 => CqlValueType::ColumnCounter,
        0x0006u16 => CqlValueType::ColumnDecimal,
        0x0007u16 => CqlValueType::ColumnDouble,
        0x0008u16 => CqlValueType::ColumnFloat,
        0x0009u16 => CqlValueType::ColumnInt,
        0x000Au16 => CqlValueType::ColumnText,
        0x000Bu16 => CqlValueType::ColumnTimestamp,
        0x000Cu16 => CqlValueType::ColumnUuid,
        0x000Du16 => CqlValueType::ColumnVarChar,
        0x000Eu16 => CqlValueType::ColumnVarint,
        0x000Fu16 => CqlValueType::ColumnTimeUuid,
        0x0010u16 => CqlValueType::ColumnInet,
        0x0020u16 => CqlValueType::ColumnList,
        0x0021u16 => CqlValueType::ColumnMap,
        0x0022u16 => CqlValueType::ColumnSet,
        _ => CqlValueType::ColumnUnknown,
    }
}

/// Wire type-key of a column type; `ColumnUnknown` has none and maps to a
/// key no real type uses.
pub open spec fn spec_column_type_value(t: CqlValueType) -> u16 {
    match t {
        CqlValueType::ColumnCustom => 0x0000,
        CqlValueType::ColumnASCII => 0x0001,
        CqlValueType::ColumnBigInt => 0x0002,
        CqlValueType::ColumnBlob => 0x0003,
        CqlValueType::ColumnBoolean => 0x0004,
        CqlValueType::ColumnCounter => 0x0005,
        CqlValueType::ColumnDecimal => 0x0006,
        CqlValueType::ColumnDouble => 0x0007,
        CqlValueType::ColumnFloat => 0x0008,
        CqlValueType::ColumnInt => 0x0009,
        CqlValueType::ColumnText => 0x000A,
        CqlValueType::ColumnTimestamp => 0x000B,
        CqlValueType::ColumnUuid => 0x000C,
        CqlValueType::ColumnVarChar => 0x000D,
        CqlValueType::ColumnVarint => 0x000E,
        CqlValueType::ColumnTimeUuid => 0x000F,
        CqlValueType::ColumnInet => 0x0010,
        CqlValueType::ColumnList => 0x0020,
        CqlValueType::ColumnMap => 0x0021,
        CqlValueType::ColumnSet => 0x0022,
        CqlValueType::ColumnUnknown => 0xFFFF,
    }
}

#[verifier::when_used_as_spec(spec_column_type_value)]
pub fn column_type_value(t: CqlValueType) -> (r: u16)
    ensures
        r == spec_column_type_value(t),
{
    match t {
        CqlValueType::ColumnCustom => 0x0000,
        CqlValueType::ColumnASCII => 0x0001,
        CqlValueType::ColumnBigInt => 0x0002,
        CqlValueType::ColumnBlob => 0x0003,
        CqlValueType::ColumnBoolean => 0x0004,
        CqlValueType::ColumnCounter => 0x0005,
        CqlValueType::ColumnDecimal => 0x0006,
        CqlValueType::ColumnDouble => 0x0007,
        CqlValueType::ColumnFloat => 0x0008,
        CqlValueType::ColumnInt => 0x0009,
        CqlValueType::ColumnText => 0x000A,
        CqlValueType::ColumnTimestamp => 0x000B,
        CqlValueType::ColumnUuid => 0x000C,
        CqlValueType::ColumnVarChar => 0x000D,
        CqlValueType::ColumnVarint => 0x000E,
        CqlValueType::ColumnTimeUuid => 0x000F,
        CqlValueType::ColumnInet => 0x0010,
        CqlValueType::ColumnList => 0x0020,
        CqlValueType::ColumnMap => 0x0021,
        CqlValueType::ColumnSet => 0x0022,
        CqlValueType::ColumnUnknown => 0xFFFF,
    }
}

/// An IPv4 or IPv6 address, held as plain integers.
#[derive(Clone, Copy, Debug, PartialEq, Eq, Structural)]
pub enum IpAddress {
    Ipv4(u8, u8, u8, u8),
    Ipv6(u16, u16, u16, u16, u16, u16, u16, u16),
}

/// A host address: IP plus TCP port.
#[derive(Clone, Copy, Debug, PartialEq, Eq, Structural)]
pub struct SockAddr {
    pub ip: IpAddress,
    pub port: u16,
}

/// Kind of a server-pushed event, as named on the wire.
#[derive(Clone, Copy, Debug, PartialEq, Eq, Structural)]
pub enum CqlEventType {
    TopologyChange,
    StatusChange,
    SchemaChange,
    UnknowEventType,
}

/// Kind of a topology change.
#[derive(Clone, Copy, Debug, PartialEq, Eq, Structural)]
pub enum TopologyChangeType {
    NewNode,
    RemovedNode,
    MovedNode,
    UnknownChange,
}

/// Kind of a status change.
#[derive(Clone, Copy, Debug, PartialEq, Eq, Structural)]
pub enum StatusChangeType {
    Up,
    Down,
    UnknownStatus,
}

/// Kind of a schema change.
#[derive(Clone, Copy, Debug, PartialEq, Eq, Structural)]
pub enum SchemaChangeType {
    Created,
    Updated,
    Dropped,
    UnknownSchema,
}

/// Target of a schema change, with its option strings.
#[derive(Clone, Debug, PartialEq)]
pub enum SchemaChangeOptions {
    Keyspace(String),
    Table(String, String),
    Type(String, String),
}

/// A server-pushed event, as decoded from an EVENT frame.
#[derive(Clone, Debug, PartialEq)]
pub enum CqlEvent {
    TopologyChange(TopologyChangeType, SockAddr),
    StatusChange(StatusChangeType, SockAddr),
    SchemaChange(SchemaChangeType, SchemaChangeOptions),
    UnknownEvent,
}

/// One key/value pair of a string map.
#[derive(Clone, Debug, PartialEq)]
pub struct CqlPair {
    pub key: String,
    pub value: String,
}

/// String map carried by STARTUP: a count followed by short-string pairs.
#[derive(Clone, Debug, PartialEq)]
pub struct CqlStringMap {
    pub pairs: Vec<CqlPair>,
}

/// Width of a length prefix: 4 bytes, 2 bytes, or 1 byte.
#[derive(Clone, Copy, Debug, PartialEq, Eq, Structural)]
pub enum CqlBytesSize {
    Cqli32,
    Cqli16,
    Cqli8,
}

/// A fully qualified table name.
#[derive(Clone, Debug, PartialEq)]
pub struct CqlTableDesc {
    pub keyspace: String,
    pub tablename: String,
}

/// Metadata of one column: its qualified name, its type, and for
/// collections the element type(s).
#[derive(Clone, Debug, PartialEq)]
pub struct CqlColMetadata {
    pub keyspace: String,
    pub table: String,
    pub col_name: String,
    pub col_type: CqlValueType,
    pub col_type_aux1: CqlValueType,
    pub col_type_aux2: CqlValueType,
}

/// Metadata of a rows result: flags, column count, the global table (when
/// flag 0x1 is set) and the per-column specifications.
#[derive(Clone, Debug, PartialEq)]
pub struct CqlMetadata {
    pub flags: u32,
    pub column_count: u32,
    pub keyspace: String,
    pub table: String,
    pub row_metadata: Vec<CqlColMetadata>,
}

/// A key/value pair of a map column.
#[derive(Debug, PartialEq)]
pub struct Pair<T, V> {
    pub key: T,
    pub value: V,
}

pub type CQLList = Vec<CqlValue>;

pub type CQLMap = Vec<Pair<CqlValue, CqlValue>>;

pub type CQLSet = Vec<CqlValue>;

/// A typed column value. Every variant is optional: `None` is the wire NULL
/// (length prefix -1).
///
/// `CqlFloat` and `CqlDouble` hold the IEEE-754 bits of the value, so that
/// the codec is bit-exact; `CqlUuid` and `CqlTimeUuid` hold the 16 raw
/// bytes; `CqlDecimal` and `CqlVarint` hold raw bytes that the codec does
/// not interpret (it refuses to encode them and skips them on read).
#[derive(Debug, PartialEq)]
pub enum CqlValue {
    CqlASCII(Option<String>),
    CqlBigInt(Option<i64>),
    CqlBlob(Option<Vec<u8>>),
    CqlBoolean(Option<bool>),
    CqlCounter(Option<i64>),
    CqlDecimal(Option<Vec<u8>>),
    CqlDouble(Option<u64>),
    CqlFloat(Option<u32>),
    CqlInet(Option<IpAddress>),
    CqlInt(Option<i32>),
    CqlList(Option<CQLList>),
    CqlMap(Option<CQLMap>),
    CqlSet(Option<CQLSet>),
    CqlText(Option<String>),
    CqlTimestamp(Option<u64>),
    CqlUuid(Option<Vec<u8>>),
    CqlTimeUuid(Option<Vec<u8>>),
    CqlVarchar(Option<String>),
    CqlVarint(Option<Vec<u8>>),
    CqlUnknown,
}

/// One row of a rows result.
#[derive(Debug, PartialEq)]
pub struct CqlRow {
    pub cols: Vec<CqlValue>,
}

/// A rows result: its metadata and the decoded rows.
#[derive(Debug, PartialEq)]
pub struct CqlRows {
    pub metadata: CqlMetadata,
    pub rows: Vec<CqlRow>,
}

/// A request frame before serialization.
#[derive(Debug, PartialEq)]
pub struct CqlRequest {
    pub version: u8,
    pub flags: u8,
    pub stream: i16,
    pub opcode: OpcodeRequest,
    pub body: CqlRequestBody,
}

impl CqlRequest {
    /// Set the stream id, rejecting anything outside the version's
    /// assignable range: 1 up to 127 (v1/v2) or 32767 (v3). The reserved
    /// ids 0 and -1 never carry a request.
    pub fn set_stream(&mut self, stream: i16) -> (r: RCResult<()>)
        ensures
            r is Ok <==> 1 <= stream <= crate::connection::spec_max_id(old(self).version),
            r is Ok ==> *final(self) == (CqlRequest { stream, ..*old(self) }),
            r is Err ==> *final(self) == *old(self) && (r->Err_0.kind
                == RCErrorType::EventLoopError),
    {
        let max: i16 = if self.version == 3 {
            crate::CQL_MAX_STREAM_ID_V3
        } else {
            crate::CQL_MAX_STREAM_ID_V1_V2
        };
        if stream < 1 || stream > max {
            Err(
                RCError::new(
                    "Stream id outside the version's assignable range",
                    RCErrorType::EventLoopError,
                ),
            )
        } else {
            self.stream = stream;
            Ok(())
        }
    }
}

/// Body of a request, one variant per request opcode.
#[derive(Debug, PartialEq)]
pub enum CqlRequestBody {
    RequestStartup(CqlStringMap),
    RequestCred(Vec<String>),
    RequestQuery(String, Consistency, u8),
    RequestPrepare(String),
    RequestExec(Vec<u8>, Vec<CqlValue>, Consistency, u8),
    RequestBatch(Vec<Query>, BatchType, Consistency, u8),
    RequestOptions,
    RequestAuthResponse(Vec<u8>),
    RequestRegister(Vec<String>),
}

/// A decoded response frame.
#[derive(Debug, PartialEq)]
pub struct CqlResponse {
    pub version: u8,
    pub flags: u8,
    pub stream: i16,
    pub opcode: OpcodeResponse,
    pub body: CqlResponseBody,
}

impl CqlResponse {
    /// A server-initiated event: EVENT opcode on the reserved stream -1.
    pub fn is_event(&self) -> (r: bool)
        ensures
            r == (self.opcode == OpcodeResponse::OpcodeEvent && self.stream == -1i16),
    {
        self.opcode.is_event_code() && self.stream == -1i16
    }
}

/// Body of a response, one variant per response opcode and RESULT kind.
#[derive(Debug, PartialEq)]
pub enum CqlResponseBody {
    ResponseError(u32, String),
    ResponseReady,
    ResponseAuthenticate(String),
    ResponseAuthChallenge(Vec<u8>),
    ResponseAuthSuccess(Vec<u8>),
    ResponseEvent(CqlEvent),
    ResultVoid,
    ResultRows(CqlRows),
    ResultKeyspace(String),
    ResultPrepared(CqlPreparedStat),
    ResultSchemaChange(String, String, String),
    ResultUnknown,
    ResponseEmpty,
}

/// A prepared statement: the server-issued id, the argument metadata, and
/// (for v2 and later) the result metadata.
#[derive(Debug, PartialEq)]
pub struct CqlPreparedStat {
    pub id: Vec<u8>,
    pub meta: CqlMetadata,
    pub meta_result: Option<CqlMetadata>,
}

/// One entry of a batch: a query string or a prepared execution.
#[derive(Debug, PartialEq)]
pub enum Query {
    QueryStr(String),
    QueryPrepared(Vec<u8>, Vec<CqlValue>),
    QueryBatch(Vec<Query>),
}


/// The event-type name strings of the wire protocol.
pub open spec fn spec_event_type_from(t: Seq<char>) -> CqlEventType {
    if t == "TOPOLOGY_CHANGE"@ {
        CqlEventType::TopologyChange
    } else if t == "STATUS_CHANGE"@ {
        CqlEventType::StatusChange
    } else if t == "SCHEMA_CHANGE"@ {
        CqlEventType::SchemaChange
    } else {
        CqlEventType::UnknowEventType
    }
}

pub open spec fn spec_event_type_str(t: CqlEventType) -> Seq<char> {
    match t {
        CqlEventType::TopologyChange => "TOPOLOGY_CHANGE"@,
        CqlEventType::StatusChange => "STATUS_CHANGE"@,
        CqlEventType::SchemaChange => "SCHEMA_CHANGE"@,
        CqlEventType::UnknowEventType => "UNKNOWN_EVENT"@,
    }
}

impl CqlEventType {
    /// The event kind a wire name stands for.
    pub fn from_str(s: &str) -> (r: CqlEventType)
        ensures
            r == spec_event_type_from(s@),
    {
        if crate::util::str_eq(s, "TOPOLOGY_CHANGE") {
            CqlEventType::TopologyChange
        } else if crate::util::str_eq(s, "STATUS_CHANGE") {
            CqlEventType::StatusChange
        } else if crate::util::str_eq(s, "SCHEMA_CHANGE") {
            CqlEventType::SchemaChange
        } else {
            CqlEventType::UnknowEventType
        }
    }

    /// The wire name of this event kind.
    pub fn get_str(&self) -> (r: &'static str)
        ensures
            r@ == spec_event_type_str(*self),
    {
        match *self {
            CqlEventType::TopologyChange => "TOPOLOGY_CHANGE",
            CqlEventType::StatusChange => "STATUS_CHANGE",
            CqlEventType::SchemaChange => "SCHEMA_CHANGE",
            CqlEventType::UnknowEventType => "UNKNOWN_EVENT",
        }
    }
}

impl TopologyChangeType {
    /// The topology-change kind a wire name stands for.
    pub fn from_str(s: &str) -> (r: TopologyChangeType)
        ensures
            r == crate::format::spec_topology_from(s@),
    {
        if crate::util::str_eq(s, "NEW_NODE") {
            TopologyChangeType::NewNode
        } else if crate::util::str_eq(s, "REMOVED_NODE") {
            TopologyChangeType::RemovedNode
        } else if crate::util::str_eq(s, "MOVED_NODE") {
            TopologyChangeType::MovedNode
        } else {
            TopologyChangeType::UnknownChange
        }
    }
}

impl StatusChangeType {
    /// The status-change kind a wire name stands for.
    pub fn from_str(s: &str) -> (r: StatusChangeType)
        ensures
            r == crate::format::spec_status_from(s@),
    {
        if crate::util::str_eq(s, "UP") {
            StatusChangeType::Up
        } else if crate::util::str_eq(s, "DOWN") {
            StatusChangeType::Down
        } else {
            StatusChangeType::UnknownStatus
        }
    }
}

impl SchemaChangeType {
    /// The schema-change kind a wire name stands for.
    pub fn from_str(s: &str) -> (r: SchemaChangeType)
        ensures
            r == crate::format::spec_schema_from(s@),
    {
        if crate::util::str_eq(s, "CREATED") {
            SchemaChangeType::Created
        } else if crate::util::str_eq(s, "UPDATED") {
            SchemaChangeType::Updated
        } else if crate::util::str_eq(s, "DROPPED") {
            SchemaChangeType::Dropped
        } else {
            SchemaChangeType::UnknownSchema
        }
    }
}

} // verus!
