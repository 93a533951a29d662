//! The wire format, stated mathematically.
//!
//! Every protocol object has a ghost model here (`Seq`-based mirror of the
//! executable type), a view from the executable type to the model, a
//! predicate saying which models the format can carry, and a pair of spec
//! functions giving the exact bytes of its encoding and the exact result of
//! decoding. The executable codec in `serialize` and `reader` is verified
//! against these functions, and the round-trip lemmas relate them.

use vstd::prelude::*;
use vstd::utf8::encode_utf8;
use vstd::utf8::decode_utf8;
use vstd::utf8::valid_utf8;
use vstd::utf8::is_ascii_chars;
use vstd::utf8::is_ascii_chars_encode_utf8;
use crate::def::BatchType;
use crate::def::CqlBytesSize;
use crate::def::CqlFrameHeader;
use crate::def::KindResult;
use crate::def::spec_cql_column_type;
use crate::def::spec_opcode_response;
use crate::def::spec_opcode_response_value;
use crate::def::spec_opcode_request_value;
use crate::def::spec_opcode_request_from;
use crate::def::spec_consistency_value;
use crate::def::spec_consistency_from;
use crate::def::spec_batch_type_value;
use crate::def::spec_batch_type_from;
use crate::def::spec_kind_result_from;
use crate::def::spec_column_type_value;
use crate::def::Consistency;
use crate::def::CqlColMetadata;
use crate::def::CqlEvent;
use crate::def::CqlMetadata;
use crate::def::CqlPair;
use crate::def::CqlPreparedStat;
use crate::def::CqlRequest;
use crate::def::CqlRequestBody;
use crate::def::CqlResponse;
use crate::def::CqlResponseBody;
use crate::def::CqlRow;
use crate::def::CqlRows;
use crate::def::CqlValue;
use crate::def::CqlValueType;
use crate::def::IpAddress;
use crate::def::OpcodeRequest;
use crate::def::OpcodeResponse;
use crate::def::Pair;
use crate::def::Query;
use crate::def::SchemaChangeOptions;
use crate::def::SchemaChangeType;
use crate::def::StatusChangeType;
use crate::def::TopologyChangeType;
use crate::wire::pow256;
use crate::wire::spec_be_bytes;
use crate::wire::spec_be_val;

verus! {

// ---------------------------------------------------------------------------
// Models
// ---------------------------------------------------------------------------

/// Model of a single (non-collection) column value. `VUnknown` stands for
/// the values the codec carries but does not interpret: decimal, varint,
/// custom columns, and the `CqlUnknown` placeholder.
pub enum ScalarV {
    VAscii(Option<Seq<char>>),
    VBigInt(Option<i64>),
    VBlob(Option<Seq<u8>>),
    VBoolean(Option<bool>),
    VCounter(Option<i64>),
    VDouble(Option<u64>),
    VFloat(Option<u32>),
    VInet(Option<IpAddress>),
    VInt(Option<i32>),
    VText(Option<Seq<char>>),
    VTimestamp(Option<u64>),
    VUuid(Option<Seq<u8>>),
    VTimeUuid(Option<Seq<u8>>),
    VVarchar(Option<Seq<char>>),
    VUnknown,
}

/// Model of a column value: a single value or a collection of single
/// values. The wire format carries one level of element type, so collection
/// elements are single values.
pub enum ValueV {
    VScalar(ScalarV),
    VList(Option<Seq<ScalarV>>),
    VMap(Option<Seq<(ScalarV, ScalarV)>>),
    VSet(Option<Seq<ScalarV>>),
}

/// Model of one column specification.
pub struct ColSpecV {
    pub keyspace: Seq<char>,
    pub table: Seq<char>,
    pub col_name: Seq<char>,
    pub col_type: CqlValueType,
    pub aux1: CqlValueType,
    pub aux2: CqlValueType,
}

/// Model of rows metadata.
pub struct MetadataV {
    pub flags: u32,
    pub column_count: u32,
    pub keyspace: Seq<char>,
    pub table: Seq<char>,
    pub cols: Seq<ColSpecV>,
}

/// Model of a rows result.
pub struct RowsV {
    pub metadata: MetadataV,
    pub rows: Seq<Seq<ValueV>>,
}

/// Model of a prepared-statement result.
pub struct PreparedV {
    pub id: Seq<u8>,
    pub meta: MetadataV,
    pub meta_result: Option<MetadataV>,
}

/// Model of the option strings of a schema-change event.
pub enum SchemaOptsV {
    OKeyspace(Seq<char>),
    OTable(Seq<char>, Seq<char>),
    OType(Seq<char>, Seq<char>),
}

/// Model of a server-pushed event. The wire carries only the IP address of
/// the affected host; the decoded `CqlEvent` pairs it with the default port.
pub enum EventV {
    ETopology(TopologyChangeType, IpAddress),
    EStatus(StatusChangeType, IpAddress),
    ESchema(SchemaChangeType, SchemaOptsV),
    EUnknown,
}

/// Model of one batch entry.
pub enum QueryV {
    QStr(Seq<char>),
    QPrepared(Seq<u8>, Seq<ValueV>),
    QNested,
}

/// Model of a request body.
pub enum RequestBodyV {
    RStartup(Seq<(Seq<char>, Seq<char>)>),
    RCred(Seq<Seq<char>>),
    RQuery(Seq<char>, Consistency, u8),
    RPrepare(Seq<char>),
    RExec(Seq<u8>, Seq<ValueV>, Consistency, u8),
    RBatch(Seq<QueryV>, BatchType, Consistency, u8),
    ROptions,
    RAuthResponse(Seq<u8>),
    RRegister(Seq<Seq<char>>),
}

/// Model of a request frame.
pub struct RequestV {
    pub version: u8,
    pub flags: u8,
    pub stream: i16,
    pub opcode: OpcodeRequest,
    pub body: RequestBodyV,
}

/// Model of a response body.
pub enum ResponseBodyV {
    BError(u32, Seq<char>),
    BReady,
    BAuthenticate(Seq<char>),
    BAuthChallenge(Seq<u8>),
    BAuthSuccess(Seq<u8>),
    BEvent(EventV),
    BVoid,
    BRows(RowsV),
    BKeyspace(Seq<char>),
    BPrepared(PreparedV),
    BSchemaChange(Seq<char>, Seq<char>, Seq<char>),
    BUnknown,
    BEmpty,
}

/// Model of a response frame.
pub struct ResponseV {
    pub version: u8,
    pub flags: u8,
    pub stream: i16,
    pub opcode: OpcodeResponse,
    pub body: ResponseBodyV,
}

// ---------------------------------------------------------------------------
// Views: executable types to models
// ---------------------------------------------------------------------------

pub open spec fn opt_chars(o: Option<String>) -> Option<Seq<char>> {
    match o {
        Some(s) => Some(s@),
        None => None,
    }
}

pub open spec fn opt_bytes(o: Option<Vec<u8>>) -> Option<Seq<u8>> {
    match o {
        Some(b) => Some(b@),
        None => None,
    }
}

/// Model of a `CqlValue` seen as a single value; collections map to
/// `VUnknown` (they cannot stand where a single value is expected).
pub open spec fn scalar_view(v: CqlValue) -> ScalarV {
    match v {
        CqlValue::CqlASCII(o) => ScalarV::VAscii(opt_chars(o)),
        CqlValue::CqlBigInt(o) => ScalarV::VBigInt(o),
        CqlValue::CqlBlob(o) => ScalarV::VBlob(opt_bytes(o)),
        CqlValue::CqlBoolean(o) => ScalarV::VBoolean(o),
        CqlValue::CqlCounter(o) => ScalarV::VCounter(o),
        CqlValue::CqlDouble(o) => ScalarV::VDouble(o),
        CqlValue::CqlFloat(o) => ScalarV::VFloat(o),
        CqlValue::CqlInet(o) => ScalarV::VInet(o),
        CqlValue::CqlInt(o) => ScalarV::VInt(o),
        CqlValue::CqlText(o) => ScalarV::VText(opt_chars(o)),
        CqlValue::CqlTimestamp(o) => ScalarV::VTimestamp(o),
        CqlValue::CqlUuid(o) => ScalarV::VUuid(opt_bytes(o)),
        CqlValue::CqlTimeUuid(o) => ScalarV::VTimeUuid(opt_bytes(o)),
        CqlValue::CqlVarchar(o) => ScalarV::VVarchar(opt_chars(o)),
        _ => ScalarV::VUnknown,
    }
}

pub open spec fn scalars_view(vs: Seq<CqlValue>) -> Seq<ScalarV> {
    vs.map_values(|e: CqlValue| scalar_view(e))
}

pub open spec fn pairs_view(ps: Seq<Pair<CqlValue, CqlValue>>) -> Seq<(ScalarV, ScalarV)> {
    ps.map_values(|p: Pair<CqlValue, CqlValue>| (scalar_view(p.key), scalar_view(p.value)))
}

/// Model of a `CqlValue`.
pub open spec fn value_view(v: CqlValue) -> ValueV {
    match v {
        CqlValue::CqlList(o) => ValueV::VList(
            match o {
                Some(l) => Some(scalars_view(l@)),
                None => None,
            },
        ),
        CqlValue::CqlSet(o) => ValueV::VSet(
            match o {
                Some(l) => Some(scalars_view(l@)),
                None => None,
            },
        ),
        CqlValue::CqlMap(o) => ValueV::VMap(
            match o {
                Some(l) => Some(pairs_view(l@)),
                None => None,
            },
        ),
        _ => ValueV::VScalar(scalar_view(v)),
    }
}

pub open spec fn col_view(c: CqlColMetadata) -> ColSpecV {
    ColSpecV {
        keyspace: c.keyspace@,
        table: c.table@,
        col_name: c.col_name@,
        col_type: c.col_type,
        aux1: c.col_type_aux1,
        aux2: c.col_type_aux2,
    }
}

pub open spec fn metadata_view(m: CqlMetadata) -> MetadataV {
    MetadataV {
        flags: m.flags,
        column_count: m.column_count,
        keyspace: m.keyspace@,
        table: m.table@,
        cols: m.row_metadata@.map_values(|c: CqlColMetadata| col_view(c)),
    }
}

pub open spec fn row_view(r: CqlRow) -> Seq<ValueV> {
    r.cols@.map_values(|v: CqlValue| value_view(v))
}

pub open spec fn rows_view(r: CqlRows) -> RowsV {
    RowsV {
        metadata: metadata_view(r.metadata),
        rows: r.rows@.map_values(|row: CqlRow| row_view(row)),
    }
}

pub open spec fn prepared_view(p: CqlPreparedStat) -> PreparedV {
    PreparedV {
        id: p.id@,
        meta: metadata_view(p.meta),
        meta_result: match p.meta_result {
            Some(m) => Some(metadata_view(m)),
            None => None,
        },
    }
}

pub open spec fn schema_opts_view(o: SchemaChangeOptions) -> SchemaOptsV {
    match o {
        SchemaChangeOptions::Keyspace(k) => SchemaOptsV::OKeyspace(k@),
        SchemaChangeOptions::Table(a, b) => SchemaOptsV::OTable(a@, b@),
        SchemaChangeOptions::Type(a, b) => SchemaOptsV::OType(a@, b@),
    }
}

/// Model of an event; the port of the carried socket address is not part of
/// the wire image.
pub open spec fn event_view(e: CqlEvent) -> EventV {
    match e {
        CqlEvent::TopologyChange(t, a) => EventV::ETopology(t, a.ip),
        CqlEvent::StatusChange(s, a) => EventV::EStatus(s, a.ip),
        CqlEvent::SchemaChange(s, o) => EventV::ESchema(s, schema_opts_view(o)),
        CqlEvent::UnknownEvent => EventV::EUnknown,
    }
}

pub open spec fn query_view(q: Query) -> QueryV {
    match q {
        Query::QueryStr(s) => QueryV::QStr(s@),
        Query::QueryPrepared(id, vs) => QueryV::QPrepared(
            id@,
            vs@.map_values(|v: CqlValue| value_view(v)),
        ),
        Query::QueryBatch(_) => QueryV::QNested,
    }
}

pub open spec fn strings_view(vs: Seq<String>) -> Seq<Seq<char>> {
    vs.map_values(|s: String| s@)
}

pub open spec fn request_body_view(b: CqlRequestBody) -> RequestBodyV {
    match b {
        CqlRequestBody::RequestStartup(m) => RequestBodyV::RStartup(
            m.pairs@.map_values(|p: CqlPair| (p.key@, p.value@)),
        ),
        CqlRequestBody::RequestCred(c) => RequestBodyV::RCred(strings_view(c@)),
        CqlRequestBody::RequestQuery(q, c, f) => RequestBodyV::RQuery(q@, c, f),
        CqlRequestBody::RequestPrepare(q) => RequestBodyV::RPrepare(q@),
        CqlRequestBody::RequestExec(id, vs, c, f) => RequestBodyV::RExec(
            id@,
            vs@.map_values(|v: CqlValue| value_view(v)),
            c,
            f,
        ),
        CqlRequestBody::RequestBatch(qs, t, c, f) => RequestBodyV::RBatch(
            qs@.map_values(|q: Query| query_view(q)),
            t,
            c,
            f,
        ),
        CqlRequestBody::RequestOptions => RequestBodyV::ROptions,
        CqlRequestBody::RequestAuthResponse(t) => RequestBodyV::RAuthResponse(t@),
        CqlRequestBody::RequestRegister(es) => RequestBodyV::RRegister(strings_view(es@)),
    }
}

pub open spec fn request_view(r: CqlRequest) -> RequestV {
    RequestV {
        version: r.version,
        flags: r.flags,
        stream: r.stream,
        opcode: r.opcode,
        body: request_body_view(r.body),
    }
}

pub open spec fn response_body_view(b: CqlResponseBody) -> ResponseBodyV {
    match b {
        CqlResponseBody::ResponseError(c, m) => ResponseBodyV::BError(c, m@),
        CqlResponseBody::ResponseReady => ResponseBodyV::BReady,
        CqlResponseBody::ResponseAuthenticate(s) => ResponseBodyV::BAuthenticate(s@),
        CqlResponseBody::ResponseAuthChallenge(t) => ResponseBodyV::BAuthChallenge(t@),
        CqlResponseBody::ResponseAuthSuccess(t) => ResponseBodyV::BAuthSuccess(t@),
        CqlResponseBody::ResponseEvent(e) => ResponseBodyV::BEvent(event_view(e)),
        CqlResponseBody::ResultVoid => ResponseBodyV::BVoid,
        CqlResponseBody::ResultRows(r) => ResponseBodyV::BRows(rows_view(r)),
        CqlResponseBody::ResultKeyspace(k) => ResponseBodyV::BKeyspace(k@),
        CqlResponseBody::ResultPrepared(p) => ResponseBodyV::BPrepared(prepared_view(p)),
        CqlResponseBody::ResultSchemaChange(a, b, c) => ResponseBodyV::BSchemaChange(a@, b@, c@),
        CqlResponseBody::ResultUnknown => ResponseBodyV::BUnknown,
        CqlResponseBody::ResponseEmpty => ResponseBodyV::BEmpty,
    }
}

pub open spec fn response_view(r: CqlResponse) -> ResponseV {
    ResponseV {
        version: r.version,
        flags: r.flags,
        stream: r.stream,
        opcode: r.opcode,
        body: response_body_view(r.body),
    }
}

/// The fixed protocol tokens fit under a short length prefix.
pub proof fn lemma_event_tokens_fit()
    ensures
        string_enc_ok("TOPOLOGY_CHANGE"@, CqlBytesSize::Cqli16),
        string_enc_ok("STATUS_CHANGE"@, CqlBytesSize::Cqli16),
        string_enc_ok("SCHEMA_CHANGE"@, CqlBytesSize::Cqli16),
        string_enc_ok("NEW_NODE"@, CqlBytesSize::Cqli16),
        string_enc_ok("REMOVED_NODE"@, CqlBytesSize::Cqli16),
        string_enc_ok("MOVED_NODE"@, CqlBytesSize::Cqli16),
        string_enc_ok("UP"@, CqlBytesSize::Cqli16),
        string_enc_ok("DOWN"@, CqlBytesSize::Cqli16),
        string_enc_ok("CREATED"@, CqlBytesSize::Cqli16),
        string_enc_ok("UPDATED"@, CqlBytesSize::Cqli16),
        string_enc_ok("DROPPED"@, CqlBytesSize::Cqli16),
        string_enc_ok("KEYSPACE"@, CqlBytesSize::Cqli16),
        string_enc_ok("TABLE"@, CqlBytesSize::Cqli16),
        string_enc_ok("TYPE"@, CqlBytesSize::Cqli16),
{
    reveal_strlit("TOPOLOGY_CHANGE");
    reveal_strlit("STATUS_CHANGE");
    reveal_strlit("SCHEMA_CHANGE");
    reveal_strlit("NEW_NODE");
    reveal_strlit("REMOVED_NODE");
    reveal_strlit("MOVED_NODE");
    reveal_strlit("UP");
    reveal_strlit("DOWN");
    reveal_strlit("CREATED");
    reveal_strlit("UPDATED");
    reveal_strlit("DROPPED");
    reveal_strlit("KEYSPACE");
    reveal_strlit("TABLE");
    reveal_strlit("TYPE");
    assert(is_ascii_chars("TOPOLOGY_CHANGE"@));
    assert(is_ascii_chars("STATUS_CHANGE"@));
    assert(is_ascii_chars("SCHEMA_CHANGE"@));
    assert(is_ascii_chars("NEW_NODE"@));
    assert(is_ascii_chars("REMOVED_NODE"@));
    assert(is_ascii_chars("MOVED_NODE"@));
    assert(is_ascii_chars("UP"@));
    assert(is_ascii_chars("DOWN"@));
    assert(is_ascii_chars("CREATED"@));
    assert(is_ascii_chars("UPDATED"@));
    assert(is_ascii_chars("DROPPED"@));
    assert(is_ascii_chars("KEYSPACE"@));
    assert(is_ascii_chars("TABLE"@));
    assert(is_ascii_chars("TYPE"@));
    is_ascii_chars_encode_utf8("TOPOLOGY_CHANGE"@);
    is_ascii_chars_encode_utf8("STATUS_CHANGE"@);
    is_ascii_chars_encode_utf8("SCHEMA_CHANGE"@);
    is_ascii_chars_encode_utf8("NEW_NODE"@);
    is_ascii_chars_encode_utf8("REMOVED_NODE"@);
    is_ascii_chars_encode_utf8("MOVED_NODE"@);
    is_ascii_chars_encode_utf8("UP"@);
    is_ascii_chars_encode_utf8("DOWN"@);
    is_ascii_chars_encode_utf8("CREATED"@);
    is_ascii_chars_encode_utf8("UPDATED"@);
    is_ascii_chars_encode_utf8("DROPPED"@);
    is_ascii_chars_encode_utf8("KEYSPACE"@);
    is_ascii_chars_encode_utf8("TABLE"@);
    is_ascii_chars_encode_utf8("TYPE"@);
}

/// A non-collection `CqlValue` is seen as the single value it is.
pub proof fn lemma_single_value_view(v: CqlValue)
    requires
        !(v is CqlList),
        !(v is CqlMap),
        !(v is CqlSet),
    ensures
        value_view(v) == ValueV::VScalar(scalar_view(v)),
{
}

impl View for CqlValue {
    type V = ValueV;

    open spec fn view(&self) -> ValueV {
        value_view(*self)
    }
}

impl View for CqlMetadata {
    type V = MetadataV;

    open spec fn view(&self) -> MetadataV {
        metadata_view(*self)
    }
}

impl View for CqlRows {
    type V = RowsV;

    open spec fn view(&self) -> RowsV {
        rows_view(*self)
    }
}

impl View for CqlPreparedStat {
    type V = PreparedV;

    open spec fn view(&self) -> PreparedV {
        prepared_view(*self)
    }
}

impl View for CqlEvent {
    type V = EventV;

    open spec fn view(&self) -> EventV {
        event_view(*self)
    }
}

impl View for CqlRequest {
    type V = RequestV;

    open spec fn view(&self) -> RequestV {
        request_view(*self)
    }
}

impl View for CqlResponse {
    type V = ResponseV;

    open spec fn view(&self) -> ResponseV {
        response_view(*self)
    }
}


// ---------------------------------------------------------------------------
// Length prefixes
// ---------------------------------------------------------------------------

/// Byte width of a length prefix.
pub open spec fn prefix_width(sz: CqlBytesSize) -> nat {
    match sz {
        CqlBytesSize::Cqli32 => 4,
        CqlBytesSize::Cqli16 => 2,
        CqlBytesSize::Cqli8 => 1,
    }
}

/// Largest length a prefix can carry (the prefix is signed; negative values
/// mean NULL).
pub open spec fn prefix_max(sz: CqlBytesSize) -> nat {
    match sz {
        CqlBytesSize::Cqli32 => 0x7FFF_FFFF,
        CqlBytesSize::Cqli16 => 0x7FFF,
        CqlBytesSize::Cqli8 => 0x7F,
    }
}

/// Two's-complement image of `n` on `w` bytes.
pub open spec fn to_unsigned(n: int, w: nat) -> nat {
    if n >= 0 {
        n as nat
    } else {
        (n + pow256(w)) as nat
    }
}

/// Signed reading of a `w`-byte unsigned value.
pub open spec fn to_signed(v: nat, w: nat) -> int {
    if v < pow256(w) / 2 {
        v as int
    } else {
        v - pow256(w)
    }
}

/// The bytes of a signed length prefix.
pub open spec fn spec_len_prefix(n: int, sz: CqlBytesSize) -> Seq<u8> {
    spec_be_bytes(to_unsigned(n, prefix_width(sz)), prefix_width(sz))
}

/// Read `w` bytes at `pos` as an unsigned big-endian value.
pub open spec fn spec_dec_be(s: Seq<u8>, pos: int, w: nat) -> Option<(nat, int)> {
    if 0 <= pos && pos + w <= s.len() {
        Some((spec_be_val(s.subrange(pos, pos + w)), pos + w))
    } else {
        None
    }
}

/// Read a signed length prefix at `pos`.
pub open spec fn spec_dec_len(s: Seq<u8>, pos: int, sz: CqlBytesSize) -> Option<(int, int)> {
    match spec_dec_be(s, pos, prefix_width(sz)) {
        Some((v, p)) => Some((to_signed(v, prefix_width(sz)), p)),
        None => None,
    }
}

// ---------------------------------------------------------------------------
// Length-prefixed bytes and strings
// ---------------------------------------------------------------------------

/// Length-prefixed byte string: the signed length, then the bytes.
pub open spec fn spec_enc_lp_bytes(b: Seq<u8>, sz: CqlBytesSize) -> Seq<u8> {
    spec_len_prefix(b.len() as int, sz) + b
}

/// The NULL value: length prefix -1 and no bytes.
pub open spec fn spec_enc_null(sz: CqlBytesSize) -> Seq<u8> {
    spec_len_prefix(-1, sz)
}

/// Read length-prefixed bytes; a negative length is NULL.
pub open spec fn spec_dec_lp_bytes(s: Seq<u8>, pos: int, sz: CqlBytesSize) -> Option<
    (Option<Seq<u8>>, int),
> {
    match spec_dec_len(s, pos, sz) {
        Some((l, p)) => if l < 0 {
            Some((None, p))
        } else if p + l <= s.len() {
            Some((Some(s.subrange(p, p + l)), p + l))
        } else {
            None
        },
        None => None,
    }
}

/// UTF-8 string over a length prefix.
pub open spec fn spec_enc_string(t: Seq<char>, sz: CqlBytesSize) -> Seq<u8> {
    spec_enc_lp_bytes(encode_utf8(t), sz)
}

pub open spec fn string_enc_ok(t: Seq<char>, sz: CqlBytesSize) -> bool {
    encode_utf8(t).len() <= prefix_max(sz)
}

/// Read a string; a negative length is NULL, invalid UTF-8 is a failure.
pub open spec fn spec_dec_string(s: Seq<u8>, pos: int, sz: CqlBytesSize) -> Option<
    (Option<Seq<char>>, int),
> {
    match spec_dec_lp_bytes(s, pos, sz) {
        Some((Some(b), p)) => if valid_utf8(b) {
            Some((Some(decode_utf8(b)), p))
        } else {
            None
        },
        Some((None, p)) => Some((None, p)),
        None => None,
    }
}

/// Read a string that the grammar does not allow to be NULL.
pub open spec fn spec_dec_string_nn(s: Seq<u8>, pos: int, sz: CqlBytesSize) -> Option<
    (Seq<char>, int),
> {
    match spec_dec_string(s, pos, sz) {
        Some((Some(t), p)) => Some((t, p)),
        _ => None,
    }
}

// ---------------------------------------------------------------------------
// Single values
// ---------------------------------------------------------------------------

/// Whether this single value is the NULL of its type.
pub open spec fn scalar_is_null(v: ScalarV) -> bool {
    match v {
        ScalarV::VAscii(o) => o is None,
        ScalarV::VBigInt(o) => o is None,
        ScalarV::VBlob(o) => o is None,
        ScalarV::VBoolean(o) => o is None,
        ScalarV::VCounter(o) => o is None,
        ScalarV::VDouble(o) => o is None,
        ScalarV::VFloat(o) => o is None,
        ScalarV::VInet(o) => o is None,
        ScalarV::VInt(o) => o is None,
        ScalarV::VText(o) => o is None,
        ScalarV::VTimestamp(o) => o is None,
        ScalarV::VUuid(o) => o is None,
        ScalarV::VTimeUuid(o) => o is None,
        ScalarV::VVarchar(o) => o is None,
        ScalarV::VUnknown => false,
    }
}

/// The value bytes of a non-NULL single value (what stands after its length
/// prefix).
pub open spec fn spec_scalar_body(v: ScalarV) -> Seq<u8> {
    match v {
        ScalarV::VAscii(Some(t)) => encode_utf8(t),
        ScalarV::VText(Some(t)) => encode_utf8(t),
        ScalarV::VVarchar(Some(t)) => encode_utf8(t),
        ScalarV::VBigInt(Some(i)) => spec_be_bytes(to_unsigned(i as int, 8), 8),
        ScalarV::VCounter(Some(i)) => spec_be_bytes(to_unsigned(i as int, 8), 8),
        ScalarV::VBlob(Some(b)) => b,
        ScalarV::VBoolean(Some(b)) => seq![if b { 1u8 } else { 0u8 }],
        ScalarV::VDouble(Some(bits)) => spec_be_bytes(bits as nat, 8),
        ScalarV::VFloat(Some(bits)) => spec_be_bytes(bits as nat, 4),
        ScalarV::VInet(Some(ip)) => spec_inet_bytes(ip),
        ScalarV::VInt(Some(i)) => spec_be_bytes(to_unsigned(i as int, 4), 4),
        ScalarV::VTimestamp(Some(u)) => spec_be_bytes(u as nat, 8),
        ScalarV::VUuid(Some(b)) => b,
        ScalarV::VTimeUuid(Some(b)) => b,
        _ => seq![],
    }
}

/// Address bytes of an inet value: 4 bytes for v4, 16 for v6.
pub open spec fn spec_inet_bytes(ip: IpAddress) -> Seq<u8> {
    match ip {
        IpAddress::Ipv4(a, b, c, d) => seq![a, b, c, d],
        IpAddress::Ipv6(s0, s1, s2, s3, s4, s5, s6, s7) => spec_be_bytes(s0 as nat, 2)
            + spec_be_bytes(s1 as nat, 2) + spec_be_bytes(s2 as nat, 2) + spec_be_bytes(
            s3 as nat,
            2,
        ) + spec_be_bytes(s4 as nat, 2) + spec_be_bytes(s5 as nat, 2) + spec_be_bytes(s6 as nat, 2)
            + spec_be_bytes(s7 as nat, 2),
    }
}

/// Which single values the format can carry under the given prefix width.
/// Decimal, varint and custom values are carried opaquely on read but are
/// refused on write, so `VUnknown` is never encodable.
pub open spec fn scalar_enc_ok(v: ScalarV, sz: CqlBytesSize) -> bool {
    match v {
        ScalarV::VUnknown => false,
        ScalarV::VUuid(Some(b)) => b.len() == 16,
        ScalarV::VTimeUuid(Some(b)) => b.len() == 16,
        _ => scalar_is_null(v) || spec_scalar_body(v).len() <= prefix_max(sz),
    }
}

/// Encoding of a single value: NULL, or its bytes over a length prefix.
pub open spec fn spec_enc_scalar(v: ScalarV, sz: CqlBytesSize) -> Seq<u8> {
    if scalar_is_null(v) {
        spec_enc_null(sz)
    } else {
        spec_enc_lp_bytes(spec_scalar_body(v), sz)
    }
}

/// The NULL single value of a column type. For the types the codec does not
/// interpret, the placeholder stands in.
pub open spec fn scalar_null_of(ty: CqlValueType) -> ScalarV {
    match ty {
        CqlValueType::ColumnASCII => ScalarV::VAscii(None),
        CqlValueType::ColumnBigInt => ScalarV::VBigInt(None),
        CqlValueType::ColumnBlob => ScalarV::VBlob(None),
        CqlValueType::ColumnBoolean => ScalarV::VBoolean(None),
        CqlValueType::ColumnCounter => ScalarV::VCounter(None),
        CqlValueType::ColumnDouble => ScalarV::VDouble(None),
        CqlValueType::ColumnFloat => ScalarV::VFloat(None),
        CqlValueType::ColumnInet => ScalarV::VInet(None),
        CqlValueType::ColumnInt => ScalarV::VInt(None),
        CqlValueType::ColumnText => ScalarV::VText(None),
        CqlValueType::ColumnTimestamp => ScalarV::VTimestamp(None),
        CqlValueType::ColumnUuid => ScalarV::VUuid(None),
        CqlValueType::ColumnTimeUuid => ScalarV::VTimeUuid(None),
        CqlValueType::ColumnVarChar => ScalarV::VVarchar(None),
        _ => ScalarV::VUnknown,
    }
}

/// Decode the value bytes `b` of a non-NULL single value of type `ty`.
pub open spec fn spec_dec_scalar_body(ty: CqlValueType, b: Seq<u8>) -> Option<ScalarV> {
    match ty {
        CqlValueType::ColumnASCII => if valid_utf8(b) {
            Some(ScalarV::VAscii(Some(decode_utf8(b))))
        } else {
            None
        },
        CqlValueType::ColumnText => if valid_utf8(b) {
            Some(ScalarV::VText(Some(decode_utf8(b))))
        } else {
            None
        },
        CqlValueType::ColumnVarChar => if valid_utf8(b) {
            Some(ScalarV::VVarchar(Some(decode_utf8(b))))
        } else {
            None
        },
        CqlValueType::ColumnInt => if b.len() == 4 {
            Some(ScalarV::VInt(Some(to_signed(spec_be_val(b), 4) as i32)))
        } else {
            None
        },
        CqlValueType::ColumnBigInt => if b.len() == 8 {
            Some(ScalarV::VBigInt(Some(to_signed(spec_be_val(b), 8) as i64)))
        } else {
            None
        },
        CqlValueType::ColumnCounter => if b.len() == 8 {
            Some(ScalarV::VCounter(Some(to_signed(spec_be_val(b), 8) as i64)))
        } else {
            None
        },
        CqlValueType::ColumnFloat => if b.len() == 4 {
            Some(ScalarV::VFloat(Some(spec_be_val(b) as u32)))
        } else {
            None
        },
        CqlValueType::ColumnDouble => if b.len() == 8 {
            Some(ScalarV::VDouble(Some(spec_be_val(b) as u64)))
        } else {
            None
        },
        CqlValueType::ColumnTimestamp => if b.len() == 8 {
            Some(ScalarV::VTimestamp(Some(spec_be_val(b) as u64)))
        } else {
            None
        },
        CqlValueType::ColumnBoolean => if b.len() == 1 {
            Some(ScalarV::VBoolean(Some(b[0] != 0)))
        } else {
            None
        },
        CqlValueType::ColumnBlob => Some(ScalarV::VBlob(Some(b))),
        CqlValueType::ColumnUuid => if b.len() == 16 {
            Some(ScalarV::VUuid(Some(b)))
        } else {
            None
        },
        CqlValueType::ColumnTimeUuid => if b.len() == 16 {
            Some(ScalarV::VTimeUuid(Some(b)))
        } else {
            None
        },
        CqlValueType::ColumnInet => if b.len() == 4 {
            Some(ScalarV::VInet(Some(IpAddress::Ipv4(b[0], b[1], b[2], b[3]))))
        } else if b.len() == 16 {
            Some(
                ScalarV::VInet(
                    Some(
                        IpAddress::Ipv6(
                            spec_be_val(b.subrange(0, 2)) as u16,
                            spec_be_val(b.subrange(2, 4)) as u16,
                            spec_be_val(b.subrange(4, 6)) as u16,
                            spec_be_val(b.subrange(6, 8)) as u16,
                            spec_be_val(b.subrange(8, 10)) as u16,
                            spec_be_val(b.subrange(10, 12)) as u16,
                            spec_be_val(b.subrange(12, 14)) as u16,
                            spec_be_val(b.subrange(14, 16)) as u16,
                        ),
                    ),
                ),
            )
        } else {
            None
        },
        CqlValueType::ColumnCustom => Some(ScalarV::VUnknown),
        CqlValueType::ColumnDecimal => Some(ScalarV::VUnknown),
        CqlValueType::ColumnVarint => Some(ScalarV::VUnknown),
        _ => None,
    }
}

/// Decode a single value of type `ty` at `pos` under prefix width `sz`.
pub open spec fn spec_dec_scalar(ty: CqlValueType, s: Seq<u8>, pos: int, sz: CqlBytesSize) -> Option<
    (ScalarV, int),
> {
    match spec_dec_lp_bytes(s, pos, sz) {
        Some((None, p)) => Some((scalar_null_of(ty), p)),
        Some((Some(b), p)) => match spec_dec_scalar_body(ty, b) {
            Some(v) => Some((v, p)),
            None => None,
        },
        None => None,
    }
}

// ---------------------------------------------------------------------------
// Collection values
// ---------------------------------------------------------------------------

/// A column type that can stand as a collection element.
pub open spec fn is_single_type(ty: CqlValueType) -> bool {
    match ty {
        CqlValueType::ColumnList => false,
        CqlValueType::ColumnMap => false,
        CqlValueType::ColumnSet => false,
        CqlValueType::ColumnUnknown => false,
        _ => true,
    }
}

/// Whether a single value belongs to a column type.
pub open spec fn scalar_matches(ty: CqlValueType, v: ScalarV) -> bool {
    match v {
        ScalarV::VAscii(_) => ty == CqlValueType::ColumnASCII,
        ScalarV::VBigInt(_) => ty == CqlValueType::ColumnBigInt,
        ScalarV::VBlob(_) => ty == CqlValueType::ColumnBlob,
        ScalarV::VBoolean(_) => ty == CqlValueType::ColumnBoolean,
        ScalarV::VCounter(_) => ty == CqlValueType::ColumnCounter,
        ScalarV::VDouble(_) => ty == CqlValueType::ColumnDouble,
        ScalarV::VFloat(_) => ty == CqlValueType::ColumnFloat,
        ScalarV::VInet(_) => ty == CqlValueType::ColumnInet,
        ScalarV::VInt(_) => ty == CqlValueType::ColumnInt,
        ScalarV::VText(_) => ty == CqlValueType::ColumnText,
        ScalarV::VTimestamp(_) => ty == CqlValueType::ColumnTimestamp,
        ScalarV::VUuid(_) => ty == CqlValueType::ColumnUuid,
        ScalarV::VTimeUuid(_) => ty == CqlValueType::ColumnTimeUuid,
        ScalarV::VVarchar(_) => ty == CqlValueType::ColumnVarChar,
        ScalarV::VUnknown => false,
    }
}

/// Concatenated encodings of collection elements.
pub open spec fn spec_enc_elems(es: Seq<ScalarV>, sz: CqlBytesSize) -> Seq<u8>
    decreases es.len(),
{
    if es.len() == 0 {
        seq![]
    } else {
        spec_enc_scalar(es[0], sz) + spec_enc_elems(es.drop_first(), sz)
    }
}

/// Concatenated encodings of map entries: key then value, each
/// element-prefixed.
pub open spec fn spec_enc_entries(ps: Seq<(ScalarV, ScalarV)>, sz: CqlBytesSize) -> Seq<u8>
    decreases ps.len(),
{
    if ps.len() == 0 {
        seq![]
    } else {
        spec_enc_scalar(ps[0].0, sz) + spec_enc_scalar(ps[0].1, sz) + spec_enc_entries(
            ps.drop_first(),
            sz,
        )
    }
}

/// The value bytes of a non-NULL collection: element count on the
/// element-prefix width, then the elements.
pub open spec fn spec_value_body(v: ValueV, esz: CqlBytesSize) -> Seq<u8> {
    match v {
        ValueV::VList(Some(es)) => spec_be_bytes(es.len(), prefix_width(esz)) + spec_enc_elems(
            es,
            esz,
        ),
        ValueV::VSet(Some(es)) => spec_be_bytes(es.len(), prefix_width(esz)) + spec_enc_elems(
            es,
            esz,
        ),
        ValueV::VMap(Some(ps)) => spec_be_bytes(ps.len(), prefix_width(esz)) + spec_enc_entries(
            ps,
            esz,
        ),
        ValueV::VScalar(sv) => spec_scalar_body(sv),
        _ => seq![],
    }
}

pub open spec fn value_is_null(v: ValueV) -> bool {
    match v {
        ValueV::VScalar(sv) => scalar_is_null(sv),
        ValueV::VList(o) => o is None,
        ValueV::VSet(o) => o is None,
        ValueV::VMap(o) => o is None,
    }
}

/// Encoding of a column value at top level: a 4-byte length prefix, then
/// the value bytes; collection counts and elements use the element-prefix
/// width `esz` of the protocol version.
pub open spec fn spec_enc_value(v: ValueV, esz: CqlBytesSize) -> Seq<u8> {
    if value_is_null(v) {
        spec_enc_null(CqlBytesSize::Cqli32)
    } else {
        spec_enc_lp_bytes(spec_value_body(v, esz), CqlBytesSize::Cqli32)
    }
}

/// Which column values the format can carry.
pub open spec fn value_enc_ok(v: ValueV, esz: CqlBytesSize) -> bool {
    match v {
        ValueV::VScalar(sv) => scalar_enc_ok(sv, CqlBytesSize::Cqli32),
        ValueV::VList(Some(es)) => es.len() <= prefix_max(esz) && (forall|i: int|
            0 <= i < es.len() ==> scalar_enc_ok(#[trigger] es[i], esz)) && spec_value_body(
            v,
            esz,
        ).len() <= prefix_max(CqlBytesSize::Cqli32),
        ValueV::VSet(Some(es)) => es.len() <= prefix_max(esz) && (forall|i: int|
            0 <= i < es.len() ==> scalar_enc_ok(#[trigger] es[i], esz)) && spec_value_body(
            v,
            esz,
        ).len() <= prefix_max(CqlBytesSize::Cqli32),
        ValueV::VMap(Some(ps)) => ps.len() <= prefix_max(esz) && (forall|i: int|
            0 <= i < ps.len() ==> scalar_enc_ok((#[trigger] ps[i]).0, esz) && scalar_enc_ok(
                ps[i].1,
                esz,
            )) && spec_value_body(v, esz).len() <= prefix_max(CqlBytesSize::Cqli32),
        _ => true,
    }
}

/// Decode `n` collection elements of type `ty`.
pub open spec fn spec_dec_elems(
    ty: CqlValueType,
    s: Seq<u8>,
    pos: int,
    n: nat,
    sz: CqlBytesSize,
) -> Option<(Seq<ScalarV>, int)>
    decreases n,
{
    if n == 0 {
        Some((seq![], pos))
    } else {
        match spec_dec_scalar(ty, s, pos, sz) {
            Some((e, p)) => match spec_dec_elems(ty, s, p, (n - 1) as nat, sz) {
                Some((es, p2)) => Some((seq![e] + es, p2)),
                None => None,
            },
            None => None,
        }
    }
}

/// Decode `n` map entries.
pub open spec fn spec_dec_entries(
    kt: CqlValueType,
    vt: CqlValueType,
    s: Seq<u8>,
    pos: int,
    n: nat,
    sz: CqlBytesSize,
) -> Option<(Seq<(ScalarV, ScalarV)>, int)>
    decreases n,
{
    if n == 0 {
        Some((seq![], pos))
    } else {
        match spec_dec_scalar(kt, s, pos, sz) {
            Some((k, p)) => match spec_dec_scalar(vt, s, p, sz) {
                Some((v, p2)) => match spec_dec_entries(kt, vt, s, p2, (n - 1) as nat, sz) {
                    Some((ps, p3)) => Some((seq![(k, v)] + ps, p3)),
                    None => None,
                },
                None => None,
            },
            None => None,
        }
    }
}

/// Decode the body of a non-NULL collection that spans exactly `l` bytes.
pub open spec fn spec_dec_collection_body(
    ty: CqlValueType,
    aux1: CqlValueType,
    aux2: CqlValueType,
    s: Seq<u8>,
    pos: int,
    l: int,
    esz: CqlBytesSize,
) -> Option<(ValueV, int)> {
    match spec_dec_be(s, pos, prefix_width(esz)) {
        Some((cnt, p)) => if to_signed(cnt, prefix_width(esz)) < 0 {
            None
        } else if ty == CqlValueType::ColumnMap {
            match spec_dec_entries(aux1, aux2, s, p, cnt, esz) {
                Some((ps, p2)) => if p2 == pos + l {
                    Some((ValueV::VMap(Some(ps)), p2))
                } else {
                    None
                },
                None => None,
            }
        } else {
            match spec_dec_elems(aux1, s, p, cnt, esz) {
                Some((es, p2)) => if p2 != pos + l {
                    None
                } else if ty == CqlValueType::ColumnList {
                    Some((ValueV::VList(Some(es)), p2))
                } else {
                    Some((ValueV::VSet(Some(es)), p2))
                },
                None => None,
            }
        },
        None => None,
    }
}

/// Decode a column value of type `ty` (with element types `aux1`/`aux2`)
/// at top level.
pub open spec fn spec_dec_value(
    ty: CqlValueType,
    aux1: CqlValueType,
    aux2: CqlValueType,
    s: Seq<u8>,
    pos: int,
    esz: CqlBytesSize,
) -> Option<(ValueV, int)> {
    if ty == CqlValueType::ColumnList || ty == CqlValueType::ColumnSet || ty
        == CqlValueType::ColumnMap {
        match spec_dec_len(s, pos, CqlBytesSize::Cqli32) {
            Some((l, p)) => if l < 0 {
                if ty == CqlValueType::ColumnList {
                    Some((ValueV::VList(None), p))
                } else if ty == CqlValueType::ColumnSet {
                    Some((ValueV::VSet(None), p))
                } else {
                    Some((ValueV::VMap(None), p))
                }
            } else if p + l <= s.len() {
                spec_dec_collection_body(ty, aux1, aux2, s, p, l, esz)
            } else {
                None
            },
            None => None,
        }
    } else {
        match spec_dec_scalar(ty, s, pos, CqlBytesSize::Cqli32) {
            Some((sv, p)) => Some((ValueV::VScalar(sv), p)),
            None => None,
        }
    }
}


// ---------------------------------------------------------------------------
// Rows metadata
// ---------------------------------------------------------------------------

/// The flag marking a global keyspace/table pair in rows metadata.
pub open spec fn metadata_global(flags: u32) -> bool {
    flags % 2 == 1
}

/// Whether a column type carries a first element type on the wire
/// (its type-key is 0x20 or above).
pub open spec fn has_aux1(ty: CqlValueType) -> bool {
    ty == CqlValueType::ColumnList || ty == CqlValueType::ColumnMap || ty
        == CqlValueType::ColumnSet
}

/// Whether a column type carries a second element type (maps only).
pub open spec fn has_aux2(ty: CqlValueType) -> bool {
    ty == CqlValueType::ColumnMap
}

/// Encoding of one column specification.
pub open spec fn spec_enc_col(c: ColSpecV, global: bool) -> Seq<u8> {
    (if global {
        seq![]
    } else {
        spec_enc_string(c.keyspace, CqlBytesSize::Cqli16) + spec_enc_string(
            c.table,
            CqlBytesSize::Cqli16,
        )
    }) + spec_enc_string(c.col_name, CqlBytesSize::Cqli16) + spec_be_bytes(
        spec_column_type_value(c.col_type) as nat,
        2,
    ) + (if has_aux1(c.col_type) {
        spec_be_bytes(spec_column_type_value(c.aux1) as nat, 2)
    } else {
        seq![]
    }) + (if has_aux2(c.col_type) {
        spec_be_bytes(spec_column_type_value(c.aux2) as nat, 2)
    } else {
        seq![]
    })
}

pub open spec fn col_enc_ok(c: ColSpecV, global: bool) -> bool {
    &&& (!global ==> string_enc_ok(c.keyspace, CqlBytesSize::Cqli16) && string_enc_ok(
        c.table,
        CqlBytesSize::Cqli16,
    ))
    &&& string_enc_ok(c.col_name, CqlBytesSize::Cqli16)
    &&& c.col_type != CqlValueType::ColumnUnknown
    &&& (if has_aux1(c.col_type) {
        is_single_type(c.aux1)
    } else {
        c.aux1 == CqlValueType::ColumnUnknown
    })
    &&& (if has_aux2(c.col_type) {
        is_single_type(c.aux2)
    } else {
        c.aux2 == CqlValueType::ColumnUnknown
    })
}

pub open spec fn spec_enc_cols(cols: Seq<ColSpecV>, global: bool) -> Seq<u8>
    decreases cols.len(),
{
    if cols.len() == 0 {
        seq![]
    } else {
        spec_enc_col(cols[0], global) + spec_enc_cols(cols.drop_first(), global)
    }
}

/// Encoding of rows metadata.
pub open spec fn spec_enc_metadata(m: MetadataV) -> Seq<u8> {
    spec_be_bytes(m.flags as nat, 4) + spec_be_bytes(m.column_count as nat, 4) + (if metadata_global(
        m.flags,
    ) {
        spec_enc_string(m.keyspace, CqlBytesSize::Cqli16) + spec_enc_string(
            m.table,
            CqlBytesSize::Cqli16,
        )
    } else {
        seq![]
    }) + spec_enc_cols(m.cols, metadata_global(m.flags))
}

pub open spec fn metadata_enc_ok(m: MetadataV) -> bool {
    &&& m.column_count == m.cols.len()
    &&& (metadata_global(m.flags) ==> string_enc_ok(m.keyspace, CqlBytesSize::Cqli16)
        && string_enc_ok(m.table, CqlBytesSize::Cqli16))
    &&& (!metadata_global(m.flags) ==> m.keyspace.len() == 0 && m.table.len() == 0)
    &&& (metadata_global(m.flags) ==> forall|i: int|
        0 <= i < m.cols.len() ==> (#[trigger] m.cols[i]).keyspace == m.keyspace
            && m.cols[i].table == m.table)
    &&& forall|i: int| 0 <= i < m.cols.len() ==> col_enc_ok(#[trigger] m.cols[i], metadata_global(m.flags))
}

/// Decode one column specification.
pub open spec fn spec_dec_col(
    s: Seq<u8>,
    pos: int,
    global: bool,
    gks: Seq<char>,
    gtb: Seq<char>,
) -> Option<(ColSpecV, int)> {
    let names = if global {
        Some((gks, gtb, pos))
    } else {
        match spec_dec_string_nn(s, pos, CqlBytesSize::Cqli16) {
            Some((ks, p1)) => match spec_dec_string_nn(s, p1, CqlBytesSize::Cqli16) {
                Some((tb, p2)) => Some((ks, tb, p2)),
                None => None,
            },
            None => None,
        }
    };
    match names {
        Some((ks, tb, p)) => match spec_dec_string_nn(s, p, CqlBytesSize::Cqli16) {
            Some((name, p2)) => match spec_dec_be(s, p2, 2) {
                Some((tk, p3)) => {
                    let ty = spec_cql_column_type(tk as u16);
                    if ty == CqlValueType::ColumnUnknown {
                        None
                    } else if tk >= 0x20 {
                        match spec_dec_be(s, p3, 2) {
                            Some((ak1, p4)) => {
                                let a1 = spec_cql_column_type(ak1 as u16);
                                if !is_single_type(a1) {
                                    None
                                } else if tk == 0x21 {
                                    match spec_dec_be(s, p4, 2) {
                                        Some((ak2, p5)) => {
                                            let a2 = spec_cql_column_type(ak2 as u16);
                                            if !is_single_type(a2) {
                                                None
                                            } else {
                                                Some(
                                                    (
                                                        ColSpecV {
                                                            keyspace: ks,
                                                            table: tb,
                                                            col_name: name,
                                                            col_type: ty,
                                                            aux1: a1,
                                                            aux2: a2,
                                                        },
                                                        p5,
                                                    ),
                                                )
                                            }
                                        },
                                        None => None,
                                    }
                                } else {
                                    Some(
                                        (
                                            ColSpecV {
                                                keyspace: ks,
                                                table: tb,
                                                col_name: name,
                                                col_type: ty,
                                                aux1: a1,
                                                aux2: CqlValueType::ColumnUnknown,
                                            },
                                            p4,
                                        ),
                                    )
                                }
                            },
                            None => None,
                        }
                    } else {
                        Some(
                            (
                                ColSpecV {
                                    keyspace: ks,
                                    table: tb,
                                    col_name: name,
                                    col_type: ty,
                                    aux1: CqlValueType::ColumnUnknown,
                                    aux2: CqlValueType::ColumnUnknown,
                                },
                                p3,
                            ),
                        )
                    }
                },
                None => None,
            },
            None => None,
        },
        None => None,
    }
}

pub open spec fn spec_dec_cols(
    s: Seq<u8>,
    pos: int,
    n: nat,
    global: bool,
    gks: Seq<char>,
    gtb: Seq<char>,
) -> Option<(Seq<ColSpecV>, int)>
    decreases n,
{
    if n == 0 {
        Some((seq![], pos))
    } else {
        match spec_dec_col(s, pos, global, gks, gtb) {
            Some((c, p)) => match spec_dec_cols(s, p, (n - 1) as nat, global, gks, gtb) {
                Some((cs, p2)) => Some((seq![c] + cs, p2)),
                None => None,
            },
            None => None,
        }
    }
}

/// Decode rows metadata.
pub open spec fn spec_dec_metadata(s: Seq<u8>, pos: int) -> Option<(MetadataV, int)> {
    match spec_dec_be(s, pos, 4) {
        Some((flags, p1)) => match spec_dec_be(s, p1, 4) {
            Some((cc, p2)) => {
                let global = metadata_global(flags as u32);
                let hdr = if global {
                    match spec_dec_string_nn(s, p2, CqlBytesSize::Cqli16) {
                        Some((ks, p3)) => match spec_dec_string_nn(s, p3, CqlBytesSize::Cqli16) {
                            Some((tb, p4)) => Some((ks, tb, p4)),
                            None => None,
                        },
                        None => None,
                    }
                } else {
                    Some((Seq::<char>::empty(), Seq::<char>::empty(), p2))
                };
                match hdr {
                    Some((ks, tb, p5)) => match spec_dec_cols(s, p5, cc, global, ks, tb) {
                        Some((cols, p6)) => Some(
                            (
                                MetadataV {
                                    flags: flags as u32,
                                    column_count: cc as u32,
                                    keyspace: ks,
                                    table: tb,
                                    cols,
                                },
                                p6,
                            ),
                        ),
                        None => None,
                    },
                    None => None,
                }
            },
            None => None,
        },
        None => None,
    }
}

// ---------------------------------------------------------------------------
// Rows
// ---------------------------------------------------------------------------

/// Whether every element belongs to the element type.
pub open spec fn elems_match_type(ty: CqlValueType, es: Seq<ScalarV>) -> bool {
    forall|i: int| 0 <= i < es.len() ==> scalar_matches(ty, #[trigger] es[i])
}

/// Whether every entry's key and value belong to the entry types.
pub open spec fn entries_match_types(
    kt: CqlValueType,
    vt: CqlValueType,
    ps: Seq<(ScalarV, ScalarV)>,
) -> bool {
    forall|i: int|
        0 <= i < ps.len() ==> scalar_matches(kt, (#[trigger] ps[i]).0) && scalar_matches(
            vt,
            ps[i].1,
        )
}

/// Whether a column value belongs under a column specification.
pub open spec fn value_matches_col(v: ValueV, c: ColSpecV) -> bool {
    match c.col_type {
        CqlValueType::ColumnList => match v {
            ValueV::VList(Some(es)) => elems_match_type(c.aux1, es),
            ValueV::VList(None) => true,
            _ => false,
        },
        CqlValueType::ColumnSet => match v {
            ValueV::VSet(Some(es)) => elems_match_type(c.aux1, es),
            ValueV::VSet(None) => true,
            _ => false,
        },
        CqlValueType::ColumnMap => match v {
            ValueV::VMap(Some(ps)) => entries_match_types(c.aux1, c.aux2, ps),
            ValueV::VMap(None) => true,
            _ => false,
        },
        _ => match v {
            ValueV::VScalar(sv) => scalar_matches(c.col_type, sv),
            _ => false,
        },
    }
}

pub open spec fn spec_enc_row(r: Seq<ValueV>, esz: CqlBytesSize) -> Seq<u8>
    decreases r.len(),
{
    if r.len() == 0 {
        seq![]
    } else {
        spec_enc_value(r[0], esz) + spec_enc_row(r.drop_first(), esz)
    }
}

pub open spec fn spec_enc_rows_seq(rows: Seq<Seq<ValueV>>, esz: CqlBytesSize) -> Seq<u8>
    decreases rows.len(),
{
    if rows.len() == 0 {
        seq![]
    } else {
        spec_enc_row(rows[0], esz) + spec_enc_rows_seq(rows.drop_first(), esz)
    }
}

/// Encoding of a rows result: metadata, row count, then the cell values row
/// by row.
pub open spec fn spec_enc_rows(rv: RowsV, esz: CqlBytesSize) -> Seq<u8> {
    spec_enc_metadata(rv.metadata) + spec_be_bytes(rv.rows.len(), 4) + spec_enc_rows_seq(
        rv.rows,
        esz,
    )
}

pub open spec fn row_enc_ok(r: Seq<ValueV>, cols: Seq<ColSpecV>, esz: CqlBytesSize) -> bool {
    &&& r.len() == cols.len()
    &&& forall|i: int|
        0 <= i < r.len() ==> value_matches_col(#[trigger] r[i], cols[i]) && value_enc_ok(
            r[i],
            esz,
        )
}

pub open spec fn rows_enc_ok(rv: RowsV, esz: CqlBytesSize) -> bool {
    &&& metadata_enc_ok(rv.metadata)
    &&& rv.rows.len() <= 0xFFFF_FFFF
    &&& forall|i: int| 0 <= i < rv.rows.len() ==> row_enc_ok(#[trigger] rv.rows[i], rv.metadata.cols, esz)
}

pub open spec fn spec_dec_row(
    cols: Seq<ColSpecV>,
    s: Seq<u8>,
    pos: int,
    esz: CqlBytesSize,
) -> Option<(Seq<ValueV>, int)>
    decreases cols.len(),
{
    if cols.len() == 0 {
        Some((seq![], pos))
    } else {
        match spec_dec_value(cols[0].col_type, cols[0].aux1, cols[0].aux2, s, pos, esz) {
            Some((v, p)) => match spec_dec_row(cols.drop_first(), s, p, esz) {
                Some((vs, p2)) => Some((seq![v] + vs, p2)),
                None => None,
            },
            None => None,
        }
    }
}

pub open spec fn spec_dec_rows_seq(
    cols: Seq<ColSpecV>,
    s: Seq<u8>,
    pos: int,
    n: nat,
    esz: CqlBytesSize,
) -> Option<(Seq<Seq<ValueV>>, int)>
    decreases n,
{
    if n == 0 {
        Some((seq![], pos))
    } else {
        match spec_dec_row(cols, s, pos, esz) {
            Some((r, p)) => match spec_dec_rows_seq(cols, s, p, (n - 1) as nat, esz) {
                Some((rs, p2)) => Some((seq![r] + rs, p2)),
                None => None,
            },
            None => None,
        }
    }
}

/// Decode a rows result.
pub open spec fn spec_dec_rows(s: Seq<u8>, pos: int, esz: CqlBytesSize) -> Option<(RowsV, int)> {
    match spec_dec_metadata(s, pos) {
        Some((m, p)) => match spec_dec_be(s, p, 4) {
            Some((rc, p2)) => match spec_dec_rows_seq(m.cols, s, p2, rc, esz) {
                Some((rows, p3)) => Some((RowsV { metadata: m, rows }, p3)),
                None => None,
            },
            None => None,
        },
        None => None,
    }
}

// ---------------------------------------------------------------------------
// Prepared results
// ---------------------------------------------------------------------------

/// Encoding of a PREPARED result: short-bytes id, argument metadata, and
/// from v2 on the result metadata.
pub open spec fn spec_enc_prepared(p: PreparedV, version: u8) -> Seq<u8> {
    spec_enc_lp_bytes(p.id, CqlBytesSize::Cqli16) + spec_enc_metadata(p.meta) + (match
        p.meta_result {
        Some(m) => spec_enc_metadata(m),
        None => seq![],
    })
}

pub open spec fn prepared_enc_ok(p: PreparedV, version: u8) -> bool {
    &&& p.id.len() <= prefix_max(CqlBytesSize::Cqli16)
    &&& metadata_enc_ok(p.meta)
    &&& (if version >= 2 {
        p.meta_result is Some && metadata_enc_ok(p.meta_result->0)
    } else {
        p.meta_result is None
    })
}

pub open spec fn spec_dec_prepared(s: Seq<u8>, pos: int, version: u8) -> Option<(PreparedV, int)> {
    match spec_dec_lp_bytes(s, pos, CqlBytesSize::Cqli16) {
        Some((Some(id), p)) => match spec_dec_metadata(s, p) {
            Some((m, p2)) => if version >= 2 {
                match spec_dec_metadata(s, p2) {
                    Some((m2, p3)) => Some(
                        (PreparedV { id, meta: m, meta_result: Some(m2) }, p3),
                    ),
                    None => None,
                }
            } else {
                Some((PreparedV { id, meta: m, meta_result: None }, p2))
            },
            None => None,
        },
        _ => None,
    }
}

// ---------------------------------------------------------------------------
// Events
// ---------------------------------------------------------------------------

pub open spec fn spec_topology_str(t: TopologyChangeType) -> Seq<char> {
    match t {
        TopologyChangeType::NewNode => "NEW_NODE"@,
        TopologyChangeType::RemovedNode => "REMOVED_NODE"@,
        TopologyChangeType::MovedNode => "MOVED_NODE"@,
        TopologyChangeType::UnknownChange => Seq::<char>::empty(),
    }
}

pub open spec fn spec_topology_from(t: Seq<char>) -> TopologyChangeType {
    if t == "NEW_NODE"@ {
        TopologyChangeType::NewNode
    } else if t == "REMOVED_NODE"@ {
        TopologyChangeType::RemovedNode
    } else if t == "MOVED_NODE"@ {
        TopologyChangeType::MovedNode
    } else {
        TopologyChangeType::UnknownChange
    }
}

pub open spec fn spec_status_str(t: StatusChangeType) -> Seq<char> {
    match t {
        StatusChangeType::Up => "UP"@,
        StatusChangeType::Down => "DOWN"@,
        StatusChangeType::UnknownStatus => Seq::<char>::empty(),
    }
}

pub open spec fn spec_status_from(t: Seq<char>) -> StatusChangeType {
    if t == "UP"@ {
        StatusChangeType::Up
    } else if t == "DOWN"@ {
        StatusChangeType::Down
    } else {
        StatusChangeType::UnknownStatus
    }
}

pub open spec fn spec_schema_str(t: SchemaChangeType) -> Seq<char> {
    match t {
        SchemaChangeType::Created => "CREATED"@,
        SchemaChangeType::Updated => "UPDATED"@,
        SchemaChangeType::Dropped => "DROPPED"@,
        SchemaChangeType::UnknownSchema => Seq::<char>::empty(),
    }
}

pub open spec fn spec_schema_from(t: Seq<char>) -> SchemaChangeType {
    if t == "CREATED"@ {
        SchemaChangeType::Created
    } else if t == "UPDATED"@ {
        SchemaChangeType::Updated
    } else if t == "DROPPED"@ {
        SchemaChangeType::Dropped
    } else {
        SchemaChangeType::UnknownSchema
    }
}

/// Inet address in an event body: its bytes over a short length prefix.
pub open spec fn spec_enc_inet(ip: IpAddress) -> Seq<u8> {
    spec_enc_lp_bytes(spec_inet_bytes(ip), CqlBytesSize::Cqli16)
}

/// Encoding of an EVENT body: the event type as a short string, then the
/// kind-specific payload.
pub open spec fn spec_enc_event(e: EventV) -> Seq<u8> {
    match e {
        EventV::ETopology(t, ip) => spec_enc_string("TOPOLOGY_CHANGE"@, CqlBytesSize::Cqli16)
            + spec_enc_string(spec_topology_str(t), CqlBytesSize::Cqli16) + spec_enc_inet(ip),
        EventV::EStatus(t, ip) => spec_enc_string("STATUS_CHANGE"@, CqlBytesSize::Cqli16)
            + spec_enc_string(spec_status_str(t), CqlBytesSize::Cqli16) + spec_enc_inet(ip),
        EventV::ESchema(t, o) => spec_enc_string("SCHEMA_CHANGE"@, CqlBytesSize::Cqli16)
            + spec_enc_string(spec_schema_str(t), CqlBytesSize::Cqli16) + spec_enc_schema_opts(o),
        EventV::EUnknown => seq![],
    }
}

pub open spec fn spec_enc_schema_opts(o: SchemaOptsV) -> Seq<u8> {
    match o {
        SchemaOptsV::OKeyspace(k) => spec_enc_string("KEYSPACE"@, CqlBytesSize::Cqli16)
            + spec_enc_string(k, CqlBytesSize::Cqli16),
        SchemaOptsV::OTable(a, b) => spec_enc_string("TABLE"@, CqlBytesSize::Cqli16)
            + spec_enc_string(a, CqlBytesSize::Cqli16) + spec_enc_string(b, CqlBytesSize::Cqli16),
        SchemaOptsV::OType(a, b) => spec_enc_string("TYPE"@, CqlBytesSize::Cqli16)
            + spec_enc_string(a, CqlBytesSize::Cqli16) + spec_enc_string(b, CqlBytesSize::Cqli16),
    }
}

pub open spec fn event_enc_ok(e: EventV) -> bool {
    match e {
        EventV::ETopology(t, _) => t != TopologyChangeType::UnknownChange,
        EventV::EStatus(t, _) => t != StatusChangeType::UnknownStatus,
        EventV::ESchema(t, o) => t != SchemaChangeType::UnknownSchema && (match o {
            SchemaOptsV::OKeyspace(k) => string_enc_ok(k, CqlBytesSize::Cqli16),
            SchemaOptsV::OTable(a, b) => string_enc_ok(a, CqlBytesSize::Cqli16) && string_enc_ok(
                b,
                CqlBytesSize::Cqli16,
            ),
            SchemaOptsV::OType(a, b) => string_enc_ok(a, CqlBytesSize::Cqli16) && string_enc_ok(
                b,
                CqlBytesSize::Cqli16,
            ),
        }),
        EventV::EUnknown => false,
    }
}

/// Decode the address of an event body.
pub open spec fn spec_dec_inet(s: Seq<u8>, pos: int) -> Option<(IpAddress, int)> {
    match spec_dec_lp_bytes(s, pos, CqlBytesSize::Cqli16) {
        Some((Some(b), p)) => if b.len() == 4 {
            Some((IpAddress::Ipv4(b[0], b[1], b[2], b[3]), p))
        } else if b.len() == 16 {
            Some(
                (
                    IpAddress::Ipv6(
                        spec_be_val(b.subrange(0, 2)) as u16,
                        spec_be_val(b.subrange(2, 4)) as u16,
                        spec_be_val(b.subrange(4, 6)) as u16,
                        spec_be_val(b.subrange(6, 8)) as u16,
                        spec_be_val(b.subrange(8, 10)) as u16,
                        spec_be_val(b.subrange(10, 12)) as u16,
                        spec_be_val(b.subrange(12, 14)) as u16,
                        spec_be_val(b.subrange(14, 16)) as u16,
                    ),
                    p,
                ),
            )
        } else {
            None
        },
        _ => None,
    }
}

/// Decode an EVENT body.
pub open spec fn spec_dec_event(s: Seq<u8>, pos: int) -> Option<(EventV, int)> {
    match spec_dec_string_nn(s, pos, CqlBytesSize::Cqli16) {
        Some((et, p)) => if et == "TOPOLOGY_CHANGE"@ {
            match spec_dec_string_nn(s, p, CqlBytesSize::Cqli16) {
                Some((ct, p2)) => match spec_dec_inet(s, p2) {
                    Some((ip, p3)) => Some((EventV::ETopology(spec_topology_from(ct), ip), p3)),
                    None => None,
                },
                None => None,
            }
        } else if et == "STATUS_CHANGE"@ {
            match spec_dec_string_nn(s, p, CqlBytesSize::Cqli16) {
                Some((ct, p2)) => match spec_dec_inet(s, p2) {
                    Some((ip, p3)) => Some((EventV::EStatus(spec_status_from(ct), ip), p3)),
                    None => None,
                },
                None => None,
            }
        } else if et == "SCHEMA_CHANGE"@ {
            match spec_dec_string_nn(s, p, CqlBytesSize::Cqli16) {
                Some((ct, p2)) => match spec_dec_schema_opts(s, p2) {
                    Some((o, p3)) => Some((EventV::ESchema(spec_schema_from(ct), o), p3)),
                    None => None,
                },
                None => None,
            }
        } else {
            None
        },
        None => None,
    }
}

pub open spec fn spec_dec_schema_opts(s: Seq<u8>, pos: int) -> Option<(SchemaOptsV, int)> {
    match spec_dec_string_nn(s, pos, CqlBytesSize::Cqli16) {
        Some((target, p)) => if target == "KEYSPACE"@ {
            match spec_dec_string_nn(s, p, CqlBytesSize::Cqli16) {
                Some((k, p2)) => Some((SchemaOptsV::OKeyspace(k), p2)),
                None => None,
            }
        } else if target == "TABLE"@ {
            match spec_dec_string_nn(s, p, CqlBytesSize::Cqli16) {
                Some((a, p2)) => match spec_dec_string_nn(s, p2, CqlBytesSize::Cqli16) {
                    Some((b, p3)) => Some((SchemaOptsV::OTable(a, b), p3)),
                    None => None,
                },
                None => None,
            }
        } else if target == "TYPE"@ {
            match spec_dec_string_nn(s, p, CqlBytesSize::Cqli16) {
                Some((a, p2)) => match spec_dec_string_nn(s, p2, CqlBytesSize::Cqli16) {
                    Some((b, p3)) => Some((SchemaOptsV::OType(a, b), p3)),
                    None => None,
                },
                None => None,
            }
        } else {
            None
        },
        None => None,
    }
}


// ---------------------------------------------------------------------------
// Frame headers
// ---------------------------------------------------------------------------

/// Element-prefix width of a protocol version: 2 bytes up to v2, 4 bytes
/// from v3 on.
pub open spec fn spec_esz(version: u8) -> CqlBytesSize {
    if version >= 3 {
        CqlBytesSize::Cqli32
    } else {
        CqlBytesSize::Cqli16
    }
}

/// Header length of a protocol version: the stream id is one byte up to v2
/// and two bytes from v3 on.
pub open spec fn spec_header_len(version: u8) -> nat {
    if version >= 3 {
        5
    } else {
        4
    }
}

/// Bytes of a frame header (without the body length).
pub open spec fn spec_enc_header(vb: u8, flags: u8, stream: i16, op: u8, version: u8) -> Seq<u8> {
    seq![vb, flags] + (if version >= 3 {
        spec_be_bytes(to_unsigned(stream as int, 2), 2)
    } else {
        spec_be_bytes(to_unsigned(stream as int, 1), 1)
    }) + seq![op]
}

/// Decode a frame header.
pub open spec fn spec_dec_header(s: Seq<u8>, pos: int, version: u8) -> Option<
    (CqlFrameHeader, int),
> {
    let hl = spec_header_len(version);
    if 0 <= pos && pos + hl <= s.len() {
        if version >= 3 {
            Some(
                (
                    CqlFrameHeader {
                        version: s[pos],
                        flags: s[pos + 1],
                        stream: to_signed(spec_be_val(s.subrange(pos + 2, pos + 4)), 2) as i16,
                        opcode: s[pos + 4],
                    },
                    pos + hl,
                ),
            )
        } else {
            Some(
                (
                    CqlFrameHeader {
                        version: s[pos],
                        flags: s[pos + 1],
                        stream: to_signed(s[pos + 2] as nat, 1) as i16,
                        opcode: s[pos + 3],
                    },
                    pos + hl,
                ),
            )
        }
    } else {
        None
    }
}

/// Total length of the frame starting at `pos`, if its header and length
/// field are present: header, 4 length bytes, and the body (a negative
/// declared length counts as an empty body).
pub open spec fn spec_frame_total(s: Seq<u8>, pos: int, version: u8) -> Option<int> {
    let hl = spec_header_len(version);
    if 0 <= pos && pos + hl + 4 <= s.len() {
        let l = to_signed(spec_be_val(s.subrange(pos + hl, pos + hl + 4)), 4);
        Some(hl + 4 + (if l < 0 {
            0
        } else {
            l
        }))
    } else {
        None
    }
}

// ---------------------------------------------------------------------------
// Request bodies
// ---------------------------------------------------------------------------

/// Concatenated encodings of the string-map pairs.
pub open spec fn spec_enc_strmap_pairs(ps: Seq<(Seq<char>, Seq<char>)>) -> Seq<u8>
    decreases ps.len(),
{
    if ps.len() == 0 {
        seq![]
    } else {
        spec_enc_string(ps[0].0, CqlBytesSize::Cqli16) + spec_enc_string(
            ps[0].1,
            CqlBytesSize::Cqli16,
        ) + spec_enc_strmap_pairs(ps.drop_first())
    }
}

/// Encoding of a string map: a two-byte pair count, then the pairs.
pub open spec fn spec_enc_strmap(ps: Seq<(Seq<char>, Seq<char>)>) -> Seq<u8> {
    spec_be_bytes(ps.len(), 2) + spec_enc_strmap_pairs(ps)
}

pub open spec fn strmap_enc_ok(ps: Seq<(Seq<char>, Seq<char>)>) -> bool {
    &&& ps.len() <= 0xFFFF
    &&& forall|i: int|
        0 <= i < ps.len() ==> string_enc_ok((#[trigger] ps[i]).0, CqlBytesSize::Cqli16)
            && string_enc_ok(ps[i].1, CqlBytesSize::Cqli16)
}

pub open spec fn spec_dec_strmap_pairs(s: Seq<u8>, pos: int, n: nat) -> Option<
    (Seq<(Seq<char>, Seq<char>)>, int),
>
    decreases n,
{
    if n == 0 {
        Some((seq![], pos))
    } else {
        match spec_dec_string_nn(s, pos, CqlBytesSize::Cqli16) {
            Some((k, p)) => match spec_dec_string_nn(s, p, CqlBytesSize::Cqli16) {
                Some((v, p2)) => match spec_dec_strmap_pairs(s, p2, (n - 1) as nat) {
                    Some((ps, p3)) => Some((seq![(k, v)] + ps, p3)),
                    None => None,
                },
                None => None,
            },
            None => None,
        }
    }
}

pub open spec fn spec_dec_strmap(s: Seq<u8>, pos: int) -> Option<
    (Seq<(Seq<char>, Seq<char>)>, int),
> {
    match spec_dec_be(s, pos, 2) {
        Some((n, p)) => spec_dec_strmap_pairs(s, p, n),
        None => None,
    }
}

/// Concatenated encodings of statement parameters.
pub open spec fn spec_enc_params(vs: Seq<ValueV>, esz: CqlBytesSize) -> Seq<u8>
    decreases vs.len(),
{
    if vs.len() == 0 {
        seq![]
    } else {
        spec_enc_value(vs[0], esz) + spec_enc_params(vs.drop_first(), esz)
    }
}

pub open spec fn params_enc_ok(vs: Seq<ValueV>, esz: CqlBytesSize) -> bool {
    &&& vs.len() <= 0x7FFF
    &&& forall|i: int| 0 <= i < vs.len() ==> value_enc_ok(#[trigger] vs[i], esz)
}

/// Statement parameters are untyped on the wire, so they decode as opaque
/// byte values.
pub open spec fn spec_dec_params(s: Seq<u8>, pos: int, n: nat) -> Option<(Seq<ValueV>, int)>
    decreases n,
{
    if n == 0 {
        Some((seq![], pos))
    } else {
        match spec_dec_lp_bytes(s, pos, CqlBytesSize::Cqli32) {
            Some((o, p)) => match spec_dec_params(s, p, (n - 1) as nat) {
                Some((vs, p2)) => Some((seq![ValueV::VScalar(ScalarV::VBlob(o))] + vs, p2)),
                None => None,
            },
            None => None,
        }
    }
}

/// Encoding of one batch entry.
pub open spec fn spec_enc_query(q: QueryV, version: u8) -> Seq<u8> {
    match q {
        QueryV::QStr(t) => seq![0u8] + spec_enc_string(t, CqlBytesSize::Cqli32) + spec_be_bytes(
            0,
            2,
        ),
        QueryV::QPrepared(id, vs) => seq![1u8] + spec_enc_lp_bytes(id, CqlBytesSize::Cqli16)
            + spec_be_bytes(vs.len(), 2) + spec_enc_params(vs, spec_esz(version)),
        QueryV::QNested => seq![],
    }
}

pub open spec fn query_enc_ok(q: QueryV, version: u8) -> bool {
    match q {
        QueryV::QStr(t) => string_enc_ok(t, CqlBytesSize::Cqli32),
        QueryV::QPrepared(id, vs) => id.len() <= prefix_max(CqlBytesSize::Cqli16) && vs.len()
            <= 0xFFFF && (forall|i: int|
            0 <= i < vs.len() ==> value_enc_ok(#[trigger] vs[i], spec_esz(version))),
        QueryV::QNested => false,
    }
}

pub open spec fn spec_enc_queries(qs: Seq<QueryV>, version: u8) -> Seq<u8>
    decreases qs.len(),
{
    if qs.len() == 0 {
        seq![]
    } else {
        spec_enc_query(qs[0], version) + spec_enc_queries(qs.drop_first(), version)
    }
}

pub open spec fn spec_dec_query(s: Seq<u8>, pos: int, version: u8) -> Option<(QueryV, int)> {
    if 0 <= pos && pos + 1 <= s.len() {
        if s[pos] == 0u8 {
            match spec_dec_string_nn(s, pos + 1, CqlBytesSize::Cqli32) {
                Some((t, p)) => match spec_dec_be(s, p, 2) {
                    Some((n, p2)) => if n == 0 {
                        Some((QueryV::QStr(t), p2))
                    } else {
                        None
                    },
                    None => None,
                },
                None => None,
            }
        } else if s[pos] == 1u8 {
            match spec_dec_lp_bytes(s, pos + 1, CqlBytesSize::Cqli16) {
                Some((Some(id), p)) => match spec_dec_be(s, p, 2) {
                    Some((n, p2)) => match spec_dec_params(s, p2, n) {
                        Some((vs, p3)) => Some((QueryV::QPrepared(id, vs), p3)),
                        None => None,
                    },
                    None => None,
                },
                _ => None,
            }
        } else {
            None
        }
    } else {
        None
    }
}

pub open spec fn spec_dec_queries(s: Seq<u8>, pos: int, n: nat, version: u8) -> Option<
    (Seq<QueryV>, int),
>
    decreases n,
{
    if n == 0 {
        Some((seq![], pos))
    } else {
        match spec_dec_query(s, pos, version) {
            Some((q, p)) => match spec_dec_queries(s, p, (n - 1) as nat, version) {
                Some((qs, p2)) => Some((seq![q] + qs, p2)),
                None => None,
            },
            None => None,
        }
    }
}

/// Concatenated short-string encodings (REGISTER event names).
pub open spec fn spec_enc_strings(ts: Seq<Seq<char>>) -> Seq<u8>
    decreases ts.len(),
{
    if ts.len() == 0 {
        seq![]
    } else {
        spec_enc_string(ts[0], CqlBytesSize::Cqli16) + spec_enc_strings(ts.drop_first())
    }
}

pub open spec fn spec_dec_strings(s: Seq<u8>, pos: int, n: nat) -> Option<(Seq<Seq<char>>, int)>
    decreases n,
{
    if n == 0 {
        Some((seq![], pos))
    } else {
        match spec_dec_string_nn(s, pos, CqlBytesSize::Cqli16) {
            Some((t, p)) => match spec_dec_strings(s, p, (n - 1) as nat) {
                Some((ts, p2)) => Some((seq![t] + ts, p2)),
                None => None,
            },
            None => None,
        }
    }
}

/// Encoding of a request body.
pub open spec fn spec_enc_request_body(b: RequestBodyV, version: u8) -> Seq<u8> {
    match b {
        RequestBodyV::RStartup(m) => spec_enc_strmap(m),
        RequestBodyV::RCred(_) => seq![],
        RequestBodyV::RQuery(q, c, f) => spec_enc_string(q, CqlBytesSize::Cqli32) + spec_be_bytes(
            spec_consistency_value(c) as nat,
            2,
        ) + (if version >= 2 {
            seq![f]
        } else {
            seq![]
        }),
        RequestBodyV::RPrepare(q) => spec_enc_string(q, CqlBytesSize::Cqli32),
        RequestBodyV::RExec(id, vs, c, f) => spec_enc_lp_bytes(id, CqlBytesSize::Cqli16) + (if
        version >= 2 {
            spec_be_bytes(spec_consistency_value(c) as nat, 2) + seq![f] + spec_be_bytes(
                vs.len(),
                2,
            ) + spec_enc_params(vs, spec_esz(version))
        } else {
            spec_be_bytes(vs.len(), 2) + spec_enc_params(vs, spec_esz(version)) + spec_be_bytes(
                spec_consistency_value(c) as nat,
                2,
            )
        }),
        RequestBodyV::RBatch(qs, t, c, f) => seq![spec_batch_type_value(t)] + spec_be_bytes(
            qs.len(),
            2,
        ) + spec_enc_queries(qs, version) + spec_be_bytes(spec_consistency_value(c) as nat, 2) + (
        if version >= 3 {
            seq![f]
        } else {
            seq![]
        }),
        RequestBodyV::ROptions => seq![],
        RequestBodyV::RAuthResponse(t) => spec_be_bytes(t.len(), 4) + t,
        RequestBodyV::RRegister(es) => spec_be_bytes(es.len(), 2) + spec_enc_strings(es),
    }
}

pub open spec fn request_body_enc_ok(b: RequestBodyV, version: u8) -> bool {
    match b {
        RequestBodyV::RStartup(m) => strmap_enc_ok(m),
        RequestBodyV::RCred(_) => false,
        RequestBodyV::RQuery(q, c, _) => string_enc_ok(q, CqlBytesSize::Cqli32) && c
            != Consistency::Unknown,
        RequestBodyV::RPrepare(q) => string_enc_ok(q, CqlBytesSize::Cqli32),
        RequestBodyV::RExec(id, vs, c, _) => id.len() <= prefix_max(CqlBytesSize::Cqli16)
            && params_enc_ok(vs, spec_esz(version)) && c != Consistency::Unknown,
        RequestBodyV::RBatch(qs, _, c, _) => qs.len() <= 0xFFFF && c != Consistency::Unknown && (
        forall|i: int| 0 <= i < qs.len() ==> query_enc_ok(#[trigger] qs[i], version)),
        RequestBodyV::ROptions => true,
        RequestBodyV::RAuthResponse(t) => t.len() <= prefix_max(CqlBytesSize::Cqli32),
        RequestBodyV::RRegister(es) => es.len() <= 0xFFFF && (forall|i: int|
            0 <= i < es.len() ==> string_enc_ok(#[trigger] es[i], CqlBytesSize::Cqli16)),
    }
}

/// The request opcode that announces a body.
pub open spec fn opcode_of_request_body(b: RequestBodyV) -> Option<OpcodeRequest> {
    match b {
        RequestBodyV::RStartup(_) => Some(OpcodeRequest::OpcodeStartup),
        RequestBodyV::RCred(_) => None,
        RequestBodyV::RQuery(_, _, _) => Some(OpcodeRequest::OpcodeQuery),
        RequestBodyV::RPrepare(_) => Some(OpcodeRequest::OpcodePrepare),
        RequestBodyV::RExec(_, _, _, _) => Some(OpcodeRequest::OpcodeExecute),
        RequestBodyV::RBatch(_, _, _, _) => Some(OpcodeRequest::OpcodeBatch),
        RequestBodyV::ROptions => Some(OpcodeRequest::OpcodeOptions),
        RequestBodyV::RAuthResponse(_) => Some(OpcodeRequest::OpcodeAuthResponse),
        RequestBodyV::RRegister(_) => Some(OpcodeRequest::OpcodeRegister),
    }
}

/// Which request frames the format can carry.
pub open spec fn request_enc_ok(r: RequestV) -> bool {
    &&& 1 <= r.version <= 3
    &&& opcode_of_request_body(r.body) == Some(r.opcode)
    &&& (r.version < 3 ==> -128 <= r.stream <= 127)
    &&& request_body_enc_ok(r.body, r.version)
    &&& spec_enc_request_body(r.body, r.version).len() <= 0x7FFF_FFFF
}

/// Encoding of a request frame: header, body length, body.
pub open spec fn spec_enc_request(r: RequestV) -> Seq<u8> {
    let body = spec_enc_request_body(r.body, r.version);
    spec_enc_header(
        r.version,
        r.flags,
        r.stream,
        spec_opcode_request_value(r.opcode),
        r.version,
    ) + spec_be_bytes(body.len(), 4) + body
}

/// Decode a request body, given its opcode and protocol version.
pub open spec fn spec_dec_request_body(
    op: OpcodeRequest,
    body: Seq<u8>,
    version: u8,
) -> Option<RequestBodyV> {
    match op {
        OpcodeRequest::OpcodeStartup => match spec_dec_strmap(body, 0) {
            Some((m, _)) => Some(RequestBodyV::RStartup(m)),
            None => None,
        },
        OpcodeRequest::OpcodeOptions => Some(RequestBodyV::ROptions),
        OpcodeRequest::OpcodeQuery => match spec_dec_string_nn(body, 0, CqlBytesSize::Cqli32) {
            Some((q, p)) => match spec_dec_be(body, p, 2) {
                Some((c, p2)) => if version >= 2 {
                    if p2 + 1 <= body.len() {
                        Some(
                            RequestBodyV::RQuery(
                                q,
                                spec_consistency_from(c as u16),
                                body[p2],
                            ),
                        )
                    } else {
                        None
                    }
                } else {
                    Some(RequestBodyV::RQuery(q, spec_consistency_from(c as u16), 0))
                },
                None => None,
            },
            None => None,
        },
        OpcodeRequest::OpcodePrepare => match spec_dec_string_nn(body, 0, CqlBytesSize::Cqli32) {
            Some((q, _)) => Some(RequestBodyV::RPrepare(q)),
            None => None,
        },
        OpcodeRequest::OpcodeExecute => match spec_dec_lp_bytes(body, 0, CqlBytesSize::Cqli16) {
            Some((Some(id), p)) => if version >= 2 {
                match spec_dec_be(body, p, 2) {
                    Some((c, p2)) => if p2 + 1 <= body.len() {
                        match spec_dec_be(body, p2 + 1, 2) {
                            Some((n, p3)) => match spec_dec_params(body, p3, n) {
                                Some((vs, _)) => Some(
                                    RequestBodyV::RExec(
                                        id,
                                        vs,
                                        spec_consistency_from(c as u16),
                                        body[p2],
                                    ),
                                ),
                                None => None,
                            },
                            None => None,
                        }
                    } else {
                        None
                    },
                    None => None,
                }
            } else {
                match spec_dec_be(body, p, 2) {
                    Some((n, p2)) => match spec_dec_params(body, p2, n) {
                        Some((vs, p3)) => match spec_dec_be(body, p3, 2) {
                            Some((c, _)) => Some(
                                RequestBodyV::RExec(
                                    id,
                                    vs,
                                    spec_consistency_from(c as u16),
                                    0,
                                ),
                            ),
                            None => None,
                        },
                        None => None,
                    },
                    None => None,
                }
            },
            _ => None,
        },
        OpcodeRequest::OpcodeBatch => if 1 <= body.len() {
            match spec_batch_type_from(body[0]) {
                Some(t) => match spec_dec_be(body, 1, 2) {
                    Some((n, p)) => match spec_dec_queries(body, p, n, version) {
                        Some((qs, p2)) => match spec_dec_be(body, p2, 2) {
                            Some((c, p3)) => if version >= 3 {
                                if p3 + 1 <= body.len() {
                                    Some(
                                        RequestBodyV::RBatch(
                                            qs,
                                            t,
                                            spec_consistency_from(c as u16),
                                            body[p3],
                                        ),
                                    )
                                } else {
                                    None
                                }
                            } else {
                                Some(
                                    RequestBodyV::RBatch(
                                        qs,
                                        t,
                                        spec_consistency_from(c as u16),
                                        0,
                                    ),
                                )
                            },
                            None => None,
                        },
                        None => None,
                    },
                    None => None,
                },
                None => None,
            }
        } else {
            None
        },
        OpcodeRequest::OpcodeAuthResponse => match spec_dec_lp_bytes(
            body,
            0,
            CqlBytesSize::Cqli32,
        ) {
            Some((Some(t), _)) => Some(RequestBodyV::RAuthResponse(t)),
            Some((None, _)) => Some(RequestBodyV::RAuthResponse(seq![])),
            None => None,
        },
        OpcodeRequest::OpcodeRegister => match spec_dec_be(body, 0, 2) {
            Some((n, p)) => match spec_dec_strings(body, p, n) {
                Some((es, _)) => Some(RequestBodyV::RRegister(es)),
                None => None,
            },
            None => None,
        },
    }
}

/// Decode a whole request frame (the version decides the header shape).
pub open spec fn spec_dec_request(s: Seq<u8>, version: u8) -> Option<RequestV> {
    match spec_dec_header(s, 0, version) {
        Some((h, p)) => match spec_dec_len(s, p, CqlBytesSize::Cqli32) {
            Some((l, p2)) => {
                let blen: int = if l < 0 {
                    0
                } else {
                    l
                };
                if p2 + blen <= s.len() {
                    let body = s.subrange(p2, p2 + blen);
                    match spec_opcode_request_from(h.opcode) {
                        Some(op) => match spec_dec_request_body(op, body, version) {
                            Some(b) => Some(
                                RequestV {
                                    version: h.version,
                                    flags: h.flags,
                                    stream: h.stream,
                                    opcode: op,
                                    body: b,
                                },
                            ),
                            None => None,
                        },
                        None => None,
                    }
                } else {
                    None
                }
            },
            None => None,
        },
        None => None,
    }
}

// ---------------------------------------------------------------------------
// Response bodies
// ---------------------------------------------------------------------------

/// Encoding of a response body, given the protocol version.
pub open spec fn spec_enc_response_body(b: ResponseBodyV, version: u8) -> Seq<u8> {
    match b {
        ResponseBodyV::BError(c, m) => spec_be_bytes(c as nat, 4) + spec_enc_string(
            m,
            CqlBytesSize::Cqli16,
        ),
        ResponseBodyV::BReady => seq![],
        ResponseBodyV::BAuthenticate(t) => spec_enc_string(t, CqlBytesSize::Cqli16),
        ResponseBodyV::BAuthChallenge(t) => spec_enc_lp_bytes(t, CqlBytesSize::Cqli16),
        ResponseBodyV::BAuthSuccess(t) => spec_enc_lp_bytes(t, CqlBytesSize::Cqli16),
        ResponseBodyV::BEvent(e) => spec_enc_event(e),
        ResponseBodyV::BVoid => spec_be_bytes(1, 4),
        ResponseBodyV::BRows(rv) => spec_be_bytes(2, 4) + spec_enc_rows(rv, spec_esz(version)),
        ResponseBodyV::BKeyspace(k) => spec_be_bytes(3, 4) + spec_enc_string(
            k,
            CqlBytesSize::Cqli16,
        ),
        ResponseBodyV::BPrepared(p) => spec_be_bytes(4, 4) + spec_enc_prepared(p, version),
        ResponseBodyV::BSchemaChange(a, bb, c) => spec_be_bytes(5, 4) + spec_enc_string(
            a,
            CqlBytesSize::Cqli16,
        ) + spec_enc_string(bb, CqlBytesSize::Cqli16) + spec_enc_string(c, CqlBytesSize::Cqli16),
        ResponseBodyV::BUnknown => seq![],
        ResponseBodyV::BEmpty => seq![],
    }
}

pub open spec fn response_body_enc_ok(b: ResponseBodyV, version: u8) -> bool {
    match b {
        ResponseBodyV::BError(_, m) => string_enc_ok(m, CqlBytesSize::Cqli16),
        ResponseBodyV::BReady => true,
        ResponseBodyV::BAuthenticate(t) => string_enc_ok(t, CqlBytesSize::Cqli16),
        ResponseBodyV::BAuthChallenge(t) => t.len() <= prefix_max(CqlBytesSize::Cqli16),
        ResponseBodyV::BAuthSuccess(t) => t.len() <= prefix_max(CqlBytesSize::Cqli16),
        ResponseBodyV::BEvent(e) => event_enc_ok(e),
        ResponseBodyV::BVoid => true,
        ResponseBodyV::BRows(rv) => rows_enc_ok(rv, spec_esz(version)),
        ResponseBodyV::BKeyspace(k) => string_enc_ok(k, CqlBytesSize::Cqli16),
        ResponseBodyV::BPrepared(p) => prepared_enc_ok(p, version),
        ResponseBodyV::BSchemaChange(a, bb, c) => string_enc_ok(a, CqlBytesSize::Cqli16)
            && string_enc_ok(bb, CqlBytesSize::Cqli16) && string_enc_ok(c, CqlBytesSize::Cqli16),
        ResponseBodyV::BUnknown => false,
        ResponseBodyV::BEmpty => false,
    }
}

/// The response opcode that announces a body.
pub open spec fn opcode_of_response_body(b: ResponseBodyV) -> Option<OpcodeResponse> {
    match b {
        ResponseBodyV::BError(_, _) => Some(OpcodeResponse::OpcodeError),
        ResponseBodyV::BReady => Some(OpcodeResponse::OpcodeReady),
        ResponseBodyV::BAuthenticate(_) => Some(OpcodeResponse::OpcodeAuthenticate),
        ResponseBodyV::BAuthChallenge(_) => Some(OpcodeResponse::OpcodeAuthChallenge),
        ResponseBodyV::BAuthSuccess(_) => Some(OpcodeResponse::OpcodeAuthSuccess),
        ResponseBodyV::BEvent(_) => Some(OpcodeResponse::OpcodeEvent),
        ResponseBodyV::BVoid => Some(OpcodeResponse::OpcodeResult),
        ResponseBodyV::BRows(_) => Some(OpcodeResponse::OpcodeResult),
        ResponseBodyV::BKeyspace(_) => Some(OpcodeResponse::OpcodeResult),
        ResponseBodyV::BPrepared(_) => Some(OpcodeResponse::OpcodeResult),
        ResponseBodyV::BSchemaChange(_, _, _) => Some(OpcodeResponse::OpcodeResult),
        ResponseBodyV::BUnknown => None,
        ResponseBodyV::BEmpty => None,
    }
}

/// Which response frames the format can carry.
pub open spec fn response_enc_ok(r: ResponseV, version: u8) -> bool {
    &&& opcode_of_response_body(r.body) == Some(r.opcode)
    &&& (version < 3 ==> -128 <= r.stream <= 127)
    &&& response_body_enc_ok(r.body, version)
    &&& spec_enc_response_body(r.body, version).len() <= 0x7FFF_FFFF
}

/// Encoding of a response frame: header, body length, body. The `version`
/// parameter is the negotiated protocol version, which fixes the header
/// shape and the element-prefix width; the frame's own `version` field is
/// the raw byte the server puts on the wire.
pub open spec fn spec_enc_response(r: ResponseV, version: u8) -> Seq<u8> {
    let body = spec_enc_response_body(r.body, version);
    spec_enc_header(
        r.version,
        r.flags,
        r.stream,
        spec_opcode_response_value(r.opcode),
        version,
    ) + spec_be_bytes(body.len(), 4) + body
}

/// Decode a response body, given its opcode.
pub open spec fn spec_dec_response_body(
    op: OpcodeResponse,
    body: Seq<u8>,
    version: u8,
) -> Option<ResponseBodyV> {
    match op {
        OpcodeResponse::OpcodeReady => Some(ResponseBodyV::BReady),
        OpcodeResponse::OpcodeAuthenticate => match spec_dec_string_nn(
            body,
            0,
            CqlBytesSize::Cqli16,
        ) {
            Some((t, _)) => Some(ResponseBodyV::BAuthenticate(t)),
            None => None,
        },
        OpcodeResponse::OpcodeError => match spec_dec_be(body, 0, 4) {
            Some((c, p)) => match spec_dec_string_nn(body, p, CqlBytesSize::Cqli16) {
                Some((m, _)) => Some(ResponseBodyV::BError(c as u32, m)),
                None => None,
            },
            None => None,
        },
        OpcodeResponse::OpcodeResult => match spec_dec_be(body, 0, 4) {
            Some((k, p)) => match spec_kind_result_from(k as u32) {
                Some(KindResult::KindVoid) => Some(ResponseBodyV::BVoid),
                Some(KindResult::KindRows) => match spec_dec_rows(body, p, spec_esz(version)) {
                    Some((rv, _)) => Some(ResponseBodyV::BRows(rv)),
                    None => None,
                },
                Some(KindResult::KindSetKeyspace) => match spec_dec_string_nn(
                    body,
                    p,
                    CqlBytesSize::Cqli16,
                ) {
                    Some((k2, _)) => Some(ResponseBodyV::BKeyspace(k2)),
                    None => None,
                },
                Some(KindResult::KindSchemaChange) => match spec_dec_string_nn(
                    body,
                    p,
                    CqlBytesSize::Cqli16,
                ) {
                    Some((a, p2)) => match spec_dec_string_nn(body, p2, CqlBytesSize::Cqli16) {
                        Some((bb, p3)) => match spec_dec_string_nn(
                            body,
                            p3,
                            CqlBytesSize::Cqli16,
                        ) {
                            Some((c, _)) => Some(ResponseBodyV::BSchemaChange(a, bb, c)),
                            None => None,
                        },
                        None => None,
                    },
                    None => None,
                },
                Some(KindResult::KindPrepared) => match spec_dec_prepared(body, p, version) {
                    Some((pr, _)) => Some(ResponseBodyV::BPrepared(pr)),
                    None => None,
                },
                None => None,
            },
            None => None,
        },
        OpcodeResponse::OpcodeAuthChallenge => match spec_dec_lp_bytes(
            body,
            0,
            CqlBytesSize::Cqli16,
        ) {
            Some((Some(t), _)) => Some(ResponseBodyV::BAuthChallenge(t)),
            Some((None, _)) => Some(ResponseBodyV::BAuthChallenge(seq![])),
            None => None,
        },
        OpcodeResponse::OpcodeAuthSuccess => match spec_dec_lp_bytes(
            body,
            0,
            CqlBytesSize::Cqli16,
        ) {
            Some((Some(t), _)) => Some(ResponseBodyV::BAuthSuccess(t)),
            Some((None, _)) => Some(ResponseBodyV::BAuthSuccess(seq![])),
            None => None,
        },
        OpcodeResponse::OpcodeEvent => match spec_dec_event(body, 0) {
            Some((e, _)) => Some(ResponseBodyV::BEvent(e)),
            None => None,
        },
        _ => Some(ResponseBodyV::BUnknown),
    }
}

/// Decode one response frame at `pos`. The result's second component is the
/// position after the frame: the header plus exactly the declared body
/// length, whether or not the body parse consumed all of it.
pub open spec fn spec_dec_response(s: Seq<u8>, pos: int, version: u8) -> Option<
    (ResponseV, int),
> {
    match spec_dec_header(s, pos, version) {
        Some((h, p)) => match spec_dec_len(s, p, CqlBytesSize::Cqli32) {
            Some((l, p2)) => {
                let blen: int = if l < 0 {
                    0
                } else {
                    l
                };
                if p2 + blen <= s.len() {
                    let body = s.subrange(p2, p2 + blen);
                    let op = spec_opcode_response(h.opcode);
                    match spec_dec_response_body(op, body, version) {
                        Some(b) => Some(
                            (
                                ResponseV {
                                    version: h.version,
                                    flags: h.flags,
                                    stream: h.stream,
                                    opcode: op,
                                    body: b,
                                },
                                p2 + blen,
                            ),
                        ),
                        None => None,
                    }
                } else {
                    None
                }
            },
            None => None,
        },
        None => None,
    }
}

} // verus!
