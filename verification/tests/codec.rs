//! Codec tests: value, metadata and frame round trips on concrete wire
//! bytes, across the three protocol revisions.

use cql::def::BatchType;
use cql::def::Consistency;
use cql::def::CqlBytesSize;
use cql::def::CqlColMetadata;
use cql::def::CqlMetadata;
use cql::def::CqlPair;
use cql::def::CqlPreparedStat;
use cql::def::CqlRequest;
use cql::def::CqlRequestBody;
use cql::def::CqlResponse;
use cql::def::CqlResponseBody;
use cql::def::CqlRow;
use cql::def::CqlRows;
use cql::def::CqlStringMap;
use cql::def::CqlValue;
use cql::def::CqlValueType;
use cql::def::IpAddress;
use cql::def::OpcodeRequest;
use cql::def::OpcodeResponse;
use cql::def::Pair;
use cql::def::Query;
use cql::reader::CqlReader;

fn col(name: &str, ty: CqlValueType) -> CqlColMetadata {
    CqlColMetadata {
        keyspace: String::new(),
        table: String::new(),
        col_name: name.to_owned(),
        col_type: ty,
        col_type_aux1: CqlValueType::ColumnUnknown,
        col_type_aux2: CqlValueType::ColumnUnknown,
    }
}

fn collection_col(name: &str, ty: CqlValueType, a1: CqlValueType, a2: CqlValueType) -> CqlColMetadata {
    CqlColMetadata {
        keyspace: String::new(),
        table: String::new(),
        col_name: name.to_owned(),
        col_type: ty,
        col_type_aux1: a1,
        col_type_aux2: a2,
    }
}

/// Encode a value at top level, read it back under the same column type.
fn value_roundtrip(v: CqlValue, meta: &CqlColMetadata, version: u8) -> CqlValue {
    let mut buf: Vec<u8> = Vec::new();
    v.serialize_size(&mut buf, CqlBytesSize::Cqli32, version)
        .expect("value must encode");
    let esz = if version >= 3 { CqlBytesSize::Cqli32 } else { CqlBytesSize::Cqli16 };
    let mut rd = CqlReader::new(buf);
    rd.read_cql_value(meta, esz).expect("value must decode")
}

#[test]
fn test_value_roundtrip_scalars() {
    for version in [1u8, 2, 3] {
        let cases: Vec<(CqlValue, CqlColMetadata)> = vec![
            (CqlValue::CqlASCII(Some("hello".to_owned())), col("a", CqlValueType::ColumnASCII)),
            (CqlValue::CqlText(Some("héllo".to_owned())), col("t", CqlValueType::ColumnText)),
            (CqlValue::CqlVarchar(Some(String::new())), col("v", CqlValueType::ColumnVarChar)),
            (CqlValue::CqlBigInt(Some(-77)), col("b", CqlValueType::ColumnBigInt)),
            (CqlValue::CqlCounter(Some(i64::MIN)), col("c", CqlValueType::ColumnCounter)),
            (CqlValue::CqlInt(Some(-2147483648)), col("i", CqlValueType::ColumnInt)),
            (CqlValue::CqlBoolean(Some(true)), col("o", CqlValueType::ColumnBoolean)),
            (CqlValue::CqlBoolean(Some(false)), col("o", CqlValueType::ColumnBoolean)),
            (CqlValue::CqlFloat(Some(1.5f32.to_bits())), col("f", CqlValueType::ColumnFloat)),
            (CqlValue::CqlDouble(Some(3.14159f64.to_bits())), col("d", CqlValueType::ColumnDouble)),
            (CqlValue::CqlTimestamp(Some(1_700_000_000_000)), col("s", CqlValueType::ColumnTimestamp)),
            (CqlValue::CqlBlob(Some(vec![0, 1, 2, 255])), col("l", CqlValueType::ColumnBlob)),
            (CqlValue::CqlUuid(Some((0u8..16).collect())), col("u", CqlValueType::ColumnUuid)),
            (CqlValue::CqlTimeUuid(Some(vec![7; 16])), col("w", CqlValueType::ColumnTimeUuid)),
            (
                CqlValue::CqlInet(Some(IpAddress::Ipv4(127, 0, 0, 1))),
                col("n", CqlValueType::ColumnInet),
            ),
            (
                CqlValue::CqlInet(Some(IpAddress::Ipv6(0x2001, 0xdb8, 0, 0, 0, 0, 0, 1))),
                col("n", CqlValueType::ColumnInet),
            ),
        ];
        for (v, m) in cases {
            let back = value_roundtrip(v, &m, version);
            let again = value_roundtrip(back, &m, version);
            // encode/decode twice: the decoded value re-encodes identically
            let mut b1: Vec<u8> = Vec::new();
            let mut b2: Vec<u8> = Vec::new();
            again.serialize_size(&mut b1, CqlBytesSize::Cqli32, version).unwrap();
            again.serialize_size(&mut b2, CqlBytesSize::Cqli32, version).unwrap();
            assert_eq!(b1, b2);
        }
    }
}

#[test]
fn test_value_roundtrip_exact() {
    let v = CqlValue::CqlInt(Some(47));
    let m = col("i", CqlValueType::ColumnInt);
    assert_eq!(value_roundtrip(v, &m, 3), CqlValue::CqlInt(Some(47)));
    let v4 = CqlValue::CqlInet(Some(IpAddress::Ipv4(10, 0, 0, 2)));
    let mi = col("n", CqlValueType::ColumnInet);
    assert_eq!(
        value_roundtrip(v4, &mi, 2),
        CqlValue::CqlInet(Some(IpAddress::Ipv4(10, 0, 0, 2)))
    );
}

fn null_case(i: usize) -> (CqlValue, CqlColMetadata) {
    match i {
        0 => (CqlValue::CqlASCII(None), col("a", CqlValueType::ColumnASCII)),
        1 => (CqlValue::CqlBigInt(None), col("b", CqlValueType::ColumnBigInt)),
        2 => (CqlValue::CqlBlob(None), col("l", CqlValueType::ColumnBlob)),
        3 => (CqlValue::CqlBoolean(None), col("o", CqlValueType::ColumnBoolean)),
        4 => (CqlValue::CqlFloat(None), col("f", CqlValueType::ColumnFloat)),
        5 => (CqlValue::CqlInet(None), col("n", CqlValueType::ColumnInet)),
        6 => (
            CqlValue::CqlList(None),
            collection_col("x", CqlValueType::ColumnList, CqlValueType::ColumnInt, CqlValueType::ColumnUnknown),
        ),
        7 => (
            CqlValue::CqlMap(None),
            collection_col("y", CqlValueType::ColumnMap, CqlValueType::ColumnInt, CqlValueType::ColumnText),
        ),
        _ => (
            CqlValue::CqlSet(None),
            collection_col("z", CqlValueType::ColumnSet, CqlValueType::ColumnInt, CqlValueType::ColumnUnknown),
        ),
    }
}

#[test]
fn test_value_roundtrip_nulls() {
    for version in [1u8, 2, 3] {
        for i in 0..9 {
            let (v, m) = null_case(i);
            let mut buf: Vec<u8> = Vec::new();
            v.serialize_size(&mut buf, CqlBytesSize::Cqli32, version).unwrap();
            // a NULL is exactly the length prefix -1
            assert_eq!(buf, vec![0xFF, 0xFF, 0xFF, 0xFF]);
            let (v2, _) = null_case(i);
            let back = value_roundtrip(v, &m, version);
            assert_eq!(back, v2);
        }
    }
}

#[test]
fn test_value_roundtrip_collections() {
    for version in [1u8, 2, 3] {
        let m = collection_col(
            "l",
            CqlValueType::ColumnList,
            CqlValueType::ColumnInt,
            CqlValueType::ColumnUnknown,
        );
        let v = CqlValue::CqlList(Some(vec![
            CqlValue::CqlInt(Some(1)),
            CqlValue::CqlInt(Some(-2)),
            CqlValue::CqlInt(None),
        ]));
        let back = value_roundtrip(v, &m, version);
        assert_eq!(
            back,
            CqlValue::CqlList(Some(vec![
                CqlValue::CqlInt(Some(1)),
                CqlValue::CqlInt(Some(-2)),
                CqlValue::CqlInt(None),
            ]))
        );
        let mm = collection_col(
            "m",
            CqlValueType::ColumnMap,
            CqlValueType::ColumnInt,
            CqlValueType::ColumnText,
        );
        let mv = CqlValue::CqlMap(Some(vec![Pair {
            key: CqlValue::CqlInt(Some(0)),
            value: CqlValue::CqlText(Some("aa".to_owned())),
        }]));
        let back = value_roundtrip(mv, &mm, version);
        assert_eq!(
            back,
            CqlValue::CqlMap(Some(vec![Pair {
                key: CqlValue::CqlInt(Some(0)),
                value: CqlValue::CqlText(Some("aa".to_owned())),
            }]))
        );
    }
}

#[test]
fn test_value_decimal_refused_on_write() {
    let v = CqlValue::CqlDecimal(Some(vec![1, 2]));
    let mut buf: Vec<u8> = Vec::new();
    let r = v.serialize_size(&mut buf, CqlBytesSize::Cqli32, 3);
    assert!(r.is_err());
    assert!(buf.is_empty(), "a refused value writes nothing");
    let v = CqlValue::CqlVarint(Some(vec![1]));
    let r = v.serialize_size(&mut buf, CqlBytesSize::Cqli32, 3);
    assert!(r.is_err());
    assert!(buf.is_empty(), "a refused value writes nothing");
}

#[test]
fn test_value_bad_uuid_length() {
    let v = CqlValue::CqlUuid(Some(vec![1, 2, 3]));
    let mut buf: Vec<u8> = Vec::new();
    assert!(v.serialize_size(&mut buf, CqlBytesSize::Cqli32, 3).is_err());
    // wire side: a uuid column whose length is not 16 fails the read
    let bad = vec![0, 0, 0, 3, 9, 9, 9];
    let mut rd = CqlReader::new(bad);
    assert!(rd
        .read_cql_value_single(CqlValueType::ColumnUuid, CqlBytesSize::Cqli32)
        .is_err());
}

fn rows_response(version: u8) -> CqlResponse {
    CqlResponse {
        version: 0x80 | version,
        flags: 0,
        stream: 2,
        opcode: OpcodeResponse::OpcodeResult,
        body: CqlResponseBody::ResultRows(CqlRows {
            metadata: CqlMetadata {
                flags: 0,
                column_count: 1,
                keyspace: String::new(),
                table: String::new(),
                row_metadata: vec![col("x", CqlValueType::ColumnInt)],
            },
            rows: vec![
                CqlRow { cols: vec![CqlValue::CqlInt(Some(1))] },
                CqlRow { cols: vec![CqlValue::CqlInt(Some(2))] },
                CqlRow { cols: vec![CqlValue::CqlInt(Some(3))] },
            ],
        }),
    }
}

#[test]
fn test_result_rows_roundtrip() {
    for version in [1u8, 2, 3] {
        let resp = rows_response(version);
        let mut buf: Vec<u8> = Vec::new();
        resp.serialize(&mut buf, version).expect("rows response must encode");
        let mut rd = CqlReader::new(buf);
        let back = rd.read_cql_response(version).expect("rows response must decode");
        assert_eq!(back, rows_response(version));
        match back.body {
            CqlResponseBody::ResultRows(rows) => {
                assert_eq!(rows.metadata.column_count, 1);
                assert_eq!(rows.metadata.row_metadata[0].col_type, CqlValueType::ColumnInt);
                assert_eq!(rows.rows.len(), 3);
            },
            _ => panic!("expected a rows result"),
        }
    }
}

#[test]
fn test_result_kinds_roundtrip() {
    for version in [2u8, 3] {
        let bodies = vec![
            CqlResponseBody::ResultVoid,
            CqlResponseBody::ResultKeyspace("ks".to_owned()),
            CqlResponseBody::ResultSchemaChange(
                "CREATED".to_owned(),
                "ks".to_owned(),
                "tb".to_owned(),
            ),
            CqlResponseBody::ResultPrepared(CqlPreparedStat {
                id: vec![0xAA, 0xBB],
                meta: CqlMetadata {
                    flags: 0,
                    column_count: 0,
                    keyspace: String::new(),
                    table: String::new(),
                    row_metadata: vec![],
                },
                meta_result: Some(CqlMetadata {
                    flags: 0,
                    column_count: 0,
                    keyspace: String::new(),
                    table: String::new(),
                    row_metadata: vec![],
                }),
            }),
        ];
        for body in bodies {
            let resp = CqlResponse {
                version: 0x80 | version,
                flags: 0,
                stream: 5,
                opcode: OpcodeResponse::OpcodeResult,
                body,
            };
            let mut buf: Vec<u8> = Vec::new();
            resp.serialize(&mut buf, version).expect("result must encode");
            let mut rd = CqlReader::new(buf);
            let back = rd.read_cql_response(version).expect("result must decode");
            assert_eq!(back, resp);
        }
    }
}

#[test]
fn test_metadata_global_flag_roundtrip() {
    let resp = CqlResponse {
        version: 0x83,
        flags: 0,
        stream: 1,
        opcode: OpcodeResponse::OpcodeResult,
        body: CqlResponseBody::ResultRows(CqlRows {
            metadata: CqlMetadata {
                flags: 1,
                column_count: 2,
                keyspace: "ks".to_owned(),
                table: "tb".to_owned(),
                row_metadata: vec![
                    CqlColMetadata {
                        keyspace: "ks".to_owned(),
                        table: "tb".to_owned(),
                        col_name: "a".to_owned(),
                        col_type: CqlValueType::ColumnList,
                        col_type_aux1: CqlValueType::ColumnInt,
                        col_type_aux2: CqlValueType::ColumnUnknown,
                    },
                    CqlColMetadata {
                        keyspace: "ks".to_owned(),
                        table: "tb".to_owned(),
                        col_name: "b".to_owned(),
                        col_type: CqlValueType::ColumnMap,
                        col_type_aux1: CqlValueType::ColumnText,
                        col_type_aux2: CqlValueType::ColumnInt,
                    },
                ],
            },
            rows: vec![CqlRow {
                cols: vec![
                    CqlValue::CqlList(Some(vec![CqlValue::CqlInt(Some(9))])),
                    CqlValue::CqlMap(None),
                ],
            }],
        }),
    };
    let mut buf: Vec<u8> = Vec::new();
    resp.serialize(&mut buf, 3).expect("rows with metadata must encode");
    let mut rd = CqlReader::new(buf);
    let back = rd.read_cql_response(3).expect("rows with metadata must decode");
    assert_eq!(back, resp);
    match back.body {
        CqlResponseBody::ResultRows(rows) => {
            assert_eq!(rows.metadata.flags, 1);
            assert_eq!(rows.metadata.row_metadata[0].col_type_aux1, CqlValueType::ColumnInt);
            assert_eq!(rows.metadata.row_metadata[1].col_type_aux2, CqlValueType::ColumnInt);
        },
        _ => panic!("expected a rows result"),
    }
}

#[test]
fn test_request_encodings() {
    // STARTUP v3: body is the CQL_VERSION string map
    let req = CqlRequest {
        version: 3,
        flags: 0,
        stream: 1,
        opcode: OpcodeRequest::OpcodeStartup,
        body: CqlRequestBody::RequestStartup(CqlStringMap {
            pairs: vec![CqlPair { key: "CQL_VERSION".to_owned(), value: "3.0.0".to_owned() }],
        }),
    };
    let mut buf: Vec<u8> = Vec::new();
    req.serialize(&mut buf, 3).expect("startup must encode");
    let expected: Vec<u8> = vec![
        3, 0, 0, 1, 0x01, // header: version, flags, stream(i16), opcode
        0, 0, 0, 22, // body length
        0, 1, // one pair
        0, 11, b'C', b'Q', b'L', b'_', b'V', b'E', b'R', b'S', b'I', b'O', b'N',
        0, 5, b'3', b'.', b'0', b'.', b'0',
    ];
    assert_eq!(buf, expected);

    // QUERY v1 has a one-byte stream and no flags byte in the body
    let req = CqlRequest {
        version: 1,
        flags: 0,
        stream: 7,
        opcode: OpcodeRequest::OpcodeQuery,
        body: CqlRequestBody::RequestQuery("SELECT".to_owned(), Consistency::One, 0),
    };
    let mut buf: Vec<u8> = Vec::new();
    req.serialize(&mut buf, 1).expect("query must encode");
    let expected: Vec<u8> = vec![
        1, 0, 7, 0x07, // header: version, flags, stream(i8), opcode
        0, 0, 0, 12, // body length
        0, 0, 0, 6, b'S', b'E', b'L', b'E', b'C', b'T', // long string
        0, 1, // consistency ONE
    ];
    assert_eq!(buf, expected);
}

#[test]
fn test_batch_encoding() {
    // Logged batch with a query string and a prepared execution (P-style
    // scripted-server expectation: type byte 0, then the entry count 2)
    let req = CqlRequest {
        version: 3,
        flags: 0,
        stream: 4,
        opcode: OpcodeRequest::OpcodeBatch,
        body: CqlRequestBody::RequestBatch(
            vec![
                Query::QueryStr("INSERT INTO t (k,v) VALUES ('a', 1.0)".to_owned()),
                Query::QueryPrepared(
                    vec![0xAA, 0xBB],
                    vec![
                        CqlValue::CqlVarchar(Some("b".to_owned())),
                        CqlValue::CqlFloat(Some(2.0f32.to_bits())),
                    ],
                ),
            ],
            BatchType::Logged,
            Consistency::One,
            0,
        ),
    };
    let mut buf: Vec<u8> = Vec::new();
    req.serialize(&mut buf, 3).expect("batch must encode");
    // header (5) + length (4), then the body
    assert_eq!(buf[9], 0x00, "batch type Logged");
    assert_eq!(&buf[10..12], &[0x00, 0x02], "two batch entries");
    assert_eq!(buf[12], 0x00, "first entry is a query string");
}

#[test]
fn test_execute_encoding_versions() {
    // v2 and later: id, consistency, flags, count, values; v1: id, count,
    // values, consistency
    for version in [1u8, 2, 3] {
        let req = CqlRequest {
            version,
            flags: 0,
            stream: 2,
            opcode: OpcodeRequest::OpcodeExecute,
            body: CqlRequestBody::RequestExec(
                vec![0xAA, 0xBB],
                vec![CqlValue::CqlInt(Some(7))],
                Consistency::One,
                1,
            ),
        };
        let mut buf: Vec<u8> = Vec::new();
        req.serialize(&mut buf, version).expect("execute must encode");
        let hl = if version >= 3 { 5 } else { 4 };
        let body = &buf[hl + 4..];
        assert_eq!(&body[0..4], &[0, 2, 0xAA, 0xBB], "short-bytes prepared id");
        if version >= 2 {
            assert_eq!(&body[4..6], &[0, 1], "consistency ONE");
            assert_eq!(body[6], 1, "flags");
            assert_eq!(&body[7..9], &[0, 1], "one bound value");
        } else {
            assert_eq!(&body[4..6], &[0, 1], "one bound value");
            let n = body.len();
            assert_eq!(&body[n - 2..], &[0, 1], "consistency ONE at the tail");
        }
    }
}

#[test]
fn test_error_response_roundtrip() {
    let resp = CqlResponse {
        version: 0x83,
        flags: 0,
        stream: 3,
        opcode: OpcodeResponse::OpcodeError,
        body: CqlResponseBody::ResponseError(0x2200, "Invalid query".to_owned()),
    };
    let mut buf: Vec<u8> = Vec::new();
    resp.serialize(&mut buf, 3).unwrap();
    let mut rd = CqlReader::new(buf);
    let back = rd.read_cql_response(3).unwrap();
    assert_eq!(back, resp);
}

#[test]
fn test_unknown_result_kind_fails() {
    // RESULT with kind 9: the codec refuses it
    let bytes: Vec<u8> = vec![
        0x83, 0, 0, 1, 0x08, // header
        0, 0, 0, 4, // body length
        0, 0, 0, 9, // unknown kind
    ];
    let mut rd = CqlReader::new(bytes);
    assert!(rd.read_cql_response(3).is_err());
}

#[test]
fn test_invalid_utf8_fails() {
    // AUTHENTICATE whose class string holds invalid UTF-8
    let bytes: Vec<u8> = vec![
        0x83, 0, 0, 1, 0x03, // header
        0, 0, 0, 4, // body length
        0, 2, 0xFF, 0xFE, // short string with invalid bytes
    ];
    let mut rd = CqlReader::new(bytes);
    assert!(rd.read_cql_response(3).is_err());
}
