//! Protocol-engine tests: frame framing, stream-id multiplexing, the
//! startup handshake, event demultiplexing, and the cluster host tables.

use cql::cluster::Cluster;
use cql::cluster::EventHandler;
use cql::cluster::downgrade_version;
use cql::connection::Connection;
use cql::connection::Routed;
use cql::connection::StartupAction;
use cql::connection::make_token;
use cql::connection_pool::ConnectionPool;
use cql::def::Consistency;
use cql::def::CqlEvent;
use cql::def::CqlMetadata;
use cql::def::CqlResponse;
use cql::def::CqlResponseBody;
use cql::def::CqlRow;
use cql::def::CqlRows;
use cql::def::CqlValue;
use cql::def::CqlValueType;
use cql::def::CqlColMetadata;
use cql::def::IpAddress;
use cql::def::OpcodeResponse;
use cql::def::SockAddr;
use cql::def::StatusChangeType;
use cql::def::TopologyChangeType;
use cql::error::RCErrorType;
use cql::load_balancing::LatencyAware;
use cql::load_balancing::RoundRobin;
use cql::node::Node;
use cql::node::prepared_from_response;
use cql::util::max_stream_id;
use cql::util::to_hex_string;

fn ready_response(version: u8, stream: i16) -> CqlResponse {
    CqlResponse {
        version: 0x80 | version,
        flags: 0,
        stream,
        opcode: OpcodeResponse::OpcodeReady,
        body: CqlResponseBody::ResponseReady,
    }
}

fn void_response(version: u8, stream: i16) -> CqlResponse {
    CqlResponse {
        version: 0x80 | version,
        flags: 0,
        stream,
        opcode: OpcodeResponse::OpcodeResult,
        body: CqlResponseBody::ResultVoid,
    }
}

fn event_frame_bytes(version: u8) -> Vec<u8> {
    let resp = CqlResponse {
        version: 0x80 | version,
        flags: 0,
        stream: -1,
        opcode: OpcodeResponse::OpcodeEvent,
        body: CqlResponseBody::ResponseEvent(CqlEvent::TopologyChange(
            TopologyChangeType::NewNode,
            SockAddr { ip: IpAddress::Ipv4(127, 0, 0, 2), port: 9042 },
        )),
    };
    let mut buf: Vec<u8> = Vec::new();
    resp.serialize(&mut buf, version).expect("event frame must encode");
    buf
}

fn frame_bytes(resp: &CqlResponse, version: u8) -> Vec<u8> {
    let mut buf: Vec<u8> = Vec::new();
    resp.serialize(&mut buf, version).expect("frame must encode");
    buf
}

#[test]
fn test_frames_concatenated() {
    // a buffer holding three frames yields three responses, in order, with
    // their stream ids and opcodes
    let mut conn = Connection::new(3);
    let mut bytes = frame_bytes(&ready_response(3, 1), 3);
    bytes.extend_from_slice(&frame_bytes(&void_response(3, 2), 3));
    bytes.extend_from_slice(&frame_bytes(&ready_response(3, 7), 3));
    conn.read(&bytes);
    let r1 = conn.try_read_frame().expect("first frame complete").expect("first frame parses");
    assert_eq!((r1.stream, r1.opcode), (1, OpcodeResponse::OpcodeReady));
    let r2 = conn.try_read_frame().expect("second frame complete").expect("second frame parses");
    assert_eq!((r2.stream, r2.opcode), (2, OpcodeResponse::OpcodeResult));
    let r3 = conn.try_read_frame().expect("third frame complete").expect("third frame parses");
    assert_eq!((r3.stream, r3.opcode), (7, OpcodeResponse::OpcodeReady));
    assert!(conn.try_read_frame().is_none(), "no fourth frame");
}

#[test]
fn test_partial_frame_needs_more_bytes() {
    let mut conn = Connection::new(3);
    let whole = frame_bytes(&ready_response(3, 1), 3);
    // feed all but the last byte: the reader must not consume anything
    conn.read(&whole[..whole.len() - 1]);
    assert!(conn.try_read_frame().is_none(), "incomplete frame: need more bytes");
    assert!(conn.try_read_frame().is_none(), "still incomplete, buffer intact");
    // the missing byte completes the frame
    conn.read(&whole[whole.len() - 1..]);
    let r = conn.try_read_frame().expect("complete now").expect("parses");
    assert_eq!(r.stream, 1);
}

fn query_request(node: &Node) -> cql::def::CqlRequest {
    node.exec_query("SELECT now() FROM system.local;", Consistency::One)
}

fn test_node(version: u8) -> Node {
    let mut n = Node::new(SockAddr { ip: IpAddress::Ipv4(127, 0, 0, 1), port: 9042 });
    n.version = version;
    n
}

#[test]
fn test_stream_ids_unique() {
    let mut conn = Connection::new(2);
    let node = test_node(2);
    let mut seen: Vec<i16> = Vec::new();
    for _ in 0..100 {
        let id = conn.insert_request(query_request(&node)).expect("id space not exhausted");
        assert!(!seen.contains(&id), "assigned id is unique among in-flight ids");
        seen.push(id);
    }
}

#[test]
fn test_stream_id_exhaustion_v2() {
    // the v1/v2 header carries the stream id on one signed byte, so 127
    // requests can be in flight; the next enqueue fails with the
    // no-stream-id error
    let mut conn = Connection::new(2);
    let node = test_node(2);
    for i in 0..127 {
        let id = conn.insert_request(query_request(&node))
            .unwrap_or_else(|_| panic!("request {} of 127 must get an id", i + 1));
        assert!(1 <= id && id <= 127);
    }
    let err = conn.insert_request(query_request(&node)).expect_err("the next enqueue fails");
    assert_eq!(err.kind, RCErrorType::EventLoopError);
    assert!(err.description().contains("NoStreamId"));
}

#[test]
fn test_stream_id_reuse_after_completion() {
    let mut conn = Connection::new(2);
    let node = test_node(2);
    for _ in 0..127 {
        conn.insert_request(query_request(&node)).unwrap();
    }
    // put everything on the wire so the responses can be correlated
    while conn.are_pendings_send() {
        conn.write().unwrap();
    }
    assert!(conn.insert_request(query_request(&node)).is_err(), "id space exhausted");
    // the server answers request 40: its id is freed
    match conn.handle_response(void_response(2, 40)) {
        Routed::Completion(id, _, _) => assert_eq!(id, 40),
        _ => panic!("expected the completion of stream 40"),
    }
    let id = conn.insert_request(query_request(&node)).expect("freed id is eligible again");
    assert_eq!(id, 40, "the freed id is handed out again");
}

#[test]
fn test_out_of_order_completion() {
    // requests A then B; the server answers B before A; each completion
    // resolves with the payload its stream id names
    let mut conn = Connection::new(3);
    let node = test_node(3);
    let a = conn.insert_request(node.exec_query("A", Consistency::One)).unwrap();
    let b = conn.insert_request(node.exec_query("B", Consistency::Two)).unwrap();
    while conn.are_pendings_send() {
        conn.write().unwrap();
    }
    match conn.handle_response(void_response(3, b)) {
        Routed::Completion(id, req, _) => {
            assert_eq!(id, b);
            match req.body {
                cql::def::CqlRequestBody::RequestQuery(q, c, _) => {
                    assert_eq!(q, "B");
                    assert_eq!(c, Consistency::Two);
                },
                _ => panic!("expected the B query"),
            }
        },
        _ => panic!("expected a completion"),
    }
    match conn.handle_response(void_response(3, a)) {
        Routed::Completion(id, req, _) => {
            assert_eq!(id, a);
            match req.body {
                cql::def::CqlRequestBody::RequestQuery(q, _, _) => assert_eq!(q, "A"),
                _ => panic!("expected the A query"),
            }
        },
        _ => panic!("expected a completion"),
    }
}

#[test]
fn test_event_frame_interleaved() {
    // an EVENT frame between two responses goes to the event handler and
    // leaves the pending requests alone
    let mut conn = Connection::new(3);
    let node = test_node(3);
    let a = conn.insert_request(node.exec_query("A", Consistency::One)).unwrap();
    let b = conn.insert_request(node.exec_query("B", Consistency::One)).unwrap();
    while conn.are_pendings_send() {
        conn.write().unwrap();
    }
    let mut bytes = frame_bytes(&void_response(3, a), 3);
    bytes.extend_from_slice(&event_frame_bytes(3));
    bytes.extend_from_slice(&frame_bytes(&void_response(3, b), 3));
    conn.read(&bytes);

    let mut handler = EventHandler::new();
    let mut completions = 0;
    loop {
        let parsed = match conn.try_read_frame() {
            Some(r) => r.expect("every frame parses"),
            None => break,
        };
        match conn.handle_response(parsed) {
            Routed::Event(e) => handler.notify(e),
            Routed::Completion(_, _, _) => completions += 1,
            Routed::Stale(_) => panic!("no stale responses expected"),
        }
    }
    assert_eq!(completions, 2, "both request completions stayed intact");
    assert_eq!(handler.available_nodes.len(), 1);
    assert_eq!(handler.available_nodes[0].0, IpAddress::Ipv4(127, 0, 0, 2));
}

#[test]
fn test_handshake_ready() {
    // a server that answers STARTUP with READY makes the connection usable
    // at the advertised version
    let conn = Connection::new(3);
    match conn.continue_startup_request(&ready_response(3, 1), &None) {
        StartupAction::Complete => {},
        _ => panic!("READY completes the handshake"),
    }
    assert_eq!(conn.version, 3);
}

fn authenticate_response(version: u8) -> CqlResponse {
    CqlResponse {
        version: 0x80 | version,
        flags: 0,
        stream: 1,
        opcode: OpcodeResponse::OpcodeAuthenticate,
        body: CqlResponseBody::ResponseAuthenticate(
            "org.apache.cassandra.auth.PasswordAuthenticator".to_owned(),
        ),
    }
}

#[test]
fn test_handshake_authenticate_with_credentials() {
    let conn = Connection::new(3);
    let creds = Some(vec!["alice".to_owned(), "s3cret".to_owned()]);
    match conn.continue_startup_request(&authenticate_response(3), &creds) {
        StartupAction::SendAuthResponse(token) => {
            assert_eq!(
                token,
                vec![
                    0x00, 0x61, 0x6C, 0x69, 0x63, 0x65, // \0 a l i c e
                    0x00, 0x73, 0x33, 0x63, 0x72, 0x65, 0x74, // \0 s 3 c r e t
                ]
            );
        },
        _ => panic!("approved class with credentials at v3 sends AUTH_RESPONSE"),
    }
}

#[test]
fn test_handshake_authenticate_v1_fails() {
    let conn = Connection::new(1);
    let creds = Some(vec!["alice".to_owned(), "s3cret".to_owned()]);
    match conn.continue_startup_request(&authenticate_response(1), &creds) {
        StartupAction::Failed(e) => {
            // an authentication failure is terminal: it carries a kind the
            // version-downgrade retry never follows
            assert_eq!(e.kind, RCErrorType::ConnectionError);
            assert!(e.description().contains("not supported for v1"));
        },
        _ => panic!("authentication is not supported for v1"),
    }
}

#[test]
fn test_handshake_failure_kinds_distinguish_downgrade() {
    // a negotiation failure (server ERROR on STARTUP) is retriable one
    // version lower; an authentication failure is not
    let conn = Connection::new(3);
    let error = CqlResponse {
        version: 0x83,
        flags: 0,
        stream: 1,
        opcode: OpcodeResponse::OpcodeError,
        body: CqlResponseBody::ResponseError(0x000A, "Invalid protocol version".to_owned()),
    };
    match conn.continue_startup_request(&error, &None) {
        StartupAction::Failed(e) => assert_eq!(e.kind, RCErrorType::ReadError),
        _ => panic!("a server error fails the attempt"),
    }
    match conn.continue_startup_request(&authenticate_response(3), &None) {
        StartupAction::Failed(e) => assert_eq!(e.kind, RCErrorType::ConnectionError),
        _ => panic!("missing credentials fail the handshake"),
    }
}

#[test]
fn test_handshake_downgrade() {
    // ERROR on STARTUP at v3, then READY on STARTUP at v2: the connection
    // finishes at version 2
    let conn = Connection::new(3);
    let error = CqlResponse {
        version: 0x83,
        flags: 0,
        stream: 1,
        opcode: OpcodeResponse::OpcodeError,
        body: CqlResponseBody::ResponseError(0x000A, "Invalid protocol version".to_owned()),
    };
    let version = match conn.continue_startup_request(&error, &None) {
        StartupAction::Failed(_) => downgrade_version(conn.version).expect("one version below"),
        _ => panic!("a server error fails the handshake attempt"),
    };
    assert_eq!(version, 2);
    let conn = Connection::new(version);
    match conn.continue_startup_request(&ready_response(2, 1), &None) {
        StartupAction::Complete => {},
        _ => panic!("READY completes the retry"),
    }
    assert_eq!(conn.version, 2);
    assert_eq!(downgrade_version(1), None, "below v1 there is nothing to try");
}

#[test]
fn test_make_token_exact_bytes() {
    let token = make_token(&vec!["alice".to_owned(), "s3cret".to_owned()]);
    assert_eq!(
        token,
        vec![0x00, 0x61, 0x6C, 0x69, 0x63, 0x65, 0x00, 0x73, 0x33, 0x63, 0x72, 0x65, 0x74]
    );
}

#[test]
fn test_event_handler_transitions() {
    let mut handler = EventHandler::new();
    let addr = SockAddr { ip: IpAddress::Ipv4(10, 0, 0, 1), port: 9042 };
    handler.notify(CqlEvent::TopologyChange(TopologyChangeType::NewNode, addr));
    assert_eq!(handler.available_nodes.len(), 1);
    handler.notify(CqlEvent::StatusChange(StatusChangeType::Down, addr));
    assert_eq!(handler.available_nodes.len(), 0);
    assert_eq!(handler.unavailable_nodes.len(), 1);
    handler.notify(CqlEvent::StatusChange(StatusChangeType::Up, addr));
    assert_eq!(handler.available_nodes.len(), 1);
    assert_eq!(handler.unavailable_nodes.len(), 0);
    // UP for an unknown host is a no-op, not an error
    let other = SockAddr { ip: IpAddress::Ipv4(10, 0, 0, 9), port: 9042 };
    handler.notify(CqlEvent::StatusChange(StatusChangeType::Up, other));
    assert_eq!(handler.available_nodes.len(), 1);
    handler.notify(CqlEvent::TopologyChange(TopologyChangeType::RemovedNode, addr));
    assert_eq!(handler.available_nodes.len(), 0);
}

#[test]
fn test_prepared_statement_flow() {
    // PREPARE answered with PREPARED id 0xAABB; EXECUTE with bound values
    // answered with VOID
    let prepared = CqlResponse {
        version: 0x83,
        flags: 0,
        stream: 1,
        opcode: OpcodeResponse::OpcodeResult,
        body: CqlResponseBody::ResultPrepared(cql::def::CqlPreparedStat {
            id: vec![0xAA, 0xBB],
            meta: CqlMetadata {
                flags: 0,
                column_count: 0,
                keyspace: String::new(),
                table: String::new(),
                row_metadata: vec![],
            },
            meta_result: Some(CqlMetadata {
                flags: 0,
                column_count: 0,
                keyspace: String::new(),
                table: String::new(),
                row_metadata: vec![],
            }),
        }),
    };
    let stat = prepared_from_response(prepared).expect("PREPARED carries the statement");
    assert_eq!(stat.id, vec![0xAA, 0xBB]);
    assert_eq!(to_hex_string(&stat.id), "AA BB");

    let node = test_node(3);
    let req = node.exec_prepared(
        &stat.id,
        vec![
            CqlValue::CqlVarchar(Some("k1".to_owned())),
            CqlValue::CqlFloat(Some(1.5f32.to_bits())),
        ],
        Consistency::One,
    );
    let mut conn = Connection::new(3);
    let id = conn.insert_request(req).unwrap();
    conn.write().unwrap();
    match conn.handle_response(void_response(3, id)) {
        Routed::Completion(_, _, resp) => assert_eq!(resp.body, CqlResponseBody::ResultVoid),
        _ => panic!("expected the VOID completion"),
    }
    // a READY response carries no prepared statement
    assert!(prepared_from_response(ready_response(3, 1)).is_err());
}

#[test]
fn test_rows_scenario() {
    // "SELECT x FROM t" at ONE on v3: a ROWS response with one int column
    // and rows [1, 2, 3]
    let node = test_node(3);
    let req = node.exec_query("SELECT x FROM t", Consistency::One);
    let mut conn = Connection::new(3);
    let id = conn.insert_request(req).unwrap();
    let bytes = conn.write().unwrap();
    assert_eq!(bytes[4], 0x07, "QUERY opcode on the wire");
    let rows = CqlResponse {
        version: 0x83,
        flags: 0,
        stream: id,
        opcode: OpcodeResponse::OpcodeResult,
        body: CqlResponseBody::ResultRows(CqlRows {
            metadata: CqlMetadata {
                flags: 0,
                column_count: 1,
                keyspace: String::new(),
                table: String::new(),
                row_metadata: vec![CqlColMetadata {
                    keyspace: String::new(),
                    table: String::new(),
                    col_name: "x".to_owned(),
                    col_type: CqlValueType::ColumnInt,
                    col_type_aux1: CqlValueType::ColumnUnknown,
                    col_type_aux2: CqlValueType::ColumnUnknown,
                }],
            },
            rows: vec![
                CqlRow { cols: vec![CqlValue::CqlInt(Some(1))] },
                CqlRow { cols: vec![CqlValue::CqlInt(Some(2))] },
                CqlRow { cols: vec![CqlValue::CqlInt(Some(3))] },
            ],
        }),
    };
    conn.read(&frame_bytes(&rows, 3));
    let parsed = conn.try_read_frame().unwrap().unwrap();
    match conn.handle_response(parsed) {
        Routed::Completion(_, _, resp) => match resp.body {
            CqlResponseBody::ResultRows(r) => {
                assert_eq!(r.metadata.column_count, 1);
                assert_eq!(
                    r.rows,
                    vec![
                        CqlRow { cols: vec![CqlValue::CqlInt(Some(1))] },
                        CqlRow { cols: vec![CqlValue::CqlInt(Some(2))] },
                        CqlRow { cols: vec![CqlValue::CqlInt(Some(3))] },
                    ]
                );
            },
            _ => panic!("expected rows"),
        },
        _ => panic!("expected a completion"),
    }
}

#[test]
fn test_cluster_host_bookkeeping() {
    let mut cluster = Cluster::new();
    assert!(cluster.are_available_nodes(), "no host joined yet");
    let ip = IpAddress::Ipv4(172, 17, 0, 2);
    let node = Node::new(SockAddr { ip, port: 9042 });
    cluster.add_node(ip, node, true);
    assert!(!cluster.are_available_nodes());
    cluster.refresh_current();
    assert_eq!(cluster.current_node, ip);
    let req = cluster.exec_query("SELECT now() FROM system.local;", Consistency::One)
        .expect("a live current host builds requests");
    assert_eq!(req.opcode, cql::def::OpcodeRequest::OpcodeQuery);
}

#[test]
fn test_cluster_no_live_hosts() {
    let cluster = Cluster::new();
    let err = cluster
        .exec_query("SELECT 1", Consistency::One)
        .expect_err("no live host: the call fails");
    assert_eq!(err.kind, RCErrorType::ClusterError);
}

#[test]
fn test_parse_nodes() {
    let cluster = Cluster::new();
    let peers = CqlResponse {
        version: 0x83,
        flags: 0,
        stream: 1,
        opcode: OpcodeResponse::OpcodeResult,
        body: CqlResponseBody::ResultRows(CqlRows {
            metadata: CqlMetadata {
                flags: 0,
                column_count: 1,
                keyspace: String::new(),
                table: String::new(),
                row_metadata: vec![CqlColMetadata {
                    keyspace: String::new(),
                    table: String::new(),
                    col_name: "peer".to_owned(),
                    col_type: CqlValueType::ColumnInet,
                    col_type_aux1: CqlValueType::ColumnUnknown,
                    col_type_aux2: CqlValueType::ColumnUnknown,
                }],
            },
            rows: vec![
                CqlRow { cols: vec![CqlValue::CqlInet(Some(IpAddress::Ipv4(10, 0, 0, 1)))] },
                CqlRow { cols: vec![CqlValue::CqlInet(Some(IpAddress::Ipv4(10, 0, 0, 2)))] },
            ],
        }),
    };
    let ips = cluster.parse_nodes(&peers).expect("well-formed peer rows parse");
    assert_eq!(ips, vec![IpAddress::Ipv4(10, 0, 0, 1), IpAddress::Ipv4(10, 0, 0, 2)]);
    assert!(cluster.parse_nodes(&ready_response(3, 1)).is_err(), "not a rows result");
}

#[test]
fn test_round_robin_rotation() {
    let mut rr = RoundRobin { index: 0 };
    let nodes = vec![
        (IpAddress::Ipv4(10, 0, 0, 1), test_node(3)),
        (IpAddress::Ipv4(10, 0, 0, 2), test_node(3)),
        (IpAddress::Ipv4(10, 0, 0, 3), test_node(3)),
    ];
    let mut seen: Vec<IpAddress> = Vec::new();
    for _ in 0..3 {
        seen.push(rr.select_rotating(&nodes).unwrap());
    }
    // one full round visits each host exactly once
    for (ip, _) in &nodes {
        assert_eq!(seen.iter().filter(|x| *x == ip).count(), 1);
    }
    assert!(rr.select_rotating(&Vec::new()).is_none());
}

#[test]
fn test_latency_aware_selection() {
    let la = LatencyAware {};
    let mut n1 = test_node(3);
    n1.latency = 30;
    let mut n2 = test_node(3);
    n2.latency = 10;
    let mut n3 = test_node(3);
    n3.latency = 10;
    let nodes = vec![
        (IpAddress::Ipv4(10, 0, 0, 1), n1),
        (IpAddress::Ipv4(10, 0, 0, 2), n2),
        (IpAddress::Ipv4(10, 0, 0, 3), n3),
    ];
    // lowest probe wins; ties go to the earlier entry
    assert_eq!(la.select_fastest(&nodes), Some(IpAddress::Ipv4(10, 0, 0, 2)));
}

#[test]
fn test_max_stream_id_and_hex() {
    assert!(max_stream_id(127, 2));
    assert!(!max_stream_id(126, 2));
    assert!(max_stream_id(32767, 3));
    assert!(!max_stream_id(128, 3));
    assert_eq!(to_hex_string(&vec![]), "");
    assert_eq!(to_hex_string(&vec![0x0F]), "0F");
    assert_eq!(to_hex_string(&vec![0xDE, 0xAD]), "DE AD");
}

#[test]
fn test_code_tables() {
    assert_eq!(cql::def::opcode_response(0x0C), OpcodeResponse::OpcodeEvent);
    assert_eq!(cql::def::opcode_response(0x42), OpcodeResponse::OpcodeUnknown);
    assert!(OpcodeResponse::OpcodeEvent.is_event_code());
    assert!(!OpcodeResponse::OpcodeReady.is_event_code());
    assert_eq!(cql::def::cql_column_type(0x0009), CqlValueType::ColumnInt);
    assert_eq!(cql::def::cql_column_type(0x0021), CqlValueType::ColumnMap);
    assert_eq!(cql::def::cql_column_type(0x7777), CqlValueType::ColumnUnknown);
    assert_eq!(cql::def::consistency_value(Consistency::Quorum), 4);
    assert_eq!(cql::def::CqlEventType::from_str("TOPOLOGY_CHANGE"), cql::def::CqlEventType::TopologyChange);
    assert_eq!(cql::def::CqlEventType::TopologyChange.get_str(), "TOPOLOGY_CHANGE");
    assert_eq!(TopologyChangeType::from_str("NEW_NODE"), TopologyChangeType::NewNode);
    assert_eq!(StatusChangeType::from_str("DOWN"), StatusChangeType::Down);
    assert_eq!(cql::def::SchemaChangeType::from_str("CREATED"), cql::def::SchemaChangeType::Created);
}

#[test]
fn test_set_stream_range() {
    let node = test_node(2);
    let mut req = node.exec_query("SELECT 1", Consistency::One);
    assert!(req.set_stream(127).is_ok());
    assert_eq!(req.stream, 127);
    let err = req.set_stream(128).expect_err("beyond the v2 range");
    assert_eq!(err.kind, RCErrorType::EventLoopError);
    assert_eq!(req.stream, 127, "a rejected id leaves the request unchanged");
    assert!(req.set_stream(0).is_err(), "0 is reserved");
    assert!(req.set_stream(-1).is_err(), "-1 is reserved for server events");
    assert_eq!(req.stream, 127);
    let node3 = test_node(3);
    let mut req3 = node3.exec_query("SELECT 1", Consistency::One);
    assert!(req3.set_stream(32767).is_ok(), "the full v3 range is assignable");
    assert!(req3.set_stream(-5).is_err());
}

#[test]
fn test_pool_lazy_creation_and_routing() {
    let mut pool = ConnectionPool::new();
    let ip1 = IpAddress::Ipv4(10, 0, 0, 1);
    let ip2 = IpAddress::Ipv4(10, 0, 0, 2);
    let node = test_node(3);
    assert!(!pool.exists_connection_by_ip(&ip1));

    // first request to a host creates its connection, STARTUP queued first
    let id = pool
        .route_request(ip1, 3, node.exec_query("A", Consistency::One))
        .expect("routing to a new host succeeds");
    assert!(pool.exists_connection_by_ip(&ip1));
    assert_eq!(pool.connections.len(), 1);
    let conn = pool.find_connection_by_ip(&ip1).expect("the connection exists");
    assert_eq!(conn.pendings_send.len(), 2);
    assert_eq!(conn.pendings_send[0].opcode, cql::def::OpcodeRequest::OpcodeStartup);
    assert_eq!(conn.pendings_send[0].stream, 1);
    assert_eq!(conn.pendings_send[1].stream, id);

    // creation is idempotent: routing again reuses the connection
    pool.route_request(ip1, 3, node.exec_query("B", Consistency::One))
        .expect("routing to a known host succeeds");
    assert_eq!(pool.connections.len(), 1);
    let conn = pool.find_connection_by_ip(&ip1).expect("still one connection");
    assert_eq!(conn.pendings_send.len(), 3);

    // a second host gets a connection of its own
    pool.route_request(ip2, 3, node.exec_query("C", Consistency::One))
        .expect("routing to another host succeeds");
    assert_eq!(pool.connections.len(), 2);
    assert!(pool.exists_connection_by_ip(&ip2));

    // a request at another protocol version cannot ride this connection
    let node2 = test_node(2);
    let err = pool
        .route_request(ip1, 2, node2.exec_query("D", Consistency::One))
        .expect_err("the host's connection speaks v3");
    assert_eq!(err.kind, RCErrorType::ConnectionError);
    assert_eq!(pool.connections.len(), 2, "the pool keeps its entries");
}
