//! Connection state: one duplex channel multiplexing in-flight requests by
//! stream id. The socket itself lives outside the library; this module owns
//! the outbound queue, the in-flight table, the accumulating read buffer
//! with its frame boundary logic, and the startup handshake decisions.

use vstd::prelude::*;
use vstd::slice::slice_subrange;
use vstd::slice::slice_to_vec;
use vstd::utf8::encode_utf8;
use crate::def::CqlEvent;
use crate::def::CqlRequest;
use crate::def::CqlResponse;
use crate::def::CqlResponseBody;
use crate::error::RCError;
use crate::error::RCErrorType;
use crate::error::RCResult;
use crate::format::request_enc_ok;
use crate::format::request_view;
use crate::format::response_view;
use crate::format::spec_dec_response;
use crate::format::spec_enc_request;
use crate::format::spec_frame_total;
use crate::reader::CqlReader;

verus! {

/// Highest assignable stream id of a protocol version; 0 and -1 are
/// reserved, ids from 1 up to this bound inclusive carry requests.
pub open spec fn spec_max_id(version: u8) -> i16 {
    if version == 3 {
        crate::CQL_MAX_STREAM_ID_V3
    } else {
        crate::CQL_MAX_STREAM_ID_V1_V2
    }
}

/// What the connection decides about one inbound frame.
pub enum Routed {
    /// A server-initiated event (stream -1): hand it to the event handler;
    /// no pending request is touched.
    Event(CqlEvent),
    /// The response to the in-flight request with this stream id, paired
    /// with the request that awaited it.
    Completion(i16, CqlRequest, CqlResponse),
    /// A response whose stream id matches no in-flight request.
    Stale(CqlResponse),
}

/// One protocol connection: negotiated version, outbound queue, in-flight
/// table, and the read buffer.
pub struct Connection {
    /// Negotiated protocol version, fixed at handshake.
    pub version: u8,
    /// Outbound messages not yet on the wire, oldest first, each already
    /// carrying its stream id.
    pub pendings_send: Vec<CqlRequest>,
    /// In-flight messages awaiting their response, keyed by stream id.
    pub pendings_complete: Vec<(i16, CqlRequest)>,
    /// High-water mark of assigned stream ids.
    pub stream_id: i16,
    /// Bytes read from the socket and not yet consumed as frames.
    pub response: Vec<u8>,
}

impl Connection {
    /// Whether some queued or in-flight request carries this stream id.
    pub open spec fn has_id(self, id: i16) -> bool {
        (exists|i: int| 0 <= i < self.pendings_send@.len() && self.pendings_send@[i].stream == id)
            || (exists|i: int|
            0 <= i < self.pendings_complete@.len() && self.pendings_complete@[i].0 == id)
    }

    /// Well-formedness: the version is one the driver speaks, every carried
    /// id lies in the assignable range at or below the high-water mark, and
    /// no id is carried twice.
    pub open spec fn wf(self) -> bool {
        &&& 1 <= self.version <= 3
        &&& 0 <= self.stream_id <= spec_max_id(self.version)
        &&& forall|i: int|
            0 <= i < self.pendings_send@.len() ==> 1 <= (
            #[trigger] self.pendings_send@[i]).stream <= self.stream_id
        &&& forall|i: int|
            0 <= i < self.pendings_complete@.len() ==> 1 <= (
            #[trigger] self.pendings_complete@[i]).0 <= self.stream_id
        &&& forall|i: int, j: int|
            0 <= i < j < self.pendings_send@.len() ==> (#[trigger] self.pendings_send@[i]).stream
                != (#[trigger] self.pendings_send@[j]).stream
        &&& forall|i: int, j: int|
            0 <= i < j < self.pendings_complete@.len() ==> (
            #[trigger] self.pendings_complete@[i]).0 != (#[trigger] self.pendings_complete@[j]).0
        &&& forall|i: int, j: int|
            0 <= i < self.pendings_send@.len() && 0 <= j < self.pendings_complete@.len() ==> (
            #[trigger] self.pendings_send@[i]).stream != (
            #[trigger] self.pendings_complete@[j]).0
    }

    /// A fresh connection at the given version, with nothing queued.
    pub fn new(version: u8) -> (r: Connection)
        requires
            1 <= version <= 3,
        ensures
            r.wf(),
            r.version == version,
            r.pendings_send@.len() == 0,
            r.pendings_complete@.len() == 0,
            r.response@.len() == 0,
            r.stream_id == 0,
    {
        Connection {
            version,
            pendings_send: Vec::new(),
            pendings_complete: Vec::new(),
            stream_id: 0,
            response: Vec::new(),
        }
    }

    /// Whether outbound messages wait to be written.
    pub fn are_pendings_send(&self) -> (r: bool)
        ensures
            r == (self.pendings_send@.len() > 0),
    {
        !self.pendings_send.is_empty()
    }

    /// Whether requests are in flight.
    pub fn are_pendings_complete(&self) -> (r: bool)
        ensures
            r == (self.pendings_complete@.len() > 0),
    {
        !self.pendings_complete.is_empty()
    }

    /// Highest assignable stream id for this connection's version.
    pub fn max_id(&self) -> (r: i16)
        ensures
            r == spec_max_id(self.version),
    {
        if self.version == 3 {
            crate::CQL_MAX_STREAM_ID_V3
        } else {
            crate::CQL_MAX_STREAM_ID_V1_V2
        }
    }

    /// Whether `id` is carried by a queued or in-flight request.
    fn contains_id(&self, id: i16) -> (r: bool)
        ensures
            r == self.has_id(id),
    {
        let n = self.pendings_send.len();
        let mut i: usize = 0;
        while i < n
            invariant
                i <= n,
                n == self.pendings_send@.len(),
                forall|j: int| 0 <= j < i ==> (#[trigger] self.pendings_send@[j]).stream != id,
            decreases n - i,
        {
            if self.pendings_send[i].stream == id {
                return true;
            }
            i = i + 1;
        }
        let m = self.pendings_complete.len();
        let mut k: usize = 0;
        while k < m
            invariant
                k <= m,
                m == self.pendings_complete@.len(),
                forall|j: int| 0 <= j < k ==> (#[trigger] self.pendings_complete@[j]).0 != id,
            decreases m - k,
        {
            if self.pendings_complete[k].0 == id {
                return true;
            }
            k = k + 1;
        }
        false
    }

    /// The next stream id: unique among queued and in-flight ids. Below the
    /// high-water mark ids count up; once the mark reaches the version's
    /// bound, the lowest freed id is reused. When every id of the range is
    /// taken the id space is exhausted and the call fails.
    pub fn next_stream_id(&self) -> (r: RCResult<i16>)
        requires
            self.wf(),
        ensures
            (match r {
                Ok(id) => 1 <= id <= spec_max_id(self.version) && !self.has_id(id) && id
                    <= self.stream_id + 1,
                Err(e) => (forall|id: i16|
                    1 <= id <= spec_max_id(self.version) ==> self.has_id(id)) && e.kind
                    == RCErrorType::EventLoopError,
            }),
            self.stream_id < spec_max_id(self.version) ==> r is Ok && (r->Ok_0 == self.stream_id
                + 1),
            self.stream_id >= spec_max_id(self.version) && r is Ok ==> (forall|id: i16|
                1 <= id < r->Ok_0 ==> self.has_id(id)),
    {
        let max = self.max_id();
        if self.stream_id < max {
            Ok(self.stream_id + 1)
        } else {
            let mut cand: i32 = 1;
            while cand <= max as i32
                invariant
                    1 <= cand <= (max as i32) + 1,
                    max == spec_max_id(self.version),
                    1 <= max <= 32767,
                    self.wf(),
                    self.stream_id == max,
                    forall|id: i16| 1 <= id < cand ==> self.has_id(id),
                decreases max + 1 - cand,
            {
                if !self.contains_id(cand as i16) {
                    return Ok(cand as i16);
                }
                cand = cand + 1;
            }
            Err(
                RCError::new(
                    "NoStreamId: every stream id of this version is in flight",
                    RCErrorType::EventLoopError,
                ),
            )
        }
    }

    /// Queue an outbound request, assigning it a fresh stream id. The
    /// returned id was carried by no queued or in-flight request before the
    /// call; the call fails exactly when every id of the version's range is
    /// taken, and then changes nothing.
    pub fn insert_request(&mut self, msg: CqlRequest) -> (r: RCResult<i16>)
        requires
            old(self).wf(),
            msg.version == old(self).version,
        ensures
            final(self).wf(),
            final(self).version == old(self).version,
            final(self).response@ == old(self).response@,
            final(self).pendings_complete@ == old(self).pendings_complete@,
            r is Ok ==> r->Ok_0 <= old(self).stream_id + 1,
            (match r {
                Ok(id) => {
                    &&& 1 <= id <= spec_max_id(old(self).version)
                    &&& !old(self).has_id(id)
                    &&& final(self).pendings_send@ == old(self).pendings_send@.push(
                        CqlRequest { stream: id, ..msg },
                    )
                    &&& final(self).has_id(id)
                },
                Err(e) => {
                    &&& (forall|id: i16|
                        1 <= id <= spec_max_id(old(self).version) ==> old(self).has_id(id))
                    &&& final(self).pendings_send@ == old(self).pendings_send@
                    &&& final(self).stream_id == old(self).stream_id
                    &&& e.kind == RCErrorType::EventLoopError
                },
            }),
    {
        let id = match self.next_stream_id() {
            Ok(id) => id,
            Err(e) => {
                return Err(e);
            },
        };
        let mut cql_msg = msg;
        match cql_msg.set_stream(id) {
            Ok(_) => {},
            Err(e) => {
                return Err(e);
            },
        }
        proof {
            assert forall|i: int|
                0 <= i < old(self).pendings_send@.len() implies (
            #[trigger] old(self).pendings_send@[i]).stream != id by {
                assert(!old(self).has_id(id));
            }
            assert forall|j: int|
                0 <= j < old(self).pendings_complete@.len() implies (
            #[trigger] old(self).pendings_complete@[j]).0 != id by {
                assert(!old(self).has_id(id));
            }
        }
        if id > self.stream_id {
            self.stream_id = id;
        }
        self.pendings_send.push(cql_msg);
        proof {
            let s_new = final(self).pendings_send@;
            let s_old = old(self).pendings_send@;
            assert(s_new == s_old.push(CqlRequest { stream: id, ..msg }));
            assert(old(self).stream_id <= final(self).stream_id && id <= final(self).stream_id);
            let sid_new = final(self).stream_id;
            assert forall|i: int|
                0 <= i < s_new.len() implies 1 <= (#[trigger] s_new[i]).stream <= sid_new by {
                if i < s_old.len() {
                    assert(s_new[i] == s_old[i]);
                }
            }
            assert forall|i: int, j: int|
                0 <= i < j < s_new.len() implies (#[trigger] s_new[i]).stream != (
            #[trigger] s_new[j]).stream by {
                if j < s_old.len() {
                    assert(s_new[i] == s_old[i] && s_new[j] == s_old[j]);
                } else {
                    assert(s_new[i] == s_old[i]);
                    assert(s_new[j].stream == id);
                }
            }
            assert forall|i: int, j: int|
                0 <= i < s_new.len() && 0 <= j < final(self).pendings_complete@.len() implies (
            #[trigger] s_new[i]).stream != (#[trigger] final(self).pendings_complete@[j]).0 by {
                if i < s_old.len() {
                    assert(s_new[i] == s_old[i]);
                } else {
                    assert(s_new[i].stream == id);
                }
            }
            assert forall|j: int|
                0 <= j < final(self).pendings_complete@.len() implies 1 <= (
            #[trigger] final(self).pendings_complete@[j]).0 <= final(self).stream_id by {
                assert(final(self).pendings_complete@[j] == old(self).pendings_complete@[j]);
            }
            assert(final(self).has_id(id)) by {
                assert(s_new[s_new.len() - 1].stream == id);
            }
        }
        Ok(id)
    }

    /// Feed bytes drained from the socket into the read buffer.
    pub fn read(&mut self, bytes: &[u8])
        ensures
            final(self).response@ == old(self).response@ + bytes@,
            final(self).version == old(self).version,
            final(self).pendings_send@ == old(self).pendings_send@,
            final(self).pendings_complete@ == old(self).pendings_complete@,
            final(self).stream_id == old(self).stream_id,
    {
        self.response.extend_from_slice(bytes);
        proof {
            assert(self.response@ =~= old(self).response@ + bytes@);
        }
    }

    /// Encode the oldest outbound message and move it to the in-flight
    /// table; the caller writes the returned bytes to the socket. A message
    /// the format cannot carry is dropped and the call fails; the stream
    /// stays usable.
    pub fn write(&mut self) -> (r: RCResult<Vec<u8>>)
        requires
            old(self).wf(),
            old(self).pendings_send@.len() > 0,
        ensures
            final(self).wf(),
            final(self).version == old(self).version,
            final(self).response@ == old(self).response@,
            final(self).stream_id == old(self).stream_id,
            final(self).pendings_send@ == old(self).pendings_send@.drop_first(),
            r is Ok <==> old(self).pendings_send@[0].version == old(self).version
                && request_enc_ok(request_view(old(self).pendings_send@[0])),
            (match r {
                Ok(bytes) => {
                    &&& bytes@ == spec_enc_request(request_view(old(self).pendings_send@[0]))
                    &&& final(self).pendings_complete@ == old(self).pendings_complete@.push(
                        (old(self).pendings_send@[0].stream, old(self).pendings_send@[0]),
                    )
                },
                Err(_) => final(self).pendings_complete@ == old(self).pendings_complete@,
            }),
    {
        let msg = self.pendings_send.remove(0);
        let mut buf: Vec<u8> = Vec::new();
        let version = self.version;
        match msg.serialize(&mut buf, version) {
            Ok(_) => {},
            Err(e) => {
                proof {
                    assert(self.pendings_send@ =~= old(self).pendings_send@.drop_first());
                }
                return Err(e);
            },
        }
        let stream = msg.stream;
        self.pendings_complete.push((stream, msg));
        proof {
            assert(self.pendings_send@ =~= old(self).pendings_send@.drop_first());
            assert forall|i: int, j: int|
                0 <= i < self.pendings_send@.len() && 0 <= j
                    < self.pendings_complete@.len() implies (
            #[trigger] self.pendings_send@[i]).stream != (
            #[trigger] self.pendings_complete@[j]).0 by {
                assert(self.pendings_send@[i] == old(self).pendings_send@[i + 1]);
                if j < old(self).pendings_complete@.len() {
                    assert(self.pendings_complete@[j] == old(self).pendings_complete@[j]);
                } else {
                    assert(self.pendings_complete@[j].0 == old(self).pendings_send@[0].stream);
                }
            }
        }
        Ok(buf)
    }

    /// Extract one frame from the read buffer, if a complete one is there.
    ///
    /// An incomplete frame leaves the buffer untouched: the connection
    /// needs more bytes. A complete frame is consumed exactly up to the
    /// boundary its length prefix declares, whether its body parses or not,
    /// so one bad frame fails only its own request and the stream resyncs
    /// on the next boundary.
    pub fn try_read_frame(&mut self) -> (r: Option<RCResult<CqlResponse>>)
        ensures
            final(self).version == old(self).version,
            final(self).pendings_send@ == old(self).pendings_send@,
            final(self).pendings_complete@ == old(self).pendings_complete@,
            final(self).stream_id == old(self).stream_id,
            (match r {
                None => final(self).response@ == old(self).response@ && (match spec_frame_total(
                    old(self).response@,
                    0,
                    old(self).version,
                ) {
                    Some(t) => t > old(self).response@.len(),
                    None => true,
                }),
                Some(res) => {
                    &&& spec_frame_total(old(self).response@, 0, old(self).version) is Some
                    &&& ({
                        let t = spec_frame_total(old(self).response@, 0, old(self).version)->0;
                        &&& t <= old(self).response@.len()
                        &&& final(self).response@ == old(self).response@.subrange(
                            t,
                            old(self).response@.len() as int,
                        )
                        &&& (match res {
                            Ok(resp) => spec_dec_response(old(self).response@, 0, old(self).version)
                                == Some((response_view(resp), t)),
                            Err(_) => spec_dec_response(
                                old(self).response@,
                                0,
                                old(self).version,
                            ) is None,
                        })
                    })
                },
            }),
    {
        proof {
            crate::wire::lemma_pow256_values();
        }
        let hl: usize = if self.version >= 3 {
            5
        } else {
            4
        };
        let blen_total = self.response.len();
        if blen_total < hl + 4 {
            return None;
        }
        let lraw = crate::wire::read_be(self.response.as_slice(), hl, 4);
        proof {
            crate::wire::lemma_be_val_bound(self.response@.subrange(hl as int, hl + 4));
            assert(self.response@.subrange(hl as int, hl + 4).len() == 4);
        }
        let l: i64 = if lraw >= 0x8000_0000 {
            (lraw as i64) - 0x1_0000_0000i64
        } else {
            lraw as i64
        };
        let blen: usize = if l < 0 {
            0
        } else {
            l as usize
        };
        if blen > blen_total - (hl + 4) {
            proof {
                assert(spec_frame_total(self.response@, 0, self.version)->0 == hl + 4 + blen);
            }
            return None;
        }
        let total = hl + 4 + blen;
        let frame = slice_to_vec(self.response.as_slice());
        let mut rd = CqlReader::new(frame);
        let parsed = rd.read_cql_response(self.version);
        let rest = slice_to_vec(slice_subrange(self.response.as_slice(), total, blen_total));
        match parsed {
            Ok(resp) => {
                proof {
                    assert(spec_dec_response(old(self).response@, 0, old(self).version) == Some(
                        (response_view(resp), rd.pos as int),
                    ));
                    assert(rd.pos == total);
                }
                self.response = rest;
                Some(Ok(resp))
            },
            Err(e) => {
                self.response = rest;
                Some(Err(e))
            },
        }
    }

    /// Route one decoded frame.
    ///
    /// An event frame (stream -1, EVENT opcode) goes to the event handler
    /// and disturbs no pending request. Any other frame resolves the
    /// in-flight request with its stream id, whatever order the server
    /// answered in; the rest of the table keeps its order. A response
    /// matching no in-flight id is reported as stale.
    pub fn handle_response(&mut self, response: CqlResponse) -> (r: Routed)
        requires
            old(self).wf(),
        ensures
            final(self).wf(),
            final(self).version == old(self).version,
            final(self).response@ == old(self).response@,
            final(self).pendings_send@ == old(self).pendings_send@,
            final(self).stream_id == old(self).stream_id,
            r is Event <==> response.opcode == crate::def::OpcodeResponse::OpcodeEvent
                && response.stream == -1 && (response.body is ResponseEvent),
            (match r {
                Routed::Event(e) => {
                    &&& response.opcode == crate::def::OpcodeResponse::OpcodeEvent
                    &&& response.stream == -1
                    &&& response.body == CqlResponseBody::ResponseEvent(e)
                    &&& final(self).pendings_complete@ == old(self).pendings_complete@
                },
                Routed::Completion(id, req, resp) => {
                    &&& id == response.stream
                    &&& resp == response
                    &&& exists|k: int|
                        0 <= k < old(self).pendings_complete@.len() && old(
                            self,
                        ).pendings_complete@[k] == (id, req) && final(self).pendings_complete@
                            == old(self).pendings_complete@.remove(k)
                },
                Routed::Stale(resp) => {
                    &&& resp == response
                    &&& !(exists|k: int|
                        0 <= k < old(self).pendings_complete@.len() && (
                        #[trigger] old(self).pendings_complete@[k]).0 == response.stream)
                    &&& final(self).pendings_complete@ == old(self).pendings_complete@
                },
            }),
    {
        if response.is_event() {
            match response.body {
                CqlResponseBody::ResponseEvent(e) => {
                    return Routed::Event(e);
                },
                _ => {
                    return Routed::Stale(response);
                },
            }
        }
        let stream = response.stream;
        let n = self.pendings_complete.len();
        let mut k: usize = 0;
        while k < n
            invariant
                k <= n,
                n == self.pendings_complete@.len(),
                *self == *old(self),
                old(self).wf(),
                stream == response.stream,
                forall|j: int| 0 <= j < k ==> (#[trigger] self.pendings_complete@[j]).0 != stream,
            decreases n - k,
        {
            if self.pendings_complete[k].0 == stream {
                let (id, req) = self.pendings_complete.remove(k);
                proof {
                    assert(old(self).pendings_complete@[k as int] == (id, req));
                    assert(self.pendings_complete@ == old(self).pendings_complete@.remove(
                        k as int,
                    ));
                    assert forall|i: int, j: int|
                        0 <= i < j < self.pendings_complete@.len() implies (
                    #[trigger] self.pendings_complete@[i]).0 != (
                    #[trigger] self.pendings_complete@[j]).0 by {
                        let oi = if i < k { i } else { i + 1 };
                        let oj = if j < k { j } else { j + 1 };
                        assert(self.pendings_complete@[i] == old(self).pendings_complete@[oi]);
                        assert(self.pendings_complete@[j] == old(self).pendings_complete@[oj]);
                    }
                    assert forall|i: int, j: int|
                        0 <= i < self.pendings_send@.len() && 0 <= j
                            < self.pendings_complete@.len() implies (
                    #[trigger] self.pendings_send@[i]).stream != (
                    #[trigger] self.pendings_complete@[j]).0 by {
                        let oj = if j < k { j } else { j + 1 };
                        assert(self.pendings_complete@[j] == old(self).pendings_complete@[oj]);
                    }
                    assert forall|i: int|
                        0 <= i < self.pendings_complete@.len() implies 1 <= (
                    #[trigger] self.pendings_complete@[i]).0 <= self.stream_id by {
                        let oi = if i < k { i } else { i + 1 };
                        assert(self.pendings_complete@[i] == old(self).pendings_complete@[oi]);
                    }
                }
                return Routed::Completion(id, req, response);
            }
            k = k + 1;
        }
        Routed::Stale(response)
    }
}

/// The authentication token of the password scheme: each credential
/// prefixed by a zero byte, in order.
pub open spec fn spec_make_token(cs: Seq<Seq<char>>) -> Seq<u8>
    decreases cs.len(),
{
    if cs.len() == 0 {
        seq![]
    } else {
        seq![0u8] + encode_utf8(cs[0]) + spec_make_token(cs.drop_first())
    }
}

/// Build the password-authenticator token: `0x00 user 0x00 password` for
/// credentials `[user, password]`.
pub fn make_token(creds: &Vec<String>) -> (r: Vec<u8>)
    ensures
        r@ == spec_make_token(crate::format::strings_view(creds@)),
{
    let mut token: Vec<u8> = Vec::new();
    let n = creds.len();
    let mut i: usize = 0;
    proof {
        assert(crate::format::strings_view(creds@).take(0) =~= Seq::<Seq<char>>::empty());
    }
    while i < n
        invariant
            i <= n,
            n == creds@.len(),
            token@ == spec_make_token(crate::format::strings_view(creds@).take(i as int)),
        decreases n - i,
    {
        let ghost pre = crate::format::strings_view(creds@).take(i as int);
        token.push(0u8);
        token.extend_from_slice(creds[i].as_str().as_bytes());
        proof {
            let cur = crate::format::strings_view(creds@).take(i + 1);
            lemma_make_token_snoc(cur);
            assert(cur.drop_last() =~= pre);
            assert(cur.last() == creds@[i as int]@);
            assert(token@ =~= spec_make_token(pre) + (seq![0u8] + encode_utf8(creds@[i as int]@)));
        }
        i = i + 1;
    }
    proof {
        assert(crate::format::strings_view(creds@).take(n as int) =~= crate::format::strings_view(
            creds@,
        ));
    }
    token
}

/// The token of `cs` ends with the token of its last credential.
proof fn lemma_make_token_snoc(cs: Seq<Seq<char>>)
    requires
        cs.len() > 0,
    ensures
        spec_make_token(cs) == spec_make_token(cs.drop_last()) + (seq![0u8] + encode_utf8(
            cs.last(),
        )),
    decreases cs.len(),
{
    if cs.len() == 1 {
        assert(cs.drop_first() =~= Seq::<Seq<char>>::empty());
        assert(cs.drop_last() =~= Seq::<Seq<char>>::empty());
        assert(spec_make_token(cs) =~= seq![0u8] + encode_utf8(cs[0]) + Seq::<u8>::empty());
        assert(spec_make_token(cs.drop_last()) =~= Seq::<u8>::empty());
        assert(cs.last() == cs[0]);
        assert(spec_make_token(cs) =~= spec_make_token(cs.drop_last()) + (seq![0u8] + encode_utf8(
            cs.last(),
        )));
    } else {
        lemma_make_token_snoc(cs.drop_first());
        assert(cs.drop_first().drop_last() =~= cs.drop_last().drop_first());
        assert(cs.drop_first().last() == cs.last());
        assert(cs.drop_last()[0] == cs[0]);
        assert(spec_make_token(cs) =~= seq![0u8] + encode_utf8(cs[0]) + (spec_make_token(
            cs.drop_first().drop_last(),
        ) + (seq![0u8] + encode_utf8(cs.last()))));
        assert(spec_make_token(cs.drop_last()) =~= seq![0u8] + encode_utf8(cs[0])
            + spec_make_token(cs.drop_last().drop_first()));
        assert(spec_make_token(cs) =~= spec_make_token(cs.drop_last()) + (seq![0u8] + encode_utf8(
            cs.last(),
        )));
    }
}

/// Only the password authenticator class is approved.
pub fn approve_authenticator(authenticator: &str) -> (r: bool)
    ensures
        r == (authenticator@ == "org.apache.cassandra.auth.PasswordAuthenticator"@),
{
    crate::util::str_eq(authenticator, "org.apache.cassandra.auth.PasswordAuthenticator")
}

/// The next step of the startup handshake.
pub enum StartupAction {
    /// The connection is usable at the advertised version.
    Complete,
    /// Send AUTH_RESPONSE carrying this token and await AUTH_SUCCESS.
    SendAuthResponse(Vec<u8>),
    /// The handshake failed; the error says why.
    Failed(RCError),
}

impl Connection {
    /// Decide the handshake step that follows a response to STARTUP.
    ///
    /// READY and AUTH_SUCCESS complete the handshake. AUTHENTICATE demands
    /// the approved password class, credentials in hand, and protocol v2 or
    /// later, and then answers with the `0x00 user 0x00 password` token;
    /// anything less fails with `ConnectionError`, which is terminal for
    /// this connection. A server ERROR fails with `ReadError`: that is the
    /// negotiation failure on which the cluster may retry one protocol
    /// version lower — it never downgrades on an authentication failure.
    /// Any other response is a protocol violation.
    pub fn continue_startup_request(&self, response: &CqlResponse, creds: &Option<Vec<String>>) -> (r:
        StartupAction)
        ensures
            (match response.body {
                CqlResponseBody::ResponseReady => r is Complete,
                CqlResponseBody::ResponseAuthSuccess(_) => r is Complete,
                CqlResponseBody::ResponseAuthenticate(_) => {
                    let cls = response.body->ResponseAuthenticate_0;
                    if cls@ == "org.apache.cassandra.auth.PasswordAuthenticator"@ {
                        match creds {
                            Some(cs) => if self.version >= 2 {
                                r == StartupAction::SendAuthResponse(
                                    // the token is the credentials, each after a zero byte
                                    r->SendAuthResponse_0,
                                ) && r->SendAuthResponse_0@ == spec_make_token(
                                    crate::format::strings_view(cs@),
                                )
                            } else {
                                r is Failed && r->Failed_0.kind == RCErrorType::ConnectionError
                                    && (r->Failed_0.desc@
                                    == "Authentication is not supported for v1 protocol"@)
                            },
                            None => r is Failed && r->Failed_0.kind
                                == RCErrorType::ConnectionError,
                        }
                    } else {
                        r is Failed && r->Failed_0.kind == RCErrorType::ConnectionError
                    }
                },
                CqlResponseBody::ResponseError(_, _) => r is Failed && r->Failed_0.kind
                    == RCErrorType::ReadError,
                _ => r is Failed,
            }),
    {
        match &response.body {
            CqlResponseBody::ResponseReady => StartupAction::Complete,
            CqlResponseBody::ResponseAuthSuccess(_) => StartupAction::Complete,
            CqlResponseBody::ResponseAuthenticate(authenticator) => {
                if approve_authenticator(authenticator.as_str()) {
                    match creds {
                        Some(cs) => {
                            if self.version >= 2 {
                                StartupAction::SendAuthResponse(make_token(cs))
                            } else {
                                StartupAction::Failed(
                                    RCError::new(
                                        "Authentication is not supported for v1 protocol",
                                        RCErrorType::ConnectionError,
                                    ),
                                )
                            }
                        },
                        None => StartupAction::Failed(
                            RCError::new(
                                "Credential should be provided for authentication",
                                RCErrorType::ConnectionError,
                            ),
                        ),
                    }
                } else {
                    StartupAction::Failed(
                        RCError::new("Unexpected authenticator", RCErrorType::ConnectionError),
                    )
                }
            },
            CqlResponseBody::ResponseError(_, _) => StartupAction::Failed(
                RCError::new("Error connecting", RCErrorType::ReadError),
            ),
            _ => StartupAction::Failed(
                RCError::new("Wrong response to startup", RCErrorType::ReadError),
            ),
        }
    }
}

/// When a completion frees a stream id, the id space is no longer
/// exhausted: the next enqueue cannot fail for want of an id.
pub proof fn lemma_id_reuse(c: Connection, k: i16)
    requires
        c.wf(),
        1 <= k <= spec_max_id(c.version),
        !c.has_id(k),
    ensures
        !(forall|id: i16| 1 <= id <= spec_max_id(c.version) ==> c.has_id(id)),
{
}

/// With as many requests in flight as the version has stream ids, every id
/// of the range is taken: the next enqueue meets exactly the condition
/// under which it fails. One more submission than the id space holds is
/// therefore refused.
#[verifier::rlimit(100)]
#[verifier::spinoff_prover]
pub proof fn lemma_id_space_exhausted(c: Connection)
    requires
        c.wf(),
        c.pendings_send@.len() + c.pendings_complete@.len() >= spec_max_id(c.version) as int,
    ensures
        forall|id: i16| 1 <= id <= spec_max_id(c.version) ==> c.has_id(id),
{
    let slen = c.pendings_send@.len() as int;
    let ids = c.pendings_send@.map_values(|r: CqlRequest| r.stream as int)
        + c.pendings_complete@.map_values(|p: (i16, CqlRequest)| p.0 as int);
    let max = spec_max_id(c.version) as int;
    assert(ids.len() >= max);
    assert(ids.no_duplicates()) by {
        assert forall|i: int, j: int|
            0 <= i < ids.len() && 0 <= j < ids.len() && i != j implies ids[i] != ids[j] by {
            if i < slen && j < slen {
                assert(c.pendings_send@[i].stream != c.pendings_send@[j].stream);
            } else if i < slen && j >= slen {
                assert(c.pendings_send@[i].stream != c.pendings_complete@[j - slen].0);
            } else if i >= slen && j < slen {
                assert(c.pendings_send@[j].stream != c.pendings_complete@[i - slen].0);
            } else {
                assert(c.pendings_complete@[i - slen].0 != c.pendings_complete@[j - slen].0);
            }
        }
    }
    ids.unique_seq_to_set();
    let range = vstd::set_lib::set_int_range(1, max + 1);
    vstd::set_lib::lemma_int_range(1, max + 1);
    assert(ids.to_set().subset_of(range)) by {
        assert forall|x: int| ids.to_set().contains(x) implies range.contains(x) by {
            let k = choose|k: int| 0 <= k < ids.len() && ids[k] == x;
            if k < slen {
                assert(1 <= c.pendings_send@[k].stream <= c.stream_id);
            } else {
                assert(1 <= c.pendings_complete@[k - slen].0 <= c.stream_id);
            }
        }
    }
    vstd::set_lib::lemma_len_subset(ids.to_set(), range);
    assert forall|id: i16| 1 <= id <= spec_max_id(c.version) implies c.has_id(id) by {
        let x = id as int;
        if !ids.to_set().contains(x) {
            ids.to_set().lemma_subset_not_in_lt(range, x);
            assert(false);
        }
        let k = choose|k: int| 0 <= k < ids.len() && ids[k] == x;
        if k < slen {
            assert(c.pendings_send@[k].stream == id);
        } else {
            assert(c.pendings_complete@[k - slen].0 == id);
        }
    }
}

} // verus!
