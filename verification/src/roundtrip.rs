//! Round-trip laws of the codec: decoding an encoding yields the value that
//! was encoded, for every value, request and response the format can carry,
//! on every protocol revision.

use vstd::prelude::*;
use vstd::utf8::encode_utf8;
use vstd::utf8::encode_utf8_valid_utf8;
use vstd::utf8::encode_utf8_decode_utf8;
use crate::def::CqlBytesSize;
use crate::def::CqlValueType;
use crate::def::IpAddress;
use crate::format::ScalarV;
use crate::format::ValueV;
use crate::format::prefix_max;
use crate::format::prefix_width;
use crate::format::scalar_enc_ok;
use crate::format::scalar_is_null;
use crate::format::scalar_matches;
use crate::format::scalar_null_of;
use crate::format::spec_dec_be;
use crate::format::spec_dec_len;
use crate::format::spec_dec_lp_bytes;
use crate::format::spec_dec_scalar;
use crate::format::spec_dec_scalar_body;
use crate::format::spec_dec_string;
use crate::format::spec_dec_string_nn;
use crate::format::spec_enc_lp_bytes;
use crate::format::spec_enc_null;
use crate::format::spec_enc_scalar;
use crate::format::spec_enc_string;
use crate::format::spec_inet_bytes;
use crate::format::spec_len_prefix;
use crate::format::spec_scalar_body;
use crate::format::string_enc_ok;
use crate::format::to_signed;
use crate::format::to_unsigned;
use crate::format::elems_match_type;
use crate::format::entries_match_types;
use crate::format::spec_dec_elems;
use crate::format::spec_dec_entries;
use crate::format::spec_dec_value;
use crate::format::spec_enc_elems;
use crate::format::spec_enc_entries;
use crate::format::spec_enc_value;
use crate::format::spec_value_body;
use crate::format::value_enc_ok;
use crate::format::value_is_null;
use crate::format::value_matches_col;
use crate::format::ColSpecV;
use crate::format::MetadataV;
use crate::format::RowsV;
use crate::format::col_enc_ok;
use crate::format::has_aux1;
use crate::format::has_aux2;
use crate::format::metadata_enc_ok;
use crate::format::metadata_global;
use crate::format::row_enc_ok;
use crate::format::rows_enc_ok;
use crate::format::spec_dec_col;
use crate::format::spec_dec_cols;
use crate::format::spec_dec_metadata;
use crate::format::spec_dec_row;
use crate::format::spec_dec_rows;
use crate::format::spec_dec_rows_seq;
use crate::format::spec_enc_col;
use crate::format::spec_enc_cols;
use crate::format::spec_enc_metadata;
use crate::format::spec_enc_row;
use crate::format::spec_enc_rows;
use crate::format::spec_enc_rows_seq;
use crate::def::spec_cql_column_type;
use crate::def::spec_column_type_value;
use crate::format::is_single_type;
use crate::format::EventV;
use crate::format::PreparedV;
use crate::format::SchemaOptsV;
use crate::format::event_enc_ok;
use crate::format::prepared_enc_ok;
use crate::format::spec_dec_event;
use crate::format::spec_dec_inet;
use crate::format::spec_dec_prepared;
use crate::format::spec_dec_schema_opts;
use crate::format::spec_enc_event;
use crate::format::spec_enc_inet;
use crate::format::spec_enc_prepared;
use crate::format::spec_enc_schema_opts;
use crate::format::spec_schema_from;
use crate::format::spec_schema_str;
use crate::format::spec_status_from;
use crate::format::spec_status_str;
use crate::format::spec_topology_from;
use crate::format::spec_topology_str;
use crate::def::CqlFrameHeader;
use crate::def::spec_opcode_response;
use crate::def::OpcodeResponse;
use crate::def::spec_opcode_response_value;
use crate::format::ResponseBodyV;
use crate::format::ResponseV;
use crate::format::opcode_of_response_body;
use crate::format::response_body_enc_ok;
use crate::format::response_enc_ok;
use crate::format::spec_dec_header;
use crate::format::spec_dec_response;
use crate::format::spec_dec_response_body;
use crate::format::spec_enc_header;
use crate::format::spec_enc_response;
use crate::format::spec_enc_response_body;
use crate::format::spec_esz;
use crate::format::spec_header_len;
use crate::format::QueryV;
use crate::format::RequestBodyV;
use crate::format::RequestV;
use crate::format::query_enc_ok;
use crate::format::spec_dec_params;
use crate::format::spec_dec_queries;
use crate::format::spec_dec_query;
use crate::format::spec_dec_strings;
use crate::format::spec_dec_strmap_pairs;
use crate::format::spec_enc_params;
use crate::format::spec_enc_queries;
use crate::format::spec_enc_query;
use crate::format::spec_enc_strings;
use crate::format::spec_enc_strmap_pairs;
use crate::def::OpcodeRequest;
use crate::def::spec_batch_type_from;
use crate::def::spec_batch_type_value;
use crate::def::spec_consistency_from;
use crate::def::spec_consistency_value;
use crate::def::spec_opcode_request_from;
use crate::def::spec_opcode_request_value;
use crate::format::opcode_of_request_body;
use crate::format::request_body_enc_ok;
use crate::format::request_enc_ok;
use crate::format::spec_dec_request;
use crate::format::spec_dec_request_body;
use crate::format::spec_enc_request;
use crate::format::spec_enc_request_body;
use crate::wire::lemma_be_bytes_len;
use crate::wire::lemma_be_roundtrip;
use crate::wire::lemma_pow256_values;
use crate::wire::pow256;
use crate::wire::spec_be_bytes;

verus! {

/// The bytes `enc` stand in `s` at position `pos`.
pub open spec fn bytes_at(s: Seq<u8>, pos: int, enc: Seq<u8>) -> bool {
    &&& 0 <= pos
    &&& pos + enc.len() <= s.len()
    &&& s.subrange(pos, pos + enc.len()) == enc
}

/// A concatenation standing at `pos` splits into its parts.
pub proof fn lemma_at_split(s: Seq<u8>, pos: int, a: Seq<u8>, b: Seq<u8>)
    requires
        bytes_at(s, pos, a + b),
    ensures
        bytes_at(s, pos, a),
        bytes_at(s, pos + a.len(), b),
{
    assert(s.subrange(pos, pos + a.len()) =~= a) by {
        assert forall|i: int| 0 <= i < a.len() implies s.subrange(pos, pos + a.len())[i] == a[i] by {
            assert(s.subrange(pos, pos + (a + b).len())[i] == (a + b)[i]);
        }
    }
    assert(s.subrange(pos + a.len(), pos + a.len() + b.len()) =~= b) by {
        assert forall|i: int|
            0 <= i < b.len() implies s.subrange(pos + a.len(), pos + a.len() + b.len())[i]
            == b[i] by {
            assert(s.subrange(pos, pos + (a + b).len())[a.len() + i] == (a + b)[a.len() + i]);
        }
    }
}

/// Two's-complement round trip: reading back the image of `n` gives `n`.
pub proof fn lemma_signed_roundtrip(n: int, w: nat)
    requires
        -pow256(w) / 2 <= n < pow256(w) / 2,
    ensures
        to_unsigned(n, w) < pow256(w),
        to_signed(to_unsigned(n, w), w) == n,
{
    if n >= 0 {
    } else {
        assert(to_unsigned(n, w) == n + pow256(w));
        assert(n + pow256(w) >= pow256(w) / 2);
    }
}

/// A big-endian field standing at `pos` decodes to its value.
pub proof fn lemma_dec_be_at(s: Seq<u8>, pos: int, n: nat, w: nat)
    requires
        n < pow256(w),
        bytes_at(s, pos, spec_be_bytes(n, w)),
    ensures
        spec_dec_be(s, pos, w) == Some((n, pos + w)),
{
    lemma_be_roundtrip(n, w);
}

/// A length prefix standing at `pos` decodes to its signed value.
pub proof fn lemma_dec_len_at(s: Seq<u8>, pos: int, n: int, sz: CqlBytesSize)
    requires
        -pow256(prefix_width(sz)) / 2 <= n < pow256(prefix_width(sz)) / 2,
        bytes_at(s, pos, spec_len_prefix(n, sz)),
    ensures
        spec_dec_len(s, pos, sz) == Some((n, pos + prefix_width(sz))),
{
    let w = prefix_width(sz);
    lemma_signed_roundtrip(n, w);
    lemma_dec_be_at(s, pos, to_unsigned(n, w), w);
}

/// Length-prefixed bytes standing at `pos` decode to those bytes.
pub proof fn lemma_dec_lp_bytes_at(s: Seq<u8>, pos: int, b: Seq<u8>, sz: CqlBytesSize)
    requires
        b.len() <= prefix_max(sz),
        bytes_at(s, pos, spec_enc_lp_bytes(b, sz)),
    ensures
        spec_dec_lp_bytes(s, pos, sz) == Some(
            (Some(b), pos + prefix_width(sz) + b.len()),
        ),
{
    let w = prefix_width(sz);
    lemma_pow256_values();
    lemma_be_bytes_len(to_unsigned(b.len() as int, w), w);
    lemma_at_split(s, pos, spec_len_prefix(b.len() as int, sz), b);
    lemma_dec_len_at(s, pos, b.len() as int, sz);
}

/// The NULL prefix standing at `pos` decodes to NULL.
pub proof fn lemma_dec_null_at(s: Seq<u8>, pos: int, sz: CqlBytesSize)
    requires
        bytes_at(s, pos, spec_enc_null(sz)),
    ensures
        spec_dec_lp_bytes(s, pos, sz) == Some(
            (None::<Seq<u8>>, pos + prefix_width(sz)),
        ),
{
    lemma_pow256_values();
    lemma_dec_len_at(s, pos, -1, sz);
}

/// An encoded string standing at `pos` decodes to its characters.
pub proof fn lemma_dec_string_at(s: Seq<u8>, pos: int, t: Seq<char>, sz: CqlBytesSize)
    requires
        string_enc_ok(t, sz),
        bytes_at(s, pos, spec_enc_string(t, sz)),
    ensures
        spec_dec_string(s, pos, sz) == Some(
            (Some(t), pos + prefix_width(sz) + encode_utf8(t).len()),
        ),
        spec_dec_string_nn(s, pos, sz) == Some(
            (t, pos + prefix_width(sz) + encode_utf8(t).len()),
        ),
{
    lemma_dec_lp_bytes_at(s, pos, encode_utf8(t), sz);
    encode_utf8_valid_utf8(t);
    encode_utf8_decode_utf8(t);
}


/// The inet value bytes decode back to the address.
pub proof fn lemma_dec_inet_body(ip: IpAddress)
    ensures
        spec_dec_scalar_body(CqlValueType::ColumnInet, spec_inet_bytes(ip)) == Some(
            ScalarV::VInet(Some(ip)),
        ),
{
    lemma_pow256_values();
    match ip {
        IpAddress::Ipv4(a, b, c, d) => {
            let body = spec_inet_bytes(ip);
            assert(body.len() == 4);
            assert(body[0] == a && body[1] == b && body[2] == c && body[3] == d);
        },
        IpAddress::Ipv6(s0, s1, s2, s3, s4, s5, s6, s7) => {
            let c0 = spec_be_bytes(s0 as nat, 2);
            let c1 = spec_be_bytes(s1 as nat, 2);
            let c2 = spec_be_bytes(s2 as nat, 2);
            let c3 = spec_be_bytes(s3 as nat, 2);
            let c4 = spec_be_bytes(s4 as nat, 2);
            let c5 = spec_be_bytes(s5 as nat, 2);
            let c6 = spec_be_bytes(s6 as nat, 2);
            let c7 = spec_be_bytes(s7 as nat, 2);
            lemma_be_roundtrip(s0 as nat, 2);
            lemma_be_roundtrip(s1 as nat, 2);
            lemma_be_roundtrip(s2 as nat, 2);
            lemma_be_roundtrip(s3 as nat, 2);
            lemma_be_roundtrip(s4 as nat, 2);
            lemma_be_roundtrip(s5 as nat, 2);
            lemma_be_roundtrip(s6 as nat, 2);
            lemma_be_roundtrip(s7 as nat, 2);
            let body = spec_inet_bytes(ip);
            assert(body.len() == 16);
            assert(body.subrange(0, 2) =~= c0);
            assert(body.subrange(2, 4) =~= c1);
            assert(body.subrange(4, 6) =~= c2);
            assert(body.subrange(6, 8) =~= c3);
            assert(body.subrange(8, 10) =~= c4);
            assert(body.subrange(10, 12) =~= c5);
            assert(body.subrange(12, 14) =~= c6);
            assert(body.subrange(14, 16) =~= c7);
        },
    }
}

/// The value bytes of a non-NULL single value decode back to it.
pub proof fn lemma_dec_scalar_body_of_enc(ty: CqlValueType, v: ScalarV)
    requires
        scalar_matches(ty, v),
        !scalar_is_null(v),
        v is VUuid ==> spec_scalar_body(v).len() == 16,
        v is VTimeUuid ==> spec_scalar_body(v).len() == 16,
    ensures
        spec_dec_scalar_body(ty, spec_scalar_body(v)) == Some(v),
{
    lemma_pow256_values();
    match v {
        ScalarV::VAscii(Some(t)) => {
            encode_utf8_valid_utf8(t);
            encode_utf8_decode_utf8(t);
        },
        ScalarV::VText(Some(t)) => {
            encode_utf8_valid_utf8(t);
            encode_utf8_decode_utf8(t);
        },
        ScalarV::VVarchar(Some(t)) => {
            encode_utf8_valid_utf8(t);
            encode_utf8_decode_utf8(t);
        },
        ScalarV::VBigInt(Some(i)) => {
            lemma_be_bytes_len(to_unsigned(i as int, 8), 8);
            lemma_signed_roundtrip(i as int, 8);
            lemma_be_roundtrip(to_unsigned(i as int, 8), 8);
        },
        ScalarV::VCounter(Some(i)) => {
            lemma_be_bytes_len(to_unsigned(i as int, 8), 8);
            lemma_signed_roundtrip(i as int, 8);
            lemma_be_roundtrip(to_unsigned(i as int, 8), 8);
        },
        ScalarV::VInt(Some(i)) => {
            lemma_be_bytes_len(to_unsigned(i as int, 4), 4);
            lemma_signed_roundtrip(i as int, 4);
            lemma_be_roundtrip(to_unsigned(i as int, 4), 4);
        },
        ScalarV::VFloat(Some(bits)) => {
            lemma_be_bytes_len(bits as nat, 4);
            lemma_be_roundtrip(bits as nat, 4);
        },
        ScalarV::VDouble(Some(bits)) => {
            lemma_be_bytes_len(bits as nat, 8);
            lemma_be_roundtrip(bits as nat, 8);
        },
        ScalarV::VTimestamp(Some(u)) => {
            lemma_be_bytes_len(u as nat, 8);
            lemma_be_roundtrip(u as nat, 8);
        },
        ScalarV::VBoolean(Some(b)) => {
            let body = spec_scalar_body(v);
            assert(body.len() == 1);
            assert(body[0] == (if b { 1u8 } else { 0u8 }));
        },
        ScalarV::VBlob(Some(_)) => {},
        ScalarV::VUuid(Some(_)) => {},
        ScalarV::VTimeUuid(Some(_)) => {},
        ScalarV::VInet(Some(ip)) => {
            lemma_dec_inet_body(ip);
        },
        _ => {},
    }
}

/// An encoded single value standing at `pos` decodes back to it.
pub proof fn lemma_dec_scalar_at(
    s: Seq<u8>,
    pos: int,
    v: ScalarV,
    ty: CqlValueType,
    sz: CqlBytesSize,
)
    requires
        scalar_enc_ok(v, sz),
        scalar_matches(ty, v),
        bytes_at(s, pos, spec_enc_scalar(v, sz)),
    ensures
        spec_dec_scalar(ty, s, pos, sz) == Some(
            (v, pos + spec_enc_scalar(v, sz).len()),
        ),
{
    lemma_pow256_values();
    let w = prefix_width(sz);
    if scalar_is_null(v) {
        lemma_be_bytes_len(to_unsigned(-1, w), w);
        lemma_dec_null_at(s, pos, sz);
        assert(scalar_null_of(ty) == v);
    } else {
        let body = spec_scalar_body(v);
        assert(body.len() <= prefix_max(sz));
        lemma_be_bytes_len(to_unsigned(body.len() as int, w), w);
        lemma_dec_lp_bytes_at(s, pos, body, sz);
        lemma_dec_scalar_body_of_enc(ty, v);
    }
}


/// Encoded collection elements standing at `pos` decode back to them.
#[verifier::rlimit(100)]
#[verifier::spinoff_prover]
pub proof fn lemma_dec_elems_at(
    s: Seq<u8>,
    pos: int,
    es: Seq<ScalarV>,
    ty: CqlValueType,
    sz: CqlBytesSize,
)
    requires
        forall|i: int| 0 <= i < es.len() ==> scalar_enc_ok(#[trigger] es[i], sz),
        elems_match_type(ty, es),
        bytes_at(s, pos, spec_enc_elems(es, sz)),
    ensures
        spec_dec_elems(ty, s, pos, es.len(), sz) == Some(
            (es, pos + spec_enc_elems(es, sz).len()),
        ),
    decreases es.len(),
{
    if es.len() == 0 {
        assert(Seq::<ScalarV>::empty() =~= es);
    } else {
        let e0 = spec_enc_scalar(es[0], sz);
        let rest = es.drop_first();
        lemma_at_split(s, pos, e0, spec_enc_elems(rest, sz));
        lemma_dec_scalar_at(s, pos, es[0], ty, sz);
        assert forall|i: int| 0 <= i < rest.len() implies scalar_enc_ok(#[trigger] rest[i], sz)
            && scalar_matches(ty, rest[i]) by {
            assert(rest[i] == es[i + 1]);
        }
        lemma_dec_elems_at(s, pos + e0.len(), rest, ty, sz);
        assert(seq![es[0]] + rest =~= es);
    }
}

/// One encoded map entry standing at `pos` decodes back to its key and
/// value.
pub proof fn lemma_dec_entry_at(
    s: Seq<u8>,
    pos: int,
    k: ScalarV,
    v: ScalarV,
    kt: CqlValueType,
    vt: CqlValueType,
    sz: CqlBytesSize,
)
    requires
        scalar_enc_ok(k, sz),
        scalar_enc_ok(v, sz),
        scalar_matches(kt, k),
        scalar_matches(vt, v),
        bytes_at(s, pos, spec_enc_scalar(k, sz) + spec_enc_scalar(v, sz)),
    ensures
        spec_dec_scalar(kt, s, pos, sz) == Some(
            (k, pos + spec_enc_scalar(k, sz).len()),
        ),
        spec_dec_scalar(vt, s, pos + spec_enc_scalar(k, sz).len(), sz) == Some(
            (v, pos + spec_enc_scalar(k, sz).len() + spec_enc_scalar(v, sz).len()),
        ),
{
    lemma_at_split(s, pos, spec_enc_scalar(k, sz), spec_enc_scalar(v, sz));
    lemma_dec_scalar_at(s, pos, k, kt, sz);
    lemma_dec_scalar_at(s, pos + spec_enc_scalar(k, sz).len(), v, vt, sz);
}

/// Encoded map entries standing at `pos` decode back to them.
#[verifier::rlimit(100)]
#[verifier::spinoff_prover]
pub proof fn lemma_dec_entries_at(
    s: Seq<u8>,
    pos: int,
    ps: Seq<(ScalarV, ScalarV)>,
    kt: CqlValueType,
    vt: CqlValueType,
    sz: CqlBytesSize,
)
    requires
        forall|i: int|
            0 <= i < ps.len() ==> scalar_enc_ok((#[trigger] ps[i]).0, sz) && scalar_enc_ok(
                ps[i].1,
                sz,
            ),
        entries_match_types(kt, vt, ps),
        bytes_at(s, pos, spec_enc_entries(ps, sz)),
    ensures
        spec_dec_entries(kt, vt, s, pos, ps.len(), sz) == Some(
            (ps, pos + spec_enc_entries(ps, sz).len()),
        ),
    decreases ps.len(),
{
    if ps.len() == 0 {
        assert(Seq::<(ScalarV, ScalarV)>::empty() =~= ps);
    } else {
        let k0 = spec_enc_scalar(ps[0].0, sz);
        let v0 = spec_enc_scalar(ps[0].1, sz);
        let rest = ps.drop_first();
        assert(spec_enc_entries(ps, sz) =~= (k0 + v0) + spec_enc_entries(rest, sz));
        lemma_at_split(s, pos, k0 + v0, spec_enc_entries(rest, sz));
        lemma_dec_entry_at(s, pos, ps[0].0, ps[0].1, kt, vt, sz);
        assert forall|i: int|
            0 <= i < rest.len() implies scalar_enc_ok((#[trigger] rest[i]).0, sz)
            && scalar_enc_ok(rest[i].1, sz) && scalar_matches(kt, rest[i].0) && scalar_matches(
            vt,
            rest[i].1,
        ) by {
            assert(rest[i] == ps[i + 1]);
        }
        lemma_dec_entries_at(s, pos + k0.len() + v0.len(), rest, kt, vt, sz);
        assert(seq![ps[0]] + rest =~= ps);
    }
}

/// An encoded column value standing at `pos` decodes back to it.
#[verifier::rlimit(100)]
#[verifier::spinoff_prover]
pub proof fn lemma_dec_value_at(s: Seq<u8>, pos: int, v: ValueV, c: ColSpecV, esz: CqlBytesSize)
    requires
        value_enc_ok(v, esz),
        value_matches_col(v, c),
        bytes_at(s, pos, spec_enc_value(v, esz)),
    ensures
        spec_dec_value(c.col_type, c.aux1, c.aux2, s, pos, esz) == Some(
            (v, pos + spec_enc_value(v, esz).len()),
        ),
{
    lemma_pow256_values();
    let w = prefix_width(esz);
    match v {
        ValueV::VScalar(sv) => {
            lemma_dec_scalar_at(s, pos, sv, c.col_type, CqlBytesSize::Cqli32);
        },
        ValueV::VList(o) => {
            match o {
                Some(es) => {
                    let body = spec_value_body(v, esz);
                    lemma_be_bytes_len(es.len(), w);
                    lemma_be_bytes_len(to_unsigned(body.len() as int, 4), 4);
                    lemma_at_split(s, pos, spec_len_prefix(body.len() as int, CqlBytesSize::Cqli32), body);
                    lemma_dec_len_at(s, pos, body.len() as int, CqlBytesSize::Cqli32);
                    let p = pos + 4;
                    lemma_at_split(s, p, spec_be_bytes(es.len(), w), spec_enc_elems(es, esz));
                    lemma_dec_be_at(s, p, es.len(), w);
                    lemma_dec_elems_at(s, p + w, es, c.aux1, esz);
                },
                None => {
                    lemma_be_bytes_len(to_unsigned(-1, 4), 4);
                    lemma_dec_len_at(s, pos, -1, CqlBytesSize::Cqli32);
                },
            }
        },
        ValueV::VSet(o) => {
            match o {
                Some(es) => {
                    let body = spec_value_body(v, esz);
                    lemma_be_bytes_len(es.len(), w);
                    lemma_be_bytes_len(to_unsigned(body.len() as int, 4), 4);
                    lemma_at_split(s, pos, spec_len_prefix(body.len() as int, CqlBytesSize::Cqli32), body);
                    lemma_dec_len_at(s, pos, body.len() as int, CqlBytesSize::Cqli32);
                    let p = pos + 4;
                    lemma_at_split(s, p, spec_be_bytes(es.len(), w), spec_enc_elems(es, esz));
                    lemma_dec_be_at(s, p, es.len(), w);
                    lemma_dec_elems_at(s, p + w, es, c.aux1, esz);
                },
                None => {
                    lemma_be_bytes_len(to_unsigned(-1, 4), 4);
                    lemma_dec_len_at(s, pos, -1, CqlBytesSize::Cqli32);
                },
            }
        },
        ValueV::VMap(o) => {
            match o {
                Some(ps) => {
                    let body = spec_value_body(v, esz);
                    lemma_be_bytes_len(ps.len(), w);
                    lemma_be_bytes_len(to_unsigned(body.len() as int, 4), 4);
                    lemma_at_split(s, pos, spec_len_prefix(body.len() as int, CqlBytesSize::Cqli32), body);
                    lemma_dec_len_at(s, pos, body.len() as int, CqlBytesSize::Cqli32);
                    let p = pos + 4;
                    lemma_at_split(s, p, spec_be_bytes(ps.len(), w), spec_enc_entries(ps, esz));
                    lemma_dec_be_at(s, p, ps.len(), w);
                    lemma_dec_entries_at(s, p + w, ps, c.aux1, c.aux2, esz);
                },
                None => {
                    lemma_be_bytes_len(to_unsigned(-1, 4), 4);
                    lemma_dec_len_at(s, pos, -1, CqlBytesSize::Cqli32);
                },
            }
        },
    }
}


/// The wire type-key of a known column type reads back as that type, and
/// its threshold tests agree with the aux-type rules.
pub proof fn lemma_type_key_roundtrip(ty: CqlValueType)
    requires
        ty != CqlValueType::ColumnUnknown,
    ensures
        spec_cql_column_type(spec_column_type_value(ty)) == ty,
        spec_column_type_value(ty) >= 0x20 <==> has_aux1(ty),
        spec_column_type_value(ty) == 0x21 <==> has_aux2(ty),
{
}

/// The tail of a column specification (name, type key, element keys)
/// standing at `p0` decodes to those fields.
#[verifier::rlimit(100)]
#[verifier::spinoff_prover]
pub proof fn lemma_dec_col_fields(s: Seq<u8>, p0: int, c: ColSpecV)
    requires
        string_enc_ok(c.col_name, CqlBytesSize::Cqli16),
        c.col_type != CqlValueType::ColumnUnknown,
        (if has_aux1(c.col_type) {
            is_single_type(c.aux1)
        } else {
            c.aux1 == CqlValueType::ColumnUnknown
        }),
        (if has_aux2(c.col_type) {
            is_single_type(c.aux2)
        } else {
            c.aux2 == CqlValueType::ColumnUnknown
        }),
        bytes_at(
            s,
            p0,
            spec_enc_string(c.col_name, CqlBytesSize::Cqli16) + (spec_be_bytes(
                spec_column_type_value(c.col_type) as nat,
                2,
            ) + ((if has_aux1(c.col_type) {
                spec_be_bytes(spec_column_type_value(c.aux1) as nat, 2)
            } else {
                seq![]
            }) + (if has_aux2(c.col_type) {
                spec_be_bytes(spec_column_type_value(c.aux2) as nat, 2)
            } else {
                seq![]
            }))),
        ),
    ensures
        ({
            let name_part = spec_enc_string(c.col_name, CqlBytesSize::Cqli16);
            let p1 = p0 + name_part.len();
            let p2 = p1 + 2;
            &&& spec_dec_string_nn(s, p0, CqlBytesSize::Cqli16) == Some((c.col_name, p1))
            &&& spec_dec_be(s, p1, 2) == Some((spec_column_type_value(c.col_type) as nat, p2))
            &&& (has_aux1(c.col_type) ==> spec_dec_be(s, p2, 2) == Some(
                (spec_column_type_value(c.aux1) as nat, p2 + 2),
            ))
            &&& (has_aux2(c.col_type) ==> spec_dec_be(s, p2 + 2, 2) == Some(
                (spec_column_type_value(c.aux2) as nat, p2 + 4),
            ))
        }),
{
    lemma_pow256_values();
    let name_part = spec_enc_string(c.col_name, CqlBytesSize::Cqli16);
    let key_part = spec_be_bytes(spec_column_type_value(c.col_type) as nat, 2);
    let aux1_part = if has_aux1(c.col_type) {
        spec_be_bytes(spec_column_type_value(c.aux1) as nat, 2)
    } else {
        seq![]
    };
    let aux2_part = if has_aux2(c.col_type) {
        spec_be_bytes(spec_column_type_value(c.aux2) as nat, 2)
    } else {
        seq![]
    };
    lemma_at_split(s, p0, name_part, key_part + (aux1_part + aux2_part));
    lemma_dec_string_at(s, p0, c.col_name, CqlBytesSize::Cqli16);
    lemma_be_bytes_len(to_unsigned(encode_utf8(c.col_name).len() as int, 2), 2);
    let p1 = p0 + name_part.len();
    lemma_at_split(s, p1, key_part, aux1_part + aux2_part);
    lemma_be_bytes_len(spec_column_type_value(c.col_type) as nat, 2);
    lemma_dec_be_at(s, p1, spec_column_type_value(c.col_type) as nat, 2);
    let p2 = p1 + 2;
    if has_aux1(c.col_type) {
        lemma_at_split(s, p2, aux1_part, aux2_part);
        lemma_be_bytes_len(spec_column_type_value(c.aux1) as nat, 2);
        lemma_dec_be_at(s, p2, spec_column_type_value(c.aux1) as nat, 2);
        if has_aux2(c.col_type) {
            lemma_be_bytes_len(spec_column_type_value(c.aux2) as nat, 2);
            lemma_dec_be_at(s, p2 + 2, spec_column_type_value(c.aux2) as nat, 2);
        }
    }
}

/// An encoded column specification standing at `pos` decodes back to it.
#[verifier::rlimit(100)]
#[verifier::spinoff_prover]
pub proof fn lemma_dec_col_at(
    s: Seq<u8>,
    pos: int,
    c: ColSpecV,
    global: bool,
    gks: Seq<char>,
    gtb: Seq<char>,
)
    requires
        col_enc_ok(c, global),
        global ==> c.keyspace == gks && c.table == gtb,
        bytes_at(s, pos, spec_enc_col(c, global)),
    ensures
        spec_dec_col(s, pos, global, gks, gtb) == Some(
            (c, pos + spec_enc_col(c, global).len()),
        ),
{
    lemma_pow256_values();
    lemma_type_key_roundtrip(c.col_type);
    if has_aux1(c.col_type) {
        lemma_type_key_roundtrip(c.aux1);
    }
    if has_aux2(c.col_type) {
        lemma_type_key_roundtrip(c.aux2);
    }
    let names = if global {
        seq![]
    } else {
        spec_enc_string(c.keyspace, CqlBytesSize::Cqli16) + spec_enc_string(
            c.table,
            CqlBytesSize::Cqli16,
        )
    };
    let tail = spec_enc_string(c.col_name, CqlBytesSize::Cqli16) + (spec_be_bytes(
        spec_column_type_value(c.col_type) as nat,
        2,
    ) + ((if has_aux1(c.col_type) {
        spec_be_bytes(spec_column_type_value(c.aux1) as nat, 2)
    } else {
        seq![]
    }) + (if has_aux2(c.col_type) {
        spec_be_bytes(spec_column_type_value(c.aux2) as nat, 2)
    } else {
        seq![]
    })));
    assert(spec_enc_col(c, global) =~= names + tail);
    lemma_at_split(s, pos, names, tail);
    let p0 = pos + names.len();
    if !global {
        assert(names =~= spec_enc_string(c.keyspace, CqlBytesSize::Cqli16) + spec_enc_string(
            c.table,
            CqlBytesSize::Cqli16,
        ));
        lemma_at_split(
            s,
            pos,
            spec_enc_string(c.keyspace, CqlBytesSize::Cqli16),
            spec_enc_string(c.table, CqlBytesSize::Cqli16),
        );
        lemma_dec_string_at(s, pos, c.keyspace, CqlBytesSize::Cqli16);
        lemma_dec_string_at(
            s,
            pos + spec_enc_string(c.keyspace, CqlBytesSize::Cqli16).len(),
            c.table,
            CqlBytesSize::Cqli16,
        );
        lemma_be_bytes_len(to_unsigned(encode_utf8(c.keyspace).len() as int, 2), 2);
        lemma_be_bytes_len(to_unsigned(encode_utf8(c.table).len() as int, 2), 2);
    }
    lemma_dec_col_fields(s, p0, c);
    lemma_be_bytes_len(to_unsigned(encode_utf8(c.col_name).len() as int, 2), 2);
    lemma_be_bytes_len(spec_column_type_value(c.col_type) as nat, 2);
    if has_aux1(c.col_type) {
        lemma_be_bytes_len(spec_column_type_value(c.aux1) as nat, 2);
    }
    if has_aux2(c.col_type) {
        lemma_be_bytes_len(spec_column_type_value(c.aux2) as nat, 2);
    }
}

/// Encoded column specifications standing at `pos` decode back to them.
#[verifier::rlimit(100)]
#[verifier::spinoff_prover]
pub proof fn lemma_dec_cols_at(
    s: Seq<u8>,
    pos: int,
    cols: Seq<ColSpecV>,
    global: bool,
    gks: Seq<char>,
    gtb: Seq<char>,
)
    requires
        forall|i: int| 0 <= i < cols.len() ==> col_enc_ok(#[trigger] cols[i], global),
        global ==> forall|i: int|
            0 <= i < cols.len() ==> (#[trigger] cols[i]).keyspace == gks && cols[i].table == gtb,
        bytes_at(s, pos, spec_enc_cols(cols, global)),
    ensures
        spec_dec_cols(s, pos, cols.len(), global, gks, gtb) == Some(
            (cols, pos + spec_enc_cols(cols, global).len()),
        ),
    decreases cols.len(),
{
    if cols.len() == 0 {
        assert(Seq::<ColSpecV>::empty() =~= cols);
    } else {
        let e0 = spec_enc_col(cols[0], global);
        let rest = cols.drop_first();
        lemma_at_split(s, pos, e0, spec_enc_cols(rest, global));
        lemma_dec_col_at(s, pos, cols[0], global, gks, gtb);
        assert forall|i: int| 0 <= i < rest.len() implies col_enc_ok(#[trigger] rest[i], global)
            && (global ==> rest[i].keyspace == gks && rest[i].table == gtb) by {
            assert(rest[i] == cols[i + 1]);
        }
        lemma_dec_cols_at(s, pos + e0.len(), rest, global, gks, gtb);
        assert(seq![cols[0]] + rest =~= cols);
    }
}

/// Encoded rows metadata standing at `pos` decodes back to it.
#[verifier::rlimit(100)]
#[verifier::spinoff_prover]
pub proof fn lemma_dec_metadata_at(s: Seq<u8>, pos: int, m: MetadataV)
    requires
        metadata_enc_ok(m),
        bytes_at(s, pos, spec_enc_metadata(m)),
    ensures
        spec_dec_metadata(s, pos) == Some((m, pos + spec_enc_metadata(m).len())),
{
    lemma_pow256_values();
    lemma_be_bytes_len(to_unsigned(encode_utf8(m.keyspace).len() as int, 2), 2);
    lemma_be_bytes_len(to_unsigned(encode_utf8(m.table).len() as int, 2), 2);
    let flags_part = spec_be_bytes(m.flags as nat, 4);
    let cc_part = spec_be_bytes(m.column_count as nat, 4);
    let global = metadata_global(m.flags);
    let names = if global {
        spec_enc_string(m.keyspace, CqlBytesSize::Cqli16) + spec_enc_string(
            m.table,
            CqlBytesSize::Cqli16,
        )
    } else {
        seq![]
    };
    let cols_part = spec_enc_cols(m.cols, global);
    assert(spec_enc_metadata(m) =~= flags_part + (cc_part + (names + cols_part)));
    lemma_at_split(s, pos, flags_part, cc_part + (names + cols_part));
    lemma_be_bytes_len(m.flags as nat, 4);
    lemma_dec_be_at(s, pos, m.flags as nat, 4);
    let p0 = pos + 4;
    lemma_at_split(s, p0, cc_part, names + cols_part);
    lemma_be_bytes_len(m.column_count as nat, 4);
    lemma_dec_be_at(s, p0, m.column_count as nat, 4);
    let p1 = p0 + 4;
    lemma_at_split(s, p1, names, cols_part);
    if global {
        assert(names =~= spec_enc_string(m.keyspace, CqlBytesSize::Cqli16) + spec_enc_string(
            m.table,
            CqlBytesSize::Cqli16,
        ));
        lemma_at_split(
            s,
            p1,
            spec_enc_string(m.keyspace, CqlBytesSize::Cqli16),
            spec_enc_string(m.table, CqlBytesSize::Cqli16),
        );
        lemma_dec_string_at(s, p1, m.keyspace, CqlBytesSize::Cqli16);
        lemma_dec_string_at(
            s,
            p1 + spec_enc_string(m.keyspace, CqlBytesSize::Cqli16).len(),
            m.table,
            CqlBytesSize::Cqli16,
        );
        lemma_dec_cols_at(s, p1 + names.len(), m.cols, global, m.keyspace, m.table);
    } else {
        assert(m.keyspace =~= Seq::<char>::empty());
        assert(m.table =~= Seq::<char>::empty());
        lemma_dec_cols_at(s, p1, m.cols, global, m.keyspace, m.table);
        assert(spec_dec_cols(s, p1, m.cols.len() as nat, global, Seq::<char>::empty(), Seq::<char>::empty())
            == spec_dec_cols(s, p1, m.cols.len() as nat, global, m.keyspace, m.table));
    }
}

/// An encoded row standing at `pos` decodes back to it.
#[verifier::rlimit(100)]
#[verifier::spinoff_prover]
pub proof fn lemma_dec_row_at(
    s: Seq<u8>,
    pos: int,
    row: Seq<ValueV>,
    cols: Seq<ColSpecV>,
    esz: CqlBytesSize,
)
    requires
        row_enc_ok(row, cols, esz),
        bytes_at(s, pos, spec_enc_row(row, esz)),
    ensures
        spec_dec_row(cols, s, pos, esz) == Some((row, pos + spec_enc_row(row, esz).len())),
    decreases row.len(),
{
    if row.len() == 0 {
        assert(Seq::<ValueV>::empty() =~= row);
    } else {
        let e0 = spec_enc_value(row[0], esz);
        let rrest = row.drop_first();
        let crest = cols.drop_first();
        lemma_at_split(s, pos, e0, spec_enc_row(rrest, esz));
        lemma_dec_value_at(s, pos, row[0], cols[0], esz);
        assert forall|i: int|
            0 <= i < rrest.len() implies value_matches_col(#[trigger] rrest[i], crest[i])
            && value_enc_ok(rrest[i], esz) by {
            assert(rrest[i] == row[i + 1]);
            assert(crest[i] == cols[i + 1]);
        }
        lemma_dec_row_at(s, pos + e0.len(), rrest, crest, esz);
        assert(seq![row[0]] + rrest =~= row);
    }
}

/// Encoded rows standing at `pos` decode back to them.
#[verifier::rlimit(100)]
#[verifier::spinoff_prover]
pub proof fn lemma_dec_rows_seq_at(
    s: Seq<u8>,
    pos: int,
    rows: Seq<Seq<ValueV>>,
    cols: Seq<ColSpecV>,
    esz: CqlBytesSize,
)
    requires
        forall|i: int| 0 <= i < rows.len() ==> row_enc_ok(#[trigger] rows[i], cols, esz),
        bytes_at(s, pos, spec_enc_rows_seq(rows, esz)),
    ensures
        spec_dec_rows_seq(cols, s, pos, rows.len(), esz) == Some(
            (rows, pos + spec_enc_rows_seq(rows, esz).len()),
        ),
    decreases rows.len(),
{
    if rows.len() == 0 {
        assert(Seq::<Seq<ValueV>>::empty() =~= rows);
    } else {
        let e0 = spec_enc_row(rows[0], esz);
        let rest = rows.drop_first();
        lemma_at_split(s, pos, e0, spec_enc_rows_seq(rest, esz));
        lemma_dec_row_at(s, pos, rows[0], cols, esz);
        assert forall|i: int| 0 <= i < rest.len() implies row_enc_ok(
            #[trigger] rest[i],
            cols,
            esz,
        ) by {
            assert(rest[i] == rows[i + 1]);
        }
        lemma_dec_rows_seq_at(s, pos + e0.len(), rest, cols, esz);
        assert(seq![rows[0]] + rest =~= rows);
    }
}

/// An encoded rows result standing at `pos` decodes back to it.
#[verifier::rlimit(100)]
#[verifier::spinoff_prover]
pub proof fn lemma_dec_rows_at(s: Seq<u8>, pos: int, rv: RowsV, esz: CqlBytesSize)
    requires
        rows_enc_ok(rv, esz),
        bytes_at(s, pos, spec_enc_rows(rv, esz)),
    ensures
        spec_dec_rows(s, pos, esz) == Some((rv, pos + spec_enc_rows(rv, esz).len())),
{
    lemma_pow256_values();
    let meta_part = spec_enc_metadata(rv.metadata);
    let rc_part = spec_be_bytes(rv.rows.len(), 4);
    let rows_part = spec_enc_rows_seq(rv.rows, esz);
    assert(spec_enc_rows(rv, esz) =~= meta_part + (rc_part + rows_part));
    lemma_at_split(s, pos, meta_part, rc_part + rows_part);
    lemma_dec_metadata_at(s, pos, rv.metadata);
    let p0 = pos + meta_part.len();
    lemma_at_split(s, p0, rc_part, rows_part);
    lemma_be_bytes_len(rv.rows.len(), 4);
    lemma_dec_be_at(s, p0, rv.rows.len(), 4);
    lemma_dec_rows_seq_at(s, p0 + 4, rv.rows, rv.metadata.cols, esz);
}

/// Decoding the encoding of a column value yields that value, at every
/// protocol revision and under both element-prefix widths, NULLs included.
pub proof fn lemma_value_roundtrip(v: ValueV, c: ColSpecV, esz: CqlBytesSize)
    requires
        value_enc_ok(v, esz),
        value_matches_col(v, c),
    ensures
        spec_dec_value(c.col_type, c.aux1, c.aux2, spec_enc_value(v, esz), 0, esz) == Some(
            (v, spec_enc_value(v, esz).len() as int),
        ),
{
    let enc = spec_enc_value(v, esz);
    assert(enc.subrange(0, enc.len() as int) =~= enc);
    lemma_dec_value_at(enc, 0, v, c, esz);
}

/// Decoding the encoding of a single value yields that value, under both
/// prefix widths.
pub proof fn lemma_scalar_roundtrip(v: ScalarV, ty: CqlValueType, sz: CqlBytesSize)
    requires
        scalar_enc_ok(v, sz),
        scalar_matches(ty, v),
    ensures
        spec_dec_scalar(ty, spec_enc_scalar(v, sz), 0, sz) == Some(
            (v, spec_enc_scalar(v, sz).len() as int),
        ),
{
    let enc = spec_enc_scalar(v, sz);
    assert(enc.subrange(0, enc.len() as int) =~= enc);
    lemma_dec_scalar_at(enc, 0, v, ty, sz);
}


/// An encoded event address standing at `pos` decodes back to it.
#[verifier::rlimit(100)]
#[verifier::spinoff_prover]
pub proof fn lemma_dec_inet_at(s: Seq<u8>, pos: int, ip: IpAddress)
    requires
        bytes_at(s, pos, spec_enc_inet(ip)),
    ensures
        spec_dec_inet(s, pos) == Some((ip, pos + spec_enc_inet(ip).len())),
{
    lemma_pow256_values();
    match ip {
        IpAddress::Ipv4(a, b, c, d) => {
            let body = spec_inet_bytes(ip);
            assert(body.len() == 4);
            lemma_dec_lp_bytes_at(s, pos, body, CqlBytesSize::Cqli16);
            lemma_be_bytes_len(to_unsigned(4, 2), 2);
            assert(body[0] == a && body[1] == b && body[2] == c && body[3] == d);
        },
        IpAddress::Ipv6(s0, s1, s2, s3, s4, s5, s6, s7) => {
            let body = spec_inet_bytes(ip);
            lemma_be_bytes_len(s0 as nat, 2);
            lemma_be_bytes_len(s1 as nat, 2);
            lemma_be_bytes_len(s2 as nat, 2);
            lemma_be_bytes_len(s3 as nat, 2);
            lemma_be_bytes_len(s4 as nat, 2);
            lemma_be_bytes_len(s5 as nat, 2);
            lemma_be_bytes_len(s6 as nat, 2);
            lemma_be_bytes_len(s7 as nat, 2);
            assert(body.len() == 16);
            lemma_dec_lp_bytes_at(s, pos, body, CqlBytesSize::Cqli16);
            lemma_be_bytes_len(to_unsigned(16, 2), 2);
            lemma_be_roundtrip(s0 as nat, 2);
            lemma_be_roundtrip(s1 as nat, 2);
            lemma_be_roundtrip(s2 as nat, 2);
            lemma_be_roundtrip(s3 as nat, 2);
            lemma_be_roundtrip(s4 as nat, 2);
            lemma_be_roundtrip(s5 as nat, 2);
            lemma_be_roundtrip(s6 as nat, 2);
            lemma_be_roundtrip(s7 as nat, 2);
            assert(body.subrange(0, 2) =~= spec_be_bytes(s0 as nat, 2));
            assert(body.subrange(2, 4) =~= spec_be_bytes(s1 as nat, 2));
            assert(body.subrange(4, 6) =~= spec_be_bytes(s2 as nat, 2));
            assert(body.subrange(6, 8) =~= spec_be_bytes(s3 as nat, 2));
            assert(body.subrange(8, 10) =~= spec_be_bytes(s4 as nat, 2));
            assert(body.subrange(10, 12) =~= spec_be_bytes(s5 as nat, 2));
            assert(body.subrange(12, 14) =~= spec_be_bytes(s6 as nat, 2));
            assert(body.subrange(14, 16) =~= spec_be_bytes(s7 as nat, 2));
        },
    }
}

/// The event-kind tokens are pairwise distinct.
pub proof fn lemma_tokens_distinct()
    ensures
        "TOPOLOGY_CHANGE"@ != "STATUS_CHANGE"@,
        "TOPOLOGY_CHANGE"@ != "SCHEMA_CHANGE"@,
        "STATUS_CHANGE"@ != "SCHEMA_CHANGE"@,
        "NEW_NODE"@ != "REMOVED_NODE"@,
        "NEW_NODE"@ != "MOVED_NODE"@,
        "REMOVED_NODE"@ != "MOVED_NODE"@,
        "UP"@ != "DOWN"@,
        "CREATED"@ != "UPDATED"@,
        "CREATED"@ != "DROPPED"@,
        "UPDATED"@ != "DROPPED"@,
        "KEYSPACE"@ != "TABLE"@,
        "KEYSPACE"@ != "TYPE"@,
        "TABLE"@ != "TYPE"@,
{
    reveal_strlit("TOPOLOGY_CHANGE");
    reveal_strlit("STATUS_CHANGE");
    reveal_strlit("SCHEMA_CHANGE");
    reveal_strlit("NEW_NODE");
    reveal_strlit("REMOVED_NODE");
    reveal_strlit("MOVED_NODE");
    reveal_strlit("UP");
    reveal_strlit("DOWN");
    reveal_strlit("CREATED");
    reveal_strlit("UPDATED");
    reveal_strlit("DROPPED");
    reveal_strlit("KEYSPACE");
    reveal_strlit("TABLE");
    reveal_strlit("TYPE");
    assert("TOPOLOGY_CHANGE"@.len() == 15);
    assert("STATUS_CHANGE"@.len() == 13);
    assert("SCHEMA_CHANGE"@.len() == 13);
    assert("NEW_NODE"@.len() == 8);
    assert("REMOVED_NODE"@.len() == 12);
    assert("MOVED_NODE"@.len() == 10);
    assert("UP"@.len() == 2);
    assert("DOWN"@.len() == 4);
    assert("KEYSPACE"@.len() == 8);
    assert("TABLE"@.len() == 5);
    assert("TYPE"@.len() == 4);
    assert("STATUS_CHANGE"@[1] != "SCHEMA_CHANGE"@[1]);
    assert("CREATED"@[0] != "UPDATED"@[0]);
    assert("CREATED"@[0] != "DROPPED"@[0]);
    assert("UPDATED"@[0] != "DROPPED"@[0]);
}

/// An encoded topology-change event standing at `pos` decodes back to it.
#[verifier::rlimit(100)]
#[verifier::spinoff_prover]
proof fn lemma_dec_event_topology_at(s: Seq<u8>, pos: int, e: EventV)
    requires
        event_enc_ok(e),
        e is ETopology,
        bytes_at(s, pos, spec_enc_event(e)),
    ensures
        spec_dec_event(s, pos) == Some((e, pos + spec_enc_event(e).len())),
{
    lemma_pow256_values();
    crate::format::lemma_event_tokens_fit();
    lemma_tokens_distinct();
    match e {
        EventV::ETopology(t, ip) => {

            let et_part = spec_enc_string("TOPOLOGY_CHANGE"@, CqlBytesSize::Cqli16);
            let ct_part = spec_enc_string(spec_topology_str(t), CqlBytesSize::Cqli16);
            let ip_part = spec_enc_inet(ip);
            assert(spec_enc_event(e) =~= et_part + (ct_part + ip_part));
            lemma_at_split(s, pos, et_part, ct_part + ip_part);
            lemma_dec_string_at(s, pos, "TOPOLOGY_CHANGE"@, CqlBytesSize::Cqli16);
            lemma_be_bytes_len(to_unsigned(encode_utf8("TOPOLOGY_CHANGE"@).len() as int, 2), 2);
            let p0 = pos + et_part.len();
            lemma_at_split(s, p0, ct_part, ip_part);
            lemma_dec_string_at(s, p0, spec_topology_str(t), CqlBytesSize::Cqli16);
            lemma_be_bytes_len(
                to_unsigned(encode_utf8(spec_topology_str(t)).len() as int, 2),
                2,
            );
            lemma_dec_inet_at(s, p0 + ct_part.len(), ip);
            assert(spec_topology_from(spec_topology_str(t)) == t);
        },
        _ => {},
    }
}

/// An encoded status-change event standing at `pos` decodes back to it.
#[verifier::rlimit(100)]
#[verifier::spinoff_prover]
proof fn lemma_dec_event_status_at(s: Seq<u8>, pos: int, e: EventV)
    requires
        event_enc_ok(e),
        e is EStatus,
        bytes_at(s, pos, spec_enc_event(e)),
    ensures
        spec_dec_event(s, pos) == Some((e, pos + spec_enc_event(e).len())),
{
    lemma_pow256_values();
    crate::format::lemma_event_tokens_fit();
    lemma_tokens_distinct();
    match e {
        EventV::EStatus(t, ip) => {

            let et_part = spec_enc_string("STATUS_CHANGE"@, CqlBytesSize::Cqli16);
            let ct_part = spec_enc_string(spec_status_str(t), CqlBytesSize::Cqli16);
            let ip_part = spec_enc_inet(ip);
            assert(spec_enc_event(e) =~= et_part + (ct_part + ip_part));
            lemma_at_split(s, pos, et_part, ct_part + ip_part);
            lemma_dec_string_at(s, pos, "STATUS_CHANGE"@, CqlBytesSize::Cqli16);
            lemma_be_bytes_len(to_unsigned(encode_utf8("STATUS_CHANGE"@).len() as int, 2), 2);
            let p0 = pos + et_part.len();
            lemma_at_split(s, p0, ct_part, ip_part);
            lemma_dec_string_at(s, p0, spec_status_str(t), CqlBytesSize::Cqli16);
            lemma_be_bytes_len(to_unsigned(encode_utf8(spec_status_str(t)).len() as int, 2), 2);
            lemma_dec_inet_at(s, p0 + ct_part.len(), ip);
            assert(spec_status_from(spec_status_str(t)) == t);
        },
        _ => {},
    }
}

/// An encoded schema-change event standing at `pos` decodes back to it.
#[verifier::rlimit(100)]
#[verifier::spinoff_prover]
proof fn lemma_dec_event_schema_at(s: Seq<u8>, pos: int, e: EventV)
    requires
        event_enc_ok(e),
        e is ESchema,
        bytes_at(s, pos, spec_enc_event(e)),
    ensures
        spec_dec_event(s, pos) == Some((e, pos + spec_enc_event(e).len())),
{
    lemma_pow256_values();
    crate::format::lemma_event_tokens_fit();
    lemma_tokens_distinct();
    match e {
        EventV::ESchema(t, o) => {

            let et_part = spec_enc_string("SCHEMA_CHANGE"@, CqlBytesSize::Cqli16);
            let ct_part = spec_enc_string(spec_schema_str(t), CqlBytesSize::Cqli16);
            let o_part = spec_enc_schema_opts(o);
            assert(spec_enc_event(e) =~= et_part + (ct_part + o_part));
            lemma_at_split(s, pos, et_part, ct_part + o_part);
            lemma_dec_string_at(s, pos, "SCHEMA_CHANGE"@, CqlBytesSize::Cqli16);
            lemma_be_bytes_len(to_unsigned(encode_utf8("SCHEMA_CHANGE"@).len() as int, 2), 2);
            let p0 = pos + et_part.len();
            lemma_at_split(s, p0, ct_part, o_part);
            lemma_dec_string_at(s, p0, spec_schema_str(t), CqlBytesSize::Cqli16);
            lemma_be_bytes_len(to_unsigned(encode_utf8(spec_schema_str(t)).len() as int, 2), 2);
            lemma_dec_schema_opts_at(s, p0 + ct_part.len(), o);
            assert(spec_schema_from(spec_schema_str(t)) == t);
        },
        _ => {},
    }
}

/// An encoded event standing at `pos` decodes back to it.
pub proof fn lemma_dec_event_at(s: Seq<u8>, pos: int, e: EventV)
    requires
        event_enc_ok(e),
        bytes_at(s, pos, spec_enc_event(e)),
    ensures
        spec_dec_event(s, pos) == Some((e, pos + spec_enc_event(e).len())),
{
    match e {
        EventV::ETopology(_, _) => lemma_dec_event_topology_at(s, pos, e),
        EventV::EStatus(_, _) => lemma_dec_event_status_at(s, pos, e),
        EventV::ESchema(_, _) => lemma_dec_event_schema_at(s, pos, e),
        EventV::EUnknown => {},
    }
}

/// Encoded schema-change options standing at `pos` decode back to them.
#[verifier::rlimit(100)]
#[verifier::spinoff_prover]
pub proof fn lemma_dec_schema_opts_at(s: Seq<u8>, pos: int, o: SchemaOptsV)
    requires
        (match o {
            SchemaOptsV::OKeyspace(k) => string_enc_ok(k, CqlBytesSize::Cqli16),
            SchemaOptsV::OTable(a, b) => string_enc_ok(a, CqlBytesSize::Cqli16) && string_enc_ok(
                b,
                CqlBytesSize::Cqli16,
            ),
            SchemaOptsV::OType(a, b) => string_enc_ok(a, CqlBytesSize::Cqli16) && string_enc_ok(
                b,
                CqlBytesSize::Cqli16,
            ),
        }),
        bytes_at(s, pos, spec_enc_schema_opts(o)),
    ensures
        spec_dec_schema_opts(s, pos) == Some((o, pos + spec_enc_schema_opts(o).len())),
{
    lemma_pow256_values();
    crate::format::lemma_event_tokens_fit();
    lemma_tokens_distinct();
    match o {
        SchemaOptsV::OKeyspace(k) => {
            let t_part = spec_enc_string("KEYSPACE"@, CqlBytesSize::Cqli16);
            let k_part = spec_enc_string(k, CqlBytesSize::Cqli16);
            assert(spec_enc_schema_opts(o) =~= t_part + k_part);
            lemma_at_split(s, pos, t_part, k_part);
            lemma_dec_string_at(s, pos, "KEYSPACE"@, CqlBytesSize::Cqli16);
            lemma_be_bytes_len(to_unsigned(encode_utf8("KEYSPACE"@).len() as int, 2), 2);
            lemma_dec_string_at(s, pos + t_part.len(), k, CqlBytesSize::Cqli16);
            lemma_be_bytes_len(to_unsigned(encode_utf8(k).len() as int, 2), 2);
        },
        SchemaOptsV::OTable(a, b) => {
            let t_part = spec_enc_string("TABLE"@, CqlBytesSize::Cqli16);
            let a_part = spec_enc_string(a, CqlBytesSize::Cqli16);
            let b_part = spec_enc_string(b, CqlBytesSize::Cqli16);
            assert(spec_enc_schema_opts(o) =~= t_part + (a_part + b_part));
            lemma_at_split(s, pos, t_part, a_part + b_part);
            lemma_dec_string_at(s, pos, "TABLE"@, CqlBytesSize::Cqli16);
            lemma_be_bytes_len(to_unsigned(encode_utf8("TABLE"@).len() as int, 2), 2);
            let p0 = pos + t_part.len();
            lemma_at_split(s, p0, a_part, b_part);
            lemma_dec_string_at(s, p0, a, CqlBytesSize::Cqli16);
            lemma_be_bytes_len(to_unsigned(encode_utf8(a).len() as int, 2), 2);
            lemma_dec_string_at(s, p0 + a_part.len(), b, CqlBytesSize::Cqli16);
            lemma_be_bytes_len(to_unsigned(encode_utf8(b).len() as int, 2), 2);
        },
        SchemaOptsV::OType(a, b) => {
            let t_part = spec_enc_string("TYPE"@, CqlBytesSize::Cqli16);
            let a_part = spec_enc_string(a, CqlBytesSize::Cqli16);
            let b_part = spec_enc_string(b, CqlBytesSize::Cqli16);
            assert(spec_enc_schema_opts(o) =~= t_part + (a_part + b_part));
            lemma_at_split(s, pos, t_part, a_part + b_part);
            lemma_dec_string_at(s, pos, "TYPE"@, CqlBytesSize::Cqli16);
            lemma_be_bytes_len(to_unsigned(encode_utf8("TYPE"@).len() as int, 2), 2);
            let p0 = pos + t_part.len();
            lemma_at_split(s, p0, a_part, b_part);
            lemma_dec_string_at(s, p0, a, CqlBytesSize::Cqli16);
            lemma_be_bytes_len(to_unsigned(encode_utf8(a).len() as int, 2), 2);
            lemma_dec_string_at(s, p0 + a_part.len(), b, CqlBytesSize::Cqli16);
            lemma_be_bytes_len(to_unsigned(encode_utf8(b).len() as int, 2), 2);
        },
    }
}

/// An encoded PREPARED result standing at `pos` decodes back to it.
#[verifier::rlimit(100)]
#[verifier::spinoff_prover]
pub proof fn lemma_dec_prepared_at(s: Seq<u8>, pos: int, p: PreparedV, version: u8)
    requires
        prepared_enc_ok(p, version),
        bytes_at(s, pos, spec_enc_prepared(p, version)),
    ensures
        spec_dec_prepared(s, pos, version) == Some(
            (p, pos + spec_enc_prepared(p, version).len()),
        ),
{
    lemma_pow256_values();
    let id_part = spec_enc_lp_bytes(p.id, CqlBytesSize::Cqli16);
    let meta_part = spec_enc_metadata(p.meta);
    let mr_part = match p.meta_result {
        Some(m) => spec_enc_metadata(m),
        None => seq![],
    };
    assert(spec_enc_prepared(p, version) =~= id_part + (meta_part + mr_part));
    lemma_at_split(s, pos, id_part, meta_part + mr_part);
    lemma_dec_lp_bytes_at(s, pos, p.id, CqlBytesSize::Cqli16);
    lemma_be_bytes_len(to_unsigned(p.id.len() as int, 2), 2);
    let p0 = pos + id_part.len();
    lemma_at_split(s, p0, meta_part, mr_part);
    lemma_dec_metadata_at(s, p0, p.meta);
    if version >= 2 {
        lemma_dec_metadata_at(s, p0 + meta_part.len(), p.meta_result->0);
    }
}


/// An encoded frame header standing at `pos` decodes back to its fields.
#[verifier::rlimit(100)]
#[verifier::spinoff_prover]
pub proof fn lemma_dec_header_at(
    s: Seq<u8>,
    pos: int,
    vb: u8,
    flags: u8,
    stream: i16,
    op: u8,
    version: u8,
)
    requires
        version < 3 ==> -128 <= stream <= 127,
        bytes_at(s, pos, spec_enc_header(vb, flags, stream, op, version)),
    ensures
        spec_dec_header(s, pos, version) == Some(
            (
                CqlFrameHeader { version: vb, flags, stream, opcode: op },
                pos + spec_header_len(version),
            ),
        ),
{
    lemma_pow256_values();
    let enc = spec_enc_header(vb, flags, stream, op, version);
    if version >= 3 {
        let sbytes = spec_be_bytes(to_unsigned(stream as int, 2), 2);
        lemma_be_bytes_len(to_unsigned(stream as int, 2), 2);
        lemma_signed_roundtrip(stream as int, 2);
        assert(enc =~= seq![vb, flags] + sbytes + seq![op]);
        assert(enc.len() == 5);
        assert(s[pos] == enc[0] && s[pos + 1] == enc[1] && s[pos + 2] == enc[2] && s[pos + 3]
            == enc[3] && s[pos + 4] == enc[4]) by {
            assert(s.subrange(pos, pos + 5) == enc);
            assert(s.subrange(pos, pos + 5)[0] == s[pos]);
            assert(s.subrange(pos, pos + 5)[1] == s[pos + 1]);
            assert(s.subrange(pos, pos + 5)[2] == s[pos + 2]);
            assert(s.subrange(pos, pos + 5)[3] == s[pos + 3]);
            assert(s.subrange(pos, pos + 5)[4] == s[pos + 4]);
        }
        assert(s.subrange(pos + 2, pos + 4) =~= sbytes);
        lemma_be_roundtrip(to_unsigned(stream as int, 2), 2);
    } else {
        let sbytes = spec_be_bytes(to_unsigned(stream as int, 1), 1);
        lemma_be_bytes_len(to_unsigned(stream as int, 1), 1);
        lemma_signed_roundtrip(stream as int, 1);
        assert(enc =~= seq![vb, flags] + sbytes + seq![op]);
        assert(enc.len() == 4);
        assert(s[pos] == enc[0] && s[pos + 1] == enc[1] && s[pos + 2] == enc[2] && s[pos + 3]
            == enc[3]) by {
            assert(s.subrange(pos, pos + 4) == enc);
            assert(s.subrange(pos, pos + 4)[0] == s[pos]);
            assert(s.subrange(pos, pos + 4)[1] == s[pos + 1]);
            assert(s.subrange(pos, pos + 4)[2] == s[pos + 2]);
            assert(s.subrange(pos, pos + 4)[3] == s[pos + 3]);
        }
        let u = to_unsigned(stream as int, 1);
        assert(sbytes =~= seq![(u % 256) as u8]);
        assert(enc[2] == (u % 256) as u8);
        assert(u < 256);
        assert(s[pos + 2] as nat == u);
    }
}

/// An encoded RESULT body decodes back to it.
#[verifier::rlimit(100)]
#[verifier::spinoff_prover]
proof fn lemma_dec_result_body_of_enc(b: ResponseBodyV, version: u8)
    requires
        response_body_enc_ok(b, version),
        opcode_of_response_body(b) == Some(OpcodeResponse::OpcodeResult),
    ensures
        spec_dec_response_body(
            OpcodeResponse::OpcodeResult,
            spec_enc_response_body(b, version),
            version,
        ) == Some(b),
{
    lemma_pow256_values();
    let body = spec_enc_response_body(b, version);
    assert(body.subrange(0, body.len() as int) =~= body);
    match b {
        ResponseBodyV::BVoid => {
            lemma_be_bytes_len(1, 4);
            lemma_dec_be_at(body, 0, 1, 4);
        },
        ResponseBodyV::BRows(rv) => {
            let k_part = spec_be_bytes(2, 4);
            assert(body =~= k_part + spec_enc_rows(rv, spec_esz(version)));
            lemma_at_split(body, 0, k_part, spec_enc_rows(rv, spec_esz(version)));
            lemma_be_bytes_len(2, 4);
            lemma_dec_be_at(body, 0, 2, 4);
            lemma_dec_rows_at(body, k_part.len() as int, rv, spec_esz(version));
        },
        ResponseBodyV::BKeyspace(k) => {
            let k_part = spec_be_bytes(3, 4);
            assert(body =~= k_part + spec_enc_string(k, CqlBytesSize::Cqli16));
            lemma_at_split(body, 0, k_part, spec_enc_string(k, CqlBytesSize::Cqli16));
            lemma_be_bytes_len(3, 4);
            lemma_dec_be_at(body, 0, 3, 4);
            lemma_dec_string_at(body, k_part.len() as int, k, CqlBytesSize::Cqli16);
        },
        ResponseBodyV::BPrepared(p) => {
            let k_part = spec_be_bytes(4, 4);
            assert(body =~= k_part + spec_enc_prepared(p, version));
            lemma_at_split(body, 0, k_part, spec_enc_prepared(p, version));
            lemma_be_bytes_len(4, 4);
            lemma_dec_be_at(body, 0, 4, 4);
            lemma_dec_prepared_at(body, k_part.len() as int, p, version);
        },
        ResponseBodyV::BSchemaChange(a, bb, c) => {
            let k_part = spec_be_bytes(5, 4);
            let a_part = spec_enc_string(a, CqlBytesSize::Cqli16);
            let b_part = spec_enc_string(bb, CqlBytesSize::Cqli16);
            let c_part = spec_enc_string(c, CqlBytesSize::Cqli16);
            assert(body =~= k_part + (a_part + (b_part + c_part)));
            lemma_at_split(body, 0, k_part, a_part + (b_part + c_part));
            lemma_be_bytes_len(5, 4);
            lemma_dec_be_at(body, 0, 5, 4);
            let p0 = k_part.len() as int;
            lemma_at_split(body, p0, a_part, b_part + c_part);
            lemma_dec_string_at(body, p0, a, CqlBytesSize::Cqli16);
            lemma_be_bytes_len(to_unsigned(encode_utf8(a).len() as int, 2), 2);
            let p1 = p0 + a_part.len();
            lemma_at_split(body, p1, b_part, c_part);
            lemma_dec_string_at(body, p1, bb, CqlBytesSize::Cqli16);
            lemma_be_bytes_len(to_unsigned(encode_utf8(bb).len() as int, 2), 2);
            lemma_dec_string_at(body, p1 + b_part.len(), c, CqlBytesSize::Cqli16);
        },
        _ => {},
    }
}

/// An encoded response body decodes back to it.
#[verifier::rlimit(100)]
#[verifier::spinoff_prover]
pub proof fn lemma_dec_response_body_of_enc(b: ResponseBodyV, version: u8)
    requires
        response_body_enc_ok(b, version),
    ensures
        spec_dec_response_body(
            opcode_of_response_body(b)->0,
            spec_enc_response_body(b, version),
            version,
        ) == Some(b),
{
    lemma_pow256_values();
    let body = spec_enc_response_body(b, version);
    assert(body.subrange(0, body.len() as int) =~= body);
    match b {
        ResponseBodyV::BError(code, m) => {
            let c_part = spec_be_bytes(code as nat, 4);
            assert(body =~= c_part + spec_enc_string(m, CqlBytesSize::Cqli16));
            lemma_at_split(body, 0, c_part, spec_enc_string(m, CqlBytesSize::Cqli16));
            lemma_be_bytes_len(code as nat, 4);
            lemma_dec_be_at(body, 0, code as nat, 4);
            lemma_dec_string_at(body, c_part.len() as int, m, CqlBytesSize::Cqli16);
        },
        ResponseBodyV::BReady => {},
        ResponseBodyV::BAuthenticate(t) => {
            lemma_dec_string_at(body, 0, t, CqlBytesSize::Cqli16);
        },
        ResponseBodyV::BAuthChallenge(t) => {
            lemma_dec_lp_bytes_at(body, 0, t, CqlBytesSize::Cqli16);
        },
        ResponseBodyV::BAuthSuccess(t) => {
            lemma_dec_lp_bytes_at(body, 0, t, CqlBytesSize::Cqli16);
        },
        ResponseBodyV::BEvent(e) => {
            lemma_dec_event_at(body, 0, e);
        },
        ResponseBodyV::BVoid => {
            lemma_dec_result_body_of_enc(b, version);
        },
        ResponseBodyV::BRows(_) => {
            lemma_dec_result_body_of_enc(b, version);
        },
        ResponseBodyV::BKeyspace(_) => {
            lemma_dec_result_body_of_enc(b, version);
        },
        ResponseBodyV::BPrepared(_) => {
            lemma_dec_result_body_of_enc(b, version);
        },
        ResponseBodyV::BSchemaChange(_, _, _) => {
            lemma_dec_result_body_of_enc(b, version);
        },
        ResponseBodyV::BUnknown => {},
        ResponseBodyV::BEmpty => {},
    }
}

/// An encoded response frame standing at `pos` decodes back to it, and
/// consumes exactly its own bytes.
#[verifier::rlimit(100)]
#[verifier::spinoff_prover]
pub proof fn lemma_dec_response_at(s: Seq<u8>, pos: int, r: ResponseV, version: u8)
    requires
        response_enc_ok(r, version),
        bytes_at(s, pos, spec_enc_response(r, version)),
    ensures
        spec_dec_response(s, pos, version) == Some(
            (r, pos + spec_enc_response(r, version).len()),
        ),
{
    lemma_pow256_values();
    let body = spec_enc_response_body(r.body, version);
    let hdr = spec_enc_header(
        r.version,
        r.flags,
        r.stream,
        spec_opcode_response_value(r.opcode),
        version,
    );
    let len_part = spec_be_bytes(body.len(), 4);
    assert(spec_enc_response(r, version) =~= hdr + (len_part + body));
    lemma_at_split(s, pos, hdr, len_part + body);
    assert(hdr.len() == spec_header_len(version)) by {
        if version >= 3 {
            lemma_be_bytes_len(to_unsigned(r.stream as int, 2), 2);
        } else {
            lemma_be_bytes_len(to_unsigned(r.stream as int, 1), 1);
        }
    }
    lemma_dec_header_at(
        s,
        pos,
        r.version,
        r.flags,
        r.stream,
        spec_opcode_response_value(r.opcode),
        version,
    );
    let p0 = pos + hdr.len();
    lemma_at_split(s, p0, len_part, body);
    lemma_be_bytes_len(body.len(), 4);
    lemma_dec_be_at(s, p0, body.len(), 4);
    let p1 = p0 + 4;
    assert(s.subrange(p1, p1 + body.len()) == body);
    lemma_dec_response_body_of_enc(r.body, version);
    assert(spec_opcode_response(spec_opcode_response_value(r.opcode)) == r.opcode);
}

/// Decoding the encoding of a response yields that response: RESULT kinds
/// keep their metadata flags, column count, per-column type keys and cell
/// values, and every other response body its fields.
pub proof fn lemma_response_roundtrip(r: ResponseV, version: u8)
    requires
        response_enc_ok(r, version),
    ensures
        spec_dec_response(spec_enc_response(r, version), 0, version) == Some(
            (r, spec_enc_response(r, version).len() as int),
        ),
{
    let enc = spec_enc_response(r, version);
    assert(enc.subrange(0, enc.len() as int) =~= enc);
    lemma_dec_response_at(enc, 0, r, version);
}

/// Concatenated encodings of a sequence of response frames.
pub open spec fn spec_enc_responses(rs: Seq<ResponseV>, version: u8) -> Seq<u8>
    decreases rs.len(),
{
    if rs.len() == 0 {
        seq![]
    } else {
        spec_enc_response(rs[0], version) + spec_enc_responses(rs.drop_first(), version)
    }
}

/// Decode `n` response frames in sequence.
pub open spec fn spec_dec_responses(s: Seq<u8>, pos: int, n: nat, version: u8) -> Option<
    (Seq<ResponseV>, int),
>
    decreases n,
{
    if n == 0 {
        Some((seq![], pos))
    } else {
        match spec_dec_response(s, pos, version) {
            Some((r, p)) => match spec_dec_responses(s, p, (n - 1) as nat, version) {
                Some((rs, p2)) => Some((seq![r] + rs, p2)),
                None => None,
            },
            None => None,
        }
    }
}

/// A buffer holding the concatenation of N encoded frames decodes to
/// exactly those N responses, in order, each with its own stream id and
/// opcode.
#[verifier::rlimit(100)]
#[verifier::spinoff_prover]
pub proof fn lemma_frames_roundtrip(s: Seq<u8>, pos: int, rs: Seq<ResponseV>, version: u8)
    requires
        forall|i: int| 0 <= i < rs.len() ==> response_enc_ok(#[trigger] rs[i], version),
        bytes_at(s, pos, spec_enc_responses(rs, version)),
    ensures
        spec_dec_responses(s, pos, rs.len(), version) == Some(
            (rs, pos + spec_enc_responses(rs, version).len()),
        ),
    decreases rs.len(),
{
    if rs.len() == 0 {
        assert(Seq::<ResponseV>::empty() =~= rs);
    } else {
        let e0 = spec_enc_response(rs[0], version);
        let rest = rs.drop_first();
        lemma_at_split(s, pos, e0, spec_enc_responses(rest, version));
        lemma_dec_response_at(s, pos, rs[0], version);
        assert forall|i: int| 0 <= i < rest.len() implies response_enc_ok(
            #[trigger] rest[i],
            version,
        ) by {
            assert(rest[i] == rs[i + 1]);
        }
        lemma_frames_roundtrip(s, pos + e0.len(), rest, version);
        assert(seq![rs[0]] + rest =~= rs);
    }
}


// ---------------------------------------------------------------------------
// Requests
// ---------------------------------------------------------------------------

/// Statement parameters travel untyped: on the way back a parameter is an
/// opaque byte value holding the same value bytes.
pub open spec fn param_normal(v: ValueV, esz: CqlBytesSize) -> ValueV {
    if value_is_null(v) {
        ValueV::VScalar(ScalarV::VBlob(None))
    } else {
        ValueV::VScalar(ScalarV::VBlob(Some(spec_value_body(v, esz))))
    }
}

pub open spec fn params_normal(vs: Seq<ValueV>, esz: CqlBytesSize) -> Seq<ValueV> {
    vs.map_values(|v: ValueV| param_normal(v, esz))
}

pub open spec fn query_normal(q: QueryV, version: u8) -> QueryV {
    match q {
        QueryV::QPrepared(id, vs) => QueryV::QPrepared(id, params_normal(vs, spec_esz(version))),
        _ => q,
    }
}

pub open spec fn request_body_normal(b: RequestBodyV, version: u8) -> RequestBodyV {
    match b {
        RequestBodyV::RQuery(q, c, f) => RequestBodyV::RQuery(
            q,
            c,
            if version >= 2 {
                f
            } else {
                0
            },
        ),
        RequestBodyV::RExec(id, vs, c, f) => RequestBodyV::RExec(
            id,
            params_normal(vs, spec_esz(version)),
            c,
            if version >= 2 {
                f
            } else {
                0
            },
        ),
        RequestBodyV::RBatch(qs, t, c, f) => RequestBodyV::RBatch(
            qs.map_values(|q: QueryV| query_normal(q, version)),
            t,
            c,
            if version >= 3 {
                f
            } else {
                0
            },
        ),
        _ => b,
    }
}

/// Whether the flags byte of a request is carried by its protocol
/// revision (or zero, so that nothing is lost on the wire).
pub open spec fn request_flags_normal(r: RequestV) -> bool {
    match r.body {
        RequestBodyV::RQuery(_, _, f) => r.version >= 2 || f == 0,
        RequestBodyV::RExec(_, _, _, f) => r.version >= 2 || f == 0,
        RequestBodyV::RBatch(_, _, _, f) => r.version >= 3 || f == 0,
        _ => true,
    }
}

/// What a request looks like after one trip over the wire: identical but
/// for its statement parameters, which come back as opaque bytes.
pub open spec fn request_normal(r: RequestV) -> RequestV {
    RequestV { body: request_body_normal(r.body, r.version), ..r }
}

/// Whether the statement parameters of a request are already opaque byte
/// values; on such requests the wire round trip is the identity.
pub open spec fn request_params_opaque(r: RequestV) -> bool {
    match r.body {
        RequestBodyV::RExec(_, vs, _, _) => forall|i: int|
            0 <= i < vs.len() ==> (#[trigger] vs[i]) matches ValueV::VScalar(
                ScalarV::VBlob(_),
            ),
        RequestBodyV::RBatch(qs, _, _, _) => forall|i: int|
            0 <= i < qs.len() ==> (match #[trigger] qs[i] {
                QueryV::QPrepared(_, vs) => forall|j: int|
                    0 <= j < vs.len() ==> (#[trigger] vs[j]) matches ValueV::VScalar(
                        ScalarV::VBlob(_),
                    ),
                _ => true,
            }),
        _ => true,
    }
}

/// The encoding of any value is its value bytes under a 4-byte length
/// prefix, or the NULL prefix.
pub proof fn lemma_enc_value_shape(v: ValueV, esz: CqlBytesSize)
    ensures
        spec_enc_value(v, esz) == (if value_is_null(v) {
            spec_enc_null(CqlBytesSize::Cqli32)
        } else {
            spec_enc_lp_bytes(spec_value_body(v, esz), CqlBytesSize::Cqli32)
        }),
{
}

/// Encoded parameters standing at `pos` decode to their opaque images.
#[verifier::rlimit(100)]
#[verifier::spinoff_prover]
pub proof fn lemma_dec_params_at(s: Seq<u8>, pos: int, vs: Seq<ValueV>, esz: CqlBytesSize)
    requires
        forall|i: int| 0 <= i < vs.len() ==> value_enc_ok(#[trigger] vs[i], esz),
        bytes_at(s, pos, spec_enc_params(vs, esz)),
    ensures
        spec_dec_params(s, pos, vs.len()) == Some(
            (params_normal(vs, esz), pos + spec_enc_params(vs, esz).len()),
        ),
    decreases vs.len(),
{
    lemma_pow256_values();
    if vs.len() == 0 {
        assert(params_normal(vs, esz) =~= Seq::<ValueV>::empty());
    } else {
        let e0 = spec_enc_value(vs[0], esz);
        let rest = vs.drop_first();
        lemma_at_split(s, pos, e0, spec_enc_params(rest, esz));
        lemma_enc_value_shape(vs[0], esz);
        if value_is_null(vs[0]) {
            lemma_dec_null_at(s, pos, CqlBytesSize::Cqli32);
            lemma_be_bytes_len(to_unsigned(-1, 4), 4);
        } else {
            let body = spec_value_body(vs[0], esz);
            assert(body.len() <= prefix_max(CqlBytesSize::Cqli32));
            lemma_dec_lp_bytes_at(s, pos, body, CqlBytesSize::Cqli32);
            lemma_be_bytes_len(to_unsigned(body.len() as int, 4), 4);
        }
        assert forall|i: int| 0 <= i < rest.len() implies value_enc_ok(#[trigger] rest[i], esz) by {
            assert(rest[i] == vs[i + 1]);
        }
        lemma_dec_params_at(s, pos + e0.len(), rest, esz);
        assert(params_normal(rest, esz) =~= params_normal(vs, esz).drop_first());
        assert(seq![param_normal(vs[0], esz)] + params_normal(rest, esz) =~= params_normal(
            vs,
            esz,
        ));
    }
}

/// An encoded batch entry standing at `pos` decodes to its opaque image.
#[verifier::rlimit(100)]
#[verifier::spinoff_prover]
pub proof fn lemma_dec_query_at(s: Seq<u8>, pos: int, q: QueryV, version: u8)
    requires
        query_enc_ok(q, version),
        bytes_at(s, pos, spec_enc_query(q, version)),
    ensures
        spec_dec_query(s, pos, version) == Some(
            (query_normal(q, version), pos + spec_enc_query(q, version).len()),
        ),
{
    lemma_pow256_values();
    match q {
        QueryV::QStr(t) => {
            let kind_part: Seq<u8> = seq![0u8];
            let s_part = spec_enc_string(t, CqlBytesSize::Cqli32);
            let n_part = spec_be_bytes(0, 2);
            assert(spec_enc_query(q, version) =~= kind_part + (s_part + n_part));
            lemma_at_split(s, pos, kind_part, s_part + n_part);
            assert(s[pos] == 0u8) by {
                assert(s.subrange(pos, pos + 1) == kind_part);
                assert(s.subrange(pos, pos + 1)[0] == s[pos]);
            }
            lemma_at_split(s, pos + 1, s_part, n_part);
            lemma_dec_string_at(s, pos + 1, t, CqlBytesSize::Cqli32);
            lemma_be_bytes_len(to_unsigned(encode_utf8(t).len() as int, 4), 4);
            lemma_be_bytes_len(0, 2);
            lemma_dec_be_at(s, pos + 1 + s_part.len(), 0, 2);
        },
        QueryV::QPrepared(id, vs) => {
            let kind_part: Seq<u8> = seq![1u8];
            let id_part = spec_enc_lp_bytes(id, CqlBytesSize::Cqli16);
            let n_part = spec_be_bytes(vs.len(), 2);
            let ps_part = spec_enc_params(vs, spec_esz(version));
            assert(spec_enc_query(q, version) =~= kind_part + (id_part + (n_part + ps_part)));
            lemma_at_split(s, pos, kind_part, id_part + (n_part + ps_part));
            assert(s[pos] == 1u8) by {
                assert(s.subrange(pos, pos + 1) == kind_part);
                assert(s.subrange(pos, pos + 1)[0] == s[pos]);
            }
            lemma_at_split(s, pos + 1, id_part, n_part + ps_part);
            lemma_dec_lp_bytes_at(s, pos + 1, id, CqlBytesSize::Cqli16);
            lemma_be_bytes_len(to_unsigned(id.len() as int, 2), 2);
            let p0 = pos + 1 + id_part.len();
            lemma_at_split(s, p0, n_part, ps_part);
            lemma_be_bytes_len(vs.len(), 2);
            lemma_dec_be_at(s, p0, vs.len(), 2);
            lemma_dec_params_at(s, p0 + 2, vs, spec_esz(version));
        },
        QueryV::QNested => {},
    }
}

/// Encoded batch entries standing at `pos` decode to their opaque images.
pub proof fn lemma_dec_queries_at(s: Seq<u8>, pos: int, qs: Seq<QueryV>, version: u8)
    requires
        forall|i: int| 0 <= i < qs.len() ==> query_enc_ok(#[trigger] qs[i], version),
        bytes_at(s, pos, spec_enc_queries(qs, version)),
    ensures
        spec_dec_queries(s, pos, qs.len(), version) == Some(
            (
                qs.map_values(|q: QueryV| query_normal(q, version)),
                pos + spec_enc_queries(qs, version).len(),
            ),
        ),
    decreases qs.len(),
{
    if qs.len() == 0 {
        assert(qs.map_values(|q: QueryV| query_normal(q, version)) =~= Seq::<QueryV>::empty());
    } else {
        let e0 = spec_enc_query(qs[0], version);
        let rest = qs.drop_first();
        lemma_at_split(s, pos, e0, spec_enc_queries(rest, version));
        lemma_dec_query_at(s, pos, qs[0], version);
        assert forall|i: int| 0 <= i < rest.len() implies query_enc_ok(
            #[trigger] rest[i],
            version,
        ) by {
            assert(rest[i] == qs[i + 1]);
        }
        lemma_dec_queries_at(s, pos + e0.len(), rest, version);
        assert(rest.map_values(|q: QueryV| query_normal(q, version)) =~= qs.map_values(
            |q: QueryV| query_normal(q, version),
        ).drop_first());
        assert(seq![query_normal(qs[0], version)] + rest.map_values(
            |q: QueryV| query_normal(q, version),
        ) =~= qs.map_values(|q: QueryV| query_normal(q, version)));
    }
}

/// Encoded short strings standing at `pos` decode back to them.
pub proof fn lemma_dec_strings_at(s: Seq<u8>, pos: int, ts: Seq<Seq<char>>)
    requires
        forall|i: int| 0 <= i < ts.len() ==> string_enc_ok(#[trigger] ts[i], CqlBytesSize::Cqli16),
        bytes_at(s, pos, spec_enc_strings(ts)),
    ensures
        spec_dec_strings(s, pos, ts.len()) == Some(
            (ts, pos + spec_enc_strings(ts).len()),
        ),
    decreases ts.len(),
{
    if ts.len() == 0 {
        assert(Seq::<Seq<char>>::empty() =~= ts);
    } else {
        let e0 = spec_enc_string(ts[0], CqlBytesSize::Cqli16);
        let rest = ts.drop_first();
        lemma_at_split(s, pos, e0, spec_enc_strings(rest));
        lemma_dec_string_at(s, pos, ts[0], CqlBytesSize::Cqli16);
        lemma_be_bytes_len(to_unsigned(encode_utf8(ts[0]).len() as int, 2), 2);
        assert forall|i: int| 0 <= i < rest.len() implies string_enc_ok(
            #[trigger] rest[i],
            CqlBytesSize::Cqli16,
        ) by {
            assert(rest[i] == ts[i + 1]);
        }
        lemma_dec_strings_at(s, pos + e0.len(), rest);
        assert(seq![ts[0]] + rest =~= ts);
    }
}

/// Encoded string-map pairs standing at `pos` decode back to them.
pub proof fn lemma_dec_strmap_pairs_at(s: Seq<u8>, pos: int, ps: Seq<(Seq<char>, Seq<char>)>)
    requires
        forall|i: int|
            0 <= i < ps.len() ==> string_enc_ok((#[trigger] ps[i]).0, CqlBytesSize::Cqli16)
                && string_enc_ok(ps[i].1, CqlBytesSize::Cqli16),
        bytes_at(s, pos, spec_enc_strmap_pairs(ps)),
    ensures
        spec_dec_strmap_pairs(s, pos, ps.len()) == Some(
            (ps, pos + spec_enc_strmap_pairs(ps).len()),
        ),
    decreases ps.len(),
{
    if ps.len() == 0 {
        assert(Seq::<(Seq<char>, Seq<char>)>::empty() =~= ps);
    } else {
        let k0 = spec_enc_string(ps[0].0, CqlBytesSize::Cqli16);
        let v0 = spec_enc_string(ps[0].1, CqlBytesSize::Cqli16);
        let rest = ps.drop_first();
        assert(spec_enc_strmap_pairs(ps) =~= (k0 + v0) + spec_enc_strmap_pairs(rest));
        lemma_at_split(s, pos, k0 + v0, spec_enc_strmap_pairs(rest));
        lemma_at_split(s, pos, k0, v0);
        lemma_dec_string_at(s, pos, ps[0].0, CqlBytesSize::Cqli16);
        lemma_be_bytes_len(to_unsigned(encode_utf8(ps[0].0).len() as int, 2), 2);
        lemma_dec_string_at(s, pos + k0.len(), ps[0].1, CqlBytesSize::Cqli16);
        lemma_be_bytes_len(to_unsigned(encode_utf8(ps[0].1).len() as int, 2), 2);
        assert forall|i: int|
            0 <= i < rest.len() implies string_enc_ok((#[trigger] rest[i]).0, CqlBytesSize::Cqli16)
            && string_enc_ok(rest[i].1, CqlBytesSize::Cqli16) by {
            assert(rest[i] == ps[i + 1]);
        }
        lemma_dec_strmap_pairs_at(s, pos + k0.len() + v0.len(), rest);
        assert(seq![ps[0]] + rest =~= ps);
    }
}


/// An encoded request body decodes to its opaque image.
#[verifier::rlimit(100)]
#[verifier::spinoff_prover]
pub proof fn lemma_dec_request_body_of_enc(b: RequestBodyV, version: u8)
    requires
        request_body_enc_ok(b, version),
    ensures
        spec_dec_request_body(
            opcode_of_request_body(b)->0,
            spec_enc_request_body(b, version),
            version,
        ) == Some(request_body_normal(b, version)),
{
    lemma_pow256_values();
    let body = spec_enc_request_body(b, version);
    assert(body.subrange(0, body.len() as int) =~= body);
    match b {
        RequestBodyV::RStartup(m) => {
            let n_part = spec_be_bytes(m.len(), 2);
            assert(body =~= n_part + spec_enc_strmap_pairs(m));
            lemma_at_split(body, 0, n_part, spec_enc_strmap_pairs(m));
            lemma_be_bytes_len(m.len(), 2);
            lemma_dec_be_at(body, 0, m.len(), 2);
            lemma_dec_strmap_pairs_at(body, 2, m);
        },
        RequestBodyV::RCred(_) => {},
        RequestBodyV::RQuery(q, c, f) => {
            let q_part = spec_enc_string(q, CqlBytesSize::Cqli32);
            let c_part = spec_be_bytes(spec_consistency_value(c) as nat, 2);
            let f_part: Seq<u8> = if version >= 2 {
                seq![f]
            } else {
                seq![]
            };
            assert(body =~= q_part + (c_part + f_part));
            lemma_at_split(body, 0, q_part, c_part + f_part);
            lemma_dec_string_at(body, 0, q, CqlBytesSize::Cqli32);
            lemma_be_bytes_len(to_unsigned(encode_utf8(q).len() as int, 4), 4);
            let p0 = q_part.len() as int;
            lemma_at_split(body, p0, c_part, f_part);
            lemma_be_bytes_len(spec_consistency_value(c) as nat, 2);
            lemma_dec_be_at(body, p0, spec_consistency_value(c) as nat, 2);
            if version >= 2 {
                assert(body[p0 + 2] == f) by {
                    assert(body.subrange(p0 + 2, p0 + 3) == f_part);
                    assert(body.subrange(p0 + 2, p0 + 3)[0] == body[p0 + 2]);
                }
            }
            assert(((spec_consistency_value(c) as nat) as u16) == spec_consistency_value(c));
            assert(spec_consistency_from(spec_consistency_value(c)) == c);
        },
        RequestBodyV::RPrepare(q) => {
            lemma_dec_string_at(body, 0, q, CqlBytesSize::Cqli32);
        },
        RequestBodyV::RExec(id, vs, c, f) => {
            lemma_dec_exec_body(b, version);
        },
        RequestBodyV::RBatch(qs, t, c, f) => {
            lemma_dec_batch_body(b, version);
        },
        RequestBodyV::ROptions => {},
        RequestBodyV::RAuthResponse(t) => {
            lemma_dec_lp_bytes_at(body, 0, t, CqlBytesSize::Cqli32);
        },
        RequestBodyV::RRegister(es) => {
            let n_part = spec_be_bytes(es.len(), 2);
            assert(body =~= n_part + spec_enc_strings(es));
            lemma_at_split(body, 0, n_part, spec_enc_strings(es));
            lemma_be_bytes_len(es.len(), 2);
            lemma_dec_be_at(body, 0, es.len(), 2);
            lemma_dec_strings_at(body, 2, es);
        },
    }
}

/// An encoded EXECUTE body decodes to its opaque image (v2 and later).
#[verifier::rlimit(100)]
#[verifier::spinoff_prover]
proof fn lemma_dec_exec_body_v2(b: RequestBodyV, version: u8)
    requires
        request_body_enc_ok(b, version),
        b is RExec,
        version >= 2,
    ensures
        spec_dec_request_body(
            OpcodeRequest::OpcodeExecute,
            spec_enc_request_body(b, version),
            version,
        ) == Some(request_body_normal(b, version)),
{
    lemma_pow256_values();
    let body = spec_enc_request_body(b, version);
    assert(body.subrange(0, body.len() as int) =~= body);
    match b {
        RequestBodyV::RExec(id, vs, c, f) => {
            let id_part = spec_enc_lp_bytes(id, CqlBytesSize::Cqli16);
            let c_part = spec_be_bytes(spec_consistency_value(c) as nat, 2);
            let n_part = spec_be_bytes(vs.len(), 2);
            let ps_part = spec_enc_params(vs, spec_esz(version));
            lemma_be_bytes_len(to_unsigned(id.len() as int, 2), 2);
            lemma_be_bytes_len(spec_consistency_value(c) as nat, 2);
            lemma_be_bytes_len(vs.len(), 2);

                assert(body =~= id_part + (c_part + (seq![f] + (n_part + ps_part))));
                lemma_at_split(body, 0, id_part, c_part + (seq![f] + (n_part + ps_part)));
                lemma_dec_lp_bytes_at(body, 0, id, CqlBytesSize::Cqli16);
                let p0 = id_part.len() as int;
                lemma_at_split(body, p0, c_part, seq![f] + (n_part + ps_part));
                lemma_dec_be_at(body, p0, spec_consistency_value(c) as nat, 2);
                let p1 = p0 + 2;
                lemma_at_split(body, p1, seq![f], n_part + ps_part);
                assert(body[p1] == f) by {
                    assert(body.subrange(p1, p1 + 1) == seq![f]);
                    assert(body.subrange(p1, p1 + 1)[0] == body[p1]);
                }
                lemma_at_split(body, p1 + 1, n_part, ps_part);
                lemma_dec_be_at(body, p1 + 1, vs.len(), 2);
                lemma_dec_params_at(body, p1 + 3, vs, spec_esz(version));

            assert(((spec_consistency_value(c) as nat) as u16) == spec_consistency_value(c));
            assert(spec_consistency_from(spec_consistency_value(c)) == c);
        },
        _ => {},
    }
}

/// An encoded EXECUTE body decodes to its opaque image (v1).
#[verifier::rlimit(100)]
#[verifier::spinoff_prover]
proof fn lemma_dec_exec_body_v1(b: RequestBodyV, version: u8)
    requires
        request_body_enc_ok(b, version),
        b is RExec,
        version < 2,
    ensures
        spec_dec_request_body(
            OpcodeRequest::OpcodeExecute,
            spec_enc_request_body(b, version),
            version,
        ) == Some(request_body_normal(b, version)),
{
    lemma_pow256_values();
    let body = spec_enc_request_body(b, version);
    assert(body.subrange(0, body.len() as int) =~= body);
    match b {
        RequestBodyV::RExec(id, vs, c, f) => {
            let id_part = spec_enc_lp_bytes(id, CqlBytesSize::Cqli16);
            let c_part = spec_be_bytes(spec_consistency_value(c) as nat, 2);
            let n_part = spec_be_bytes(vs.len(), 2);
            let ps_part = spec_enc_params(vs, spec_esz(version));
            lemma_be_bytes_len(to_unsigned(id.len() as int, 2), 2);
            lemma_be_bytes_len(spec_consistency_value(c) as nat, 2);
            lemma_be_bytes_len(vs.len(), 2);

                assert(body =~= id_part + (n_part + (ps_part + c_part)));
                lemma_at_split(body, 0, id_part, n_part + (ps_part + c_part));
                lemma_dec_lp_bytes_at(body, 0, id, CqlBytesSize::Cqli16);
                let p0 = id_part.len() as int;
                lemma_at_split(body, p0, n_part, ps_part + c_part);
                lemma_dec_be_at(body, p0, vs.len(), 2);
                let p1 = p0 + 2;
                lemma_at_split(body, p1, ps_part, c_part);
                lemma_dec_params_at(body, p1, vs, spec_esz(version));
                lemma_dec_be_at(body, p1 + ps_part.len(), spec_consistency_value(c) as nat, 2);
            assert(((spec_consistency_value(c) as nat) as u16) == spec_consistency_value(c));
            assert(spec_consistency_from(spec_consistency_value(c)) == c);
        },
        _ => {},
    }
}

/// An encoded EXECUTE body decodes to its opaque image.
proof fn lemma_dec_exec_body(b: RequestBodyV, version: u8)
    requires
        request_body_enc_ok(b, version),
        b is RExec,
    ensures
        spec_dec_request_body(
            OpcodeRequest::OpcodeExecute,
            spec_enc_request_body(b, version),
            version,
        ) == Some(request_body_normal(b, version)),
{
    if version >= 2 {
        lemma_dec_exec_body_v2(b, version);
    } else {
        lemma_dec_exec_body_v1(b, version);
    }
}

/// An encoded BATCH body decodes to its opaque image.
#[verifier::rlimit(100)]
#[verifier::spinoff_prover]
proof fn lemma_dec_batch_body(b: RequestBodyV, version: u8)
    requires
        request_body_enc_ok(b, version),
        b is RBatch,
    ensures
        spec_dec_request_body(
            OpcodeRequest::OpcodeBatch,
            spec_enc_request_body(b, version),
            version,
        ) == Some(request_body_normal(b, version)),
{
    lemma_pow256_values();
    let body = spec_enc_request_body(b, version);
    assert(body.subrange(0, body.len() as int) =~= body);
    match b {
        RequestBodyV::RBatch(qs, t, c, f) => {
            let t_part: Seq<u8> = seq![spec_batch_type_value(t)];
            let n_part = spec_be_bytes(qs.len(), 2);
            let qs_part = spec_enc_queries(qs, version);
            let c_part = spec_be_bytes(spec_consistency_value(c) as nat, 2);
            let f_part: Seq<u8> = if version >= 3 {
                seq![f]
            } else {
                seq![]
            };
            lemma_be_bytes_len(qs.len(), 2);
            lemma_be_bytes_len(spec_consistency_value(c) as nat, 2);
            assert(body =~= t_part + (n_part + (qs_part + (c_part + f_part))));
            lemma_at_split(body, 0, t_part, n_part + (qs_part + (c_part + f_part)));
            assert(body[0] == spec_batch_type_value(t)) by {
                assert(body.subrange(0, 1) == t_part);
                assert(body.subrange(0, 1)[0] == body[0]);
            }
            assert(spec_batch_type_from(spec_batch_type_value(t)) == Some(t));
            lemma_at_split(body, 1, n_part, qs_part + (c_part + f_part));
            lemma_dec_be_at(body, 1, qs.len(), 2);
            lemma_at_split(body, 3, qs_part, c_part + f_part);
            lemma_dec_queries_at(body, 3, qs, version);
            let p0 = 3 + qs_part.len() as int;
            lemma_at_split(body, p0, c_part, f_part);
            lemma_dec_be_at(body, p0, spec_consistency_value(c) as nat, 2);
            if version >= 3 {
                assert(body[p0 + 2] == f) by {
                    assert(body.subrange(p0 + 2, p0 + 3) == f_part);
                    assert(body.subrange(p0 + 2, p0 + 3)[0] == body[p0 + 2]);
                }
            }
            assert(((spec_consistency_value(c) as nat) as u16) == spec_consistency_value(c));
            assert(spec_consistency_from(spec_consistency_value(c)) == c);
        },
        _ => {},
    }
}

/// Decoding the encoding of a request yields that request with its
/// statement parameters in their opaque wire form, for every request
/// opcode and protocol revision.
#[verifier::rlimit(100)]
#[verifier::spinoff_prover]
pub proof fn lemma_request_roundtrip(r: RequestV)
    requires
        request_enc_ok(r),
    ensures
        spec_dec_request(spec_enc_request(r), r.version) == Some(request_normal(r)),
{
    lemma_pow256_values();
    let s = spec_enc_request(r);
    assert(s.subrange(0, s.len() as int) =~= s);
    let body = spec_enc_request_body(r.body, r.version);
    let hdr = spec_enc_header(
        r.version,
        r.flags,
        r.stream,
        spec_opcode_request_value(r.opcode),
        r.version,
    );
    let len_part = spec_be_bytes(body.len(), 4);
    assert(s =~= hdr + (len_part + body));
    lemma_at_split(s, 0, hdr, len_part + body);
    assert(hdr.len() == spec_header_len(r.version)) by {
        if r.version >= 3 {
            lemma_be_bytes_len(to_unsigned(r.stream as int, 2), 2);
        } else {
            lemma_be_bytes_len(to_unsigned(r.stream as int, 1), 1);
        }
    }
    lemma_dec_header_at(
        s,
        0,
        r.version,
        r.flags,
        r.stream,
        spec_opcode_request_value(r.opcode),
        r.version,
    );
    let p0 = hdr.len() as int;
    lemma_at_split(s, p0, len_part, body);
    lemma_be_bytes_len(body.len(), 4);
    lemma_dec_be_at(s, p0, body.len(), 4);
    let p1 = p0 + 4;
    assert(s.subrange(p1, p1 + body.len()) == body);
    lemma_dec_request_body_of_enc(r.body, r.version);
    assert(spec_opcode_request_from(spec_opcode_request_value(r.opcode)) == Some(r.opcode));
}

/// On a request whose statement parameters are already opaque byte values,
/// the wire round trip is the identity: `decode(encode(req)) == req`.
pub proof fn lemma_request_roundtrip_exact(r: RequestV)
    requires
        request_enc_ok(r),
        request_params_opaque(r),
        request_flags_normal(r),
    ensures
        spec_dec_request(spec_enc_request(r), r.version) == Some(r),
{
    lemma_request_roundtrip(r);
    lemma_normal_of_opaque(r);
}

/// Normalization is the identity on requests with opaque parameters.
#[verifier::rlimit(100)]
#[verifier::spinoff_prover]
pub proof fn lemma_normal_of_opaque(r: RequestV)
    requires
        request_params_opaque(r),
        request_flags_normal(r),
    ensures
        request_normal(r) == r,
{
    match r.body {
        RequestBodyV::RExec(id, vs, c, f) => {
            assert(params_normal(vs, spec_esz(r.version)) =~= vs) by {
                assert forall|i: int|
                    0 <= i < vs.len() implies params_normal(vs, spec_esz(r.version))[i]
                    == vs[i] by {
                    assert(vs[i] matches ValueV::VScalar(ScalarV::VBlob(_)));
                }
            }
        },
        RequestBodyV::RBatch(qs, t, c, f) => {
            assert(qs.map_values(|q: QueryV| query_normal(q, r.version)) =~= qs) by {
                assert forall|i: int|
                    0 <= i < qs.len() implies qs.map_values(
                    |q: QueryV| query_normal(q, r.version),
                )[i] == qs[i] by {
                    match qs[i] {
                        QueryV::QPrepared(id, vs) => {
                            assert(params_normal(vs, spec_esz(r.version)) =~= vs) by {
                                assert forall|j: int|
                                    0 <= j < vs.len() implies params_normal(
                                    vs,
                                    spec_esz(r.version),
                                )[j] == vs[j] by {
                                    assert(vs[j] matches ValueV::VScalar(ScalarV::VBlob(_)));
                                }
                            }
                        },
                        _ => {},
                    }
                }
            }
        },
        _ => {},
    }
}

} // verus!
