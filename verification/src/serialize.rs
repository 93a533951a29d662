//! The executable encoder: serialization of values, metadata, requests and
//! responses into a byte buffer, verified against the spec encoders of
//! `format`.
//!
//! Internal writers may leave partial bytes behind when they fail; the
//! public frame serializers build the body in a scratch buffer first, so a
//! failed call leaves the caller's buffer untouched.

use vstd::prelude::*;
use crate::def::CqlBytesSize;
use crate::def::CqlColMetadata;
use crate::def::CqlEvent;
use crate::def::CqlMetadata;
use crate::def::CqlPair;
use crate::def::CqlPreparedStat;
use crate::def::CqlRequest;
use crate::def::CqlRequestBody;
use crate::def::CqlResponse;
use crate::def::CqlResponseBody;
use crate::def::CqlRow;
use crate::def::CqlRows;
use crate::def::CqlStringMap;
use crate::def::CqlValue;
use crate::def::CqlValueType;
use crate::def::IpAddress;
use crate::def::Pair;
use crate::def::Query;
use crate::def::SchemaChangeOptions;
use crate::def::batch_type_value;
use crate::def::consistency_value;
use crate::def::column_type_value;
use crate::def::opcode_request_value;
use crate::def::opcode_response_value;
use crate::error::RCError;
use crate::error::RCErrorType;
use crate::error::RCResult;
use crate::format::ColSpecV;
use crate::format::ScalarV;
use crate::format::ValueV;
use crate::format::col_view;
use crate::format::event_view;
use crate::format::metadata_view;
use crate::format::pairs_view;
use crate::format::prefix_max;
use crate::format::prepared_view;
use crate::format::request_view;
use crate::format::response_view;
use crate::format::row_view;
use crate::format::rows_view;
use crate::format::scalar_enc_ok;
use crate::format::scalar_view;
use crate::format::scalars_view;
use crate::format::spec_enc_lp_bytes;
use crate::format::spec_enc_null;
use crate::format::spec_enc_string;
use crate::format::spec_len_prefix;
use crate::format::string_enc_ok;
use crate::format::to_unsigned;
use crate::format::value_view;
use crate::format::value_enc_ok;
use crate::format::spec_enc_scalar;
use crate::format::spec_enc_elems;
use crate::format::spec_enc_entries;
use crate::format::spec_enc_value;
use crate::format::spec_value_body;
use crate::format::spec_esz;
use vstd::slice::slice_subrange;
use crate::format::scalar_matches;
use crate::format::value_matches_col;
use crate::format::col_enc_ok;
use crate::format::spec_enc_col;
use crate::format::spec_enc_cols;
use crate::format::spec_enc_metadata;
use crate::format::metadata_enc_ok;
use crate::format::metadata_global;
use crate::format::row_enc_ok;
use crate::format::rows_enc_ok;
use crate::format::spec_enc_row;
use crate::format::spec_enc_rows;
use crate::format::spec_enc_rows_seq;
use crate::reader::cols_view;
use crate::reader::single_type;
use crate::def::TopologyChangeType;
use crate::def::StatusChangeType;
use crate::def::SchemaChangeType;
use crate::format::event_enc_ok;
use crate::format::spec_enc_event;
use crate::format::spec_enc_inet;
use crate::format::strmap_enc_ok;
use crate::format::spec_enc_strmap;
use crate::format::spec_enc_strmap_pairs;
use crate::format::prepared_enc_ok;
use crate::format::spec_enc_prepared;
use crate::def::Consistency;
use crate::def::BatchType;
use crate::def::OpcodeRequest;
use crate::def::OpcodeResponse;
use crate::def::spec_batch_type_value;
use crate::format::QueryV;
use crate::format::query_view;
use crate::format::query_enc_ok;
use crate::format::spec_enc_query;
use crate::format::spec_enc_queries;
use crate::format::spec_enc_params;
use crate::format::spec_enc_strings;
use crate::format::request_body_view;
use crate::format::request_body_enc_ok;
use crate::format::spec_enc_request_body;
use crate::format::request_enc_ok;
use crate::format::spec_enc_request;
use crate::format::response_body_view;
use crate::format::response_body_enc_ok;
use crate::format::spec_enc_response_body;
use crate::format::response_enc_ok;
use crate::format::spec_enc_response;
use crate::wire::lemma_pow256_values;
use crate::wire::pow256;
use crate::wire::spec_be_bytes;
use crate::wire::write_be;

verus! {

/// Append a non-negative length prefix.
pub fn write_prefix(buf: &mut Vec<u8>, n: usize, sz: CqlBytesSize)
    requires
        n <= prefix_max(sz),
    ensures
        final(buf)@ == old(buf)@ + spec_len_prefix(n as int, sz),
{
    proof {
        lemma_pow256_values();
    }
    let w: usize = match sz {
        CqlBytesSize::Cqli32 => 4,
        CqlBytesSize::Cqli16 => 2,
        CqlBytesSize::Cqli8 => 1,
    };
    write_be(buf, n as u64, w);
}

/// Append the NULL length prefix (-1).
pub fn write_null(buf: &mut Vec<u8>, sz: CqlBytesSize)
    ensures
        final(buf)@ == old(buf)@ + spec_enc_null(sz),
{
    proof {
        lemma_pow256_values();
    }
    match sz {
        CqlBytesSize::Cqli32 => write_be(buf, 0xFFFF_FFFFu64, 4),
        CqlBytesSize::Cqli16 => write_be(buf, 0xFFFFu64, 2),
        CqlBytesSize::Cqli8 => write_be(buf, 0xFFu64, 1),
    }
}

/// Append the `w`-byte two's-complement image of `v`.
pub fn write_signed(buf: &mut Vec<u8>, v: i64, w: usize)
    requires
        w == 1 || w == 2 || w == 4 || w == 8,
        -pow256(w as nat) / 2 <= (v as int) && (v as int) < pow256(w as nat) / 2,
    ensures
        final(buf)@ == old(buf)@ + spec_be_bytes(to_unsigned(v as int, w as nat), w as nat),
{
    proof {
        lemma_pow256_values();
    }
    let u: u64 = if v >= 0 {
        v as u64
    } else if w == 8 {
        ((v as i128) + 0x1_0000_0000_0000_0000i128) as u64
    } else if w == 4 {
        ((v as i128) + 0x1_0000_0000i128) as u64
    } else if w == 2 {
        ((v as i128) + 0x1_0000i128) as u64
    } else {
        ((v as i128) + 0x100i128) as u64
    };
    write_be(buf, u, w);
}

/// Append `b` under a length prefix; fails when `b` is longer than the
/// prefix can say.
pub fn write_lp_bytes(buf: &mut Vec<u8>, b: &[u8], sz: CqlBytesSize) -> (r: RCResult<()>)
    ensures
        r is Ok <==> b@.len() <= prefix_max(sz),
        r is Ok ==> final(buf)@ == old(buf)@ + spec_enc_lp_bytes(b@, sz),
        r is Err ==> final(buf)@ == old(buf)@ && (r->Err_0.kind == RCErrorType::SerializeError),
{
    let max: usize = match sz {
        CqlBytesSize::Cqli32 => 0x7FFF_FFFF,
        CqlBytesSize::Cqli16 => 0x7FFF,
        CqlBytesSize::Cqli8 => 0x7F,
    };
    if b.len() > max {
        return Err(RCError::new("Value too long for its length prefix", RCErrorType::SerializeError));
    }
    write_prefix(buf, b.len(), sz);
    let ghost mid = buf@;
    buf.extend_from_slice(b);
    proof {
        assert(buf@ =~= mid + b@);
        assert(buf@ =~= old(buf)@ + spec_enc_lp_bytes(b@, sz));
    }
    Ok(())
}

/// Append a string under a length prefix; fails when its UTF-8 image is
/// longer than the prefix can say.
pub fn write_string(buf: &mut Vec<u8>, s: &str, sz: CqlBytesSize) -> (r: RCResult<()>)
    ensures
        r is Ok <==> string_enc_ok(s@, sz),
        r is Ok ==> final(buf)@ == old(buf)@ + spec_enc_string(s@, sz),
        r is Err ==> final(buf)@ == old(buf)@ && (r->Err_0.kind == RCErrorType::SerializeError),
{
    write_lp_bytes(buf, s.as_bytes(), sz)
}


/// Append the element encodings of a collection, front to back.
fn write_elems(buf: &mut Vec<u8>, es: &[CqlValue], esz: CqlBytesSize) -> (r: RCResult<()>)
    ensures
        r is Ok <==> (forall|i: int|
            0 <= i < es@.len() ==> scalar_enc_ok(scalar_view(#[trigger] es@[i]), esz)),
        r is Ok ==> final(buf)@ == old(buf)@ + spec_enc_elems(scalars_view(es@), esz),
    decreases es@.len(),
{
    if es.len() == 0 {
        proof {
            assert(scalars_view(es@) =~= Seq::<ScalarV>::empty());
        }
        Ok(())
    } else {
        let head = &es[0];
        match head.serialize_scalar(buf, esz) {
            Ok(_) => {},
            Err(e) => {
                return Err(e);
            },
        }
        let rest = slice_subrange(es, 1, es.len());
        proof {
            assert(scalars_view(rest@) =~= scalars_view(es@).drop_first());
            assert(scalars_view(es@)[0] == scalar_view(es@[0]));
        }
        match write_elems(buf, rest, esz) {
            Ok(_) => {
                proof {
                    assert forall|i: int|
                        0 <= i < es@.len() implies scalar_enc_ok(
                        scalar_view(#[trigger] es@[i]),
                        esz,
                    ) by {
                        if i > 0 {
                            assert(rest@[i - 1] == es@[i]);
                        }
                    }
                    assert(final(buf)@ == old(buf)@ + spec_enc_elems(scalars_view(es@), esz));
                }
                Ok(())
            },
            Err(e) => {
                proof {
                    if forall|i: int|
                        0 <= i < es@.len() ==> scalar_enc_ok(scalar_view(#[trigger] es@[i]), esz) {
                        assert forall|j: int|
                            0 <= j < rest@.len() implies scalar_enc_ok(
                            scalar_view(#[trigger] rest@[j]),
                            esz,
                        ) by {
                            assert(rest@[j] == es@[j + 1]);
                        }
                    }
                }
                Err(e)
            },
        }
    }
}

/// Append the entry encodings of a map, front to back.
fn write_entries(buf: &mut Vec<u8>, ps: &[Pair<CqlValue, CqlValue>], esz: CqlBytesSize) -> (r:
    RCResult<()>)
    ensures
        r is Ok <==> (forall|i: int|
            0 <= i < ps@.len() ==> scalar_enc_ok(scalar_view((#[trigger] ps@[i]).key), esz)
                && scalar_enc_ok(scalar_view(ps@[i].value), esz)),
        r is Ok ==> final(buf)@ == old(buf)@ + spec_enc_entries(pairs_view(ps@), esz),
    decreases ps@.len(),
{
    if ps.len() == 0 {
        proof {
            assert(pairs_view(ps@) =~= Seq::<(ScalarV, ScalarV)>::empty());
        }
        Ok(())
    } else {
        let head = &ps[0];
        match head.key.serialize_scalar(buf, esz) {
            Ok(_) => {},
            Err(e) => {
                return Err(e);
            },
        }
        match head.value.serialize_scalar(buf, esz) {
            Ok(_) => {},
            Err(e) => {
                return Err(e);
            },
        }
        let rest = slice_subrange(ps, 1, ps.len());
        proof {
            assert(pairs_view(rest@) =~= pairs_view(ps@).drop_first());
            assert(pairs_view(ps@)[0] == (scalar_view(ps@[0].key), scalar_view(ps@[0].value)));
        }
        match write_entries(buf, rest, esz) {
            Ok(_) => {
                proof {
                    assert forall|i: int|
                        0 <= i < ps@.len() implies scalar_enc_ok(
                        scalar_view((#[trigger] ps@[i]).key),
                        esz,
                    ) && scalar_enc_ok(scalar_view(ps@[i].value), esz) by {
                        if i > 0 {
                            assert(rest@[i - 1] == ps@[i]);
                        }
                    }
                    assert(final(buf)@ == old(buf)@ + spec_enc_entries(pairs_view(ps@), esz));
                }
                Ok(())
            },
            Err(e) => {
                proof {
                    if forall|i: int|
                        0 <= i < ps@.len() ==> scalar_enc_ok(
                            scalar_view((#[trigger] ps@[i]).key),
                            esz,
                        ) && scalar_enc_ok(scalar_view(ps@[i].value), esz) {
                        assert forall|j: int|
                            0 <= j < rest@.len() implies scalar_enc_ok(
                            scalar_view((#[trigger] rest@[j]).key),
                            esz,
                        ) && scalar_enc_ok(scalar_view(rest@[j].value), esz) by {
                            assert(rest@[j] == ps@[j + 1]);
                        }
                    }
                }
                Err(e)
            },
        }
    }
}

impl CqlValue {
    fn serialize_scalar_text(&self, buf: &mut Vec<u8>, bytes_size: CqlBytesSize) -> (r: RCResult<()>)
        requires
            self is CqlASCII || self is CqlText || self is CqlVarchar || self is CqlBlob,
        ensures
            r is Ok <==> scalar_enc_ok(scalar_view(*self), bytes_size),
            r is Ok ==> final(buf)@ == old(buf)@ + spec_enc_scalar(scalar_view(*self), bytes_size),
            r is Err ==> final(buf)@ == old(buf)@,
    {
        proof {
            lemma_pow256_values();
        }
        match self {
            CqlValue::CqlASCII(o) => match o {
                Some(s) => write_string(buf, s.as_str(), bytes_size),
                None => {
                    write_null(buf, bytes_size);
                    Ok(())
                },
            },
            CqlValue::CqlText(o) => match o {
                Some(s) => write_string(buf, s.as_str(), bytes_size),
                None => {
                    write_null(buf, bytes_size);
                    Ok(())
                },
            },
            CqlValue::CqlVarchar(o) => match o {
                Some(s) => write_string(buf, s.as_str(), bytes_size),
                None => {
                    write_null(buf, bytes_size);
                    Ok(())
                },
            },
            CqlValue::CqlBlob(o) => match o {
                Some(b) => write_lp_bytes(buf, b.as_slice(), bytes_size),
                None => {
                    write_null(buf, bytes_size);
                    Ok(())
                },
            },
            _ => Err(RCError::new("Unreachable value shape", RCErrorType::SerializeError)),
        }
    }

    fn serialize_scalar_num(&self, buf: &mut Vec<u8>, bytes_size: CqlBytesSize) -> (r: RCResult<()>)
        requires
            self is CqlBigInt || self is CqlCounter || self is CqlInt || self is CqlBoolean
                || self is CqlFloat || self is CqlDouble || self is CqlTimestamp,
        ensures
            r is Ok <==> scalar_enc_ok(scalar_view(*self), bytes_size),
            r is Ok ==> final(buf)@ == old(buf)@ + spec_enc_scalar(scalar_view(*self), bytes_size),
            r is Err ==> final(buf)@ == old(buf)@,
    {
        proof {
            lemma_pow256_values();
        }
        match self {
            CqlValue::CqlBigInt(o) => match o {
                Some(i) => {
                    write_prefix(buf, 8, bytes_size);
                    write_signed(buf, *i, 8);
                    proof {
                        crate::wire::lemma_be_bytes_len(to_unsigned(*i as int, 8), 8);
                        assert(buf@ =~= old(buf)@ + spec_enc_scalar(scalar_view(*self), bytes_size));
                    }
                    Ok(())
                },
                None => {
                    write_null(buf, bytes_size);
                    Ok(())
                },
            },
            CqlValue::CqlCounter(o) => match o {
                Some(i) => {
                    write_prefix(buf, 8, bytes_size);
                    write_signed(buf, *i, 8);
                    proof {
                        crate::wire::lemma_be_bytes_len(to_unsigned(*i as int, 8), 8);
                        assert(buf@ =~= old(buf)@ + spec_enc_scalar(scalar_view(*self), bytes_size));
                    }
                    Ok(())
                },
                None => {
                    write_null(buf, bytes_size);
                    Ok(())
                },
            },
            CqlValue::CqlInt(o) => match o {
                Some(i) => {
                    write_prefix(buf, 4, bytes_size);
                    write_signed(buf, *i as i64, 4);
                    proof {
                        crate::wire::lemma_be_bytes_len(to_unsigned(*i as int, 4), 4);
                        assert(buf@ =~= old(buf)@ + spec_enc_scalar(scalar_view(*self), bytes_size));
                    }
                    Ok(())
                },
                None => {
                    write_null(buf, bytes_size);
                    Ok(())
                },
            },
            CqlValue::CqlBoolean(o) => match o {
                Some(b) => {
                    write_prefix(buf, 1, bytes_size);
                    let ghost mid = buf@;
                    buf.push(if *b {
                        1u8
                    } else {
                        0u8
                    });
                    proof {
                        assert(buf@ =~= mid + seq![if *b { 1u8 } else { 0u8 }]);
                        assert(buf@ =~= old(buf)@ + spec_enc_scalar(scalar_view(*self), bytes_size));
                    }
                    Ok(())
                },
                None => {
                    write_null(buf, bytes_size);
                    Ok(())
                },
            },
            CqlValue::CqlFloat(o) => match o {
                Some(bits) => {
                    write_prefix(buf, 4, bytes_size);
                    write_be(buf, *bits as u64, 4);
                    proof {
                        crate::wire::lemma_be_bytes_len(*bits as nat, 4);
                        assert(buf@ =~= old(buf)@ + spec_enc_scalar(scalar_view(*self), bytes_size));
                    }
                    Ok(())
                },
                None => {
                    write_null(buf, bytes_size);
                    Ok(())
                },
            },
            CqlValue::CqlDouble(o) => match o {
                Some(bits) => {
                    write_prefix(buf, 8, bytes_size);
                    write_be(buf, *bits, 8);
                    proof {
                        crate::wire::lemma_be_bytes_len(*bits as nat, 8);
                        assert(buf@ =~= old(buf)@ + spec_enc_scalar(scalar_view(*self), bytes_size));
                    }
                    Ok(())
                },
                None => {
                    write_null(buf, bytes_size);
                    Ok(())
                },
            },
            CqlValue::CqlTimestamp(o) => match o {
                Some(u) => {
                    write_prefix(buf, 8, bytes_size);
                    write_be(buf, *u, 8);
                    proof {
                        crate::wire::lemma_be_bytes_len(*u as nat, 8);
                        assert(buf@ =~= old(buf)@ + spec_enc_scalar(scalar_view(*self), bytes_size));
                    }
                    Ok(())
                },
                None => {
                    write_null(buf, bytes_size);
                    Ok(())
                },
            },
            _ => Err(RCError::new("Unreachable value shape", RCErrorType::SerializeError)),
        }
    }

    fn serialize_scalar_rest(&self, buf: &mut Vec<u8>, bytes_size: CqlBytesSize) -> (r: RCResult<()>)
        requires
            !(self is CqlASCII || self is CqlText || self is CqlVarchar || self is CqlBlob
                || self is CqlBigInt || self is CqlCounter || self is CqlInt || self is CqlBoolean
                || self is CqlFloat || self is CqlDouble || self is CqlTimestamp),
        ensures
            r is Ok <==> scalar_enc_ok(scalar_view(*self), bytes_size),
            r is Ok ==> final(buf)@ == old(buf)@ + spec_enc_scalar(scalar_view(*self), bytes_size),
            r is Err ==> final(buf)@ == old(buf)@,
    {
        proof {
            lemma_pow256_values();
        }
        match self {
            CqlValue::CqlUuid(o) => match o {
                Some(b) => {
                    if b.len() != 16 {
                        return Err(
                            RCError::new("Uuid must hold 16 bytes", RCErrorType::SerializeError),
                        );
                    }
                    write_lp_bytes(buf, b.as_slice(), bytes_size)
                },
                None => {
                    write_null(buf, bytes_size);
                    Ok(())
                },
            },
            CqlValue::CqlTimeUuid(o) => match o {
                Some(b) => {
                    if b.len() != 16 {
                        return Err(
                            RCError::new("TimeUuid must hold 16 bytes", RCErrorType::SerializeError),
                        );
                    }
                    write_lp_bytes(buf, b.as_slice(), bytes_size)
                },
                None => {
                    write_null(buf, bytes_size);
                    Ok(())
                },
            },
            CqlValue::CqlInet(o) => match o {
                Some(ip) => {
                    match ip {
                        IpAddress::Ipv4(a, b, c, d) => {
                            write_prefix(buf, 4, bytes_size);
                            let ghost mid = buf@;
                            buf.push(*a);
                            buf.push(*b);
                            buf.push(*c);
                            buf.push(*d);
                            proof {
                                assert(buf@ =~= mid + seq![*a, *b, *c, *d]);
                                assert(buf@ =~= old(buf)@ + spec_enc_scalar(
                                    scalar_view(*self),
                                    bytes_size,
                                ));
                            }
                            Ok(())
                        },
                        IpAddress::Ipv6(s0, s1, s2, s3, s4, s5, s6, s7) => {
                            write_prefix(buf, 16, bytes_size);
                            write_be(buf, *s0 as u64, 2);
                            write_be(buf, *s1 as u64, 2);
                            write_be(buf, *s2 as u64, 2);
                            write_be(buf, *s3 as u64, 2);
                            write_be(buf, *s4 as u64, 2);
                            write_be(buf, *s5 as u64, 2);
                            write_be(buf, *s6 as u64, 2);
                            write_be(buf, *s7 as u64, 2);
                            proof {
                                crate::wire::lemma_be_bytes_len(*s0 as nat, 2);
                                crate::wire::lemma_be_bytes_len(*s1 as nat, 2);
                                crate::wire::lemma_be_bytes_len(*s2 as nat, 2);
                                crate::wire::lemma_be_bytes_len(*s3 as nat, 2);
                                crate::wire::lemma_be_bytes_len(*s4 as nat, 2);
                                crate::wire::lemma_be_bytes_len(*s5 as nat, 2);
                                crate::wire::lemma_be_bytes_len(*s6 as nat, 2);
                                crate::wire::lemma_be_bytes_len(*s7 as nat, 2);
                                assert(buf@ =~= old(buf)@ + spec_enc_scalar(
                                    scalar_view(*self),
                                    bytes_size,
                                ));
                            }
                            Ok(())
                        },
                    }
                },
                None => {
                    write_null(buf, bytes_size);
                    Ok(())
                },
            },
            CqlValue::CqlList(_) => Err(
                RCError::new("A collection is not a single value", RCErrorType::SerializeError),
            ),
            CqlValue::CqlSet(_) => Err(
                RCError::new("A collection is not a single value", RCErrorType::SerializeError),
            ),
            CqlValue::CqlMap(_) => Err(
                RCError::new("A collection is not a single value", RCErrorType::SerializeError),
            ),
            CqlValue::CqlDecimal(_) => Err(
                RCError::new("Decimal serialization not implemented", RCErrorType::SerializeError),
            ),
            CqlValue::CqlVarint(_) => Err(
                RCError::new("Varint serialization not implemented", RCErrorType::SerializeError),
            ),
            CqlValue::CqlUnknown => Err(
                RCError::new("Cannot serialize an unknown value", RCErrorType::SerializeError),
            ),
            _ => Err(RCError::new("Unreachable value shape", RCErrorType::SerializeError)),
        }
    }

    /// Append the encoding of a single (non-collection) value under a
    /// `bytes_size` length prefix.
    fn serialize_scalar(&self, buf: &mut Vec<u8>, bytes_size: CqlBytesSize) -> (r: RCResult<()>)
        ensures
            r is Ok <==> scalar_enc_ok(scalar_view(*self), bytes_size),
            r is Ok ==> final(buf)@ == old(buf)@ + spec_enc_scalar(scalar_view(*self), bytes_size),
            r is Err ==> final(buf)@ == old(buf)@,
    {
        match self {
            CqlValue::CqlASCII(_) => self.serialize_scalar_text(buf, bytes_size),
            CqlValue::CqlText(_) => self.serialize_scalar_text(buf, bytes_size),
            CqlValue::CqlVarchar(_) => self.serialize_scalar_text(buf, bytes_size),
            CqlValue::CqlBlob(_) => self.serialize_scalar_text(buf, bytes_size),
            CqlValue::CqlBigInt(_) => self.serialize_scalar_num(buf, bytes_size),
            CqlValue::CqlCounter(_) => self.serialize_scalar_num(buf, bytes_size),
            CqlValue::CqlInt(_) => self.serialize_scalar_num(buf, bytes_size),
            CqlValue::CqlBoolean(_) => self.serialize_scalar_num(buf, bytes_size),
            CqlValue::CqlFloat(_) => self.serialize_scalar_num(buf, bytes_size),
            CqlValue::CqlDouble(_) => self.serialize_scalar_num(buf, bytes_size),
            CqlValue::CqlTimestamp(_) => self.serialize_scalar_num(buf, bytes_size),
            _ => self.serialize_scalar_rest(buf, bytes_size),
        }
    }

    /// Append this value's encoding under a `bytes_size` length prefix. A
    /// collection must stand at top level (4-byte prefix); its count and
    /// elements use the element-prefix width of the protocol version.
    pub fn serialize_size(&self, buf: &mut Vec<u8>, bytes_size: CqlBytesSize, version: u8) -> (r:
        RCResult<()>)
        ensures
            (r is Ok <==> (match value_view(*self) {
                ValueV::VScalar(sv) => scalar_enc_ok(sv, bytes_size),
                _ => bytes_size == CqlBytesSize::Cqli32 && value_enc_ok(
                    value_view(*self),
                    spec_esz(version),
                ),
            })),
            r is Ok ==> final(buf)@ == old(buf)@ + (match value_view(*self) {
                ValueV::VScalar(sv) => spec_enc_scalar(sv, bytes_size),
                _ => spec_enc_value(value_view(*self), spec_esz(version)),
            }),
            r is Err ==> final(buf)@ == old(buf)@,
    {
        let collection = match self {
            CqlValue::CqlList(_) => true,
            CqlValue::CqlMap(_) => true,
            CqlValue::CqlSet(_) => true,
            _ => false,
        };
        if collection {
            self.serialize_collection(buf, bytes_size, version)
        } else {
            self.serialize_scalar(buf, bytes_size)
        }
    }

    /// Append the encoding of a collection value: its byte length at top
    /// level, then the element count and the elements.
    fn serialize_collection(&self, buf: &mut Vec<u8>, bytes_size: CqlBytesSize, version: u8) -> (r:
        RCResult<()>)
        requires
            self is CqlList || self is CqlSet || self is CqlMap,
        ensures
            (r is Ok <==> bytes_size == CqlBytesSize::Cqli32 && value_enc_ok(
                value_view(*self),
                spec_esz(version),
            )),
            r is Ok ==> final(buf)@ == old(buf)@ + spec_enc_value(
                value_view(*self),
                spec_esz(version),
            ),
            r is Err ==> final(buf)@ == old(buf)@,
    {
        proof {
            lemma_pow256_values();
        }
        let is32 = match bytes_size {
            CqlBytesSize::Cqli32 => true,
            _ => false,
        };
        if !is32 {
            return Err(
                RCError::new(
                    "A collection value takes a 4-byte length prefix",
                    RCErrorType::SerializeError,
                ),
            );
        }
        let esz = if version >= 3 {
            CqlBytesSize::Cqli32
        } else {
            CqlBytesSize::Cqli16
        };
        let cw: usize = if version >= 3 {
            4
        } else {
            2
        };
        let cmax: usize = if version >= 3 {
            0x7FFF_FFFF
        } else {
            0x7FFF
        };
        let mut body: Vec<u8> = Vec::new();
        match self {
            CqlValue::CqlList(o) => match o {
                Some(es) => {
                    if es.len() > cmax {
                        return Err(
                            RCError::new("Too many collection elements", RCErrorType::SerializeError),
                        );
                    }
                    write_be(&mut body, es.len() as u64, cw);
                    match write_elems(&mut body, es.as_slice(), esz) {
                        Ok(_) => {
                            proof {
                                assert forall|i: int|
                                    0 <= i < scalars_view(es@).len() implies scalar_enc_ok(
                                    #[trigger] scalars_view(es@)[i],
                                    esz,
                                ) by {
                                    assert(scalars_view(es@)[i] == scalar_view(es@[i]));
                                    assert(scalar_enc_ok(scalar_view(es@[i]), esz));
                                }
                            }
                        },
                        Err(e) => {
                            proof {
                                if forall|i: int|
                                    0 <= i < scalars_view(es@).len() ==> scalar_enc_ok(
                                        #[trigger] scalars_view(es@)[i],
                                        esz,
                                    ) {
                                    assert forall|i: int|
                                        0 <= i < es@.len() implies scalar_enc_ok(
                                        scalar_view(#[trigger] es@[i]),
                                        esz,
                                    ) by {
                                        assert(scalar_view(es@[i]) == scalars_view(es@)[i]);
                                    }
                                }
                            }
                            return Err(e);
                        },
                    }
                },
                None => {
                    write_null(buf, CqlBytesSize::Cqli32);
                    return Ok(());
                },
            },
            CqlValue::CqlSet(o) => match o {
                Some(es) => {
                    if es.len() > cmax {
                        return Err(
                            RCError::new("Too many collection elements", RCErrorType::SerializeError),
                        );
                    }
                    write_be(&mut body, es.len() as u64, cw);
                    match write_elems(&mut body, es.as_slice(), esz) {
                        Ok(_) => {
                            proof {
                                assert forall|i: int|
                                    0 <= i < scalars_view(es@).len() implies scalar_enc_ok(
                                    #[trigger] scalars_view(es@)[i],
                                    esz,
                                ) by {
                                    assert(scalars_view(es@)[i] == scalar_view(es@[i]));
                                    assert(scalar_enc_ok(scalar_view(es@[i]), esz));
                                }
                            }
                        },
                        Err(e) => {
                            proof {
                                if forall|i: int|
                                    0 <= i < scalars_view(es@).len() ==> scalar_enc_ok(
                                        #[trigger] scalars_view(es@)[i],
                                        esz,
                                    ) {
                                    assert forall|i: int|
                                        0 <= i < es@.len() implies scalar_enc_ok(
                                        scalar_view(#[trigger] es@[i]),
                                        esz,
                                    ) by {
                                        assert(scalar_view(es@[i]) == scalars_view(es@)[i]);
                                    }
                                }
                            }
                            return Err(e);
                        },
                    }
                },
                None => {
                    write_null(buf, CqlBytesSize::Cqli32);
                    return Ok(());
                },
            },
            CqlValue::CqlMap(o) => match o {
                Some(ps) => {
                    if ps.len() > cmax {
                        return Err(
                            RCError::new("Too many collection entries", RCErrorType::SerializeError),
                        );
                    }
                    write_be(&mut body, ps.len() as u64, cw);
                    match write_entries(&mut body, ps.as_slice(), esz) {
                        Ok(_) => {
                            proof {
                                assert forall|i: int|
                                    0 <= i < pairs_view(ps@).len() implies scalar_enc_ok(
                                    (#[trigger] pairs_view(ps@)[i]).0,
                                    esz,
                                ) && scalar_enc_ok(pairs_view(ps@)[i].1, esz) by {
                                    assert(pairs_view(ps@)[i] == (
                                        scalar_view(ps@[i].key),
                                        scalar_view(ps@[i].value),
                                    ));
                                    assert(scalar_enc_ok(scalar_view(ps@[i].key), esz)
                                        && scalar_enc_ok(scalar_view(ps@[i].value), esz));
                                }
                            }
                        },
                        Err(e) => {
                            proof {
                                if forall|i: int|
                                    0 <= i < pairs_view(ps@).len() ==> scalar_enc_ok(
                                        (#[trigger] pairs_view(ps@)[i]).0,
                                        esz,
                                    ) && scalar_enc_ok(pairs_view(ps@)[i].1, esz) {
                                    assert forall|i: int|
                                        0 <= i < ps@.len() implies scalar_enc_ok(
                                        scalar_view((#[trigger] ps@[i]).key),
                                        esz,
                                    ) && scalar_enc_ok(scalar_view(ps@[i].value), esz) by {
                                        assert(pairs_view(ps@)[i] == (
                                            scalar_view(ps@[i].key),
                                            scalar_view(ps@[i].value),
                                        ));
                                    }
                                }
                            }
                            return Err(e);
                        },
                    }
                },
                None => {
                    write_null(buf, CqlBytesSize::Cqli32);
                    return Ok(());
                },
            },
            _ => {
                return Err(RCError::new("Not a collection", RCErrorType::SerializeError));
            },
        }
        proof {
            assert(body@ == spec_value_body(value_view(*self), esz));
        }
        let r = write_lp_bytes(buf, body.as_slice(), CqlBytesSize::Cqli32);
        proof {
            if r is Ok {
                assert(final(buf)@ =~= old(buf)@ + spec_enc_value(value_view(*self), spec_esz(version)));
            }
        }
        r
    }

    /// Append this value's encoding at top level (4-byte length prefix).
    pub fn serialize(&self, buf: &mut Vec<u8>, version: u8) -> (r: RCResult<()>)
        ensures
            r is Ok <==> value_enc_ok(value_view(*self), spec_esz(version)),
            r is Ok ==> final(buf)@ == old(buf)@ + spec_enc_value(
                value_view(*self),
                spec_esz(version),
            ),
            r is Err ==> final(buf)@ == old(buf)@,
    {
        self.serialize_size(buf, CqlBytesSize::Cqli32, version)
    }
}


/// Exec counterpart of [`crate::format::scalar_matches`].
fn scalar_matches_value(ty: CqlValueType, v: &CqlValue) -> (r: bool)
    ensures
        r == scalar_matches(ty, scalar_view(*v)),
{
    match v {
        CqlValue::CqlASCII(_) => ty == CqlValueType::ColumnASCII,
        CqlValue::CqlBigInt(_) => ty == CqlValueType::ColumnBigInt,
        CqlValue::CqlBlob(_) => ty == CqlValueType::ColumnBlob,
        CqlValue::CqlBoolean(_) => ty == CqlValueType::ColumnBoolean,
        CqlValue::CqlCounter(_) => ty == CqlValueType::ColumnCounter,
        CqlValue::CqlDouble(_) => ty == CqlValueType::ColumnDouble,
        CqlValue::CqlFloat(_) => ty == CqlValueType::ColumnFloat,
        CqlValue::CqlInet(_) => ty == CqlValueType::ColumnInet,
        CqlValue::CqlInt(_) => ty == CqlValueType::ColumnInt,
        CqlValue::CqlText(_) => ty == CqlValueType::ColumnText,
        CqlValue::CqlTimestamp(_) => ty == CqlValueType::ColumnTimestamp,
        CqlValue::CqlUuid(_) => ty == CqlValueType::ColumnUuid,
        CqlValue::CqlTimeUuid(_) => ty == CqlValueType::ColumnTimeUuid,
        CqlValue::CqlVarchar(_) => ty == CqlValueType::ColumnVarChar,
        _ => false,
    }
}

/// Whether every element of `es` belongs to the element type `ty`.
fn elems_match(ty: CqlValueType, es: &[CqlValue]) -> (r: bool)
    ensures
        r == crate::format::elems_match_type(ty, scalars_view(es@)),
{
    let n = es.len();
    let mut i: usize = 0;
    while i < n
        invariant
            i <= n,
            n == es@.len(),
            forall|j: int| 0 <= j < i ==> scalar_matches(ty, scalar_view(#[trigger] es@[j])),
        decreases n - i,
    {
        if !scalar_matches_value(ty, &es[i]) {
            proof {
                assert(scalars_view(es@)[i as int] == scalar_view(es@[i as int]));
            }
            return false;
        }
        i = i + 1;
    }
    proof {
        assert forall|k: int|
            0 <= k < scalars_view(es@).len() implies scalar_matches(
            ty,
            #[trigger] scalars_view(es@)[k],
        ) by {
            assert(scalars_view(es@)[k] == scalar_view(es@[k]));
        }
    }
    true
}

/// Whether every entry of `ps` belongs to the key and value types.
fn entries_match(kt: CqlValueType, vt: CqlValueType, ps: &[Pair<CqlValue, CqlValue>]) -> (r: bool)
    ensures
        r == crate::format::entries_match_types(kt, vt, pairs_view(ps@)),
{
    let n = ps.len();
    let mut i: usize = 0;
    while i < n
        invariant
            i <= n,
            n == ps@.len(),
            forall|j: int|
                0 <= j < i ==> scalar_matches(kt, scalar_view((#[trigger] ps@[j]).key))
                    && scalar_matches(vt, scalar_view(ps@[j].value)),
        decreases n - i,
    {
        if !scalar_matches_value(kt, &ps[i].key) || !scalar_matches_value(vt, &ps[i].value) {
            proof {
                assert(pairs_view(ps@)[i as int] == (
                    scalar_view(ps@[i as int].key),
                    scalar_view(ps@[i as int].value),
                ));
            }
            return false;
        }
        i = i + 1;
    }
    proof {
        assert forall|k: int|
            0 <= k < pairs_view(ps@).len() implies scalar_matches(
            kt,
            (#[trigger] pairs_view(ps@)[k]).0,
        ) && scalar_matches(vt, pairs_view(ps@)[k].1) by {
            assert(pairs_view(ps@)[k] == (scalar_view(ps@[k].key), scalar_view(ps@[k].value)));
        }
    }
    true
}

/// Exec counterpart of [`crate::format::value_matches_col`].
pub fn value_matches(v: &CqlValue, c: &CqlColMetadata) -> (r: bool)
    ensures
        r == value_matches_col(value_view(*v), col_view(*c)),
{
    match c.col_type {
        CqlValueType::ColumnList => match v {
            CqlValue::CqlList(o) => match o {
                Some(es) => {
                    let m = elems_match(c.col_type_aux1, es.as_slice());
                    proof {
                        assert(value_view(*v) == ValueV::VList(Some(scalars_view(es@))));
                    }
                    m
                },
                None => true,
            },
            _ => false,
        },
        CqlValueType::ColumnSet => match v {
            CqlValue::CqlSet(o) => match o {
                Some(es) => {
                    let m = elems_match(c.col_type_aux1, es.as_slice());
                    proof {
                        assert(value_view(*v) == ValueV::VSet(Some(scalars_view(es@))));
                    }
                    m
                },
                None => true,
            },
            _ => false,
        },
        CqlValueType::ColumnMap => match v {
            CqlValue::CqlMap(o) => match o {
                Some(ps) => {
                    let m = entries_match(c.col_type_aux1, c.col_type_aux2, ps.as_slice());
                    proof {
                        assert(value_view(*v) == ValueV::VMap(Some(pairs_view(ps@))));
                    }
                    m
                },
                None => true,
            },
            _ => false,
        },
        _ => {
            let single = match v {
                CqlValue::CqlList(_) => false,
                CqlValue::CqlMap(_) => false,
                CqlValue::CqlSet(_) => false,
                _ => true,
            };
            proof {
                if single {
                    crate::format::lemma_single_value_view(*v);
                }
            }
            if single {
                scalar_matches_value(c.col_type, v)
            } else {
                false
            }
        },
    }
}

/// Append one column specification.
#[verifier::rlimit(100)]
#[verifier::spinoff_prover]
fn write_col(buf: &mut Vec<u8>, c: &CqlColMetadata, global: bool) -> (r: RCResult<()>)
    ensures
        r is Ok <==> col_enc_ok(col_view(*c), global),
        r is Ok ==> final(buf)@ == old(buf)@ + spec_enc_col(col_view(*c), global),
{
    proof {
        lemma_pow256_values();
    }
    if c.col_type == CqlValueType::ColumnUnknown {
        return Err(RCError::new("Column type has no wire key", RCErrorType::SerializeError));
    }
    let aux1_present = match c.col_type {
        CqlValueType::ColumnList => true,
        CqlValueType::ColumnMap => true,
        CqlValueType::ColumnSet => true,
        _ => false,
    };
    let aux2_present = c.col_type == CqlValueType::ColumnMap;
    if aux1_present {
        if !single_type(c.col_type_aux1) {
            return Err(RCError::new("Element type must be a single type", RCErrorType::SerializeError));
        }
    } else {
        if !(c.col_type_aux1 == CqlValueType::ColumnUnknown) {
            return Err(RCError::new("Unexpected element type", RCErrorType::SerializeError));
        }
    }
    if aux2_present {
        if !single_type(c.col_type_aux2) {
            return Err(RCError::new("Value type must be a single type", RCErrorType::SerializeError));
        }
    } else {
        if !(c.col_type_aux2 == CqlValueType::ColumnUnknown) {
            return Err(RCError::new("Unexpected value type", RCErrorType::SerializeError));
        }
    }
    if !global {
        match write_string(buf, c.keyspace.as_str(), CqlBytesSize::Cqli16) {
            Ok(_) => {},
            Err(e) => {
                return Err(e);
            },
        }
        match write_string(buf, c.table.as_str(), CqlBytesSize::Cqli16) {
            Ok(_) => {},
            Err(e) => {
                return Err(e);
            },
        }
    }
    match write_string(buf, c.col_name.as_str(), CqlBytesSize::Cqli16) {
        Ok(_) => {},
        Err(e) => {
            return Err(e);
        },
    }
    write_be(buf, column_type_value(c.col_type) as u64, 2);
    if aux1_present {
        write_be(buf, column_type_value(c.col_type_aux1) as u64, 2);
    }
    if aux2_present {
        write_be(buf, column_type_value(c.col_type_aux2) as u64, 2);
    }
    proof {
        assert(buf@ =~= old(buf)@ + spec_enc_col(col_view(*c), global));
    }
    Ok(())
}

/// Append column specifications, front to back.
fn write_cols(buf: &mut Vec<u8>, cols: &[CqlColMetadata], global: bool) -> (r: RCResult<()>)
    ensures
        r is Ok <==> (forall|i: int|
            0 <= i < cols@.len() ==> col_enc_ok(col_view(#[trigger] cols@[i]), global)),
        r is Ok ==> final(buf)@ == old(buf)@ + spec_enc_cols(cols_view(cols@), global),
    decreases cols@.len(),
{
    if cols.len() == 0 {
        proof {
            assert(cols_view(cols@) =~= Seq::<ColSpecV>::empty());
        }
        Ok(())
    } else {
        match write_col(buf, &cols[0], global) {
            Ok(_) => {},
            Err(e) => {
                return Err(e);
            },
        }
        let rest = slice_subrange(cols, 1, cols.len());
        proof {
            assert(cols_view(rest@) =~= cols_view(cols@).drop_first());
            assert(cols_view(cols@)[0] == col_view(cols@[0]));
        }
        match write_cols(buf, rest, global) {
            Ok(_) => {
                proof {
                    assert forall|i: int|
                        0 <= i < cols@.len() implies col_enc_ok(
                        col_view(#[trigger] cols@[i]),
                        global,
                    ) by {
                        if i > 0 {
                            assert(rest@[i - 1] == cols@[i]);
                        }
                    }
                }
                Ok(())
            },
            Err(e) => {
                proof {
                    if forall|i: int|
                        0 <= i < cols@.len() ==> col_enc_ok(col_view(#[trigger] cols@[i]), global) {
                        assert forall|j: int|
                            0 <= j < rest@.len() implies col_enc_ok(
                            col_view(#[trigger] rest@[j]),
                            global,
                        ) by {
                            assert(rest@[j] == cols@[j + 1]);
                        }
                    }
                }
                Err(e)
            },
        }
    }
}

impl CqlMetadata {
    /// Append this metadata's encoding.
    pub fn serialize(&self, buf: &mut Vec<u8>) -> (r: RCResult<()>)
        ensures
            r is Ok <==> metadata_enc_ok(metadata_view(*self)),
            r is Ok ==> final(buf)@ == old(buf)@ + spec_enc_metadata(metadata_view(*self)),
    {
        proof {
            lemma_pow256_values();
        }
        if !(self.row_metadata.len() as u64 == self.column_count as u64) {
            return Err(
                RCError::new("Column count does not match the columns", RCErrorType::SerializeError),
            );
        }
        let global = self.flags % 2 == 1;
        if global {
            let n = self.row_metadata.len();
            let mut i: usize = 0;
            while i < n
                invariant
                    i <= n,
                    n == self.row_metadata@.len(),
                    self.flags % 2 == 1,
                    forall|j: int|
                        0 <= j < i ==> (#[trigger] self.row_metadata@[j]).keyspace@
                            == self.keyspace@ && self.row_metadata@[j].table@ == self.table@,
                decreases n - i,
            {
                if !crate::util::str_eq(self.row_metadata[i].keyspace.as_str(), self.keyspace.as_str())
                    || !crate::util::str_eq(self.row_metadata[i].table.as_str(), self.table.as_str()) {
                    proof {
                        let m = metadata_view(*self);
                        assert(m.cols[i as int] == col_view(self.row_metadata@[i as int]));
                        assert(!(m.cols[i as int].keyspace == m.keyspace && m.cols[
                            i as int
                        ].table == m.table));
                        assert(!metadata_enc_ok(m)) by {
                            if metadata_enc_ok(m) {
                                assert(metadata_global(m.flags));
                                assert(m.cols[i as int].keyspace == m.keyspace && m.cols[
                                    i as int
                                ].table == m.table);
                            }
                        }
                    }
                    return Err(
                        RCError::new(
                            "Columns must carry the global table under the global flag",
                            RCErrorType::SerializeError,
                        ),
                    );
                }
                i = i + 1;
            }
            proof {
                let m = metadata_view(*self);
                assert forall|j: int|
                    0 <= j < m.cols.len() implies (#[trigger] m.cols[j]).keyspace == m.keyspace
                    && m.cols[j].table == m.table by {
                    assert(m.cols[j] == col_view(self.row_metadata@[j]));
                }
            }
        }
        if !global {
            if !self.keyspace.as_str().is_empty() || !self.table.as_str().is_empty() {
                return Err(
                    RCError::new(
                        "Keyspace and table take the global flag",
                        RCErrorType::SerializeError,
                    ),
                );
            }
        }
        write_be(buf, self.flags as u64, 4);
        write_be(buf, self.column_count as u64, 4);
        if global {
            match write_string(buf, self.keyspace.as_str(), CqlBytesSize::Cqli16) {
                Ok(_) => {},
                Err(e) => {
                    return Err(e);
                },
            }
            match write_string(buf, self.table.as_str(), CqlBytesSize::Cqli16) {
                Ok(_) => {},
                Err(e) => {
                    return Err(e);
                },
            }
        }
        let r = write_cols(buf, self.row_metadata.as_slice(), global);
        proof {
            let m = metadata_view(*self);
            if r is Ok {
                assert forall|i: int|
                    0 <= i < m.cols.len() implies col_enc_ok(
                    #[trigger] m.cols[i],
                    crate::format::metadata_global(m.flags),
                ) by {
                    assert(m.cols[i] == col_view(self.row_metadata@[i]));
                }
                assert(final(buf)@ =~= old(buf)@ + spec_enc_metadata(m));
            } else {
                if forall|i: int|
                    0 <= i < m.cols.len() ==> col_enc_ok(
                        #[trigger] m.cols[i],
                        crate::format::metadata_global(m.flags),
                    ) {
                    assert forall|j: int|
                        0 <= j < self.row_metadata@.len() implies col_enc_ok(
                        col_view(#[trigger] self.row_metadata@[j]),
                        global,
                    ) by {
                        assert(m.cols[j] == col_view(self.row_metadata@[j]));
                    }
                }
            }
        }
        r
    }
}

/// Append one row: each cell checked against its column and encoded at top
/// level.
fn write_row(buf: &mut Vec<u8>, row: &[CqlValue], cols: &[CqlColMetadata], version: u8) -> (r:
    RCResult<()>)
    ensures
        r is Ok <==> row_enc_ok(
            row@.map_values(|v: CqlValue| value_view(v)),
            cols_view(cols@),
            spec_esz(version),
        ),
        r is Ok ==> final(buf)@ == old(buf)@ + spec_enc_row(
            row@.map_values(|v: CqlValue| value_view(v)),
            spec_esz(version),
        ),
    decreases row@.len(),
{
    if row.len() != cols.len() {
        if row.len() == 0 || cols.len() == 0 {
            return Err(RCError::new("Row width differs from the metadata", RCErrorType::SerializeError));
        }
        return Err(RCError::new("Row width differs from the metadata", RCErrorType::SerializeError));
    }
    if row.len() == 0 {
        proof {
            assert(row@.map_values(|v: CqlValue| value_view(v)) =~= Seq::<ValueV>::empty());
            assert(cols_view(cols@) =~= Seq::<ColSpecV>::empty());
        }
        return Ok(());
    }
    let ghost rowm = row@.map_values(|v: CqlValue| value_view(v));
    if !value_matches(&row[0], &cols[0]) {
        proof {
            assert(rowm[0] == value_view(row@[0]));
            assert(cols_view(cols@)[0] == col_view(cols@[0]));
        }
        return Err(RCError::new("Cell does not match its column type", RCErrorType::SerializeError));
    }
    match row[0].serialize_size(buf, CqlBytesSize::Cqli32, version) {
        Ok(_) => {},
        Err(e) => {
            proof {
                assert(rowm[0] == value_view(row@[0]));
            }
            return Err(e);
        },
    }
    let rrest = slice_subrange(row, 1, row.len());
    let crest = slice_subrange(cols, 1, cols.len());
    proof {
        assert(rrest@.map_values(|v: CqlValue| value_view(v)) =~= rowm.drop_first());
        assert(cols_view(crest@) =~= cols_view(cols@).drop_first());
        assert(rowm[0] == value_view(row@[0]));
        assert(cols_view(cols@)[0] == col_view(cols@[0]));
    }
    let r = write_row(buf, rrest, crest, version);
    proof {
        let restm = rrest@.map_values(|v: CqlValue| value_view(v));
        if r is Ok {
            assert forall|i: int|
                0 <= i < rowm.len() implies value_matches_col(
                #[trigger] rowm[i],
                cols_view(cols@)[i],
            ) && value_enc_ok(rowm[i], spec_esz(version)) by {
                if i > 0 {
                    assert(restm[i - 1] == rowm[i]);
                    assert(cols_view(crest@)[i - 1] == cols_view(cols@)[i]);
                }
            }
            assert(final(buf)@ =~= old(buf)@ + spec_enc_row(rowm, spec_esz(version)));
        } else {
            if row_enc_ok(rowm, cols_view(cols@), spec_esz(version)) {
                assert forall|j: int|
                    0 <= j < restm.len() implies value_matches_col(
                    #[trigger] restm[j],
                    cols_view(crest@)[j],
                ) && value_enc_ok(restm[j], spec_esz(version)) by {
                    assert(restm[j] == rowm[j + 1]);
                    assert(cols_view(crest@)[j] == cols_view(cols@)[j + 1]);
                }
            }
        }
    }
    r
}

/// Append rows, front to back.
fn write_rows_seq(buf: &mut Vec<u8>, rows: &[CqlRow], cols: &[CqlColMetadata], version: u8) -> (r:
    RCResult<()>)
    ensures
        r is Ok <==> (forall|i: int|
            0 <= i < rows@.len() ==> row_enc_ok(
                row_view(#[trigger] rows@[i]),
                cols_view(cols@),
                spec_esz(version),
            )),
        r is Ok ==> final(buf)@ == old(buf)@ + spec_enc_rows_seq(
            rows@.map_values(|r0: CqlRow| row_view(r0)),
            spec_esz(version),
        ),
    decreases rows@.len(),
{
    if rows.len() == 0 {
        proof {
            assert(rows@.map_values(|r0: CqlRow| row_view(r0)) =~= Seq::<Seq<ValueV>>::empty());
        }
        Ok(())
    } else {
        match write_row(buf, rows[0].cols.as_slice(), cols, version) {
            Ok(_) => {},
            Err(e) => {
                proof {
                    assert(row_view(rows@[0]) == rows@[0].cols@.map_values(
                        |v: CqlValue| value_view(v),
                    ));
                }
                return Err(e);
            },
        }
        let rest = slice_subrange(rows, 1, rows.len());
        proof {
            assert(rest@.map_values(|r0: CqlRow| row_view(r0)) =~= rows@.map_values(
                |r0: CqlRow| row_view(r0),
            ).drop_first());
            assert(rows@.map_values(|r0: CqlRow| row_view(r0))[0] == row_view(rows@[0]));
            assert(row_view(rows@[0]) == rows@[0].cols@.map_values(|v: CqlValue| value_view(v)));
        }
        let r = write_rows_seq(buf, rest, cols, version);
        proof {
            if r is Ok {
                assert forall|i: int|
                    0 <= i < rows@.len() implies row_enc_ok(
                    row_view(#[trigger] rows@[i]),
                    cols_view(cols@),
                    spec_esz(version),
                ) by {
                    if i > 0 {
                        assert(rest@[i - 1] == rows@[i]);
                    }
                }
            } else {
                if forall|i: int|
                    0 <= i < rows@.len() ==> row_enc_ok(
                        row_view(#[trigger] rows@[i]),
                        cols_view(cols@),
                        spec_esz(version),
                    ) {
                    assert forall|j: int|
                        0 <= j < rest@.len() implies row_enc_ok(
                        row_view(#[trigger] rest@[j]),
                        cols_view(cols@),
                        spec_esz(version),
                    ) by {
                        assert(rest@[j] == rows@[j + 1]);
                    }
                }
            }
        }
        r
    }
}

impl CqlRows {
    /// Append this rows result's encoding: metadata, row count, rows.
    pub fn serialize(&self, buf: &mut Vec<u8>, version: u8) -> (r: RCResult<()>)
        ensures
            r is Ok <==> rows_enc_ok(rows_view(*self), spec_esz(version)),
            r is Ok ==> final(buf)@ == old(buf)@ + spec_enc_rows(rows_view(*self), spec_esz(version)),
    {
        proof {
            lemma_pow256_values();
        }
        match self.metadata.serialize(buf) {
            Ok(_) => {},
            Err(e) => {
                return Err(e);
            },
        }
        if (self.rows.len() as u64) > 0xFFFF_FFFFu64 {
            return Err(RCError::new("Too many rows", RCErrorType::SerializeError));
        }
        write_be(buf, self.rows.len() as u64, 4);
        let r = write_rows_seq(buf, self.rows.as_slice(), self.metadata.row_metadata.as_slice(), version);
        proof {
            let rv = rows_view(*self);
            assert(rv.metadata.cols =~= cols_view(self.metadata.row_metadata@));
            if r is Ok {
                assert forall|i: int|
                    0 <= i < rv.rows.len() implies row_enc_ok(
                    #[trigger] rv.rows[i],
                    rv.metadata.cols,
                    spec_esz(version),
                ) by {
                    assert(rv.rows[i] == row_view(self.rows@[i]));
                }
                assert(final(buf)@ =~= old(buf)@ + spec_enc_rows(rv, spec_esz(version)));
            } else {
                if rows_enc_ok(rv, spec_esz(version)) {
                    assert forall|j: int|
                        0 <= j < self.rows@.len() implies row_enc_ok(
                        row_view(#[trigger] self.rows@[j]),
                        cols_view(self.metadata.row_metadata@),
                        spec_esz(version),
                    ) by {
                        assert(rv.rows[j] == row_view(self.rows@[j]));
                    }
                }
            }
        }
        r
    }
}


impl CqlEvent {
    /// Append this event's encoding (EVENT body).
    #[verifier::rlimit(100)]
    #[verifier::spinoff_prover]
    pub fn serialize(&self, buf: &mut Vec<u8>) -> (r: RCResult<()>)
        ensures
            r is Ok <==> event_enc_ok(event_view(*self)),
            r is Ok ==> final(buf)@ == old(buf)@ + spec_enc_event(event_view(*self)),
    {
        proof {
            crate::format::lemma_event_tokens_fit();
        }
        match self {
            CqlEvent::TopologyChange(t, a) => {
                let name = match t {
                    TopologyChangeType::NewNode => "NEW_NODE",
                    TopologyChangeType::RemovedNode => "REMOVED_NODE",
                    TopologyChangeType::MovedNode => "MOVED_NODE",
                    TopologyChangeType::UnknownChange => {
                        return Err(
                            RCError::new("Unknown topology change", RCErrorType::SerializeError),
                        );
                    },
                };
                match write_string(buf, "TOPOLOGY_CHANGE", CqlBytesSize::Cqli16) {
                    Ok(_) => {},
                    Err(e) => {
                        return Err(e);
                    },
                }
                match write_string(buf, name, CqlBytesSize::Cqli16) {
                    Ok(_) => {},
                    Err(e) => {
                        return Err(e);
                    },
                }
                write_inet(buf, &a.ip);
                proof {
                    assert(buf@ =~= old(buf)@ + spec_enc_event(event_view(*self)));
                }
                Ok(())
            },
            CqlEvent::StatusChange(t, a) => {
                let name = match t {
                    StatusChangeType::Up => "UP",
                    StatusChangeType::Down => "DOWN",
                    StatusChangeType::UnknownStatus => {
                        return Err(
                            RCError::new("Unknown status change", RCErrorType::SerializeError),
                        );
                    },
                };
                match write_string(buf, "STATUS_CHANGE", CqlBytesSize::Cqli16) {
                    Ok(_) => {},
                    Err(e) => {
                        return Err(e);
                    },
                }
                match write_string(buf, name, CqlBytesSize::Cqli16) {
                    Ok(_) => {},
                    Err(e) => {
                        return Err(e);
                    },
                }
                write_inet(buf, &a.ip);
                proof {
                    assert(buf@ =~= old(buf)@ + spec_enc_event(event_view(*self)));
                }
                Ok(())
            },
            CqlEvent::SchemaChange(t, o) => {
                let name = match t {
                    SchemaChangeType::Created => "CREATED",
                    SchemaChangeType::Updated => "UPDATED",
                    SchemaChangeType::Dropped => "DROPPED",
                    SchemaChangeType::UnknownSchema => {
                        return Err(
                            RCError::new("Unknown schema change", RCErrorType::SerializeError),
                        );
                    },
                };
                match write_string(buf, "SCHEMA_CHANGE", CqlBytesSize::Cqli16) {
                    Ok(_) => {},
                    Err(e) => {
                        return Err(e);
                    },
                }
                match write_string(buf, name, CqlBytesSize::Cqli16) {
                    Ok(_) => {},
                    Err(e) => {
                        return Err(e);
                    },
                }
                match o {
                    SchemaChangeOptions::Keyspace(k) => {
                        match write_string(buf, "KEYSPACE", CqlBytesSize::Cqli16) {
                            Ok(_) => {},
                            Err(e) => {
                                return Err(e);
                            },
                        }
                        match write_string(buf, k.as_str(), CqlBytesSize::Cqli16) {
                            Ok(_) => {},
                            Err(e) => {
                                return Err(e);
                            },
                        }
                    },
                    SchemaChangeOptions::Table(a, b) => {
                        match write_string(buf, "TABLE", CqlBytesSize::Cqli16) {
                            Ok(_) => {},
                            Err(e) => {
                                return Err(e);
                            },
                        }
                        match write_string(buf, a.as_str(), CqlBytesSize::Cqli16) {
                            Ok(_) => {},
                            Err(e) => {
                                return Err(e);
                            },
                        }
                        match write_string(buf, b.as_str(), CqlBytesSize::Cqli16) {
                            Ok(_) => {},
                            Err(e) => {
                                return Err(e);
                            },
                        }
                    },
                    SchemaChangeOptions::Type(a, b) => {
                        match write_string(buf, "TYPE", CqlBytesSize::Cqli16) {
                            Ok(_) => {},
                            Err(e) => {
                                return Err(e);
                            },
                        }
                        match write_string(buf, a.as_str(), CqlBytesSize::Cqli16) {
                            Ok(_) => {},
                            Err(e) => {
                                return Err(e);
                            },
                        }
                        match write_string(buf, b.as_str(), CqlBytesSize::Cqli16) {
                            Ok(_) => {},
                            Err(e) => {
                                return Err(e);
                            },
                        }
                    },
                }
                proof {
                    assert(buf@ =~= old(buf)@ + spec_enc_event(event_view(*self)));
                }
                Ok(())
            },
            CqlEvent::UnknownEvent => Err(
                RCError::new("Cannot serialize an unknown event", RCErrorType::SerializeError),
            ),
        }
    }
}

/// Append the address bytes of an event body, under a short length prefix.
fn write_inet(buf: &mut Vec<u8>, ip: &IpAddress)
    ensures
        final(buf)@ == old(buf)@ + spec_enc_inet(*ip),
{
    proof {
        lemma_pow256_values();
    }
    match ip {
        IpAddress::Ipv4(a, b, c, d) => {
            write_prefix(buf, 4, CqlBytesSize::Cqli16);
            let ghost mid = buf@;
            buf.push(*a);
            buf.push(*b);
            buf.push(*c);
            buf.push(*d);
            proof {
                assert(buf@ =~= mid + seq![*a, *b, *c, *d]);
                assert(buf@ =~= old(buf)@ + spec_enc_inet(*ip));
            }
        },
        IpAddress::Ipv6(s0, s1, s2, s3, s4, s5, s6, s7) => {
            write_prefix(buf, 16, CqlBytesSize::Cqli16);
            write_be(buf, *s0 as u64, 2);
            write_be(buf, *s1 as u64, 2);
            write_be(buf, *s2 as u64, 2);
            write_be(buf, *s3 as u64, 2);
            write_be(buf, *s4 as u64, 2);
            write_be(buf, *s5 as u64, 2);
            write_be(buf, *s6 as u64, 2);
            write_be(buf, *s7 as u64, 2);
            proof {
                crate::wire::lemma_be_bytes_len(*s0 as nat, 2);
                crate::wire::lemma_be_bytes_len(*s1 as nat, 2);
                crate::wire::lemma_be_bytes_len(*s2 as nat, 2);
                crate::wire::lemma_be_bytes_len(*s3 as nat, 2);
                crate::wire::lemma_be_bytes_len(*s4 as nat, 2);
                crate::wire::lemma_be_bytes_len(*s5 as nat, 2);
                crate::wire::lemma_be_bytes_len(*s6 as nat, 2);
                crate::wire::lemma_be_bytes_len(*s7 as nat, 2);
                assert(buf@ =~= old(buf)@ + spec_enc_inet(*ip));
            }
        },
    }
}

impl CqlPair {
    /// Append this pair's encoding: two short strings.
    pub fn serialize_size(&self, buf: &mut Vec<u8>, bytes_size: CqlBytesSize, version: u8) -> (r:
        RCResult<()>)
        ensures
            r is Ok <==> string_enc_ok(self.key@, CqlBytesSize::Cqli16) && string_enc_ok(
                self.value@,
                CqlBytesSize::Cqli16,
            ),
            r is Ok ==> final(buf)@ == old(buf)@ + spec_enc_string(self.key@, CqlBytesSize::Cqli16)
                + spec_enc_string(self.value@, CqlBytesSize::Cqli16),
    {
        match write_string(buf, self.key.as_str(), CqlBytesSize::Cqli16) {
            Ok(_) => {},
            Err(e) => {
                return Err(e);
            },
        }
        match write_string(buf, self.value.as_str(), CqlBytesSize::Cqli16) {
            Ok(_) => {},
            Err(e) => {
                return Err(e);
            },
        }
        proof {
            assert(buf@ =~= old(buf)@ + spec_enc_string(self.key@, CqlBytesSize::Cqli16)
                + spec_enc_string(self.value@, CqlBytesSize::Cqli16));
        }
        Ok(())
    }

    /// Append this pair's encoding.
    pub fn serialize(&self, buf: &mut Vec<u8>, version: u8) -> (r: RCResult<()>)
        ensures
            r is Ok <==> string_enc_ok(self.key@, CqlBytesSize::Cqli16) && string_enc_ok(
                self.value@,
                CqlBytesSize::Cqli16,
            ),
            r is Ok ==> final(buf)@ == old(buf)@ + spec_enc_string(self.key@, CqlBytesSize::Cqli16)
                + spec_enc_string(self.value@, CqlBytesSize::Cqli16),
    {
        self.serialize_size(buf, CqlBytesSize::Cqli32, version)
    }
}

/// The string-map model of a pair sequence.
pub open spec fn strmap_view(ps: Seq<CqlPair>) -> Seq<(Seq<char>, Seq<char>)> {
    ps.map_values(|p: CqlPair| (p.key@, p.value@))
}

/// Append string-map pairs, front to back.
fn write_strmap_pairs(buf: &mut Vec<u8>, ps: &[CqlPair]) -> (r: RCResult<()>)
    ensures
        r is Ok <==> (forall|i: int|
            0 <= i < ps@.len() ==> string_enc_ok((#[trigger] ps@[i]).key@, CqlBytesSize::Cqli16)
                && string_enc_ok(ps@[i].value@, CqlBytesSize::Cqli16)),
        r is Ok ==> final(buf)@ == old(buf)@ + spec_enc_strmap_pairs(strmap_view(ps@)),
    decreases ps@.len(),
{
    if ps.len() == 0 {
        proof {
            assert(strmap_view(ps@) =~= Seq::<(Seq<char>, Seq<char>)>::empty());
        }
        Ok(())
    } else {
        match ps[0].serialize_size(buf, CqlBytesSize::Cqli16, 0) {
            Ok(_) => {},
            Err(e) => {
                return Err(e);
            },
        }
        let rest = slice_subrange(ps, 1, ps.len());
        proof {
            assert(strmap_view(rest@) =~= strmap_view(ps@).drop_first());
            assert(strmap_view(ps@)[0] == (ps@[0].key@, ps@[0].value@));
        }
        match write_strmap_pairs(buf, rest) {
            Ok(_) => {
                proof {
                    assert forall|i: int|
                        0 <= i < ps@.len() implies string_enc_ok(
                        (#[trigger] ps@[i]).key@,
                        CqlBytesSize::Cqli16,
                    ) && string_enc_ok(ps@[i].value@, CqlBytesSize::Cqli16) by {
                        if i > 0 {
                            assert(rest@[i - 1] == ps@[i]);
                        }
                    }
                }
                Ok(())
            },
            Err(e) => {
                proof {
                    if forall|i: int|
                        0 <= i < ps@.len() ==> string_enc_ok(
                            (#[trigger] ps@[i]).key@,
                            CqlBytesSize::Cqli16,
                        ) && string_enc_ok(ps@[i].value@, CqlBytesSize::Cqli16) {
                        assert forall|j: int|
                            0 <= j < rest@.len() implies string_enc_ok(
                            (#[trigger] rest@[j]).key@,
                            CqlBytesSize::Cqli16,
                        ) && string_enc_ok(rest@[j].value@, CqlBytesSize::Cqli16) by {
                            assert(rest@[j] == ps@[j + 1]);
                        }
                    }
                }
                Err(e)
            },
        }
    }
}

impl CqlStringMap {
    /// Append this string map's encoding: a pair count, then the pairs.
    pub fn serialize_size(&self, buf: &mut Vec<u8>, bytes_size: CqlBytesSize, version: u8) -> (r:
        RCResult<()>)
        ensures
            r is Ok <==> strmap_enc_ok(strmap_view(self.pairs@)),
            r is Ok ==> final(buf)@ == old(buf)@ + spec_enc_strmap(strmap_view(self.pairs@)),
    {
        proof {
            lemma_pow256_values();
        }
        if self.pairs.len() > 0xFFFF {
            return Err(RCError::new("Too many string-map pairs", RCErrorType::SerializeError));
        }
        write_be(buf, self.pairs.len() as u64, 2);
        let r = write_strmap_pairs(buf, self.pairs.as_slice());
        proof {
            let m = strmap_view(self.pairs@);
            if r is Ok {
                assert forall|i: int|
                    0 <= i < m.len() implies string_enc_ok(
                    (#[trigger] m[i]).0,
                    CqlBytesSize::Cqli16,
                ) && string_enc_ok(m[i].1, CqlBytesSize::Cqli16) by {
                    assert(m[i] == (self.pairs@[i].key@, self.pairs@[i].value@));
                }
                assert(final(buf)@ =~= old(buf)@ + spec_enc_strmap(m));
            } else {
                if strmap_enc_ok(m) {
                    assert forall|j: int|
                        0 <= j < self.pairs@.len() implies string_enc_ok(
                        (#[trigger] self.pairs@[j]).key@,
                        CqlBytesSize::Cqli16,
                    ) && string_enc_ok(self.pairs@[j].value@, CqlBytesSize::Cqli16) by {
                        assert(m[j] == (self.pairs@[j].key@, self.pairs@[j].value@));
                    }
                }
            }
        }
        r
    }

    /// Append this string map's encoding.
    pub fn serialize(&self, buf: &mut Vec<u8>, version: u8) -> (r: RCResult<()>)
        ensures
            r is Ok <==> strmap_enc_ok(strmap_view(self.pairs@)),
            r is Ok ==> final(buf)@ == old(buf)@ + spec_enc_strmap(strmap_view(self.pairs@)),
    {
        self.serialize_size(buf, CqlBytesSize::Cqli16, version)
    }
}

/// Append a PREPARED result body.
fn write_prepared(buf: &mut Vec<u8>, p: &CqlPreparedStat, version: u8) -> (r: RCResult<()>)
    ensures
        r is Ok <==> prepared_enc_ok(prepared_view(*p), version),
        r is Ok ==> final(buf)@ == old(buf)@ + spec_enc_prepared(prepared_view(*p), version),
{
    match write_lp_bytes(buf, p.id.as_slice(), CqlBytesSize::Cqli16) {
        Ok(_) => {},
        Err(e) => {
            return Err(e);
        },
    }
    match p.meta.serialize(buf) {
        Ok(_) => {},
        Err(e) => {
            return Err(e);
        },
    }
    if version >= 2 {
        match &p.meta_result {
            Some(m) => match m.serialize(buf) {
                Ok(_) => {},
                Err(e) => {
                    return Err(e);
                },
            },
            None => {
                return Err(
                    RCError::new("Result metadata is owed from v2 on", RCErrorType::SerializeError),
                );
            },
        }
    } else {
        match &p.meta_result {
            Some(_) => {
                return Err(
                    RCError::new("Result metadata cannot stand before v2", RCErrorType::SerializeError),
                );
            },
            None => {},
        }
    }
    proof {
        assert(buf@ =~= old(buf)@ + spec_enc_prepared(prepared_view(*p), version));
    }
    Ok(())
}


/// The parameter model of a value sequence.
pub open spec fn params_view(vs: Seq<CqlValue>) -> Seq<ValueV> {
    vs.map_values(|v: CqlValue| value_view(v))
}

/// Append statement parameters, front to back, each at top level.
fn write_params(buf: &mut Vec<u8>, vs: &[CqlValue], version: u8) -> (r: RCResult<()>)
    ensures
        r is Ok <==> (forall|i: int|
            0 <= i < params_view(vs@).len() ==> value_enc_ok(
                #[trigger] params_view(vs@)[i],
                spec_esz(version),
            )),
        r is Ok ==> final(buf)@ == old(buf)@ + spec_enc_params(params_view(vs@), spec_esz(version)),
    decreases vs@.len(),
{
    if vs.len() == 0 {
        proof {
            assert(params_view(vs@) =~= Seq::<ValueV>::empty());
        }
        Ok(())
    } else {
        match vs[0].serialize_size(buf, CqlBytesSize::Cqli32, version) {
            Ok(_) => {},
            Err(e) => {
                proof {
                    assert(params_view(vs@)[0] == value_view(vs@[0]));
                }
                return Err(e);
            },
        }
        let rest = slice_subrange(vs, 1, vs.len());
        proof {
            assert(params_view(rest@) =~= params_view(vs@).drop_first());
            assert(params_view(vs@)[0] == value_view(vs@[0]));
        }
        let r = write_params(buf, rest, version);
        proof {
            if r is Ok {
                assert forall|i: int|
                    0 <= i < params_view(vs@).len() implies value_enc_ok(
                    #[trigger] params_view(vs@)[i],
                    spec_esz(version),
                ) by {
                    if i > 0 {
                        assert(params_view(rest@)[i - 1] == params_view(vs@)[i]);
                    }
                }
            } else {
                if forall|i: int|
                    0 <= i < params_view(vs@).len() ==> value_enc_ok(
                        #[trigger] params_view(vs@)[i],
                        spec_esz(version),
                    ) {
                    assert forall|j: int|
                        0 <= j < params_view(rest@).len() implies value_enc_ok(
                        #[trigger] params_view(rest@)[j],
                        spec_esz(version),
                    ) by {
                        assert(params_view(rest@)[j] == params_view(vs@)[j + 1]);
                    }
                }
            }
        }
        r
    }
}

impl Query {
    /// Append this batch entry's encoding.
    pub fn serialize(&self, buf: &mut Vec<u8>, version: u8) -> (r: RCResult<()>)
        ensures
            r is Ok <==> query_enc_ok(query_view(*self), version),
            r is Ok ==> final(buf)@ == old(buf)@ + spec_enc_query(query_view(*self), version),
    {
        proof {
            lemma_pow256_values();
        }
        match self {
            Query::QueryStr(q) => {
                let ghost mid0 = buf@;
                buf.push(0u8);
                proof {
                    assert(buf@ =~= mid0 + seq![0u8]);
                }
                match write_string(buf, q.as_str(), CqlBytesSize::Cqli32) {
                    Ok(_) => {},
                    Err(e) => {
                        return Err(e);
                    },
                }
                write_be(buf, 0u64, 2);
                proof {
                    assert(buf@ =~= old(buf)@ + spec_enc_query(query_view(*self), version));
                }
                Ok(())
            },
            Query::QueryPrepared(id, vs) => {
                if vs.len() > 0xFFFF {
                    return Err(
                        RCError::new("Too many bound values", RCErrorType::SerializeError),
                    );
                }
                let ghost mid0 = buf@;
                buf.push(1u8);
                proof {
                    assert(buf@ =~= mid0 + seq![1u8]);
                }
                match write_lp_bytes(buf, id.as_slice(), CqlBytesSize::Cqli16) {
                    Ok(_) => {},
                    Err(e) => {
                        return Err(e);
                    },
                }
                write_be(buf, vs.len() as u64, 2);
                let r = write_params(buf, vs.as_slice(), version);
                proof {
                    if r is Ok {
                        assert(final(buf)@ =~= old(buf)@ + spec_enc_query(
                            query_view(*self),
                            version,
                        ));
                    }
                }
                r
            },
            Query::QueryBatch(_) => Err(
                RCError::new("A batch cannot nest inside a batch", RCErrorType::SerializeError),
            ),
        }
    }
}

/// The batch model of a query sequence.
pub open spec fn queries_view(qs: Seq<Query>) -> Seq<QueryV> {
    qs.map_values(|q: Query| query_view(q))
}

/// Append batch entries, front to back.
fn write_queries(buf: &mut Vec<u8>, qs: &[Query], version: u8) -> (r: RCResult<()>)
    ensures
        r is Ok <==> (forall|i: int|
            0 <= i < queries_view(qs@).len() ==> query_enc_ok(
                #[trigger] queries_view(qs@)[i],
                version,
            )),
        r is Ok ==> final(buf)@ == old(buf)@ + spec_enc_queries(queries_view(qs@), version),
    decreases qs@.len(),
{
    if qs.len() == 0 {
        proof {
            assert(queries_view(qs@) =~= Seq::<QueryV>::empty());
        }
        Ok(())
    } else {
        match qs[0].serialize(buf, version) {
            Ok(_) => {},
            Err(e) => {
                proof {
                    assert(queries_view(qs@)[0] == query_view(qs@[0]));
                }
                return Err(e);
            },
        }
        let rest = slice_subrange(qs, 1, qs.len());
        proof {
            assert(queries_view(rest@) =~= queries_view(qs@).drop_first());
            assert(queries_view(qs@)[0] == query_view(qs@[0]));
        }
        let r = write_queries(buf, rest, version);
        proof {
            if r is Ok {
                assert forall|i: int|
                    0 <= i < queries_view(qs@).len() implies query_enc_ok(
                    #[trigger] queries_view(qs@)[i],
                    version,
                ) by {
                    if i > 0 {
                        assert(queries_view(rest@)[i - 1] == queries_view(qs@)[i]);
                    }
                }
            } else {
                if forall|i: int|
                    0 <= i < queries_view(qs@).len() ==> query_enc_ok(
                        #[trigger] queries_view(qs@)[i],
                        version,
                    ) {
                    assert forall|j: int|
                        0 <= j < queries_view(rest@).len() implies query_enc_ok(
                        #[trigger] queries_view(rest@)[j],
                        version,
                    ) by {
                        assert(queries_view(rest@)[j] == queries_view(qs@)[j + 1]);
                    }
                }
            }
        }
        r
    }
}

/// The event-name model of a string sequence.
pub open spec fn names_view(es: Seq<String>) -> Seq<Seq<char>> {
    es.map_values(|s: String| s@)
}

/// Append short strings, front to back (REGISTER event names).
fn write_short_strings(buf: &mut Vec<u8>, es: &[String]) -> (r: RCResult<()>)
    ensures
        r is Ok <==> (forall|i: int|
            0 <= i < names_view(es@).len() ==> string_enc_ok(
                #[trigger] names_view(es@)[i],
                CqlBytesSize::Cqli16,
            )),
        r is Ok ==> final(buf)@ == old(buf)@ + spec_enc_strings(names_view(es@)),
    decreases es@.len(),
{
    if es.len() == 0 {
        proof {
            assert(names_view(es@) =~= Seq::<Seq<char>>::empty());
        }
        Ok(())
    } else {
        match write_string(buf, es[0].as_str(), CqlBytesSize::Cqli16) {
            Ok(_) => {},
            Err(e) => {
                proof {
                    assert(names_view(es@)[0] == es@[0]@);
                }
                return Err(e);
            },
        }
        let rest = slice_subrange(es, 1, es.len());
        proof {
            assert(names_view(rest@) =~= names_view(es@).drop_first());
            assert(names_view(es@)[0] == es@[0]@);
        }
        let r = write_short_strings(buf, rest);
        proof {
            if r is Ok {
                assert forall|i: int|
                    0 <= i < names_view(es@).len() implies string_enc_ok(
                    #[trigger] names_view(es@)[i],
                    CqlBytesSize::Cqli16,
                ) by {
                    if i > 0 {
                        assert(names_view(rest@)[i - 1] == names_view(es@)[i]);
                    }
                }
            } else {
                if forall|i: int|
                    0 <= i < names_view(es@).len() ==> string_enc_ok(
                        #[trigger] names_view(es@)[i],
                        CqlBytesSize::Cqli16,
                    ) {
                    assert forall|j: int|
                        0 <= j < names_view(rest@).len() implies string_enc_ok(
                        #[trigger] names_view(rest@)[j],
                        CqlBytesSize::Cqli16,
                    ) by {
                        assert(names_view(rest@)[j] == names_view(es@)[j + 1]);
                    }
                }
            }
        }
        r
    }
}

/// Append an EXECUTE body.
#[verifier::rlimit(100)]
#[verifier::spinoff_prover]
fn write_exec_body(
    buf: &mut Vec<u8>,
    body: &CqlRequestBody,
    id: &Vec<u8>,
    vs: &Vec<CqlValue>,
    c: &Consistency,
    f: &u8,
    version: u8,
) -> (r: RCResult<()>)
    requires
        *body == CqlRequestBody::RequestExec(*id, *vs, *c, *f),
    ensures
        r is Ok <==> request_body_enc_ok(request_body_view(*body), version),
        r is Ok ==> final(buf)@ == old(buf)@ + spec_enc_request_body(
            request_body_view(*body),
            version,
        ),
{
    proof {
        lemma_pow256_values();
    }

            if *c == Consistency::Unknown {
                return Err(RCError::new("Unknown consistency", RCErrorType::SerializeError));
            }
            if vs.len() > 0x7FFF {
                return Err(RCError::new("Too many bound values", RCErrorType::SerializeError));
            }
            match write_lp_bytes(buf, id.as_slice(), CqlBytesSize::Cqli16) {
                Ok(_) => {},
                Err(e) => {
                    return Err(e);
                },
            }
            if version >= 2 {
                write_be(buf, consistency_value(*c) as u64, 2);
                let ghost mid = buf@;
                buf.push(*f);
                proof {
                    assert(buf@ =~= mid + seq![*f]);
                }
                write_be(buf, vs.len() as u64, 2);
                let r = write_params(buf, vs.as_slice(), version);
                proof {
                    if r is Ok {
                        assert(final(buf)@ =~= old(buf)@ + spec_enc_request_body(
                            request_body_view(*body),
                            version,
                        ));
                    }
                }
                r
            } else {
                write_be(buf, vs.len() as u64, 2);
                match write_params(buf, vs.as_slice(), version) {
                    Ok(_) => {},
                    Err(e) => {
                        return Err(e);
                    },
                }
                write_be(buf, consistency_value(*c) as u64, 2);
                proof {
                    assert(buf@ =~= old(buf)@ + spec_enc_request_body(
                        request_body_view(*body),
                        version,
                    ));
                }
                Ok(())
            }
    }

/// Append a BATCH body.
#[verifier::rlimit(100)]
#[verifier::spinoff_prover]
fn write_batch_body(
    buf: &mut Vec<u8>,
    body: &CqlRequestBody,
    qs: &Vec<Query>,
    t: &BatchType,
    c: &Consistency,
    f: &u8,
    version: u8,
) -> (r: RCResult<()>)
    requires
        *body == CqlRequestBody::RequestBatch(*qs, *t, *c, *f),
    ensures
        r is Ok <==> request_body_enc_ok(request_body_view(*body), version),
        r is Ok ==> final(buf)@ == old(buf)@ + spec_enc_request_body(
            request_body_view(*body),
            version,
        ),
{
    proof {
        lemma_pow256_values();
    }

            if *c == Consistency::Unknown {
                return Err(RCError::new("Unknown consistency", RCErrorType::SerializeError));
            }
            if qs.len() > 0xFFFF {
                return Err(RCError::new("Too many batch entries", RCErrorType::SerializeError));
            }
            let ghost mid0 = buf@;
            buf.push(batch_type_value(*t));
            proof {
                assert(buf@ =~= mid0 + seq![spec_batch_type_value(*t)]);
            }
            write_be(buf, qs.len() as u64, 2);
            match write_queries(buf, qs.as_slice(), version) {
                Ok(_) => {},
                Err(e) => {
                    return Err(e);
                },
            }
            write_be(buf, consistency_value(*c) as u64, 2);
            if version >= 3 {
                let ghost mid = buf@;
                buf.push(*f);
                proof {
                    assert(buf@ =~= mid + seq![*f]);
                }
            }
            proof {
                assert(buf@ =~= old(buf)@ + spec_enc_request_body(
                    request_body_view(*body),
                    version,
                ));
            }
            Ok(())
    }

/// Append a request body.
#[verifier::rlimit(100)]
#[verifier::spinoff_prover]
fn write_request_body(buf: &mut Vec<u8>, body: &CqlRequestBody, version: u8) -> (r: RCResult<()>)
    ensures
        r is Ok <==> request_body_enc_ok(request_body_view(*body), version),
        r is Ok ==> final(buf)@ == old(buf)@ + spec_enc_request_body(
            request_body_view(*body),
            version,
        ),
{
    proof {
        lemma_pow256_values();
    }
    match body {
        CqlRequestBody::RequestStartup(m) => m.serialize(buf, version),
        CqlRequestBody::RequestCred(_) => Err(
            RCError::new("Credentials have no frame of their own", RCErrorType::SerializeError),
        ),
        CqlRequestBody::RequestQuery(q, c, f) => {
            if *c == Consistency::Unknown {
                return Err(RCError::new("Unknown consistency", RCErrorType::SerializeError));
            }
            match write_string(buf, q.as_str(), CqlBytesSize::Cqli32) {
                Ok(_) => {},
                Err(e) => {
                    return Err(e);
                },
            }
            write_be(buf, consistency_value(*c) as u64, 2);
            if version >= 2 {
                let ghost mid = buf@;
                buf.push(*f);
                proof {
                    assert(buf@ =~= mid + seq![*f]);
                }
            }
            proof {
                assert(buf@ =~= old(buf)@ + spec_enc_request_body(
                    request_body_view(*body),
                    version,
                ));
            }
            Ok(())
        },
        CqlRequestBody::RequestPrepare(q) => write_string(buf, q.as_str(), CqlBytesSize::Cqli32),
        CqlRequestBody::RequestExec(id, vs, c, f) => write_exec_body(buf, body, id, vs, c, f, version),
        CqlRequestBody::RequestBatch(qs, t, c, f) => write_batch_body(buf, body, qs, t, c, f, version),
        CqlRequestBody::RequestOptions => {
            proof {
                assert(buf@ =~= old(buf)@ + spec_enc_request_body(
                    request_body_view(*body),
                    version,
                ));
            }
            Ok(())
        },
        CqlRequestBody::RequestAuthResponse(t) => {
            let r = write_lp_bytes(buf, t.as_slice(), CqlBytesSize::Cqli32);
            proof {
                if r is Ok {
                    assert(final(buf)@ =~= old(buf)@ + spec_enc_request_body(
                        request_body_view(*body),
                        version,
                    ));
                }
            }
            r
        },
        CqlRequestBody::RequestRegister(es) => {
            if es.len() > 0xFFFF {
                return Err(RCError::new("Too many event names", RCErrorType::SerializeError));
            }
            write_be(buf, es.len() as u64, 2);
            let r = write_short_strings(buf, es.as_slice());
            proof {
                if r is Ok {
                    assert(final(buf)@ =~= old(buf)@ + spec_enc_request_body(
                        request_body_view(*body),
                        version,
                    ));
                }
            }
            r
        },
    }
}

impl CqlRequest {
    /// Append this request's frame: header, body length, body. `version`
    /// must be the request's own protocol version. A failed call leaves the
    /// buffer untouched.
    pub fn serialize(&self, buf: &mut Vec<u8>, version: u8) -> (r: RCResult<()>)
        ensures
            r is Ok <==> version == self.version && request_enc_ok(request_view(*self)),
            r is Ok ==> final(buf)@ == old(buf)@ + spec_enc_request(request_view(*self)),
            r is Err ==> final(buf)@ == old(buf)@,
    {
        proof {
            lemma_pow256_values();
        }
        if version != self.version {
            return Err(
                RCError::new("A request is encoded at its own version", RCErrorType::SerializeError),
            );
        }
        if self.version < 1 || self.version > 3 {
            return Err(RCError::new("Unsupported protocol version", RCErrorType::SerializeError));
        }
        let expected = match &self.body {
            CqlRequestBody::RequestStartup(_) => Some(OpcodeRequest::OpcodeStartup),
            CqlRequestBody::RequestCred(_) => None,
            CqlRequestBody::RequestQuery(_, _, _) => Some(OpcodeRequest::OpcodeQuery),
            CqlRequestBody::RequestPrepare(_) => Some(OpcodeRequest::OpcodePrepare),
            CqlRequestBody::RequestExec(_, _, _, _) => Some(OpcodeRequest::OpcodeExecute),
            CqlRequestBody::RequestBatch(_, _, _, _) => Some(OpcodeRequest::OpcodeBatch),
            CqlRequestBody::RequestOptions => Some(OpcodeRequest::OpcodeOptions),
            CqlRequestBody::RequestAuthResponse(_) => Some(OpcodeRequest::OpcodeAuthResponse),
            CqlRequestBody::RequestRegister(_) => Some(OpcodeRequest::OpcodeRegister),
        };
        let opcode_fits = match expected {
            Some(op) => op == self.opcode,
            None => false,
        };
        if !opcode_fits {
            return Err(
                RCError::new("Opcode does not announce this body", RCErrorType::SerializeError),
            );
        }
        if self.version < 3 && (self.stream < -128 || self.stream > 127) {
            return Err(
                RCError::new("Stream id out of range before v3", RCErrorType::SerializeError),
            );
        }
        let mut body: Vec<u8> = Vec::new();
        match write_request_body(&mut body, &self.body, self.version) {
            Ok(_) => {},
            Err(e) => {
                return Err(e);
            },
        }
        if (body.len() as u64) > 0x7FFF_FFFFu64 {
            return Err(RCError::new("Request body too long", RCErrorType::SerializeError));
        }
        let ghost start = buf@;
        buf.push(self.version);
        buf.push(self.flags);
        if self.version >= 3 {
            write_signed(buf, self.stream as i64, 2);
        } else {
            write_signed(buf, self.stream as i64, 1);
        }
        buf.push(opcode_request_value(self.opcode));
        write_be(buf, body.len() as u64, 4);
        let ghost mid = buf@;
        buf.extend_from_slice(body.as_slice());
        proof {
            assert(buf@ =~= mid + body@);
            assert(buf@ =~= start + spec_enc_request(request_view(*self)));
        }
        Ok(())
    }
}

impl CqlResponse {
    /// Append this response's frame; the negotiated `version` fixes the
    /// header shape and the element-prefix width. A failed call leaves the
    /// buffer untouched.
    pub fn serialize(&self, buf: &mut Vec<u8>, version: u8) -> (r: RCResult<()>)
        ensures
            r is Ok <==> response_enc_ok(response_view(*self), version),
            r is Ok ==> final(buf)@ == old(buf)@ + spec_enc_response(response_view(*self), version),
            r is Err ==> final(buf)@ == old(buf)@,
    {
        proof {
            lemma_pow256_values();
        }
        let expected = match &self.body {
            CqlResponseBody::ResponseError(_, _) => Some(OpcodeResponse::OpcodeError),
            CqlResponseBody::ResponseReady => Some(OpcodeResponse::OpcodeReady),
            CqlResponseBody::ResponseAuthenticate(_) => Some(OpcodeResponse::OpcodeAuthenticate),
            CqlResponseBody::ResponseAuthChallenge(_) => Some(
                OpcodeResponse::OpcodeAuthChallenge,
            ),
            CqlResponseBody::ResponseAuthSuccess(_) => Some(OpcodeResponse::OpcodeAuthSuccess),
            CqlResponseBody::ResponseEvent(_) => Some(OpcodeResponse::OpcodeEvent),
            CqlResponseBody::ResultVoid => Some(OpcodeResponse::OpcodeResult),
            CqlResponseBody::ResultRows(_) => Some(OpcodeResponse::OpcodeResult),
            CqlResponseBody::ResultKeyspace(_) => Some(OpcodeResponse::OpcodeResult),
            CqlResponseBody::ResultPrepared(_) => Some(OpcodeResponse::OpcodeResult),
            CqlResponseBody::ResultSchemaChange(_, _, _) => Some(OpcodeResponse::OpcodeResult),
            CqlResponseBody::ResultUnknown => None,
            CqlResponseBody::ResponseEmpty => None,
        };
        let opcode_fits = match expected {
            Some(op) => op == self.opcode,
            None => false,
        };
        if !opcode_fits {
            return Err(
                RCError::new("Opcode does not announce this body", RCErrorType::SerializeError),
            );
        }
        if version < 3 && (self.stream < -128 || self.stream > 127) {
            return Err(
                RCError::new("Stream id out of range before v3", RCErrorType::SerializeError),
            );
        }
        let mut body: Vec<u8> = Vec::new();
        match write_response_body(&mut body, &self.body, version) {
            Ok(_) => {},
            Err(e) => {
                return Err(e);
            },
        }
        if (body.len() as u64) > 0x7FFF_FFFFu64 {
            return Err(RCError::new("Response body too long", RCErrorType::SerializeError));
        }
        let ghost start = buf@;
        buf.push(self.version);
        buf.push(self.flags);
        if version >= 3 {
            write_signed(buf, self.stream as i64, 2);
        } else {
            write_signed(buf, self.stream as i64, 1);
        }
        buf.push(opcode_response_value(self.opcode));
        write_be(buf, body.len() as u64, 4);
        let ghost mid = buf@;
        buf.extend_from_slice(body.as_slice());
        proof {
            assert(buf@ =~= mid + body@);
            assert(buf@ =~= start + spec_enc_response(response_view(*self), version));
        }
        Ok(())
    }
}

/// Append a response body.
#[verifier::rlimit(100)]
#[verifier::spinoff_prover]
fn write_response_body(buf: &mut Vec<u8>, body: &CqlResponseBody, version: u8) -> (r: RCResult<()>)
    ensures
        r is Ok <==> response_body_enc_ok(response_body_view(*body), version),
        r is Ok ==> final(buf)@ == old(buf)@ + spec_enc_response_body(
            response_body_view(*body),
            version,
        ),
{
    proof {
        lemma_pow256_values();
    }
    match body {
        CqlResponseBody::ResponseError(code, m) => {
            write_be(buf, *code as u64, 4);
            let r = write_string(buf, m.as_str(), CqlBytesSize::Cqli16);
            proof {
                if r is Ok {
                    assert(final(buf)@ =~= old(buf)@ + spec_enc_response_body(
                        response_body_view(*body),
                        version,
                    ));
                }
            }
            r
        },
        CqlResponseBody::ResponseReady => {
            proof {
                assert(buf@ =~= old(buf)@ + spec_enc_response_body(
                    response_body_view(*body),
                    version,
                ));
            }
            Ok(())
        },
        CqlResponseBody::ResponseAuthenticate(t) => write_string(
            buf,
            t.as_str(),
            CqlBytesSize::Cqli16,
        ),
        CqlResponseBody::ResponseAuthChallenge(t) => write_lp_bytes(
            buf,
            t.as_slice(),
            CqlBytesSize::Cqli16,
        ),
        CqlResponseBody::ResponseAuthSuccess(t) => write_lp_bytes(
            buf,
            t.as_slice(),
            CqlBytesSize::Cqli16,
        ),
        CqlResponseBody::ResponseEvent(e) => e.serialize(buf),
        CqlResponseBody::ResultVoid => {
            write_be(buf, 1u64, 4);
            proof {
                assert(buf@ =~= old(buf)@ + spec_enc_response_body(
                    response_body_view(*body),
                    version,
                ));
            }
            Ok(())
        },
        CqlResponseBody::ResultRows(rows) => {
            write_be(buf, 2u64, 4);
            let r = rows.serialize(buf, version);
            proof {
                if r is Ok {
                    assert(final(buf)@ =~= old(buf)@ + spec_enc_response_body(
                        response_body_view(*body),
                        version,
                    ));
                }
            }
            r
        },
        CqlResponseBody::ResultKeyspace(k) => {
            write_be(buf, 3u64, 4);
            let r = write_string(buf, k.as_str(), CqlBytesSize::Cqli16);
            proof {
                if r is Ok {
                    assert(final(buf)@ =~= old(buf)@ + spec_enc_response_body(
                        response_body_view(*body),
                        version,
                    ));
                }
            }
            r
        },
        CqlResponseBody::ResultPrepared(p) => {
            write_be(buf, 4u64, 4);
            let r = write_prepared(buf, p, version);
            proof {
                if r is Ok {
                    assert(final(buf)@ =~= old(buf)@ + spec_enc_response_body(
                        response_body_view(*body),
                        version,
                    ));
                }
            }
            r
        },
        CqlResponseBody::ResultSchemaChange(a, b, c) => {
            write_be(buf, 5u64, 4);
            match write_string(buf, a.as_str(), CqlBytesSize::Cqli16) {
                Ok(_) => {},
                Err(e) => {
                    return Err(e);
                },
            }
            match write_string(buf, b.as_str(), CqlBytesSize::Cqli16) {
                Ok(_) => {},
                Err(e) => {
                    return Err(e);
                },
            }
            match write_string(buf, c.as_str(), CqlBytesSize::Cqli16) {
                Ok(_) => {},
                Err(e) => {
                    return Err(e);
                },
            }
            proof {
                assert(buf@ =~= old(buf)@ + spec_enc_response_body(
                    response_body_view(*body),
                    version,
                ));
            }
            Ok(())
        },
        CqlResponseBody::ResultUnknown => Err(
            RCError::new("Cannot serialize an unknown result", RCErrorType::SerializeError),
        ),
        CqlResponseBody::ResponseEmpty => Err(
            RCError::new("Cannot serialize an empty placeholder", RCErrorType::SerializeError),
        ),
    }
}

} // verus!
