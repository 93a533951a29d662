//! The executable decoder: a cursor over a byte buffer whose read methods
//! are verified against the spec decoders of `format`.

use vstd::prelude::*;
use vstd::slice::slice_subrange;
use vstd::slice::slice_to_vec;
use crate::def::CqlBytesSize;
use crate::error::RCError;
use crate::error::RCErrorType;
use crate::error::RCResult;
use crate::format::opt_bytes;
use crate::def::CqlValue;
use crate::def::CqlValueType;
use crate::def::IpAddress;
use crate::format::ScalarV;
use crate::format::ValueV;
use crate::format::scalar_view;
use crate::format::value_view;
use crate::format::scalar_null_of;
use crate::format::spec_dec_scalar;
use crate::wire::spec_be_val;
use crate::def::CqlColMetadata;
use crate::def::Pair;
use crate::format::pairs_view;
use crate::format::scalars_view;
use crate::format::spec_dec_elems;
use crate::format::spec_dec_entries;
use crate::format::spec_dec_value;
use crate::def::CqlMetadata;
use crate::def::CqlRow;
use crate::def::CqlRows;
use crate::def::cql_column_type;
use crate::format::ColSpecV;
use crate::format::col_view;
use crate::format::is_single_type;
use crate::format::metadata_view;
use crate::format::row_view;
use crate::format::rows_view;
use crate::format::spec_dec_col;
use crate::format::spec_dec_cols;
use crate::format::spec_dec_metadata;
use crate::format::spec_dec_row;
use crate::format::spec_dec_rows;
use crate::format::spec_dec_rows_seq;
use crate::def::CqlEvent;
use crate::def::CqlFrameHeader;
use crate::def::CqlPreparedStat;
use crate::def::CqlResponse;
use crate::def::CqlResponseBody;
use crate::def::KindResult;
use crate::def::OpcodeResponse;
use crate::def::SchemaChangeOptions;
use crate::def::SchemaChangeType;
use crate::def::SockAddr;
use crate::def::StatusChangeType;
use crate::def::TopologyChangeType;
use crate::def::kind_result_from;
use crate::def::opcode_response;
use crate::format::event_view;
use crate::format::prepared_view;
use crate::format::response_view;
use crate::format::spec_dec_event;
use crate::format::spec_dec_header;
use crate::format::spec_dec_inet;
use crate::format::spec_dec_prepared;
use crate::format::spec_dec_response;
use crate::util::str_eq;
use crate::format::opt_chars;
use crate::format::prefix_width;
use crate::format::spec_dec_be;
use crate::format::spec_dec_len;
use crate::format::spec_dec_lp_bytes;
use crate::format::spec_dec_string;
use crate::format::spec_dec_string_nn;
use crate::format::to_signed;
use crate::util::bytes_to_string;
use crate::wire::lemma_pow256_values;
use crate::wire::read_be;

verus! {

/// A reading position inside a byte buffer. Decoding never consumes past
/// what a read returns: the cursor only moves by the bytes of the object
/// just decoded.
pub struct CqlReader {
    pub data: Vec<u8>,
    pub pos: usize,
}

impl CqlReader {
    /// A cursor at the start of `data`.
    pub fn new(data: Vec<u8>) -> (r: CqlReader)
        ensures
            r.data@ == data@,
            r.pos == 0,
    {
        CqlReader { data, pos: 0 }
    }

    /// Read a `w`-byte big-endian unsigned value.
    pub fn read_be_uint(&mut self, w: usize) -> (r: RCResult<u64>)
        requires
            1 <= w <= 8,
        ensures
            final(self).data@ == old(self).data@,
            (match r {
                Ok(v) => spec_dec_be(old(self).data@, old(self).pos as int, w as nat) == Some(
                    ((v as nat), final(self).pos as int),
                ),
                Err(_) => spec_dec_be(old(self).data@, old(self).pos as int, w as nat) is None,
            }),
    {
        let n = self.data.len();
        if w <= n && self.pos <= n - w {
            let v = read_be(self.data.as_slice(), self.pos, w);
            self.pos = self.pos + w;
            Ok(v)
        } else {
            Err(RCError::new("Unexpected end of buffer", RCErrorType::IOError))
        }
    }

    /// Read a signed length prefix of the given width.
    pub fn read_cql_bytes_length(&mut self, val_type: CqlBytesSize) -> (r: RCResult<i32>)
        ensures
            final(self).data@ == old(self).data@,
            (match r {
                Ok(l) => spec_dec_len(old(self).data@, old(self).pos as int, val_type) == Some(
                    ((l as int), final(self).pos as int),
                ),
                Err(_) => spec_dec_len(old(self).data@, old(self).pos as int, val_type) is None,
            }),
    {
        proof {
            lemma_pow256_values();
        }
        let w: usize = match val_type {
            CqlBytesSize::Cqli32 => 4,
            CqlBytesSize::Cqli16 => 2,
            CqlBytesSize::Cqli8 => 1,
        };
        match self.read_be_uint(w) {
            Ok(v) => {
                proof {
                    let sub = old(self).data@.subrange(
                        old(self).pos as int,
                        old(self).pos + w,
                    );
                    crate::wire::lemma_be_val_bound(sub);
                    assert(sub.len() == w);
                }
                let signed: i64 = match val_type {
                    CqlBytesSize::Cqli32 => if v >= 0x8000_0000 {
                        (v as i64) - 0x1_0000_0000i64
                    } else {
                        v as i64
                    },
                    CqlBytesSize::Cqli16 => if v >= 0x8000 {
                        (v as i64) - 0x1_0000i64
                    } else {
                        v as i64
                    },
                    CqlBytesSize::Cqli8 => if v >= 0x80 {
                        (v as i64) - 0x100i64
                    } else {
                        v as i64
                    },
                };
                Ok(signed as i32)
            },
            Err(e) => Err(e),
        }
    }

    /// Read length-prefixed bytes; a negative length is the NULL value.
    pub fn read_cql_bytes(&mut self, val_type: CqlBytesSize) -> (r: RCResult<Option<Vec<u8>>>)
        ensures
            final(self).data@ == old(self).data@,
            (match r {
                Ok(o) => spec_dec_lp_bytes(old(self).data@, old(self).pos as int, val_type)
                    == Some((opt_bytes(o), final(self).pos as int)),
                Err(_) => spec_dec_lp_bytes(
                    old(self).data@,
                    old(self).pos as int,
                    val_type,
                ) is None,
            }),
    {
        let l = match self.read_cql_bytes_length(val_type) {
            Ok(l) => l,
            Err(e) => {
                return Err(e);
            },
        };
        if l < 0 {
            Ok(None)
        } else {
            let ln = l as usize;
            let n = self.data.len();
            if ln <= n && self.pos <= n - ln {
                let sl = slice_subrange(self.data.as_slice(), self.pos, self.pos + ln);
                let v = slice_to_vec(sl);
                self.pos = self.pos + ln;
                Ok(Some(v))
            } else {
                Err(RCError::new("Value bytes extend past the buffer", RCErrorType::IOError))
            }
        }
    }

    /// Read a string; a negative length is NULL, invalid UTF-8 fails.
    pub fn read_cql_str(&mut self, val_type: CqlBytesSize) -> (r: RCResult<Option<String>>)
        ensures
            final(self).data@ == old(self).data@,
            (match r {
                Ok(o) => spec_dec_string(old(self).data@, old(self).pos as int, val_type) == Some(
                    (opt_chars(o), final(self).pos as int),
                ),
                Err(_) => spec_dec_string(old(self).data@, old(self).pos as int, val_type) is None,
            }),
    {
        match self.read_cql_bytes(val_type) {
            Ok(Some(b)) => match bytes_to_string(b.as_slice()) {
                Some(s) => Ok(Some(s)),
                None => Err(
                    RCError::new(
                        "Error reading string, invalid utf8 sequence",
                        RCErrorType::ReadError,
                    ),
                ),
            },
            Ok(None) => Ok(None),
            Err(e) => Err(e),
        }
    }

    /// Read a string where the grammar does not allow NULL.
    pub fn read_cql_str_required(&mut self, val_type: CqlBytesSize) -> (r: RCResult<String>)
        ensures
            final(self).data@ == old(self).data@,
            (match r {
                Ok(s) => spec_dec_string_nn(old(self).data@, old(self).pos as int, val_type)
                    == Some((s@, final(self).pos as int)),
                Err(_) => spec_dec_string_nn(
                    old(self).data@,
                    old(self).pos as int,
                    val_type,
                ) is None,
            }),
    {
        match self.read_cql_str(val_type) {
            Ok(Some(s)) => Ok(s),
            Ok(None) => Err(
                RCError::new("No data found (length == -1)", RCErrorType::NoDataError),
            ),
            Err(e) => Err(e),
        }
    }
}


impl CqlReader {
    /// Read a single (non-collection) value of the given column type, with
    /// the given length-prefix width.
    pub fn read_cql_value_single(
        &mut self,
        col_type: CqlValueType,
        val_type: CqlBytesSize,
    ) -> (r: RCResult<CqlValue>)
        ensures
            final(self).data@ == old(self).data@,
            (match r {
                Ok(v) => spec_dec_scalar(col_type, old(self).data@, old(self).pos as int, val_type)
                    == Some((scalar_view(v), final(self).pos as int)) && value_view(v)
                    == ValueV::VScalar(scalar_view(v)),
                Err(_) => spec_dec_scalar(
                    col_type,
                    old(self).data@,
                    old(self).pos as int,
                    val_type,
                ) is None,
            }),
    {
        proof {
            lemma_pow256_values();
        }
        let ob = match self.read_cql_bytes(val_type) {
            Ok(ob) => ob,
            Err(e) => {
                return Err(e);
            },
        };
        let b = match ob {
            Some(b) => b,
            None => {
                return Ok(null_value_of(col_type));
            },
        };
        let blen = b.len();
        match col_type {
            CqlValueType::ColumnASCII => match bytes_to_string(b.as_slice()) {
                Some(s) => Ok(CqlValue::CqlASCII(Some(s))),
                None => Err(RCError::new("Invalid utf8 in ascii value", RCErrorType::ReadError)),
            },
            CqlValueType::ColumnText => match bytes_to_string(b.as_slice()) {
                Some(s) => Ok(CqlValue::CqlText(Some(s))),
                None => Err(RCError::new("Invalid utf8 in text value", RCErrorType::ReadError)),
            },
            CqlValueType::ColumnVarChar => match bytes_to_string(b.as_slice()) {
                Some(s) => Ok(CqlValue::CqlVarchar(Some(s))),
                None => Err(RCError::new("Invalid utf8 in varchar value", RCErrorType::ReadError)),
            },
            CqlValueType::ColumnInt => {
                if blen != 4 {
                    return Err(RCError::new("Invalid int length", RCErrorType::ReadError));
                }
                let v = read_be(b.as_slice(), 0, 4);
                proof {
                    assert(b@.subrange(0, 4) =~= b@);
                    crate::wire::lemma_be_val_bound(b@);
                }
                let signed: i64 = if v >= 0x8000_0000 {
                    (v as i64) - 0x1_0000_0000i64
                } else {
                    v as i64
                };
                Ok(CqlValue::CqlInt(Some(signed as i32)))
            },
            CqlValueType::ColumnBigInt => match read_signed_8(&b) {
                Ok(v) => Ok(CqlValue::CqlBigInt(Some(v))),
                Err(e) => Err(e),
            },
            CqlValueType::ColumnCounter => match read_signed_8(&b) {
                Ok(v) => Ok(CqlValue::CqlCounter(Some(v))),
                Err(e) => Err(e),
            },
            CqlValueType::ColumnFloat => {
                if blen != 4 {
                    return Err(RCError::new("Invalid float length", RCErrorType::ReadError));
                }
                let v = read_be(b.as_slice(), 0, 4);
                proof {
                    assert(b@.subrange(0, 4) =~= b@);
                    crate::wire::lemma_be_val_bound(b@);
                }
                Ok(CqlValue::CqlFloat(Some(v as u32)))
            },
            CqlValueType::ColumnDouble => match read_unsigned_8(&b) {
                Ok(v) => Ok(CqlValue::CqlDouble(Some(v))),
                Err(e) => Err(e),
            },
            CqlValueType::ColumnTimestamp => match read_unsigned_8(&b) {
                Ok(v) => Ok(CqlValue::CqlTimestamp(Some(v))),
                Err(e) => Err(e),
            },
            CqlValueType::ColumnBoolean => {
                if blen != 1 {
                    return Err(RCError::new("Invalid boolean length", RCErrorType::ReadError));
                }
                Ok(CqlValue::CqlBoolean(Some(b[0] != 0)))
            },
            CqlValueType::ColumnBlob => Ok(CqlValue::CqlBlob(Some(b))),
            CqlValueType::ColumnUuid => {
                if blen != 16 {
                    return Err(RCError::new("Invalid uuid length", RCErrorType::ReadError));
                }
                Ok(CqlValue::CqlUuid(Some(b)))
            },
            CqlValueType::ColumnTimeUuid => {
                if blen != 16 {
                    return Err(RCError::new("Invalid timeuuid length", RCErrorType::ReadError));
                }
                Ok(CqlValue::CqlTimeUuid(Some(b)))
            },
            CqlValueType::ColumnInet => {
                if blen == 4 {
                    Ok(CqlValue::CqlInet(Some(IpAddress::Ipv4(b[0], b[1], b[2], b[3]))))
                } else if blen == 16 {
                    Ok(CqlValue::CqlInet(Some(read_ipv6(&b))))
                } else {
                    Err(RCError::new("Invalid inet length", RCErrorType::ReadError))
                }
            },
            CqlValueType::ColumnCustom => Ok(CqlValue::CqlUnknown),
            CqlValueType::ColumnDecimal => Ok(CqlValue::CqlUnknown),
            CqlValueType::ColumnVarint => Ok(CqlValue::CqlUnknown),
            _ => Err(
                RCError::new("Trying to read a non-single value type", RCErrorType::ReadError),
            ),
        }
    }
}

/// The NULL `CqlValue` of a single column type.
pub fn null_value_of(col_type: CqlValueType) -> (r: CqlValue)
    ensures
        scalar_view(r) == scalar_null_of(col_type),
        value_view(r) == ValueV::VScalar(scalar_view(r)),
{
    match col_type {
        CqlValueType::ColumnASCII => CqlValue::CqlASCII(None),
        CqlValueType::ColumnBigInt => CqlValue::CqlBigInt(None),
        CqlValueType::ColumnBlob => CqlValue::CqlBlob(None),
        CqlValueType::ColumnBoolean => CqlValue::CqlBoolean(None),
        CqlValueType::ColumnCounter => CqlValue::CqlCounter(None),
        CqlValueType::ColumnDouble => CqlValue::CqlDouble(None),
        CqlValueType::ColumnFloat => CqlValue::CqlFloat(None),
        CqlValueType::ColumnInet => CqlValue::CqlInet(None),
        CqlValueType::ColumnInt => CqlValue::CqlInt(None),
        CqlValueType::ColumnText => CqlValue::CqlText(None),
        CqlValueType::ColumnTimestamp => CqlValue::CqlTimestamp(None),
        CqlValueType::ColumnUuid => CqlValue::CqlUuid(None),
        CqlValueType::ColumnTimeUuid => CqlValue::CqlTimeUuid(None),
        CqlValueType::ColumnVarChar => CqlValue::CqlVarchar(None),
        _ => CqlValue::CqlUnknown,
    }
}

/// Read the signed 8-byte value filling `b`.
fn read_signed_8(b: &Vec<u8>) -> (r: RCResult<i64>)
    ensures
        (match r {
            Ok(v) => b@.len() == 8 && v as int == to_signed(spec_be_val(b@), 8),
            Err(_) => b@.len() != 8,
        }),
{
    if b.len() != 8 {
        return Err(RCError::new("Invalid 8-byte value length", RCErrorType::ReadError));
    }
    let hi = read_be(b.as_slice(), 0, 4);
    let lo = read_be(b.as_slice(), 4, 4);
    proof {
        crate::wire::lemma_be_val_bound(b@.subrange(0, 4));
        crate::wire::lemma_be_val_bound(b@.subrange(4, 8));
        crate::wire::lemma_be_val_concat(b@.subrange(0, 4), b@.subrange(4, 8));
        assert(b@.subrange(0, 4) + b@.subrange(4, 8) =~= b@);
        lemma_pow256_values();
    }
    Ok(crate::wire::be8_signed(hi, lo))
}

/// Read the unsigned 8-byte value filling `b`.
fn read_unsigned_8(b: &Vec<u8>) -> (r: RCResult<u64>)
    ensures
        (match r {
            Ok(v) => b@.len() == 8 && v as nat == spec_be_val(b@),
            Err(_) => b@.len() != 8,
        }),
{
    if b.len() != 8 {
        return Err(RCError::new("Invalid 8-byte value length", RCErrorType::ReadError));
    }
    let hi = read_be(b.as_slice(), 0, 4);
    let lo = read_be(b.as_slice(), 4, 4);
    proof {
        crate::wire::lemma_be_val_bound(b@.subrange(0, 4));
        crate::wire::lemma_be_val_bound(b@.subrange(4, 8));
        crate::wire::lemma_be_val_concat(b@.subrange(0, 4), b@.subrange(4, 8));
        assert(b@.subrange(0, 4) + b@.subrange(4, 8) =~= b@);
        lemma_pow256_values();
    }
    Ok(crate::wire::be8_unsigned(hi, lo))
}

/// Read the 16 bytes of `b` as an IPv6 address.
fn read_ipv6(b: &Vec<u8>) -> (r: IpAddress)
    requires
        b@.len() == 16,
    ensures
        r == IpAddress::Ipv6(
            spec_be_val(b@.subrange(0, 2)) as u16,
            spec_be_val(b@.subrange(2, 4)) as u16,
            spec_be_val(b@.subrange(4, 6)) as u16,
            spec_be_val(b@.subrange(6, 8)) as u16,
            spec_be_val(b@.subrange(8, 10)) as u16,
            spec_be_val(b@.subrange(10, 12)) as u16,
            spec_be_val(b@.subrange(12, 14)) as u16,
            spec_be_val(b@.subrange(14, 16)) as u16,
        ),
{
    proof {
        lemma_pow256_values();
        crate::wire::lemma_be_val_bound(b@.subrange(0, 2));
        crate::wire::lemma_be_val_bound(b@.subrange(2, 4));
        crate::wire::lemma_be_val_bound(b@.subrange(4, 6));
        crate::wire::lemma_be_val_bound(b@.subrange(6, 8));
        crate::wire::lemma_be_val_bound(b@.subrange(8, 10));
        crate::wire::lemma_be_val_bound(b@.subrange(10, 12));
        crate::wire::lemma_be_val_bound(b@.subrange(12, 14));
        crate::wire::lemma_be_val_bound(b@.subrange(14, 16));
    }
    IpAddress::Ipv6(
        read_be(b.as_slice(), 0, 2) as u16,
        read_be(b.as_slice(), 2, 2) as u16,
        read_be(b.as_slice(), 4, 2) as u16,
        read_be(b.as_slice(), 6, 2) as u16,
        read_be(b.as_slice(), 8, 2) as u16,
        read_be(b.as_slice(), 10, 2) as u16,
        read_be(b.as_slice(), 12, 2) as u16,
        read_be(b.as_slice(), 14, 2) as u16,
    )
}


impl CqlReader {
    /// Read `n` collection elements of type `ty`, mirroring the spec
    /// decoder's recursion.
    fn read_cql_elems(&mut self, ty: CqlValueType, n: usize, esz: CqlBytesSize) -> (r: RCResult<
        Vec<CqlValue>,
    >)
        ensures
            final(self).data@ == old(self).data@,
            (match r {
                Ok(vs) => spec_dec_elems(ty, old(self).data@, old(self).pos as int, n as nat, esz)
                    == Some((scalars_view(vs@), final(self).pos as int)),
                Err(_) => spec_dec_elems(
                    ty,
                    old(self).data@,
                    old(self).pos as int,
                    n as nat,
                    esz,
                ) is None,
            }),
        decreases n,
    {
        if n == 0 {
            let vs: Vec<CqlValue> = Vec::new();
            proof {
                assert(scalars_view(vs@) =~= Seq::<ScalarV>::empty());
            }
            Ok(vs)
        } else {
            let e = match self.read_cql_value_single(ty, esz) {
                Ok(e) => e,
                Err(err) => {
                    return Err(err);
                },
            };
            let mut rest = match self.read_cql_elems(ty, n - 1, esz) {
                Ok(vs) => vs,
                Err(err) => {
                    return Err(err);
                },
            };
            let ghost rest_view = scalars_view(rest@);
            rest.insert(0, e);
            proof {
                assert(scalars_view(rest@) =~= seq![scalar_view(e)] + rest_view);
            }
            Ok(rest)
        }
    }

    /// Read `n` map entries.
    fn read_cql_entries(
        &mut self,
        kt: CqlValueType,
        vt: CqlValueType,
        n: usize,
        esz: CqlBytesSize,
    ) -> (r: RCResult<Vec<Pair<CqlValue, CqlValue>>>)
        ensures
            final(self).data@ == old(self).data@,
            (match r {
                Ok(ps) => spec_dec_entries(
                    kt,
                    vt,
                    old(self).data@,
                    old(self).pos as int,
                    n as nat,
                    esz,
                ) == Some((pairs_view(ps@), final(self).pos as int)),
                Err(_) => spec_dec_entries(
                    kt,
                    vt,
                    old(self).data@,
                    old(self).pos as int,
                    n as nat,
                    esz,
                ) is None,
            }),
        decreases n,
    {
        if n == 0 {
            let ps: Vec<Pair<CqlValue, CqlValue>> = Vec::new();
            proof {
                assert(pairs_view(ps@) =~= Seq::<(ScalarV, ScalarV)>::empty());
            }
            Ok(ps)
        } else {
            let k = match self.read_cql_value_single(kt, esz) {
                Ok(k) => k,
                Err(err) => {
                    return Err(err);
                },
            };
            let v = match self.read_cql_value_single(vt, esz) {
                Ok(v) => v,
                Err(err) => {
                    return Err(err);
                },
            };
            let mut rest = match self.read_cql_entries(kt, vt, n - 1, esz) {
                Ok(ps) => ps,
                Err(err) => {
                    return Err(err);
                },
            };
            let ghost rest_view = pairs_view(rest@);
            rest.insert(0, Pair { key: k, value: v });
            proof {
                assert(pairs_view(rest@) =~= seq![(scalar_view(k), scalar_view(v))] + rest_view);
            }
            Ok(rest)
        }
    }

    /// Read a column value under its column specification: a single value,
    /// or a collection whose declared byte length must be consumed exactly.
    pub fn read_cql_value(&mut self, col_meta: &CqlColMetadata, collection_size: CqlBytesSize) -> (r:
        RCResult<CqlValue>)
        ensures
            final(self).data@ == old(self).data@,
            (match r {
                Ok(v) => spec_dec_value(
                    col_meta.col_type,
                    col_meta.col_type_aux1,
                    col_meta.col_type_aux2,
                    old(self).data@,
                    old(self).pos as int,
                    collection_size,
                ) == Some((value_view(v), final(self).pos as int)),
                Err(_) => spec_dec_value(
                    col_meta.col_type,
                    col_meta.col_type_aux1,
                    col_meta.col_type_aux2,
                    old(self).data@,
                    old(self).pos as int,
                    collection_size,
                ) is None,
            }),
    {
        let is_list = match col_meta.col_type {
            CqlValueType::ColumnList => true,
            _ => false,
        };
        let is_set = match col_meta.col_type {
            CqlValueType::ColumnSet => true,
            _ => false,
        };
        let is_map = match col_meta.col_type {
            CqlValueType::ColumnMap => true,
            _ => false,
        };
        if !is_list && !is_set && !is_map {
            return match self.read_cql_value_single(col_meta.col_type, CqlBytesSize::Cqli32) {
                Ok(v) => Ok(v),
                Err(e) => Err(e),
            };
        }
        let l = match self.read_cql_bytes_length(CqlBytesSize::Cqli32) {
            Ok(l) => l,
            Err(e) => {
                return Err(e);
            },
        };
        if l < 0 {
            return if is_list {
                Ok(CqlValue::CqlList(None))
            } else if is_set {
                Ok(CqlValue::CqlSet(None))
            } else {
                Ok(CqlValue::CqlMap(None))
            };
        }
        let ln = l as usize;
        let n0 = self.data.len();
        if !(ln <= n0 && self.pos <= n0 - ln) {
            return Err(RCError::new("Collection bytes extend past the buffer", RCErrorType::IOError));
        }
        let end = self.pos + ln;
        let ghost p_cnt = self.pos as int;
        let c = match self.read_cql_bytes_length(collection_size) {
            Ok(c) => c,
            Err(e) => {
                return Err(e);
            },
        };
        proof {
            lemma_pow256_values();
            let w = prefix_width(collection_size);
            if spec_dec_be(old(self).data@, p_cnt, w) is Some {
                let sub = old(self).data@.subrange(p_cnt, p_cnt + w);
                crate::wire::lemma_be_val_bound(sub);
                assert(sub.len() == w);
            }
        }
        if c < 0 {
            return Err(RCError::new("Negative collection count", RCErrorType::ReadError));
        }
        let cnt = c as usize;
        if is_map {
            let ps = match self.read_cql_entries(
                col_meta.col_type_aux1,
                col_meta.col_type_aux2,
                cnt,
                collection_size,
            ) {
                Ok(ps) => ps,
                Err(e) => {
                    return Err(e);
                },
            };
            if self.pos != end {
                return Err(RCError::new("Collection length mismatch", RCErrorType::ReadError));
            }
            Ok(CqlValue::CqlMap(Some(ps)))
        } else {
            let es = match self.read_cql_elems(col_meta.col_type_aux1, cnt, collection_size) {
                Ok(es) => es,
                Err(e) => {
                    return Err(e);
                },
            };
            if self.pos != end {
                return Err(RCError::new("Collection length mismatch", RCErrorType::ReadError));
            }
            if is_list {
                Ok(CqlValue::CqlList(Some(es)))
            } else {
                Ok(CqlValue::CqlSet(Some(es)))
            }
        }
    }
}


/// Exec counterpart of [`crate::format::is_single_type`].
pub fn single_type(ty: CqlValueType) -> (r: bool)
    ensures
        r == is_single_type(ty),
{
    match ty {
        CqlValueType::ColumnList => false,
        CqlValueType::ColumnMap => false,
        CqlValueType::ColumnSet => false,
        CqlValueType::ColumnUnknown => false,
        _ => true,
    }
}

/// Models of a column-specification sequence.
pub open spec fn cols_view(cs: Seq<CqlColMetadata>) -> Seq<ColSpecV> {
    cs.map_values(|c: CqlColMetadata| col_view(c))
}

impl CqlReader {
    /// Read one column specification. Under a global table spec the
    /// keyspace and table are taken from the caller.
    fn read_cql_col(&mut self, global: bool, gks: &String, gtb: &String) -> (r: RCResult<
        CqlColMetadata,
    >)
        ensures
            final(self).data@ == old(self).data@,
            (match r {
                Ok(c) => spec_dec_col(old(self).data@, old(self).pos as int, global, gks@, gtb@)
                    == Some((col_view(c), final(self).pos as int)),
                Err(_) => spec_dec_col(
                    old(self).data@,
                    old(self).pos as int,
                    global,
                    gks@,
                    gtb@,
                ) is None,
            }),
    {
        let (keyspace, table) = if global {
            (gks.clone(), gtb.clone())
        } else {
            let ks = match self.read_cql_str_required(CqlBytesSize::Cqli16) {
                Ok(s) => s,
                Err(e) => {
                    return Err(e);
                },
            };
            let tb = match self.read_cql_str_required(CqlBytesSize::Cqli16) {
                Ok(s) => s,
                Err(e) => {
                    return Err(e);
                },
            };
            (ks, tb)
        };
        let col_name = match self.read_cql_str_required(CqlBytesSize::Cqli16) {
            Ok(s) => s,
            Err(e) => {
                return Err(e);
            },
        };
        let tk = match self.read_be_uint(2) {
            Ok(v) => v,
            Err(e) => {
                return Err(e);
            },
        };
        proof {
            lemma_pow256_values();
            let sub = old(self).data@.subrange(
                self.pos - 2,
                self.pos as int,
            );
            crate::wire::lemma_be_val_bound(sub);
            assert(sub.len() == 2);
        }
        let ty = cql_column_type(tk as u16);
        if single_type(ty) == false && !(ty == CqlValueType::ColumnList || ty
            == CqlValueType::ColumnMap || ty == CqlValueType::ColumnSet) {
            return Err(RCError::new("Unknown column type key", RCErrorType::ReadError));
        }
        let mut aux1 = CqlValueType::ColumnUnknown;
        let mut aux2 = CqlValueType::ColumnUnknown;
        if tk >= 0x20 {
            let ak1 = match self.read_be_uint(2) {
                Ok(v) => v,
                Err(e) => {
                    return Err(e);
                },
            };
            let a1 = cql_column_type(ak1 as u16);
            if !single_type(a1) {
                return Err(RCError::new("Invalid element type key", RCErrorType::ReadError));
            }
            aux1 = a1;
            if tk == 0x21 {
                let ak2 = match self.read_be_uint(2) {
                    Ok(v) => v,
                    Err(e) => {
                        return Err(e);
                    },
                };
                let a2 = cql_column_type(ak2 as u16);
                if !single_type(a2) {
                    return Err(RCError::new("Invalid value type key", RCErrorType::ReadError));
                }
                aux2 = a2;
            }
        }
        Ok(
            CqlColMetadata {
                keyspace,
                table,
                col_name,
                col_type: ty,
                col_type_aux1: aux1,
                col_type_aux2: aux2,
            },
        )
    }

    /// Read `n` column specifications.
    fn read_cql_cols(&mut self, n: u32, global: bool, gks: &String, gtb: &String) -> (r: RCResult<
        Vec<CqlColMetadata>,
    >)
        ensures
            final(self).data@ == old(self).data@,
            (match r {
                Ok(cs) => spec_dec_cols(
                    old(self).data@,
                    old(self).pos as int,
                    n as nat,
                    global,
                    gks@,
                    gtb@,
                ) == Some((cols_view(cs@), final(self).pos as int)),
                Err(_) => spec_dec_cols(
                    old(self).data@,
                    old(self).pos as int,
                    n as nat,
                    global,
                    gks@,
                    gtb@,
                ) is None,
            }),
        decreases n,
    {
        if n == 0 {
            let cs: Vec<CqlColMetadata> = Vec::new();
            proof {
                assert(cols_view(cs@) =~= Seq::<ColSpecV>::empty());
            }
            Ok(cs)
        } else {
            let c = match self.read_cql_col(global, gks, gtb) {
                Ok(c) => c,
                Err(e) => {
                    return Err(e);
                },
            };
            let mut rest = match self.read_cql_cols(n - 1, global, gks, gtb) {
                Ok(cs) => cs,
                Err(e) => {
                    return Err(e);
                },
            };
            let ghost rest_view = cols_view(rest@);
            rest.insert(0, c);
            proof {
                assert(cols_view(rest@) =~= seq![col_view(c)] + rest_view);
            }
            Ok(rest)
        }
    }

    /// Read rows metadata: flags, column count, the global table pair when
    /// flagged, then the column specifications.
    pub fn read_cql_metadata(&mut self) -> (r: RCResult<CqlMetadata>)
        ensures
            final(self).data@ == old(self).data@,
            (match r {
                Ok(m) => spec_dec_metadata(old(self).data@, old(self).pos as int) == Some(
                    (metadata_view(m), final(self).pos as int),
                ),
                Err(_) => spec_dec_metadata(old(self).data@, old(self).pos as int) is None,
            }),
    {
        let flags64 = match self.read_be_uint(4) {
            Ok(v) => v,
            Err(e) => {
                return Err(e);
            },
        };
        proof {
            lemma_pow256_values();
            let sub = old(self).data@.subrange(self.pos - 4, self.pos as int);
            crate::wire::lemma_be_val_bound(sub);
            assert(sub.len() == 4);
        }
        let flags = flags64 as u32;
        let ghost p_cc = self.pos as int;
        let cc64 = match self.read_be_uint(4) {
            Ok(v) => v,
            Err(e) => {
                return Err(e);
            },
        };
        proof {
            let sub = old(self).data@.subrange(p_cc, self.pos as int);
            crate::wire::lemma_be_val_bound(sub);
            assert(sub.len() == 4);
        }
        let column_count = cc64 as u32;
        let global = flags % 2 == 1;
        let (keyspace, table) = if global {
            let ks = match self.read_cql_str_required(CqlBytesSize::Cqli16) {
                Ok(s) => s,
                Err(e) => {
                    return Err(e);
                },
            };
            let tb = match self.read_cql_str_required(CqlBytesSize::Cqli16) {
                Ok(s) => s,
                Err(e) => {
                    return Err(e);
                },
            };
            (ks, tb)
        } else {
            (String::new(), String::new())
        };
        let row_metadata = match self.read_cql_cols(column_count, global, &keyspace, &table) {
            Ok(cs) => cs,
            Err(e) => {
                return Err(e);
            },
        };
        Ok(CqlMetadata { flags, column_count, keyspace, table, row_metadata })
    }

    /// Read one row: a value under each column specification in order.
    fn read_cql_row(&mut self, cols: &[CqlColMetadata], esz: CqlBytesSize) -> (r: RCResult<CqlRow>)
        ensures
            final(self).data@ == old(self).data@,
            (match r {
                Ok(row) => spec_dec_row(cols_view(cols@), old(self).data@, old(self).pos as int, esz)
                    == Some((row_view(row), final(self).pos as int)),
                Err(_) => spec_dec_row(
                    cols_view(cols@),
                    old(self).data@,
                    old(self).pos as int,
                    esz,
                ) is None,
            }),
        decreases cols@.len(),
    {
        if cols.len() == 0 {
            let row = CqlRow { cols: Vec::new() };
            proof {
                assert(row_view(row) =~= Seq::<ValueV>::empty());
                assert(cols_view(cols@) =~= Seq::<ColSpecV>::empty());
            }
            Ok(row)
        } else {
            let v = match self.read_cql_value(&cols[0], esz) {
                Ok(v) => v,
                Err(e) => {
                    return Err(e);
                },
            };
            let restc = slice_subrange(cols, 1, cols.len());
            proof {
                assert(cols_view(restc@) =~= cols_view(cols@).drop_first());
                assert(cols_view(cols@)[0] == col_view(cols@[0]));
            }
            let mut rest = match self.read_cql_row(restc, esz) {
                Ok(row) => row,
                Err(e) => {
                    return Err(e);
                },
            };
            let ghost rest_view = row_view(rest);
            rest.cols.insert(0, v);
            proof {
                assert(row_view(rest) =~= seq![value_view(v)] + rest_view);
            }
            Ok(rest)
        }
    }

    /// Read `n` rows.
    fn read_cql_rows_seq(&mut self, cols: &[CqlColMetadata], n: u32, esz: CqlBytesSize) -> (r:
        RCResult<Vec<CqlRow>>)
        ensures
            final(self).data@ == old(self).data@,
            (match r {
                Ok(rows) => spec_dec_rows_seq(
                    cols_view(cols@),
                    old(self).data@,
                    old(self).pos as int,
                    n as nat,
                    esz,
                ) == Some((rows@.map_values(|row: CqlRow| row_view(row)), final(self).pos as int)),
                Err(_) => spec_dec_rows_seq(
                    cols_view(cols@),
                    old(self).data@,
                    old(self).pos as int,
                    n as nat,
                    esz,
                ) is None,
            }),
        decreases n,
    {
        if n == 0 {
            let rows: Vec<CqlRow> = Vec::new();
            proof {
                assert(rows@.map_values(|row: CqlRow| row_view(row)) =~= Seq::<
                    Seq<ValueV>,
                >::empty());
            }
            Ok(rows)
        } else {
            let row = match self.read_cql_row(cols, esz) {
                Ok(row) => row,
                Err(e) => {
                    return Err(e);
                },
            };
            let mut rest = match self.read_cql_rows_seq(cols, n - 1, esz) {
                Ok(rows) => rows,
                Err(e) => {
                    return Err(e);
                },
            };
            let ghost rest_view = rest@.map_values(|r0: CqlRow| row_view(r0));
            let ghost row_v = row_view(row);
            rest.insert(0, row);
            proof {
                assert(rest@.map_values(|r0: CqlRow| row_view(r0)) =~= seq![row_v] + rest_view);
            }
            Ok(rest)
        }
    }

    /// Read a ROWS result body: metadata, row count, rows.
    pub fn read_cql_rows(&mut self, collection_size: CqlBytesSize) -> (r: RCResult<CqlRows>)
        ensures
            final(self).data@ == old(self).data@,
            (match r {
                Ok(rows) => spec_dec_rows(old(self).data@, old(self).pos as int, collection_size)
                    == Some((rows_view(rows), final(self).pos as int)),
                Err(_) => spec_dec_rows(
                    old(self).data@,
                    old(self).pos as int,
                    collection_size,
                ) is None,
            }),
    {
        let metadata = match self.read_cql_metadata() {
            Ok(m) => m,
            Err(e) => {
                return Err(e);
            },
        };
        let ghost p_rc = self.pos as int;
        let rc64 = match self.read_be_uint(4) {
            Ok(v) => v,
            Err(e) => {
                return Err(e);
            },
        };
        proof {
            lemma_pow256_values();
            let sub = old(self).data@.subrange(p_rc, self.pos as int);
            crate::wire::lemma_be_val_bound(sub);
            assert(sub.len() == 4);
        }
        let rows = match self.read_cql_rows_seq(
            metadata.row_metadata.as_slice(),
            rc64 as u32,
            collection_size,
        ) {
            Ok(rows) => rows,
            Err(e) => {
                return Err(e);
            },
        };
        Ok(CqlRows { metadata, rows })
    }
}


impl CqlReader {
    /// Read the inet address of an event body.
    fn read_cql_inet(&mut self) -> (r: RCResult<IpAddress>)
        ensures
            final(self).data@ == old(self).data@,
            (match r {
                Ok(ip) => spec_dec_inet(old(self).data@, old(self).pos as int) == Some(
                    (ip, final(self).pos as int),
                ),
                Err(_) => spec_dec_inet(old(self).data@, old(self).pos as int) is None,
            }),
    {
        match self.read_cql_bytes(CqlBytesSize::Cqli16) {
            Ok(Some(b)) => if b.len() == 4 {
                Ok(IpAddress::Ipv4(b[0], b[1], b[2], b[3]))
            } else if b.len() == 16 {
                Ok(read_ipv6(&b))
            } else {
                Err(RCError::new("Invalid inet address length", RCErrorType::ReadError))
            },
            Ok(None) => Err(RCError::new("Missing inet address", RCErrorType::ReadError)),
            Err(e) => Err(e),
        }
    }

    /// Read an EVENT body. The wire carries only the IP; the decoded event
    /// pairs it with the default port.
    pub fn read_cql_event(&mut self) -> (r: RCResult<CqlEvent>)
        ensures
            final(self).data@ == old(self).data@,
            (match r {
                Ok(e) => spec_dec_event(old(self).data@, old(self).pos as int) == Some(
                    (event_view(e), final(self).pos as int),
                ),
                Err(_) => spec_dec_event(old(self).data@, old(self).pos as int) is None,
            }),
    {
        let et = match self.read_cql_str_required(CqlBytesSize::Cqli16) {
            Ok(s) => s,
            Err(e) => {
                return Err(e);
            },
        };
        if str_eq(et.as_str(), "TOPOLOGY_CHANGE") {
            let ct = match self.read_cql_str_required(CqlBytesSize::Cqli16) {
                Ok(s) => s,
                Err(e) => {
                    return Err(e);
                },
            };
            let ip = match self.read_cql_inet() {
                Ok(ip) => ip,
                Err(e) => {
                    return Err(e);
                },
            };
            Ok(
                CqlEvent::TopologyChange(
                    TopologyChangeType::from_str(ct.as_str()),
                    SockAddr { ip, port: crate::CQL_DEFAULT_PORT },
                ),
            )
        } else if str_eq(et.as_str(), "STATUS_CHANGE") {
            let ct = match self.read_cql_str_required(CqlBytesSize::Cqli16) {
                Ok(s) => s,
                Err(e) => {
                    return Err(e);
                },
            };
            let ip = match self.read_cql_inet() {
                Ok(ip) => ip,
                Err(e) => {
                    return Err(e);
                },
            };
            Ok(
                CqlEvent::StatusChange(
                    StatusChangeType::from_str(ct.as_str()),
                    SockAddr { ip, port: crate::CQL_DEFAULT_PORT },
                ),
            )
        } else if str_eq(et.as_str(), "SCHEMA_CHANGE") {
            let ct = match self.read_cql_str_required(CqlBytesSize::Cqli16) {
                Ok(s) => s,
                Err(e) => {
                    return Err(e);
                },
            };
            let target = match self.read_cql_str_required(CqlBytesSize::Cqli16) {
                Ok(s) => s,
                Err(e) => {
                    return Err(e);
                },
            };
            let opts = if str_eq(target.as_str(), "KEYSPACE") {
                let k = match self.read_cql_str_required(CqlBytesSize::Cqli16) {
                    Ok(s) => s,
                    Err(e) => {
                        return Err(e);
                    },
                };
                SchemaChangeOptions::Keyspace(k)
            } else if str_eq(target.as_str(), "TABLE") {
                let a = match self.read_cql_str_required(CqlBytesSize::Cqli16) {
                    Ok(s) => s,
                    Err(e) => {
                        return Err(e);
                    },
                };
                let b = match self.read_cql_str_required(CqlBytesSize::Cqli16) {
                    Ok(s) => s,
                    Err(e) => {
                        return Err(e);
                    },
                };
                SchemaChangeOptions::Table(a, b)
            } else if str_eq(target.as_str(), "TYPE") {
                let a = match self.read_cql_str_required(CqlBytesSize::Cqli16) {
                    Ok(s) => s,
                    Err(e) => {
                        return Err(e);
                    },
                };
                let b = match self.read_cql_str_required(CqlBytesSize::Cqli16) {
                    Ok(s) => s,
                    Err(e) => {
                        return Err(e);
                    },
                };
                SchemaChangeOptions::Type(a, b)
            } else {
                return Err(RCError::new("Unknown schema change target", RCErrorType::ReadError));
            };
            Ok(CqlEvent::SchemaChange(SchemaChangeType::from_str(ct.as_str()), opts))
        } else {
            Err(RCError::new("Unknown EventType", RCErrorType::ReadError))
        }
    }

    /// Read a frame header; the negotiated version decides its shape.
    pub fn read_cql_frame_header(&mut self, version: u8) -> (r: RCResult<CqlFrameHeader>)
        ensures
            final(self).data@ == old(self).data@,
            (match r {
                Ok(h) => spec_dec_header(old(self).data@, old(self).pos as int, version) == Some(
                    (h, final(self).pos as int),
                ),
                Err(_) => spec_dec_header(old(self).data@, old(self).pos as int, version) is None,
            }),
    {
        let hl: usize = if version >= 3 {
            5
        } else {
            4
        };
        let n = self.data.len();
        if !(hl <= n && self.pos <= n - hl) {
            return Err(RCError::new("Frame header extends past the buffer", RCErrorType::IOError));
        }
        proof {
            lemma_pow256_values();
        }
        let vb = self.data[self.pos];
        let fb = self.data[self.pos + 1];
        if version >= 3 {
            let sv = read_be(self.data.as_slice(), self.pos + 2, 2);
            proof {
                crate::wire::lemma_be_val_bound(
                    self.data@.subrange(self.pos + 2, self.pos + 4),
                );
            }
            let stream: i16 = if sv >= 0x8000 {
                ((sv as i64) - 0x1_0000i64) as i16
            } else {
                sv as i16
            };
            let op = self.data[self.pos + 4];
            self.pos = self.pos + 5;
            Ok(CqlFrameHeader { version: vb, flags: fb, stream, opcode: op })
        } else {
            let sb = self.data[self.pos + 2];
            proof {
                assert(spec_be_val(Seq::<u8>::empty()) == 0);
            }
            let stream: i16 = if sb >= 0x80 {
                ((sb as i16) - 0x100i16) as i16
            } else {
                sb as i16
            };
            let op = self.data[self.pos + 3];
            self.pos = self.pos + 4;
            Ok(CqlFrameHeader { version: vb, flags: fb, stream, opcode: op })
        }
    }

    /// Read a PREPARED result body.
    fn read_cql_preps(&mut self, version: u8) -> (r: RCResult<CqlPreparedStat>)
        ensures
            final(self).data@ == old(self).data@,
            (match r {
                Ok(p) => spec_dec_prepared(old(self).data@, old(self).pos as int, version) == Some(
                    (prepared_view(p), final(self).pos as int),
                ),
                Err(_) => spec_dec_prepared(
                    old(self).data@,
                    old(self).pos as int,
                    version,
                ) is None,
            }),
    {
        let id = match self.read_cql_bytes(CqlBytesSize::Cqli16) {
            Ok(Some(id)) => id,
            Ok(None) => {
                return Err(RCError::new("Missing prepared id", RCErrorType::ReadError));
            },
            Err(e) => {
                return Err(e);
            },
        };
        let meta = match self.read_cql_metadata() {
            Ok(m) => m,
            Err(e) => {
                return Err(e);
            },
        };
        let meta_result = if version >= 2 {
            match self.read_cql_metadata() {
                Ok(m) => Some(m),
                Err(e) => {
                    return Err(e);
                },
            }
        } else {
            None
        };
        Ok(CqlPreparedStat { id, meta, meta_result })
    }

    #[verifier::rlimit(60)]
    /// Read one response frame. Exactly the declared body length is
    /// consumed, whether or not the body parse used all of it: the next
    /// frame starts at the boundary the length prefix gives.
    pub fn read_cql_response(&mut self, version: u8) -> (r: RCResult<CqlResponse>)
        ensures
            final(self).data@ == old(self).data@,
            (match r {
                Ok(resp) => spec_dec_response(old(self).data@, old(self).pos as int, version)
                    == Some((response_view(resp), final(self).pos as int)),
                Err(_) => spec_dec_response(
                    old(self).data@,
                    old(self).pos as int,
                    version,
                ) is None,
            }),
    {
        let header = match self.read_cql_frame_header(version) {
            Ok(h) => h,
            Err(e) => {
                return Err(e);
            },
        };
        let l = match self.read_cql_bytes_length(CqlBytesSize::Cqli32) {
            Ok(l) => l,
            Err(e) => {
                return Err(e);
            },
        };
        let blen: usize = if l < 0 {
            0
        } else {
            l as usize
        };
        let n = self.data.len();
        if !(blen <= n && self.pos <= n - blen) {
            return Err(RCError::new("Frame body extends past the buffer", RCErrorType::IOError));
        }
        let sl = slice_subrange(self.data.as_slice(), self.pos, self.pos + blen);
        let body_vec = slice_to_vec(sl);
        self.pos = self.pos + blen;
        let mut body_reader = CqlReader::new(body_vec);
        let opcode = opcode_response(header.opcode);
        let body = match opcode {
            OpcodeResponse::OpcodeReady => CqlResponseBody::ResponseReady,
            OpcodeResponse::OpcodeAuthenticate => {
                match body_reader.read_cql_str_required(CqlBytesSize::Cqli16) {
                    Ok(s) => CqlResponseBody::ResponseAuthenticate(s),
                    Err(e) => {
                        return Err(e);
                    },
                }
            },
            OpcodeResponse::OpcodeError => {
                let code = match body_reader.read_be_uint(4) {
                    Ok(v) => v,
                    Err(e) => {
                        return Err(e);
                    },
                };
                proof {
                    lemma_pow256_values();
                    let sub = body_reader.data@.subrange(0, 4);
                    crate::wire::lemma_be_val_bound(sub);
                    assert(sub.len() == 4);
                }
                match body_reader.read_cql_str_required(CqlBytesSize::Cqli16) {
                    Ok(m) => CqlResponseBody::ResponseError(code as u32, m),
                    Err(e) => {
                        return Err(e);
                    },
                }
            },
            OpcodeResponse::OpcodeResult => {
                let k = match body_reader.read_be_uint(4) {
                    Ok(v) => v,
                    Err(e) => {
                        return Err(e);
                    },
                };
                proof {
                    lemma_pow256_values();
                    let sub = body_reader.data@.subrange(0, 4);
                    crate::wire::lemma_be_val_bound(sub);
                    assert(sub.len() == 4);
                }
                match kind_result_from(k as u32) {
                    Some(KindResult::KindVoid) => CqlResponseBody::ResultVoid,
                    Some(KindResult::KindRows) => {
                        let collection_size = if version >= 3 {
                            CqlBytesSize::Cqli32
                        } else {
                            CqlBytesSize::Cqli16
                        };
                        match body_reader.read_cql_rows(collection_size) {
                            Ok(rows) => CqlResponseBody::ResultRows(rows),
                            Err(e) => {
                                return Err(e);
                            },
                        }
                    },
                    Some(KindResult::KindSetKeyspace) => {
                        match body_reader.read_cql_str_required(CqlBytesSize::Cqli16) {
                            Ok(s) => CqlResponseBody::ResultKeyspace(s),
                            Err(e) => {
                                return Err(e);
                            },
                        }
                    },
                    Some(KindResult::KindSchemaChange) => {
                        let a = match body_reader.read_cql_str_required(CqlBytesSize::Cqli16) {
                            Ok(s) => s,
                            Err(e) => {
                                return Err(e);
                            },
                        };
                        let b = match body_reader.read_cql_str_required(CqlBytesSize::Cqli16) {
                            Ok(s) => s,
                            Err(e) => {
                                return Err(e);
                            },
                        };
                        let c = match body_reader.read_cql_str_required(CqlBytesSize::Cqli16) {
                            Ok(s) => s,
                            Err(e) => {
                                return Err(e);
                            },
                        };
                        CqlResponseBody::ResultSchemaChange(a, b, c)
                    },
                    Some(KindResult::KindPrepared) => {
                        match body_reader.read_cql_preps(version) {
                            Ok(p) => CqlResponseBody::ResultPrepared(p),
                            Err(e) => {
                                return Err(e);
                            },
                        }
                    },
                    None => {
                        return Err(
                            RCError::new(
                                "Error reading response body (unknown result kind)",
                                RCErrorType::ReadError,
                            ),
                        );
                    },
                }
            },
            OpcodeResponse::OpcodeAuthChallenge => {
                match body_reader.read_cql_bytes(CqlBytesSize::Cqli16) {
                    Ok(Some(t)) => CqlResponseBody::ResponseAuthChallenge(t),
                    Ok(None) => CqlResponseBody::ResponseAuthChallenge(Vec::new()),
                    Err(e) => {
                        return Err(e);
                    },
                }
            },
            OpcodeResponse::OpcodeAuthSuccess => {
                match body_reader.read_cql_bytes(CqlBytesSize::Cqli16) {
                    Ok(Some(t)) => CqlResponseBody::ResponseAuthSuccess(t),
                    Ok(None) => CqlResponseBody::ResponseAuthSuccess(Vec::new()),
                    Err(e) => {
                        return Err(e);
                    },
                }
            },
            OpcodeResponse::OpcodeEvent => {
                match body_reader.read_cql_event() {
                    Ok(e) => CqlResponseBody::ResponseEvent(e),
                    Err(e) => {
                        return Err(e);
                    },
                }
            },
            _ => CqlResponseBody::ResultUnknown,
        };
        Ok(
            CqlResponse {
                version: header.version,
                flags: header.flags,
                stream: header.stream,
                opcode,
                body,
            },
        )
    }
}

} // verus!
