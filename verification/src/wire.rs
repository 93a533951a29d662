//! Byte-level primitives of the wire format: big-endian integers and
//! length-prefixed payloads, as spec functions over `Seq<u8>` together with
//! verified writers into a `Vec<u8>`.

use vstd::prelude::*;

verus! {

/// 256 to the power `w`: the number of values a `w`-byte field can carry.
pub open spec fn pow256(w: nat) -> nat
    decreases w,
{
    if w == 0 {
        1
    } else {
        256 * pow256((w - 1) as nat)
    }
}

/// Big-endian encoding of `n` on `w` bytes (most significant byte first).
/// If `n` does not fit, the high bits are silently dropped; writers only use
/// it with `n < pow256(w)`.
pub open spec fn spec_be_bytes(n: nat, w: nat) -> Seq<u8>
    decreases w,
{
    if w == 0 {
        seq![]
    } else {
        spec_be_bytes(n / 256, (w - 1) as nat) + seq![(n % 256) as u8]
    }
}

/// The value of a big-endian byte string.
pub open spec fn spec_be_val(s: Seq<u8>) -> nat
    decreases s.len(),
{
    if s.len() == 0 {
        0
    } else {
        (spec_be_val(s.drop_last()) * 256 + s.last()) as nat
    }
}

pub proof fn lemma_be_bytes_len(n: nat, w: nat)
    ensures
        spec_be_bytes(n, w).len() == w,
    decreases w,
{
    if w > 0 {
        lemma_be_bytes_len(n / 256, (w - 1) as nat);
    }
}

/// Reading back the big-endian encoding of `n` yields `n`, provided `n` fits
/// on `w` bytes.
pub proof fn lemma_be_roundtrip(n: nat, w: nat)
    requires
        n < pow256(w),
    ensures
        spec_be_bytes(n, w).len() == w,
        spec_be_val(spec_be_bytes(n, w)) == n,
    decreases w,
{
    lemma_be_bytes_len(n, w);
    if w == 0 {
    } else {
        let rest = spec_be_bytes(n / 256, (w - 1) as nat);
        let whole = spec_be_bytes(n, w);
        assert(whole =~= rest + seq![(n % 256) as u8]);
        assert(whole.drop_last() =~= rest);
        assert(whole.last() == (n % 256) as u8);
        assert(n / 256 < pow256((w - 1) as nat)) by (nonlinear_arith)
            requires
                n < 256 * pow256((w - 1) as nat),
        ;
        lemma_be_roundtrip(n / 256, (w - 1) as nat);
        assert(n % 256 < 256);
        assert((n % 256) as u8 as nat == n % 256);
        assert(spec_be_val(whole) == (n / 256) * 256 + n % 256);
        assert((n / 256) * 256 + n % 256 == n) by (nonlinear_arith);
    }
}

/// The value of a big-endian byte string fits on its width.
pub proof fn lemma_be_val_bound(s: Seq<u8>)
    ensures
        spec_be_val(s) < pow256(s.len()),
    decreases s.len(),
{
    if s.len() > 0 {
        lemma_be_val_bound(s.drop_last());
        let p = pow256((s.len() - 1) as nat);
        assert(spec_be_val(s.drop_last()) * 256 + s.last() < 256 * p) by (nonlinear_arith)
            requires
                spec_be_val(s.drop_last()) < p,
                s.last() < 256,
        ;
    }
}

/// Appending to a big-endian byte string: the value of `s + [b]`.
pub proof fn lemma_be_val_snoc(s: Seq<u8>, b: u8)
    ensures
        spec_be_val(s + seq![b]) == spec_be_val(s) * 256 + b,
{
    let t = s + seq![b];
    assert(t.drop_last() =~= s);
    assert(t.last() == b);
}

/// Append the `w`-byte big-endian encoding of `n` to `buf`.
pub fn write_be(buf: &mut Vec<u8>, n: u64, w: usize)
    requires
        w <= 8,
        (n as nat) < pow256(w as nat),
    ensures
        final(buf)@ == old(buf)@ + spec_be_bytes(n as nat, w as nat),
    decreases w,
{
    if w == 0 {
        assert(buf@ =~= old(buf)@ + spec_be_bytes(n as nat, 0));
    } else {
        proof {
            assert((n / 256) as nat == n as nat / 256);
            assert((n as nat) / 256 < pow256((w - 1) as nat)) by (nonlinear_arith)
                requires
                    (n as nat) < 256 * pow256((w - 1) as nat),
            ;
        }
        write_be(buf, n / 256, w - 1);
        buf.push((n % 256) as u8);
        proof {
            assert((n % 256) as u8 == ((n as nat) % 256) as u8);
            assert(buf@ =~= old(buf)@ + spec_be_bytes(n as nat, w as nat));
        }
    }
}

/// Read the `w`-byte big-endian value at `pos`.
pub fn read_be(s: &[u8], pos: usize, w: usize) -> (r: u64)
    requires
        w <= 8,
        pos + w <= s@.len(),
    ensures
        r as nat == spec_be_val(s@.subrange(pos as int, pos + w)),
{
    let slen: usize = s.len();
    let mut acc: u64 = 0;
    let mut i: usize = 0;
    proof {
        assert(s@.subrange(pos as int, pos as int) =~= Seq::<u8>::empty());
    }
    while i < w
        invariant
            i <= w,
            w <= 8,
            pos + w <= slen,
            slen == s@.len(),
            acc as nat == spec_be_val(s@.subrange(pos as int, pos + i)),
            (acc as nat) < pow256(i as nat),
        decreases w - i,
    {
        let b = s[pos + i];
        proof {
            let prefix = s@.subrange(pos as int, pos + i);
            let next = s@.subrange(pos as int, pos + i + 1);
            assert(next =~= prefix + seq![s@[pos + i]]);
            lemma_be_val_snoc(prefix, s@[pos + i]);
            assert((acc as nat) * 256 + b < 256 * pow256(i as nat)) by (nonlinear_arith)
                requires
                    (acc as nat) < pow256(i as nat),
                    b < 256,
            ;
            assert(256 * pow256(i as nat) == pow256((i + 1) as nat));
            lemma_pow256_le((i + 1) as nat, 8);
            lemma_pow256_values();
        }
        acc = acc * 256 + (b as u64);
        i = i + 1;
    }
    acc
}

/// The value of a concatenation: the left part shifted by the width of the
/// right part.
pub proof fn lemma_be_val_concat(a: Seq<u8>, b: Seq<u8>)
    ensures
        spec_be_val(a + b) == spec_be_val(a) * pow256(b.len()) + spec_be_val(b),
    decreases b.len(),
{
    if b.len() == 0 {
        assert(a + b =~= a);
        assert(spec_be_val(a) * 1 == spec_be_val(a)) by (nonlinear_arith);
    } else {
        let b0 = b.drop_last();
        lemma_be_val_concat(a, b0);
        assert((a + b).drop_last() =~= a + b0);
        assert((a + b).last() == b.last());
        assert(spec_be_val(a + b) == spec_be_val(a + b0) * 256 + b.last());
        assert((spec_be_val(a) * pow256(b0.len()) + spec_be_val(b0)) * 256 + b.last()
            == spec_be_val(a) * (256 * pow256(b0.len())) + (spec_be_val(b0) * 256 + b.last()))
            by (nonlinear_arith);
        assert(pow256(b.len()) == 256 * pow256(b0.len()));
    }
}

/// Combine two big-endian halves into the unsigned 8-byte value.
pub fn be8_unsigned(hi: u64, lo: u64) -> (r: u64)
    requires
        hi < 0x1_0000_0000,
        lo < 0x1_0000_0000,
    ensures
        r == hi * 0x1_0000_0000 + lo,
{
    hi * 0x1_0000_0000u64 + lo
}

/// Combine two big-endian halves into the signed (two's complement) 8-byte
/// value.
pub fn be8_signed(hi: u64, lo: u64) -> (r: i64)
    requires
        hi < 0x1_0000_0000,
        lo < 0x1_0000_0000,
    ensures
        r as int == crate::format::to_signed((hi * 0x1_0000_0000 + lo) as nat, 8),

{
    proof {
        lemma_pow256_values();
    }
    if hi >= 0x8000_0000 {
        let shi: i64 = (hi as i64) - 0x1_0000_0000i64;
        proof {
            assert(-0x8000_0000i64 <= shi <= -1);
            assert(shi * 0x1_0000_0000 >= -0x8000_0000_0000_0000 && shi * 0x1_0000_0000
                <= -0x1_0000_0000) by (nonlinear_arith)
                requires
                    -0x8000_0000 <= shi <= -1,
            ;
            assert(hi * 0x1_0000_0000 + lo >= 0x8000_0000_0000_0000 && shi * 0x1_0000_0000 + lo
                == hi * 0x1_0000_0000 + lo - 0x1_0000_0000_0000_0000) by (nonlinear_arith)
                requires
                    0x8000_0000 <= hi < 0x1_0000_0000,
                    0 <= lo < 0x1_0000_0000,
                    shi == hi - 0x1_0000_0000,
            ;
        }
        shi * 0x1_0000_0000i64 + (lo as i64)
    } else {
        proof {
            assert(hi * 0x1_0000_0000 + lo < 0x8000_0000_0000_0000) by (nonlinear_arith)
                requires
                    hi < 0x8000_0000,
                    lo < 0x1_0000_0000,
            ;
        }
        (hi * 0x1_0000_0000u64 + lo) as i64
    }
}

/// Concrete values of `pow256` at the widths the protocol uses.
pub proof fn lemma_pow256_values()
    ensures
        pow256(1) == 0x100,
        pow256(2) == 0x1_0000,
        pow256(4) == 0x1_0000_0000,
        pow256(8) == 0x1_0000_0000_0000_0000,
{
    reveal_with_fuel(pow256, 9);
}

/// `pow256` is monotonic in the exponent.
pub proof fn lemma_pow256_le(a: nat, b: nat)
    requires
        a <= b,
    ensures
        pow256(a) <= pow256(b),
    decreases b,
{
    if a < b {
        lemma_pow256_le(a, (b - 1) as nat);
        assert(pow256((b - 1) as nat) <= 256 * pow256((b - 1) as nat)) by (nonlinear_arith)
            requires
                pow256((b - 1) as nat) >= 0,
        ;
    }
}

} // verus!
