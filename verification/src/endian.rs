//! Little-endian integers: what a run of bytes stands for, unsigned and in
//! two's complement, and the bytes that stand for a number.
use vstd::prelude::*;

verus! {

/// The unsigned number whose little-endian bytes are `bytes`.
pub open spec fn le_value(bytes: Seq<u8>) -> nat
    decreases bytes.len(),
{
    if bytes.len() == 0 {
        0
    } else {
        bytes[0] as nat + 256 * le_value(bytes.skip(1))
    }
}

/// 256 to the power `len`: the number of values that `len` bytes can hold.
pub open spec fn radix(len: nat) -> nat
    decreases len,
{
    if len == 0 {
        1
    } else {
        256 * radix((len - 1) as nat)
    }
}

/// The two's-complement number whose little-endian bytes are `bytes`.
pub open spec fn le_signed(bytes: Seq<u8>) -> int {
    let v = le_value(bytes);
    if 2 * v >= radix(bytes.len()) {
        v - radix(bytes.len())
    } else {
        v as int
    }
}

/// The `len` little-endian bytes of `v` (of `v` modulo `radix(len)`).
pub open spec fn le_bytes(v: nat, len: nat) -> Seq<u8>
    decreases len,
{
    if len == 0 {
        Seq::empty()
    } else {
        seq![(v % 256) as u8] + le_bytes(v / 256, (len - 1) as nat)
    }
}

/// The `len` little-endian bytes of `i` in two's complement.
pub open spec fn le_bytes_signed(i: int, len: nat) -> Seq<u8> {
    if i < 0 {
        le_bytes((i + radix(len)) as nat, len)
    } else {
        le_bytes(i as nat, len)
    }
}

pub proof fn lemma_radix_values()
    ensures
        radix(0) == 1,
        radix(1) == 0x100,
        radix(2) == 0x1_0000,
        radix(3) == 0x100_0000,
        radix(4) == 0x1_0000_0000,
        radix(5) == 0x100_0000_0000,
        radix(6) == 0x1_0000_0000_0000,
        radix(7) == 0x100_0000_0000_0000,
        radix(8) == 0x1_0000_0000_0000_0000,
{
}

/// A run of bytes stands for a number below `radix` of its length.
pub proof fn lemma_le_value_bound(bytes: Seq<u8>)
    ensures
        le_value(bytes) < radix(bytes.len()),
    decreases bytes.len(),
{
    if bytes.len() > 0 {
        lemma_le_value_bound(bytes.skip(1));
    }
}

/// The bytes of a number have the length asked for.
pub proof fn lemma_le_bytes_len(v: nat, len: nat)
    ensures
        le_bytes(v, len).len() == len,
    decreases len,
{
    if len > 0 {
        lemma_le_bytes_len(v / 256, (len - 1) as nat);
    }
}

/// Decoding the bytes of a number that fits gives the number back.
pub proof fn lemma_le_value_of_bytes(v: nat, len: nat)
    requires
        v < radix(len),
    ensures
        le_value(le_bytes(v, len)) == v,
    decreases len,
{
    if len > 0 {
        let rest = le_bytes(v / 256, (len - 1) as nat);
        let all = le_bytes(v, len);
        lemma_le_value_of_bytes(v / 256, (len - 1) as nat);
        assert(all.skip(1) =~= rest);
    }
}

/// Decoding the two's-complement bytes of a number in range gives it back.
pub proof fn lemma_le_signed_of_bytes(i: int, len: nat)
    requires
        len >= 1,
        -(radix(len) as int) <= 2 * i < radix(len),
    ensures
        le_signed(le_bytes_signed(i, len)) == i,
{
    let v: nat = if i < 0 {
        (i + radix(len)) as nat
    } else {
        i as nat
    };
    lemma_le_value_of_bytes(v, len);
    lemma_le_bytes_len(v, len);
}

/// The unsigned number that up to eight little-endian bytes stand for.
pub(crate) fn le_u64(bytes: &[u8]) -> (v: u64)
    requires
        bytes@.len() <= 8,
    ensures
        v == le_value(bytes@),
{
    let mut v: u64 = 0;
    let mut i: usize = bytes.len();
    while i > 0
        invariant
            i <= bytes@.len() <= 8,
            v == le_value(bytes@.skip(i as int)),
        decreases i,
    {
        i = i - 1;
        proof {
            let tail = bytes@.skip(i as int);
            assert(tail.skip(1) =~= bytes@.skip(i + 1));
            lemma_le_value_bound(tail.skip(1));
            lemma_radix_values();
        }
        v = v * 256 + bytes[i] as u64;
    }
    proof {
        assert(bytes@.skip(0) =~= bytes@);
    }
    v
}

/// The two's-complement number that one to eight little-endian bytes stand for.
pub(crate) fn le_i64(bytes: &[u8]) -> (v: i64)
    requires
        1 <= bytes@.len() <= 8,
    ensures
        v == le_signed(bytes@),
{
    let raw: u64 = le_u64(bytes);
    let n: usize = bytes.len();
    proof {
        lemma_radix_values();
        lemma_le_value_bound(bytes@);
    }
    if n == 8 {
        if raw >= 0x8000_0000_0000_0000u64 {
            ((raw - 0x8000_0000_0000_0000u64) as i64) + i64::MIN
        } else {
            raw as i64
        }
    } else {
        let span: u64 = span_of(n);
        if raw >= span / 2 {
            (raw as i64) - (span as i64)
        } else {
            raw as i64
        }
    }
}

/// `radix(len)` for a length below eight.
pub(crate) fn span_of(len: usize) -> (span: u64)
    requires
        len < 8,
    ensures
        span == radix(len as nat),
        span % 2 == 0 || len == 0,
{
    proof {
        lemma_radix_values();
    }
    if len == 0 {
        1
    } else if len == 1 {
        0x100
    } else if len == 2 {
        0x1_0000
    } else if len == 3 {
        0x100_0000
    } else if len == 4 {
        0x1_0000_0000
    } else if len == 5 {
        0x100_0000_0000
    } else if len == 6 {
        0x1_0000_0000_0000
    } else {
        0x100_0000_0000_0000
    }
}

} // verus!
