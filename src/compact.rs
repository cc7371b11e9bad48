use vstd::prelude::*;
use vstd::std_specs::bits::{axiom_u64_leading_zeros, u64_leading_zeros};

verus! {

/// The number of bytes in the shortest big-endian form of `m`, at least one.
pub open spec fn byte_len(m: nat) -> nat
    decreases m,
{
    if m < 256 {
        1
    } else {
        1 + byte_len(m / 256)
    }
}

/// The low `n` bytes of `m`, most significant first.
pub open spec fn be_bytes(m: nat, n: nat) -> Seq<u8>
    decreases n,
{
    if n == 0 {
        Seq::empty()
    } else {
        be_bytes(m / 256, (n - 1) as nat).push((m % 256) as u8)
    }
}

/// The value of a big-endian byte string.
pub open spec fn be_value(s: Seq<u8>) -> nat
    decreases s.len(),
{
    if s.len() == 0 {
        0
    } else {
        be_value(s.drop_last()) * 256 + s.last() as nat
    }
}

/// `m` in the fewest big-endian bytes, with zero taking one byte.
pub open spec fn compact(m: u64) -> Seq<u8> {
    be_bytes(m as nat, byte_len(m as nat))
}

/// `m` divided `n` times by 256.
spec fn shift_bytes(m: nat, n: nat) -> nat
    decreases n,
{
    if n == 0 {
        m
    } else {
        shift_bytes(m / 256, (n - 1) as nat)
    }
}

spec fn pow256(n: nat) -> nat
    decreases n,
{
    if n == 0 {
        1
    } else {
        256 * pow256((n - 1) as nat)
    }
}

proof fn lemma_be_bytes_len(m: nat, n: nat)
    ensures
        be_bytes(m, n).len() == n,
    decreases n,
{
    if n > 0 {
        lemma_be_bytes_len(m / 256, (n - 1) as nat);
    }
}

proof fn lemma_be_bytes_of_zero(n: nat)
    requires
        n >= 1,
    ensures
        be_bytes(0, n)[0] == 0,
    decreases n,
{
    lemma_be_bytes_len(0, n);
    if n > 1 {
        lemma_be_bytes_len(0, (n - 1) as nat);
        lemma_be_bytes_of_zero((n - 1) as nat);
    }
}

proof fn lemma_byte_len_bound(m: nat, k: nat)
    requires
        k >= 1,
        m < pow256(k),
    ensures
        1 <= byte_len(m) <= k,
    decreases m,
{
    if m >= 256 {
        if k == 1 {
            assert(pow256(0) == 1);
        }
        assert(m / 256 < pow256((k - 1) as nat)) by (nonlinear_arith)
            requires
                m < pow256(k),
                pow256(k) == 256 * pow256((k - 1) as nat),
        ;
        lemma_byte_len_bound(m / 256, (k - 1) as nat);
    }
}

proof fn lemma_minimal_round_trip(m: nat)
    ensures
        be_value(be_bytes(m, byte_len(m))) == m,
        be_bytes(m, byte_len(m)).len() == byte_len(m),
        m > 0 ==> be_bytes(m, byte_len(m))[0] != 0,
        m == 0 ==> be_bytes(m, byte_len(m)) == seq![0u8],
    decreases m,
{
    let s = be_bytes(m, byte_len(m));
    lemma_be_bytes_len(m, byte_len(m));
    if m < 256 {
        assert(be_bytes(m / 256, 0) == Seq::<u8>::empty());
        assert(s == seq![m as u8]);
        assert(s.drop_last() =~= Seq::<u8>::empty());
        assert(be_value(s) == be_value(s.drop_last()) * 256 + s.last() as nat);
    } else {
        let q = m / 256;
        lemma_minimal_round_trip(q);
        let t = be_bytes(q, byte_len(q));
        assert(s == t.push((m % 256) as u8));
        assert(s.drop_last() =~= t);
        assert(s[0] == t[0]);
        assert(be_value(s) == be_value(t) * 256 + s.last() as nat);
        assert(q * 256 + m % 256 == m);
    }
}

/// Compaction loses nothing: the bytes of `compact(m)` read back as a big-endian
/// number give `m`. There are one to eight of them, and the first is not zero
/// unless `m` is zero, which is the single byte zero.
pub proof fn lemma_compact_round_trip(m: u64)
    ensures
        1 <= compact(m).len() <= 8,
        be_value(compact(m)) == m,
        m > 0 ==> compact(m)[0] != 0,
        m == 0 ==> compact(m) == seq![0u8],
{
    lemma_minimal_round_trip(m as nat);
    reveal_with_fuel(pow256, 9);
    assert(pow256(8) == 0x1_0000_0000_0000_0000);
    lemma_byte_len_bound(m as nat, 8);
}

proof fn lemma_exact_len(m: nat, n: nat)
    requires
        n >= 1,
        shift_bytes(m, n) == 0,
        n == 1 || be_bytes(m, n)[0] != 0,
    ensures
        byte_len(m) == n,
    decreases n,
{
    if n == 1 {
        assert(shift_bytes(m, 1) == shift_bytes(m / 256, 0));
    } else {
        let k = (n - 1) as nat;
        assert(shift_bytes(m, n) == shift_bytes(m / 256, k));
        lemma_be_bytes_len(m / 256, k);
        assert(be_bytes(m, n)[0] == be_bytes(m / 256, k)[0]);
        if m < 256 {
            lemma_be_bytes_of_zero(k);
        }
        lemma_exact_len(m / 256, k);
        assert(byte_len(m) == 1 + byte_len(m / 256));
    }
}

/// Writes `value` in its fewest big-endian bytes (at least one) to the start of
/// `buf` and returns how many were written.
pub fn build_int_buf(value: u64, buf: &mut [u8]) -> (len: usize)
    requires
        old(buf)@.len() >= 8,
    ensures
        1 <= len <= 8,
        final(buf)@.len() == old(buf)@.len(),
        final(buf)@.subrange(0, len as int) == compact(value),
{
    let zeros: u32 = value.leading_zeros();
    proof {
        axiom_u64_leading_zeros(value);
    }
    // whole zero bytes only: round down
    let leading_bytes = (zeros / 8) as usize;
    let full_bytes: usize = 8 - leading_bytes;
    let len: usize = if full_bytes > 1 {
        full_bytes
    } else {
        1
    };
    proof {
        let lz = zeros as u64;
        let top = (64 - lz) as u64;
        let all = (8 * len) as u64;
        assert(value >> top == 0);
        assert(value >> all == 0) by (bit_vector)
            requires
                value >> top == 0,
                top <= all,
                all <= 64,
        ;
        let below = (8 * (len - 1)) as u64;
        assert((value >> below) < 256) by (bit_vector)
            requires
                value >> all == 0,
                all == below + 8,
                all <= 64,
        ;
        if len >= 2 {
            let lead = (63 - lz) as u64;
            assert((value >> lead) & 1u64 != 0u64);
            assert(value >> below != 0) by (bit_vector)
                requires
                    (value >> lead) & 1u64 != 0u64,
                    below <= lead,
            ;
        }
        assert(value >> 0u64 == value) by (bit_vector);
    }
    let mut v: u64 = value;
    let mut j: usize = len;
    while j > 0
        invariant
            1 <= len <= 8,
            j <= len,
            buf@.len() == old(buf)@.len(),
            buf@.len() >= 8,
            v == value >> ((8 * (len - j)) as u64),
            be_bytes(value as nat, len as nat) == be_bytes(v as nat, j as nat) + buf@.subrange(
                j as int,
                len as int,
            ),
            shift_bytes(value as nat, len as nat) == shift_bytes(v as nat, j as nat),
            j < len ==> buf@[j as int] as u64 == (value >> ((8 * (len - 1 - j)) as u64)) % 256,
        decreases j,
    {
        let byte = (v % 256) as u8;
        buf[j - 1] = byte;
        proof {
            let s = (8 * (len - j)) as u64;
            assert(v >> 8 == v / 256) by (bit_vector);
            assert((value >> s) >> 8 == value >> ((s + 8) as u64)) by (bit_vector)
                requires
                    s + 8 <= 64,
            ;
            assert(be_bytes(v as nat, j as nat) == be_bytes((v / 256) as nat, (j - 1) as nat).push(
                byte,
            ));
            assert(buf@.subrange(j - 1, len as int) =~= seq![byte] + buf@.subrange(
                j as int,
                len as int,
            ));
        }
        v = v >> 8;
        j = j - 1;
    }
    proof {
        assert(buf@.subrange(0, len as int) =~= be_bytes(value as nat, len as nat));
        lemma_exact_len(value as nat, len as nat);
    }
    len
}

} // verus!
