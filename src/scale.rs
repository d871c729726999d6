//! Fixed-width little-endian integers, as the ledger's binary encoding lays them out.
use vstd::prelude::*;

verus! {

/// `256` to the power `n`.
pub open spec fn pow256(n: nat) -> nat
    decreases n,
{
    if n == 0 {
        1
    } else {
        256 * pow256((n - 1) as nat)
    }
}

/// The number that a little-endian byte sequence stands for.
pub open spec fn le_decode(s: Seq<u8>) -> nat
    decreases s.len(),
{
    if s.len() == 0 {
        0
    } else {
        s[0] as nat + 256 * le_decode(s.drop_first())
    }
}

/// The `n` little-endian bytes of `x` (taken modulo `256^n`).
pub open spec fn le_encode(x: nat, n: nat) -> Seq<u8>
    decreases n,
{
    if n == 0 {
        Seq::empty()
    } else {
        seq![(x % 256) as u8] + le_encode(x / 256, (n - 1) as nat)
    }
}

/// The unsigned number that holds the two's complement bits of `x`.
pub open spec fn i128_bits(x: i128) -> nat {
    if x >= 0 {
        x as nat
    } else {
        (x + pow256(16)) as nat
    }
}

/// The signed number whose two's complement bits `b` holds.
pub open spec fn i128_of_bits(b: nat) -> int {
    if b < pow256(16) / 2 {
        b as int
    } else {
        b - pow256(16)
    }
}

/// The powers of 256 that the fixed widths use.
pub proof fn lemma_pow256_values()
    ensures
        pow256(4) == 0x1_0000_0000,
        pow256(8) == 0x1_0000_0000_0000_0000,
        pow256(16) == 0x1_0000_0000_0000_0000_0000_0000_0000_0000,
{
    reveal_with_fuel(pow256, 17);
}

/// `le_encode(x, n)` has `n` bytes.
pub proof fn lemma_le_encode_len(x: nat, n: nat)
    ensures
        le_encode(x, n).len() == n,
    decreases n,
{
    if n > 0 {
        lemma_le_encode_len(x / 256, (n - 1) as nat);
    }
}

/// Decoding the `n` bytes of `x` gives `x` back, for `x < 256^n`.
pub proof fn lemma_le_decode_encode(x: nat, n: nat)
    requires
        x < pow256(n),
    ensures
        le_decode(le_encode(x, n)) == x,
        le_encode(x, n).len() == n,
    decreases n,
{
    lemma_le_encode_len(x, n);
    if n > 0 {
        let rest = le_encode(x / 256, (n - 1) as nat);
        assert(pow256(n) == 256 * pow256((n - 1) as nat));
        assert(x / 256 < pow256((n - 1) as nat)) by (nonlinear_arith)
            requires
                x < 256 * pow256((n - 1) as nat),
        ;
        lemma_le_decode_encode(x / 256, (n - 1) as nat);
        assert(le_encode(x, n).drop_first() =~= rest);
        assert(x == x % 256 + 256 * (x / 256)) by (nonlinear_arith);
    }
}

/// Encoding the number that `n` bytes stand for gives those bytes back.
pub proof fn lemma_le_encode_decode(s: Seq<u8>)
    ensures
        le_encode(le_decode(s), s.len()) == s,
        le_decode(s) < pow256(s.len()),
    decreases s.len(),
{
    if s.len() > 0 {
        let t = s.drop_first();
        lemma_le_encode_decode(t);
        let d = le_decode(s);
        let b = s[0] as nat;
        assert(d == b + 256 * le_decode(t));
        assert(d % 256 == b && d / 256 == le_decode(t)) by (nonlinear_arith)
            requires
                d == b + 256 * le_decode(t),
                b < 256,
        ;
        assert(s.len() as nat - 1 == t.len());
        assert(le_encode(d, s.len()) =~= seq![(d % 256) as u8] + le_encode(d / 256, t.len()));
        assert(le_encode(d, s.len()) =~= s);
        assert(d < pow256(s.len())) by (nonlinear_arith)
            requires
                d == b + 256 * le_decode(t),
                b < 256,
                le_decode(t) < pow256(t.len()),
                pow256(s.len()) == 256 * pow256(t.len()),
        ;
    }
}

/// The `n` little-endian bytes of `x`.
pub fn encode_le(x: u128, n: usize) -> (r: Vec<u8>)
    requires
        n <= 16,
        x < pow256(n as nat),
    ensures
        r@ == le_encode(x as nat, n as nat),
{
    let mut r: Vec<u8> = Vec::new();
    let mut v: u128 = x;
    let mut i: usize = 0;
    while i < n
        invariant
            i <= n,
            r@ + le_encode(v as nat, (n - i) as nat) == le_encode(x as nat, n as nat),
        decreases n - i,
    {
        let ghost before = r@;
        proof {
            assert(le_encode(v as nat, (n - i) as nat) == seq![(v as nat % 256) as u8] + le_encode(
                (v / 256) as nat,
                (n - i - 1) as nat,
            ));
        }
        r.push((v % 256) as u8);
        v = v / 256;
        i = i + 1;
        proof {
            assert(r@ =~= before + seq![r@.last()]);
        }
    }
    assert(le_encode(v as nat, 0) =~= Seq::<u8>::empty());
    assert(r@ =~= r@ + le_encode(v as nat, 0));
    r
}

/// The number that the `n` bytes of `bytes` from `start` on stand for.
pub fn decode_le(bytes: &[u8], start: usize, n: usize) -> (r: u128)
    requires
        n <= 16,
        start + n <= bytes@.len(),
    ensures
        r as nat == le_decode(bytes@.subrange(start as int, start + n)),
{
    let len = bytes.len();
    let mut acc: u128 = 0;
    let mut i: usize = n;
    proof {
        assert(bytes@.subrange(start + n, start + n) =~= Seq::<u8>::empty());
    }
    while i > 0
        invariant
            i <= n,
            n <= 16,
            start + n <= bytes@.len(),
            len == bytes@.len(),
            acc as nat == le_decode(bytes@.subrange(start + i, start + n)),
            acc < pow256((n - i) as nat),
        decreases i,
    {
        i = i - 1;
        let b = bytes[start + i];
        let ghost tail = bytes@.subrange(start + i + 1, start + n);
        let ghost s = bytes@.subrange(start + i, start + n);
        proof {
            assert(s.drop_first() =~= tail);
            assert(s[0] == b);
            assert(pow256((n - i) as nat) == 256 * pow256((n - i - 1) as nat));
            lemma_pow256_values();
            assert(pow256((n - i - 1) as nat) <= pow256(15)) by {
                lemma_pow256_monotone((n - i - 1) as nat, 15);
            }
            reveal_with_fuel(pow256, 16);
            assert(acc * 256 + b < pow256((n - i) as nat)) by (nonlinear_arith)
                requires
                    acc < pow256((n - i - 1) as nat),
                    b < 256,
                    pow256((n - i) as nat) == 256 * pow256((n - i - 1) as nat),
            ;
        }
        acc = acc * 256 + b as u128;
    }
    acc
}

/// Powers of 256 grow with the exponent.
pub proof fn lemma_pow256_monotone(a: nat, b: nat)
    requires
        a <= b,
    ensures
        pow256(a) <= pow256(b),
    decreases b,
{
    if a < b {
        lemma_pow256_monotone(a, (b - 1) as nat);
    }
}

/// The four little-endian bytes of `x`.
pub fn encode_u32(x: u32) -> (r: Vec<u8>)
    ensures
        r@ == le_encode(x as nat, 4),
        r@.len() == 4,
{
    proof {
        lemma_pow256_values();
        lemma_le_encode_len(x as nat, 4);
    }
    encode_le(x as u128, 4)
}

/// The eight little-endian bytes of `x`.
pub fn encode_u64(x: u64) -> (r: Vec<u8>)
    ensures
        r@ == le_encode(x as nat, 8),
        r@.len() == 8,
{
    proof {
        lemma_pow256_values();
        lemma_le_encode_len(x as nat, 8);
    }
    encode_le(x as u128, 8)
}

/// The sixteen little-endian bytes of the two's complement of `x`.
pub fn encode_i128(x: i128) -> (r: Vec<u8>)
    ensures
        r@ == le_encode(i128_bits(x), 16),
        r@.len() == 16,
{
    proof {
        lemma_pow256_values();
        lemma_le_encode_len(i128_bits(x), 16);
    }
    let b: u128 = if x >= 0 {
        x as u128
    } else {
        u128::MAX - (-(x + 1)) as u128
    };
    encode_le(b, 16)
}

/// The number held by the four bytes from `start` on.
pub fn decode_u32(bytes: &[u8], start: usize) -> (r: u32)
    requires
        start + 4 <= bytes@.len(),
    ensures
        r as nat == le_decode(bytes@.subrange(start as int, start + 4)),
{
    proof {
        lemma_le_encode_decode(bytes@.subrange(start as int, start + 4));
        lemma_pow256_values();
    }
    decode_le(bytes, start, 4) as u32
}

/// The number held by the eight bytes from `start` on.
pub fn decode_u64(bytes: &[u8], start: usize) -> (r: u64)
    requires
        start + 8 <= bytes@.len(),
    ensures
        r as nat == le_decode(bytes@.subrange(start as int, start + 8)),
{
    proof {
        lemma_le_encode_decode(bytes@.subrange(start as int, start + 8));
        lemma_pow256_values();
    }
    decode_le(bytes, start, 8) as u64
}

/// The signed number whose two's complement the sixteen bytes from `start` on hold.
pub fn decode_i128(bytes: &[u8], start: usize) -> (r: i128)
    requires
        start + 16 <= bytes@.len(),
    ensures
        r as int == i128_of_bits(le_decode(bytes@.subrange(start as int, start + 16))),
{
    proof {
        lemma_le_encode_decode(bytes@.subrange(start as int, start + 16));
        lemma_pow256_values();
    }
    let b = decode_le(bytes, start, 16);
    if b < 0x8000_0000_0000_0000_0000_0000_0000_0000 {
        b as i128
    } else {
        -((u128::MAX - b) as i128) - 1
    }
}

/// The bits of a signed number stand for that number.
pub proof fn lemma_i128_bits_round_trip(x: i128)
    ensures
        i128_bits(x) < pow256(16),
        i128_of_bits(i128_bits(x)) == x,
{
    lemma_pow256_values();
}

/// The unsigned number that holds the two's complement bits of `x`.
pub open spec fn i64_bits(x: i64) -> nat {
    if x >= 0 {
        x as nat
    } else {
        (x + pow256(8)) as nat
    }
}

/// The eight little-endian bytes of the two's complement of `x`.
pub fn encode_i64(x: i64) -> (r: Vec<u8>)
    ensures
        r@ == le_encode(i64_bits(x), 8),
        r@.len() == 8,
{
    proof {
        lemma_pow256_values();
        lemma_le_encode_len(i64_bits(x), 8);
    }
    let b: u128 = if x >= 0 {
        x as u128
    } else {
        (0x1_0000_0000_0000_0000i128 + x as i128) as u128
    };
    encode_le(b, 8)
}

} // verus!
