//! Minimal BER-TLV tag/length prefixes.
use vstd::prelude::*;

verus! {

/// Number of big-endian bytes that `x` needs (at least one).
pub open spec fn byte_count(x: nat) -> nat
    decreases x,
{
    if x < 256 {
        1
    } else {
        1 + byte_count(x / 256)
    }
}

pub open spec fn pow256(n: nat) -> nat
    decreases n,
{
    if n == 0 {
        1
    } else {
        256 * pow256((n - 1) as nat)
    }
}

/// `x` as `n` big-endian bytes.
pub open spec fn be_bytes(x: nat, n: nat) -> Seq<u8> {
    Seq::new(n, |i: int| ((x / pow256((n - 1 - i) as nat)) % 256) as u8)
}

/// The encoding of a tag: two bytes where it does not fit in one.
pub open spec fn tag_bytes(tag: u16) -> Seq<u8> {
    if tag >= 0x100 {
        seq![(tag / 256) as u8, (tag % 256) as u8]
    } else {
        seq![tag as u8]
    }
}

/// The minimal encoding of a length: one byte below 128, else 0x80 plus the
/// byte count, then the big-endian bytes.
pub open spec fn length_bytes(len: nat) -> Seq<u8> {
    if len < 128 {
        seq![len as u8]
    } else {
        seq![(0x80 + byte_count(len)) as u8] + be_bytes(len, byte_count(len))
    }
}

/// The minimal tag/length prefix of a value of `len` bytes tagged `tag`.
pub open spec fn tl_bytes(tag: u16, len: nat) -> Seq<u8> {
    tag_bytes(tag) + length_bytes(len)
}

pub(crate) proof fn lemma_byte_count_bound(x: nat, k: nat)
    requires
        k >= 1,
        x < pow256(k),
    ensures
        1 <= byte_count(x) <= k,
        x < pow256(byte_count(x)),
    decreases x,
{
    if x >= 256 {
        assert(k >= 2) by {
            if k == 1 {
                reveal_with_fuel(pow256, 2);
            }
        }
        assert(x / 256 < pow256((k - 1) as nat)) by (nonlinear_arith)
            requires
                x < 256 * pow256((k - 1) as nat),
        ;
        lemma_byte_count_bound(x / 256, (k - 1) as nat);
        let p = pow256(byte_count(x / 256));
        assert(x < 256 * p) by (nonlinear_arith)
            requires
                x / 256 < p,
        ;
    } else {
        reveal_with_fuel(pow256, 2);
    }
}

pub(crate) proof fn lemma_pow256_mono(a: nat, b: nat)
    requires
        a <= b,
    ensures
        1 <= pow256(a) <= pow256(b),
    decreases b,
{
    lemma_pow256_pos(a);
    if b > a {
        lemma_pow256_mono(a, (b - 1) as nat);
    }
}

pub(crate) proof fn lemma_pow256_pos(n: nat)
    ensures
        pow256(n) >= 1,
    decreases n,
{
    if n > 0 {
        lemma_pow256_pos((n - 1) as nat);
    }
}

pub(crate) proof fn lemma_byte_count_pos(x: nat)
    ensures
        byte_count(x) >= 1,
    decreases x,
{
    if x >= 256 {
        lemma_byte_count_pos(x / 256);
    }
}

/// Any `usize` fits in eight bytes.
proof fn lemma_usize_byte_count(len: usize)
    ensures
        1 <= byte_count(len as nat) <= 8,
{
    reveal_with_fuel(pow256, 9);
    lemma_byte_count_bound(len as nat, 8);
}

/// Appends the minimal tag/length prefix of (`tag`, `len`) to `out`.
pub fn encode_tl(tag: u16, len: usize, out: &mut Vec<u8>)
    ensures
        final(out)@ == old(out)@ + tl_bytes(tag, len as nat),
{
    if tag >= 0x100 {
        out.push((tag / 256) as u8);
        out.push((tag % 256) as u8);
    } else {
        out.push(tag as u8);
    }
    let ghost after_tag = out@;
    if len < 128 {
        out.push(len as u8);
    } else {
        let mut n: usize = 1;
        let mut rest: usize = len;
        proof {
            lemma_usize_byte_count(len);
        }
        while rest >= 256
            invariant
                1 <= n <= 8,
                byte_count(len as nat) <= 8,
                byte_count(len as nat) == n - 1 + byte_count(rest as nat),
            decreases rest,
        {
            proof {
                lemma_byte_count_pos((rest / 256) as nat);
            }
            rest = rest / 256;
            n = n + 1;
        }
        out.push((0x80 + n) as u8);
        let ghost after_len = out@;
        let mut i: usize = 0;
        while i < n
            invariant
                i <= n <= 8,
                n == byte_count(len as nat),
                out@ == after_len + be_bytes(len as nat, n as nat).subrange(0, i as int),
            decreases n - i,
        {
            let shift = pow256_exec(n - 1 - i);
            out.push(((len as u128 / shift) % 256) as u8);
            proof {
                assert(be_bytes(len as nat, n as nat).subrange(0, i + 1) =~= be_bytes(
                    len as nat,
                    n as nat,
                ).subrange(0, i as int).push(((len as u128 / shift) % 256) as u8));
            }
            i += 1;
        }
        proof {
            assert(be_bytes(len as nat, n as nat).subrange(0, n as int) =~= be_bytes(
                len as nat,
                n as nat,
            ));
        }
    }
    proof {
        assert(old(out)@ + tl_bytes(tag, len as nat) =~= out@);
    }
}

/// Appends the bytes `b` to `out`.
pub(crate) fn append_bytes(out: &mut Vec<u8>, b: &[u8])
    ensures
        final(out)@ == old(out)@ + b@,
{
    let ghost start = out@;
    let mut i: usize = 0;
    while i < b.len()
        invariant
            i <= b@.len(),
            out@ == start + b@.subrange(0, i as int),
        decreases b.len() - i,
    {
        out.push(b[i]);
        proof {
            assert(b@.subrange(0, i + 1) =~= b@.subrange(0, i as int).push(b@[i as int]));
        }
        i += 1;
    }
    proof {
        assert(b@.subrange(0, i as int) =~= b@);
    }
}

fn pow256_exec(n: usize) -> (r: u128)
    requires
        n < 8,
    ensures
        r == pow256(n as nat),
        r >= 1,
{
    proof {
        lemma_pow256_mono(0, n as nat);
    }
    let mut r: u128 = 1;
    let mut i: usize = 0;
    proof {
        reveal_with_fuel(pow256, 8);
    }
    while i < n
        invariant
            i <= n < 8,
            r == pow256(i as nat),
            pow256(6) == 0x1_0000_0000_0000,
        decreases n - i,
    {
        proof {
            lemma_pow256_mono(i as nat, 6);
        }
        r = r * 256;
        i += 1;
    }
    r
}

} // verus!
