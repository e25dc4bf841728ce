//! The packed offset stream of the runtime fixups.
//!
//! A stream is read four bits at a time, the low half of each byte first. One
//! offset is stored as a group of nibbles: each carries three bits of a number,
//! least significant first, and its top bit says that another nibble follows.
//! The number is the distance to the previous offset in units of four bytes;
//! containers older than version 9 add four to every step.

use vstd::prelude::*;

verus! {

/// Why a packed stream could not be decoded.
#[derive(Clone, Copy, Debug, PartialEq, Eq, Structural)]
pub enum PackedIntError {
    /// The stream ends inside a group.
    Truncated,
    /// An offset does not fit in 32 bits.
    Overflow,
}

/// What every step adds beyond the stored distance.
pub open spec fn spec_bias(version: u32) -> nat {
    if version < 9 {
        4
    } else {
        0
    }
}

/// The `k`-th nibble of a byte string: low half first.
pub open spec fn nibble_at(bytes: Seq<u8>, k: int) -> u8 {
    if k % 2 == 0 {
        bytes[k / 2] % 16
    } else {
        bytes[k / 2] / 16
    }
}

/// All nibbles of a byte string, in reading order.
pub open spec fn nibbles_of(bytes: Seq<u8>) -> Seq<u8> {
    Seq::new(2 * bytes.len(), |k: int| nibble_at(bytes, k))
}

/// Whether the group that starts at nibble `k` ends inside the stream.
pub open spec fn group_complete(n: Seq<u8>, k: int) -> bool
    decreases n.len() - k,
{
    if k < 0 || k >= n.len() {
        false
    } else if n[k] < 8 {
        true
    } else {
        group_complete(n, k + 1)
    }
}

/// Number of nibbles of the group that starts at nibble `k`.
pub open spec fn group_len(n: Seq<u8>, k: int) -> nat
    decreases n.len() - k,
{
    if k < 0 || k >= n.len() {
        0
    } else if n[k] < 8 {
        1
    } else {
        1 + group_len(n, k + 1)
    }
}

/// The number that the group starting at nibble `k` stores.
pub open spec fn group_value(n: Seq<u8>, k: int) -> nat
    decreases n.len() - k,
{
    if k < 0 || k >= n.len() {
        0
    } else if n[k] < 8 {
        n[k] as nat
    } else {
        (n[k] % 8) as nat + 8 * group_value(n, k + 1)
    }
}

/// The decoder after `i` offsets: the nibble it stands at and the last offset
/// it produced, or the error that stopped it.
pub open spec fn spec_unpack_state(n: Seq<u8>, version: u32, i: nat) -> Result<
    (int, nat),
    PackedIntError,
>
    decreases i,
{
    if i == 0 {
        Ok((0, 0))
    } else {
        match spec_unpack_state(n, version, (i - 1) as nat) {
            Err(e) => Err(e),
            Ok((pos, prev)) => {
                let next = prev + 4 * group_value(n, pos) + spec_bias(version);
                if !group_complete(n, pos) {
                    Err(PackedIntError::Truncated)
                } else if next > u32::MAX {
                    Err(PackedIntError::Overflow)
                } else {
                    Ok((pos + group_len(n, pos), next))
                }
            },
        }
    }
}

/// The first `count` offsets of a nibble stream.
pub open spec fn spec_unpack_nibbles(n: Seq<u8>, version: u32, count: nat) -> Result<
    Seq<u32>,
    PackedIntError,
> {
    match spec_unpack_state(n, version, count) {
        Err(e) => Err(e),
        Ok(_) => Ok(
            Seq::new(count, |j: int| spec_unpack_state(n, version, (j + 1) as nat)->Ok_0.1 as u32),
        ),
    }
}

/// The first `count` offsets that a packed byte stream encodes.
pub open spec fn spec_unpack(bytes: Seq<u8>, version: u32, count: nat) -> Result<
    Seq<u32>,
    PackedIntError,
> {
    spec_unpack_nibbles(nibbles_of(bytes), version, count)
}

/// `8^i`.
pub open spec fn pow8(i: nat) -> nat
    decreases i,
{
    if i == 0 {
        1
    } else {
        8 * pow8((i - 1) as nat)
    }
}

/// The largest number whose fourfold fits in 32 bits is below `8^10 = 2^30`.
pub const GROUP_LIMIT: u64 = 0x4000_0000;

proof fn lemma_pow8_values()
    ensures
        pow8(0) == 1,
        pow8(1) == 8,
        pow8(2) == 0x40,
        pow8(3) == 0x200,
        pow8(4) == 0x1000,
        pow8(5) == 0x8000,
        pow8(6) == 0x4_0000,
        pow8(7) == 0x20_0000,
        pow8(8) == 0x100_0000,
        pow8(9) == 0x800_0000,
        pow8(10) == 0x4000_0000,
{
    reveal_with_fuel(pow8, 11);
}

proof fn lemma_pow8_monotonic(i: nat, j: nat)
    requires
        i <= j,
    ensures
        pow8(i) <= pow8(j),
        pow8(i) >= 1,
    decreases j,
{
    if i < j {
        lemma_pow8_monotonic(i, (j - 1) as nat);
    } else if i > 0 {
        lemma_pow8_monotonic((i - 1) as nat, (i - 1) as nat);
    }
}

/// Reads the group that starts at nibble `2 * idx + half` of `bytes`.
///
/// Returns the stored number and the place of the nibble behind the group.
fn read_group(bytes: &[u8], start_idx: usize, start_half: bool) -> (r: Result<
    (u64, usize, bool),
    PackedIntError,
>)
    requires
        start_idx <= bytes.len(),
    ensures
        match r {
            Ok((value, idx2, half2)) => {
                let k = 2 * start_idx + (if start_half { 1int } else { 0int });
                &&& group_complete(nibbles_of(bytes@), k)
                &&& value == group_value(nibbles_of(bytes@), k)
                &&& value < GROUP_LIMIT
                &&& idx2 <= bytes.len()
                &&& 2 * idx2 + (if half2 { 1int } else { 0int }) == k + group_len(
                    nibbles_of(bytes@),
                    k,
                )
            },
            Err(PackedIntError::Truncated) => !group_complete(
                nibbles_of(bytes@),
                2 * start_idx + (if start_half { 1int } else { 0int }),
            ),
            Err(PackedIntError::Overflow) => {
                let k = 2 * start_idx + (if start_half { 1int } else { 0int });
                group_complete(nibbles_of(bytes@), k) && group_value(nibbles_of(bytes@), k)
                    >= GROUP_LIMIT
            },
        },
{
    let ghost n = nibbles_of(bytes@);
    let ghost k0: int = 2 * start_idx + (if start_half { 1int } else { 0int });
    let mut idx: usize = start_idx;
    let mut half: bool = start_half;
    let mut acc: u64 = 0;
    let mut weight: u64 = 1;
    let mut digits: u64 = 0;
    let mut over: bool = false;
    let ghost mut i: nat = 0;
    proof {
        lemma_pow8_values();
    }
    loop
        invariant
            n == nibbles_of(bytes@),
            idx <= bytes.len(),
            2 * idx + (if half { 1int } else { 0int }) == k0 + i,
            k0 == 2 * start_idx + (if start_half { 1int } else { 0int }),
            digits == (if i <= 10 { i } else { 10 }),
            weight == pow8(digits as nat),
            acc < weight,
            weight <= GROUP_LIMIT,
            !over ==> group_value(n, k0) == acc + pow8(i) * group_value(n, k0 + i),
            group_len(n, k0) == i + group_len(n, k0 + i),
            group_complete(n, k0) == group_complete(n, k0 + i),
            over ==> group_value(n, k0) >= GROUP_LIMIT,
        decreases 2 * bytes.len() - (k0 + i),
    {
        assert(n.len() == 2 * bytes@.len());
        if idx >= bytes.len() {
            assert(!group_complete(n, k0 + i));
            return Err(PackedIntError::Truncated);
        }
        let b: u8 = bytes[idx];
        let nib: u8 = if half {
            b / 16
        } else {
            b % 16
        };
        let ghost k = k0 + i;
        assert(n[k] == nib);
        let digit: u64 = (nib % 8) as u64;
        proof {
            lemma_pow8_values();
            if i >= 10 {
                lemma_pow8_monotonic(10, i);
            } else {
                lemma_pow8_monotonic(i + 1, 10);
            }
            lemma_pow8_monotonic(digits as nat, 10);
            let g = group_value(n, k);
            let rest = group_value(n, k + 1);
            let p = pow8(i);
            if nib >= 8 {
                assert(g == digit + 8 * rest);
                assert(p * g == p * digit + pow8(i + 1) * rest) by (nonlinear_arith)
                    requires
                        g == digit + 8 * rest,
                        pow8(i + 1) == 8 * p,
                ;
            } else {
                assert(g == digit);
            }
            assert(p * digit == digit * p) by (nonlinear_arith);
            if digit == 0 {
                assert(p * digit == 0) by (nonlinear_arith)
                    requires
                        digit == 0,
                ;
            }
            if digit != 0 && i >= 10 && !over {
                assert(g >= 1);
                assert(p * g >= GROUP_LIMIT) by (nonlinear_arith)
                    requires
                        p >= GROUP_LIMIT,
                        g >= 1,
                ;
            }
        }
        if digit != 0 {
            if digits >= 10 {
                over = true;
            } else {
                assert(digit * weight <= 7 * weight) by (nonlinear_arith)
                    requires
                        digit <= 7,
                ;
                assert(acc + digit * weight < 8 * weight);
                acc = acc + digit * weight;
            }
        }
        if half {
            idx = idx + 1;
            half = false;
        } else {
            half = true;
        }
        if nib < 8 {
            assert(group_complete(n, k));
            if over {
                return Err(PackedIntError::Overflow);
            }
            assert(group_value(n, k0) == acc);
            return Ok((acc, idx, half));
        }
        if digits < 10 {
            weight = weight * 8;
            digits = digits + 1;
        }
        proof {
            i = i + 1;
        }
    }
}

/// Decodes the first `count` offsets of a packed stream.
///
/// Succeeds exactly when every one of the `count` groups ends inside the
/// stream and every offset fits in 32 bits.
pub fn unpack_offsets(bytes: &[u8], count: u32, version: u32) -> (r: Result<
    Vec<u32>,
    PackedIntError,
>)
    ensures
        match r {
            Ok(out) => spec_unpack(bytes@, version, count as nat) == Ok::<
                Seq<u32>,
                PackedIntError,
            >(out@),
            Err(e) => spec_unpack(bytes@, version, count as nat) == Err::<
                Seq<u32>,
                PackedIntError,
            >(e),
        },
{
    let ghost n = nibbles_of(bytes@);
    let mut out: Vec<u32> = Vec::new();
    let mut prev: u32 = 0;
    let mut idx: usize = 0;
    let mut half: bool = false;
    let bias: u64 = if version < 9 {
        4
    } else {
        0
    };
    let mut i: u32 = 0;
    while i < count
        invariant
            n == nibbles_of(bytes@),
            bias == spec_bias(version),
            i <= count,
            idx <= bytes.len(),
            spec_unpack_state(n, version, i as nat) == Ok::<(int, nat), PackedIntError>(
                (2 * idx + (if half { 1int } else { 0int }), prev as nat),
            ),
            out@.len() == i,
            forall|j: int|
                0 <= j < i ==> out@[j] == (#[trigger] spec_unpack_state(
                    n,
                    version,
                    (j + 1) as nat,
                ))->Ok_0.1 as u32,
        decreases count - i,
    {
        let ghost before = spec_unpack_state(n, version, i as nat);
        match read_group(bytes, idx, half) {
            Err(e) => {
                proof {
                    assert(spec_unpack_state(n, version, (i + 1) as nat) == Err::<
                        (int, nat),
                        PackedIntError,
                    >(e));
                    lemma_unpack_fails(n, version, (i + 1) as nat, count as nat);
                }
                return Err(e);
            },
            Ok((value, idx2, half2)) => {
                let next: u64 = prev as u64 + 4 * value + bias;
                if next > u32::MAX as u64 {
                    proof {
                        assert(spec_unpack_state(n, version, (i + 1) as nat) == Err::<
                            (int, nat),
                            PackedIntError,
                        >(PackedIntError::Overflow));
                        lemma_unpack_fails(n, version, (i + 1) as nat, count as nat);
                    }
                    return Err(PackedIntError::Overflow);
                }
                prev = next as u32;
                idx = idx2;
                half = half2;
                out.push(prev);
                i = i + 1;
            },
        }
    }
    proof {
        assert(out@ =~= spec_unpack(bytes@, version, count as nat)->Ok_0);
    }
    Ok(out)
}

/// The nibbles that store the number `d`.
pub open spec fn spec_group(d: nat) -> Seq<u8>
    decreases d,
{
    if d < 8 {
        seq![d as u8]
    } else {
        seq![(8 + d % 8) as u8] + spec_group(d / 8)
    }
}

/// What the `i`-th offset adds to the one before it (to zero for the first),
/// beyond the bias of the version.
pub open spec fn spec_step(xs: Seq<u32>, version: u32, i: int) -> int {
    xs[i] - (if i == 0 {
        0
    } else {
        xs[i - 1] as int
    }) - spec_bias(version)
}

/// Whether a list of offsets can be packed: every step is the bias plus a
/// multiple of four.
pub open spec fn spec_packable(xs: Seq<u32>, version: u32) -> bool {
    forall|i: int|
        0 <= i < xs.len() ==> #[trigger] spec_step(xs, version, i) >= 0 && spec_step(
            xs,
            version,
            i,
        ) % 4 == 0
}

/// The nibbles of the first `i` offsets of `xs`.
pub open spec fn spec_pack_prefix(xs: Seq<u32>, version: u32, i: nat) -> Seq<u8>
    decreases i,
{
    if i == 0 {
        Seq::empty()
    } else {
        spec_pack_prefix(xs, version, (i - 1) as nat) + spec_group(
            (spec_step(xs, version, i - 1) / 4) as nat,
        )
    }
}

/// Bytes that hold the nibbles `n`, low half first; a last odd nibble is
/// paired with zero.
pub open spec fn spec_bytes_of_nibbles(n: Seq<u8>) -> Seq<u8> {
    Seq::new(
        ((n.len() + 1) / 2) as nat,
        |j: int|
            (n[2 * j] + 16 * (if 2 * j + 1 < n.len() {
                n[2 * j + 1] as int
            } else {
                0
            })) as u8,
    )
}

/// The packed stream of a list of offsets.
pub open spec fn spec_pack(xs: Seq<u32>, version: u32) -> Seq<u8> {
    spec_bytes_of_nibbles(spec_pack_prefix(xs, version, xs.len()))
}

/// Every nibble of a group is below 16, and a group is not empty.
pub proof fn lemma_group_nibbles(d: nat)
    ensures
        spec_group(d).len() >= 1,
        forall|j: int| 0 <= j < spec_group(d).len() ==> #[trigger] spec_group(d)[j] < 16,
    decreases d,
{
    if d >= 8 {
        lemma_group_nibbles(d / 8);
    }
}

/// Wherever the nibbles of `spec_group(d)` stand in a stream, the group found
/// there is complete, as long as they are, and stores `d`.
pub proof fn lemma_group_decodes(n: Seq<u8>, k: int, d: nat)
    requires
        0 <= k,
        k + spec_group(d).len() <= n.len(),
        n.subrange(k, k + spec_group(d).len()) == spec_group(d),
    ensures
        group_complete(n, k),
        group_value(n, k) == d,
        group_len(n, k) == spec_group(d).len(),
    decreases d,
{
    let g = spec_group(d);
    lemma_group_nibbles(d);
    assert(n[k] == n.subrange(k, k + g.len())[0]);
    if d >= 8 {
        let g2 = spec_group(d / 8);
        assert(g.len() == 1 + g2.len());
        assert(n.subrange(k + 1, k + 1 + g2.len()) =~= g2) by {
            assert forall|j: int| 0 <= j < g2.len() implies n.subrange(k + 1, k + 1 + g2.len())[j]
                == g2[j] by {
                assert(n[k + 1 + j] == n.subrange(k, k + g.len())[j + 1]);
                assert(g[j + 1] == g2[j]);
            }
        }
        lemma_group_decodes(n, k + 1, d / 8);
        assert(n[k] == (8 + d % 8) as u8);
        assert(n[k] % 8 == d % 8);
    }
}

/// The nibbles of fewer offsets are the beginning of the nibbles of more.
pub proof fn lemma_pack_prefix_grows(xs: Seq<u32>, version: u32, i: nat, j: nat)
    requires
        i <= j,
    ensures
        spec_pack_prefix(xs, version, i).len() <= spec_pack_prefix(xs, version, j).len(),
        spec_pack_prefix(xs, version, j).subrange(
            0,
            spec_pack_prefix(xs, version, i).len() as int,
        ) == spec_pack_prefix(xs, version, i),
    decreases j,
{
    let pi = spec_pack_prefix(xs, version, i);
    let pj = spec_pack_prefix(xs, version, j);
    if i < j {
        lemma_pack_prefix_grows(xs, version, i, (j - 1) as nat);
        let pm = spec_pack_prefix(xs, version, (j - 1) as nat);
        assert(pj.subrange(0, pi.len() as int) =~= pm.subrange(0, pi.len() as int));
    } else {
        assert(pj.subrange(0, pi.len() as int) =~= pi);
    }
}

/// Every nibble of a packed list is below 16.
pub proof fn lemma_pack_prefix_nibbles(xs: Seq<u32>, version: u32, i: nat)
    ensures
        forall|j: int|
            0 <= j < spec_pack_prefix(xs, version, i).len() ==> #[trigger] spec_pack_prefix(
                xs,
                version,
                i,
            )[j] < 16,
    decreases i,
{
    if i > 0 {
        let before = spec_pack_prefix(xs, version, (i - 1) as nat);
        let g = spec_group((spec_step(xs, version, i - 1) / 4) as nat);
        let upto = spec_pack_prefix(xs, version, i);
        lemma_pack_prefix_nibbles(xs, version, (i - 1) as nat);
        lemma_group_nibbles((spec_step(xs, version, i - 1) / 4) as nat);
        assert forall|j: int| 0 <= j < upto.len() implies #[trigger] upto[j] < 16 by {
            if j < before.len() {
                assert(upto[j] == before[j]);
            } else {
                assert(upto[j] == g[j - before.len()]);
            }
        }
    }
}

/// Splitting bytes into nibbles gives back the nibbles they were made of.
pub proof fn lemma_nibbles_of_bytes(n: Seq<u8>)
    requires
        forall|j: int| 0 <= j < n.len() ==> #[trigger] n[j] < 16,
    ensures
        nibbles_of(spec_bytes_of_nibbles(n)).len() >= n.len(),
        nibbles_of(spec_bytes_of_nibbles(n)).subrange(0, n.len() as int) == n,
{
    let b = spec_bytes_of_nibbles(n);
    let m = nibbles_of(b);
    assert forall|k: int| 0 <= k < n.len() implies m[k] == n[k] by {
        let j = k / 2;
        let lo = n[2 * j];
        let hi: int = if 2 * j + 1 < n.len() {
            n[2 * j + 1] as int
        } else {
            0
        };
        assert(0 <= hi < 16);
        assert(b[j] == (lo + 16 * hi) as u8);
        assert(lo + 16 * hi < 256);
    }
    assert(m.subrange(0, n.len() as int) =~= n);
}

/// Decoding a stream that begins with the nibbles of `xs` walks through `xs`:
/// after `i` offsets the decoder stands behind the `i`-th group and has just
/// produced `xs[i - 1]`.
pub proof fn lemma_unpack_packed_state(xs: Seq<u32>, version: u32, n: Seq<u8>, i: nat)
    requires
        spec_packable(xs, version),
        i <= xs.len(),
        spec_pack_prefix(xs, version, xs.len()).len() <= n.len(),
        n.subrange(0, spec_pack_prefix(xs, version, xs.len()).len() as int) == spec_pack_prefix(
            xs,
            version,
            xs.len(),
        ),
    ensures
        spec_unpack_state(n, version, i) == Ok::<(int, nat), PackedIntError>(
            (
                spec_pack_prefix(xs, version, i).len() as int,
                if i == 0 {
                    0nat
                } else {
                    xs[i - 1] as nat
                },
            ),
        ),
    decreases i,
{
    if i > 0 {
        lemma_unpack_packed_state(xs, version, n, (i - 1) as nat);
        let all = spec_pack_prefix(xs, version, xs.len());
        let before = spec_pack_prefix(xs, version, (i - 1) as nat);
        let upto = spec_pack_prefix(xs, version, i);
        let step = spec_step(xs, version, i - 1);
        let d = (step / 4) as nat;
        let g = spec_group(d);
        let pos = before.len() as int;
        lemma_pack_prefix_grows(xs, version, i, xs.len());
        assert(upto == before + g);
        assert(n.subrange(pos, pos + g.len()) =~= g) by {
            assert forall|j: int| 0 <= j < g.len() implies n[pos + j] == g[j] by {
                assert(n[pos + j] == n.subrange(0, all.len() as int)[pos + j]);
                assert(all[pos + j] == all.subrange(0, upto.len() as int)[pos + j]);
                assert(upto[pos + j] == g[j]);
            }
        }
        lemma_group_decodes(n, pos, d);
        assert(step >= 0 && step % 4 == 0);
        assert(4 * d == step);
    }
}

/// Unpacking what was packed gives the offsets back.
///
/// This holds of every list whose steps the format can store: each offset is
/// the one before it (zero before the first) plus the bias of the version plus
/// a multiple of four.
pub proof fn lemma_pack_unpack_roundtrip(xs: Seq<u32>, version: u32)
    requires
        spec_packable(xs, version),
    ensures
        spec_unpack(spec_pack(xs, version), version, xs.len()) == Ok::<Seq<u32>, PackedIntError>(
            xs,
        ),
{
    let all = spec_pack_prefix(xs, version, xs.len());
    lemma_pack_prefix_nibbles(xs, version, xs.len());
    lemma_nibbles_of_bytes(all);
    let n = nibbles_of(spec_pack(xs, version));
    lemma_unpack_packed_state(xs, version, n, xs.len());
    let out = spec_unpack(spec_pack(xs, version), version, xs.len())->Ok_0;
    assert forall|j: int| 0 <= j < xs.len() implies out[j] == xs[j] by {
        lemma_unpack_packed_state(xs, version, n, (j + 1) as nat);
    }
    assert(out =~= xs);
}

/// Appends the nibbles that store `d`.
fn push_group(nibbles: &mut Vec<u8>, d: u32)
    ensures
        final(nibbles)@ == old(nibbles)@ + spec_group(d as nat),
{
    let mut rest: u32 = d;
    while rest >= 8
        invariant
            nibbles@ + spec_group(rest as nat) == old(nibbles)@ + spec_group(d as nat),
        decreases rest,
    {
        let ghost before = nibbles@;
        nibbles.push((8 + rest % 8) as u8);
        assert(nibbles@ + spec_group((rest / 8) as nat) =~= before + spec_group(rest as nat));
        rest = rest / 8;
    }
    let ghost before = nibbles@;
    nibbles.push(rest as u8);
    assert(nibbles@ =~= before + spec_group(rest as nat));
}

/// Packs a list of offsets into the stream that `unpack_offsets` reads.
///
/// Returns `None` exactly when some step cannot be stored: an offset is
/// smaller than the one before it plus the bias of the version, or a step is
/// no multiple of four.
pub fn pack_offsets(offsets: &[u32], version: u32) -> (r: Option<Vec<u8>>)
    ensures
        r is Some <==> spec_packable(offsets@, version),
        r matches Some(bytes) ==> bytes@ == spec_pack(offsets@, version),
{
    let bias: u32 = if version < 9 {
        4
    } else {
        0
    };
    let mut nibbles: Vec<u8> = Vec::new();
    let mut prev: u32 = 0;
    let mut i: usize = 0;
    while i < offsets.len()
        invariant
            bias == spec_bias(version),
            i <= offsets.len(),
            prev == (if i == 0 {
                0
            } else {
                offsets@[i - 1] as int
            }),
            nibbles@ == spec_pack_prefix(offsets@, version, i as nat),
            forall|j: int|
                0 <= j < i ==> #[trigger] spec_step(offsets@, version, j) >= 0 && spec_step(
                    offsets@,
                    version,
                    j,
                ) % 4 == 0,
        decreases offsets.len() - i,
    {
        let x: u32 = offsets[i];
        if (x as u64) < prev as u64 + bias as u64 {
            assert(spec_step(offsets@, version, i as int) < 0);
            return None;
        }
        let step: u32 = x - prev - bias;
        if step % 4 != 0 {
            assert(spec_step(offsets@, version, i as int) % 4 != 0);
            return None;
        }
        assert(step == spec_step(offsets@, version, i as int));
        push_group(&mut nibbles, step / 4);
        prev = x;
        i = i + 1;
    }
    proof {
        lemma_pack_prefix_nibbles(offsets@, version, offsets@.len());
    }
    let n: usize = nibbles.len();
    let total: usize = n / 2 + n % 2;
    let mut bytes: Vec<u8> = Vec::new();
    let mut j: usize = 0;
    while j < total
        invariant
            n == nibbles.len(),
            total == (n + 1) / 2,
            j <= total,
            forall|k: int| 0 <= k < n ==> #[trigger] nibbles@[k] < 16,
            bytes@.len() == j,
            forall|k: int| 0 <= k < j
                ==> bytes@[k] == #[trigger] spec_bytes_of_nibbles(nibbles@)[k],
        decreases total - j,
    {
        let lo: u8 = nibbles[2 * j];
        let hi: u8 = if 2 * j + 1 < n {
            nibbles[2 * j + 1]
        } else {
            0
        };
        bytes.push(lo + 16 * hi);
        j = j + 1;
    }
    assert(bytes@ =~= spec_bytes_of_nibbles(nibbles@));
    Some(bytes)
}

/// A failure after `i` offsets is the failure of every longer run.
pub proof fn lemma_unpack_fails(n: Seq<u8>, version: u32, i: nat, j: nat)
    requires
        i <= j,
        spec_unpack_state(n, version, i) is Err,
    ensures
        spec_unpack_state(n, version, j) == spec_unpack_state(n, version, i),
    decreases j,
{
    if i < j {
        lemma_unpack_fails(n, version, i, (j - 1) as nat);
    }
}

} // verus!
