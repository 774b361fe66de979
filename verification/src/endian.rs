//! Byte strings read as numbers in base 256.
//!
//! A register holds a fixed number of bytes. Read with the least significant
//! byte first (little endian) or with the most significant byte first (big
//! endian), those bytes spell a natural number below `radix(width)`; signed
//! types carry it in two's complement. The value codecs of the crate are stated
//! over the functions of this module.

use vstd::prelude::*;

verus! {

/// 256 to the power `width`: the number of byte strings of that length.
pub open spec fn radix(width: nat) -> nat
    decreases width,
{
    if width == 0 {
        1
    } else {
        256 * radix((width - 1) as nat)
    }
}

/// The number that `bytes` spells with its least significant byte first.
pub open spec fn le_value(bytes: Seq<u8>) -> nat
    decreases bytes.len(),
{
    if bytes.len() == 0 {
        0
    } else {
        bytes[0] as nat + 256 * le_value(bytes.skip(1))
    }
}

/// The number that `bytes` spells with its most significant byte first.
pub open spec fn be_value(bytes: Seq<u8>) -> nat
    decreases bytes.len(),
{
    if bytes.len() == 0 {
        0
    } else {
        256 * be_value(bytes.drop_last()) + bytes.last() as nat
    }
}

/// The `width` lowest base-256 digits of `v`, least significant first.
pub open spec fn le_digits(v: nat, width: nat) -> Seq<u8>
    decreases width,
{
    if width == 0 {
        Seq::empty()
    } else {
        seq![(v % 256) as u8] + le_digits(v / 256, (width - 1) as nat)
    }
}

/// The `width` lowest base-256 digits of `v`, most significant first.
pub open spec fn be_digits(v: nat, width: nat) -> Seq<u8>
    decreases width,
{
    if width == 0 {
        Seq::empty()
    } else {
        be_digits(v / 256, (width - 1) as nat).push((v % 256) as u8)
    }
}

/// The integer that the `width`-byte pattern `raw` stands for in two's
/// complement.
pub open spec fn signed(raw: nat, width: nat) -> int {
    if 2 * raw >= radix(width) {
        raw - radix(width)
    } else {
        raw as int
    }
}

/// The `width`-byte two's complement pattern of `v`.
pub open spec fn unsigned(v: int, width: nat) -> nat {
    if v < 0 {
        (v + radix(width)) as nat
    } else {
        v as nat
    }
}

/// The radix of each register width that the crate's value types use.
pub proof fn lemma_radix_values()
    ensures
        radix(0) == 1,
        radix(1) == 0x100,
        radix(2) == 0x1_0000,
        radix(4) == 0x1_0000_0000,
        radix(8) == 0x1_0000_0000_0000_0000,
{
    reveal_with_fuel(radix, 9);
}

/// A longer byte string has a radix at least as large.
pub proof fn lemma_radix_monotonic(a: nat, b: nat)
    requires
        a <= b,
    ensures
        0 < radix(a) <= radix(b),
    decreases b,
{
    if a < b {
        lemma_radix_monotonic(a, (b - 1) as nat);
    } else if a > 0 {
        lemma_radix_monotonic((a - 1) as nat, (a - 1) as nat);
    }
}

/// A byte string spells a number below the radix of its length.
pub proof fn lemma_le_value_bound(bytes: Seq<u8>)
    ensures
        le_value(bytes) < radix(bytes.len()),
    decreases bytes.len(),
{
    if bytes.len() > 0 {
        lemma_le_value_bound(bytes.skip(1));
    }
}

/// A byte string spells a number below the radix of its length.
pub proof fn lemma_be_value_bound(bytes: Seq<u8>)
    ensures
        be_value(bytes) < radix(bytes.len()),
    decreases bytes.len(),
{
    if bytes.len() > 0 {
        lemma_be_value_bound(bytes.drop_last());
    }
}

/// `le_digits` yields exactly `width` bytes.
pub proof fn lemma_le_digits_len(v: nat, width: nat)
    ensures
        le_digits(v, width).len() == width,
    decreases width,
{
    if width > 0 {
        lemma_le_digits_len(v / 256, (width - 1) as nat);
    }
}

/// `be_digits` yields exactly `width` bytes.
pub proof fn lemma_be_digits_len(v: nat, width: nat)
    ensures
        be_digits(v, width).len() == width,
    decreases width,
{
    if width > 0 {
        lemma_be_digits_len(v / 256, (width - 1) as nat);
    }
}

/// Reading the little-endian digits of a number that fits gives it back.
pub proof fn lemma_le_value_of_digits(v: nat, width: nat)
    requires
        v < radix(width),
    ensures
        le_value(le_digits(v, width)) == v,
    decreases width,
{
    if width > 0 {
        let rest = le_digits(v / 256, (width - 1) as nat);
        let digits = le_digits(v, width);
        lemma_le_value_of_digits(v / 256, (width - 1) as nat);
        assert(digits.skip(1) =~= rest);
    }
}

/// Reading the big-endian digits of a number that fits gives it back.
pub proof fn lemma_be_value_of_digits(v: nat, width: nat)
    requires
        v < radix(width),
    ensures
        be_value(be_digits(v, width)) == v,
    decreases width,
{
    if width > 0 {
        let rest = be_digits(v / 256, (width - 1) as nat);
        let digits = be_digits(v, width);
        lemma_be_value_of_digits(v / 256, (width - 1) as nat);
        assert(digits.drop_last() =~= rest);
    }
}

/// Two's complement loses nothing: a pattern and the integer it stands for
/// determine each other.
pub proof fn lemma_twos_complement(width: nat)
    requires
        width > 0,
    ensures
        forall|raw: nat|
            raw < radix(width) ==> {
                &&& -(radix(width) / 2) <= #[trigger] signed(raw, width) < radix(width) / 2
                &&& unsigned(signed(raw, width), width) == raw
            },
        forall|v: int|
            -(radix(width) / 2) <= v < radix(width) / 2 ==> {
                &&& #[trigger] unsigned(v, width) < radix(width)
                &&& signed(unsigned(v, width), width) == v
            },
{
    assert(radix(width) == 256 * radix((width - 1) as nat));
}

/// Reads up to eight bytes as a little-endian number.
pub fn read_le(bytes: &[u8]) -> (v: u64)
    requires
        bytes@.len() <= 8,
    ensures
        v == le_value(bytes@),
{
    let n: usize = bytes.len();
    let mut acc: u64 = 0;
    let mut i: usize = n;
    proof {
        assert(bytes@.skip(n as int) =~= Seq::<u8>::empty());
    }
    while i > 0
        invariant
            n == bytes@.len(),
            n <= 8,
            i <= n,
            acc == le_value(bytes@.skip(i as int)),
        decreases i,
    {
        i = i - 1;
        proof {
            let tail = bytes@.skip(i as int);
            assert(tail.skip(1) =~= bytes@.skip(i + 1));
            lemma_le_value_bound(tail.skip(1));
            lemma_radix_monotonic(tail.len(), 8);
            lemma_radix_values();
        }
        acc = acc * 256 + bytes[i] as u64;
    }
    proof {
        assert(bytes@.skip(0) =~= bytes@);
    }
    acc
}

/// Reads up to eight bytes as a big-endian number.
pub fn read_be(bytes: &[u8]) -> (v: u64)
    requires
        bytes@.len() <= 8,
    ensures
        v == be_value(bytes@),
{
    let n: usize = bytes.len();
    let mut acc: u64 = 0;
    let mut i: usize = 0;
    while i < n
        invariant
            n == bytes@.len(),
            n <= 8,
            i <= n,
            acc == be_value(bytes@.take(i as int)),
        decreases n - i,
    {
        proof {
            let front = bytes@.take(i + 1);
            assert(front.drop_last() =~= bytes@.take(i as int));
            lemma_be_value_bound(front.drop_last());
            lemma_radix_monotonic(front.len(), 8);
            lemma_radix_values();
        }
        acc = acc * 256 + bytes[i] as u64;
        i = i + 1;
    }
    proof {
        assert(bytes@.take(n as int) =~= bytes@);
    }
    acc
}

/// Writes the `width` lowest bytes of `v`, least significant first.
pub fn write_le(v: u64, width: usize) -> (out: Vec<u8>)
    ensures
        out@ == le_digits(v as nat, width as nat),
{
    let mut out: Vec<u8> = Vec::with_capacity(width);
    let mut rest: u64 = v;
    let mut i: usize = 0;
    while i < width
        invariant
            i <= width,
            out@.len() == i,
            out@ + le_digits(rest as nat, (width - i) as nat) == le_digits(v as nat, width as nat),
        decreases width - i,
    {
        let ghost before = out@;
        let ghost tail = le_digits((rest / 256) as nat, (width - i - 1) as nat);
        out.push((rest % 256) as u8);
        proof {
            assert(out@ + tail =~= before + le_digits(rest as nat, (width - i) as nat));
        }
        rest = rest / 256;
        i = i + 1;
    }
    proof {
        assert(out@ + Seq::<u8>::empty() =~= out@);
    }
    out
}

/// Writes the `width` lowest bytes of `v`, most significant first.
pub fn write_be(v: u64, width: usize) -> (out: Vec<u8>)
    ensures
        out@ == be_digits(v as nat, width as nat),
    decreases width,
{
    if width == 0 {
        Vec::new()
    } else {
        let mut out = write_be(v / 256, width - 1);
        out.push((v % 256) as u8);
        out
    }
}

} // verus!
