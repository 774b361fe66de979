//! Define FPGA data types and primitives.

use vstd::prelude::*;

use crate::endian::{
    be_digits, be_value, le_digits, le_value, lemma_be_digits_len, lemma_be_value_bound,
    lemma_be_value_of_digits, lemma_le_digits_len, lemma_le_value_bound, lemma_le_value_of_digits,
    lemma_radix_values, lemma_twos_complement, radix, read_be, read_le, signed, unsigned,
    write_be, write_le,
};
use crate::traits::Data;
use crate::{FpgaApiError, FpgaApiResult};

verus! {

impl Data for u8 {
    open spec fn width() -> nat {
        1
    }

    open spec fn le_bytes(self) -> Seq<u8> {
        le_digits(self as nat, 1)
    }

    open spec fn be_bytes(self) -> Seq<u8> {
        be_digits(self as nat, 1)
    }

    open spec fn from_le(bytes: Seq<u8>) -> Self {
        le_value(bytes) as u8
    }

    open spec fn from_be(bytes: Seq<u8>) -> Self {
        be_value(bytes) as u8
    }

    fn byte_width() -> (n: usize) {
        1
    }

    fn from_le_bytes(b: &[u8]) -> (res: FpgaApiResult<Self>) {
        if b.len() != 1 {
            Err(FpgaApiError::LengthMismatch)
        } else {
            proof {
                lemma_le_value_bound(b@);
                lemma_radix_values();
            }
            Ok(read_le(b) as u8)
        }
    }

    fn from_be_bytes(b: &[u8]) -> (res: FpgaApiResult<Self>) {
        if b.len() != 1 {
            Err(FpgaApiError::LengthMismatch)
        } else {
            proof {
                lemma_be_value_bound(b@);
                lemma_radix_values();
            }
            Ok(read_be(b) as u8)
        }
    }

    fn to_le_bytes(self) -> (out: Vec<u8>) {
        write_le(self as u64, 1)
    }

    fn to_be_bytes(self) -> (out: Vec<u8>) {
        write_be(self as u64, 1)
    }

    proof fn law_width(self) {
        lemma_le_digits_len(self as nat, 1);
        lemma_be_digits_len(self as nat, 1);
    }

    proof fn law_round_trip(self) {
        lemma_radix_values();
        lemma_le_value_of_digits(self as nat, 1);
        lemma_be_value_of_digits(self as nat, 1);
    }
}

impl Data for u16 {
    open spec fn width() -> nat {
        2
    }

    open spec fn le_bytes(self) -> Seq<u8> {
        le_digits(self as nat, 2)
    }

    open spec fn be_bytes(self) -> Seq<u8> {
        be_digits(self as nat, 2)
    }

    open spec fn from_le(bytes: Seq<u8>) -> Self {
        le_value(bytes) as u16
    }

    open spec fn from_be(bytes: Seq<u8>) -> Self {
        be_value(bytes) as u16
    }

    fn byte_width() -> (n: usize) {
        2
    }

    fn from_le_bytes(b: &[u8]) -> (res: FpgaApiResult<Self>) {
        if b.len() != 2 {
            Err(FpgaApiError::LengthMismatch)
        } else {
            proof {
                lemma_le_value_bound(b@);
                lemma_radix_values();
            }
            Ok(read_le(b) as u16)
        }
    }

    fn from_be_bytes(b: &[u8]) -> (res: FpgaApiResult<Self>) {
        if b.len() != 2 {
            Err(FpgaApiError::LengthMismatch)
        } else {
            proof {
                lemma_be_value_bound(b@);
                lemma_radix_values();
            }
            Ok(read_be(b) as u16)
        }
    }

    fn to_le_bytes(self) -> (out: Vec<u8>) {
        write_le(self as u64, 2)
    }

    fn to_be_bytes(self) -> (out: Vec<u8>) {
        write_be(self as u64, 2)
    }

    proof fn law_width(self) {
        lemma_le_digits_len(self as nat, 2);
        lemma_be_digits_len(self as nat, 2);
    }

    proof fn law_round_trip(self) {
        lemma_radix_values();
        lemma_le_value_of_digits(self as nat, 2);
        lemma_be_value_of_digits(self as nat, 2);
    }
}

impl Data for u32 {
    open spec fn width() -> nat {
        4
    }

    open spec fn le_bytes(self) -> Seq<u8> {
        le_digits(self as nat, 4)
    }

    open spec fn be_bytes(self) -> Seq<u8> {
        be_digits(self as nat, 4)
    }

    open spec fn from_le(bytes: Seq<u8>) -> Self {
        le_value(bytes) as u32
    }

    open spec fn from_be(bytes: Seq<u8>) -> Self {
        be_value(bytes) as u32
    }

    fn byte_width() -> (n: usize) {
        4
    }

    fn from_le_bytes(b: &[u8]) -> (res: FpgaApiResult<Self>) {
        if b.len() != 4 {
            Err(FpgaApiError::LengthMismatch)
        } else {
            proof {
                lemma_le_value_bound(b@);
                lemma_radix_values();
            }
            Ok(read_le(b) as u32)
        }
    }

    fn from_be_bytes(b: &[u8]) -> (res: FpgaApiResult<Self>) {
        if b.len() != 4 {
            Err(FpgaApiError::LengthMismatch)
        } else {
            proof {
                lemma_be_value_bound(b@);
                lemma_radix_values();
            }
            Ok(read_be(b) as u32)
        }
    }

    fn to_le_bytes(self) -> (out: Vec<u8>) {
        write_le(self as u64, 4)
    }

    fn to_be_bytes(self) -> (out: Vec<u8>) {
        write_be(self as u64, 4)
    }

    proof fn law_width(self) {
        lemma_le_digits_len(self as nat, 4);
        lemma_be_digits_len(self as nat, 4);
    }

    proof fn law_round_trip(self) {
        lemma_radix_values();
        lemma_le_value_of_digits(self as nat, 4);
        lemma_be_value_of_digits(self as nat, 4);
    }
}

impl Data for u64 {
    open spec fn width() -> nat {
        8
    }

    open spec fn le_bytes(self) -> Seq<u8> {
        le_digits(self as nat, 8)
    }

    open spec fn be_bytes(self) -> Seq<u8> {
        be_digits(self as nat, 8)
    }

    open spec fn from_le(bytes: Seq<u8>) -> Self {
        le_value(bytes) as u64
    }

    open spec fn from_be(bytes: Seq<u8>) -> Self {
        be_value(bytes) as u64
    }

    fn byte_width() -> (n: usize) {
        8
    }

    fn from_le_bytes(b: &[u8]) -> (res: FpgaApiResult<Self>) {
        if b.len() != 8 {
            Err(FpgaApiError::LengthMismatch)
        } else {
            proof {
                lemma_le_value_bound(b@);
                lemma_radix_values();
            }
            Ok(read_le(b) as u64)
        }
    }

    fn from_be_bytes(b: &[u8]) -> (res: FpgaApiResult<Self>) {
        if b.len() != 8 {
            Err(FpgaApiError::LengthMismatch)
        } else {
            proof {
                lemma_be_value_bound(b@);
                lemma_radix_values();
            }
            Ok(read_be(b) as u64)
        }
    }

    fn to_le_bytes(self) -> (out: Vec<u8>) {
        write_le(self as u64, 8)
    }

    fn to_be_bytes(self) -> (out: Vec<u8>) {
        write_be(self as u64, 8)
    }

    proof fn law_width(self) {
        lemma_le_digits_len(self as nat, 8);
        lemma_be_digits_len(self as nat, 8);
    }

    proof fn law_round_trip(self) {
        lemma_radix_values();
        lemma_le_value_of_digits(self as nat, 8);
        lemma_be_value_of_digits(self as nat, 8);
    }
}

/// The `i8` that a 1-byte two's complement pattern stands for.
fn i8_of_pattern(raw: u64) -> (v: i8)
    requires
        raw < radix(1),
    ensures
        v == signed(raw as nat, 1),
{
    proof {
        lemma_radix_values();
    }
    if raw >= 0x80 {
        (raw as i128 - 0x100) as i8
    } else {
        raw as i8
    }
}

/// The 1-byte two's complement pattern of an `i8`.
fn pattern_of_i8(v: i8) -> (raw: u64)
    ensures
        raw == unsigned(v as int, 1),
        raw < radix(1),
{
    proof {
        lemma_radix_values();
    }
    if v < 0 {
        (v as i128 + 0x100) as u64
    } else {
        v as u64
    }
}

impl Data for i8 {
    open spec fn width() -> nat {
        1
    }

    open spec fn le_bytes(self) -> Seq<u8> {
        le_digits(unsigned(self as int, 1), 1)
    }

    open spec fn be_bytes(self) -> Seq<u8> {
        be_digits(unsigned(self as int, 1), 1)
    }

    open spec fn from_le(bytes: Seq<u8>) -> Self {
        signed(le_value(bytes), 1) as i8
    }

    open spec fn from_be(bytes: Seq<u8>) -> Self {
        signed(be_value(bytes), 1) as i8
    }

    fn byte_width() -> (n: usize) {
        1
    }

    fn from_le_bytes(b: &[u8]) -> (res: FpgaApiResult<Self>) {
        if b.len() != 1 {
            Err(FpgaApiError::LengthMismatch)
        } else {
            proof {
                lemma_le_value_bound(b@);
            }
            Ok(i8_of_pattern(read_le(b)))
        }
    }

    fn from_be_bytes(b: &[u8]) -> (res: FpgaApiResult<Self>) {
        if b.len() != 1 {
            Err(FpgaApiError::LengthMismatch)
        } else {
            proof {
                lemma_be_value_bound(b@);
            }
            Ok(i8_of_pattern(read_be(b)))
        }
    }

    fn to_le_bytes(self) -> (out: Vec<u8>) {
        write_le(pattern_of_i8(self), 1)
    }

    fn to_be_bytes(self) -> (out: Vec<u8>) {
        write_be(pattern_of_i8(self), 1)
    }

    proof fn law_width(self) {
        lemma_le_digits_len(unsigned(self as int, 1), 1);
        lemma_be_digits_len(unsigned(self as int, 1), 1);
    }

    proof fn law_round_trip(self) {
        lemma_radix_values();
        lemma_twos_complement(1);
        lemma_le_value_of_digits(unsigned(self as int, 1), 1);
        lemma_be_value_of_digits(unsigned(self as int, 1), 1);
    }
}

/// The `i16` that a 2-byte two's complement pattern stands for.
fn i16_of_pattern(raw: u64) -> (v: i16)
    requires
        raw < radix(2),
    ensures
        v == signed(raw as nat, 2),
{
    proof {
        lemma_radix_values();
    }
    if raw >= 0x8000 {
        (raw as i128 - 0x1_0000) as i16
    } else {
        raw as i16
    }
}

/// The 2-byte two's complement pattern of an `i16`.
fn pattern_of_i16(v: i16) -> (raw: u64)
    ensures
        raw == unsigned(v as int, 2),
        raw < radix(2),
{
    proof {
        lemma_radix_values();
    }
    if v < 0 {
        (v as i128 + 0x1_0000) as u64
    } else {
        v as u64
    }
}

impl Data for i16 {
    open spec fn width() -> nat {
        2
    }

    open spec fn le_bytes(self) -> Seq<u8> {
        le_digits(unsigned(self as int, 2), 2)
    }

    open spec fn be_bytes(self) -> Seq<u8> {
        be_digits(unsigned(self as int, 2), 2)
    }

    open spec fn from_le(bytes: Seq<u8>) -> Self {
        signed(le_value(bytes), 2) as i16
    }

    open spec fn from_be(bytes: Seq<u8>) -> Self {
        signed(be_value(bytes), 2) as i16
    }

    fn byte_width() -> (n: usize) {
        2
    }

    fn from_le_bytes(b: &[u8]) -> (res: FpgaApiResult<Self>) {
        if b.len() != 2 {
            Err(FpgaApiError::LengthMismatch)
        } else {
            proof {
                lemma_le_value_bound(b@);
            }
            Ok(i16_of_pattern(read_le(b)))
        }
    }

    fn from_be_bytes(b: &[u8]) -> (res: FpgaApiResult<Self>) {
        if b.len() != 2 {
            Err(FpgaApiError::LengthMismatch)
        } else {
            proof {
                lemma_be_value_bound(b@);
            }
            Ok(i16_of_pattern(read_be(b)))
        }
    }

    fn to_le_bytes(self) -> (out: Vec<u8>) {
        write_le(pattern_of_i16(self), 2)
    }

    fn to_be_bytes(self) -> (out: Vec<u8>) {
        write_be(pattern_of_i16(self), 2)
    }

    proof fn law_width(self) {
        lemma_le_digits_len(unsigned(self as int, 2), 2);
        lemma_be_digits_len(unsigned(self as int, 2), 2);
    }

    proof fn law_round_trip(self) {
        lemma_radix_values();
        lemma_twos_complement(2);
        lemma_le_value_of_digits(unsigned(self as int, 2), 2);
        lemma_be_value_of_digits(unsigned(self as int, 2), 2);
    }
}

/// The `i32` that a 4-byte two's complement pattern stands for.
fn i32_of_pattern(raw: u64) -> (v: i32)
    requires
        raw < radix(4),
    ensures
        v == signed(raw as nat, 4),
{
    proof {
        lemma_radix_values();
    }
    if raw >= 0x8000_0000 {
        (raw as i128 - 0x1_0000_0000) as i32
    } else {
        raw as i32
    }
}

/// The 4-byte two's complement pattern of an `i32`.
fn pattern_of_i32(v: i32) -> (raw: u64)
    ensures
        raw == unsigned(v as int, 4),
        raw < radix(4),
{
    proof {
        lemma_radix_values();
    }
    if v < 0 {
        (v as i128 + 0x1_0000_0000) as u64
    } else {
        v as u64
    }
}

impl Data for i32 {
    open spec fn width() -> nat {
        4
    }

    open spec fn le_bytes(self) -> Seq<u8> {
        le_digits(unsigned(self as int, 4), 4)
    }

    open spec fn be_bytes(self) -> Seq<u8> {
        be_digits(unsigned(self as int, 4), 4)
    }

    open spec fn from_le(bytes: Seq<u8>) -> Self {
        signed(le_value(bytes), 4) as i32
    }

    open spec fn from_be(bytes: Seq<u8>) -> Self {
        signed(be_value(bytes), 4) as i32
    }

    fn byte_width() -> (n: usize) {
        4
    }

    fn from_le_bytes(b: &[u8]) -> (res: FpgaApiResult<Self>) {
        if b.len() != 4 {
            Err(FpgaApiError::LengthMismatch)
        } else {
            proof {
                lemma_le_value_bound(b@);
            }
            Ok(i32_of_pattern(read_le(b)))
        }
    }

    fn from_be_bytes(b: &[u8]) -> (res: FpgaApiResult<Self>) {
        if b.len() != 4 {
            Err(FpgaApiError::LengthMismatch)
        } else {
            proof {
                lemma_be_value_bound(b@);
            }
            Ok(i32_of_pattern(read_be(b)))
        }
    }

    fn to_le_bytes(self) -> (out: Vec<u8>) {
        write_le(pattern_of_i32(self), 4)
    }

    fn to_be_bytes(self) -> (out: Vec<u8>) {
        write_be(pattern_of_i32(self), 4)
    }

    proof fn law_width(self) {
        lemma_le_digits_len(unsigned(self as int, 4), 4);
        lemma_be_digits_len(unsigned(self as int, 4), 4);
    }

    proof fn law_round_trip(self) {
        lemma_radix_values();
        lemma_twos_complement(4);
        lemma_le_value_of_digits(unsigned(self as int, 4), 4);
        lemma_be_value_of_digits(unsigned(self as int, 4), 4);
    }
}

/// The `i64` that a 8-byte two's complement pattern stands for.
fn i64_of_pattern(raw: u64) -> (v: i64)
    requires
        raw < radix(8),
    ensures
        v == signed(raw as nat, 8),
{
    proof {
        lemma_radix_values();
    }
    if raw >= 0x8000_0000_0000_0000 {
        (raw as i128 - 0x1_0000_0000_0000_0000) as i64
    } else {
        raw as i64
    }
}

/// The 8-byte two's complement pattern of an `i64`.
fn pattern_of_i64(v: i64) -> (raw: u64)
    ensures
        raw == unsigned(v as int, 8),
        raw < radix(8),
{
    proof {
        lemma_radix_values();
    }
    if v < 0 {
        (v as i128 + 0x1_0000_0000_0000_0000) as u64
    } else {
        v as u64
    }
}

impl Data for i64 {
    open spec fn width() -> nat {
        8
    }

    open spec fn le_bytes(self) -> Seq<u8> {
        le_digits(unsigned(self as int, 8), 8)
    }

    open spec fn be_bytes(self) -> Seq<u8> {
        be_digits(unsigned(self as int, 8), 8)
    }

    open spec fn from_le(bytes: Seq<u8>) -> Self {
        signed(le_value(bytes), 8) as i64
    }

    open spec fn from_be(bytes: Seq<u8>) -> Self {
        signed(be_value(bytes), 8) as i64
    }

    fn byte_width() -> (n: usize) {
        8
    }

    fn from_le_bytes(b: &[u8]) -> (res: FpgaApiResult<Self>) {
        if b.len() != 8 {
            Err(FpgaApiError::LengthMismatch)
        } else {
            proof {
                lemma_le_value_bound(b@);
            }
            Ok(i64_of_pattern(read_le(b)))
        }
    }

    fn from_be_bytes(b: &[u8]) -> (res: FpgaApiResult<Self>) {
        if b.len() != 8 {
            Err(FpgaApiError::LengthMismatch)
        } else {
            proof {
                lemma_be_value_bound(b@);
            }
            Ok(i64_of_pattern(read_be(b)))
        }
    }

    fn to_le_bytes(self) -> (out: Vec<u8>) {
        write_le(pattern_of_i64(self), 8)
    }

    fn to_be_bytes(self) -> (out: Vec<u8>) {
        write_be(pattern_of_i64(self), 8)
    }

    proof fn law_width(self) {
        lemma_le_digits_len(unsigned(self as int, 8), 8);
        lemma_be_digits_len(unsigned(self as int, 8), 8);
    }

    proof fn law_round_trip(self) {
        lemma_radix_values();
        lemma_twos_complement(8);
        lemma_le_value_of_digits(unsigned(self as int, 8), 8);
        lemma_be_value_of_digits(unsigned(self as int, 8), 8);
    }
}

/// An IEEE 754 binary32 floating-point value.
///
/// The value is kept as its bit pattern, which is what a register holds and
/// what the codec preserves bit for bit, payloads of NaNs included.
#[derive(Debug, Clone, Copy, PartialEq, Eq)]
pub struct Binary32 {
    pub bits: u32,
}

impl View for Binary32 {
    type V = u32;

    open spec fn view(&self) -> u32 {
        self.bits
    }
}

impl Binary32 {
    /// The value with the given bit pattern.
    pub fn from_bits(bits: u32) -> (v: Self)
        ensures
            v@ == bits,
    {
        Self { bits }
    }

    /// The bit pattern of the value.
    pub fn to_bits(self) -> (bits: u32)
        ensures
            bits == self@,
    {
        self.bits
    }
}

impl Data for Binary32 {
    open spec fn width() -> nat {
        4
    }

    open spec fn le_bytes(self) -> Seq<u8> {
        le_digits(self@ as nat, 4)
    }

    open spec fn be_bytes(self) -> Seq<u8> {
        be_digits(self@ as nat, 4)
    }

    open spec fn from_le(bytes: Seq<u8>) -> Self {
        Self { bits: le_value(bytes) as u32 }
    }

    open spec fn from_be(bytes: Seq<u8>) -> Self {
        Self { bits: be_value(bytes) as u32 }
    }

    fn byte_width() -> (n: usize) {
        4
    }

    fn from_le_bytes(b: &[u8]) -> (res: FpgaApiResult<Self>) {
        if b.len() != 4 {
            Err(FpgaApiError::LengthMismatch)
        } else {
            proof {
                lemma_le_value_bound(b@);
                lemma_radix_values();
            }
            Ok(Self::from_bits(read_le(b) as u32))
        }
    }

    fn from_be_bytes(b: &[u8]) -> (res: FpgaApiResult<Self>) {
        if b.len() != 4 {
            Err(FpgaApiError::LengthMismatch)
        } else {
            proof {
                lemma_be_value_bound(b@);
                lemma_radix_values();
            }
            Ok(Self::from_bits(read_be(b) as u32))
        }
    }

    fn to_le_bytes(self) -> (out: Vec<u8>) {
        write_le(self.bits as u64, 4)
    }

    fn to_be_bytes(self) -> (out: Vec<u8>) {
        write_be(self.bits as u64, 4)
    }

    proof fn law_width(self) {
        lemma_le_digits_len(self@ as nat, 4);
        lemma_be_digits_len(self@ as nat, 4);
    }

    proof fn law_round_trip(self) {
        lemma_radix_values();
        lemma_le_value_of_digits(self@ as nat, 4);
        lemma_be_value_of_digits(self@ as nat, 4);
    }
}

/// An IEEE 754 binary64 floating-point value.
///
/// The value is kept as its bit pattern, which is what a register holds and
/// what the codec preserves bit for bit, payloads of NaNs included.
#[derive(Debug, Clone, Copy, PartialEq, Eq)]
pub struct Binary64 {
    pub bits: u64,
}

impl View for Binary64 {
    type V = u64;

    open spec fn view(&self) -> u64 {
        self.bits
    }
}

impl Binary64 {
    /// The value with the given bit pattern.
    pub fn from_bits(bits: u64) -> (v: Self)
        ensures
            v@ == bits,
    {
        Self { bits }
    }

    /// The bit pattern of the value.
    pub fn to_bits(self) -> (bits: u64)
        ensures
            bits == self@,
    {
        self.bits
    }
}

impl Data for Binary64 {
    open spec fn width() -> nat {
        8
    }

    open spec fn le_bytes(self) -> Seq<u8> {
        le_digits(self@ as nat, 8)
    }

    open spec fn be_bytes(self) -> Seq<u8> {
        be_digits(self@ as nat, 8)
    }

    open spec fn from_le(bytes: Seq<u8>) -> Self {
        Self { bits: le_value(bytes) as u64 }
    }

    open spec fn from_be(bytes: Seq<u8>) -> Self {
        Self { bits: be_value(bytes) as u64 }
    }

    fn byte_width() -> (n: usize) {
        8
    }

    fn from_le_bytes(b: &[u8]) -> (res: FpgaApiResult<Self>) {
        if b.len() != 8 {
            Err(FpgaApiError::LengthMismatch)
        } else {
            proof {
                lemma_le_value_bound(b@);
                lemma_radix_values();
            }
            Ok(Self::from_bits(read_le(b) as u64))
        }
    }

    fn from_be_bytes(b: &[u8]) -> (res: FpgaApiResult<Self>) {
        if b.len() != 8 {
            Err(FpgaApiError::LengthMismatch)
        } else {
            proof {
                lemma_be_value_bound(b@);
                lemma_radix_values();
            }
            Ok(Self::from_bits(read_be(b) as u64))
        }
    }

    fn to_le_bytes(self) -> (out: Vec<u8>) {
        write_le(self.bits as u64, 8)
    }

    fn to_be_bytes(self) -> (out: Vec<u8>) {
        write_be(self.bits as u64, 8)
    }

    proof fn law_width(self) {
        lemma_le_digits_len(self@ as nat, 8);
        lemma_be_digits_len(self@ as nat, 8);
    }

    proof fn law_round_trip(self) {
        lemma_radix_values();
        lemma_le_value_of_digits(self@ as nat, 8);
        lemma_be_value_of_digits(self@ as nat, 8);
    }
}

/// A signed fixed-point number with 7 integer bits and 25 fractional bits.
///
/// The value is `bits / 2^25`, with `bits` a 32-bit two's complement integer:
/// the range is [-64, 64) in steps of 2^-25. The type holds the bits; the byte
/// forms are those of `fixed::types::I7F25`, which computes them.
#[derive(Debug, Clone, Copy, PartialEq, Eq)]
pub struct Fixed7F25 {
    pub bits: i32,
}

impl View for Fixed7F25 {
    type V = i32;

    open spec fn view(&self) -> i32 {
        self.bits
    }
}

impl Fixed7F25 {
    /// The number whose two's complement representation is `bits`.
    pub fn from_bits(bits: i32) -> (v: Self)
        ensures
            v@ == bits,
    {
        Self { bits }
    }

    /// The two's complement representation of the number.
    pub fn to_bits(self) -> (bits: i32)
        ensures
            bits == self@,
    {
        self.bits
    }
}

/// Calls `fixed::types::I7F25::from_le_bytes` and hands back the bits of what
/// it made. Trusted: the outside function reads the four bytes as a 32-bit
/// two's complement integer, least significant byte first, and makes the
/// number with those bits.
#[verifier::external_body]
fn fixed_bits_from_le(bytes: [u8; 4]) -> (bits: i32)
    ensures
        bits == signed(le_value(bytes@), 4),
{
    fixed::types::I7F25::from_le_bytes(bytes).to_bits()
}

/// Calls `fixed::types::I7F25::from_be_bytes` and hands back the bits of what
/// it made. Trusted: the outside function reads the four bytes as a 32-bit
/// two's complement integer, most significant byte first, and makes the
/// number with those bits.
#[verifier::external_body]
fn fixed_bits_from_be(bytes: [u8; 4]) -> (bits: i32)
    ensures
        bits == signed(be_value(bytes@), 4),
{
    fixed::types::I7F25::from_be_bytes(bytes).to_bits()
}

/// Calls `fixed::types::I7F25::to_le_bytes` on the number with the given bits.
/// Trusted: the outside function gives the four bytes of the 32-bit two's
/// complement form of the bits, least significant byte first.
#[verifier::external_body]
fn fixed_bits_to_le(bits: i32) -> (out: Vec<u8>)
    ensures
        out@ == le_digits(unsigned(bits as int, 4), 4),
{
    fixed::types::I7F25::from_bits(bits).to_le_bytes().to_vec()
}

/// Calls `fixed::types::I7F25::to_be_bytes` on the number with the given bits.
/// Trusted: the outside function gives the four bytes of the 32-bit two's
/// complement form of the bits, most significant byte first.
#[verifier::external_body]
fn fixed_bits_to_be(bits: i32) -> (out: Vec<u8>)
    ensures
        out@ == be_digits(unsigned(bits as int, 4), 4),
{
    fixed::types::I7F25::from_bits(bits).to_be_bytes().to_vec()
}

impl Data for Fixed7F25 {
    open spec fn width() -> nat {
        4
    }

    open spec fn le_bytes(self) -> Seq<u8> {
        le_digits(unsigned(self@ as int, 4), 4)
    }

    open spec fn be_bytes(self) -> Seq<u8> {
        be_digits(unsigned(self@ as int, 4), 4)
    }

    open spec fn from_le(bytes: Seq<u8>) -> Self {
        Self { bits: signed(le_value(bytes), 4) as i32 }
    }

    open spec fn from_be(bytes: Seq<u8>) -> Self {
        Self { bits: signed(be_value(bytes), 4) as i32 }
    }

    fn byte_width() -> (n: usize) {
        4
    }

    fn from_le_bytes(b: &[u8]) -> (res: FpgaApiResult<Self>) {
        if b.len() != 4 {
            Err(FpgaApiError::LengthMismatch)
        } else {
            let quad: [u8; 4] = [b[0], b[1], b[2], b[3]];
            assert(quad@ =~= b@);
            Ok(Self::from_bits(fixed_bits_from_le(quad)))
        }
    }

    fn from_be_bytes(b: &[u8]) -> (res: FpgaApiResult<Self>) {
        if b.len() != 4 {
            Err(FpgaApiError::LengthMismatch)
        } else {
            let quad: [u8; 4] = [b[0], b[1], b[2], b[3]];
            assert(quad@ =~= b@);
            Ok(Self::from_bits(fixed_bits_from_be(quad)))
        }
    }

    fn to_le_bytes(self) -> (out: Vec<u8>) {
        fixed_bits_to_le(self.bits)
    }

    fn to_be_bytes(self) -> (out: Vec<u8>) {
        fixed_bits_to_be(self.bits)
    }

    proof fn law_width(self) {
        lemma_le_digits_len(unsigned(self@ as int, 4), 4);
        lemma_be_digits_len(unsigned(self@ as int, 4), 4);
    }

    proof fn law_round_trip(self) {
        lemma_radix_values();
        lemma_twos_complement(4);
        lemma_le_value_of_digits(unsigned(self@ as int, 4), 4);
        lemma_be_value_of_digits(unsigned(self@ as int, 4), 4);
    }
}

/// A planar coordinate: two fixed-point numbers packed one after the other,
/// the first element first, with no padding between them.
impl Data for (Fixed7F25, Fixed7F25) {
    open spec fn width() -> nat {
        8
    }

    open spec fn le_bytes(self) -> Seq<u8> {
        self.0.le_bytes() + self.1.le_bytes()
    }

    open spec fn be_bytes(self) -> Seq<u8> {
        self.0.be_bytes() + self.1.be_bytes()
    }

    open spec fn from_le(bytes: Seq<u8>) -> Self {
        (Fixed7F25::from_le(bytes.subrange(0, 4)), Fixed7F25::from_le(bytes.subrange(4, 8)))
    }

    open spec fn from_be(bytes: Seq<u8>) -> Self {
        (Fixed7F25::from_be(bytes.subrange(0, 4)), Fixed7F25::from_be(bytes.subrange(4, 8)))
    }

    fn byte_width() -> (n: usize) {
        8
    }

    fn from_le_bytes(b: &[u8]) -> (res: FpgaApiResult<Self>) {
        if b.len() != 8 {
            Err(FpgaApiError::LengthMismatch)
        } else {
            let first: [u8; 4] = [b[0], b[1], b[2], b[3]];
            let second: [u8; 4] = [b[4], b[5], b[6], b[7]];
            assert(first@ =~= b@.subrange(0, 4));
            assert(second@ =~= b@.subrange(4, 8));
            Ok(
                (
                    Fixed7F25::from_bits(fixed_bits_from_le(first)),
                    Fixed7F25::from_bits(fixed_bits_from_le(second)),
                ),
            )
        }
    }

    fn from_be_bytes(b: &[u8]) -> (res: FpgaApiResult<Self>) {
        if b.len() != 8 {
            Err(FpgaApiError::LengthMismatch)
        } else {
            let first: [u8; 4] = [b[0], b[1], b[2], b[3]];
            let second: [u8; 4] = [b[4], b[5], b[6], b[7]];
            assert(first@ =~= b@.subrange(0, 4));
            assert(second@ =~= b@.subrange(4, 8));
            Ok(
                (
                    Fixed7F25::from_bits(fixed_bits_from_be(first)),
                    Fixed7F25::from_bits(fixed_bits_from_be(second)),
                ),
            )
        }
    }

    fn to_le_bytes(self) -> (out: Vec<u8>) {
        let (v1, v2) = self;
        let mut out: Vec<u8> = Vec::with_capacity(8);
        let mut first = v1.to_le_bytes();
        let mut second = v2.to_le_bytes();
        out.append(&mut first);
        out.append(&mut second);
        out
    }

    fn to_be_bytes(self) -> (out: Vec<u8>) {
        let (v1, v2) = self;
        let mut out: Vec<u8> = Vec::with_capacity(8);
        let mut first = v1.to_be_bytes();
        let mut second = v2.to_be_bytes();
        out.append(&mut first);
        out.append(&mut second);
        out
    }

    proof fn law_width(self) {
        self.0.law_width();
        self.1.law_width();
    }

    proof fn law_round_trip(self) {
        self.0.law_width();
        self.1.law_width();
        self.0.law_round_trip();
        self.1.law_round_trip();
        assert(self.le_bytes().subrange(0, 4) =~= self.0.le_bytes());
        assert(self.le_bytes().subrange(4, 8) =~= self.1.le_bytes());
        assert(self.be_bytes().subrange(0, 4) =~= self.0.be_bytes());
        assert(self.be_bytes().subrange(4, 8) =~= self.1.be_bytes());
    }
}

/// Pair packing: the bytes of a coordinate are the bytes of its first element
/// followed by the bytes of its second, eight bytes in all, in either byte
/// order.
pub proof fn law_pair_packing(a: Fixed7F25, b: Fixed7F25)
    ensures
        (a, b).le_bytes() == a.le_bytes() + b.le_bytes(),
        (a, b).be_bytes() == a.be_bytes() + b.be_bytes(),
        (a, b).le_bytes().len() == 8,
        (a, b).be_bytes().len() == 8,
        <(Fixed7F25, Fixed7F25) as Data>::width() == 2 * <Fixed7F25 as Data>::width(),
{
    a.law_width();
    b.law_width();
}

} // verus!
