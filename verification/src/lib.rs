//! FPGA interaction library: typed, capability-checked access to a window of
//! memory-mapped registers, handed out to a single owner.

use vstd::prelude::*;

pub mod data;
pub mod endian;
pub mod resources;
pub mod session;
pub mod traits;

use crate::data::Fixed7F25;
use crate::session::MmapSesh;
use crate::traits::{decode_le, fits, Data};

verus! {

/// What can go wrong between a caller and the register window.
#[derive(Debug, Clone, Copy, PartialEq, Eq)]
pub enum FpgaApiError {
    /// A buffer handed to a codec does not have the width of the value type.
    LengthMismatch,
    /// A register's byte window reaches past the end of the mapped span.
    OutOfRange,
    /// The physical-memory device could not be opened.
    DeviceOpenFailed,
    /// The register window could not be mapped.
    MapFailed,
    /// The one session of the process was handed out before.
    AlreadyTaken,
}

pub type FpgaApiResult<T> = Result<T, FpgaApiError>;

impl FpgaApiError {
    /// What the message of an error says.
    pub open spec fn spec_message(self) -> Seq<char> {
        match self {
            FpgaApiError::LengthMismatch => "Wrong number of bytes!"@,
            FpgaApiError::OutOfRange => "Register window is outside the mapped span!"@,
            FpgaApiError::DeviceOpenFailed => "ERROR trying to open memory-mapped file"@,
            FpgaApiError::MapFailed => "ERROR trying to initialize memory-mapped file"@,
            FpgaApiError::AlreadyTaken => "It is forbidden to create more than one FPGA session!"@,
        }
    }

    /// A message for the error, for diagnostics.
    pub fn message(&self) -> (s: &'static str)
        ensures
            s@ == self.spec_message(),
    {
        match self {
            FpgaApiError::LengthMismatch => "Wrong number of bytes!",
            FpgaApiError::OutOfRange => "Register window is outside the mapped span!",
            FpgaApiError::DeviceOpenFailed => "ERROR trying to open memory-mapped file",
            FpgaApiError::MapFailed => "ERROR trying to initialize memory-mapped file",
            FpgaApiError::AlreadyTaken => "It is forbidden to create more than one FPGA session!",
        }
    }
}

/// Path of the device that gives access to physical memory.
pub const POINT_NN_DEVICE: &'static str = "/dev/mem";

/// Physical address at which the register block of the point classifier starts.
pub const POINT_NN_BASE: u64 = 0xC002_0000;

/// Number of bytes in the register block.
pub const POINT_NN_SPAN: usize = 64;

/// Physical address of the last byte of the register block.
pub const POINT_NN_END: u64 = 0xC002_003F;

/// Byte offset of the input-vector register, which holds a coordinate of two
/// fixed-point numbers and can be read and written.
pub const POINT_NN_INPUT_VECTOR_OFFSET: usize = 0;

/// Byte offset of the output-classification register, which holds one
/// fixed-point number and can only be read.
pub const POINT_NN_OUTPUT_CLASS_OFFSET: usize = 8;

/// The register map stays inside the register block: the block ends where its
/// base and span say, and the two known registers lie in it one after the
/// other without overlap.
pub proof fn lemma_register_map()
    ensures
        POINT_NN_END == POINT_NN_BASE + POINT_NN_SPAN - 1,
        fits(POINT_NN_INPUT_VECTOR_OFFSET as nat, 8, POINT_NN_SPAN as nat),
        fits(POINT_NN_OUTPUT_CLASS_OFFSET as nat, 4, POINT_NN_SPAN as nat),
        POINT_NN_INPUT_VECTOR_OFFSET + 8 <= POINT_NN_OUTPUT_CLASS_OFFSET,
{
}

/// Boundary: in a window that reaches to the end of the classification
/// register, both known registers lie inside, so a write of any coordinate
/// and a read of the class are in range; and whatever four bytes the class
/// register shows, they decode, to the fixed-point number whose bits they
/// spell least significant byte first.
pub proof fn law_boundary(span: nat, shown: Seq<u8>)
    requires
        span >= POINT_NN_OUTPUT_CLASS_OFFSET + 4,
        shown.len() == 4,
    ensures
        fits(
            POINT_NN_INPUT_VECTOR_OFFSET as nat,
            <(Fixed7F25, Fixed7F25) as Data>::width(),
            span,
        ),
        fits(POINT_NN_OUTPUT_CLASS_OFFSET as nat, <Fixed7F25 as Data>::width(), span),
        decode_le::<Fixed7F25>(shown) == Ok::<Fixed7F25, FpgaApiError>(
            Fixed7F25 { bits: <i32 as Data>::from_le(shown) },
        ),
{
}

/// The slot that holds the one session of the process until it is taken.
///
/// A slot is filled when it is made and can only be drained: nothing refills
/// it.
pub struct Fpga(Option<MmapSesh>);

/// What a take from a slot returns: the session that the slot holds, or
/// `AlreadyTaken` where it holds none.
pub open spec fn taken(slot: Option<MmapSesh>) -> FpgaApiResult<MmapSesh> {
    match slot {
        Some(sesh) => Ok(sesh),
        None => Err(FpgaApiError::AlreadyTaken),
    }
}

/// One take: `res` is what the slot of `pre` gives, and `post` is empty.
pub open spec fn take_step(pre: Fpga, post: Fpga, res: FpgaApiResult<MmapSesh>) -> bool {
    res == taken(pre.slot()) && post.slot() is None
}

impl Fpga {
    /// What the slot holds.
    pub closed spec fn slot(&self) -> Option<MmapSesh> {
        self.0
    }

    /// A slot that holds `sesh`.
    pub fn new(sesh: MmapSesh) -> (fpga: Self)
        ensures
            fpga.slot() == Some(sesh),
    {
        Fpga(Some(sesh))
    }

    /// Removes the session from the slot and returns it; `AlreadyTaken` where
    /// the slot is empty. The slot is empty afterwards either way.
    pub fn take_once(&mut self) -> (res: FpgaApiResult<MmapSesh>)
        ensures
            take_step(*old(self), *final(self), res),
    {
        match self.0.take() {
            Some(sesh) => Ok(sesh),
            None => Err(FpgaApiError::AlreadyTaken),
        }
    }
}

/// Single ownership: of two takes in a row from a slot that was made with
/// `sesh`, the first returns that session and the second fails with
/// `AlreadyTaken`; and whatever a slot held, every take after the first fails
/// with `AlreadyTaken` and leaves the slot empty.
pub proof fn law_single_ownership(
    sesh: MmapSesh,
    s0: Fpga,
    s1: Fpga,
    s2: Fpga,
    r1: FpgaApiResult<MmapSesh>,
    r2: FpgaApiResult<MmapSesh>,
)
    requires
        take_step(s0, s1, r1),
        take_step(s1, s2, r2),
    ensures
        s0.slot() == Some(sesh) ==> r1 == Ok::<MmapSesh, FpgaApiError>(sesh),
        r2 == Err::<MmapSesh, FpgaApiError>(FpgaApiError::AlreadyTaken),
        s2.slot() is None,
{
}

} // verus!
