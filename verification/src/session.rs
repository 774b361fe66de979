//! Implementation of FPGA Session API (here for memory-mapped file API).

use memmap::MmapMut;
use vstd::prelude::*;

use crate::traits::{fits, spliced, Data, ReadOnlyResource, ReadWriteResource, Session};
use crate::{FpgaApiError, FpgaApiResult};

verus! {

/// `memmap::MmapMut`, a writable memory mapping. Nothing inside it is visible
/// to the verifier.
#[verifier::external_type_specification]
#[verifier::external_body]
pub struct ExMmapMut(memmap::MmapMut);

/// The bytes of a mapping, one per mapped byte, as the stores made through it
/// leave them. There are as many as the mapping was made with. Behind a
/// register window the hardware changes its registers on its own, so what an
/// access shows is not claimed to be these bytes.
pub uninterp spec fn mapped_bytes(mmap: MmapMut) -> Seq<u8>;

/// Calls `len` on the byte slice that `MmapMut` dereferences to. Trusted: the
/// slice has one byte per mapped byte.
#[verifier::external_body]
fn mapping_len(mmap: &MmapMut) -> (n: usize)
    ensures
        n == mapped_bytes(*mmap).len(),
{
    mmap.len()
}

/// Indexes the byte slice that `MmapMut` dereferences to with the range
/// `start..stop`. Trusted: for a range inside the mapping the slice has
/// `stop - start` bytes. Nothing is claimed of what they hold: that is the
/// device's.
#[verifier::external_body]
fn mapping_window(mmap: &MmapMut, start: usize, stop: usize) -> (bytes: &[u8])
    requires
        start <= stop <= mapped_bytes(*mmap).len(),
    ensures
        bytes@.len() == stop - start,
{
    &mmap[start..stop]
}

/// Calls `copy_from_slice` on the range `start..stop` of the byte slice that
/// `MmapMut` dereferences to mutably. Trusted: for a range inside the mapping
/// and a source of the same length the call returns, having put the source
/// into the range and left every byte outside it as it was.
#[verifier::external_body]
fn mapping_store(mmap: &mut MmapMut, start: usize, stop: usize, bytes: &[u8])
    requires
        start <= stop <= mapped_bytes(*old(mmap)).len(),
        bytes@.len() == stop - start,
    ensures
        mapped_bytes(*final(mmap)) == spliced(mapped_bytes(*old(mmap)), start as nat, bytes@),
{
    mmap[start..stop].copy_from_slice(bytes)
}

/// The half-open byte window `[start, stop)` of a register of `width` bytes at
/// `offset`, in a mapping of `span` bytes; `OutOfRange` where the window
/// reaches past the end of the mapping.
pub fn window(offset: usize, width: usize, span: usize) -> (res: FpgaApiResult<(usize, usize)>)
    ensures
        fits(offset as nat, width as nat, span as nat) ==> res == Ok::<
            (usize, usize),
            FpgaApiError,
        >((offset, (offset + width) as usize)),
        !fits(offset as nat, width as nat, span as nat) ==> res == Err::<
            (usize, usize),
            FpgaApiError,
        >(FpgaApiError::OutOfRange),
{
    if width > span || offset > span - width {
        Err(FpgaApiError::OutOfRange)
    } else {
        Ok((offset, offset + width))
    }
}

/// Session for FPGA I/O through a memory-mapped file.
///
/// A session exists only while the window is mapped: making one runs
/// `initialize`, dropping one runs `finalize` and unmaps the window.
pub struct MmapSesh {
    mmap: MmapMut,
}

impl MmapSesh {
    /// Starts a session over `mmap`: takes the mapping for itself and runs
    /// `initialize`. The window is the mapping as it stands, and its span
    /// fits a `usize`.
    pub fn new(mmap: MmapMut) -> (res: FpgaApiResult<Self>)
        ensures
            res matches Ok(sesh) && sesh.shadow() == mapped_bytes(mmap) && sesh.shadow().len()
                <= usize::MAX,
    {
        // The mapping reports its length as a `usize`, which bounds the span.
        let _span: usize = mapping_len(&mmap);
        let mut sesh = Self { mmap };
        match sesh.initialize() {
            Ok(()) => Ok(sesh),
            Err(e) => Err(e),
        }
    }

    /// Enforce critical FPGA/HW invariants for "initial" state.
    ///
    /// The hook for reset sequences. It holds none yet: it succeeds and
    /// leaves the session as it found it.
    pub fn initialize(&mut self) -> (res: FpgaApiResult<()>)
        ensures
            res is Ok,
            *final(self) == *old(self),
    {
        Ok(())
    }

    /// Enforce critical FPGA/HW invariants for "final" or dropped state.
    ///
    /// The hook for quiesce sequences, run when the session is dropped. It
    /// holds none yet: it leaves the session as it found it.
    pub fn finalize(&mut self)
        ensures
            *final(self) == *old(self),
        opens_invariants none
        no_unwind
    {
    }

    /// Number of bytes in the register window.
    pub fn len(&self) -> (n: usize)
        ensures
            n == self.shadow().len(),
    {
        mapping_len(&self.mmap)
    }

    /// Decodes, least significant byte first, what the window of `width`
    /// bytes at `offset` shows; `OutOfRange` where the window reaches past the
    /// end of the mapping, before any byte is looked at.
    fn fetch<D: Data>(&self, offset: usize, width: usize) -> (res: FpgaApiResult<D>)
        requires
            width == D::width(),
        ensures
            fits(offset as nat, D::width(), self.shadow().len()) ==> res is Ok,
            !fits(offset as nat, D::width(), self.shadow().len()) ==> res == Err::<
                D,
                FpgaApiError,
            >(FpgaApiError::OutOfRange),
    {
        match window(offset, width, mapping_len(&self.mmap)) {
            Ok((start, stop)) => {
                let slc = mapping_window(&self.mmap, start, stop);
                D::from_le_bytes(slc)
            },
            Err(e) => Err(e),
        }
    }
}

impl Session for MmapSesh {
    closed spec fn shadow(&self) -> Seq<u8> {
        mapped_bytes(self.mmap)
    }

    fn read<D, R>(&self, resource: &R) -> (res: FpgaApiResult<D>)
        where
            D: Data,
            R: ReadOnlyResource<Value = D>,
    {
        self.fetch::<D>(resource.byte_offset(), resource.size_in_bytes())
    }

    fn readw<D, R>(&self, resource: &R) -> (res: FpgaApiResult<D>)
        where
            D: Data,
            R: ReadWriteResource<Value = D>,
    {
        self.fetch::<D>(resource.byte_offset(), resource.size_in_bytes())
    }

    fn write<D, R>(&mut self, resource: &R, val: D) -> (res: FpgaApiResult<()>)
        where
            D: Data,
            R: ReadWriteResource<Value = D>,
    {
        let start = resource.byte_offset();
        let width = resource.size_in_bytes();
        match window(start, width, mapping_len(&self.mmap)) {
            Ok((start, stop)) => {
                proof {
                    val.law_width();
                }
                let bytes = val.to_le_bytes();
                mapping_store(&mut self.mmap, start, stop, bytes.as_slice());
                Ok(())
            },
            Err(e) => Err(e),
        }
    }
}

impl Drop for MmapSesh {
    fn drop(&mut self)
        opens_invariants none
        no_unwind
    {
        self.finalize();
    }
}

} // verus!
