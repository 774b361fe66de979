//! Traits and typestates to represent an FPGA session and its resources.

use vstd::prelude::*;

use crate::{FpgaApiError, FpgaApiResult};

verus! {

/// A value that a register can hold.
///
/// Every value type has a fixed width and two byte forms, one per byte order.
/// An implementation owes the two laws at the end of the trait: the byte forms
/// have exactly the width of the type, and decoding an encoded value gives the
/// value back.
pub trait Data: Sized {
    /// Number of bytes that a value of this type occupies in a register.
    spec fn width() -> nat;

    /// The bytes of the value, least significant first.
    spec fn le_bytes(self) -> Seq<u8>;

    /// The bytes of the value, most significant first.
    spec fn be_bytes(self) -> Seq<u8>;

    /// The value that `width()` bytes hold, least significant byte first.
    spec fn from_le(bytes: Seq<u8>) -> Self;

    /// The value that `width()` bytes hold, most significant byte first.
    spec fn from_be(bytes: Seq<u8>) -> Self;

    /// Size in bytes of the value type.
    fn byte_width() -> (n: usize)
        ensures
            n == Self::width(),
    ;

    /// From little-endian byte slice.
    fn from_le_bytes(bytes: &[u8]) -> (res: FpgaApiResult<Self>)
        ensures
            bytes@.len() == Self::width() ==> res == Ok::<Self, FpgaApiError>(
                Self::from_le(bytes@),
            ),
            bytes@.len() != Self::width() ==> res == Err::<Self, FpgaApiError>(
                FpgaApiError::LengthMismatch,
            ),
    ;

    /// From big-endian byte slice.
    fn from_be_bytes(bytes: &[u8]) -> (res: FpgaApiResult<Self>)
        ensures
            bytes@.len() == Self::width() ==> res == Ok::<Self, FpgaApiError>(
                Self::from_be(bytes@),
            ),
            bytes@.len() != Self::width() ==> res == Err::<Self, FpgaApiError>(
                FpgaApiError::LengthMismatch,
            ),
    ;

    /// To little-endian byte `Vec`.
    fn to_le_bytes(self) -> (out: Vec<u8>)
        ensures
            out@ == self.le_bytes(),
    ;

    /// To big-endian byte `Vec`.
    fn to_be_bytes(self) -> (out: Vec<u8>)
        ensures
            out@ == self.be_bytes(),
    ;

    /// Both byte forms of a value have exactly the width of its type.
    proof fn law_width(self)
        ensures
            self.le_bytes().len() == Self::width(),
            self.be_bytes().len() == Self::width(),
    ;

    /// Decoding the bytes of a value gives the value back, in either order.
    proof fn law_round_trip(self)
        ensures
            Self::from_le(self.le_bytes()) == self,
            Self::from_be(self.be_bytes()) == self,
    ;
}

/// What decoding a little-endian buffer of any length gives: the value that
/// the bytes hold where there are exactly `width()` of them, and a
/// `LengthMismatch` otherwise.
pub open spec fn decode_le<D: Data>(bytes: Seq<u8>) -> FpgaApiResult<D> {
    if bytes.len() == D::width() {
        Ok(D::from_le(bytes))
    } else {
        Err(FpgaApiError::LengthMismatch)
    }
}

/// What decoding a big-endian buffer of any length gives: the value that the
/// bytes hold where there are exactly `width()` of them, and a
/// `LengthMismatch` otherwise.
pub open spec fn decode_be<D: Data>(bytes: Seq<u8>) -> FpgaApiResult<D> {
    if bytes.len() == D::width() {
        Ok(D::from_be(bytes))
    } else {
        Err(FpgaApiError::LengthMismatch)
    }
}

/// Round trip, little endian: decoding the little-endian bytes of any value
/// succeeds and gives that value.
pub proof fn law_round_trip_le<D: Data>(v: D)
    ensures
        decode_le::<D>(v.le_bytes()) == Ok::<D, FpgaApiError>(v),
{
    v.law_width();
    v.law_round_trip();
}

/// Round trip, big endian: decoding the big-endian bytes of any value
/// succeeds and gives that value.
pub proof fn law_round_trip_be<D: Data>(v: D)
    ensures
        decode_be::<D>(v.be_bytes()) == Ok::<D, FpgaApiError>(v),
{
    v.law_width();
    v.law_round_trip();
}

/// Length validation: encoding any value gives exactly `width()` bytes, and
/// decoding a buffer of any other length is a `LengthMismatch`, in either byte
/// order.
pub proof fn law_length_validation<D: Data>(v: D, bytes: Seq<u8>)
    ensures
        v.le_bytes().len() == D::width(),
        v.be_bytes().len() == D::width(),
        bytes.len() != D::width() ==> decode_le::<D>(bytes) == Err::<D, FpgaApiError>(
            FpgaApiError::LengthMismatch,
        ),
        bytes.len() != D::width() ==> decode_be::<D>(bytes) == Err::<D, FpgaApiError>(
            FpgaApiError::LengthMismatch,
        ),
        bytes.len() == D::width() ==> decode_le::<D>(bytes) is Ok && decode_be::<D>(bytes) is Ok,
{
    v.law_width();
}

/// A read-only FPGA resource.
pub trait ReadOnlyResource {
    /// Data value type of the resource.
    type Value: Data;

    /// Where the register starts, in bytes from the start of the window.
    spec fn offset(&self) -> nat;

    /// Memory offset.
    fn byte_offset(&self) -> (n: usize)
        ensures
            n == self.offset(),
    ;

    /// Size in bytes of data type.
    fn size_in_bytes(&self) -> (n: usize)
        ensures
            n == Self::Value::width(),
    {
        Self::Value::byte_width()
    }
}

/// A writeable FPGA resource.
pub trait ReadWriteResource {
    /// Data value type of the resource.
    type Value: Data;

    /// Where the register starts, in bytes from the start of the window.
    spec fn offset(&self) -> nat;

    /// Memory offset.
    fn byte_offset(&self) -> (n: usize)
        ensures
            n == self.offset(),
    ;

    /// Size in bytes of data type.
    fn size_in_bytes(&self) -> (n: usize)
        ensures
            n == Self::Value::width(),
    {
        Self::Value::byte_width()
    }
}

/// Whether the half-open window `[offset, offset + width)` lies inside a
/// mapping of `span` bytes.
pub open spec fn fits(offset: nat, width: nat, span: nat) -> bool {
    offset + width <= span
}

/// The window `before` with `bytes` stored at `offset`: the bytes before the
/// store as they were, then `bytes`, then the bytes behind the store as they
/// were.
pub open spec fn spliced(before: Seq<u8>, offset: nat, bytes: Seq<u8>) -> Seq<u8> {
    before.subrange(0, offset as int) + bytes + before.subrange(
        (offset + bytes.len()) as int,
        before.len() as int,
    )
}

/// Trait to wrap FPGA hardware with "session" API.
///
/// A session is the only gateway to the register window. Its model is the
/// window's `shadow`: the bytes of the window as the session's stores leave
/// them. A write is answerable to it byte for byte. A read is not tied to it:
/// the hardware changes its registers on its own, and what a read shows is
/// the hardware's.
pub trait Session: Sized {
    /// The bytes of the register window, one per mapped byte, as the stores
    /// made through the session leave them. Its length is the span of the
    /// window.
    spec fn shadow(&self) -> Seq<u8>;

    /// Read a read-only resource.
    ///
    /// Succeeds exactly when the register lies inside the window; the value
    /// is what `Data::from_le_bytes` makes of the bytes that the register
    /// shows.
    fn read<D, R>(&self, resource: &R) -> (res: FpgaApiResult<D>)
        where
            D: Data,
            R: ReadOnlyResource<Value = D>,
        ensures
            fits(resource.offset(), D::width(), self.shadow().len()) ==> res is Ok,
            !fits(resource.offset(), D::width(), self.shadow().len()) ==> res == Err::<
                D,
                FpgaApiError,
            >(FpgaApiError::OutOfRange),
    ;

    /// Read a read/write resource.
    ///
    /// Succeeds exactly when the register lies inside the window; the value
    /// is what `Data::from_le_bytes` makes of the bytes that the register
    /// shows.
    fn readw<D, R>(&self, resource: &R) -> (res: FpgaApiResult<D>)
        where
            D: Data,
            R: ReadWriteResource<Value = D>,
        ensures
            fits(resource.offset(), D::width(), self.shadow().len()) ==> res is Ok,
            !fits(resource.offset(), D::width(), self.shadow().len()) ==> res == Err::<
                D,
                FpgaApiError,
            >(FpgaApiError::OutOfRange),
    ;

    /// Write to a read/write resource.
    ///
    /// Where the register lies inside the window, its bytes become the
    /// little-endian bytes of `val` and every other byte stays as it was.
    /// Where it does not, nothing is stored and the session is as before.
    fn write<D, R>(&mut self, resource: &R, val: D) -> (res: FpgaApiResult<()>)
        where
            D: Data,
            R: ReadWriteResource<Value = D>,
        ensures
            final(self).shadow().len() == old(self).shadow().len(),
            fits(resource.offset(), D::width(), old(self).shadow().len()) ==> {
                &&& res is Ok
                &&& final(self).shadow() == spliced(
                    old(self).shadow(),
                    resource.offset(),
                    val.le_bytes(),
                )
            },
            !fits(resource.offset(), D::width(), old(self).shadow().len()) ==> {
                &&& res == Err::<(), FpgaApiError>(FpgaApiError::OutOfRange)
                &&& *final(self) == *old(self)
            },
    ;
}

/// Trait to implement typestates for separating read/write entities.
pub trait IOState {
}

/// Typestate for read-only entity (runtime uninhabitable).
///
/// Its one variant holds a value of a type that has none, so the typestate
/// only ever stands in a type argument.
pub enum ReadOnly {
    Never(core::convert::Infallible),
}

impl IOState for ReadOnly {
}

/// Typestate for a read/write entity (runtime uninhabitable).
///
/// Its one variant holds a value of a type that has none, so the typestate
/// only ever stands in a type argument.
pub enum ReadWrite {
    Never(core::convert::Infallible),
}

impl IOState for ReadWrite {
}

} // verus!
