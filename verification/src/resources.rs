//! Implementation of FPGA resources.

use std::marker::PhantomData;
use vstd::prelude::*;
use vstd::string::StringExecFns;

use crate::traits::{Data, IOState, ReadOnly, ReadOnlyResource, ReadWrite, ReadWriteResource};

verus! {

/// The character that stands for the decimal digit `d`.
pub open spec fn digit(d: nat) -> char {
    if d == 0 {
        '0'
    } else if d == 1 {
        '1'
    } else if d == 2 {
        '2'
    } else if d == 3 {
        '3'
    } else if d == 4 {
        '4'
    } else if d == 5 {
        '5'
    } else if d == 6 {
        '6'
    } else if d == 7 {
        '7'
    } else if d == 8 {
        '8'
    } else {
        '9'
    }
}

/// The decimal numeral of `n`, without sign or leading zeros.
pub open spec fn decimal(n: nat) -> Seq<char>
    decreases n,
{
    if n < 10 {
        seq![digit(n)]
    } else {
        decimal(n / 10).push(digit(n % 10))
    }
}

/// What a resource called `name` at byte offset `offset` is rendered as.
pub open spec fn rendering(name: Seq<char>, offset: nat) -> Seq<char> {
    name + " at byte offset "@ + decimal(offset)
}

/// The one-character string of a decimal digit.
fn digit_str(d: usize) -> (s: &'static str)
    requires
        d < 10,
    ensures
        s@ == seq![digit(d as nat)],
{
    proof {
        reveal_strlit("0");
        reveal_strlit("1");
        reveal_strlit("2");
        reveal_strlit("3");
        reveal_strlit("4");
        reveal_strlit("5");
        reveal_strlit("6");
        reveal_strlit("7");
        reveal_strlit("8");
        reveal_strlit("9");
    }
    let s = if d == 0 {
        "0"
    } else if d == 1 {
        "1"
    } else if d == 2 {
        "2"
    } else if d == 3 {
        "3"
    } else if d == 4 {
        "4"
    } else if d == 5 {
        "5"
    } else if d == 6 {
        "6"
    } else if d == 7 {
        "7"
    } else if d == 8 {
        "8"
    } else {
        "9"
    };
    assert(s@ =~= seq![digit(d as nat)]);
    s
}

/// Writes `n` as a decimal numeral.
pub fn decimal_string(n: usize) -> (s: String)
    ensures
        s@ == decimal(n as nat),
    decreases n,
{
    if n < 10 {
        String::from_str(digit_str(n))
    } else {
        let mut s = decimal_string(n / 10);
        s.append(digit_str(n % 10));
        assert(s@ =~= decimal(n as nat));
        s
    }
}

/// Representation of FPGA resource with associated data type and I/O state as
/// part of the type.
///
/// A resource is pure data: a diagnostic name and the byte offset of a
/// register. Which operations a session offers for it follows from its I/O
/// state alone: `Resource<D, ReadOnly>` is a `ReadOnlyResource` and nothing
/// else, `Resource<D, ReadWrite>` a `ReadWriteResource` and nothing else.
/// Whether the register lies inside the mapped window is for the session to
/// check at each access.
pub struct Resource<D: Data, I: IOState> {
    name: &'static str,
    offset: usize,
    _ty: PhantomData<D>,
    _st: PhantomData<I>,
}

impl<D: Data, I: IOState> Resource<D, I> {
    /// The diagnostic label of the resource.
    pub closed spec fn spec_name(&self) -> Seq<char> {
        self.name@
    }

    /// The byte offset of the register in the window.
    pub closed spec fn spec_offset(&self) -> nat {
        self.offset as nat
    }

    /// The resource called `name` whose register starts `offset` bytes into the
    /// window.
    pub fn new(name: &'static str, offset: usize) -> (r: Self)
        ensures
            r.spec_name() == name@,
            r.spec_offset() == offset,
    {
        Self { name, offset, _ty: PhantomData, _st: PhantomData }
    }

    /// Diagnostic rendering: the name, then ` at byte offset `, then the
    /// offset in decimal.
    pub fn describe(&self) -> (s: String)
        ensures
            s@ == rendering(self.spec_name(), self.spec_offset()),
    {
        let mut s = String::from_str(self.name);
        s.append(" at byte offset ");
        let digits = decimal_string(self.offset);
        s.append(digits.as_str());
        s
    }
}

impl<D: Data> ReadOnlyResource for Resource<D, ReadOnly> {
    type Value = D;

    open spec fn offset(&self) -> nat {
        self.spec_offset()
    }

    fn byte_offset(&self) -> (n: usize) {
        self.offset
    }
}

impl<D: Data> ReadWriteResource for Resource<D, ReadWrite> {
    type Value = D;

    open spec fn offset(&self) -> nat {
        self.spec_offset()
    }

    fn byte_offset(&self) -> (n: usize) {
        self.offset
    }
}

} // verus!
