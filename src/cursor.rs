use vstd::prelude::*;
use vstd::slice::slice_subrange;

use crate::pattern::{is_first_of, OneOf};

verus! {

/// How a parse attempt failed.
#[derive(Debug, Clone, Copy, PartialEq, Eq, Structural)]
pub enum Failure {
    /// The available bytes contradict what was expected: more input cannot help.
    Fatal,
    /// The input ran out before any contradiction: at least this many more
    /// bytes are needed before a verdict is possible.
    Incomplete(usize),
}

impl Failure {
    pub open spec fn spec_is_fatal(self) -> bool {
        self is Fatal
    }

    /// Whether this failure is definite (no amount of further input changes it).
    pub fn is_fatal(&self) -> (r: bool)
        ensures
            r == self.spec_is_fatal(),
    {
        match self {
            Failure::Fatal => true,
            Failure::Incomplete(_) => false,
        }
    }
}

/// What matching the literal `lit` at offset `pos` of `input` gives.
/// Where the whole literal is available it either matches or is `Fatal`; where
/// the input stops early, a mismatch among the available bytes is still
/// `Fatal`, and otherwise the missing byte count is reported as `Incomplete`.
pub open spec fn literal_outcome(input: Seq<u8>, pos: int, lit: Seq<u8>) -> Result<(), Failure> {
    let avail = input.subrange(pos, input.len() as int);
    if avail.len() >= lit.len() {
        if avail.take(lit.len() as int) == lit {
            Ok(())
        } else {
            Err(Failure::Fatal)
        }
    } else if lit.take(avail.len() as int) == avail {
        Err(Failure::Incomplete((lit.len() - avail.len()) as usize))
    } else {
        Err(Failure::Fatal)
    }
}

/// A read position over an immutable byte buffer.
pub struct Cursor {
    bytes: Vec<u8>,
    pos: usize,
}

impl Cursor {
    /// The whole input buffer.
    pub closed spec fn input(&self) -> Seq<u8> {
        self.bytes@
    }

    /// The current read offset.
    pub closed spec fn pos(&self) -> int {
        self.pos as int
    }

    pub open spec fn wf(&self) -> bool {
        0 <= self.pos() <= self.input().len() <= usize::MAX
    }

    /// A cursor at the start of `bytes`.
    pub fn new(bytes: Vec<u8>) -> (c: Self)
        ensures
            c.wf(),
            c.input() == bytes@,
            c.pos() == 0,
    {
        // A vector's length is a `usize`.
        let len = bytes.len();
        assert(bytes@.len() == len);
        Cursor { bytes, pos: 0 }
    }

    /// The current offset, to come back to with `restore`.
    pub fn mark(&self) -> (m: usize)
        ensures
            m == self.pos(),
    {
        self.pos
    }

    /// Moves the read offset to `m`.
    pub fn restore(&mut self, m: usize)
        requires
            old(self).wf(),
            m <= old(self).input().len(),
        ensures
            final(self).wf(),
            final(self).input() == old(self).input(),
            final(self).pos() == m,
    {
        self.pos = m;
    }

    /// How many bytes are left to read.
    pub fn remaining_len(&self) -> (n: usize)
        requires
            self.wf(),
        ensures
            n == self.input().len() - self.pos(),
    {
        self.bytes.len() - self.pos
    }

    /// Whether every byte has been read.
    pub fn at_end(&self) -> (b: bool)
        requires
            self.wf(),
        ensures
            b == (self.pos() == self.input().len()),
    {
        self.pos == self.bytes.len()
    }

    /// The bytes not read yet.
    pub fn remaining(&self) -> (s: &[u8])
        requires
            self.wf(),
        ensures
            s@ == self.input().subrange(self.pos(), self.input().len() as int),
    {
        slice_subrange(self.bytes.as_slice(), self.pos, self.bytes.len())
    }

    /// Consumes `lit` if the input continues with it. On failure the offset is
    /// unchanged and the failure is classified by `literal_outcome`.
    pub fn consume(&mut self, lit: &[u8]) -> (r: Result<(), Failure>)
        requires
            old(self).wf(),
        ensures
            final(self).wf(),
            final(self).input() == old(self).input(),
            r == literal_outcome(old(self).input(), old(self).pos(), lit@),
            r is Ok ==> final(self).pos() == old(self).pos() + lit@.len(),
            r is Err ==> final(self).pos() == old(self).pos(),
    {
        let ghost avail = self.input().subrange(self.pos(), self.input().len() as int);
        let rest = self.remaining();
        let avail_len = rest.len();
        let n = if avail_len < lit.len() { avail_len } else { lit.len() };
        let mut i: usize = 0;
        while i < n
            invariant
                self.wf(),
                avail == self.input().subrange(self.pos(), self.input().len() as int),
                rest@ == avail,
                avail.len() == avail_len,
                avail_len + self.pos() == self.input().len(),
                n <= avail_len,
                n <= lit@.len(),
                i <= n,
                forall|k: int| 0 <= k < i ==> avail[k] == lit@[k],
            decreases n - i,
        {
            if rest[i] != lit[i] {
                assert(avail[i as int] != lit@[i as int]);
                if avail_len >= lit.len() {
                    assert(avail.take(lit@.len() as int)[i as int] != lit@[i as int]);
                } else {
                    assert(lit@.take(avail.len() as int)[i as int] != avail[i as int]);
                }
                return Err(Failure::Fatal);
            }
            i += 1;
        }
        if avail_len >= lit.len() {
            assert(avail.take(lit@.len() as int) =~= lit@);
            self.pos = self.pos + lit.len();
            Ok(())
        } else {
            assert(lit@.take(avail.len() as int) =~= avail);
            Err(Failure::Incomplete(lit.len() - avail_len))
        }
    }

    /// Reads up to the first byte that is one of `pattern`'s needles, which
    /// is left unread, and returns how many bytes were read. Where no needle
    /// occurs in the rest of the input, the delimiter may still arrive: the
    /// failure is `Incomplete(1)` and the offset is unchanged.
    pub fn take_until<const N: usize>(&mut self, pattern: &OneOf<u8, N>) -> (r: Result<usize, Failure>)
        requires
            old(self).wf(),
        ensures
            final(self).wf(),
            final(self).input() == old(self).input(),
            match r {
                Ok(n) => {
                    &&& is_first_of(
                        pattern.needles(),
                        old(self).input().subrange(old(self).pos(), old(self).input().len() as int),
                        Some(n),
                    )
                    &&& final(self).pos() == old(self).pos() + n
                },
                Err(e) => {
                    &&& e == Failure::Incomplete(1)
                    &&& is_first_of(
                        pattern.needles(),
                        old(self).input().subrange(old(self).pos(), old(self).input().len() as int),
                        None,
                    )
                    &&& final(self).pos() == old(self).pos()
                },
            },
    {
        let rest = self.remaining();
        match pattern.find_match(rest) {
            Some((n, _)) => {
                self.pos = self.pos + n;
                Ok(n)
            },
            None => Err(Failure::Incomplete(1)),
        }
    }

    /// Reads one byte.
    pub fn read_byte(&mut self) -> (r: Result<u8, Failure>)
        requires
            old(self).wf(),
        ensures
            final(self).wf(),
            final(self).input() == old(self).input(),
            old(self).pos() < old(self).input().len() ==> r == Ok::<u8, Failure>(
                old(self).input()[old(self).pos()],
            ) && final(self).pos() == old(self).pos() + 1,
            old(self).pos() == old(self).input().len() ==> r == Err::<u8, Failure>(
                Failure::Incomplete(1),
            ) && final(self).pos() == old(self).pos(),
    {
        if self.pos < self.bytes.len() {
            let b = self.bytes[self.pos];
            self.pos = self.pos + 1;
            Ok(b)
        } else {
            Err(Failure::Incomplete(1))
        }
    }
}

} // verus!
