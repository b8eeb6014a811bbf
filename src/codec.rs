use vstd::prelude::*;

use crate::cursor::{Cursor, Failure};

verus! {

/// What reading `n` bytes at offset `pos` of `input` gives: the bytes, or
/// the number of bytes missing.
pub open spec fn take_outcome(input: Seq<u8>, pos: int, n: nat) -> Result<Seq<u8>, Failure> {
    if pos + n <= input.len() {
        Ok(input.subrange(pos, pos + n))
    } else {
        Err(Failure::Incomplete((pos + n - input.len()) as usize))
    }
}

/// Reads one byte.
pub fn u8(r: &mut Cursor) -> (res: Result<u8, Failure>)
    requires
        old(r).wf(),
    ensures
        final(r).wf(),
        final(r).input() == old(r).input(),
        match take_outcome(old(r).input(), old(r).pos(), 1) {
            Ok(b) => res == Ok::<u8, Failure>(b[0]) && final(r).pos() == old(r).pos() + 1,
            Err(e) => res == Err::<u8, Failure>(e) && final(r).pos() == old(r).pos(),
        },
{
    r.read_byte()
}

/// Reads one byte as a two's-complement signed integer.
pub fn i8(r: &mut Cursor) -> (res: Result<i8, Failure>)
    requires
        old(r).wf(),
    ensures
        final(r).wf(),
        final(r).input() == old(r).input(),
        match take_outcome(old(r).input(), old(r).pos(), 1) {
            Ok(b) => res == Ok::<i8, Failure>(b[0] as i8) && final(r).pos() == old(r).pos() + 1,
            Err(e) => res == Err::<i8, Failure>(e) && final(r).pos() == old(r).pos(),
        },
{
    match r.read_byte() {
        Ok(b) => Ok(b as i8),
        Err(e) => Err(e),
    }
}

/// Reads `N` bytes; where fewer are left, fails with the number missing and
/// reads nothing.
pub fn array<const N: usize>(r: &mut Cursor) -> (res: Result<[u8; N], Failure>)
    requires
        old(r).wf(),
    ensures
        final(r).wf(),
        final(r).input() == old(r).input(),
        match take_outcome(old(r).input(), old(r).pos(), N as nat) {
            Ok(bytes) => res matches Ok(a) && a@ == bytes && final(r).pos() == old(r).pos() + N,
            Err(e) => res == Err::<[u8; N], Failure>(e) && final(r).pos() == old(r).pos(),
        },
{
    let left = r.remaining_len();
    if left < N {
        return Err(Failure::Incomplete(N - left));
    }
    let start = r.mark();
    let rest = r.remaining();
    let mut out = [0u8; N];
    let mut i: usize = 0;
    while i < N
        invariant
            N <= rest@.len(),
            i <= N,
            out@.len() == N,
            forall|k: int| 0 <= k < i ==> out@[k] == rest@[k],
        decreases N - i,
    {
        out[i] = rest[i];
        i += 1;
    }
    assert(out@ =~= r.input().subrange(start as int, start + N));
    r.restore(start + N);
    Ok(out)
}

/// Reads `N` bytes, or nothing where fewer are left.
pub fn array_opt<const N: usize>(r: &mut Cursor) -> (res: Option<[u8; N]>)
    requires
        old(r).wf(),
    ensures
        final(r).wf(),
        final(r).input() == old(r).input(),
        match take_outcome(old(r).input(), old(r).pos(), N as nat) {
            Ok(bytes) => res matches Some(a) && a@ == bytes && final(r).pos() == old(r).pos() + N,
            Err(_) => res is None && final(r).pos() == old(r).pos(),
        },
{
    match array(r) {
        Ok(a) => Some(a),
        Err(_) => None,
    }
}

} // verus!
