use vstd::prelude::*;

use crate::cursor::{literal_outcome, Cursor, Failure};

verus! {

/// One candidate of an alternation in optional mode: it either yields a value
/// or yields nothing and leaves the cursor where it found it.
pub trait Branch<T> {
    /// What a run from offset `pos` over `input` gives: the value and the
    /// offset it stops at, or nothing.
    spec fn outcome(&self, input: Seq<u8>, pos: int) -> Option<(T, int)>;

    fn run(&self, r: &mut Cursor) -> (res: Option<T>)
        requires
            old(r).wf(),
        ensures
            final(r).wf(),
            final(r).input() == old(r).input(),
            match res {
                Some(v) => {
                    &&& self.outcome(old(r).input(), old(r).pos()) == Some((v, final(r).pos()))
                    &&& old(r).pos() <= final(r).pos()
                },
                None => {
                    &&& self.outcome(old(r).input(), old(r).pos()) is None
                    &&& final(r).pos() == old(r).pos()
                },
            },
    ;
}

/// One candidate of an alternation in classified mode: it yields a value or
/// a classified failure. After a failure the cursor may stand anywhere; the
/// engine rewinds it.
pub trait TryBranch<T> {
    /// What a run from offset `pos` over `input` gives: the value and the
    /// offset it stops at, or the failure.
    spec fn try_outcome(&self, input: Seq<u8>, pos: int) -> Result<(T, int), Failure>;

    fn try_run(&self, r: &mut Cursor) -> (res: Result<T, Failure>)
        requires
            old(r).wf(),
        ensures
            final(r).wf(),
            final(r).input() == old(r).input(),
            match res {
                Ok(v) => {
                    &&& self.try_outcome(old(r).input(), old(r).pos()) == Ok::<(T, int), Failure>(
                        (v, final(r).pos()),
                    )
                    &&& old(r).pos() <= final(r).pos()
                },
                Err(e) => self.try_outcome(old(r).input(), old(r).pos()) == Err::<(T, int), Failure>(e),
            },
    ;
}

/// Optional-mode alternation: the first candidate, in order, that yields a
/// value decides; all candidates run from the same offset.
pub open spec fn choice_outcome<T, B: Branch<T>>(branches: Seq<B>, input: Seq<u8>, pos: int) -> Option<(T, int)>
    decreases branches.len(),
{
    if branches.len() == 0 {
        None
    } else {
        match branches[0].outcome(input, pos) {
            Some(x) => Some(x),
            None => choice_outcome(branches.drop_first(), input, pos),
        }
    }
}

/// Classified-mode alternation: a match is adopted at once, a `Fatal` failure
/// passes on to the next candidate from the same offset, any other failure is
/// returned at once. `Ok(None)` means that every candidate failed fatally.
pub open spec fn try_choice_outcome<T, B: TryBranch<T>>(branches: Seq<B>, input: Seq<u8>, pos: int) -> Result<Option<(T, int)>, Failure>
    decreases branches.len(),
{
    if branches.len() == 0 {
        Ok(None)
    } else {
        match branches[0].try_outcome(input, pos) {
            Ok(x) => Ok(Some(x)),
            Err(Failure::Fatal) => try_choice_outcome(branches.drop_first(), input, pos),
            Err(e) => Err(e),
        }
    }
}

/// An ordered list of optional-mode candidates.
pub trait Choices<T>: Sized {
    spec fn choice_outcome(&self, input: Seq<u8>, pos: int) -> Option<(T, int)>;

    /// Tries the candidates in order and returns the first value; the cursor is
    /// left where that candidate stopped, or unmoved when none yields one.
    fn choice(self, r: &mut Cursor) -> (res: Option<T>)
        requires
            old(r).wf(),
        ensures
            final(r).wf(),
            final(r).input() == old(r).input(),
            match res {
                Some(v) => {
                    &&& self.choice_outcome(old(r).input(), old(r).pos()) == Some((v, final(r).pos()))
                    &&& old(r).pos() <= final(r).pos()
                },
                None => {
                    &&& self.choice_outcome(old(r).input(), old(r).pos()) is None
                    &&& final(r).pos() == old(r).pos()
                },
            },
    ;
}

/// An ordered list of classified-mode candidates.
pub trait TryChoices<T>: Sized {
    spec fn try_choice_outcome(&self, input: Seq<u8>, pos: int) -> Result<Option<(T, int)>, Failure>;

    /// Tries the candidates in order. Returns the first match, with the cursor
    /// where it stopped; stops at the first failure that is not `Fatal` and
    /// returns it; returns `Ok(None)` when every candidate failed fatally.
    /// Whenever nothing is adopted the cursor ends where it started.
    fn try_choice(self, r: &mut Cursor) -> (res: Result<Option<T>, Failure>)
        requires
            old(r).wf(),
        ensures
            final(r).wf(),
            final(r).input() == old(r).input(),
            match res {
                Ok(Some(v)) => {
                    &&& self.try_choice_outcome(old(r).input(), old(r).pos()) == Ok::<
                        Option<(T, int)>,
                        Failure,
                    >(Some((v, final(r).pos())))
                    &&& old(r).pos() <= final(r).pos()
                },
                Ok(None) => {
                    &&& self.try_choice_outcome(old(r).input(), old(r).pos()) == Ok::<
                        Option<(T, int)>,
                        Failure,
                    >(None)
                    &&& final(r).pos() == old(r).pos()
                },
                Err(e) => {
                    &&& self.try_choice_outcome(old(r).input(), old(r).pos()) == Err::<
                        Option<(T, int)>,
                        Failure,
                    >(e)
                    &&& final(r).pos() == old(r).pos()
                },
            },
    ;
}

impl<'a, T, B: Branch<T>> Choices<T> for &'a [B] {
    open spec fn choice_outcome(&self, input: Seq<u8>, pos: int) -> Option<(T, int)> {
        choice_outcome(self@, input, pos)
    }

    fn choice(self, r: &mut Cursor) -> (res: Option<T>) {
        let ghost input = r.input();
        let ghost start = r.pos();
        let mut found: Option<T> = None;
        let mut i: usize = 0;
        assert(self@.skip(0) =~= self@);
        while found.is_none() && i < self.len()
            invariant
                r.wf(),
                r.input() == input,
                i <= self@.len(),
                match found {
                    Some(v) => {
                        &&& choice_outcome(self@, input, start) == Some((v, r.pos()))
                        &&& start <= r.pos()
                    },
                    None => {
                        &&& r.pos() == start
                        &&& choice_outcome(self@, input, start) == choice_outcome(
                            self@.skip(i as int),
                            input,
                            start,
                        )
                    },
                },
            decreases self@.len() - i,
        {
            assert(self@.skip(i as int).drop_first() =~= self@.skip(i + 1));
            found = self[i].run(r);
            i += 1;
        }
        found
    }
}

impl<'a, T, B: TryBranch<T>> TryChoices<T> for &'a [B] {
    open spec fn try_choice_outcome(&self, input: Seq<u8>, pos: int) -> Result<Option<(T, int)>, Failure> {
        try_choice_outcome(self@, input, pos)
    }

    fn try_choice(self, r: &mut Cursor) -> (res: Result<Option<T>, Failure>) {
        let ghost input = r.input();
        let start = r.mark();
        let mut done: Option<Result<Option<T>, Failure>> = None;
        let mut i: usize = 0;
        assert(self@.skip(0) =~= self@);
        while done.is_none() && i < self.len()
            invariant
                r.wf(),
                r.input() == input,
                start <= input.len(),
                i <= self@.len(),
                match done {
                    Some(Ok(Some(v))) => {
                        &&& try_choice_outcome(self@, input, start as int) == Ok::<
                            Option<(T, int)>,
                            Failure,
                        >(Some((v, r.pos())))
                        &&& start <= r.pos()
                    },
                    Some(Ok(None)) => false,
                    Some(Err(e)) => {
                        &&& try_choice_outcome(self@, input, start as int) == Err::<
                            Option<(T, int)>,
                            Failure,
                        >(e)
                        &&& r.pos() == start
                    },
                    None => {
                        &&& r.pos() == start
                        &&& try_choice_outcome(self@, input, start as int) == try_choice_outcome(
                            self@.skip(i as int),
                            input,
                            start as int,
                        )
                    },
                },
            decreases self@.len() - i,
        {
            assert(self@.skip(i as int).drop_first() =~= self@.skip(i + 1));
            match self[i].try_run(r) {
                Ok(value) => {
                    done = Some(Ok(Some(value)));
                },
                Err(e) => {
                    r.restore(start);
                    if !e.is_fatal() {
                        done = Some(Err(e));
                    }
                },
            }
            i += 1;
        }
        match done {
            Some(res) => res,
            None => Ok(None),
        }
    }
}


impl<T, B: Branch<T>, const N: usize> Choices<T> for [B; N] {
    open spec fn choice_outcome(&self, input: Seq<u8>, pos: int) -> Option<(T, int)> {
        choice_outcome(self@, input, pos)
    }

    fn choice(self, r: &mut Cursor) -> (res: Option<T>) {
        self.as_slice().choice(r)
    }
}

impl<T, B: TryBranch<T>, const N: usize> TryChoices<T> for [B; N] {
    open spec fn try_choice_outcome(&self, input: Seq<u8>, pos: int) -> Result<Option<(T, int)>, Failure> {
        try_choice_outcome(self@, input, pos)
    }

    fn try_choice(self, r: &mut Cursor) -> (res: Result<Option<T>, Failure>) {
        self.as_slice().try_choice(r)
    }
}

/// Optional-mode alternation: `None` when no candidate yields a value.
pub fn alt_opt<T, C: Choices<T>>(r: &mut Cursor, choices: C) -> (res: Option<T>)
    requires
        old(r).wf(),
    ensures
        final(r).wf(),
        final(r).input() == old(r).input(),
        match res {
            Some(v) => {
                &&& choices.choice_outcome(old(r).input(), old(r).pos()) == Some((v, final(r).pos()))
                &&& old(r).pos() <= final(r).pos()
            },
            None => {
                &&& choices.choice_outcome(old(r).input(), old(r).pos()) is None
                &&& final(r).pos() == old(r).pos()
            },
        },
{
    choices.choice(r)
}

/// Classified-mode alternation: `Ok(None)` when every candidate failed fatally.
pub fn try_alt_opt<T, C: TryChoices<T>>(r: &mut Cursor, choices: C) -> (res: Result<Option<T>, Failure>)
    requires
        old(r).wf(),
    ensures
        final(r).wf(),
        final(r).input() == old(r).input(),
        match res {
            Ok(Some(v)) => {
                &&& choices.try_choice_outcome(old(r).input(), old(r).pos()) == Ok::<
                    Option<(T, int)>,
                    Failure,
                >(Some((v, final(r).pos())))
                &&& old(r).pos() <= final(r).pos()
            },
            Ok(None) => {
                &&& choices.try_choice_outcome(old(r).input(), old(r).pos()) == Ok::<
                    Option<(T, int)>,
                    Failure,
                >(None)
                &&& final(r).pos() == old(r).pos()
            },
            Err(e) => {
                &&& choices.try_choice_outcome(old(r).input(), old(r).pos()) == Err::<
                    Option<(T, int)>,
                    Failure,
                >(e)
                &&& final(r).pos() == old(r).pos()
            },
        },
{
    choices.try_choice(r)
}

/// Optional-mode alternation whose failure to match anything is a `Fatal`
/// failure. `expected` names what the alternation looks for, for callers
/// that attach context to failures; the failure itself is the classification.
pub fn alt<T, C: Choices<T>>(r: &mut Cursor, expected: &str, choices: C) -> (res: Result<T, Failure>)
    requires
        old(r).wf(),
    ensures
        final(r).wf(),
        final(r).input() == old(r).input(),
        match res {
            Ok(v) => {
                &&& choices.choice_outcome(old(r).input(), old(r).pos()) == Some((v, final(r).pos()))
                &&& old(r).pos() <= final(r).pos()
            },
            Err(e) => {
                &&& e == Failure::Fatal
                &&& choices.choice_outcome(old(r).input(), old(r).pos()) is None
                &&& final(r).pos() == old(r).pos()
            },
        },
{
    match alt_opt(r, choices) {
        Some(v) => Ok(v),
        None => Err(Failure::Fatal),
    }
}

/// Classified-mode alternation where candidates all failing fatally is itself
/// one `Fatal` failure; any other failure comes out as the candidate gave it.
/// `expected` names what the alternation looks for, for callers that attach
/// context to failures; the failure itself is the classification.
pub fn try_alt<T, C: TryChoices<T>>(r: &mut Cursor, expected: &str, choices: C) -> (res: Result<T, Failure>)
    requires
        old(r).wf(),
    ensures
        final(r).wf(),
        final(r).input() == old(r).input(),
        match res {
            Ok(v) => {
                &&& choices.try_choice_outcome(old(r).input(), old(r).pos()) == Ok::<
                    Option<(T, int)>,
                    Failure,
                >(Some((v, final(r).pos())))
                &&& old(r).pos() <= final(r).pos()
            },
            Err(e) => {
                &&& final(r).pos() == old(r).pos()
                &&& match choices.try_choice_outcome(old(r).input(), old(r).pos()) {
                    Ok(Some(_)) => false,
                    Ok(None) => e == Failure::Fatal,
                    Err(f) => e == f,
                }
            },
        },
{
    match try_alt_opt(r, choices) {
        Ok(Some(v)) => Ok(v),
        Ok(None) => Err(Failure::Fatal),
        Err(e) => Err(e),
    }
}

/// A candidate that consumes an exact byte literal.
pub struct Literal {
    bytes: Vec<u8>,
}

impl Literal {
    /// The bytes the literal stands for.
    pub closed spec fn bytes(&self) -> Seq<u8> {
        self.bytes@
    }

    pub fn new(bytes: &[u8]) -> (l: Self)
        ensures
            l.bytes() == bytes@,
    {
        let mut v: Vec<u8> = Vec::with_capacity(bytes.len());
        let mut i: usize = 0;
        while i < bytes.len()
            invariant
                i <= bytes@.len(),
                v@ == bytes@.take(i as int),
            decreases bytes@.len() - i,
        {
            v.push(bytes[i]);
            i += 1;
            assert(v@ =~= bytes@.take(i as int));
        }
        assert(v@ =~= bytes@);
        Literal { bytes: v }
    }
}

impl TryBranch<()> for Literal {
    open spec fn try_outcome(&self, input: Seq<u8>, pos: int) -> Result<((), int), Failure> {
        match literal_outcome(input, pos, self.bytes()) {
            Ok(_) => Ok(((), pos + self.bytes().len())),
            Err(e) => Err(e),
        }
    }

    fn try_run(&self, r: &mut Cursor) -> (res: Result<(), Failure>) {
        r.consume(self.bytes.as_slice())
    }
}

impl Branch<()> for Literal {
    open spec fn outcome(&self, input: Seq<u8>, pos: int) -> Option<((), int)> {
        match literal_outcome(input, pos, self.bytes()) {
            Ok(_) => Some(((), pos + self.bytes().len())),
            Err(_) => None,
        }
    }

    fn run(&self, r: &mut Cursor) -> (res: Option<()>) {
        match r.consume(self.bytes.as_slice()) {
            Ok(()) => Some(()),
            Err(_) => None,
        }
    }
}

/// Candidates that fail fatally are passed over: every later candidate is
/// run from the offset that the alternation started at.
pub proof fn lemma_fatal_rewinds<T, B: TryBranch<T>>(branches: Seq<B>, i: int, input: Seq<u8>, pos: int)
    requires
        0 <= i <= branches.len(),
        forall|k: int| 0 <= k < i ==> #[trigger] branches[k].try_outcome(input, pos) == Err::<(T, int), Failure>(Failure::Fatal),
    ensures
        try_choice_outcome(branches, input, pos) == try_choice_outcome(branches.skip(i), input, pos),
    decreases i,
{
    if i == 0 {
        assert(branches.skip(0) =~= branches);
    } else {
        assert(branches[0].try_outcome(input, pos) == Err::<(T, int), Failure>(Failure::Fatal));
        let rest = branches.drop_first();
        assert forall|k: int| 0 <= k < i - 1 implies #[trigger] rest[k].try_outcome(input, pos) == Err::<(T, int), Failure>(Failure::Fatal) by {
            assert(rest[k] == branches[k + 1]);
        }
        lemma_fatal_rewinds(rest, i - 1, input, pos);
        assert(rest.skip(i - 1) =~= branches.skip(i));
    }
}

/// Nothing after a candidate that does not fail fatally is consulted.
proof fn lemma_try_choice_cut<T, B: TryBranch<T>>(branches: Seq<B>, i: int, input: Seq<u8>, pos: int)
    requires
        0 <= i < branches.len(),
        branches[i].try_outcome(input, pos) != Err::<(T, int), Failure>(Failure::Fatal),
    ensures
        try_choice_outcome(branches, input, pos) == try_choice_outcome(branches.take(i + 1), input, pos),
    decreases i,
{
    let cut = branches.take(i + 1);
    assert(cut[0] == branches[0]);
    if i > 0 {
        if branches[0].try_outcome(input, pos) == Err::<(T, int), Failure>(Failure::Fatal) {
            lemma_try_choice_cut(branches.drop_first(), i - 1, input, pos);
            assert(branches.drop_first().take(i) =~= cut.drop_first());
        }
    }
}

/// Nothing after a candidate that yields a value is consulted.
proof fn lemma_choice_cut<T, B: Branch<T>>(branches: Seq<B>, i: int, input: Seq<u8>, pos: int)
    requires
        0 <= i < branches.len(),
        branches[i].outcome(input, pos) is Some,
    ensures
        choice_outcome(branches, input, pos) == choice_outcome(branches.take(i + 1), input, pos),
    decreases i,
{
    let cut = branches.take(i + 1);
    assert(cut[0] == branches[0]);
    if i > 0 {
        if branches[0].outcome(input, pos) is None {
            lemma_choice_cut(branches.drop_first(), i - 1, input, pos);
            assert(branches.drop_first().take(i) =~= cut.drop_first());
        }
    }
}

/// First match wins (classified mode): when candidates `i < j` both match,
/// the outcome does not depend on candidate `j` or any later one, and when
/// every candidate before `i` fails fatally it is candidate `i`'s match.
pub proof fn lemma_first_match_priority<T, B: TryBranch<T>>(branches: Seq<B>, i: int, j: int, input: Seq<u8>, pos: int)
    requires
        0 <= i < j < branches.len(),
        branches[i].try_outcome(input, pos) is Ok,
        branches[j].try_outcome(input, pos) is Ok,
    ensures
        try_choice_outcome(branches, input, pos) == try_choice_outcome(branches.take(i + 1), input, pos),
        (forall|k: int| 0 <= k < i ==> #[trigger] branches[k].try_outcome(input, pos) == Err::<(T, int), Failure>(Failure::Fatal))
            ==> try_choice_outcome(branches, input, pos) == Ok::<Option<(T, int)>, Failure>(
            Some(branches[i].try_outcome(input, pos)->Ok_0),
        ),
{
    lemma_try_choice_cut(branches, i, input, pos);
    if forall|k: int| 0 <= k < i ==> #[trigger] branches[k].try_outcome(input, pos) == Err::<(T, int), Failure>(Failure::Fatal) {
        lemma_fatal_rewinds(branches, i, input, pos);
        assert(branches.skip(i)[0] == branches[i]);
    }
}

/// First match wins (optional mode): when candidates `i < j` both yield a
/// value, the outcome does not depend on candidate `j` or any later one, and
/// when no candidate before `i` yields one it is candidate `i`'s value.
pub proof fn lemma_choice_first_match_priority<T, B: Branch<T>>(branches: Seq<B>, i: int, j: int, input: Seq<u8>, pos: int)
    requires
        0 <= i < j < branches.len(),
        branches[i].outcome(input, pos) is Some,
        branches[j].outcome(input, pos) is Some,
    ensures
        choice_outcome(branches, input, pos) == choice_outcome(branches.take(i + 1), input, pos),
        (forall|k: int| 0 <= k < i ==> #[trigger] branches[k].outcome(input, pos) is None)
            ==> choice_outcome(branches, input, pos) == branches[i].outcome(input, pos),
{
    lemma_choice_cut(branches, i, input, pos);
    if forall|k: int| 0 <= k < i ==> #[trigger] branches[k].outcome(input, pos) is None {
        lemma_choice_skip_absent(branches, i, input, pos);
        assert(branches.skip(i)[0] == branches[i]);
    }
}

/// Candidates that yield nothing are passed over.
proof fn lemma_choice_skip_absent<T, B: Branch<T>>(branches: Seq<B>, i: int, input: Seq<u8>, pos: int)
    requires
        0 <= i <= branches.len(),
        forall|k: int| 0 <= k < i ==> #[trigger] branches[k].outcome(input, pos) is None,
    ensures
        choice_outcome(branches, input, pos) == choice_outcome(branches.skip(i), input, pos),
    decreases i,
{
    if i == 0 {
        assert(branches.skip(0) =~= branches);
    } else {
        assert(branches[0].outcome(input, pos) is None);
        let rest = branches.drop_first();
        assert forall|k: int| 0 <= k < i - 1 implies #[trigger] rest[k].outcome(input, pos) is None by {
            assert(rest[k] == branches[k + 1]);
        }
        lemma_choice_skip_absent(rest, i - 1, input, pos);
        assert(rest.skip(i - 1) =~= branches.skip(i));
    }
}

/// A candidate that needs more input stops the alternation: with `a` before
/// `b`, an `Incomplete` failure of `a` is the outcome, whatever `b` would give.
pub proof fn lemma_incomplete_short_circuits<T, B: TryBranch<T>>(a: B, b: B, input: Seq<u8>, pos: int, n: usize)
    requires
        a.try_outcome(input, pos) == Err::<(T, int), Failure>(Failure::Incomplete(n)),
    ensures
        try_choice_outcome(seq![a, b], input, pos) == Err::<Option<(T, int)>, Failure>(Failure::Incomplete(n)),
        try_choice_outcome(seq![a, b], input, pos) == try_choice_outcome(seq![a], input, pos),
{
    assert(seq![a, b][0] == a);
    assert(seq![a][0] == a);
}

/// When every candidate fails fatally the alternation is exhausted.
pub proof fn lemma_all_fatal_exhausts<T, B: TryBranch<T>>(branches: Seq<B>, input: Seq<u8>, pos: int)
    requires
        forall|k: int| 0 <= k < branches.len() ==> #[trigger] branches[k].try_outcome(input, pos) == Err::<(T, int), Failure>(Failure::Fatal),
    ensures
        try_choice_outcome(branches, input, pos) == Ok::<Option<(T, int)>, Failure>(None),
{
    lemma_fatal_rewinds(branches, branches.len() as int, input, pos);
    assert(branches.skip(branches.len() as int).len() == 0);
}

} // verus!
