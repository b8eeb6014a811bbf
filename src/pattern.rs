use vstd::prelude::*;

verus! {

/// Largest number of needle bytes a `OneOf` may hold.
pub const MAX_NEEDLES: usize = 16;

/// `r` is the lowest index of `hay` whose byte is in `set`, or `None` when no
/// byte of `hay` is.
pub open spec fn is_first_of(set: Seq<u8>, hay: Seq<u8>, r: Option<usize>) -> bool {
    match r {
        Some(i) => {
            &&& i < hay.len()
            &&& set.contains(hay[i as int])
            &&& forall|j: int| 0 <= j < i ==> !set.contains(#[trigger] hay[j])
        },
        None => forall|j: int| 0 <= j < hay.len() ==> !set.contains(#[trigger] hay[j]),
    }
}

/// The search result is a function of the needle set and the haystack
/// alone: two results that both meet `is_first_of` are equal, so the scanning
/// routine chosen for a set's size cannot be told apart by its result.
pub proof fn lemma_first_of_is_unique(set: Seq<u8>, hay: Seq<u8>, r1: Option<usize>, r2: Option<usize>)
    requires
        is_first_of(set, hay, r1),
        is_first_of(set, hay, r2),
    ensures
        r1 == r2,
{
    match (r1, r2) {
        (Some(i), Some(j)) => {
            if i < j {
                assert(!set.contains(hay[i as int]));
            } else if j < i {
                assert(!set.contains(hay[j as int]));
            }
        },
        (Some(i), None) => {
            assert(!set.contains(hay[i as int]));
        },
        (None, Some(j)) => {
            assert(!set.contains(hay[j as int]));
        },
        (None, None) => {},
    }
}

/// `r` is the lowest index of `hay` whose byte is not in `set`, or `None` when
/// every byte of `hay` is.
pub open spec fn is_first_not_of(set: Seq<u8>, hay: Seq<u8>, r: Option<usize>) -> bool {
    match r {
        Some(i) => {
            &&& i < hay.len()
            &&& !set.contains(hay[i as int])
            &&& forall|j: int| 0 <= j < i ==> set.contains(#[trigger] hay[j])
        },
        None => forall|j: int| 0 <= j < hay.len() ==> set.contains(#[trigger] hay[j]),
    }
}

/// Whether `b` is one of `set`.
pub fn contains_byte(set: &[u8], b: u8) -> (r: bool)
    ensures
        r == set@.contains(b),
{
    let mut i: usize = 0;
    while i < set.len()
        invariant
            i <= set@.len(),
            forall|k: int| 0 <= k < i ==> set@[k] != b,
        decreases set@.len() - i,
    {
        if set[i] == b {
            assert(set@[i as int] == b);
            return true;
        }
        i += 1;
    }
    false
}

/// Relies on memchr::memchr: the index of the first occurrence of `n1`.
#[verifier::external_body]
fn memchr1(n1: u8, haystack: &[u8]) -> (r: Option<usize>)
    ensures
        is_first_of(seq![n1], haystack@, r),
{
    memchr::memchr(n1, haystack)
}

/// Relies on memchr::memchr2: the index of the first occurrence of `n1` or `n2`.
#[verifier::external_body]
fn memchr2(n1: u8, n2: u8, haystack: &[u8]) -> (r: Option<usize>)
    ensures
        is_first_of(seq![n1, n2], haystack@, r),
{
    memchr::memchr2(n1, n2, haystack)
}

/// Relies on memchr::memchr3: the index of the first occurrence of `n1`, `n2`
/// or `n3`.
#[verifier::external_body]
fn memchr3(n1: u8, n2: u8, n3: u8, haystack: &[u8]) -> (r: Option<usize>)
    ensures
        is_first_of(seq![n1, n2, n3], haystack@, r),
{
    memchr::memchr3(n1, n2, n3, haystack)
}

/// Relies on jetscii::Bytes::new and jetscii::Bytes::find: given the set as
/// the first `needles.len()` bytes of its array and as its fallback
/// predicate, `find` gives the index of the first byte of `haystack` in the
/// set.
#[verifier::external_body]
fn jetscii_find(needles: &[u8], haystack: &[u8]) -> (r: Option<usize>)
    requires
        1 <= needles@.len() <= MAX_NEEDLES,
    ensures
        is_first_of(needles@, haystack@, r),
{
    let mut set = [0u8; 16];
    set[..needles.len()].copy_from_slice(needles);
    jetscii::Bytes::new(set, needles.len() as i32, |b| contains_byte(needles, b)).find(haystack)
}

/// A set of up to `MAX_NEEDLES` byte values searched for at once.
pub struct OneOf<T, const N: usize>([T; N]);

impl<T, const N: usize> OneOf<T, N> {
    #[verifier::type_invariant]
    spec fn inv(&self) -> bool {
        N <= MAX_NEEDLES
    }
}

impl<const N: usize> OneOf<u8, N> {
    /// The needle bytes, in the order given.
    pub closed spec fn needles(&self) -> Seq<u8> {
        self.0@
    }

    /// A needle set of the `N` bytes given; `None` when `N` exceeds
    /// `MAX_NEEDLES`, which is a configuration error.
    pub fn new(needles: [u8; N]) -> (r: Option<Self>)
        ensures
            r is Some <==> N <= MAX_NEEDLES,
            r matches Some(o) ==> o.needles() == needles@,
    {
        if N <= MAX_NEEDLES {
            Some(OneOf(needles))
        } else {
            None
        }
    }

    /// The offset and length of the first byte of `haystack` that is one of
    /// the needles; the length is always 1. The scanning routine is chosen by
    /// the number of needles alone and does not change the result.
    pub fn find_match(&self, haystack: &[u8]) -> (r: Option<(usize, usize)>)
        ensures
            match r {
                Some((i, len)) => len == 1 && is_first_of(self.needles(), haystack@, Some(i)),
                None => is_first_of(self.needles(), haystack@, None),
            },
    {
        proof {
            use_type_invariant(self);
        }
        let n = self.0.as_slice();
        let found = if n.len() == 0 {
            None
        } else if n.len() == 1 {
            assert(n@ =~= seq![n@[0]]);
            memchr1(n[0], haystack)
        } else if n.len() == 2 {
            assert(n@ =~= seq![n@[0], n@[1]]);
            memchr2(n[0], n[1], haystack)
        } else if n.len() == 3 {
            assert(n@ =~= seq![n@[0], n@[1], n@[2]]);
            memchr3(n[0], n[1], n[2], haystack)
        } else {
            jetscii_find(n, haystack)
        };
        match found {
            Some(i) => Some((i, 1)),
            None => None,
        }
    }

    /// The offset of the first byte of `haystack` that is none of the needles.
    pub fn find_reject(&self, haystack: &[u8]) -> (r: Option<usize>)
        ensures
            is_first_not_of(self.needles(), haystack@, r),
    {
        let n = self.0.as_slice();
        let mut i: usize = 0;
        while i < haystack.len()
            invariant
                i <= haystack@.len(),
                n@ == self.needles(),
                forall|j: int| 0 <= j < i ==> self.needles().contains(#[trigger] haystack@[j]),
            decreases haystack@.len() - i,
        {
            if !contains_byte(n, haystack[i]) {
                return Some(i);
            }
            i += 1;
        }
        None
    }
}

} // verus!
