use vstd::prelude::*;
use vstd::slice::slice_subrange;

verus! {

/// Walks `path` from `value`, one component at a time, and returns the value
/// reached. An empty path reaches nothing.
pub fn get<P, V>(path: P, value: V) -> (r: Result<V, PathError>)
    where
        P: Path,
        V: PathAccess<P::Component, Value = V>,
    ensures
        r == walk(path.components(), value),
{
    let ghost whole = walk(path.components(), value);
    let mut rest = path;
    let mut cur = value;
    loop
        invariant
            whole == walk(path.components(), value),
            rest.components().len() > 0 ==> walk(rest.components(), cur) == whole,
            rest.components().len() == 0 ==> whole == Err::<V, PathError>(PathError::Missing),
        decreases rest.components().len(),
    {
        let (next_path, next_value) = match rest.step(cur) {
            Ok(stepped) => stepped,
            Err(e) => {
                return Err(e);
            },
        };
        rest = next_path;
        cur = next_value;
        if rest.is_empty() {
            return Ok(cur);
        }
    }
}

/// What walking `comps` from `value` gives: each component is applied to the
/// value the previous one reached; the first failure stops the walk, and an
/// empty path is `PathError::Missing`.
pub open spec fn walk<C, V: PathAccess<C, Value = V>>(comps: Seq<C>, value: V) -> Result<V, PathError>
    decreases comps.len(),
{
    if comps.len() == 0 {
        Err(PathError::Missing)
    } else {
        match value.access(comps[0]) {
            Ok(next) => if comps.len() == 1 {
                Ok(next)
            } else {
                walk(comps.drop_first(), next)
            },
            Err(e) => Err(e),
        }
    }
}

/// A sequence of components leading into a value.
pub trait Path: Sized {
    type Component;

    /// The components still to walk, in order.
    spec fn components(&self) -> Seq<Self::Component>;

    fn is_empty(&self) -> (r: bool)
        ensures
            r == (self.components().len() == 0),
    ;

    /// Applies the first component to `value` and returns the rest of the
    /// path with what it reached; `PathError::Missing` on an empty path.
    fn step<V>(self, value: V) -> (r: Result<(Self, V::Value), PathError>)
        where
            V: PathAccess<Self::Component>,
        ensures
            match r {
                Ok((next, reached)) => {
                    &&& self.components().len() > 0
                    &&& next.components() == self.components().drop_first()
                    &&& value.access(self.components()[0]) == Ok::<V::Value, PathError>(reached)
                },
                Err(e) => if self.components().len() == 0 {
                    e == PathError::Missing
                } else {
                    value.access(self.components()[0]) == Err::<V::Value, PathError>(e)
                },
            },
    ;
}

impl<'a> Path for &'a [Component<'a>] {
    type Component = Component<'a>;

    open spec fn components(&self) -> Seq<Component<'a>> {
        self@
    }

    fn is_empty(&self) -> (r: bool) {
        self.len() == 0
    }

    fn step<V>(self, value: V) -> (r: Result<(Self, V::Value), PathError>)
        where
            V: PathAccess<Self::Component>,
    {
        if self.len() == 0 {
            Err(PathError::Missing)
        } else {
            let next = slice_subrange(self, 1, self.len());
            assert(next@ =~= self@.drop_first());
            match value.get(&self[0]) {
                Ok(reached) => Ok((next, reached)),
                Err(e) => Err(e),
            }
        }
    }
}

/// One step of a path: a key of some kind, or a position.
#[derive(Debug, Copy, Clone)]
pub enum Component<'a> {
    KeyInt(i64),
    KeyUInt(u64),
    KeyBytes(&'a [u8]),
    KeyString(&'a str),
    Index(usize),
}

impl<'a> From<&'a str> for Component<'a> {
    fn from(v: &'a str) -> (c: Self) {
        Component::KeyString(v)
    }
}

impl<'a> vstd::std_specs::convert::FromSpecImpl<&'a str> for Component<'a> {
    open spec fn obeys_from_spec() -> bool {
        true
    }

    open spec fn from_spec(v: &'a str) -> Self {
        Component::KeyString(v)
    }
}

impl<'a> From<&'a [u8]> for Component<'a> {
    fn from(v: &'a [u8]) -> (c: Self) {
        Component::KeyBytes(v)
    }
}

impl<'a> vstd::std_specs::convert::FromSpecImpl<&'a [u8]> for Component<'a> {
    open spec fn obeys_from_spec() -> bool {
        true
    }

    open spec fn from_spec(v: &'a [u8]) -> Self {
        Component::KeyBytes(v)
    }
}

impl<'a> From<[usize; 1]> for Component<'a> {
    fn from(v: [usize; 1]) -> (c: Self) {
        Component::Index(v[0])
    }
}

impl<'a> vstd::std_specs::convert::FromSpecImpl<[usize; 1]> for Component<'a> {
    open spec fn obeys_from_spec() -> bool {
        true
    }

    open spec fn from_spec(v: [usize; 1]) -> Self {
        Component::Index(v@[0])
    }
}

impl<'a> From<i8> for Component<'a> {
    fn from(v: i8) -> (c: Self) {
        Component::KeyInt(v as i64)
    }
}

impl<'a> vstd::std_specs::convert::FromSpecImpl<i8> for Component<'a> {
    open spec fn obeys_from_spec() -> bool {
        true
    }

    open spec fn from_spec(v: i8) -> Self {
        Component::KeyInt(v as i64)
    }
}

impl<'a> From<i16> for Component<'a> {
    fn from(v: i16) -> (c: Self) {
        Component::KeyInt(v as i64)
    }
}

impl<'a> vstd::std_specs::convert::FromSpecImpl<i16> for Component<'a> {
    open spec fn obeys_from_spec() -> bool {
        true
    }

    open spec fn from_spec(v: i16) -> Self {
        Component::KeyInt(v as i64)
    }
}

impl<'a> From<i32> for Component<'a> {
    fn from(v: i32) -> (c: Self) {
        Component::KeyInt(v as i64)
    }
}

impl<'a> vstd::std_specs::convert::FromSpecImpl<i32> for Component<'a> {
    open spec fn obeys_from_spec() -> bool {
        true
    }

    open spec fn from_spec(v: i32) -> Self {
        Component::KeyInt(v as i64)
    }
}

impl<'a> From<i64> for Component<'a> {
    fn from(v: i64) -> (c: Self) {
        Component::KeyInt(v as i64)
    }
}

impl<'a> vstd::std_specs::convert::FromSpecImpl<i64> for Component<'a> {
    open spec fn obeys_from_spec() -> bool {
        true
    }

    open spec fn from_spec(v: i64) -> Self {
        Component::KeyInt(v as i64)
    }
}

impl<'a> From<u8> for Component<'a> {
    fn from(v: u8) -> (c: Self) {
        Component::KeyUInt(v as u64)
    }
}

impl<'a> vstd::std_specs::convert::FromSpecImpl<u8> for Component<'a> {
    open spec fn obeys_from_spec() -> bool {
        true
    }

    open spec fn from_spec(v: u8) -> Self {
        Component::KeyUInt(v as u64)
    }
}

impl<'a> From<u16> for Component<'a> {
    fn from(v: u16) -> (c: Self) {
        Component::KeyUInt(v as u64)
    }
}

impl<'a> vstd::std_specs::convert::FromSpecImpl<u16> for Component<'a> {
    open spec fn obeys_from_spec() -> bool {
        true
    }

    open spec fn from_spec(v: u16) -> Self {
        Component::KeyUInt(v as u64)
    }
}

impl<'a> From<u32> for Component<'a> {
    fn from(v: u32) -> (c: Self) {
        Component::KeyUInt(v as u64)
    }
}

impl<'a> vstd::std_specs::convert::FromSpecImpl<u32> for Component<'a> {
    open spec fn obeys_from_spec() -> bool {
        true
    }

    open spec fn from_spec(v: u32) -> Self {
        Component::KeyUInt(v as u64)
    }
}

impl<'a> From<u64> for Component<'a> {
    fn from(v: u64) -> (c: Self) {
        Component::KeyUInt(v as u64)
    }
}

impl<'a> vstd::std_specs::convert::FromSpecImpl<u64> for Component<'a> {
    open spec fn obeys_from_spec() -> bool {
        true
    }

    open spec fn from_spec(v: u64) -> Self {
        Component::KeyUInt(v as u64)
    }
}

/// Why a path could not be followed.
#[derive(Debug)]
pub enum PathError {
    /// Nothing is there: an empty path, or a key that is absent.
    Missing,
    /// The component does not apply to the kind of value reached.
    Type,
    /// A failure described in words.
    Message(&'static str),
}

/// A value that a component of type `A` can be applied to.
pub trait PathAccess<A>: Sized {
    type Value;

    /// What applying `accessor` gives.
    spec fn access(self, accessor: A) -> Result<Self::Value, PathError>;

    fn get(self, accessor: &A) -> (r: Result<Self::Value, PathError>)
        ensures
            r == self.access(*accessor),
    ;
}

/// A tree of strings and integers, keyed by strings. An object is meant to
/// hold each key once (see `wf`); a lookup takes the first entry with the key.
pub enum Value {
    Str(String),
    Integer(u64),
    /// Entries in insertion order.
    Object(Vec<(String, Value)>),
}

/// Whether no two entries of `entries` share a key.
pub open spec fn keys_unique(entries: Seq<(String, Value)>) -> bool {
    forall|i: int, j: int|
        0 <= i < j < entries.len() ==> (#[trigger] entries[i]).0@ != (#[trigger] entries[j]).0@
}

/// The position of the entry of `entries` whose key is `key`, if any.
fn key_position(entries: &Vec<(String, Value)>, key: &String) -> (r: Option<usize>)
    ensures
        match r {
            Some(i) => i < entries@.len() && entries@[i as int].0@ == key@,
            None => forall|j: int| 0 <= j < entries@.len() ==> (#[trigger] entries@[j]).0@ != key@,
        },
{
    let mut i: usize = 0;
    while i < entries.len()
        invariant
            i <= entries@.len(),
            forall|j: int| 0 <= j < i ==> (#[trigger] entries@[j]).0@ != key@,
        decreases entries@.len() - i,
    {
        if entries[i].0 == *key {
            return Some(i);
        }
        i += 1;
    }
    None
}

impl Value {
    /// An object has distinct keys, as a map does.
    pub open spec fn wf(&self) -> bool {
        match self {
            Value::Object(entries) => keys_unique(entries@),
            _ => true,
        }
    }

    /// An object without entries.
    pub fn object() -> (v: Value)
        ensures
            v.wf(),
            v matches Value::Object(entries) && entries@.len() == 0,
    {
        Value::Object(Vec::new())
    }

    /// Sets `key` to `value` in an object: the entry with that key is
    /// replaced in place, or a new entry is appended. Anything but an object
    /// is left as it is and gives `PathError::Type`.
    pub fn insert(&mut self, key: String, value: Value) -> (r: Result<(), PathError>)
        requires
            old(self).wf(),
        ensures
            final(self).wf(),
            match *old(self) {
                Value::Object(before) => {
                    &&& r is Ok
                    &&& *final(self) matches Value::Object(after) && {
                        if exists|i: int| 0 <= i < before@.len() && (#[trigger] before@[i]).0@ == key@ {
                            exists|i: int|
                                0 <= i < before@.len() && (#[trigger] before@[i]).0@ == key@
                                    && after@ == before@.update(i, (key, value))
                        } else {
                            after@ == before@.push((key, value))
                        }
                    }
                },
                _ => r == Err::<(), PathError>(PathError::Type) && *final(self) == *old(self),
            },
    {
        match self {
            Value::Object(entries) => {
                let ghost before = entries@;
                match key_position(entries, &key) {
                    Some(i) => {
                        entries.set(i, (key, value));
                        assert(forall|k: int| 0 <= k < before.len() ==> (#[trigger] entries@[k]).0@ == before[k].0@);
                    },
                    None => {
                        entries.push((key, value));
                        assert(forall|k: int| 0 <= k < before.len() ==> (#[trigger] entries@[k]) == before[k]);
                    },
                }
                Ok(())
            },
            _ => Err(PathError::Type),
        }
    }
}

/// The value of the first entry of `entries` whose key is `key`.
pub open spec fn lookup(entries: Seq<(String, Value)>, key: Seq<char>) -> Option<Value>
    decreases entries.len(),
{
    if entries.len() == 0 {
        None
    } else if entries[0].0@ == key {
        Some(entries[0].1)
    } else {
        lookup(entries.drop_first(), key)
    }
}

impl<'a, 'b> PathAccess<Component<'b>> for &'a Value {
    type Value = &'a Value;

    open spec fn access(self, accessor: Component<'b>) -> Result<&'a Value, PathError> {
        match self {
            Value::Object(entries) => match accessor {
                Component::KeyString(k) => match lookup(entries@, k@) {
                    Some(v) => Ok(&v),
                    None => Err(PathError::Missing),
                },
                _ => Err(PathError::Type),
            },
            _ => Err(PathError::Type),
        }
    }

    fn get(self, accessor: &Component<'b>) -> (r: Result<&'a Value, PathError>) {
        match self {
            Value::Object(entries) => match *accessor {
                Component::KeyString(k) => {
                    let key: String = str::to_owned(k);
                    let mut i: usize = 0;
                    assert(entries@.skip(0) =~= entries@);
                    while i < entries.len()
                        invariant
                            i <= entries@.len(),
                            key@ == k@,
                            *self == Value::Object(*entries),
                            *accessor == Component::KeyString(k),
                            lookup(entries@, key@) == lookup(entries@.skip(i as int), key@),
                        decreases entries@.len() - i,
                    {
                        assert(entries@.skip(i as int).drop_first() =~= entries@.skip(i + 1));
                        assert(entries@.skip(i as int)[0] == entries@[i as int]);
                        if entries[i].0 == key {
                            return Ok(&entries[i].1);
                        }
                        i += 1;
                    }
                    Err(PathError::Missing)
                },
                _ => Err(PathError::Type),
            },
            _ => Err(PathError::Type),
        }
    }
}

} // verus!
