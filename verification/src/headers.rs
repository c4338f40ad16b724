//! The header mapping of one request: names to values, as bytes, where a
//! later value for a name replaces the earlier one.

use vstd::prelude::*;

verus! {

/// The mapping that a list of pairs stands for: a later pair replaces an
/// earlier one with the same name.
pub open spec fn map_of(pairs: Seq<(Seq<u8>, Seq<u8>)>) -> Map<Seq<u8>, Seq<u8>>
    decreases pairs.len(),
{
    if pairs.len() == 0 {
        Map::empty()
    } else {
        map_of(pairs.drop_last()).insert(pairs.last().0, pairs.last().1)
    }
}

/// Whether `i` is the place of the last pair named `name`.
pub open spec fn is_last_named(pairs: Seq<(Seq<u8>, Seq<u8>)>, name: Seq<u8>, i: int) -> bool {
    &&& 0 <= i < pairs.len()
    &&& pairs[i].0 == name
    &&& forall|j: int| i < j < pairs.len() ==> (#[trigger] pairs[j]).0 != name
}

/// Whether no pair is named `name`.
pub open spec fn none_named(pairs: Seq<(Seq<u8>, Seq<u8>)>, name: Seq<u8>) -> bool {
    forall|j: int| 0 <= j < pairs.len() ==> (#[trigger] pairs[j]).0 != name
}

/// A name that no pair has is not in the mapping.
pub proof fn lemma_map_of_absent(pairs: Seq<(Seq<u8>, Seq<u8>)>, name: Seq<u8>)
    requires
        none_named(pairs, name),
    ensures
        !map_of(pairs).contains_key(name),
    decreases pairs.len(),
{
    if pairs.len() > 0 {
        lemma_map_of_absent(pairs.drop_last(), name);
    }
}

/// The mapping gives a name the value of the last pair that has it.
pub proof fn lemma_map_of_last(pairs: Seq<(Seq<u8>, Seq<u8>)>, name: Seq<u8>, i: int)
    requires
        is_last_named(pairs, name, i),
    ensures
        map_of(pairs).contains_key(name),
        map_of(pairs)[name] == pairs[i].1,
    decreases pairs.len(),
{
    if i < pairs.len() - 1 {
        lemma_map_of_last(pairs.drop_last(), name, i);
    }
}

/// Replacing the last pair that has a name changes the mapping at that name
/// alone.
pub proof fn lemma_map_of_replace(
    pairs: Seq<(Seq<u8>, Seq<u8>)>,
    name: Seq<u8>,
    i: int,
    value: Seq<u8>,
)
    requires
        is_last_named(pairs, name, i),
    ensures
        map_of(pairs.update(i, (name, value))) == map_of(pairs).insert(name, value),
    decreases pairs.len(),
{
    let changed = pairs.update(i, (name, value));
    if i == pairs.len() - 1 {
        assert(changed.drop_last() == pairs.drop_last());
    } else {
        let front = pairs.drop_last();
        lemma_map_of_replace(front, name, i, value);
        assert(changed.drop_last() == front.update(i, (name, value)));
    }
}

/// Whether two byte strings are equal.
pub fn bytes_eq(a: &[u8], b: &[u8]) -> (same: bool)
    ensures
        same == (a@ == b@),
{
    if a.len() != b.len() {
        return false;
    }
    let mut i: usize = 0;
    while i < a.len()
        invariant
            a@.len() == b@.len(),
            i <= a@.len(),
            forall|j: int| 0 <= j < i ==> a@[j] == b@[j],
        decreases a@.len() - i,
    {
        if a[i] != b[i] {
            return false;
        }
        i += 1;
    }
    assert(a@ =~= b@);
    true
}

/// A copy of a byte string.
pub fn copy_bytes(src: &[u8]) -> (copy: Vec<u8>)
    ensures
        copy@ == src@,
{
    let mut copy: Vec<u8> = Vec::new();
    let mut i: usize = 0;
    while i < src.len()
        invariant
            i <= src@.len(),
            copy@ == src@.take(i as int),
        decreases src@.len() - i,
    {
        copy.push(src[i]);
        i += 1;
    }
    copy
}

/// Appends a byte string to a buffer.
pub fn append_bytes(buffer: &mut Vec<u8>, more: &[u8])
    ensures
        final(buffer)@ == old(buffer)@ + more@,
{
    let mut i: usize = 0;
    while i < more.len()
        invariant
            i <= more@.len(),
            buffer@ == old(buffer)@ + more@.take(i as int),
        decreases more@.len() - i,
    {
        buffer.push(more[i]);
        i += 1;
    }
}

/// The headers collected from one request.
pub struct Headers {
    entries: Vec<(Vec<u8>, Vec<u8>)>,
}

impl View for Headers {
    type V = Map<Seq<u8>, Seq<u8>>;

    closed spec fn view(&self) -> Map<Seq<u8>, Seq<u8>> {
        map_of(self.pairs())
    }
}

impl Headers {
    /// The entries in the order in which they were first stored.
    pub closed spec fn pairs(&self) -> Seq<(Seq<u8>, Seq<u8>)> {
        Seq::new(self.entries@.len(), |i: int| (self.entries@[i].0@, self.entries@[i].1@))
    }

    /// An empty mapping.
    pub fn new() -> (headers: Headers)
        ensures
            headers@ == Map::<Seq<u8>, Seq<u8>>::empty(),
    {
        let headers = Headers { entries: Vec::new() };
        headers
    }

    /// The place of the last entry named `name`, if there is one.
    fn find(&self, name: &[u8]) -> (found: Option<usize>)
        ensures
            match found {
                Some(i) => is_last_named(self.pairs(), name@, i as int),
                None => none_named(self.pairs(), name@),
            },
    {
        let mut i: usize = self.entries.len();
        while i > 0
            invariant
                i <= self.entries@.len(),
                forall|j: int|
                    i <= j < self.entries@.len() ==> (#[trigger] self.pairs()[j]).0 != name@,
            decreases i,
        {
            i -= 1;
            if bytes_eq(self.entries[i].0.as_slice(), name) {
                return Some(i);
            }
        }
        None
    }

    /// The value stored for `name`.
    pub fn get(&self, name: &[u8]) -> (value: Option<&Vec<u8>>)
        ensures
            match value {
                Some(v) => self@.contains_key(name@) && v@ == self@[name@],
                None => !self@.contains_key(name@),
            },
    {
        match self.find(name) {
            Some(i) => {
                proof {
                    lemma_map_of_last(self.pairs(), name@, i as int);
                }
                Some(&self.entries[i].1)
            },
            None => {
                proof {
                    lemma_map_of_absent(self.pairs(), name@);
                }
                None
            },
        }
    }

    /// Whether a value is stored for `name`.
    pub fn contains_key(&self, name: &[u8]) -> (present: bool)
        ensures
            present == self@.contains_key(name@),
    {
        self.get(name).is_some()
    }

    /// Stores `value` for `name`, in place of the value that `name` had.
    pub fn insert(&mut self, name: Vec<u8>, value: Vec<u8>)
        ensures
            final(self)@ == old(self)@.insert(name@, value@),
    {
        let ghost before = self.pairs();
        match self.find(name.as_slice()) {
            Some(i) => {
                proof {
                    lemma_map_of_replace(before, name@, i as int, value@);
                }
                self.entries.set(i, (name, value));
                assert(self.pairs() =~= before.update(i as int, (name@, value@)));
            },
            None => {
                self.entries.push((name, value));
                assert(self.pairs().drop_last() =~= before);
            },
        }
    }
}

} // verus!
