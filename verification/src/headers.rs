//! Header metadata of an inbound message: the url path and a multi-valued
//! header mapping with case-insensitive keys whose insertion order is kept.
//!
//! Header names on the wire are ASCII, so a name is held as its bytes and
//! two names are the same key exactly when they agree byte for byte after
//! ASCII case folding.

use vstd::prelude::*;

verus! {

/// ASCII case folding of one byte: an upper-case letter becomes its
/// lower-case form, every other byte stays itself.
pub open spec fn fold_byte(b: u8) -> u8 {
    if 65 <= b && b <= 90 {
        (b + 32) as u8
    } else {
        b
    }
}

/// Two header names are the same key when they fold to the same bytes.
pub open spec fn same_key(a: Seq<u8>, b: Seq<u8>) -> bool {
    a.len() == b.len() && (forall|i: int| 0 <= i < a.len() ==> fold_byte(a[i]) == fold_byte(b[i]))
}

/// The values mapped to `name`, in insertion order.
pub open spec fn values_of(entries: Seq<(Seq<u8>, Seq<u8>)>, name: Seq<u8>) -> Seq<Seq<u8>>
    decreases entries.len(),
{
    if entries.len() == 0 {
        Seq::empty()
    } else {
        let rest = values_of(entries.drop_last(), name);
        if same_key(entries.last().0, name) {
            rest.push(entries.last().1)
        } else {
            rest
        }
    }
}

/// A multi-valued header mapping. Keys are case-insensitive; the order in
/// which values were inserted is preserved, per key and overall.
pub struct HeaderMap {
    entries: Vec<(Vec<u8>, Vec<u8>)>,
}

impl HeaderMap {
    /// The mapping as the sequence of its entries, oldest first.
    pub closed spec fn entries(&self) -> Seq<(Seq<u8>, Seq<u8>)> {
        self.entries.deep_view()
    }

    /// An empty mapping.
    pub fn new() -> (r: HeaderMap)
        ensures
            r.entries() == Seq::<(Seq<u8>, Seq<u8>)>::empty(),
    {
        let r = HeaderMap { entries: Vec::new() };
        proof {
            assert(r.entries() =~~= Seq::<(Seq<u8>, Seq<u8>)>::empty());
        }
        r
    }

    /// Appends one `name: value` pair after every existing entry, so
    /// insertion order is preserved even among values of one key.
    pub fn insert(&mut self, name: Vec<u8>, value: Vec<u8>)
        ensures
            final(self).entries() == old(self).entries().push((name@, value.deep_view())),
    {
        let ghost before = self.entries();
        let ghost pair = (name@, value.deep_view());
        self.entries.push((name, value));
        proof {
            assert(self.entries() =~~= before.push(pair));
        }
    }

    /// How many entries the mapping holds, over all keys.
    pub fn len(&self) -> (r: usize)
        ensures
            r == self.entries().len(),
    {
        self.entries.len()
    }

    /// All values of `name`, matched case-insensitively, in insertion
    /// order.
    pub fn get_all(&self, name: &[u8]) -> (r: Vec<Vec<u8>>)
        ensures
            r.deep_view() == values_of(self.entries(), name@),
    {
        let mut out: Vec<Vec<u8>> = Vec::new();
        let mut i: usize = 0;
        while i < self.entries.len()
            invariant
                0 <= i <= self.entries.len(),
                out.deep_view() == values_of(self.entries().take(i as int), name@),
            decreases self.entries.len() - i,
        {
            let ghost prefix = self.entries().take(i as int);
            let entry = &self.entries[i];
            proof {
                assert(entry.0@ =~= self.entries()[i as int].0);
                assert(entry.1@ =~= self.entries()[i as int].1);
            }
            if names_match(entry.0.as_slice(), name) {
                let copy = copy_bytes(&entry.1);
                proof {
                    assert(copy.deep_view() =~= self.entries()[i as int].1);
                }
                out.push(copy);
            }
            proof {
                assert(self.entries().take(i + 1 as int).drop_last() =~= prefix);
                assert(self.entries().take(i + 1 as int).last() == self.entries()[i as int]);
            }
            i = i + 1;
        }
        proof {
            assert(self.entries().take(self.entries().len() as int) =~= self.entries());
        }
        out
    }

    /// Hands out all entries in insertion order, consuming the mapping.
    pub fn into_entries(self) -> (r: Vec<(Vec<u8>, Vec<u8>)>)
        ensures
            r.deep_view() == self.entries(),
    {
        self.entries
    }

    /// The first value inserted under `name`, matched case-insensitively,
    /// when there is one.
    pub fn get_first(&self, name: &[u8]) -> (r: Option<&Vec<u8>>)
        ensures
            match r {
                Some(v) => values_of(self.entries(), name@).len() > 0 && v.deep_view()
                    == values_of(self.entries(), name@)[0],
                None => values_of(self.entries(), name@).len() == 0,
            },
    {
        let mut i: usize = 0;
        while i < self.entries.len()
            invariant
                0 <= i <= self.entries.len(),
                values_of(self.entries().take(i as int), name@) == Seq::<
                    Seq<u8>,
                >::empty(),
            decreases self.entries.len() - i,
        {
            let ghost prefix = self.entries().take(i as int);
            let entry = &self.entries[i];
            proof {
                assert(entry.0@ =~= self.entries()[i as int].0);
            }
            if names_match(entry.0.as_slice(), name) {
                proof {
                    lemma_values_of_first_match(self.entries(), name@, i as int);
                }
                return Some(&entry.1);
            }
            proof {
                assert(self.entries().take(i + 1 as int).drop_last() =~= prefix);
                assert(self.entries().take(i + 1 as int).last() == self.entries()[i as int]);
            }
            i = i + 1;
        }
        proof {
            assert(self.entries().take(self.entries().len() as int) =~= self.entries());
        }
        None
    }
}

/// In a mapping whose first `upto` entries miss `name`, and whose entry at
/// `upto` hits it, that entry's value is the first value of `name`.
proof fn lemma_values_of_first_match(entries: Seq<(Seq<u8>, Seq<u8>)>, name: Seq<u8>, upto: int)
    requires
        0 <= upto < entries.len(),
        values_of(entries.take(upto), name) == Seq::<Seq<u8>>::empty(),
        same_key(entries[upto].0, name),
    ensures
        values_of(entries, name).len() > 0,
        values_of(entries, name)[0] == entries[upto].1,
    decreases entries.len(),
{
    if entries.len() - 1 > upto {
        assert(entries.drop_last().take(upto) =~= entries.take(upto));
        lemma_values_of_first_match(entries.drop_last(), name, upto);
    } else {
        assert(entries.take(upto) =~= entries.drop_last());
    }
}

/// Whether two header names are the same case-insensitive key.
pub fn names_match(a: &[u8], b: &[u8]) -> (r: bool)
    ensures
        r == same_key(a@, b@),
{
    if a.len() != b.len() {
        return false;
    }
    let mut i: usize = 0;
    while i < a.len()
        invariant
            0 <= i <= a.len(),
            a@.len() == b@.len(),
            forall|j: int| 0 <= j < i ==> fold_byte(a@[j]) == fold_byte(b@[j]),
        decreases a.len() - i,
    {
        if fold_one(a[i]) != fold_one(b[i]) {
            return false;
        }
        i = i + 1;
    }
    true
}

/// A fresh copy of the given bytes.
fn copy_bytes(src: &Vec<u8>) -> (r: Vec<u8>)
    ensures
        r@ == src@,
{
    let mut out: Vec<u8> = Vec::new();
    let mut i: usize = 0;
    while i < src.len()
        invariant
            0 <= i <= src.len(),
            out@ == src@.take(i as int),
        decreases src.len() - i,
    {
        out.push(src[i]);
        proof {
            assert(src@.take(i + 1 as int) =~= src@.take(i as int).push(src@[i as int]));
        }
        i = i + 1;
    }
    proof {
        assert(src@.take(src@.len() as int) =~= src@);
    }
    out
}

/// ASCII case folding of one byte, executably.
fn fold_one(b: u8) -> (r: u8)
    ensures
        r == fold_byte(b),
{
    if 65 <= b && b <= 90 {
        b + 32
    } else {
        b
    }
}

/// The metadata of an inbound message: its url path and its headers.
/// Immutable once constructed from the transport layer; owned by the
/// Request that holds it until the two are split apart.
pub struct Header {
    pub url_path: String,
    pub headers: HeaderMap,
}

} // verus!
