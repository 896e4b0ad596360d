//! Header sets: an ordered sequence of (name, value) pairs of byte strings.
//! Names are compared case-insensitively; order is preserved, and inserting
//! under an existing name lets the last write win.

use vstd::prelude::*;

use crate::bytes::{names_equal, names_match};

verus! {

/// The mathematical model of a header set: the names and values as byte
/// strings, in order.
pub type HeaderFields = Seq<(Seq<u8>, Seq<u8>)>;

/// The value of the first header whose name matches `name` up to ASCII case,
/// if any.
pub open spec fn lookup(h: HeaderFields, name: Seq<u8>) -> Option<Seq<u8>>
    decreases h.len(),
{
    if h.len() == 0 {
        None
    } else if names_match(h[0].0, name) {
        Some(h[0].1)
    } else {
        lookup(h.drop_first(), name)
    }
}

/// Whether some header's name matches `name` up to ASCII case.
pub open spec fn contains_name(h: HeaderFields, name: Seq<u8>) -> bool
    decreases h.len(),
{
    if h.len() == 0 {
        false
    } else {
        names_match(h[0].0, name) || contains_name(h.drop_first(), name)
    }
}

/// The header set with every header named `name` (up to ASCII case) removed,
/// all others kept in order.
pub open spec fn strip(h: HeaderFields, name: Seq<u8>) -> HeaderFields
    decreases h.len(),
{
    if h.len() == 0 {
        Seq::empty()
    } else if names_match(h[0].0, name) {
        strip(h.drop_first(), name)
    } else {
        seq![h[0]] + strip(h.drop_first(), name)
    }
}

/// `contains_name` agrees with the direct existential reading.
pub proof fn lemma_contains_name_iff(h: HeaderFields, name: Seq<u8>)
    ensures
        contains_name(h, name) <==> exists|i: int|
            0 <= i < h.len() && names_match(h[i].0, name),
    decreases h.len(),
{
    if h.len() > 0 {
        lemma_contains_name_iff(h.drop_first(), name);
        if names_match(h[0].0, name) {
            assert(names_match(h[0].0, name));
        } else if contains_name(h.drop_first(), name) {
            let i = choose|i: int|
                0 <= i < h.drop_first().len() && names_match(h.drop_first()[i].0, name);
            assert(h[i + 1] == h.drop_first()[i]);
            assert(names_match(h[i + 1].0, name));
        } else {
            assert forall|i: int| 0 <= i < h.len() implies !names_match(h[i].0, name) by {
                if i > 0 {
                    assert(h[i] == h.drop_first()[i - 1]);
                }
            }
        }
    }
}

/// A header set contains a name exactly when looking the name up succeeds.
pub proof fn lemma_lookup_some_iff_contains(h: HeaderFields, name: Seq<u8>)
    ensures
        lookup(h, name) is Some <==> contains_name(h, name),
    decreases h.len(),
{
    if h.len() > 0 && !names_match(h[0].0, name) {
        lemma_lookup_some_iff_contains(h.drop_first(), name);
    }
}

/// Stripping a name leaves no header under that name.
pub proof fn lemma_strip_absent(h: HeaderFields, name: Seq<u8>)
    ensures
        !contains_name(strip(h, name), name),
    decreases h.len(),
{
    if h.len() > 0 {
        lemma_strip_absent(h.drop_first(), name);
        if !names_match(h[0].0, name) {
            let rest = strip(h.drop_first(), name);
            assert(strip(h, name) == seq![h[0]] + rest);
            assert((seq![h[0]] + rest).drop_first() =~= rest);
        }
    }
}

/// Stripping a name that no header carries changes nothing.
pub proof fn lemma_strip_id_when_absent(h: HeaderFields, name: Seq<u8>)
    requires
        !contains_name(h, name),
    ensures
        strip(h, name) == h,
    decreases h.len(),
{
    if h.len() > 0 {
        lemma_strip_id_when_absent(h.drop_first(), name);
        assert(strip(h, name) =~= h);
    }
}

/// Stripping cannot introduce a name that was absent before.
pub proof fn lemma_strip_preserves_absent(h: HeaderFields, gone: Seq<u8>, name: Seq<u8>)
    requires
        !contains_name(h, gone),
    ensures
        !contains_name(strip(h, name), gone),
    decreases h.len(),
{
    if h.len() > 0 {
        lemma_strip_preserves_absent(h.drop_first(), gone, name);
        if !names_match(h[0].0, name) {
            let rest = strip(h.drop_first(), name);
            assert(strip(h, name) == seq![h[0]] + rest);
            assert((seq![h[0]] + rest).drop_first() =~= rest);
        }
    }
}

/// How `strip` acts on a header appended at the back.
pub proof fn lemma_strip_push(h: HeaderFields, name: Seq<u8>, e: (Seq<u8>, Seq<u8>))
    ensures
        strip(h.push(e), name) == if names_match(e.0, name) {
            strip(h, name)
        } else {
            strip(h, name).push(e)
        },
    decreases h.len(),
{
    let hp = h.push(e);
    if h.len() == 0 {
        assert(hp[0] == e);
        assert(hp.drop_first() =~= Seq::<(Seq<u8>, Seq<u8>)>::empty());
        assert(strip(Seq::<(Seq<u8>, Seq<u8>)>::empty(), name) == Seq::<(Seq<u8>, Seq<u8>)>::empty());
        assert(strip(h, name) == Seq::<(Seq<u8>, Seq<u8>)>::empty());
        if names_match(e.0, name) {
            assert(strip(hp, name) == strip(hp.drop_first(), name));
        } else {
            assert(strip(hp, name) == seq![e] + strip(hp.drop_first(), name));
            assert(seq![e] + Seq::<(Seq<u8>, Seq<u8>)>::empty() =~= strip(h, name).push(e));
        }
    } else {
        assert(hp[0] == h[0]);
        assert(hp.drop_first() =~= h.drop_first().push(e));
        lemma_strip_push(h.drop_first(), name, e);
        if names_match(h[0].0, name) {
            assert(strip(hp, name) == strip(h.drop_first().push(e), name));
            assert(strip(h, name) == strip(h.drop_first(), name));
        } else {
            assert(strip(hp, name) == seq![h[0]] + strip(h.drop_first().push(e), name));
            assert(strip(h, name) == seq![h[0]] + strip(h.drop_first(), name));
            if !names_match(e.0, name) {
                assert(seq![h[0]] + strip(h.drop_first(), name).push(e) =~= (seq![h[0]] + strip(
                    h.drop_first(),
                    name,
                )).push(e));
            }
        }
    }
}

/// How `contains_name` acts on a header appended at the back.
pub proof fn lemma_contains_push(h: HeaderFields, name: Seq<u8>, e: (Seq<u8>, Seq<u8>))
    ensures
        contains_name(h.push(e), name) == (contains_name(h, name) || names_match(e.0, name)),
    decreases h.len(),
{
    let hp = h.push(e);
    if h.len() == 0 {
        assert(hp[0] == e);
        assert(hp.drop_first() =~= Seq::<(Seq<u8>, Seq<u8>)>::empty());
        assert(!contains_name(Seq::<(Seq<u8>, Seq<u8>)>::empty(), name));
        assert(contains_name(hp, name) == names_match(e.0, name));
    } else {
        assert(hp[0] == h[0]);
        assert(hp.drop_first() =~= h.drop_first().push(e));
        lemma_contains_push(h.drop_first(), name, e);
        assert(contains_name(hp, name) == (names_match(h[0].0, name) || contains_name(
            h.drop_first().push(e),
            name,
        )));
        assert(contains_name(h, name) == (names_match(h[0].0, name) || contains_name(
            h.drop_first(),
            name,
        )));
    }
}

/// Looking a name up after appending a header under that name finds the
/// appended value, provided the name was absent before.
pub proof fn lemma_lookup_push_absent(h: HeaderFields, name: Seq<u8>, e: (Seq<u8>, Seq<u8>))
    requires
        !contains_name(h, name),
    ensures
        lookup(h.push(e), name) == if names_match(e.0, name) {
            Some(e.1)
        } else {
            None::<Seq<u8>>
        },
    decreases h.len(),
{
    let hp = h.push(e);
    if h.len() == 0 {
        assert(hp[0] == e);
        assert(hp.drop_first() =~= Seq::<(Seq<u8>, Seq<u8>)>::empty());
        assert(lookup(Seq::<(Seq<u8>, Seq<u8>)>::empty(), name) is None);
    } else {
        assert(hp[0] == h[0]);
        assert(hp.drop_first() =~= h.drop_first().push(e));
        lemma_lookup_push_absent(h.drop_first(), name, e);
        assert(!names_match(h[0].0, name));
        assert(lookup(hp, name) == lookup(h.drop_first().push(e), name));
    }
}

/// Looking up from position `i` on agrees with looking up in the whole set
/// when no earlier header matches.
pub proof fn lemma_lookup_skip(h: HeaderFields, name: Seq<u8>, i: int)
    requires
        0 <= i <= h.len(),
        forall|j: int| 0 <= j < i ==> !names_match(h[j].0, name),
    ensures
        lookup(h.skip(i), name) == lookup(h, name),
    decreases i,
{
    if i > 0 {
        assert(h.drop_first() =~= h.skip(1));
        assert forall|j: int| 0 <= j < i - 1 implies !names_match(h.skip(1)[j].0, name) by {
            assert(h.skip(1)[j] == h[j + 1]);
        }
        lemma_lookup_skip(h.skip(1), name, i - 1);
        assert(h.skip(1).skip(i - 1) =~= h.skip(i));
    } else {
        assert(h.skip(0) =~= h);
    }
}

/// A header set held by the gateway: ordered (name, value) pairs of bytes.
pub struct HeaderMap {
    entries: Vec<(Vec<u8>, Vec<u8>)>,
}

impl View for HeaderMap {
    type V = HeaderFields;

    closed spec fn view(&self) -> HeaderFields {
        Seq::new(self.entries@.len(), |i: int| (self.entries@[i].0@, self.entries@[i].1@))
    }
}

impl HeaderMap {
    /// An empty header set.
    pub fn new() -> (h: HeaderMap)
        ensures
            h@ == Seq::<(Seq<u8>, Seq<u8>)>::empty(),
    {
        let h = HeaderMap { entries: Vec::new() };
        proof {
            assert(h@ =~= Seq::<(Seq<u8>, Seq<u8>)>::empty());
        }
        h
    }

    pub fn len(&self) -> (n: usize)
        ensures
            n == self@.len(),
    {
        self.entries.len()
    }

    pub fn name_at(&self, i: usize) -> (r: &Vec<u8>)
        requires
            i < self@.len(),
        ensures
            r@ == self@[i as int].0,
    {
        &self.entries[i].0
    }

    pub fn value_at(&self, i: usize) -> (r: &Vec<u8>)
        requires
            i < self@.len(),
        ensures
            r@ == self@[i as int].1,
    {
        &self.entries[i].1
    }

    /// Append a header at the back, keeping whatever is already there.
    /// This models headers as they arrive from the wire, duplicates included.
    pub fn push_header(&mut self, name: Vec<u8>, value: Vec<u8>)
        ensures
            final(self)@ == old(self)@.push((name@, value@)),
    {
        let ghost prior = self@;
        self.entries.push((name, value));
        proof {
            assert(self@ =~= prior.push((name@, value@)));
        }
    }

    /// The value of the first header named `name`, compared without regard
    /// to ASCII case, as HTTP requires.
    pub fn get(&self, name: &Vec<u8>) -> (r: Option<&Vec<u8>>)
        ensures
            match r {
                Some(v) => lookup(self@, name@) == Some(v@),
                None => lookup(self@, name@) is None,
            },
    {
        let mut i: usize = 0;
        while i < self.entries.len()
            invariant
                i <= self@.len(),
                self@.len() == self.entries@.len(),
                forall|j: int| 0 <= j < i ==> !names_match(self@[j].0, name@),
            decreases self@.len() - i,
        {
            if names_equal(&self.entries[i].0, name) {
                proof {
                    lemma_lookup_skip(self@, name@, i as int);
                    assert(self@.skip(i as int)[0] == self@[i as int]);
                }
                return Some(&self.entries[i].1);
            }
            i += 1;
        }
        proof {
            lemma_lookup_skip(self@, name@, self@.len() as int);
            assert(self@.skip(self@.len() as int) =~= Seq::<(Seq<u8>, Seq<u8>)>::empty());
        }
        None
    }

    /// Whether some header is named `name`, up to ASCII case.
    pub fn contains(&self, name: &Vec<u8>) -> (r: bool)
        ensures
            r == contains_name(self@, name@),
    {
        proof {
            lemma_lookup_some_iff_contains(self@, name@);
        }
        match self.get(name) {
            Some(_) => true,
            None => false,
        }
    }

    /// Remove every header named `name`, up to ASCII case; all other headers
    /// keep their order.
    pub fn remove(&mut self, name: &Vec<u8>)
        ensures
            final(self)@ == strip(old(self)@, name@),
    {
        let ghost orig = old(self)@;
        let mut i: usize = 0;
        proof {
            assert(self@.take(0) =~= Seq::<(Seq<u8>, Seq<u8>)>::empty());
            assert(self@.skip(0) =~= self@);
            assert(strip(orig, name@) == self@.take(0) + strip(self@.skip(0), name@));
        }
        while i < self.entries.len()
            invariant
                i <= self@.len(),
                self@.len() == self.entries@.len(),
                forall|j: int| 0 <= j < i ==> !names_match(self@[j].0, name@),
                strip(orig, name@) == self@.take(i as int) + strip(self@.skip(i as int), name@),
            decreases self@.len() - i,
        {
            let ghost pre = self@;
            if names_equal(&self.entries[i].0, name) {
                self.entries.remove(i);
                proof {
                    assert(self@ =~= pre.remove(i as int));
                    assert(pre.skip(i as int)[0] == pre[i as int]);
                    assert(pre.skip(i as int).drop_first() =~= self@.skip(i as int));
                    assert(self@.take(i as int) =~= pre.take(i as int));
                }
            } else {
                proof {
                    assert(pre.skip(i as int)[0] == pre[i as int]);
                    assert(pre.skip(i as int).drop_first() =~= pre.skip(i as int + 1));
                    assert(pre.take(i as int + 1) =~= pre.take(i as int) + seq![pre[i as int]]);
                    assert(pre.take(i as int) + (seq![pre[i as int]] + strip(
                        pre.skip(i as int + 1),
                        name@,
                    )) =~= pre.take(i as int + 1) + strip(pre.skip(i as int + 1), name@));
                }
                i += 1;
            }
        }
        proof {
            assert(self@.take(i as int) =~= self@);
            assert(self@.skip(i as int) =~= Seq::<(Seq<u8>, Seq<u8>)>::empty());
            assert(self@ + strip(Seq::<(Seq<u8>, Seq<u8>)>::empty(), name@) =~= self@);
        }
    }

    /// Set `name` to `value`: the last write wins over anything already
    /// stored under that name, up to ASCII case.
    pub fn insert(&mut self, name: Vec<u8>, value: Vec<u8>)
        ensures
            final(self)@ == strip(old(self)@, name@).push((name@, value@)),
    {
        self.remove(&name);
        self.push_header(name, value);
    }
}

} // verus!
