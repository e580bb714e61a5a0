use vstd::prelude::*;

verus! {

/// One wire parameter: a filter key and its value.
pub struct Param {
    pub key: String,
    pub value: String,
}

/// Whether some pair of the wire `w` holds the key `k`.
pub open spec fn wire_contains(w: Seq<(Seq<char>, Seq<char>)>, k: Seq<char>) -> bool {
    exists|i: int| 0 <= i < w.len() && (#[trigger] w[i]).0 == k
}

/// The wire `w2` is `w` with `k` set to `v`: the pair holding `k` is
/// overwritten in place when the key is present, and appended otherwise.
pub open spec fn wire_set(
    w: Seq<(Seq<char>, Seq<char>)>,
    k: Seq<char>,
    v: Seq<char>,
    w2: Seq<(Seq<char>, Seq<char>)>,
) -> bool {
    &&& (wire_contains(w, k) ==> {
        &&& w2.len() == w.len()
        &&& forall|i: int|
            0 <= i < w2.len() ==> #[trigger] w2[i] == (if w[i].0 == k {
                (k, v)
            } else {
                w[i]
            })
    })
    &&& (!wire_contains(w, k) ==> w2 == w.push((k, v)))
}

/// Setting a key is idempotent on the wire: a second set of the same key
/// and value changes nothing, so one parameter goes out, never two.
pub proof fn lemma_set_idempotent(
    w: Seq<(Seq<char>, Seq<char>)>,
    k: Seq<char>,
    v: Seq<char>,
    w2: Seq<(Seq<char>, Seq<char>)>,
    w3: Seq<(Seq<char>, Seq<char>)>,
)
    requires
        wire_set(w, k, v, w2),
        wire_set(w2, k, v, w3),
    ensures
        w3 == w2,
{
    if wire_contains(w, k) {
        let i = choose|i: int| 0 <= i < w.len() && (#[trigger] w[i]).0 == k;
        assert(w2[i].0 == k);
        assert(wire_contains(w2, k));
    } else {
        assert(w2 == w.push((k, v)));
        assert((w2[w2.len() - 1]).0 == k);
        assert(wire_contains(w2, k));
    }
    assert forall|i: int| 0 <= i < w3.len() implies w3[i] == w2[i] by {
        if w2[i].0 == k {
            if wire_contains(w, k) {
                if w[i].0 == k {
                    assert(w2[i] == (k, v));
                } else {
                    assert(w2[i] == w[i]);
                }
            } else {
                if i < w.len() {
                    assert(w2[i] == w[i]);
                } else {
                    assert(w2[i] == (k, v));
                }
            }
            assert(w2[i] == (k, v));
            assert(w3[i] == (k, v));
        } else {
            assert(w3[i] == w2[i]);
        }
    }
    assert(w3 =~= w2);
}

/// An ordered set of filter key/value pairs: the wire-level shape of one
/// listing request.
///
/// Insertion order is significant for some services and is preserved on the
/// wire.  Setting a key that is already present overwrites its value in
/// place (last write wins) rather than duplicating the parameter; the
/// parameter keeps its original position.
pub struct Query {
    params: Vec<Param>,
}

impl Query {
    /// The wire model: the ordered (key, value) pairs as character
    /// sequences, exactly as they would be attached to a request.
    pub closed spec fn wire(&self) -> Seq<(Seq<char>, Seq<char>)> {
        self.params@.map_values(|p: Param| (p.key@, p.value@))
    }

    /// Keys are pairwise distinct: a key set twice never yields two
    /// parameters.
    pub open spec fn wf(&self) -> bool {
        forall|i: int, j: int|
            0 <= i < j < self.wire().len() ==> (#[trigger] self.wire()[i]).0 != (
            #[trigger] self.wire()[j]).0
    }

    /// Whether some parameter holds the key `k`.
    pub open spec fn contains_key(&self, k: Seq<char>) -> bool {
        wire_contains(self.wire(), k)
    }

    /// An empty query: no filters at all.
    pub fn new() -> (q: Query)
        ensures
            q.wire() == Seq::<(Seq<char>, Seq<char>)>::empty(),
            q.wf(),
    {
        let q = Query { params: Vec::new() };
        proof {
            assert(q.wire() =~= Seq::<(Seq<char>, Seq<char>)>::empty());
        }
        q
    }

    /// How many parameters would go on the wire.
    pub fn len(&self) -> (n: usize)
        ensures
            n == self.wire().len(),
    {
        self.params.len()
    }

    /// The parameter at position `i`, in wire order.
    pub fn param_at(&self, i: usize) -> (p: (&String, &String))
        requires
            i < self.wire().len(),
        ensures
            p.0@ == self.wire()[i as int].0,
            p.1@ == self.wire()[i as int].1,
    {
        (&self.params[i].key, &self.params[i].value)
    }

    /// Insert the pair, or overwrite the value if the key is already
    /// present.  Calling `set` twice with the same key and value is
    /// observationally a no-op; calling it with a different value replaces
    /// the first.  Exactly one parameter holds the key afterwards.
    pub fn set(&mut self, key: String, value: String)
        requires
            old(self).wf(),
        ensures
            final(self).wf(),
            final(self).contains_key(key@),
            wire_set(old(self).wire(), key@, value@, final(self).wire()),
    {
        let n = self.params.len();
        let mut i: usize = 0;
        while i < n
            invariant
                n == self.params@.len(),
                i <= n,
                *self == *old(self),
                old(self).wf(),
                forall|j: int| 0 <= j < i ==> (#[trigger] self.wire()[j]).0 != key@,
            decreases n - i,
        {
            if self.params[i].key == key {
                self.params[i].value = value;
                proof {
                    assert(self.wire() =~= old(self).wire().update(
                        i as int,
                        (key@, value@),
                    ));
                    assert((old(self).wire()[i as int]).0 == key@);
                    assert((self.wire()[i as int]).0 == key@);
                }
                return ;
            }
            i += 1;
        }
        self.params.push(Param { key, value });
        proof {
            assert(self.wire() =~= old(self).wire().push((key@, value@)));
            assert(!old(self).contains_key(key@));
            assert((self.wire()[self.wire().len() - 1]).0 == key@);
        }
    }

    /// Remove the parameter holding `key`, if any; every other parameter
    /// keeps its relative order.
    pub fn remove(&mut self, key: &String)
        requires
            old(self).wf(),
        ensures
            final(self).wf(),
            !final(self).contains_key(key@),
            forall|i: int|
                0 <= i < old(self).wire().len() && (#[trigger] old(self).wire()[i]).0 == key@
                    ==> final(self).wire() == old(self).wire().remove(i),
            !old(self).contains_key(key@) ==> final(self).wire() == old(self).wire(),
    {
        let n = self.params.len();
        let mut i: usize = 0;
        while i < n
            invariant
                n == self.params@.len(),
                i <= n,
                *self == *old(self),
                old(self).wf(),
                forall|j: int| 0 <= j < i ==> (#[trigger] self.wire()[j]).0 != key@,
            decreases n - i,
        {
            if self.params[i].key == *key {
                let _ = self.params.remove(i);
                proof {
                    assert(self.wire() =~= old(self).wire().remove(i as int));
                    assert((old(self).wire()[i as int]).0 == key@);
                    assert forall|m: int|
                        0 <= m < old(self).wire().len() && (#[trigger] old(self).wire()[m]).0
                            == key@ implies m == i as int by {
                        if m < i as int {
                            assert((old(self).wire()[m]).0 != (old(self).wire()[i as int]).0);
                        } else if m > i as int {
                            assert((old(self).wire()[i as int]).0 != (old(self).wire()[m]).0);
                        }
                    }
                    assert forall|j: int|
                        0 <= j < self.wire().len() implies (#[trigger] self.wire()[j]).0
                            != key@ by {
                        if j < i as int {
                            assert(self.wire()[j] == old(self).wire()[j]);
                        } else {
                            assert(self.wire()[j] == old(self).wire()[j + 1]);
                            assert((old(self).wire()[i as int]).0 != (old(self).wire()[j + 1]).0);
                        }
                    }
                }
                return ;
            }
            i += 1;
        }
    }
}

} // verus!
