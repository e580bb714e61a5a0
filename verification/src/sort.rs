use vstd::prelude::*;
use vstd::string::StrSliceExecFns;
use crate::cursor::models;
use crate::storage::{Container, ContainerModel};

verus! {

/// A sort direction for one key.
#[derive(Clone, Copy, PartialEq, Eq, Structural, Debug)]
pub enum SortDirection {
    Ascending,
    Descending,
}

/// The sort keys a container listing can be ordered by.  The object-storage
/// service itself always lists by name, so every one of these is applied
/// client-side, after full retrieval — none is sent to the service.
#[derive(Clone, Copy, PartialEq, Eq, Structural, Debug)]
pub enum ContainerSortKey {
    Name,
    Bytes,
    Count,
    LastModified,
}

/// Lexicographic order on character sequences, by code point.
pub open spec fn lex_le(a: Seq<char>, b: Seq<char>) -> bool
    decreases a.len(),
{
    if a.len() == 0 {
        true
    } else if b.len() == 0 {
        false
    } else if (a[0] as u32) < (b[0] as u32) {
        true
    } else if (a[0] as u32) > (b[0] as u32) {
        false
    } else {
        lex_le(a.subrange(1, a.len() as int), b.subrange(1, b.len() as int))
    }
}

/// Lexicographic order is total.
pub proof fn lemma_lex_total(a: Seq<char>, b: Seq<char>)
    ensures
        lex_le(a, b) || lex_le(b, a),
    decreases a.len(),
{
    if a.len() != 0 && b.len() != 0 && (a[0] as u32) == (b[0] as u32) {
        lemma_lex_total(a.subrange(1, a.len() as int), b.subrange(1, b.len() as int));
    }
}

/// Dropping an equal prefix does not change the comparison.
proof fn lemma_lex_skip(a: Seq<char>, b: Seq<char>, i: int)
    requires
        0 <= i <= a.len(),
        i <= b.len(),
        forall|j: int| 0 <= j < i ==> a[j] == b[j],
    ensures
        lex_le(a, b) == lex_le(a.subrange(i, a.len() as int), b.subrange(i, b.len() as int)),
    decreases i,
{
    if i == 0 {
        assert(a.subrange(0, a.len() as int) =~= a);
        assert(b.subrange(0, b.len() as int) =~= b);
    } else {
        let a1 = a.subrange(1, a.len() as int);
        let b1 = b.subrange(1, b.len() as int);
        assert(a[0] == b[0]);
        assert(forall|j: int| 0 <= j < i - 1 ==> a1[j] == b1[j]);
        lemma_lex_skip(a1, b1, i - 1);
        assert(a1.subrange(i - 1, a1.len() as int) =~= a.subrange(i, a.len() as int));
        assert(b1.subrange(i - 1, b1.len() as int) =~= b.subrange(i, b.len() as int));
    }
}

/// Compare two strings lexicographically by code point.
pub fn str_lex_le(a: &str, b: &str) -> (r: bool)
    ensures
        r == lex_le(a@, b@),
{
    let na = a.unicode_len();
    let nb = b.unicode_len();
    let mut i: usize = 0;
    loop
        invariant
            i <= na,
            i <= nb,
            na == a@.len(),
            nb == b@.len(),
            forall|j: int| 0 <= j < i ==> a@[j] == b@[j],
        decreases na - i,
    {
        proof {
            lemma_lex_skip(a@, b@, i as int);
        }
        if i >= na {
            return true;
        }
        if i >= nb {
            return false;
        }
        let ca = a.get_char(i);
        let cb = b.get_char(i);
        proof {
            assert(a@.subrange(i as int, na as int)[0] == a@[i as int]);
            assert(b@.subrange(i as int, nb as int)[0] == b@[i as int]);
        }
        if (ca as u32) < (cb as u32) {
            return true;
        }
        if (ca as u32) > (cb as u32) {
            return false;
        }
        i += 1;
    }
}

/// Equality under one key.
pub open spec fn key_eq(key: ContainerSortKey, a: ContainerModel, b: ContainerModel) -> bool {
    match key {
        ContainerSortKey::Name => a.name == b.name,
        ContainerSortKey::Bytes => a.bytes == b.bytes,
        ContainerSortKey::Count => a.count == b.count,
        ContainerSortKey::LastModified => a.last_modified == b.last_modified,
    }
}

/// Ascending order under one key.
pub open spec fn key_le_asc(key: ContainerSortKey, a: ContainerModel, b: ContainerModel) -> bool {
    match key {
        ContainerSortKey::Name => lex_le(a.name, b.name),
        ContainerSortKey::Bytes => a.bytes <= b.bytes,
        ContainerSortKey::Count => a.count <= b.count,
        ContainerSortKey::LastModified => a.last_modified <= b.last_modified,
    }
}

/// Order under one key and direction.
pub open spec fn key_le(
    key: ContainerSortKey,
    dir: SortDirection,
    a: ContainerModel,
    b: ContainerModel,
) -> bool {
    match dir {
        SortDirection::Ascending => key_le_asc(key, a, b),
        SortDirection::Descending => key_le_asc(key, b, a),
    }
}

/// Lexicographic multi-key order: the first key in the sequence is primary,
/// later keys break ties; no keys at all leaves everything tied.
pub open spec fn spec_le(
    ks: Seq<(ContainerSortKey, SortDirection)>,
    a: ContainerModel,
    b: ContainerModel,
) -> bool
    decreases ks.len(),
{
    if ks.len() == 0 {
        true
    } else if key_eq(ks[0].0, a, b) {
        spec_le(ks.subrange(1, ks.len() as int), a, b)
    } else {
        key_le(ks[0].0, ks[0].1, a, b)
    }
}

/// The multi-key order is total: any two items compare one way or the other.
pub proof fn lemma_spec_le_total(
    ks: Seq<(ContainerSortKey, SortDirection)>,
    a: ContainerModel,
    b: ContainerModel,
)
    ensures
        spec_le(ks, a, b) || spec_le(ks, b, a),
    decreases ks.len(),
{
    if ks.len() != 0 {
        if key_eq(ks[0].0, a, b) {
            lemma_spec_le_total(ks.subrange(1, ks.len() as int), a, b);
        } else {
            if ks[0].0 is Name {
                lemma_lex_total(a.name, b.name);
            }
        }
    }
}

/// Consecutive items are non-decreasing under the key sequence.
pub open spec fn sorted_under(
    ks: Seq<(ContainerSortKey, SortDirection)>,
    ms: Seq<ContainerModel>,
) -> bool {
    forall|i: int| 0 <= i && i + 1 < ms.len() ==> #[trigger] spec_le(ks, ms[i], ms[i + 1])
}

fn key_eq_exec(key: ContainerSortKey, a: &Container, b: &Container) -> (r: bool)
    ensures
        r == key_eq(key, a@, b@),
{
    match key {
        ContainerSortKey::Name => a.name == b.name,
        ContainerSortKey::Bytes => a.bytes == b.bytes,
        ContainerSortKey::Count => a.count == b.count,
        ContainerSortKey::LastModified => a.last_modified == b.last_modified,
    }
}

fn key_le_asc_exec(key: ContainerSortKey, a: &Container, b: &Container) -> (r: bool)
    ensures
        r == key_le_asc(key, a@, b@),
{
    match key {
        ContainerSortKey::Name => str_lex_le(a.name.as_str(), b.name.as_str()),
        ContainerSortKey::Bytes => a.bytes <= b.bytes,
        ContainerSortKey::Count => a.count <= b.count,
        ContainerSortKey::LastModified => a.last_modified <= b.last_modified,
    }
}

fn key_le_exec(key: ContainerSortKey, dir: SortDirection, a: &Container, b: &Container) -> (r:
    bool)
    ensures
        r == key_le(key, dir, a@, b@),
{
    match dir {
        SortDirection::Ascending => key_le_asc_exec(key, a, b),
        SortDirection::Descending => key_le_asc_exec(key, b, a),
    }
}

/// Does `a` order at or before `b` under the key sequence?
pub fn le_under(ks: &Vec<(ContainerSortKey, SortDirection)>, a: &Container, b: &Container) -> (r:
    bool)
    ensures
        r == spec_le(ks@, a@, b@),
{
    let n = ks.len();
    let mut i: usize = 0;
    proof {
        assert(ks@.subrange(0, n as int) =~= ks@);
    }
    while i < n
        invariant
            i <= n,
            n == ks@.len(),
            spec_le(ks@, a@, b@) == spec_le(ks@.subrange(i as int, n as int), a@, b@),
        decreases n - i,
    {
        let pair = ks[i];
        let ghost rest = ks@.subrange(i as int, n as int);
        proof {
            assert(rest[0] == ks@[i as int]);
            assert(rest.subrange(1, rest.len() as int) =~= ks@.subrange(i as int + 1, n as int));
        }
        if !key_eq_exec(pair.0, a, b) {
            return key_le_exec(pair.0, pair.1, a, b);
        }
        i += 1;
    }
    proof {
        assert(ks@.subrange(n as int, n as int).len() == 0);
    }
    true
}

/// Removing the last item removes it from the multiset.
proof fn lemma_pop_to_multiset<A>(s: Seq<A>)
    requires
        s.len() > 0,
    ensures
        s.to_multiset() == s.remove(s.len() - 1).to_multiset().insert(s.last()),
{
    broadcast use vstd::seq_lib::group_to_multiset_ensures;
    broadcast use vstd::multiset::group_multiset_axioms;

    let x = s.last();
    assert(s.contains(x));
    assert(s.remove(s.len() - 1).to_multiset() =~= s.to_multiset().remove(x));
    assert(s.to_multiset().count(x) > 0);
    assert(s.to_multiset() =~= s.remove(s.len() - 1).to_multiset().insert(x));
}

/// Moving an item across a multiset union leaves the union unchanged.
proof fn lemma_shift_item<A>(a: vstd::multiset::Multiset<A>, b: vstd::multiset::Multiset<A>, x: A)
    ensures
        a.insert(x).add(b) == a.add(b.insert(x)),
{
    broadcast use vstd::multiset::group_multiset_axioms;

    assert(a.insert(x).add(b) =~= a.add(b.insert(x)));
}

/// Inserting an item into a sequence inserts it into the multiset.
proof fn lemma_insert_to_multiset<A>(s: Seq<A>, i: int, x: A)
    requires
        0 <= i <= s.len(),
    ensures
        s.insert(i, x).to_multiset() == s.to_multiset().insert(x),
{
    broadcast use vstd::seq_lib::group_to_multiset_ensures;
    broadcast use vstd::multiset::group_multiset_axioms;

    let t = s.insert(i, x);
    assert(t.remove(i) =~= s);
    assert(t[i] == x);
    assert(t.to_multiset().remove(x) =~= s.to_multiset());
    assert(t.to_multiset().contains(x));
    assert(t.to_multiset() =~= s.to_multiset().insert(x));
}

/// Sort containers by the given keys, client-side.  The result holds
/// exactly the input items, reordered so that consecutive items are
/// non-decreasing under the key sequence: the first key is primary, later
/// keys break ties.  Each item is placed before the first one it does not
/// order strictly after, so items tied under every key keep their input
/// order.
pub fn sort_containers(ks: &Vec<(ContainerSortKey, SortDirection)>, items: Vec<Container>) -> (r:
    Vec<Container>)
    ensures
        sorted_under(ks@, models(r@)),
        r@.to_multiset() == items@.to_multiset(),
        models(r@).to_multiset() == models(items@).to_multiset(),
{
    broadcast use vstd::seq_lib::group_to_multiset_ensures;
    broadcast use vstd::multiset::group_multiset_axioms;

    let ghost input = items@;
    let mut rest = items;
    let mut out: Vec<Container> = Vec::new();
    proof {
        assert(out@.to_multiset().add(rest@.to_multiset()) =~= input.to_multiset());
        assert(models(out@).to_multiset().add(models(rest@).to_multiset())
            =~= models(input).to_multiset());
    }
    while rest.len() > 0
        invariant
            sorted_under(ks@, models(out@)),
            out@.to_multiset().add(rest@.to_multiset()) == input.to_multiset(),
            models(out@).to_multiset().add(models(rest@).to_multiset()) == models(
                input,
            ).to_multiset(),
        decreases rest@.len(),
    {
        let ghost rest0 = rest@;
        let ghost out0 = out@;
        let x = rest.pop().unwrap();
        proof {
            assert(rest0[rest0.len() - 1] == x);
            lemma_pop_to_multiset(rest0);
            assert(rest@ =~= rest0.remove(rest0.len() - 1));
            assert(rest0.to_multiset() == rest@.to_multiset().insert(x));
            assert(models(rest0)[models(rest0).len() - 1] == x@);
            lemma_pop_to_multiset(models(rest0));
            assert(models(rest@) =~= models(rest0).remove(models(rest0).len() - 1));
            assert(models(rest0).to_multiset() == models(rest@).to_multiset().insert(x@));
        }
        let n_out = out.len();
        let mut idx: usize = 0;
        loop
            invariant
                idx <= n_out,
                n_out == out@.len(),
                out@ == out0,
                forall|p: int| 0 <= p < idx ==> !spec_le(ks@, x@, models(out@)[p]),
            ensures
                idx <= out@.len(),
                out@ == out0,
                forall|p: int| 0 <= p < idx ==> !spec_le(ks@, x@, models(out@)[p]),
                idx < out@.len() ==> spec_le(ks@, x@, models(out@)[idx as int]),
            decreases n_out - idx,
        {
            if idx >= n_out {
                break ;
            }
            proof {
                assert(models(out@)[idx as int] == out@[idx as int]@);
            }
            if le_under(ks, &x, &out[idx]) {
                break ;
            }
            idx += 1;
        }
        out.insert(idx, x);
        proof {
            assert(out@ =~= out0.insert(idx as int, x));
            lemma_insert_to_multiset(out0, idx as int, x);
            lemma_shift_item(out0.to_multiset(), rest@.to_multiset(), x);
            assert(out@.to_multiset().add(rest@.to_multiset()) == input.to_multiset());
            assert(models(out@) =~= models(out0).insert(idx as int, x@));
            lemma_insert_to_multiset(models(out0), idx as int, x@);
            lemma_shift_item(models(out0).to_multiset(), models(rest@).to_multiset(), x@);
            assert(models(out@).to_multiset().add(models(rest@).to_multiset()) == models(
                input,
            ).to_multiset());
            assert forall|i: int| 0 <= i && i + 1 < models(out@).len() implies #[trigger] spec_le(
                ks@,
                models(out@)[i],
                models(out@)[i + 1],
            ) by {
                if i + 1 < idx {
                    assert(models(out@)[i] == models(out0)[i]);
                    assert(models(out@)[i + 1] == models(out0)[i + 1]);
                    assert(spec_le(ks@, models(out0)[i], models(out0)[i + 1]));
                } else if i + 1 == idx {
                    assert(models(out@)[i] == models(out0)[i]);
                    assert(models(out@)[i + 1] == x@);
                    assert(!spec_le(ks@, x@, models(out0)[i]));
                    lemma_spec_le_total(ks@, models(out0)[i], x@);
                    assert(spec_le(ks@, models(out0)[i], x@));
                } else if i == idx {
                    assert(models(out@)[i] == x@);
                    assert(models(out@)[i + 1] == models(out0)[i]);
                    assert(spec_le(ks@, x@, models(out0)[i]));
                } else {
                    assert(models(out@)[i] == models(out0)[i - 1]);
                    assert(models(out@)[i + 1] == models(out0)[i]);
                    assert(spec_le(ks@, models(out0)[i - 1], models(out0)[(i - 1) + 1]));
                }
            }
        }
    }
    out
}

} // verus!
