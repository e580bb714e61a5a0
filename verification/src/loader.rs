use vstd::prelude::*;
use crate::cursor::{models, ListItem};
use crate::error::Error;
use crate::pages::Listing;

verus! {

/// The models of `ms` whose marker is `name`, in their original order.
pub open spec fn matching<T: ListItem>(ms: Seq<T::V>, name: Seq<char>) -> Seq<T::V>
    decreases ms.len(),
{
    if ms.len() == 0 {
        Seq::empty()
    } else if T::marker_model(ms[0]) == name {
        seq![ms[0]] + matching::<T>(ms.subrange(1, ms.len() as int), name)
    } else {
        matching::<T>(ms.subrange(1, ms.len() as int), name)
    }
}

proof fn lemma_matching_snoc<T: ListItem>(ms: Seq<T::V>, x: T::V, name: Seq<char>)
    ensures
        matching::<T>(ms.push(x), name) == (if T::marker_model(x) == name {
            matching::<T>(ms, name).push(x)
        } else {
            matching::<T>(ms, name)
        }),
    decreases ms.len(),
{
    let whole = ms.push(x);
    let tail = whole.subrange(1, whole.len() as int);
    if ms.len() == 0 {
        assert(whole[0] == x);
        assert(tail =~= Seq::<T::V>::empty());
        assert(matching::<T>(tail, name) =~= Seq::<T::V>::empty());
        assert(matching::<T>(ms, name) =~= Seq::<T::V>::empty());
        if T::marker_model(x) == name {
            assert(matching::<T>(whole, name) == seq![whole[0]] + matching::<T>(tail, name));
            assert(matching::<T>(whole, name) =~= matching::<T>(ms, name).push(x));
        } else {
            assert(matching::<T>(whole, name) == matching::<T>(tail, name));
            assert(matching::<T>(whole, name) =~= matching::<T>(ms, name));
        }
    } else {
        let ms_tail = ms.subrange(1, ms.len() as int);
        assert(whole[0] == ms[0]);
        assert(tail =~= ms_tail.push(x));
        lemma_matching_snoc::<T>(ms_tail, x, name);
        if T::marker_model(ms[0]) == name {
            assert(matching::<T>(whole, name) == seq![whole[0]] + matching::<T>(tail, name));
            assert(matching::<T>(ms, name) == seq![ms[0]] + matching::<T>(ms_tail, name));
            if T::marker_model(x) == name {
                assert(matching::<T>(whole, name) =~= matching::<T>(ms, name).push(x));
            } else {
                assert(matching::<T>(whole, name) =~= matching::<T>(ms, name));
            }
        } else {
            assert(matching::<T>(whole, name) == matching::<T>(tail, name));
            assert(matching::<T>(ms, name) == matching::<T>(ms_tail, name));
        }
    }
}

/// Keep exactly the items whose marker equals `name`, in order.
pub fn filter_by_marker<T: ListItem>(items: &Vec<T>, name: &String) -> (r: Vec<T>)
    ensures
        models(r@) == matching::<T>(models(items@), name@),
{
    let n = items.len();
    let mut r: Vec<T> = Vec::new();
    let mut i: usize = 0;
    proof {
        assert(models(items@).subrange(0, 0) =~= Seq::<T::V>::empty());
        assert(models(r@) =~= matching::<T>(models(items@).subrange(0, 0), name@));
    }
    while i < n
        invariant
            i <= n,
            n == items@.len(),
            models(r@) == matching::<T>(models(items@).subrange(0, i as int), name@),
        decreases n - i,
    {
        let ghost seen = models(items@).subrange(0, i as int);
        proof {
            assert(models(items@).subrange(0, i as int + 1) =~= seen.push(
                models(items@)[i as int],
            ));
            lemma_matching_snoc::<T>(seen, models(items@)[i as int], name@);
            assert(models(items@)[i as int] == items@[i as int]@);
        }
        if items[i].marker_field() == *name {
            let item = items[i].duplicate();
            r.push(item);
            proof {
                assert(models(r@) =~= matching::<T>(seen, name@).push(items@[i as int]@));
            }
        }
        i += 1;
    }
    proof {
        assert(models(items@).subrange(0, n as int) =~= models(items@));
    }
    r
}

/// Whether `c` is a hexadecimal digit.
pub open spec fn is_hex_digit(c: char) -> bool {
    (('0' as u32) <= (c as u32) && (c as u32) <= ('9' as u32)) || (('a' as u32) <= (c as u32) && (
    c as u32) <= ('f' as u32)) || (('A' as u32) <= (c as u32) && (c as u32) <= ('F' as u32))
}

/// Whether `i` is one of the four hyphen positions of a canonical
/// identifier.
pub open spec fn is_dash_position(i: int) -> bool {
    i == 8 || i == 13 || i == 18 || i == 23
}

/// The canonical identifier shape most resource families use: a
/// 36-character token of five hexadecimal groups separated by hyphens.
/// Only an argument of this shape earns a direct lookup attempt; anything
/// else goes straight to name resolution.
pub open spec fn is_canonical_id(s: Seq<char>) -> bool {
    &&& s.len() == 36
    &&& forall|i: int| 0 <= i < 36 ==> ((#[trigger] s[i] == '-') <==> is_dash_position(i))
    &&& forall|i: int| 0 <= i < 36 && !is_dash_position(i) ==> is_hex_digit(#[trigger] s[i])
}

/// Decide whether an identifier-or-name argument has the canonical
/// identifier shape.
pub fn looks_like_canonical_id(s: &str) -> (r: bool)
    ensures
        r == is_canonical_id(s@),
{
    let n = s.unicode_len();
    if n != 36 {
        return false;
    }
    let mut i: usize = 0;
    while i < 36
        invariant
            i <= 36,
            s@.len() == 36,
            forall|j: int| 0 <= j < i ==> ((#[trigger] s@[j] == '-') <==> is_dash_position(j)),
            forall|j: int|
                0 <= j < i && !is_dash_position(j) ==> is_hex_digit(#[trigger] s@[j]),
        decreases 36 - i,
    {
        let c = s.get_char(i);
        let dash = i == 8 || i == 13 || i == 18 || i == 23;
        if dash {
            if c != '-' {
                proof {
                    assert(s@[i as int] != '-' && is_dash_position(i as int));
                }
                return false;
            }
        } else {
            if c == '-' {
                proof {
                    assert(s@[i as int] == '-' && !is_dash_position(i as int));
                }
                return false;
            }
            let u = c as u32;
            let hex = (('0' as u32) <= u && u <= ('9' as u32)) || (('a' as u32) <= u && u <= (
            'f' as u32)) || (('A' as u32) <= u && u <= ('F' as u32));
            if !hex {
                proof {
                    assert(!is_hex_digit(s@[i as int]) && !is_dash_position(i as int));
                }
                return false;
            }
        }
        i += 1;
    }
    true
}

/// What an unambiguous resolution returns: zero candidates fail with
/// `NotFound`; one succeeds with that resource; two or more fail with
/// `Ambiguous`, naming the marker of every conflicting candidate — never a
/// silent first pick, since names are not guaranteed unique.
pub open spec fn resolution_ok<T: ListItem>(ms: Seq<T::V>, r: Result<T, Error>) -> bool {
    &&& (ms.len() == 0 ==> r matches Err(Error::NotFound))
    &&& (ms.len() == 1 ==> (r matches Ok(t) && t@ == ms[0]))
    &&& (ms.len() > 1 ==> (r matches Err(Error::Ambiguous(ids)) && ids@.len() == ms.len()
        && (forall|i: int|
        0 <= i < ms.len() ==> (#[trigger] ids@[i])@ == T::marker_model(ms[i]))))
}

/// Resolve a filtered candidate set into exactly one resource.
pub fn resolve_unique<T: ListItem>(matches: Vec<T>) -> (r: Result<T, Error>)
    ensures
        resolution_ok::<T>(models(matches@), r),
{
    let ghost input = matches@;
    let mut matches = matches;
    if matches.len() == 0 {
        return Err(Error::NotFound);
    }
    if matches.len() == 1 {
        let t = matches.pop().unwrap();
        proof {
            assert(t == input[0]);
            assert(models(input)[0] == input[0]@);
        }
        return Ok(t);
    }
    let n = matches.len();
    let mut ids: Vec<String> = Vec::new();
    let mut i: usize = 0;
    while i < n
        invariant
            i <= n,
            n == matches@.len(),
            ids@.len() == i,
            forall|j: int|
                0 <= j < i ==> (#[trigger] ids@[j])@ == T::marker_model(models(matches@)[j]),
        decreases n - i,
    {
        let id = matches[i].marker_field();
        ids.push(id);
        proof {
            assert(models(matches@)[i as int] == matches@[i as int]@);
        }
        i += 1;
    }
    Err(Error::Ambiguous(ids))
}

/// Resolve an identifier-or-name given a direct lookup outcome and the
/// name-filtered candidates: a direct hit short-circuits; otherwise the
/// candidate set decides, as in [`resolve_unique`].
pub fn resolve_lookup<T: ListItem>(direct: Option<T>, matches: Vec<T>) -> (r: Result<T, Error>)
    ensures
        (direct matches Some(t) ==> (r matches Ok(u) && u == t)),
        direct is None ==> resolution_ok::<T>(models(matches@), r),
{
    match direct {
        Some(t) => Ok(t),
        None => resolve_unique(matches),
    }
}

/// Resolve `id_or_name` against a listing: filter by exact marker equality
/// and demand exactly one match.
pub fn load_from<T: ListItem>(listing: &Listing<T>, id_or_name: &String) -> (r: Result<
    T,
    Error,
>)
    ensures
        resolution_ok::<T>(matching::<T>(listing.models(), id_or_name@), r),
{
    let candidates = filter_by_marker(listing.all_items(), id_or_name);
    resolve_unique(candidates)
}

} // verus!
