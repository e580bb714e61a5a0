use vstd::prelude::*;
use crate::cursor::{capped, keep_of, models, CursorStep, ListItem, PaginationCursor};

verus! {

/// An in-memory marker-paginated listing: the reference model of a list
/// endpoint.  A page request with no marker starts at the beginning; one
/// with marker `m` resumes right after the first item whose marker is `m`,
/// or past the end when no item carries it.  The engine's laws are stated
/// and proved against this model, and it doubles as a test stand for
/// resource families.
pub struct Listing<T> {
    items: Vec<T>,
}

impl<T: ListItem> Listing<T> {
    /// The models of the listed items, in server order.
    pub closed spec fn models(&self) -> Seq<T::V> {
        models(self.items@)
    }

    /// Markers are pairwise distinct, as the canonical identifier or name
    /// on a live service is.
    pub open spec fn wf(&self) -> bool {
        forall|i: int, j: int|
            0 <= i < j < self.models().len() ==> T::marker_model(#[trigger] self.models()[i])
                != T::marker_model(#[trigger] self.models()[j])
    }

    /// Where a request with marker `m` resumes in `ms`: right after the
    /// first item whose marker is `m`, or past the end when none carries it.
    pub open spec fn resume_from(ms: Seq<T::V>, m: Seq<char>) -> int
        decreases ms.len(),
    {
        if ms.len() == 0 {
            0
        } else if T::marker_model(ms[0]) == m {
            1
        } else {
            1 + Self::resume_from(ms.subrange(1, ms.len() as int), m)
        }
    }

    /// Where a request resumes, given its optional marker.
    pub open spec fn resume_pos(&self, marker: Option<Seq<char>>) -> int {
        match marker {
            Some(m) => Self::resume_from(self.models(), m),
            None => 0,
        }
    }

    /// The first item carrying the marker determines the resume position.
    proof fn lemma_resume_at(ms: Seq<T::V>, m: Seq<char>, i: int)
        requires
            0 <= i < ms.len(),
            T::marker_model(ms[i]) == m,
            forall|j: int| 0 <= j < i ==> T::marker_model(#[trigger] ms[j]) != m,
        ensures
            Self::resume_from(ms, m) == i + 1,
        decreases i,
    {
        if i > 0 {
            let tail = ms.subrange(1, ms.len() as int);
            assert(T::marker_model(ms[0]) != m);
            assert(tail[i - 1] == ms[i]);
            assert(forall|j: int| 0 <= j < i - 1 ==> #[trigger] tail[j] == ms[j + 1]);
            Self::lemma_resume_at(tail, m, i - 1);
        }
    }

    /// A marker that no item carries resumes past the end.
    proof fn lemma_resume_missing(ms: Seq<T::V>, m: Seq<char>)
        requires
            forall|j: int| 0 <= j < ms.len() ==> T::marker_model(#[trigger] ms[j]) != m,
        ensures
            Self::resume_from(ms, m) == ms.len(),
        decreases ms.len(),
    {
        if ms.len() != 0 {
            let tail = ms.subrange(1, ms.len() as int);
            assert(forall|j: int| 0 <= j < tail.len() ==> #[trigger] tail[j] == ms[j + 1]);
            Self::lemma_resume_missing(tail, m);
        }
    }

    /// In a well-formed listing the marker of item `k` resumes at `k + 1`.
    proof fn lemma_resume_of_item(&self, k: int)
        requires
            self.wf(),
            0 <= k < self.models().len(),
        ensures
            Self::resume_from(self.models(), T::marker_model(self.models()[k])) == k + 1,
    {
        let ms = self.models();
        let m = T::marker_model(ms[k]);
        assert forall|j: int| 0 <= j < k implies T::marker_model(#[trigger] ms[j]) != m by {
            assert(T::marker_model(ms[j]) != T::marker_model(ms[k]));
        }
        Self::lemma_resume_at(ms, m, k);
    }

    /// Wrap the given items, in server order.
    pub fn new(items: Vec<T>) -> (l: Listing<T>)
        ensures
            l.models() == models(items@),
    {
        Listing { items }
    }

    /// The items, in server order.
    pub fn all_items(&self) -> (r: &Vec<T>)
        ensures
            models(r@) == self.models(),
    {
        &self.items
    }

    /// How many items the listing holds.
    pub fn len(&self) -> (n: usize)
        ensures
            n == self.models().len(),
    {
        self.items.len()
    }

    /// The position right after the first item whose marker is `m`, or the
    /// length when no item carries it.
    fn resume_index(&self, m: &String) -> (pos: usize)
        ensures
            pos as int == Self::resume_from(self.models(), m@),
            pos <= self.models().len(),
    {
        let n = self.items.len();
        let mut i: usize = 0;
        while i < n
            invariant
                i <= n,
                n == self.models().len(),
                forall|j: int|
                    0 <= j < i ==> T::marker_model(#[trigger] self.models()[j]) != m@,
            decreases n - i,
        {
            if self.items[i].marker_field() == *m {
                proof {
                    assert(self.models()[i as int] == self.items@[i as int]@);
                    Self::lemma_resume_at(self.models(), m@, i as int);
                }
                return i + 1;
            }
            proof {
                assert(self.models()[i as int] == self.items@[i as int]@);
            }
            i += 1;
        }
        proof {
            Self::lemma_resume_missing(self.models(), m@);
        }
        n
    }

    /// Serve one page: up to `page_size` items starting at the position the
    /// marker resumes from.
    pub fn list_page(&self, marker: &Option<String>, page_size: usize) -> (page: Vec<T>)
        ensures
            ({
                let pos = self.resume_pos(crate::cursor::opt_view(*marker));
                let end = if pos + page_size <= self.models().len() {
                    pos + page_size
                } else {
                    self.models().len() as int
                };
                models(page@) == self.models().subrange(pos, end)
            }),
    {
        let pos: usize = match marker {
            Some(m) => self.resume_index(m),
            None => 0,
        };
        let n = self.items.len();
        let mut page: Vec<T> = Vec::new();
        let mut j = pos;
        proof {
            assert(models(page@) =~= self.models().subrange(pos as int, pos as int));
        }
        while j < n && page.len() < page_size
            invariant
                pos <= j <= n,
                n == self.models().len(),
                j - pos == page@.len(),
                page@.len() <= page_size,
                models(page@) == self.models().subrange(pos as int, j as int),
            decreases n - j,
        {
            let item = self.items[j].duplicate();
            page.push(item);
            proof {
                assert(self.models()[j as int] == self.items@[j as int]@);
                assert(models(page@) =~= self.models().subrange(pos as int, j as int + 1));
            }
            j += 1;
        }
        page
    }
}

/// The single page `fetch` sees: the first `page_size` items.
pub open spec fn first_page<M>(ms: Seq<M>, page_size: nat) -> Seq<M> {
    if ms.len() <= page_size {
        ms
    } else {
        ms.subrange(0, page_size as int)
    }
}

/// Drain a listing to completion through the cursor: every item in server
/// order, cut down to the cap when one is set.  Returns the items and how
/// many page requests were issued; a cap of zero issues none at all.
pub fn drain_listing<T: ListItem>(listing: &Listing<T>, limit: Option<usize>, page_size: usize)
    -> (r: (Vec<T>, usize))
    requires
        page_size >= 1,
        listing.wf(),
        listing.models().len() + page_size <= usize::MAX,
    ensures
        models(r.0@) == capped(listing.models(), limit),
        match limit {
            Some(n) => r.0@.len() <= n,
            None => true,
        },
        limit == Some(0usize) ==> r.1 == 0,
        r.1 * page_size <= listing.models().len() + page_size,
{
    let ghost ms = listing.models();
    let mut cursor = PaginationCursor::new(limit, page_size);
    let mut out: Vec<T> = Vec::new();
    let mut requests: usize = 0;
    let ghost mut pos: int = 0;
    proof {
        assert(models(out@) =~= ms.subrange(0, 0));
        if !cursor.wants_more() {
            assert(models(out@) =~= capped(ms, limit));
        }
    }
    loop
        invariant
            cursor.wf(),
            cursor.limit() == limit,
            cursor.page_size() == page_size,
            page_size >= 1,
            listing.wf(),
            ms == listing.models(),
            ms.len() + page_size <= usize::MAX,
            0 <= pos <= ms.len(),
            cursor.taken() == out@.len(),
            cursor.wants_more() ==> {
                &&& pos == out@.len()
                &&& models(out@) == ms.subrange(0, pos)
                &&& cursor.marker_model() == (if pos == 0 {
                    None::<Seq<char>>
                } else {
                    Some(T::marker_model(ms[pos - 1]))
                })
                &&& pos == requests * page_size
            },
            !cursor.wants_more() ==> models(out@) == capped(ms, limit),
            requests * page_size <= pos + page_size,
            limit == Some(0usize) ==> requests == 0,
        ensures
            !cursor.wants_more(),
        decreases ms.len() - pos + (if cursor.wants_more() {
            1int
        } else {
            0int
        }),
    {
        let step = cursor.next_step();
        match step {
            CursorStep::Finished => {
                break ;
            },
            CursorStep::Request { marker, page_size: ps } => {
                proof {
                    // the marker resumes exactly where we stopped
                    if pos != 0 {
                        listing.lemma_resume_of_item(pos - 1);
                    }
                    assert(listing.resume_pos(crate::cursor::opt_view(marker)) == pos);
                    assert(requests <= requests * page_size) by (nonlinear_arith)
                        requires
                            page_size >= 1,
                            requests >= 0,
                    ;
                    assert((requests + 1) * page_size == requests * page_size + page_size)
                        by (nonlinear_arith);
                }
                let page = listing.list_page(&marker, ps);
                let ghost end = if pos + page_size <= ms.len() {
                    pos + page_size
                } else {
                    ms.len() as int
                };
                requests = requests + 1;
                let ghost out0 = out@;
                let ghost page0 = page@;
                let ghost got = page@.len();
                let ghost keep = keep_of(limit, out0.len(), got);
                proof {
                    assert(models(page0).len() == page0.len());
                    assert(page0.len() == end - pos);
                    assert(keep <= got);
                }
                cursor.feed_page(page, &mut out);
                proof {
                    assert(models(out@) =~= models(out0) + models(page0).subrange(
                        0,
                        keep as int,
                    ));
                    assert(models(page0).subrange(0, keep as int) =~= ms.subrange(
                        pos,
                        pos + keep,
                    ));
                    assert(models(out@) =~= ms.subrange(0, pos + keep));
                    if got > 0 {
                        assert(T::marker_model(models(page0)[got - 1]) == T::marker_model(
                            ms[end - 1],
                        ));
                        if pos != 0 && Some(T::marker_model(ms[pos - 1])) == Some(
                            T::marker_model(ms[end - 1]),
                        ) {
                            // distinct markers: the marker cannot repeat
                            assert(T::marker_model(ms[pos - 1]) != T::marker_model(ms[end - 1]));
                        }
                        pos = end;
                    }
                    if !cursor.wants_more() {
                        assert(models(out@) =~= capped(ms, limit));
                    }
                }
            },
        }
    }
    proof {
        assert(models(out@) == capped(ms, limit));
    }
    (out, requests)
}

/// Issue exactly one page request and cut the result to the cap: the cheap
/// bounded variant.  The returned count may be less than the cap when the
/// cap exceeds one page; no second request is ever attempted.  A cap of
/// zero issues no request at all.
pub fn fetch_listing<T: ListItem>(listing: &Listing<T>, limit: Option<usize>, page_size: usize)
    -> (r: Vec<T>)
    requires
        page_size >= 1,
    ensures
        models(r@) == capped(first_page(listing.models(), page_size as nat), limit),
{
    if let Some(n) = limit {
        if n == 0 {
            let r: Vec<T> = Vec::new();
            proof {
                assert(models(r@) =~= capped(
                    first_page(listing.models(), page_size as nat),
                    limit,
                ));
            }
            return r;
        }
    }
    let mut page = listing.list_page(&None, page_size);
    if let Some(n) = limit {
        if page.len() > n {
            let ghost before = page@;
            page.truncate(n);
            proof {
                assert(models(page@) =~= models(before).subrange(0, n as int));
            }
        }
    }
    proof {
        let first = first_page(listing.models(), page_size as nat);
        assert(models(page@).len() == page@.len());
        match limit {
            Some(n) => {
                if first.len() <= n {
                    assert(models(page@) =~= first);
                } else {
                    assert(models(page@) =~= first.subrange(0, n as int));
                }
            },
            None => {
                assert(models(page@) =~= first);
            },
        }
        assert(models(page@) == capped(first, limit));
    }
    page
}

/// Bounded pagination: any request count with `requests * page_size` at
/// most `total + page_size` stays within one request of the page count,
/// so draining `total` items takes at most `⌈total / page_size⌉ + 1`
/// requests.
pub proof fn lemma_requests_within_page_count(requests: nat, page_size: nat, total: nat)
    requires
        page_size >= 1,
        requests * page_size <= total + page_size,
    ensures
        requests <= ((total + page_size - 1) as int) / (page_size as int) + 1,
{
    assert(requests <= (total + page_size) as int / (page_size as int)) by (nonlinear_arith)
        requires
            page_size >= 1,
            requests * page_size <= total + page_size,
    ;
    assert((total + page_size) as int / (page_size as int) <= ((total + page_size - 1) as int) / (
    page_size as int) + 1) by (nonlinear_arith)
        requires
            page_size >= 1,
    ;
}

/// The bounded variant agrees with exhaustion: over unchanged data and
/// configuration, what `fetch` returns is a prefix of what `all` returns.
pub proof fn lemma_fetch_prefix_of_all<M>(ms: Seq<M>, limit: Option<usize>, page_size: nat)
    ensures
        capped(first_page(ms, page_size), limit).is_prefix_of(capped(ms, limit)),
{
    let f = capped(first_page(ms, page_size), limit);
    let a = capped(ms, limit);
    assert(f.len() <= a.len());
    assert(f =~= a.subrange(0, f.len() as int));
}

} // verus!
