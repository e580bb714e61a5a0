use vstd::prelude::*;
use crate::cursor::{capped, models};
use crate::pages::{drain_listing, fetch_listing, first_page, Listing};
use crate::query::{wire_set, Query};
use crate::sort::{sort_containers, sorted_under, ContainerSortKey, SortDirection};
use crate::storage::{Container, Object};

verus! {

/// A builder over the container listing: filter setters, an optional
/// multi-key sort, an optional result cap, and two terminal operations that
/// consume the builder — `all_from`, which drains pagination, and
/// `fetch_from`, the cheap single-page variant.
///
/// The object-storage service has no server-side sort (it always lists by
/// name), so every configured sort key is applied client-side after full
/// retrieval, never sent on the wire.
pub struct ContainerQuery {
    query: Query,
    sort: Vec<(ContainerSortKey, SortDirection)>,
    limit: Option<usize>,
}

impl ContainerQuery {
    /// The filters that go on the wire, in order.
    pub closed spec fn filters(&self) -> Seq<(Seq<char>, Seq<char>)> {
        self.query.wire()
    }

    /// Filter keys are pairwise distinct.
    pub closed spec fn wf(&self) -> bool {
        self.query.wf()
    }

    /// The configured sort, primary key first, later entries breaking ties.
    pub closed spec fn sort_model(&self) -> Seq<(ContainerSortKey, SortDirection)> {
        self.sort@
    }

    /// The configured result cap.
    pub closed spec fn limit_model(&self) -> Option<usize> {
        self.limit
    }

    /// A fresh query.  The `format=json` parameter is always forced, since
    /// the listing endpoint supports more than one encoding; nothing else is
    /// filtered, no sort is set, and no cap.
    pub fn new() -> (q: ContainerQuery)
        ensures
            q.wf(),
            q.filters().len() == 1,
            q.filters()[0] == ("format"@, "json"@),
            q.sort_model().len() == 0,
            q.limit_model() is None,
    {
        let mut query = Query::new();
        query.set("format".to_owned(), "json".to_owned());
        ContainerQuery { query, sort: Vec::new(), limit: None }
    }

    /// Filter by name prefix: exactly one wire parameter, `prefix`; setting
    /// it again overwrites the first value.
    pub fn with_name_prefix(&mut self, prefix: String)
        requires
            old(self).wf(),
        ensures
            final(self).wf(),
            wire_set(old(self).filters(), "prefix"@, prefix@, final(self).filters()),
            final(self).sort_model() == old(self).sort_model(),
            final(self).limit_model() == old(self).limit_model(),
    {
        self.query.set("prefix".to_owned(), prefix);
    }

    /// Append one sort key; the order of calls defines tie-break precedence.
    pub fn sort_by(&mut self, key: ContainerSortKey, dir: SortDirection)
        ensures
            final(self).wf() == old(self).wf(),
            final(self).filters() == old(self).filters(),
            final(self).sort_model() == old(self).sort_model().push((key, dir)),
            final(self).limit_model() == old(self).limit_model(),
    {
        self.sort.push((key, dir));
    }

    /// Cap the total number of items a terminal operation returns.  A cap
    /// of zero is legal: the terminal operation then returns nothing and
    /// issues no request.
    pub fn with_limit(&mut self, n: usize)
        ensures
            final(self).wf() == old(self).wf(),
            final(self).filters() == old(self).filters(),
            final(self).sort_model() == old(self).sort_model(),
            final(self).limit_model() == Some(n),
    {
        self.limit = Some(n);
    }

    /// The configured cap, for a host driving a live service.
    pub fn limit(&self) -> (n: Option<usize>)
        ensures
            n == self.limit_model(),
    {
        self.limit
    }

    /// The configured sort keys, primary first.
    pub fn sort_keys(&self) -> (ks: &Vec<(ContainerSortKey, SortDirection)>)
        ensures
            ks@ == self.sort_model(),
    {
        &self.sort
    }

    /// The filters to attach to every request.
    pub fn wire(&self) -> (q: &Query)
        ensures
            q.wire() == self.filters(),
            q.wf() == self.wf(),
    {
        &self.query
    }

    /// Drain the listing to completion: every item in server order, cut to
    /// the cap, then reordered client-side when a sort is configured.  Also
    /// returns how many page requests were issued.
    pub fn all_from(self, listing: &Listing<Container>, page_size: usize) -> (r: (
        Vec<Container>,
        usize,
    ))
        requires
            page_size >= 1,
            listing.wf(),
            listing.models().len() + page_size <= usize::MAX,
        ensures
            self.sort_model().len() == 0 ==> models(r.0@) == capped(
                listing.models(),
                self.limit_model(),
            ),
            sorted_under(self.sort_model(), models(r.0@)),
            models(r.0@).to_multiset() == capped(
                listing.models(),
                self.limit_model(),
            ).to_multiset(),
            match self.limit_model() {
                Some(n) => r.0@.len() <= n,
                None => true,
            },
            self.limit_model() == Some(0usize) ==> r.1 == 0,
            r.1 * page_size <= listing.models().len() + page_size,
    {
        broadcast use vstd::seq_lib::group_to_multiset_ensures;

        let (items, requests) = drain_listing(listing, self.limit, page_size);
        if self.sort.is_empty() {
            return (items, requests);
        }
        let ghost before = items@;
        let sorted = sort_containers(&self.sort, items);
        proof {
            assert(models(sorted@).to_multiset().len() == models(sorted@).len());
            assert(models(before).to_multiset().len() == models(before).len());
        }
        (sorted, requests)
    }

    /// Issue exactly one page request and cut the result to the cap: the
    /// cheap bounded variant.  The count returned may be less than the cap
    /// when the cap exceeds one page; no second request is ever attempted,
    /// and no client-side sort is applied.
    pub fn fetch_from(self, listing: &Listing<Container>, page_size: usize) -> (r: Vec<Container>)
        requires
            page_size >= 1,
        ensures
            models(r@) == capped(first_page(listing.models(), page_size as nat), self.limit_model()),
    {
        fetch_listing(listing, self.limit, page_size)
    }
}

/// A builder over the object listing of one container.  Objects are always
/// listed by name by the service, so no sort is offered; the server order
/// is the name order.
pub struct ObjectQuery {
    container: String,
    query: Query,
    limit: Option<usize>,
}

impl ObjectQuery {
    /// The filters that go on the wire, in order.
    pub closed spec fn filters(&self) -> Seq<(Seq<char>, Seq<char>)> {
        self.query.wire()
    }

    /// Filter keys are pairwise distinct.
    pub closed spec fn wf(&self) -> bool {
        self.query.wf()
    }

    /// The container whose objects are listed.
    pub closed spec fn container_model(&self) -> Seq<char> {
        self.container@
    }

    /// The configured result cap.
    pub closed spec fn limit_model(&self) -> Option<usize> {
        self.limit
    }

    /// A fresh query against one container, with `format=json` forced.
    pub fn new(container: String) -> (q: ObjectQuery)
        ensures
            q.wf(),
            q.filters().len() == 1,
            q.filters()[0] == ("format"@, "json"@),
            q.container_model() == container@,
            q.limit_model() is None,
    {
        let mut query = Query::new();
        query.set("format".to_owned(), "json".to_owned());
        ObjectQuery { container, query, limit: None }
    }

    /// The container whose objects are listed.
    pub fn container_name(&self) -> (s: &String)
        ensures
            s@ == self.container_model(),
    {
        &self.container
    }

    /// Filter by name prefix: exactly one wire parameter, `prefix`.
    pub fn with_name_prefix(&mut self, prefix: String)
        requires
            old(self).wf(),
        ensures
            final(self).wf(),
            wire_set(old(self).filters(), "prefix"@, prefix@, final(self).filters()),
            final(self).container_model() == old(self).container_model(),
            final(self).limit_model() == old(self).limit_model(),
    {
        self.query.set("prefix".to_owned(), prefix);
    }

    /// Cap the total number of items a terminal operation returns.
    pub fn with_limit(&mut self, n: usize)
        ensures
            final(self).wf() == old(self).wf(),
            final(self).filters() == old(self).filters(),
            final(self).container_model() == old(self).container_model(),
            final(self).limit_model() == Some(n),
    {
        self.limit = Some(n);
    }

    /// The configured cap, for a host driving a live service.
    pub fn limit(&self) -> (n: Option<usize>)
        ensures
            n == self.limit_model(),
    {
        self.limit
    }

    /// The filters to attach to every request.
    pub fn wire(&self) -> (q: &Query)
        ensures
            q.wire() == self.filters(),
            q.wf() == self.wf(),
    {
        &self.query
    }

    /// Drain the listing to completion: every object in server order, cut
    /// to the cap.  Also returns how many page requests were issued.
    pub fn all_from(self, listing: &Listing<Object>, page_size: usize) -> (r: (Vec<Object>, usize))
        requires
            page_size >= 1,
            listing.wf(),
            listing.models().len() + page_size <= usize::MAX,
        ensures
            models(r.0@) == capped(listing.models(), self.limit_model()),
            match self.limit_model() {
                Some(n) => r.0@.len() <= n,
                None => true,
            },
            self.limit_model() == Some(0usize) ==> r.1 == 0,
            r.1 * page_size <= listing.models().len() + page_size,
    {
        drain_listing(listing, self.limit, page_size)
    }

    /// Issue exactly one page request and cut the result to the cap.
    pub fn fetch_from(self, listing: &Listing<Object>, page_size: usize) -> (r: Vec<Object>)
        requires
            page_size >= 1,
        ensures
            models(r@) == capped(first_page(listing.models(), page_size as nat), self.limit_model()),
    {
        fetch_listing(listing, self.limit, page_size)
    }
}

} // verus!
