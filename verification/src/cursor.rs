use vstd::prelude::*;

verus! {

/// A resource that can appear in a marker-paginated listing.
///
/// `marker_model` names, in the resource's model, the field that the service
/// uses as the continuation marker: the canonical identifier for most
/// resource families, the name for object-storage containers and objects,
/// which have no other identifier.
pub trait ListItem: View + Sized {
    /// The marker field, read off the resource's model.
    spec fn marker_model(m: Self::V) -> Seq<char>;

    /// The marker of this item, as it would be sent back to the service.
    fn marker_field(&self) -> (s: String)
        ensures
            s@ == Self::marker_model(self@),
    ;

    /// An equal copy of the item: the model is preserved.
    fn duplicate(&self) -> (r: Self)
        ensures
            r@ == self@,
    ;
}

/// The models of a sequence of items.
pub open spec fn models<T: View>(s: Seq<T>) -> Seq<T::V> {
    s.map_values(|t: T| t@)
}

/// A sequence cut down to a result cap, when one is set.
pub open spec fn capped<M>(s: Seq<M>, limit: Option<usize>) -> Seq<M> {
    match limit {
        Some(n) => if s.len() <= n {
            s
        } else {
            s.subrange(0, n as int)
        },
        None => s,
    }
}

/// A marker model: the view of an optional continuation token.
pub open spec fn opt_view(m: Option<String>) -> Option<Seq<char>> {
    match m {
        Some(s) => Some(s@),
        None => None,
    }
}

/// How many items of a page of `got` items fit under the cap, with `taken`
/// items already consumed.
pub open spec fn keep_of(limit: Option<usize>, taken: nat, got: nat) -> nat {
    match limit {
        Some(n) => if taken + got <= n {
            got
        } else if taken <= n {
            (n - taken) as nat
        } else {
            0
        },
        None => got,
    }
}

/// What the cursor asks for next: one more page, or nothing.
pub enum CursorStep {
    /// Issue one page request: the continuation marker to send (none on the
    /// first request) and the page size to ask for.
    Request { marker: Option<String>, page_size: usize },
    /// Pagination is complete; no request may be issued.
    Finished,
}

/// Drives marker-chained pagination: repeated list requests, each resumed
/// from the marker derived from the previous page's last item, until the
/// service is exhausted or the result cap is met.
///
/// The cursor itself performs no request.  Its owner alternates
/// [`next_step`](PaginationCursor::next_step), which says what to ask the
/// service, with [`feed_page`](PaginationCursor::feed_page), which consumes
/// the decoded response.  Pages are therefore strictly sequential: the
/// request for page `k + 1` exists only once page `k` has been fed back.
pub struct PaginationCursor {
    marker: Option<String>,
    taken: usize,
    limit: Option<usize>,
    page_size: usize,
    exhausted: bool,
    auth_retried: bool,
}

impl PaginationCursor {
    /// The continuation marker the next request would carry.
    pub closed spec fn marker_model(&self) -> Option<Seq<char>> {
        opt_view(self.marker)
    }

    /// How many items have been handed to the accumulator so far.
    pub closed spec fn taken(&self) -> nat {
        self.taken as nat
    }

    /// The result cap, if one was configured.
    pub closed spec fn limit(&self) -> Option<usize> {
        self.limit
    }

    /// The page size sent with every request.
    pub closed spec fn page_size(&self) -> nat {
        self.page_size as nat
    }

    /// Whether a termination condition has been observed.
    pub closed spec fn is_exhausted(&self) -> bool {
        self.exhausted
    }

    /// Whether a credential failure has already been retried once.
    pub closed spec fn auth_retried(&self) -> bool {
        self.auth_retried
    }

    pub open spec fn wf(&self) -> bool {
        &&& self.page_size() >= 1
        &&& match self.limit() {
            Some(n) => self.taken() <= n,
            None => true,
        }
    }

    /// Whether one more request is still called for.
    pub open spec fn wants_more(&self) -> bool {
        &&& !self.is_exhausted()
        &&& match self.limit() {
            Some(n) => self.taken() < n,
            None => true,
        }
    }

    /// A fresh cursor: no marker, nothing consumed, nothing retried.
    pub fn new(limit: Option<usize>, page_size: usize) -> (c: PaginationCursor)
        requires
            page_size >= 1,
        ensures
            c.wf(),
            c.marker_model() is None,
            c.taken() == 0,
            c.limit() == limit,
            c.page_size() == page_size,
            !c.is_exhausted(),
            !c.auth_retried(),
    {
        PaginationCursor {
            marker: None,
            taken: 0,
            limit,
            page_size,
            exhausted: false,
            auth_retried: false,
        }
    }

    /// The next request to issue, or `Finished` once a termination condition
    /// holds or the cap is met.  A cap of zero yields `Finished` at once, so
    /// no request is ever issued for it.
    pub fn next_step(&self) -> (s: CursorStep)
        ensures
            self.wants_more() ==> (s matches CursorStep::Request { marker, page_size }
                && opt_view(marker) == self.marker_model() && page_size == self.page_size()),
            !self.wants_more() ==> s is Finished,
    {
        if self.exhausted {
            return CursorStep::Finished;
        }
        if let Some(n) = self.limit {
            if self.taken >= n {
                return CursorStep::Finished;
            }
        }
        let marker = match &self.marker {
            Some(m) => Some(m.clone()),
            None => None,
        };
        CursorStep::Request { marker, page_size: self.page_size }
    }

    /// The marker the next request would resume from, for inspection.
    pub fn current_marker(&self) -> (m: Option<&String>)
        ensures
            match m {
                Some(s) => self.marker_model() == Some(s@),
                None => self.marker_model() is None,
            },
    {
        match &self.marker {
            Some(s) => Some(s),
            None => None,
        }
    }

    /// How many items have been accumulated so far.
    pub fn items_taken(&self) -> (n: usize)
        ensures
            n == self.taken(),
    {
        self.taken
    }

    /// Whether pagination is over.
    pub fn finished(&self) -> (b: bool)
        ensures
            b == !self.wants_more(),
    {
        match self.next_step() {
            CursorStep::Finished => true,
            CursorStep::Request { .. } => false,
        }
    }

    /// Consume one decoded page, appending what the cap allows to `out`.
    ///
    /// An empty page means the service is exhausted.  Otherwise the page is
    /// cut down to the remaining budget; the next marker is computed from
    /// the last item of the page as received (not as cut); a marker that
    /// fails to advance stops pagination, as does a page shorter than the
    /// page size asked for.
    pub fn feed_page<T: ListItem>(&mut self, page: Vec<T>, out: &mut Vec<T>)
        requires
            old(self).wf(),
            old(self).wants_more(),
            old(self).taken() + page@.len() <= usize::MAX,
        ensures
            final(self).wf(),
            final(self).limit() == old(self).limit(),
            final(self).page_size() == old(self).page_size(),
            final(self).auth_retried() == old(self).auth_retried(),
            ({
                let got = page@.len();
                let keep = keep_of(old(self).limit(), old(self).taken(), got);
                &&& final(out)@ == old(out)@ + page@.subrange(0, keep as int)
                &&& final(self).taken() == old(self).taken() + keep
                &&& final(self).marker_model() == (if got == 0 {
                    old(self).marker_model()
                } else {
                    Some(T::marker_model(page@[got - 1]@))
                })
                &&& final(self).is_exhausted() == (got == 0 || keep < got || got
                    < old(self).page_size() || old(self).marker_model() == Some(
                    T::marker_model(page@[got - 1]@),
                ))
            }),
    {
        let mut page = page;
        let ghost page0 = page@;
        let got = page.len();
        if got == 0 {
            self.exhausted = true;
            proof {
                assert(out@ =~= out@ + page0.subrange(0, 0));
            }
            return ;
        }
        let last_marker = page[got - 1].marker_field();
        let keep: usize = match self.limit {
            Some(n) => {
                let left = n - self.taken;
                if got <= left {
                    got
                } else {
                    left
                }
            },
            None => got,
        };
        if keep < got {
            self.exhausted = true;
        }
        if got < self.page_size {
            self.exhausted = true;
        }
        let repeated = match &self.marker {
            Some(m) => *m == last_marker,
            None => false,
        };
        if repeated {
            self.exhausted = true;
        }
        page.truncate(keep);
        self.taken = self.taken + keep;
        proof {
            assert(page@ =~= page0.subrange(0, keep as int));
        }
        out.append(&mut page);
        self.marker = Some(last_marker);
    }

    /// Stop pagination before the next request: what a caller-supplied
    /// deadline does when it passes between pages.  Everything accumulated
    /// so far is kept — the caller reports the partial result together with
    /// its failure rather than discarding it.
    pub fn stop(&mut self)
        ensures
            final(self).is_exhausted(),
            !final(self).wants_more(),
            final(self).marker_model() == old(self).marker_model(),
            final(self).taken() == old(self).taken(),
            final(self).limit() == old(self).limit(),
            final(self).page_size() == old(self).page_size(),
            final(self).auth_retried() == old(self).auth_retried(),
    {
        self.exhausted = true;
    }

    /// Note a credential failure on the current page request.  The first
    /// failure earns exactly one retry of the same request after
    /// re-authentication — the marker and everything consumed so far are
    /// kept, so pagination resumes at the current page rather than
    /// restarting.  A second failure is final.
    pub fn note_auth_failure(&mut self) -> (retry: bool)
        ensures
            retry == !old(self).auth_retried(),
            final(self).auth_retried(),
            final(self).marker_model() == old(self).marker_model(),
            final(self).taken() == old(self).taken(),
            final(self).limit() == old(self).limit(),
            final(self).page_size() == old(self).page_size(),
            final(self).is_exhausted() == old(self).is_exhausted(),
    {
        let retry = !self.auth_retried;
        self.auth_retried = true;
        retry
    }
}

} // verus!
