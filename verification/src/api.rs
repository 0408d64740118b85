//! The remote API's shapes and the client's decisions: request URLs,
//! the success-or-error response, pagination, retry backoff, and the
//! one-time escalation to an authenticated request on a permission
//! error.  The network itself is driven by the surrounding program;
//! everything that decides is verified here.

use vstd::prelude::*;

use crate::textfmt::{dec_of, push_lit, push_u64};
use crate::types::{Board, Post};

verus! {

/// A structured error message returned by the remote API.
#[derive(Debug, Clone, PartialEq, Eq)]
pub struct GlowficError {
    pub message: String,
}

/// The mathematical model of an error message.
pub struct GlowficErrorV {
    pub message: Seq<char>,
}

impl View for GlowficError {
    type V = GlowficErrorV;

    open spec fn view(&self) -> GlowficErrorV {
        GlowficErrorV { message: self.message@ }
    }
}

pub open spec fn spec_is_permission_error(message: Seq<char>) -> bool {
    message == "You do not have permission to perform this action."@
}

pub open spec fn spec_is_auth_error(message: Seq<char>) -> bool {
    message == "Authorization token is not valid."@
}

impl GlowficError {
    /// The error message that signals "permission denied" and triggers
    /// the one-time escalation to an authenticated request.
    pub fn is_permission_error(&self) -> (r: bool)
        ensures
            r == spec_is_permission_error(self.message@),
    {
        self.message == String::from_str("You do not have permission to perform this action.")
    }

    /// The error message that signals an invalid authorization token.
    pub fn is_auth_error(&self) -> (r: bool)
        ensures
            r == spec_is_auth_error(self.message@),
    {
        self.message == String::from_str("Authorization token is not valid.")
    }
}

/// What a remote fetch decodes to: either the requested value or a
/// list of structured error messages.
pub enum GlowficResponse<T> {
    Value(T),
    Error { errors: Vec<GlowficError> },
}

pub open spec fn spec_response_result<T>(r: GlowficResponse<T>) -> Result<T, Vec<GlowficError>> {
    match r {
        GlowficResponse::Value(value) => Ok(value),
        GlowficResponse::Error { errors } => Err(errors),
    }
}

pub open spec fn spec_response_is_permission_error<T>(r: GlowficResponse<T>) -> bool {
    match r {
        GlowficResponse::Value(_) => false,
        GlowficResponse::Error { errors } => exists|i: int|
            0 <= i < errors@.len() && spec_is_permission_error(errors@[i].message@),
    }
}

impl<T> GlowficResponse<T> {
    /// Turns the two-variant response into a plain `Result`.
    pub fn to_result(self) -> (r: Result<T, Vec<GlowficError>>)
        ensures
            r == spec_response_result(self),
    {
        match self {
            GlowficResponse::Value(value) => Ok(value),
            GlowficResponse::Error { errors } => Err(errors),
        }
    }

    /// Whether any of the returned errors signals "permission denied".
    pub fn is_permission_error(&self) -> (r: bool)
        ensures
            r == spec_response_is_permission_error(*self),
    {
        match self {
            GlowficResponse::Value(_) => false,
            GlowficResponse::Error { errors } => {
                let n = errors.len();
                let mut i: usize = 0;
                while i < n
                    invariant
                        (*self) is Error,
                        (*self)->errors@ == errors@,
                        n == errors@.len(),
                        i <= n,
                        forall|m: int| 0 <= m < i ==> !spec_is_permission_error(
                            #[trigger] errors@[m].message@,
                        ),
                    decreases n - i,
                {
                    if errors[i].is_permission_error() {
                        proof {
                            let w = i as int;
                            assert((*self)->errors@ == errors@);
                            assert(0 <= w < (*self)->errors@.len() && spec_is_permission_error(
                                (*self)->errors@[w].message@,
                            ));
                            assert(spec_response_is_permission_error(*self));
                        }
                        return true;
                    }
                    i = i + 1;
                }
                false
            },
        }
    }
}

/// The full reply list of one post, as one unit of caching.
#[derive(Debug, Clone, PartialEq, Eq)]
pub struct Replies(pub Vec<crate::types::Reply>);

/// One page of a board's post index.
#[derive(Debug, Clone, PartialEq, Eq)]
pub struct BoardPosts {
    pub results: Vec<crate::types::PostInBoard>,
}

// ---------------------------------------------------------------------
// Request URLs.

pub open spec fn api_base() -> Seq<char> {
    "https://www.glowfic.com/api/v1"@
}

impl Board {
    /// The URL of a board's own record.
    pub fn url(id: u64) -> (r: String)
        ensures
            r@ == api_base() + "/boards/"@ + dec_of(id as nat),
    {
        let mut out = String::new();
        push_lit(&mut out, "https://www.glowfic.com/api/v1");
        push_lit(&mut out, "/boards/");
        push_u64(&mut out, id);
        assert(out@ =~= api_base() + "/boards/"@ + dec_of(id as nat));
        out
    }
}

impl Post {
    /// The URL of a post's full content.
    pub fn url(id: u64) -> (r: String)
        ensures
            r@ == api_base() + "/posts/"@ + dec_of(id as nat),
    {
        let mut out = String::new();
        push_lit(&mut out, "https://www.glowfic.com/api/v1");
        push_lit(&mut out, "/posts/");
        push_u64(&mut out, id);
        assert(out@ =~= api_base() + "/posts/"@ + dec_of(id as nat));
        out
    }
}

impl Replies {
    /// The URL of one page of a post's replies.
    pub fn page_url(id: u64, page: u64) -> (r: String)
        ensures
            r@ == api_base() + "/posts/"@ + dec_of(id as nat) + "/replies?page="@ + dec_of(
                page as nat,
            ),
    {
        let mut out = String::new();
        push_lit(&mut out, "https://www.glowfic.com/api/v1");
        push_lit(&mut out, "/posts/");
        push_u64(&mut out, id);
        push_lit(&mut out, "/replies?page=");
        push_u64(&mut out, page);
        assert(out@ =~= api_base() + "/posts/"@ + dec_of(id as nat) + "/replies?page="@ + dec_of(
            page as nat,
        ));
        out
    }
}

impl BoardPosts {
    /// The URL of one page of a board's post index.
    pub fn page_url(id: u64, page: u64) -> (r: String)
        ensures
            r@ == api_base() + "/boards/"@ + dec_of(id as nat) + "/posts?page="@ + dec_of(
                page as nat,
            ),
    {
        let mut out = String::new();
        push_lit(&mut out, "https://www.glowfic.com/api/v1");
        push_lit(&mut out, "/boards/");
        push_u64(&mut out, id);
        push_lit(&mut out, "/posts?page=");
        push_u64(&mut out, page);
        assert(out@ =~= api_base() + "/boards/"@ + dec_of(id as nat) + "/posts?page="@ + dec_of(
            page as nat,
        ));
        out
    }
}

// ---------------------------------------------------------------------
// Pagination.  Page 1, 2, 3, ... are requested in order; an empty page
// is the termination signal; prior pages are concatenated in request
// order; an error outcome on any page discards what was collected and
// becomes the overall result.

/// The concatenation of a sequence of pages, in order.
pub open spec fn concat_pages<T>(pages: Seq<Seq<T>>) -> Seq<T>
    decreases pages.len(),
{
    if pages.len() == 0 {
        Seq::empty()
    } else {
        pages[0] + concat_pages(pages.skip(1))
    }
}

/// The reference run of pagination over a fixed sequence of page
/// results: how many requests are issued and what is collected.
pub open spec fn spec_paginate<T>(pages: Seq<Seq<T>>) -> (nat, Seq<T>)
    decreases pages.len(),
{
    if pages.len() == 0 {
        (0, Seq::empty())
    } else if pages[0].len() == 0 {
        (1, Seq::empty())
    } else {
        let rec = spec_paginate(pages.skip(1));
        (rec.0 + 1, pages[0] + rec.1)
    }
}

proof fn lemma_concat_pages_snoc<T>(pages: Seq<Seq<T>>, page: Seq<T>)
    ensures
        concat_pages(pages.push(page)) == concat_pages(pages) + page,
    decreases pages.len(),
{
    if pages.len() == 0 {
        assert(pages.push(page)[0] == page);
        assert(pages.push(page).skip(1) =~= Seq::<Seq<T>>::empty());
        assert(concat_pages(pages.push(page)) == page + concat_pages(
            Seq::<Seq<T>>::empty(),
        ));
        assert(concat_pages(pages.push(page)) =~= concat_pages(pages) + page);
    } else {
        lemma_concat_pages_snoc(pages.skip(1), page);
        assert(pages.push(page)[0] == pages[0]);
        assert(pages.push(page).skip(1) =~= pages.skip(1).push(page));
        assert(concat_pages(pages.push(page)) =~= concat_pages(pages) + page);
    }
}

/// Pagination termination: given pages `1..N` non-empty and page `N+1`
/// empty, exactly `N+1` requests are issued and the result is the
/// concatenation of pages `1..N`, in order.
pub proof fn lemma_pagination_termination<T>(pages: Seq<Seq<T>>)
    requires
        pages.len() >= 1,
        forall|i: int| 0 <= i < pages.len() - 1 ==> (#[trigger] pages[i]).len() > 0,
        pages[pages.len() - 1].len() == 0,
    ensures
        spec_paginate(pages).0 == pages.len(),
        spec_paginate(pages).1 == concat_pages(pages.take(pages.len() - 1)),
    decreases pages.len(),
{
    if pages.len() == 1 {
        assert(pages.take(0) =~= Seq::<Seq<T>>::empty());
    } else {
        lemma_pagination_termination(pages.skip(1));
        assert(pages.skip(1).take(pages.skip(1).len() - 1) =~= pages.take(pages.len() - 1).skip(
            1,
        ));
        assert(pages.take(pages.len() - 1)[0] == pages[0]);
        assert(concat_pages(pages.take(pages.len() - 1)) == pages[0] + concat_pages(
            pages.take(pages.len() - 1).skip(1),
        ));
    }
}

/// The state of one paginated collection fetch.  The surrounding
/// program requests `current_page()`, and reports each page's outcome;
/// the collection, ordering, termination and error policy are decided
/// and verified here.
pub struct Paginator<T> {
    pub items: Vec<T>,
    pub next_page: u64,
    pub requests: u64,
    pub done: bool,
    pub failed: Option<Vec<GlowficError>>,
    /// The pages reported so far, for stating that the run follows
    /// the reference model.
    pub history: Ghost<Seq<Seq<T>>>,
}

/// The running state agrees with the reference model: while pages are
/// still being requested, every reported page was non-empty, the
/// counters track the history, and the items are its concatenation.
pub open spec fn paginator_inv<T>(p: Paginator<T>) -> bool {
    !p.done ==> {
        &&& p.requests == p.history@.len()
        &&& p.next_page == p.history@.len() + 1
        &&& forall|k: int| 0 <= k < p.history@.len() ==> (#[trigger] p.history@[k]).len() > 0
        &&& p.items@ == concat_pages(p.history@)
        &&& p.failed is None
    }
}

impl<T> Paginator<T> {
    pub fn new() -> (r: Paginator<T>)
        ensures
            r.items@ == Seq::<T>::empty(),
            r.next_page == 1,
            r.requests == 0,
            !r.done,
            r.failed is None,
            r.history@ == Seq::<Seq<T>>::empty(),
            paginator_inv(r),
    {
        let r = Paginator {
            items: Vec::new(),
            next_page: 1,
            requests: 0,
            done: false,
            failed: None,
            history: Ghost(Seq::empty()),
        };
        proof {
            assert(concat_pages(r.history@) =~= Seq::<T>::empty());
        }
        r
    }

    /// The page number to request next.
    pub fn current_page(&self) -> (r: u64)
        ensures
            r == self.next_page,
    {
        self.next_page
    }

    /// Records one successfully fetched page.  An empty page is the
    /// termination signal and collects nothing; a non-empty page is
    /// appended in request order.  A run that follows the invariant
    /// ends, on the empty page, in exactly the reference model's
    /// state: the request count and collected items of
    /// `spec_paginate` over the full page history.
    pub fn on_page(&mut self, mut page: Vec<T>)
        requires
            !old(self).done,
            old(self).requests < u64::MAX,
            old(self).next_page < u64::MAX,
        ensures
            final(self).requests == old(self).requests + 1,
            final(self).failed == old(self).failed,
            final(self).history@ == old(self).history@.push(page@),
            page@.len() == 0 ==> {
                &&& final(self).done
                &&& final(self).items == old(self).items
                &&& final(self).next_page == old(self).next_page
            },
            page@.len() > 0 ==> {
                &&& !final(self).done
                &&& final(self).items@ == old(self).items@ + page@
                &&& final(self).next_page == old(self).next_page + 1
            },
            paginator_inv(*old(self)) && page@.len() > 0 ==> paginator_inv(*final(self)),
            paginator_inv(*old(self)) && page@.len() == 0 ==> (
            final(self).requests as nat,
            final(self).items@,
            ) == spec_paginate(final(self).history@),
    {
        let ghost prev = *self;
        self.requests = self.requests + 1;
        proof {
            self.history@ = self.history@.push(page@);
        }
        if page.len() == 0 {
            self.done = true;
            proof {
                if paginator_inv(prev) {
                    let h = prev.history@;
                    assert(self.history@.take(self.history@.len() - 1) =~= h);
                    assert(self.history@[self.history@.len() - 1].len() == 0);
                    lemma_pagination_termination(self.history@);
                }
            }
        } else {
            self.items.append(&mut page);
            self.next_page = self.next_page + 1;
            proof {
                if paginator_inv(prev) {
                    lemma_concat_pages_snoc(prev.history@, self.history@.last());
                    assert(self.items@ =~= concat_pages(self.history@));
                }
            }
        }
    }

    /// Records an error outcome for the requested page: the error is
    /// the overall result and the pages fetched so far are discarded.
    pub fn on_errors(&mut self, errors: Vec<GlowficError>)
        requires
            !old(self).done,
            old(self).requests < u64::MAX,
        ensures
            final(self).done,
            final(self).requests == old(self).requests + 1,
            final(self).failed == Some(errors),
            final(self).items@ == Seq::<T>::empty(),
    {
        self.requests = self.requests + 1;
        self.done = true;
        self.failed = Some(errors);
        self.items = Vec::new();
    }

    /// The overall outcome, once the run has terminated.
    pub fn into_result(self) -> (r: Result<Vec<T>, Vec<GlowficError>>)
        requires
            self.done,
        ensures
            match self.failed {
                Some(errors) => r == Err::<Vec<T>, Vec<GlowficError>>(errors),
                None => r matches Ok(items) && items == self.items,
            },
    {
        match self.failed {
            Some(errors) => Err(errors),
            None => Ok(self.items),
        }
    }
}

// ---------------------------------------------------------------------
// Retries.  A transient transport failure is retried a bounded number
// of times; the delay between attempts doubles each time, saturating,
// so the schedule is monotone.

pub struct Retry {
    pub remaining: u64,
    pub delay_ms: u64,
}

impl Retry {
    /// A budget of `retries` further attempts after the first, with a
    /// first inter-attempt delay of `base_delay_ms` milliseconds.
    pub fn new(retries: u64, base_delay_ms: u64) -> (r: Retry)
        ensures
            r.remaining == retries,
            r.delay_ms == base_delay_ms,
    {
        Retry { remaining: retries, delay_ms: base_delay_ms }
    }

    /// Called after a failed attempt: `Some(delay)` allows one more
    /// attempt after `delay` milliseconds, `None` gives up and the
    /// failure is surfaced to the caller.
    pub fn on_failure(&mut self) -> (r: Option<u64>)
        ensures
            old(self).remaining == 0 ==> r is None && *final(self) == *old(self),
            old(self).remaining > 0 ==> {
                &&& r == Some(old(self).delay_ms)
                &&& final(self).remaining == old(self).remaining - 1
                &&& final(self).delay_ms == if old(self).delay_ms <= u64::MAX / 2 {
                    2 * old(self).delay_ms
                } else {
                    u64::MAX as int
                }
            },
    {
        if self.remaining == 0 {
            None
        } else {
            let d = self.delay_ms;
            self.remaining = self.remaining - 1;
            self.delay_ms = if d <= u64::MAX / 2 {
                2 * d
            } else {
                u64::MAX
            };
            Some(d)
        }
    }
}

// ---------------------------------------------------------------------
// Auth escalation.  A decoded "permission denied" outcome, when no
// credential is held yet, earns exactly one escalation: the same
// request is retried once with a bearer credential.  Any other
// outcome, or a held credential, settles the fetch immediately.

pub enum FetchStep<T> {
    /// The fetch is settled with this outcome.
    Done(Result<T, Vec<GlowficError>>),
    /// A credential should be obtained and the same request retried
    /// once with it; the undecoded first response is handed back for
    /// the case where no credential can be obtained.
    Escalate(GlowficResponse<T>),
}

/// Decides what follows the first decoded response of a fetch.
pub fn fetch_decision<T>(parsed: GlowficResponse<T>, has_token: bool) -> (r: FetchStep<T>)
    ensures
        (spec_response_is_permission_error(parsed) && !has_token) ==> r == FetchStep::Escalate(
            parsed,
        ),
        !(spec_response_is_permission_error(parsed) && !has_token) ==> r == FetchStep::Done(
            spec_response_result(parsed),
        ),
{
    if parsed.is_permission_error() && !has_token {
        FetchStep::Escalate(parsed)
    } else {
        FetchStep::Done(parsed.to_result())
    }
}

/// Settles an escalated fetch: if a credential was obtained and the
/// authenticated retry decoded to `second`, that outcome wins; if no
/// credential could be obtained, the original response stands.
pub fn resolve_escalation<T>(first: GlowficResponse<T>, second: Option<GlowficResponse<T>>) -> (r:
    Result<T, Vec<GlowficError>>)
    ensures
        second matches Some(p) ==> r == spec_response_result(p),
        second is None ==> r == spec_response_result(first),
{
    match second {
        Some(p) => p.to_result(),
        None => first.to_result(),
    }
}

} // verus!
