//! Offset pagination: a cursor that asks a remote listing for one page at a
//! time and knows when the listing has ended.

use vstd::prelude::*;

verus! {

/// One page of a remote listing.
#[derive(Debug)]
pub struct ApiPage<T> {
    /// The position of the first item of this page in the whole listing.
    pub offset: u32,
    /// How many items the whole listing holds, as the service reports it.
    pub total: u32,
    /// The items of this page, in order.
    pub items: Vec<T>,
}

/// A page as a mathematical value.
pub struct PageView<T> {
    pub offset: u32,
    pub total: u32,
    pub items: Seq<T>,
}

impl<T> View for ApiPage<T> {
    type V = PageView<T>;

    open spec fn view(&self) -> PageView<T> {
        PageView { offset: self.offset, total: self.total, items: self.items@ }
    }
}

/// The view of what a fetch returned.
pub open spec fn fetched<T>(outcome: Option<ApiPage<T>>) -> Option<PageView<T>> {
    match outcome {
        Some(page) => Some(page@),
        None => None,
    }
}

/// The cursor over a paginated listing.
#[derive(Clone, Copy, Debug, PartialEq, Eq, Structural)]
pub struct Paginator {
    /// The nominal number of items per page.
    pub page_size: u32,
    /// How many items have been received so far: the offset to ask for next.
    pub offset: u32,
    /// Whether the listing has ended.
    pub finished: bool,
}

/// The cursor at the start of a listing.
pub open spec fn start(page_size: u32) -> Paginator {
    Paginator { page_size, offset: 0, finished: false }
}

/// The cursor after one fetch, and the items that the fetch yields.
///
/// The offset advances by the number of items received. The listing ends
/// when the fetch fails, when a page is empty, or when the offset reaches the
/// total that the page reports.
pub open spec fn after_fetch<T>(p: Paginator, outcome: Option<PageView<T>>) -> (
    Paginator,
    Seq<T>,
) {
    if p.finished {
        (p, Seq::empty())
    } else {
        match outcome {
            None => (Paginator { finished: true, ..p }, Seq::empty()),
            Some(page) => {
                let next = p.offset + page.items.len();
                if page.items.len() == 0 || next >= page.total {
                    (
                        Paginator {
                            offset: if next <= u32::MAX {
                                next as u32
                            } else {
                                u32::MAX
                            },
                            finished: true,
                            ..p
                        },
                        page.items,
                    )
                } else {
                    (Paginator { offset: next as u32, ..p }, page.items)
                }
            },
        }
    }
}

impl Paginator {
    /// A cursor at the start of a listing.
    pub fn new(page_size: u32) -> (p: Paginator)
        ensures
            p == start(page_size),
    {
        Paginator { page_size, offset: 0, finished: false }
    }

    /// The offset to fetch next, or `None` when the listing has ended.
    pub fn next_offset(&self) -> (offset: Option<u32>)
        ensures
            offset == if self.finished {
                None
            } else {
                Some(self.offset)
            },
    {
        if self.finished {
            None
        } else {
            Some(self.offset)
        }
    }

    /// Takes the page that was fetched at `next_offset` and hands out its
    /// items. Once the listing has ended a page is ignored.
    pub fn accept<T>(&mut self, page: ApiPage<T>) -> (items: Vec<T>)
        ensures
            (*final(self), items@) == after_fetch(*old(self), Some(page@)),
            !old(self).finished ==> items == page.items,
    {
        if self.finished {
            return Vec::new();
        }
        let count = page.items.len();
        let room: usize = (u32::MAX - self.offset) as usize;
        if count == 0 {
            self.finished = true;
        } else if count > room {
            self.offset = u32::MAX;
            self.finished = true;
        } else {
            let next: u32 = self.offset + count as u32;
            self.offset = next;
            if next >= page.total {
                self.finished = true;
            }
        }
        page.items
    }

    /// Takes note that the fetch at `next_offset` failed: the listing ends.
    pub fn fail(&mut self)
        ensures
            *final(self) == after_fetch::<()>(*old(self), None).0,
    {
        self.finished = true;
    }

    /// Goes back to the start of the listing.
    pub fn restart(&mut self)
        ensures
            *final(self) == start(old(self).page_size),
    {
        self.offset = 0;
        self.finished = false;
    }

    /// Fetches the next page with `fetch` and hands out its items, or
    /// `None` once the listing has ended. Nothing is fetched then.
    pub fn next_page<T, F>(&mut self, fetch: &F) -> (items: Option<Vec<T>>)
        where
            F: Fn(u32) -> Option<ApiPage<T>>,
        requires
            forall|offset: u32| fetch.requires((offset,)),
        ensures
            old(self).finished ==> items is None && *final(self) == *old(self),
            !old(self).finished ==> exists|outcome: Option<ApiPage<T>>|
                {
                    &&& fetch.ensures((old(self).offset,), outcome)
                    &&& *final(self) == (#[trigger] after_fetch(*old(self), fetched(outcome))).0
                    &&& items == match outcome {
                        Some(page) => Some(page.items),
                        None => None,
                    }
                },
    {
        if self.finished {
            return None;
        }
        match fetch(self.offset) {
            Some(page) => {
                let ghost outcome = Some(page);
                let items = self.accept(page);
                assert(*final(self) == after_fetch(*old(self), fetched(outcome)).0);
                Some(items)
            },
            None => {
                self.fail();
                assert(*final(self) == after_fetch(*old(self), fetched(None::<ApiPage<T>>)).0);
                None
            },
        }
    }
}

/// The cursor after a sequence of fetches, starting from `p`.
pub open spec fn cursor_after<T>(p: Paginator, outcomes: Seq<Option<PageView<T>>>) -> Paginator
    decreases outcomes.len(),
{
    if outcomes.len() == 0 {
        p
    } else {
        after_fetch(cursor_after(p, outcomes.drop_last()), outcomes.last()).0
    }
}

/// The items that a sequence of fetches yields, in order.
pub open spec fn gathered<T>(p: Paginator, outcomes: Seq<Option<PageView<T>>>) -> Seq<T>
    decreases outcomes.len(),
{
    if outcomes.len() == 0 {
        Seq::empty()
    } else {
        gathered(p, outcomes.drop_last()) + after_fetch(
            cursor_after(p, outcomes.drop_last()),
            outcomes.last(),
        ).1
    }
}

/// Whether `outcomes` is what `fetch` can have answered to a cursor that
/// starts at `p`: each outcome is a possible result of `fetch` at the offset
/// that the cursor asked for, and none was asked for after the end.
pub open spec fn answered_by<T, F: Fn(u32) -> Option<ApiPage<T>>>(
    fetch: &F,
    p: Paginator,
    outcomes: Seq<Option<PageView<T>>>,
) -> bool {
    forall|i: int|
        0 <= i < outcomes.len() ==> {
            let at = #[trigger] cursor_after(p, outcomes.take(i));
            &&& !at.finished
            &&& exists|answer: Option<ApiPage<T>>|
                fetch.ensures((at.offset,), answer) && #[trigger] fetched(answer) == outcomes[i]
        }
}

/// The first `limit` items of a listing, fetched page by page from the
/// start. No page is fetched once `limit` items are there or the listing has
/// ended.
pub fn first_items<T, F>(page_size: u32, fetch: &F, limit: usize) -> (items: Vec<T>)
    where
        F: Fn(u32) -> Option<ApiPage<T>>,
    requires
        forall|offset: u32| fetch.requires((offset,)),
    ensures
        exists|outcomes: Seq<Option<PageView<T>>>|
            #![trigger gathered(start(page_size), outcomes)]
            {
                let all = gathered(start(page_size), outcomes);
                &&& answered_by(fetch, start(page_size), outcomes)
                &&& items@ == if all.len() <= limit {
                    all
                } else {
                    all.take(limit as int)
                }
                &&& cursor_after(start(page_size), outcomes).finished || all.len() >= limit
                &&& outcomes.len() > 0 ==> gathered(start(page_size), outcomes.drop_last()).len()
                    < limit
            },
{
    let mut cursor = Paginator::new(page_size);
    let mut items: Vec<T> = Vec::new();
    let ghost mut log: Seq<Option<PageView<T>>> = Seq::empty();
    while !cursor.finished && items.len() < limit
        invariant
            forall|offset: u32| fetch.requires((offset,)),
            cursor.page_size == page_size,
            cursor == cursor_after(start(page_size), log),
            items@ == gathered(start(page_size), log),
            answered_by(fetch, start(page_size), log),
            log.len() > 0 ==> gathered(start(page_size), log.drop_last()).len() < limit,
        decreases
                if cursor.finished {
                    0
                } else {
                    u32::MAX - cursor.offset + 1
                },
    {
        let ghost old_log = log;
        let answer = fetch(cursor.offset);
        proof {
            log = old_log.push(fetched(answer));
            assert(log.drop_last() =~= old_log);
            assert forall|i: int| 0 <= i < log.len() implies {
                let at = #[trigger] cursor_after(start(page_size), log.take(i));
                &&& !at.finished
                &&& exists|a: Option<ApiPage<T>>|
                    fetch.ensures((at.offset,), a) && #[trigger] fetched(a) == log[i]
            } by {
                if i < old_log.len() {
                    assert(log.take(i) =~= old_log.take(i));
                    assert(log[i] == old_log[i]);
                } else {
                    assert(log.take(i) =~= old_log);
                    assert(fetched(answer) == log[i]);
                }
            }
        }
        match answer {
            Some(page) => {
                let mut fresh = cursor.accept(page);
                items.append(&mut fresh);
            },
            None => {
                cursor.fail();
                assert(items@ + Seq::<T>::empty() =~= items@);
            },
        }
    }
    if items.len() > limit {
        items.truncate(limit);
    }
    items
}

/// The offsets that a cursor starting at `p` asks of a service that answers
/// each offset in one way.
pub open spec fn offsets_from<T>(
    service: spec_fn(u32) -> Option<PageView<T>>,
    p: Paginator,
) -> Seq<u32>
    decreases
            if p.finished {
                0
            } else {
                u32::MAX - p.offset + 1
            },
{
    if p.finished {
        Seq::empty()
    } else {
        seq![p.offset] + offsets_from(service, after_fetch(p, service(p.offset)).0)
    }
}

/// The items that a cursor starting at `p` receives from such a service,
/// in order.
pub open spec fn items_from<T>(
    service: spec_fn(u32) -> Option<PageView<T>>,
    p: Paginator,
) -> Seq<T>
    decreases
            if p.finished {
                0
            } else {
                u32::MAX - p.offset + 1
            },
{
    if p.finished {
        Seq::empty()
    } else {
        after_fetch(p, service(p.offset)).1 + items_from(
            service,
            after_fetch(p, service(p.offset)).0,
        )
    }
}

/// Where `fetch` answers as a service does that answers each offset in
/// one way, the items gathered up to the end of the listing are the items
/// that the cursor receives from that service.
pub proof fn lemma_gathered_from_service<T, F: Fn(u32) -> Option<ApiPage<T>>>(
    fetch: &F,
    service: spec_fn(u32) -> Option<PageView<T>>,
    p: Paginator,
    outcomes: Seq<Option<PageView<T>>>,
)
    requires
        answered_by(fetch, p, outcomes),
        forall|offset: u32, answer: Option<ApiPage<T>>| #[trigger]
            fetch.ensures((offset,), answer) ==> fetched(answer) == service(offset),
        cursor_after(p, outcomes).finished,
    ensures
        gathered(p, outcomes) == items_from(service, p),
{
    lemma_gathered_prefix(fetch, service, p, outcomes, outcomes.len() as int);
    assert(outcomes.take(outcomes.len() as int) =~= outcomes);
    assert(gathered(p, outcomes) + Seq::<T>::empty() =~= gathered(p, outcomes));
}

proof fn lemma_gathered_prefix<T, F: Fn(u32) -> Option<ApiPage<T>>>(
    fetch: &F,
    service: spec_fn(u32) -> Option<PageView<T>>,
    p: Paginator,
    outcomes: Seq<Option<PageView<T>>>,
    k: int,
)
    requires
        answered_by(fetch, p, outcomes),
        forall|offset: u32, answer: Option<ApiPage<T>>| #[trigger]
            fetch.ensures((offset,), answer) ==> fetched(answer) == service(offset),
        0 <= k <= outcomes.len(),
    ensures
        items_from(service, p) == gathered(p, outcomes.take(k)) + items_from(
            service,
            cursor_after(p, outcomes.take(k)),
        ),
    decreases k,
{
    if k == 0 {
        assert(outcomes.take(0) =~= Seq::<Option<PageView<T>>>::empty());
        assert(Seq::<T>::empty() + items_from(service, p) =~= items_from(service, p));
    } else {
        lemma_gathered_prefix(fetch, service, p, outcomes, k - 1);
        let shorter = outcomes.take(k - 1);
        let at = cursor_after(p, shorter);
        assert(outcomes.take(k).drop_last() =~= shorter);
        assert(outcomes.take(k).last() == outcomes[k - 1]);
        assert(!at.finished);
        let answer = choose|answer: Option<ApiPage<T>>|
            fetch.ensures((at.offset,), answer) && #[trigger] fetched(answer) == outcomes[k - 1];
        assert(service(at.offset) == outcomes[k - 1]);
        let step = after_fetch(at, outcomes[k - 1]);
        assert(items_from(service, at) == step.1 + items_from(service, step.0));
        assert(gathered(p, outcomes.take(k)) == gathered(p, shorter) + step.1);
        assert(gathered(p, shorter) + (step.1 + items_from(service, step.0)) =~= (gathered(
            p,
            shorter,
        ) + step.1) + items_from(service, step.0));
    }
}

/// A listing whose first page is empty, or reports a total of zero, or
/// cannot be fetched, is asked exactly once, at offset zero, and yields
/// what that page held: nothing, where the page is empty.
pub proof fn lemma_empty_listing<T>(service: spec_fn(u32) -> Option<PageView<T>>, page_size: u32)
    requires
        match service(0) {
            Some(page) => page.items.len() == 0 || page.total == 0,
            None => true,
        },
    ensures
        offsets_from(service, start(page_size)) == seq![0u32],
        items_from(service, start(page_size)) == match service(0) {
            Some(page) => page.items,
            None => Seq::empty(),
        },
{
    let p = start(page_size);
    let next = after_fetch(p, service(0)).0;
    assert(next.finished);
    assert(offsets_from(service, next) =~= Seq::<u32>::empty());
    assert(items_from(service, next) =~= Seq::<T>::empty());
    assert(offsets_from(service, p) =~= seq![0u32]);
    assert(items_from(service, p) =~= after_fetch(p, service(0)).1);
}

/// A service that holds the items `all` and answers each offset with the
/// next `page_size` of them, or with as many as are left, and with the true
/// total.
pub open spec fn listing_service<T>(all: Seq<T>, page_size: u32) -> spec_fn(u32) -> Option<
    PageView<T>,
> {
    |offset: u32|
        {
            let from = if offset <= all.len() {
                offset as int
            } else {
                all.len() as int
            };
            let to = if offset + page_size <= all.len() {
                offset + page_size
            } else {
                all.len() as int
            };
            Some(PageView { offset, total: all.len() as u32, items: all.subrange(from, to) })
        }
}

/// Against a service that reports correct pages, the cursor asks at the
/// offsets `0, page_size, 2 * page_size, ...`, as many times as it takes to
/// cover the listing and at least once, and the items it receives are the
/// listing, in order.
pub proof fn lemma_listing_is_reassembled<T>(all: Seq<T>, page_size: u32)
    requires
        page_size >= 1,
        all.len() <= u32::MAX,
    ensures
        items_from(listing_service(all, page_size), start(page_size)) == all,
        ({
            let offsets = offsets_from(listing_service(all, page_size), start(page_size));
            &&& offsets.len() >= 1
            &&& forall|i: int| 0 <= i < offsets.len() ==> #[trigger] offsets[i] == i * page_size
            &&& all.len() <= offsets.len() * page_size
            &&& all.len() > 0 ==> (offsets.len() - 1) * page_size < all.len()
        }),
{
    lemma_reassembled_from(all, page_size, 0);
    assert(all.skip(0) =~= all);
    let offsets = offsets_from(listing_service(all, page_size), start(page_size));
    assert forall|i: int| 0 <= i < offsets.len() implies #[trigger] offsets[i] == i
        * page_size by {}
}

proof fn lemma_reassembled_from<T>(all: Seq<T>, page_size: u32, offset: u32)
    requires
        page_size >= 1,
        all.len() <= u32::MAX,
        offset < all.len() || (offset == 0 && all.len() == 0),
    ensures
        items_from(
            listing_service(all, page_size),
            Paginator { page_size, offset, finished: false },
        ) == all.skip(offset as int),
        ({
            let offsets = offsets_from(
                listing_service(all, page_size),
                Paginator { page_size, offset, finished: false },
            );
            &&& offsets.len() >= 1
            &&& forall|i: int|
                0 <= i < offsets.len() ==> #[trigger] offsets[i] == offset + i * page_size
            &&& all.len() <= offset + offsets.len() * page_size
            &&& all.len() > 0 ==> offset + (offsets.len() - 1) * page_size < all.len()
        }),
    decreases all.len() - offset,
{
    let service = listing_service(all, page_size);
    let p = Paginator { page_size, offset, finished: false };
    let step = after_fetch(p, service(offset));
    let rest_offsets = offsets_from(service, step.0);
    let offsets = offsets_from(service, p);
    assert(offsets =~= seq![offset] + rest_offsets);
    if offset + page_size >= all.len() {
        assert(step.0.finished);
        assert(rest_offsets =~= Seq::<u32>::empty());
        assert(items_from(service, step.0) =~= Seq::<T>::empty());
        assert(items_from(service, p) =~= all.skip(offset as int));
        assert(offsets.len() == 1);
        assert(offsets.len() * page_size == page_size) by (nonlinear_arith)
            requires
                offsets.len() == 1,
        ;
        assert((offsets.len() - 1) * page_size == 0) by (nonlinear_arith)
            requires
                offsets.len() == 1,
        ;
        assert forall|i: int| 0 <= i < offsets.len() implies #[trigger] offsets[i] == offset + i
            * page_size by {
            assert(i * page_size == 0) by (nonlinear_arith)
                requires
                    i == 0,
            ;
        }
    } else {
        let next = (offset + page_size) as u32;
        assert(step.0 == Paginator { page_size, offset: next, finished: false });
        lemma_reassembled_from(all, page_size, next);
        assert(items_from(service, p) =~= all.skip(offset as int));
        let n = rest_offsets.len() as int;
        assert(offsets.len() == n + 1);
        assert((n + 1) * page_size == n * page_size + page_size) by (nonlinear_arith);
        assert(n * page_size == (n - 1) * page_size + page_size) by (nonlinear_arith);
        assert forall|i: int| 0 <= i < offsets.len() implies #[trigger] offsets[i] == offset + i
            * page_size by {
            if i > 0 {
                assert(offsets[i] == rest_offsets[i - 1]);
                assert(i * page_size == (i - 1) * page_size + page_size) by (nonlinear_arith);
            } else {
                assert(i * page_size == 0) by (nonlinear_arith)
                    requires
                        i == 0,
                ;
            }
        }
    }
}

} // verus!
