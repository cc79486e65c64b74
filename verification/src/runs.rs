//! Whole fetches: what a paginator does with a sequence of events, and what
//! holds of every such run.

use crate::api::OpenDataResponse;
use crate::error::ClientError;
use crate::paginator::{ActionModel, Event, PaginatorModel, Phase};
use crate::paging::{all_requests, first_request, page_plan, PageRequest};
use vstd::multiset::Multiset;
use vstd::prelude::*;

verus! {

/// The outcome of one page request.
pub type Outcome<T> = Result<OpenDataResponse<T>, ClientError>;

/// The state a paginator is in after it took `events` one by one from
/// `start`, and the actions it answered with.
pub open spec fn run<T>(start: PaginatorModel<T>, events: Seq<Event<T>>) -> (
    PaginatorModel<T>,
    Seq<ActionModel<T>>,
)
    decreases events.len(),
{
    if events.len() == 0 {
        (start, Seq::empty())
    } else {
        let (state, actions) = run(start, events.drop_last());
        let (after, action) = state.next(events.last());
        (after, actions.push(action))
    }
}

/// The result that a run ended with: that of the first `Finish` among its
/// actions, or `None` while the fetch is under way.
pub open spec fn result_of<T>(actions: Seq<ActionModel<T>>) -> Option<Result<Seq<T>, ClientError>>
    decreases actions.len(),
{
    if actions.len() == 0 {
        None
    } else {
        match result_of(actions.drop_last()) {
            Some(result) => Some(result),
            None => match actions.last() {
                ActionModel::Finish(result) => Some(result),
                _ => None,
            },
        }
    }
}

/// The requests that a run issued, in order.
pub open spec fn requests_of<T>(actions: Seq<ActionModel<T>>) -> Seq<PageRequest>
    decreases actions.len(),
{
    if actions.len() == 0 {
        Seq::empty()
    } else {
        requests_of(actions.drop_last()) + match actions.last() {
            ActionModel::Fetch(requests) => requests,
            _ => Seq::empty(),
        }
    }
}

/// The events of a fetch whose first request ended as `first` and whose
/// further requests ended as `arrivals`, in the order of their completion.
pub open spec fn events_of<T>(first: Outcome<T>, arrivals: Seq<Outcome<T>>) -> Seq<Event<T>> {
    seq![Event::Start, Event::Page(first)] + arrivals.map_values(|o: Outcome<T>| Event::Page(o))
}

/// The items of `pages`, page after page.
pub open spec fn merged_payloads<T>(pages: Seq<OpenDataResponse<T>>) -> Seq<T>
    decreases pages.len(),
{
    if pages.len() == 0 {
        Seq::empty()
    } else {
        merged_payloads(pages.drop_last()) + pages.last().payloads()
    }
}

/// Whether one of `outcomes` is an error.
pub open spec fn any_failed<T>(outcomes: Seq<Outcome<T>>) -> bool {
    exists|j: int| 0 <= j < outcomes.len() && (#[trigger] outcomes[j]) is Err
}

/// The pages of `outcomes`; where an outcome is an error the page is left
/// open.
pub open spec fn pages_of<T>(outcomes: Seq<Outcome<T>>) -> Seq<OpenDataResponse<T>> {
    outcomes.map_values(
        |o: Outcome<T>|
            match o {
                Ok(page) => page,
                Err(_) => arbitrary(),
            },
    )
}

/// The number of pages that are asked for after `first`.
pub open spec fn awaited_after<T>(page_size: u32, first: OpenDataResponse<T>) -> nat {
    page_plan(first.pagination.total as int, first.records@.len() as int, page_size as int).len()
}

/// Those of `arrivals` that a fetch waits for: the first `awaited` of them.
pub open spec fn heeded<T>(arrivals: Seq<Outcome<T>>, awaited: nat) -> Seq<Outcome<T>> {
    if arrivals.len() <= awaited {
        arrivals
    } else {
        arrivals.take(awaited as int)
    }
}

/// What a fetch of a whole dataset returns, stated at once.
///
/// - An error of the first page is the result.
/// - Otherwise, of the outcomes that arrive, only as many are heeded as
///   pages were asked for after the first. An error among them makes
///   `APIError` the result, whatever else arrived.
/// - Without one, there is no result before all these pages have arrived;
///   then it is the items of the first page followed by those of the other
///   pages in the order of their arrival.
pub open spec fn fetch_all_result<T>(page_size: u32, first: Outcome<T>, arrivals: Seq<Outcome<T>>) -> Option<
    Result<Seq<T>, ClientError>,
> {
    match first {
        Err(e) => Some(Err(e)),
        Ok(page) => {
            let awaited = awaited_after(page_size, page);
            let seen = heeded(arrivals, awaited);
            if any_failed(seen) {
                Some(Err(ClientError::APIError))
            } else if seen.len() < awaited {
                None
            } else {
                Some(Ok(page.payloads() + merged_payloads(pages_of(seen))))
            }
        },
    }
}

/// The requests that a fetch issues: the first one, and after a first page
/// those of its plan.
pub open spec fn fetch_all_requests<T>(page_size: u32, first: Outcome<T>) -> Seq<PageRequest> {
    match first {
        Err(_) => seq![first_request(page_size as int)],
        Ok(page) => all_requests(
            page.pagination.total as int,
            page.records@.len() as int,
            page_size as int,
        ),
    }
}

/// The state of a fetch after its first page came and `arrivals` after it.
pub open spec fn state_after<T>(page_size: u32, first: Outcome<T>, arrivals: Seq<Outcome<T>>) -> PaginatorModel<T> {
    match first {
        Err(e) => PaginatorModel::initial(page_size).closed(),
        Ok(page) => {
            let awaited = awaited_after(page_size, page);
            let seen = heeded(arrivals, awaited);
            if any_failed(seen) || seen.len() >= awaited {
                PaginatorModel::initial(page_size).closed()
            } else {
                PaginatorModel {
                    page_size,
                    phase: Phase::Rest,
                    pending: (awaited - seen.len()) as nat,
                    merged: page.payloads() + merged_payloads(pages_of(seen)),
                }
            }
        },
    }
}

proof fn lemma_first_page<T>(page_size: u32, first: Outcome<T>)
    ensures
        ({
            let (state, actions) = run(
                PaginatorModel::initial(page_size),
                events_of(first, Seq::empty()),
            );
            &&& state == state_after(page_size, first, Seq::empty())
            &&& result_of(actions) == fetch_all_result(page_size, first, Seq::empty())
            &&& requests_of(actions) == fetch_all_requests(page_size, first)
        }),
{
    let start = PaginatorModel::<T>::initial(page_size);
    let events = events_of(first, Seq::empty());
    assert(events =~= seq![Event::Start, Event::Page(first)]);
    assert(events.drop_last() =~= seq![Event::Start]);
    assert(events.drop_last().drop_last() =~= Seq::empty());
    reveal_with_fuel(run, 3);
    reveal_with_fuel(result_of, 3);
    reveal_with_fuel(requests_of, 3);
    let (s1, a1) = start.next(Event::Start);
    let (s2, a2) = s1.next(Event::Page(first));
    let (state, actions) = run(start, events);
    assert(actions =~= seq![a1, a2]);
    assert(actions.drop_last() =~= seq![a1]);
    assert(actions.drop_last().drop_last() =~= Seq::empty());
    assert(state == s2);
    match first {
        Err(e) => {
            assert(requests_of(actions) =~= seq![first_request(page_size as int)]);
        },
        Ok(page) => {
            let awaited = awaited_after(page_size, page);
            let seen = heeded(Seq::<Outcome<T>>::empty(), awaited);
            assert(seen =~= Seq::empty());
            assert(!any_failed(seen));
            assert(pages_of(seen) =~= Seq::empty());
            assert(page.payloads() + merged_payloads(pages_of(seen)) =~= page.payloads());
            assert(requests_of(actions) =~= fetch_all_requests(page_size, first));
        },
    }
}

/// A paginator that takes the events of a fetch one by one ends where
/// [`fetch_all_result`] says: its run has that result, so far as there is
/// one yet, and it has issued the requests of [`fetch_all_requests`] and no
/// others. This holds of every first outcome and of every sequence of
/// further outcomes, whatever their number and order.
pub proof fn run_computes_fetch_all<T>(page_size: u32, first: Outcome<T>, arrivals: Seq<Outcome<T>>)
    ensures
        ({
            let (state, actions) = run(PaginatorModel::initial(page_size), events_of(first, arrivals));
            &&& state == state_after(page_size, first, arrivals)
            &&& result_of(actions) == fetch_all_result(page_size, first, arrivals)
            &&& requests_of(actions) == fetch_all_requests(page_size, first)
        }),
    decreases arrivals.len(),
{
    if arrivals.len() == 0 {
        assert(arrivals =~= Seq::empty());
        lemma_first_page(page_size, first);
    } else {
        let start = PaginatorModel::<T>::initial(page_size);
        let prev = arrivals.drop_last();
        let x = arrivals.last();
        run_computes_fetch_all(page_size, first, prev);
        let events = events_of(first, arrivals);
        assert(events.drop_last() =~= events_of(first, prev));
        assert(events.last() == Event::Page(x));
        let (before, actions_before) = run(start, events_of(first, prev));
        let (state, action) = before.next(Event::Page(x));
        let actions = actions_before.push(action);
        assert(run(start, events) == (state, actions));
        assert(actions.drop_last() =~= actions_before);
        assert(actions.last() == action);
        assert(!(action is Fetch));
        assert(requests_of(actions) =~= requests_of(actions_before));
        match first {
            Err(e) => {},
            Ok(page) => {
                let awaited = awaited_after(page_size, page);
                let seen_before = heeded(prev, awaited);
                let seen = heeded(arrivals, awaited);
                if prev.len() >= awaited {
                    assert(seen =~= seen_before);
                } else {
                    assert(seen_before == prev);
                    assert(seen == arrivals);
                    if any_failed(prev) {
                        let j = choose|j: int| 0 <= j < prev.len() && (#[trigger] prev[j]) is Err;
                        assert(arrivals[j] is Err);
                    } else {
                        match x {
                            Err(_) => {
                                assert(arrivals[arrivals.len() - 1] is Err);
                            },
                            Ok(p) => {
                                assert forall|j: int| 0 <= j < arrivals.len() implies !((
                                #[trigger] arrivals[j]) is Err) by {
                                    if j < prev.len() {
                                        assert(prev[j] == arrivals[j]);
                                    }
                                }
                                assert(pages_of(arrivals).drop_last() =~= pages_of(prev));
                                assert(pages_of(arrivals).last() == p);
                                assert(page.payloads() + merged_payloads(pages_of(arrivals)) =~= (
                                page.payloads() + merged_payloads(pages_of(prev))) + p.payloads());
                            },
                        }
                    }
                }
            },
        }
    }
}

/// The outcomes of requests that all succeeded, with the pages they brought.
pub open spec fn succeeded<T>(pages: Seq<OpenDataResponse<T>>) -> Seq<Outcome<T>> {
    pages.map_values(|page: OpenDataResponse<T>| Ok::<OpenDataResponse<T>, ClientError>(page))
}

/// A first page that delivers as many records as the server reports ends
/// the fetch: the paginator has then issued the first request and no other,
/// and the result is the items of that page, whatever is handed to it
/// afterwards.
pub proof fn single_page_needs_one_request<T>(
    page_size: u32,
    page: OpenDataResponse<T>,
    later: Seq<Outcome<T>>,
)
    requires
        page.pagination.total == page.records@.len(),
    ensures
        ({
            let (state, actions) = run(PaginatorModel::initial(page_size), events_of(Ok(page), later));
            &&& requests_of(actions) == seq![first_request(page_size as int)]
            &&& result_of(actions) == Some(Ok::<Seq<T>, ClientError>(page.payloads()))
            &&& state.phase == Phase::Closed
        }),
{
    run_computes_fetch_all(page_size, Ok(page), later);
    let plan = page_plan(page.pagination.total as int, page.records@.len() as int, page_size as int);
    assert(plan =~= Seq::empty());
    let seen = heeded(later, 0);
    assert(seen =~= Seq::empty());
    assert(pages_of(seen) =~= Seq::empty());
    assert(page.payloads() + merged_payloads(pages_of(seen)) =~= page.payloads());
    assert(seq![first_request(page_size as int)] + plan =~= seq![first_request(page_size as int)]);
}

/// A dataset that the server reports as empty, and of which the first page
/// holds no record, is fetched with the first request alone, and the result
/// is the empty collection.
pub proof fn empty_dataset_needs_one_request<T>(
    page_size: u32,
    page: OpenDataResponse<T>,
    later: Seq<Outcome<T>>,
)
    requires
        page.pagination.total == 0,
        page.records@.len() == 0,
    ensures
        ({
            let (state, actions) = run(PaginatorModel::initial(page_size), events_of(Ok(page), later));
            &&& requests_of(actions) == seq![first_request(page_size as int)]
            &&& result_of(actions) == Some(Ok::<Seq<T>, ClientError>(Seq::empty()))
        }),
{
    single_page_needs_one_request(page_size, page, later);
    assert(page.payloads() =~= Seq::empty());
}

/// If one of the pages that were asked for after the first fails, the fetch
/// fails with `APIError`: no collection is returned, whatever the other
/// requests brought and in whatever order they completed.
pub proof fn one_failure_fails_the_fetch<T>(
    page_size: u32,
    page: OpenDataResponse<T>,
    arrivals: Seq<Outcome<T>>,
)
    requires
        arrivals.len() == awaited_after(page_size, page),
        any_failed(arrivals),
    ensures
        result_of(run(PaginatorModel::initial(page_size), events_of(Ok(page), arrivals)).1) == Some(
            Err::<Seq<T>, ClientError>(ClientError::APIError),
        ),
{
    run_computes_fetch_all(page_size, Ok(page), arrivals);
}

/// A fetch returns a collection only after every page that was asked for
/// has arrived, and none of them as an error; the collection then holds the
/// items of the first page and of each of these pages, and nothing else.
pub proof fn collection_holds_every_page<T>(
    page_size: u32,
    page: OpenDataResponse<T>,
    arrivals: Seq<Outcome<T>>,
    items: Seq<T>,
)
    requires
        result_of(run(PaginatorModel::initial(page_size), events_of(Ok(page), arrivals)).1) == Some(
            Ok::<Seq<T>, ClientError>(items),
        ),
    ensures
        ({
            let awaited = awaited_after(page_size, page);
            &&& arrivals.len() >= awaited
            &&& forall|j: int| 0 <= j < awaited ==> (#[trigger] arrivals[j]) is Ok
            &&& items == page.payloads() + merged_payloads(pages_of(arrivals.take(awaited as int)))
        }),
{
    run_computes_fetch_all(page_size, Ok(page), arrivals);
    let awaited = awaited_after(page_size, page);
    let seen = heeded(arrivals, awaited);
    assert(seen =~= arrivals.take(awaited as int));
    assert forall|j: int| 0 <= j < awaited implies (#[trigger] arrivals[j]) is Ok by {
        assert(seen[j] == arrivals[j]);
    }
}

/// The items of `pages` as a collection without order.
pub open spec fn bag<T>(pages: Seq<OpenDataResponse<T>>) -> Multiset<T>
    decreases pages.len(),
{
    if pages.len() == 0 {
        Multiset::empty()
    } else {
        bag(pages.drop_last()).add(pages.last().payloads().to_multiset())
    }
}

proof fn lemma_merged_bag<T>(pages: Seq<OpenDataResponse<T>>)
    ensures
        merged_payloads(pages).to_multiset() == bag(pages),
    decreases pages.len(),
{
    if pages.len() == 0 {
        assert(merged_payloads(pages).to_multiset() =~= Multiset::empty()) by {
            merged_payloads(pages).to_multiset_ensures();
        }
    } else {
        lemma_merged_bag(pages.drop_last());
        vstd::seq_lib::lemma_multiset_commutative(
            merged_payloads(pages.drop_last()),
            pages.last().payloads(),
        );
    }
}

proof fn lemma_bag_without<T>(pages: Seq<OpenDataResponse<T>>, j: int)
    requires
        0 <= j < pages.len(),
    ensures
        bag(pages) == bag(pages.remove(j)).add(pages[j].payloads().to_multiset()),
    decreases pages.len(),
{
    if j == pages.len() - 1 {
        assert(pages.remove(j) =~= pages.drop_last());
    } else {
        lemma_bag_without(pages.drop_last(), j);
        assert(pages.remove(j).drop_last() =~= pages.drop_last().remove(j));
        assert(pages.remove(j).last() == pages.last());
        assert(bag(pages) =~= bag(pages.remove(j)).add(pages[j].payloads().to_multiset()));
    }
}

proof fn lemma_bag_of_rearranged<T>(one: Seq<OpenDataResponse<T>>, other: Seq<OpenDataResponse<T>>)
    requires
        one.to_multiset() == other.to_multiset(),
    ensures
        bag(one) == bag(other),
    decreases one.len(),
{
    one.to_multiset_ensures();
    other.to_multiset_ensures();
    if one.len() == 0 {
    } else {
        let x = one.last();
        assert(one.contains(x));
        assert(one.to_multiset().count(x) > 0);
        assert(other.to_multiset().count(x) > 0);
        assert(other.contains(x));
        let j = choose|j: int| 0 <= j < other.len() && other[j] == x;
        assert(one.drop_last() =~= one.remove(one.len() - 1));
        assert(one.drop_last().to_multiset() =~= other.remove(j).to_multiset());
        lemma_bag_of_rearranged(one.drop_last(), other.remove(j));
        lemma_bag_without(other, j);
    }
}

/// The order in which the pages arrive does not change what is fetched: two
/// fetches that get the same first page and the same further pages, in
/// whatever order each, return collections of the same items, each item as
/// often in the one as in the other.
pub proof fn arrival_order_keeps_the_items<T>(
    page_size: u32,
    page: OpenDataResponse<T>,
    one: Seq<OpenDataResponse<T>>,
    other: Seq<OpenDataResponse<T>>,
)
    requires
        one.len() == awaited_after(page_size, page),
        one.to_multiset() == other.to_multiset(),
    ensures
        ({
            let start = PaginatorModel::<T>::initial(page_size);
            let first = result_of(run(start, events_of(Ok(page), succeeded(one))).1);
            let second = result_of(run(start, events_of(Ok(page), succeeded(other))).1);
            &&& first matches Some(Ok(items)) && second matches Some(Ok(others))
                && items.to_multiset() == others.to_multiset()
        }),
{
    one.to_multiset_ensures();
    other.to_multiset_ensures();
    let awaited = awaited_after(page_size, page);
    run_computes_fetch_all(page_size, Ok(page), succeeded(one));
    run_computes_fetch_all(page_size, Ok(page), succeeded(other));
    assert(heeded(succeeded(one), awaited) == succeeded(one));
    assert(heeded(succeeded(other), awaited) == succeeded(other));
    assert(!any_failed(succeeded(one)));
    assert(!any_failed(succeeded(other)));
    assert(pages_of(succeeded(one)) =~= one);
    assert(pages_of(succeeded(other)) =~= other);
    lemma_merged_bag(one);
    lemma_merged_bag(other);
    lemma_bag_of_rearranged(one, other);
    vstd::seq_lib::lemma_multiset_commutative(page.payloads(), merged_payloads(one));
    vstd::seq_lib::lemma_multiset_commutative(page.payloads(), merged_payloads(other));
}

} // verus!
