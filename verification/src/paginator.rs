//! Fetching a whole dataset page by page.
//!
//! The paginator decides; it performs no request itself. Its caller hands it
//! one event after the other, performs the action it answers with, and hands
//! back what came of it: the first page first, then the other pages in the
//! order in which their requests complete.

use crate::api::{OpenDataResponse, Record};
use crate::error::ClientError;
use crate::paging::{additional_requests, first_request, page_plan, PageRequest};
use vstd::prelude::*;

verus! {

/// How far a fetch has come.
#[derive(Debug, Clone, Copy, PartialEq, Eq, Structural)]
pub enum Phase {
    /// Nothing was asked for yet.
    Idle,
    /// The first page was asked for and is awaited.
    First,
    /// The pages after the first were asked for; some are still awaited.
    Rest,
    /// The fetch has ended, with a collection or with an error.
    Closed,
}

/// What happened outside the paginator.
pub enum Event<T> {
    /// The caller wants the fetch to begin.
    Start,
    /// A page request has completed, with a page or with an error.
    Page(Result<OpenDataResponse<T>, ClientError>),
}

/// What the caller of the paginator has to do next.
pub enum Action<T> {
    /// Issue these requests, all at once, and hand back each outcome as it
    /// comes.
    Fetch(Vec<PageRequest>),
    /// Nothing but to hand back the next outcome.
    Wait,
    /// The fetch has ended with this result.
    Finish(Result<Vec<T>, ClientError>),
    /// The event came too early or too late and changed nothing.
    Ignore,
}

/// The model of an [`Action`].
pub enum ActionModel<T> {
    Fetch(Seq<PageRequest>),
    Wait,
    Finish(Result<Seq<T>, ClientError>),
    Ignore,
}

impl<T> View for Action<T> {
    type V = ActionModel<T>;

    open spec fn view(&self) -> ActionModel<T> {
        match self {
            Action::Fetch(requests) => ActionModel::Fetch(requests@),
            Action::Wait => ActionModel::Wait,
            Action::Finish(Ok(items)) => ActionModel::Finish(Ok(items@)),
            Action::Finish(Err(e)) => ActionModel::Finish(Err(*e)),
            Action::Ignore => ActionModel::Ignore,
        }
    }
}

/// The model of a [`Paginator`].
pub struct PaginatorModel<T> {
    /// The size every request is made with.
    pub page_size: u32,
    /// How far the fetch has come.
    pub phase: Phase,
    /// The number of pages that are still awaited.
    pub pending: nat,
    /// The items of the pages that came so far, in order of arrival.
    pub merged: Seq<T>,
}

impl<T> PaginatorModel<T> {
    /// The paginator before its fetch begins.
    pub open spec fn initial(page_size: u32) -> Self {
        PaginatorModel { page_size, phase: Phase::Idle, pending: 0, merged: Seq::empty() }
    }

    /// The paginator after its fetch has ended.
    pub open spec fn closed(self) -> Self {
        PaginatorModel { page_size: self.page_size, phase: Phase::Closed, pending: 0, merged: Seq::empty() }
    }

    /// The state that follows `self` on `event`, and the action that the
    /// caller is to perform.
    ///
    /// - Before anything was asked for, `Start` asks for the first page.
    /// - The first page, if it failed, ends the fetch with its own error. If
    ///   it came and no page is to follow it, the fetch ends with its items.
    ///   Otherwise the pages of the plan are asked for, all at once.
    /// - Each further page that comes is merged behind those that came
    ///   before it; the last one ends the fetch with all items. A further
    ///   page that failed ends the fetch with `APIError`, whatever has come
    ///   and whatever is still awaited.
    /// - Every other event is ignored.
    pub open spec fn next(self, event: Event<T>) -> (Self, ActionModel<T>) {
        match (self.phase, event) {
            (Phase::Idle, Event::Start) => (
                PaginatorModel { phase: Phase::First, ..self },
                ActionModel::Fetch(seq![first_request(self.page_size as int)]),
            ),
            (Phase::First, Event::Page(Err(e))) => (self.closed(), ActionModel::Finish(Err(e))),
            (Phase::First, Event::Page(Ok(page))) => {
                let plan = page_plan(
                    page.pagination.total as int,
                    page.records@.len() as int,
                    self.page_size as int,
                );
                if plan.len() == 0 {
                    (self.closed(), ActionModel::Finish(Ok(page.payloads())))
                } else {
                    (
                        PaginatorModel {
                            page_size: self.page_size,
                            phase: Phase::Rest,
                            pending: plan.len(),
                            merged: page.payloads(),
                        },
                        ActionModel::Fetch(plan),
                    )
                }
            },
            (Phase::Rest, Event::Page(Err(_))) => (
                self.closed(),
                ActionModel::Finish(Err(ClientError::APIError)),
            ),
            (Phase::Rest, Event::Page(Ok(page))) => {
                let merged = self.merged + page.payloads();
                if self.pending <= 1 {
                    (self.closed(), ActionModel::Finish(Ok(merged)))
                } else {
                    (
                        PaginatorModel {
                            page_size: self.page_size,
                            phase: Phase::Rest,
                            pending: (self.pending - 1) as nat,
                            merged,
                        },
                        ActionModel::Wait,
                    )
                }
            },
            _ => (self, ActionModel::Ignore),
        }
    }
}

/// One fetch of a whole dataset, from its first request to its result.
pub struct Paginator<T> {
    page_size: u32,
    phase: Phase,
    pending: usize,
    merged: Vec<T>,
}

impl<T> View for Paginator<T> {
    type V = PaginatorModel<T>;

    closed spec fn view(&self) -> PaginatorModel<T> {
        PaginatorModel {
            page_size: self.page_size,
            phase: self.phase,
            pending: self.pending as nat,
            merged: self.merged@,
        }
    }
}

/// Moves the items of a page to the end of `merged`, in order and without
/// their identifiers.
fn merge_page<T>(merged: &mut Vec<T>, page: OpenDataResponse<T>)
    ensures
        final(merged)@ == old(merged)@ + page.payloads(),
{
    let ghost before = merged@;
    let ghost all = page.payloads();
    let records = page.records;
    for record in it: records.into_iter()
        invariant
            it.seq() == records@,
            all == records@.map_values(|r: Record<T>| r.inner),
            merged@ == before + all.take(it.index() as int),
    {
        merged.push(record.inner);
        assert(all.take(it.index() + 1) =~= all.take(it.index() as int).push(all[it.index() as int]));
    }
    assert(all.take(all.len() as int) =~= all);
}

impl<T> Paginator<T> {
    #[verifier::type_invariant]
    spec fn well_formed(self) -> bool {
        &&& self.page_size > 0
        &&& self.phase == Phase::Rest ==> self.pending > 0
        &&& self.phase != Phase::Rest ==> self.pending == 0 && self.merged@.len() == 0
    }

    /// A paginator that asks for `page_size` records with each request.
    pub fn new(page_size: u32) -> (paginator: Self)
        requires
            page_size > 0,
        ensures
            paginator@ == PaginatorModel::<T>::initial(page_size),
    {
        Paginator { page_size, phase: Phase::Idle, pending: 0, merged: Vec::new() }
    }

    /// How far the fetch has come.
    pub fn phase(&self) -> (phase: Phase)
        ensures
            phase == self@.phase,
    {
        self.phase
    }

    /// Takes one event and answers with the state that follows and the
    /// action to perform.
    pub fn step(self, event: Event<T>) -> (out: (Paginator<T>, Action<T>))
        ensures
            out.0@ == self@.next(event).0,
            out.1@ == self@.next(event).1,
    {
        proof {
            use_type_invariant(&self);
        }
        let Paginator { page_size, phase, pending, merged } = self;
        match (phase, event) {
            (Phase::Idle, Event::Start) => {
                let mut requests: Vec<PageRequest> = Vec::new();
                requests.push(PageRequest { offset: 0, size: page_size });
                assert(requests@ =~= seq![first_request(page_size as int)]);
                (Paginator { page_size, phase: Phase::First, pending, merged }, Action::Fetch(requests))
            },
            (Phase::First, Event::Page(Err(e))) => {
                assert(merged@ =~= Seq::<T>::empty());
                (Paginator { page_size, phase: Phase::Closed, pending: 0, merged }, Action::Finish(Err(e)))
            },
            (Phase::First, Event::Page(Ok(page))) => {
                let plan = additional_requests(page.pagination.total, page.records.len(), page_size);
                let mut items: Vec<T> = merged;
                merge_page(&mut items, page);
                assert(items@ =~= page.payloads());
                if plan.len() == 0 {
                    (
                        Paginator { page_size, phase: Phase::Closed, pending: 0, merged: Vec::new() },
                        Action::Finish(Ok(items)),
                    )
                } else {
                    let awaited = plan.len();
                    (
                        Paginator { page_size, phase: Phase::Rest, pending: awaited, merged: items },
                        Action::Fetch(plan),
                    )
                }
            },
            (Phase::Rest, Event::Page(Err(_))) => (
                Paginator { page_size, phase: Phase::Closed, pending: 0, merged: Vec::new() },
                Action::Finish(Err(ClientError::APIError)),
            ),
            (Phase::Rest, Event::Page(Ok(page))) => {
                let mut items: Vec<T> = merged;
                merge_page(&mut items, page);
                if pending <= 1 {
                    (
                        Paginator { page_size, phase: Phase::Closed, pending: 0, merged: Vec::new() },
                        Action::Finish(Ok(items)),
                    )
                } else {
                    (
                        Paginator { page_size, phase: Phase::Rest, pending: pending - 1, merged: items },
                        Action::Wait,
                    )
                }
            },
            (phase, _) => (Paginator { page_size, phase, pending, merged }, Action::Ignore),
        }
    }
}

} // verus!
