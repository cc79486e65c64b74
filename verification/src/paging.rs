//! Page arithmetic: which page requests follow the first one.

use vstd::prelude::*;

verus! {

/// One page request: `size` records starting at record number `offset`.
#[derive(Clone, Copy, Debug, PartialEq, Eq, Structural)]
pub struct PageRequest {
    /// Number of the first record asked for.
    pub offset: u32,
    /// Number of records asked for.
    pub size: u32,
}

impl PageRequest {
    /// Whether record number `index` lies in the range this request asks for.
    pub open spec fn covers(self, index: int) -> bool {
        self.offset <= index < self.offset + self.size
    }
}

/// Whether some request of `requests` asks for record number `index`.
pub open spec fn asked_for(requests: Seq<PageRequest>, index: int) -> bool {
    exists|k: int| 0 <= k < requests.len() && (#[trigger] requests[k]).covers(index)
}

/// Whether no record number is asked for by two requests of `requests`.
pub open spec fn disjoint(requests: Seq<PageRequest>) -> bool {
    forall|k1: int, k2: int, i: int|
        0 <= k1 < requests.len() && 0 <= k2 < requests.len() && #[trigger] requests[k1].covers(i)
            && #[trigger] requests[k2].covers(i) ==> k1 == k2
}

/// The request that opens every fetch: the first `page_size` records.
pub open spec fn first_request(page_size: int) -> PageRequest {
    PageRequest { offset: 0, size: page_size as u32 }
}

/// How many pages are asked for after the first one.
///
/// `total` is the number of records the server reports, `returned` the number
/// of records the first page delivered. Nothing more is asked for when the
/// first page already delivered as many records as the server has, nor when
/// the first request reached the end of the data. Otherwise the records
/// behind the first request are cut into pages of `page_size`, with one more
/// page for a remainder.
pub open spec fn extra_page_count(total: int, returned: int, page_size: int) -> int {
    let rest = total - page_size;
    if total - returned <= 0 || rest <= 0 {
        0
    } else if rest % page_size == 0 {
        rest / page_size
    } else {
        rest / page_size + 1
    }
}

/// The `k`-th page after the first (counted from 0): it starts where the page
/// before it ends and asks for a full page, or for what is left of the data.
pub open spec fn extra_page(total: int, page_size: int, k: int) -> PageRequest {
    let offset = (k + 1) * page_size;
    let left = total - offset;
    PageRequest {
        offset: offset as u32,
        size: (if left < page_size { left } else { page_size }) as u32,
    }
}

/// The page requests that follow the first page, in order of offset.
pub open spec fn page_plan(total: int, returned: int, page_size: int) -> Seq<PageRequest> {
    Seq::new(
        extra_page_count(total, returned, page_size) as nat,
        |k: int| extra_page(total, page_size, k),
    )
}

/// Every request of a fetch: the first page, then the plan.
pub open spec fn all_requests(total: int, returned: int, page_size: int) -> Seq<PageRequest> {
    seq![first_request(page_size)] + page_plan(total, returned, page_size)
}

proof fn lemma_step(k: int, page_size: int)
    ensures
        (k + 1) * page_size == k * page_size + page_size,
{
    assert((k + 1) * page_size == k * page_size + page_size) by (nonlinear_arith);
}

/// A count `k` of pages with `(k - 1) * page_size < rest <= k * page_size`
/// is the quotient of `rest` by `page_size`, rounded up.
proof fn lemma_rounded_up(rest: int, page_size: int, k: int)
    requires
        page_size > 0,
        rest > 0,
        (k - 1) * page_size < rest <= k * page_size,
    ensures
        k == if rest % page_size == 0 {
            rest / page_size
        } else {
            rest / page_size + 1
        },
{
    let q = rest / page_size;
    let r = rest % page_size;
    assert(rest == page_size * q + r && 0 <= r < page_size) by (nonlinear_arith)
        requires
            page_size > 0,
            q == rest / page_size,
            r == rest % page_size,
    ;
    if r == 0 {
        assert(k == q) by (nonlinear_arith)
            requires
                page_size > 0,
                rest == page_size * q,
                (k - 1) * page_size < rest <= k * page_size,
        ;
    } else {
        assert(k == q + 1) by (nonlinear_arith)
            requires
                page_size > 0,
                rest == page_size * q + r,
                0 < r < page_size,
                (k - 1) * page_size < rest <= k * page_size,
        ;
    }
}

/// Bounds on the pages of a plan: the count rounds up, so the last page
/// starts inside the data and no page starts at or behind its end.
proof fn lemma_count_bounds(total: int, returned: int, page_size: int)
    requires
        page_size > 0,
    ensures
        ({
            let n = extra_page_count(total, returned, page_size);
            &&& 0 <= n
            &&& n > 0 ==> n * page_size < total <= (n + 1) * page_size
            &&& n > 0 <==> page_size < total && returned < total
        }),
{
    let n = extra_page_count(total, returned, page_size);
    let rest = total - page_size;
    if total - returned > 0 && rest > 0 {
        let q = rest / page_size;
        let r = rest % page_size;
        assert(rest == page_size * q + r && 0 <= r < page_size && q >= 0) by (nonlinear_arith)
            requires
                page_size > 0,
                rest > 0,
                q == rest / page_size,
                r == rest % page_size,
        ;
        assert(n * page_size < total <= (n + 1) * page_size && n > 0) by (nonlinear_arith)
            requires
                page_size > 0,
                rest == total - page_size,
                rest > 0,
                rest == page_size * q + r,
                0 <= r < page_size,
                q >= 0,
                n == if r == 0 {
                    q
                } else {
                    q + 1
                },
        ;
    }
}

/// Multiplying by a positive page size keeps the order of two counts.
proof fn lemma_scaled_order(a: int, b: int, page_size: int)
    requires
        page_size > 0,
    ensures
        a <= b ==> a * page_size <= b * page_size,
        a < b ==> a * page_size + page_size <= b * page_size,
{
    assert(a <= b ==> a * page_size <= b * page_size) by (nonlinear_arith)
        requires
            page_size > 0,
    ;
    assert(a < b ==> a * page_size + page_size <= b * page_size) by (nonlinear_arith)
        requires
            page_size > 0,
    ;
}

/// What the `k`-th page of a plan asks for, in plain integers.
proof fn lemma_extra_page(total: i32, returned: nat, page_size: u32, k: int)
    requires
        page_size > 0,
        0 <= k < page_plan(total as int, returned as int, page_size as int).len(),
    ensures
        ({
            let plan = page_plan(total as int, returned as int, page_size as int);
            &&& plan[k].offset == (k + 1) * page_size
            &&& page_size <= plan[k].offset < total
            &&& 0 < plan[k].size <= page_size
            &&& plan[k].offset + plan[k].size <= total
            &&& k < plan.len() - 1 ==> plan[k].size == page_size
            &&& k == plan.len() - 1 ==> plan[k].offset + plan[k].size == total
        }),
{
    let n = extra_page_count(total as int, returned as int, page_size as int);
    lemma_count_bounds(total as int, returned as int, page_size as int);
    lemma_scaled_order(0, k, page_size as int);
    lemma_scaled_order(k + 1, n, page_size as int);
    lemma_scaled_order(k, n - 1, page_size as int);
    lemma_step(k, page_size as int);
    lemma_step(n - 1, page_size as int);
    lemma_step(n, page_size as int);
}

/// The plan is made of pages of `page_size` laid end to end from record
/// number `page_size` on, the last of them ending with the data: every
/// record number from `page_size` up to `total` is asked for by exactly one
/// request of the plan, and no request asks for a record number outside that
/// range. This holds whenever the first page delivered no more records than
/// it was asked for.
pub proof fn plan_tiles_rest(total: i32, returned: nat, page_size: u32)
    requires
        page_size > 0,
        returned <= page_size,
    ensures
        ({
            let plan = page_plan(total as int, returned as int, page_size as int);
            &&& forall|k: int|
                0 <= k < plan.len() ==> (#[trigger] plan[k]).offset == (k + 1) * page_size
            &&& forall|k: int| 0 <= k < plan.len() ==> 0 < (#[trigger] plan[k]).size <= page_size
            &&& forall|k: int| 0 <= k < plan.len() - 1 ==> (#[trigger] plan[k]).size == page_size
            &&& forall|i: int| page_size <= i < total ==> #[trigger] asked_for(plan, i)
            &&& disjoint(plan)
            &&& forall|k: int, i: int|
                0 <= k < plan.len() && #[trigger] plan[k].covers(i) ==> page_size <= i < total
        }),
{
    let plan = page_plan(total as int, returned as int, page_size as int);
    let n = plan.len() as int;
    lemma_count_bounds(total as int, returned as int, page_size as int);
    assert forall|k: int| 0 <= k < plan.len() implies {
        &&& (#[trigger] plan[k]).offset == (k + 1) * page_size
        &&& 0 < plan[k].size <= page_size
        &&& (k < plan.len() - 1 ==> plan[k].size == page_size)
    } by {
        lemma_extra_page(total, returned, page_size, k);
    }
    assert forall|i: int| page_size <= i < total implies #[trigger] asked_for(plan, i) by {
        let q = i / (page_size as int);
        let r = i % (page_size as int);
        assert(i == page_size * q + r && 0 <= r < page_size) by (nonlinear_arith)
            requires
                page_size > 0,
                q == i / (page_size as int),
                r == i % (page_size as int),
        ;
        let k = q - 1;
        assert(0 <= k < n) by (nonlinear_arith)
            requires
                page_size > 0,
                i == page_size * q + r,
                0 <= r < page_size,
                page_size <= i < total,
                total <= (n + 1) * page_size,
                k == q - 1,
        ;
        lemma_extra_page(total, returned, page_size, k);
        lemma_step(k, page_size as int);
        assert(page_size * q == (k + 1) * page_size) by (nonlinear_arith)
            requires
                k == q - 1,
        ;
        assert(plan[k].covers(i));
    }
    assert forall|k1: int, k2: int, i: int|
        0 <= k1 < plan.len() && 0 <= k2 < plan.len() && #[trigger] plan[k1].covers(i)
            && #[trigger] plan[k2].covers(i) implies k1 == k2 by {
        lemma_extra_page(total, returned, page_size, k1);
        lemma_extra_page(total, returned, page_size, k2);
        lemma_scaled_order(k1 + 1, k2 + 1, page_size as int);
        lemma_scaled_order(k2 + 1, k1 + 1, page_size as int);
    }
    assert forall|k: int, i: int| 0 <= k < plan.len() && #[trigger] plan[k].covers(i) implies page_size
        <= i < total by {
        lemma_extra_page(total, returned, page_size, k);
    }
}

/// The first request and the plan together ask for every record of the
/// dataset exactly once: each record number below `total` lies in the range
/// of one request and of no other.
pub proof fn requests_cover_dataset(total: i32, returned: nat, page_size: u32)
    requires
        page_size > 0,
        returned <= page_size,
    ensures
        ({
            let all = all_requests(total as int, returned as int, page_size as int);
            &&& forall|i: int| 0 <= i < total ==> #[trigger] asked_for(all, i)
            &&& disjoint(all)
        }),
{
    let plan = page_plan(total as int, returned as int, page_size as int);
    let all = all_requests(total as int, returned as int, page_size as int);
    plan_tiles_rest(total, returned, page_size);
    assert(all[0] == first_request(page_size as int));
    assert forall|k: int| 1 <= k < all.len() implies #[trigger] all[k] == plan[k - 1] by {}
    assert forall|i: int| 0 <= i < total implies #[trigger] asked_for(all, i) by {
        if i < page_size {
            assert(all[0].covers(i));
        } else {
            assert(asked_for(plan, i));
            let j = choose|j: int| 0 <= j < plan.len() && (#[trigger] plan[j]).covers(i);
            assert(all[j + 1] == plan[j]);
            assert(all[j + 1].covers(i));
        }
    }
    assert forall|k1: int, k2: int, i: int|
        0 <= k1 < all.len() && 0 <= k2 < all.len() && #[trigger] all[k1].covers(i)
            && #[trigger] all[k2].covers(i) implies k1 == k2 by {
        if k1 > 0 {
            assert(all[k1] == plan[k1 - 1]);
        }
        if k2 > 0 {
            assert(all[k2] == plan[k2 - 1]);
        }
    }
}

/// Where the data reaches beyond the first page, the last request asks for
/// a full page if `total` is a multiple of `page_size`, and otherwise for
/// the `total - (pages - 1) * page_size` records that the pages before it
/// leave over, `pages` being the number of all requests.
pub proof fn last_request_size(total: i32, returned: nat, page_size: u32)
    requires
        page_size > 0,
        returned <= page_size,
        page_size < total,
    ensures
        ({
            let all = all_requests(total as int, returned as int, page_size as int);
            let pages = all.len() as int;
            &&& pages >= 2
            &&& (total as int) % (page_size as int) != 0 ==> all.last().size == total - (pages - 1) * page_size
            &&& (total as int) % (page_size as int) == 0 ==> all.last().size == page_size
        }),
{
    let plan = page_plan(total as int, returned as int, page_size as int);
    let all = all_requests(total as int, returned as int, page_size as int);
    let n = plan.len() as int;
    lemma_count_bounds(total as int, returned as int, page_size as int);
    assert(all.last() == plan[n - 1]);
    lemma_extra_page(total, returned, page_size, n - 1);
    lemma_step(n - 1, page_size as int);
    let q = (total as int) / (page_size as int);
    let r = (total as int) % (page_size as int);
    assert(total == page_size * q + r && 0 <= r < page_size) by (nonlinear_arith)
        requires
            page_size > 0,
            q == (total as int) / (page_size as int),
            r == (total as int) % (page_size as int),
    ;
    if r == 0 {
        assert(q == n + 1) by (nonlinear_arith)
            requires
                page_size > 0,
                total == page_size * q,
                n * page_size < total <= (n + 1) * page_size,
        ;
        assert(total - n * page_size == page_size) by (nonlinear_arith)
            requires
                total == page_size * q,
                q == n + 1,
        ;
    }
}

/// Computes the page requests that follow the first page.
///
/// `total` is the record count the first page reports, `returned` the number
/// of records it delivered, `page_size` the size every request is made with.
pub fn additional_requests(total: i32, returned: usize, page_size: u32) -> (plan: Vec<PageRequest>)
    requires
        page_size > 0,
    ensures
        plan@ == page_plan(total as int, returned as int, page_size as int),
{
    let mut plan: Vec<PageRequest> = Vec::new();
    proof {
        lemma_count_bounds(total as int, returned as int, page_size as int);
    }
    if total <= 0 {
        return plan;
    }
    let end: u32 = total as u32;
    if returned >= end as usize || end <= page_size {
        return plan;
    }
    let mut offset: u32 = page_size;
    proof {
        lemma_step(0, page_size as int);
    }
    while offset < end
        invariant
            page_size > 0,
            end == total,
            page_size < end <= i32::MAX,
            returned < end,
            offset == (plan.len() + 1) * page_size,
            plan.len() * page_size < end,
            plan@ == Seq::new(plan.len() as nat, |k: int| extra_page(total as int, page_size as int, k)),
        decreases end + page_size - offset,
    {
        let left: u32 = end - offset;
        let size: u32 = if left < page_size {
            left
        } else {
            page_size
        };
        let ghost k = plan.len() as int;
        plan.push(PageRequest { offset, size });
        proof {
            lemma_step(k + 1, page_size as int);
            assert(plan@[k] == extra_page(total as int, page_size as int, k));
            assert(plan@ =~= Seq::new(
                (k + 1) as nat,
                |j: int| extra_page(total as int, page_size as int, j),
            ));
        }
        offset = offset + page_size;
    }
    proof {
        let k = plan.len() as int;
        lemma_step(k - 1, page_size as int);
        lemma_step(k, page_size as int);
        lemma_rounded_up(total - page_size, page_size as int, k);
    }
    plan
}

} // verus!
