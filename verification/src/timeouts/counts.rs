//! Counting requests: which share of the limit they and the pre-reserved groups take up.
use crate::time::DateTime;
use crate::timeouts::request::{GroupId, PreReservedGroup, Request};
use vstd::prelude::*;

verus! {

/// How many of `requests` satisfy `pick`.
pub open spec fn counted(requests: Seq<Request>, pick: spec_fn(Request) -> bool) -> nat
    decreases requests.len(),
{
    if requests.len() == 0 {
        0
    } else {
        counted(requests.drop_last(), pick) + if pick(requests.last()) {
            1nat
        } else {
            0nat
        }
    }
}

/// Requests that start at `time` or earlier.
pub open spec fn until(time: DateTime) -> spec_fn(Request) -> bool {
    |request: Request| !time.precedes(request.allowed_start_time)
}

/// Requests that start at `time` or later.
pub open spec fn since(time: DateTime) -> spec_fn(Request) -> bool {
    |request: Request| !request.allowed_start_time.precedes(time)
}

/// The groups hold one with this identifier.
pub open spec fn has_group(groups: Seq<PreReservedGroup>, id: GroupId) -> bool {
    exists|i: int| 0 <= i < groups.len() && #[trigger] groups[i].id == id
}

/// Requests that were taken from the group `id`.
pub open spec fn in_group(id: GroupId) -> spec_fn(Request) -> bool {
    |request: Request| request.group_id == Some(id)
}

/// Requests that were taken from a group that still stands.
pub open spec fn in_groups(groups: Seq<PreReservedGroup>) -> spec_fn(Request) -> bool {
    |request: Request| request.group_id is Some && has_group(groups, request.group_id->0)
}

/// Requests that belong to no group, or to one that was given up.
pub open spec fn out_of_groups(groups: Seq<PreReservedGroup>) -> spec_fn(Request) -> bool {
    |request: Request| !in_groups(groups)(request)
}

/// What the group takes up: the larger of what it reserved and what it has used.
pub open spec fn group_share(requests: Seq<Request>, group: PreReservedGroup) -> nat {
    let used = counted(requests, in_group(group.id));
    if used <= group.pre_reserved_requests_count {
        group.pre_reserved_requests_count as nat
    } else {
        used
    }
}

/// What all groups take up. Where several share an identifier the last one stands for them.
pub open spec fn groups_share(requests: Seq<Request>, groups: Seq<PreReservedGroup>) -> nat
    decreases groups.len(),
{
    if groups.len() == 0 {
        0
    } else {
        let rest = groups.drop_first();
        groups_share(requests, rest) + if has_group(rest, groups[0].id) {
            0nat
        } else {
            group_share(requests, groups[0])
        }
    }
}

/// What requests and groups take up of the limit together: a request out of every standing
/// group counts for itself, and the groups count for their shares.
pub open spec fn load(requests: Seq<Request>, groups: Seq<PreReservedGroup>) -> nat {
    counted(requests, out_of_groups(groups)) + groups_share(requests, groups)
}

/// The requests that `outside` does not mark.
pub open spec fn unmarked(requests: Seq<Request>, outside: Seq<bool>) -> Seq<Request>
    decreases requests.len(),
{
    if requests.len() == 0 {
        requests
    } else {
        let rest = unmarked(requests.drop_last(), outside.drop_last());
        if outside.last() {
            rest
        } else {
            rest.push(requests.last())
        }
    }
}

/// What the last group with this identifier reserved.
pub open spec fn last_reserved(groups: Seq<PreReservedGroup>, id: GroupId) -> usize
    decreases groups.len(),
{
    if groups.len() == 0 {
        0
    } else if groups.last().id == id {
        groups.last().pre_reserved_requests_count
    } else {
        last_reserved(groups.drop_last(), id)
    }
}

/// No request starts later than one that stands behind it.
pub open spec fn sorted(requests: Seq<Request>) -> bool {
    forall|i: int, j: int|
        0 <= i < j < requests.len() ==> !(#[trigger] requests[j]).allowed_start_time.precedes(
            (#[trigger] requests[i]).allowed_start_time,
        )
}

/// Requests of one predicate are no more than those of a wider one.
pub proof fn lemma_counted_mono(
    requests: Seq<Request>,
    narrow: spec_fn(Request) -> bool,
    wide: spec_fn(Request) -> bool,
)
    requires
        forall|i: int|
            0 <= i < requests.len() && narrow(#[trigger] requests[i]) ==> wide(requests[i]),
    ensures
        counted(requests, narrow) <= counted(requests, wide),
    decreases requests.len(),
{
    if requests.len() > 0 {
        let shorter = requests.drop_last();
        assert forall|i: int| 0 <= i < shorter.len() && narrow(#[trigger] shorter[i]) implies wide(
            shorter[i],
        ) by {
            assert(shorter[i] == requests[i]);
        }
        lemma_counted_mono(shorter, narrow, wide);
        assert(requests.last() == requests[requests.len() - 1]);
    }
}

/// Predicates that agree on the requests count the same.
pub proof fn lemma_counted_same(
    requests: Seq<Request>,
    one: spec_fn(Request) -> bool,
    other: spec_fn(Request) -> bool,
)
    requires
        forall|i: int|
            0 <= i < requests.len() ==> one(#[trigger] requests[i]) == other(requests[i]),
    ensures
        counted(requests, one) == counted(requests, other),
{
    lemma_counted_mono(requests, one, other);
    lemma_counted_mono(requests, other, one);
}

/// No more requests are counted than there are.
pub proof fn lemma_counted_len(requests: Seq<Request>, pick: spec_fn(Request) -> bool)
    ensures
        counted(requests, pick) <= requests.len(),
    decreases requests.len(),
{
    if requests.len() > 0 {
        lemma_counted_len(requests.drop_last(), pick);
    }
}

/// A request counts the same wherever it is inserted.
pub proof fn lemma_counted_insert(
    requests: Seq<Request>,
    index: int,
    request: Request,
    pick: spec_fn(Request) -> bool,
)
    requires
        0 <= index <= requests.len(),
    ensures
        counted(requests.insert(index, request), pick) == counted(requests, pick) + if pick(
            request,
        ) {
            1int
        } else {
            0int
        },
    decreases requests.len(),
{
    let longer = requests.insert(index, request);
    if index == requests.len() {
        assert(longer.drop_last() =~= requests);
    } else {
        assert(longer.drop_last() =~= requests.drop_last().insert(index, request));
        lemma_counted_insert(requests.drop_last(), index, request, pick);
    }
}

/// Of filtered requests, those are counted that pass the filter and the predicate.
pub proof fn lemma_counted_filter(
    requests: Seq<Request>,
    keep: spec_fn(Request) -> bool,
    pick: spec_fn(Request) -> bool,
)
    ensures
        counted(requests.filter(keep), pick) == counted(
            requests,
            |request: Request| keep(request) && pick(request),
        ),
    decreases requests.len(),
{
    reveal(Seq::filter);
    if requests.len() > 0 {
        let shorter = requests.drop_last();
        lemma_counted_filter(shorter, keep, pick);
        if keep(requests.last()) {
            let kept = shorter.filter(keep);
            assert(kept.push(requests.last()).drop_last() =~= kept);
        }
    }
}

/// Dropping requests does not raise a count.
pub proof fn lemma_counted_filter_less(
    requests: Seq<Request>,
    keep: spec_fn(Request) -> bool,
    pick: spec_fn(Request) -> bool,
)
    ensures
        counted(requests.filter(keep), pick) <= counted(requests, pick),
{
    lemma_counted_filter(requests, keep, pick);
    lemma_counted_mono(requests, |request: Request| keep(request) && pick(request), pick);
}

/// Every request stands either inside or outside of the groups.
pub proof fn lemma_counted_partition(requests: Seq<Request>, groups: Seq<PreReservedGroup>)
    ensures
        counted(requests, in_groups(groups)) + counted(requests, out_of_groups(groups))
            == requests.len(),
    decreases requests.len(),
{
    if requests.len() > 0 {
        lemma_counted_partition(requests.drop_last(), groups);
    }
}

/// What groups take up is bounded by their number and by that of the requests.
pub proof fn lemma_groups_share_bound(requests: Seq<Request>, groups: Seq<PreReservedGroup>)
    requires
        requests.len() <= usize::MAX,
    ensures
        groups_share(requests, groups) <= groups.len() * usize::MAX,
        groups.len() <= usize::MAX ==> groups_share(requests, groups) <= u128::MAX,
    decreases groups.len(),
{
    assert(groups.len() <= usize::MAX ==> groups.len() * usize::MAX <= u128::MAX)
        by (nonlinear_arith)
        requires
            usize::MAX <= u64::MAX,
    ;
    if groups.len() > 0 {
        let rest = groups.drop_first();
        lemma_groups_share_bound(requests, rest);
        lemma_counted_len(requests, in_group(groups[0].id));
        assert(groups.len() * usize::MAX == rest.len() * usize::MAX + usize::MAX)
            by (nonlinear_arith)
            requires
                groups.len() == rest.len() + 1,
        ;
    }
}

/// Requests of which every predicate counts the same share out the same among the groups.
pub proof fn lemma_groups_share_same(
    one: Seq<Request>,
    other: Seq<Request>,
    groups: Seq<PreReservedGroup>,
)
    requires
        forall|pick: spec_fn(Request) -> bool|
            #[trigger]
            counted(one, pick) == counted(other, pick),
    ensures
        groups_share(one, groups) == groups_share(other, groups),
    decreases groups.len(),
{
    if groups.len() > 0 {
        lemma_groups_share_same(one, other, groups.drop_first());
    }
}

/// Requests of which every predicate counts the same make the same load.
pub proof fn lemma_load_same(
    one: Seq<Request>,
    other: Seq<Request>,
    groups: Seq<PreReservedGroup>,
)
    requires
        forall|pick: spec_fn(Request) -> bool|
            #[trigger]
            counted(one, pick) == counted(other, pick),
    ensures
        load(one, groups) == load(other, groups),
{
    lemma_groups_share_same(one, other, groups);
}

/// Where a request is inserted does not change the load of any selection.
pub proof fn lemma_load_insert(
    requests: Seq<Request>,
    index: int,
    request: Request,
    keep: spec_fn(Request) -> bool,
    groups: Seq<PreReservedGroup>,
)
    requires
        0 <= index <= requests.len(),
    ensures
        load(requests.insert(index, request).filter(keep), groups) == load(
            requests.push(request).filter(keep),
            groups,
        ),
{
    let one = requests.insert(index, request);
    let other = requests.push(request);
    assert(other =~= requests.insert(requests.len() as int, request));
    assert forall|pick: spec_fn(Request) -> bool| #[trigger]
        counted(one.filter(keep), pick) == counted(other.filter(keep), pick) by {
        let both = |r: Request| keep(r) && pick(r);
        lemma_counted_filter(one, keep, pick);
        lemma_counted_filter(other, keep, pick);
        lemma_counted_insert(requests, index, request, both);
        lemma_counted_insert(requests, requests.len() as int, request, both);
    }
    lemma_load_same(one.filter(keep), other.filter(keep), groups);
}

/// Marks that follow a predicate leave what the predicate filters out.
pub proof fn lemma_unmarked_filter(
    requests: Seq<Request>,
    outside: Seq<bool>,
    keep: spec_fn(Request) -> bool,
)
    requires
        outside.len() == requests.len(),
        forall|i: int|
            0 <= i < requests.len() ==> #[trigger] outside[i] == !keep(requests[i]),
    ensures
        unmarked(requests, outside) == requests.filter(keep),
    decreases requests.len(),
{
    reveal(Seq::filter);
    if requests.len() > 0 {
        assert(outside.last() == !keep(requests.last()));
        lemma_unmarked_filter(requests.drop_last(), outside.drop_last(), keep);
    } else {
        assert(requests =~= requests.filter(keep));
    }
}

/// A group that no later one shares its identifier with is the last with that identifier.
pub proof fn lemma_last_reserved(groups: Seq<PreReservedGroup>, index: int)
    requires
        0 <= index < groups.len(),
        !has_group(groups.skip(index + 1), groups[index].id),
    ensures
        last_reserved(groups, groups[index].id) == groups[index].pre_reserved_requests_count,
    decreases groups.len(),
{
    if index < groups.len() - 1 {
        let id = groups[index].id;
        let behind = groups.skip(index + 1);
        assert(behind[behind.len() - 1] == groups.last());
        let shorter = groups.drop_last();
        let shorter_behind = shorter.skip(index + 1);
        assert forall|i: int| 0 <= i < shorter_behind.len() implies #[trigger] shorter_behind[i].id
            != id by {
            assert(behind[i] == shorter_behind[i]);
        }
        lemma_last_reserved(shorter, index);
    }
}

/// Filtering keeps the order of start times.
pub proof fn lemma_filter_sorted(requests: Seq<Request>, keep: spec_fn(Request) -> bool)
    requires
        sorted(requests),
    ensures
        sorted(requests.filter(keep)),
    decreases requests.len(),
{
    reveal(Seq::filter);
    if requests.len() > 0 {
        let shorter = requests.drop_last();
        assert forall|i: int, j: int| 0 <= i < j < shorter.len() implies !(
        #[trigger] shorter[j]).allowed_start_time.precedes(
            (#[trigger] shorter[i]).allowed_start_time,
        ) by {
            assert(shorter[i] == requests[i] && shorter[j] == requests[j]);
        }
        lemma_filter_sorted(shorter, keep);
        let rest = shorter.filter(keep);
        if keep(requests.last()) {
            let all = rest.push(requests.last());
            assert forall|i: int, j: int| 0 <= i < j < all.len() implies !(
            #[trigger] all[j]).allowed_start_time.precedes(
                (#[trigger] all[i]).allowed_start_time,
            ) by {
                if j < rest.len() {
                    assert(all[i] == rest[i] && all[j] == rest[j]);
                } else {
                    assert(rest.contains(rest[i]));
                    shorter.lemma_filter_contains_rev(keep, rest[i]);
                    let k = choose|k: int| 0 <= k < shorter.len() && shorter[k] == rest[i];
                    assert(requests[k] == rest[i]);
                    assert(requests[requests.len() - 1] == all[j]);
                }
            }
        }
    }
}

} // verus!
