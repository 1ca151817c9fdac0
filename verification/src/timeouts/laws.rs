//! What holds of a manager over several calls.
use crate::time::DateTime;
use crate::timeouts::counts::{
    counted, group_share, groups_share, has_group, in_group, in_groups, lemma_counted_filter_less,
    lemma_counted_insert, lemma_counted_mono, lemma_counted_partition, lemma_counted_same,
    lemma_filter_sorted, load, out_of_groups, since, sorted, until,
};
use crate::timeouts::manager::{
    inserted, is_first_group, kept, last_start, load_at, start_time_position,
    RequestsTimeoutManager,
};
use crate::timeouts::request::{GroupId, PreReservedGroup, Request, RequestType, TimeoutError};
use vstd::prelude::*;

verus! {

/// Where one predicate is the disjoint union of two, its count is the sum of theirs.
pub proof fn lemma_counted_split(
    requests: Seq<Request>,
    all: spec_fn(Request) -> bool,
    one: spec_fn(Request) -> bool,
    other: spec_fn(Request) -> bool,
)
    requires
        forall|request: Request| #[trigger] all(request) == (one(request) || other(request)),
        forall|request: Request| !(#[trigger] one(request) && other(request)),
    ensures
        counted(requests, all) == counted(requests, one) + counted(requests, other),
    decreases requests.len(),
{
    if requests.len() > 0 {
        lemma_counted_split(requests.drop_last(), all, one, other);
        assert(all(requests.last()) == (one(requests.last()) || other(requests.last())));
    }
}

/// The groups hold an identifier if the first group or a later one does.
proof fn lemma_has_group_first(groups: Seq<PreReservedGroup>, id: GroupId)
    requires
        groups.len() > 0,
    ensures
        has_group(groups, id) == (groups[0].id == id || has_group(groups.drop_first(), id)),
{
    let rest = groups.drop_first();
    if has_group(rest, id) {
        let i = choose|i: int| 0 <= i < rest.len() && #[trigger] rest[i].id == id;
        assert(groups[i + 1].id == id);
    }
    if has_group(groups, id) && groups[0].id != id {
        let i = choose|i: int| 0 <= i < groups.len() && #[trigger] groups[i].id == id;
        assert(rest[i - 1].id == id);
    }
}

/// The groups hold an identifier if the last group or an earlier one does.
pub proof fn lemma_has_group_push(groups: Seq<PreReservedGroup>, group: PreReservedGroup, id: GroupId)
    ensures
        has_group(groups.push(group), id) == (group.id == id || has_group(groups, id)),
{
    let all = groups.push(group);
    if has_group(groups, id) {
        let i = choose|i: int| 0 <= i < groups.len() && #[trigger] groups[i].id == id;
        assert(all[i].id == id);
    }
    if group.id == id {
        assert(all[groups.len() as int].id == id);
    }
    if has_group(all, id) && group.id != id {
        let i = choose|i: int| 0 <= i < all.len() && #[trigger] all[i].id == id;
        assert(groups[i].id == id);
    }
}

/// The groups hold an identifier if one of them does and another one remains without it.
pub proof fn lemma_has_group_remove(groups: Seq<PreReservedGroup>, index: int, id: GroupId)
    requires
        0 <= index < groups.len(),
    ensures
        has_group(groups, id) == (groups[index].id == id || has_group(groups.remove(index), id)),
{
    let rest = groups.remove(index);
    if has_group(rest, id) {
        let i = choose|i: int| 0 <= i < rest.len() && #[trigger] rest[i].id == id;
        assert(groups[if i < index { i } else { i + 1 }].id == id);
    }
    if has_group(groups, id) && groups[index].id != id {
        let i = choose|i: int| 0 <= i < groups.len() && #[trigger] groups[i].id == id;
        assert(rest[if i < index { i } else { i - 1 }].id == id);
    }
}

/// What a further group adds to the shares: its own where its identifier is new, and at
/// most what it reserves otherwise.
pub proof fn lemma_groups_share_push(
    requests: Seq<Request>,
    groups: Seq<PreReservedGroup>,
    group: PreReservedGroup,
)
    ensures
        !has_group(groups, group.id) ==> groups_share(requests, groups.push(group))
            == groups_share(requests, groups) + group_share(requests, group),
        has_group(groups, group.id) ==> groups_share(requests, groups.push(group))
            <= groups_share(requests, groups) + group.pre_reserved_requests_count,
    decreases groups.len(),
{
    let all = groups.push(group);
    if groups.len() == 0 {
        assert(all.drop_first() =~= Seq::empty());
        assert(groups_share(requests, all.drop_first()) == 0);
        assert(!has_group(all.drop_first(), group.id));
    } else {
        let rest = groups.drop_first();
        assert(all.drop_first() =~= rest.push(group));
        lemma_groups_share_push(requests, rest, group);
        lemma_has_group_first(groups, group.id);
        lemma_has_group_push(rest, group, groups[0].id);
    }
}

/// What the first group with an identifier adds to the shares: its own where no other
/// group carries the identifier, and nothing otherwise.
proof fn lemma_groups_share_remove(
    requests: Seq<Request>,
    groups: Seq<PreReservedGroup>,
    id: GroupId,
    index: int,
)
    requires
        is_first_group(groups, id, index),
    ensures
        groups_share(requests, groups) == groups_share(requests, groups.remove(index)) + if has_group(
            groups.remove(index),
            id,
        ) {
            0nat
        } else {
            group_share(requests, groups[index])
        },
    decreases groups.len(),
{
    let removed = groups.remove(index);
    let rest = groups.drop_first();
    if index == 0 {
        assert(removed =~= rest);
    } else {
        assert(removed.drop_first() =~= rest.remove(index - 1));
        assert(is_first_group(rest, id, index - 1)) by {
            assert forall|j: int| 0 <= j < index - 1 implies (#[trigger] rest[j]).id != id by {
                assert(rest[j] == groups[j + 1]);
            }
        }
        lemma_groups_share_remove(requests, rest, id, index - 1);
        lemma_has_group_remove(rest, index - 1, groups[0].id);
        lemma_has_group_first(removed, id);
        assert(groups[0].id != id);
    }
}

/// Requests that all satisfy the filter remain as they are.
proof fn lemma_filter_all(requests: Seq<Request>, keep: spec_fn(Request) -> bool)
    requires
        forall|i: int| 0 <= i < requests.len() ==> keep(#[trigger] requests[i]),
    ensures
        requests.filter(keep) == requests,
    decreases requests.len(),
{
    reveal(Seq::filter);
    if requests.len() > 0 {
        let shorter = requests.drop_last();
        assert forall|i: int| 0 <= i < shorter.len() implies keep(#[trigger] shorter[i]) by {
            assert(shorter[i] == requests[i]);
        }
        lemma_filter_all(shorter, keep);
        assert(keep(requests[requests.len() - 1]));
        assert(requests.filter(keep) =~= requests);
    }
}

/// Dropping requests does not raise what the groups take up.
proof fn lemma_groups_share_filter(
    requests: Seq<Request>,
    keep: spec_fn(Request) -> bool,
    groups: Seq<PreReservedGroup>,
)
    ensures
        groups_share(requests.filter(keep), groups) <= groups_share(requests, groups),
    decreases groups.len(),
{
    if groups.len() > 0 {
        lemma_groups_share_filter(requests, keep, groups.drop_first());
        lemma_counted_filter_less(requests, keep, in_group(groups[0].id));
    }
}

/// A request out of group adds one to a load, wherever it is inserted.
proof fn lemma_load_one_more(
    requests: Seq<Request>,
    index: int,
    request: Request,
    groups: Seq<PreReservedGroup>,
)
    requires
        0 <= index <= requests.len(),
        request.group_id is None,
    ensures
        load(requests.insert(index, request), groups) == load(requests, groups) + 1,
        groups_share(requests.insert(index, request), groups) == groups_share(requests, groups),
    decreases groups.len(),
{
    if groups.len() > 0 {
        lemma_load_one_more(requests, index, request, groups.drop_first());
        lemma_counted_insert(requests, index, request, in_group(groups[0].id));
    }
    lemma_counted_insert(requests, index, request, out_of_groups(groups));
}

/// Requests of standing groups are no more than what the groups take up.
proof fn lemma_in_groups_share(requests: Seq<Request>, groups: Seq<PreReservedGroup>)
    ensures
        counted(requests, in_groups(groups)) <= groups_share(requests, groups),
    decreases groups.len(),
{
    if groups.len() == 0 {
        lemma_counted_mono(requests, in_groups(groups), |request: Request| false);
        lemma_counted_none(requests);
    } else {
        let rest = groups.drop_first();
        let id = groups[0].id;
        lemma_in_groups_share(requests, rest);
        assert forall|request: Request| #[trigger]
            in_groups(groups)(request) == (in_groups(rest)(request) || in_group(id)(request)) by {
            if request.group_id is Some {
                lemma_has_group_first(groups, request.group_id->0);
            }
        }
        if has_group(rest, id) {
            lemma_counted_same(requests, in_groups(groups), in_groups(rest));
        } else {
            lemma_counted_split(requests, in_groups(groups), in_groups(rest), in_group(id));
        }
    }
}

/// A predicate that holds of nothing counts nothing.
proof fn lemma_counted_none(requests: Seq<Request>)
    ensures
        counted(requests, |request: Request| false) == 0,
    decreases requests.len(),
{
    if requests.len() > 0 {
        lemma_counted_none(requests.drop_last());
    }
}

/// Requests never take up less of the limit than one each.
pub proof fn law_load_covers_requests(requests: Seq<Request>, groups: Seq<PreReservedGroup>)
    ensures
        requests.len() <= load(requests, groups),
{
    lemma_counted_partition(requests, groups);
    lemma_in_groups_share(requests, groups);
}

/// Forgetting requests never raises what is taken up of the limit.
pub proof fn law_forgetting_lowers_load(
    requests: Seq<Request>,
    keep: spec_fn(Request) -> bool,
    groups: Seq<PreReservedGroup>,
)
    ensures
        load(requests.filter(keep), groups) <= load(requests, groups),
{
    lemma_groups_share_filter(requests, keep, groups);
    lemma_counted_filter_less(requests, keep, out_of_groups(groups));
}

/// Reserving a group raises what is taken up by no more than the group reserves, and by
/// exactly that where its identifier is new to the groups and to the requests.
pub proof fn law_reserving_raises_load(
    requests: Seq<Request>,
    groups: Seq<PreReservedGroup>,
    group: PreReservedGroup,
)
    ensures
        load(requests, groups.push(group)) <= load(requests, groups)
            + group.pre_reserved_requests_count,
        !has_group(groups, group.id) && (forall|i: int|
            0 <= i < requests.len() ==> (#[trigger] requests[i]).group_id != Some(group.id))
            ==> load(requests, groups.push(group)) == load(requests, groups)
            + group.pre_reserved_requests_count,
{
    let all = groups.push(group);
    lemma_groups_share_push(requests, groups, group);
    assert forall|request: Request| #[trigger]
        in_groups(all)(request) == (in_groups(groups)(request) || in_group(group.id)(request)) by {
        if request.group_id is Some {
            lemma_has_group_push(groups, group, request.group_id->0);
        }
    }
    if has_group(groups, group.id) {
        lemma_counted_same(requests, out_of_groups(groups), out_of_groups(all));
    } else {
        lemma_counted_split(
            requests,
            out_of_groups(groups),
            out_of_groups(all),
            in_group(group.id),
        );
        if forall|i: int|
            0 <= i < requests.len() ==> (#[trigger] requests[i]).group_id != Some(group.id) {
            lemma_counted_same(requests, in_group(group.id), |request: Request| false);
            lemma_counted_none(requests);
        }
    }
}

/// Giving up a group never raises what is taken up: its requests then count one each.
pub proof fn law_removing_lowers_load(
    requests: Seq<Request>,
    groups: Seq<PreReservedGroup>,
    id: GroupId,
    index: int,
)
    requires
        is_first_group(groups, id, index),
    ensures
        load(requests, groups.remove(index)) <= load(requests, groups),
{
    let rest = groups.remove(index);
    lemma_groups_share_remove(requests, groups, id, index);
    assert forall|request: Request| #[trigger]
        in_groups(groups)(request) == (in_groups(rest)(request) || in_group(id)(request)) by {
        if request.group_id is Some {
            lemma_has_group_remove(groups, index, request.group_id->0);
        }
    }
    if has_group(rest, id) {
        lemma_counted_same(requests, out_of_groups(groups), out_of_groups(rest));
    } else {
        lemma_counted_split(requests, out_of_groups(rest), out_of_groups(groups), in_group(id));
    }
}

/// Giving up a group that was just granted under a new identifier succeeds and leaves the
/// groups as they were before.
pub proof fn law_removing_undoes_reserving(
    before: RequestsTimeoutManager,
    between: RequestsTimeoutManager,
    after: RequestsTimeoutManager,
    group_type: String,
    time: DateTime,
    requests_count: usize,
    id: GroupId,
    removed: bool,
)
    requires
        between.answers_group(&before, group_type, time, requests_count, Ok(Some(id))),
        !has_group(before.pre_reserved_groups@, id),
        after.gives_up(&between, id, removed),
    ensures
        removed,
        after.pre_reserved_groups@ == before.pre_reserved_groups@,
        after.requests@ == between.requests@,
{
    let groups = before.pre_reserved_groups@;
    let group = PreReservedGroup { id, group_type, pre_reserved_requests_count: requests_count };
    lemma_has_group_push(groups, group, id);
    let index = choose|index: int|
        #[trigger] is_first_group(between.pre_reserved_groups@, id, index)
            && after.pre_reserved_groups@ == between.pre_reserved_groups@.remove(index);
    if index < groups.len() {
        assert(groups[index].id == id);
    }
    assert(groups.push(group).remove(index) =~= groups);
}

/// A request out of group that starts by `time` raises what is taken up then by one.
pub proof fn law_letting_through_raises_load(
    before: Seq<Request>,
    request: Request,
    after: Seq<Request>,
    groups: Seq<PreReservedGroup>,
    time: DateTime,
)
    requires
        inserted(before, request, after),
        request.group_id is None,
        !time.precedes(request.allowed_start_time),
    ensures
        load_at(after, groups, time) == load_at(before, groups, time) + 1,
{
    let i = start_time_position(before, request.allowed_start_time);
    lemma_filter_insert(before, i, request, until(time));
    let j = choose|j: int|
        0 <= j <= before.filter(until(time)).len() && after.filter(until(time)) == #[trigger] before.filter(
            until(time),
        ).insert(j, request);
    lemma_load_one_more(before.filter(until(time)), j, request, groups);
}

/// A request that passes the filter is inserted among those that do.
proof fn lemma_filter_insert(
    requests: Seq<Request>,
    index: int,
    request: Request,
    keep: spec_fn(Request) -> bool,
)
    requires
        0 <= index <= requests.len(),
        keep(request),
    ensures
        exists|j: int|
            0 <= j <= requests.filter(keep).len() && requests.insert(index, request).filter(keep)
                == #[trigger] requests.filter(keep).insert(j, request),
    decreases requests.len(),
{
    reveal(Seq::filter);
    let longer = requests.insert(index, request);
    let old_kept = requests.filter(keep);
    if index == requests.len() {
        assert(longer.drop_last() =~= requests);
        assert(longer.filter(keep) =~= old_kept.insert(old_kept.len() as int, request));
    } else {
        let shorter = requests.drop_last();
        assert(longer.drop_last() =~= shorter.insert(index, request));
        lemma_filter_insert(shorter, index, request, keep);
        let kept_shorter = shorter.filter(keep);
        let j = choose|j: int|
            0 <= j <= kept_shorter.len() && shorter.insert(index, request).filter(keep)
                == #[trigger] kept_shorter.insert(j, request);
        assert(longer.filter(keep) =~= old_kept.insert(j, request));
    }
}

/// Asking at once with a group is answered with a no and changes nothing.
pub proof fn law_instant_with_group_changes_nothing(
    before: RequestsTimeoutManager,
    after: RequestsTimeoutManager,
    request_type: RequestType,
    time: DateTime,
    id: GroupId,
    result: Result<bool, TimeoutError>,
)
    requires
        after.lets_instant_through(&before, request_type, time, Some(id), result),
    ensures
        result == Ok::<bool, TimeoutError>(false),
        after == before,
{
}

/// Asking at once without a group is answered, and leaves the manager, as asking for a request
/// out of group does.
pub proof fn law_instant_without_group_is_request(
    before: RequestsTimeoutManager,
    instant: RequestsTimeoutManager,
    after: RequestsTimeoutManager,
    request_type: RequestType,
    time: DateTime,
    instant_result: Result<bool, TimeoutError>,
    result: Result<bool, TimeoutError>,
)
    requires
        instant.lets_instant_through(&before, request_type, time, None, instant_result),
        after.lets_through(&before, request_type, time, result),
    ensures
        instant_result == result,
        instant.requests@ == after.requests@,
        instant.events@ == after.events@,
        instant == (RequestsTimeoutManager {
            requests: instant.requests,
            events: instant.events,
            ..after
        }),
{
}

/// Asking for a group keeps the requests in the order of their start times.
pub proof fn law_reserving_keeps_order(
    before: RequestsTimeoutManager,
    after: RequestsTimeoutManager,
    time: DateTime,
    group_type: String,
    requests_count: usize,
    result: Result<Option<GroupId>, TimeoutError>,
)
    requires
        sorted(before.requests@),
        after.answers_group(&before, group_type, time, requests_count, result),
    ensures
        sorted(after.requests@),
{
    let now = before.now(time);
    if now.minus(before.period_duration) is Some {
        lemma_filter_sorted(before.requests@, since(now.minus(before.period_duration)->0));
    }
}

/// Letting a request through keeps the requests in the order of their start times.
pub proof fn law_letting_through_keeps_order(
    before: RequestsTimeoutManager,
    after: RequestsTimeoutManager,
    time: DateTime,
    request_type: RequestType,
    result: Result<bool, TimeoutError>,
)
    requires
        sorted(before.requests@),
        after.lets_through(&before, request_type, time, result),
    ensures
        sorted(after.requests@),
{
    let now = before.now(time);
    if now.minus(before.period_duration) is Some {
        lemma_filter_sorted(before.requests@, since(now.minus(before.period_duration)->0));
    }
}

/// The time of the last group never goes back, and the time that a manager goes by is at
/// no call before it, nor before the time that the call names.
pub proof fn law_time_never_goes_back(
    before: RequestsTimeoutManager,
    after: RequestsTimeoutManager,
    time: DateTime,
    group_type: String,
    requests_count: usize,
    result: Result<Option<GroupId>, TimeoutError>,
)
    requires
        after.answers_group(&before, group_type, time, requests_count, result),
    ensures
        !before.now(time).precedes(time),
        before.last_time is Some ==> !before.now(time).precedes(before.last_time->0),
        before.last_time is Some ==> after.last_time is Some && !after.last_time->0.precedes(
            before.last_time->0,
        ),
{
}

/// A manager that was called with times that never went back, `time` being the latest, and
/// whose limit holds.
pub open spec fn steady(manager: RequestsTimeoutManager, time: DateTime) -> bool {
    &&& manager.wf()
    &&& sorted(manager.requests@)
    &&& manager.last_time is Some ==> !time.precedes(manager.last_time->0)
    &&& forall|i: int|
        0 <= i < manager.requests@.len() ==> !time.precedes(
            (#[trigger] manager.requests@[i]).allowed_start_time,
        )
    &&& load(manager.requests@, manager.pre_reserved_groups@) <= manager.requests_per_period
}

/// Requests that start by `time` remain so when some are dropped, and later.
proof fn lemma_steady_filter(
    requests: Seq<Request>,
    keep: spec_fn(Request) -> bool,
    time: DateTime,
    later: DateTime,
)
    requires
        !later.precedes(time),
        forall|i: int|
            0 <= i < requests.len() ==> !time.precedes((#[trigger] requests[i]).allowed_start_time),
    ensures
        forall|i: int|
            0 <= i < requests.filter(keep).len() ==> !later.precedes(
                (#[trigger] requests.filter(keep)[i]).allowed_start_time,
            ),
{
    let kept = requests.filter(keep);
    assert forall|i: int| 0 <= i < kept.len() implies !later.precedes(
        (#[trigger] kept[i]).allowed_start_time,
    ) by {
        assert(kept.contains(kept[i]));
        requests.lemma_filter_contains_rev(keep, kept[i]);
    }
}

/// In a steady manager no period holds more requests than the limit allows.
pub proof fn law_steady_limits_requests(manager: RequestsTimeoutManager, time: DateTime)
    requires
        steady(manager, time),
    ensures
        manager.requests@.len() <= manager.requests_per_period,
{
    law_load_covers_requests(manager.requests@, manager.pre_reserved_groups@);
}

/// A new manager is steady.
pub proof fn law_new_is_steady(manager: RequestsTimeoutManager, time: DateTime)
    requires
        manager.period_duration.wf(),
        manager.requests@ == Seq::<Request>::empty(),
        manager.pre_reserved_groups@ == Seq::<PreReservedGroup>::empty(),
        manager.last_time is None,
    ensures
        steady(manager, time),
{
}

/// A steady manager can be called at any time that does not go back.
pub proof fn law_steady_accepts(
    manager: RequestsTimeoutManager,
    time: DateTime,
    later: DateTime,
    request_type: RequestType,
)
    requires
        steady(manager, time),
        !later.precedes(time),
    ensures
        manager.now(later) == later,
        manager.within_limit_at(later),
        manager.can_reserve_request(request_type, later),
{
    if later.minus(manager.period_duration) is Some {
        let deadline = later.minus(manager.period_duration)->0;
        let requests = kept(manager.requests@, deadline);
        let groups = manager.pre_reserved_groups@;
        lemma_steady_filter(manager.requests@, since(deadline), time, later);
        lemma_filter_all(requests, until(later));
        law_forgetting_lowers_load(manager.requests@, since(deadline), groups);
        let request = Request { request_type, allowed_start_time: later, group_id: None };
        assert(last_start(requests, later) == later) by {
            if requests.len() > 0 {
                assert(!later.precedes(requests[requests.len() - 1].allowed_start_time));
            }
        }
        let all = requests.push(request);
        assert(all =~= requests.insert(requests.len() as int, request));
        lemma_load_one_more(requests, requests.len() as int, request, groups);
        law_forgetting_lowers_load(all, since(deadline), groups);
    }
}

/// Asking for a group, whether it is granted or not, leaves a steady manager steady.
pub proof fn law_reserving_keeps_steady(
    before: RequestsTimeoutManager,
    after: RequestsTimeoutManager,
    time: DateTime,
    later: DateTime,
    group_type: String,
    requests_count: usize,
    result: Result<Option<GroupId>, TimeoutError>,
)
    requires
        steady(before, time),
        !later.precedes(time),
        after.answers_group(&before, group_type, later, requests_count, result),
        after.wf(),
    ensures
        steady(after, later),
{
    let groups = before.pre_reserved_groups@;
    if later.minus(before.period_duration) is Some {
        let deadline = later.minus(before.period_duration)->0;
        let requests = kept(before.requests@, deadline);
        lemma_filter_sorted(before.requests@, since(deadline));
        lemma_steady_filter(before.requests@, since(deadline), time, later);
        lemma_filter_all(requests, until(later));
        law_forgetting_lowers_load(before.requests@, since(deadline), groups);
        if result is Ok && result->Ok_0 is Some {
            let group = PreReservedGroup {
                id: result->Ok_0->0,
                group_type,
                pre_reserved_requests_count: requests_count,
            };
            law_reserving_raises_load(requests, groups, group);
        }
    }
}

/// Letting a request through, or refusing it, leaves a steady manager steady.
pub proof fn law_letting_through_keeps_steady(
    before: RequestsTimeoutManager,
    after: RequestsTimeoutManager,
    time: DateTime,
    later: DateTime,
    request_type: RequestType,
    result: Result<bool, TimeoutError>,
)
    requires
        steady(before, time),
        !later.precedes(time),
        after.lets_through(&before, request_type, later, result),
        after.wf(),
    ensures
        steady(after, later),
{
    law_steady_accepts(before, time, later, request_type);
    let groups = before.pre_reserved_groups@;
    if later.minus(before.period_duration) is Some {
        let deadline = later.minus(before.period_duration)->0;
        let requests = kept(before.requests@, deadline);
        lemma_filter_sorted(before.requests@, since(deadline));
        lemma_steady_filter(before.requests@, since(deadline), time, later);
        lemma_filter_all(requests, until(later));
        law_forgetting_lowers_load(before.requests@, since(deadline), groups);
        if load_at(requests, groups, later) != before.requests_per_period {
            let request = Request { request_type, allowed_start_time: later, group_id: None };
            let i = start_time_position(requests, later);
            lemma_load_one_more(requests, i, request, groups);
            assert forall|j: int| 0 <= j < after.requests@.len() implies !later.precedes(
                (#[trigger] after.requests@[j]).allowed_start_time,
            ) by {
                if j < i {
                    assert(after.requests@[j] == requests[j]);
                } else if j > i {
                    assert(after.requests@[j] == requests[j - 1]);
                }
            }
        }
    }
}

/// Giving up a group, whether there is one or not, leaves a steady manager steady.
pub proof fn law_removing_keeps_steady(
    before: RequestsTimeoutManager,
    after: RequestsTimeoutManager,
    time: DateTime,
    id: GroupId,
    removed: bool,
)
    requires
        steady(before, time),
        after.gives_up(&before, id, removed),
    ensures
        steady(after, time),
{
    if removed {
        let index = choose|index: int|
            #[trigger] is_first_group(before.pre_reserved_groups@, id, index)
                && after.pre_reserved_groups@ == before.pre_reserved_groups@.remove(index);
        law_removing_lowers_load(before.requests@, before.pre_reserved_groups@, id, index);
    }
}

} // verus!
