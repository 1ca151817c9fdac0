//! What is counted and what each call does, in terms of the requests and groups themselves.
use crate::market::ExchangeAccountId;
use crate::time::{DateTime, Duration};
use crate::timeouts::counts::{
    counted, groups_share, has_group, in_group, in_groups, lemma_counted_filter,
    lemma_counted_partition, lemma_counted_same, load, out_of_groups, since, sorted, unmarked,
    until,
};
use crate::timeouts::laws::{
    law_new_is_steady, law_reserving_raises_load, lemma_counted_split, lemma_groups_share_push,
    lemma_has_group_push, lemma_has_group_remove, steady,
};
use crate::timeouts::manager::{
    inserted, is_first_group, kept, last_start, load_at, load_before, start_time_position,
    RequestsTimeoutManager,
};
use crate::timeouts::request::{
    GroupId, PreReservedGroup, Request, RequestType, RequestsCountsInPeriodResult, TimeoutError,
    TimeoutEvent,
};
use vstd::prelude::*;

verus! {

/// Predicates that agree on the requests filter the same ones.
proof fn lemma_filter_same(
    requests: Seq<Request>,
    one: spec_fn(Request) -> bool,
    other: spec_fn(Request) -> bool,
)
    requires
        forall|request: Request| #[trigger] one(request) == other(request),
    ensures
        requests.filter(one) == requests.filter(other),
    decreases requests.len(),
{
    reveal(Seq::filter);
    if requests.len() > 0 {
        lemma_filter_same(requests.drop_last(), one, other);
        assert(one(requests.last()) == other(requests.last()));
    }
}

/// As many requests are counted as satisfy the predicate.
pub proof fn law_counted_is_number(requests: Seq<Request>, pick: spec_fn(Request) -> bool)
    ensures
        counted(requests, pick) == requests.filter(pick).len(),
    decreases requests.len(),
{
    reveal(Seq::filter);
    if requests.len() > 0 {
        law_counted_is_number(requests.drop_last(), pick);
    }
}

/// A request has started by a moment if it starts then or earlier, and is no older than a
/// moment if it starts then or later.
pub proof fn law_started_and_recent(request: Request, time: DateTime)
    ensures
        until(time)(request) <==> {
            ||| request.allowed_start_time.secs < time.secs
            ||| request.allowed_start_time.secs == time.secs && request.allowed_start_time.nanos
                <= time.nanos
        },
        since(time)(request) <==> {
            ||| request.allowed_start_time.secs > time.secs
            ||| request.allowed_start_time.secs == time.secs && request.allowed_start_time.nanos
                >= time.nanos
        },
{
}

/// A request is a group's if it names the group, and it is of a standing group if one of the
/// groups has the identifier that it names.
pub proof fn law_requests_of_groups(
    groups: Seq<PreReservedGroup>,
    id: GroupId,
    request: Request,
)
    ensures
        has_group(groups, id) <==> groups.map_values(|group: PreReservedGroup| group.id).contains(
            id,
        ),
        in_group(id)(request) <==> request.group_id == Some(id),
        in_groups(groups)(request) <==> (exists|i: int|
            0 <= i < groups.len() && request.group_id == Some((#[trigger] groups[i]).id)),
        out_of_groups(groups)(request) <==> (forall|i: int|
            0 <= i < groups.len() ==> request.group_id != Some((#[trigger] groups[i]).id)),
{
    let ids = groups.map_values(|group: PreReservedGroup| group.id);
    if has_group(groups, id) {
        let i = choose|i: int| 0 <= i < groups.len() && #[trigger] groups[i].id == id;
        assert(ids[i] == id);
    }
    if ids.contains(id) {
        let i = choose|i: int| 0 <= i < ids.len() && ids[i] == id;
        assert(groups[i].id == id);
    }
}

/// Just the requests that start at the deadline or later are kept, in their order.
pub proof fn law_kept_are_recent(requests: Seq<Request>, deadline: DateTime)
    ensures
        kept(requests, deadline) == requests.filter(
            |request: Request|
                request.allowed_start_time.secs > deadline.secs || (request.allowed_start_time.secs
                    == deadline.secs && request.allowed_start_time.nanos >= deadline.nanos),
        ),
{
    let recent = |request: Request|
        request.allowed_start_time.secs > deadline.secs || (request.allowed_start_time.secs
            == deadline.secs && request.allowed_start_time.nanos >= deadline.nanos);
    assert forall|request: Request| #[trigger] since(deadline)(request) == recent(request) by {
        law_started_and_recent(request, deadline);
    }
    lemma_filter_same(requests, since(deadline), recent);
}

/// What is taken up at a moment is what the requests that start then or earlier and the groups
/// take up.
pub proof fn law_load_at_counts_started(
    requests: Seq<Request>,
    groups: Seq<PreReservedGroup>,
    time: DateTime,
)
    ensures
        load_at(requests, groups, time) == load(
            requests.filter(
                |request: Request|
                    request.allowed_start_time.secs < time.secs || (request.allowed_start_time.secs
                        == time.secs && request.allowed_start_time.nanos <= time.nanos),
            ),
            groups,
        ),
{
    let started = |request: Request|
        request.allowed_start_time.secs < time.secs || (request.allowed_start_time.secs
            == time.secs && request.allowed_start_time.nanos <= time.nanos);
    assert forall|request: Request| #[trigger] until(time)(request) == started(request) by {
        law_started_and_recent(request, time);
    }
    lemma_filter_same(requests, until(time), started);
}

/// What the period before a moment takes up is what the requests since its beginning and the
/// groups take up.
pub proof fn law_load_before_counts_recent(
    requests: Seq<Request>,
    groups: Seq<PreReservedGroup>,
    last: DateTime,
    period: Duration,
    begin: DateTime,
)
    requires
        last.minus(period) == Some(begin),
    ensures
        load_before(requests, groups, last, period) == load(
            requests.filter(
                |request: Request|
                    request.allowed_start_time.secs > begin.secs
                        || (request.allowed_start_time.secs == begin.secs
                        && request.allowed_start_time.nanos >= begin.nanos),
            ),
            groups,
        ),
{
    law_kept_are_recent(requests, begin);
}

/// Where there are no groups, every request takes up one.
pub proof fn law_load_without_groups(requests: Seq<Request>, groups: Seq<PreReservedGroup>)
    requires
        groups.len() == 0,
    ensures
        load(requests, groups) == requests.len(),
        groups_share(requests, groups) == 0,
{
    lemma_counted_partition(requests, groups);
    lemma_counted_same(requests, in_groups(groups), |request: Request| false);
    law_counted_is_number(requests, |request: Request| false);
    lemma_filter_none(requests);
}

/// Nothing passes a predicate that holds of nothing.
proof fn lemma_filter_none(requests: Seq<Request>)
    ensures
        requests.filter(|request: Request| false).len() == 0,
    decreases requests.len(),
{
    reveal(Seq::filter);
    if requests.len() > 0 {
        lemma_filter_none(requests.drop_last());
    }
}

/// Every request is counted once: those of standing groups within what the groups take up, and
/// all others beside it.
pub proof fn law_load_counts_requests_once(requests: Seq<Request>, groups: Seq<PreReservedGroup>)
    ensures
        load(requests, groups) + requests.filter(in_groups(groups)).len() == requests.len()
            + groups_share(requests, groups),
{
    lemma_counted_partition(requests, groups);
    law_counted_is_number(requests, in_groups(groups));
}

/// A group under a new identifier takes up what it reserves, or what was used of it where that
/// is more. What was used of it no longer counts beside the groups, so that it takes up only
/// what it reserves beyond that.
pub proof fn law_load_with_new_group(
    requests: Seq<Request>,
    groups: Seq<PreReservedGroup>,
    group: PreReservedGroup,
)
    requires
        !has_group(groups, group.id),
    ensures
        ({
            let used = requests.filter(
                |request: Request| request.group_id == Some(group.id),
            ).len();
            let reserved = group.pre_reserved_requests_count;
            let all = groups.push(group);
            &&& groups_share(requests, all) == groups_share(requests, groups) + (if used
                > reserved {
                used as int
            } else {
                reserved as int
            })
            &&& load(requests, all) == load(requests, groups) + (if used > reserved {
                0int
            } else {
                reserved - used
            })
        }),
{
    let own = |request: Request| request.group_id == Some(group.id);
    let all = groups.push(group);
    lemma_groups_share_push(requests, groups, group);
    law_counted_is_number(requests, in_group(group.id));
    lemma_filter_same(requests, in_group(group.id), own);
    assert forall|request: Request| #[trigger]
        out_of_groups(groups)(request) == (out_of_groups(all)(request) || in_group(group.id)(
            request,
        )) by {
        if request.group_id is Some {
            lemma_has_group_push(groups, group, request.group_id->0);
        }
    }
    assert forall|request: Request| !(#[trigger] out_of_groups(all)(request) && in_group(group.id)(
        request,
    )) by {
        if request.group_id is Some {
            lemma_has_group_push(groups, group, request.group_id->0);
        }
    }
    lemma_counted_split(requests, out_of_groups(groups), out_of_groups(all), in_group(group.id));
}

/// Where several groups share an identifier, the last one stands for them: an earlier one might
/// as well not be there.
pub proof fn law_last_group_stands(
    requests: Seq<Request>,
    groups: Seq<PreReservedGroup>,
    index: int,
    group: PreReservedGroup,
)
    requires
        0 <= index < groups.len(),
        groups[index].id == group.id,
    ensures
        groups_share(requests, groups.push(group)) == groups_share(
            requests,
            groups.remove(index).push(group),
        ),
        load(requests, groups.push(group)) == load(requests, groups.remove(index).push(group)),
    decreases groups.len(),
{
    let all = groups.push(group);
    let fewer = groups.remove(index).push(group);
    assert(fewer =~= all.remove(index));
    assert forall|id: GroupId| has_group(all, id) == #[trigger] has_group(fewer, id) by {
        lemma_has_group_remove(all, index, id);
        lemma_has_group_push(groups.remove(index), group, id);
    }
    lemma_counted_same(requests, out_of_groups(all), out_of_groups(fewer));
    let rest = groups.drop_first();
    assert(all.drop_first() =~= rest.push(group));
    if index == 0 {
        assert(groups.remove(index) =~= rest);
        lemma_has_group_push(rest, group, groups[0].id);
    } else {
        law_last_group_stands(requests, rest, index - 1, group);
        assert(fewer.drop_first() =~= rest.remove(index - 1).push(group));
        assert(rest.push(group).remove(index - 1) =~= rest.remove(index - 1).push(group));
        lemma_has_group_remove(rest.push(group), index - 1, groups[0].id);
        lemma_has_group_push(rest.remove(index - 1), group, groups[0].id);
    }
}

/// Requests are in order if each starts no later than those behind it.
pub proof fn law_sorted_by_start(requests: Seq<Request>)
    ensures
        sorted(requests) <==> forall|i: int, j: int|
            0 <= i < j < requests.len() ==> {
                let (one, other) = (
                    (#[trigger] requests[i]).allowed_start_time,
                    (#[trigger] requests[j]).allowed_start_time,
                );
                one.secs < other.secs || (one.secs == other.secs && one.nanos <= other.nanos)
            },
{
}

/// A request joins the others once, leaves them as they were and in their order, and is found
/// in the order of start times.
pub proof fn law_insertion_adds_one(before: Seq<Request>, request: Request, after: Seq<Request>)
    requires
        inserted(before, request, after),
    ensures
        after.len() == before.len() + 1,
        exists|i: int|
            0 <= i < after.len() && #[trigger] after[i] == request && after.remove(i) == before,
        sorted(after),
{
    let i = start_time_position(before, request.allowed_start_time);
    assert(after[i] == request);
    assert(after.remove(i) =~= before);
}

/// The last start time is that of a request, and none starts later.
pub proof fn law_last_start_is_last(requests: Seq<Request>, time: DateTime)
    requires
        sorted(requests),
    ensures
        ({
            let last = last_start(requests, time);
            &&& last == time || exists|i: int|
                0 <= i < requests.len() && (#[trigger] requests[i]).allowed_start_time == last
            &&& !last.precedes(time)
            &&& forall|i: int|
                0 <= i < requests.len() ==> !last.precedes(
                    (#[trigger] requests[i]).allowed_start_time,
                )
        }),
{
    let last = last_start(requests, time);
    if requests.len() > 0 {
        let end = requests.len() - 1;
        assert(requests[end] == requests.last());
        assert forall|i: int| 0 <= i < requests.len() implies !last.precedes(
            (#[trigger] requests[i]).allowed_start_time,
        ) by {
            if i < end {
                assert(!requests[end].allowed_start_time.precedes(requests[i].allowed_start_time));
            }
        }
        if last != time {
            assert(requests[end].allowed_start_time == last);
        }
    }
}

/// A manager goes by the time that a call names, unless it has reserved a group later than
/// that: then it goes by the time of the group.
pub proof fn law_now_is_latest(manager: RequestsTimeoutManager, time: DateTime, now: DateTime)
    requires
        call_ensures(
            RequestsTimeoutManager::get_non_decreasing_time,
            (&manager, time),
            now,
        ),
    ensures
        now == manager.now(time),
        manager.last_time is None ==> now == time,
        manager.last_time matches Some(last) ==> {
            &&& last.secs < time.secs ==> now == time
            &&& last.secs > time.secs ==> now == last
            &&& last.secs == time.secs && last.nanos < time.nanos ==> now == time
            &&& last.secs == time.secs && last.nanos >= time.nanos ==> now == last
        },
{
}

/// The requests that are free, whatever their time, and those that were let through make up
/// the limit. None is free where more were let through than the limit allows.
pub proof fn law_available_fills_limit(manager: RequestsTimeoutManager, available: usize)
    requires
        call_ensures(
            RequestsTimeoutManager::get_all_available_requests_count,
            (&manager,),
            available,
        ),
    ensures
        manager.requests@.len() <= manager.requests_per_period ==> available
            + manager.requests@.len() == manager.requests_per_period,
        manager.requests@.len() > manager.requests_per_period ==> available == 0,
        available == manager.all_available(),
{
}

/// Of the requests that have started by a moment, all are counted, and among them those of
/// standing groups; beside them, what the groups take up.
pub proof fn law_counts_at_present(
    manager: RequestsTimeoutManager,
    time: DateTime,
    counts: RequestsCountsInPeriodResult,
)
    requires
        call_ensures(
            RequestsTimeoutManager::get_reserved_requests_count_at_present,
            (&manager, time),
            counts,
        ),
    ensures
        ({
            let groups = manager.pre_reserved_groups@;
            let started = manager.requests@.filter(
                |request: Request| !time.precedes(request.allowed_start_time),
            );
            let grouped = |request: Request|
                exists|i: int|
                    0 <= i < groups.len() && request.group_id == Some((#[trigger] groups[i]).id);
            &&& counts.requests_count == started.len()
            &&& counts.reserved_in_groups_requests_count == started.filter(grouped).len()
            &&& counts.vacant_and_reserved_in_groups_requests_count == groups_share(started, groups)
        }),
{
    let groups = manager.pre_reserved_groups@;
    let raw = |request: Request| !time.precedes(request.allowed_start_time);
    let grouped = |request: Request|
        exists|i: int|
            0 <= i < groups.len() && request.group_id == Some((#[trigger] groups[i]).id);
    lemma_filter_same(manager.requests@, until(time), raw);
    let started = manager.requests@.filter(raw);
    law_counted_is_number(started, in_groups(groups));
    assert forall|request: Request| #[trigger] in_groups(groups)(request) == grouped(request) by {
        law_requests_of_groups(groups, 0, request);
    }
    lemma_filter_same(started, in_groups(groups), grouped);
}

/// Of the requests of the period before the last request, all are counted, and among them those
/// of standing groups; beside them, what the groups take up. What is free then makes up the
/// limit with what these take up.
pub proof fn law_counts_at_last_request(
    manager: RequestsTimeoutManager,
    begin: DateTime,
    counts: RequestsCountsInPeriodResult,
    available: usize,
)
    requires
        manager.within_limit_at_last(),
        manager.requests@.len() > 0,
        manager.requests@.last().allowed_start_time.minus(manager.period_duration) == Some(begin),
        call_ensures(
            RequestsTimeoutManager::get_requests_count_at_last_request_time,
            (&manager,),
            Ok(counts),
        ),
        call_ensures(
            RequestsTimeoutManager::get_available_requests_in_last_period,
            (&manager,),
            Ok(available),
        ),
    ensures
        ({
            let groups = manager.pre_reserved_groups@;
            let recent = manager.requests@.filter(
                |request: Request| !request.allowed_start_time.precedes(begin),
            );
            let grouped = |request: Request|
                exists|i: int|
                    0 <= i < groups.len() && request.group_id == Some((#[trigger] groups[i]).id);
            &&& counts.requests_count == recent.len()
            &&& counts.reserved_in_groups_requests_count == recent.filter(grouped).len()
            &&& counts.vacant_and_reserved_in_groups_requests_count == groups_share(recent, groups)
            &&& available + counts.requests_count
                + counts.vacant_and_reserved_in_groups_requests_count
                == manager.requests_per_period + counts.reserved_in_groups_requests_count
        }),
{
    let groups = manager.pre_reserved_groups@;
    let raw = |request: Request| !request.allowed_start_time.precedes(begin);
    let grouped = |request: Request|
        exists|i: int|
            0 <= i < groups.len() && request.group_id == Some((#[trigger] groups[i]).id);
    lemma_filter_same(manager.requests@, since(begin), raw);
    let recent = manager.requests@.filter(raw);
    law_counted_is_number(recent, in_groups(groups));
    lemma_counted_partition(recent, groups);
    assert forall|request: Request| #[trigger] in_groups(groups)(request) == grouped(request) by {
        law_requests_of_groups(groups, 0, request);
    }
    lemma_filter_same(recent, in_groups(groups), grouped);
}

/// The last request is the one behind all others, and there is none only where none was let
/// through.
pub proof fn law_last_request_is_last(
    manager: RequestsTimeoutManager,
    result: Result<Request, TimeoutError>,
)
    requires
        call_ensures(RequestsTimeoutManager::get_last_request, (&manager,), result),
    ensures
        result is Ok <==> manager.requests@.len() > 0,
        result matches Ok(request) ==> request == manager.requests@[manager.requests@.len() - 1],
        result is Err ==> result == Err::<Request, TimeoutError>(TimeoutError::NoLastRequest),
{
}

/// The requests that are free at a moment and what is taken up then make up the limit.
pub proof fn law_available_at_present_fills_limit(
    manager: RequestsTimeoutManager,
    time: DateTime,
    available: usize,
)
    requires
        call_ensures(
            RequestsTimeoutManager::get_available_requests_count_at_persent,
            (&manager, time),
            available,
        ),
    ensures
        available + load_at(manager.requests@, manager.pre_reserved_groups@, time)
            == manager.requests_per_period,
{
}

/// The limit holds at a moment if what the kept requests and the groups take up then is no more
/// than it, or if the period has no beginning.
pub proof fn law_within_limit_means_no_excess(
    manager: RequestsTimeoutManager,
    time: DateTime,
    within: bool,
)
    requires
        call_ensures(RequestsTimeoutManager::is_within_limit_at, (&manager, time), within),
    ensures
        ({
            let now = manager.now(time);
            let deadline = now.minus(manager.period_duration);
            within <==> deadline is None || load_at(
                kept(manager.requests@, deadline->0),
                manager.pre_reserved_groups@,
                now,
            ) <= manager.requests_per_period
        }),
{
}

/// A request can be asked for if the limit holds and either nothing is free or the period
/// before the last request, with the new one, has a beginning and keeps the limit.
pub proof fn law_reservable_means_no_excess(
    manager: RequestsTimeoutManager,
    request_type: RequestType,
    time: DateTime,
    able: bool,
)
    requires
        call_ensures(
            RequestsTimeoutManager::is_request_reservable,
            (&manager, request_type, time),
            able,
        ),
    ensures
        ({
            let now = manager.now(time);
            let deadline = now.minus(manager.period_duration);
            let requests = kept(manager.requests@, deadline->0);
            let groups = manager.pre_reserved_groups@;
            let taken = load_at(requests, groups, now);
            let last = last_start(requests, now);
            let request = Request { request_type, allowed_start_time: now, group_id: None };
            able <==> {
                ||| deadline is None
                ||| taken == manager.requests_per_period
                ||| {
                    &&& taken < manager.requests_per_period
                    &&& last.minus(manager.period_duration) is Some
                    &&& load_before(requests.push(request), groups, last, manager.period_duration)
                        <= manager.requests_per_period
                }
            }
        }),
{
}

/// A group is refused only if it does not fit. Where what the kept requests and the groups take
/// up leaves room for all its requests, it is granted and stands behind the other groups, with
/// what was asked for; where it does not, nothing is reserved.
pub proof fn law_group_is_granted_if_it_fits(
    before: RequestsTimeoutManager,
    after: RequestsTimeoutManager,
    group_type: String,
    time: DateTime,
    requests_count: usize,
    result: Result<Option<GroupId>, TimeoutError>,
    deadline: DateTime,
)
    requires
        after.answers_group(&before, group_type, time, requests_count, result),
        before.now(time).minus(before.period_duration) == Some(deadline),
    ensures
        ({
            let now = before.now(time);
            let requests = kept(before.requests@, deadline);
            let groups = before.pre_reserved_groups@;
            let standing = after.pre_reserved_groups@;
            let fits = load_at(requests, groups, now) + requests_count
                <= before.requests_per_period;
            &&& fits ==> {
                &&& result matches Ok(Some(id))
                &&& standing.len() == groups.len() + 1
                &&& standing.drop_last() == groups
                &&& standing.last().id == id
                &&& standing.last().group_type == group_type
                &&& standing.last().pre_reserved_requests_count == requests_count
                &&& after.last_time == Some(now)
                &&& after.events@.len() == before.events@.len() + 1
                &&& after.events@.drop_last() == before.events@
                &&& after.events@.last() == TimeoutEvent::GroupWasReserved(standing.last())
            }
            &&& !fits ==> {
                &&& result == Ok::<Option<GroupId>, TimeoutError>(None)
                &&& standing == groups
                &&& after.last_time == before.last_time
                &&& after.events@ == before.events@
            }
            &&& after.requests@ == requests
            &&& after.requests_per_period == before.requests_per_period
            &&& after.period_duration == before.period_duration
            &&& after.exchange_account_id == before.exchange_account_id
        }),
{
    let groups = before.pre_reserved_groups@;
    let standing = after.pre_reserved_groups@;
    if result is Ok && result->Ok_0 is Some {
        assert(standing.drop_last() =~= groups);
        assert(after.events@.drop_last() =~= before.events@);
    }
}

/// Where no group stands, a group is granted exactly if the requests that start between the
/// beginning of the period and the time of the call leave room for it.
pub proof fn law_first_group_is_granted_by_number(
    before: RequestsTimeoutManager,
    after: RequestsTimeoutManager,
    group_type: String,
    time: DateTime,
    requests_count: usize,
    result: Result<Option<GroupId>, TimeoutError>,
    deadline: DateTime,
)
    requires
        after.answers_group(&before, group_type, time, requests_count, result),
        before.pre_reserved_groups@.len() == 0,
        before.last_time is None,
        time.minus(before.period_duration) == Some(deadline),
    ensures
        ({
            let recent = |request: Request|
                !request.allowed_start_time.precedes(deadline) && !time.precedes(
                    request.allowed_start_time,
                );
            let fits = before.requests@.filter(recent).len() + requests_count
                <= before.requests_per_period;
            &&& fits <==> result is Ok && result->Ok_0 is Some
            &&& fits ==> after.pre_reserved_groups@.len() == 1
            &&& !fits ==> result == Ok::<Option<GroupId>, TimeoutError>(None)
                && after.pre_reserved_groups@.len() == 0
        }),
{
    let recent = |request: Request|
        !request.allowed_start_time.precedes(deadline) && !time.precedes(
            request.allowed_start_time,
        );
    let requests = kept(before.requests@, deadline);
    law_load_without_groups(requests.filter(until(time)), before.pre_reserved_groups@);
    law_counted_is_number(requests, until(time));
    lemma_counted_filter(before.requests@, since(deadline), until(time));
    let both = |request: Request| since(deadline)(request) && until(time)(request);
    law_counted_is_number(before.requests@, both);
    lemma_filter_same(before.requests@, both, recent);
}

/// Where a group is granted, every smaller one would have been.
pub proof fn law_smaller_group_is_granted(
    before: RequestsTimeoutManager,
    larger_after: RequestsTimeoutManager,
    smaller_after: RequestsTimeoutManager,
    larger_type: String,
    smaller_type: String,
    time: DateTime,
    larger: usize,
    smaller: usize,
    id: GroupId,
    result: Result<Option<GroupId>, TimeoutError>,
)
    requires
        smaller <= larger,
        larger_after.answers_group(&before, larger_type, time, larger, Ok(Some(id))),
        smaller_after.answers_group(&before, smaller_type, time, smaller, result),
    ensures
        result is Ok && result->Ok_0 is Some,
{
}

/// A granted group of which nothing was used leaves room for as many fewer requests as it
/// reserves: what fits beside it is what would have fitted with it.
pub proof fn law_granted_group_takes_its_room(
    before: RequestsTimeoutManager,
    after: RequestsTimeoutManager,
    group_type: String,
    time: DateTime,
    requests_count: usize,
    id: GroupId,
    deadline: DateTime,
)
    requires
        after.answers_group(&before, group_type, time, requests_count, Ok(Some(id))),
        before.now(time).minus(before.period_duration) == Some(deadline),
        !has_group(before.pre_reserved_groups@, id),
        forall|i: int|
            0 <= i < before.requests@.len() ==> (#[trigger] before.requests@[i]).group_id != Some(
                id,
            ),
    ensures
        ({
            let now = before.now(time);
            let requests = kept(before.requests@, deadline);
            &&& load_at(after.requests@, after.pre_reserved_groups@, now) == load_at(
                requests,
                before.pre_reserved_groups@,
                now,
            ) + requests_count
            &&& load_at(after.requests@, after.pre_reserved_groups@, now)
                <= after.requests_per_period
        }),
{
    let now = before.now(time);
    let requests = kept(before.requests@, deadline);
    let inside = requests.filter(until(now));
    let group = PreReservedGroup { id, group_type, pre_reserved_requests_count: requests_count };
    assert forall|i: int| 0 <= i < inside.len() implies (#[trigger] inside[i]).group_id != Some(
        id,
    ) by {
        assert(inside.contains(inside[i]));
        requests.lemma_filter_contains_rev(until(now), inside[i]);
        let j = choose|j: int| 0 <= j < requests.len() && requests[j] == inside[i];
        assert(requests.contains(requests[j]));
        before.requests@.lemma_filter_contains_rev(since(deadline), requests[j]);
        let k = choose|k: int|
            0 <= k < before.requests@.len() && before.requests@[k] == requests[j];
        assert(before.requests@[k].group_id != Some(id));
    }
    law_reserving_raises_load(inside, before.pre_reserved_groups@, group);
}

/// Where the period has no beginning, asking for a group fails and changes nothing. It fails
/// nowhere else.
pub proof fn law_asking_fails_without_period(
    before: RequestsTimeoutManager,
    after: RequestsTimeoutManager,
    group_type: String,
    time: DateTime,
    requests_count: usize,
    result: Result<Option<GroupId>, TimeoutError>,
)
    requires
        after.answers_group(&before, group_type, time, requests_count, result),
    ensures
        result is Err <==> before.now(time).minus(before.period_duration) is None,
        result is Err ==> result == Err::<Option<GroupId>, TimeoutError>(
            TimeoutError::UnableToSubtractTimePeriods,
        ) && after == before,
{
}

/// A group is given up if one has the identifier, and then the first that has it: the others
/// stay in their order, the listeners are told which one left, and the requests stay.
pub proof fn law_giving_up_takes_one_group(
    before: RequestsTimeoutManager,
    after: RequestsTimeoutManager,
    id: GroupId,
    removed: bool,
)
    requires
        after.gives_up(&before, id, removed),
    ensures
        ({
            let groups = before.pre_reserved_groups@;
            &&& removed <==> exists|i: int| 0 <= i < groups.len() && (#[trigger] groups[i]).id == id
            &&& !removed ==> after == before
            &&& removed ==> exists|i: int|
                {
                    &&& 0 <= i < groups.len()
                    &&& (#[trigger] groups[i]).id == id
                    &&& forall|j: int| 0 <= j < i ==> (#[trigger] groups[j]).id != id
                    &&& after.pre_reserved_groups@ == groups.take(i) + groups.skip(i + 1)
                    &&& after.events@ == before.events@ + seq![
                        TimeoutEvent::GroupWasRemoved(groups[i]),
                    ]
                }
            &&& after.requests@ == before.requests@
            &&& after.last_time == before.last_time
            &&& after.requests_per_period == before.requests_per_period
            &&& after.period_duration == before.period_duration
            &&& after.exchange_account_id == before.exchange_account_id
        }),
{
    if removed {
        let groups = before.pre_reserved_groups@;
        let index = choose|index: int|
            {
                &&& #[trigger] is_first_group(before.pre_reserved_groups@, id, index)
                &&& after.pre_reserved_groups@ == groups.remove(index)
                &&& after.events@ == before.events@.push(
                    TimeoutEvent::GroupWasRemoved(groups[index]),
                )
            };
        assert(groups[index].id == id);
        assert(groups.remove(index) =~= groups.take(index) + groups.skip(index + 1));
        assert(after.events@ =~= before.events@ + seq![
            TimeoutEvent::GroupWasRemoved(groups[index]),
        ]);
    }
}

/// A request that is added stands among the others in the order of start times. The listeners
/// on a low number are told how many requests are free whatever their time; those on a high
/// number are scheduled with what is free over the period before the last request.
pub proof fn law_adding_tells_what_is_free(
    before: RequestsTimeoutManager,
    after: RequestsTimeoutManager,
    requests: Seq<Request>,
    request: Request,
)
    requires
        after.adds(&before, requests, request),
        before.can_add(requests, request),
    ensures
        after.requests@.len() == requests.len() + 1,
        exists|i: int|
            0 <= i < after.requests@.len() && #[trigger] after.requests@[i] == request
                && after.requests@.remove(i) == requests,
        sorted(after.requests@),
        after.events@.len() == before.events@.len() + 2,
        after.events@.take(before.events@.len() as int) == before.events@,
        after.events@[before.events@.len() as int] matches TimeoutEvent::HandleDecreasingTriggers {
            available_requests_count,
        } && {
            &&& after.requests@.len() <= before.requests_per_period ==> available_requests_count
                + after.requests@.len() == before.requests_per_period
            &&& after.requests@.len() > before.requests_per_period ==> available_requests_count
                == 0
        },
        after.events@.last() matches TimeoutEvent::ScheduleIncreasingTriggers {
            available_requests_count,
            last_request_time,
            period_duration,
        } && {
            &&& last_request_time == after.requests@.last().allowed_start_time
            &&& period_duration == before.period_duration
            &&& available_requests_count + load_before(
                after.requests@,
                before.pre_reserved_groups@,
                last_request_time,
                period_duration,
            ) == before.requests_per_period
        },
        after.pre_reserved_groups@ == before.pre_reserved_groups@,
        after.last_time == before.last_time,
        after.requests_per_period == before.requests_per_period,
        after.period_duration == before.period_duration,
        after.exchange_account_id == before.exchange_account_id,
{
    law_insertion_adds_one(requests, request, after.requests@);
    let i = start_time_position(requests, request.allowed_start_time);
    crate::timeouts::counts::lemma_load_insert(
        requests,
        i,
        request,
        since(last_start(requests, request.allowed_start_time).minus(before.period_duration)->0),
        before.pre_reserved_groups@,
    );
    assert(after.events@.take(before.events@.len() as int) =~= before.events@);
}

/// A request is let through exactly if one is free: what the kept requests and the groups take
/// up then is below the limit. It joins the kept requests at the time that the manager goes
/// by, out of group. Where none is free, outdated requests are forgotten and nothing else
/// changes. No group changes either way.
pub proof fn law_request_is_let_through_if_one_is_free(
    before: RequestsTimeoutManager,
    after: RequestsTimeoutManager,
    request_type: RequestType,
    time: DateTime,
    result: Result<bool, TimeoutError>,
    deadline: DateTime,
)
    requires
        before.can_reserve_request(request_type, time),
        after.lets_through(&before, request_type, time, result),
        before.now(time).minus(before.period_duration) == Some(deadline),
    ensures
        ({
            let now = before.now(time);
            let requests = kept(before.requests@, deadline);
            let taken = load_at(requests, before.pre_reserved_groups@, now);
            let request = Request { request_type, allowed_start_time: now, group_id: None };
            &&& result == Ok::<bool, TimeoutError>(false)
            &&& taken < before.requests_per_period ==> {
                &&& after.requests@.len() == requests.len() + 1
                &&& exists|i: int|
                    0 <= i < after.requests@.len() && #[trigger] after.requests@[i] == request
                        && after.requests@.remove(i) == requests
                &&& after.events@.len() == before.events@.len() + 2
            }
            &&& taken >= before.requests_per_period ==> {
                &&& after.requests@ == requests
                &&& after.events@ == before.events@
            }
            &&& after.pre_reserved_groups@ == before.pre_reserved_groups@
            &&& after.last_time == before.last_time
            &&& after.requests_per_period == before.requests_per_period
            &&& after.period_duration == before.period_duration
            &&& after.exchange_account_id == before.exchange_account_id
        }),
{
    let now = before.now(time);
    let requests = kept(before.requests@, deadline);
    let request = Request { request_type, allowed_start_time: now, group_id: None };
    if load_at(requests, before.pre_reserved_groups@, now) < before.requests_per_period {
        law_adding_tells_what_is_free(before, after, requests, request);
    }
}

/// Where no group stands, a request is let through exactly if fewer requests than the limit
/// allows start between the beginning of the period and the time of the call.
pub proof fn law_request_is_let_through_by_number(
    before: RequestsTimeoutManager,
    after: RequestsTimeoutManager,
    request_type: RequestType,
    time: DateTime,
    result: Result<bool, TimeoutError>,
    deadline: DateTime,
)
    requires
        before.can_reserve_request(request_type, time),
        after.lets_through(&before, request_type, time, result),
        before.pre_reserved_groups@.len() == 0,
        before.last_time is None,
        time.minus(before.period_duration) == Some(deadline),
    ensures
        ({
            let recent = |request: Request|
                !request.allowed_start_time.precedes(deadline) && !time.precedes(
                    request.allowed_start_time,
                );
            let since_deadline = |request: Request| !request.allowed_start_time.precedes(deadline);
            let free = before.requests@.filter(recent).len() < before.requests_per_period;
            after.requests@.len() == before.requests@.filter(since_deadline).len() + (if free {
                1int
            } else {
                0int
            })
        }),
{
    let recent = |request: Request|
        !request.allowed_start_time.precedes(deadline) && !time.precedes(
            request.allowed_start_time,
        );
    let since_deadline = |request: Request| !request.allowed_start_time.precedes(deadline);
    let requests = kept(before.requests@, deadline);
    law_load_without_groups(requests.filter(until(time)), before.pre_reserved_groups@);
    law_counted_is_number(requests, until(time));
    lemma_counted_filter(before.requests@, since(deadline), until(time));
    let both = |request: Request| since(deadline)(request) && until(time)(request);
    law_counted_is_number(before.requests@, both);
    lemma_filter_same(before.requests@, both, recent);
    lemma_filter_same(before.requests@, since(deadline), since_deadline);
    law_request_is_let_through_if_one_is_free(
        before,
        after,
        request_type,
        time,
        result,
        deadline,
    );
}

/// Where the period has no beginning, asking for a request fails and changes nothing. It fails
/// nowhere else.
pub proof fn law_letting_through_fails_without_period(
    before: RequestsTimeoutManager,
    after: RequestsTimeoutManager,
    request_type: RequestType,
    time: DateTime,
    result: Result<bool, TimeoutError>,
)
    requires
        after.lets_through(&before, request_type, time, result),
    ensures
        result is Err <==> before.now(time).minus(before.period_duration) is None,
        result is Err ==> result == Err::<bool, TimeoutError>(
            TimeoutError::UnableToSubtractTimePeriods,
        ) && after == before,
{
}

/// A new manager holds what it was made with and has let nothing through and reserved nothing.
/// It is steady from any time on.
pub proof fn law_new_manager_is_empty(
    requests_per_period: usize,
    period_duration: Duration,
    exchange_account_id: ExchangeAccountId,
    manager: RequestsTimeoutManager,
    time: DateTime,
)
    requires
        period_duration.wf(),
        call_ensures(
            RequestsTimeoutManager::new,
            (requests_per_period, period_duration, exchange_account_id),
            manager,
        ),
    ensures
        manager.requests_per_period == requests_per_period,
        manager.period_duration == period_duration,
        manager.exchange_account_id == exchange_account_id,
        manager.requests@.len() == 0,
        manager.pre_reserved_groups@.len() == 0,
        manager.events@.len() == 0,
        manager.last_time is None,
        steady(manager, time),
{
    law_new_is_steady(manager, time);
}

/// Of the requests just those are forgotten that started before the beginning of the period,
/// and nothing else changes. Nothing is forgotten, and the call fails, where the period has no
/// beginning.
pub proof fn law_forgetting_keeps_recent(
    before: RequestsTimeoutManager,
    after: RequestsTimeoutManager,
    time: DateTime,
    result: Result<(), TimeoutError>,
)
    requires
        after.forgets(&before, time, result),
    ensures
        result is Err <==> time.minus(before.period_duration) is None,
        result is Err ==> after == before,
        time.minus(before.period_duration) matches Some(deadline) ==> {
            &&& forall|request: Request|
                #[trigger] after.requests@.contains(request) <==> before.requests@.contains(request)
                    && !request.allowed_start_time.precedes(deadline)
            &&& after.requests@.len() == before.requests@.filter(
                |request: Request| !request.allowed_start_time.precedes(deadline),
            ).len()
        },
        after.pre_reserved_groups@ == before.pre_reserved_groups@,
        after.events@ == before.events@,
        after.last_time == before.last_time,
        after.requests_per_period == before.requests_per_period,
        after.period_duration == before.period_duration,
        after.exchange_account_id == before.exchange_account_id,
{
    if let Some(deadline) = time.minus(before.period_duration) {
        let recent = |request: Request| !request.allowed_start_time.precedes(deadline);
        lemma_filter_same(before.requests@, since(deadline), recent);
        assert forall|request: Request| #[trigger]
            after.requests@.contains(request) <==> before.requests@.contains(request)
                && !request.allowed_start_time.precedes(deadline) by {
            if after.requests@.contains(request) {
                before.requests@.lemma_filter_contains_rev(since(deadline), request);
                lemma_filter_passes(before.requests@, since(deadline), request);
            }
            if before.requests@.contains(request) && since(deadline)(request) {
                let i = choose|i: int|
                    0 <= i < before.requests@.len() && before.requests@[i] == request;
                before.requests@.filter_lemma(since(deadline));
            }
        }
    }
}

/// What passed the filter satisfies the predicate.
proof fn lemma_filter_passes(
    requests: Seq<Request>,
    keep: spec_fn(Request) -> bool,
    request: Request,
)
    requires
        requests.filter(keep).contains(request),
    ensures
        keep(request),
{
    requests.filter_lemma(keep);
}

/// A request that is put among the others is the one that was asked for, with its type, its
/// time and its group, and it is handed back.
pub proof fn law_taking_in_hands_back(
    before: RequestsTimeoutManager,
    after: RequestsTimeoutManager,
    request_type: RequestType,
    time: DateTime,
    group_id: Option<GroupId>,
    result: Result<Request, TimeoutError>,
)
    requires
        after.takes_in(&before, request_type, time, group_id, result),
    ensures
        result matches Ok(request) && {
            &&& request.request_type == request_type
            &&& request.allowed_start_time == time
            &&& request.group_id == group_id
            &&& after.adds(&before, before.requests@, request)
            &&& after.requests@.contains(request)
            &&& after.requests@.len() == before.requests@.len() + 1
        },
{
    let request = result->Ok_0;
    law_insertion_adds_one(before.requests@, request, after.requests@);
}

/// A request can be added if the period before the last start time has a beginning and its
/// requests, with the new one, keep the limit beside the groups.
pub proof fn law_addable_means_no_excess(
    manager: RequestsTimeoutManager,
    requests: Seq<Request>,
    request: Request,
)
    ensures
        ({
            let last = last_start(requests, request.allowed_start_time);
            let begin = last.minus(manager.period_duration);
            manager.can_add(requests, request) <==> begin is Some && load(
                requests.push(request).filter(
                    |one: Request| !one.allowed_start_time.precedes(begin->0),
                ),
                manager.pre_reserved_groups@,
            ) <= manager.requests_per_period
        }),
{
    let last = last_start(requests, request.allowed_start_time);
    let begin = last.minus(manager.period_duration);
    lemma_filter_same(
        requests.push(request),
        since(begin->0),
        |one: Request| !one.allowed_start_time.precedes(begin->0),
    );
}

/// The limit holds in the period before the last request if that has a beginning and its
/// requests keep the limit beside the groups, or if there is no request.
pub proof fn law_last_period_means_no_excess(manager: RequestsTimeoutManager)
    ensures
        ({
            let last = manager.requests@.last().allowed_start_time;
            let begin = last.minus(manager.period_duration);
            manager.within_limit_at_last() <==> manager.requests@.len() == 0 || (begin is Some
                && load(
                manager.requests@.filter(
                    |request: Request| !request.allowed_start_time.precedes(begin->0),
                ),
                manager.pre_reserved_groups@,
            ) <= manager.requests_per_period)
        }),
{
    let last = manager.requests@.last().allowed_start_time;
    let begin = last.minus(manager.period_duration);
    lemma_filter_same(
        manager.requests@,
        since(begin->0),
        |request: Request| !request.allowed_start_time.precedes(begin->0),
    );
}

/// Request by request, those that are marked are left out and the others stay in their order.
pub proof fn law_unmarked_are_picked_in_order(
    requests: Seq<Request>,
    outside: Seq<bool>,
    request: Request,
    mark: bool,
)
    requires
        requests.len() == outside.len(),
    ensures
        unmarked(requests.push(request), outside.push(mark)) == (if mark {
            unmarked(requests, outside)
        } else {
            unmarked(requests, outside).push(request)
        }),
        requests.len() == 0 ==> unmarked(requests, outside).len() == 0,
{
    assert(requests.push(request).drop_last() =~= requests);
    assert(outside.push(mark).drop_last() =~= outside);
}

} // verus!
