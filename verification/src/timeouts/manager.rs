//! The manager that lets requests through and reserves groups of them.
use crate::market::ExchangeAccountId;
use crate::time::{DateTime, Duration};
use crate::timeouts::counts::{
    counted, groups_share, has_group, in_groups, lemma_counted_partition, lemma_filter_sorted,
    lemma_load_insert, lemma_unmarked_filter, load, since, sorted, unmarked, until,
};
use crate::timeouts::request::{
    GroupId, PreReservedGroup, Request, RequestType, RequestsCountsInPeriodResult, TimeoutError,
    TimeoutEvent,
};
use crate::timeouts::tally::{answers, tally};
use vstd::prelude::*;

verus! {

/// Lets at most `requests_per_period` requests through in any period of `period_duration`.
#[derive(Debug)]
pub struct RequestsTimeoutManager {
    pub requests_per_period: usize,
    pub period_duration: Duration,
    pub exchange_account_id: ExchangeAccountId,
    /// The requests that were let through, in the order of their start times.
    pub requests: Vec<Request>,
    pub pre_reserved_groups: Vec<PreReservedGroup>,
    /// When the last group was reserved.
    pub last_time: Option<DateTime>,
    /// The calls that are owed to listeners, oldest first.
    pub events: Vec<TimeoutEvent>,
}

/// The requests that start at `deadline` or later.
pub open spec fn kept(requests: Seq<Request>, deadline: DateTime) -> Seq<Request> {
    requests.filter(since(deadline))
}

/// What requests that have started by `time` and the groups take up of the limit.
pub open spec fn load_at(
    requests: Seq<Request>,
    groups: Seq<PreReservedGroup>,
    time: DateTime,
) -> nat {
    load(requests.filter(until(time)), groups)
}

/// What the groups and the requests of the period that ends with `last` take up of the limit.
pub open spec fn load_before(
    requests: Seq<Request>,
    groups: Seq<PreReservedGroup>,
    last: DateTime,
    period: Duration,
) -> nat {
    load(requests.filter(since(last.minus(period)->0)), groups)
}

/// The start time of the last request once one that starts at `time` was added.
pub open spec fn last_start(requests: Seq<Request>, time: DateTime) -> DateTime {
    if requests.len() == 0 {
        time
    } else {
        requests.last().allowed_start_time.latest(time)
    }
}

/// What the search for `time` among the start times of `requests` answers.
pub uninterp spec fn start_time_search(
    requests: Seq<Request>,
    time: DateTime,
) -> Result<usize, usize>;

/// The position at which a request that starts at `time` is inserted: the one that the
/// search answers, found or not.
pub open spec fn start_time_position(requests: Seq<Request>, time: DateTime) -> int {
    match start_time_search(requests, time) {
        Ok(i) => i as int,
        Err(i) => i as int,
    }
}

/// `after` is `before` with `request` put where the search for its start time says, which
/// keeps the order of start times.
pub open spec fn inserted(before: Seq<Request>, request: Request, after: Seq<Request>) -> bool {
    let index = start_time_position(before, request.allowed_start_time);
    &&& 0 <= index <= before.len()
    &&& after == before.insert(index, request)
    &&& sorted(after)
}

/// The position of the first group with this identifier.
pub open spec fn is_first_group(
    groups: Seq<PreReservedGroup>,
    id: GroupId,
    index: int,
) -> bool {
    &&& 0 <= index < groups.len()
    &&& groups[index].id == id
    &&& forall|j: int| 0 <= j < index ==> (#[trigger] groups[j]).id != id
}

/// The version and the variant that every random UUID carries.
pub open spec fn is_random_uuid(id: GroupId) -> bool {
    &&& (id >> 76u128) & 0xf == 4
    &&& (id >> 62u128) & 0x3 == 2
}

/// `uuid::Uuid::new_v4`: the bits are drawn from the system's random numbers, but for the
/// version, four, and the variant, binary ten. Nothing more holds of every outcome.
#[verifier::external_body]
fn new_group_id() -> (id: GroupId)
    ensures
        is_random_uuid(id),
{
    uuid::Uuid::new_v4().as_u128()
}

/// `[T]::binary_search_by_key` on the start times: `Ok` with the position of some request
/// that starts at `time`, or, where none does, `Err` with the position that keeps the order.
/// Where several start at `time`, its documentation says only that the position is chosen
/// deterministically: equal requests and times get equal answers, and which of the positions
/// it is stays open. Of requests out of order it promises nothing.
#[verifier::external_body]
fn search_start_time(requests: &Vec<Request>, time: DateTime) -> (found: Result<usize, usize>)
    requires
        sorted(requests@),
    ensures
        found == start_time_search(requests@, time),
        match found {
            Ok(i) => i < requests@.len() && requests@[i as int].allowed_start_time == time,
            Err(i) => {
                &&& i <= requests@.len()
                &&& forall|j: int|
                    0 <= j < i ==> (#[trigger] requests@[j]).allowed_start_time.precedes(time)
                &&& forall|j: int|
                    i <= j < requests@.len() ==> time.precedes(
                        (#[trigger] requests@[j]).allowed_start_time,
                    )
            },
        },
{
    requests.binary_search_by_key(
        &(time.secs, time.nanos),
        |request| (request.allowed_start_time.secs, request.allowed_start_time.nanos),
    )
}

/// The requests that start at `deadline` or later, in their order.
fn keep_since(requests: &Vec<Request>, deadline: DateTime) -> (remaining: Vec<Request>)
    ensures
        remaining@ == kept(requests@, deadline),
{
    let mut remaining: Vec<Request> = Vec::new();
    let mut i: usize = 0;
    proof {
        reveal(Seq::filter);
    }
    assert(requests@.take(0) =~= Seq::empty());
    while i < requests.len()
        invariant
            i <= requests@.len(),
            remaining@ == requests@.take(i as int).filter(since(deadline)),
        decreases requests@.len() - i,
    {
        let request = requests[i];
        proof {
            reveal(Seq::filter);
            assert(requests@.take(i + 1).drop_last() =~= requests@.take(i as int));
        }
        if !request.allowed_start_time.is_before(&deadline) {
            remaining.push(request);
        }
        i = i + 1;
    }
    assert(requests@.take(requests@.len() as int) =~= requests@);
    remaining
}

/// What requests that have started by `time` and the groups take up of the limit.
fn compute_load_at(requests: &Vec<Request>, groups: &Vec<PreReservedGroup>, time: DateTime) -> (taken:
    u128)
    ensures
        taken as nat == load_at(requests@, groups@, time) || (taken == u128::MAX && load_at(
            requests@,
            groups@,
            time,
        ) > u128::MAX),
{
    let after_time = |request: &Request, time: DateTime| -> (outside: bool)
        ensures
            outside == time.precedes(request.allowed_start_time),
        { time.is_before(&request.allowed_start_time) };
    proof {
        assert forall|outside: Seq<bool>| #[trigger]
            answers(requests@, time, after_time, outside) implies unmarked(requests@, outside)
            == requests@.filter(until(time)) by {
            lemma_unmarked_filter(requests@, outside, until(time));
        }
        lemma_counted_partition(requests@.filter(until(time)), groups@);
    }
    let (requests_count, in_groups_count, share) = tally(requests, groups, time, after_time);
    ((requests_count - in_groups_count) as u128).saturating_add(share)
}

/// What the groups and the requests that start at `begin` or later take up of the limit.
fn compute_load_since(
    requests: &Vec<Request>,
    groups: &Vec<PreReservedGroup>,
    begin: DateTime,
) -> (taken: u128)
    ensures
        taken as nat == load(requests@.filter(since(begin)), groups@) || (taken == u128::MAX
            && load(requests@.filter(since(begin)), groups@) > u128::MAX),
{
    let before_begin = |request: &Request, _time: DateTime| -> (outside: bool)
        ensures
            outside == request.allowed_start_time.precedes(begin),
        { request.allowed_start_time.is_before(&begin) };
    proof {
        assert forall|outside: Seq<bool>| #[trigger]
            answers(requests@, begin, before_begin, outside) implies unmarked(requests@, outside)
            == requests@.filter(since(begin)) by {
            lemma_unmarked_filter(requests@, outside, since(begin));
        }
        lemma_counted_partition(requests@.filter(since(begin)), groups@);
    }
    let (requests_count, in_groups_count, share) = tally(requests, groups, begin, before_begin);
    ((requests_count - in_groups_count) as u128).saturating_add(share)
}

/// What remains of requests with well-formed times has well-formed times.
proof fn lemma_filter_wf(requests: Seq<Request>, keep: spec_fn(Request) -> bool)
    requires
        forall|i: int|
            0 <= i < requests.len() ==> (#[trigger] requests[i]).allowed_start_time.wf(),
    ensures
        forall|i: int|
            0 <= i < requests.filter(keep).len() ==> (#[trigger] requests.filter(
                keep,
            )[i]).allowed_start_time.wf(),
{
    let remaining = requests.filter(keep);
    assert forall|i: int| 0 <= i < remaining.len() implies (
    #[trigger] remaining[i]).allowed_start_time.wf() by {
        assert(remaining.contains(remaining[i]));
        requests.lemma_filter_contains_rev(keep, remaining[i]);
    }
}

/// Where the search for a start time points, a request that starts then keeps the order.
proof fn lemma_insert_sorted(requests: Seq<Request>, index: int, request: Request)
    requires
        sorted(requests),
        0 <= index <= requests.len(),
        ({
            let time = request.allowed_start_time;
            ||| index < requests.len() && requests[index].allowed_start_time == time
            ||| {
                &&& forall|j: int|
                    0 <= j < index ==> (#[trigger] requests[j]).allowed_start_time.precedes(time)
                &&& forall|j: int|
                    index <= j < requests.len() ==> time.precedes(
                        (#[trigger] requests[j]).allowed_start_time,
                    )
            }
        }),
    ensures
        sorted(requests.insert(index, request)),
        requests.insert(index, request).last().allowed_start_time == last_start(
            requests,
            request.allowed_start_time,
        ),
{
    let after = requests.insert(index, request);
    assert forall|i: int, j: int| 0 <= i < j < after.len() implies !(
    #[trigger] after[j]).allowed_start_time.precedes((#[trigger] after[i]).allowed_start_time) by {
        let at = |k: int| if k < index { k } else { k - 1 };
        if i != index && j != index {
            assert(after[i] == requests[at(i)] && after[j] == requests[at(j)]);
        } else if i == index {
            assert(after[j] == requests[j - 1]);
            if index < requests.len() {
                assert(requests[index] == after[index + 1]);
            }
        } else {
            assert(after[i] == requests[i]);
            if index < requests.len() {
                assert(requests[index] == after[index + 1]);
            }
        }
    }
    if index < requests.len() {
        assert(after.last() == requests.last());
        assert(requests[index] == after[index + 1]);
        assert(requests[requests.len() - 1] == requests.last());
    } else if requests.len() > 0 {
        assert(requests[index - 1] == requests.last());
    }
}

impl RequestsTimeoutManager {
    /// Every time and span that the manager holds is well-formed.
    pub open spec fn wf(&self) -> bool {
        &&& self.period_duration.wf()
        &&& self.last_time is Some ==> self.last_time->0.wf()
        &&& forall|i: int|
            0 <= i < self.requests@.len() ==> (#[trigger] self.requests@[i]).allowed_start_time.wf()
    }

    /// `time`, or the time of the last reserved group where that is later.
    pub open spec fn now(&self, time: DateTime) -> DateTime {
        match self.last_time {
            None => time,
            Some(last_time) => last_time.latest(time),
        }
    }

    /// At `time` what is taken up, once outdated requests are gone, is within the limit.
    pub open spec fn within_limit_at(&self, time: DateTime) -> bool {
        match self.now(time).minus(self.period_duration) {
            None => true,
            Some(deadline) => load_at(
                kept(self.requests@, deadline),
                self.pre_reserved_groups@,
                self.now(time),
            ) <= self.requests_per_period,
        }
    }

    /// With a request added at `time`, the period before the last request has a beginning,
    /// and what it takes up is within the limit.
    pub open spec fn can_add(
        &self,
        requests: Seq<Request>,
        request: Request,
    ) -> bool {
        let last = last_start(requests, request.allowed_start_time);
        &&& last.minus(self.period_duration) is Some
        &&& load_before(
            requests.push(request),
            self.pre_reserved_groups@,
            last,
            self.period_duration,
        ) <= self.requests_per_period
    }

    /// The number of requests that are free, whatever their time.
    pub open spec fn all_available(&self) -> nat {
        if self.requests@.len() <= self.requests_per_period {
            (self.requests_per_period - self.requests@.len()) as nat
        } else {
            0
        }
    }

    /// A manager that has let nothing through.
    pub fn new(
        requests_per_period: usize,
        period_duration: Duration,
        exchange_account_id: ExchangeAccountId,
    ) -> (manager: RequestsTimeoutManager)
        ensures
            manager.requests_per_period == requests_per_period,
            manager.period_duration == period_duration,
            manager.exchange_account_id == exchange_account_id,
            manager.requests@ == Seq::<Request>::empty(),
            manager.pre_reserved_groups@ == Seq::<PreReservedGroup>::empty(),
            manager.last_time is None,
            manager.events@ == Seq::<TimeoutEvent>::empty(),
    {
        RequestsTimeoutManager {
            requests_per_period,
            period_duration,
            exchange_account_id,
            requests: Vec::new(),
            pre_reserved_groups: Vec::new(),
            last_time: None,
            events: Vec::new(),
        }
    }

    /// The later of `time` and the time of the last reserved group.
    pub fn get_non_decreasing_time(&self, time: DateTime) -> (now: DateTime)
        ensures
            now == self.now(time),
    {
        match self.last_time {
            None => time,
            Some(last_time) => if last_time.is_before(&time) {
                time
            } else {
                last_time
            },
        }
    }

    /// `self` is what `before` becomes, and `result` the answer, when outdated requests are to
    /// be forgotten at `current_time`.
    pub open spec fn forgets(
        &self,
        before: &RequestsTimeoutManager,
        current_time: DateTime,
        result: Result<(), TimeoutError>,
    ) -> bool {
        match current_time.minus(before.period_duration) {
            None => {
                &&& result == Err::<(), TimeoutError>(TimeoutError::UnableToSubtractTimePeriods)
                &&& *self == *before
            },
            Some(deadline) => {
                &&& result == Ok::<(), TimeoutError>(())
                &&& self.requests@ == kept(before.requests@, deadline)
                &&& *self == (RequestsTimeoutManager { requests: self.requests, ..*before })
            },
        }
    }

    /// Forgets the requests that started more than a period before `current_time`.
    pub fn remove_outdated_requests(&mut self, current_time: DateTime) -> (result: Result<
        (),
        TimeoutError,
    >)
        requires
            old(self).wf(),
            current_time.wf(),
        ensures
            final(self).wf(),
            match current_time.minus(old(self).period_duration) {
                None => {
                    &&& result == Err::<(), TimeoutError>(TimeoutError::UnableToSubtractTimePeriods)
                    &&& *final(self) == *old(self)
                },
                Some(deadline) => {
                    &&& result == Ok::<(), TimeoutError>(())
                    &&& final(self).requests@ == kept(old(self).requests@, deadline)
                    &&& *final(self) == (RequestsTimeoutManager {
                        requests: final(self).requests,
                        ..*old(self)
                    })
                },
            },
            final(self).forgets(old(self), current_time, result),
    {
        let deadline = match current_time.checked_sub_signed(self.period_duration) {
            None => {
                return Err(TimeoutError::UnableToSubtractTimePeriods);
            },
            Some(deadline) => deadline,
        };
        let remaining = keep_since(&self.requests, deadline);
        proof {
            lemma_filter_wf(self.requests@, since(deadline));
        }
        self.requests = remaining;
        Ok(())
    }

    /// How many requests are free, whatever their time.
    pub fn get_all_available_requests_count(&self) -> (available: usize)
        ensures
            available == self.all_available(),
    {
        match self.requests_per_period.checked_sub(self.requests.len()) {
            Some(available) => available,
            None => 0,
        }
    }

    /// Counts the requests that have started by `current_time`.
    pub fn get_reserved_requests_count_at_present(&self, current_time: DateTime) -> (counts:
        RequestsCountsInPeriodResult)
        requires
            groups_share(
                self.requests@.filter(until(current_time)),
                self.pre_reserved_groups@,
            ) <= usize::MAX,
        ensures
            ({
                let inside = self.requests@.filter(until(current_time));
                let groups = self.pre_reserved_groups@;
                &&& counts.requests_count == inside.len()
                &&& counts.reserved_in_groups_requests_count == counted(inside, in_groups(groups))
                &&& counts.vacant_and_reserved_in_groups_requests_count == groups_share(
                    inside,
                    groups,
                )
            }),
    {
        let not_period_predicate = |request: &Request, time: DateTime| -> (outside: bool)
            ensures
                outside == time.precedes(request.allowed_start_time),
            { time.is_before(&request.allowed_start_time) };
        proof {
            assert forall|outside: Seq<bool>| #[trigger]
                answers(self.requests@, current_time, not_period_predicate, outside) implies unmarked(
                self.requests@,
                outside,
            ) == self.requests@.filter(until(current_time)) by {
                lemma_unmarked_filter(self.requests@, outside, until(current_time));
            }
        }
        self.reserved_requests_count_in_period(current_time, not_period_predicate)
    }

    /// How many requests are free at `current_time`.
    pub fn get_available_requests_count_at_persent(&self, current_time: DateTime) -> (available:
        usize)
        requires
            load_at(self.requests@, self.pre_reserved_groups@, current_time)
                <= self.requests_per_period,
        ensures
            available == self.requests_per_period - load_at(
                self.requests@,
                self.pre_reserved_groups@,
                current_time,
            ),
    {
        let reserved = self.get_reserved_requests_count_at_present(current_time);
        proof {
            lemma_counted_partition(
                self.requests@.filter(until(current_time)),
                self.pre_reserved_groups@,
            );
        }
        let without_group: usize = reserved.requests_count
            - reserved.reserved_in_groups_requests_count;
        self.requests_per_period - without_group
            - reserved.vacant_and_reserved_in_groups_requests_count
    }

    /// The request that starts last.
    pub fn get_last_request(&self) -> (result: Result<Request, TimeoutError>)
        ensures
            result == (if self.requests@.len() == 0 {
                Err::<Request, TimeoutError>(TimeoutError::NoLastRequest)
            } else {
                Ok::<Request, TimeoutError>(self.requests@.last())
            }),
    {
        if self.requests.len() == 0 {
            Err(TimeoutError::NoLastRequest)
        } else {
            Ok(self.requests[self.requests.len() - 1])
        }
    }

    /// Counts the requests of the period that ends with the last request.
    pub fn get_requests_count_at_last_request_time(&self) -> (result: Result<
        RequestsCountsInPeriodResult,
        TimeoutError,
    >)
        requires
            self.wf(),
            self.requests@.len() > 0 ==> {
                let begin = self.requests@.last().allowed_start_time.minus(self.period_duration);
                &&& begin is Some
                &&& groups_share(
                    self.requests@.filter(since(begin->0)),
                    self.pre_reserved_groups@,
                ) <= usize::MAX
            },
        ensures
            self.requests@.len() == 0 <==> result == Err::<
                RequestsCountsInPeriodResult,
                TimeoutError,
            >(TimeoutError::NoLastRequest),
            self.requests@.len() > 0 ==> {
                let begin = self.requests@.last().allowed_start_time.minus(self.period_duration);
                let inside = self.requests@.filter(since(begin->0));
                let groups = self.pre_reserved_groups@;
                &&& result matches Ok(counts)
                &&& counts.requests_count == inside.len()
                &&& counts.reserved_in_groups_requests_count == counted(inside, in_groups(groups))
                &&& counts.vacant_and_reserved_in_groups_requests_count == groups_share(
                    inside,
                    groups,
                )
            },
    {
        let last_request = match self.get_last_request() {
            Err(error) => {
                return Err(error);
            },
            Ok(last_request) => last_request,
        };
        assert(last_request == self.requests@[self.requests@.len() - 1]);
        let begin = match last_request.allowed_start_time.checked_sub_signed(self.period_duration) {
            None => {
                return Err(TimeoutError::UnableToSubtractTimePeriods);
            },
            Some(begin) => begin,
        };
        let not_period_predicate = |request: &Request, _time: DateTime| -> (outside: bool)
            ensures
                outside == request.allowed_start_time.precedes(begin),
            { request.allowed_start_time.is_before(&begin) };
        proof {
            assert forall|outside: Seq<bool>| #[trigger]
                answers(self.requests@, begin, not_period_predicate, outside) implies unmarked(
                self.requests@,
                outside,
            ) == self.requests@.filter(since(begin)) by {
                lemma_unmarked_filter(self.requests@, outside, since(begin));
            }
        }
        Ok(self.reserved_requests_count_in_period(begin, not_period_predicate))
    }

    /// What is taken up of the limit in the period that ends with the last request is known,
    /// and within the limit.
    pub open spec fn within_limit_at_last(&self) -> bool {
        let last = self.requests@.last().allowed_start_time;
        self.requests@.len() > 0 ==> {
            &&& last.minus(self.period_duration) is Some
            &&& load_before(
                self.requests@,
                self.pre_reserved_groups@,
                last,
                self.period_duration,
            ) <= self.requests_per_period
        }
    }

    /// The number of requests that are free in the period that ends with the last request.
    pub open spec fn available_at_last(&self) -> int {
        self.requests_per_period - load_before(
            self.requests@,
            self.pre_reserved_groups@,
            self.requests@.last().allowed_start_time,
            self.period_duration,
        )
    }

    /// How many requests are free in the period that ends with the last request.
    pub fn get_available_requests_in_last_period(&self) -> (result: Result<usize, TimeoutError>)
        requires
            self.wf(),
            self.within_limit_at_last(),
        ensures
            self.requests@.len() == 0 ==> result == Err::<usize, TimeoutError>(
                TimeoutError::NoLastRequest,
            ),
            self.requests@.len() > 0 ==> result == Ok::<usize, TimeoutError>(
                self.available_at_last() as usize,
            ),
            self.requests@.len() > 0 ==> 0 <= self.available_at_last()
                <= self.requests_per_period,
    {
        let reserved = match self.get_requests_count_at_last_request_time() {
            Err(error) => {
                return Err(error);
            },
            Ok(reserved) => reserved,
        };
        proof {
            let last = self.requests@.last().allowed_start_time;
            lemma_counted_partition(
                self.requests@.filter(since(last.minus(self.period_duration)->0)),
                self.pre_reserved_groups@,
            );
        }
        let without_group: usize = reserved.requests_count
            - reserved.reserved_in_groups_requests_count;
        Ok(
            self.requests_per_period - without_group
                - reserved.vacant_and_reserved_in_groups_requests_count,
        )
    }

    /// Notes that the triggers on a low number of free requests are to be handled.
    pub fn handle_all_decreasing_triggers(&mut self)
        ensures
            final(self).events@ == old(self).events@.push(
                TimeoutEvent::HandleDecreasingTriggers {
                    available_requests_count: old(self).all_available() as usize,
                },
            ),
            *final(self) == (RequestsTimeoutManager { events: final(self).events, ..*old(self) }),
    {
        let available_requests_count = self.get_all_available_requests_count();
        self.events.push(TimeoutEvent::HandleDecreasingTriggers { available_requests_count });
    }

    /// Notes that the triggers on a high number of free requests are to be scheduled.
    pub fn handle_all_increasing_triggers(&mut self) -> (result: Result<(), TimeoutError>)
        requires
            old(self).wf(),
            old(self).within_limit_at_last(),
        ensures
            old(self).requests@.len() == 0 ==> {
                &&& result == Err::<(), TimeoutError>(TimeoutError::NoLastRequest)
                &&& *final(self) == *old(self)
            },
            old(self).requests@.len() > 0 ==> {
                &&& result == Ok::<(), TimeoutError>(())
                &&& final(self).events@ == old(self).events@.push(
                    TimeoutEvent::ScheduleIncreasingTriggers {
                        available_requests_count: old(self).available_at_last() as usize,
                        last_request_time: old(self).requests@.last().allowed_start_time,
                        period_duration: old(self).period_duration,
                    },
                )
                &&& *final(self) == (RequestsTimeoutManager {
                    events: final(self).events,
                    ..*old(self)
                })
            },
    {
        let available_requests_count = match self.get_available_requests_in_last_period() {
            Err(error) => {
                return Err(error);
            },
            Ok(available) => available,
        };
        let last_request_time = match self.get_last_request() {
            Err(error) => {
                return Err(error);
            },
            Ok(last_request) => last_request.allowed_start_time,
        };
        self.events.push(
            TimeoutEvent::ScheduleIncreasingTriggers {
                available_requests_count,
                last_request_time,
                period_duration: self.period_duration,
            },
        );
        Ok(())
    }

    /// `self` is what `before` becomes, and `result` the answer, when a request is put among
    /// those that were let through.
    pub open spec fn takes_in(
        &self,
        before: &RequestsTimeoutManager,
        request_type: RequestType,
        current_time: DateTime,
        group_id: Option<GroupId>,
        result: Result<Request, TimeoutError>,
    ) -> bool {
        let request = Request { request_type, allowed_start_time: current_time, group_id };
        &&& result == Ok::<Request, TimeoutError>(request)
        &&& self.adds(before, before.requests@, request)
    }

    /// Puts a request among those that were let through, in the order of start times.
    pub fn add_request(
        &mut self,
        request_type: RequestType,
        current_time: DateTime,
        group_id: Option<GroupId>,
    ) -> (result: Result<Request, TimeoutError>)
        requires
            old(self).wf(),
            sorted(old(self).requests@),
            current_time.wf(),
            old(self).can_add(
                old(self).requests@,
                Request { request_type, allowed_start_time: current_time, group_id },
            ),
        ensures
            final(self).wf(),
            ({
                let request = Request { request_type, allowed_start_time: current_time, group_id };
                &&& result == Ok::<Request, TimeoutError>(request)
                &&& final(self).adds(old(self), old(self).requests@, request)
            }),
            final(self).takes_in(old(self), request_type, current_time, group_id, result),
    {
        let request = Request::new(request_type, current_time, group_id);
        let request_index = match search_start_time(&self.requests, current_time) {
            Ok(index) => index,
            Err(index) => index,
        };
        let ghost before = self.requests@;
        self.requests.insert(request_index, request);
        proof {
            lemma_insert_sorted(before, request_index as int, request);
            lemma_load_insert(
                before,
                request_index as int,
                request,
                since(last_start(before, current_time).minus(self.period_duration)->0),
                self.pre_reserved_groups@,
            );
            assert(self.wf()) by {
                assert forall|i: int| 0 <= i < self.requests@.len() implies (
                #[trigger] self.requests@[i]).allowed_start_time.wf() by {
                    if i < request_index {
                        assert(self.requests@[i] == before[i]);
                    } else if i > request_index {
                        assert(self.requests@[i] == before[i - 1]);
                    }
                }
            }
        }
        self.handle_all_decreasing_triggers();
        match self.handle_all_increasing_triggers() {
            Err(error) => Err(error),
            Ok(()) => Ok(request),
        }
    }

    /// `self` is `before` with `request` let through beside `requests`, and the triggers
    /// noted that follow from it.
    pub open spec fn adds(
        &self,
        before: &RequestsTimeoutManager,
        requests: Seq<Request>,
        request: Request,
    ) -> bool {
        &&& inserted(requests, request, self.requests@)
        &&& self.requests@.last().allowed_start_time == last_start(
            requests,
            request.allowed_start_time,
        )
        &&& self.events@ == before.events@.push(
            TimeoutEvent::HandleDecreasingTriggers {
                available_requests_count: self.all_available() as usize,
            },
        ).push(
            TimeoutEvent::ScheduleIncreasingTriggers {
                available_requests_count: self.available_at_last() as usize,
                last_request_time: last_start(requests, request.allowed_start_time),
                period_duration: self.period_duration,
            },
        )
        &&& *self == (RequestsTimeoutManager {
            requests: self.requests,
            events: self.events,
            ..*before
        })
    }

    /// What reserving a request at `time` needs: the limit holds now and, where a request is
    /// free, also over the period before the last request once that one is added.
    pub open spec fn can_reserve_request(&self, request_type: RequestType, time: DateTime) -> bool {
        let now = self.now(time);
        match now.minus(self.period_duration) {
            None => true,
            Some(deadline) => {
                let requests = kept(self.requests@, deadline);
                let taken = load_at(requests, self.pre_reserved_groups@, now);
                &&& taken <= self.requests_per_period
                &&& taken < self.requests_per_period ==> self.can_add(
                    requests,
                    Request { request_type, allowed_start_time: now, group_id: None },
                )
            },
        }
    }

    /// `self` is `before` with `group` reserved at `now` beside `requests`.
    pub open spec fn reserves(
        &self,
        before: &RequestsTimeoutManager,
        requests: Seq<Request>,
        group: PreReservedGroup,
        now: DateTime,
    ) -> bool {
        &&& self.requests@ == requests
        &&& self.pre_reserved_groups@ == before.pre_reserved_groups@.push(group)
        &&& self.last_time == Some(now)
        &&& self.events@ == before.events@.push(TimeoutEvent::GroupWasReserved(group))
        &&& *self == (RequestsTimeoutManager {
            requests: self.requests,
            pre_reserved_groups: self.pre_reserved_groups,
            last_time: self.last_time,
            events: self.events,
            ..*before
        })
    }

    /// `self` is what `before` becomes, and `result` the answer, when a group of
    /// `requests_count` requests is asked for at `current_time`.
    pub open spec fn answers_group(
        &self,
        before: &RequestsTimeoutManager,
        group_type: String,
        current_time: DateTime,
        requests_count: usize,
        result: Result<Option<GroupId>, TimeoutError>,
    ) -> bool {
        let now = before.now(current_time);
        match now.minus(before.period_duration) {
            None => {
                &&& result == Err::<Option<GroupId>, TimeoutError>(
                    TimeoutError::UnableToSubtractTimePeriods,
                )
                &&& *self == *before
            },
            Some(deadline) => {
                let requests = kept(before.requests@, deadline);
                let taken = load_at(requests, before.pre_reserved_groups@, now);
                if taken + requests_count > before.requests_per_period {
                    &&& result == Ok::<Option<GroupId>, TimeoutError>(None)
                    &&& self.requests@ == requests
                    &&& *self == (RequestsTimeoutManager { requests: self.requests, ..*before })
                } else {
                    &&& result matches Ok(Some(id))
                    &&& is_random_uuid(id)
                    &&& self.reserves(
                        before,
                        requests,
                        PreReservedGroup {
                            id,
                            group_type,
                            pre_reserved_requests_count: requests_count,
                        },
                        now,
                    )
                }
            },
        }
    }

    /// `self` is what `before` becomes, and `removed` the answer, when the group `group_id`
    /// is to be given up.
    pub open spec fn gives_up(
        &self,
        before: &RequestsTimeoutManager,
        group_id: GroupId,
        removed: bool,
    ) -> bool {
        let groups = before.pre_reserved_groups@;
        &&& removed == has_group(groups, group_id)
        &&& !removed ==> *self == *before
        &&& removed ==> exists|index: int|
            {
                &&& #[trigger] is_first_group(before.pre_reserved_groups@, group_id, index)
                &&& self.pre_reserved_groups@ == groups.remove(index)
                &&& self.events@ == before.events@.push(
                    TimeoutEvent::GroupWasRemoved(groups[index]),
                )
            }
        &&& *self == (RequestsTimeoutManager {
            pre_reserved_groups: self.pre_reserved_groups,
            events: self.events,
            ..*before
        })
    }

    /// Whether the limit holds at `current_time`.
    pub fn is_within_limit_at(&self, current_time: DateTime) -> (within: bool)
        requires
            self.wf(),
            current_time.wf(),
        ensures
            within == self.within_limit_at(current_time),
    {
        let now = self.get_non_decreasing_time(current_time);
        match now.checked_sub_signed(self.period_duration) {
            None => true,
            Some(deadline) => {
                let requests = keep_since(&self.requests, deadline);
                compute_load_at(&requests, &self.pre_reserved_groups, now)
                    <= self.requests_per_period as u128
            },
        }
    }

    /// Whether a request can be reserved at `current_time`, or refused, without breaking the
    /// limit.
    pub fn is_request_reservable(&self, request_type: RequestType, current_time: DateTime) -> (able:
        bool)
        requires
            self.wf(),
            current_time.wf(),
        ensures
            able == self.can_reserve_request(request_type, current_time),
    {
        let now = self.get_non_decreasing_time(current_time);
        let deadline = match now.checked_sub_signed(self.period_duration) {
            None => {
                return true;
            },
            Some(deadline) => deadline,
        };
        let mut requests = keep_since(&self.requests, deadline);
        proof {
            lemma_filter_wf(self.requests@, since(deadline));
        }
        let limit = self.requests_per_period as u128;
        let taken = compute_load_at(&requests, &self.pre_reserved_groups, now);
        if taken >= limit {
            return taken == limit;
        }
        let last = if requests.len() == 0 {
            now
        } else {
            let last_time = requests[requests.len() - 1].allowed_start_time;
            if last_time.is_before(&now) {
                now
            } else {
                last_time
            }
        };
        requests.push(Request::new(request_type, now, None));
        match last.checked_sub_signed(self.period_duration) {
            None => false,
            Some(begin) => compute_load_since(&requests, &self.pre_reserved_groups, begin)
                <= limit,
        }
    }

    /// Reserves a group of `requests_count` requests, if so many are free at `current_time`,
    /// under a fresh random identifier.
    pub fn try_reserve_group(
        &mut self,
        group_type: String,
        current_time: DateTime,
        requests_count: usize,
    ) -> (result: Result<Option<GroupId>, TimeoutError>)
        requires
            old(self).wf(),
            current_time.wf(),
            old(self).within_limit_at(current_time),
        ensures
            final(self).wf(),
            final(self).answers_group(
                old(self),
                group_type,
                current_time,
                requests_count,
                result,
            ),
    {
        let current_time = self.get_non_decreasing_time(current_time);
        match self.remove_outdated_requests(current_time) {
            Err(error) => {
                return Err(error);
            },
            Ok(()) => {},
        }
        let available_requests_count = self.get_available_requests_count_at_persent(current_time);
        if available_requests_count < requests_count {
            return Ok(None);
        }
        let group_id = new_group_id();
        self.add_group(PreReservedGroup::new(group_id, group_type, requests_count), current_time);
        Ok(Some(group_id))
    }

    /// Puts a group behind those that stand already.
    pub fn add_group(&mut self, group: PreReservedGroup, current_time: DateTime)
        requires
            old(self).wf(),
            current_time.wf(),
        ensures
            final(self).wf(),
            final(self).reserves(old(self), old(self).requests@, group, current_time),
    {
        self.pre_reserved_groups.push(group.clone());
        self.last_time = Some(current_time);
        self.events.push(TimeoutEvent::GroupWasReserved(group));
    }

    /// Gives up the first group with this identifier, if there is one.
    pub fn remove_group(&mut self, group_id: GroupId, _current_time: DateTime) -> (removed: bool)
        ensures
            final(self).gives_up(old(self), group_id, removed),
    {
        let mut index: usize = 0;
        while index < self.pre_reserved_groups.len()
            invariant
                index <= self.pre_reserved_groups@.len(),
                *self == *old(self),
                forall|j: int|
                    0 <= j < index ==> (#[trigger] self.pre_reserved_groups@[j]).id != group_id,
            decreases self.pre_reserved_groups@.len() - index,
        {
            if self.pre_reserved_groups[index].id == group_id {
                assert(is_first_group(self.pre_reserved_groups@, group_id, index as int));
                let group = self.pre_reserved_groups.remove(index);
                self.events.push(TimeoutEvent::GroupWasRemoved(group));
                return true;
            }
            index = index + 1;
        }
        false
    }

    /// `self` is `before` after it was asked to let a request through at once: unchanged, with
    /// a no, if the request names a group, and as for a request out of group if it does not.
    pub open spec fn lets_instant_through(
        &self,
        before: &RequestsTimeoutManager,
        request_type: RequestType,
        current_time: DateTime,
        pre_reserved_group_id: Option<GroupId>,
        result: Result<bool, TimeoutError>,
    ) -> bool {
        match pre_reserved_group_id {
            Some(_) => result == Ok::<bool, TimeoutError>(false) && *self == *before,
            None => self.lets_through(before, request_type, current_time, result),
        }
    }

    /// Lets a request through at once, from its group if it names one.
    pub fn try_reserve_instant(
        &mut self,
        request_type: RequestType,
        current_time: DateTime,
        pre_reserved_group_id: Option<GroupId>,
    ) -> (result: Result<bool, TimeoutError>)
        requires
            old(self).wf(),
            current_time.wf(),
            pre_reserved_group_id is None ==> sorted(old(self).requests@),
            pre_reserved_group_id is None ==> old(self).can_reserve_request(
                request_type,
                current_time,
            ),
        ensures
            final(self).wf(),
            final(self).lets_instant_through(
                old(self),
                request_type,
                current_time,
                pre_reserved_group_id,
                result,
            ),
    {
        match pre_reserved_group_id {
            Some(_) => self.try_reserve_group_instant(request_type, current_time),
            None => self.try_reserve_request_instant(
                request_type,
                current_time,
                pre_reserved_group_id,
            ),
        }
    }

    /// Requests are not taken from groups: the answer is always no.
    pub fn try_reserve_group_instant(
        &mut self,
        _request_type: RequestType,
        _current_time: DateTime,
    ) -> (result: Result<bool, TimeoutError>)
        ensures
            result == Ok::<bool, TimeoutError>(false),
            *final(self) == *old(self),
    {
        Ok(false)
    }

    /// `self` is what `before` becomes, and `result` the answer, when a request out of group
    /// asks to be let through at `current_time`. The answer is `false` also where the request
    /// is let through.
    pub open spec fn lets_through(
        &self,
        before: &RequestsTimeoutManager,
        request_type: RequestType,
        current_time: DateTime,
        result: Result<bool, TimeoutError>,
    ) -> bool {
        let now = before.now(current_time);
        match now.minus(before.period_duration) {
            None => {
                &&& result == Err::<bool, TimeoutError>(TimeoutError::UnableToSubtractTimePeriods)
                &&& *self == *before
            },
            Some(deadline) => {
                let requests = kept(before.requests@, deadline);
                let taken = load_at(requests, before.pre_reserved_groups@, now);
                &&& result == Ok::<bool, TimeoutError>(false)
                &&& if taken == before.requests_per_period {
                    &&& self.requests@ == requests
                    &&& *self == (RequestsTimeoutManager { requests: self.requests, ..*before })
                } else {
                    self.adds(
                        before,
                        requests,
                        Request { request_type, allowed_start_time: now, group_id: None },
                    )
                }
            },
        }
    }

    /// Lets a request out of group through at `current_time`, if one is free.
    pub fn try_reserve_request_instant(
        &mut self,
        request_type: RequestType,
        current_time: DateTime,
        _pre_reserved_group_id: Option<GroupId>,
    ) -> (result: Result<bool, TimeoutError>)
        requires
            old(self).wf(),
            sorted(old(self).requests@),
            current_time.wf(),
            old(self).can_reserve_request(request_type, current_time),
        ensures
            final(self).wf(),
            final(self).lets_through(old(self), request_type, current_time, result),
    {
        let current_time = self.get_non_decreasing_time(current_time);
        match self.remove_outdated_requests(current_time) {
            Err(error) => {
                return Err(error);
            },
            Ok(()) => {},
        }
        let available_requests_count = self.get_available_requests_count_at_persent(current_time);
        if available_requests_count == 0 {
            return Ok(false);
        }
        proof {
            lemma_filter_sorted(
                old(self).requests@,
                since(current_time.minus(self.period_duration)->0),
            );
        }
        let _request = self.add_request(request_type, current_time, None);
        Ok(false)
    }

    /// Hands out the calls that are owed to listeners, oldest first, and forgets them.
    pub fn take_events(&mut self) -> (events: Vec<TimeoutEvent>)
        ensures
            events@ == old(self).events@,
            final(self).events@ == Seq::<TimeoutEvent>::empty(),
            *final(self) == (RequestsTimeoutManager { events: final(self).events, ..*old(self) }),
    {
        let mut events: Vec<TimeoutEvent> = Vec::new();
        std::mem::swap(&mut events, &mut self.events);
        events
    }

    /// Counts the requests that the predicate does not put outside of the period, and what
    /// the groups take up beside them. A request of a group that was given up counts as a
    /// request out of group.
    pub fn reserved_requests_count_in_period<F>(
        &self,
        current_time: DateTime,
        not_period_predicate: F,
    ) -> (counts: RequestsCountsInPeriodResult) where F: Fn(&Request, DateTime) -> bool
        requires
            forall|i: int|
                0 <= i < self.requests@.len() ==> call_requires(
                    not_period_predicate,
                    (&#[trigger] self.requests@[i], current_time),
                ),
            forall|outside: Seq<bool>| #[trigger]
                answers(self.requests@, current_time, not_period_predicate, outside)
                    ==> groups_share(
                    unmarked(self.requests@, outside),
                    self.pre_reserved_groups@,
                ) <= usize::MAX,
        ensures
            exists|outside: Seq<bool>|
                {
                    let inside = unmarked(self.requests@, outside);
                    let groups = self.pre_reserved_groups@;
                    &&& #[trigger] answers(
                        self.requests@,
                        current_time,
                        not_period_predicate,
                        outside,
                    )
                    &&& counts.requests_count == inside.len()
                    &&& counts.reserved_in_groups_requests_count == counted(
                        inside,
                        in_groups(groups),
                    )
                    &&& counts.vacant_and_reserved_in_groups_requests_count == groups_share(
                        inside,
                        groups,
                    )
                },
    {
        let (requests_count, in_groups_count, share) = tally(
            &self.requests,
            &self.pre_reserved_groups,
            current_time,
            not_period_predicate,
        );
        RequestsCountsInPeriodResult::new(requests_count, in_groups_count, share as usize)
    }
}

} // verus!
