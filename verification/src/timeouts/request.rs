//! Requests, groups of requests reserved ahead, and what listeners are told of them.
use crate::time::{DateTime, Duration};
use vstd::prelude::*;

verus! {

/// Identifies a pre-reserved group: the bits of a UUID.
pub type GroupId = u128;

/// What a request asks of the exchange.
#[derive(Debug, Clone, Copy, PartialEq, Eq, Hash, Structural)]
pub enum RequestType {
    CreateOrder,
    CancelOrder,
}

/// A request that was let through.
#[derive(Debug, Clone, Copy, PartialEq, Eq, Hash, Structural)]
pub struct Request {
    pub request_type: RequestType,
    pub allowed_start_time: DateTime,
    /// The pre-reserved group that the request was taken from, if any.
    pub group_id: Option<GroupId>,
}

impl Request {
    /// A request that may start at `allowed_start_time`.
    pub fn new(
        request_type: RequestType,
        allowed_start_time: DateTime,
        group_id: Option<GroupId>,
    ) -> (request: Request)
        ensures
            request == (Request { request_type, allowed_start_time, group_id }),
    {
        Request { request_type, allowed_start_time, group_id }
    }
}

/// A number of requests that were set aside under one identifier.
#[derive(Debug, PartialEq, Eq)]
pub struct PreReservedGroup {
    pub id: GroupId,
    pub group_type: String,
    pub pre_reserved_requests_count: usize,
}

impl PreReservedGroup {
    /// A group of `pre_reserved_requests_count` requests.
    pub fn new(id: GroupId, group_type: String, pre_reserved_requests_count: usize) -> (group:
        PreReservedGroup)
        ensures
            group == (PreReservedGroup { id, group_type, pre_reserved_requests_count }),
    {
        PreReservedGroup { id, group_type, pre_reserved_requests_count }
    }
}

impl Clone for PreReservedGroup {
    fn clone(&self) -> (copy: Self)
        ensures
            copy == *self,
    {
        PreReservedGroup {
            id: self.id,
            group_type: self.group_type.clone(),
            pre_reserved_requests_count: self.pre_reserved_requests_count,
        }
    }
}

/// How many requests fall into a period, and how many are spoken for by groups.
#[derive(Debug, Clone, Copy, PartialEq, Eq, Structural)]
pub struct RequestsCountsInPeriodResult {
    /// All requests of the period.
    pub requests_count: usize,
    /// Those of them that were taken from a group that still stands.
    pub reserved_in_groups_requests_count: usize,
    /// What the groups occupy: of each the larger of what it reserved and what it used.
    pub vacant_and_reserved_in_groups_requests_count: usize,
}

impl RequestsCountsInPeriodResult {
    /// The three counts, in the order of the fields.
    pub fn new(
        requests_count: usize,
        reserved_in_groups_requests_count: usize,
        vacant_and_reserved_in_groups_requests_count: usize,
    ) -> (counts: RequestsCountsInPeriodResult)
        ensures
            counts == (RequestsCountsInPeriodResult {
                requests_count,
                reserved_in_groups_requests_count,
                vacant_and_reserved_in_groups_requests_count,
            }),
    {
        RequestsCountsInPeriodResult {
            requests_count,
            reserved_in_groups_requests_count,
            vacant_and_reserved_in_groups_requests_count,
        }
    }
}

/// The running counts of one group.
#[derive(Debug, Clone, Copy, PartialEq, Eq, Structural)]
pub struct RequestsCountTpm {
    pub requests_count: usize,
    pub pre_reserved_count: usize,
}

impl RequestsCountTpm {
    /// A group that reserved `pre_reserved_count` requests and has used none.
    pub fn new(pre_reserved_count: usize) -> (counts: RequestsCountTpm)
        ensures
            counts == (RequestsCountTpm { requests_count: 0, pre_reserved_count }),
    {
        RequestsCountTpm { requests_count: 0, pre_reserved_count }
    }
}

/// Why a request to the manager could not be met.
#[derive(Debug, Clone, Copy, PartialEq, Eq, Structural)]
pub enum TimeoutError {
    /// The beginning of the period has no date.
    UnableToSubtractTimePeriods,
    /// No request was let through yet.
    NoLastRequest,
}

impl TimeoutError {
    /// The error in words.
    pub fn message(&self) -> (text: &'static str)
        ensures
            text@ == (match *self {
                TimeoutError::UnableToSubtractTimePeriods => "Unable to substract time periods"@,
                TimeoutError::NoLastRequest => "There are no last request"@,
            }),
    {
        match *self {
            TimeoutError::UnableToSubtractTimePeriods => "Unable to substract time periods",
            TimeoutError::NoLastRequest => "There are no last request",
        }
    }
}

/// A call that is owed to the listeners of a manager.
#[derive(Debug, PartialEq, Eq)]
pub enum TimeoutEvent {
    /// A group was reserved.
    GroupWasReserved(PreReservedGroup),
    /// A group was given up.
    GroupWasRemoved(PreReservedGroup),
    /// Every trigger on a low number of free requests is to be handed this number.
    HandleDecreasingTriggers { available_requests_count: usize },
    /// The triggers on a high number of free requests are to be scheduled.
    ScheduleIncreasingTriggers {
        available_requests_count: usize,
        last_request_time: DateTime,
        period_duration: Duration,
    },
}

} // verus!
