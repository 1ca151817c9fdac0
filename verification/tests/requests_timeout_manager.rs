use chrono::Utc;
use mmb::market::ExchangeAccountId;
use mmb::time::{DateTime, Duration, MIN_SECS};
use mmb::timeouts::manager::RequestsTimeoutManager;
use mmb::timeouts::request::{
    PreReservedGroup, Request, RequestType, RequestsCountTpm, RequestsCountsInPeriodResult,
    TimeoutError, TimeoutEvent,
};

fn now() -> DateTime {
    let now = Utc::now();
    DateTime::new(now.timestamp(), now.timestamp_subsec_nanos()).unwrap()
}

fn at(secs: i64) -> DateTime {
    DateTime::new(secs, 0).unwrap()
}

fn manager(requests_per_period: usize) -> RequestsTimeoutManager {
    RequestsTimeoutManager::new(
        requests_per_period,
        Duration::seconds(5),
        ExchangeAccountId::new("test", 0),
    )
}

fn request(secs: i64, group_id: Option<u128>) -> Request {
    Request::new(RequestType::CreateOrder, at(secs), group_id)
}

fn times(manager: &RequestsTimeoutManager) -> Vec<i64> {
    manager.requests.iter().map(|request| request.allowed_start_time.secs).collect()
}

fn group(id: u128, count: usize) -> PreReservedGroup {
    PreReservedGroup::new(id, "group".to_owned(), count)
}

fn let_through(manager: &mut RequestsTimeoutManager, secs: i64) -> Result<bool, TimeoutError> {
    assert!(manager.is_request_reservable(RequestType::CreateOrder, at(secs)));
    manager.try_reserve_instant(RequestType::CreateOrder, at(secs), None)
}

fn reserve(
    manager: &mut RequestsTimeoutManager,
    secs: i64,
    count: usize,
) -> Result<Option<u128>, TimeoutError> {
    assert!(manager.is_within_limit_at(at(secs)));
    manager.try_reserve_group("group".to_owned(), at(secs), count)
}

#[test]
fn some_first_test() {
    let mut requests_timeout_manager = RequestsTimeoutManager::new(
        1,
        Duration::seconds(5),
        ExchangeAccountId::new("test".into(), 0),
    );

    requests_timeout_manager.requests = vec![
        Request::new(RequestType::CreateOrder, now(), None),
        Request::new(RequestType::CancelOrder, now(), None),
    ];
    let result = requests_timeout_manager.get_all_available_requests_count();
    println!("{:?}", &result);
    assert_eq!(result, 0);
}

#[test]
fn all_available_requests() {
    let mut manager = manager(3);
    assert_eq!(manager.get_all_available_requests_count(), 3);
    manager.requests = vec![request(1, None)];
    assert_eq!(manager.get_all_available_requests_count(), 2);
}

#[test]
fn requests_are_let_through_up_to_the_limit() {
    let mut manager = manager(2);
    assert_eq!(let_through(&mut manager, 10), Ok(false));
    assert_eq!(let_through(&mut manager, 11), Ok(false));
    assert_eq!(times(&manager), [10, 11]);
    assert_eq!(let_through(&mut manager, 12), Ok(false));
    assert_eq!(times(&manager), [10, 11]);
    assert_eq!(let_through(&mut manager, 16), Ok(false));
    assert_eq!(times(&manager), [11, 16]);
    assert!(manager.requests.len() <= manager.requests_per_period);
}

#[test]
fn triggers_are_noted() {
    let mut manager = manager(3);
    let_through(&mut manager, 10).unwrap();
    let_through(&mut manager, 12).unwrap();
    assert_eq!(
        manager.take_events(),
        [
            TimeoutEvent::HandleDecreasingTriggers { available_requests_count: 2 },
            TimeoutEvent::ScheduleIncreasingTriggers {
                available_requests_count: 2,
                last_request_time: at(10),
                period_duration: Duration::seconds(5),
            },
            TimeoutEvent::HandleDecreasingTriggers { available_requests_count: 1 },
            TimeoutEvent::ScheduleIncreasingTriggers {
                available_requests_count: 1,
                last_request_time: at(12),
                period_duration: Duration::seconds(5),
            },
        ]
    );
    assert_eq!(manager.events, []);
}

#[test]
fn requests_stay_in_order() {
    let mut manager = manager(5);
    for secs in [10, 14, 12, 14, 11] {
        let_through(&mut manager, secs).unwrap();
    }
    assert_eq!(times(&manager), [10, 11, 12, 14, 14]);
}

#[test]
fn adding_a_request_returns_it() {
    let mut manager = manager(2);
    assert_eq!(
        manager.add_request(RequestType::CancelOrder, at(7), Some(4)),
        Ok(Request::new(RequestType::CancelOrder, at(7), Some(4)))
    );
    assert_eq!(manager.get_last_request().unwrap().group_id, Some(4));
}

#[test]
fn requests_of_groups_are_not_let_through() {
    let mut manager = manager(2);
    assert_eq!(
        manager.try_reserve_instant(RequestType::CreateOrder, at(1), Some(4)),
        Ok(false)
    );
    assert_eq!(
        manager.try_reserve_group_instant(RequestType::CreateOrder, at(1)),
        Ok(false)
    );
    assert_eq!(times(&manager), []);
    assert_eq!(
        manager.try_reserve_request_instant(RequestType::CreateOrder, at(1), Some(4)),
        Ok(false)
    );
    assert_eq!(manager.requests, [request(1, None)]);
}

#[test]
fn reserving_a_group() {
    let mut manager = manager(5);
    let id = reserve(&mut manager, 10, 3).unwrap().unwrap();
    assert_eq!((id >> 76) & 0xf, 4);
    assert_eq!((id >> 62) & 0x3, 2);
    assert_eq!(manager.pre_reserved_groups, [group(id, 3)]);
    assert_eq!(manager.last_time, Some(at(10)));
    assert_eq!(manager.take_events(), [TimeoutEvent::GroupWasReserved(group(id, 3))]);
    assert_eq!(manager.get_available_requests_count_at_persent(at(10)), 2);

    assert_eq!(reserve(&mut manager, 11, 3), Ok(None));
    assert_eq!(manager.last_time, Some(at(10)));
    assert_eq!(manager.events, []);
    let other = reserve(&mut manager, 11, 2).unwrap().unwrap();
    assert_ne!(id, other);
    assert_eq!(manager.get_available_requests_count_at_persent(at(11)), 0);
}

#[test]
fn removing_a_group_undoes_reserving_it() {
    let mut manager = manager(5);
    let first = reserve(&mut manager, 10, 1).unwrap().unwrap();
    let second = reserve(&mut manager, 10, 2).unwrap().unwrap();
    manager.take_events();
    assert!(manager.remove_group(second, at(11)));
    assert_eq!(manager.pre_reserved_groups, [group(first, 1)]);
    assert_eq!(manager.take_events(), [TimeoutEvent::GroupWasRemoved(group(second, 2))]);
    assert_eq!(manager.get_available_requests_count_at_persent(at(10)), 4);

    assert!(!manager.remove_group(second, at(11)));
    assert_eq!(manager.pre_reserved_groups, [group(first, 1)]);
    assert_eq!(manager.events, []);
}

#[test]
fn removing_takes_the_first_group_of_an_identifier() {
    let mut manager = manager(5);
    manager.add_group(group(1, 1), at(1));
    manager.add_group(group(2, 2), at(1));
    manager.add_group(group(1, 3), at(1));
    assert!(manager.remove_group(1, at(2)));
    assert_eq!(manager.pre_reserved_groups, [group(2, 2), group(1, 3)]);
}

#[test]
fn time_does_not_go_back() {
    let mut manager = manager(5);
    assert_eq!(manager.get_non_decreasing_time(at(3)), at(3));
    reserve(&mut manager, 10, 1).unwrap();
    assert_eq!(manager.get_non_decreasing_time(at(3)), at(10));
    assert_eq!(manager.get_non_decreasing_time(at(10)), at(10));
    assert_eq!(manager.get_non_decreasing_time(at(12)), at(12));
    let_through(&mut manager, 3).unwrap();
    assert_eq!(times(&manager), [10]);
}

#[test]
fn outdated_requests_are_forgotten() {
    let mut manager = manager(5);
    manager.requests = vec![request(1, None), request(5, None), request(6, None)];
    assert_eq!(manager.remove_outdated_requests(at(10)), Ok(()));
    assert_eq!(times(&manager), [5, 6]);
}

#[test]
fn period_without_beginning_is_an_error() {
    let mut manager = manager(5);
    manager.requests = vec![request(1, None)];
    let error = TimeoutError::UnableToSubtractTimePeriods;
    assert_eq!(manager.remove_outdated_requests(at(MIN_SECS)), Err(error));
    assert_eq!(reserve(&mut manager, MIN_SECS + 4, 1), Err(error));
    assert_eq!(let_through(&mut manager, MIN_SECS + 4), Err(error));
    assert_eq!(times(&manager), [1]);
    assert_eq!(error.message(), "Unable to substract time periods");
}

#[test]
fn no_last_request_is_an_error() {
    let mut manager = manager(5);
    let error = TimeoutError::NoLastRequest;
    assert_eq!(manager.get_last_request(), Err(error));
    assert_eq!(manager.get_requests_count_at_last_request_time(), Err(error));
    assert_eq!(manager.get_available_requests_in_last_period(), Err(error));
    assert_eq!(manager.handle_all_increasing_triggers(), Err(error));
    assert_eq!(error.message(), "There are no last request");
}

#[test]
fn counts_by_group() {
    let mut manager = manager(20);
    manager.add_group(group(1, 3), at(0));
    manager.add_group(group(2, 1), at(0));
    manager.requests = vec![
        request(1, None),
        request(2, Some(1)),
        request(3, Some(2)),
        request(3, Some(2)),
        request(4, Some(9)),
        request(8, Some(1)),
    ];
    assert_eq!(
        manager.get_reserved_requests_count_at_present(at(4)),
        RequestsCountsInPeriodResult::new(5, 3, 5)
    );
    assert_eq!(manager.get_available_requests_count_at_persent(at(4)), 13);
    assert_eq!(
        manager.get_requests_count_at_last_request_time(),
        Ok(RequestsCountsInPeriodResult::new(4, 3, 5))
    );
    assert_eq!(manager.get_available_requests_in_last_period(), Ok(14));
    assert_eq!(
        manager.reserved_requests_count_in_period(at(0), |_: &Request, _: DateTime| true),
        RequestsCountsInPeriodResult::new(0, 0, 4)
    );
    assert_eq!(RequestsCountTpm::new(3).requests_count, 0);
}

#[test]
fn the_last_group_of_an_identifier_counts() {
    let mut manager = manager(20);
    manager.add_group(group(1, 3), at(0));
    manager.add_group(group(1, 5), at(0));
    assert_eq!(
        manager.get_reserved_requests_count_at_present(at(4)),
        RequestsCountsInPeriodResult::new(0, 0, 5)
    );
}

#[test]
fn giving_up_a_group_does_not_raise_the_load() {
    let mut manager = manager(10);
    manager.add_group(group(1, 1), at(0));
    manager.requests = vec![request(1, Some(1)), request(1, Some(1))];
    assert_eq!(manager.get_available_requests_count_at_persent(at(1)), 8);
    manager.remove_group(1, at(1));
    assert_eq!(manager.get_available_requests_count_at_persent(at(1)), 8);
}

#[test]
fn broken_limit_is_noticed() {
    let mut manager = manager(1);
    manager.requests = vec![request(1, None), request(2, None)];
    assert!(!manager.is_within_limit_at(at(2)));
    assert!(manager.is_within_limit_at(at(1)));
    assert!(!manager.is_request_reservable(RequestType::CreateOrder, at(2)));
    assert!(manager.is_request_reservable(RequestType::CreateOrder, at(7)));

    // One later request and one at the limit before it.
    manager.requests = vec![request(4, None)];
    assert!(manager.is_within_limit_at(at(2)));
    assert!(!manager.is_request_reservable(RequestType::CreateOrder, at(2)));

    manager.requests = Vec::new();
    manager.add_group(group(1, usize::MAX), at(1));
    manager.add_group(group(2, usize::MAX), at(1));
    assert!(!manager.is_within_limit_at(at(2)));
}

#[test]
fn steady_manager_stays_within_its_limit() {
    let mut manager = manager(3);
    let mut groups = Vec::new();
    for secs in 0..40 {
        if secs % 3 == 0 {
            groups.extend(reserve(&mut manager, secs, 1).unwrap());
        }
        if secs % 7 == 6 {
            if let Some(id) = groups.pop() {
                assert!(manager.remove_group(id, at(secs)));
            }
        }
        let_through(&mut manager, secs).unwrap();
        assert!(manager.requests.len() <= 3);
        assert!(manager.is_within_limit_at(at(secs)));
    }
}

#[test]
fn instant_without_group_is_a_request() {
    let busy = || {
        let mut manager = manager(10);
        manager.requests = [1, 2, 2, 2, 3].iter().map(|secs| request(*secs, None)).collect();
        manager
    };
    let mut instant = busy();
    let mut plain = busy();
    assert!(instant.is_request_reservable(RequestType::CancelOrder, at(2)));
    assert_eq!(
        instant.try_reserve_instant(RequestType::CancelOrder, at(2), None),
        plain.try_reserve_request_instant(RequestType::CancelOrder, at(2), None)
    );
    assert_eq!(times(&instant), vec![1, 2, 2, 2, 2, 3]);
    assert_eq!(instant.requests, plain.requests);
    assert_eq!(instant.last_time, plain.last_time);
    assert_eq!(instant.take_events(), plain.take_events());
}

#[test]
fn reservable_whatever_the_order() {
    let mut manager = manager(2);
    manager.requests = vec![request(3, None), request(1, None)];
    assert!(manager.is_request_reservable(RequestType::CreateOrder, at(3)));
    assert_eq!(manager.try_reserve_instant(RequestType::CreateOrder, at(3), Some(4)), Ok(false));
    assert_eq!(times(&manager), vec![3, 1]);
}
