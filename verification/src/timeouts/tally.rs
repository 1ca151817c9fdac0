//! One pass over requests and groups that counts what falls into a period.
use crate::time::DateTime;
use crate::timeouts::counts::{
    counted, groups_share, has_group, in_group, in_groups, last_reserved, lemma_counted_len,
    lemma_groups_share_bound, lemma_last_reserved, unmarked,
};
use crate::timeouts::request::{GroupId, PreReservedGroup, Request, RequestsCountTpm};
use std::collections::HashMap;
use vstd::prelude::*;

verus! {

broadcast use vstd::std_specs::hash::group_hash_axioms;

/// `outside` holds what the predicate answered of each of the requests.
pub open spec fn answers<F: Fn(&Request, DateTime) -> bool>(
    requests: Seq<Request>,
    current_time: DateTime,
    not_period_predicate: F,
    outside: Seq<bool>,
) -> bool {
    &&& outside.len() == requests.len()
    &&& forall|i: int|
        0 <= i < requests.len() ==> call_ensures(
            not_period_predicate,
            (&requests[i], current_time),
            #[trigger] outside[i],
        )
}

/// Counts the requests that the predicate does not put outside of the period: all of them,
/// those of standing groups, and what the groups take up.
pub fn tally<F>(
    requests: &Vec<Request>,
    groups: &Vec<PreReservedGroup>,
    current_time: DateTime,
    not_period_predicate: F,
) -> (counts: (usize, usize, u128)) where F: Fn(&Request, DateTime) -> bool
    requires
        forall|i: int|
            0 <= i < requests@.len() ==> call_requires(
                not_period_predicate,
                (&#[trigger] requests@[i], current_time),
            ),
    ensures
        exists|outside: Seq<bool>|
            {
                let inside = unmarked(requests@, outside);
                &&& #[trigger] answers(requests@, current_time, not_period_predicate, outside)
                &&& counts.0 == inside.len()
                &&& counts.1 == counted(inside, in_groups(groups@))
                &&& counts.2 == groups_share(inside, groups@)
            },
{
    let mut requests_count_by_group_id: HashMap<GroupId, RequestsCountTpm> =
        HashMap::with_capacity(groups.len());
    let mut i: usize = 0;
    while i < groups.len()
        invariant
            i <= groups@.len(),
            forall|id: GroupId| #[trigger]
                requests_count_by_group_id@.contains_key(id) <==> has_group(
                    groups@.take(i as int),
                    id,
                ),
            forall|id: GroupId| #[trigger]
                requests_count_by_group_id@.contains_key(id)
                    ==> requests_count_by_group_id@[id] == (RequestsCountTpm {
                    requests_count: 0,
                    pre_reserved_count: last_reserved(groups@.take(i as int), id),
                }),
        decreases groups@.len() - i,
    {
        let group = &groups[i];
        requests_count_by_group_id.insert(
            group.id,
            RequestsCountTpm::new(group.pre_reserved_requests_count),
        );
        proof {
            let before = groups@.take(i as int);
            let after = groups@.take(i + 1);
            assert(after.drop_last() =~= before);
            assert(after.last() == *group);
            assert forall|id: GroupId|
                has_group(after, id) <==> (has_group(before, id) || id == group.id) by {
                if has_group(before, id) {
                    let j = choose|j: int|
                        0 <= j < before.len() && #[trigger] before[j].id == id;
                    assert(after[j].id == id);
                }
                if id == group.id {
                    assert(after[i as int].id == id);
                }
                if has_group(after, id) && id != group.id {
                    let j = choose|j: int| 0 <= j < after.len() && #[trigger] after[j].id == id;
                    assert(before[j].id == id);
                }
            }
        }
        i = i + 1;
    }
    assert(groups@.take(groups@.len() as int) =~= groups@);

    let mut requests_count: usize = 0;
    let mut requests_count_in_group: usize = 0;
    let ghost mut outside: Seq<bool> = Seq::empty();
    let mut n: usize = 0;
    while n < requests.len()
        invariant
            n <= requests@.len(),
            forall|i: int|
                0 <= i < requests@.len() ==> call_requires(
                    not_period_predicate,
                    (&#[trigger] requests@[i], current_time),
                ),
            answers(
                requests@.take(n as int),
                current_time,
                not_period_predicate,
                outside,
            ),
            requests_count == unmarked(requests@.take(n as int), outside).len(),
            requests_count <= n,
            requests_count_in_group <= n,
            requests_count_in_group == counted(
                unmarked(requests@.take(n as int), outside),
                in_groups(groups@),
            ),
            forall|id: GroupId| #[trigger]
                requests_count_by_group_id@.contains_key(id) <==> has_group(groups@, id),
            forall|id: GroupId| #[trigger]
                requests_count_by_group_id@.contains_key(id) ==> {
                    let tmp = requests_count_by_group_id@[id];
                    &&& tmp.pre_reserved_count == last_reserved(groups@, id)
                    &&& tmp.requests_count == counted(
                        unmarked(requests@.take(n as int), outside),
                        in_group(id),
                    )
                },
        decreases requests@.len() - n,
    {
        let request = &requests[n];
        let is_outside = not_period_predicate(request, current_time);
        let ghost seen = unmarked(requests@.take(n as int), outside);
        proof {
            let longer = requests@.take(n + 1);
            assert(longer.drop_last() =~= requests@.take(n as int));
            let old_outside = outside;
            outside = outside.push(is_outside);
            assert(outside.drop_last() =~= old_outside);
            assert forall|i: int| 0 <= i < longer.len() implies call_ensures(
                not_period_predicate,
                (&longer[i], current_time),
                #[trigger] outside[i],
            ) by {
                if i < n {
                    assert(outside[i] == old_outside[i]);
                }
            }
        }
        n = n + 1;
        let ghost now_seen = unmarked(requests@.take(n as int), outside);
        if is_outside {
            continue ;
        }
        assert(now_seen == seen.push(*request));
        assert(now_seen.drop_last() =~= seen);
        requests_count = requests_count + 1;

        match request.group_id {
            None => {},
            Some(group_id) => {
                match requests_count_by_group_id.get(&group_id) {
                    None => {},
                    Some(requests_count_tmp) => {
                        requests_count_in_group = requests_count_in_group + 1;
                        proof {
                            lemma_counted_len(seen, in_group(group_id));
                        }
                        let updated = RequestsCountTpm {
                            requests_count: requests_count_tmp.requests_count + 1,
                            pre_reserved_count: requests_count_tmp.pre_reserved_count,
                        };
                        requests_count_by_group_id.insert(group_id, updated);
                    },
                }
            },
        }
    }
    assert(requests@.take(requests@.len() as int) =~= requests@);
    let ghost inside = unmarked(requests@, outside);

    let mut vacant_and_reserved_count: u128 = 0;
    let mut left: usize = groups.len();
    assert(groups@.skip(left as int) =~= Seq::empty());
    while left > 0
        invariant
            left <= groups@.len(),
            inside.len() <= usize::MAX,
            groups@.len() <= usize::MAX,
            vacant_and_reserved_count == groups_share(inside, groups@.skip(left as int)),
            forall|id: GroupId| #[trigger]
                requests_count_by_group_id@.contains_key(id) <==> has_group(groups@, id)
                    && !has_group(groups@.skip(left as int), id),
            forall|id: GroupId| #[trigger]
                requests_count_by_group_id@.contains_key(id) ==> {
                    let tmp = requests_count_by_group_id@[id];
                    &&& tmp.pre_reserved_count == last_reserved(groups@, id)
                    &&& tmp.requests_count == counted(inside, in_group(id))
                },
        decreases left,
    {
        left = left - 1;
        let group_id = groups[left].id;
        proof {
            let behind = groups@.skip(left + 1);
            let from_here = groups@.skip(left as int);
            assert(from_here.drop_first() =~= behind);
            assert(groups@[left as int].id == group_id);
            lemma_groups_share_bound(inside, from_here);
            if !has_group(behind, group_id) {
                lemma_last_reserved(groups@, left as int);
            }
            assert forall|id: GroupId|
                has_group(from_here, id) <==> (has_group(behind, id) || id == group_id) by {
                if has_group(behind, id) {
                    let j = choose|j: int|
                        0 <= j < behind.len() && #[trigger] behind[j].id == id;
                    assert(from_here[j + 1].id == id);
                }
                if id == group_id {
                    assert(from_here[0].id == id);
                }
                if has_group(from_here, id) && id != group_id {
                    let j = choose|j: int|
                        0 <= j < from_here.len() && #[trigger] from_here[j].id == id;
                    assert(behind[j - 1].id == id);
                }
            }
        }
        match requests_count_by_group_id.remove(&group_id) {
            None => {},
            Some(requests_count_tmp) => {
                if requests_count_tmp.requests_count <= requests_count_tmp.pre_reserved_count {
                    vacant_and_reserved_count =
                    vacant_and_reserved_count + requests_count_tmp.pre_reserved_count as u128;
                } else {
                    vacant_and_reserved_count =
                    vacant_and_reserved_count + requests_count_tmp.requests_count as u128;
                }
            },
        }
    }
    assert(groups@.skip(0) =~= groups@);

    (requests_count, requests_count_in_group, vacant_and_reserved_count)
}

} // verus!
