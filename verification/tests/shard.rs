use ferridriver::shard::{
    belongs_to_shard, filter_by_shard, ShardInfo, TestCase, TestId, TestPlan, TestSuite,
};

fn case(name: &str) -> TestCase {
    TestCase { id: TestId { full_name: name.to_string() } }
}

fn plan(suites: &[(&str, &[&str])]) -> TestPlan {
    let suites: Vec<TestSuite> = suites
        .iter()
        .map(|(name, tests)| TestSuite {
            name: name.to_string(),
            tests: tests.iter().map(|t| case(t)).collect(),
        })
        .collect();
    let total = suites.iter().map(|s| s.tests.len()).sum();
    TestPlan { suites, total_tests: total, shard: None }
}

fn names(plan: &TestPlan) -> Vec<String> {
    plan.suites
        .iter()
        .flat_map(|s| s.tests.iter().map(|t| t.id.full_name()))
        .collect()
}

const SUITES: &[(&str, &[&str])] = &[
    ("login", &["login > accepts valid user", "login > rejects bad password", "login > locks out"]),
    ("cart", &["cart > adds item", "cart > removes item"]),
    ("search", &["search > finds results", "search > empty query", "search > paging", "search > filters"]),
    ("solo", &["solo > only test"]),
];

#[test]
fn empty_name_hash_selects_its_shard() {
    // XXH3-64 of the empty input is 0x2D06800538D394C2, which is 4 modulo 7.
    assert!(belongs_to_shard("", &ShardInfo { current: 5, total: 7 }));
    for current in [1, 2, 3, 4, 6, 7] {
        assert!(!belongs_to_shard("", &ShardInfo { current, total: 7 }));
    }
}

#[test]
fn every_test_lands_in_exactly_one_shard() {
    let total = 3;
    let all = names(&plan(SUITES));
    for name in &all {
        let hits = (1..=total)
            .filter(|c| belongs_to_shard(name, &ShardInfo { current: *c, total }))
            .count();
        assert_eq!(hits, 1, "{name}");
    }
    let mut seen: Vec<String> = Vec::new();
    let mut counted = 0;
    for current in 1..=total {
        let mut p = plan(SUITES);
        let shard = ShardInfo { current, total };
        filter_by_shard(&mut p, &shard);
        assert_eq!(p.shard, Some(shard));
        assert_eq!(p.total_tests, names(&p).len());
        assert!(p.suites.iter().all(|s| !s.tests.is_empty()));
        counted += p.total_tests;
        seen.extend(names(&p));
    }
    assert_eq!(counted, all.len());
    seen.sort();
    let mut expected = all.clone();
    expected.sort();
    assert_eq!(seen, expected);
}

#[test]
fn sharding_keeps_order_and_is_idempotent() {
    let shard = ShardInfo { current: 2, total: 2 };
    let mut once = plan(SUITES);
    filter_by_shard(&mut once, &shard);
    let kept = names(&once);
    let expected: Vec<String> = names(&plan(SUITES))
        .into_iter()
        .filter(|n| belongs_to_shard(n, &shard))
        .collect();
    assert_eq!(kept, expected);
    let mut twice = plan(SUITES);
    filter_by_shard(&mut twice, &shard);
    filter_by_shard(&mut twice, &shard);
    assert_eq!(names(&twice), kept);
    assert_eq!(twice.total_tests, once.total_tests);
}

#[test]
fn single_shard_keeps_everything() {
    let mut p = plan(SUITES);
    filter_by_shard(&mut p, &ShardInfo { current: 1, total: 1 });
    assert_eq!(names(&p), names(&plan(SUITES)));
    assert_eq!(p.total_tests, 10);
    assert_eq!(p.suites.len(), 4);
}

#[test]
fn shard_membership_ignores_other_tests() {
    let shard = ShardInfo { current: 1, total: 4 };
    let name = "cart > adds item";
    let mut alone = plan(&[("cart", &["cart > adds item"])]);
    filter_by_shard(&mut alone, &shard);
    let mut crowded = plan(SUITES);
    filter_by_shard(&mut crowded, &shard);
    let in_alone = names(&alone).iter().any(|n| n == name);
    let in_crowded = names(&crowded).iter().any(|n| n == name);
    assert_eq!(in_alone, in_crowded);
    assert_eq!(in_alone, belongs_to_shard(name, &shard));
}

#[test]
fn empty_plan_stays_empty() {
    let mut p = plan(&[]);
    filter_by_shard(&mut p, &ShardInfo { current: 1, total: 3 });
    assert!(p.suites.is_empty());
    assert_eq!(p.total_tests, 0);
}

#[test]
fn empty_plan_needs_no_valid_shard() {
    let mut p = plan(&[("empty", &[])]);
    filter_by_shard(&mut p, &ShardInfo { current: 0, total: 0 });
    assert!(p.suites.is_empty());
    assert_eq!(p.total_tests, 0);
    assert_eq!(p.shard, Some(ShardInfo { current: 0, total: 0 }));
}
