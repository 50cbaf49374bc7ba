//! Deterministic sharding for distributing tests across CI machines.
//!
//! A test belongs to a shard according to the XXH3 hash of its full name
//! alone, so the same test always lands in the same shard whatever other
//! tests the plan holds.

use vstd::prelude::*;
use vstd::utf8::encode_utf8;

verus! {

/// Which of `total` shards this run executes, counted from 1.
#[derive(Clone, Copy, Debug, PartialEq, Eq, Structural)]
pub struct ShardInfo {
    pub current: u32,
    pub total: u32,
}

/// The identity of a test.
#[derive(Debug)]
pub struct TestId {
    pub full_name: String,
}

/// One test of a plan.
#[derive(Debug)]
pub struct TestCase {
    pub id: TestId,
}

/// A suite of tests.
#[derive(Debug)]
pub struct TestSuite {
    pub name: String,
    pub tests: Vec<TestCase>,
}

/// The tests a run is going to execute.
#[derive(Debug)]
pub struct TestPlan {
    pub suites: Vec<TestSuite>,
    pub total_tests: usize,
    pub shard: Option<ShardInfo>,
}

/// A suite as its name and the full names of its tests, in order.
pub struct SuiteView {
    pub name: Seq<char>,
    pub tests: Seq<Seq<char>>,
}

/// A plan as its suites, its test count and its shard.
pub struct PlanView {
    pub suites: Seq<SuiteView>,
    pub total_tests: usize,
    pub shard: Option<ShardInfo>,
}

impl View for TestCase {
    type V = Seq<char>;

    open spec fn view(&self) -> Seq<char> {
        self.id.full_name@
    }
}

/// The full names of `tests`, in order.
pub open spec fn test_names(tests: Seq<TestCase>) -> Seq<Seq<char>> {
    tests.map_values(|t: TestCase| t@)
}

impl View for TestSuite {
    type V = SuiteView;

    open spec fn view(&self) -> SuiteView {
        SuiteView { name: self.name@, tests: test_names(self.tests@) }
    }
}

/// The views of `suites`, in order.
pub open spec fn suite_views(suites: Seq<TestSuite>) -> Seq<SuiteView> {
    suites.map_values(|s: TestSuite| s@)
}

impl View for TestPlan {
    type V = PlanView;

    open spec fn view(&self) -> PlanView {
        PlanView {
            suites: suite_views(self.suites@),
            total_tests: self.total_tests,
            shard: self.shard,
        }
    }
}

impl TestId {
    /// The test's full name.
    pub fn full_name(&self) -> (r: String)
        ensures
            r@ == self.full_name@,
    {
        self.full_name.clone()
    }
}

/// The XXH3 64-bit hash (seed 0, default secret) of `data`.
pub uninterp spec fn xxh3_64_of(data: Seq<u8>) -> u64;

/// Calls `xxhash_rust::xxh3::xxh3_64`, which hashes any input without
/// panicking; its result is named `xxh3_64_of` of the bytes.
#[verifier::external_body]
fn xxh3_64(data: &[u8]) -> (h: u64)
    ensures
        h == xxh3_64_of(data@),
{
    xxhash_rust::xxh3::xxh3_64(data)
}

/// The hash of a test's full name: XXH3 of its UTF-8 bytes.
pub open spec fn name_hash(name: Seq<char>) -> u64 {
    xxh3_64_of(encode_utf8(name))
}

/// A shard that can be executed: shards are counted from 1 and there is at
/// least one.
pub open spec fn valid_shard(shard: ShardInfo) -> bool {
    shard.current >= 1 && shard.total >= 1
}

/// The shard, counted from 1, that a test of this name belongs to.
pub open spec fn shard_index(name: Seq<char>, total: u32) -> int {
    (name_hash(name) as int) % (total as int) + 1
}

/// Whether a test of this name belongs to `shard`.
pub open spec fn in_shard(name: Seq<char>, shard: ShardInfo) -> bool {
    (name_hash(name) as int) % (shard.total as int) == shard.current - 1
}

/// `in_shard` as a predicate over names.
pub open spec fn shard_pred(shard: ShardInfo) -> spec_fn(Seq<char>) -> bool {
    |name: Seq<char>| in_shard(name, shard)
}

/// A suite with only the tests of `shard`.
pub open spec fn narrow_suite(suite: SuiteView, shard: ShardInfo) -> SuiteView {
    SuiteView { name: suite.name, tests: suite.tests.filter(shard_pred(shard)) }
}

/// Whether a suite holds any test.
pub open spec fn non_empty_suite(suite: SuiteView) -> bool {
    suite.tests.len() > 0
}

/// The suites of a plan restricted to `shard`: each suite keeps the tests of
/// the shard, in order, and suites left without tests are dropped.
pub open spec fn sharded(suites: Seq<SuiteView>, shard: ShardInfo) -> Seq<SuiteView> {
    suites.map_values(|s: SuiteView| narrow_suite(s, shard)).filter(
        |s: SuiteView| non_empty_suite(s),
    )
}

/// The number of tests in `suites`.
pub open spec fn test_count(suites: Seq<SuiteView>) -> nat
    decreases suites.len(),
{
    if suites.len() == 0 {
        0
    } else {
        suites[0].tests.len() + test_count(suites.drop_first())
    }
}

/// Whether the test called `full_name` belongs to `shard`: the same test
/// always goes to the same shard, whatever other tests exist.
pub fn belongs_to_shard(full_name: &str, shard: &ShardInfo) -> (r: bool)
    requires
        valid_shard(*shard),
    ensures
        r == in_shard(full_name@, *shard),
{
    let hash = xxh3_64(full_name.as_bytes());
    hash % (shard.total as u64) == (shard.current - 1) as u64
}

/// Keeps the tests of `shard`, in order.
fn retain_shard_tests(tests: &mut Vec<TestCase>, shard: &ShardInfo)
    requires
        valid_shard(*shard) || old(tests).len() == 0,
    ensures
        test_names(final(tests)@) == test_names(old(tests)@).filter(shard_pred(*shard)),
{
    let ghost p = shard_pred(*shard);
    let mut rest: Vec<TestCase> = Vec::new();
    std::mem::swap(&mut rest, tests);
    let ghost orig = test_names(rest@);
    let mut kept: Vec<TestCase> = Vec::new();
    assert(test_names(kept@) + test_names(rest@).filter(p) =~= orig.filter(p));
    while rest.len() > 0
        invariant
            valid_shard(*shard) || rest.len() == 0,
            p == shard_pred(*shard),
            test_names(kept@) + test_names(rest@).filter(p) == orig.filter(p),
        decreases rest.len(),
    {
        let ghost before = rest@;
        let t = rest.remove(0);
        proof {
            assert(test_names(before) =~= seq![t@] + test_names(rest@));
            test_names(rest@).lemma_filter_prepend(t@, p);
        }
        let keep = belongs_to_shard(t.id.full_name.as_str(), shard);
        let ghost kept_before = kept@;
        if keep {
            kept.push(t);
            assert(test_names(kept@) =~= test_names(kept_before) + seq![t@]);
        }
    }
    assert(test_names(rest@) =~= Seq::<Seq<char>>::empty());
    *tests = kept;
}

proof fn lemma_filter_shrinks(s: Seq<Seq<char>>, p: spec_fn(Seq<char>) -> bool)
    ensures
        s.filter(p).len() <= s.len(),
{
    s.lemma_filter_len(p);
}

/// Restricts `plan` to the tests of `shard`: each suite keeps its tests of
/// the shard in order, suites left empty are dropped, the test count is
/// recomputed and the shard is recorded. A plan without tests needs no valid
/// shard, since no test is ever assigned.
pub fn filter_by_shard(plan: &mut TestPlan, shard: &ShardInfo)
    requires
        valid_shard(*shard) || test_count(old(plan)@.suites) == 0,
        test_count(old(plan)@.suites) <= usize::MAX,
    ensures
        final(plan)@.suites == sharded(old(plan)@.suites, *shard),
        final(plan).total_tests == test_count(final(plan)@.suites),
        final(plan).shard == Some(*shard),
{
    let ghost narrow = |s: SuiteView| narrow_suite(s, *shard);
    let ghost nonempty = |s: SuiteView| non_empty_suite(s);
    let mut rest: Vec<TestSuite> = Vec::new();
    std::mem::swap(&mut rest, &mut plan.suites);
    let ghost orig = suite_views(rest@);
    let mut kept: Vec<TestSuite> = Vec::new();
    let mut total: usize = 0;
    assert(suite_views(kept@) + suite_views(rest@).map_values(narrow).filter(nonempty)
        =~= orig.map_values(narrow).filter(nonempty));
    while rest.len() > 0
        invariant
            valid_shard(*shard) || test_count(suite_views(rest@)) == 0,
            narrow == (|s: SuiteView| narrow_suite(s, *shard)),
            nonempty == (|s: SuiteView| non_empty_suite(s)),
            suite_views(kept@) + suite_views(rest@).map_values(narrow).filter(nonempty)
                == orig.map_values(narrow).filter(nonempty),
            total == test_count(suite_views(kept@)),
            total + test_count(suite_views(rest@)) <= usize::MAX,
        decreases rest.len(),
    {
        let ghost before = rest@;
        let mut suite = rest.remove(0);
        let ghost sv = suite@;
        proof {
            assert(suite_views(before) =~= seq![sv] + suite_views(rest@));
            assert(suite_views(before).map_values(narrow) =~= seq![narrow(sv)] + suite_views(
                rest@,
            ).map_values(narrow));
            suite_views(rest@).map_values(narrow).lemma_filter_prepend(narrow(sv), nonempty);
            assert(suite_views(before).drop_first() =~= suite_views(rest@));
            lemma_filter_shrinks(sv.tests, shard_pred(*shard));
        }
        retain_shard_tests(&mut suite.tests, shard);
        assert(suite@ == narrow(sv));
        if suite.tests.len() > 0 {
            let ghost kept_before = kept@;
            total = total + suite.tests.len();
            kept.push(suite);
            proof {
                assert(suite_views(kept@) =~= suite_views(kept_before).push(narrow(sv)));
                lemma_test_count_append(suite_views(kept_before), narrow(sv));
            }
        }
    }
    assert(suite_views(rest@) =~= Seq::<SuiteView>::empty());
    plan.suites = kept;
    plan.total_tests = total;
    plan.shard = Some(*shard);
}

proof fn lemma_test_count_append(suites: Seq<SuiteView>, s: SuiteView)
    ensures
        test_count(suites.push(s)) == test_count(suites) + s.tests.len(),
    decreases suites.len(),
{
    if suites.len() > 0 {
        assert(suites.push(s).drop_first() =~= suites.drop_first().push(s));
        lemma_test_count_append(suites.drop_first(), s);
        assert(suites.push(s)[0] == suites[0]);
    } else {
        assert(suites.push(s).drop_first() =~= Seq::<SuiteView>::empty());
        assert(suites.push(s)[0] == s);
        assert(test_count(suites.push(s).drop_first()) == 0);
    }
}


/// The shard `k` of `total`.
pub open spec fn shard_at(k: int, total: u32) -> ShardInfo {
    ShardInfo { current: k as u32, total }
}

/// `f(1) + f(2) + ... + f(n)`.
pub open spec fn sum_to(f: spec_fn(int) -> int, n: int) -> int
    decreases n,
{
    if n <= 0 {
        0
    } else {
        sum_to(f, n - 1) + f(n)
    }
}

/// Each test belongs to exactly one of the `total` shards, the one that
/// `shard_index` gives, and which one depends on nothing but its name and
/// `total`.
pub proof fn lemma_each_test_in_exactly_one_shard(name: Seq<char>, total: u32)
    requires
        total >= 1,
    ensures
        1 <= shard_index(name, total) <= total,
        forall|k: int|
            1 <= k <= total ==> (#[trigger] in_shard(name, shard_at(k, total)) <==> k
                == shard_index(name, total)),
{
}

proof fn lemma_sum_ext(f: spec_fn(int) -> int, g: spec_fn(int) -> int, n: int)
    requires
        forall|k: int| 1 <= k <= n ==> #[trigger] f(k) == g(k),
    ensures
        sum_to(f, n) == sum_to(g, n),
    decreases n,
{
    if n > 0 {
        lemma_sum_ext(f, g, n - 1);
    }
}

proof fn lemma_sum_add(f: spec_fn(int) -> int, g: spec_fn(int) -> int, h: spec_fn(int) -> int, n: int)
    requires
        forall|k: int| 1 <= k <= n ==> #[trigger] h(k) == f(k) + g(k),
    ensures
        sum_to(h, n) == sum_to(f, n) + sum_to(g, n),
    decreases n,
{
    if n > 0 {
        lemma_sum_add(f, g, h, n - 1);
    }
}

proof fn lemma_sum_indicator(target: int, n: int)
    requires
        n >= 0,
    ensures
        sum_to(|k: int| if k == target { 1int } else { 0int }, n) == (if 1 <= target <= n {
            1int
        } else {
            0int
        }),
    decreases n,
{
    if n > 0 {
        lemma_sum_indicator(target, n - 1);
    }
}

proof fn lemma_sum_zero(n: int)
    requires
        n >= 0,
    ensures
        sum_to(|k: int| 0int, n) == 0,
    decreases n,
{
    if n > 0 {
        lemma_sum_zero(n - 1);
    }
}

/// Over all shards, the tests of a suite are kept exactly once each.
proof fn lemma_tests_split_over_shards(tests: Seq<Seq<char>>, total: u32)
    requires
        total >= 1,
    ensures
        sum_to(|k: int| tests.filter(shard_pred(shard_at(k, total))).len() as int, total as int)
            == tests.len(),
    decreases tests.len(),
{
    let f = |k: int| tests.filter(shard_pred(shard_at(k, total))).len() as int;
    if tests.len() == 0 {
        assert forall|k: int| 1 <= k <= total implies #[trigger] f(k) == (|k: int| 0int)(k) by {
            reveal(Seq::filter);
        }
        lemma_sum_ext(f, |k: int| 0int, total as int);
        lemma_sum_zero(total as int);
    } else {
        let t = tests[0];
        let rest = tests.drop_first();
        assert(tests =~= seq![t] + rest);
        lemma_tests_split_over_shards(rest, total);
        lemma_each_test_in_exactly_one_shard(t, total);
        let target = shard_index(t, total);
        let ind = |k: int| if k == target { 1int } else { 0int };
        let g = |k: int| rest.filter(shard_pred(shard_at(k, total))).len() as int;
        assert forall|k: int| 1 <= k <= total implies #[trigger] f(k) == ind(k) + g(k) by {
            rest.lemma_filter_prepend(t, shard_pred(shard_at(k, total)));
            assert(in_shard(t, shard_at(k, total)) <==> k == target);
        }
        lemma_sum_add(ind, g, f, total as int);
        lemma_sum_indicator(target, total as int);
    }
}

/// The number of tests that `suites` keep for `shard`, empty suites included.
spec fn kept_count(suites: Seq<SuiteView>, shard: ShardInfo) -> nat
    decreases suites.len(),
{
    if suites.len() == 0 {
        0
    } else {
        suites[0].tests.filter(shard_pred(shard)).len() + kept_count(suites.drop_first(), shard)
    }
}

proof fn lemma_test_count_prepend(x: SuiteView, rest: Seq<SuiteView>)
    ensures
        test_count(seq![x] + rest) == x.tests.len() + test_count(rest),
{
    assert((seq![x] + rest).drop_first() =~= rest);
    assert((seq![x] + rest)[0] == x);
}

proof fn lemma_sharded_count(suites: Seq<SuiteView>, shard: ShardInfo)
    ensures
        test_count(sharded(suites, shard)) == kept_count(suites, shard),
    decreases suites.len(),
{
    let narrow = |s: SuiteView| narrow_suite(s, shard);
    let nonempty = |s: SuiteView| non_empty_suite(s);
    if suites.len() == 0 {
        assert(suites.map_values(narrow) =~= Seq::<SuiteView>::empty());
        reveal(Seq::filter);
        assert(sharded(suites, shard) =~= Seq::<SuiteView>::empty());
    } else {
        let x = suites[0];
        let rest = suites.drop_first();
        lemma_sharded_count(rest, shard);
        assert(suites.map_values(narrow) =~= seq![narrow(x)] + rest.map_values(narrow));
        rest.map_values(narrow).lemma_filter_prepend(narrow(x), nonempty);
        if non_empty_suite(narrow(x)) {
            lemma_test_count_prepend(narrow(x), sharded(rest, shard));
        } else {
            assert(sharded(suites, shard) =~= sharded(rest, shard));
        }
    }
}

proof fn lemma_kept_split_over_shards(suites: Seq<SuiteView>, total: u32)
    requires
        total >= 1,
    ensures
        sum_to(|k: int| kept_count(suites, shard_at(k, total)) as int, total as int)
            == test_count(suites),
    decreases suites.len(),
{
    let f = |k: int| kept_count(suites, shard_at(k, total)) as int;
    if suites.len() == 0 {
        assert forall|k: int| 1 <= k <= total implies #[trigger] f(k) == (|k: int| 0int)(k) by {}
        lemma_sum_ext(f, |k: int| 0int, total as int);
        lemma_sum_zero(total as int);
    } else {
        let x = suites[0];
        let rest = suites.drop_first();
        lemma_kept_split_over_shards(rest, total);
        lemma_tests_split_over_shards(x.tests, total);
        let a = |k: int| x.tests.filter(shard_pred(shard_at(k, total))).len() as int;
        let b = |k: int| kept_count(rest, shard_at(k, total)) as int;
        assert forall|k: int| 1 <= k <= total implies #[trigger] f(k) == a(k) + b(k) by {}
        lemma_sum_add(a, b, f, total as int);
    }
}

/// Running every one of the `total` shards runs each test of the plan
/// exactly once: the shards' test counts add up to the plan's.
pub proof fn lemma_shards_cover_plan_once(suites: Seq<SuiteView>, total: u32)
    requires
        total >= 1,
    ensures
        sum_to(
            |k: int| test_count(sharded(suites, shard_at(k, total))) as int,
            total as int,
        ) == test_count(suites),
{
    let f = |k: int| test_count(sharded(suites, shard_at(k, total))) as int;
    let g = |k: int| kept_count(suites, shard_at(k, total)) as int;
    assert forall|k: int| 1 <= k <= total implies #[trigger] f(k) == g(k) by {
        lemma_sharded_count(suites, shard_at(k, total));
    }
    lemma_sum_ext(f, g, total as int);
    lemma_kept_split_over_shards(suites, total);
}


proof fn lemma_sharded_prepend(x: SuiteView, rest: Seq<SuiteView>, shard: ShardInfo)
    ensures
        sharded(seq![x] + rest, shard) == if non_empty_suite(narrow_suite(x, shard)) {
            seq![narrow_suite(x, shard)] + sharded(rest, shard)
        } else {
            sharded(rest, shard)
        },
{
    let narrow = |s: SuiteView| narrow_suite(s, shard);
    let nonempty = |s: SuiteView| non_empty_suite(s);
    assert((seq![x] + rest).map_values(narrow) =~= seq![narrow(x)] + rest.map_values(narrow));
    rest.map_values(narrow).lemma_filter_prepend(narrow(x), nonempty);
    if !non_empty_suite(narrow_suite(x, shard)) {
        assert(Seq::<SuiteView>::empty() + sharded(rest, shard) =~= sharded(rest, shard));
    }
}

proof fn lemma_filter_twice(s: Seq<Seq<char>>, p: spec_fn(Seq<char>) -> bool)
    ensures
        s.filter(p).filter(p) == s.filter(p),
    decreases s.len(),
{
    if s.len() == 0 {
        reveal(Seq::filter);
        assert(s.filter(p) =~= s);
    } else {
        let t = s[0];
        let rest = s.drop_first();
        assert(s =~= seq![t] + rest);
        lemma_filter_twice(rest, p);
        rest.lemma_filter_prepend(t, p);
        if p(t) {
            rest.filter(p).lemma_filter_prepend(t, p);
        } else {
            assert(Seq::<Seq<char>>::empty() + rest.filter(p) =~= rest.filter(p));
        }
    }
}

/// Restricting a plan to a shard a second time changes nothing.
pub proof fn lemma_sharding_twice_is_once(suites: Seq<SuiteView>, shard: ShardInfo)
    ensures
        sharded(sharded(suites, shard), shard) == sharded(suites, shard),
    decreases suites.len(),
{
    if suites.len() == 0 {
        assert(suites =~= Seq::<SuiteView>::empty() + suites);
        lemma_sharded_count(suites, shard);
        assert(sharded(suites, shard).len() == 0) by {
            suites.map_values(|s: SuiteView| narrow_suite(s, shard)).lemma_filter_len(
                |s: SuiteView| non_empty_suite(s),
            );
        }
        assert(sharded(suites, shard) =~= suites);
    } else {
        let x = suites[0];
        let rest = suites.drop_first();
        assert(suites =~= seq![x] + rest);
        lemma_sharded_prepend(x, rest, shard);
        lemma_sharding_twice_is_once(rest, shard);
        let nx = narrow_suite(x, shard);
        if non_empty_suite(nx) {
            lemma_sharded_prepend(nx, sharded(rest, shard), shard);
            lemma_filter_twice(x.tests, shard_pred(shard));
            assert(narrow_suite(nx, shard) == nx);
        }
    }
}


proof fn lemma_filter_keeps_name(tests: Seq<Seq<char>>, p: spec_fn(Seq<char>) -> bool, name: Seq<char>)
    requires
        tests.contains(name),
    ensures
        tests.filter(p).contains(name) == p(name),
{
    let i = choose|i: int| 0 <= i < tests.len() && tests[i] == name;
    if p(name) {
        tests.lemma_filter_contains(p, i);
    } else if tests.filter(p).contains(name) {
        let j = choose|j: int| 0 <= j < tests.filter(p).len() && tests.filter(p)[j] == name;
        tests.lemma_filter_pred(p, j);
    }
}

/// Whether a test survives sharding depends on nothing but its name and the
/// shard: in any two suites, of the same plan or of different plans, a test
/// of the same name is kept by both or by neither, and kept exactly when it
/// belongs to the shard.
pub proof fn lemma_membership_ignores_other_tests(
    a: SuiteView,
    b: SuiteView,
    name: Seq<char>,
    shard: ShardInfo,
)
    requires
        a.tests.contains(name),
        b.tests.contains(name),
    ensures
        narrow_suite(a, shard).tests.contains(name) == in_shard(name, shard),
        narrow_suite(b, shard).tests.contains(name) == in_shard(name, shard),
{
    lemma_filter_keeps_name(a.tests, shard_pred(shard), name);
    lemma_filter_keeps_name(b.tests, shard_pred(shard), name);
}

/// Each test of a plan is kept by exactly one of the `total` shards, in the
/// restriction of the suite it belongs to, and that restriction is one of
/// the suites of that shard's plan.
pub proof fn lemma_test_kept_in_exactly_its_shard(
    suites: Seq<SuiteView>,
    total: u32,
    i: int,
    j: int,
)
    requires
        total >= 1,
        0 <= i < suites.len(),
        0 <= j < suites[i].tests.len(),
    ensures
        forall|k: int|
            1 <= k <= total ==> (#[trigger] narrow_suite(
                suites[i],
                shard_at(k, total),
            ).tests.contains(suites[i].tests[j]) <==> k == shard_index(suites[i].tests[j], total)),
        sharded(suites, shard_at(shard_index(suites[i].tests[j], total), total)).contains(
            narrow_suite(suites[i], shard_at(shard_index(suites[i].tests[j], total), total)),
        ),
{
    let name = suites[i].tests[j];
    assert(suites[i].tests.contains(name)) by {
        assert(suites[i].tests[j] == name);
    }
    lemma_each_test_in_exactly_one_shard(name, total);
    assert forall|k: int| 1 <= k <= total implies (#[trigger] narrow_suite(
        suites[i],
        shard_at(k, total),
    ).tests.contains(name) <==> k == shard_index(name, total)) by {
        lemma_filter_keeps_name(suites[i].tests, shard_pred(shard_at(k, total)), name);
    }
    let home = shard_at(shard_index(name, total), total);
    let narrow = |s: SuiteView| narrow_suite(s, home);
    let nonempty = |s: SuiteView| non_empty_suite(s);
    let mapped = suites.map_values(narrow);
    assert(mapped[i] == narrow_suite(suites[i], home));
    lemma_filter_keeps_name(suites[i].tests, shard_pred(home), name);
    assert(non_empty_suite(mapped[i]));
    mapped.lemma_filter_contains(nonempty, i);
}

proof fn lemma_filter_all(tests: Seq<Seq<char>>, p: spec_fn(Seq<char>) -> bool)
    requires
        forall|k: int| 0 <= k < tests.len() ==> p(#[trigger] tests[k]),
    ensures
        tests.filter(p) == tests,
    decreases tests.len(),
{
    reveal(Seq::filter);
    if tests.len() > 0 {
        lemma_filter_all(tests.drop_last(), p);
        assert(tests.drop_last().push(tests.last()) =~= tests);
    }
}

/// With a single shard every test runs: the plan keeps every suite that has
/// tests, each with all of its tests.
pub proof fn lemma_single_shard_keeps_everything(suites: Seq<SuiteView>)
    ensures
        sharded(suites, shard_at(1, 1)) == suites.filter(|s: SuiteView| non_empty_suite(s)),
{
    let narrow = |s: SuiteView| narrow_suite(s, shard_at(1, 1));
    assert forall|k: int| 0 <= k < suites.len() implies #[trigger] narrow(suites[k])
        == suites[k] by {
        let t = suites[k].tests;
        assert forall|m: int| 0 <= m < t.len() implies shard_pred(shard_at(1, 1))(
            #[trigger] t[m],
        ) by {
            assert((name_hash(t[m]) as int) % 1 == 0);
        }
        lemma_filter_all(t, shard_pred(shard_at(1, 1)));
    }
    assert(suites.map_values(narrow) =~= suites);
}


/// Restricting a suite to a shard keeps its name and keeps, in order,
/// exactly those of its tests whose hash falls on the shard.
pub proof fn lemma_narrowing_keeps_name(suite: SuiteView, shard: ShardInfo)
    ensures
        narrow_suite(suite, shard).name == suite.name,
        narrow_suite(suite, shard).tests == suite.tests.filter(
            |t: Seq<char>|
                (xxh3_64_of(encode_utf8(t)) as int) % (shard.total as int) == shard.current - 1,
        ),
{
    let direct = |t: Seq<char>|
        (xxh3_64_of(encode_utf8(t)) as int) % (shard.total as int) == shard.current - 1;
    assert(shard_pred(shard) =~= direct);
}

/// Sharding changes only the tests of a suite: every suite of a shard's plan
/// is a suite of the original plan with the same name, holding, in order,
/// those of that suite's tests whose hash falls on the shard, and it holds at
/// least one test.
pub proof fn lemma_sharded_suites_come_from_the_plan(
    suites: Seq<SuiteView>,
    shard: ShardInfo,
    k: int,
)
    requires
        0 <= k < sharded(suites, shard).len(),
    ensures
        sharded(suites, shard)[k].tests.len() > 0,
        exists|i: int|
            0 <= i < suites.len() && #[trigger] suites[i].name == sharded(suites, shard)[k].name
                && sharded(suites, shard)[k].tests == suites[i].tests.filter(
                |t: Seq<char>|
                    (xxh3_64_of(encode_utf8(t)) as int) % (shard.total as int) == shard.current
                        - 1,
            ),
{
    let narrow = |s: SuiteView| narrow_suite(s, shard);
    let nonempty = |s: SuiteView| non_empty_suite(s);
    let mapped = suites.map_values(narrow);
    let x = sharded(suites, shard)[k];
    mapped.lemma_filter_pred(nonempty, k);
    assert(mapped.filter(nonempty).contains(x));
    mapped.lemma_filter_contains_rev(nonempty, x);
    let i = choose|i: int| 0 <= i < mapped.len() && mapped[i] == x;
    lemma_narrowing_keeps_name(suites[i], shard);
    assert(suites[i].name == x.name);
}


/// The test count of a plan adds up the tests of its suites: nothing for no
/// suites, a suite's own tests for one suite, and the sum over two parts.
pub proof fn lemma_test_count_adds_up(a: Seq<SuiteView>, b: Seq<SuiteView>)
    ensures
        test_count(Seq::<SuiteView>::empty()) == 0,
        forall|s: SuiteView| #[trigger] test_count(seq![s]) == s.tests.len(),
        test_count(a + b) == test_count(a) + test_count(b),
    decreases a.len(),
{
    assert forall|s: SuiteView| #[trigger] test_count(seq![s]) == s.tests.len() by {
        assert(seq![s].drop_first() =~= Seq::<SuiteView>::empty());
        assert(seq![s][0] == s);
        assert(test_count(seq![s].drop_first()) == 0);
    }
    if a.len() == 0 {
        assert(a + b =~= b);
    } else {
        lemma_test_count_adds_up(a.drop_first(), b);
        assert((a + b).drop_first() =~= a.drop_first() + b);
        assert((a + b)[0] == a[0]);
    }
}


/// Sharding works suite by suite, in plan order: sharding a plan made of two
/// parts gives the sharded first part followed by the sharded second part,
/// and a single suite stays, narrowed to the shard, exactly when it keeps a
/// test.
pub proof fn lemma_sharding_goes_suite_by_suite(
    a: Seq<SuiteView>,
    b: Seq<SuiteView>,
    suite: SuiteView,
    shard: ShardInfo,
)
    ensures
        sharded(a + b, shard) == sharded(a, shard) + sharded(b, shard),
        sharded(seq![suite], shard) == if suite.tests.filter(shard_pred(shard)).len() > 0 {
            seq![SuiteView { name: suite.name, tests: suite.tests.filter(shard_pred(shard)) }]
        } else {
            Seq::<SuiteView>::empty()
        },
{
    let narrow = |s: SuiteView| narrow_suite(s, shard);
    let nonempty = |s: SuiteView| non_empty_suite(s);
    assert((a + b).map_values(narrow) =~= a.map_values(narrow) + b.map_values(narrow));
    Seq::filter_distributes_over_add(a.map_values(narrow), b.map_values(narrow), nonempty);
    lemma_sharded_prepend(suite, Seq::<SuiteView>::empty(), shard);
    assert(seq![suite] + Seq::<SuiteView>::empty() =~= seq![suite]);
    assert(sharded(Seq::<SuiteView>::empty(), shard) =~= Seq::<SuiteView>::empty()) by {
        assert(Seq::<SuiteView>::empty().map_values(narrow) =~= Seq::<SuiteView>::empty());
        reveal(Seq::filter);
    }
    assert(seq![narrow_suite(suite, shard)] + Seq::<SuiteView>::empty() =~= seq![
        narrow_suite(suite, shard),
    ]);
}

} // verus!
