//! The rate limiter: for every tenant key one sliding-window counter per rule
//! of its tier. Time is an argument, in milliseconds of a clock that the
//! caller reads.
use vstd::prelude::*;
use crate::table::KeyedTable;
use crate::tiers::{TierRate, TierRegistry, TierView};

verus! {

/// Outcome of a rate-limit check.
#[derive(Clone, Copy, Debug, PartialEq, Eq, Structural)]
pub enum Decision {
    Allow,
    Reject,
}

/// What a check found: the decision, and whether it was made for want of a
/// tier, which is worth a warning.
#[derive(Clone, Copy, Debug, PartialEq, Eq, Structural)]
pub struct Checked {
    pub decision: Decision,
    pub tier_missing: bool,
}

/// The admitted requests that one rule still remembers for one key.
pub struct WindowCounter {
    rule: TierRate,
    stamps: Vec<u64>,
}

/// A counter as plain values: its rule and the times of the requests it
/// remembers.
pub struct CounterView {
    pub rule: TierRate,
    pub stamps: Seq<u64>,
}

impl View for WindowCounter {
    type V = CounterView;

    closed spec fn view(&self) -> CounterView {
        CounterView { rule: self.rule, stamps: self.stamps@ }
    }
}

/// Whether a request made at `stamp` still lies in the window of length
/// `interval` that ends at `now`. A stamp that is later than `now` counts.
pub open spec fn in_window(stamp: u64, now: u64, interval: u64) -> bool {
    now < stamp || now - stamp < interval
}

/// The stamps that lie in the window ending at `now`, in their order.
pub open spec fn live(stamps: Seq<u64>, now: u64, interval: u64) -> Seq<u64>
    decreases stamps.len(),
{
    if stamps.len() == 0 {
        Seq::<u64>::empty()
    } else {
        let earlier = live(stamps.drop_last(), now, interval);
        if in_window(stamps.last(), now, interval) {
            earlier.push(stamps.last())
        } else {
            earlier
        }
    }
}

/// Whether the rule admits one more request at `now`.
pub open spec fn has_room(counter: CounterView, now: u64) -> bool {
    live(counter.stamps, now, counter.rule.interval).len() < counter.rule.limit
}

/// Whether every rule admits one more request at `now`.
pub open spec fn all_have_room(counters: Seq<CounterView>, now: u64) -> bool {
    forall|i: int| 0 <= i < counters.len() ==> has_room(#[trigger] counters[i], now)
}

/// The counter after it has counted a request admitted at `now`: stamps that
/// left the window are forgotten, `now` is remembered.
pub open spec fn charged(counter: CounterView, now: u64) -> CounterView {
    CounterView {
        rule: counter.rule,
        stamps: live(counter.stamps, now, counter.rule.interval).push(now),
    }
}

/// Every counter after a request admitted at `now`.
pub open spec fn all_charged(counters: Seq<CounterView>, now: u64) -> Seq<CounterView> {
    Seq::new(counters.len(), |i: int| charged(counters[i], now))
}

/// Counters that remember nothing, one per rule.
pub open spec fn fresh(rates: Seq<TierRate>) -> Seq<CounterView> {
    Seq::new(rates.len(), |i: int| CounterView { rule: rates[i], stamps: Seq::<u64>::empty() })
}

/// One request against the counters of one key: it is admitted when every
/// rule has room, and only then is it counted. A request that is turned down
/// uses up nothing, so a throttled key gets room again as soon as the oldest
/// request that was let through leaves the window, however often it asked
/// in between.
pub open spec fn step(counters: Seq<CounterView>, now: u64) -> (bool, Seq<CounterView>) {
    if all_have_room(counters, now) {
        (true, all_charged(counters, now))
    } else {
        (false, counters)
    }
}

/// The limiter's state: the counters of each key seen so far.
pub type LimiterView = Map<Seq<char>, Seq<CounterView>>;

/// The state after `key` was set up for the rules in `rates`: a key that
/// has counters keeps them.
pub open spec fn created(state: LimiterView, key: Seq<char>, rates: Seq<TierRate>) -> LimiterView {
    if state.contains_key(key) {
        state
    } else {
        state.insert(key, fresh(rates))
    }
}

/// The counters that a request for `key` is held against: those on record,
/// or fresh ones for the tier's rules on the key's first request.
pub open spec fn counters_for(state: LimiterView, key: Seq<char>, tier: TierView) -> Seq<
    CounterView,
> {
    if state.contains_key(key) {
        state[key]
    } else {
        fresh(tier.rates)
    }
}

/// What a check decides and the state it leaves. A tier that the registry
/// does not define lets the request pass and touches nothing.
pub open spec fn check_spec(
    state: LimiterView,
    tiers: Map<Seq<char>, TierView>,
    key: Seq<char>,
    tier_name: Seq<char>,
    now: u64,
) -> (Decision, LimiterView) {
    if !tiers.contains_key(tier_name) {
        (Decision::Allow, state)
    } else {
        let outcome = step(counters_for(state, key, tiers[tier_name]), now);
        (
            if outcome.0 {
                Decision::Allow
            } else {
                Decision::Reject
            },
            state.insert(key, outcome.1),
        )
    }
}

/// Views of a list of counters.
pub open spec fn views(counters: Seq<WindowCounter>) -> Seq<CounterView> {
    Seq::new(counters.len(), |i: int| counters[i]@)
}

/// Number of stamps that lie in the window ending at `now`.
fn count_live(stamps: &Vec<u64>, now: u64, interval: u64) -> (n: usize)
    ensures
        n == live(stamps@, now, interval).len(),
{
    let mut n: usize = 0;
    let mut i: usize = 0;
    while i < stamps.len()
        invariant
            i <= stamps@.len(),
            n <= i,
            n == live(stamps@.take(i as int), now, interval).len(),
        decreases stamps@.len() - i,
    {
        let stamp = stamps[i];
        proof {
            assert(stamps@.take(i + 1).drop_last() =~= stamps@.take(i as int));
        }
        if now < stamp || now - stamp < interval {
            n += 1;
        }
        i += 1;
    }
    assert(stamps@.take(stamps@.len() as int) =~= stamps@);
    n
}

/// The stamps that lie in the window ending at `now`.
fn keep_live(stamps: &Vec<u64>, now: u64, interval: u64) -> (kept: Vec<u64>)
    ensures
        kept@ == live(stamps@, now, interval),
{
    let mut kept: Vec<u64> = Vec::new();
    let mut i: usize = 0;
    while i < stamps.len()
        invariant
            i <= stamps@.len(),
            kept@ == live(stamps@.take(i as int), now, interval),
        decreases stamps@.len() - i,
    {
        let stamp = stamps[i];
        proof {
            assert(stamps@.take(i + 1).drop_last() =~= stamps@.take(i as int));
        }
        if now < stamp || now - stamp < interval {
            kept.push(stamp);
        }
        i += 1;
    }
    assert(stamps@.take(stamps@.len() as int) =~= stamps@);
    kept
}

/// Fresh counters for the rules of a tier.
fn fresh_counters(rates: &Vec<TierRate>) -> (counters: Vec<WindowCounter>)
    ensures
        views(counters@) == fresh(rates@),
{
    let mut counters: Vec<WindowCounter> = Vec::new();
    let mut i: usize = 0;
    while i < rates.len()
        invariant
            i <= rates@.len(),
            counters@.len() == i,
            forall|j: int| 0 <= j < i ==> (#[trigger] counters@[j])@ == fresh(rates@)[j],
        decreases rates@.len() - i,
    {
        counters.push(WindowCounter { rule: rates[i], stamps: Vec::new() });
        i += 1;
    }
    assert(views(counters@) =~= fresh(rates@));
    counters
}

/// Whether every counter has room at `now`.
fn room_in_all(counters: &Vec<WindowCounter>, now: u64) -> (room: bool)
    ensures
        room == all_have_room(views(counters@), now),
{
    let mut i: usize = 0;
    while i < counters.len()
        invariant
            i <= counters@.len(),
            forall|j: int| 0 <= j < i ==> has_room(#[trigger] views(counters@)[j], now),
        decreases counters@.len() - i,
    {
        let counter = &counters[i];
        let seen = count_live(&counter.stamps, now, counter.rule.interval);
        if seen as u64 >= counter.rule.limit {
            assert(!has_room(views(counters@)[i as int], now));
            return false;
        }
        i += 1;
    }
    true
}

/// One request at `now` against the counters of one key.
fn decide(counters: Vec<WindowCounter>, now: u64) -> (outcome: (bool, Vec<WindowCounter>))
    ensures
        (outcome.0, views(outcome.1@)) == step(views(counters@), now),
{
    if !room_in_all(&counters, now) {
        return (false, counters);
    }
    let mut next: Vec<WindowCounter> = Vec::new();
    let mut i: usize = 0;
    while i < counters.len()
        invariant
            i <= counters@.len(),
            next@.len() == i,
            forall|j: int|
                0 <= j < i ==> (#[trigger] next@[j])@ == charged(views(counters@)[j], now),
        decreases counters@.len() - i,
    {
        let counter = &counters[i];
        let mut stamps = keep_live(&counter.stamps, now, counter.rule.interval);
        stamps.push(now);
        next.push(WindowCounter { rule: counter.rule, stamps });
        i += 1;
    }
    assert(views(next@) =~= all_charged(views(counters@), now));
    (true, next)
}

/// The rate limiter's table of counters.
pub struct Limiter {
    table: KeyedTable<Vec<WindowCounter>>,
}

impl View for Limiter {
    type V = LimiterView;

    closed spec fn view(&self) -> LimiterView {
        self.table.map().map_values(|counters: Vec<WindowCounter>| views(counters@))
    }
}

impl Limiter {
    /// A limiter that has seen no key.
    pub fn new() -> (limiter: Self)
        ensures
            limiter@ == Map::<Seq<char>, Seq<CounterView>>::empty(),
    {
        let limiter = Limiter { table: KeyedTable::new() };
        assert(limiter@ =~= Map::<Seq<char>, Seq<CounterView>>::empty());
        limiter
    }

    /// Whether counters exist for `key`.
    pub fn has_limiter(&self, key: &str) -> (present: bool)
        ensures
            present == self@.contains_key(key@),
    {
        self.table.contains(key)
    }

    /// Gives `key` fresh counters for the rules in `rates`, unless it has
    /// counters already: those stay as they are, with what they remember, so
    /// that a key that is set up twice is still counted once.
    pub fn add_limiter(&mut self, key: &str, rates: &Vec<TierRate>)
        ensures
            final(self)@ == created(old(self)@, key@, rates@),
    {
        if self.has_limiter(key) {
            return;
        }
        let counters = fresh_counters(rates);
        self.table.insert(String::from_str(key), counters);
        assert(self@ =~= old(self)@.insert(key@, fresh(rates@)));
    }

    /// Forgets every key.
    pub fn clear(&mut self)
        ensures
            final(self)@ == Map::<Seq<char>, Seq<CounterView>>::empty(),
    {
        self.table.clear();
        assert(self@ =~= Map::<Seq<char>, Seq<CounterView>>::empty());
    }

    /// Decides one request of `key` under the tier `tier_name` at time `now`,
    /// and counts it if it is admitted. A tier that the registry does not
    /// define lets the request pass, and the result says so.
    pub fn check(&mut self, tiers: &TierRegistry, key: &str, tier_name: &str, now: u64) -> (checked:
        Checked)
        ensures
            (checked.decision, final(self)@) == check_spec(
                old(self)@,
                tiers@,
                key@,
                tier_name@,
                now,
            ),
            checked.tier_missing == !tiers@.contains_key(tier_name@),
    {
        let tier = match tiers.get(tier_name) {
            Some(tier) => tier,
            None => {
                return Checked { decision: Decision::Allow, tier_missing: true };
            },
        };
        let counters = match self.table.remove(key) {
            Some(counters) => counters,
            None => fresh_counters(tier.rates()),
        };
        let ghost held = views(counters@);
        assert(held == counters_for(old(self)@, key@, tiers@[tier_name@]));
        let (allowed, next) = decide(counters, now);
        self.table.insert(String::from_str(key), next);
        assert(self@ =~= old(self)@.insert(key@, step(held, now).1));
        Checked {
            decision: if allowed {
                Decision::Allow
            } else {
                Decision::Reject
            },
            tier_missing: false,
        }
    }
}

/// The counters of one key after requests at the given times, in order.
pub open spec fn replay(counters: Seq<CounterView>, times: Seq<u64>) -> Seq<CounterView>
    decreases times.len(),
{
    if times.len() == 0 {
        counters
    } else {
        step(replay(counters, times.drop_last()), times.last()).1
    }
}

/// Whether the request at `times[k]` is admitted, after those before it.
pub open spec fn verdict_at(counters: Seq<CounterView>, times: Seq<u64>, k: int) -> bool {
    step(replay(counters, times.take(k)), times[k]).0
}

/// The times do not go backwards, and the last lies in the window of the
/// first.
pub open spec fn within_one_window(times: Seq<u64>, interval: u64) -> bool {
    forall|i: int, j: int|
        0 <= i <= j < times.len() ==> times[i] <= times[j] && times[j] - times[i] < interval
}

/// No counter remembers more requests than its rule allows.
pub open spec fn within_limits(counters: Seq<CounterView>) -> bool {
    forall|i: int|
        0 <= i < counters.len() ==> (#[trigger] counters[i]).stamps.len() <= counters[i].rule.limit
}

proof fn lemma_live_bounds(stamps: Seq<u64>, now: u64, interval: u64)
    ensures
        live(stamps, now, interval).len() <= stamps.len(),
        (forall|i: int| 0 <= i < stamps.len() ==> in_window(stamps[i], now, interval)) ==> live(
            stamps,
            now,
            interval,
        ) == stamps,
        (exists|i: int| 0 <= i < stamps.len() && !in_window(stamps[i], now, interval)) ==> live(
            stamps,
            now,
            interval,
        ).len() < stamps.len(),
    decreases stamps.len(),
{
    if stamps.len() > 0 {
        let head = stamps.drop_last();
        lemma_live_bounds(head, now, interval);
        if forall|i: int| 0 <= i < stamps.len() ==> in_window(stamps[i], now, interval) {
            assert forall|i: int| 0 <= i < head.len() implies in_window(
                head[i],
                now,
                interval,
            ) by {
                assert(head[i] == stamps[i]);
            }
            assert(head.push(stamps.last()) =~= stamps);
        }
        if exists|i: int| 0 <= i < stamps.len() && !in_window(stamps[i], now, interval) {
            let i = choose|i: int| 0 <= i < stamps.len() && !in_window(stamps[i], now, interval);
            if i < head.len() {
                assert(head[i] == stamps[i]);
            }
        }
    } else {
        assert(live(stamps, now, interval) =~= stamps);
    }
}

/// One rule, a burst: of requests that all fall into one window of a tier
/// with the single rule `rule`, made by a key without history, exactly the
/// first `rule.limit` are admitted. The one after them is rejected, and so
/// is every later one of the burst.
pub proof fn law_burst_admits_limit(rule: TierRate, times: Seq<u64>)
    requires
        within_one_window(times, rule.interval),
    ensures
        forall|k: int|
            0 <= k < times.len() ==> #[trigger] verdict_at(fresh(seq![rule]), times, k) == (k
                < rule.limit),
{
    assert forall|k: int| 0 <= k < times.len() implies #[trigger] verdict_at(
        fresh(seq![rule]),
        times,
        k,
    ) == (k < rule.limit) by {
        lemma_burst_state(rule, times, k);
        let kept = if k < rule.limit { k } else { rule.limit as int };
        let counter = CounterView { rule, stamps: times.take(kept) };
        assert forall|i: int| 0 <= i < counter.stamps.len() implies in_window(
            counter.stamps[i],
            times[k],
            rule.interval,
        ) by {
            assert(counter.stamps[i] == times[i]);
        }
        lemma_live_bounds(counter.stamps, times[k], rule.interval);
        assert(seq![counter][0] == counter);
    }
}

/// The counter of a burst after its first `n` requests remembers the first
/// `min(n, limit)` of them.
proof fn lemma_burst_state(rule: TierRate, times: Seq<u64>, n: int)
    requires
        within_one_window(times, rule.interval),
        0 <= n <= times.len(),
    ensures
        replay(fresh(seq![rule]), times.take(n)) == seq![
            CounterView {
                rule,
                stamps: times.take(
                    if n < rule.limit {
                        n
                    } else {
                        rule.limit as int
                    },
                ),
            },
        ],
    decreases n,
{
    let goal = seq![
        CounterView {
            rule,
            stamps: times.take(
                if n < rule.limit {
                    n
                } else {
                    rule.limit as int
                },
            ),
        },
    ];
    if n == 0 {
        assert(times.take(0) =~= Seq::<u64>::empty());
        assert(fresh(seq![rule]) =~= goal);
    } else {
        lemma_burst_state(rule, times, n - 1);
        let kept = if n - 1 < rule.limit { n - 1 } else { rule.limit as int };
        let counter = CounterView { rule, stamps: times.take(kept) };
        let before = seq![counter];
        let now = times[n - 1];
        assert(times.take(n).drop_last() =~= times.take(n - 1));
        assert(times.take(n).last() == now);
        assert forall|i: int| 0 <= i < counter.stamps.len() implies in_window(
            counter.stamps[i],
            now,
            rule.interval,
        ) by {
            assert(counter.stamps[i] == times[i]);
        }
        lemma_live_bounds(counter.stamps, now, rule.interval);
        assert(before[0] == counter);
        if n - 1 < rule.limit {
            assert(all_have_room(before, now));
            assert(times.take(n - 1).push(now) =~= times.take(n));
            assert(all_charged(before, now) =~= goal);
        } else {
            assert(!has_room(before[0], now));
        }
    }
}

/// Counters that remember no more than their rules allow stay so, whatever
/// is asked of them.
pub proof fn law_counters_stay_within_limits(counters: Seq<CounterView>, times: Seq<u64>)
    requires
        within_limits(counters),
    ensures
        within_limits(replay(counters, times)),
    decreases times.len(),
{
    if times.len() > 0 {
        law_counters_stay_within_limits(counters, times.drop_last());
        let before = replay(counters, times.drop_last());
        let now = times.last();
        if all_have_room(before, now) {
            assert forall|i: int| 0 <= i < before.len() implies (#[trigger] all_charged(
                before,
                now,
            )[i]).stamps.len() <= all_charged(before, now)[i].rule.limit by {
                assert(has_room(before[i], now));
            }
        }
    }
}

/// Fresh counters remember nothing, so they are within their limits.
pub proof fn law_fresh_within_limits(rates: Seq<TierRate>)
    ensures
        within_limits(fresh(rates)),
{
}

/// Once a request that a counter remembers has left the window, the
/// counter's rule has room again.
pub proof fn law_aged_out_makes_room(counter: CounterView, now: u64, i: int)
    requires
        counter.stamps.len() <= counter.rule.limit,
        0 <= i < counter.stamps.len(),
        !in_window(counter.stamps[i], now, counter.rule.interval),
    ensures
        has_room(counter, now),
{
    lemma_live_bounds(counter.stamps, now, counter.rule.interval);
}

/// A rule that remembers as many requests in the window as it allows turns
/// the next request down, whatever the other rules say.
pub proof fn law_full_rule_rejects(counters: Seq<CounterView>, now: u64, i: int)
    requires
        0 <= i < counters.len(),
        live(counters[i].stamps, now, counters[i].rule.interval).len() >= counters[i].rule.limit,
    ensures
        step(counters, now) == (false, counters),
{
    assert(!has_room(counters[i], now));
}

/// A tier that the registry does not define lets every request of every
/// key pass, and leaves the limiter as it was.
pub proof fn law_undefined_tier_allows(
    state: LimiterView,
    tiers: Map<Seq<char>, TierView>,
    key: Seq<char>,
    tier_name: Seq<char>,
    now: u64,
)
    requires
        !tiers.contains_key(tier_name),
    ensures
        check_spec(state, tiers, key, tier_name, now) == (Decision::Allow, state),
{
}

/// On a limiter that has forgotten everything, the first request of a key
/// passes wherever each rule of its tier allows at least one request.
pub proof fn law_first_request_passes(
    tiers: Map<Seq<char>, TierView>,
    key: Seq<char>,
    tier_name: Seq<char>,
    now: u64,
)
    requires
        tiers.contains_key(tier_name),
        forall|i: int|
            0 <= i < tiers[tier_name].rates.len() ==> (#[trigger] tiers[tier_name].rates[i]).limit
                > 0,
    ensures
        check_spec(Map::<Seq<char>, Seq<CounterView>>::empty(), tiers, key, tier_name, now).0
            == Decision::Allow,
{
    let counters = fresh(tiers[tier_name].rates);
    assert forall|i: int| 0 <= i < counters.len() implies has_room(
        #[trigger] counters[i],
        now,
    ) by {
        assert(tiers[tier_name].rates[i].limit > 0);
        assert(live(counters[i].stamps, now, counters[i].rule.interval) =~= Seq::<u64>::empty());
    }
}

/// The limiter's state after checks of one key under one tier at the given
/// times, in order.
pub open spec fn after_checks(
    state: LimiterView,
    tiers: Map<Seq<char>, TierView>,
    key: Seq<char>,
    tier_name: Seq<char>,
    times: Seq<u64>,
) -> LimiterView
    decreases times.len(),
{
    if times.len() == 0 {
        state
    } else {
        check_spec(
            after_checks(state, tiers, key, tier_name, times.drop_last()),
            tiers,
            key,
            tier_name,
            times.last(),
        ).1
    }
}

/// What the check at `times[k]` decides, after those before it.
pub open spec fn decision_at(
    state: LimiterView,
    tiers: Map<Seq<char>, TierView>,
    key: Seq<char>,
    tier_name: Seq<char>,
    times: Seq<u64>,
    k: int,
) -> Decision {
    check_spec(
        after_checks(state, tiers, key, tier_name, times.take(k)),
        tiers,
        key,
        tier_name,
        times[k],
    ).0
}

/// Checks of a key under a tier that the registry defines go by the key's
/// counters alone: each is allowed exactly when the counters admit it.
pub proof fn law_checks_follow_counters(
    state: LimiterView,
    tiers: Map<Seq<char>, TierView>,
    key: Seq<char>,
    tier_name: Seq<char>,
    times: Seq<u64>,
)
    requires
        tiers.contains_key(tier_name),
    ensures
        counters_for(after_checks(state, tiers, key, tier_name, times), key, tiers[tier_name])
            == replay(counters_for(state, key, tiers[tier_name]), times),
        forall|k: int|
            0 <= k < times.len() ==> (#[trigger] decision_at(state, tiers, key, tier_name, times, k)
                == Decision::Allow) == verdict_at(
                counters_for(state, key, tiers[tier_name]),
                times,
                k,
            ),
    decreases times.len(),
{
    if times.len() > 0 {
        law_checks_follow_counters(state, tiers, key, tier_name, times.drop_last());
    }
    assert forall|k: int| 0 <= k < times.len() implies (#[trigger] decision_at(
        state,
        tiers,
        key,
        tier_name,
        times,
        k,
    ) == Decision::Allow) == verdict_at(counters_for(state, key, tiers[tier_name]), times, k) by {
        lemma_prefix_counters(state, tiers, key, tier_name, times.take(k));
    }
}

proof fn lemma_prefix_counters(
    state: LimiterView,
    tiers: Map<Seq<char>, TierView>,
    key: Seq<char>,
    tier_name: Seq<char>,
    times: Seq<u64>,
)
    requires
        tiers.contains_key(tier_name),
    ensures
        counters_for(after_checks(state, tiers, key, tier_name, times), key, tiers[tier_name])
            == replay(counters_for(state, key, tiers[tier_name]), times),
    decreases times.len(),
{
    if times.len() > 0 {
        lemma_prefix_counters(state, tiers, key, tier_name, times.drop_last());
    }
}

/// The sliding window of one rule, as `check` keeps it: a key that the
/// limiter has no counters for, on a tier with the single rule `rule`,
/// sends a burst of requests that all fall into one window. The first
/// `rule.limit` of them are allowed and every further one is rejected.
pub proof fn law_check_enforces_limit(
    state: LimiterView,
    tiers: Map<Seq<char>, TierView>,
    key: Seq<char>,
    tier_name: Seq<char>,
    rule: TierRate,
    times: Seq<u64>,
)
    requires
        !state.contains_key(key),
        tiers.contains_key(tier_name),
        tiers[tier_name].rates == seq![rule],
        within_one_window(times, rule.interval),
    ensures
        forall|k: int|
            0 <= k < times.len() ==> #[trigger] decision_at(state, tiers, key, tier_name, times, k)
                == (if k < rule.limit {
                Decision::Allow
            } else {
                Decision::Reject
            }),
{
    law_checks_follow_counters(state, tiers, key, tier_name, times);
    law_burst_admits_limit(rule, times);
    assert forall|k: int| 0 <= k < times.len() implies #[trigger] decision_at(
        state,
        tiers,
        key,
        tier_name,
        times,
        k,
    ) == (if k < rule.limit {
        Decision::Allow
    } else {
        Decision::Reject
    }) by {
        assert(verdict_at(fresh(seq![rule]), times, k) == (k < rule.limit));
    }
}

/// The times do not go backwards.
pub open spec fn in_order(times: Seq<u64>) -> bool {
    forall|i: int, j: int| 0 <= i <= j < times.len() ==> times[i] <= times[j]
}

/// The times of the requests that were admitted, of requests at the given
/// times against the given counters.
pub open spec fn admitted_times(counters: Seq<CounterView>, times: Seq<u64>) -> Seq<u64>
    decreases times.len(),
{
    if times.len() == 0 {
        Seq::<u64>::empty()
    } else {
        let earlier = admitted_times(counters, times.drop_last());
        if step(replay(counters, times.drop_last()), times.last()).0 {
            earlier.push(times.last())
        } else {
            earlier
        }
    }
}

/// No stamp is later than `bound`.
spec fn none_after(stamps: Seq<u64>, bound: u64) -> bool {
    forall|i: int| 0 <= i < stamps.len() ==> #[trigger] stamps[i] <= bound
}

/// What is in the window at `later` was in the window at `now` before, for
/// stamps that are not later than `now`.
proof fn lemma_live_twice(stamps: Seq<u64>, now: u64, later: u64, interval: u64)
    requires
        now <= later,
        none_after(stamps, now),
    ensures
        live(live(stamps, now, interval), later, interval) == live(stamps, later, interval),
        live(stamps, later, interval).len() <= live(stamps, now, interval).len(),
        none_after(live(stamps, now, interval), now),
    decreases stamps.len(),
{
    if stamps.len() > 0 {
        let head = stamps.drop_last();
        let last = stamps.last();
        assert(none_after(head, now)) by {
            assert forall|i: int| 0 <= i < head.len() implies #[trigger] head[i] <= now by {
                assert(head[i] == stamps[i]);
            }
        }
        lemma_live_twice(head, now, later, interval);
        assert(last <= now);
        if in_window(last, now, interval) {
            let kept = live(head, now, interval).push(last);
            assert(kept.drop_last() =~= live(head, now, interval));
            assert(kept.last() == last);
            assert forall|i: int| 0 <= i < kept.len() implies #[trigger] kept[i] <= now by {
                if i < kept.len() - 1 {
                    assert(kept[i] == live(head, now, interval)[i]);
                }
            }
        }
    }
}

/// The stamps that a counter holds after a run of requests are admitted
/// times, none later than the last request, and in every later window they
/// are exactly the admitted times of that window.
proof fn lemma_counter_tracks_admitted(rates: Seq<TierRate>, times: Seq<u64>, i: int, now: u64)
    requires
        in_order(times),
        0 <= i < rates.len(),
        times.len() > 0 ==> times.last() <= now,
    ensures
        replay(fresh(rates), times).len() == rates.len(),
        replay(fresh(rates), times)[i].rule == rates[i],
        none_after(replay(fresh(rates), times)[i].stamps, now),
        none_after(admitted_times(fresh(rates), times), now),
        live(replay(fresh(rates), times)[i].stamps, now, rates[i].interval) == live(
            admitted_times(fresh(rates), times),
            now,
            rates[i].interval,
        ),
    decreases times.len(),
{
    if times.len() > 0 {
        let head = times.drop_last();
        let at = times.last();
        assert(in_order(head)) by {
            assert forall|a: int, b: int| 0 <= a <= b < head.len() implies head[a] <= head[b] by {
                assert(head[a] == times[a] && head[b] == times[b]);
            }
        }
        if head.len() > 0 {
            assert(head.last() == times[head.len() - 1]);
        }
        lemma_counter_tracks_admitted(rates, head, i, at);
        lemma_counter_tracks_admitted(rates, head, i, now);
        let before = replay(fresh(rates), head);
        let earlier = admitted_times(fresh(rates), head);
        let interval = rates[i].interval;
        if all_have_room(before, at) {
            let kept = live(before[i].stamps, at, interval);
            let stamps = kept.push(at);
            assert(replay(fresh(rates), times)[i].stamps == stamps);
            lemma_live_twice(before[i].stamps, at, now, interval);
            assert(stamps.drop_last() =~= kept);
            assert(earlier.push(at).drop_last() =~= earlier);
            assert(none_after(stamps, now)) by {
                assert forall|j: int| 0 <= j < stamps.len() implies #[trigger] stamps[j]
                    <= now by {
                    if j < kept.len() {
                        assert(stamps[j] == kept[j]);
                    }
                }
            }
            assert(none_after(earlier.push(at), now)) by {
                assert forall|j: int| 0 <= j < earlier.len() + 1 implies #[trigger] earlier.push(
                    at,
                )[j] <= now by {
                    if j < earlier.len() {
                        assert(earlier.push(at)[j] == earlier[j]);
                    }
                }
            }
        }
    } else {
        assert(live(fresh(rates)[i].stamps, now, rates[i].interval) =~= Seq::<u64>::empty());
    }
}

/// The sliding window of every rule: whatever requests a key without
/// history sends, at times that do not go backwards, of those that were
/// admitted no more than `limit` lie in the window that ends at the last
/// request. This holds after each request, so at no request does a window
/// of a rule hold more admitted requests than the rule allows.
pub proof fn law_window_never_exceeds_limit(rates: Seq<TierRate>, times: Seq<u64>, i: int)
    requires
        in_order(times),
        0 <= i < rates.len(),
        times.len() > 0,
    ensures
        live(admitted_times(fresh(rates), times), times.last(), rates[i].interval).len()
            <= rates[i].limit,
    decreases times.len(),
{
    let head = times.drop_last();
    let at = times.last();
    let interval = rates[i].interval;
    let before = replay(fresh(rates), head);
    let earlier = admitted_times(fresh(rates), head);
    assert(in_order(head)) by {
        assert forall|a: int, b: int| 0 <= a <= b < head.len() implies head[a] <= head[b] by {
            assert(head[a] == times[a] && head[b] == times[b]);
        }
    }
    if head.len() > 0 {
        assert(head.last() == times[head.len() - 1]);
    }
    lemma_counter_tracks_admitted(rates, head, i, at);
    if all_have_room(before, at) {
        assert(has_room(before[i], at));
        assert(earlier.push(at).drop_last() =~= earlier);
    } else if head.len() > 0 {
        law_window_never_exceeds_limit(rates, head, i);
        lemma_counter_tracks_admitted(rates, head, i, head.last());
        lemma_live_twice(earlier, head.last(), at, interval);
    } else {
        assert(live(earlier, at, interval) =~= Seq::<u64>::empty());
    }
}

/// Setting up a key that has counters changes nothing: the later creation
/// is dropped, and what the key's counters remember stays.
pub proof fn law_second_creation_is_dropped(
    state: LimiterView,
    key: Seq<char>,
    first: Seq<TierRate>,
    second: Seq<TierRate>,
)
    ensures
        created(created(state, key, first), key, second) == created(state, key, first),
{
}

/// A check sets its key up on the way, and as `add_limiter` would: the
/// counters that it holds the request against are those of the state after
/// the key was created for the tier's rules.
pub proof fn law_check_creates_if_absent(state: LimiterView, key: Seq<char>, tier: TierView)
    ensures
        created(state, key, tier.rates).contains_key(key),
        counters_for(state, key, tier) == created(state, key, tier.rates)[key],
{
}

} // verus!
