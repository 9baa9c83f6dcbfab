//! Independent query scheduling and receiver-local admission accounting.

use crate::database::config::RetryConfig;
use crate::time;
use crate::time::{Duration, Instant};
use vstd::arithmetic::power::{lemma_pow_positive, pow};
use vstd::prelude::*;

verus! {

/// `rand::random::<u64>`: a number from the thread-local generator. Nothing is
/// claimed of it.
#[verifier::external_body]
pub(crate) fn random_number() -> (n: u64) {
    rand::random::<u64>()
}

/// The nanoseconds of delay that a random number stands for: uniform in `0..=max`,
/// as far as 64 bits count.
pub open spec fn jitter(max: nat, random: u64) -> nat {
    if max == 0 {
        0
    } else if max >= u64::MAX {
        random as nat % u64::MAX as nat
    } else {
        random as nat % (max + 1)
    }
}

/// Turns a random number into a delay of at most `max`.
pub fn jitter_of(max: Duration, random: u64) -> (r: Duration)
    ensures
        r@ == jitter(max@, random),
        r@ <= max@,
{
    if max.is_zero() {
        return Duration::zero();
    }
    let bound: u64 = max.capped_nanos();
    let delay: u64 = random % bound.saturating_add(1);
    proof {
        vstd::arithmetic::div_mod::lemma_mod_bound(
            random as int,
            if max@ >= u64::MAX {
                u64::MAX as int
            } else {
                max@ as int + 1
            },
        );
    }
    Duration::from_nanos(delay)
}

/// A random delay of at most `max`.
pub fn random_jitter(max: Duration) -> (r: Duration)
    ensures
        r@ <= max@,
        exists|random: u64| r@ == #[trigger] jitter(max@, random),
{
    let random: u64 = random_number();
    let r = jitter_of(max, random);
    assert(r@ == jitter(max@, random));
    r
}

/// The nanoseconds of a retry delay whose upper half is random.
pub open spec fn retry_jitter(delay: nat, random: u64) -> nat {
    delay / 2 + jitter((delay - delay / 2) as nat, random)
}

/// Spreads a retry over the upper half of its delay.
pub fn jitter_retry(delay: Duration, random: u64) -> (r: Duration)
    ensures
        r@ == retry_jitter(delay@, random),
        delay@ / 2 <= r@ <= delay@,
{
    let half = delay.half();
    let rest = delay.saturating_sub(half);
    let extra = jitter_of(rest, random);
    let _bounded: u128 = delay.as_nanos();
    half.saturating_add(extra)
}

/// `base` to the power `exponent`, as far as 32 bits count.
pub open spec fn capped_power(base: u32, exponent: nat) -> nat
    decreases exponent,
{
    if exponent == 0 {
        1
    } else {
        let product = capped_power(base, (exponent - 1) as nat) * base as nat;
        if product > u32::MAX {
            u32::MAX as nat
        } else {
            product
        }
    }
}

fn power(base: u32, exponent: u32) -> (r: u32)
    ensures
        r == capped_power(base, exponent as nat),
{
    let mut r: u32 = 1;
    let mut i: u32 = 0;
    while i < exponent
        invariant
            i <= exponent,
            r == capped_power(base, i as nat),
        decreases exponent - i,
    {
        let ghost product = r as nat * base as nat;
        r = match r.checked_mul(base) {
            Some(product) => product,
            None => u32::MAX,
        };
        i += 1;
    }
    r
}

/// The delay before retry number `attempt`, before it is spread: exponential growth
/// from the first delay, never beyond the normal interval.
pub open spec fn backoff(policy: RetryConfig, attempt: nat, interval: nat) -> nat {
    let exponent: nat = if attempt <= 31 {
        attempt
    } else {
        31
    };
    time::shorter(
        time::clamped(policy.initial_backoff@ * capped_power(policy.multiplier, exponent)),
        interval,
    )
}

/// What a schedule holds.
pub struct ScheduleModel {
    pub interval: nat,
    pub next_due: nat,
    pub running: bool,
    pub stopped: bool,
    pub attempt: nat,
    pub reserved: u64,
}

/// Delay-based schedule state for one named query.
#[derive(Clone, Copy, Debug)]
pub struct QuerySchedule {
    interval: Duration,
    next_due: Instant,
    running: bool,
    stopped: bool,
    retry_attempt: u32,
    reserved_bytes: u64,
}

impl View for QuerySchedule {
    type V = ScheduleModel;

    closed spec fn view(&self) -> ScheduleModel {
        ScheduleModel {
            interval: self.interval@,
            next_due: self.next_due@,
            running: self.running,
            stopped: self.stopped,
            attempt: self.retry_attempt as nat,
            reserved: self.reserved_bytes,
        }
    }
}

/// Whether a query can be started at all.
pub open spec fn is_waiting(schedule: ScheduleModel) -> bool {
    !schedule.running && !schedule.stopped
}

/// Whether a query can be started now.
pub open spec fn is_due(schedule: ScheduleModel, now: nat) -> bool {
    is_waiting(schedule) && schedule.next_due <= now
}

/// The schedule of a query that never ran.
pub open spec fn fresh(interval: nat, due: nat) -> ScheduleModel {
    ScheduleModel {
        interval,
        next_due: due,
        running: false,
        stopped: false,
        attempt: 0,
        reserved: 0,
    }
}

/// A query that was started with a byte reservation.
pub open spec fn started(schedule: ScheduleModel, bytes: u64) -> ScheduleModel {
    ScheduleModel { running: true, reserved: bytes, ..schedule }
}

/// A query that completed: due an interval after completion, whatever was missed.
pub open spec fn completed(schedule: ScheduleModel, at: nat) -> ScheduleModel {
    ScheduleModel {
        running: false,
        attempt: 0,
        next_due: at + schedule.interval,
        reserved: 0,
        ..schedule
    }
}

/// A query that failed and is to be tried again.
pub open spec fn retried(
    schedule: ScheduleModel,
    at: nat,
    policy: RetryConfig,
    random: u64,
) -> ScheduleModel {
    ScheduleModel {
        running: false,
        attempt: if schedule.attempt < u32::MAX {
            schedule.attempt + 1
        } else {
            schedule.attempt
        },
        next_due: at + retry_jitter(backoff(policy, schedule.attempt, schedule.interval), random),
        reserved: 0,
        ..schedule
    }
}

/// A query that runs no more.
pub open spec fn stopped(schedule: ScheduleModel) -> ScheduleModel {
    ScheduleModel { running: false, stopped: true, reserved: 0, ..schedule }
}

impl QuerySchedule {
    /// Creates a schedule whose first poll is delayed by bounded startup jitter.
    pub fn new(now: Instant, interval: Duration, startup_jitter_max: Duration) -> (r: Self)
        requires
            time::has_room(now),
        ensures
            exists|random: u64|
                r@ == fresh(interval@, now@ + #[trigger] jitter(startup_jitter_max@, random)),
            now@ <= r@.next_due <= now@ + startup_jitter_max@,
    {
        let random: u64 = random_number();
        let r = QuerySchedule::starting(now, interval, startup_jitter_max, random);
        assert(r@ == fresh(interval@, now@ + jitter(startup_jitter_max@, random)));
        r
    }

    /// Creates a schedule whose startup jitter is drawn by `random`.
    pub fn starting(
        now: Instant,
        interval: Duration,
        startup_jitter_max: Duration,
        random: u64,
    ) -> (r: Self)
        requires
            time::has_room(now),
        ensures
            r@ == fresh(interval@, now@ + jitter(startup_jitter_max@, random)),
            jitter(startup_jitter_max@, random) <= startup_jitter_max@,
    {
        QuerySchedule {
            interval,
            next_due: now.later(jitter_of(startup_jitter_max, random)),
            running: false,
            stopped: false,
            retry_attempt: 0,
            reserved_bytes: 0,
        }
    }

    /// Returns whether this query is ready and not already active.
    pub fn is_due(&self, now: Instant) -> (found: bool)
        ensures
            found == is_due(self@, now@),
    {
        !self.running && !self.stopped && self.next_due.at_most(&now)
    }

    /// Returns whether an execution of this query is active.
    pub fn is_running(&self) -> (found: bool)
        ensures
            found == self@.running,
    {
        self.running
    }

    /// Returns this query's next deadline when it can run.
    pub fn next_due(&self) -> (r: Option<Instant>)
        ensures
            r matches Some(due) ==> is_waiting(self@) && due@ == self@.next_due,
            r is None ==> !is_waiting(self@),
    {
        if !self.running && !self.stopped {
            Some(self.next_due)
        } else {
            None
        }
    }

    /// Marks one admitted execution and its byte reservation.
    pub fn start(&mut self, reserved_bytes: u64)
        requires
            !old(self)@.running,
        ensures
            final(self)@ == started(old(self)@, reserved_bytes),
    {
        self.running = true;
        self.reserved_bytes = reserved_bytes;
    }

    /// Completes an execution and applies delay semantics to missed ticks.
    /// Returns the reservation that the execution held.
    pub fn complete(&mut self, completed_at: Instant) -> (bytes: u64)
        requires
            time::has_room(completed_at),
        ensures
            final(self)@ == completed(old(self)@, completed_at@),
            bytes == old(self)@.reserved,
    {
        self.running = false;
        self.retry_attempt = 0;
        self.next_due = completed_at.later(self.interval);
        self.take_reservation()
    }

    /// Schedules a bounded transient retry capped by the normal interval.
    /// Returns the reservation that the execution held.
    pub fn retry(&mut self, completed_at: Instant, policy: &RetryConfig) -> (bytes: u64)
        requires
            time::has_room(completed_at),
        ensures
            exists|random: u64|
                #![trigger retried(old(self)@, completed_at@, *policy, random)]
                final(self)@ == retried(old(self)@, completed_at@, *policy, random),
            bytes == old(self)@.reserved,
    {
        let random: u64 = random_number();
        let bytes: u64 = self.retry_with(completed_at, policy, random);
        assert(self@ == retried(old(self)@, completed_at@, *policy, random));
        bytes
    }

    /// Schedules a bounded transient retry whose spread is drawn by `random`.
    /// Returns the reservation that the execution held.
    pub fn retry_with(&mut self, completed_at: Instant, policy: &RetryConfig, random: u64) -> (bytes:
        u64)
        requires
            time::has_room(completed_at),
        ensures
            final(self)@ == retried(old(self)@, completed_at@, *policy, random),
            bytes == old(self)@.reserved,
    {
        self.running = false;
        let exponent: u32 = if self.retry_attempt <= 31 {
            self.retry_attempt
        } else {
            31
        };
        self.retry_attempt = self.retry_attempt.saturating_add(1);
        let multiplier: u32 = power(policy.multiplier, exponent);
        let delay = policy.initial_backoff.saturating_mul(multiplier).min(self.interval);
        self.next_due = completed_at.later(jitter_retry(delay, random));
        self.take_reservation()
    }

    /// Stops this query after an explicitly configured permanent failure.
    /// Returns the reservation that the execution held.
    pub fn stop(&mut self) -> (bytes: u64)
        ensures
            final(self)@ == stopped(old(self)@),
            bytes == old(self)@.reserved,
    {
        self.running = false;
        self.stopped = true;
        self.take_reservation()
    }

    fn take_reservation(&mut self) -> (bytes: u64)
        ensures
            bytes == old(self)@.reserved,
            final(self)@ == (ScheduleModel { reserved: 0, ..old(self)@ }),
    {
        let bytes: u64 = self.reserved_bytes;
        self.reserved_bytes = 0;
        bytes
    }
}

/// A query that is running or stopped is never started again by its schedule.
pub proof fn law_only_waiting_queries_are_due(schedule: ScheduleModel, now: nat)
    ensures
        schedule.running || schedule.stopped ==> !is_due(schedule, now),
        forall|bytes: u64| !is_due(#[trigger] started(schedule, bytes), now),
        !is_due(stopped(schedule), now),
{
}

/// A call that changes a schedule.
pub enum ScheduleCall {
    /// An execution starts, with its reservation.
    Start(u64),
    /// It completes at a moment.
    Complete(nat),
    /// It failed at a moment and is to be tried again, under a policy and a random number.
    Retry(nat, RetryConfig, u64),
    /// The query is stopped.
    Stop,
}

/// A schedule after one call.
pub open spec fn called(schedule: ScheduleModel, call: ScheduleCall) -> ScheduleModel {
    match call {
        ScheduleCall::Start(bytes) => started(schedule, bytes),
        ScheduleCall::Complete(at) => completed(schedule, at),
        ScheduleCall::Retry(at, policy, random) => retried(schedule, at, policy, random),
        ScheduleCall::Stop => stopped(schedule),
    }
}

/// A schedule after a sequence of calls.
pub open spec fn after_calls(schedule: ScheduleModel, calls: Seq<ScheduleCall>) -> ScheduleModel
    decreases calls.len(),
{
    if calls.len() == 0 {
        schedule
    } else {
        called(after_calls(schedule, calls.drop_last()), calls.last())
    }
}

/// Stopping is final: whatever calls follow, a stopped query has no deadline and is never
/// due.
pub proof fn law_stopped_queries_stay_stopped(
    schedule: ScheduleModel,
    calls: Seq<ScheduleCall>,
    now: nat,
)
    ensures
        after_calls(stopped(schedule), calls).stopped,
        !is_waiting(after_calls(stopped(schedule), calls)),
        !is_due(after_calls(stopped(schedule), calls), now),
    decreases calls.len(),
{
    if calls.len() > 0 {
        law_stopped_queries_stay_stopped(schedule, calls.drop_last(), now);
    }
}

/// What a schedule holds in reserve, and so what the call that ends an execution returns, is
/// what the last start reserved; once the execution has ended it is nothing.
pub proof fn law_reservation_is_the_last_start(
    schedule: ScheduleModel,
    calls: Seq<ScheduleCall>,
)
    requires
        calls.len() > 0,
    ensures
        after_calls(schedule, calls).reserved == match calls.last() {
            ScheduleCall::Start(bytes) => bytes,
            _ => 0,
        },
{
}

/// A completed query is next due exactly one interval after it completed, however
/// many intervals it missed.
pub proof fn law_completion_delays_by_one_interval(schedule: ScheduleModel, at: nat)
    ensures
        completed(schedule, at).next_due == at + schedule.interval,
        completed(schedule, at).attempt == 0,
        !schedule.stopped ==> is_waiting(completed(schedule, at)),
{
}

proof fn lemma_jitter_bounded(max: nat, random: u64)
    ensures
        jitter(max, random) <= max,
{
    if max > 0 {
        let bound = if max >= u64::MAX {
            u64::MAX as int
        } else {
            max as int + 1
        };
        vstd::arithmetic::div_mod::lemma_mod_bound(random as int, bound);
    }
}

/// A retry waits at least half of its backoff and never longer than the normal
/// interval.
pub proof fn law_retry_waits_within_the_interval(
    schedule: ScheduleModel,
    at: nat,
    policy: RetryConfig,
    random: u64,
)
    ensures
        ({
            let delay = backoff(policy, schedule.attempt, schedule.interval);
            let due = retried(schedule, at, policy, random).next_due;
            &&& at + delay / 2 <= due <= at + delay
            &&& due <= at + schedule.interval
        }),
{
    let delay = backoff(policy, schedule.attempt, schedule.interval);
    lemma_jitter_bounded((delay - delay / 2) as nat, random);
}

/// Backoff never shrinks from one attempt to the next.
pub proof fn law_backoff_never_shrinks(policy: RetryConfig, attempt: nat, interval: nat)
    requires
        policy.multiplier >= 1,
    ensures
        backoff(policy, attempt, interval) <= backoff(policy, attempt + 1, interval),
{
    let base = policy.initial_backoff@;
    if attempt < 31 {
        let low = capped_power(policy.multiplier, attempt);
        let high = capped_power(policy.multiplier, attempt + 1);
        lemma_capped_power_bounded(policy.multiplier, attempt);
        assert(low <= low * policy.multiplier) by (nonlinear_arith)
            requires
                policy.multiplier >= 1,
                low >= 0,
        ;
        assert(low <= high);
        assert(base * low <= base * high) by (nonlinear_arith)
            requires
                0 <= low <= high,
                base >= 0,
        ;
    }
}

proof fn lemma_capped_power_bounded(base: u32, exponent: nat)
    ensures
        capped_power(base, exponent) <= u32::MAX,
{
}

/// What admission accounts for.
pub struct AdmissionModel {
    pub max_queries: nat,
    pub max_bytes: nat,
    pub active: nat,
    pub reserved: nat,
}

/// Receiver-wide active-query and byte-reservation accounting.
#[derive(Debug)]
pub struct AdmissionController {
    max_concurrent_queries: usize,
    max_in_flight_bytes: u64,
    active_queries: usize,
    reserved_bytes: u64,
}

impl View for AdmissionController {
    type V = AdmissionModel;

    closed spec fn view(&self) -> AdmissionModel {
        AdmissionModel {
            max_queries: self.max_concurrent_queries as nat,
            max_bytes: self.max_in_flight_bytes as nat,
            active: self.active_queries as nat,
            reserved: self.reserved_bytes as nat,
        }
    }
}

/// Whether neither budget is exceeded.
pub open spec fn within_budget(admission: AdmissionModel) -> bool {
    admission.active <= admission.max_queries && admission.reserved <= admission.max_bytes
}

/// Whether one more query with this reservation fits both budgets.
pub open spec fn admits(admission: AdmissionModel, bytes: nat) -> bool {
    admission.active < admission.max_queries && admission.reserved + bytes <= admission.max_bytes
}

/// The accounts after a reservation was made.
pub open spec fn acquired(admission: AdmissionModel, bytes: nat) -> AdmissionModel {
    AdmissionModel {
        active: admission.active + 1,
        reserved: admission.reserved + bytes,
        ..admission
    }
}

/// The accounts after a reservation was given back.
pub open spec fn released(admission: AdmissionModel, bytes: nat) -> AdmissionModel {
    AdmissionModel {
        active: if admission.active > 0 {
            (admission.active - 1) as nat
        } else {
            0
        },
        reserved: if admission.reserved > bytes {
            (admission.reserved - bytes) as nat
        } else {
            0
        },
        ..admission
    }
}

impl AdmissionController {
    /// Creates bounded local admission state.
    pub fn new(max_concurrent_queries: usize, max_in_flight_bytes: u64) -> (r: Self)
        ensures
            r@ == (AdmissionModel {
                max_queries: max_concurrent_queries as nat,
                max_bytes: max_in_flight_bytes as nat,
                active: 0,
                reserved: 0,
            }),
            within_budget(r@),
    {
        AdmissionController {
            max_concurrent_queries,
            max_in_flight_bytes,
            active_queries: 0,
            reserved_bytes: 0,
        }
    }

    /// Attempts to reserve one query slot and its maximum page bytes.
    pub fn try_acquire(&mut self, bytes: u64) -> (admitted: bool)
        ensures
            admitted == admits(old(self)@, bytes as nat),
            final(self)@ == if admitted {
                acquired(old(self)@, bytes as nat)
            } else {
                old(self)@
            },
    {
        if self.active_queries >= self.max_concurrent_queries {
            return false;
        }
        match self.reserved_bytes.checked_add(bytes) {
            None => false,
            Some(reserved) => {
                if reserved > self.max_in_flight_bytes {
                    return false;
                }
                self.active_queries += 1;
                self.reserved_bytes = reserved;
                true
            },
        }
    }

    /// Releases a reservation after downstream admission or failure.
    pub fn release(&mut self, bytes: u64)
        ensures
            final(self)@ == released(old(self)@, bytes as nat),
    {
        self.active_queries = self.active_queries.saturating_sub(1);
        self.reserved_bytes = self.reserved_bytes.saturating_sub(bytes);
    }

    /// Returns whether another query slot is available.
    pub fn has_capacity(&self) -> (found: bool)
        ensures
            found == (self@.active < self@.max_queries),
    {
        self.active_queries < self.max_concurrent_queries
    }
}

/// Admission never exceeds either budget, and giving back never does.
pub proof fn law_admission_stays_within_budget(admission: AdmissionModel, bytes: nat)
    requires
        within_budget(admission),
    ensures
        admits(admission, bytes) ==> within_budget(acquired(admission, bytes)),
        within_budget(released(admission, bytes)),
{
}

/// Giving back a reservation undoes making it.
pub proof fn law_release_undoes_acquire(admission: AdmissionModel, bytes: nat)
    ensures
        released(acquired(admission, bytes), bytes) == admission,
{
}

/// When both budgets are exhausted nothing is admitted until a reservation is given
/// back.
pub proof fn law_exhausted_budgets_admit_nothing(admission: AdmissionModel, bytes: nat)
    ensures
        admission.active >= admission.max_queries ==> !admits(admission, bytes),
        admission.reserved >= admission.max_bytes && bytes > 0 ==> !admits(admission, bytes),
{
}

proof fn lemma_capped_power_is_power(base: u32, exponent: nat)
    ensures
        capped_power(base, exponent) == if pow(base as int, exponent) <= u32::MAX {
            pow(base as int, exponent)
        } else {
            u32::MAX as int
        } || base == 0,
        base == 0 && exponent > 0 ==> capped_power(base, exponent) == 0,
        base == 0 ==> pow(base as int, exponent) == capped_power(base, exponent),
    decreases exponent,
{
    reveal(pow);
    if exponent > 0 {
        let less = (exponent - 1) as nat;
        lemma_capped_power_is_power(base, less);
        let before = pow(base as int, less);
        let capped = capped_power(base, less);
        assert(pow(base as int, exponent) == base as int * before);
        if base > 0 {
            lemma_pow_positive(base as int, less);
            assert(base as int * before == before * base as int) by (nonlinear_arith);
            if before > u32::MAX {
                assert(before * base as int >= before) by (nonlinear_arith)
                    requires
                        before > 0,
                        base >= 1,
                ;
                assert(capped * base as nat >= capped) by (nonlinear_arith)
                    requires
                        capped >= 0,
                        base >= 1,
                ;
            }
        } else {
            assert(base as int * before == 0) by (nonlinear_arith)
                requires
                    base == 0,
            ;
            assert(capped * base as nat == 0) by (nonlinear_arith)
                requires
                    base == 0,
            ;
        }
    }
}

/// The first retry waits for the first delay, or for the interval where that is shorter.
pub proof fn law_first_backoff_is_the_configured_one(policy: RetryConfig, interval: nat)
    requires
        policy.initial_backoff@ <= 18_446_744_073_709_551_615_999_999_999,
    ensures
        backoff(policy, 0, interval) == if policy.initial_backoff@ <= interval {
            policy.initial_backoff@
        } else {
            interval
        },
{
    assert(policy.initial_backoff@ * 1 == policy.initial_backoff@) by (nonlinear_arith);
}

/// As long as nothing limits it, a delay is the first delay times the multiplier to the power
/// of the attempts before.
pub proof fn law_backoff_is_exponential(policy: RetryConfig, attempt: nat, interval: nat)
    requires
        attempt <= 31,
        pow(policy.multiplier as int, attempt) <= u32::MAX,
        policy.initial_backoff@ * pow(policy.multiplier as int, attempt) <= interval,
        interval <= 18_446_744_073_709_551_615_999_999_999,
    ensures
        backoff(policy, attempt, interval) == policy.initial_backoff@ * pow(
            policy.multiplier as int,
            attempt,
        ),
{
    lemma_capped_power_is_power(policy.multiplier, attempt);
}

/// As long as nothing limits it, each delay is the multiplier times the one before.
pub proof fn law_backoff_multiplies(policy: RetryConfig, attempt: nat, interval: nat)
    requires
        attempt < 31,
        pow(policy.multiplier as int, (attempt + 1) as nat) <= u32::MAX,
        policy.initial_backoff@ * pow(policy.multiplier as int, (attempt + 1) as nat) <= interval,
        interval <= 18_446_744_073_709_551_615_999_999_999,
    ensures
        backoff(policy, (attempt + 1) as nat, interval) == policy.multiplier * backoff(
            policy,
            attempt,
            interval,
        ),
{
    let base = policy.initial_backoff@ as int;
    let m = policy.multiplier as int;
    let low = pow(m, attempt);
    assert(pow(m, (attempt + 1) as nat) == m * low) by {
        reveal(pow);
    }
    law_backoff_is_exponential(policy, (attempt + 1) as nat, interval);
    if m >= 1 {
        lemma_pow_positive(m, attempt);
        assert(low <= m * low) by (nonlinear_arith)
            requires
                m >= 1,
                low > 0,
        ;
        assert(base * low <= base * (m * low)) by (nonlinear_arith)
            requires
                base >= 0,
                low <= m * low,
        ;
        law_backoff_is_exponential(policy, attempt, interval);
        assert(base * (m * low) == m * (base * low)) by (nonlinear_arith);
    } else {
        let before = backoff(policy, attempt, interval) as int;
        assert(base * (m * low) == 0 && m * before == 0) by (nonlinear_arith)
            requires
                m == 0,
        ;
    }
}

/// Where the exponential delay would reach the interval, the delay is the interval itself.
/// The multiplier counts in 32 bits, and no more than thirty-one times.
pub proof fn law_backoff_ends_at_the_interval(policy: RetryConfig, attempt: nat, interval: nat)
    requires
        interval <= 18_446_744_073_709_551_615_999_999_999,
    ensures
        backoff(policy, attempt, interval) <= interval,
        attempt <= 31 && pow(policy.multiplier as int, attempt) <= u32::MAX
            && policy.initial_backoff@ * pow(policy.multiplier as int, attempt) >= interval
            ==> backoff(policy, attempt, interval) == interval,
        attempt <= 31 && pow(policy.multiplier as int, attempt) > u32::MAX
            && policy.initial_backoff@ * u32::MAX >= interval ==> backoff(policy, attempt, interval)
            == interval,
        attempt <= 31 && pow(policy.multiplier as int, attempt) > u32::MAX
            && policy.initial_backoff@ * u32::MAX <= interval ==> backoff(policy, attempt, interval)
            == policy.initial_backoff@ * u32::MAX,
        attempt > 31 ==> backoff(policy, attempt, interval) == backoff(policy, 31, interval),
{
    lemma_capped_power_is_power(policy.multiplier, attempt);
}

/// A delay that is drawn lies between nothing and the most that is allowed; a number that
/// lies there is drawn as it is, so every such delay can come; and numbers that differ by a
/// whole round are drawn alike, so none is preferred.
pub proof fn law_jitter_covers_its_range(max: nat, random: u64)
    ensures
        jitter(max, random) <= max,
        random <= max && random < u64::MAX ==> jitter(max, random) == random,
        max < u64::MAX && random + max + 1 <= u64::MAX ==> jitter(
            max,
            (random + max + 1) as u64,
        ) == jitter(max, random),
{
    lemma_jitter_bounded(max, random);
    if max > 0 && max < u64::MAX {
        let bound = max as int + 1;
        if random <= max {
            vstd::arithmetic::div_mod::lemma_small_mod(random as nat, bound as nat);
        }
        if random + max + 1 <= u64::MAX {
            vstd::arithmetic::div_mod::lemma_mod_add_multiples_vanish(random as int, bound);
        }
    } else if max >= u64::MAX && random < u64::MAX {
        vstd::arithmetic::div_mod::lemma_small_mod(random as nat, u64::MAX as nat);
    }
}

/// A retry counts one attempt more, ends the execution, keeps the interval and whether the
/// query is stopped, and is due within the upper half of its delay, anywhere in it.
pub proof fn law_retry_is_spread_over_the_upper_half(
    schedule: ScheduleModel,
    at: nat,
    policy: RetryConfig,
    random: u64,
)
    ensures
        ({
            let delay = backoff(policy, schedule.attempt, schedule.interval);
            let after = retried(schedule, at, policy, random);
            &&& !after.running
            &&& after.reserved == 0
            &&& after.stopped == schedule.stopped
            &&& after.interval == schedule.interval
            &&& schedule.attempt < u32::MAX ==> after.attempt == schedule.attempt + 1
            &&& at + delay / 2 <= after.next_due <= at + delay
            &&& random <= delay - delay / 2 && random < u64::MAX ==> after.next_due == at + delay / 2
                + random
        }),
{
    let delay = backoff(policy, schedule.attempt, schedule.interval);
    law_jitter_covers_its_range((delay - delay / 2) as nat, random);
}

/// A query is due exactly when it neither runs nor is stopped and its deadline has come, and
/// starting, completing and stopping change nothing but what they are for.
pub proof fn law_schedule_steps(schedule: ScheduleModel, now: nat, at: nat, bytes: u64)
    ensures
        is_due(schedule, now) <==> !schedule.running && !schedule.stopped && now
            >= schedule.next_due,
        is_waiting(schedule) <==> !schedule.running && !schedule.stopped,
        ({
            let after = started(schedule, bytes);
            after.running && after.reserved == bytes && after.stopped == schedule.stopped
                && after.interval == schedule.interval && after.next_due == schedule.next_due
                && after.attempt == schedule.attempt
        }),
        ({
            let after = completed(schedule, at);
            !after.running && after.reserved == 0 && after.stopped == schedule.stopped
                && after.interval == schedule.interval && after.next_due - at == schedule.interval
                && after.attempt == 0
        }),
        ({
            let after = stopped(schedule);
            !after.running && after.reserved == 0 && after.stopped && after.interval
                == schedule.interval && after.next_due == schedule.next_due && after.attempt
                == schedule.attempt
        }),
        is_due(fresh(schedule.interval, at), now) <==> at <= now,
        fresh(schedule.interval, at).interval == schedule.interval,
        fresh(schedule.interval, at).attempt == 0,
        fresh(schedule.interval, at).reserved == 0,
{
}

/// One more query is admitted exactly when a slot is free and its bytes fit, and is charged
/// one slot and its bytes; giving back returns one slot and as many bytes, as far as they
/// were taken. The budgets themselves never change.
pub proof fn law_admission_charges_what_it_admits(admission: AdmissionModel, bytes: nat)
    ensures
        admits(admission, bytes) <==> admission.max_queries - admission.active >= 1
            && admission.max_bytes - admission.reserved >= bytes,
        acquired(admission, bytes).active - admission.active == 1,
        acquired(admission, bytes).reserved - admission.reserved == bytes,
        acquired(admission, bytes).max_queries == admission.max_queries,
        acquired(admission, bytes).max_bytes == admission.max_bytes,
        released(admission, bytes).max_queries == admission.max_queries,
        released(admission, bytes).max_bytes == admission.max_bytes,
        admission.active >= 1 ==> admission.active - released(admission, bytes).active == 1,
        admission.active == 0 ==> released(admission, bytes).active == 0,
        admission.reserved >= bytes ==> admission.reserved - released(admission, bytes).reserved
            == bytes,
        admission.reserved < bytes ==> released(admission, bytes).reserved == 0,
{
}

/// Giving a reservation back takes one query and its bytes off the accounts, which never fall
/// below nothing, and leaves the budgets as they are. What was just reserved is given back in
/// full.
pub proof fn law_releases_undo_reservations(admission: AdmissionModel, bytes: nat)
    ensures
        released(acquired(admission, bytes), bytes) == admission,
        admission.active >= 1 ==> released(admission, bytes).active + 1 == admission.active,
        admission.active == 0 ==> released(admission, bytes).active == 0,
        admission.reserved >= bytes ==> released(admission, bytes).reserved + bytes
            == admission.reserved,
        admission.reserved < bytes ==> released(admission, bytes).reserved == 0,
        released(admission, bytes).max_queries == admission.max_queries,
        released(admission, bytes).max_bytes == admission.max_bytes,
{
}

} // verus!
