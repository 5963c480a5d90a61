//! Spans and points of time, and the decisions of the futures that wait for one.
use vstd::prelude::*;

verus! {

/// The largest number of nanoseconds in a span: all of 64 bits of seconds and the last
/// nanosecond of the last of them.
pub const MAX_NANOS: u128 = 18_446_744_073_709_551_615_999_999_999;

/// A span of time.
#[derive(Debug, Clone, Copy, PartialEq, Eq, Structural)]
pub struct Duration {
    nanos: u128,
}

impl Duration {
    /// The span in nanoseconds.
    pub closed spec fn view(&self) -> nat {
        self.nanos as nat
    }

    #[verifier::type_invariant]
    spec fn bounded(self) -> bool {
        self.nanos <= MAX_NANOS
    }

    /// The empty span.
    pub fn zero() -> (r: Self)
        ensures
            r@ == 0,
    {
        Duration { nanos: 0 }
    }

    /// The largest span.
    pub fn max() -> (r: Self)
        ensures
            r@ == MAX_NANOS,
    {
        Duration { nanos: MAX_NANOS }
    }

    pub fn from_secs(secs: u64) -> (r: Self)
        ensures
            r@ == secs * 1_000_000_000,
    {
        Duration { nanos: secs as u128 * 1_000_000_000 }
    }

    pub fn from_millis(millis: u64) -> (r: Self)
        ensures
            r@ == millis * 1_000_000,
    {
        Duration { nanos: millis as u128 * 1_000_000 }
    }

    pub fn from_micros(micros: u64) -> (r: Self)
        ensures
            r@ == micros * 1_000,
    {
        Duration { nanos: micros as u128 * 1_000 }
    }

    pub fn from_nanos(nanos: u64) -> (r: Self)
        ensures
            r@ == nanos,
    {
        Duration { nanos: nanos as u128 }
    }

    /// The span in nanoseconds.
    pub fn as_nanos(&self) -> (r: u128)
        ensures
            r == self@,
            r <= MAX_NANOS,
    {
        proof {
            use_type_invariant(self);
        }
        self.nanos
    }

    /// The whole seconds of the span.
    pub fn as_secs(&self) -> (r: u64)
        ensures
            r == self@ / 1_000_000_000,
    {
        proof {
            use_type_invariant(self);
        }
        (self.nanos / 1_000_000_000) as u64
    }

    /// The span of that many nanoseconds, or the largest one.
    pub fn from_nanos_saturating(nanos: u128) -> (r: Self)
        ensures
            r@ == (if nanos <= MAX_NANOS {
                nanos
            } else {
                MAX_NANOS
            }),
    {
        if nanos <= MAX_NANOS {
            Duration { nanos }
        } else {
            Duration { nanos: MAX_NANOS }
        }
    }

    /// The sum of two spans, or the largest span.
    pub fn saturating_add(&self, other: Duration) -> (r: Self)
        ensures
            r@ == (if self@ + other@ <= MAX_NANOS {
                self@ + other@
            } else {
                MAX_NANOS as nat
            }),
    {
        proof {
            use_type_invariant(self);
            use_type_invariant(&other);
        }
        Duration::from_nanos_saturating(self.nanos + other.nanos)
    }

    /// The span less another, or the empty span.
    pub fn saturating_sub(&self, other: Duration) -> (r: Self)
        ensures
            r@ == (if self@ >= other@ {
                (self@ - other@) as nat
            } else {
                0
            }),
    {
        proof {
            use_type_invariant(self);
        }
        if self.nanos >= other.nanos {
            Duration { nanos: self.nanos - other.nanos }
        } else {
            Duration { nanos: 0 }
        }
    }

    /// Whether the span is shorter than another.
    pub fn less_than(&self, other: Duration) -> (r: bool)
        ensures
            r == (self@ < other@),
    {
        self.nanos < other.nanos
    }

    /// The shorter of two spans.
    pub fn min(self, other: Duration) -> (r: Self)
        ensures
            r@ == (if self@ <= other@ {
                self@
            } else {
                other@
            }),
            r == self || r == other,
    {
        if self.nanos <= other.nanos {
            self
        } else {
            other
        }
    }
}

/// Two spans of the same length are the same.
pub proof fn duration_is_its_length(a: Duration, b: Duration)
    requires
        a@ == b@,
    ensures
        a == b,
{
}

/// A point of time, as nanoseconds since a fixed point in the past. The last point lies the
/// longest span after the fixed one.
#[derive(Debug, Clone, Copy, PartialEq, Eq, Structural)]
pub struct Instant {
    nanos: u128,
}

impl Instant {
    pub closed spec fn view(&self) -> nat {
        self.nanos as nat
    }

    #[verifier::type_invariant]
    spec fn bounded(self) -> bool {
        self.nanos <= MAX_NANOS
    }

    /// The point that lies `nanos` nanoseconds after the fixed one.
    pub fn from_nanos(nanos: u64) -> (r: Self)
        ensures
            r@ == nanos,
    {
        Instant { nanos: nanos as u128 }
    }

    /// The nanoseconds since the fixed point.
    pub fn as_nanos(&self) -> (r: u128)
        ensures
            r == self@,
    {
        self.nanos
    }

    /// The span since an earlier point; the empty span if that point is later.
    pub fn saturating_duration_since(&self, earlier: Instant) -> (r: Duration)
        ensures
            r@ == elapsed(earlier@, self@),
            self@ >= earlier@ ==> earlier@ + r@ == self@,
            self@ <= earlier@ ==> r@ == 0,
    {
        proof {
            use_type_invariant(self);
        }
        if self.nanos >= earlier.nanos {
            Duration::from_nanos_saturating(self.nanos - earlier.nanos)
        } else {
            Duration::zero()
        }
    }

    /// The point a span later, if there is one.
    pub fn checked_add(&self, d: Duration) -> (r: Option<Instant>)
        ensures
            match r {
                Some(t) => t@ == self@ + d@,
                None => self@ + d@ > MAX_NANOS,
            },
    {
        proof {
            use_type_invariant(self);
            use_type_invariant(&d);
        }
        let total: u128 = self.nanos + d.nanos;
        if total <= MAX_NANOS {
            Some(Instant { nanos: total })
        } else {
            None
        }
    }

    /// Whether the point has been reached at `now`.
    pub fn reached(&self, now: Instant) -> (r: bool)
        ensures
            r == (now@ >= self@),
    {
        now.nanos >= self.nanos
    }
}

/// The wait for a point of time. It asks for one timer.
pub struct Sleep {
    deadline: Instant,
    registered: bool,
}

/// What a wait does when it is asked: it is over, it needs a timer, or it has one.
#[derive(Debug, Clone, Copy, PartialEq, Eq, Structural)]
pub enum WaitStep {
    Ready,
    Register(Instant),
    Wait,
}

impl Sleep {
    pub closed spec fn until(self) -> Instant {
        self.deadline
    }

    /// Whether a timer was asked for.
    pub closed spec fn has_timer(self) -> bool {
        self.registered
    }

    /// The wait for the point.
    pub fn new(deadline: Instant) -> (r: Self)
        ensures
            r.until() == deadline,
            !r.has_timer(),
    {
        Self { deadline, registered: false }
    }

    /// The point at which the wait is over.
    pub fn deadline(&self) -> (r: Instant)
        ensures
            r == self.until(),
    {
        self.deadline
    }

    /// What the wait does at `now`: it is over from its point on; before, it asks for a timer
    /// once.
    pub fn poll_at(&mut self, now: Instant) -> (r: WaitStep)
        ensures
            final(self).until() == old(self).until(),
            r == wait_step(old(self).until(), old(self).has_timer(), now),
            r is Ready <==> now@ >= old(self).until()@,
            r is Register ==> r->Register_0 == old(self).until() && !old(self).has_timer(),
            final(self).has_timer() == (old(self).has_timer() || r is Register),
    {
        if self.deadline.reached(now) {
            WaitStep::Ready
        } else if !self.registered {
            self.registered = true;
            WaitStep::Register(self.deadline)
        } else {
            WaitStep::Wait
        }
    }
}

/// What a wait for a point does at `now`, with or without a timer.
pub open spec fn wait_step(deadline: Instant, has_timer: bool, now: Instant) -> WaitStep {
    if now@ >= deadline@ {
        WaitStep::Ready
    } else if has_timer {
        WaitStep::Wait
    } else {
        WaitStep::Register(deadline)
    }
}

/// The wait for a span from `now` on.
pub fn sleep(now: Instant, duration: Duration) -> (r: Sleep)
    requires
        now@ + duration@ <= MAX_NANOS,
    ensures
        r.until()@ == now@ + duration@,
        !r.has_timer(),
{
    match now.checked_add(duration) {
        Some(deadline) => Sleep::new(deadline),
        None => Sleep::new(now),
    }
}

/// The wait for a point.
pub fn sleep_until(deadline: Instant) -> (r: Sleep)
    ensures
        r.until() == deadline,
        !r.has_timer(),
{
    Sleep::new(deadline)
}

/// The error of work that was not done in time.
#[derive(Debug, Clone, Copy, PartialEq, Eq, Structural)]
pub struct Elapsed;

impl Elapsed {
    /// The message of the error.
    pub fn to_string(&self) -> (r: String)
        ensures
            r@ == "deadline has elapsed"@,
    {
        "deadline has elapsed".to_string()
    }
}

/// Work that must be done by a point of time. It asks for one timer.
pub struct Timeout<F> {
    future: F,
    deadline: Instant,
    timer_registered: bool,
}

/// What bounded work does when it is asked: it has an outcome, it needs a timer, or it has one.
pub enum TimeoutStep<T> {
    Ready(Result<T, Elapsed>),
    Register(Instant),
    Wait,
}

/// What bounded work does at `now`, given what the work came to: work that is done counts, even
/// after its point.
pub open spec fn timeout_step<T>(
    done: Option<T>,
    deadline: Instant,
    has_timer: bool,
    now: Instant,
) -> TimeoutStep<T> {
    match done {
        Some(v) => TimeoutStep::Ready(Ok(v)),
        None => match wait_step(deadline, has_timer, now) {
            WaitStep::Ready => TimeoutStep::Ready(Err(Elapsed)),
            WaitStep::Register(d) => TimeoutStep::Register(d),
            WaitStep::Wait => TimeoutStep::Wait,
        },
    }
}

impl<F> Timeout<F> {
    pub closed spec fn work(self) -> F {
        self.future
    }

    pub closed spec fn until(self) -> Instant {
        self.deadline
    }

    /// Whether a timer was asked for.
    pub closed spec fn has_timer(self) -> bool {
        self.timer_registered
    }

    pub fn new(future: F, deadline: Instant) -> (r: Self)
        ensures
            r.work() == future,
            r.until() == deadline,
            !r.has_timer(),
    {
        Self { future, deadline, timer_registered: false }
    }

    /// The work, to be asked how far it is.
    pub fn future_mut(&mut self) -> (r: &mut F)
        ensures
            *r == old(self).work(),
            final(self).work() == *final(r),
            final(self).until() == old(self).until(),
            final(self).has_timer() == old(self).has_timer(),
    {
        &mut self.future
    }

    /// What the bounded work does at `now`, given what the work came to.
    pub fn poll_at<T>(&mut self, done: Option<T>, now: Instant) -> (r: TimeoutStep<T>)
        ensures
            final(self).work() == old(self).work(),
            final(self).until() == old(self).until(),
            r == timeout_step(done, old(self).until(), old(self).has_timer(), now),
            done matches Some(v) ==> r == TimeoutStep::Ready(Ok(v)),
            done is None ==> (r is Ready <==> now@ >= old(self).until()@),
            done is None && r is Ready ==> r->Ready_0 is Err,
            r is Register ==> r->Register_0 == old(self).until() && !old(self).has_timer(),
            final(self).has_timer() == (old(self).has_timer() || r is Register),
    {
        match done {
            Some(v) => TimeoutStep::Ready(Ok(v)),
            None => {
                if self.deadline.reached(now) {
                    TimeoutStep::Ready(Err(Elapsed))
                } else if !self.timer_registered {
                    self.timer_registered = true;
                    TimeoutStep::Register(self.deadline)
                } else {
                    TimeoutStep::Wait
                }
            },
        }
    }
}

/// Work that must be done within a span from `now` on.
pub fn timeout<F>(now: Instant, duration: Duration, future: F) -> (r: Timeout<F>)
    requires
        now@ + duration@ <= MAX_NANOS,
    ensures
        r.work() == future,
        r.until()@ == now@ + duration@,
        !r.has_timer(),
{
    match now.checked_add(duration) {
        Some(deadline) => Timeout::new(future, deadline),
        None => Timeout::new(future, now),
    }
}

/// Work that must be done by a point of time.
pub fn timeout_at<F>(deadline: Instant, future: F) -> (r: Timeout<F>)
    ensures
        r.work() == future,
        r.until() == deadline,
        !r.has_timer(),
{
    Timeout::new(future, deadline)
}

/// The time from one point to another; zero if the second is not later.
pub open spec fn elapsed(from: nat, to: nat) -> nat {
    if to >= from {
        (to - from) as nat
    } else {
        0
    }
}

/// The time that has gone by leads from the first point to the second, adds up over points in
/// order, and is nothing from a later point to an earlier one.
pub proof fn elapsed_time_adds_up(a: nat, b: nat, c: nat)
    requires
        a <= b <= c,
    ensures
        a + elapsed(a, b) == b,
        elapsed(a, b) + elapsed(b, c) == elapsed(a, c),
        elapsed(b, a) == 0,
{
}

/// A wait is over from its point on and not before, and it asks for one timer only, for its point.
pub proof fn waits_end_on_time(deadline: Instant, has_timer: bool, now: Instant)
    ensures
        wait_step(deadline, has_timer, now) is Ready <==> now@ >= deadline@,
        now@ < deadline@ && !has_timer ==> wait_step(deadline, has_timer, now)
            == WaitStep::Register(deadline),
        has_timer ==> !(wait_step(deadline, has_timer, now) is Register),
{
}

/// Work that is done counts, however late; work that is not done fails from its point on and not
/// before; and it asks for one timer only, for its point.
pub proof fn bounded_work_ends_on_time<T>(
    done: Option<T>,
    deadline: Instant,
    has_timer: bool,
    now: Instant,
)
    ensures
        done matches Some(v) ==> timeout_step(done, deadline, has_timer, now)
            == TimeoutStep::Ready(Ok(v)),
        done is None && now@ >= deadline@ ==> timeout_step(done, deadline, has_timer, now)
            == TimeoutStep::<T>::Ready(Err(Elapsed)),
        done is None && now@ < deadline@ ==> timeout_step(done, deadline, has_timer, now) == (
        if has_timer {
            TimeoutStep::<T>::Wait
        } else {
            TimeoutStep::<T>::Register(deadline)
        }),
{
}

/// A span is as long in one unit as in another, and its whole seconds are those it was made of.
pub proof fn units_agree(
    secs: u64,
    millis: u64,
    micros: u64,
    a: Duration,
    b: Duration,
    c: Duration,
    n: u64,
)
    requires
        millis == secs * 1000,
        micros == millis * 1000,
        call_ensures(Duration::from_secs, (secs,), a),
        call_ensures(Duration::from_millis, (millis,), b),
        call_ensures(Duration::from_micros, (micros,), c),
        call_ensures(Duration::as_secs, (&a,), n),
    ensures
        a == b,
        b == c,
        n == secs,
{
    duration_is_its_length(a, b);
    duration_is_its_length(b, c);
}

/// A point and the span since an earlier one lead to each other: the later point lies that span
/// after the earlier.
pub proof fn spans_lead_from_point_to_point(
    earlier: Instant,
    d: Duration,
    later: Option<Instant>,
    since: Duration,
    back: Duration,
    over: bool,
)
    requires
        call_ensures(Instant::checked_add, (&earlier, d), later),
        later is Some,
        call_ensures(Instant::saturating_duration_since, (&later->0, earlier), since),
        call_ensures(Instant::saturating_duration_since, (&earlier, later->0), back),
        call_ensures(Instant::reached, (&earlier, later->0), over),
    ensures
        since@ == d@,
        back@ == 0,
        over,
{
}

/// Of two spans the one that is left over and the other make up the longer, and the shorter is the
/// smaller of both.
pub proof fn spans_add_up(
    a: Duration,
    b: Duration,
    left: Duration,
    sum: Duration,
    least: Duration,
    less: bool,
)
    requires
        a@ <= b@,
        b@ <= MAX_NANOS,
        call_ensures(Duration::saturating_sub, (&b, a), left),
        call_ensures(Duration::saturating_add, (&a, left), sum),
        call_ensures(Duration::min, (a, b), least),
        call_ensures(Duration::less_than, (&a, b), less),
    ensures
        sum@ == b@,
        least@ == a@,
        less <==> a@ != b@,
{
}

/// A wait for a span ends when the span has passed, and not before; it asks for its timer once.
pub proof fn sleeps_last_their_span(
    now: Instant,
    d: Duration,
    s: Sleep,
    later: Instant,
    t: Sleep,
    r: WaitStep,
    u: Sleep,
    q: WaitStep,
)
    requires
        call_ensures(sleep, (now, d), s),
        exists|m: &mut Sleep|
            *m == s && *final(m) == t && #[trigger] call_ensures(
                Sleep::poll_at,
                (m, later),
                r,
            ),
        exists|m: &mut Sleep|
            *m == t && *final(m) == u && #[trigger] call_ensures(
                Sleep::poll_at,
                (m, later),
                q,
            ),
    ensures
        r is Ready <==> later@ >= now@ + d@,
        r is Register <==> later@ < now@ + d@,
        !(r is Ready) ==> q is Wait,
        r is Ready ==> q is Ready,
{
}

/// Work within a span counts when it is done, and fails when the span has passed.
pub proof fn timeouts_last_their_span<F, T>(
    now: Instant,
    d: Duration,
    work: F,
    t: Timeout<F>,
    done: Option<T>,
    later: Instant,
    u: Timeout<F>,
    r: TimeoutStep<T>,
)
    requires
        call_ensures(timeout::<F>, (now, d, work), t),
        exists|m: &mut Timeout<F>|
            *m == t && *final(m) == u && #[trigger] call_ensures(
                Timeout::<F>::poll_at::<T>,
                (m, done, later),
                r,
            ),
    ensures
        done matches Some(v) ==> r == TimeoutStep::Ready(Ok(v)),
        done is None ==> (r is Ready <==> later@ >= now@ + d@),
        r matches TimeoutStep::Ready(Err(_)) ==> done is None,
        u.work() == work,
{
}

/// The wait for a point ends at that point, and so does work that must be done by it.
pub proof fn waits_are_until_their_point<F>(
    at: Instant,
    s: Sleep,
    until: Instant,
    work: F,
    t: Timeout<F>,
)
    requires
        call_ensures(sleep_until, (at,), s),
        call_ensures(Sleep::deadline, (&s,), until),
        call_ensures(timeout_at::<F>, (at, work), t),
    ensures
        until == at,
        t.until() == at,
        t.work() == work,
{
}

/// The empty span is the shortest and the largest the longest, and a number of nanoseconds is its
/// span, up to the largest.
pub proof fn spans_lie_between_empty_and_largest(
    d: Duration,
    n: u128,
    zero: Duration,
    max: Duration,
    exact: Duration,
    m: u128,
    b: bool,
)
    requires
        call_ensures(Duration::zero, (), zero),
        call_ensures(Duration::max, (), max),
        call_ensures(Duration::from_nanos_saturating, (n,), exact),
        call_ensures(Duration::as_nanos, (&exact,), m),
        call_ensures(Duration::as_nanos, (&d,), n),
        call_ensures(Duration::less_than, (&d, zero), b),
    ensures
        !b,
        zero@ <= d@ <= max@,
        m == n,
{
}

} // verus!
