//! The services of the benchmark: Fibonacci numbers, and values under keys.
use crate::assoc::Assoc;
use crate::time::Duration;
use vstd::prelude::*;

verus! {

/// The outcomes that the services tell apart.
#[derive(Debug, Clone, Copy, PartialEq, Eq, Structural)]
pub enum Status {
    Success,
    BadRequest,
    NotFound,
    InternalServerError,
}

impl Status {
    /// The number of the outcome in HTTP.
    pub fn code(&self) -> (r: u16)
        ensures
            r == (match *self {
                Status::Success => 200u16,
                Status::BadRequest => 400,
                Status::NotFound => 404,
                Status::InternalServerError => 500,
            }),
    {
        match self {
            Status::Success => 200,
            Status::BadRequest => 400,
            Status::NotFound => 404,
            Status::InternalServerError => 500,
        }
    }
}

/// Two Fibonacci numbers in a row, from the given one on.
pub open spec fn fib_pair(n: nat) -> (nat, nat)
    decreases n,
{
    if n == 0 {
        (0, 1)
    } else {
        let (a, b) = fib_pair((n - 1) as nat);
        (b, a + b)
    }
}

/// The Fibonacci numbers only grow, in pairs.
proof fn fib_grows(m: nat, n: nat)
    requires
        m <= n,
    ensures
        fib_pair(m).0 <= fib_pair(n).0,
        fib_pair(m).1 <= fib_pair(n).1,
        fib_pair(n).0 <= fib_pair(n).1,
    decreases n,
{
    if n > 0 {
        fib_grows(0, (n - 1) as nat);
        if m < n {
            fib_grows(m, (n - 1) as nat);
        }
    }
}

/// The pair of numbers 92 and 93, which still fits 64 bits.
proof fn last_pair()
    ensures
        fib_pair(92) == (7540113804746346429nat, 12200160415121876738nat),
{
    reveal_with_fuel(fib_pair, 24);
    assert(fib_pair(23) == (28657nat, 46368nat));
    assert(fib_pair(46) == (1836311903nat, 2971215073nat));
    assert(fib_pair(69) == (117669030460994nat, 190392490709135nat));
}

/// The Fibonacci number with the given index, up to the last that is served.
pub fn fib(n: u64) -> (r: u64)
    requires
        n <= 92,
    ensures
        r == fib_pair(n as nat).0,
{
    let mut a: u64 = 0;
    let mut b: u64 = 1;
    let mut i: u64 = 0;
    while i < n
        invariant
            i <= n <= 92,
            (a as nat, b as nat) == fib_pair(i as nat),
        decreases n - i,
    {
        proof {
            last_pair();
            fib_grows((i + 1) as nat, 92);
        }
        let c: u64 = a + b;
        a = b;
        b = c;
        i = i + 1;
    }
    a
}

/// The index that a request is for, if it is served.
pub fn compute_index(n: i64) -> (r: Result<u64, Status>)
    ensures
        r == (if 0 <= n <= 92 {
            Ok::<u64, Status>(n as u64)
        } else {
            Err(Status::BadRequest)
        }),
{
    if n < 0 || n > 92 {
        Err(Status::BadRequest)
    } else {
        Ok(n as u64)
    }
}

/// The answer to a request, given that of the process that worked on it, if it came.
pub fn compute_answer(result: Option<u64>) -> (r: Result<u64, Status>)
    ensures
        r == (match result {
            Some(v) => Ok::<u64, Status>(v),
            None => Err(Status::InternalServerError),
        }),
{
    match result {
        Some(v) => Ok(v),
        None => Err(Status::InternalServerError),
    }
}

/// Values under keys.
pub struct Store {
    values: Assoc<String, String>,
}

impl Store {
    /// The values by their keys.
    pub closed spec fn view(&self) -> Map<Seq<char>, String> {
        self.values@
    }

    /// Validity: no key is listed twice.
    pub closed spec fn wf(self) -> bool {
        self.values.wf()
    }

    pub fn new() -> (r: Self)
        ensures
            r.wf(),
            r@ == Map::<Seq<char>, String>::empty(),
    {
        Self { values: Assoc::new() }
    }

    /// The value under a key.
    pub fn get(&self, key: &String) -> (r: Option<String>)
        requires
            self.wf(),
        ensures
            r == (if self@.dom().contains(key@) {
                Some(self@[key@])
            } else {
                None
            }),
    {
        match self.values.get(key) {
            Some(v) => Some(v.clone()),
            None => None,
        }
    }

    /// Puts a value under a key. Says whether the key is new, so that a process is to be spawned
    /// for it.
    pub fn put(&mut self, key: String, value: String) -> (r: bool)
        requires
            old(self).wf(),
        ensures
            final(self).wf(),
            final(self)@ == old(self)@.insert(key@, value),
            r == !old(self)@.dom().contains(key@),
    {
        let known = self.values.contains_key(&key);
        self.values.insert(key, value);
        !known
    }
}

/// A request to the store.
pub enum StoreCmd {
    Get { key: String },
    Put { key: String, value: String },
}

/// What a service's thread finds when it looks for requests.
pub enum Requests<C> {
    Next(C),
    /// There is none yet.
    Empty,
    /// Nobody can send one any more.
    Disconnected,
}

/// What the store's thread does then.
pub enum StoreStep {
    /// Answer with the value, if there is one.
    Found(Option<String>),
    /// Spawn a process for the key, if it is given, and answer that the value was taken.
    Stored { spawn_for: Option<String> },
    /// Let the processes work for so long, and look again.
    Idle(Duration),
    /// End.
    Stop,
}

/// What the store's thread does with what it found.
pub fn serve_store(store: &mut Store, found: Requests<StoreCmd>) -> (r: StoreStep)
    requires
        old(store).wf(),
    ensures
        final(store).wf(),
        match found {
            Requests::Next(StoreCmd::Get { key }) => final(store)@ == old(store)@ && r
                == StoreStep::Found(
                if old(store)@.dom().contains(key@) {
                    Some(old(store)@[key@])
                } else {
                    None
                },
            ),
            Requests::Next(StoreCmd::Put { key, value }) => final(store)@ == old(store)@.insert(
                key@,
                value,
            ) && (r matches StoreStep::Stored { spawn_for } && if old(store)@.dom().contains(key@) {
                spawn_for is None
            } else {
                spawn_for is Some && spawn_for->0@ == key@
            }),
            Requests::Empty => final(store)@ == old(store)@ && (r matches StoreStep::Idle(d) && d@
                == 100_000),
            Requests::Disconnected => final(store)@ == old(store)@ && r is Stop,
        },
{
    match found {
        Requests::Next(StoreCmd::Get { key }) => StoreStep::Found(store.get(&key)),
        Requests::Next(StoreCmd::Put { key, value }) => {
            let name = key.clone();
            if store.put(key, value) {
                StoreStep::Stored { spawn_for: Some(name) }
            } else {
                StoreStep::Stored { spawn_for: None }
            }
        },
        Requests::Empty => StoreStep::Idle(Duration::from_micros(100)),
        Requests::Disconnected => StoreStep::Stop,
    }
}

/// What the computing thread does with what it found.
pub enum ComputeStep {
    /// Spawn a process that answers with the number at this place.
    Spawn(u64),
    /// Let the processes work for so long, and look again.
    Idle(Duration),
    /// End.
    Stop,
}

/// What the computing thread does with what it found.
pub fn serve_compute(found: Requests<u64>) -> (r: ComputeStep)
    ensures
        match found {
            Requests::Next(n) => r == ComputeStep::Spawn(n),
            Requests::Empty => r matches ComputeStep::Idle(d) && d@ == 100_000,
            Requests::Disconnected => r is Stop,
        },
{
    match found {
        Requests::Next(n) => ComputeStep::Spawn(n),
        Requests::Empty => ComputeStep::Idle(Duration::from_micros(100)),
        Requests::Disconnected => ComputeStep::Stop,
    }
}

/// The answer to a request for a value, given that of the store, if it came.
pub fn get_answer(result: Option<Option<String>>) -> (r: Result<String, Status>)
    ensures
        r == (match result {
            Some(Some(v)) => Ok::<String, Status>(v),
            Some(None) => Err(Status::NotFound),
            None => Err(Status::InternalServerError),
        }),
{
    match result {
        Some(Some(v)) => Ok(v),
        Some(None) => Err(Status::NotFound),
        None => Err(Status::InternalServerError),
    }
}

/// The answer to a request to put a value, given whether the store took it.
pub fn put_answer(taken: bool) -> (r: Status)
    ensures
        r == (if taken {
            Status::Success
        } else {
            Status::InternalServerError
        }),
{
    if taken {
        Status::Success
    } else {
        Status::InternalServerError
    }
}

/// What was put under a key is found there, and what is under other keys stays.
pub proof fn store_reads_what_was_put(
    before: Map<Seq<char>, String>,
    key: Seq<char>,
    value: String,
    other: Seq<char>,
)
    ensures
        before.insert(key, value).dom().contains(key),
        before.insert(key, value)[key] == value,
        other != key ==> (before.insert(key, value).dom().contains(other)
            <==> before.dom().contains(other)),
        other != key ==> before.insert(key, value)[other] == before[other],
{
}

/// Each Fibonacci number is the sum of the two before it, and the first two are zero and one.
pub proof fn fibonacci_numbers_add_up(n: nat)
    ensures
        fib_pair(0).0 == 0,
        fib_pair(1).0 == 1,
        fib_pair(n + 2).0 == fib_pair(n + 1).0 + fib_pair(n).0,
        fib_pair(n).1 == fib_pair(n + 1).0,
{
    reveal_with_fuel(fib_pair, 3);
}

/// What was put under a key is got from there, and a process is to be spawned for a key only where
/// it is new.
pub proof fn values_put_are_got(
    before: Store,
    key: String,
    value: String,
    after: Store,
    fresh: bool,
    got: Option<String>,
    other: String,
    was: Option<String>,
    still: Option<String>,
    had: Option<String>,
)
    requires
        other@ != key@,
        exists|m: &mut Store|
            *m == before && *final(m) == after && #[trigger] call_ensures(
                Store::put,
                (m, key, value),
                fresh,
            ),
        call_ensures(Store::get, (&before, &key), had),
        call_ensures(Store::get, (&after, &key), got),
        call_ensures(Store::get, (&before, &other), was),
        call_ensures(Store::get, (&after, &other), still),
    ensures
        got == Some(value),
        fresh <==> had is None,
        still == was,
{
}

/// The store's thread answers a request with what is under its key, also for what it stored just
/// before.
pub proof fn stored_values_are_served(
    before: Store,
    key: String,
    value: String,
    between: Store,
    put: StoreStep,
    after: Store,
    got: StoreStep,
)
    requires
        exists|x: &mut Store|
            *x == before && *final(x) == between && #[trigger] call_ensures(
                serve_store,
                (x, Requests::Next(StoreCmd::Put { key, value })),
                put,
            ),
        exists|x: &mut Store|
            *x == between && *final(x) == after && #[trigger] call_ensures(
                serve_store,
                (x, Requests::Next(StoreCmd::Get { key })),
                got,
            ),
    ensures
        put is Stored,
        got == StoreStep::Found(Some(value)),
        after@ == between@,
        put->spawn_for is Some <==> !before@.dom().contains(key@),
{
}

/// A request is served exactly where its number is, and the numbers that are served are those that
/// follow from the two before.
pub proof fn served_numbers_add_up(
    n: i64,
    r: Result<u64, Status>,
    a: u64,
    b: u64,
    c: u64,
)
    requires
        call_ensures(compute_index, (n,), r),
        0 <= n <= 90,
        call_ensures(fib, (n as u64,), a),
        call_ensures(fib, ((n + 1) as u64,), b),
        call_ensures(fib, ((n + 2) as u64,), c),
    ensures
        r == Ok::<u64, Status>(n as u64),
        c == a + b,
        n == 0 ==> a == 0 && b == 1,
{
    fibonacci_numbers_add_up(n as nat);
    fibonacci_numbers_add_up(0);
}

/// What is out of range is a bad request, what is not there is not found, and what went wrong
/// inside is told as that.
pub proof fn failures_are_told_apart(
    n: i64,
    index: Result<u64, Status>,
    computed: Option<u64>,
    r: Result<u64, Status>,
    got: Option<Option<String>>,
    s: Result<String, Status>,
    taken: bool,
    t: Status,
)
    requires
        call_ensures(compute_index, (n,), index),
        call_ensures(compute_answer, (computed,), r),
        call_ensures(get_answer, (got,), s),
        call_ensures(put_answer, (taken,), t),
    ensures
        index is Err <==> n < 0 || n > 92,
        index is Err ==> index->Err_0 == Status::BadRequest,
        computed is None ==> r == Err::<u64, Status>(Status::InternalServerError),
        computed is Some ==> r == Ok::<u64, Status>(computed->0),
        got is None ==> s == Err::<String, Status>(Status::InternalServerError),
        got is Some && got->0 is None ==> s == Err::<String, Status>(Status::NotFound),
        got is Some && got->0 is Some ==> s == Ok::<String, Status>(got->0->0),
        t == Status::Success <==> taken,
{
}

/// The outcomes have the numbers that HTTP gives them, and the computing thread serves until
/// nobody asks any more.
pub proof fn outcomes_have_their_numbers(
    s: Status,
    code: u16,
    found: Requests<u64>,
    r: ComputeStep,
)
    requires
        call_ensures(Status::code, (&s,), code),
        call_ensures(serve_compute, (found,), r),
    ensures
        s == Status::Success <==> code == 200,
        s == Status::BadRequest <==> code == 400,
        s == Status::NotFound <==> code == 404,
        s == Status::InternalServerError <==> code == 500,
        found matches Requests::Next(n) ==> r == ComputeStep::Spawn(n),
        r is Stop <==> found is Disconnected,
        r is Idle <==> found is Empty,
{
}

} // verus!
