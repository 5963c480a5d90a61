//! Input and output: errors, and how reads and writes that come in pieces are put together.
use vstd::prelude::*;
use vstd::string::*;

verus! {

/// The kinds of input and output error that are told apart.
#[derive(Debug, Clone, Copy, PartialEq, Eq, Structural)]
pub enum IoErrorKind {
    UnexpectedEof,
    WriteZero,
    Unsupported,
    Other,
}

/// An input or output error.
#[derive(Debug)]
pub struct IoError {
    pub kind: IoErrorKind,
    pub message: String,
}

#[verifier::external_type_specification]
#[verifier::external_body]
pub struct ExStdIoError(std::io::Error);

/// The kind that an error of the system carries, by the kinds that are told apart here.
pub uninterp spec fn io_error_kind(e: std::io::Error) -> IoErrorKind;

/// `std::io::Error::kind`, by the kinds that are told apart here. Claimed: the kind is the
/// error's own.
#[verifier::external_body]
fn error_kind(e: &std::io::Error) -> (r: IoErrorKind)
    ensures
        r == io_error_kind(*e),
{
    match e.kind() {
        std::io::ErrorKind::UnexpectedEof => IoErrorKind::UnexpectedEof,
        std::io::ErrorKind::WriteZero => IoErrorKind::WriteZero,
        std::io::ErrorKind::Unsupported => IoErrorKind::Unsupported,
        _ => IoErrorKind::Other,
    }
}

/// The text of a `std::io::Error`, by its `to_string`. The system words it, in the language that
/// is set there, so nothing is claimed of it.
#[verifier::external_body]
fn error_text(e: &std::io::Error) -> String {
    e.to_string()
}

/// Whether an error of the system gave the text as its own.
pub closed spec fn is_worded(e: std::io::Error, text: String) -> bool {
    call_ensures(error_text, (&e,), text)
}

/// The error that the system reported, with its kind and its text. The system words the text.
pub fn io_error(e: std::io::Error) -> (r: IoError)
    ensures
        r.kind == io_error_kind(e),
        is_worded(e, r.message),
{
    IoError { kind: error_kind(&e), message: error_text(&e) }
}

/// What one read came to: some bytes, none because the other side ended, or an error.
#[derive(Debug)]
pub enum ReadOutcome {
    Data(Vec<u8>),
    Failed(IoError),
}

/// How a read or a write of a whole buffer goes on.
#[derive(Debug)]
pub enum Transfer {
    /// There is more to read or to write.
    More,
    /// All of it was read or written.
    Complete,
    /// It failed.
    Failed(IoError),
}

/// Whether the error is of the kind and has the text.
pub open spec fn is_error(e: IoError, kind: IoErrorKind, text: Seq<char>) -> bool {
    e.kind == kind && e.message@ == text
}

/// A buffer that is filled by reads of as many bytes as come.
pub struct ReadExact {
    buf: Vec<u8>,
    filled: usize,
}

/// A buffer with bytes put into it from a position on.
pub open spec fn overwritten(buf: Seq<u8>, at: int, data: Seq<u8>) -> Seq<u8> {
    buf.take(at) + data + buf.skip(at + data.len())
}

impl ReadExact {
    pub closed spec fn buffer(self) -> Seq<u8> {
        self.buf@
    }

    /// How much of the buffer is filled.
    pub closed spec fn progress(self) -> int {
        self.filled as int
    }

    pub open spec fn wf(self) -> bool {
        0 <= self.progress() <= self.buffer().len()
    }

    /// Starts to fill a buffer.
    pub fn new(buf: Vec<u8>) -> (r: Self)
        ensures
            r.wf(),
            r.buffer() == buf@,
            r.progress() == 0,
    {
        Self { buf, filled: 0 }
    }

    /// The number of bytes that are still to be read.
    pub fn needed(&self) -> (r: usize)
        requires
            self.wf(),
        ensures
            r == self.buffer().len() - self.progress(),
    {
        self.buf.len() - self.filled
    }

    /// Takes the outcome of a read of at most the bytes needed. A read of no bytes where some
    /// are needed means that the stream ended.
    pub fn read(&mut self, outcome: ReadOutcome) -> (r: Transfer)
        requires
            old(self).wf(),
            old(self).progress() < old(self).buffer().len(),
            outcome matches ReadOutcome::Data(data) ==> data@.len() <= old(self).buffer().len()
                - old(self).progress(),
        ensures
            final(self).wf(),
            final(self).buffer().len() == old(self).buffer().len(),
            match outcome {
                ReadOutcome::Data(data) => if data@.len() == 0 {
                    &&& r is Failed
                    &&& is_error(
                        r->Failed_0,
                        IoErrorKind::UnexpectedEof,
                        "unexpected EOF during read_exact"@,
                    )
                    &&& *final(self) == *old(self)
                } else {
                    &&& final(self).buffer() == overwritten(
                        old(self).buffer(),
                        old(self).progress(),
                        data@,
                    )
                    &&& final(self).progress() == old(self).progress() + data@.len()
                    &&& final(self).buffer().subrange(old(self).progress(), final(self).progress())
                        == data@
                    &&& final(self).buffer().take(old(self).progress())
                        == old(self).buffer().take(old(self).progress())
                    &&& r == (if final(self).progress() < final(self).buffer().len() {
                        Transfer::More
                    } else {
                        Transfer::Complete
                    })
                },
                ReadOutcome::Failed(e) => r == Transfer::Failed(e) && *final(self) == *old(self),
            },
    {
        match outcome {
            ReadOutcome::Data(data) => {
                let n: usize = data.len();
                if n == 0 {
                    return Transfer::Failed(
                        IoError {
                            kind: IoErrorKind::UnexpectedEof,
                            message: "unexpected EOF during read_exact".to_string(),
                        },
                    );
                }
                let size: usize = self.buf.len();
                let mut i: usize = 0;
                while i < n
                    invariant
                        n == data@.len(),
                        size == self.buf@.len(),
                        i <= n,
                        self.filled == old(self).filled,
                        self.filled + n <= old(self).buf@.len(),
                        self.buf@.len() == old(self).buf@.len(),
                        forall|j: int|
                            0 <= j < self.buf@.len() ==> #[trigger] self.buf@[j] == (if self.filled
                                <= j < self.filled + i {
                                data@[j - self.filled]
                            } else {
                                old(self).buf@[j]
                            }),
                    decreases n - i,
                {
                    self.buf.set(self.filled + i, data[i]);
                    i = i + 1;
                }
                assert(self.buf@ =~= overwritten(old(self).buf@, old(self).filled as int, data@));
                self.filled = self.filled + n;
                proof {
                    let at = old(self).filled as int;
                    assert(self.buf@.subrange(at, self.filled as int) =~= data@);
                    assert(self.buf@.take(at) =~= old(self).buf@.take(at));
                }
                if self.filled < self.buf.len() {
                    Transfer::More
                } else {
                    Transfer::Complete
                }
            },
            ReadOutcome::Failed(e) => Transfer::Failed(e),
        }
    }

    /// The buffer, as far as it was filled.
    pub fn into_buffer(self) -> (r: Vec<u8>)
        ensures
            r@ == self.buffer(),
    {
        self.buf
    }
}

/// A buffer after pieces were read into it, one after another.
pub open spec fn filled_by(buf: Seq<u8>, at: int, pieces: Seq<Seq<u8>>) -> Seq<u8>
    decreases pieces.len(),
{
    if pieces.len() == 0 {
        buf
    } else {
        filled_by(
            overwritten(buf, at, pieces[0]),
            at + pieces[0].len(),
            pieces.skip(1),
        )
    }
}

/// The pieces in a row.
pub open spec fn in_a_row(pieces: Seq<Seq<u8>>) -> Seq<u8>
    decreases pieces.len(),
{
    if pieces.len() == 0 {
        Seq::empty()
    } else {
        pieces[0] + in_a_row(pieces.skip(1))
    }
}

/// A buffer holds what came, in the order in which it came, however the pieces were cut.
pub proof fn reads_add_up(buf: Seq<u8>, at: int, pieces: Seq<Seq<u8>>)
    requires
        0 <= at,
        at + in_a_row(pieces).len() <= buf.len(),
    ensures
        filled_by(buf, at, pieces) == overwritten(buf, at, in_a_row(pieces)),
    decreases pieces.len(),
{
    if pieces.len() == 0 {
        assert(overwritten(buf, at, Seq::empty()) =~= buf);
    } else {
        let rest = pieces.skip(1);
        let next = overwritten(buf, at, pieces[0]);
        reads_add_up(next, at + pieces[0].len(), rest);
        assert(overwritten(next, at + pieces[0].len(), in_a_row(rest)) =~= overwritten(
            buf,
            at,
            in_a_row(pieces),
        ));
    }
}

/// Bytes that are written by writes of as many as are taken.
pub struct WriteAll {
    remaining: Vec<u8>,
}

/// What one write came to: a number of bytes taken, or an error.
#[derive(Debug)]
pub enum WriteOutcome {
    Taken(usize),
    Failed(IoError),
}

impl WriteAll {
    /// What was not taken yet, as far as it was cut off.
    pub closed spec fn rest(self) -> Seq<u8> {
        self.remaining@
    }

    pub fn new(buf: Vec<u8>) -> (r: Self)
        ensures
            r.rest() == buf@,
    {
        Self { remaining: buf }
    }

    /// The bytes to write next.
    pub fn to_write(&self) -> (r: &Vec<u8>)
        ensures
            r@ == self.rest(),
    {
        &self.remaining
    }

    /// Takes the outcome of writing the bytes. A write that takes no byte fails; one that takes
    /// a part cuts it off; one that takes them all ends it.
    pub fn written(&mut self, outcome: WriteOutcome) -> (r: Transfer)
        ensures
            match outcome {
                WriteOutcome::Taken(n) => if n == 0 {
                    &&& r is Failed
                    &&& is_error(r->Failed_0, IoErrorKind::WriteZero, "write returned 0"@)
                    &&& final(self).rest() == old(self).rest()
                } else if n >= old(self).rest().len() {
                    &&& r is Complete
                    &&& final(self).rest() == old(self).rest()
                } else {
                    &&& r is More
                    &&& final(self).rest() == old(self).rest().skip(n as int)
                },
                WriteOutcome::Failed(e) => r == Transfer::Failed(e) && final(self).rest()
                    == old(self).rest(),
            },
    {
        match outcome {
            WriteOutcome::Taken(n) => {
                if n == 0 {
                    Transfer::Failed(
                        IoError {
                            kind: IoErrorKind::WriteZero,
                            message: "write returned 0".to_string(),
                        },
                    )
                } else if n >= self.remaining.len() {
                    Transfer::Complete
                } else {
                    let rest = self.remaining.split_off(n);
                    assert(rest@ =~= old(self).remaining@.skip(n as int));
                    self.remaining = rest;
                    Transfer::More
                }
            },
            WriteOutcome::Failed(e) => Transfer::Failed(e),
        }
    }

    /// What is left of the buffer.
    pub fn into_buffer(self) -> (r: Vec<u8>)
        ensures
            r@ == self.rest(),
    {
        self.remaining
    }
}

/// What is sent by writes that take the given numbers of bytes, each of what the ones before it
/// left.
pub open spec fn sent_by(buf: Seq<u8>, taken: Seq<nat>) -> Seq<u8>
    decreases taken.len(),
{
    if taken.len() == 0 {
        Seq::empty()
    } else if taken[0] >= buf.len() {
        buf
    } else {
        buf.take(taken[0] as int) + sent_by(buf.skip(taken[0] as int), taken.skip(1))
    }
}

/// The sum of numbers.
pub open spec fn total(taken: Seq<nat>) -> nat
    decreases taken.len(),
{
    if taken.len() == 0 {
        0
    } else {
        taken[0] + total(taken.skip(1))
    }
}

/// Writes send the buffer from its start, in order, and all of it once they took enough,
/// however the pieces were cut.
pub proof fn writes_add_up(buf: Seq<u8>, taken: Seq<nat>)
    ensures
        sent_by(buf, taken) == (if total(taken) >= buf.len() {
            buf
        } else {
            buf.take(total(taken) as int)
        }),
    decreases taken.len(),
{
    if taken.len() == 0 {
        assert(buf.take(0) =~= Seq::empty());
        if buf.len() == 0 {
            assert(buf =~= Seq::empty());
        }
    } else if taken[0] >= buf.len() {
    } else {
        let n = taken[0] as int;
        let rest = buf.skip(n);
        writes_add_up(rest, taken.skip(1));
        if total(taken) >= buf.len() {
            assert(buf.take(n) + rest =~= buf);
        } else {
            assert(buf.take(n) + rest.take(total(taken.skip(1)) as int) =~= buf.take(
                total(taken) as int,
            ));
        }
    }
}

/// An operation on its way: not handed in yet, waiting under a key, or over.
pub enum OpState<T, K> {
    Init(T),
    Pending(K),
    Done,
}

/// What to ask for an operation: hand it in, or ask whether it is over.
pub enum OpAsk<T, K> {
    Push(T),
    Pop(K),
}

/// What the answer was: the result, or a key to wait under.
pub enum OpAnswer<R, K> {
    Ready(R),
    Pending(K),
}

impl<T, K> OpState<T, K> {
    /// What to ask next. It leaves the operation over until the answer comes.
    pub fn ask(&mut self) -> (r: OpAsk<T, K>)
        requires
            !(*old(self) is Done),
        ensures
            *final(self) is Done,
            match *old(self) {
                OpState::Init(op) => r == OpAsk::<T, K>::Push(op),
                OpState::Pending(key) => r == OpAsk::<T, K>::Pop(key),
                OpState::Done => true,
            },
    {
        let mut state = OpState::Done;
        std::mem::swap(&mut state, self);
        match state {
            OpState::Init(op) => OpAsk::Push(op),
            OpState::Pending(key) => OpAsk::Pop(key),
            OpState::Done => {
                assert(false);
                vstd::pervasive::unreached()
            },
        }
    }

    /// Takes the answer: gives the result, or waits under the key.
    pub fn answered<R>(&mut self, answer: OpAnswer<R, K>) -> (r: Option<R>)
        ensures
            match answer {
                OpAnswer::Ready(v) => r == Some(v) && *final(self) == *old(self),
                OpAnswer::Pending(key) => r is None && *final(self) == OpState::<T, K>::Pending(key),
            },
    {
        match answer {
            OpAnswer::Ready(v) => Some(v),
            OpAnswer::Pending(key) => {
                *self = OpState::Pending(key);
                None
            },
        }
    }
}

/// Bytes that are put into a buffer are there, from their position on, and every other byte of it
/// stays.
pub proof fn overwriting_changes_its_part_only(buf: Seq<u8>, at: int, data: Seq<u8>, i: int)
    requires
        0 <= at,
        at + data.len() <= buf.len(),
        0 <= i < buf.len(),
    ensures
        overwritten(buf, at, data).len() == buf.len(),
        at <= i < at + data.len() ==> overwritten(buf, at, data)[i] == data[i - at],
        i < at || i >= at + data.len() ==> overwritten(buf, at, data)[i] == buf[i],
{
}

/// A read puts its bytes behind those that came before, and is complete exactly when nothing more
/// is needed.
pub proof fn reads_fill_the_buffer(
    before: ReadExact,
    data: Vec<u8>,
    after: ReadExact,
    r: Transfer,
    needed: usize,
    left: usize,
)
    requires
        before.wf(),
        0 < data@.len() <= before.buffer().len() - before.progress(),
        exists|m: &mut ReadExact|
            *m == before && *final(m) == after && #[trigger] call_ensures(
                ReadExact::read,
                (m, ReadOutcome::Data(data)),
                r,
            ),
        call_ensures(ReadExact::needed, (&before,), needed),
        call_ensures(ReadExact::needed, (&after,), left),
    ensures
        left + data@.len() == needed,
        r is Complete <==> left == 0,
        r is More <==> left > 0,
        after.buffer().subrange(before.progress(), after.progress()) == data@,
        after.buffer().take(before.progress()) == before.buffer().take(before.progress()),
{
}

/// A stream that ends too early is an error of that kind, and an error is told as it is.
pub proof fn early_ends_are_errors(
    before: ReadExact,
    data: Vec<u8>,
    after: ReadExact,
    r: Transfer,
    e: IoError,
    same: ReadExact,
    s: Transfer,
)
    requires
        data@.len() == 0,
        exists|m: &mut ReadExact|
            *m == before && *final(m) == after && #[trigger] call_ensures(
                ReadExact::read,
                (m, ReadOutcome::Data(data)),
                r,
            ),
        exists|m: &mut ReadExact|
            *m == before && *final(m) == same && #[trigger] call_ensures(
                ReadExact::read,
                (m, ReadOutcome::Failed(e)),
                s,
            ),
    ensures
        r is Failed,
        r->Failed_0.kind == IoErrorKind::UnexpectedEof,
        after == before,
        s == Transfer::Failed(e),
        same == before,
{
}

/// A write goes on with what was not taken, ends when all was, and fails where nothing is.
pub proof fn writes_go_on_with_the_rest(
    before: WriteAll,
    n: usize,
    after: WriteAll,
    r: Transfer,
    zero: WriteAll,
    z: Transfer,
)
    requires
        0 < n <= before.rest().len(),
        exists|m: &mut WriteAll|
            *m == before && *final(m) == after && #[trigger] call_ensures(
                WriteAll::written,
                (m, WriteOutcome::Taken(n)),
                r,
            ),
        exists|m: &mut WriteAll|
            *m == before && *final(m) == zero && #[trigger] call_ensures(
                WriteAll::written,
                (m, WriteOutcome::Taken(0)),
                z,
            ),
    ensures
        r is Complete <==> n == before.rest().len(),
        r is More ==> before.rest() == before.rest().take(n as int) + after.rest(),
        z is Failed,
        z->Failed_0.kind == IoErrorKind::WriteZero,
{
    if r is More {
        assert(before.rest() =~= before.rest().take(n as int) + after.rest());
    }
}

/// An operation is handed in once, and then asked for under its key until it is over.
pub proof fn operations_are_handed_in_once<T, K, R>(
    op: T,
    asked: OpState<T, K>,
    first: OpAsk<T, K>,
    key: K,
    waiting: OpState<T, K>,
    none: Option<R>,
    again: OpState<T, K>,
    second: OpAsk<T, K>,
    v: R,
    over: OpState<T, K>,
    done: Option<R>,
)
    requires
        exists|m: &mut OpState<T, K>|
            *m == OpState::<T, K>::Init(op) && *final(m) == asked && #[trigger] call_ensures(
                OpState::<T, K>::ask,
                (m,),
                first,
            ),
        exists|m: &mut OpState<T, K>|
            *m == asked && *final(m) == waiting && #[trigger] call_ensures(
                OpState::<T, K>::answered::<R>,
                (m, OpAnswer::Pending(key)),
                none,
            ),
        exists|m: &mut OpState<T, K>|
            *m == waiting && *final(m) == again && #[trigger] call_ensures(
                OpState::<T, K>::ask,
                (m,),
                second,
            ),
        exists|m: &mut OpState<T, K>|
            *m == again && *final(m) == over && #[trigger] call_ensures(
                OpState::<T, K>::answered::<R>,
                (m, OpAnswer::Ready(v)),
                done,
            ),
    ensures
        first == OpAsk::<T, K>::Push(op),
        none is None,
        second == OpAsk::<T, K>::Pop(key),
        done == Some(v),
        over is Done,
{
}

/// The errors of reading and writing say what happened.
pub proof fn transfer_errors_say_what_happened(
    before: ReadExact,
    data: Vec<u8>,
    after: ReadExact,
    r: Transfer,
    w: WriteAll,
    x: WriteAll,
    z: Transfer,
)
    requires
        data@.len() == 0,
        exists|m: &mut ReadExact|
            *m == before && *final(m) == after && #[trigger] call_ensures(
                ReadExact::read,
                (m, ReadOutcome::Data(data)),
                r,
            ),
        exists|m: &mut WriteAll|
            *m == w && *final(m) == x && #[trigger] call_ensures(
                WriteAll::written,
                (m, WriteOutcome::Taken(0)),
                z,
            ),
    ensures
        r matches Transfer::Failed(e) && e.message@ == "unexpected EOF during read_exact"@,
        z matches Transfer::Failed(e) && e.message@ == "write returned 0"@,
{
}

} // verus!
