//! Process identities, messages, exit reasons and the errors of sending and registering.
use crate::term::Term;
use crate::text::{decimal, push_decimal};
use vstd::prelude::*;
use vstd::string::*;

verus! {

/// The identity of a process: its node, the thread it runs on, and its number there.
#[derive(Debug, Clone, Copy, PartialEq, Eq, Hash, Structural)]
pub struct ProcessId {
    node_id: u64,
    thread_id: u16,
    local_id: u64,
}

/// The notation `<node.thread.local>` of a process identity.
pub open spec fn pid_text(pid: ProcessId) -> Seq<char> {
    "<"@ + decimal(pid.node() as nat) + "."@ + decimal(pid.thread() as nat) + "."@ + decimal(
        pid.local() as nat,
    ) + ">"@
}

impl ProcessId {
    pub closed spec fn node(self) -> u64 {
        self.node_id
    }

    pub closed spec fn thread(self) -> u16 {
        self.thread_id
    }

    pub closed spec fn local(self) -> u64 {
        self.local_id
    }

    /// The identity with these three numbers.
    pub closed spec fn of(node: u64, thread: u16, local: u64) -> ProcessId {
        ProcessId { node_id: node, thread_id: thread, local_id: local }
    }

    pub fn new(node_id: u64, thread_id: u16, local_id: u64) -> (r: Self)
        ensures
            r == ProcessId::of(node_id, thread_id, local_id),
            r.node() == node_id,
            r.thread() == thread_id,
            r.local() == local_id,
    {
        Self { node_id, thread_id, local_id }
    }

    pub fn node_id(&self) -> (r: u64)
        ensures
            r == self.node(),
    {
        self.node_id
    }

    pub fn thread_id(&self) -> (r: u16)
        ensures
            r == self.thread(),
    {
        self.thread_id
    }

    pub fn local_id(&self) -> (r: u64)
        ensures
            r == self.local(),
    {
        self.local_id
    }

    /// The notation `<node.thread.local>`.
    pub fn to_string(&self) -> (r: String)
        ensures
            r@ == pid_text(*self),
    {
        let mut s = String::new();
        s.append("<");
        push_decimal(&mut s, self.node_id);
        s.append(".");
        push_decimal(&mut s, self.thread_id as u64);
        s.append(".");
        push_decimal(&mut s, self.local_id);
        s.append(">");
        assert(s@ =~= pid_text(*self));
        s
    }
}

/// A process identity is its three numbers, and any three numbers are an identity.
pub broadcast proof fn pid_of_parts(node: u64, thread: u16, local: u64)
    ensures
        (#[trigger] ProcessId::of(node, thread, local)).node() == node,
        ProcessId::of(node, thread, local).thread() == thread,
        ProcessId::of(node, thread, local).local() == local,
{
}

/// Two process identities with the same three numbers are the same.
pub proof fn pid_is_its_parts(a: ProcessId, b: ProcessId)
    requires
        a.node() == b.node(),
        a.thread() == b.thread(),
        a.local() == b.local(),
    ensures
        a == b,
{
}

/// The current time in milliseconds since the Unix epoch, by `std::time::SystemTime::elapsed`
/// on `UNIX_EPOCH`; zero where the clock stands before the epoch. Nothing is claimed of the
/// result.
#[verifier::external_body]
fn unix_millis() -> u64 {
    std::time::SystemTime::UNIX_EPOCH.elapsed().unwrap_or_default().as_millis() as u64
}

/// Whether the clock was read as this time.
pub closed spec fn clock_read(millis: u64) -> bool {
    call_ensures(unix_millis, (), millis)
}

/// The current time in milliseconds since the Unix epoch, by the clock.
pub(crate) fn clock_millis() -> (r: u64)
    ensures
        clock_read(r),
{
    unix_millis()
}

/// A message: its sender, its payload, and the time it was made at, if that was recorded.
#[derive(Debug)]
pub struct Message {
    from: ProcessId,
    payload: Term,
    timestamp: Option<u64>,
}

impl Message {
    pub closed spec fn sender(self) -> ProcessId {
        self.from
    }

    pub closed spec fn body(self) -> Term {
        self.payload
    }

    pub closed spec fn time(self) -> Option<u64> {
        self.timestamp
    }

    /// A message with a timestamp, for messages from outside the runtime.
    pub fn new(from: ProcessId, payload: Term) -> (r: Self)
        ensures
            r.sender() == from,
            r.body() == payload,
            r.time() matches Some(millis) && clock_read(millis),
    {
        Message::at(from, payload, clock_millis())
    }

    /// A message with the given timestamp.
    pub fn at(from: ProcessId, payload: Term, timestamp: u64) -> (r: Self)
        ensures
            r.sender() == from,
            r.body() == payload,
            r.time() == Some(timestamp),
    {
        Self { from, payload, timestamp: Some(timestamp) }
    }

    /// A message without a timestamp, for internal routing.
    pub fn new_internal(from: ProcessId, payload: Term) -> (r: Self)
        ensures
            r.sender() == from,
            r.body() == payload,
            r.time() == None::<u64>,
    {
        Self { from, payload, timestamp: None }
    }

    pub fn from(&self) -> (r: ProcessId)
        ensures
            r == self.sender(),
    {
        self.from
    }

    pub fn payload(&self) -> (r: &Term)
        ensures
            *r == self.body(),
    {
        &self.payload
    }

    /// The timestamp, if one was recorded.
    pub fn timestamp(&self) -> (r: Option<u64>)
        ensures
            r == self.time(),
    {
        self.timestamp
    }
}

/// Why a process ended.
#[derive(Debug)]
pub enum ExitReason {
    Normal,
    Abnormal(String),
    Kill,
    LinkedExit(ProcessId, Box<ExitReason>),
}

impl ExitReason {
    pub fn is_normal(&self) -> (r: bool)
        ensures
            r == (*self is Normal),
    {
        match self {
            ExitReason::Normal => true,
            _ => false,
        }
    }
}

impl Clone for ExitReason {
    fn clone(&self) -> (r: Self)
        ensures
            r == *self,
        decreases *self,
    {
        match self {
            ExitReason::Normal => ExitReason::Normal,
            ExitReason::Abnormal(s) => ExitReason::Abnormal(s.clone()),
            ExitReason::Kill => ExitReason::Kill,
            ExitReason::LinkedExit(pid, inner) => ExitReason::LinkedExit(
                *pid,
                Box::new((&**inner).clone()),
            ),
        }
    }
}

/// Why a message could not be sent.
#[derive(Debug)]
pub enum SendError {
    ProcessDead(ProcessId),
    MailboxFull(ProcessId),
    NodeUnreachable(u64),
    NameNotFound(String),
    MalformedFrame(&'static str),
}

/// The message of a send error.
pub open spec fn send_error_text(e: SendError) -> Seq<char> {
    match e {
        SendError::ProcessDead(pid) => "process dead: "@ + pid_text(pid),
        SendError::MailboxFull(pid) => "mailbox full for: "@ + pid_text(pid),
        SendError::NodeUnreachable(n) => "node unreachable: "@ + decimal(n as nat),
        SendError::NameNotFound(s) => "name not found: "@ + s@,
        SendError::MalformedFrame(s) => "malformed frame: "@ + s@,
    }
}

impl SendError {
    /// The message of the error.
    pub fn to_string(&self) -> (r: String)
        ensures
            r@ == send_error_text(*self),
    {
        let mut s = String::new();
        match self {
            SendError::ProcessDead(pid) => {
                s.append("process dead: ");
                s.append(pid.to_string().as_str());
            },
            SendError::MailboxFull(pid) => {
                s.append("mailbox full for: ");
                s.append(pid.to_string().as_str());
            },
            SendError::NodeUnreachable(n) => {
                s.append("node unreachable: ");
                push_decimal(&mut s, *n);
            },
            SendError::NameNotFound(name) => {
                s.append("name not found: ");
                s.append(name.as_str());
            },
            SendError::MalformedFrame(what) => {
                s.append("malformed frame: ");
                s.append(what);
            },
        }
        assert(s@ =~= send_error_text(*self));
        s
    }

    /// Whether two errors are of the same kind and carry the same content.
    pub open spec fn same(self, other: SendError) -> bool {
        match (self, other) {
            (SendError::ProcessDead(a), SendError::ProcessDead(b)) => a == b,
            (SendError::MailboxFull(a), SendError::MailboxFull(b)) => a == b,
            (SendError::NodeUnreachable(a), SendError::NodeUnreachable(b)) => a == b,
            (SendError::NameNotFound(a), SendError::NameNotFound(b)) => a@ == b@,
            (SendError::MalformedFrame(a), SendError::MalformedFrame(b)) => a@ == b@,
            _ => false,
        }
    }
}

impl PartialEq for SendError {
    fn eq(&self, other: &Self) -> (r: bool) {
        match (self, other) {
            (SendError::ProcessDead(a), SendError::ProcessDead(b)) => *a == *b,
            (SendError::MailboxFull(a), SendError::MailboxFull(b)) => *a == *b,
            (SendError::NodeUnreachable(a), SendError::NodeUnreachable(b)) => *a == *b,
            (SendError::NameNotFound(a), SendError::NameNotFound(b)) => *a == *b,
            (SendError::MalformedFrame(a), SendError::MalformedFrame(b)) => {
                (*a).to_string() == (*b).to_string()
            },
            _ => false,
        }
    }
}

impl vstd::std_specs::cmp::PartialEqSpecImpl for SendError {
    open spec fn obeys_eq_spec() -> bool {
        true
    }

    open spec fn eq_spec(&self, other: &Self) -> bool {
        self.same(*other)
    }
}

/// Why a name could not be registered or found.
#[derive(Debug)]
pub enum RegistryError {
    NameAlreadyRegistered(String),
    ProcessNotFound(ProcessId),
    NameNotFound(String),
}

/// The message of a registry error.
pub open spec fn registry_error_text(e: RegistryError) -> Seq<char> {
    match e {
        RegistryError::NameAlreadyRegistered(s) => "name already registered: "@ + s@,
        RegistryError::ProcessNotFound(pid) => "process not found: "@ + pid_text(pid),
        RegistryError::NameNotFound(s) => "name not found: "@ + s@,
    }
}

impl RegistryError {
    /// The message of the error.
    pub fn to_string(&self) -> (r: String)
        ensures
            r@ == registry_error_text(*self),
    {
        let mut s = String::new();
        match self {
            RegistryError::NameAlreadyRegistered(name) => {
                s.append("name already registered: ");
                s.append(name.as_str());
            },
            RegistryError::ProcessNotFound(pid) => {
                s.append("process not found: ");
                s.append(pid.to_string().as_str());
            },
            RegistryError::NameNotFound(name) => {
                s.append("name not found: ");
                s.append(name.as_str());
            },
        }
        assert(s@ =~= registry_error_text(*self));
        s
    }

    /// Whether two errors are of the same kind and carry the same content.
    pub open spec fn same(self, other: RegistryError) -> bool {
        match (self, other) {
            (
                RegistryError::NameAlreadyRegistered(a),
                RegistryError::NameAlreadyRegistered(b),
            ) => a@ == b@,
            (RegistryError::ProcessNotFound(a), RegistryError::ProcessNotFound(b)) => a == b,
            (RegistryError::NameNotFound(a), RegistryError::NameNotFound(b)) => a@ == b@,
            _ => false,
        }
    }
}

impl PartialEq for RegistryError {
    fn eq(&self, other: &Self) -> (r: bool) {
        match (self, other) {
            (
                RegistryError::NameAlreadyRegistered(a),
                RegistryError::NameAlreadyRegistered(b),
            ) => *a == *b,
            (RegistryError::ProcessNotFound(a), RegistryError::ProcessNotFound(b)) => *a == *b,
            (RegistryError::NameNotFound(a), RegistryError::NameNotFound(b)) => *a == *b,
            _ => false,
        }
    }
}

impl vstd::std_specs::cmp::PartialEqSpecImpl for RegistryError {
    open spec fn obeys_eq_spec() -> bool {
        true
    }

    open spec fn eq_spec(&self, other: &Self) -> bool {
        self.same(*other)
    }
}

impl Clone for RegistryError {
    fn clone(&self) -> (r: Self)
        ensures
            r == *self,
    {
        match self {
            RegistryError::NameAlreadyRegistered(s) => RegistryError::NameAlreadyRegistered(
                s.clone(),
            ),
            RegistryError::ProcessNotFound(pid) => RegistryError::ProcessNotFound(*pid),
            RegistryError::NameNotFound(s) => RegistryError::NameNotFound(s.clone()),
        }
    }
}

/// Comparing errors of sending is an equality: every error is the same as itself, it does not
/// matter in which order two are compared, and what is the same reads the same.
pub proof fn same_send_errors_read_the_same(a: SendError, b: SendError, c: SendError)
    ensures
        a.same(a),
        a.same(b) <==> b.same(a),
        a.same(b) && b.same(c) ==> a.same(c),
        a.same(b) ==> send_error_text(a) == send_error_text(b),
        a.same(b) && a is ProcessDead ==> b == a,
        a.same(b) && a is MailboxFull ==> b == a,
        a.same(b) && a is NodeUnreachable ==> b == a,
        a.same(b) && a is NameNotFound ==> b is NameNotFound,
        a.same(b) && a is MalformedFrame ==> b is MalformedFrame,
{
}

/// Comparing errors of registering is an equality: every error is the same as itself, it does not
/// matter in which order two are compared, and what is the same reads the same.
pub proof fn same_registry_errors_read_the_same(a: RegistryError, b: RegistryError, c: RegistryError)
    ensures
        a.same(a),
        a.same(b) <==> b.same(a),
        a.same(b) && b.same(c) ==> a.same(c),
        a.same(b) ==> registry_error_text(a) == registry_error_text(b),
        a.same(b) && a is ProcessNotFound ==> b == a,
        a.same(b) && a is NameNotFound ==> b is NameNotFound,
        a.same(b) && a is NameAlreadyRegistered ==> b is NameAlreadyRegistered,
{
}

} // verus!
