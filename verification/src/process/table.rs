//! The processes of a thread, and the names they are known by.
use crate::assoc::{entry_in_map, Assoc, AssocKey};
use crate::process::mailbox::MailboxTx;
use crate::process::{Message, ProcessId, RegistryError, SendError};
use std::sync::Arc;
use vstd::prelude::*;
use vstd::rwlock::{ReadHandle, RwLock, RwLockPredicate, WriteHandle};

verus! {

/// The names that processes have across threads, each with the thread of the process.
pub struct GlobalNames {
    names: Assoc<String, (u16, ProcessId)>,
}

/// Whether registering a name leads from one state of the names to another, with the result: a
/// name that is taken is refused.
pub open spec fn registers(
    before: Map<Seq<char>, (u16, ProcessId)>,
    name: String,
    thread_id: u16,
    pid: ProcessId,
    after: Map<Seq<char>, (u16, ProcessId)>,
    r: Result<(), RegistryError>,
) -> bool {
    if before.dom().contains(name@) {
        &&& r == Err::<(), RegistryError>(RegistryError::NameAlreadyRegistered(name))
        &&& after == before
    } else {
        &&& r == Ok::<(), RegistryError>(())
        &&& after == before.insert(name@, (thread_id, pid))
    }
}

/// Whether removing a name leads from one state of the names to another, with the result.
pub open spec fn unregisters(
    before: Map<Seq<char>, (u16, ProcessId)>,
    name: Seq<char>,
    after: Map<Seq<char>, (u16, ProcessId)>,
    r: Result<ProcessId, RegistryError>,
) -> bool {
    match r {
        Ok(pid) => before.dom().contains(name) && pid == before[name].1 && after == before.remove(
            name,
        ),
        Err(e) => !before.dom().contains(name) && after == before && e is NameNotFound
            && e->NameNotFound_0@ == name,
    }
}

impl GlobalNames {
    pub closed spec fn view(self) -> Map<Seq<char>, (u16, ProcessId)> {
        self.names@
    }

    /// Validity: no name is listed twice.
    pub closed spec fn wf(self) -> bool {
        self.names.wf()
    }

    /// The registry without names.
    pub fn new() -> (r: Self)
        ensures
            r.wf(),
            r@ == Map::<Seq<char>, (u16, ProcessId)>::empty(),
    {
        GlobalNames { names: Assoc::new() }
    }

    /// Registers a name, unless it is taken.
    pub fn register(&mut self, name: String, thread_id: u16, pid: ProcessId) -> (r: Result<
        (),
        RegistryError,
    >)
        requires
            old(self).wf(),
        ensures
            final(self).wf(),
            registers(old(self)@, name, thread_id, pid, final(self)@, r),
            r is Ok <==> !old(self)@.dom().contains(name@),
            r is Ok ==> final(self)@.dom().contains(name@) && final(self)@[name@].1 == pid,
            r is Err ==> final(self)@ == old(self)@,
    {
        if self.names.contains_key(&name) {
            return Err(RegistryError::NameAlreadyRegistered(name));
        }
        self.names.insert(name, (thread_id, pid));
        Ok(())
    }

    /// Removes a name.
    pub fn unregister(&mut self, name: &str) -> (r: Result<ProcessId, RegistryError>)
        requires
            old(self).wf(),
        ensures
            final(self).wf(),
            unregisters(old(self)@, name@, final(self)@, r),
    {
        let key = name.to_string();
        match self.names.remove(&key) {
            Some(entry) => Ok(entry.1),
            None => Err(RegistryError::NameNotFound(key)),
        }
    }

    /// The process that a name stands for.
    pub fn lookup(&self, name: &str) -> (r: Option<ProcessId>)
        requires
            self.wf(),
        ensures
            r == (if self@.dom().contains(name@) {
                Some(self@[name@].1)
            } else {
                None
            }),
    {
        let key = name.to_string();
        match self.names.get(&key) {
            Some(entry) => Some(entry.1),
            None => None,
        }
    }
}

/// What the shared registry's lock keeps: a valid registry.
pub struct NamesValid;

impl RwLockPredicate<GlobalNames> for NamesValid {
    open spec fn inv(self, v: GlobalNames) -> bool {
        v.wf()
    }
}

/// The registry of names, shared by all threads.
pub type GlobalRegistry = Arc<RwLock<GlobalNames, NamesValid>>;

/// Whether the lock was made around the names.
pub open spec fn made_around(lock: RwLock<GlobalNames, NamesValid>, names: GlobalNames) -> bool {
    call_ensures(RwLock::<GlobalNames, NamesValid>::new, (names, Ghost(NamesValid)), lock)
}

/// Whether the lock was read, and held the names.
pub open spec fn was_read(lock: RwLock<GlobalNames, NamesValid>, names: GlobalNames) -> bool {
    exists|handle: ReadHandle<GlobalNames, NamesValid>|
        handle.view() == names && #[trigger] call_ensures(
            RwLock::<GlobalNames, NamesValid>::acquire_read,
            (&lock,),
            handle,
        )
}

/// Whether the lock was taken to be written, held one state of the names, and was given back with
/// another.
pub open spec fn was_written(
    lock: RwLock<GlobalNames, NamesValid>,
    before: GlobalNames,
    after: GlobalNames,
) -> bool {
    exists|handle: WriteHandle<GlobalNames, NamesValid>|
        #![trigger call_ensures(
            RwLock::<GlobalNames, NamesValid>::acquire_write,
            (&lock,),
            (before, handle),
        )]
        call_ensures(
            RwLock::<GlobalNames, NamesValid>::acquire_write,
            (&lock,),
            (before, handle),
        ) && call_ensures(
            WriteHandle::<GlobalNames, NamesValid>::release_write,
            (handle, after),
            (),
        )
}

/// A registry without names, to be shared.
pub fn new_global_registry() -> (r: GlobalRegistry)
    ensures
        r.pred() == NamesValid,
        exists|names: GlobalNames|
            names@ == Map::<Seq<char>, (u16, ProcessId)>::empty() && #[trigger] made_around(
                *r,
                names,
            ),
{
    let names = GlobalNames::new();
    let ghost first = names;
    let lock = RwLock::new(names, Ghost(NamesValid));
    assert(made_around(lock, first));
    Arc::new(lock)
}

/// A process as the table holds it: the way into its mailbox.
pub struct ProcessHandle {
    tx: MailboxTx,
}

impl ProcessHandle {
    pub closed spec fn mailbox(self) -> MailboxTx {
        self.tx
    }

    /// The handle of the process that reads from the mailbox.
    pub fn new(tx: MailboxTx) -> (r: Self)
        ensures
            r.mailbox() == tx,
    {
        Self { tx }
    }

    /// Puts a message into the mailbox of the process.
    pub fn send(&self, msg: Message) -> (r: Result<(), SendError>)
        ensures
            self.mailbox().answers(msg, r),
    {
        self.tx.send(msg)
    }

    /// The way into the mailbox, to wait for room there.
    pub fn sender(&self) -> (r: &MailboxTx)
        ensures
            *r == self.mailbox(),
    {
        &self.tx
    }
}

/// The processes of one thread of a node.
pub struct ProcessTable {
    node_id: u64,
    thread_id: u16,
    next_id: u64,
    processes: Assoc<ProcessId, ProcessHandle>,
    names: Assoc<String, ProcessId>,
    global_registry: Option<GlobalRegistry>,
}

/// The entries of a name map whose process is another.
pub open spec fn names_without(m: Map<Seq<char>, ProcessId>, pid: ProcessId) -> Map<
    Seq<char>,
    ProcessId,
> {
    m.remove_keys(m.dom().filter(|n: Seq<char>| m[n] == pid))
}

impl ProcessTable {
    pub closed spec fn node(self) -> u64 {
        self.node_id
    }

    pub closed spec fn thread(self) -> u16 {
        self.thread_id
    }

    /// The number of the next process.
    pub closed spec fn next_local(self) -> u64 {
        self.next_id
    }

    /// The processes that are alive.
    pub closed spec fn alive(self) -> Map<ProcessId, ProcessHandle> {
        self.processes@
    }

    /// The processes that names of this thread stand for.
    pub closed spec fn named(self) -> Map<Seq<char>, ProcessId> {
        self.names@
    }

    /// The registry that the table is attached to.
    pub closed spec fn attached(self) -> Option<GlobalRegistry> {
        self.global_registry
    }

    /// Validity: nothing is listed twice, and every name stands for a process that is alive.
    pub closed spec fn wf(self) -> bool {
        &&& self.processes.wf()
        &&& self.names.wf()
        &&& forall|n: Seq<char>| #[trigger]
            self.names@.dom().contains(n) ==> self.processes@.dom().contains(self.names@[n])
        &&& self.global_registry matches Some(g) ==> g.pred() == NamesValid
    }

    /// All that a change of the processes or the names leaves alone.
    pub open spec fn same_identity(self, other: ProcessTable) -> bool {
        self.node() == other.node() && self.thread() == other.thread() && self.attached()
            == other.attached()
    }

    /// Whether `r` is what came of sending the message to a process: a process that is not here is
    /// dead, and the message goes into the mailbox of another.
    pub open spec fn answers(self, to: ProcessId, msg: Message, r: Result<(), SendError>) -> bool {
        if self.alive().dom().contains(to) {
            self.alive()[to].mailbox().answers(msg, r)
        } else {
            r == Err::<(), SendError>(SendError::ProcessDead(to))
        }
    }

    /// The empty table of a thread of a node.
    pub fn new(node_id: u64, thread_id: u16) -> (r: Self)
        ensures
            r.wf(),
            r.node() == node_id,
            r.thread() == thread_id,
            r.next_local() == 1,
            r.alive() == Map::<ProcessId, ProcessHandle>::empty(),
            r.named() == Map::<Seq<char>, ProcessId>::empty(),
            r.attached() is None,
    {
        Self {
            node_id,
            thread_id,
            next_id: 1,
            processes: Assoc::new(),
            names: Assoc::new(),
            global_registry: None,
        }
    }

    /// Attaches a registry of names that is shared across threads.
    pub fn with_global_registry(self, registry: GlobalRegistry) -> (r: Self)
        requires
            self.wf(),
            registry.pred() == NamesValid,
        ensures
            r.wf(),
            r.attached() == Some(registry),
            r.node() == self.node(),
            r.thread() == self.thread(),
            r.next_local() == self.next_local(),
            r.alive() == self.alive(),
            r.named() == self.named(),
    {
        ProcessTable {
            node_id: self.node_id,
            thread_id: self.thread_id,
            next_id: self.next_id,
            processes: self.processes,
            names: self.names,
            global_registry: Some(registry),
        }
    }

    /// Draws the identity of a new process. The numbers start at 1 and go up by one.
    pub fn allocate_pid(&mut self) -> (r: ProcessId)
        requires
            old(self).wf(),
            old(self).next_local() < u64::MAX,
        ensures
            final(self).wf(),
            r == ProcessId::of(old(self).node(), old(self).thread(), old(self).next_local()),
            final(self).next_local() == old(self).next_local() + 1,
            final(self).same_identity(*old(self)),
            final(self).alive() == old(self).alive(),
            final(self).named() == old(self).named(),
    {
        let local_id: u64 = self.next_id;
        self.next_id = local_id + 1;
        ProcessId::new(self.node_id, self.thread_id, local_id)
    }

    /// Puts a process into the table, in place of one with the same identity.
    pub fn insert(&mut self, pid: ProcessId, handle: ProcessHandle)
        requires
            old(self).wf(),
        ensures
            final(self).wf(),
            final(self).alive() == old(self).alive().insert(pid, handle),
            final(self).named() == old(self).named(),
            final(self).next_local() == old(self).next_local(),
            final(self).same_identity(*old(self)),
    {
        self.processes.insert(pid, handle);
    }

    /// Whether the table holds the process.
    pub fn get_exists(&self, pid: &ProcessId) -> (r: bool)
        requires
            self.wf(),
        ensures
            r == self.alive().dom().contains(*pid),
    {
        self.processes.contains_key(pid)
    }

    /// Takes the names of a process away.
    fn drop_names(&mut self, pid: &ProcessId)
        requires
            old(self).wf(),
        ensures
            final(self).wf(),
            final(self).named() == names_without(old(self).named(), *pid),
            final(self).alive() == old(self).alive(),
            final(self).next_local() == old(self).next_local(),
            final(self).same_identity(*old(self)),
    {
        let ghost before = *self;
        let ghost gone = before.named().dom().filter(|n: Seq<char>| before.named()[n] == *pid);
        let mut i: usize = 0;
        let mut n: usize = self.names.len();
        while i < n
            invariant
                self.wf(),
                i <= n,
                n == self.names.items().len(),
                self.processes == before.processes,
                self.next_id == before.next_id,
                self.same_identity(before),
                gone == before.named().dom().filter(|n: Seq<char>| before.named()[n] == *pid),
                self.named().submap_of(before.named()),
                forall|x: Seq<char>| #[trigger]
                    before.named().dom().contains(x) && before.named()[x] != *pid
                        ==> self.named().dom().contains(x),
                forall|j: int| 0 <= j < i ==> (#[trigger] self.names.items()[j]).1 != *pid,
            decreases n - i,
        {
            let (_, owner) = self.names.entry(i);
            if *owner == *pid {
                let ghost prev = *self;
                let removed = self.names.remove_at(i);
                n = n - 1;
                proof {
                    assert forall|x: Seq<char>| #[trigger]
                        before.named().dom().contains(x) && before.named()[x]
                            != *pid implies self.named().dom().contains(x) by {
                        assert(prev.named().dom().contains(x));
                        assert(prev.named()[x] == before.named()[x]);
                    }
                    assert forall|j: int| 0 <= j < i implies (
                    #[trigger] self.names.items()[j]).1 != *pid by {
                        assert(self.names.items()[j] == prev.names.items()[j]);
                    }
                }
            } else {
                i = i + 1;
            }
        }
        proof {
            let items = self.names.items();
            assert forall|x: Seq<char>| #[trigger] self.named().dom().contains(x) implies self.named()[x]
                != *pid by {
                let j = choose|j: int| 0 <= j < items.len() && (#[trigger] items[j]).0.key() == x;
                entry_in_map(items, j);
            }
            assert(self.named() =~= names_without(before.named(), *pid));
        }
    }

    /// Takes a process out of the table, with its names.
    pub fn remove(&mut self, pid: &ProcessId) -> (r: Option<ProcessHandle>)
        requires
            old(self).wf(),
        ensures
            final(self).wf(),
            final(self).alive() == old(self).alive().remove(*pid),
            final(self).named() == names_without(old(self).named(), *pid),
            final(self).next_local() == old(self).next_local(),
            final(self).same_identity(*old(self)),
            r == (if old(self).alive().dom().contains(*pid) {
                Some(old(self).alive()[*pid])
            } else {
                None
            }),
    {
        self.drop_names(pid);
        self.processes.remove(pid)
    }

    /// Sends a message to a process. A process that is not in the table is dead.
    pub fn send(&self, pid: ProcessId, msg: Message) -> (r: Result<(), SendError>)
        requires
            self.wf(),
        ensures
            self.answers(pid, msg, r),
            !self.alive().dom().contains(pid) ==> r == Err::<(), SendError>(
                SendError::ProcessDead(pid),
            ),
            self.alive().dom().contains(pid) ==> self.alive()[pid].mailbox().answers(msg, r),
    {
        match self.processes.get(&pid) {
            Some(handle) => handle.send(msg),
            None => Err(SendError::ProcessDead(pid)),
        }
    }

    /// Whether the process is alive.
    pub fn is_alive(&self, pid: &ProcessId) -> (r: bool)
        requires
            self.wf(),
        ensures
            r == self.alive().dom().contains(*pid),
    {
        self.processes.contains_key(pid)
    }

    /// Takes a process out of the table, with its names, and says whether it was there.
    pub fn kill(&mut self, pid: &ProcessId) -> (r: bool)
        requires
            old(self).wf(),
        ensures
            final(self).wf(),
            final(self).alive() == old(self).alive().remove(*pid),
            final(self).named() == names_without(old(self).named(), *pid),
            final(self).next_local() == old(self).next_local(),
            final(self).same_identity(*old(self)),
            r == old(self).alive().dom().contains(*pid),
    {
        match self.remove(pid) {
            Some(_) => true,
            None => false,
        }
    }

    /// The processes that are alive, each once.
    pub fn list_pids(&self) -> (r: Vec<ProcessId>)
        requires
            self.wf(),
        ensures
            r@.no_duplicates(),
            r@.to_set() == self.alive().dom(),
    {
        let mut out: Vec<ProcessId> = Vec::new();
        let n: usize = self.processes.len();
        let mut i: usize = 0;
        while i < n
            invariant
                self.wf(),
                n == self.processes.items().len(),
                i <= n,
                out@.len() == i,
                forall|j: int| 0 <= j < i ==> #[trigger] out@[j] == self.processes.items()[j].0,
            decreases n - i,
        {
            let (pid, _) = self.processes.entry(i);
            out.push(*pid);
            i = i + 1;
        }
        proof {
            let items = self.processes.items();
            assert forall|a: int, b: int|
                0 <= a < out@.len() && 0 <= b < out@.len() && a != b implies out@[a] != out@[b] by {
                assert(items[a].0.key() != items[b].0.key());
            }
            assert forall|p: ProcessId|
                out@.to_set().contains(p) <==> self.alive().dom().contains(p) by {
                if out@.contains(p) {
                    let a = choose|a: int| 0 <= a < out@.len() && out@[a] == p;
                    assert(items[a].0.key() == p);
                }
                if self.alive().dom().contains(p) {
                    let a = choose|a: int|
                        0 <= a < items.len() && (#[trigger] items[a]).0.key() == p;
                    assert(out@[a] == p);
                }
            }
            assert(out@.to_set() =~= self.alive().dom());
        }
        out
    }

    /// Gives a process a name of this thread. The process must be alive and the name free.
    pub fn register_name(&mut self, name: String, pid: ProcessId) -> (r: Result<
        (),
        RegistryError,
    >)
        requires
            old(self).wf(),
        ensures
            final(self).wf(),
            final(self).alive() == old(self).alive(),
            final(self).next_local() == old(self).next_local(),
            final(self).same_identity(*old(self)),
            if !old(self).alive().dom().contains(pid) {
                &&& r == Err::<(), RegistryError>(RegistryError::ProcessNotFound(pid))
                &&& final(self).named() == old(self).named()
            } else if old(self).named().dom().contains(name@) {
                &&& r == Err::<(), RegistryError>(RegistryError::NameAlreadyRegistered(name))
                &&& final(self).named() == old(self).named()
            } else {
                &&& r == Ok::<(), RegistryError>(())
                &&& final(self).named() == old(self).named().insert(name@, pid)
            },
    {
        if !self.processes.contains_key(&pid) {
            return Err(RegistryError::ProcessNotFound(pid));
        }
        if self.names.contains_key(&name) {
            return Err(RegistryError::NameAlreadyRegistered(name));
        }
        self.names.insert(name, pid);
        Ok(())
    }

    /// Takes a name away, and says whose it was.
    pub fn unregister_name(&mut self, name: &str) -> (r: Result<ProcessId, RegistryError>)
        requires
            old(self).wf(),
        ensures
            final(self).wf(),
            final(self).alive() == old(self).alive(),
            final(self).next_local() == old(self).next_local(),
            final(self).same_identity(*old(self)),
            match r {
                Ok(pid) => old(self).named().dom().contains(name@) && pid
                    == old(self).named()[name@] && final(self).named()
                    == old(self).named().remove(name@),
                Err(e) => !old(self).named().dom().contains(name@) && final(self).named()
                    == old(self).named() && e is NameNotFound && e->NameNotFound_0@ == name@,
            },
    {
        let key = name.to_string();
        match self.names.remove(&key) {
            Some(pid) => Ok(pid),
            None => Err(RegistryError::NameNotFound(key)),
        }
    }

    /// The process that a name stands for: by the names of this thread, else by the shared
    /// registry where one is attached.
    pub fn whereis(&self, name: &str) -> (r: Option<ProcessId>)
        requires
            self.wf(),
        ensures
            self.named().dom().contains(name@) ==> r == Some(self.named()[name@]),
            !self.named().dom().contains(name@) && self.attached() is None ==> r is None,
            !self.named().dom().contains(name@) && self.attached() is Some ==> exists|
                g: GlobalNames,
            |
                #[trigger] was_read(*self.attached()->0, g) && r == (if g@.dom().contains(name@) {
                    Some(g@[name@].1)
                } else {
                    None
                }),
    {
        let key = name.to_string();
        match self.names.get(&key) {
            Some(pid) => Some(*pid),
            None => match &self.global_registry {
                Some(global) => {
                    let handle = global.acquire_read();
                    let names = handle.borrow();
                    let r = names.lookup(name);
                    assert(was_read(**global, *names));
                    handle.release_read();
                    r
                },
                None => None,
            },
        }
    }

    /// Gives a process a name in the shared registry. Without a registry, or with the name
    /// taken there, it is refused.
    pub fn register_global(&self, name: String, pid: ProcessId) -> (r: Result<(), RegistryError>)
        requires
            self.wf(),
        ensures
            match self.attached() {
                Some(global) => exists|before: GlobalNames, after: GlobalNames| #[trigger]
                    was_written(*global, before, after) && registers(
                        before@,
                        name,
                        self.thread(),
                        pid,
                        after@,
                        r,
                    ),
                None => r matches Err(e) && e is NameNotFound && e->NameNotFound_0@
                    == "no global registry"@,
            },
    {
        match &self.global_registry {
            Some(global) => {
                let (mut names, handle) = global.acquire_write();
                let ghost before = names;
                let r = names.register(name, self.thread_id, pid);
                let ghost after = names;
                handle.release_write(names);
                assert(was_written(**global, before, after));
                r
            },
            None => Err(RegistryError::NameNotFound("no global registry".to_string())),
        }
    }

    /// Takes a name out of the shared registry.
    pub fn unregister_global(&self, name: &str) -> (r: Result<ProcessId, RegistryError>)
        requires
            self.wf(),
        ensures
            match self.attached() {
                Some(global) => exists|before: GlobalNames, after: GlobalNames| #[trigger]
                    was_written(*global, before, after) && unregisters(before@, name@, after@, r),
                None => r matches Err(e) && e is NameNotFound && e->NameNotFound_0@
                    == "no global registry"@,
            },
    {
        match &self.global_registry {
            Some(global) => {
                let (mut names, handle) = global.acquire_write();
                let ghost before = names;
                let r = names.unregister(name);
                let ghost after = names;
                handle.release_write(names);
                assert(was_written(**global, before, after));
                r
            },
            None => Err(RegistryError::NameNotFound("no global registry".to_string())),
        }
    }

    /// The number of processes that are alive.
    pub fn len(&self) -> (r: usize)
        requires
            self.wf(),
        ensures
            r == self.alive().dom().len(),
    {
        self.processes.len()
    }

    /// Whether no process is alive.
    pub fn is_empty(&self) -> (r: bool)
        requires
            self.wf(),
        ensures
            r == (self.alive() == Map::<ProcessId, ProcessHandle>::empty()),
    {
        let n: usize = self.processes.len();
        proof {
            if n == 0 {
                assert(self.processes.items() =~= Seq::empty());
                assert(self.alive() =~= Map::<ProcessId, ProcessHandle>::empty());
            } else {
                entry_in_map(self.processes.items(), 0);
            }
        }
        n == 0
    }
}

/// Identities are unique: a table never draws the same one twice, since the number of each is
/// smaller than that of the next.
pub proof fn pids_are_unique(node: u64, thread: u16, first: u64, second: u64)
    requires
        first < second,
    ensures
        ProcessId::of(node, thread, first) != ProcessId::of(node, thread, second),
        ProcessId::of(node, thread, first).local() < ProcessId::of(node, thread, second).local(),
{
    broadcast use crate::process::types::pid_of_parts;

}

/// A valid table knows no name of a dead process.
pub proof fn names_are_of_the_living(t: ProcessTable, name: Seq<char>)
    requires
        t.wf(),
        t.named().dom().contains(name),
    ensures
        t.alive().dom().contains(t.named()[name]),
{
}

/// A process that left the table has no name left.
pub proof fn removal_clears_names(m: Map<Seq<char>, ProcessId>, pid: ProcessId, name: Seq<char>)
    ensures
        names_without(m, pid).dom().contains(name) <==> (m.dom().contains(name) && m[name] != pid),
        names_without(m, pid).dom().contains(name) ==> names_without(m, pid)[name] == m[name],
{
}

/// A message to a process that is not in the table is refused, and names the process; one to a
/// process that is goes into that process's mailbox, and into no other.
pub proof fn messages_go_to_their_process(
    t: ProcessTable,
    to: ProcessId,
    msg: Message,
    r: Result<(), SendError>,
)
    requires
        t.answers(to, msg, r),
    ensures
        !t.alive().dom().contains(to) ==> r == Err::<(), SendError>(SendError::ProcessDead(to)),
        t.alive().dom().contains(to) ==> t.alive()[to].mailbox().answers(msg, r),
{
}

/// A name across threads is its owner's until it is removed: the first registration holds, a
/// second is refused, no other name is touched, and removing the name gives the owner and leaves
/// the names as they were before.
pub proof fn shared_names_have_one_owner(
    before: Map<Seq<char>, (u16, ProcessId)>,
    name: String,
    thread: u16,
    pid: ProcessId,
    held: Map<Seq<char>, (u16, ProcessId)>,
    first: Result<(), RegistryError>,
    other_thread: u16,
    other: ProcessId,
    after: Map<Seq<char>, (u16, ProcessId)>,
    second: Result<(), RegistryError>,
    freed: Map<Seq<char>, (u16, ProcessId)>,
    removal: Result<ProcessId, RegistryError>,
)
    requires
        !before.dom().contains(name@),
        registers(before, name, thread, pid, held, first),
        registers(held, name, other_thread, other, after, second),
        unregisters(after, name@, freed, removal),
    ensures
        first is Ok,
        held.dom().contains(name@),
        held[name@] == (thread, pid),
        forall|n: Seq<char>|
            n != name@ ==> {
                &&& #[trigger] held.dom().contains(n) <==> before.dom().contains(n)
                &&& held.dom().contains(n) ==> held[n] == before[n]
            },
        second is Err,
        second->Err_0 == RegistryError::NameAlreadyRegistered(name),
        after == held,
        removal == Ok::<ProcessId, RegistryError>(pid),
        freed == before,
{
    assert(freed =~= before);
}

/// A name across threads that nobody has cannot be removed.
pub proof fn free_shared_names_are_not_found(
    before: Map<Seq<char>, (u16, ProcessId)>,
    name: Seq<char>,
    after: Map<Seq<char>, (u16, ProcessId)>,
    r: Result<ProcessId, RegistryError>,
)
    requires
        unregisters(before, name, after, r),
        !before.dom().contains(name),
    ensures
        r is Err,
        r->Err_0 is NameNotFound,
        r->Err_0->NameNotFound_0@ == name,
        after == before,
{
}

} // verus!
