//! What a supervisor is told: its strategy, its limits and its children.
use crate::process::ExitReason;
use crate::time::Duration;
use vstd::prelude::*;
use vstd::string::*;

verus! {

/// Which children are restarted when one ends.
#[derive(Debug, Clone, Copy, PartialEq, Eq, Structural)]
pub enum RestartStrategy {
    /// Only the one that ended.
    OneForOne,
    /// All of them.
    OneForAll,
    /// The one that ended and those after it.
    RestForOne,
}

/// When a child is restarted.
#[derive(Debug, Clone, Copy, PartialEq, Eq, Structural)]
pub enum RestartType {
    /// Always.
    Permanent,
    /// When it ended other than normally.
    Transient,
    /// Never.
    Temporary,
}

impl RestartType {
    /// Whether a child that ended for the reason is to be restarted.
    pub open spec fn restarts(self, reason: ExitReason) -> bool {
        match self {
            RestartType::Permanent => true,
            RestartType::Transient => !(reason is Normal),
            RestartType::Temporary => false,
        }
    }

    /// Whether a child that ended for the reason is to be restarted.
    pub fn should_restart(&self, reason: &ExitReason) -> (r: bool)
        ensures
            r == self.restarts(*reason),
            *self is Permanent ==> r,
            *self is Transient ==> (r <==> *reason != ExitReason::Normal),
            *self is Temporary ==> !r,
    {
        match self {
            RestartType::Permanent => true,
            RestartType::Transient => !reason.is_normal(),
            RestartType::Temporary => false,
        }
    }
}

/// How a child is stopped.
#[derive(Debug, Clone, Copy, PartialEq, Eq, Structural)]
pub enum ShutdownStrategy {
    /// It is asked to end, and waited for.
    Timeout(Duration),
    /// It is ended at once.
    BrutalKill,
}

/// Why a supervisor refused a request.
#[derive(Debug)]
pub enum SupervisorError {
    NotFound(String),
    Gone,
    MaxChildren,
    StillRunning(String),
}

/// The message of a supervisor error.
pub open spec fn supervisor_error_text(e: SupervisorError) -> Seq<char> {
    match e {
        SupervisorError::NotFound(id) => "child not found: "@ + id@,
        SupervisorError::Gone => "supervisor gone"@,
        SupervisorError::MaxChildren => "max_children limit reached"@,
        SupervisorError::StillRunning(id) => "child is still running: "@ + id@,
    }
}

impl SupervisorError {
    /// The message of the error.
    pub fn to_string(&self) -> (r: String)
        ensures
            r@ == supervisor_error_text(*self),
    {
        let mut s = String::new();
        match self {
            SupervisorError::NotFound(id) => {
                s.append("child not found: ");
                s.append(id.as_str());
            },
            SupervisorError::Gone => {
                s.append("supervisor gone");
            },
            SupervisorError::MaxChildren => {
                s.append("max_children limit reached");
            },
            SupervisorError::StillRunning(id) => {
                s.append("child is still running: ");
                s.append(id.as_str());
            },
        }
        assert(s@ =~= supervisor_error_text(*self));
        s
    }
}

/// The description of a supervisor.
pub struct SupervisorSpec {
    pub strategy: RestartStrategy,
    pub max_restarts: u32,
    pub max_seconds: u32,
    pub children: Vec<ChildSpec>,
}

impl SupervisorSpec {
    /// A supervisor without children that allows three restarts in five seconds.
    pub fn new(strategy: RestartStrategy) -> (r: Self)
        ensures
            r.strategy == strategy,
            r.max_restarts == 3,
            r.max_seconds == 5,
            r.children@ == Seq::<ChildSpec>::empty(),
    {
        Self { strategy, max_restarts: 3, max_seconds: 5, children: Vec::new() }
    }

    /// Allows `n` restarts within the window.
    pub fn max_restarts(self, n: u32) -> (r: Self)
        ensures
            r.strategy == self.strategy,
            r.max_restarts == n,
            r.max_seconds == self.max_seconds,
            r.children == self.children,
    {
        Self {
            strategy: self.strategy,
            max_restarts: n,
            max_seconds: self.max_seconds,
            children: self.children,
        }
    }

    /// Makes the window `n` seconds long.
    pub fn max_seconds(self, n: u32) -> (r: Self)
        ensures
            r.strategy == self.strategy,
            r.max_restarts == self.max_restarts,
            r.max_seconds == n,
            r.children == self.children,
    {
        Self {
            strategy: self.strategy,
            max_restarts: self.max_restarts,
            max_seconds: n,
            children: self.children,
        }
    }

    /// Adds a child behind the others.
    pub fn child(self, spec: ChildSpec) -> (r: Self)
        ensures
            r.strategy == self.strategy,
            r.max_restarts == self.max_restarts,
            r.max_seconds == self.max_seconds,
            r.children@ == self.children@.push(spec),
    {
        let mut children = self.children;
        children.push(spec);
        Self {
            strategy: self.strategy,
            max_restarts: self.max_restarts,
            max_seconds: self.max_seconds,
            children,
        }
    }
}

/// The description of a child.
pub struct ChildSpec {
    pub id: String,
    pub restart: RestartType,
    pub shutdown: ShutdownStrategy,
}

impl ChildSpec {
    /// A permanent child that is given five seconds to end.
    pub fn new(id: &str) -> (r: Self)
        ensures
            r.id@ == id@,
            r.restart == RestartType::Permanent,
            r.shutdown is Timeout,
            r.shutdown->Timeout_0@ == 5_000_000_000,
    {
        Self {
            id: id.to_string(),
            restart: RestartType::Permanent,
            shutdown: ShutdownStrategy::Timeout(Duration::from_secs(5)),
        }
    }

    /// Sets when the child is restarted.
    pub fn restart(self, restart: RestartType) -> (r: Self)
        ensures
            r.id == self.id,
            r.restart == restart,
            r.shutdown == self.shutdown,
    {
        Self { id: self.id, restart, shutdown: self.shutdown }
    }

    /// Sets how the child is stopped.
    pub fn shutdown(self, strategy: ShutdownStrategy) -> (r: Self)
        ensures
            r.id == self.id,
            r.restart == self.restart,
            r.shutdown == strategy,
    {
        Self { id: self.id, restart: self.restart, shutdown: strategy }
    }
}

impl Clone for ChildSpec {
    fn clone(&self) -> (r: Self)
        ensures
            r == *self,
    {
        Self { id: self.id.clone(), restart: self.restart, shutdown: self.shutdown }
    }
}

} // verus!
