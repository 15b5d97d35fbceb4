//! The chain orchestrator: the state machine that drives the chain forward
//! by reacting to events from a handler. Only its synchronous interface
//! lives here; the surrounding event loop belongs to the embedding
//! application.

use vstd::prelude::*;

verus! {

/// Event emitted by the orchestrator.
#[derive(Debug, Clone)]
pub enum ChainEvent {
    /// Synced a new head, identified by its hash.
    Synced(u64),
}

/// Events and requests a handler can emit to the orchestrator.
#[derive(Debug, Clone)]
pub enum HandlerEvent {
    /// Ask the orchestrator to drive the pipeline.
    Pipeline(PipelineAction),
    /// Acknowledges paused write access to the database.
    WriteAccessPaused,
    /// Operating in write-access mode.
    WriteAccess,
}

/// Pipeline requests a handler can make.
#[derive(Debug, Clone)]
pub enum PipelineAction {
    /// Start pipeline sync.
    SyncPipeline,
    /// Unwind via the pipeline.
    UnwindPipeline,
}

/// Internal events issued by the orchestrator.
#[derive(Debug, Clone)]
pub enum FromOrchestrator {
    /// Request to temporarily freeze write access to the database.
    PausedWriteHookAccess,
    /// Orchestrator no longer requires exclusive write access to the
    /// database.
    ReleaseWriteHookAccess,
    /// Invoked when pipeline sync finished.
    OnPipelineOutcome,
}

/// A trait that advances the chain by handling actions; implemented by the
/// consensus logic that embeds the orchestrator.
pub trait ChainHandler {
    /// Informs the handler about an event from the orchestrator.
    fn on_event(&mut self, event: FromOrchestrator);

    /// The next action the orchestrator should handle, if one is ready.
    fn poll(&mut self) -> Option<HandlerEvent>;
}

/// Represents the state of the chain.
#[derive(Debug, Clone, Copy, PartialEq, Eq, Structural)]
pub enum OrchestratorState {
    /// Orchestrator has exclusive write access to the database.
    WriteAccess,
    /// Node is actively processing the chain.
    Idle,
}

impl Default for OrchestratorState {
    fn default() -> (r: Self)
        ensures
            r is Idle,
    {
        Self::Idle
    }
}

impl OrchestratorState {
    /// Returns `true` if the orchestrator holds exclusive write access.
    pub fn is_write_access(&self) -> (r: bool)
        ensures
            r == (self is WriteAccess),
    {
        matches!(self, Self::WriteAccess)
    }

    /// Returns `true` if the node is actively processing the chain.
    pub fn is_idle(&self) -> (r: bool)
        ensures
            r == (self is Idle),
    {
        matches!(self, Self::Idle)
    }
}

/// The type that drives the chain forward: a state machine orchestrating
/// the components responsible for advancing the chain.
pub struct ChainOrchestrator<T> where T: ChainHandler {
    /// The handler for advancing the chain.
    handler: T,
    /// Controls pipeline sync.
    pipeline: (),
    /// Additional hooks (e.g. pruning) that can require exclusive access to
    /// the database.
    hooks: (),
}

impl<T> ChainOrchestrator<T> where T: ChainHandler {
    /// The handler the orchestrator drives, for use in contracts.
    pub closed spec fn handler_spec(&self) -> T {
        self.handler
    }

    /// Builds an orchestrator around the given handler.
    pub fn new(handler: T) -> (r: Self)
        ensures
            r.handler_spec() == handler,
    {
        ChainOrchestrator { handler, pipeline: (), hooks: () }
    }

    /// Returns the handler.
    pub fn handler(&self) -> (r: &T)
        ensures
            *r == self.handler_spec(),
    {
        &self.handler
    }

    /// Returns a mutable reference to the handler.
    pub fn handler_mut(&mut self) -> (r: &mut T)
        ensures
            *r == old(self).handler_spec(),
            final(self).handler_spec() == *final(r),
    {
        &mut self.handler
    }
}

} // verus!
