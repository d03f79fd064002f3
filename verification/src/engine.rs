//! The life of the image engine. The engine behind the image codec is
//! started once and stopped once per process, however many image grids are
//! made and however often start or stop is asked for. This value keeps count;
//! its owner starts and stops the engine when told to.

use vstd::prelude::*;

verus! {

/// Where the image engine stands.
#[derive(Clone, Copy, Debug, PartialEq, Eq, Structural)]
pub enum EngineState {
    /// Never started.
    Fresh,
    /// Started and not yet stopped.
    Running,
    /// Stopped, for good.
    Stopped,
}

/// The state after an init was asked for: a fresh engine runs, any other
/// stays as it is.
pub open spec fn after_init(state: EngineState) -> EngineState {
    if state is Fresh {
        EngineState::Running
    } else {
        state
    }
}

/// The state after a teardown was asked for: a running engine is stopped,
/// any other stays as it is.
pub open spec fn after_teardown(state: EngineState) -> EngineState {
    if state is Running {
        EngineState::Stopped
    } else {
        state
    }
}

/// The record of the one image engine of a process.
#[derive(Debug)]
pub struct ImageEngine {
    state: EngineState,
}

impl View for ImageEngine {
    type V = EngineState;

    closed spec fn view(&self) -> EngineState {
        self.state
    }
}

impl ImageEngine {
    /// Makes the record of an engine that was never started.
    pub fn new() -> (engine: ImageEngine)
        ensures
            engine@ == EngineState::Fresh,
    {
        ImageEngine { state: EngineState::Fresh }
    }

    /// Returns where the engine stands.
    pub fn state(&self) -> (state: EngineState)
        ensures
            state == self@,
    {
        self.state
    }

    /// Asks for the engine to be up. Returns whether the caller has to start
    /// it now, which is so for the first call on a fresh engine and never
    /// again.
    pub fn init(&mut self) -> (start: bool)
        ensures
            start == (old(self)@ is Fresh),
            final(self)@ == after_init(old(self)@),
    {
        match self.state {
            EngineState::Fresh => {
                self.state = EngineState::Running;
                true
            },
            _ => false,
        }
    }

    /// Asks for the engine to be down. Returns whether the caller has to stop
    /// it now, which is so for the first call on a running engine and never
    /// again.
    pub fn teardown(&mut self) -> (stop: bool)
        ensures
            stop == (old(self)@ is Running),
            final(self)@ == after_teardown(old(self)@),
    {
        match self.state {
            EngineState::Running => {
                self.state = EngineState::Stopped;
                true
            },
            _ => false,
        }
    }
}

/// Init is idempotent: a second init changes nothing and starts nothing.
pub proof fn lemma_init_twice(state: EngineState)
    ensures
        after_init(after_init(state)) == after_init(state),
        !(after_init(state) is Fresh),
{
}

/// Teardown is idempotent: a second teardown changes nothing and stops
/// nothing.
pub proof fn lemma_teardown_twice(state: EngineState)
    ensures
        after_teardown(after_teardown(state)) == after_teardown(state),
        !(after_teardown(state) is Running),
{
}

/// Over any number of inits and teardowns, in any order, the engine is
/// started at most once and stopped at most once: once it has left a state
/// it does not come back to it.
pub proof fn lemma_engine_moves_forward(state: EngineState)
    ensures
        after_init(state) is Fresh ==> false,
        state is Running ==> after_init(state) is Running,
        state is Stopped ==> after_init(state) is Stopped && after_teardown(state) is Stopped,
        state is Fresh ==> after_teardown(state) is Fresh,
{
}

} // verus!
