//! Errors raised by the engine's own logic.
use vstd::prelude::*;

verus! {

/// Errors the engine reports with a message of its own.
#[derive(Debug)]
pub enum EngineError {
    /// Something went wrong while initializing.
    Init(String),
    /// The engine was asked for something its current state cannot give.
    State(String),
    /// An input was rejected.
    Input(String),
}

impl EngineError {
    /// Error raised during initialization.
    pub fn init(msg: String) -> (e: Self)
        ensures
            e == EngineError::Init(msg),
    {
        EngineError::Init(msg)
    }

    /// Error about the current state.
    pub fn state(msg: String) -> (e: Self)
        ensures
            e == EngineError::State(msg),
    {
        EngineError::State(msg)
    }

    /// Error about a rejected input. It is built as the `State` variant,
    /// not `Input`.
    pub fn input(msg: String) -> (e: Self)
        ensures
            e == EngineError::State(msg),
    {
        EngineError::State(msg)
    }
}

} // verus!
