//! The closed error taxonomy of the adapter.
use crate::msg::Height;
use vstd::prelude::*;

verus! {

/// Why a stored hosted state could not be read back.
#[derive(Clone, Copy, Debug, PartialEq, Eq, Structural)]
pub enum WasmLightClientSpecificError {
    /// The stored client state is not an `Any`.
    NotAnyWasmClientState,
    /// The stored `Any` is tagged as something other than a hosted client state.
    WrongClientStateType,
    /// The hosted client state's payload does not decode.
    NotWasmClientState,
    /// The inner client state is not an `Any`.
    NotAnyClientState,
    NotAnyWasmConsensusState(Height),
    WrongConsensusStateType(Height),
    NotWasmConsensusState(Height),
    NotAnyConsensusState(Height),
}

/// Failures of the verification engine and of the state it reads.
#[derive(Clone, Debug, PartialEq, Eq)]
pub enum LightError {
    ClientStateNotFound,
    ConsensusStateNotFound(Height),
    Wasm(WasmLightClientSpecificError),
    /// A failure reported by the engine itself, with its message.
    Engine(String),
}

/// What an invocation fails with.
#[derive(Clone, Debug, PartialEq, Eq)]
pub enum ContractError {
    /// A command payload is not a well-formed `Any`.
    Decode,
    /// The path of a merkle path is not UTF-8.
    FromUtf8,
    Light(LightError),
    /// A deliberately rejected operation, with its name.
    Unsupported(String),
    /// A broken invariant of the adapter.
    Generic(String),
}

impl ContractError {
    pub fn generic(msg: &str) -> (r: ContractError)
        ensures
            r matches ContractError::Generic(m) && m@ == msg@,
    {
        ContractError::Generic(msg.to_owned())
    }

    pub fn unsupported(msg: &str) -> (r: ContractError)
        ensures
            r matches ContractError::Unsupported(m) && m@ == msg@,
    {
        ContractError::Unsupported(msg.to_owned())
    }
}

} // verus!
