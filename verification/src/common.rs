//! Marker types for the integration points of the surrounding federation
//! host: module registration, config generation, and the client-side state
//! machine. They carry no data of their own; the host wires them to its
//! transport, and everything they decide is delegated to the verified
//! functions of this crate.

use vstd::prelude::*;

verus! {

/// The family of input, output, outcome and consensus-item types this
/// module contributes to a federation transaction.
#[derive(Clone, Copy, Debug, PartialEq, Eq, Structural, Hash)]
pub struct StabilityPoolModuleTypes;

/// The same family under the name used by the split server crates.
#[derive(Clone, Copy, Debug, PartialEq, Eq, Structural, Hash)]
pub struct PoolModuleTypes;

/// Marker for the shared module generator.
#[derive(Clone, Copy, Debug, PartialEq, Eq, Structural, Hash)]
pub struct PoolCommonGen;

/// Marker for the server-side configuration generator.
#[derive(Clone, Copy, Debug, PartialEq, Eq, Structural, Hash)]
pub struct PoolConfigGenerator;

/// Marker for the client-side module generator.
#[derive(Clone, Copy, Debug, PartialEq, Eq, Structural, Hash)]
pub struct PoolClientGen;

/// The client-side state machine; no transaction tracking is needed yet.
#[derive(Clone, Copy, Debug, PartialEq, Eq, Structural, Hash)]
pub struct PoolClientStates;

/// The module-level state machine; no transaction tracking is needed yet.
#[derive(Clone, Copy, Debug, PartialEq, Eq, Structural, Hash)]
pub struct PoolStateMachine;

/// The context the client-side state machine runs in.
#[derive(Clone, Copy, Debug, PartialEq, Eq, Structural, Hash)]
pub struct PoolClientContext;

} // verus!
