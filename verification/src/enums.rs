//! Status enums of the order and proposal state machines, and the error
//! taxonomy of the engine.

use vstd::prelude::*;

verus! {

/// Lifecycle of an order: `PENDING -> STAGGED -> SHIPPING -> DELIVERED`,
/// with `CANCELLED` reachable from any non-terminal state.  Only the
/// `PENDING -> STAGGED` step is taken by this engine; the later steps are
/// owned by outside collaborators.
#[allow(non_camel_case_types)]
#[derive(Clone, Copy, Debug, PartialEq, Eq, Structural)]
pub enum OrderStatus {
    PENDING,
    STAGGED,
    SHIPPING,
    DELIVERED,
    CANCELLED,
}

/// Vehicle classes a courier may register with.
#[allow(non_camel_case_types)]
#[derive(Clone, Copy, Debug, PartialEq, Eq, Structural)]
pub enum Vehicle {
    MOTORCYCLE,
    TUKTUK,
    CAR,
    PICKUP,
    LORRY,
}

/// Lifecycle of a courier's bid: `PENDING -> PROPOSED -> APPROVED`,
/// monotonic, with no path back.
#[allow(non_camel_case_types)]
#[derive(Clone, Copy, Debug, PartialEq, Eq, Structural)]
pub enum ProposalStatus {
    PENDING,
    PROPOSED,
    APPROVED,
}

/// Why an operation was rejected.  Every rejection leaves the state
/// untouched: the engine commits a mutation in full or not at all.
#[derive(Clone, Copy, Debug, PartialEq, Eq, Structural)]
pub enum InternalError {
    /// A lock was requested for a zero amount, or an amount that the
    /// ledger could not represent.
    InvalidAmount,
    /// The amount paid is below what the operation requires.
    InsufficientFunds,
    /// An order already exists under the derived identifier.
    OrderExists,
    /// No record collection exists for the given account.
    NotFound,
    /// A record collection exists, but not the requested entry.
    InvalidOrder,
    /// An instruction payload failed to parse.
    MalformedPayload,
    /// A courier registration named an unknown vehicle class.
    InvalidVehicle,
    /// The named company is not in the directory.
    CompanyNotFound,
}

} // verus!
