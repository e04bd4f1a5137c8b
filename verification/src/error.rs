//! The closed catalogue of host-side failures and the sentinel codes by which
//! guest code observes them.
//!
//! Inside the host a failure is a value of [`RuntimeError`]. At the boundary
//! it becomes a signed 32-bit sentinel. Guest code is compiled against the
//! numeric values, so the mapping is fixed, injective, and never yields the
//! success status `0`.

use vstd::prelude::*;

verus! {

/// Status returned by a host function that completed its work.
pub const STATUS_OK: i32 = 0;

/// Every failure a host function can report.
#[derive(Clone, Copy, Debug, PartialEq, Eq, Structural)]
pub enum RuntimeError {
    /// No linear memory is attached to the frame, or the requested region
    /// does not lie inside it.
    MemoryNotFound,
    /// A region that must hold text is not valid UTF-8.
    Utf8Error,
    /// Text that must be base58 cannot be decoded.
    Base58Error,
    /// A callee returned something other than exactly one 32-bit integer.
    InvalidResult,
    /// The bytecode of a contract could not be instantiated or run.
    InvalidBytecode,
    /// The registry does not know the contract identifier.
    ContractNotFound,
    /// The settlement layer refused the payments attached to a call.
    SettlementFailed,
    /// The fuel budget of the invocation chain is spent.
    FuelExhausted,
    /// A call would make the stack deeper than its configured maximum.
    CallDepthExceeded,
}

impl RuntimeError {
    /// The sentinel that stands for this failure at the guest boundary.
    pub open spec fn code(self) -> i32 {
        match self {
            RuntimeError::MemoryNotFound => -1i32,
            RuntimeError::Utf8Error => -2i32,
            RuntimeError::Base58Error => -3i32,
            RuntimeError::InvalidResult => -4i32,
            RuntimeError::InvalidBytecode => -5i32,
            RuntimeError::ContractNotFound => -6i32,
            RuntimeError::SettlementFailed => -7i32,
            RuntimeError::FuelExhausted => -8i32,
            RuntimeError::CallDepthExceeded => -9i32,
        }
    }

    /// Whether this failure is a resource fault. A resource fault ends the
    /// whole chain of active calls; any other failure is reported to the
    /// innermost caller only.
    pub open spec fn is_resource(self) -> bool {
        self == RuntimeError::FuelExhausted || self == RuntimeError::CallDepthExceeded
    }

    /// Converts the failure to its sentinel.
    pub fn as_i32(&self) -> (code: i32)
        ensures
            code == self.code(),
    {
        match self {
            RuntimeError::MemoryNotFound => -1,
            RuntimeError::Utf8Error => -2,
            RuntimeError::Base58Error => -3,
            RuntimeError::InvalidResult => -4,
            RuntimeError::InvalidBytecode => -5,
            RuntimeError::ContractNotFound => -6,
            RuntimeError::SettlementFailed => -7,
            RuntimeError::FuelExhausted => -8,
            RuntimeError::CallDepthExceeded => -9,
        }
    }

    /// The failure that a sentinel stands for, if it stands for one.
    pub open spec fn of_code(code: i32) -> Option<RuntimeError> {
        if code == -1 {
            Some(RuntimeError::MemoryNotFound)
        } else if code == -2 {
            Some(RuntimeError::Utf8Error)
        } else if code == -3 {
            Some(RuntimeError::Base58Error)
        } else if code == -4 {
            Some(RuntimeError::InvalidResult)
        } else if code == -5 {
            Some(RuntimeError::InvalidBytecode)
        } else if code == -6 {
            Some(RuntimeError::ContractNotFound)
        } else if code == -7 {
            Some(RuntimeError::SettlementFailed)
        } else if code == -8 {
            Some(RuntimeError::FuelExhausted)
        } else if code == -9 {
            Some(RuntimeError::CallDepthExceeded)
        } else {
            None
        }
    }

    /// Recovers the failure that a sentinel stands for, if it stands for one.
    pub fn from_i32(code: i32) -> (error: Option<RuntimeError>)
        ensures
            error == RuntimeError::of_code(code),
    {
        if code == -1 {
            Some(RuntimeError::MemoryNotFound)
        } else if code == -2 {
            Some(RuntimeError::Utf8Error)
        } else if code == -3 {
            Some(RuntimeError::Base58Error)
        } else if code == -4 {
            Some(RuntimeError::InvalidResult)
        } else if code == -5 {
            Some(RuntimeError::InvalidBytecode)
        } else if code == -6 {
            Some(RuntimeError::ContractNotFound)
        } else if code == -7 {
            Some(RuntimeError::SettlementFailed)
        } else if code == -8 {
            Some(RuntimeError::FuelExhausted)
        } else if code == -9 {
            Some(RuntimeError::CallDepthExceeded)
        } else {
            None
        }
    }

    /// Tells whether the failure must unwind every active frame.
    pub fn unwinds_chain(&self) -> (resource: bool)
        ensures
            resource == self.is_resource(),
    {
        match self {
            RuntimeError::FuelExhausted => true,
            RuntimeError::CallDepthExceeded => true,
            _ => false,
        }
    }
}

/// Every sentinel is negative, so none can be mistaken for the success
/// status.
pub proof fn lemma_code_is_negative(error: RuntimeError)
    ensures
        -9 <= error.code() < 0,
        error.code() != STATUS_OK,
{
}

/// A failure is what its sentinel stands for, and a sentinel stands for no
/// other failure.
pub proof fn lemma_of_code(error: RuntimeError, code: i32)
    ensures
        RuntimeError::of_code(error.code()) == Some(error),
        RuntimeError::of_code(code) == Some(error) <==> error.code() == code,
{
}

/// Two different failures never share a sentinel.
pub proof fn lemma_code_is_injective(a: RuntimeError, b: RuntimeError)
    requires
        a.code() == b.code(),
    ensures
        a == b,
{
}

} // verus!
