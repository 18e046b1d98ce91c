use vstd::prelude::*;

verus! {

/// The error taxonomy of the runtime.
///
/// `ResourceExhausted` and `ProtocolViolation` are recoverable conditions the
/// caller is expected to handle; `CapacityExceeded` reports an id that does
/// not fit the deferred-wake mask; `Fatal` reports an inconsistency that
/// would corrupt the scheduler's own bookkeeping (such as waking an id that
/// has no task), detected and returned instead of aborting.
#[derive(Clone, Copy, Debug, PartialEq, Eq, Structural)]
pub enum RuntimeError {
    /// An allocator or a bounded queue is full; retry or back off.
    ResourceExhausted,
    /// A message carried an unrecognized or malformed operation tag.
    ProtocolViolation,
    /// An id falls outside the deferred-wake mask's fixed bit width.
    CapacityExceeded,
    /// The request would corrupt the scheduler's task bookkeeping.
    Fatal,
}

} // verus!
