use vstd::prelude::*;

verus! {

/// Every kernel operation that can fail reports one of these kinds.
///
/// `NotFound`: the named module, mailbox or topic does not exist.
/// `PermissionDenied`: a capability check refused the operation.
/// `ExecutionFailed`: the sandbox reported a runtime fault; the engine's
/// message is carried verbatim.
/// `Unavailable`: a bounded mailbox had no capacity left.
#[derive(Debug, Clone, PartialEq, Eq)]
pub enum KernelError {
    NotFound,
    PermissionDenied,
    ExecutionFailed(String),
    Unavailable,
}

} // verus!
