//! Error taxonomy. Context-scoped errors abort startup entirely; device-scoped
//! errors are isolated to one device session and never unwind into others.

use vstd::prelude::*;

verus! {

/// The native context cannot be laid out for any device: either its table
/// does not have the protocol-fixed shape, or the target buffer limit cannot
/// hold even one table row group.
#[derive(Clone, Copy, PartialEq, Eq, Structural, Debug)]
pub enum LayoutError {
    /// The context table does not hold exactly 64x16 entries, so it was not
    /// initialized with multiplication-generation capability.
    ShapeMismatch,
    /// The device's maximum uniform-buffer range is smaller than one table
    /// row group, so no row-aligned partitioning exists.
    BufferTooSmall,
}

/// One device's resources failed; the session is excluded from the worker
/// pool and processing continues on the remaining devices.
#[derive(Clone, Copy, PartialEq, Eq, Structural, Debug)]
pub enum DeviceError {
    /// Buffer or pipeline creation failed during session construction.
    PipelineCreation,
    /// The device was lost while a dispatch was in flight.
    DeviceLost,
    /// A bounded wait on the device's completion signal ran out.
    DispatchTimeout,
    /// The device returned an output buffer whose size does not match the
    /// dispatched invocation count.
    OutputShapeMismatch,
}

/// Caller programming error: a batch larger than the session's maximum
/// invocation count was submitted.
#[derive(Clone, Copy, PartialEq, Eq, Structural, Debug)]
pub struct BatchTooLargeError {
    /// Number of invocations the caller asked for.
    pub requested: usize,
    /// The session's maximum invocations per dispatch.
    pub limit: usize,
}

} // verus!
