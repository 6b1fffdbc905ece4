//! Surfaces, and what the library has to know of them.

use vstd::prelude::*;

verus! {

/// The identity of a producer context. No two contexts of one process share it.
pub type ContextID = u64;

/// A size in device pixels.
#[derive(Clone, Copy, Debug, PartialEq, Eq, Structural)]
pub struct Size2D {
    pub width: i32,
    pub height: i32,
}

/// Which processors may access the data of a surface.
#[derive(Clone, Copy, Debug, PartialEq, Eq, Structural)]
pub enum SurfaceAccess {
    /// The surface data is accessible by the GPU only.
    GPUOnly,
    /// The surface data is accessible by the GPU and the CPU.
    GPUCPU,
    /// The surface data is accessible by the GPU and the CPU, and the CPU may combine its writes.
    GPUCPUWriteCombined,
}

/// A surface of the graphics device: the device's own handle to it, and its size, which stays
/// the same from the creation of a surface to its destruction.
#[derive(Debug)]
pub struct Surface<H> {
    pub handle: H,
    pub size: Size2D,
}

/// Why an operation failed. `E` is the error type of the graphics device and of the backend.
#[derive(Debug)]
pub enum Error<E> {
    /// The operation does not apply to the swap chain as it is.
    Failed,
    /// The context is not the producer context of the swap chain.
    IncompatibleContext,
    /// The graphics device refused a request, or the backend a demand.
    Refused(E),
}

} // verus!
