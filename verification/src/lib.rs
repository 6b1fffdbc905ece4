//! Swap chains for GPU surface managers.
//!
//! The role of a swap chain is to let surfaces travel between contexts, often in different
//! threads. Each swap chain has a *producer* context, which creates and destroys surfaces, and
//! any number of *consumer* contexts (usually one), which take surfaces from the swap chain and
//! hand them back for recycling.
//!
//! Each swap chain has a *back buffer*, the surface that the producer draws to, and a *front
//! buffer*, the surface that the producer finished drawing to most recently. The producer
//! *swaps* the two when it has a surface ready to display; the consumer *takes* the front
//! buffer, displays it, and *recycles* it.
//!
//! Each producer context has one *attached* swap chain, whose back buffer is the current
//! surface of the context. The producer may attach another swap chain, which detaches the
//! current one.
//!
//! The library never talks to a graphics device. An operation on a swap chain is a dialogue: it
//! yields a [`device::Step`], which is either the operation's result or a request that the
//! producer's device must carry out; the device's reply is handed back to the swap chain, which
//! yields the next step.

pub mod accounts;
pub mod chain;
pub mod chains;
pub mod device;
pub mod dialogue;
pub mod gl;
pub mod journeys;
pub mod outcomes;
pub mod ownership;
pub mod provider;
pub mod register;
pub mod scripts;
pub mod supply;
pub mod surface;
pub mod tables;
pub mod turns;
