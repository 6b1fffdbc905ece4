//! The dialogue with the producer's graphics device.

use vstd::prelude::*;

use crate::gl::GlState;
use crate::surface::{Error, Size2D, Surface, SurfaceAccess};

verus! {

/// What an operation asks of the device that owns the producer context.
#[derive(Debug)]
pub enum Request<H> {
    /// Create a surface for the producer context.
    CreateSurface { access: SurfaceAccess, size: Size2D },
    /// Destroy a surface.
    DestroySurface { surface: Surface<H> },
    /// Take the current surface away from the producer context.
    UnbindSurface,
    /// Make a surface the current surface of the producer context.
    BindSurface { surface: Surface<H> },
    /// Read the part of the GL state that clearing a surface overwrites.
    SaveGlState,
    /// Find the framebuffer object of the current surface of the producer context.
    FindFramebuffer,
    /// Run the commands of [`crate::gl::clear_commands`] for a framebuffer object.
    Clear { framebuffer: u32 },
    /// Run the commands of [`crate::gl::restore_commands`] for a saved GL state.
    RestoreGlState { state: GlState },
}

/// What the device answers. Each variant answers the request of the same subject.
#[derive(Debug)]
pub enum Reply<H, E> {
    /// Answers [`Request::CreateSurface`].
    Created(Result<Surface<H>, E>),
    /// Answers [`Request::DestroySurface`].
    Destroyed(Result<(), E>),
    /// Answers [`Request::UnbindSurface`]; `None` if the context had no surface.
    Unbound(Result<Option<Surface<H>>, E>),
    /// Answers [`Request::BindSurface`].
    Bound(Result<(), E>),
    /// Answers [`Request::SaveGlState`].
    Saved(GlState),
    /// Answers [`Request::FindFramebuffer`].
    Framebuffer(u32),
    /// Answers [`Request::Clear`].
    Cleared,
    /// Answers [`Request::RestoreGlState`].
    Restored,
}

/// Where an operation stands: it waits for an answer, or it is over.
#[derive(Debug)]
pub enum Step<H, E> {
    Ask(Request<H>),
    Done(Result<(), Error<E>>),
}

impl<H, E> Reply<H, E> {
    /// Whether the reply carries an error of the device.
    pub open spec fn refuses(self) -> bool {
        match self {
            Reply::Created(reply) => reply is Err,
            Reply::Destroyed(reply) => reply is Err,
            Reply::Unbound(reply) => reply is Err,
            Reply::Bound(reply) => reply is Err,
            _ => false,
        }
    }

    /// The error that a refusal carries.
    pub open spec fn refusal(self) -> E
        recommends
            self.refuses(),
    {
        match self {
            Reply::Created(reply) => reply->Err_0,
            Reply::Destroyed(reply) => reply->Err_0,
            Reply::Unbound(reply) => reply->Err_0,
            Reply::Bound(reply) => reply->Err_0,
            _ => arbitrary(),
        }
    }
}

} // verus!
