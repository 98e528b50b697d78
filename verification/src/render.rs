//! The render scheduling model: one lazily-built persistent pipeline and a
//! perpetually re-requested per-frame callback.  The GPU work itself is a
//! host command; the model tracks what must be outstanding — at most one
//! scheduled-frame token — and hands out the tokens that let the host cancel
//! the loop on teardown.

use vstd::prelude::*;

verus! {

/// The scheduler's retained state between frames.
pub struct Renderer {
    pipeline_built: bool,
    pending: Option<u64>,
    next_token: u64,
}

/// Mathematical model of a [`Renderer`].
#[verifier::ext_equal]
pub struct RendererView {
    pub pipeline_built: bool,
    pub pending: Option<u64>,
    pub next_token: u64,
}

impl View for Renderer {
    type V = RendererView;

    closed spec fn view(&self) -> RendererView {
        RendererView {
            pipeline_built: self.pipeline_built,
            pending: self.pending,
            next_token: self.next_token,
        }
    }
}

impl Renderer {
    /// A scheduler with no pipeline and nothing scheduled.
    pub fn new() -> (r: Renderer)
        ensures
            r@ == (RendererView { pipeline_built: false, pending: None, next_token: 0 }),
    {
        Renderer { pipeline_built: false, pending: None, next_token: 0 }
    }

    /// Whether the persistent pipeline has been built.
    pub fn pipeline_built(&self) -> (r: bool)
        ensures
            r == self@.pipeline_built,
    {
        self.pipeline_built
    }

    /// The token of the scheduled-frame callback now outstanding, if any.
    pub fn pending(&self) -> (r: Option<u64>)
        ensures
            r == self@.pending,
    {
        self.pending
    }

    /// Records that the drawable surface is available and the persistent
    /// pipeline has been built for it.  Building happens once; a broken
    /// pipeline is fatal at the host and never reaches this model.
    pub fn build(&mut self)
        ensures
            final(self)@ == (RendererView { pipeline_built: true, ..old(self)@ }),
    {
        self.pipeline_built = true;
    }

    /// Hands out the token under which the host must request the next
    /// animation frame; exactly that callback is then outstanding.
    pub fn schedule(&mut self) -> (token: u64)
        requires
            old(self)@.next_token < u64::MAX,
        ensures
            token == old(self)@.next_token,
            final(self)@ == (RendererView {
                pipeline_built: old(self)@.pipeline_built,
                pending: Some(token),
                next_token: (old(self)@.next_token + 1) as u64,
            }),
    {
        let token = self.next_token;
        self.pending = Some(token);
        self.next_token = self.next_token + 1;
        token
    }

    /// Drops the outstanding scheduled-frame token, handing it back so the
    /// host can cancel the platform callback; the only way to end the loop.
    pub fn cancel(&mut self) -> (token: Option<u64>)
        ensures
            token == old(self)@.pending,
            final(self)@ == (RendererView { pending: None, ..old(self)@ }),
    {
        let token = self.pending;
        self.pending = None;
        token
    }
}

} // verus!
