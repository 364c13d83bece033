//! Jobs that publish requests to the API stream.
use vstd::prelude::*;

verus! {

/// Publishes klines flush requests with the given context.
pub struct KlinesJob<C> {
    ctx: C,
}

impl<C> KlinesJob<C> {
    pub closed spec fn context(&self) -> C {
        self.ctx
    }

    /// A job over the context `ctx`.
    pub fn new(ctx: C) -> (job: Self)
        ensures
            job.context() == ctx,
    {
        Self { ctx: ctx }
    }

    /// The job's context.
    pub fn ctx(&self) -> (c: &C)
        ensures
            *c == self.context(),
    {
        &self.ctx
    }
}

} // verus!
