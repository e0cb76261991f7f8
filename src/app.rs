//! Services that run side by side in the program.

use vstd::prelude::*;

verus! {

/// What a service has to say about itself to become an app.
pub trait AppI: Sized {
    type Config;
}

/// A service, held with what the program keeps of it.
pub struct App<A: AppI> {
    inner: A,
}

impl<A: AppI> App<A> {
    pub closed spec fn inner(&self) -> A {
        self.inner
    }

    /// The app around a service.
    pub fn new(app: A) -> (r: App<A>)
        ensures
            r.inner() == app,
    {
        App { inner: app }
    }
}

} // verus!
