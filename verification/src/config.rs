//! How a session is set up.

use vstd::prelude::*;

use crate::session::{Session, SessionView};

verus! {

/// Says which peripherals to scan for. There is nothing to narrow a scan by
/// yet: it covers every peripheral.
#[derive(Clone, Copy, Debug, PartialEq, Eq, Structural)]
pub struct Filter {}

impl Filter {
    pub fn new() -> (filter: Self)
        ensures
            filter == (Filter {  }),
    {
        Filter {  }
    }
}

/// The backend that an application asks for.
#[derive(Clone, Copy, Debug, PartialEq, Eq, Structural)]
pub enum Backend {
    SystemDefault,
    Fake,
}

/// An implementation of the platform that a session can run on.
#[derive(Clone, Copy, Debug, PartialEq, Eq, Structural)]
pub enum Platform {
    Winrt,
    Fake,
}

impl Backend {
    /// The system's own implementation is the default.
    pub open spec fn platform(self) -> Platform {
        match self {
            Backend::SystemDefault => Platform::Winrt,
            Backend::Fake => Platform::Fake,
        }
    }
}

/// The settings of a session that has not started yet.
#[derive(Debug)]
pub struct SessionConfig {
    backend: Backend,
}

impl View for SessionConfig {
    type V = Backend;

    closed spec fn view(&self) -> Backend {
        self.backend
    }
}

impl SessionConfig {
    pub fn new() -> (config: SessionConfig)
        ensures
            config@ == Backend::SystemDefault,
    {
        SessionConfig { backend: Backend::SystemDefault }
    }

    /// The backend that was chosen.
    pub(crate) fn backend(&self) -> (backend: Backend)
        ensures
            backend == self@,
    {
        self.backend
    }

    /// Chooses the backend, and returns the settings for more of them.
    pub fn set_backend(&mut self, backend: Backend) -> (config: &mut Self)
        ensures
            config@ == backend,
            *final(self) == *final(config),
    {
        self.backend = backend;
        self
    }

    /// Starts a session with these settings: says which platform it runs on,
    /// and gives its state.
    pub fn start(self) -> (started: (Platform, Session))
        ensures
            started.0 == self@.platform(),
            started.1.wf(),
            started.1@ == SessionView::initial(),
    {
        Session::start(&self)
    }
}

} // verus!
