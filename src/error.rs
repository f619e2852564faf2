use vstd::prelude::*;

verus! {

/// The ways in which a workspace or import operation can fail.
#[derive(Clone, Copy, Debug, PartialEq, Eq, Structural)]
pub enum UserError {
    /// No user session is active.
    SessionMissing,
    /// The remote workspace service reported a failure.
    RemoteService,
    /// The local relational store could not be reached, queried or written.
    LocalStore,
    /// The handle to the legacy object store could no longer be upgraded: its
    /// owner has been torn down.
    CollabDbUnavailable,
    /// A background task was aborted before it reported its result.
    TaskJoin,
    /// A remote record could not be mapped to the shape of a local row.
    Conversion,
}

} // verus!
