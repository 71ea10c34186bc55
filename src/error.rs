use vstd::prelude::*;

verus! {

/// The kinds of failure the pipeline reports to its caller.
#[derive(Debug, Clone, Copy, PartialEq, Eq, Structural)]
pub enum ReleaseError {
    /// A malformed timeframe, pattern or repository reference.
    ConfigInvalid,
    /// A tag or a release that does not exist.
    NotFound,
    /// A missing or rejected access token.
    AuthFailure,
    /// The remote service throttled the request.
    RateLimited,
    /// The network request failed.
    Transport,
    /// The template could not be rendered.
    TemplateError,
}

} // verus!
