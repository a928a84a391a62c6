use vstd::prelude::*;

verus! {

/// The commands the site tool offers.
#[derive(Debug, Clone, Copy, PartialEq, Eq, Structural)]
pub enum Opt {
    /// Build static files.
    Build {},
    /// Run the HTTP server.
    Serve {},
}

} // verus!
