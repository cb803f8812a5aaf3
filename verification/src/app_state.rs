//! The application-wide state shared across request handlers.

use vstd::prelude::*;

verus! {

/// State every request handler can see.
pub struct AppState {
    /// The application version.
    pub version: String,
}

/// The application state at start-up.
pub fn init_app_state() -> (r: AppState)
    ensures
        r.version@ == "0.1.0"@,
{
    AppState { version: "0.1.0".to_owned() }
}

} // verus!
