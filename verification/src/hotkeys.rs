//! The global-hotkey collaborator's configuration record: one registered
//! hotkey, as the interface lists it. Registration with the window system is
//! the host's business.

use vstd::prelude::*;

verus! {

/// One registered global hotkey.
#[derive(Debug, Clone)]
pub struct HotkeyConfig {
    pub id: String,
    pub key: String,
    pub command: String,
}

} // verus!
