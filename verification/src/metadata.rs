//! What this build calls itself.

use vstd::prelude::*;

verus! {

/// The name of the game.
pub const TITLE: &'static str = "Dose Response";

/// The version of the formats that sessions are recorded and saved in.
pub const VERSION: &'static str = "1.0.0";

/// The commit this build was made from; empty where that is not known.
pub const GIT_HASH: &'static str = "";

} // verus!
