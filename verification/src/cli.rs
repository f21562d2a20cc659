//! The command line as a whole.

use vstd::prelude::*;
use crate::{admin, tools, user};

verus! {

/// A parsed command line.
#[derive(Debug, Clone)]
pub struct Cli {
    pub command: Commands,
}

/// The command groups.
#[derive(Debug, Clone)]
pub enum Commands {
    /// Operator-oriented commands that hit the homeserver admin API.
    Admin { action: admin::Command },
    /// User-oriented commands that talk to the homeserver client API.
    User { action: user::Command },
    /// Helper utilities.
    Tools { action: tools::Command },
}

} // verus!
