//! A verified core for a multi-session pseudo-terminal workspace: a session
//! registry with bounded output buffers, launch-command composition, role
//! classification over a session grid, and an analysis pipeline that builds
//! prompts from session state and defensively parses the model's reply.

use vstd::prelude::*;

pub mod analysis;
pub mod buffer;
pub mod clock;
pub mod env;
pub mod files;
pub mod history;
pub mod jsonio;
pub mod launch;
pub mod prompt;
pub mod report;
pub mod role;
pub mod session;
pub mod text;

verus! {

/// Number of session slots in the fixed grid.
pub const MAX_CELLS: usize = 30;

/// Soft ceiling, in characters, of a session's in-memory output buffer.
pub const BUFFER_LIMIT: usize = 2000;

/// Ceiling, in characters, of the persisted copy of a session's output.
pub const MAX_OUTPUT_CHARS: usize = 5000;

/// Ceiling on the number of retained analysis history entries.
pub const MAX_HISTORY: usize = 20;

} // verus!
