//! Decision logic of a continuous test-execution bot: which commits still
//! need a run, how one commit's run proceeds and contains its failures, how
//! the per-test artifacts of a run are gathered into one report, and when the
//! recorded last-processed commit may advance.
pub mod collect;
pub mod commits;
pub mod cycle;
pub mod layout;
pub mod pipeline;
pub mod settings;
pub mod util;
