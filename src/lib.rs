//! Launch supervision for game sessions: formatting of played time, the
//! playtime ledger, the per-name instance lock, detection of auxiliary
//! processes and the session state machine that composes them.
use vstd::prelude::*;

pub mod duration;
pub mod ledger;
pub mod lock;
pub mod paths;
pub mod session;
pub mod text;
pub mod tracker;

pub use duration::{format_duration, plural};
pub use paths::expand_tilde;
