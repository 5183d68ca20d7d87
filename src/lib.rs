//! Configuration-set management, diagnostic publishing and position queries for
//! an editor server of the Slice interface-definition language.
use vstd::prelude::*;

pub mod paths;
pub mod settings;
pub mod position;
pub mod diagnostics;
pub mod query;
pub mod compiler;
pub mod configuration_set;
pub mod server_state;
pub mod notifications;

verus! {

} // verus!
