use vstd::prelude::*;

verus! {

/// The Function App's handler logic: command generation and status summaries.
pub struct App {}

/// The handlers' shared logic; its methods stand in the modules of the things they decide.
pub struct AppServer {}

} // verus!
