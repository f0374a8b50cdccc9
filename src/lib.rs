//! Block header validation: the difficulty and accumulated-data model, the
//! individual header checks, a bounded cache of proof-of-work verifier
//! contexts, and the pipeline that runs the checks in order of cost.

pub mod cache;
pub mod checks;
pub mod difficulty;
pub mod header;
pub mod traits;
pub mod validator;
pub mod window;
