//! Staging of contest submissions for a similarity analysis, and the order in
//! which the steps of one run are taken.

pub mod analysis;
pub mod failure;
pub mod opt;
pub mod path;
pub mod pipeline;
pub mod run;
pub mod stage;
pub mod staged;
