//! A suite that every backend must pass.
//!
//! A script is a list of probes: what is asked of the backend ([`probe`]) and
//! what the answer must be ([`judge`]). The checks are grouped by what they
//! look at: [`tables`], [`records`], [`reading`], [`writing`], [`counters`],
//! [`summaries`] and [`values`]; [`suite`] puts them together. [`run`] goes
//! through a script, asking one thing at a time; [`laws`] states what holds of
//! the scripts themselves, and [`verdict`] what the judgement comes to.

pub mod ask;
pub mod counters;
pub mod judge;
pub mod laws;
pub mod list;
pub mod probe;
pub mod reading;
pub mod records;
pub mod run;
pub mod script;
pub mod suite;
pub mod summaries;
pub mod tables;
pub mod values;
pub mod verdict;
pub mod writing;
