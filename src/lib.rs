//! Disk-pressure guardian: the decision plane together with the pure
//! helpers of the command line and dashboard front ends.
//!
//! Decision plane: `pid` (pressure level and urgency), `ewma` (fill rate and
//! time to threshold), `protection` and `walker` (what may be considered),
//! `patterns` (artifact classification), `scoring` (scores, vetoes,
//! posterior, batch order), `policy` (operating modes and approvals),
//! `guardrails` (calibration status), `decision_record` and `json` (audit
//! records and their JSON form), `ballast` (reserved files), `deletion`
//! (plans and the decisions of a deletion run).
//!
//! Front-end helpers: `cli`, `dashboard`, `display`, `reports`,
//! `special_locations`, `errors`; shared: `text`, `rng`.

pub mod ballast;
pub mod cli;
pub mod dashboard;
pub mod decision_record;
pub mod deletion;
pub mod display;
pub mod errors;
pub mod ewma;
pub mod guardrails;
pub mod json;
pub mod patterns;
pub mod pid;
pub mod policy;
pub mod protection;
pub mod reports;
pub mod rng;
pub mod scoring;
pub mod special_locations;
pub mod text;
pub mod walker;
