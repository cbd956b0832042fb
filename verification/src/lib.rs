//! A verified core for turning a raw version-control diff into a bounded,
//! noise-filtered text payload for a size-limited completion service.
//!
//! The pipeline: [`diff_filter`] drops whole file sections whose paths match
//! the exclusion rules of [`path_filter`]; [`estimator`] prices text with a
//! script-aware heuristic; [`truncator`] cuts an oversized diff down to a
//! token budget behind a statistics header; and [`orchestrator`] decides the
//! primary/fallback request protocol against the completion service. All
//! network and file work stays with the caller: every function here is a
//! plain function from values to values.

pub mod diff_filter;
pub mod estimator;
pub mod orchestrator;
pub mod path_filter;
pub mod text;
pub mod truncator;
