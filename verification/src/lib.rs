//! Bulk fan-out/fan-in execution primitive.
//!
//! A [`Parallel`] registry accumulates deferred units of work in submission
//! order. A driver hands the units out (one per thread, or however it
//! pleases), reifies what each unit did as an [`Outcome`], and the
//! settlement functions then decide, with verified contracts, what the
//! whole run returns: the results in submission order when every unit
//! completed, or the single failure payload to re-raise, chosen by the
//! documented priority rule (the last failure among the spawned units wins;
//! a failure of the unit run on the calling thread is surfaced only when no
//! spawned unit failed).

mod engine;
mod registry;

pub use engine::all_done;
pub use engine::done_values;
pub use engine::last_failure;
pub use engine::lemma_last_failure_at;
pub use engine::lemma_no_failure_iff_all_done;
pub use engine::lemma_single_failure;
pub use engine::lemma_spawned_failure_wins;
pub use engine::settle;
pub use engine::settle_collect;
pub use engine::Outcome;
pub use registry::Parallel;
