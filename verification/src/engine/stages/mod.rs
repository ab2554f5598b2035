//! The stages of the pipeline, in the order an event meets them.

pub mod io_filter;
pub mod sink;
pub mod stability;
pub mod stability_laws;
pub mod stability_runs;
pub mod static_filter;

pub use io_filter::IoFilterStage;
pub use sink::ActionSink;
pub use stability::StabilityStage;
pub use static_filter::StaticFilterStage;
