//! Verified core of a batch image optimizer.
//!
//! The library holds the pipeline's decision logic: which files are
//! supported, how output paths are named in safe-copy and replace modes,
//! the skip-if-larger policy that guarantees outputs never grow, per-file
//! codec planning, and the aggregation of per-file results into run
//! statistics. Paths are modelled as byte strings with `/` as separator;
//! file sizes and durations are plain `u64` values. All filesystem work,
//! parallel dispatch and the codec encoders themselves live outside the
//! library and exchange plain values with it.

pub mod dispatch;
pub mod exts;
pub mod paths;
pub mod policy;
pub mod resolve;
pub mod settings;
pub mod stats;

pub use dispatch::{FilePlan, FileReport};
pub use exts::ImageKind;
pub use policy::CodecOutcome;
pub use resolve::{EntryInfo, EntryPlan, RunMode, SkipReason, WorkItem};
pub use settings::QualitySettings;
pub use stats::CounterSet;
