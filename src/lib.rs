//! Kernel density estimation over batches of sample sets held in a columnar layout.
//!
//! Single-precision values are carried as their IEEE-754 bit patterns (`u32`), so that the
//! batching logic and the estimator's policy can be stated and proved over plain integers.
//! The floating-point kernel sum is evaluated by the caller, for the tasks that need it.
pub mod batch;
pub mod column;
pub mod estimator;

pub use batch::{finish_row, kde_agg, kde_dynamic_evals, kde_static_evals, KdeError, RowTask};
pub use column::{drop_missing, ElementType, ListColumn, ListRow};
pub use estimator::{compute_kde, is_usable_bandwidth, needs_kernel, KernelOutput};
