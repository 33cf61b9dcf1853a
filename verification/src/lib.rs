//! Line-based similarity search engine.
//!
//! Given a reference text, the library scores candidate texts by the
//! fraction of reference lines that a line-level diff marks as shared,
//! ranks the scored candidates, renders the ranking as a table, and
//! prepares a structured line-by-line comparison of a chosen candidate.

pub mod diff;
pub mod globs;
pub mod lines;
pub mod matches;
pub mod render;
pub mod scan;
pub mod score;
pub mod table;

pub use diff::ChangeKind;
pub use diff::get_num_shared_lines;
pub use diff::get_perc_shared_lines;
pub use globs::GlobError;
pub use globs::GlobPattern;
pub use lines::count_lines;
pub use lines::count_ref_lines;
pub use matches::FileMatch;
pub use matches::FileMatches;
pub use matches::clamp_result_count;
pub use matches::rank_matches;
pub use render::DiffReport;
pub use render::RenderInstruction;
pub use render::detailed_diff;
pub use scan::ScanFilter;
pub use scan::SkipReason;
pub use scan::check_path_filters;
pub use scan::evaluate_candidate;
pub use score::Score;
