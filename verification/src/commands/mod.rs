//! What the application decides between its calls to the outside.

pub mod analyze;
pub mod process;

pub use analyze::{reconcile, sanitize_filename, validate_and_map_clip, validate_clips};
pub use process::{select_clips, ProcessError};
