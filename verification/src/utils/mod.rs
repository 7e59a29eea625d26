pub mod fast_path;
pub mod file_names;
pub mod name_cache;
pub mod non_zero;

pub use fast_path::{CStrFastPathBufGuard, FastPathBuf, PopGuard};
pub use file_names::{dir_name, file_name, with_dir_name, with_file_name, FileNameCache};
pub use non_zero::NonZeroU64;
