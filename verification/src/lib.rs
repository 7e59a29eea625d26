//! Planning of large, randomly shaped directory trees.
//!
//! The library decides which directories and files a tree holds and how many
//! bytes each file gets. It draws no random numbers and touches no file
//! system: the embedding program hands it the numbers it asks for and carries
//! out the work that it hands back.

pub mod engine;
pub mod generator;
pub mod utils;

pub use generator::{
    CliError, Error, Generate, Generator, GeneratorBuilder, NumFilesWithRatio,
    NumFilesWithRatioError,
};
pub use utils::non_zero::NonZeroU64;
