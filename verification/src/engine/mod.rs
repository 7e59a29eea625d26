pub mod file_contents;
pub mod files;
pub mod scheduler;
pub mod stats;
pub mod tasks;
pub mod tree;

pub use file_contents::{
    BytesKind, FileContents, FileContentsGenerator, FilePlan, NoGeneratedFileContents,
    OnTheFlyGeneratedFileContents, PreDefinedGeneratedFileContents,
};
pub use files::{
    create_files_and_dirs, GeneratorTaskParams, TaskAction, TaskEvent, TaskRun, TaskStage,
};
pub use scheduler::{next_target_file_count, DirChild, Directory, Phase, Request, Scheduler};
pub use stats::{GeneratorStats, Params, ThreadState};
pub use tasks::{
    dirs_to_gen, queue, DrawPlan, Draws, DynamicGenerator, GeneratorBytes, QueueErrors,
    QueueOutcome, Queued, StaticGenerator, TaskGenerator,
};
