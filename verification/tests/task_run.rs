use ftzz::engine::{
    create_files_and_dirs, BytesKind, FileContents, FileContentsGenerator, FilePlan,
    GeneratorStats, GeneratorTaskParams, NoGeneratedFileContents, OnTheFlyGeneratedFileContents,
    PreDefinedGeneratedFileContents, TaskAction, TaskEvent, TaskStage,
};
use std::sync::Arc;

use ftzz::utils::{FastPathBuf, FileNameCache};

fn task(
    num_files: u64,
    num_dirs: usize,
    file_offset: u64,
    file_contents: FileContents,
) -> GeneratorTaskParams<FileContents> {
    GeneratorTaskParams {
        target_dir: FastPathBuf::from_bytes(b"root/3.dir".to_vec()),
        num_files,
        num_dirs,
        file_offset,
        file_contents,
    }
}

fn empty() -> FileContents {
    FileContents::Empty(NoGeneratedFileContents)
}

fn names() -> Arc<FileNameCache> {
    Arc::new(FileNameCache::new())
}

fn text(path: &FastPathBuf) -> String {
    String::from_utf8(path.as_bytes().to_vec()).unwrap()
}

const DONE: TaskEvent = TaskEvent::Done { drawn: 0 };

#[test]
fn directories_come_before_files() {
    let mut run = create_files_and_dirs(task(2, 2, 0, empty()), names());
    let mut log = Vec::new();
    loop {
        match run.action() {
            TaskAction::Finished(stats) => {
                assert_eq!(
                    stats,
                    GeneratorStats {
                        files: 2,
                        dirs: 2,
                        bytes: 0
                    }
                );
                break;
            }
            action => log.push((action, text(run.path()))),
        }
        run.advance(DONE);
    }
    assert_eq!(
        log,
        vec![
            (TaskAction::CreateDirAll, "root/3.dir/0.dir".to_owned()),
            (TaskAction::CreateDirAll, "root/3.dir/1.dir".to_owned()),
            (
                TaskAction::CreateFile(FilePlan::Empty),
                "root/3.dir/0".to_owned()
            ),
            (
                TaskAction::CreateFile(FilePlan::Empty),
                "root/3.dir/1".to_owned()
            ),
        ]
    );
    assert_eq!(text(run.path()), "root/3.dir");
    // A finished task stays finished.
    run.advance(DONE);
    assert_eq!(run.stage(), TaskStage::Finished);
}

#[test]
fn a_task_without_work_is_finished_at_once() {
    let run = create_files_and_dirs(task(0, 0, 0, empty()), names());
    assert_eq!(
        run.action(),
        TaskAction::Finished(GeneratorStats {
            files: 0,
            dirs: 0,
            bytes: 0
        })
    );
}

#[test]
fn files_are_numbered_from_the_offset() {
    let mut run = create_files_and_dirs(task(3, 0, 1000, empty()), names());
    let mut names = Vec::new();
    while !matches!(run.action(), TaskAction::Finished(_)) {
        names.push(text(run.path()));
        run.advance(DONE);
    }
    assert_eq!(
        names,
        vec!["root/3.dir/1000", "root/3.dir/1001", "root/3.dir/1002"]
    );
}

#[test]
fn a_missing_directory_is_created_and_the_first_file_tried_again() {
    let mut run = create_files_and_dirs(task(2, 0, 0, empty()), names());
    assert_eq!(run.stage(), TaskStage::First);
    assert_eq!(text(run.path()), "root/3.dir/0");
    run.advance(TaskEvent::NotFound);
    assert_eq!(run.stage(), TaskStage::Parents);
    assert_eq!(run.action(), TaskAction::CreateDirAll);
    assert_eq!(text(run.path()), "root/3.dir");
    run.advance(DONE);
    assert_eq!(run.stage(), TaskStage::File);
    assert_eq!(text(run.path()), "root/3.dir/0");
    run.advance(DONE);
    assert_eq!(text(run.path()), "root/3.dir/1");
    run.advance(DONE);
    assert_eq!(
        run.action(),
        TaskAction::Finished(GeneratorStats {
            files: 2,
            dirs: 0,
            bytes: 0
        })
    );
}

#[test]
fn a_missing_directory_is_fatal_after_the_first_attempt() {
    let mut run = create_files_and_dirs(task(2, 0, 0, empty()), names());
    run.advance(DONE);
    assert_eq!(text(run.path()), "root/3.dir/1");
    run.advance(TaskEvent::NotFound);
    assert_eq!(run.action(), TaskAction::Failed);
    run.advance(DONE);
    assert_eq!(run.action(), TaskAction::Failed);

    let mut run = create_files_and_dirs(task(0, 1, 0, empty()), names());
    run.advance(TaskEvent::NotFound);
    assert_eq!(run.action(), TaskAction::Failed);

    let mut run = create_files_and_dirs(task(1, 0, 0, empty()), names());
    run.advance(TaskEvent::NotFound);
    run.advance(TaskEvent::NotFound);
    assert_eq!(run.action(), TaskAction::Failed);
}

#[test]
fn fixed_byte_counts_are_written_as_planned() {
    let contents = FileContents::PreDefined(PreDefinedGeneratedFileContents {
        byte_counts: vec![5, 0, 7],
        seed: 99,
        fill_byte: Some(42),
    });
    let params = task(3, 0, 0, contents);
    assert!(params.runnable());
    let mut run = create_files_and_dirs(params, names());
    assert_eq!(run.initialize(), Some(99));
    let mut plans = Vec::new();
    loop {
        match run.action() {
            TaskAction::CreateFile(plan) => plans.push(plan),
            TaskAction::Finished(stats) => {
                assert_eq!(stats.bytes, 12);
                assert_eq!(stats.files, 3);
                break;
            }
            other => panic!("unexpected {other:?}"),
        }
        // A number that was not asked for is not counted.
        run.advance(TaskEvent::Done { drawn: 1000 });
    }
    assert_eq!(
        plans,
        vec![
            FilePlan::Write {
                num_bytes: 5,
                kind: BytesKind::Fixed(42)
            },
            FilePlan::Empty,
            FilePlan::Write {
                num_bytes: 7,
                kind: BytesKind::Fixed(42)
            },
        ]
    );
    assert_eq!(run.byte_counts_pool_return(), Some(vec![5, 0, 7]));
}

#[test]
fn too_few_byte_counts_cannot_be_run() {
    let contents = FileContents::PreDefined(PreDefinedGeneratedFileContents {
        byte_counts: vec![5, 0],
        seed: 99,
        fill_byte: None,
    });
    assert!(!task(3, 0, 0, contents).runnable());
    assert!(!task(2, 0, u64::MAX, empty()).runnable());
    assert!(task(2, 0, u64::MAX - 2, empty()).runnable());
}

#[test]
fn sizes_drawn_on_the_fly_draw_twice_for_the_first_file() {
    let contents = || {
        FileContents::OnTheFly(OnTheFlyGeneratedFileContents {
            seed: 5,
            fill_byte: None,
        })
    };
    // The first attempt succeeds: the number drawn before it is dropped
    // and the one drawn once the file is open is written.
    let mut run = create_files_and_dirs(task(3, 0, 0, contents()), names());
    assert_eq!(run.initialize(), Some(5));
    assert_eq!(run.action(), TaskAction::DrawByteCount);
    run.advance(TaskEvent::Done { drawn: 11 });
    assert_eq!(
        run.action(),
        TaskAction::CreateFile(FilePlan::DrawThenWrite {
            kind: BytesKind::Random
        })
    );
    run.advance(TaskEvent::Done { drawn: 22 });
    assert_eq!(run.action(), TaskAction::DrawByteCount);
    run.advance(TaskEvent::Done { drawn: 33 });
    assert_eq!(
        run.action(),
        TaskAction::CreateFile(FilePlan::Write {
            num_bytes: 33,
            kind: BytesKind::Random
        })
    );
    run.advance(TaskEvent::Done { drawn: 0 });
    run.advance(TaskEvent::Done { drawn: 0 });
    // A file for which zero was drawn is made empty.
    assert_eq!(run.action(), TaskAction::CreateFile(FilePlan::Empty));
    run.advance(DONE);
    assert_eq!(
        run.action(),
        TaskAction::Finished(GeneratorStats {
            files: 3,
            dirs: 0,
            bytes: 55
        })
    );

    // The first attempt fails: the second number is drawn for the repeated
    // attempt, and the files get the same sizes.
    let mut run = create_files_and_dirs(task(3, 0, 0, contents()), names());
    run.advance(TaskEvent::Done { drawn: 11 });
    run.advance(TaskEvent::NotFound);
    assert_eq!(run.action(), TaskAction::CreateDirAll);
    run.advance(DONE);
    assert_eq!(run.action(), TaskAction::DrawByteCount);
    run.advance(TaskEvent::Done { drawn: 22 });
    assert_eq!(
        run.action(),
        TaskAction::CreateFile(FilePlan::Write {
            num_bytes: 22,
            kind: BytesKind::Random
        })
    );
    run.advance(DONE);
    run.advance(TaskEvent::Done { drawn: 33 });
    run.advance(DONE);
    run.advance(TaskEvent::Done { drawn: 0 });
    run.advance(DONE);
    assert_eq!(
        run.action(),
        TaskAction::Finished(GeneratorStats {
            files: 3,
            dirs: 0,
            bytes: 55
        })
    );
}

#[test]
fn fill_byte_decides_where_bytes_come_from() {
    assert_eq!(BytesKind::from(None), BytesKind::Random);
    assert_eq!(BytesKind::from(Some(0)), BytesKind::Fixed(0));
    assert_eq!(BytesKind::from(Some(69)), BytesKind::Fixed(69));
    let contents = OnTheFlyGeneratedFileContents {
        seed: 1,
        fill_byte: Some(69),
    };
    assert_eq!(
        contents.create_file(0, false, 9),
        FilePlan::Write {
            num_bytes: 9,
            kind: BytesKind::Fixed(69)
        }
    );
    assert!(contents.draws_byte_counts());
    assert!(!NoGeneratedFileContents.draws_byte_counts());
    assert_eq!(NoGeneratedFileContents.initialize(), None);
    assert_eq!(NoGeneratedFileContents.byte_counts_pool_return(), None);
}

#[test]
fn written_bytes_never_wrap() {
    let contents = FileContents::PreDefined(PreDefinedGeneratedFileContents {
        byte_counts: vec![u64::MAX, 5],
        seed: 0,
        fill_byte: None,
    });
    let mut run = create_files_and_dirs(task(2, 0, 0, contents), names());
    run.advance(DONE);
    run.advance(DONE);
    assert_eq!(
        run.action(),
        TaskAction::Finished(GeneratorStats {
            files: 2,
            dirs: 0,
            bytes: u64::MAX
        })
    );
}

#[test]
fn any_other_failure_ends_the_task_at_once() {
    // While directories are made.
    let mut run = create_files_and_dirs(task(2, 2, 0, empty()), names());
    run.advance(TaskEvent::Failed);
    assert_eq!(run.action(), TaskAction::Failed);
    assert_eq!(text(run.path()), "root/3.dir");

    // At the first file: no directory is made and the file is not tried
    // again.
    let mut run = create_files_and_dirs(task(2, 0, 0, empty()), names());
    assert_eq!(run.stage(), TaskStage::First);
    run.advance(TaskEvent::Failed);
    assert_eq!(run.stage(), TaskStage::Failed);
    assert_eq!(run.action(), TaskAction::Failed);

    // At a later file.
    let mut run = create_files_and_dirs(task(2, 0, 0, empty()), names());
    run.advance(DONE);
    run.advance(TaskEvent::Failed);
    assert_eq!(run.action(), TaskAction::Failed);

    // While the missing directory is made.
    let mut run = create_files_and_dirs(task(2, 0, 0, empty()), names());
    run.advance(TaskEvent::NotFound);
    run.advance(TaskEvent::Failed);
    assert_eq!(run.action(), TaskAction::Failed);

    // A task that has failed stays failed, and one that is finished stays
    // finished.
    run.advance(DONE);
    assert_eq!(run.action(), TaskAction::Failed);
    let mut run = create_files_and_dirs(task(0, 0, 0, empty()), names());
    run.advance(TaskEvent::Failed);
    assert_eq!(run.stage(), TaskStage::Finished);
}
