use ftzz::engine::{
    dirs_to_gen, next_target_file_count, queue, DrawPlan, Draws, DynamicGenerator, FileContents,
    GeneratorBytes, GeneratorTaskParams, NoGeneratedFileContents, QueueErrors, StaticGenerator,
    TaskGenerator,
};
use ftzz::utils::FastPathBuf;
use ftzz::NonZeroU64;

fn path(text: &str) -> FastPathBuf {
    FastPathBuf::from_bytes(text.as_bytes().to_vec())
}

fn draws(num_files: u64, num_dirs: u64, byte_counts: &[u64], seed: u64) -> Draws {
    Draws {
        num_files,
        num_dirs,
        byte_counts: byte_counts.to_vec(),
        seed,
    }
}

fn exact(files: Option<u64>, bytes: Option<u64>, fill_byte: Option<u8>) -> StaticGenerator {
    StaticGenerator::new(
        DynamicGenerator {
            bytes: Some(GeneratorBytes { fill_byte }),
        },
        files.map(|n| NonZeroU64::new(n).unwrap()),
        bytes.map(|n| NonZeroU64::new(n).unwrap()),
    )
}

#[test]
fn dirs_to_gen_follows_the_sample() {
    assert_eq!(dirs_to_gen(5, false, 7), 0);
    assert_eq!(dirs_to_gen(0, false, 0), 0);
    assert_eq!(dirs_to_gen(5, true, 7), 7);
    assert_eq!(dirs_to_gen(0, true, 7), 7);
    // A directory with files gets at least one subdirectory.
    assert_eq!(dirs_to_gen(5, true, 0), 1);
    assert_eq!(dirs_to_gen(0, true, 0), 0);
}

#[test]
fn next_target_is_an_equal_share_of_the_rest() {
    assert_eq!(next_target_file_count(1000, 10, 100), 90);
    assert_eq!(next_target_file_count(1000, 3, 100), 300);
    assert_eq!(next_target_file_count(1000, 1, 0), 1000);
    // More files created than asked for: nothing is left.
    assert_eq!(next_target_file_count(10, 4, 11), 0);
    // No subdirectory: the rest is the share of one.
    assert_eq!(next_target_file_count(1000, 0, 100), 900);
    assert_eq!(next_target_file_count(100, 0, 30), 70);
    assert_eq!(next_target_file_count(100, 1, 30), 70);
    assert_eq!(next_target_file_count(10, 0, 11), 0);
}

#[test]
fn queue_refuses_empty_work() {
    let task = GeneratorTaskParams {
        target_dir: path("root/1.dir"),
        num_files: 0,
        num_dirs: 0,
        file_offset: 0,
        file_contents: FileContents::Empty(NoGeneratedFileContents),
    };
    match queue(task, false) {
        Err(QueueErrors::NothingToDo(p)) => assert_eq!(p.as_bytes(), b"root/1.dir"),
        Ok(_) => panic!("a task without work was queued"),
    }

    let task = GeneratorTaskParams {
        target_dir: path("root/1.dir"),
        num_files: 0,
        num_dirs: 2,
        file_offset: 0,
        file_contents: FileContents::Empty(NoGeneratedFileContents),
    };
    let queued = queue(task, true).ok().unwrap();
    assert_eq!(queued.outcome.num_files, 0);
    assert_eq!(queued.outcome.num_dirs, 2);
    assert!(queued.outcome.done);
    assert_eq!(queued.task.target_dir.as_bytes(), b"root/1.dir");
}

#[test]
fn dynamic_generator_without_bytes() {
    let mut g = DynamicGenerator { bytes: None };
    assert_eq!(
        g.draw_plan(12, true),
        DrawPlan {
            num_dirs: true,
            byte_counts: 0,
            seed: false
        }
    );
    assert_eq!(
        g.draw_plan(12, false),
        DrawPlan {
            num_dirs: false,
            byte_counts: 0,
            seed: false
        }
    );
    let queued = g.queue_gen(draws(12, 3, &[], 99), path("r"), true).ok().unwrap();
    assert_eq!(queued.outcome.num_files, 12);
    assert_eq!(queued.outcome.num_dirs, 3);
    assert!(!queued.outcome.done);
    assert_eq!(queued.task.num_files, 12);
    assert_eq!(queued.task.num_dirs, 3);
    assert_eq!(queued.task.file_offset, 0);
    assert!(matches!(queued.task.file_contents, FileContents::Empty(_)));

    // Where the tree ends, the number of subdirectories drawn is not used.
    let queued = g.queue_gen(draws(12, 3, &[], 99), path("r"), false).ok().unwrap();
    assert_eq!(queued.outcome.num_dirs, 0);

    assert!(g.queue_gen(draws(0, 0, &[], 0), path("r"), true).is_err());
    assert!(g.maybe_queue_final_gen(draws(0, 0, &[], 0), path("r")).is_err());
}

#[test]
fn dynamic_generator_with_bytes_seeds_every_task() {
    let mut g = DynamicGenerator {
        bytes: Some(GeneratorBytes { fill_byte: Some(42) }),
    };
    assert!(g.draw_plan(0, true).seed);
    let queued = g.queue_gen(draws(4, 0, &[], 77), path("r"), true).ok().unwrap();
    assert_eq!(queued.outcome.num_dirs, 1);
    match queued.task.file_contents {
        FileContents::OnTheFly(c) => {
            assert_eq!(c.seed, 77);
            assert_eq!(c.fill_byte, Some(42));
        }
        _ => panic!("expected contents drawn on the fly"),
    }
}

#[test]
fn static_generator_counts_the_files_down() {
    let mut g = StaticGenerator::new(
        DynamicGenerator { bytes: None },
        Some(NonZeroU64::new(10).unwrap()),
        None,
    );
    let queued = g.queue_gen(draws(4, 2, &[], 0), path("r"), true).ok().unwrap();
    assert_eq!(queued.outcome.num_files, 4);
    assert_eq!(queued.outcome.num_dirs, 2);
    assert!(!queued.outcome.done);
    assert_eq!(g.files_exact, Some(6));
    assert_eq!(g.root_num_files_hack, Some(4));
    assert!(!g.done);

    // The draw plan knows that the next directory ends the run.
    assert!(!g.draw_plan(6, true).num_dirs);
    assert!(g.draw_plan(5, true).num_dirs);

    let queued = g.queue_gen(draws(9, 5, &[], 0), path("r/0.dir"), true).ok().unwrap();
    assert_eq!(queued.outcome.num_files, 6);
    assert_eq!(queued.outcome.num_dirs, 0);
    assert!(queued.outcome.done);
    assert!(g.done);
    assert_eq!(g.root_num_files_hack, Some(4));

    assert!(g.maybe_queue_final_gen(draws(0, 0, &[], 0), path("r")).is_err());
}

#[test]
fn static_generator_sweeps_up_the_files_that_are_left() {
    let mut g = StaticGenerator::new(
        DynamicGenerator { bytes: None },
        Some(NonZeroU64::new(10).unwrap()),
        None,
    );
    g.queue_gen(draws(3, 0, &[], 0), path("r"), false).ok().unwrap();
    assert_eq!(
        g.final_draw_plan(),
        DrawPlan {
            num_dirs: false,
            byte_counts: 0,
            seed: false
        }
    );
    let queued = g.maybe_queue_final_gen(draws(0, 0, &[], 0), path("r")).ok().unwrap();
    assert_eq!(queued.task.num_files, 7);
    assert_eq!(queued.task.num_dirs, 0);
    // The files of the closing task are numbered after those of the root.
    assert_eq!(queued.task.file_offset, 3);
    assert!(queued.outcome.done);
    assert!(g.done);
    assert!(g.maybe_queue_final_gen(draws(0, 0, &[], 0), path("r")).is_err());
}

#[test]
fn exact_bytes_are_clamped_to_what_is_left() {
    let mut g = exact(None, Some(100), Some(1));
    assert_eq!(
        g.draw_plan(3, true),
        DrawPlan {
            num_dirs: true,
            byte_counts: 3,
            seed: true
        }
    );
    let queued = g
        .queue_gen(draws(3, 1, &[40, 50, 60], 5), path("r"), true)
        .ok()
        .unwrap();
    match queued.task.file_contents {
        FileContents::PreDefined(c) => {
            assert_eq!(c.byte_counts, vec![40, 50, 10]);
            assert_eq!(c.seed, 5);
            assert_eq!(c.fill_byte, Some(1));
        }
        _ => panic!("expected byte counts fixed beforehand"),
    }
    assert_eq!(g.bytes_exact, Some(0));
    assert!(!g.done);

    // Nothing is left: files are empty and nothing more is drawn for them.
    assert_eq!(
        g.draw_plan(2, false),
        DrawPlan {
            num_dirs: false,
            byte_counts: 0,
            seed: false
        }
    );
    let queued = g.queue_gen(draws(2, 0, &[], 0), path("r/0.dir"), false).ok().unwrap();
    assert!(matches!(queued.task.file_contents, FileContents::Empty(_)));
    assert!(g.maybe_queue_final_gen(draws(0, 0, &[], 0), path("r")).is_err());
    assert!(g.done);
}

#[test]
fn closing_task_takes_the_bytes_that_are_left() {
    let mut g = exact(None, Some(100), None);
    g.queue_gen(draws(2, 0, &[10, 20], 5), path("r"), false).ok().unwrap();
    assert_eq!(g.bytes_exact, Some(70));
    assert_eq!(
        g.final_draw_plan(),
        DrawPlan {
            num_dirs: false,
            byte_counts: 1,
            seed: true
        }
    );
    let queued = g.maybe_queue_final_gen(draws(0, 0, &[30], 9), path("r")).ok().unwrap();
    assert_eq!(queued.task.num_files, 1);
    assert_eq!(queued.task.file_offset, 2);
    match queued.task.file_contents {
        FileContents::PreDefined(c) => {
            assert_eq!(c.byte_counts, vec![70]);
            assert_eq!(c.seed, 9);
        }
        _ => panic!("expected byte counts fixed beforehand"),
    }
}

#[test]
fn last_task_spreads_leftover_bytes() {
    // Ten files are left and a hundred and three bytes; the samples use up
    // thirty of them.
    let mut g = exact(Some(10), Some(103), None);
    assert_eq!(g.draw_plan(50, true).byte_counts, 10);
    let queued = g
        .queue_gen(draws(50, 2, &[3; 10], 1), path("r"), true)
        .ok()
        .unwrap();
    assert!(queued.outcome.done);
    assert_eq!(queued.outcome.num_files, 10);
    assert_eq!(queued.outcome.num_dirs, 0);
    match queued.task.file_contents {
        FileContents::PreDefined(c) => {
            // 73 bytes are left: seven for each file and one more for the
            // first three.
            assert_eq!(c.byte_counts, vec![11, 11, 11, 10, 10, 10, 10, 10, 10, 10]);
            assert_eq!(c.byte_counts.iter().sum::<u64>(), 103);
        }
        _ => panic!("expected byte counts fixed beforehand"),
    }
}

#[test]
fn exact_files_without_exact_bytes_draw_on_the_fly() {
    let mut g = exact(Some(10), None, Some(3));
    assert_eq!(
        g.draw_plan(4, true),
        DrawPlan {
            num_dirs: true,
            byte_counts: 0,
            seed: true
        }
    );
    // A directory without files draws no seed.
    assert!(!g.draw_plan(0, true).seed);
    let queued = g.queue_gen(draws(4, 0, &[], 8), path("r"), true).ok().unwrap();
    match queued.task.file_contents {
        FileContents::OnTheFly(c) => {
            assert_eq!(c.seed, 8);
            assert_eq!(c.fill_byte, Some(3));
        }
        _ => panic!("expected contents drawn on the fly"),
    }
    let queued = g.queue_gen(draws(0, 2, &[], 8), path("r"), true).ok().unwrap();
    assert!(matches!(queued.task.file_contents, FileContents::Empty(_)));
}

#[test]
fn same_draws_give_the_same_task() {
    let run = || {
        let mut g = exact(Some(50), Some(500), Some(9));
        let a = g
            .queue_gen(draws(5, 2, &[100, 200, 300, 400, 500], 3), path("r"), true)
            .ok()
            .unwrap();
        // The bytes are used up: the closing task draws nothing.
        assert_eq!(g.final_draw_plan().byte_counts, 0);
        let b = g.maybe_queue_final_gen(draws(0, 0, &[], 4), path("r")).ok().unwrap();
        let counts = |c: FileContents| match c {
            FileContents::PreDefined(c) => c.byte_counts,
            _ => Vec::new(),
        };
        (
            a.task.num_files,
            counts(a.task.file_contents),
            b.task.num_files,
            b.task.file_offset,
            counts(b.task.file_contents),
        )
    };
    let first = run();
    assert_eq!(first, run());
    assert_eq!(first.1, vec![100, 200, 200, 0, 0]);
    assert_eq!(first.2, 45);
    assert_eq!(first.3, 5);
    assert_eq!(first.4, Vec::<u64>::new());
}
