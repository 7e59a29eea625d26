use std::collections::HashSet;
use std::sync::Arc;

use ftzz::engine::{
    create_files_and_dirs, DynamicGenerator, FileContents, FilePlan, GeneratorBytes,
    GeneratorStats, GeneratorTaskParams, Request, Scheduler, StaticGenerator, TaskAction,
    TaskEvent, TaskGenerator,
};
use ftzz::utils::{FastPathBuf, FileNameCache};
use ftzz::{Generator, NonZeroU64, NumFilesWithRatio};

/// Numbers that look drawn and are the same on every run.
struct Numbers(u64);

impl Numbers {
    fn next(&mut self) -> u64 {
        self.0 = self
            .0
            .wrapping_mul(6364136223846793005)
            .wrapping_add(1442695040888963407);
        self.0 >> 33
    }

    fn around(&mut self, mean: u64) -> u64 {
        if mean == 0 {
            self.next() % 2
        } else {
            mean / 2 + self.next() % (mean + 1)
        }
    }
}

/// Gives the scheduler the numbers it asks for and gathers its tasks.
fn plan<G: TaskGenerator>(
    generator: G,
    num_files: u64,
    max_depth: usize,
    fanout: u64,
    bytes_per_file: u64,
    seed: u64,
) -> Vec<GeneratorTaskParams<FileContents>> {
    let mut numbers = Numbers(seed);
    let mut scheduler = Scheduler::new(
        FastPathBuf::from_bytes(b"root".to_vec()),
        NonZeroU64::new(num_files).unwrap(),
        max_depth,
        generator,
    );
    let mut tasks = Vec::new();
    let mut steps = 0u64;
    while !scheduler.is_finished() {
        let drawn = match scheduler.request() {
            Request::FileCount {
                target_file_count,
                remaining_depth,
            } => {
                let mut mean = target_file_count;
                for _ in 0..remaining_depth {
                    mean /= fanout.max(1);
                }
                numbers.around(mean)
            }
            Request::DirCount => numbers.around(fanout),
            Request::ByteCount => numbers.around(bytes_per_file),
            Request::Seed => numbers.next(),
            Request::Nothing => 0,
            Request::Finished => unreachable!(),
        };
        if let Some(task) = scheduler.step(drawn) {
            tasks.push(task);
        }
        steps += 1;
        assert!(steps < 10_000_000, "the walk does not end");
    }
    assert_eq!(scheduler.request(), Request::Finished);
    // A finished scheduler stays finished and hands out nothing.
    assert!(scheduler.step(1).is_none());
    assert!(scheduler.is_finished());
    tasks
}

fn names() -> Arc<FileNameCache> {
    Arc::new(FileNameCache::new())
}

fn text(path: &FastPathBuf) -> String {
    String::from_utf8(path.as_bytes().to_vec()).unwrap()
}

fn depth(path: &str) -> usize {
    assert!(path.starts_with("root"));
    path["root".len()..].matches('/').count()
}

fn planned_bytes(task: &GeneratorTaskParams<FileContents>) -> u64 {
    match &task.file_contents {
        FileContents::PreDefined(c) => c.byte_counts.iter().sum(),
        _ => 0,
    }
}

/// Runs a task against a file system that exists in memory only.
fn run(
    task: GeneratorTaskParams<FileContents>,
    entries: &mut HashSet<String>,
    files: &mut Vec<(String, u64)>,
    numbers: &mut Numbers,
) -> GeneratorStats {
    assert!(task.runnable());
    let mut task = create_files_and_dirs(task, names());
    loop {
        let event = match task.action() {
            TaskAction::CreateDirAll => {
                let path = text(task.path());
                let mut at = 0;
                while let Some(next) = path[at..].find('/') {
                    entries.insert(path[..at + next].to_owned());
                    at += next + 1;
                }
                entries.insert(path);
                TaskEvent::Done { drawn: 0 }
            }
            TaskAction::DrawByteCount => TaskEvent::Done {
                drawn: numbers.around(10),
            },
            TaskAction::CreateFile(plan) => {
                let path = text(task.path());
                let parent = path[..path.rfind('/').unwrap()].to_owned();
                if !entries.contains(&parent) {
                    TaskEvent::NotFound
                } else {
                    assert!(entries.insert(path.clone()), "{path} is created twice");
                    let drawn = numbers.around(10);
                    let size = match plan {
                        FilePlan::Empty => 0,
                        FilePlan::Write { num_bytes, .. } => num_bytes,
                        FilePlan::DrawThenWrite { .. } => drawn,
                    };
                    files.push((path, size));
                    TaskEvent::Done { drawn }
                }
            }
            TaskAction::Finished(stats) => return stats,
            TaskAction::Failed => panic!("the task failed"),
        };
        task.advance(event);
    }
}

fn materialize(
    tasks: Vec<GeneratorTaskParams<FileContents>>,
) -> (Vec<(String, u64)>, GeneratorStats) {
    let mut entries = HashSet::new();
    entries.insert("root".to_owned());
    let mut files = Vec::new();
    let mut numbers = Numbers(7);
    let mut total = GeneratorStats::default();
    for task in tasks {
        let stats = run(task, &mut entries, &mut files, &mut numbers);
        total.files += stats.files;
        total.dirs += stats.dirs;
        total.bytes += stats.bytes;
    }
    (files, total)
}

fn dynamic(bytes: bool) -> DynamicGenerator {
    DynamicGenerator {
        bytes: bytes.then_some(GeneratorBytes { fill_byte: Some(42) }),
    }
}

fn exact(files: Option<u64>, bytes: Option<u64>) -> StaticGenerator {
    StaticGenerator::new(
        dynamic(bytes.is_some()),
        files.map(|n| NonZeroU64::new(n).unwrap()),
        bytes.map(|n| NonZeroU64::new(n).unwrap()),
    )
}

#[test]
fn one_file_and_no_depth_gives_one_file_at_the_root() {
    let tasks = plan(exact(Some(1), None), 1, 0, 0, 0, 1);
    assert_eq!(tasks.len(), 1);
    assert_eq!(text(&tasks[0].target_dir), "root");
    assert_eq!(tasks[0].num_files, 1);
    assert_eq!(tasks[0].num_dirs, 0);
    let (files, stats) = materialize(tasks);
    assert_eq!(files, vec![("root/0".to_owned(), 0)]);
    assert_eq!(
        stats,
        GeneratorStats {
            files: 1,
            dirs: 0,
            bytes: 0
        }
    );
}

#[test]
fn no_depth_gives_a_flat_tree() {
    for seed in 0..20 {
        let tasks = plan(dynamic(false), 1000, 0, 0, 0, seed);
        assert_eq!(tasks.len(), 1);
        assert_eq!(text(&tasks[0].target_dir), "root");
        assert_eq!(tasks[0].num_dirs, 0);
        assert!(tasks[0].num_files >= 500 && tasks[0].num_files <= 1500);
    }
}

#[test]
fn exact_files_are_planned_exactly() {
    for &(num_files, max_depth, fanout) in &[
        (1u64, 0usize, 0u64),
        (1, 3, 1),
        (10, 1, 3),
        (1000, 3, 4),
        (10_000, 2, 10),
        (5_000, 4, 3),
        (777, 10, 2),
    ] {
        for seed in 0..5 {
            let tasks = plan(exact(Some(num_files), None), num_files, max_depth, fanout, 0, seed);
            let planned: u64 = tasks.iter().map(|t| t.num_files).sum();
            assert_eq!(planned, num_files);
            let (files, stats) = materialize(tasks);
            assert_eq!(files.len() as u64, num_files);
            assert_eq!(stats.files, num_files);
            let distinct: HashSet<&String> = files.iter().map(|(path, _)| path).collect();
            assert_eq!(distinct.len() as u64, num_files);
        }
    }
}

#[test]
fn exact_bytes_are_planned_exactly() {
    for &(num_files, max_depth, fanout, bytes) in &[
        (1u64, 0usize, 0u64, 1u64),
        (1000, 3, 3, 100_000),
        (1000, 3, 3, 17),
        (50, 2, 2, 1_000_000),
        (300, 0, 0, 12_345),
        (200, 5, 2, 1),
    ] {
        for seed in 0..5 {
            for &files_exact in &[false, true] {
                let generator = exact(files_exact.then_some(num_files), Some(bytes));
                let tasks = plan(generator, num_files, max_depth, fanout, bytes / num_files, seed);
                assert_eq!(tasks.iter().map(planned_bytes).sum::<u64>(), bytes);
                if files_exact {
                    assert_eq!(tasks.iter().map(|t| t.num_files).sum::<u64>(), num_files);
                }
                let (files, stats) = materialize(tasks);
                assert_eq!(files.iter().map(|(_, size)| size).sum::<u64>(), bytes);
                assert_eq!(stats.bytes, bytes);
            }
        }
    }
}

#[test]
fn no_task_lies_deeper_than_allowed() {
    for &max_depth in &[0usize, 1, 2, 5, 10] {
        for seed in 0..5 {
            let tasks = plan(dynamic(true), 3000, max_depth, 3, 10, seed);
            assert!(!tasks.is_empty());
            for task in &tasks {
                let path = text(&task.target_dir);
                let at = depth(&path);
                assert!(at <= max_depth, "{path} lies deeper than {max_depth}");
                if task.num_dirs > 0 {
                    assert!(at < max_depth, "{path} gets subdirectories");
                }
            }
            let (files, _) = materialize(tasks);
            for (path, _) in &files {
                assert!(depth(path) <= max_depth + 1);
            }
        }
    }
}

#[test]
fn every_task_works_below_the_root() {
    let tasks = plan(exact(Some(2000), Some(5000)), 2000, 4, 3, 3, 11);
    for task in &tasks {
        let path = text(&task.target_dir);
        assert!(path == "root" || path.starts_with("root/"));
        for segment in path["root".len()..].split('/').skip(1) {
            let number = segment.strip_suffix(".dir").unwrap();
            assert!(!number.is_empty() && number.bytes().all(|b| b.is_ascii_digit()));
        }
    }
    let (files, _) = materialize(tasks);
    for (path, _) in &files {
        assert!(path.starts_with("root/"));
        let name = &path[path.rfind('/').unwrap() + 1..];
        assert!(!name.is_empty() && name.bytes().all(|b| b.is_ascii_digit()));
    }
}

#[test]
fn no_directory_gets_two_tasks_but_the_root() {
    let tasks = plan(exact(Some(4000), None), 4000, 5, 3, 0, 3);
    let mut seen = HashSet::new();
    for (i, task) in tasks.iter().enumerate() {
        let path = text(&task.target_dir);
        if !seen.insert(path.clone()) {
            // Only the closing task comes back to a directory: the root.
            assert_eq!(path, "root");
            assert_eq!(i, tasks.len() - 1);
            assert_eq!(task.file_offset, tasks[0].num_files);
        }
    }
}

#[test]
fn parents_are_planned_before_their_children() {
    let tasks = plan(dynamic(false), 3000, 4, 3, 0, 5);
    let mut known = HashSet::new();
    known.insert("root".to_owned());
    for task in &tasks {
        let path = text(&task.target_dir);
        assert!(known.contains(&path), "{path} is planned before its parent");
        for i in 0..task.num_dirs {
            known.insert(format!("{path}/{i}.dir"));
        }
    }
}

#[test]
fn same_numbers_give_the_same_tree() {
    let tree = |seed: u64| {
        let tasks = plan(exact(Some(5000), Some(50_000)), 5000, 4, 3, 10, seed);
        let mut files = materialize(tasks).0;
        files.sort();
        files
    };
    let first = tree(12345);
    assert_eq!(first, tree(12345));
    assert_eq!(first.len(), 5000);
    assert_ne!(first, tree(12346));
}

#[test]
fn without_exact_files_the_count_is_close() {
    for seed in 0..10 {
        let tasks = plan(dynamic(false), 1000, 5, 1, 0, seed);
        let planned: u64 = tasks.iter().map(|t| t.num_files).sum();
        assert!(planned > 0);
        for task in &tasks {
            assert!(depth(&text(&task.target_dir)) <= 5);
        }
    }
}

#[test]
fn first_request_is_for_the_root() {
    let scheduler = Scheduler::new(
        FastPathBuf::from_bytes(b"root".to_vec()),
        NonZeroU64::new(1000).unwrap(),
        5,
        dynamic(false),
    );
    assert!(!scheduler.is_finished());
    assert_eq!(
        scheduler.request(),
        Request::FileCount {
            target_file_count: 1000,
            remaining_depth: 5
        }
    );
}

#[test]
fn walk_follows_the_numbers_it_is_given() {
    // Two levels: the root gets two subdirectories, which get one each.
    let mut scheduler = Scheduler::new(
        FastPathBuf::from_bytes(b"root".to_vec()),
        NonZeroU64::new(100).unwrap(),
        2,
        dynamic(false),
    );
    let mut log = Vec::new();
    let mut numbers = vec![10u64, 2, 30, 1, 31, 1, 5, 6].into_iter();
    while !scheduler.is_finished() {
        let request = scheduler.request();
        let drawn = match request {
            Request::Nothing => 0,
            _ => numbers.next().unwrap(),
        };
        if !matches!(request, Request::Nothing) {
            log.push(request);
        }
        if let Some(task) = scheduler.step(drawn) {
            log.push(Request::Nothing);
            assert!(!text(&task.target_dir).is_empty());
        }
    }
    assert!(numbers.next().is_none());
    let files = |target_file_count, remaining_depth| Request::FileCount {
        target_file_count,
        remaining_depth,
    };
    assert_eq!(
        log,
        vec![
            // The root: ten files, two subdirectories.
            files(100, 2),
            Request::DirCount,
            Request::Nothing,
            // Its subdirectories share the ninety files that are left.
            files(45, 1),
            Request::DirCount,
            Request::Nothing,
            files(45, 1),
            Request::DirCount,
            Request::Nothing,
            // Their subdirectories end the tree: no subdirectories are drawn.
            files(15, 0),
            Request::Nothing,
            files(14, 0),
            Request::Nothing,
        ]
    );
}

#[test]
fn tasks_come_in_the_order_of_the_walk() {
    let mut scheduler = Scheduler::new(
        FastPathBuf::from_bytes(b"root".to_vec()),
        NonZeroU64::new(100).unwrap(),
        2,
        dynamic(false),
    );
    let mut numbers = vec![10u64, 2, 30, 2, 31, 1, 5, 6, 7].into_iter();
    let mut paths = Vec::new();
    while !scheduler.is_finished() {
        let drawn = match scheduler.request() {
            Request::Nothing => 0,
            _ => numbers.next().unwrap(),
        };
        if let Some(task) = scheduler.step(drawn) {
            paths.push((text(&task.target_dir), task.num_files, task.num_dirs));
        }
    }
    assert_eq!(
        paths,
        vec![
            ("root".to_owned(), 10, 2),
            ("root/0.dir".to_owned(), 30, 2),
            ("root/1.dir".to_owned(), 31, 1),
            ("root/0.dir/0.dir".to_owned(), 5, 0),
            ("root/0.dir/1.dir".to_owned(), 6, 0),
            ("root/1.dir/0.dir".to_owned(), 7, 0),
        ]
    );
}

#[test]
fn exact_bytes_of_zero_give_empty_files() {
    let generator = Generator::builder()
        .root_dir("root".into())
        .num_files_with_ratio(NumFilesWithRatio::from_num_files(
            NonZeroU64::new(500).unwrap(),
        ))
        .bytes_exact(true)
        .max_depth(3)
        .build();
    assert!(generator.static_generator().is_none());
    let tasks = plan(generator.dynamic_generator(), 500, 3, 3, 0, 9);
    assert!(!tasks.is_empty());
    for task in &tasks {
        assert!(matches!(task.file_contents, FileContents::Empty(_)));
    }
    let (files, stats) = materialize(tasks);
    assert!(files.iter().all(|(_, size)| *size == 0));
    assert_eq!(stats.bytes, 0);
}

#[test]
fn one_file_with_depth_is_planned_exactly() {
    for max_depth in 1..6 {
        for seed in 0..10 {
            let tasks = plan(exact(Some(1), None), 1, max_depth, 1, 0, seed);
            assert_eq!(tasks.iter().map(|t| t.num_files).sum::<u64>(), 1);
            let (files, _) = materialize(tasks);
            assert_eq!(files.len(), 1);
        }
    }
}

#[test]
fn fill_byte_reaches_every_task() {
    let tasks = plan(dynamic(true), 1000, 3, 3, 100, 2);
    for task in &tasks {
        match &task.file_contents {
            FileContents::OnTheFly(contents) => assert_eq!(contents.fill_byte, Some(42)),
            other => panic!("unexpected contents {other:?}"),
        }
    }
    let tasks = plan(exact(None, Some(100_000)), 1000, 3, 3, 100, 2);
    for task in &tasks {
        if let FileContents::PreDefined(contents) = &task.file_contents {
            assert_eq!(contents.fill_byte, Some(42));
        }
    }
}
