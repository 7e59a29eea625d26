//! The walk through the tree that is being planned.
//!
//! The scheduler visits the directories depth first and hands out one task
//! for every directory that gets files or subdirectories. It never draws a
//! number itself: it says which number it needs next, is given one, and goes
//! on from there.

use crate::engine::file_contents::FileContents;
use crate::engine::files::{GeneratorTaskParams, TaskView};
use crate::engine::tasks::{
    fits_usize, issued_bytes, issued_files, DrawPlan, Draws, DrawsView, Issue,
    QueueErrors, Queued, TaskGenerator,
};
use crate::engine::tree::{
    apart, in_tree, lemma_before_child, lemma_before_sibling, lemma_pop_path, path_of, placed,
    walked_before, Placement,
};
use crate::utils::fast_path::{spec_push, FastPathBuf};
use crate::utils::file_names::{dir_bytes, dir_name, FileNameCache};
use crate::utils::non_zero::NonZeroU64;
use vstd::prelude::*;

verus! {

/// What a directory that is still to be visited was promised.
#[derive(Debug, Copy, Clone, PartialEq, Eq, Structural)]
pub struct DirChild {
    /// Number of files that its subtree is to hold.
    pub files: u64,
    /// Number of its subdirectories.
    pub dirs: usize,
}

/// The subdirectories of one directory on the way from the root to the
/// directory that is visited now.
pub struct Directory {
    /// Number of subdirectories that the directory has.
    pub total_dirs: usize,
    /// What the subdirectories that are still to be visited were promised,
    /// the one that is visited next last.
    pub child_dir_counts: Vec<DirChild>,
}

/// A `Directory` as the contracts see it.
pub struct DirectoryView {
    pub total_dirs: usize,
    pub child_dir_counts: Seq<DirChild>,
}

impl View for Directory {
    type V = DirectoryView;

    open spec fn view(&self) -> DirectoryView {
        DirectoryView { total_dirs: self.total_dirs, child_dir_counts: self.child_dir_counts@ }
    }
}

/// The number that the scheduler needs next.
#[derive(Debug, Copy, Clone, PartialEq, Eq, Structural)]
pub enum Request {
    /// The number of files of a directory whose subtree is to hold
    /// `target_file_count` files and may be `remaining_depth` levels deep.
    FileCount { target_file_count: u64, remaining_depth: usize },
    /// The number of subdirectories of a directory.
    DirCount,
    /// The number of bytes of one file.
    ByteCount,
    /// The seed of a task's own pseudorandom generator.
    Seed,
    /// No number: the next step needs none and looks at none.
    Nothing,
    /// No number: the tree is planned.
    Finished,
}

/// What the scheduler is doing.
#[derive(Debug, Copy, Clone, PartialEq, Eq, Structural)]
pub enum Phase {
    /// It gathers the numbers for the root directory.
    Root,
    /// It gathers the numbers for one subdirectory of the visited directory.
    Child,
    /// It gathers the numbers for the closing task.
    Last,
    /// It moves on to the next directory.
    Walk,
    /// It has planned the tree.
    Finished,
}

/// The subdirectories of the visited directory, as far as their tasks have
/// been planned.
pub struct BatchView {
    /// Number of files that the subtree of the visited directory is to hold.
    pub target_file_count: u64,
    /// Number of subdirectories of the visited directory.
    pub num_dirs: usize,
    /// Number of subdirectories whose tasks have been planned.
    pub index: usize,
    /// Whether the subdirectories may have subdirectories of their own.
    pub gen_next_dirs: bool,
    /// The number of the directory that is visited after this one.
    pub next_stack_dir: usize,
    /// Whether the visited directory is the last of its parent.
    pub is_completing: bool,
    /// What the subdirectories were promised, in the order of their numbers.
    pub children: Seq<DirChild>,
}

/// The scheduler as the contracts see it.
pub struct SchedulerView<G> {
    pub generator: G,
    pub root: Seq<u8>,
    pub target_file_count: u64,
    pub max_depth: usize,
    pub stack: Seq<DirectoryView>,
    /// The numbers of the directories on the way from the root to the
    /// visited directory.
    pub cursor: Seq<nat>,
    pub batch: BatchView,
    pub phase: Phase,
    pub request: Request,
    pub plan: DrawPlan,
    pub draws: DrawsView,
    /// Number of files in the tasks handed out so far.
    pub planned_files: nat,
    /// Number of bytes that the tasks handed out so far fix for their files.
    pub planned_bytes: nat,
    /// Where the tasks handed out so far work, in the order of the tasks.
    pub handed: Seq<Placement>,
    /// Number of files that the run promises, where it promises one.
    pub files_promised: Option<nat>,
    /// Number of bytes that the run promises, where it promises one.
    pub bytes_promised: Option<nat>,
}

/// Length of the longest name of a file: the digits of the largest number.
pub const MAX_NAME_LEN: usize = 20;

/// Number of files that the subtree of each subdirectory is to hold, when
/// the subtree of its parent is to hold `target_file_count` files, of which
/// `files_created` lie in the parent itself: an equal share of the rest.
/// Where there is no subdirectory, the rest is counted as the share of one.
pub open spec fn spec_next_target_file_count(
    target_file_count: u64,
    dirs_created: usize,
    files_created: u64,
) -> u64 {
    if target_file_count >= files_created {
        ((target_file_count - files_created) / (if dirs_created > 1 {
            dirs_created as int
        } else {
            1
        })) as u64
    } else {
        0
    }
}

/// Number of files that the subtree of each subdirectory is to hold.
pub fn next_target_file_count(target_file_count: u64, dirs_created: usize, files_created: u64) -> (files:
    u64)
    ensures
        files == spec_next_target_file_count(target_file_count, dirs_created, files_created),
{
    let files: u64 = target_file_count.saturating_sub(files_created);
    let sharers: u64 = if dirs_created > 1 {
        dirs_created as u64
    } else {
        1
    };
    files / sharers
}

/// The first number that is still needed, of those that come at or after
/// place `from` in the order of drawing: the number of subdirectories at
/// place 1, the byte counts at place 2, the seed at place 3.
pub open spec fn spec_next_needed(plan: DrawPlan, collected: nat, from: int) -> Option<Request> {
    if from <= 1 && plan.num_dirs {
        Some(Request::DirCount)
    } else if from <= 2 && collected < plan.byte_counts {
        Some(Request::ByteCount)
    } else if from <= 3 && plan.seed {
        Some(Request::Seed)
    } else {
        None
    }
}

/// The first number that is still needed at or after place `from`.
pub fn next_needed(plan: DrawPlan, collected: usize, from: u8) -> (request: Option<Request>)
    ensures
        request == spec_next_needed(plan, collected as nat, from as int),
{
    if from <= 1 && plan.num_dirs {
        Some(Request::DirCount)
    } else if from <= 2 && collected < plan.byte_counts {
        Some(Request::ByteCount)
    } else if from <= 3 && plan.seed {
        Some(Request::Seed)
    } else {
        None
    }
}

/// Draws of which none has been made yet.
pub open spec fn no_draws() -> DrawsView {
    DrawsView { num_files: 0, num_dirs: 0, byte_counts: Seq::empty(), seed: 0 }
}

impl<G: TaskGenerator> SchedulerView<G> {
    /// The scheduler before its first step.
    pub open spec fn start(
        generator: G,
        root: Seq<u8>,
        target_file_count: u64,
        max_depth: usize,
    ) -> Self {
        SchedulerView {
            generator,
            root,
            target_file_count,
            max_depth,
            stack: Seq::empty(),
            cursor: Seq::empty(),
            batch: BatchView {
                target_file_count: 0,
                num_dirs: 0,
                index: 0,
                gen_next_dirs: false,
                next_stack_dir: 0,
                is_completing: false,
                children: Seq::empty(),
            },
            phase: Phase::Root,
            request: Request::FileCount { target_file_count, remaining_depth: max_depth },
            plan: DrawPlan { num_dirs: false, byte_counts: 0, seed: false },
            draws: no_draws(),
            planned_files: 0,
            planned_bytes: 0,
            handed: Seq::empty(),
            files_promised: generator.spec_owed_files(),
            bytes_promised: generator.spec_owed_bytes(),
        }
    }

    /// Whether the directory that the numbers are gathered for may have
    /// subdirectories.
    pub open spec fn gen_dirs(self) -> bool {
        match self.phase {
            Phase::Root => self.max_depth > 0,
            Phase::Child => self.batch.gen_next_dirs,
            _ => false,
        }
    }

    /// Where the directory that the numbers are gathered for lies.
    pub open spec fn position(self) -> Seq<nat> {
        if self.phase is Child {
            self.cursor.push(self.batch.index as nat)
        } else {
            self.cursor
        }
    }

    /// The request for the file count of the next subdirectory.
    pub open spec fn child_request(self) -> Request {
        Request::FileCount {
            target_file_count: self.batch.target_file_count,
            remaining_depth: (self.max_depth - self.stack.len()) as usize,
        }
    }

    /// The scheduler after one step, and the task that the step hands out.
    pub open spec fn step(self, drawn: u64) -> (Self, Option<TaskView>) {
        match self.request {
            Request::Finished => (self, None),
            Request::Nothing => if self.phase is Walk {
                (self.walk(), None)
            } else {
                self.complete()
            },
            Request::FileCount { .. } => SchedulerView {
                draws: DrawsView { num_files: drawn, ..self.draws },
                plan: self.generator.spec_draw_plan(drawn, self.gen_dirs()),
                ..self
            }.advance(1),
            Request::DirCount => SchedulerView {
                draws: DrawsView { num_dirs: drawn, ..self.draws },
                ..self
            }.advance(2),
            Request::ByteCount => SchedulerView {
                draws: DrawsView { byte_counts: self.draws.byte_counts.push(drawn), ..self.draws },
                ..self
            }.advance(2),
            Request::Seed => SchedulerView {
                draws: DrawsView { seed: drawn, ..self.draws },
                ..self
            }.advance(4),
        }
    }

    /// Asks for the next number, or plans the task when all are there.
    pub open spec fn advance(self, from: int) -> (Self, Option<TaskView>) {
        match spec_next_needed(self.plan, self.draws.byte_counts.len(), from) {
            Some(request) => (SchedulerView { request, ..self }, None),
            None => self.complete(),
        }
    }

    /// Plans the task of the directory for which all numbers are there.
    pub open spec fn complete(self) -> (Self, Option<TaskView>) {
        let (generator, issue) = if self.phase is Last {
            self.generator.spec_final_gen(self.draws)
        } else {
            self.generator.spec_queue_gen(self.draws, self.gen_dirs())
        };
        let task = match issue {
            Some(issue) => Some(issue.task(path_of(self.root, self.position()))),
            None => None,
        };
        let planned = SchedulerView {
            generator,
            draws: no_draws(),
            planned_files: self.planned_files + issued_files(issue),
            planned_bytes: self.planned_bytes + issued_bytes(issue),
            handed: match issue {
                Some(issue) => self.handed.push(
                    Placement {
                        position: self.position(),
                        file_offset: issue.file_offset,
                        num_files: issue.num_files,
                    },
                ),
                None => self.handed,
            },
            ..self
        };
        match self.phase {
            Phase::Root => (planned.settle_root(issue), task),
            Phase::Child => (planned.settle_child(issue), task),
            Phase::Last => (
                SchedulerView { phase: Phase::Finished, request: Request::Finished, ..planned },
                task,
            ),
            _ => (self, None),
        }
    }

    /// After the root: its subdirectories are to be visited.
    pub open spec fn settle_root(self, issue: Option<Issue>) -> Self {
        SchedulerView {
            stack: match issue {
                Some(issue) => if issue.num_dirs > 0 {
                    seq![
                        DirectoryView {
                            total_dirs: 1,
                            child_dir_counts: seq![
                                DirChild {
                                    files: spec_next_target_file_count(
                                        self.target_file_count,
                                        issue.num_dirs,
                                        issue.num_files,
                                    ),
                                    dirs: issue.num_dirs,
                                },
                            ],
                        },
                    ]
                } else {
                    Seq::empty()
                },
                None => Seq::empty(),
            },
            phase: Phase::Walk,
            request: Request::Nothing,
            ..self
        }
    }

    /// After a subdirectory of the visited directory: it is noted down,
    /// unless its task ends the run.
    pub open spec fn settle_child(self, issue: Option<Issue>) -> Self {
        match issue {
            Some(issue) => if issue.done {
                SchedulerView {
                    batch: BatchView { children: Seq::empty(), ..self.batch },
                    ..self
                }.enter_last()
            } else {
                self.record(
                    DirChild {
                        files: spec_next_target_file_count(
                            self.batch.target_file_count,
                            issue.num_dirs,
                            issue.num_files,
                        ),
                        dirs: issue.num_dirs,
                    },
                )
            },
            None => self.record(DirChild { files: 0, dirs: 0 }),
        }
    }

    /// Notes down what a subdirectory of the visited directory was promised:
    /// the next one is planned, or the walk goes on.
    pub open spec fn record(self, child: DirChild) -> Self {
        let recorded = SchedulerView {
            batch: BatchView {
                index: (self.batch.index + 1) as usize,
                children: if self.batch.gen_next_dirs {
                    self.batch.children.push(child)
                } else {
                    self.batch.children
                },
                ..self.batch
            },
            ..self
        };
        if recorded.batch.index < recorded.batch.num_dirs {
            SchedulerView { request: recorded.child_request(), ..recorded }
        } else {
            recorded.finish_batch()
        }
    }

    /// After the last subdirectory of the visited directory: the walk goes
    /// down to its first subdirectory or, where the tree ends, on to the
    /// directory beside it.
    pub open spec fn finish_batch(self) -> Self {
        let moved = if self.batch.gen_next_dirs {
            SchedulerView {
                stack: self.stack.push(
                    DirectoryView {
                        total_dirs: self.batch.num_dirs,
                        child_dir_counts: self.batch.children.reverse(),
                    },
                ),
                cursor: self.cursor.push(0),
                ..self
            }
        } else if !self.batch.is_completing {
            SchedulerView {
                cursor: self.cursor.drop_last().push(self.batch.next_stack_dir as nat),
                ..self
            }
        } else {
            self
        };
        SchedulerView {
            batch: BatchView { children: Seq::empty(), ..self.batch },
            phase: Phase::Walk,
            request: Request::Nothing,
            ..moved
        }
    }

    /// One move of the walk: to the closing task when no directory is left,
    /// up when the subdirectories of a directory are all visited, else to
    /// the next subdirectory.
    pub open spec fn walk(self) -> Self {
        if self.stack.len() == 0 {
            self.enter_last()
        } else {
            let top = self.stack.last();
            if top.child_dir_counts.len() == 0 {
                SchedulerView { stack: self.stack.drop_last(), ..self }.handle_directory_completion()
            } else {
                let child = top.child_dir_counts.last();
                let remaining = top.child_dir_counts.drop_last();
                let begun = SchedulerView {
                    stack: self.stack.drop_last().push(
                        DirectoryView { child_dir_counts: remaining, ..top },
                    ),
                    batch: BatchView {
                        target_file_count: child.files,
                        num_dirs: child.dirs,
                        index: 0,
                        gen_next_dirs: self.stack.len() < self.max_depth,
                        next_stack_dir: (top.total_dirs - remaining.len()) as usize,
                        is_completing: remaining.len() == 0,
                        children: Seq::empty(),
                    },
                    ..self
                };
                if child.dirs == 0 {
                    begun.finish_batch()
                } else {
                    SchedulerView {
                        phase: Phase::Child,
                        request: begun.child_request(),
                        ..begun
                    }
                }
            }
        }
    }

    /// After a directory whose subdirectories are all visited has been left:
    /// the walk stands in its parent or, where the parent has more
    /// subdirectories, in the next of them.
    pub open spec fn handle_directory_completion(self) -> Self {
        if self.stack.len() == 0 {
            self
        } else {
            let top = self.stack.last();
            let up = self.cursor.drop_last();
            SchedulerView {
                cursor: if top.child_dir_counts.len() > 0 {
                    up.drop_last().push((top.total_dirs - top.child_dir_counts.len()) as nat)
                } else {
                    up
                },
                ..self
            }
        }
    }

    /// The walk has ended: the closing task is next.
    pub open spec fn enter_last(self) -> Self {
        let plan = self.generator.spec_final_draw_plan();
        SchedulerView {
            phase: Phase::Last,
            plan,
            request: match spec_next_needed(plan, 0, 2) {
                Some(request) => request,
                None => Request::Nothing,
            },
            ..self
        }
    }
}

/// The path of the subdirectory numbered `index` of the directory at
/// `target_dir`, in a buffer from `paths` where one is free.
fn child_path(
    target_dir: &FastPathBuf,
    paths: &mut Vec<FastPathBuf>,
    names: &FileNameCache,
    index: usize,
) -> (path: FastPathBuf)
    ensures
        path@ == spec_push(target_dir@, dir_bytes(index as nat)),
{
    let name = dir_name(names, index);
    let mut path = match paths.pop() {
        Some(free) => free,
        None => FastPathBuf::new(),
    };
    // Room for the directory, its subdirectory, the name of a file in it
    // and the byte that ends a path.
    let wanted: usize = target_dir.capacity().saturating_add(name.as_str().len()).saturating_add(
        MAX_NAME_LEN + 3,
    );
    path.reserve(wanted.saturating_sub(path.capacity()));
    path.copy_from(target_dir);
    path.push(name.as_str());
    path
}

/// Allocations that are kept for another use.
struct ObjectPool {
    directories: Vec<Vec<DirChild>>,
    paths: Vec<FastPathBuf>,
}

/// The subdirectories of the visited directory, as far as planned.
struct Batch {
    target_file_count: u64,
    num_dirs: usize,
    index: usize,
    gen_next_dirs: bool,
    next_stack_dir: usize,
    is_completing: bool,
    next_dirs: Vec<DirChild>,
}

/// Plans a tree, directory by directory.
pub struct Scheduler<G: TaskGenerator> {
    generator: G,
    target_file_count: u64,
    max_depth: usize,
    stack: Vec<Directory>,
    target_dir: FastPathBuf,
    cache: ObjectPool,
    names: FileNameCache,
    batch: Batch,
    phase: Phase,
    request: Request,
    plan: DrawPlan,
    draws: Draws,
    root: Ghost<Seq<u8>>,
    cursor: Ghost<Seq<nat>>,
    planned_files: Ghost<nat>,
    planned_bytes: Ghost<nat>,
    handed: Ghost<Seq<Placement>>,
    /// Number of files of the root's task.
    root_files: Ghost<nat>,
    /// The deepest place that the walk has been at since it last moved on
    /// to a directory beside the one it stood in.
    high: Ghost<Seq<nat>>,
    files_promised: Ghost<Option<nat>>,
    bytes_promised: Ghost<Option<nat>>,
}

/// The views of the directories in `stack`.
pub open spec fn stack_view(stack: Seq<Directory>) -> Seq<DirectoryView> {
    Seq::new(stack.len(), |i: int| stack[i]@)
}

impl<G: TaskGenerator> View for Scheduler<G> {
    type V = SchedulerView<G>;

    closed spec fn view(&self) -> SchedulerView<G> {
        SchedulerView {
            generator: self.generator,
            root: self.root@,
            target_file_count: self.target_file_count,
            max_depth: self.max_depth,
            stack: stack_view(self.stack@),
            cursor: self.cursor@,
            batch: BatchView {
                target_file_count: self.batch.target_file_count,
                num_dirs: self.batch.num_dirs,
                index: self.batch.index,
                gen_next_dirs: self.batch.gen_next_dirs,
                next_stack_dir: self.batch.next_stack_dir,
                is_completing: self.batch.is_completing,
                children: self.batch.next_dirs@,
            },
            phase: self.phase,
            request: self.request,
            plan: self.plan,
            draws: self.draws@,
            planned_files: self.planned_files@,
            planned_bytes: self.planned_bytes@,
            handed: self.handed@,
            files_promised: self.files_promised@,
            bytes_promised: self.bytes_promised@,
        }
    }
}

/// The view of a task that may have been handed out.
pub open spec fn task_view(task: Option<GeneratorTaskParams<FileContents>>) -> Option<TaskView> {
    match task {
        Some(task) => Some(task@),
        None => None,
    }
}

impl<G: TaskGenerator> Scheduler<G> {
    /// What holds of the scheduler whatever it is doing.
    closed spec fn wf_base(&self) -> bool {
        let depth = self.stack@.len();
        &&& self.generator.spec_wf()
        &&& self.root@.len() > 0
        &&& depth <= self.max_depth
        &&& self.cursor@.len() == if depth > 0 {
            depth - 1
        } else {
            0
        }
        &&& self.target_dir@ == path_of(self.root@, self.cursor@)
        &&& (self.target_dir.last_len() >= self.target_dir@.len() || (self.cursor@.len() > 0
            && self.target_dir.last_len() == path_of(self.root@, self.cursor@.drop_last()).len()))
        &&& forall|k: int|
            0 <= k < depth ==> (#[trigger] self.stack@[k]).child_dir_counts@.len()
                <= self.stack@[k].total_dirs
        &&& forall|k: int|
            0 <= k < depth - 1 ==> (#[trigger] self.stack@[k]).child_dir_counts@.len()
                < self.stack@[k].total_dirs
        &&& depth > 0 ==> self.stack@[0].total_dirs == 1
        &&& forall|k: int|
            0 <= k < self.cache.directories@.len() ==> (#[trigger] self.cache.directories@[k])@.len()
                == 0
        &&& match self.files_promised@ {
            Some(promised) => self.generator.spec_owed_files() matches Some(owed)
                && self.planned_files@ + owed == promised,
            None => self.generator.spec_owed_files() is None,
        }
        &&& fits_usize(self.files_promised@) ==> match self.bytes_promised@ {
            Some(promised) => self.generator.spec_owed_bytes() matches Some(owed)
                && self.planned_bytes@ + owed == promised,
            None => self.generator.spec_owed_bytes() is None,
        }
        &&& self.wf_handed()
        &&& self.wf_indices(depth - 1)
        &&& self.phase is Child || self.phase is Walk || self.phase is Last
            ==> self.generator.spec_closing_after(self.root_files@)
    }

    /// No subdirectory has got two tasks, and the walk has passed each that
    /// has got one. In the root works the first task and, with files that
    /// are numbered after those of the first, the closing one.
    closed spec fn wf_handed(&self) -> bool {
        &&& forall|i: int|
            0 <= i < self.handed@.len() ==> if (#[trigger] self.handed@[i]).position.len() == 0 {
                ||| i == 0 && self.handed@[i].file_offset == 0 && self.handed@[i].num_files
                    == self.root_files@
                ||| self.phase is Finished && i == self.handed@.len() - 1
                    && self.handed@[i].file_offset == self.root_files@
            } else {
                walked_before(self.handed@[i].position.drop_last(), self.high@)
            }
        &&& forall|i: int, j: int|
            0 <= i < j < self.handed@.len() && (#[trigger] self.handed@[i]).position.len() >= 1 && (
            #[trigger] self.handed@[j]).position.len() >= 1 ==> self.handed@[i].position
                != self.handed@[j].position
    }

    /// The walk stands in the directory that was taken last from the list
    /// of its parent, for the first `frames` directories on its way.
    closed spec fn wf_indices(&self, frames: int) -> bool {
        forall|k: int|
            1 <= k < frames ==> self.cursor@[k - 1] == (#[trigger] self.stack@[k]).total_dirs
                - self.stack@[k].child_dir_counts@.len() - 1
    }

    /// What holds of the walk while the subdirectories of the directory it
    /// stands in are planned: those planned have numbers below `bound`.
    closed spec fn wf_child_order(&self, bound: int) -> bool {
        let depth = self.stack@.len();
        &&& self.cursor@ == self.high@
        &&& forall|i: int|
            0 <= i < self.handed@.len() && (#[trigger] self.handed@[i]).position.len() >= 1
                && self.handed@[i].position.drop_last() == self.cursor@
                ==> self.handed@[i].position.last() < bound
        &&& depth >= 2 ==> self.cursor@.last() == self.stack@[depth - 1].total_dirs
            - self.stack@[depth - 1].child_dir_counts@.len() - 1
    }

    /// What holds of the walk between directories: where it is about to
    /// enter one, none of that directory's subdirectories is planned.
    closed spec fn wf_walk_order(&self) -> bool {
        let depth = self.stack@.len();
        if depth > 0 && self.stack@[depth - 1].child_dir_counts@.len() > 0 {
            &&& self.cursor@ == self.high@
            &&& forall|i: int|
                0 <= i < self.handed@.len() && (#[trigger] self.handed@[i]).position.len() >= 1
                    ==> self.handed@[i].position.drop_last() != self.cursor@
            &&& depth >= 2 ==> self.cursor@.last() == self.stack@[depth - 1].total_dirs
                - self.stack@[depth - 1].child_dir_counts@.len()
        } else {
            self.cursor@.is_prefix_of(self.high@)
        }
    }

    /// What holds while the subdirectories of a directory are planned.
    closed spec fn wf_batch(&self) -> bool {
        let depth = self.stack@.len();
        &&& depth >= 1
        &&& self.batch.gen_next_dirs == (depth < self.max_depth)
        &&& self.batch.next_dirs@.len() == if self.batch.gen_next_dirs {
            self.batch.index as int
        } else {
            0
        }
        &&& self.stack@[depth - 1].child_dir_counts@.len() < self.stack@[depth - 1].total_dirs
        &&& self.batch.is_completing == (self.stack@[depth - 1].child_dir_counts@.len() == 0)
        &&& self.batch.next_stack_dir == self.stack@[depth - 1].total_dirs - self.stack@[depth
            - 1].child_dir_counts@.len()
        &&& self.batch.index <= self.batch.num_dirs
    }

    /// What holds of the numbers gathered so far, for the plan `plan`.
    closed spec fn wf_draws(&self, plan: DrawPlan) -> bool {
        let collected = self.draws.byte_counts@.len();
        match self.request {
            Request::FileCount { .. } => collected == 0 && !(self.phase is Last),
            Request::DirCount => self.plan == plan && collected == 0,
            Request::ByteCount => self.plan == plan && collected < plan.byte_counts,
            Request::Seed => self.plan == plan && collected == plan.byte_counts,
            Request::Nothing => self.plan == plan && collected == plan.byte_counts
                && self.phase is Last,
            Request::Finished => false,
        }
    }

    /// Whether the scheduler is in order. It is when it is made, and every
    /// step keeps it so.
    pub closed spec fn wf(&self) -> bool {
        &&& self.wf_base()
        &&& !(self.phase is Child) ==> self.batch.next_dirs@.len() == 0
        &&& match self.phase {
            Phase::Root => {
                &&& self.stack@.len() == 0
                &&& self.handed@.len() == 0
                &&& self.high@.len() == 0
                &&& self.generator.spec_ready()
                &&& self.generator.spec_fresh()
                &&& self.wf_draws(
                    self.generator.spec_draw_plan(self.draws.num_files, self.max_depth > 0),
                )
            },
            Phase::Child => {
                &&& self.wf_batch()
                &&& self.wf_child_order(self.batch.index as int)
                &&& self.batch.index < self.batch.num_dirs
                &&& self.generator.spec_ready()
                &&& self.wf_draws(
                    self.generator.spec_draw_plan(self.draws.num_files, self.batch.gen_next_dirs),
                )
            },
            Phase::Last => {
                &&& self.wf_draws(self.generator.spec_final_draw_plan())
                &&& self.generator.spec_ready() ==> self.stack@.len() == 0
            },
            Phase::Walk => {
                &&& self.request is Nothing
                &&& self.draws.byte_counts@.len() == 0
                &&& self.stack@.len() > 0 ==> self.generator.spec_ready()
                &&& self.wf_walk_order()
            },
            Phase::Finished => {
                &&& self.request is Finished
                &&& self.files_promised@ is Some ==> self.generator.spec_owed_files() == Some(0nat)
                &&& fits_usize(self.files_promised@) && self.bytes_promised@ is Some
                    ==> self.generator.spec_owed_bytes() == Some(0nat)
            },
        }
    }

    /// A scheduler for the tree below `root_dir`, whose subtree is to hold
    /// `target_file_count` files in at most `max_depth` levels of
    /// directories.
    pub fn new(
        root_dir: FastPathBuf,
        target_file_count: NonZeroU64,
        max_depth: usize,
        generator: G,
    ) -> (scheduler: Self)
        requires
            root_dir@.len() > 0,
            generator.spec_wf(),
            generator.spec_ready(),
            generator.spec_fresh(),
        ensures
            scheduler.wf(),
            scheduler@ == SchedulerView::start(
                generator,
                root_dir@,
                target_file_count@,
                max_depth,
            ),
    {
        let files: u64 = target_file_count.get();
        proof {
            assert(path_of(root_dir@, Seq::<nat>::empty()) == root_dir@);
        }
        let scheduler = Scheduler {
            generator,
            target_file_count: files,
            max_depth,
            stack: Vec::new(),
            // The root is never taken off the path: it counts as popped.
            target_dir: FastPathBuf::from_bytes(root_dir.into_bytes()),
            cache: ObjectPool { directories: Vec::new(), paths: Vec::new() },
            names: FileNameCache::new(),
            batch: Batch {
                target_file_count: 0,
                num_dirs: 0,
                index: 0,
                gen_next_dirs: false,
                next_stack_dir: 0,
                is_completing: false,
                next_dirs: Vec::new(),
            },
            phase: Phase::Root,
            request: Request::FileCount { target_file_count: files, remaining_depth: max_depth },
            plan: DrawPlan { num_dirs: false, byte_counts: 0, seed: false },
            draws: Draws { num_files: 0, num_dirs: 0, byte_counts: Vec::new(), seed: 0 },
            root: Ghost(root_dir@),
            cursor: Ghost(Seq::empty()),
            planned_files: Ghost(0),
            planned_bytes: Ghost(0),
            handed: Ghost(Seq::empty()),
            root_files: Ghost(0),
            high: Ghost(Seq::empty()),
            files_promised: Ghost(generator.spec_owed_files()),
            bytes_promised: Ghost(generator.spec_owed_bytes()),
        };
        assert(stack_view(scheduler.stack@) =~= Seq::<DirectoryView>::empty());
        assert(scheduler.draws@.byte_counts =~= Seq::<u64>::empty());
        assert(scheduler.batch.next_dirs@ =~= Seq::<DirChild>::empty());
        scheduler
    }

    /// The walk has ended: the closing task is next.
    fn enter_last(&mut self)
        requires
            old(self).wf_base(),
            old(self).phase is Child || old(self).phase is Walk,
            old(self).stack@.len() == 0 || !old(self).generator.spec_ready(),
            old(self).draws.byte_counts@.len() == 0,
            old(self).batch.next_dirs@.len() == 0,
        ensures
            final(self).wf(),
            final(self)@ == old(self)@.enter_last(),
    {
        let plan = self.generator.final_draw_plan();
        self.phase = Phase::Last;
        self.plan = plan;
        self.request = match next_needed(plan, 0, 2) {
            Some(request) => request,
            None => Request::Nothing,
        };
    }

    /// A directory whose subdirectories are all visited has been left, and
    /// `children`, which listed them, is free: the walk moves up to the
    /// parent or on to the directory beside the one left.
    #[verifier::rlimit(40)]
    fn handle_directory_completion(&mut self, children: Vec<DirChild>)
        requires
            old(self).phase is Walk,
            old(self).request is Nothing,
            children@.len() == 0,
            old(self).draws.byte_counts@.len() == 0,
            old(self).batch.next_dirs@.len() == 0,
            old(self).stack@.len() > 0 ==> old(self).generator.spec_ready(),
            ({
                let depth = old(self).stack@.len();
                &&& old(self).generator.spec_wf()
                &&& old(self).root@.len() > 0
                &&& depth < old(self).max_depth
                &&& old(self).cursor@.len() == depth
                &&& old(self).target_dir@ == path_of(old(self).root@, old(self).cursor@)
                &&& (old(self).target_dir.last_len() >= old(self).target_dir@.len() || (old(
                    self,
                ).cursor@.len() > 0 && old(self).target_dir.last_len() == path_of(
                    old(self).root@,
                    old(self).cursor@.drop_last(),
                ).len()))
                &&& forall|k: int|
                    0 <= k < depth ==> (#[trigger] old(self).stack@[k]).child_dir_counts@.len() < old(
                        self,
                    ).stack@[k].total_dirs
                &&& depth > 0 ==> old(self).stack@[0].total_dirs == 1
                &&& forall|k: int|
                    0 <= k < old(self).cache.directories@.len() ==> (#[trigger] old(
                        self,
                    ).cache.directories@[k])@.len() == 0
                &&& match old(self).files_promised@ {
                    Some(promised) => old(self).generator.spec_owed_files() matches Some(owed)
                        && old(self).planned_files@ + owed == promised,
                    None => old(self).generator.spec_owed_files() is None,
                }
                &&& fits_usize(old(self).files_promised@) ==> match old(self).bytes_promised@ {
                    Some(promised) => old(self).generator.spec_owed_bytes() matches Some(owed)
                        && old(self).planned_bytes@ + owed == promised,
                    None => old(self).generator.spec_owed_bytes() is None,
                }
                &&& old(self).wf_handed()
                &&& old(self).generator.spec_closing_after(old(self).root_files@)
                &&& old(self).wf_indices(depth as int)
                &&& old(self).cursor@.is_prefix_of(old(self).high@)
            }),
        ensures
            final(self).wf(),
            final(self)@ == old(self)@.handle_directory_completion(),
    {
        self.cache.directories.push(children);
        let depth: usize = self.stack.len();
        if depth > 0 {
            proof {
                lemma_pop_path(self.root@, self.cursor@, self.target_dir.last_len());
            }
            self.target_dir.pop();
            let ghost left = self.cursor@;
            proof {
                self.cursor@ = left.drop_last();
                assert(self.cursor@.is_prefix_of(self.high@)) by {
                    assert(self.high@.subrange(0, left.len() - 1) =~= left.subrange(
                        0,
                        left.len() - 1,
                    ));
                }
            }
            let total_dirs: usize = self.stack[depth - 1].total_dirs;
            let remaining: usize = self.stack[depth - 1].child_dir_counts.len();
            if remaining > 0 {
                let name = dir_name(&self.names, total_dirs - remaining);
                proof {
                    if depth == 1 {
                        assert(self.stack@[0].total_dirs == 1);
                        assert(false);
                    }
                    lemma_pop_path(self.root@, self.cursor@, self.target_dir.last_len());
                }
                self.target_dir.set_file_name(name.as_str());
                proof {
                    let up = self.cursor@;
                    let beside = (total_dirs - remaining) as nat;
                    let moved = up.drop_last().push(beside);
                    assert(moved.drop_last() =~= up.drop_last());
                    assert(up.drop_last().push(up.last()) =~= up);
                    assert(up.last() == left[depth - 2]);
                    assert(self.stack@[depth - 1].total_dirs == total_dirs);
                    assert forall|i: int|
                        0 <= i < self.handed@.len() && (#[trigger] self.handed@[i]).position.len()
                            >= 1 implies walked_before(
                        self.handed@[i].position.drop_last(),
                        moved,
                    ) && self.handed@[i].position.drop_last() != moved by {
                        lemma_before_sibling(
                            self.handed@[i].position.drop_last(),
                            self.high@,
                            up.drop_last(),
                            up.last(),
                            beside,
                        );
                    }
                    assert forall|j: int| 0 <= j < depth - 2 implies #[trigger] moved[j]
                        == left[j] by {
                        assert(moved[j] == up.drop_last()[j]);
                    }
                    self.cursor@ = moved;
                    self.high@ = moved;
                }
            }
        }
    }

    /// The subdirectories of the visited directory are all planned: the
    /// walk goes down to the first of them or, where the tree ends, on to
    /// the directory beside the visited one.
    #[verifier::rlimit(40)]
    fn finish_batch(&mut self)
        requires
            old(self).wf_base(),
            old(self).wf_batch(),
            old(self).wf_child_order(old(self).batch.index as int),
            old(self).phase is Child || old(self).phase is Walk,
            old(self).batch.index == old(self).batch.num_dirs,
            old(self).generator.spec_ready(),
            old(self).draws.byte_counts@.len() == 0,
        ensures
            final(self).wf(),
            final(self)@ == old(self)@.finish_batch(),
    {
        let mut next_dirs: Vec<DirChild> = Vec::new();
        std::mem::swap(&mut self.batch.next_dirs, &mut next_dirs);
        let ghost children = next_dirs@;
        let ghost before = self.stack@;
        if self.batch.gen_next_dirs {
            let mut reversed: Vec<DirChild> = match self.cache.directories.pop() {
                Some(free) => free,
                None => Vec::new(),
            };
            // The first subdirectory is visited first: it comes last.
            while next_dirs.len() > 0
                invariant
                    next_dirs@.len() <= children.len(),
                    next_dirs@ == children.take(next_dirs@.len() as int),
                    reversed@.len() == children.len() - next_dirs@.len(),
                    forall|j: int|
                        0 <= j < reversed@.len() ==> reversed@[j] == children[children.len() - 1
                            - j],
                decreases next_dirs@.len(),
            {
                let ghost rest = next_dirs@.len();
                match next_dirs.pop() {
                    Some(child) => {
                        reversed.push(child);
                    },
                    None => {},
                }
                assert(next_dirs@ =~= children.take(rest - 1));
            }
            assert(reversed@ =~= children.reverse());
            self.cache.directories.push(next_dirs);
            self.stack.push(
                Directory { total_dirs: self.batch.num_dirs, child_dir_counts: reversed },
            );
            let name = dir_name(&self.names, 0);
            self.target_dir.push(name.as_str());
            proof {
                let above = self.cursor@;
                assert(above.push(0).drop_last() =~= above);
                assert forall|i: int|
                    0 <= i < self.handed@.len() && (#[trigger] self.handed@[i]).position.len()
                        >= 1 implies walked_before(
                    self.handed@[i].position.drop_last(),
                    above.push(0),
                ) && self.handed@[i].position.drop_last() != above.push(0) by {
                    lemma_before_child(self.handed@[i].position.drop_last(), self.high@, 0);
                }
                self.cursor@ = above.push(0);
                self.high@ = above.push(0);
                assert forall|k: int| 1 <= k < self.stack@.len() - 1 implies self.cursor@[k - 1]
                    == (#[trigger] self.stack@[k]).total_dirs
                    - self.stack@[k].child_dir_counts@.len() - 1 by {
                    assert(self.stack@[k] == before[k]);
                    assert(self.cursor@[k - 1] == above[k - 1]);
                }
                assert(stack_view(self.stack@) =~= stack_view(before).push(
                    DirectoryView {
                        total_dirs: self.batch.num_dirs,
                        child_dir_counts: children.reverse(),
                    },
                ));
                assert forall|k: int| 0 <= k < self.stack@.len() - 1 implies (
                #[trigger] self.stack@[k]).child_dir_counts@.len() < self.stack@[k].total_dirs by {
                    assert(self.stack@[k] == before[k]);
                }
            }
        } else {
            self.cache.directories.push(next_dirs);
            if !self.batch.is_completing {
                let name = dir_name(&self.names, self.batch.next_stack_dir);
                proof {
                    if self.stack@.len() == 1 {
                        assert(self.stack@[0].total_dirs == 1);
                        assert(false);
                    }
                    lemma_pop_path(self.root@, self.cursor@, self.target_dir.last_len());
                }
                self.target_dir.set_file_name(name.as_str());
                proof {
                    let here = self.cursor@;
                    let beside = self.batch.next_stack_dir as nat;
                    let moved = here.drop_last().push(beside);
                    assert(moved.drop_last() =~= here.drop_last());
                    assert(here.drop_last().push(here.last()) =~= here);
                    assert forall|i: int|
                        0 <= i < self.handed@.len() && (#[trigger] self.handed@[i]).position.len()
                            >= 1 implies walked_before(
                        self.handed@[i].position.drop_last(),
                        moved,
                    ) && self.handed@[i].position.drop_last() != moved by {
                        lemma_before_sibling(
                            self.handed@[i].position.drop_last(),
                            self.high@,
                            here.drop_last(),
                            here.last(),
                            beside,
                        );
                    }
                    assert forall|j: int| 0 <= j < self.stack@.len() - 2 implies #[trigger] moved[j]
                        == here[j] by {
                        assert(moved[j] == here.drop_last()[j]);
                    }
                    self.cursor@ = moved;
                    self.high@ = moved;
                }
            }
        }
        self.phase = Phase::Walk;
        self.request = Request::Nothing;
        proof {
            assert(self.batch.next_dirs@ =~= Seq::<DirChild>::empty());
        }
    }

    /// Notes down what a subdirectory of the visited directory was promised.
    fn record(&mut self, child: DirChild)
        requires
            old(self).wf_base(),
            old(self).wf_batch(),
            old(self).wf_child_order(old(self).batch.index + 1),
            old(self).phase is Child,
            old(self).batch.index < old(self).batch.num_dirs,
            old(self).generator.spec_ready(),
            old(self).draws.byte_counts@.len() == 0,
        ensures
            final(self).wf(),
            final(self)@ == old(self)@.record(child),
    {
        if self.batch.gen_next_dirs {
            self.batch.next_dirs.push(child);
        }
        self.batch.index = self.batch.index + 1;
        if self.batch.index < self.batch.num_dirs {
            self.request = Request::FileCount {
                target_file_count: self.batch.target_file_count,
                remaining_depth: self.max_depth - self.stack.len(),
            };
        } else {
            self.finish_batch();
        }
    }

    /// One move of the walk.
    #[verifier::rlimit(40)]
    fn walk(&mut self)
        requires
            old(self).wf(),
            old(self).phase is Walk,
        ensures
            final(self).wf(),
            final(self)@ == old(self)@.walk(),
    {
        let ghost before = self.stack@;
        match self.stack.pop() {
            None => {
                self.enter_last();
            },
            Some(top) => {
                let mut top = top;
                let ghost full = top@;
                assert(stack_view(self.stack@) =~= stack_view(before).drop_last());
                assert(stack_view(before).last() == full);
                match top.child_dir_counts.pop() {
                    None => {
                        self.handle_directory_completion(top.child_dir_counts);
                    },
                    Some(child) => {
                        let depth: usize = self.stack.len() + 1;
                        let remaining: usize = top.child_dir_counts.len();
                        let total_dirs: usize = top.total_dirs;
                        let ghost shorter = top@;
                        self.stack.push(top);
                        self.batch.target_file_count = child.files;
                        self.batch.num_dirs = child.dirs;
                        self.batch.index = 0;
                        self.batch.gen_next_dirs = depth < self.max_depth;
                        self.batch.next_stack_dir = total_dirs - remaining;
                        self.batch.is_completing = remaining == 0;
                        proof {
                            assert(stack_view(self.stack@) =~= stack_view(before).drop_last().push(
                                shorter,
                            ));
                            assert(self.batch.next_dirs@ =~= Seq::<DirChild>::empty());
                            assert forall|k: int| 0 <= k < self.stack@.len() implies (
                            #[trigger] self.stack@[k]).child_dir_counts@.len()
                                <= self.stack@[k].total_dirs by {
                                if k < self.stack@.len() - 1 {
                                    assert(self.stack@[k] == before[k]);
                                }
                            }
                            assert forall|k: int| 0 <= k < self.stack@.len() - 1 implies (
                            #[trigger] self.stack@[k]).child_dir_counts@.len()
                                < self.stack@[k].total_dirs by {
                                assert(self.stack@[k] == before[k]);
                            }
                        }
                        if child.dirs == 0 {
                            self.finish_batch();
                        } else {
                            self.phase = Phase::Child;
                            self.request = Request::FileCount {
                                target_file_count: child.files,
                                remaining_depth: self.max_depth - self.stack.len(),
                            };
                        }
                    },
                }
            },
        }
    }

    /// What holds when all numbers for a directory are there.
    closed spec fn all_drawn(&self) -> bool {
        &&& self.wf_base()
        &&& self.draws.byte_counts@.len() == self.plan.byte_counts
        &&& match self.phase {
            Phase::Root => {
                &&& self.stack@.len() == 0
                &&& self.handed@.len() == 0
                &&& self.high@.len() == 0
                &&& self.batch.next_dirs@.len() == 0
                &&& self.generator.spec_ready()
                &&& self.generator.spec_fresh()
                &&& self.plan == self.generator.spec_draw_plan(
                    self.draws.num_files,
                    self.max_depth > 0,
                )
            },
            Phase::Child => {
                &&& self.wf_batch()
                &&& self.wf_child_order(self.batch.index as int)
                &&& self.batch.index < self.batch.num_dirs
                &&& self.generator.spec_ready()
                &&& self.plan == self.generator.spec_draw_plan(
                    self.draws.num_files,
                    self.batch.gen_next_dirs,
                )
            },
            Phase::Last => {
                &&& self.batch.next_dirs@.len() == 0
                &&& self.plan == self.generator.spec_final_draw_plan()
                &&& self.generator.spec_ready() ==> self.stack@.len() == 0
            },
            _ => false,
        }
    }

    /// Takes the gathered numbers out, for the generator.
    fn take_draws(&mut self) -> (draws: Draws)
        ensures
            draws@ == old(self).draws@,
            final(self).draws@ == no_draws(),
            final(self).generator == old(self).generator,
            final(self).target_file_count == old(self).target_file_count,
            final(self).max_depth == old(self).max_depth,
            final(self).stack == old(self).stack,
            final(self).target_dir == old(self).target_dir,
            final(self).cache == old(self).cache,
            final(self).names == old(self).names,
            final(self).batch == old(self).batch,
            final(self).phase == old(self).phase,
            final(self).request == old(self).request,
            final(self).plan == old(self).plan,
            final(self).root == old(self).root,
            final(self).cursor == old(self).cursor,
            final(self).planned_files == old(self).planned_files,
            final(self).planned_bytes == old(self).planned_bytes,
            final(self).handed == old(self).handed,
            final(self).root_files == old(self).root_files,
            final(self).high == old(self).high,
            final(self).files_promised == old(self).files_promised,
            final(self).bytes_promised == old(self).bytes_promised,
    {
        let mut draws = Draws { num_files: 0, num_dirs: 0, byte_counts: Vec::new(), seed: 0 };
        std::mem::swap(&mut self.draws, &mut draws);
        assert(self.draws@.byte_counts =~= Seq::<u64>::empty());
        draws
    }

    /// Plans the task of the root directory.
    #[verifier::rlimit(40)]
    fn schedule_root_dir(&mut self) -> (task: Option<GeneratorTaskParams<FileContents>>)
        requires
            old(self).all_drawn(),
            old(self).phase is Root,
        ensures
            final(self).wf(),
            final(self)@ == old(self)@.complete().0,
            task_view(task) == old(self)@.complete().1,
            task matches Some(task) ==> placed(
                old(self)@.root,
                old(self)@.max_depth,
                task@,
                old(self)@.position(),
            ),
    {
        let ghost generator = self.generator;
        let ghost drawn = self.draws@;
        let draws = self.take_draws();
        let gen_dirs: bool = self.max_depth > 0;
        let path = self.target_dir.clone();
        let result = self.generator.queue_gen(draws, path, gen_dirs);
        proof {
            generator.lemma_queue_gen_owed(drawn, gen_dirs);
            let issue = generator.spec_queue_gen(drawn, gen_dirs).1;
            self.planned_files@ = self.planned_files@ + issued_files(issue);
            self.planned_bytes@ = self.planned_bytes@ + issued_bytes(issue);
            generator.lemma_queue_gen_numbering(drawn, gen_dirs);
            self.root_files@ = issued_files(issue);
            if let Some(issue) = issue {
                self.handed@ = self.handed@.push(
                    Placement {
                        position: self.cursor@,
                        file_offset: issue.file_offset,
                        num_files: issue.num_files,
                    },
                );
            }
        }
        self.phase = Phase::Walk;
        self.request = Request::Nothing;
        assert(self.cursor@ =~= self.high@);
        match result {
            Ok(Queued { outcome, task }) => {
                if outcome.num_dirs > 0 {
                    let mut child_dir_counts: Vec<DirChild> = Vec::new();
                    child_dir_counts.push(
                        DirChild {
                            files: next_target_file_count(
                                self.target_file_count,
                                outcome.num_dirs,
                                outcome.num_files,
                            ),
                            dirs: outcome.num_dirs,
                        },
                    );
                    self.stack.push(Directory { total_dirs: 1, child_dir_counts });
                    assert(stack_view(self.stack@) =~= seq![self.stack@[0]@]);
                    assert(self.stack@[0]@.child_dir_counts =~= seq![
                        self.stack@[0].child_dir_counts@[0],
                    ]);
                } else {
                    assert(stack_view(self.stack@) =~= Seq::<DirectoryView>::empty());
                }
                Some(task)
            },
            Err(QueueErrors::NothingToDo(path)) => {
                self.cache.paths.push(path);
                assert(stack_view(self.stack@) =~= Seq::<DirectoryView>::empty());
                None
            },
        }
    }

    /// Plans the task of one subdirectory of the directory that the walk stands
    /// in.
    #[verifier::rlimit(40)]
    fn schedule_dir(&mut self) -> (task: Option<GeneratorTaskParams<FileContents>>)
        requires
            old(self).all_drawn(),
            old(self).phase is Child,
        ensures
            final(self).wf(),
            final(self)@ == old(self)@.complete().0,
            task_view(task) == old(self)@.complete().1,
            task matches Some(task) ==> placed(
                old(self)@.root,
                old(self)@.max_depth,
                task@,
                old(self)@.position(),
            ),
    {
        let ghost generator = self.generator;
        let ghost drawn = self.draws@;
        let draws = self.take_draws();
        let gen_dirs: bool = self.batch.gen_next_dirs;
        let path = child_path(
            &self.target_dir,
            &mut self.cache.paths,
            &self.names,
            self.batch.index,
        );
        proof {
            let position = self.cursor@.push(self.batch.index as nat);
            assert(position.drop_last() =~= self.cursor@);
        }
        let result = self.generator.queue_gen(draws, path, gen_dirs);
        proof {
            generator.lemma_queue_gen_owed(drawn, gen_dirs);
            let issue = generator.spec_queue_gen(drawn, gen_dirs).1;
            self.planned_files@ = self.planned_files@ + issued_files(issue);
            self.planned_bytes@ = self.planned_bytes@ + issued_bytes(issue);
            generator.lemma_queue_gen_numbering(drawn, gen_dirs);
            if let Some(issue) = issue {
                let position = self.cursor@.push(self.batch.index as nat);
                assert forall|i: int|
                    0 <= i < self.handed@.len() && (#[trigger] self.handed@[i]).position.len()
                        >= 1 implies self.handed@[i].position != position by {
                    if self.handed@[i].position.drop_last() == self.cursor@ {
                        assert(self.handed@[i].position.last() < self.batch.index);
                    }
                }
                self.handed@ = self.handed@.push(
                    Placement {
                        position,
                        file_offset: issue.file_offset,
                        num_files: issue.num_files,
                    },
                );
            }
        }
        match result {
            Ok(Queued { outcome, task }) => {
                if outcome.done {
                    self.batch.next_dirs.clear();
                    self.enter_last();
                } else {
                    self.record(
                        DirChild {
                            files: next_target_file_count(
                                self.batch.target_file_count,
                                outcome.num_dirs,
                                outcome.num_files,
                            ),
                            dirs: outcome.num_dirs,
                        },
                    );
                }
                Some(task)
            },
            Err(QueueErrors::NothingToDo(path)) => {
                self.cache.paths.push(path);
                self.record(DirChild { files: 0, dirs: 0 });
                None
            },
        }
    }

    /// Plans the closing task.
    #[verifier::rlimit(40)]
    fn schedule_last_dir(&mut self) -> (task: Option<GeneratorTaskParams<FileContents>>)
        requires
            old(self).all_drawn(),
            old(self).phase is Last,
        ensures
            final(self).wf(),
            final(self)@ == old(self)@.complete().0,
            task_view(task) == old(self)@.complete().1,
            task matches Some(task) ==> placed(
                old(self)@.root,
                old(self)@.max_depth,
                task@,
                old(self)@.position(),
            ),
    {
        let ghost generator = self.generator;
        let ghost drawn = self.draws@;
        let draws = self.take_draws();
        let path = self.target_dir.clone();
        let result = self.generator.maybe_queue_final_gen(draws, path);
        proof {
            generator.lemma_final_gen_owed(drawn);
            generator.lemma_final_gen_numbering(drawn, self.root_files@);
            let issue = generator.spec_final_gen(drawn).1;
            self.planned_files@ = self.planned_files@ + issued_files(issue);
            self.planned_bytes@ = self.planned_bytes@ + issued_bytes(issue);
            if let Some(issue) = issue {
                self.handed@ = self.handed@.push(
                    Placement {
                        position: self.cursor@,
                        file_offset: issue.file_offset,
                        num_files: issue.num_files,
                    },
                );
            }
        }
        self.phase = Phase::Finished;
        self.request = Request::Finished;
        match result {
            Ok(Queued { outcome, task }) => Some(task),
            Err(QueueErrors::NothingToDo(path)) => {
                self.cache.paths.push(path);
                None
            },
        }
    }

    /// Plans the task of the directory for which all numbers are there.
    fn complete(&mut self) -> (task: Option<GeneratorTaskParams<FileContents>>)
        requires
            old(self).all_drawn(),
        ensures
            final(self).wf(),
            final(self)@ == old(self)@.complete().0,
            task_view(task) == old(self)@.complete().1,
            task matches Some(task) ==> placed(
                old(self)@.root,
                old(self)@.max_depth,
                task@,
                old(self)@.position(),
            ),
    {
        match self.phase {
            Phase::Root => self.schedule_root_dir(),
            Phase::Child => self.schedule_dir(),
            Phase::Last => self.schedule_last_dir(),
            _ => None,
        }
    }

    /// Asks for the next number, or plans the task when all are there.
    fn advance(&mut self, from: u8) -> (task: Option<GeneratorTaskParams<FileContents>>)
        requires
            old(self).wf_base(),
            old(self).phase is Root || old(self).phase is Child || old(self).phase is Last,
            old(self).draws.byte_counts@.len() <= old(self).plan.byte_counts,
            from <= 1 ==> old(self).draws.byte_counts@.len() == 0,
            from > 2 ==> old(self).draws.byte_counts@.len() == old(self).plan.byte_counts,
            from <= 1 ==> !(old(self).phase is Last),
            match old(self).phase {
                Phase::Root => {
                    &&& old(self).stack@.len() == 0
                    &&& old(self).handed@.len() == 0
                    &&& old(self).high@.len() == 0
                    &&& old(self).batch.next_dirs@.len() == 0
                    &&& old(self).generator.spec_ready()
                    &&& old(self).generator.spec_fresh()
                    &&& old(self).plan == old(self).generator.spec_draw_plan(
                        old(self).draws.num_files,
                        old(self).max_depth > 0,
                    )
                },
                Phase::Child => {
                    &&& old(self).wf_batch()
                    &&& old(self).wf_child_order(old(self).batch.index as int)
                    &&& old(self).batch.index < old(self).batch.num_dirs
                    &&& old(self).generator.spec_ready()
                    &&& old(self).plan == old(self).generator.spec_draw_plan(
                        old(self).draws.num_files,
                        old(self).batch.gen_next_dirs,
                    )
                },
                Phase::Last => {
                    &&& old(self).batch.next_dirs@.len() == 0
                    &&& old(self).plan == old(self).generator.spec_final_draw_plan()
                    &&& old(self).generator.spec_ready() ==> old(self).stack@.len() == 0
                },
                _ => false,
            },
        ensures
            final(self).wf(),
            final(self)@ == old(self)@.advance(from as int).0,
            task_view(task) == old(self)@.advance(from as int).1,
            task matches Some(task) ==> placed(
                old(self)@.root,
                old(self)@.max_depth,
                task@,
                old(self)@.position(),
            ),
    {
        match next_needed(self.plan, self.draws.byte_counts.len(), from) {
            Some(request) => {
                self.request = request;
                None
            },
            None => self.complete(),
        }
    }

    /// Takes the number that was asked for and goes on until the next
    /// number is needed. A task that is planned on the way is handed out.
    ///
    /// The number is taken for what `request` named before the step. When
    /// no number was needed, `drawn` is not looked at.
    pub fn step(&mut self, drawn: u64) -> (task: Option<GeneratorTaskParams<FileContents>>)
        requires
            old(self).wf(),
        ensures
            final(self).wf(),
            final(self)@ == old(self)@.step(drawn).0,
            task_view(task) == old(self)@.step(drawn).1,
            task matches Some(task) ==> in_tree(old(self)@.root, old(self)@.max_depth, task@),
    {
        match self.request {
            Request::Finished => None,
            Request::Nothing => {
                match self.phase {
                    Phase::Walk => {
                        self.walk();
                        None
                    },
                    _ => self.complete(),
                }
            },
            Request::FileCount { .. } => {
                let gen_dirs: bool = match self.phase {
                    Phase::Root => self.max_depth > 0,
                    Phase::Child => self.batch.gen_next_dirs,
                    _ => false,
                };
                self.draws.num_files = drawn;
                self.plan = self.generator.draw_plan(drawn, gen_dirs);
                self.advance(1)
            },
            Request::DirCount => {
                self.draws.num_dirs = drawn;
                self.advance(2)
            },
            Request::ByteCount => {
                self.draws.byte_counts.push(drawn);
                self.advance(2)
            },
            Request::Seed => {
                self.draws.seed = drawn;
                self.advance(4)
            },
        }
    }

    /// The number that the next step is to be given.
    pub fn request(&self) -> (request: Request)
        ensures
            request == self@.request,
    {
        self.request
    }

    /// Whether the tree is planned.
    pub fn is_finished(&self) -> (finished: bool)
        ensures
            finished == (self@.request is Finished),
    {
        match self.request {
            Request::Finished => true,
            _ => false,
        }
    }
}

/// Law: no file is made twice. Of two tasks that were handed out, the two
/// work in different directories, or the files of the later are numbered
/// after those of the earlier.
pub proof fn lemma_no_file_twice<G: TaskGenerator>(scheduler: Scheduler<G>, i: int, j: int)
    requires
        scheduler.wf(),
        0 <= i < j < scheduler@.handed.len(),
    ensures
        apart(scheduler@.handed[i], scheduler@.handed[j]),
{
    let first = scheduler@.handed[i];
    let second = scheduler@.handed[j];
    if first.position.len() == 0 && second.position.len() == 0 {
        assert(first.position =~= second.position);
    }
}

/// Law: no directory but the root gets two tasks.
pub proof fn lemma_no_directory_twice<G: TaskGenerator>(scheduler: Scheduler<G>, i: int, j: int)
    requires
        scheduler.wf(),
        0 <= i < j < scheduler@.handed.len(),
        scheduler@.handed[i].position.len() > 0 || scheduler@.handed[j].position.len() > 0,
    ensures
        scheduler@.handed[i].position != scheduler@.handed[j].position,
{
}

/// Law: the walk never goes deeper than it may. The directories on the way
/// to the one it stands in are no more than the depth allows, and while the
/// subdirectories of that directory are planned, they may have
/// subdirectories of their own only where they lie above that depth.
pub proof fn lemma_walk_within_depth<G: TaskGenerator>(scheduler: Scheduler<G>)
    requires
        scheduler.wf(),
    ensures
        scheduler@.stack.len() <= scheduler@.max_depth,
        scheduler@.cursor.len() == if scheduler@.stack.len() > 0 {
            scheduler@.stack.len() - 1
        } else {
            0
        },
        scheduler@.phase is Root ==> scheduler@.stack.len() == 0,
        scheduler@.phase is Child ==> {
            &&& scheduler@.position().len() == scheduler@.stack.len()
            &&& scheduler@.gen_dirs() == (scheduler@.stack.len() < scheduler@.max_depth)
            &&& scheduler@.batch.index < scheduler@.batch.num_dirs
        },
{
}

/// Law: a run that promises an exact number of files has planned exactly as
/// many when it is finished.
pub proof fn lemma_exact_files<G: TaskGenerator>(scheduler: Scheduler<G>)
    requires
        scheduler.wf(),
        scheduler@.request is Finished,
    ensures
        scheduler@.files_promised matches Some(files) ==> scheduler@.planned_files == files,
{
}

/// Law: a run that promises an exact number of bytes has fixed exactly as
/// many for its files when it is finished. Where the run promises an exact
/// number of files too, this holds where a vector has a place for each of
/// them.
pub proof fn lemma_exact_bytes<G: TaskGenerator>(scheduler: Scheduler<G>)
    requires
        scheduler.wf(),
        scheduler@.request is Finished,
        fits_usize(scheduler@.files_promised),
    ensures
        scheduler@.bytes_promised matches Some(bytes) ==> scheduler@.planned_bytes == bytes,
{
}

impl<G: TaskGenerator> SchedulerView<G> {
    /// The scheduler after a step for each of the numbers in `drawn`, and
    /// the tasks that these steps hand out.
    pub open spec fn run(self, drawn: Seq<u64>) -> (Self, Seq<TaskView>)
        decreases drawn.len(),
    {
        if drawn.len() == 0 {
            (self, Seq::empty())
        } else {
            let (before, tasks) = self.run(drawn.drop_last());
            let (after, task) = before.step(drawn.last());
            (
                after,
                match task {
                    Some(task) => tasks.push(task),
                    None => tasks,
                },
            )
        }
    }
}

impl<G: TaskGenerator> SchedulerView<G> {
    /// The same scheduler for the tree below another root.
    pub open spec fn moved_to(self, root: Seq<u8>) -> Self {
        SchedulerView { root, ..self }
    }
}

/// Whether two steps handed out the same work: no task either, or tasks that
/// are the same but for the directory they work in.
pub open spec fn same_work(first: Option<TaskView>, second: Option<TaskView>) -> bool {
    match (first, second) {
        (Some(first), Some(second)) => second == (TaskView {
            target_dir: second.target_dir,
            ..first
        }),
        (None, None) => true,
        _ => false,
    }
}

/// Whether two runs handed out the same work, task by task.
pub open spec fn same_works(first: Seq<TaskView>, second: Seq<TaskView>) -> bool {
    &&& first.len() == second.len()
    &&& forall|i: int|
        0 <= i < first.len() ==> same_work(Some(#[trigger] first[i]), Some(second[i]))
}

/// Law: a step does not look at the root. Below another root the scheduler
/// goes on in the same way and hands out the same work, at the same place
/// below that root.
pub proof fn lemma_step_below_another_root<G: TaskGenerator>(
    view: SchedulerView<G>,
    root: Seq<u8>,
    drawn: u64,
)
    ensures
        view.moved_to(root).step(drawn).0 == view.step(drawn).0.moved_to(root),
        same_work(view.step(drawn).1, view.moved_to(root).step(drawn).1),
        view.step(drawn).1 matches Some(task) ==> task.target_dir == path_of(
            view.root,
            view.position(),
        ),
        view.moved_to(root).step(drawn).1 matches Some(task) ==> task.target_dir == path_of(
            root,
            view.position(),
        ),
{
    match view.request {
        Request::Finished => {},
        Request::Nothing => {
            if view.phase is Walk {
                lemma_walk_below_another_root(view, root);
            } else {
                lemma_complete_below_another_root(view, root);
            }
        },
        Request::FileCount { .. } => {
            let stored = SchedulerView {
                draws: DrawsView { num_files: drawn, ..view.draws },
                plan: view.generator.spec_draw_plan(drawn, view.gen_dirs()),
                ..view
            };
            assert(stored.moved_to(root) == SchedulerView {
                draws: DrawsView { num_files: drawn, ..view.draws },
                plan: view.generator.spec_draw_plan(drawn, view.moved_to(root).gen_dirs()),
                ..view.moved_to(root)
            });
            lemma_complete_below_another_root(stored, root);
        },
        Request::DirCount => {
            let stored = SchedulerView {
                draws: DrawsView { num_dirs: drawn, ..view.draws },
                ..view
            };
            assert(stored.moved_to(root) == SchedulerView {
                draws: DrawsView { num_dirs: drawn, ..view.draws },
                ..view.moved_to(root)
            });
            lemma_complete_below_another_root(stored, root);
        },
        Request::ByteCount => {
            let stored = SchedulerView {
                draws: DrawsView {
                    byte_counts: view.draws.byte_counts.push(drawn),
                    ..view.draws
                },
                ..view
            };
            assert(stored.moved_to(root) == SchedulerView {
                draws: DrawsView {
                    byte_counts: view.draws.byte_counts.push(drawn),
                    ..view.draws
                },
                ..view.moved_to(root)
            });
            lemma_complete_below_another_root(stored, root);
        },
        Request::Seed => {
            let stored = SchedulerView { draws: DrawsView { seed: drawn, ..view.draws }, ..view };
            assert(stored.moved_to(root) == SchedulerView {
                draws: DrawsView { seed: drawn, ..view.draws },
                ..view.moved_to(root)
            });
            lemma_complete_below_another_root(stored, root);
        },
    }
}

/// The walk ends in the same way below another root.
proof fn lemma_enter_last_below_another_root<G: TaskGenerator>(
    view: SchedulerView<G>,
    root: Seq<u8>,
)
    ensures
        view.moved_to(root).enter_last() == view.enter_last().moved_to(root),
{
}

/// The subdirectories of a directory are left in the same way below another
/// root.
proof fn lemma_finish_batch_below_another_root<G: TaskGenerator>(
    view: SchedulerView<G>,
    root: Seq<u8>,
)
    ensures
        view.moved_to(root).finish_batch() == view.finish_batch().moved_to(root),
{
}

/// A subdirectory is noted down in the same way below another root.
proof fn lemma_record_below_another_root<G: TaskGenerator>(
    view: SchedulerView<G>,
    root: Seq<u8>,
    child: DirChild,
)
    ensures
        view.moved_to(root).record(child) == view.record(child).moved_to(root),
{
    let recorded = SchedulerView {
        batch: BatchView {
            index: (view.batch.index + 1) as usize,
            children: if view.batch.gen_next_dirs {
                view.batch.children.push(child)
            } else {
                view.batch.children
            },
            ..view.batch
        },
        ..view
    };
    lemma_finish_batch_below_another_root(recorded, root);
}

/// The walk moves in the same way below another root.
proof fn lemma_walk_below_another_root<G: TaskGenerator>(view: SchedulerView<G>, root: Seq<u8>)
    ensures
        view.moved_to(root).walk() == view.walk().moved_to(root),
{
    if view.stack.len() == 0 {
        lemma_enter_last_below_another_root(view, root);
    } else {
        let top = view.stack.last();
        if top.child_dir_counts.len() > 0 {
            let child = top.child_dir_counts.last();
            let remaining = top.child_dir_counts.drop_last();
            let begun = SchedulerView {
                stack: view.stack.drop_last().push(
                    DirectoryView { child_dir_counts: remaining, ..top },
                ),
                batch: BatchView {
                    target_file_count: child.files,
                    num_dirs: child.dirs,
                    index: 0,
                    gen_next_dirs: view.stack.len() < view.max_depth,
                    next_stack_dir: (top.total_dirs - remaining.len()) as usize,
                    is_completing: remaining.len() == 0,
                    children: Seq::empty(),
                },
                ..view
            };
            lemma_finish_batch_below_another_root(begun, root);
        }
    }
}

/// A directory whose numbers are all there is planned in the same way below
/// another root, and its task works at the same place below that root.
proof fn lemma_complete_below_another_root<G: TaskGenerator>(
    view: SchedulerView<G>,
    root: Seq<u8>,
)
    ensures
        forall|from: int|
            #![trigger view.advance(from)]
            view.moved_to(root).advance(from).0 == view.advance(from).0.moved_to(root)
                && same_work(view.advance(from).1, view.moved_to(root).advance(from).1) && (
            view.advance(from).1 matches Some(task) ==> task.target_dir == path_of(
                view.root,
                view.position(),
            )) && (view.moved_to(root).advance(from).1 matches Some(task) ==> task.target_dir
                == path_of(root, view.position())),
        view.moved_to(root).complete().0 == view.complete().0.moved_to(root),
        same_work(view.complete().1, view.moved_to(root).complete().1),
        view.complete().1 matches Some(task) ==> task.target_dir == path_of(
            view.root,
            view.position(),
        ),
        view.moved_to(root).complete().1 matches Some(task) ==> task.target_dir == path_of(
            root,
            view.position(),
        ),
{
    let (generator, issue) = if view.phase is Last {
        view.generator.spec_final_gen(view.draws)
    } else {
        view.generator.spec_queue_gen(view.draws, view.gen_dirs())
    };
    let planned = SchedulerView {
        generator,
        draws: no_draws(),
        planned_files: view.planned_files + issued_files(issue),
        planned_bytes: view.planned_bytes + issued_bytes(issue),
        handed: match issue {
            Some(issue) => view.handed.push(
                Placement {
                    position: view.position(),
                    file_offset: issue.file_offset,
                    num_files: issue.num_files,
                },
            ),
            None => view.handed,
        },
        ..view
    };
    match view.phase {
        Phase::Root => {},
        Phase::Child => {
            match issue {
                Some(issue) => {
                    if issue.done {
                        lemma_enter_last_below_another_root(
                            SchedulerView {
                                batch: BatchView { children: Seq::empty(), ..planned.batch },
                                ..planned
                            },
                            root,
                        );
                    } else {
                        lemma_record_below_another_root(
                            planned,
                            root,
                            DirChild {
                                files: spec_next_target_file_count(
                                    planned.batch.target_file_count,
                                    issue.num_dirs,
                                    issue.num_files,
                                ),
                                dirs: issue.num_dirs,
                            },
                        );
                    }
                },
                None => {
                    lemma_record_below_another_root(planned, root, DirChild { files: 0, dirs: 0 });
                },
            }
        },
        _ => {},
    }
}

/// Law: the tasks of a run follow from what the run is started with and
/// from the numbers that it is given. Two runs that are started alike but
/// for their roots and are given the same numbers hand out the same work,
/// each below its root.
pub proof fn lemma_same_draws_same_tasks<G: TaskGenerator>(
    view: SchedulerView<G>,
    root: Seq<u8>,
    drawn: Seq<u64>,
)
    ensures
        view.moved_to(root).run(drawn).0 == view.run(drawn).0.moved_to(root),
        same_works(view.run(drawn).1, view.moved_to(root).run(drawn).1),
    decreases drawn.len(),
{
    if drawn.len() > 0 {
        lemma_same_draws_same_tasks(view, root, drawn.drop_last());
        lemma_step_below_another_root(view.run(drawn.drop_last()).0, root, drawn.last());
    }
}

} // verus!
