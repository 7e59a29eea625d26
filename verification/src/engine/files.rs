//! The work of one task: the subdirectories and files of one directory.

use crate::engine::file_contents::{
    file_num, spec_file_num, ContentsView, FileContents, FileContentsGenerator,
    FilePlan,
};
use crate::engine::stats::GeneratorStats;
use crate::utils::fast_path::{lemma_pop_after_push, spec_push, FastPathBuf};
use crate::utils::file_names::{dir_bytes, dir_name, file_bytes, file_name, FileNameCache};
use std::sync::Arc;
use vstd::prelude::*;

verus! {

/// What one task is to create: `num_dirs` subdirectories of `target_dir`,
/// numbered from zero, and `num_files` files, numbered from `file_offset`.
pub struct GeneratorTaskParams<G: FileContentsGenerator> {
    pub target_dir: FastPathBuf,
    pub num_files: u64,
    pub num_dirs: usize,
    pub file_offset: u64,
    pub file_contents: G,
}

impl<G: FileContentsGenerator> GeneratorTaskParams<G> {
    /// Whether the task can be run: the numbers of its files fit a `u64`,
    /// and its contents know each of its files.
    pub fn runnable(&self) -> (runnable: bool)
        ensures
            runnable == TaskRunView::start(
                self.target_dir@,
                self.num_files,
                self.num_dirs,
                self.file_offset,
                self.file_contents,
            ).runnable(),
    {
        self.file_offset <= u64::MAX - self.num_files && self.file_contents.has_files(
            self.num_files,
        )
    }
}

/// A task as the contracts see it.
pub struct TaskView {
    pub target_dir: Seq<u8>,
    pub num_files: u64,
    pub num_dirs: usize,
    pub file_offset: u64,
    pub file_contents: ContentsView,
}

impl View for GeneratorTaskParams<FileContents> {
    type V = TaskView;

    open spec fn view(&self) -> TaskView {
        TaskView {
            target_dir: self.target_dir@,
            num_files: self.num_files,
            num_dirs: self.num_dirs,
            file_offset: self.file_offset,
            file_contents: self.file_contents@,
        }
    }
}

/// What a task is about to do.
#[derive(Debug, Copy, Clone, PartialEq, Eq, Structural)]
pub enum TaskStage {
    /// It creates the subdirectory numbered `dir_index`.
    Dir,
    /// It needs the byte count that is drawn before the first file.
    FirstDraw,
    /// It creates the first file. Where the directory is missing, it will
    /// create the directory and start over.
    First,
    /// It creates its own directory, which was missing.
    Parents,
    /// It needs the byte count of the file numbered `file_index`.
    Draw,
    /// It creates the file numbered `file_index`.
    File,
    /// It has created all.
    Finished,
    /// It has given up.
    Failed,
}

/// What is asked of the one who runs a task.
#[derive(Debug, Copy, Clone, PartialEq, Eq, Structural)]
pub enum TaskAction {
    /// Create the directory at the task's path, with all that lead to it.
    /// That it is there already is no failure.
    CreateDirAll,
    /// Draw the number of bytes of a file.
    DrawByteCount,
    /// Create the file at the task's path, in the way given.
    CreateFile(FilePlan),
    /// Nothing: the task has created what it was to create.
    Finished(GeneratorStats),
    /// Nothing: the task has failed.
    Failed,
}

/// What came of the action that a task asked for.
#[derive(Debug, Copy, Clone, PartialEq, Eq, Structural)]
pub enum TaskEvent {
    /// It was done. `drawn` is the number drawn, where the action was to
    /// draw one or to draw one once the file is open.
    Done { drawn: u64 },
    /// It failed because a directory on the way to the path is missing.
    NotFound,
    /// It failed for another reason.
    Failed,
}

/// Number of bytes written to a file that was made as `plan` says, when
/// `drawn` was drawn once it was open.
pub open spec fn spec_bytes_written(plan: FilePlan, drawn: u64) -> u64 {
    match plan {
        FilePlan::Empty => 0,
        FilePlan::Write { num_bytes, .. } => num_bytes,
        FilePlan::DrawThenWrite { .. } => drawn,
    }
}

/// `a + b`, or the largest number where the sum is larger.
pub open spec fn spec_saturating_add(a: u64, b: u64) -> u64 {
    if a + b <= u64::MAX {
        (a + b) as u64
    } else {
        u64::MAX
    }
}

/// A running task as the contracts see it.
pub struct TaskRunView<G> {
    pub target_dir: Seq<u8>,
    pub num_files: u64,
    pub num_dirs: usize,
    pub file_offset: u64,
    pub file_contents: G,
    pub stage: TaskStage,
    pub dir_index: usize,
    pub file_index: u64,
    pub drawn: u64,
    pub bytes_written: u64,
}

impl<G: FileContentsGenerator> TaskRunView<G> {
    /// A task can be run when its contents know each of its files and the
    /// numbers of its files fit a `u64`.
    pub open spec fn runnable(self) -> bool {
        &&& self.num_files + self.file_offset <= u64::MAX
        &&& forall|i: u64|
            i < self.num_files ==> self.file_contents.spec_has_file(#[trigger] spec_file_num(i))
    }

    /// The task before anything is done.
    pub open spec fn start(
        target_dir: Seq<u8>,
        num_files: u64,
        num_dirs: usize,
        file_offset: u64,
        file_contents: G,
    ) -> Self {
        let task = TaskRunView {
            target_dir,
            num_files,
            num_dirs,
            file_offset,
            file_contents,
            stage: TaskStage::Dir,
            dir_index: 0,
            file_index: 0,
            drawn: 0,
            bytes_written: 0,
        };
        if num_dirs > 0 {
            task
        } else {
            task.first_file()
        }
    }

    /// The subdirectories are there: the first file is next.
    pub open spec fn first_file(self) -> Self {
        TaskRunView {
            stage: if self.num_files == 0 {
                TaskStage::Finished
            } else if self.file_contents.spec_draws_byte_counts() {
                TaskStage::FirstDraw
            } else {
                TaskStage::First
            },
            ..self
        }
    }

    /// The file numbered `file_index` is next, if there is one.
    pub open spec fn next_file(self) -> Self {
        TaskRunView {
            stage: if self.file_index >= self.num_files {
                TaskStage::Finished
            } else if self.file_contents.spec_draws_byte_counts() {
                TaskStage::Draw
            } else {
                TaskStage::File
            },
            ..self
        }
    }

    /// How the file that the task is creating is made.
    pub open spec fn plan(self) -> FilePlan {
        if self.stage is First {
            self.file_contents.spec_create_file(0, true, self.drawn)
        } else {
            self.file_contents.spec_create_file(spec_file_num(self.file_index), false, self.drawn)
        }
    }

    /// What the task asks for.
    pub open spec fn action(self) -> TaskAction {
        match self.stage {
            TaskStage::Dir | TaskStage::Parents => TaskAction::CreateDirAll,
            TaskStage::FirstDraw | TaskStage::Draw => TaskAction::DrawByteCount,
            TaskStage::First | TaskStage::File => TaskAction::CreateFile(self.plan()),
            TaskStage::Finished => TaskAction::Finished(
                GeneratorStats {
                    files: self.num_files,
                    dirs: self.num_dirs,
                    bytes: self.bytes_written,
                },
            ),
            TaskStage::Failed => TaskAction::Failed,
        }
    }

    /// The path that the task's action is about: its directory, or an entry
    /// of it.
    pub open spec fn path(self) -> Seq<u8> {
        match self.stage {
            TaskStage::Dir => spec_push(self.target_dir, dir_bytes(self.dir_index as nat)),
            TaskStage::First => spec_push(self.target_dir, file_bytes(self.file_offset as nat)),
            TaskStage::File => spec_push(
                self.target_dir,
                file_bytes((self.file_index + self.file_offset) as nat),
            ),
            _ => self.target_dir,
        }
    }

    /// The task with the bytes of the file just made counted.
    pub open spec fn written(self, drawn: u64) -> Self {
        TaskRunView {
            bytes_written: spec_saturating_add(
                self.bytes_written,
                spec_bytes_written(self.plan(), drawn),
            ),
            ..self
        }
    }

    /// The task after its action came to `event`.
    pub open spec fn advance(self, event: TaskEvent) -> Self {
        match (self.stage, event) {
            (TaskStage::Finished, _) | (TaskStage::Failed, _) => self,
            (_, TaskEvent::Failed) => TaskRunView { stage: TaskStage::Failed, ..self },
            (TaskStage::Dir, TaskEvent::Done { .. }) => if self.dir_index + 1 < self.num_dirs {
                TaskRunView { dir_index: (self.dir_index + 1) as usize, ..self }
            } else {
                self.first_file()
            },
            (TaskStage::FirstDraw, TaskEvent::Done { drawn }) => TaskRunView {
                stage: TaskStage::First,
                drawn,
                ..self
            },
            (TaskStage::First, TaskEvent::Done { drawn }) => TaskRunView {
                file_index: 1,
                ..self.written(drawn)
            }.next_file(),
            (TaskStage::First, TaskEvent::NotFound) => TaskRunView {
                stage: TaskStage::Parents,
                ..self
            },
            (TaskStage::Parents, TaskEvent::Done { .. }) => TaskRunView {
                file_index: 0,
                ..self
            }.next_file(),
            (TaskStage::Draw, TaskEvent::Done { drawn }) => TaskRunView {
                stage: TaskStage::File,
                drawn,
                ..self
            },
            (TaskStage::File, TaskEvent::Done { drawn }) => TaskRunView {
                file_index: (self.file_index + 1) as u64,
                ..self.written(drawn)
            }.next_file(),
            (_, TaskEvent::NotFound) => TaskRunView { stage: TaskStage::Failed, ..self },
        }
    }
}

/// Law: a failure is mended in one case only. A task whose action fails
/// has failed, unless it was the first attempt at its first file and the
/// directory was missing; then it creates the directory and starts over
/// with the first file. A task that has failed asks for nothing more.
pub proof fn lemma_failures_end_the_task<G: FileContentsGenerator>(
    task: TaskRunView<G>,
    event: TaskEvent,
)
    requires
        !(task.stage is Finished),
        !(event is Done),
    ensures
        task.advance(event).stage == if task.stage is First && event is NotFound {
            TaskStage::Parents
        } else {
            TaskStage::Failed
        },
        task.advance(event).action() == if task.stage is First && event is NotFound {
            TaskAction::CreateDirAll
        } else {
            TaskAction::Failed
        },
        task.advance(event).bytes_written == task.bytes_written,
        task.stage is Failed ==> task.advance(event) == task,
{
}

/// A task that is being run: it says what is to be done next and is told
/// what came of it.
pub struct TaskRun<G: FileContentsGenerator> {
    target_dir: FastPathBuf,
    num_files: u64,
    num_dirs: usize,
    file_offset: u64,
    file_contents: G,
    names: Arc<FileNameCache>,
    stage: TaskStage,
    dir_index: usize,
    file_index: u64,
    drawn: u64,
    bytes_written: u64,
    target: Ghost<Seq<u8>>,
}

impl<G: FileContentsGenerator> View for TaskRun<G> {
    type V = TaskRunView<G>;

    closed spec fn view(&self) -> TaskRunView<G> {
        TaskRunView {
            target_dir: self.target@,
            num_files: self.num_files,
            num_dirs: self.num_dirs,
            file_offset: self.file_offset,
            file_contents: self.file_contents,
            stage: self.stage,
            dir_index: self.dir_index,
            file_index: self.file_index,
            drawn: self.drawn,
            bytes_written: self.bytes_written,
        }
    }
}

/// Starts the task: its subdirectories come first, then its files. The
/// names are read from `names`, which the tasks of a run share.
pub fn create_files_and_dirs<G: FileContentsGenerator>(
    params: GeneratorTaskParams<G>,
    names: Arc<FileNameCache>,
) -> (task: TaskRun<G>)
    requires
        TaskRunView::start(
            params.target_dir@,
            params.num_files,
            params.num_dirs,
            params.file_offset,
            params.file_contents,
        ).runnable(),
    ensures
        task.wf(),
        task@ == TaskRunView::start(
            params.target_dir@,
            params.num_files,
            params.num_dirs,
            params.file_offset,
            params.file_contents,
        ),
{
    let GeneratorTaskParams { target_dir, num_files, num_dirs, file_offset, file_contents } =
        params;
    let mut task = TaskRun {
        target: Ghost(target_dir@),
        target_dir,
        num_files,
        num_dirs,
        file_offset,
        file_contents,
        names,
        stage: TaskStage::Dir,
        dir_index: 0,
        file_index: 0,
        drawn: 0,
        bytes_written: 0,
    };
    if num_dirs > 0 {
        task.create_dirs();
    } else {
        task.create_files();
    }
    task
}

impl<G: FileContentsGenerator> TaskRun<G> {
    /// Whether the task is in order. It is when it is started, and whatever
    /// it is told keeps it so.
    pub closed spec fn wf(&self) -> bool {
        &&& self@.runnable()
        &&& self.target_dir@ == self@.path()
        &&& self.target_dir@ != self.target@ ==> self.target_dir.last_len() == self.target@.len()
        &&& self.stage is Dir ==> self.dir_index < self.num_dirs
        &&& self.stage is File || self.stage is Draw ==> self.file_index < self.num_files
        &&& self.stage is First || self.stage is FirstDraw ==> self.num_files > 0
        &&& self.file_index <= self.num_files
    }

    /// Sets out to create the subdirectory numbered `dir_index`.
    fn create_dirs(&mut self)
        requires
            old(self)@.runnable(),
            old(self).target_dir@ == old(self).target@,
            old(self).stage is Dir,
            old(self).dir_index < old(self).num_dirs,
            old(self).file_index <= old(self).num_files,
        ensures
            final(self).wf(),
            final(self)@ == old(self)@,
    {
        let name = dir_name(&*self.names, self.dir_index);
        self.target_dir.push(name.as_str());
    }

    /// Sets out to create the first file, if the task has files.
    fn create_files(&mut self)
        requires
            old(self)@.runnable(),
            old(self).target_dir@ == old(self).target@,
            old(self).file_index <= old(self).num_files,
        ensures
            final(self).wf(),
            final(self)@ == old(self)@.first_file(),
    {
        if self.num_files == 0 {
            self.stage = TaskStage::Finished;
        } else if self.file_contents.draws_byte_counts() {
            self.stage = TaskStage::FirstDraw;
        } else {
            self.stage = TaskStage::First;
            self.push_file(self.file_offset);
        }
    }

    /// Sets out to create the file numbered `file_index`, if there is one.
    fn next_file(&mut self)
        requires
            old(self)@.runnable(),
            old(self).target_dir@ == old(self).target@,
            old(self).file_index <= old(self).num_files,
        ensures
            final(self).wf(),
            final(self)@ == old(self)@.next_file(),
    {
        if self.file_index >= self.num_files {
            self.stage = TaskStage::Finished;
        } else if self.file_contents.draws_byte_counts() {
            self.stage = TaskStage::Draw;
        } else {
            self.stage = TaskStage::File;
            self.push_file(self.file_index + self.file_offset);
        }
    }

    /// Adds the name of the file numbered `i` to the path.
    fn push_file(&mut self, i: u64)
        requires
            old(self).target_dir@ == old(self).target@,
        ensures
            final(self).target_dir@ == spec_push(old(self).target@, file_bytes(i as nat)),
            final(self).target_dir.last_len() == old(self).target@.len(),
            final(self)@ == old(self)@,
            final(self).target == old(self).target,
    {
        let name = file_name(&*self.names, i);
        self.target_dir.push(name.as_str());
    }

    /// Takes the name of the entry just created off the path.
    fn pop_entry(&mut self)
        requires
            old(self).target_dir@ != old(self).target@,
            old(self).target_dir@ == old(self)@.path(),
            old(self).target_dir.last_len() == old(self).target@.len(),
        ensures
            final(self).target_dir@ == old(self).target@,
            final(self)@ == old(self)@,
            final(self).target == old(self).target,
    {
        proof {
            match self.stage {
                TaskStage::Dir => lemma_pop_after_push(
                    self.target@,
                    dir_bytes(self.dir_index as nat),
                ),
                TaskStage::First => lemma_pop_after_push(
                    self.target@,
                    file_bytes(self.file_offset as nat),
                ),
                TaskStage::File => lemma_pop_after_push(
                    self.target@,
                    file_bytes((self.file_index + self.file_offset) as nat),
                ),
                _ => {},
            }
        }
        self.target_dir.pop();
    }

    /// Counts the bytes of the file just made.
    fn count_bytes(&mut self, drawn: u64)
        requires
            old(self)@.runnable(),
            old(self).stage is First || old(self).stage is File,
            old(self).stage is File ==> old(self).file_index < old(self).num_files,
            old(self).stage is First ==> old(self).num_files > 0,
        ensures
            final(self)@ == old(self)@.written(drawn),
            final(self).target_dir == old(self).target_dir,
            final(self).target == old(self).target,
    {
        let retryable: bool = match self.stage {
            TaskStage::First => true,
            _ => false,
        };
        let num: usize = if retryable {
            0
        } else {
            file_num(self.file_index)
        };
        proof {
            if retryable {
                assert(self.file_contents.spec_has_file(spec_file_num(0)));
            }
        }
        let bytes: u64 = match self.file_contents.create_file(num, retryable, self.drawn) {
            FilePlan::Empty => 0,
            FilePlan::Write { num_bytes, .. } => num_bytes,
            FilePlan::DrawThenWrite { .. } => drawn,
        };
        self.bytes_written = self.bytes_written.saturating_add(bytes);
    }

    /// The stage that the task is in.
    pub fn stage(&self) -> (stage: TaskStage)
        ensures
            stage == self@.stage,
    {
        self.stage
    }

    /// What is to be done next.
    pub fn action(&self) -> (action: TaskAction)
        requires
            self.wf(),
        ensures
            action == self@.action(),
    {
        match self.stage {
            TaskStage::Dir | TaskStage::Parents => TaskAction::CreateDirAll,
            TaskStage::FirstDraw | TaskStage::Draw => TaskAction::DrawByteCount,
            TaskStage::First => {
                assert(self.file_contents.spec_has_file(spec_file_num(0)));
                TaskAction::CreateFile(self.file_contents.create_file(0, true, self.drawn))
            },
            TaskStage::File => TaskAction::CreateFile(
                self.file_contents.create_file(file_num(self.file_index), false, self.drawn),
            ),
            TaskStage::Finished => TaskAction::Finished(
                GeneratorStats {
                    files: self.num_files,
                    dirs: self.num_dirs,
                    bytes: self.bytes_written,
                },
            ),
            TaskStage::Failed => TaskAction::Failed,
        }
    }

    /// The path that the action is about.
    pub fn path(&self) -> (path: &FastPathBuf)
        requires
            self.wf(),
        ensures
            path@ == self@.path(),
    {
        &self.target_dir
    }

    /// The seed from which the task's own pseudorandom generator starts.
    pub fn initialize(&self) -> (seed: Option<u64>)
        ensures
            seed == self@.file_contents.spec_seed(),
    {
        self.file_contents.initialize()
    }

    /// Takes what came of the action and sets out on the next one.
    pub fn advance(&mut self, event: TaskEvent)
        requires
            old(self).wf(),
        ensures
            final(self).wf(),
            final(self)@ == old(self)@.advance(event),
    {
        match self.stage {
            TaskStage::Finished | TaskStage::Failed => {},
            TaskStage::Dir => match event {
                TaskEvent::Done { .. } => {
                    self.pop_entry();
                    if self.dir_index + 1 < self.num_dirs {
                        self.dir_index = self.dir_index + 1;
                        self.create_dirs();
                    } else {
                        self.create_files();
                    }
                },
                TaskEvent::NotFound | TaskEvent::Failed => {
                    self.pop_entry();
                    self.stage = TaskStage::Failed;
                },
            },
            TaskStage::FirstDraw => match event {
                TaskEvent::Done { drawn } => {
                    self.drawn = drawn;
                    self.stage = TaskStage::First;
                    self.push_file(self.file_offset);
                },
                TaskEvent::NotFound | TaskEvent::Failed => {
                    self.stage = TaskStage::Failed;
                },
            },
            TaskStage::First => match event {
                TaskEvent::Done { drawn } => {
                    self.count_bytes(drawn);
                    self.pop_entry();
                    self.file_index = 1;
                    self.next_file();
                },
                TaskEvent::NotFound => {
                    self.pop_entry();
                    self.stage = TaskStage::Parents;
                },
                TaskEvent::Failed => {
                    self.pop_entry();
                    self.stage = TaskStage::Failed;
                },
            },
            TaskStage::Parents => match event {
                TaskEvent::Done { .. } => {
                    self.file_index = 0;
                    self.next_file();
                },
                TaskEvent::NotFound | TaskEvent::Failed => {
                    self.stage = TaskStage::Failed;
                },
            },
            TaskStage::Draw => match event {
                TaskEvent::Done { drawn } => {
                    self.drawn = drawn;
                    self.stage = TaskStage::File;
                    self.push_file(self.file_index + self.file_offset);
                },
                TaskEvent::NotFound | TaskEvent::Failed => {
                    self.stage = TaskStage::Failed;
                },
            },
            TaskStage::File => match event {
                TaskEvent::Done { drawn } => {
                    self.count_bytes(drawn);
                    self.pop_entry();
                    self.file_index = self.file_index + 1;
                    self.next_file();
                },
                TaskEvent::NotFound | TaskEvent::Failed => {
                    self.pop_entry();
                    self.stage = TaskStage::Failed;
                },
            },
        }
    }

    /// Gives up the task's vector of byte counts, for use by another task.
    pub fn byte_counts_pool_return(self) -> (counts: Option<Vec<u64>>)
        ensures
            match counts {
                Some(counts) => self@.file_contents.spec_byte_counts() == Some(counts@),
                None => self@.file_contents.spec_byte_counts() is None,
            },
    {
        self.file_contents.byte_counts_pool_return()
    }
}

} // verus!
