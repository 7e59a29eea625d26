//! How much work each directory gets: the two task generators.

use crate::engine::file_contents::{
    lemma_sum_push, spec_sum, ContentsView, FileContents, NoGeneratedFileContents,
    OnTheFlyGeneratedFileContents, PreDefinedGeneratedFileContents,
};
use crate::engine::files::{GeneratorTaskParams, TaskView};
use crate::utils::fast_path::FastPathBuf;
use crate::utils::non_zero::NonZeroU64;
use vstd::prelude::*;

verus! {

/// What was decided for one directory.
#[derive(Debug, Copy, Clone, PartialEq, Eq, Structural)]
pub struct QueueOutcome {
    pub num_files: u64,
    pub num_dirs: usize,
    pub done: bool,
}

/// Why no task was made for a directory.
pub enum QueueErrors {
    /// The directory gets neither files nor subdirectories. Its path comes
    /// back for another use.
    NothingToDo(FastPathBuf),
}

/// A task that is ready to be run, with what was decided for its directory.
pub struct Queued {
    pub outcome: QueueOutcome,
    pub task: GeneratorTaskParams<FileContents>,
}

/// The numbers that a generator needs besides the file count of a directory.
#[derive(Debug, Copy, Clone, PartialEq, Eq, Structural)]
pub struct DrawPlan {
    /// Whether a number of subdirectories is drawn.
    pub num_dirs: bool,
    /// How many byte counts are drawn.
    pub byte_counts: usize,
    /// Whether a seed for the task's own generator is drawn.
    pub seed: bool,
}

/// The numbers drawn for one directory. A number that the generator did not
/// ask for is not looked at.
pub struct Draws {
    pub num_files: u64,
    pub num_dirs: u64,
    pub byte_counts: Vec<u64>,
    pub seed: u64,
}

/// The drawn numbers as the contracts see them.
pub struct DrawsView {
    pub num_files: u64,
    pub num_dirs: u64,
    pub byte_counts: Seq<u64>,
    pub seed: u64,
}

impl View for Draws {
    type V = DrawsView;

    open spec fn view(&self) -> DrawsView {
        DrawsView {
            num_files: self.num_files,
            num_dirs: self.num_dirs,
            byte_counts: self.byte_counts@,
            seed: self.seed,
        }
    }
}

/// What a generator issues for one directory: the task without its path.
pub struct Issue {
    pub num_files: u64,
    pub num_dirs: usize,
    pub file_offset: u64,
    pub done: bool,
    pub file_contents: ContentsView,
}

impl Issue {
    /// The task that is issued for the directory at `target_dir`.
    pub open spec fn task(self, target_dir: Seq<u8>) -> TaskView {
        TaskView {
            target_dir,
            num_files: self.num_files,
            num_dirs: self.num_dirs,
            file_offset: self.file_offset,
            file_contents: self.file_contents,
        }
    }

    /// What is told of the directory.
    pub open spec fn outcome(self) -> QueueOutcome {
        QueueOutcome { num_files: self.num_files, num_dirs: self.num_dirs, done: self.done }
    }
}

/// Whether `result` hands out exactly what was issued for the directory at
/// `file`: the task with its outcome, or the path where nothing was issued.
pub open spec fn hands_out(
    result: Result<Queued, QueueErrors>,
    file: Seq<u8>,
    issue: Option<Issue>,
) -> bool {
    match result {
        Ok(queued) => issue matches Some(issue) && queued.task@ == issue.task(file)
            && queued.outcome == issue.outcome(),
        Err(QueueErrors::NothingToDo(path)) => issue is None && path@ == file,
    }
}

/// `n` as a `usize`, or the largest `usize` where `n` does not fit.
pub open spec fn spec_to_usize(n: u64) -> usize {
    if n <= usize::MAX {
        n as usize
    } else {
        usize::MAX
    }
}

/// `n` as a `usize`, or the largest `usize` where `n` does not fit.
pub fn to_usize(n: u64) -> (m: usize)
    ensures
        m == spec_to_usize(n),
{
    if n <= usize::MAX as u64 {
        n as usize
    } else {
        usize::MAX
    }
}

/// Number of subdirectories of a directory with `files_created` files, for
/// which `drawn` was drawn: none where the tree ends, and at least one where
/// the directory holds files.
pub open spec fn spec_dirs_to_gen(files_created: u64, gen_dirs: bool, drawn: u64) -> usize {
    if !gen_dirs {
        0
    } else if files_created > 0 && spec_to_usize(drawn) == 0 {
        1
    } else {
        spec_to_usize(drawn)
    }
}

/// The drawn byte counts, each cut down to what is left of `budget` after
/// those before it.
pub open spec fn spec_clamped(budget: u64, samples: Seq<u64>) -> Seq<u64>
    decreases samples.len(),
{
    if samples.len() == 0 {
        Seq::empty()
    } else {
        let before = spec_clamped(budget, samples.drop_last());
        let left = budget - spec_sum(before);
        before.push(
            if samples.last() <= left {
                samples.last()
            } else {
                left as u64
            },
        )
    }
}

/// `counts` with `leftover` more bytes spread over them: every file gets the
/// same share, and the first files one byte more, until nothing is left.
pub open spec fn spec_spread(counts: Seq<u64>, leftover: u64, num_files: u64) -> Seq<u64> {
    Seq::new(
        counts.len(),
        |i: int|
            (counts[i] + leftover / num_files + if i < leftover % num_files {
                1int
            } else {
                0int
            }) as u64,
    )
}

/// The clamped counts are as many as the samples and never exceed the budget.
pub proof fn lemma_clamped(budget: u64, samples: Seq<u64>)
    ensures
        spec_clamped(budget, samples).len() == samples.len(),
        spec_sum(spec_clamped(budget, samples)) <= budget,
    decreases samples.len(),
{
    if samples.len() > 0 {
        lemma_clamped(budget, samples.drop_last());
        let before = spec_clamped(budget, samples.drop_last());
        let left = budget - spec_sum(before);
        let last: u64 = if samples.last() <= left {
            samples.last()
        } else {
            left as u64
        };
        lemma_sum_push(before, last);
    }
}

/// No count is more than the sum of all.
pub proof fn lemma_sum_bounds(counts: Seq<u64>, i: int)
    requires
        0 <= i < counts.len(),
    ensures
        counts[i] <= spec_sum(counts),
    decreases counts.len(),
{
    if i < counts.len() - 1 {
        lemma_sum_bounds(counts.drop_last(), i);
    }
}

/// The sum of a prefix grows with the prefix.
pub proof fn lemma_sum_take(counts: Seq<u64>, i: int)
    requires
        0 <= i < counts.len(),
    ensures
        spec_sum(counts.take(i + 1)) == spec_sum(counts.take(i)) + counts[i],
{
    assert(counts.take(i + 1).drop_last() =~= counts.take(i));
}

/// The share of one file in the spreading of `leftover` bytes is no more
/// than `leftover`.
pub proof fn lemma_share(leftover: u64, num_files: u64, i: int)
    by (nonlinear_arith)
    requires
        num_files > 0,
        i >= 0,
    ensures
        leftover / num_files + (if i < leftover % num_files {
            1int
        } else {
            0int
        }) <= leftover,
        0 <= leftover % num_files < num_files,
        leftover == num_files * (leftover / num_files) + leftover % num_files,
{
}

/// Law: spreading adds exactly `leftover` bytes, when there is a count for
/// every file.
pub proof fn lemma_spread_sum(counts: Seq<u64>, leftover: u64, num_files: u64)
    requires
        num_files > 0,
        counts.len() == num_files,
        spec_sum(counts) + leftover <= u64::MAX,
    ensures
        spec_sum(spec_spread(counts, leftover, num_files)) == spec_sum(counts) + leftover,
{
    let spread = spec_spread(counts, leftover, num_files);
    let base = leftover / num_files;
    let extra = leftover % num_files;
    lemma_share(leftover, num_files, 0);
    assert forall|i: int| 0 <= i < counts.len() implies #[trigger] spread[i] == counts[i] + base
        + if i < extra {
        1int
    } else {
        0int
    } by {
        lemma_share(leftover, num_files, i);
        lemma_sum_bounds(counts, i);
    }
    lemma_spread_prefix(counts, spread, base as int, extra as int, counts.len() as int);
    assert(counts.take(counts.len() as int) =~= counts);
    assert(spread.take(counts.len() as int) =~= spread);
    assert(base * num_files == num_files * base) by (nonlinear_arith);
}

/// Spreading adds no more than `leftover` bytes in all, when there are no
/// more counts than files.
pub proof fn lemma_spread_bound(counts: Seq<u64>, leftover: u64, num_files: u64)
    requires
        num_files > 0,
        counts.len() <= num_files,
        spec_sum(counts) + leftover <= u64::MAX,
    ensures
        spec_sum(spec_spread(counts, leftover, num_files)) <= spec_sum(counts) + leftover,
{
    let spread = spec_spread(counts, leftover, num_files);
    let base = leftover / num_files;
    let extra = leftover % num_files;
    let k = counts.len() as int;
    lemma_share(leftover, num_files, 0);
    assert forall|i: int| 0 <= i < counts.len() implies #[trigger] spread[i] == counts[i] + base
        + if i < extra {
        1int
    } else {
        0int
    } by {
        lemma_share(leftover, num_files, i);
        lemma_sum_bounds(counts, i);
    }
    lemma_spread_prefix(counts, spread, base as int, extra as int, k);
    assert(counts.take(k) =~= counts);
    assert(spread.take(k) =~= spread);
    assert(base * k <= base * num_files) by (nonlinear_arith)
        requires
            0 <= k <= num_files,
            0 <= base,
    ;
    assert(base * num_files == num_files * base) by (nonlinear_arith);
}

/// The sum of the first `k` spread counts.
proof fn lemma_spread_prefix(counts: Seq<u64>, spread: Seq<u64>, base: int, extra: int, k: int)
    requires
        spread.len() == counts.len(),
        0 <= k <= counts.len(),
        0 <= base,
        0 <= extra,
        forall|i: int|
            0 <= i < counts.len() ==> #[trigger] spread[i] == counts[i] + base + if i < extra {
                1int
            } else {
                0int
            },
    ensures
        spec_sum(spread.take(k)) == spec_sum(counts.take(k)) + base * k + if k < extra {
            k
        } else {
            extra
        },
    decreases k,
{
    if k > 0 {
        lemma_spread_prefix(counts, spread, base, extra, k - 1);
        lemma_sum_take(counts, k - 1);
        lemma_sum_take(spread, k - 1);
        assert(base * k == base * (k - 1) + base) by (nonlinear_arith);
    } else {
        assert(spread.take(0) =~= Seq::<u64>::empty());
        assert(counts.take(0) =~= Seq::<u64>::empty());
        assert(base * 0 == 0) by (nonlinear_arith);
    }
}

/// What is issued for a directory that gets `num_files` files and
/// `num_dirs` subdirectories: a task, unless it gets neither.
pub open spec fn spec_queue(
    num_files: u64,
    num_dirs: usize,
    file_offset: u64,
    done: bool,
    file_contents: ContentsView,
) -> Option<Issue> {
    if num_files > 0 || num_dirs > 0 {
        Some(Issue { num_files, num_dirs, file_offset, done, file_contents })
    } else {
        None
    }
}

/// Makes the task for a directory, unless there is nothing to do in it.
pub fn queue(params: GeneratorTaskParams<FileContents>, done: bool) -> (result: Result<
    Queued,
    QueueErrors,
>)
    ensures
        hands_out(
            result,
            params.target_dir@,
            spec_queue(
                params.num_files,
                params.num_dirs,
                params.file_offset,
                done,
                params.file_contents@,
            ),
        ),
{
    if params.num_files > 0 || params.num_dirs > 0 {
        let outcome = QueueOutcome {
            num_files: params.num_files,
            num_dirs: params.num_dirs,
            done,
        };
        Ok(Queued { outcome, task: params })
    } else {
        Err(QueueErrors::NothingToDo(params.target_dir))
    }
}

/// Number of subdirectories of a directory with `files_created` files, for
/// which `drawn` was drawn.
pub fn dirs_to_gen(files_created: u64, gen_dirs: bool, drawn: u64) -> (dirs: usize)
    ensures
        dirs == spec_dirs_to_gen(files_created, gen_dirs, drawn),
{
    if gen_dirs {
        let dirs: usize = to_usize(drawn);
        if files_created > 0 && dirs == 0 {
            1
        } else {
            dirs
        }
    } else {
        0
    }
}

/// Number of files that `issue` plans.
pub open spec fn issued_files(issue: Option<Issue>) -> nat {
    match issue {
        Some(issue) => issue.num_files as nat,
        None => 0,
    }
}

/// Number of bytes that `issue` fixes for its files.
pub open spec fn issued_bytes(issue: Option<Issue>) -> nat {
    match issue {
        Some(issue) => issue.file_contents.planned_bytes(),
        None => 0,
    }
}

/// Whether the files that are owed, where their number is exact, are no
/// more than a vector has places for.
pub open spec fn fits_usize(owed: Option<nat>) -> bool {
    owed matches Some(owed) ==> owed <= usize::MAX
}

/// Whether what was owed `before` is what has been `issued` and what is
/// owed `after`.
pub open spec fn owed_after(before: Option<nat>, after: Option<nat>, issued: nat) -> bool {
    match before {
        Some(before) => after == Some((before - issued) as nat) && issued <= before,
        None => after is None,
    }
}

/// Decides how many files and subdirectories each directory gets.
///
/// The numbers are drawn by the caller: the file count first, then what
/// `draw_plan` asks for, in the order of its fields.
pub trait TaskGenerator: Sized {
    /// Whether the generator's books are in order.
    spec fn spec_wf(&self) -> bool;

    /// Whether the generator still takes directories.
    spec fn spec_ready(&self) -> bool;

    /// Whether the generator has planned no directory yet.
    spec fn spec_fresh(&self) -> bool;

    /// Whether the files of a closing task, if one comes, are numbered from
    /// `root_files` on.
    spec fn spec_closing_after(&self, root_files: nat) -> bool;

    /// Number of files that are still to be planned, where the run
    /// promises an exact number of files.
    spec fn spec_owed_files(&self) -> Option<nat>;

    /// Number of bytes that are still to be handed out, where the run
    /// promises an exact number of bytes.
    spec fn spec_owed_bytes(&self) -> Option<nat>;

    /// What is drawn for a directory besides its file count.
    spec fn spec_draw_plan(&self, num_files: u64, gen_dirs: bool) -> DrawPlan;

    /// The generator after a directory, and what it issues for it.
    spec fn spec_queue_gen(&self, draws: DrawsView, gen_dirs: bool) -> (Self, Option<Issue>);

    /// What is drawn for the closing task.
    spec fn spec_final_draw_plan(&self) -> DrawPlan;

    /// The generator after the closing task, and what it issues for it.
    spec fn spec_final_gen(&self, draws: DrawsView) -> (Self, Option<Issue>);

    /// What is to be drawn for a directory for which the file count
    /// `num_files` was drawn.
    fn draw_plan(&self, num_files: u64, gen_dirs: bool) -> (plan: DrawPlan)
        ensures
            plan == self.spec_draw_plan(num_files, gen_dirs),
    ;

    /// Decides the work in the directory at `file`. Subdirectories are
    /// planned only where `gen_dirs` allows them.
    fn queue_gen(&mut self, draws: Draws, file: FastPathBuf, gen_dirs: bool) -> (result: Result<
        Queued,
        QueueErrors,
    >)
        requires
            old(self).spec_wf(),
            old(self).spec_ready(),
            draws.byte_counts@.len() == old(self).spec_draw_plan(
                draws.num_files,
                gen_dirs,
            ).byte_counts,
        ensures
            *final(self) == old(self).spec_queue_gen(draws@, gen_dirs).0,
            hands_out(result, file@, old(self).spec_queue_gen(draws@, gen_dirs).1),
            final(self).spec_wf(),
            result matches Ok(queued) ==> (!gen_dirs || queued.outcome.done)
                ==> queued.outcome.num_dirs == 0,
            final(self).spec_ready() || (result matches Ok(queued) && queued.outcome.done),
    ;

    /// What is to be drawn for the closing task.
    fn final_draw_plan(&self) -> (plan: DrawPlan)
        ensures
            plan == self.spec_final_draw_plan(),
            !plan.num_dirs,
    ;

    /// Plans the closing task, in the directory at `file`: what is still
    /// owed when the walk through the tree has ended.
    fn maybe_queue_final_gen(&mut self, draws: Draws, file: FastPathBuf) -> (result: Result<
        Queued,
        QueueErrors,
    >)
        requires
            old(self).spec_wf(),
            draws.byte_counts@.len() == old(self).spec_final_draw_plan().byte_counts,
        ensures
            *final(self) == old(self).spec_final_gen(draws@).0,
            hands_out(result, file@, old(self).spec_final_gen(draws@).1),
            final(self).spec_wf(),
            result matches Ok(queued) ==> queued.outcome.num_dirs == 0,
    ;

    /// Law: what a directory's task takes is taken off what is owed. Of the
    /// bytes this holds where the files that are owed are no more than a
    /// vector has places for.
    proof fn lemma_queue_gen_owed(&self, draws: DrawsView, gen_dirs: bool)
        requires
            self.spec_wf(),
            self.spec_ready(),
            draws.byte_counts.len() == self.spec_draw_plan(draws.num_files, gen_dirs).byte_counts,
        ensures
            owed_after(
                self.spec_owed_files(),
                self.spec_queue_gen(draws, gen_dirs).0.spec_owed_files(),
                issued_files(self.spec_queue_gen(draws, gen_dirs).1),
            ),
            fits_usize(self.spec_owed_files()) ==> owed_after(
                self.spec_owed_bytes(),
                self.spec_queue_gen(draws, gen_dirs).0.spec_owed_bytes(),
                issued_bytes(self.spec_queue_gen(draws, gen_dirs).1),
            ),
    ;

    /// Law: the files of a directory's task are numbered from zero. The
    /// number of files of the first directory is where the files of a
    /// closing task start, and a task that ends the run is the last that
    /// the generator takes a directory for.
    proof fn lemma_queue_gen_numbering(&self, draws: DrawsView, gen_dirs: bool)
        requires
            self.spec_wf(),
            self.spec_ready(),
            draws.byte_counts.len() == self.spec_draw_plan(draws.num_files, gen_dirs).byte_counts,
        ensures
            self.spec_queue_gen(draws, gen_dirs).1 matches Some(issue) ==> issue.file_offset == 0
                && (issue.done ==> !self.spec_queue_gen(draws, gen_dirs).0.spec_ready()),
            self.spec_fresh() ==> self.spec_queue_gen(draws, gen_dirs).0.spec_closing_after(
                issued_files(self.spec_queue_gen(draws, gen_dirs).1),
            ),
            forall|root_files: nat| #[trigger]
                self.spec_closing_after(root_files) ==> self.spec_queue_gen(
                    draws,
                    gen_dirs,
                ).0.spec_closing_after(root_files),
    ;

    /// Law: a closing task comes only from a generator that still takes
    /// directories, and its files are numbered from where those of the
    /// first directory end.
    proof fn lemma_final_gen_numbering(&self, draws: DrawsView, root_files: nat)
        requires
            self.spec_wf(),
            self.spec_closing_after(root_files),
            draws.byte_counts.len() == self.spec_final_draw_plan().byte_counts,
        ensures
            self.spec_final_gen(draws).1 matches Some(issue) ==> issue.file_offset == root_files
                && self.spec_ready(),
    ;

    /// Law: after the closing task nothing is owed. Of the bytes this holds
    /// where the files that are owed are no more than a vector has places
    /// for.
    proof fn lemma_final_gen_owed(&self, draws: DrawsView)
        requires
            self.spec_wf(),
            draws.byte_counts.len() == self.spec_final_draw_plan().byte_counts,
        ensures
            owed_after(
                self.spec_owed_files(),
                self.spec_final_gen(draws).0.spec_owed_files(),
                issued_files(self.spec_final_gen(draws).1),
            ),
            self.spec_owed_files() is Some ==> self.spec_final_gen(draws).0.spec_owed_files()
                == Some(0nat),
            fits_usize(self.spec_owed_files()) ==> owed_after(
                self.spec_owed_bytes(),
                self.spec_final_gen(draws).0.spec_owed_bytes(),
                issued_bytes(self.spec_final_gen(draws).1),
            ) && (self.spec_owed_bytes() is Some ==> self.spec_final_gen(draws).0.spec_owed_bytes()
                == Some(0nat)),
    ;
}

/// What a run that writes bytes into its files needs to know of them.
#[derive(Debug, Copy, Clone, PartialEq, Eq, Structural)]
pub struct GeneratorBytes {
    pub fill_byte: Option<u8>,
}

/// The generator of a run that promises no exact totals.
#[derive(Debug, Copy, Clone, PartialEq, Eq, Structural)]
pub struct DynamicGenerator {
    pub bytes: Option<GeneratorBytes>,
}

impl TaskGenerator for DynamicGenerator {
    open spec fn spec_wf(&self) -> bool {
        true
    }

    open spec fn spec_ready(&self) -> bool {
        true
    }

    open spec fn spec_owed_files(&self) -> Option<nat> {
        None
    }

    open spec fn spec_owed_bytes(&self) -> Option<nat> {
        None
    }

    open spec fn spec_fresh(&self) -> bool {
        true
    }

    open spec fn spec_closing_after(&self, root_files: nat) -> bool {
        true
    }

    proof fn lemma_queue_gen_owed(&self, draws: DrawsView, gen_dirs: bool) {
    }

    proof fn lemma_final_gen_owed(&self, draws: DrawsView) {
    }

    proof fn lemma_queue_gen_numbering(&self, draws: DrawsView, gen_dirs: bool) {
    }

    proof fn lemma_final_gen_numbering(&self, draws: DrawsView, root_files: nat) {
    }

    open spec fn spec_draw_plan(&self, num_files: u64, gen_dirs: bool) -> DrawPlan {
        DrawPlan { num_dirs: gen_dirs, byte_counts: 0, seed: self.bytes is Some }
    }

    open spec fn spec_queue_gen(&self, draws: DrawsView, gen_dirs: bool) -> (Self, Option<Issue>) {
        (
            *self,
            spec_queue(
                draws.num_files,
                spec_dirs_to_gen(draws.num_files, gen_dirs, draws.num_dirs),
                0,
                false,
                match self.bytes {
                    Some(bytes) => ContentsView::OnTheFly {
                        seed: draws.seed,
                        fill_byte: bytes.fill_byte,
                    },
                    None => ContentsView::Empty,
                },
            ),
        )
    }

    open spec fn spec_final_draw_plan(&self) -> DrawPlan {
        DrawPlan { num_dirs: false, byte_counts: 0, seed: false }
    }

    open spec fn spec_final_gen(&self, draws: DrawsView) -> (Self, Option<Issue>) {
        (*self, None)
    }

    fn draw_plan(&self, num_files: u64, gen_dirs: bool) -> (plan: DrawPlan) {
        DrawPlan { num_dirs: gen_dirs, byte_counts: 0, seed: self.bytes.is_some() }
    }

    fn queue_gen(&mut self, draws: Draws, file: FastPathBuf, gen_dirs: bool) -> (result: Result<
        Queued,
        QueueErrors,
    >) {
        let num_files: u64 = draws.num_files;
        let num_dirs: usize = dirs_to_gen(num_files, gen_dirs, draws.num_dirs);
        let file_contents = match self.bytes {
            Some(bytes) => FileContents::OnTheFly(
                OnTheFlyGeneratedFileContents { seed: draws.seed, fill_byte: bytes.fill_byte },
            ),
            None => FileContents::Empty(NoGeneratedFileContents),
        };
        queue(
            GeneratorTaskParams { target_dir: file, num_files, num_dirs, file_offset: 0, file_contents },
            false,
        )
    }

    fn final_draw_plan(&self) -> (plan: DrawPlan) {
        DrawPlan { num_dirs: false, byte_counts: 0, seed: false }
    }

    fn maybe_queue_final_gen(&mut self, draws: Draws, file: FastPathBuf) -> (result: Result<
        Queued,
        QueueErrors,
    >) {
        Err(QueueErrors::NothingToDo(file))
    }
}

/// What the contents of a task need: the number of byte counts and whether
/// a seed is drawn.
pub open spec fn spec_contents_plan(
    bytes: Option<GeneratorBytes>,
    bytes_exact: Option<u64>,
    num_files: u64,
) -> (usize, bool) {
    if num_files > 0 && bytes is Some {
        match bytes_exact {
            Some(left) => if left > 0 {
                (spec_to_usize(num_files), true)
            } else {
                (0, false)
            },
            None => (0, true),
        }
    } else {
        (0, false)
    }
}

/// What the contents of a task need: the number of byte counts and whether
/// a seed is drawn.
pub fn contents_plan(bytes: Option<GeneratorBytes>, bytes_exact: Option<u64>, num_files: u64) -> (plan:
    (usize, bool))
    ensures
        plan == spec_contents_plan(bytes, bytes_exact, num_files),
{
    if num_files > 0 && bytes.is_some() {
        match bytes_exact {
            Some(left) => if left > 0 {
                (to_usize(num_files), true)
            } else {
                (0, false)
            },
            None => (0, true),
        }
    } else {
        (0, false)
    }
}

/// The contents of a task with `num_files` files, and the bytes that are
/// left to hand out after it.
///
/// Where the total of bytes is exact, every file gets what was drawn for it,
/// as far as the bytes that are left allow. The task that ends the run
/// also gets what is left after that, spread over its files.
pub open spec fn spec_contents(
    bytes: Option<GeneratorBytes>,
    bytes_exact: Option<u64>,
    done: bool,
    num_files: u64,
    samples: Seq<u64>,
    seed: u64,
) -> (ContentsView, Option<u64>) {
    if num_files > 0 && bytes is Some {
        let fill_byte = bytes.unwrap().fill_byte;
        match bytes_exact {
            Some(budget) => if budget > 0 {
                let counts = spec_clamped(budget, samples);
                let left = (budget - spec_sum(counts)) as u64;
                (
                    ContentsView::PreDefined {
                        byte_counts: if done {
                            spec_spread(counts, left, num_files)
                        } else {
                            counts
                        },
                        seed,
                        fill_byte,
                    },
                    Some(left),
                )
            } else {
                (ContentsView::Empty, bytes_exact)
            },
            None => (ContentsView::OnTheFly { seed, fill_byte }, bytes_exact),
        }
    } else {
        (ContentsView::Empty, bytes_exact)
    }
}

/// The contents of a task fix no more bytes than are left, and the task that
/// ends the run takes all of them, where it has a byte count for each file.
pub proof fn lemma_contents_owed(
    bytes: Option<GeneratorBytes>,
    bytes_exact: Option<u64>,
    done: bool,
    num_files: u64,
    samples: Seq<u64>,
    seed: u64,
)
    requires
        samples.len() == spec_contents_plan(bytes, bytes_exact, num_files).0,
    ensures
        ({
            let (contents, left) = spec_contents(bytes, bytes_exact, done, num_files, samples, seed);
            &&& bytes_exact is None ==> left is None && contents.planned_bytes() == 0
            &&& bytes_exact matches Some(budget) ==> {
                &&& left matches Some(left)
                &&& left <= budget
                &&& !done ==> contents.planned_bytes() + left == budget
                &&& done && num_files > 0 && bytes is Some && spec_to_usize(num_files) == num_files
                    ==> contents.planned_bytes() == budget
                &&& contents.planned_bytes() <= budget
            }
            &&& contents matches ContentsView::PreDefined { byte_counts, .. } ==> byte_counts.len()
                == spec_to_usize(num_files)
        }),
{
    if num_files > 0 && bytes is Some {
        if let Some(budget) = bytes_exact {
            if budget > 0 {
                lemma_clamped(budget, samples);
                let counts = spec_clamped(budget, samples);
                let left = (budget - spec_sum(counts)) as u64;
                if done {
                    if counts.len() == num_files {
                        lemma_spread_sum(counts, left, num_files);
                    } else {
                        lemma_spread_bound(counts, left, num_files);
                    }
                }
            }
        }
    }
}

/// The generator of a run that promises an exact number of files, of bytes,
/// or of both.
#[derive(Debug, Copy, Clone, PartialEq, Eq, Structural)]
pub struct StaticGenerator {
    pub dynamic: DynamicGenerator,
    /// The files that are left to plan, where their number is exact.
    pub files_exact: Option<u64>,
    /// The bytes that are left to hand out, where their number is exact.
    pub bytes_exact: Option<u64>,
    /// Whether the last task has been planned.
    pub done: bool,
    /// Number of files in the root directory, once it is known.
    pub root_num_files_hack: Option<u64>,
}

impl StaticGenerator {
    /// The generator of a run that is to end with exactly `files_exact`
    /// files, exactly `bytes_exact` bytes, or both.
    pub fn new(
        dynamic: DynamicGenerator,
        files_exact: Option<NonZeroU64>,
        bytes_exact: Option<NonZeroU64>,
    ) -> (generator: Self)
        requires
            files_exact is Some || bytes_exact is Some,
        ensures
            generator == (StaticGenerator {
                dynamic,
                files_exact: match files_exact {
                    Some(files) => Some(files@),
                    None => None,
                },
                bytes_exact: match bytes_exact {
                    Some(bytes) => Some(bytes@),
                    None => None,
                },
                done: false,
                root_num_files_hack: None,
            }),
            generator.files_exact matches Some(files) ==> files > 0,
            generator.bytes_exact matches Some(bytes) ==> bytes > 0,
            generator.spec_fresh(),
    {
        StaticGenerator {
            dynamic,
            files_exact: match files_exact {
                Some(files) => Some(files.get()),
                None => None,
            },
            bytes_exact: match bytes_exact {
                Some(bytes) => Some(bytes.get()),
                None => None,
            },
            done: false,
            root_num_files_hack: None,
        }
    }

    /// The generator with `done` and `bytes_exact` replaced.
    pub open spec fn spec_with(&self, done: bool, bytes_exact: Option<u64>) -> Self {
        StaticGenerator { done, bytes_exact, ..*self }
    }

    /// The generator after a task with `num_files` files and `num_dirs`
    /// subdirectories, and what it issues for it.
    pub open spec fn spec_queue_gen_internal(
        &self,
        num_files: u64,
        num_dirs: usize,
        offset: u64,
        samples: Seq<u64>,
        seed: u64,
    ) -> (Self, Option<Issue>) {
        let (file_contents, bytes_exact) = spec_contents(
            self.dynamic.bytes,
            self.bytes_exact,
            self.done,
            num_files,
            samples,
            seed,
        );
        (
            self.spec_with(self.done, bytes_exact),
            spec_queue(num_files, num_dirs, offset, self.done, file_contents),
        )
    }

    /// Number of files of the closing task: the files that are left, or one
    /// file that takes the bytes that are left.
    pub open spec fn spec_final_files(&self) -> Option<u64> {
        if self.done {
            None
        } else if self.files_exact is Some {
            self.files_exact
        } else if self.bytes_exact matches Some(left) && left > 0 {
            Some(1)
        } else {
            None
        }
    }

    /// Number of files of a directory for which `drawn` was drawn, and
    /// whether its task ends the run: no more files than are left to plan.
    pub open spec fn spec_files(&self, drawn: u64) -> (u64, bool) {
        match self.files_exact {
            Some(files) => if drawn >= files {
                (files, true)
            } else {
                (drawn, self.done)
            },
            None => (drawn, self.done),
        }
    }

    /// Number of files of a directory for which `drawn` was drawn, and
    /// whether its task ends the run.
    pub fn files(&self, drawn: u64) -> (decided: (u64, bool))
        ensures
            decided == self.spec_files(drawn),
    {
        match self.files_exact {
            Some(files) => if drawn >= files {
                (files, true)
            } else {
                (drawn, self.done)
            },
            None => (drawn, self.done),
        }
    }

    /// Number of files of the closing task, if there is one.
    pub fn final_files(&self) -> (num_files: Option<u64>)
        ensures
            num_files == self.spec_final_files(),
    {
        if self.done {
            None
        } else if self.files_exact.is_some() {
            self.files_exact
        } else {
            match self.bytes_exact {
                Some(left) => if left > 0 {
                    Some(1)
                } else {
                    None
                },
                None => None,
            }
        }
    }

    /// Plans the task for the directory at `file`, with its contents.
    fn queue_gen_internal(
        &mut self,
        file: FastPathBuf,
        num_files: u64,
        num_dirs: usize,
        offset: u64,
        byte_counts: Vec<u64>,
        seed: u64,
    ) -> (result: Result<Queued, QueueErrors>)
        requires
            byte_counts@.len() == spec_contents_plan(
                old(self).dynamic.bytes,
                old(self).bytes_exact,
                num_files,
            ).0,
        ensures
            *final(self) == old(self).spec_queue_gen_internal(
                num_files,
                num_dirs,
                offset,
                byte_counts@,
                seed,
            ).0,
            hands_out(
                result,
                file@,
                old(self).spec_queue_gen_internal(num_files, num_dirs, offset, byte_counts@, seed).1,
            ),
    {
        let done: bool = self.done;
        if num_files > 0 {
            if let Some(GeneratorBytes { fill_byte }) = self.dynamic.bytes {
                if let Some(budget) = self.bytes_exact {
                    if budget > 0 {
                        let mut byte_counts = byte_counts;
                        let ghost samples = byte_counts@;
                        let mut left: u64 = budget;
                        let mut i: usize = 0;
                        while i < byte_counts.len()
                            invariant
                                i <= byte_counts@.len(),
                                byte_counts@.len() == samples.len(),
                                byte_counts@.take(i as int) == spec_clamped(
                                    budget,
                                    samples.take(i as int),
                                ),
                                forall|j: int|
                                    i <= j < samples.len() ==> byte_counts@[j] == samples[j],
                                left == budget - spec_sum(byte_counts@.take(i as int)),
                            decreases byte_counts@.len() - i,
                        {
                            let drawn: u64 = byte_counts[i];
                            let num_bytes: u64 = if drawn <= left {
                                drawn
                            } else {
                                left
                            };
                            proof {
                                assert(samples.take(i + 1).drop_last() =~= samples.take(i as int));
                            }
                            let ghost before = byte_counts@;
                            byte_counts.set(i, num_bytes);
                            left = left - num_bytes;
                            proof {
                                assert(byte_counts@.take(i + 1) =~= before.take(i as int).push(
                                    num_bytes,
                                ));
                                lemma_sum_push(before.take(i as int), num_bytes);
                            }
                            i += 1;
                        }
                        proof {
                            assert(byte_counts@.take(i as int) =~= byte_counts@);
                            assert(samples.take(i as int) =~= samples);
                        }
                        self.bytes_exact = Some(left);
                        if done {
                            let ghost counts = byte_counts@;
                            let base: u64 = left / num_files;
                            let mut leftovers: u64 = left % num_files;
                            let mut k: usize = 0;
                            while k < byte_counts.len()
                                invariant
                                    num_files > 0,
                                    k <= byte_counts@.len(),
                                    byte_counts@.len() == counts.len(),
                                    base == left / num_files,
                                    spec_sum(counts) + left <= u64::MAX,
                                    leftovers == if k < left % num_files {
                                        left % num_files - k
                                    } else {
                                        0
                                    },
                                    byte_counts@.take(k as int) == spec_spread(
                                        counts,
                                        left,
                                        num_files,
                                    ).take(k as int),
                                    forall|j: int|
                                        k <= j < counts.len() ==> byte_counts@[j] == counts[j],
                                decreases byte_counts@.len() - k,
                            {
                                let count: u64 = byte_counts[k];
                                proof {
                                    lemma_share(left, num_files, k as int);
                                    lemma_sum_bounds(counts, k as int);
                                }
                                let ghost before = byte_counts@;
                                if leftovers > 0 {
                                    byte_counts.set(k, count + (base + 1));
                                    leftovers = leftovers - 1;
                                } else {
                                    byte_counts.set(k, count + base);
                                }
                                proof {
                                    assert(byte_counts@.take(k + 1) =~= spec_spread(
                                        counts,
                                        left,
                                        num_files,
                                    ).take(k + 1));
                                }
                                k += 1;
                            }
                            proof {
                                assert(byte_counts@.take(k as int) =~= byte_counts@);
                                assert(spec_spread(counts, left, num_files).take(k as int)
                                    =~= spec_spread(counts, left, num_files));
                            }
                        }
                        return queue(
                            GeneratorTaskParams {
                                target_dir: file,
                                num_files,
                                num_dirs,
                                file_offset: offset,
                                file_contents: FileContents::PreDefined(
                                    PreDefinedGeneratedFileContents { byte_counts, seed, fill_byte },
                                ),
                            },
                            done,
                        );
                    } else {
                        return queue(
                            GeneratorTaskParams {
                                target_dir: file,
                                num_files,
                                num_dirs,
                                file_offset: offset,
                                file_contents: FileContents::Empty(NoGeneratedFileContents),
                            },
                            done,
                        );
                    }
                } else {
                    return queue(
                        GeneratorTaskParams {
                            target_dir: file,
                            num_files,
                            num_dirs,
                            file_offset: offset,
                            file_contents: FileContents::OnTheFly(
                                OnTheFlyGeneratedFileContents { seed, fill_byte },
                            ),
                        },
                        done,
                    );
                }
            }
        }
        queue(
            GeneratorTaskParams {
                target_dir: file,
                num_files,
                num_dirs,
                file_offset: offset,
                file_contents: FileContents::Empty(NoGeneratedFileContents),
            },
            done,
        )
    }
}

impl TaskGenerator for StaticGenerator {
    open spec fn spec_wf(&self) -> bool {
        !self.done ==> (self.files_exact matches Some(files) ==> files > 0)
    }

    open spec fn spec_ready(&self) -> bool {
        !self.done
    }

    open spec fn spec_owed_files(&self) -> Option<nat> {
        match self.files_exact {
            Some(files) => Some(
                if self.done {
                    0nat
                } else {
                    files as nat
                },
            ),
            None => None,
        }
    }

    open spec fn spec_owed_bytes(&self) -> Option<nat> {
        match self.bytes_exact {
            Some(left) => if self.dynamic.bytes is Some {
                Some(
                    if self.done {
                        0nat
                    } else {
                        left as nat
                    },
                )
            } else {
                None
            },
            None => None,
        }
    }

    proof fn lemma_queue_gen_owed(&self, draws: DrawsView, gen_dirs: bool) {
        let (num_files, done) = self.spec_files(draws.num_files);
        lemma_contents_owed(
            self.dynamic.bytes,
            self.bytes_exact,
            done,
            num_files,
            draws.byte_counts,
            draws.seed,
        );
    }

    open spec fn spec_fresh(&self) -> bool {
        self.root_num_files_hack is None
    }

    open spec fn spec_closing_after(&self, root_files: nat) -> bool {
        self.root_num_files_hack matches Some(first) && first == root_files
    }

    proof fn lemma_queue_gen_numbering(&self, draws: DrawsView, gen_dirs: bool) {
    }

    proof fn lemma_final_gen_numbering(&self, draws: DrawsView, root_files: nat) {
    }

    proof fn lemma_final_gen_owed(&self, draws: DrawsView) {
        if let Some(num_files) = self.spec_final_files() {
            lemma_contents_owed(
                self.dynamic.bytes,
                self.bytes_exact,
                true,
                num_files,
                draws.byte_counts,
                draws.seed,
            );
        }
    }

    open spec fn spec_draw_plan(&self, num_files: u64, gen_dirs: bool) -> DrawPlan {
        let (num_files, done) = self.spec_files(num_files);
        let (byte_counts, seed) = spec_contents_plan(self.dynamic.bytes, self.bytes_exact, num_files);
        DrawPlan { num_dirs: gen_dirs && !done, byte_counts, seed }
    }

    open spec fn spec_queue_gen(&self, draws: DrawsView, gen_dirs: bool) -> (Self, Option<Issue>) {
        let (num_files, done) = self.spec_files(draws.num_files);
        let counted = StaticGenerator {
            files_exact: match self.files_exact {
                Some(files) => if done {
                    Some(files)
                } else {
                    Some((files - num_files) as u64)
                },
                None => None,
            },
            done,
            root_num_files_hack: match self.root_num_files_hack {
                Some(root) => Some(root),
                None => Some(num_files),
            },
            ..*self
        };
        counted.spec_queue_gen_internal(
            num_files,
            if done {
                0
            } else {
                spec_dirs_to_gen(num_files, gen_dirs, draws.num_dirs)
            },
            0,
            draws.byte_counts,
            draws.seed,
        )
    }

    open spec fn spec_final_draw_plan(&self) -> DrawPlan {
        match self.spec_final_files() {
            Some(num_files) => {
                let (byte_counts, seed) = spec_contents_plan(
                    self.dynamic.bytes,
                    self.bytes_exact,
                    num_files,
                );
                DrawPlan { num_dirs: false, byte_counts, seed }
            },
            None => DrawPlan { num_dirs: false, byte_counts: 0, seed: false },
        }
    }

    open spec fn spec_final_gen(&self, draws: DrawsView) -> (Self, Option<Issue>) {
        if self.done {
            (*self, None)
        } else {
            let closing = self.spec_with(true, self.bytes_exact);
            match self.spec_final_files() {
                Some(num_files) => closing.spec_queue_gen_internal(
                    num_files,
                    0,
                    match self.root_num_files_hack {
                        Some(root) => root,
                        None => 0,
                    },
                    draws.byte_counts,
                    draws.seed,
                ),
                None => (closing, None),
            }
        }
    }

    fn draw_plan(&self, num_files: u64, gen_dirs: bool) -> (plan: DrawPlan) {
        let (num_files, done) = self.files(num_files);
        let (byte_counts, seed) = contents_plan(self.dynamic.bytes, self.bytes_exact, num_files);
        DrawPlan { num_dirs: gen_dirs && !done, byte_counts, seed }
    }

    fn queue_gen(&mut self, draws: Draws, file: FastPathBuf, gen_dirs: bool) -> (result: Result<
        Queued,
        QueueErrors,
    >) {
        let Draws { num_files: drawn_files, num_dirs: drawn_dirs, byte_counts, seed } = draws;
        let mut num_files: u64 = drawn_files;
        if let Some(files) = self.files_exact {
            if num_files >= files {
                self.done = true;
                num_files = files;
            } else {
                self.files_exact = Some(files - num_files);
            }
        }
        if self.root_num_files_hack.is_none() {
            self.root_num_files_hack = Some(num_files);
        }
        let num_dirs: usize = if self.done {
            0
        } else {
            dirs_to_gen(num_files, gen_dirs, drawn_dirs)
        };
        self.queue_gen_internal(file, num_files, num_dirs, 0, byte_counts, seed)
    }

    fn final_draw_plan(&self) -> (plan: DrawPlan) {
        match self.final_files() {
            Some(num_files) => {
                let (byte_counts, seed) = contents_plan(
                    self.dynamic.bytes,
                    self.bytes_exact,
                    num_files,
                );
                DrawPlan { num_dirs: false, byte_counts, seed }
            },
            None => DrawPlan { num_dirs: false, byte_counts: 0, seed: false },
        }
    }

    fn maybe_queue_final_gen(&mut self, draws: Draws, file: FastPathBuf) -> (result: Result<
        Queued,
        QueueErrors,
    >) {
        if self.done {
            return Err(QueueErrors::NothingToDo(file));
        }
        let num_files = self.final_files();
        self.done = true;
        let offset: u64 = match self.root_num_files_hack {
            Some(root) => root,
            None => 0,
        };
        match num_files {
            Some(num_files) => self.queue_gen_internal(
                file,
                num_files,
                0,
                offset,
                draws.byte_counts,
                draws.seed,
            ),
            None => Err(QueueErrors::NothingToDo(file)),
        }
    }
}

} // verus!
