//! What goes into the files of one directory, and how each file is made.

use vstd::prelude::*;

verus! {

/// Where the bytes of a file come from.
#[derive(Debug, Copy, Clone, PartialEq, Eq, Structural)]
pub enum BytesKind {
    /// From the pseudorandom generator of the task.
    Random,
    /// One byte, repeated.
    Fixed(u8),
}

impl BytesKind {
    /// The source that a run with the given fill byte writes from.
    pub open spec fn spec_from(fill_byte: Option<u8>) -> BytesKind {
        match fill_byte {
            Some(byte) => BytesKind::Fixed(byte),
            None => BytesKind::Random,
        }
    }

    /// The source that a run with the given fill byte writes from.
    pub fn from(fill_byte: Option<u8>) -> (kind: BytesKind)
        ensures
            kind == Self::spec_from(fill_byte),
    {
        match fill_byte {
            Some(byte) => BytesKind::Fixed(byte),
            None => BytesKind::Random,
        }
    }
}

/// How one file is made.
#[derive(Debug, Copy, Clone, PartialEq, Eq, Structural)]
pub enum FilePlan {
    /// The file is made empty, without being opened.
    Empty,
    /// The file is opened and `num_bytes` bytes are written to it.
    Write { num_bytes: u64, kind: BytesKind },
    /// The file is opened. Once it is open, a byte count is drawn and that
    /// many bytes are written. A count drawn before the attempt is dropped,
    /// so that a failed attempt and its repetition draw as many numbers as
    /// one that succeeds.
    DrawThenWrite { kind: BytesKind },
}

/// The position of the file numbered `i` among the files of its task.
pub open spec fn spec_file_num(i: u64) -> usize {
    if i <= usize::MAX {
        i as usize
    } else {
        usize::MAX
    }
}

/// The position of the file numbered `i` among the files of its task.
pub fn file_num(i: u64) -> (num: usize)
    ensures
        num == spec_file_num(i),
{
    if i <= usize::MAX as u64 {
        i as usize
    } else {
        usize::MAX
    }
}

/// The sum of the numbers in `counts`.
pub open spec fn spec_sum(counts: Seq<u64>) -> nat
    decreases counts.len(),
{
    if counts.len() == 0 {
        0
    } else {
        spec_sum(counts.drop_last()) + counts.last() as nat
    }
}

/// The sum grows by what is appended.
pub proof fn lemma_sum_push(counts: Seq<u64>, count: u64)
    ensures
        spec_sum(counts.push(count)) == spec_sum(counts) + count,
{
    assert(counts.push(count).drop_last() =~= counts);
}

/// Decides, for each file of a task, how the file is made.
pub trait FileContentsGenerator: Sized {
    /// The seed of the task's own pseudorandom generator, if it uses one.
    spec fn spec_seed(&self) -> Option<u64>;

    /// Whether a byte count is drawn for every file.
    spec fn spec_draws_byte_counts(&self) -> bool;

    /// Whether the contents know a file at position `file_num`.
    spec fn spec_has_file(&self, file_num: usize) -> bool;

    /// How the file at position `file_num` is made.
    spec fn spec_create_file(&self, file_num: usize, retryable: bool, drawn: u64) -> FilePlan;

    /// The byte counts that were fixed beforehand, if any were.
    spec fn spec_byte_counts(&self) -> Option<Seq<u64>>;

    /// The seed from which the task's pseudorandom generator starts.
    fn initialize(&self) -> (seed: Option<u64>)
        ensures
            seed == self.spec_seed(),
    ;

    /// Whether `create_file` is to be given a freshly drawn byte count.
    fn draws_byte_counts(&self) -> (draws: bool)
        ensures
            draws == self.spec_draws_byte_counts(),
    ;

    /// How the file at position `file_num` is made. `retryable` marks the
    /// first attempt of a task, which is repeated when the directory is
    /// missing; `drawn` is the byte count drawn for this file, if one is
    /// drawn at all.
    fn create_file(&self, file_num: usize, retryable: bool, drawn: u64) -> (plan: FilePlan)
        requires
            self.spec_has_file(file_num),
        ensures
            plan == self.spec_create_file(file_num, retryable, drawn),
    ;

    /// Whether the contents know each of the first `num_files` files.
    fn has_files(&self, num_files: u64) -> (known: bool)
        ensures
            known == (forall|i: u64|
                i < num_files ==> self.spec_has_file(#[trigger] spec_file_num(i))),
    ;

    /// Gives up the vector of byte counts, for use by another task.
    fn byte_counts_pool_return(self) -> (counts: Option<Vec<u64>>)
        ensures
            match counts {
                Some(counts) => self.spec_byte_counts() == Some(counts@),
                None => self.spec_byte_counts() is None,
            },
    ;
}


/// Contents of a task whose files are all empty.
#[derive(Debug)]
pub struct NoGeneratedFileContents;

impl FileContentsGenerator for NoGeneratedFileContents {
    open spec fn spec_seed(&self) -> Option<u64> {
        None
    }

    open spec fn spec_draws_byte_counts(&self) -> bool {
        false
    }

    open spec fn spec_has_file(&self, file_num: usize) -> bool {
        true
    }

    open spec fn spec_create_file(&self, file_num: usize, retryable: bool, drawn: u64) -> FilePlan {
        FilePlan::Empty
    }

    open spec fn spec_byte_counts(&self) -> Option<Seq<u64>> {
        None
    }

    fn initialize(&self) -> (seed: Option<u64>) {
        None
    }

    fn draws_byte_counts(&self) -> (draws: bool) {
        false
    }

    fn create_file(&self, file_num: usize, retryable: bool, drawn: u64) -> (plan: FilePlan) {
        FilePlan::Empty
    }

    fn has_files(&self, num_files: u64) -> (known: bool) {
        true
    }

    fn byte_counts_pool_return(self) -> (counts: Option<Vec<u64>>) {
        None
    }
}

/// Contents whose sizes are drawn while the task runs.
#[derive(Debug)]
pub struct OnTheFlyGeneratedFileContents {
    pub seed: u64,
    pub fill_byte: Option<u8>,
}

impl FileContentsGenerator for OnTheFlyGeneratedFileContents {
    open spec fn spec_seed(&self) -> Option<u64> {
        Some(self.seed)
    }

    open spec fn spec_draws_byte_counts(&self) -> bool {
        true
    }

    open spec fn spec_has_file(&self, file_num: usize) -> bool {
        true
    }

    open spec fn spec_create_file(&self, file_num: usize, retryable: bool, drawn: u64) -> FilePlan {
        if retryable {
            FilePlan::DrawThenWrite { kind: BytesKind::spec_from(self.fill_byte) }
        } else if drawn > 0 {
            FilePlan::Write { num_bytes: drawn, kind: BytesKind::spec_from(self.fill_byte) }
        } else {
            FilePlan::Empty
        }
    }

    open spec fn spec_byte_counts(&self) -> Option<Seq<u64>> {
        None
    }

    fn initialize(&self) -> (seed: Option<u64>) {
        Some(self.seed)
    }

    fn draws_byte_counts(&self) -> (draws: bool) {
        true
    }

    fn create_file(&self, file_num: usize, retryable: bool, drawn: u64) -> (plan: FilePlan) {
        if drawn > 0 || retryable {
            let kind = BytesKind::from(self.fill_byte);
            if retryable {
                FilePlan::DrawThenWrite { kind }
            } else {
                FilePlan::Write { num_bytes: drawn, kind }
            }
        } else {
            NoGeneratedFileContents.create_file(file_num, retryable, drawn)
        }
    }

    fn has_files(&self, num_files: u64) -> (known: bool) {
        true
    }

    fn byte_counts_pool_return(self) -> (counts: Option<Vec<u64>>) {
        None
    }
}

/// Contents whose sizes were fixed when the task was planned.
#[derive(Debug)]
pub struct PreDefinedGeneratedFileContents {
    pub byte_counts: Vec<u64>,
    pub seed: u64,
    pub fill_byte: Option<u8>,
}

impl FileContentsGenerator for PreDefinedGeneratedFileContents {
    open spec fn spec_seed(&self) -> Option<u64> {
        Some(self.seed)
    }

    open spec fn spec_draws_byte_counts(&self) -> bool {
        false
    }

    open spec fn spec_has_file(&self, file_num: usize) -> bool {
        file_num < self.byte_counts@.len()
    }

    open spec fn spec_create_file(&self, file_num: usize, retryable: bool, drawn: u64) -> FilePlan {
        if self.byte_counts@[file_num as int] > 0 {
            FilePlan::Write {
                num_bytes: self.byte_counts@[file_num as int],
                kind: BytesKind::spec_from(self.fill_byte),
            }
        } else {
            FilePlan::Empty
        }
    }

    open spec fn spec_byte_counts(&self) -> Option<Seq<u64>> {
        Some(self.byte_counts@)
    }

    fn initialize(&self) -> (seed: Option<u64>) {
        Some(self.seed)
    }

    fn draws_byte_counts(&self) -> (draws: bool) {
        false
    }

    fn create_file(&self, file_num: usize, retryable: bool, drawn: u64) -> (plan: FilePlan) {
        let num_bytes: u64 = self.byte_counts[file_num];
        if num_bytes > 0 {
            FilePlan::Write { num_bytes, kind: BytesKind::from(self.fill_byte) }
        } else {
            NoGeneratedFileContents.create_file(file_num, retryable, drawn)
        }
    }

    fn has_files(&self, num_files: u64) -> (known: bool) {
        let known: bool = num_files <= self.byte_counts.len() as u64;
        proof {
            if known {
                assert forall|i: u64| i < num_files implies self.spec_has_file(
                    #[trigger] spec_file_num(i),
                ) by {}
            } else {
                let i: u64 = self.byte_counts.len() as u64;
                assert(!self.spec_has_file(spec_file_num(i)));
            }
        }
        known
    }

    fn byte_counts_pool_return(self) -> (counts: Option<Vec<u64>>) {
        Some(self.byte_counts)
    }
}

/// The contents of a task, in one of the three forms.
#[derive(Debug)]
pub enum FileContents {
    Empty(NoGeneratedFileContents),
    OnTheFly(OnTheFlyGeneratedFileContents),
    PreDefined(PreDefinedGeneratedFileContents),
}

/// The contents of a task as the contracts see them.
pub enum ContentsView {
    Empty,
    OnTheFly { seed: u64, fill_byte: Option<u8> },
    PreDefined { byte_counts: Seq<u64>, seed: u64, fill_byte: Option<u8> },
}

impl ContentsView {
    /// Number of bytes that the contents fix beforehand: the sum of the
    /// byte counts, where there are any.
    pub open spec fn planned_bytes(self) -> nat {
        match self {
            ContentsView::PreDefined { byte_counts, .. } => spec_sum(byte_counts),
            _ => 0,
        }
    }
}

impl View for FileContents {
    type V = ContentsView;

    open spec fn view(&self) -> ContentsView {
        match self {
            FileContents::Empty(_) => ContentsView::Empty,
            FileContents::OnTheFly(contents) => ContentsView::OnTheFly {
                seed: contents.seed,
                fill_byte: contents.fill_byte,
            },
            FileContents::PreDefined(contents) => ContentsView::PreDefined {
                byte_counts: contents.byte_counts@,
                seed: contents.seed,
                fill_byte: contents.fill_byte,
            },
        }
    }
}

impl FileContentsGenerator for FileContents {
    open spec fn spec_seed(&self) -> Option<u64> {
        match self {
            FileContents::Empty(contents) => contents.spec_seed(),
            FileContents::OnTheFly(contents) => contents.spec_seed(),
            FileContents::PreDefined(contents) => contents.spec_seed(),
        }
    }

    open spec fn spec_draws_byte_counts(&self) -> bool {
        self is OnTheFly
    }

    open spec fn spec_has_file(&self, file_num: usize) -> bool {
        match self {
            FileContents::Empty(contents) => contents.spec_has_file(file_num),
            FileContents::OnTheFly(contents) => contents.spec_has_file(file_num),
            FileContents::PreDefined(contents) => contents.spec_has_file(file_num),
        }
    }

    open spec fn spec_create_file(&self, file_num: usize, retryable: bool, drawn: u64) -> FilePlan {
        match self {
            FileContents::Empty(contents) => contents.spec_create_file(file_num, retryable, drawn),
            FileContents::OnTheFly(contents) => contents.spec_create_file(
                file_num,
                retryable,
                drawn,
            ),
            FileContents::PreDefined(contents) => contents.spec_create_file(
                file_num,
                retryable,
                drawn,
            ),
        }
    }

    open spec fn spec_byte_counts(&self) -> Option<Seq<u64>> {
        match self {
            FileContents::Empty(contents) => contents.spec_byte_counts(),
            FileContents::OnTheFly(contents) => contents.spec_byte_counts(),
            FileContents::PreDefined(contents) => contents.spec_byte_counts(),
        }
    }

    fn initialize(&self) -> (seed: Option<u64>) {
        match self {
            FileContents::Empty(contents) => contents.initialize(),
            FileContents::OnTheFly(contents) => contents.initialize(),
            FileContents::PreDefined(contents) => contents.initialize(),
        }
    }

    fn draws_byte_counts(&self) -> (draws: bool) {
        match self {
            FileContents::Empty(contents) => contents.draws_byte_counts(),
            FileContents::OnTheFly(contents) => contents.draws_byte_counts(),
            FileContents::PreDefined(contents) => contents.draws_byte_counts(),
        }
    }

    fn create_file(&self, file_num: usize, retryable: bool, drawn: u64) -> (plan: FilePlan) {
        match self {
            FileContents::Empty(contents) => contents.create_file(file_num, retryable, drawn),
            FileContents::OnTheFly(contents) => contents.create_file(file_num, retryable, drawn),
            FileContents::PreDefined(contents) => contents.create_file(file_num, retryable, drawn),
        }
    }

    fn has_files(&self, num_files: u64) -> (known: bool) {
        match self {
            FileContents::Empty(contents) => contents.has_files(num_files),
            FileContents::OnTheFly(contents) => contents.has_files(num_files),
            FileContents::PreDefined(contents) => contents.has_files(num_files),
        }
    }

    fn byte_counts_pool_return(self) -> (counts: Option<Vec<u64>>) {
        match self {
            FileContents::Empty(contents) => contents.byte_counts_pool_return(),
            FileContents::OnTheFly(contents) => contents.byte_counts_pool_return(),
            FileContents::PreDefined(contents) => contents.byte_counts_pool_return(),
        }
    }
}

} // verus!
