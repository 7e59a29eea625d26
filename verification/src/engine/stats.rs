//! Counters of what has been created, kept per worker and in total.

use std::sync::atomic::{AtomicU64, AtomicUsize, Ordering};
use std::ops::AddAssign;
use std::sync::Arc;
use vstd::prelude::*;

verus! {

/// What a piece of work has created.
#[derive(Debug, Copy, Clone, PartialEq, Eq, Structural)]
pub struct GeneratorStats {
    pub files: u64,
    pub dirs: usize,
    pub bytes: u64,
}

/// The sum of two counts, field by field.
pub open spec fn spec_stats_sum(a: GeneratorStats, b: GeneratorStats) -> (int, int, int) {
    (a.files + b.files, a.dirs + b.dirs, a.bytes + b.bytes)
}

/// Whether the sum of two counts fits the fields' types.
pub open spec fn stats_sum_fits(a: GeneratorStats, b: GeneratorStats) -> bool {
    &&& a.files + b.files <= u64::MAX
    &&& a.dirs + b.dirs <= usize::MAX
    &&& a.bytes + b.bytes <= u64::MAX
}

impl Default for GeneratorStats {
    fn default() -> (stats: Self)
        ensures
            stats == (GeneratorStats { files: 0, dirs: 0, bytes: 0 }),
    {
        GeneratorStats { files: 0, dirs: 0, bytes: 0 }
    }
}

impl AddAssign<GeneratorStats> for GeneratorStats {
    fn add_assign(&mut self, rhs: GeneratorStats)
        requires
            stats_sum_fits(*old(self), rhs),
        ensures
            final(self).files == old(self).files + rhs.files,
            final(self).dirs == old(self).dirs + rhs.dirs,
            final(self).bytes == old(self).bytes + rhs.bytes,
    {
        self.files = self.files + rhs.files;
        self.dirs = self.dirs + rhs.dirs;
        self.bytes = self.bytes + rhs.bytes;
    }
}

/// The totals of a run, shared by its workers.
pub struct AtomicGeneratorStats {
    files: AtomicU64,
    dirs: AtomicUsize,
    bytes: AtomicU64,
}

impl AtomicGeneratorStats {
    /// Totals that count nothing yet.
    pub fn new() -> Self {
        AtomicGeneratorStats {
            files: AtomicU64::new(0),
            dirs: AtomicUsize::new(0),
            bytes: AtomicU64::new(0),
        }
    }

    /// The totals as they stand when they are read.
    pub fn load(&self) -> GeneratorStats {
        GeneratorStats {
            files: self.files.load(Ordering::Relaxed),
            dirs: self.dirs.load(Ordering::Relaxed),
            bytes: self.bytes.load(Ordering::Relaxed),
        }
    }
}

/// What one worker has created and not yet added to the totals.
pub struct ThreadState {
    buffered: GeneratorStats,
    totals: Arc<AtomicGeneratorStats>,
}

impl ThreadState {
    /// The counts that wait to be added to the totals.
    pub closed spec fn buffered(&self) -> GeneratorStats {
        self.buffered
    }

    /// The totals that the worker adds its counts to when it ends.
    pub closed spec fn shared_totals(&self) -> Arc<AtomicGeneratorStats> {
        self.totals
    }

    /// Counts what one piece of work has created.
    pub fn add(&mut self, stats: GeneratorStats)
        requires
            stats_sum_fits(old(self).buffered(), stats),
        ensures
            final(self).buffered().files == old(self).buffered().files + stats.files,
            final(self).buffered().dirs == old(self).buffered().dirs + stats.dirs,
            final(self).buffered().bytes == old(self).buffered().bytes + stats.bytes,
            final(self).shared_totals() == old(self).shared_totals(),
    {
        self.buffered.add_assign(stats);
    }

    /// The counts that wait to be added to the totals.
    pub fn pending(&self) -> (stats: GeneratorStats)
        ensures
            stats == self.buffered(),
    {
        self.buffered
    }

    /// Adds the worker's counts to the totals. The worker ends with this.
    pub fn flush(self) {
        let totals = &*self.totals;
        totals.files.fetch_add(self.buffered.files, Ordering::Relaxed);
        totals.dirs.fetch_add(self.buffered.dirs, Ordering::Relaxed);
        totals.bytes.fetch_add(self.buffered.bytes, Ordering::Relaxed);
    }
}

/// What every worker of a run is started with.
#[derive(Clone)]
pub struct Params {
    totals: Arc<AtomicGeneratorStats>,
}

impl Params {
    /// Parameters for the workers of a run whose totals count nothing yet.
    pub fn new() -> Self {
        Params { totals: Arc::new(AtomicGeneratorStats::new()) }
    }

    /// The totals of the run, which all its workers share.
    pub closed spec fn shared_totals(&self) -> Arc<AtomicGeneratorStats> {
        self.totals
    }

    /// The state that a worker starts with: nothing counted, and the totals
    /// of the run to add to.
    pub fn thread_initializer(self) -> (state: ThreadState)
        ensures
            state.buffered() == (GeneratorStats { files: 0, dirs: 0, bytes: 0 }),
            state.shared_totals() == self.shared_totals(),
    {
        ThreadState { buffered: GeneratorStats::default(), totals: self.totals }
    }

    /// The totals as they stand when they are read.
    pub fn totals(&self) -> GeneratorStats {
        self.totals.load()
    }
}

} // verus!
