//! The bounded worker pool, as a counter model. Each worker owns one
//! in-flight subprocess at a time; a worker may start only while fewer
//! than the configured parallelism are live, so the number of live
//! subprocesses never exceeds the bound.

use vstd::prelude::*;

verus! {

/// The pool of transcode workers: how many may run at once and how many
/// are live now.
pub struct WorkerPool {
    /// The configured parallelism, at least 1.
    pub parallel: u32,
    /// The number of live subprocesses.
    pub live: u32,
}

impl WorkerPool {
    /// The pool invariant: the bound is positive and the live count never
    /// exceeds it. The constructor establishes it and both transitions
    /// preserve it.
    pub open spec fn wf(&self) -> bool {
        self.parallel >= 1 && self.live <= self.parallel
    }

    /// A pool of `parallel` workers, none live; a configured parallelism
    /// of zero means one worker.
    pub fn new(parallel: u32) -> (p: WorkerPool)
        ensures
            p.wf(),
            p.live == 0,
            p.parallel == if parallel == 0 {
                1u32
            } else {
                parallel
            },
    {
        WorkerPool { parallel: if parallel == 0 { 1 } else { parallel }, live: 0 }
    }

    /// Tries to start one more subprocess. Succeeds exactly while the
    /// live count is below the bound.
    pub fn try_start(&mut self) -> (started: bool)
        requires
            old(self).wf(),
        ensures
            final(self).wf(),
            final(self).parallel == old(self).parallel,
            started == (old(self).live < old(self).parallel),
            started ==> final(self).live == old(self).live + 1,
            !started ==> final(self).live == old(self).live,
    {
        if self.live < self.parallel {
            self.live = self.live + 1;
            true
        } else {
            false
        }
    }

    /// Reaps one finished subprocess.
    pub fn finish(&mut self)
        requires
            old(self).wf(),
            old(self).live >= 1,
        ensures
            final(self).wf(),
            final(self).parallel == old(self).parallel,
            final(self).live == old(self).live - 1,
    {
        self.live = self.live - 1;
    }
}

/// At most `parallel` subprocesses are ever simultaneously live: the pool
/// invariant bounds the live count at all times.
pub proof fn lemma_live_bounded(p: WorkerPool)
    requires
        p.wf(),
    ensures
        p.live <= p.parallel,
{
}

/// Runs `n_files` equal work items to completion through a pool of
/// `parallel` workers, in waves that each fill the pool, and reports the
/// highest number of simultaneously live subprocesses: the parallelism
/// bound, or the file count when there are fewer files.
pub fn drive_pool(parallel: u32, n_files: u32) -> (max_live: u32)
    ensures
        ({
            let b: u32 = if parallel == 0 {
                1u32
            } else {
                parallel
            };
            max_live == if n_files < b {
                n_files
            } else {
                b
            }
        }),
{
    let mut pool = WorkerPool::new(parallel);
    let ghost b = pool.parallel;
    let mut remaining = n_files;
    let mut max_live: u32 = 0;
    while remaining > 0
        invariant
            pool.wf(),
            pool.parallel == b,
            pool.live == 0,
            remaining <= n_files,
            remaining == n_files ==> max_live == 0,
            remaining < n_files ==> max_live == (if n_files < b {
                n_files
            } else {
                b
            }),
        decreases remaining,
    {
        // Fill the pool from the remaining work.
        let target = if remaining < pool.parallel {
            remaining
        } else {
            pool.parallel
        };
        let mut started: u32 = 0;
        while started < target
            invariant
                pool.wf(),
                pool.parallel == b,
                target <= b,
                started <= target,
                pool.live == started,
            decreases target - started,
        {
            let ok = pool.try_start();
            assert(ok);
            started = started + 1;
        }
        if pool.live > max_live {
            max_live = pool.live;
        }
        // Wait for the wave to finish.
        while pool.live > 0
            invariant
                pool.wf(),
                pool.parallel == b,
            decreases pool.live,
        {
            pool.finish();
        }
        remaining = remaining - started;
    }
    max_live
}

} // verus!
