//! Bounded priority queue of mix jobs under a real-time deadline.
//!
//! Mix jobs wait in a bounded queue; a submission to a full queue fails
//! immediately with `QueueFull` and never blocks the caller. Workers take
//! the oldest job of the highest priority (or plain FIFO when priorities
//! are disabled) and drop any job whose queue age has passed the 500 ms
//! deadline. The callers' worker loops live outside the library: they
//! dequeue jobs here, run the mixer, and report completion or failure
//! back into the statistics.

use vstd::prelude::*;
use crate::packet::AudioPacket;
use crate::packet::ChannelId;
use crate::packet::spec_age_us;

verus! {

/// Age in microseconds beyond which a queued mix job is dropped.
pub const MIX_DEADLINE_US: u64 = 500_000;

/// Priority of a mix job.
#[derive(Debug, Clone, Copy, PartialEq, Eq, Structural)]
pub enum AudioProcessingPriority {
    /// Background work.
    Low,
    /// Ordinary mixes.
    Normal,
    /// Latency-sensitive mixes.
    High,
    /// Must run before everything else.
    Critical,
}

/// Numeric rank of a priority; higher runs first.
pub open spec fn spec_priority_rank(p: AudioProcessingPriority) -> int {
    match p {
        AudioProcessingPriority::Low => 0,
        AudioProcessingPriority::Normal => 1,
        AudioProcessingPriority::High => 2,
        AudioProcessingPriority::Critical => 3,
    }
}

/// Numeric rank of a priority; higher runs first.
pub fn priority_rank(p: AudioProcessingPriority) -> (r: u8)
    ensures
        r as int == spec_priority_rank(p),
{
    match p {
        AudioProcessingPriority::Low => 0,
        AudioProcessingPriority::Normal => 1,
        AudioProcessingPriority::High => 2,
        AudioProcessingPriority::Critical => 3,
    }
}

/// One queued mix job.
#[derive(Debug)]
pub struct AudioProcessingTask {
    /// Identifier of the job, chosen by the submitter.
    pub id: u128,
    /// Channel whose packets are mixed.
    pub channel_id: ChannelId,
    /// The packets to mix.
    pub packets: Vec<AudioPacket>,
    /// Scheduling priority.
    pub priority: AudioProcessingPriority,
    /// Clock reading when the job was enqueued, in microseconds.
    pub enqueued_at_us: u64,
}

/// Configuration of the mix pool.
#[derive(Debug, Clone, Copy, PartialEq, Eq, Structural)]
pub struct AudioThreadPoolConfig {
    /// Worker tasks the caller runs.
    pub max_workers: usize,
    /// Most jobs the queue holds; a submission beyond it fails fast.
    pub queue_size: usize,
    /// How long an idle worker waits before re-checking, in microseconds.
    pub worker_timeout_us: u64,
    /// Whether workers take jobs by priority instead of plain FIFO.
    pub enable_priority_queue: bool,
    /// Most mixes allowed to run at once.
    pub max_concurrent_mixes: usize,
}

impl Default for AudioThreadPoolConfig {
    /// Four workers, a queue of a thousand, priorities on, sixteen
    /// concurrent mixes. Callers sized to the machine pass their own
    /// worker count.
    fn default() -> (c: AudioThreadPoolConfig)
        ensures
            c.max_workers == 4,
            c.queue_size == 1000,
            c.worker_timeout_us == 100_000,
            c.enable_priority_queue,
            c.max_concurrent_mixes == 16,
    {
        AudioThreadPoolConfig {
            max_workers: 4,
            queue_size: 1000,
            worker_timeout_us: 100_000,
            enable_priority_queue: true,
            max_concurrent_mixes: 16,
        }
    }
}

/// Counters of the mix pool.
#[derive(Debug, Clone, Copy, PartialEq, Eq, Structural)]
pub struct ThreadPoolStats {
    /// Workers currently running.
    pub active_workers: usize,
    /// Jobs waiting in the queue.
    pub queued_tasks: usize,
    /// Jobs finished successfully.
    pub completed_tasks: u64,
    /// Jobs rejected or dropped.
    pub failed_tasks: u64,
    /// Exponentially smoothed processing time, in microseconds.
    pub average_processing_time_us: u64,
    /// Largest queue depth observed.
    pub peak_queue_size: usize,
}

impl Default for ThreadPoolStats {
    /// All counters zero.
    fn default() -> (s: ThreadPoolStats)
        ensures
            s.active_workers == 0,
            s.queued_tasks == 0,
            s.completed_tasks == 0,
            s.failed_tasks == 0,
            s.average_processing_time_us == 0,
            s.peak_queue_size == 0,
    {
        ThreadPoolStats {
            active_workers: 0,
            queued_tasks: 0,
            completed_tasks: 0,
            failed_tasks: 0,
            average_processing_time_us: 0,
            peak_queue_size: 0,
        }
    }
}

/// Why a submission was rejected.
#[derive(Debug, Clone, Copy, PartialEq, Eq, Structural)]
pub enum SubmitError {
    /// The queue is at capacity; the submission failed immediately.
    QueueFull,
    /// The pool is shutting down and takes no more work.
    ShutDown,
}

/// Health summary of the pool; utilisations in whole percent.
#[derive(Debug, Clone, Copy, PartialEq, Eq, Structural)]
pub struct PoolHealthStatus {
    /// Queue under 90% full, at least one worker, average under 50 ms.
    pub is_healthy: bool,
    /// Queue depth over capacity, in percent.
    pub queue_utilization_percent: u64,
    /// Active workers over configured workers, in percent.
    pub worker_utilization_percent: u64,
    /// Smoothed processing time in milliseconds.
    pub average_latency_ms: u64,
    /// Failed jobs over all finished jobs, in percent.
    pub error_rate_percent: u64,
}

/// Load figures a caller may feed back for tuning; percentages whole.
#[derive(Debug, Clone, Copy, PartialEq, Eq, Structural)]
pub struct LoadMetrics {
    /// Processor load in percent.
    pub cpu_usage_percent: u64,
    /// Resident memory in megabytes.
    pub memory_usage_mb: u64,
    /// Open connections.
    pub active_connections: usize,
    /// Ingress rate in packets per second.
    pub packets_per_second: u64,
}

/// Smoothed processing time after one completion: the first sample is
/// taken as-is, later ones weighted one part in ten.
pub open spec fn spec_smoothed_avg(completed_before: u64, avg: u64, sample: u64) -> u64 {
    if completed_before == 0 {
        sample
    } else {
        ((avg * 9 + sample) / 10) as u64
    }
}

/// Index a worker takes next: the first position of the highest
/// priority rank when priorities are on, else the front.
pub open spec fn spec_pick_index(s: Seq<AudioProcessingTask>, by_priority: bool) -> int
    decreases s.len(),
{
    if !by_priority || s.len() <= 1 {
        0
    } else {
        let prior = spec_pick_index(s.drop_last(), by_priority);
        if spec_priority_rank(s.last().priority) > spec_priority_rank(s[prior].priority) {
            s.len() - 1
        } else {
            prior
        }
    }
}

/// The picked index is in range; with priorities on it carries the
/// highest rank and is the first position carrying it.
pub proof fn lemma_pick_index_in_range(s: Seq<AudioProcessingTask>, by_priority: bool)
    requires
        s.len() > 0,
    ensures
        0 <= spec_pick_index(s, by_priority) < s.len(),
        by_priority ==> forall|j: int|
            0 <= j < s.len() ==> spec_priority_rank((#[trigger] s[j]).priority)
                <= spec_priority_rank(s[spec_pick_index(s, by_priority)].priority),
        by_priority ==> forall|j: int|
            0 <= j < spec_pick_index(s, by_priority) ==> spec_priority_rank(
                (#[trigger] s[j]).priority,
            ) < spec_priority_rank(s[spec_pick_index(s, by_priority)].priority),
        !by_priority ==> spec_pick_index(s, by_priority) == 0,
    decreases s.len(),
{
    if by_priority && s.len() > 1 {
        lemma_pick_index_in_range(s.drop_last(), by_priority);
        assert forall|j: int| 0 <= j < s.len() - 1 implies s.drop_last()[j] == s[j] by {}
    }
}

/// The bounded mix-job queue with its statistics.
pub struct AudioTaskQueue {
    /// Waiting jobs in arrival order.
    pub tasks: Vec<AudioProcessingTask>,
    /// Pool configuration.
    pub config: AudioThreadPoolConfig,
    /// Pool counters.
    pub stats: ThreadPoolStats,
    /// Whether the pool stopped taking work.
    pub shutdown: bool,
}

impl AudioTaskQueue {
    /// The queue never exceeds its capacity.
    pub open spec fn wf(self) -> bool {
        &&& self.tasks@.len() <= self.config.queue_size
        &&& self.stats.queued_tasks == self.tasks@.len()
    }

    /// Creates an empty queue for the given configuration.
    pub fn new(config: AudioThreadPoolConfig) -> (q: AudioTaskQueue)
        ensures
            q.wf(),
            q.config == config,
            q.tasks@.len() == 0,
            q.stats == (ThreadPoolStats {
                active_workers: 0,
                queued_tasks: 0,
                completed_tasks: 0,
                failed_tasks: 0,
                average_processing_time_us: 0,
                peak_queue_size: 0,
            }),
            !q.shutdown,
    {
        AudioTaskQueue {
            tasks: Vec::new(),
            config,
            stats: ThreadPoolStats {
                active_workers: 0,
                queued_tasks: 0,
                completed_tasks: 0,
                failed_tasks: 0,
                average_processing_time_us: 0,
                peak_queue_size: 0,
            },
            shutdown: false,
        }
    }

    /// Submits a mix job. A full queue fails immediately with
    /// `QueueFull`, leaving the queue unchanged and counting the failure;
    /// a pool that is shutting down fails with `ShutDown`; otherwise the
    /// job is appended and the depth counters advance.
    pub fn submit(&mut self, task: AudioProcessingTask) -> (r: Result<(), SubmitError>)
        requires
            old(self).wf(),
        ensures
            final(self).wf(),
            final(self).config == old(self).config,
            final(self).shutdown == old(self).shutdown,
            old(self).shutdown ==> {
                &&& r == Err::<(), SubmitError>(SubmitError::ShutDown)
                &&& final(self).tasks@ == old(self).tasks@
                &&& final(self).stats == (ThreadPoolStats {
                    failed_tasks: if old(self).stats.failed_tasks < u64::MAX {
                        (old(self).stats.failed_tasks + 1) as u64
                    } else {
                        old(self).stats.failed_tasks
                    },
                    ..old(self).stats
                })
            },
            !old(self).shutdown && old(self).tasks@.len() >= old(self).config.queue_size ==> {
                &&& r == Err::<(), SubmitError>(SubmitError::QueueFull)
                &&& final(self).tasks@ == old(self).tasks@
                &&& final(self).stats == (ThreadPoolStats {
                    failed_tasks: if old(self).stats.failed_tasks < u64::MAX {
                        (old(self).stats.failed_tasks + 1) as u64
                    } else {
                        old(self).stats.failed_tasks
                    },
                    ..old(self).stats
                })
            },
            !old(self).shutdown && old(self).tasks@.len() < old(self).config.queue_size ==> {
                &&& r == Ok::<(), SubmitError>(())
                &&& final(self).tasks@ == old(self).tasks@.push(task)
                &&& final(self).stats.queued_tasks == old(self).tasks@.len() + 1
                &&& final(self).stats.peak_queue_size as int == if old(self).tasks@.len() + 1
                    > old(self).stats.peak_queue_size {
                    old(self).tasks@.len() as int + 1
                } else {
                    old(self).stats.peak_queue_size as int
                }
                &&& final(self).stats.failed_tasks == old(self).stats.failed_tasks
                &&& final(self).stats.completed_tasks == old(self).stats.completed_tasks
            },
    {
        if self.shutdown {
            if self.stats.failed_tasks < u64::MAX {
                self.stats.failed_tasks = self.stats.failed_tasks + 1;
            }
            return Err(SubmitError::ShutDown);
        }
        if self.tasks.len() >= self.config.queue_size {
            if self.stats.failed_tasks < u64::MAX {
                self.stats.failed_tasks = self.stats.failed_tasks + 1;
            }
            return Err(SubmitError::QueueFull);
        }
        self.tasks.push(task);
        self.stats.queued_tasks = self.tasks.len();
        if self.stats.queued_tasks > self.stats.peak_queue_size {
            self.stats.peak_queue_size = self.stats.queued_tasks;
        }
        Ok(())
    }

    /// Takes the next job: with priorities enabled, the oldest job of the
    /// highest rank; otherwise the oldest job. Returns nothing when the
    /// queue is empty.
    pub fn next_task(&mut self) -> (r: Option<AudioProcessingTask>)
        requires
            old(self).wf(),
        ensures
            final(self).wf(),
            final(self).config == old(self).config,
            final(self).shutdown == old(self).shutdown,
            final(self).stats.completed_tasks == old(self).stats.completed_tasks,
            final(self).stats.failed_tasks == old(self).stats.failed_tasks,
            old(self).tasks@.len() == 0 <==> r is None,
            r is None ==> final(self).tasks@ == old(self).tasks@,
            r matches Some(t) ==> ({
                let i = spec_pick_index(old(self).tasks@, old(self).config.enable_priority_queue);
                &&& t == old(self).tasks@[i]
                &&& final(self).tasks@ == old(self).tasks@.remove(i)
            }),
    {
        let n = self.tasks.len();
        if n == 0 {
            return None;
        }
        let mut best: usize = 0;
        if self.config.enable_priority_queue {
            proof {
                assert(self.tasks@.take(1).len() == 1);
                assert(best == spec_pick_index(self.tasks@.take(1), true));
            }
            let mut j: usize = 1;
            while j < n
                invariant
                    n == self.tasks@.len(),
                    best < j <= n,
                    best as int == spec_pick_index(self.tasks@.take(j as int), true),
                decreases n - j,
            {
                let rj = priority_rank(self.tasks[j].priority);
                let rb = priority_rank(self.tasks[best].priority);
                proof {
                    assert(self.tasks@.take(j + 1).drop_last() =~= self.tasks@.take(j as int));
                    assert(self.tasks@.take(j + 1).last() == self.tasks@[j as int]);
                    lemma_pick_index_in_range(self.tasks@.take(j as int), true);
                }
                if rj > rb {
                    best = j;
                }
                j = j + 1;
            }
            proof {
                assert(self.tasks@.take(n as int) =~= self.tasks@);
            }
        }
        self.stats.queued_tasks = self.tasks.len() - 1;
        let ghost pre_tasks = self.tasks@;
        proof {
            lemma_pick_index_in_range(pre_tasks, self.config.enable_priority_queue);
        }
        let t = self.tasks.remove(best);
        Some(t)
    }

    /// Whether a job enqueued at the given clock reading has passed the
    /// mix deadline at `now`.
    pub fn past_deadline(enqueued_at_us: u64, now: u64) -> (r: bool)
        ensures
            r == (spec_age_us(enqueued_at_us, now) > MIX_DEADLINE_US),
    {
        let age = if now >= enqueued_at_us {
            now - enqueued_at_us
        } else {
            0
        };
        age > MIX_DEADLINE_US
    }

    /// Counts one finished job and folds its processing time into the
    /// smoothed average.
    pub fn complete_task(&mut self, processing_time_us: u64)
        requires
            old(self).wf(),
        ensures
            final(self).wf(),
            final(self).tasks@ == old(self).tasks@,
            final(self).config == old(self).config,
            final(self).shutdown == old(self).shutdown,
            final(self).stats.completed_tasks == if old(self).stats.completed_tasks < u64::MAX {
                old(self).stats.completed_tasks + 1
            } else {
                old(self).stats.completed_tasks as int
            },
            final(self).stats.average_processing_time_us == spec_smoothed_avg(
                old(self).stats.completed_tasks,
                old(self).stats.average_processing_time_us,
                processing_time_us,
            ),
            final(self).stats.failed_tasks == old(self).stats.failed_tasks,
            final(self).stats.queued_tasks == old(self).stats.queued_tasks,
    {
        let prior_avg = self.stats.average_processing_time_us;
        proof {
            assert(((prior_avg as int) * 9 + processing_time_us as int) / 10 <= u64::MAX)
                by (nonlinear_arith)
                requires
                    prior_avg <= u64::MAX,
                    processing_time_us <= u64::MAX,
            ;
        }
        let avg = if self.stats.completed_tasks == 0 {
            processing_time_us
        } else {
            (((prior_avg as u128) * 9 + processing_time_us as u128) / 10) as u64
        };
        self.stats.average_processing_time_us = avg;
        if self.stats.completed_tasks < u64::MAX {
            self.stats.completed_tasks = self.stats.completed_tasks + 1;
        }
    }

    /// Counts one dropped or rejected job.
    pub fn fail_task(&mut self)
        requires
            old(self).wf(),
        ensures
            final(self).wf(),
            final(self).tasks@ == old(self).tasks@,
            final(self).config == old(self).config,
            final(self).shutdown == old(self).shutdown,
            final(self).stats.failed_tasks == if old(self).stats.failed_tasks < u64::MAX {
                old(self).stats.failed_tasks + 1
            } else {
                old(self).stats.failed_tasks as int
            },
            final(self).stats.completed_tasks == old(self).stats.completed_tasks,
            final(self).stats.queued_tasks == old(self).stats.queued_tasks,
    {
        if self.stats.failed_tasks < u64::MAX {
            self.stats.failed_tasks = self.stats.failed_tasks + 1;
        }
    }

    /// Counts a worker that started.
    pub fn worker_started(&mut self)
        requires
            old(self).wf(),
        ensures
            final(self).wf(),
            final(self).tasks@ == old(self).tasks@,
            final(self).config == old(self).config,
            final(self).shutdown == old(self).shutdown,
            final(self).stats.active_workers == if old(self).stats.active_workers < usize::MAX {
                old(self).stats.active_workers + 1
            } else {
                old(self).stats.active_workers as int
            },
            final(self).stats.queued_tasks == old(self).stats.queued_tasks,
            final(self).stats.completed_tasks == old(self).stats.completed_tasks,
            final(self).stats.failed_tasks == old(self).stats.failed_tasks,
            final(self).stats.average_processing_time_us == old(
                self,
            ).stats.average_processing_time_us,
            final(self).stats.peak_queue_size == old(self).stats.peak_queue_size,
    {
        if self.stats.active_workers < usize::MAX {
            self.stats.active_workers = self.stats.active_workers + 1;
        }
    }

    /// Counts a worker that stopped.
    pub fn worker_stopped(&mut self)
        requires
            old(self).wf(),
        ensures
            final(self).wf(),
            final(self).tasks@ == old(self).tasks@,
            final(self).config == old(self).config,
            final(self).shutdown == old(self).shutdown,
            final(self).stats.active_workers == if old(self).stats.active_workers > 0 {
                old(self).stats.active_workers - 1
            } else {
                0int
            },
            final(self).stats.queued_tasks == old(self).stats.queued_tasks,
            final(self).stats.completed_tasks == old(self).stats.completed_tasks,
            final(self).stats.failed_tasks == old(self).stats.failed_tasks,
            final(self).stats.average_processing_time_us == old(
                self,
            ).stats.average_processing_time_us,
            final(self).stats.peak_queue_size == old(self).stats.peak_queue_size,
    {
        if self.stats.active_workers > 0 {
            self.stats.active_workers = self.stats.active_workers - 1;
        }
    }

    /// Stops taking new work; queued jobs may still be drained.
    pub fn begin_shutdown(&mut self)
        requires
            old(self).wf(),
        ensures
            final(self).wf(),
            final(self).shutdown,
            final(self).tasks@ == old(self).tasks@,
            final(self).config == old(self).config,
            final(self).stats == old(self).stats,
    {
        self.shutdown = true;
    }

    /// Reads the pool counters.
    pub fn get_stats(&self) -> (s: ThreadPoolStats)
        ensures
            s == self.stats,
    {
        self.stats
    }

    /// Health of the pool: the queue under 90% full, at least one worker
    /// running, and the smoothed processing time under 50 ms.
    pub fn health_check(&self) -> (h: PoolHealthStatus)
        requires
            self.wf(),
        ensures
            h.queue_utilization_percent == if self.config.queue_size > 0 {
                self.stats.queued_tasks * 100 / self.config.queue_size as int
            } else {
                0int
            },
            h.worker_utilization_percent as int == ({
                let q = if self.config.max_workers > 0 {
                    self.stats.active_workers * 100 / self.config.max_workers as int
                } else {
                    0int
                };
                if q > u64::MAX {
                    u64::MAX as int
                } else {
                    q
                }
            }),
            h.average_latency_ms == self.stats.average_processing_time_us / 1000,
            h.error_rate_percent == if self.stats.completed_tasks + self.stats.failed_tasks > 0 {
                self.stats.failed_tasks * 100 / (self.stats.completed_tasks
                    + self.stats.failed_tasks)
            } else {
                0int
            },
            h.is_healthy == (h.queue_utilization_percent < 90 && self.stats.active_workers > 0
                && h.average_latency_ms < 50),
    {
        let queue_utilization_percent: u64 = if self.config.queue_size > 0 {
            proof {
                assert((self.stats.queued_tasks as int) * 100 / (self.config.queue_size as int)
                    <= 100) by (nonlinear_arith)
                    requires
                        0 < self.config.queue_size,
                        self.stats.queued_tasks <= self.config.queue_size,
                ;
            }
            ((self.stats.queued_tasks as u128 * 100) / (self.config.queue_size as u128)) as u64
        } else {
            0
        };
        let worker_utilization_percent: u64 = if self.config.max_workers > 0 {
            let wide: u128 = (self.stats.active_workers as u128 * 100) / (self.config.max_workers
                as u128);
            if wide > u64::MAX as u128 {
                u64::MAX
            } else {
                wide as u64
            }
        } else {
            0
        };
        let average_latency_ms: u64 = self.stats.average_processing_time_us / 1000;
        let error_rate_percent: u64 = if self.stats.completed_tasks > 0 || self.stats.failed_tasks
            > 0 {
            let done: u128 = self.stats.completed_tasks as u128 + self.stats.failed_tasks as u128;
            proof {
                assert((self.stats.failed_tasks as int) * 100 / (self.stats.completed_tasks as int
                    + self.stats.failed_tasks as int) <= 100) by (nonlinear_arith)
                    requires
                        0 < self.stats.completed_tasks as int + self.stats.failed_tasks as int,
                        self.stats.failed_tasks as int <= self.stats.completed_tasks as int
                            + self.stats.failed_tasks as int,
                ;
            }
            ((self.stats.failed_tasks as u128 * 100) / done) as u64
        } else {
            0
        };
        let is_healthy = queue_utilization_percent < 90 && self.stats.active_workers > 0
            && average_latency_ms < 50;
        PoolHealthStatus {
            is_healthy,
            queue_utilization_percent,
            worker_utilization_percent,
            average_latency_ms,
            error_rate_percent,
        }
    }
}

} // verus!
