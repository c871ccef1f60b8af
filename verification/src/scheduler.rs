//! The decisions of the download phase: when one image is tried again, how
//! the queue of images moves through batches, what each result does to the
//! image's state, and how the concurrency adapts between batches.
use vstd::prelude::*;
use std::collections::VecDeque;
use crate::adaptive::{decrease, increase, spec_decrease, spec_increase};
use crate::config::Config;
use crate::downloader::DownloadOutcome;
use crate::error::{
    error_message, spec_is_rate_limited, spec_is_transient, spec_retry_after_secs, AppError,
};
use crate::fetch::{backoff, backoff_ms};
use crate::parser::{ImageRecord, RecordView};
use crate::state::{ItemState, ItemStatus, Timestamp};

verus! {

/// What follows one attempt at an image.
pub enum RetryAction {
    /// Keep this result.
    Finish,
    /// Wait this many milliseconds, then try the image again.
    Wait(u64),
}

/// The attempts at one image: at most `retries + 1`, trying again only after
/// a failure that may pass and that is no throttling, with a growing wait
/// (400 ms base, 97 ms step).
pub struct DownloadRetry {
    pub attempt: u32,
    pub retries: u32,
}

impl DownloadRetry {
    /// The attempt counter never passes the number of retries.
    pub open spec fn wf(&self) -> bool {
        self.attempt <= self.retries
    }

    /// Before the first attempt.
    pub fn new(retries: u32) -> (r: DownloadRetry)
        ensures
            r.wf(),
            r.attempt == 0,
            r.retries == retries,
    {
        DownloadRetry { attempt: 0, retries }
    }

    /// An attempt ended, with this failure or without one.
    pub fn on_result(&mut self, error: Option<&AppError>) -> (r: RetryAction)
        requires
            old(self).wf(),
        ensures
            final(self).wf(),
            final(self).retries == old(self).retries,
            ({
                let again = error matches Some(e) && !spec_is_rate_limited(*e) && spec_is_transient(*e)
                    && old(self).attempt < old(self).retries;
                &&& again ==> r == RetryAction::Wait(backoff_ms(old(self).attempt, 400, 97) as u64)
                    && final(self).attempt == old(self).attempt + 1
                &&& !again ==> r == RetryAction::Finish && final(self).attempt == old(self).attempt
            }),
    {
        match error {
            None => RetryAction::Finish,
            Some(e) => {
                if e.is_rate_limited() {
                    RetryAction::Finish
                } else if e.is_transient() && self.attempt < self.retries {
                    let wait = backoff(self.attempt, 400, 97);
                    self.attempt = self.attempt + 1;
                    RetryAction::Wait(wait)
                } else {
                    RetryAction::Finish
                }
            },
        }
    }
}

/// An image waiting in the queue, with the number of times throttling sent
/// it back.
pub struct WorkItem {
    pub record: ImageRecord,
    pub rate_retries: u32,
}

/// An image that failed for good: its file, its address and the failure's text.
pub struct FailedItem {
    pub file: String,
    pub url: String,
    pub error: String,
}

/// The pause between two batches.
pub enum BatchPause {
    /// Some downloads were throttled: wait this many seconds.
    Cooldown(u64),
    /// The concurrency grew: wait this many milliseconds.
    Warmup(u64),
    /// Go on at once.
    Continue,
}

/// The download phase: the queue of images, the batch in flight, the
/// concurrency and the tallies of what became of each image.
pub struct Scheduler {
    pub queue: VecDeque<WorkItem>,
    pub in_flight: usize,
    pub total: usize,
    pub effective: usize,
    pub limit: usize,
    pub auto: bool,
    pub retries: u32,
    pub cooldown_secs: u64,
    pub warmup_delay_ms: u64,
    pub succeeded: usize,
    pub skipped: usize,
    pub failed: Vec<FailedItem>,
    pub limited: usize,
    pub cooldown: u64,
}

impl Scheduler {
    /// Every image is queued, in flight, or counted once as succeeded,
    /// skipped or failed; the concurrency stays between one and the limit;
    /// throttling sends an image back no more often than the retries allow.
    pub open spec fn wf(&self) -> bool {
        &&& self.succeeded + self.skipped + self.failed@.len() + self.queue@.len() + self.in_flight
            == self.total
        &&& 1 <= self.effective <= self.limit
        &&& self.limit <= usize::MAX / 2
        &&& self.limited + self.in_flight <= self.total
        &&& forall|i: int| 0 <= i < self.queue@.len() ==> #[trigger] self.queue@[i].rate_retries <= self.retries
    }

    /// Every image queued; the concurrency starts at four at most when it
    /// adapts, at the configured value otherwise.
    pub fn new(records: Vec<ImageRecord>, config: &Config) -> (r: Scheduler)
        requires
            1 <= config.image_concurrency <= usize::MAX / 2,
        ensures
            r.wf(),
            r.total == records@.len(),
            r.queue@.len() == records@.len(),
            forall|i: int| 0 <= i < records@.len() ==> (#[trigger] r.queue@[i]).record@ == records@[i]@
                && r.queue@[i].rate_retries == 0,
            r.in_flight == 0,
            r.succeeded == 0 && r.skipped == 0 && r.failed@.len() == 0,
            r.limit == config.image_concurrency,
            r.auto == config.auto_concurrency,
            r.effective == (if config.auto_concurrency && config.image_concurrency > 4 {
                4
            } else {
                config.image_concurrency
            }),
            r.retries == config.retries,
            r.cooldown_secs == config.cooldown_secs,
            r.warmup_delay_ms == config.warmup_delay_ms,
    {
        let total = records.len();
        let mut queue: VecDeque<WorkItem> = VecDeque::new();
        let mut rest = records;
        let ghost all = rest@;
        while rest.len() > 0
            invariant
                all.len() == total,
                rest@ == all.take(rest@.len() as int),
                queue@.len() + rest@.len() == total,
                forall|i: int| 0 <= i < queue@.len() ==> (#[trigger] queue@[i]).record@ == all[rest@.len() + i]@
                    && queue@[i].rate_retries == 0,
            decreases rest@.len(),
        {
            let ghost before = queue@;
            let record = rest.pop().unwrap();
            queue.push_front(WorkItem { record, rate_retries: 0 });
            assert(rest@ =~= all.take(rest@.len() as int));
            assert forall|i: int| 0 <= i < queue@.len() implies (#[trigger] queue@[i]).record@ == all[rest@.len() + i]@
                && queue@[i].rate_retries == 0 by {
                if i > 0 {
                    assert(queue@[i] == before[i - 1]);
                }
            }
        }
        let limit = config.image_concurrency;
        Scheduler {
            queue,
            in_flight: 0,
            total,
            effective: if config.auto_concurrency && limit > 4 {
                4
            } else {
                limit
            },
            limit,
            auto: config.auto_concurrency,
            retries: config.retries,
            cooldown_secs: config.cooldown_secs,
            warmup_delay_ms: config.warmup_delay_ms,
            succeeded: 0,
            skipped: 0,
            failed: Vec::new(),
            limited: 0,
            cooldown: config.cooldown_secs,
        }
    }

    /// Whether no image waits any more.
    pub fn is_done(&self) -> (r: bool)
        ensures
            r == (self.queue@.len() == 0),
    {
        self.queue.len() == 0
    }

    /// The next batch: the first `effective` images of the queue (all of
    /// them if fewer remain), in queue order.
    pub fn next_batch(&mut self) -> (batch: Vec<WorkItem>)
        requires
            old(self).wf(),
            old(self).in_flight == 0,
        ensures
            final(self).wf(),
            batch@.len() == (if old(self).effective <= old(self).queue@.len() {
                old(self).effective as int
            } else {
                old(self).queue@.len() as int
            }),
            batch@ == old(self).queue@.take(batch@.len() as int),
            final(self).queue@ == old(self).queue@.skip(batch@.len() as int),
            final(self).in_flight == batch@.len(),
            final(self).limited == 0,
            final(self).cooldown == old(self).cooldown_secs,
            final(self).effective == old(self).effective,
            final(self).succeeded == old(self).succeeded,
            final(self).skipped == old(self).skipped,
            final(self).failed@ == old(self).failed@,
            final(self).total == old(self).total,
            final(self).limit == old(self).limit,
            final(self).auto == old(self).auto,
            final(self).retries == old(self).retries,
            final(self).cooldown_secs == old(self).cooldown_secs,
            final(self).warmup_delay_ms == old(self).warmup_delay_ms,
    {
        let n = if self.effective <= self.queue.len() {
            self.effective
        } else {
            self.queue.len()
        };
        let mut batch: Vec<WorkItem> = Vec::new();
        let mut queue: VecDeque<WorkItem> = VecDeque::new();
        std::mem::swap(&mut queue, &mut self.queue);
        let ghost start = queue@;
        while batch.len() < n
            invariant
                n <= start.len(),
                batch@.len() <= n,
                batch@ == start.take(batch@.len() as int),
                queue@ == start.skip(batch@.len() as int),
            decreases n - batch@.len(),
        {
            let item = queue.pop_front().unwrap();
            batch.push(item);
            assert(batch@ =~= start.take(batch@.len() as int));
            assert(queue@ =~= start.skip(batch@.len() as int));
        }
        std::mem::swap(&mut queue, &mut self.queue);
        self.in_flight = n;
        self.limited = 0;
        self.cooldown = self.cooldown_secs;
        assert forall|i: int| 0 <= i < self.queue@.len() implies #[trigger] self.queue@[i].rate_retries
            <= self.retries by {
            assert(self.queue@[i] == start[i + n]);
            assert(start[i + n].rate_retries <= self.retries);
        }
        batch
    }

    /// One image of the batch came back, with the result of its last attempt
    /// and the number of retries it took; its state is updated and stamped with
    /// `now`:
    /// - completed or already present: completed, counted as succeeded or skipped;
    /// - throttled while it may still be sent back: pending, one retry more,
    ///   queued again at the end, and the batch's cooldown grows to the wait
    ///   the server asked for;
    /// - any other failure: failed, and listed with its message.
    pub fn record_result(
        &mut self,
        work: WorkItem,
        result: &std::result::Result<DownloadOutcome, AppError>,
        retries: u32,
        item: &mut ItemState,
        now: Timestamp,
    )
        requires
            old(self).wf(),
            old(self).in_flight > 0,
            work.rate_retries <= old(self).retries,
        ensures
            final(self).wf(),
            final(self).in_flight == old(self).in_flight - 1,
            final(self).total == old(self).total,
            final(self).effective == old(self).effective,
            final(self).limit == old(self).limit,
            final(self).auto == old(self).auto,
            final(self).retries == old(self).retries,
            final(self).cooldown_secs == old(self).cooldown_secs,
            final(self).warmup_delay_ms == old(self).warmup_delay_ms,
            final(item).total_bytes == old(item).total_bytes,
            final(item).updated_at == now,
            match result {
                Ok(DownloadOutcome::Completed { bytes, .. }) => {
                    &&& final(item).status == ItemStatus::Completed
                    &&& final(item).downloaded_bytes == *bytes
                    &&& final(item).retries == crate::scheduler::saturating(old(item).retries as int + retries as int)
                    &&& final(item).last_error == old(item).last_error
                    &&& final(self).succeeded == old(self).succeeded + 1
                    &&& final(self).skipped == old(self).skipped
                    &&& final(self).failed@ == old(self).failed@
                    &&& final(self).queue@ == old(self).queue@
                    &&& final(self).limited == old(self).limited
                    &&& final(self).cooldown == old(self).cooldown
                },
                Ok(DownloadOutcome::Skipped { .. }) => {
                    &&& final(item).status == ItemStatus::Completed
                    &&& final(item).downloaded_bytes == old(item).downloaded_bytes
                    &&& final(item).retries == crate::scheduler::saturating(old(item).retries as int + retries as int)
                    &&& final(item).last_error == old(item).last_error
                    &&& final(self).succeeded == old(self).succeeded
                    &&& final(self).skipped == old(self).skipped + 1
                    &&& final(self).failed@ == old(self).failed@
                    &&& final(self).queue@ == old(self).queue@
                    &&& final(self).limited == old(self).limited
                    &&& final(self).cooldown == old(self).cooldown
                },
                Err(e) => if spec_is_rate_limited(*e) && work.rate_retries < old(self).retries {
                    &&& final(item).status == ItemStatus::Pending
                    &&& final(item).downloaded_bytes == old(item).downloaded_bytes
                    &&& final(item).retries == crate::scheduler::saturating(
                        crate::scheduler::saturating(old(item).retries as int + retries as int) + 1,
                    )
                    &&& final(item).last_error matches Some(m) && m@ == error_message(*e)
                    &&& final(self).succeeded == old(self).succeeded
                    &&& final(self).skipped == old(self).skipped
                    &&& final(self).failed@ == old(self).failed@
                    &&& final(self).queue@.len() == old(self).queue@.len() + 1
                    &&& final(self).queue@.drop_last() == old(self).queue@
                    &&& final(self).queue@.last().record@ == work.record@
                    &&& final(self).queue@.last().rate_retries == work.rate_retries + 1
                    &&& final(self).limited == old(self).limited + 1
                    &&& final(self).cooldown == (match spec_retry_after_secs(*e) {
                        Some(s) => if s > old(self).cooldown {
                            s
                        } else {
                            old(self).cooldown
                        },
                        None => if old(self).cooldown_secs > old(self).cooldown {
                            old(self).cooldown_secs
                        } else {
                            old(self).cooldown
                        },
                    })
                } else {
                    &&& final(item).status == ItemStatus::Failed
                    &&& final(item).downloaded_bytes == old(item).downloaded_bytes
                    &&& final(item).retries == crate::scheduler::saturating(old(item).retries as int + retries as int)
                    &&& final(item).last_error matches Some(m) && m@ == error_message(*e)
                    &&& final(self).succeeded == old(self).succeeded
                    &&& final(self).skipped == old(self).skipped
                    &&& final(self).failed@.len() == old(self).failed@.len() + 1
                    &&& final(self).failed@.drop_last() == old(self).failed@
                    &&& final(self).failed@.last().file@ == work.record@.target_file
                    &&& final(self).failed@.last().url@ == work.record@.normalized_url
                    &&& final(self).failed@.last().error@ == error_message(*e)
                    &&& final(self).queue@ == old(self).queue@
                    &&& final(self).limited == old(self).limited
                    &&& final(self).cooldown == old(self).cooldown
                },
            },
    {
        item.retries = item.retries.saturating_add(retries);
        item.updated_at = now;
        self.in_flight = self.in_flight - 1;
        match result {
            Ok(DownloadOutcome::Completed { bytes, .. }) => {
                item.status = ItemStatus::Completed;
                item.downloaded_bytes = *bytes;
                self.succeeded = self.succeeded + 1;
            },
            Ok(DownloadOutcome::Skipped { .. }) => {
                item.status = ItemStatus::Completed;
                self.skipped = self.skipped + 1;
            },
            Err(e) => {
                if e.is_rate_limited() && work.rate_retries < self.retries {
                    self.limited = self.limited + 1;
                    let wait = match e.retry_after_secs() {
                        Some(s) => s,
                        None => self.cooldown_secs,
                    };
                    if wait > self.cooldown {
                        self.cooldown = wait;
                    }
                    item.status = ItemStatus::Pending;
                    item.retries = item.retries.saturating_add(1);
                    item.last_error = Some(e.message());
                    let again = WorkItem { record: work.record, rate_retries: work.rate_retries + 1 };
                    let ghost before = self.queue@;
                    self.queue.push_back(again);
                    assert(self.queue@.drop_last() =~= before);
                    assert forall|i: int| 0 <= i < self.queue@.len() implies #[trigger] self.queue@[i].rate_retries
                        <= self.retries by {
                        if i < before.len() {
                            assert(self.queue@[i] == before[i]);
                        }
                    }
                } else {
                    let message = e.message();
                    item.status = ItemStatus::Failed;
                    item.last_error = Some(e.message());
                    let ghost before = self.failed@;
                    self.failed.push(
                        FailedItem {
                            file: work.record.target_file,
                            url: work.record.normalized_url,
                            error: message,
                        },
                    );
                    assert(self.failed@.drop_last() =~= before);
                }
            },
        }
    }

    /// The batch is over.  After throttling, the concurrency halves when it
    /// adapts and the pause is the batch's cooldown; otherwise, when it
    /// adapts and is below the limit, it grows and the pause is the warm-up
    /// delay; otherwise there is no pause.
    pub fn end_batch(&mut self) -> (pause: BatchPause)
        requires
            old(self).wf(),
            old(self).in_flight == 0,
        ensures
            final(self).wf(),
            final(self).queue@ == old(self).queue@,
            final(self).in_flight == 0,
            final(self).total == old(self).total,
            final(self).limit == old(self).limit,
            final(self).auto == old(self).auto,
            final(self).retries == old(self).retries,
            final(self).cooldown_secs == old(self).cooldown_secs,
            final(self).warmup_delay_ms == old(self).warmup_delay_ms,
            final(self).succeeded == old(self).succeeded,
            final(self).skipped == old(self).skipped,
            final(self).failed@ == old(self).failed@,
            old(self).limited > 0 ==> {
                &&& pause == BatchPause::Cooldown(old(self).cooldown)
                &&& final(self).effective == if old(self).auto {
                    spec_decrease(old(self).effective as int)
                } else {
                    old(self).effective as int
                }
            },
            old(self).limited == 0 && old(self).auto && old(self).effective < old(self).limit ==> {
                &&& pause == BatchPause::Warmup(old(self).warmup_delay_ms)
                &&& final(self).effective == spec_increase(old(self).effective as int, old(self).limit as int)
            },
            old(self).limited == 0 && !(old(self).auto && old(self).effective < old(self).limit) ==> {
                &&& pause == BatchPause::Continue
                &&& final(self).effective == old(self).effective
            },
    {
        if self.limited > 0 {
            if self.auto {
                self.effective = decrease(self.effective);
            }
            BatchPause::Cooldown(self.cooldown)
        } else if self.auto && self.effective < self.limit {
            self.effective = increase(self.effective, self.limit);
            BatchPause::Warmup(self.warmup_delay_ms)
        } else {
            BatchPause::Continue
        }
    }
}

/// `u32` addition that stops at the largest value.
pub open spec fn saturating(v: int) -> u32 {
    if v > u32::MAX {
        u32::MAX
    } else {
        v as u32
    }
}

} // verus!
