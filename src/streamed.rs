use vstd::prelude::*;
use crate::common::GetUploadProgressResponse;
use crate::error::AppErrorType;
use crate::feed::FeedEvent;
use crate::parts::MAX_PART_NUMBER;
use crate::upload::CompletedPart;

verus! {

/// The parts of an upload whose size is not known in advance: every chunk
/// that arrives is stored as the next part.
pub struct StreamedParts {
    pub parts: Vec<CompletedPart>,
}

impl StreamedParts {
    /// The parts are numbered 1, 2, ... in order.
    pub open spec fn wf(&self) -> bool {
        forall|i: int|
            0 <= i < self.parts@.len() ==> #[trigger] self.parts@[i].part_number == i + 1
    }

    pub fn new() -> (r: StreamedParts)
        ensures
            r.wf(),
            r.parts@.len() == 0,
    {
        StreamedParts { parts: Vec::new() }
    }

    /// The number that the next chunk is stored under, or `ToLarge` once the
    /// backend's numbering is used up.
    pub fn next_part_number(&self) -> (r: Result<i32, AppErrorType>)
        ensures
            r is Ok <==> self.parts@.len() < MAX_PART_NUMBER,
            r matches Ok(n) ==> n == self.parts@.len() + 1,
            r matches Err(e) ==> e == AppErrorType::ToLarge,
    {
        if (self.parts.len() as u64) < MAX_PART_NUMBER {
            Ok((self.parts.len() + 1) as i32)
        } else {
            Err(AppErrorType::ToLarge)
        }
    }

    /// Records the next stored part with its completion token; `UploadFaild`
    /// when the backend gave no token, `ToLarge` when the numbering is used up.
    pub fn record(&mut self, e_tag: Option<String>) -> (r: Result<(), AppErrorType>)
        requires
            old(self).wf(),
        ensures
            final(self).wf(),
            r is Ok <==> e_tag is Some && old(self).parts@.len() < MAX_PART_NUMBER,
            r is Ok ==> {
                &&& final(self).parts@.len() == old(self).parts@.len() + 1
                &&& final(self).parts@.drop_last() == old(self).parts@
                &&& e_tag matches Some(t) && final(self).parts@.last().e_tag@ == t@
            },
            r matches Err(e) ==> {
                &&& final(self).parts@ == old(self).parts@
                &&& e_tag is None ==> e == AppErrorType::UploadFaild
                &&& e_tag is Some ==> e == AppErrorType::ToLarge
            },
    {
        match e_tag {
            None => Err(AppErrorType::UploadFaild),
            Some(tag) => {
                if (self.parts.len() as u64) >= MAX_PART_NUMBER {
                    return Err(AppErrorType::ToLarge);
                }
                let number = (self.parts.len() + 1) as i32;
                let ghost before = self.parts@;
                self.parts.push(CompletedPart { part_number: number, e_tag: tag });
                proof {
                    assert(self.parts@.drop_last() =~= before);
                    assert forall|i: int| 0 <= i < self.parts@.len() implies #[trigger] self.parts@[i].part_number
                        == i + 1 by {
                        if i < before.len() {
                            assert(self.parts@[i] == before[i]);
                        }
                    }
                }
                Ok(())
            },
        }
    }
}

/// One event of a running-total feed: an ended feed stays as it is and emits
/// nothing; a count is added to the total (which stops at `u64::MAX`) and the
/// total is emitted; a closed channel ends the feed with nothing emitted.
pub open spec fn running_step(
    old: RunningFeed,
    event: FeedEvent,
    new: RunningFeed,
    r: Option<GetUploadProgressResponse>,
) -> bool {
    &&& new.file_hash == old.file_hash
    &&& new.total_bytes == old.total_bytes
    &&& new.uploaded >= old.uploaded
    &&& if old.finished {
        r is None && new == old
    } else {
        match event {
            FeedEvent::Progress { bytes } => {
                &&& new.uploaded == if old.uploaded + bytes <= u64::MAX {
                    (old.uploaded + bytes) as u64
                } else {
                    u64::MAX
                }
                &&& r matches Some(s) && s.bytes_uploaded == new.uploaded && s.total_bytes
                    == old.total_bytes && s.file_hash@ == old.file_hash@
                &&& !new.finished
            },
            FeedEvent::Closed => r is None && new.finished && new.uploaded == old.uploaded,
        }
    }
}

/// Sum of the counts carried by the first `n` events.
pub open spec fn counts_sum(events: Seq<FeedEvent>, n: int) -> int
    decreases n,
{
    if n <= 0 {
        0
    } else {
        counts_sum(events, n - 1) + match events[n - 1] {
            FeedEvent::Progress { bytes } => bytes as int,
            FeedEvent::Closed => 0,
        }
    }
}

/// The snapshots that one subscriber sees of an upload whose notifications
/// carry the size of each chunk rather than a running total.
pub struct RunningFeed {
    pub file_hash: String,
    pub total_bytes: u64,
    pub uploaded: u64,
    pub finished: bool,
}

impl RunningFeed {
    pub fn new(file_hash: String, total_bytes: u64) -> (r: RunningFeed)
        ensures
            r.file_hash == file_hash,
            r.total_bytes == total_bytes,
            r.uploaded == 0,
            !r.finished,
    {
        RunningFeed { file_hash, total_bytes, uploaded: 0, finished: false }
    }

    /// Adds a chunk size to the running total and emits a snapshot of it
    /// (the total stops at `u64::MAX`); a closed channel ends the feed with
    /// nothing emitted; an ended feed emits nothing more.
    pub fn on_event(&mut self, event: FeedEvent) -> (r: Option<GetUploadProgressResponse>)
        ensures
            running_step(*old(self), event, *final(self), r),
    {
        if self.finished {
            return None;
        }
        match event {
            FeedEvent::Progress { bytes } => {
                self.uploaded = self.uploaded.saturating_add(bytes);
                Some(
                    GetUploadProgressResponse {
                        total_bytes: self.total_bytes,
                        bytes_uploaded: self.uploaded,
                        file_hash: self.file_hash.clone(),
                    },
                )
            },
            FeedEvent::Closed => {
                self.finished = true;
                None
            },
        }
    }
}

proof fn lemma_counts_sum_monotone(events: Seq<FeedEvent>, a: int, b: int)
    requires
        0 <= a <= b,
    ensures
        counts_sum(events, a) <= counts_sum(events, b),
    decreases b - a,
{
    if a < b {
        lemma_counts_sum_monotone(events, a, b - 1);
    }
}

proof fn lemma_running_prefix(
    feeds: Seq<RunningFeed>,
    events: Seq<FeedEvent>,
    emitted: Seq<Option<GetUploadProgressResponse>>,
    i: int,
)
    requires
        feeds.len() == events.len() + 1,
        emitted.len() == events.len(),
        !feeds[0].finished,
        feeds[0].uploaded == 0,
        forall|j: int|
            0 <= j < events.len() ==> running_step(
                #[trigger] feeds[j],
                events[j],
                feeds[j + 1],
                emitted[j],
            ),
        forall|j: int| 0 <= j < events.len() ==> (#[trigger] events[j]) is Progress,
        counts_sum(events, events.len() as int) <= u64::MAX,
        0 <= i <= events.len(),
    ensures
        !feeds[i].finished,
        feeds[i].uploaded == counts_sum(events, i),
        feeds[i].total_bytes == feeds[0].total_bytes,
        feeds[i].file_hash == feeds[0].file_hash,
    decreases i,
{
    if i > 0 {
        lemma_running_prefix(feeds, events, emitted, i - 1);
        lemma_counts_sum_monotone(events, i, events.len() as int);
        assert(running_step(feeds[i - 1], events[i - 1], feeds[i], emitted[i - 1]));
        assert(events[i - 1] is Progress);
    }
}

/// A subscriber of an upload that publishes chunk sizes `d_1, d_2, ...` sees
/// one snapshot per chunk, the `i`-th carrying `d_1 + ... + d_i`, the upload's
/// size and its identifier, as long as the sum stays within `u64`.
pub proof fn lemma_running_totals(
    feeds: Seq<RunningFeed>,
    events: Seq<FeedEvent>,
    emitted: Seq<Option<GetUploadProgressResponse>>,
)
    requires
        feeds.len() == events.len() + 1,
        emitted.len() == events.len(),
        !feeds[0].finished,
        feeds[0].uploaded == 0,
        forall|j: int|
            0 <= j < events.len() ==> running_step(
                #[trigger] feeds[j],
                events[j],
                feeds[j + 1],
                emitted[j],
            ),
        forall|j: int| 0 <= j < events.len() ==> (#[trigger] events[j]) is Progress,
        counts_sum(events, events.len() as int) <= u64::MAX,
    ensures
        forall|i: int|
            0 <= i < events.len() ==> (#[trigger] emitted[i] matches Some(s) && s.bytes_uploaded
                == counts_sum(events, i + 1) && s.total_bytes == feeds[0].total_bytes
                && s.file_hash@ == feeds[0].file_hash@),
        forall|a: int, b: int|
            0 <= a < b < events.len() ==> (#[trigger] emitted[a])->0.bytes_uploaded <= (
            #[trigger] emitted[b])->0.bytes_uploaded,
{
    assert forall|i: int| 0 <= i < events.len() implies (#[trigger] emitted[i] matches Some(s)
        && s.bytes_uploaded == counts_sum(events, i + 1) && s.total_bytes == feeds[0].total_bytes
        && s.file_hash@ == feeds[0].file_hash@) by {
        lemma_running_prefix(feeds, events, emitted, i);
        lemma_running_prefix(feeds, events, emitted, i + 1);
        assert(running_step(feeds[i], events[i], feeds[i + 1], emitted[i]));
    }
    assert forall|a: int, b: int| 0 <= a < b < events.len() implies (
    #[trigger] emitted[a])->0.bytes_uploaded <= (#[trigger] emitted[b])->0.bytes_uploaded by {
        lemma_counts_sum_monotone(events, a + 1, b + 1);
    }
}

} // verus!
