use vstd::prelude::*;
use crate::common::GetUploadProgressResponse;

verus! {

/// What a progress subscriber hears from the upload's notification channel.
pub enum FeedEvent {
    /// A cumulative count of stored bytes.
    Progress { bytes: u64 },
    /// The channel closed, or the subscriber fell behind and lost events.
    Closed,
}

/// One event of a feed: an ended feed stays as it is and emits nothing; a
/// count is emitted and ends the feed once it reaches the payload size; a
/// closed channel ends the feed with nothing emitted.
pub open spec fn feed_step(
    old: ProgressFeed,
    event: FeedEvent,
    new: ProgressFeed,
    r: Option<GetUploadProgressResponse>,
) -> bool {
    &&& new.file_hash == old.file_hash
    &&& new.total_bytes == old.total_bytes
    &&& if old.finished {
        r is None && new == old
    } else {
        match event {
            FeedEvent::Progress { bytes } => {
                &&& r matches Some(s) && s.bytes_uploaded == bytes && s.total_bytes
                    == old.total_bytes && s.file_hash@ == old.file_hash@
                &&& new.finished == (bytes >= old.total_bytes)
                &&& new.completed == (bytes >= old.total_bytes)
            },
            FeedEvent::Closed => r is None && new.finished && !new.completed,
        }
    }
}

/// The snapshots that one subscriber sees of one upload.
pub struct ProgressFeed {
    pub file_hash: String,
    pub total_bytes: u64,
    pub finished: bool,
    /// Whether the feed ended on a count that reached the payload size; the
    /// subscriber then removes the upload's progress entry.
    pub completed: bool,
}

impl ProgressFeed {
    /// A feed of the upload `file_hash` whose payload is `total_bytes` bytes.
    pub fn new(file_hash: String, total_bytes: u64) -> (r: ProgressFeed)
        ensures
            r.file_hash == file_hash,
            r.total_bytes == total_bytes,
            !r.finished,
            !r.completed,
    {
        ProgressFeed { file_hash, total_bytes, finished: false, completed: false }
    }

    /// Turns one event into the snapshot to emit, if any. A count emits a
    /// snapshot of it and ends the feed once it reaches the payload size; a
    /// closed channel ends the feed with nothing emitted; an ended feed emits
    /// nothing more. `completed` is set exactly when the feed ends on a count
    /// that reached the payload size.
    pub fn on_event(&mut self, event: FeedEvent) -> (r: Option<GetUploadProgressResponse>)
        ensures
            feed_step(*old(self), event, *final(self), r),
    {
        if self.finished {
            return None;
        }
        self.completed = false;
        match event {
            FeedEvent::Progress { bytes } => {
                if bytes >= self.total_bytes {
                    self.finished = true;
                    self.completed = true;
                }
                Some(
                    GetUploadProgressResponse {
                        total_bytes: self.total_bytes,
                        bytes_uploaded: bytes,
                        file_hash: self.file_hash.clone(),
                    },
                )
            },
            FeedEvent::Closed => {
                self.finished = true;
                None
            },
        }
    }
}

/// An upload that fails before storing every byte publishes counts below the
/// payload size and then closes its channel: a subscriber's feed emits one
/// snapshot per count, in order, none of them at or above the payload size,
/// and then ends without a completion.
pub proof fn lemma_failed_upload_feed(
    feeds: Seq<ProgressFeed>,
    events: Seq<FeedEvent>,
    emitted: Seq<Option<GetUploadProgressResponse>>,
)
    requires
        events.len() >= 1,
        feeds.len() == events.len() + 1,
        emitted.len() == events.len(),
        !feeds[0].finished,
        forall|i: int|
            0 <= i < events.len() ==> feed_step(
                #[trigger] feeds[i],
                events[i],
                feeds[i + 1],
                emitted[i],
            ),
        forall|i: int|
            0 <= i < events.len() - 1 ==> (#[trigger] events[i] matches FeedEvent::Progress {
                bytes,
            } && bytes < feeds[0].total_bytes),
        events.last() is Closed,
    ensures
        forall|i: int|
            0 <= i < events.len() - 1 ==> (#[trigger] emitted[i] matches Some(s) && s.bytes_uploaded
                == events[i]->bytes && s.bytes_uploaded < feeds[0].total_bytes),
        emitted.last() is None,
        feeds.last().finished,
        !feeds.last().completed,
{
    assert forall|i: int| 0 <= i < events.len() implies !(#[trigger] feeds[i]).finished
        && feeds[i].total_bytes == feeds[0].total_bytes by {
        lemma_feed_open(feeds, events, emitted, i);
    }
    let k = events.len() - 1;
    assert(feed_step(feeds[k], events[k], feeds[k + 1], emitted[k]));
    assert forall|i: int| 0 <= i < events.len() - 1 implies (#[trigger] emitted[i] matches Some(s)
        && s.bytes_uploaded == events[i]->bytes && s.bytes_uploaded < feeds[0].total_bytes) by {
        assert(feed_step(feeds[i], events[i], feeds[i + 1], emitted[i]));
        assert(events[i] matches FeedEvent::Progress { bytes } && bytes < feeds[0].total_bytes);
    }
}

proof fn lemma_feed_open(
    feeds: Seq<ProgressFeed>,
    events: Seq<FeedEvent>,
    emitted: Seq<Option<GetUploadProgressResponse>>,
    i: int,
)
    requires
        events.len() >= 1,
        feeds.len() == events.len() + 1,
        emitted.len() == events.len(),
        !feeds[0].finished,
        forall|j: int|
            0 <= j < events.len() ==> feed_step(
                #[trigger] feeds[j],
                events[j],
                feeds[j + 1],
                emitted[j],
            ),
        forall|j: int|
            0 <= j < events.len() - 1 ==> (#[trigger] events[j] matches FeedEvent::Progress {
                bytes,
            } && bytes < feeds[0].total_bytes),
        0 <= i < events.len(),
    ensures
        !feeds[i].finished,
        feeds[i].total_bytes == feeds[0].total_bytes,
    decreases i,
{
    if i > 0 {
        lemma_feed_open(feeds, events, emitted, i - 1);
        assert(feed_step(feeds[i - 1], events[i - 1], feeds[i], emitted[i - 1]));
        assert(events[i - 1] matches FeedEvent::Progress { bytes } && bytes < feeds[0].total_bytes);
    }
}

} // verus!
