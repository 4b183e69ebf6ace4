use vstd::prelude::*;
use tokio::sync::broadcast::{Receiver, Sender};
use crate::error::AppErrorType;

verus! {

#[verifier::external_type_specification]
#[verifier::external_body]
#[verifier::reject_recursive_types(T)]
pub struct ExSender<T>(tokio::sync::broadcast::Sender<T>);

#[verifier::external_type_specification]
#[verifier::external_body]
#[verifier::reject_recursive_types(T)]
pub struct ExReceiver<T>(tokio::sync::broadcast::Receiver<T>);

/// Relies on tokio's `broadcast::Sender::clone`: another sending handle of the
/// same channel.
pub assume_specification<T>[ <tokio::sync::broadcast::Sender<T> as Clone>::clone ](
    s: &tokio::sync::broadcast::Sender<T>,
) -> tokio::sync::broadcast::Sender<T>;

/// Relies on tokio's `broadcast::Sender::subscribe`: a receiver of the values
/// sent after the call. It panics only once `usize::MAX / 4` receivers of one
/// channel are alive at once.
pub assume_specification<T>[ tokio::sync::broadcast::Sender::<T>::subscribe ](
    s: &tokio::sync::broadcast::Sender<T>,
) -> tokio::sync::broadcast::Receiver<T>;

/// Number of notifications that a progress channel buffers per receiver.
pub const CHANNEL_CAPACITY: usize = 100;

/// Relies on tokio's `broadcast::Sender::new`: a fresh channel that buffers
/// `capacity` values; it panics on a capacity of zero or above `usize::MAX / 2`.
#[verifier::external_body]
fn new_progress_sender(capacity: usize) -> (r: Sender<u64>)
    requires
        0 < capacity <= usize::MAX / 2,
{
    Sender::new(capacity)
}

/// A sending handle of a progress channel. `channel` tells channels apart:
/// handles made from one another share it, and the registry gives every
/// channel it opens a tag that no earlier channel had.
pub struct ProgressSender {
    inner: Sender<u64>,
    channel: Ghost<int>,
}

/// A receiving handle of a progress channel, tagged like the senders.
pub struct ProgressReceiver {
    inner: Receiver<u64>,
    channel: Ghost<int>,
}

impl ProgressSender {
    /// The channel that this handle sends on.
    pub closed spec fn channel(&self) -> int {
        self.channel@
    }

    /// A new channel, tagged `channel`.
    fn open(channel: Ghost<int>) -> (r: ProgressSender)
        ensures
            r.channel() == channel@,
    {
        ProgressSender { inner: new_progress_sender(CHANNEL_CAPACITY), channel }
    }

    /// Another sending handle of the same channel.
    pub fn clone_handle(&self) -> (r: ProgressSender)
        ensures
            r.channel() == self.channel(),
    {
        ProgressSender { inner: self.inner.clone(), channel: Ghost(self.channel@) }
    }

    /// A receiver of the values sent on this channel after the call.
    pub fn subscribe(&self) -> (r: ProgressReceiver)
        ensures
            r.channel() == self.channel(),
    {
        ProgressReceiver { inner: self.inner.subscribe(), channel: Ghost(self.channel@) }
    }

    /// The underlying handle, to send with.
    pub fn handle(&self) -> &Sender<u64> {
        &self.inner
    }
}

impl ProgressReceiver {
    /// The channel that this handle receives from.
    pub closed spec fn channel(&self) -> int {
        self.channel@
    }

    /// The underlying handle, to receive with.
    pub fn into_inner(self) -> Receiver<u64> {
        self.inner
    }
}

/// The progress entry of one in-flight upload.
pub struct UploadProgress {
    pub total_bytes: u64,
    pub file_hash: String,
    pub sender: ProgressSender,
}

/// The in-flight uploads by identifier: at most one entry per identifier.
pub struct ProgressRegistry {
    entries: Vec<UploadProgress>,
    totals: Ghost<Map<Seq<char>, u64>>,
    channels: Ghost<Map<Seq<char>, int>>,
    next_channel: Ghost<int>,
}

impl View for ProgressRegistry {
    type V = Map<Seq<char>, u64>;

    /// The payload size of each registered identifier.
    closed spec fn view(&self) -> Map<Seq<char>, u64> {
        self.totals@
    }
}

impl ProgressRegistry {
    /// The channel of the entry registered under `file_hash`.
    pub closed spec fn channel_of(&self, file_hash: Seq<char>) -> int {
        self.channels@[file_hash]
    }

    /// Every channel that the registry has opened has a tag below this one.
    pub closed spec fn channel_bound(&self) -> int {
        self.next_channel@
    }

    pub closed spec fn wf(&self) -> bool {
        &&& forall|i: int, j: int|
            0 <= i < j < self.entries@.len() ==> #[trigger] self.entries@[i].file_hash@
                != #[trigger] self.entries@[j].file_hash@
        &&& forall|i: int|
            0 <= i < self.entries@.len() ==> {
                &&& self.totals@.contains_key(#[trigger] self.entries@[i].file_hash@)
                &&& self.totals@[self.entries@[i].file_hash@] == self.entries@[i].total_bytes
                &&& self.channels@[self.entries@[i].file_hash@]
                    == self.entries@[i].sender.channel()
                &&& self.entries@[i].sender.channel() < self.next_channel@
            }
        &&& forall|k: Seq<char>|
            #[trigger] self.totals@.contains_key(k) ==> exists|i: int|
                0 <= i < self.entries@.len() && #[trigger] self.entries@[i].file_hash@ == k
    }

    /// An empty registry.
    pub fn new() -> (r: ProgressRegistry)
        ensures
            r.wf(),
            r@ == Map::<Seq<char>, u64>::empty(),
    {
        ProgressRegistry {
            entries: Vec::new(),
            totals: Ghost(Map::empty()),
            channels: Ghost(Map::empty()),
            next_channel: Ghost(0),
        }
    }

    /// Index of the entry for `file_hash`, if there is one.
    fn find(&self, file_hash: &str) -> (r: Option<usize>)
        requires
            self.wf(),
        ensures
            r is None <==> !self@.contains_key(file_hash@),
            r matches Some(i) ==> i < self.entries@.len() && self.entries@[i as int].file_hash@
                == file_hash@,
    {
        let key = file_hash.to_owned();
        let mut i: usize = 0;
        while i < self.entries.len()
            invariant
                self.wf(),
                i <= self.entries@.len(),
                key@ == file_hash@,
                forall|j: int| 0 <= j < i ==> self.entries@[j].file_hash@ != key@,
            decreases self.entries@.len() - i,
        {
            if self.entries[i].file_hash == key {
                proof {
                    assert(self.totals@.contains_key(self.entries@[i as int].file_hash@));
                }
                return Some(i);
            }
            i = i + 1;
        }
        proof {
            if self@.contains_key(file_hash@) {
                let j = choose|j: int|
                    0 <= j < self.entries@.len() && #[trigger] self.entries@[j].file_hash@
                        == file_hash@;
                assert(self.entries@[j].file_hash@ != key@);
            }
        }
        None
    }

    /// Whether an upload with this identifier is in flight.
    pub fn contains(&self, file_hash: &str) -> (r: bool)
        requires
            self.wf(),
        ensures
            r == self@.contains_key(file_hash@),
    {
        self.find(file_hash).is_some()
    }

    /// The payload size registered for `file_hash`, if any.
    pub fn total_of(&self, file_hash: &str) -> (r: Option<u64>)
        requires
            self.wf(),
        ensures
            r is Some <==> self@.contains_key(file_hash@),
            r matches Some(t) ==> t == self@[file_hash@],
    {
        match self.find(file_hash) {
            Some(i) => Some(self.entries[i].total_bytes),
            None => None,
        }
    }

    /// Removes the entry for `file_hash`; removing an absent one changes
    /// nothing. The other entries keep their channels.
    pub fn end(&mut self, file_hash: &str)
        requires
            old(self).wf(),
        ensures
            final(self).wf(),
            final(self)@ == old(self)@.remove(file_hash@),
            final(self).channel_bound() == old(self).channel_bound(),
            forall|k: Seq<char>|
                #[trigger] final(self)@.contains_key(k) ==> final(self).channel_of(k) == old(
                    self,
                ).channel_of(k),
    {
        match self.find(file_hash) {
            None => {
                proof {
                    assert(self@.remove(file_hash@) =~= self@);
                }
            },
            Some(i) => {
                let ghost old_entries = self.entries@;
                let _removed = self.entries.remove(i);
                self.totals = Ghost(self.totals@.remove(file_hash@));
                self.channels = Ghost(self.channels@.remove(file_hash@));
                proof {
                    assert forall|j: int| 0 <= j < self.entries@.len() implies {
                        &&& self.totals@.contains_key(#[trigger] self.entries@[j].file_hash@)
                        &&& self.totals@[self.entries@[j].file_hash@]
                            == self.entries@[j].total_bytes
                        &&& self.channels@[self.entries@[j].file_hash@]
                            == self.entries@[j].sender.channel()
                        &&& self.entries@[j].sender.channel() < self.next_channel@
                    } by {
                        let oj = if j < i { j } else { j + 1 };
                        assert(self.entries@[j] == old_entries[oj]);
                        assert(old_entries[oj].file_hash@ != file_hash@);
                    }
                    assert forall|a: int, b: int|
                        0 <= a < b < self.entries@.len() implies #[trigger] self.entries@[a].file_hash@
                        != #[trigger] self.entries@[b].file_hash@ by {
                        let oa = if a < i { a } else { a + 1 };
                        let ob = if b < i { b } else { b + 1 };
                        assert(self.entries@[a] == old_entries[oa]);
                        assert(self.entries@[b] == old_entries[ob]);
                    }
                    assert forall|k: Seq<char>| #[trigger] self.totals@.contains_key(k) implies exists|
                        j: int,
                    | 0 <= j < self.entries@.len() && #[trigger] self.entries@[j].file_hash@ == k by {
                        let oj = choose|oj: int|
                            0 <= oj < old_entries.len() && #[trigger] old_entries[oj].file_hash@
                                == k;
                        assert(oj != i);
                        let j = if oj < i { oj } else { oj - 1 };
                        assert(self.entries@[j] == old_entries[oj]);
                    }
                }
            },
        }
    }

    /// Registers an upload of `total_bytes` bytes under `file_hash` on a
    /// channel opened for it, and returns a sending handle of that channel.
    /// An entry already present under that identifier is replaced: the new
    /// channel is none that the registry opened before, so receivers of the
    /// replaced entry hear nothing of the new upload. The other entries keep
    /// their channels.
    pub fn begin(&mut self, file_hash: String, total_bytes: u64) -> (r: ProgressSender)
        requires
            old(self).wf(),
        ensures
            final(self).wf(),
            final(self)@ == old(self)@.insert(file_hash@, total_bytes),
            final(self).channel_of(file_hash@) == r.channel(),
            r.channel() >= old(self).channel_bound(),
            old(self)@.contains_key(file_hash@) ==> r.channel() != old(self).channel_of(file_hash@),
            forall|k: Seq<char>|
                #[trigger] old(self)@.contains_key(k) ==> old(self).channel_of(k) < old(
                    self,
                ).channel_bound(),
            forall|k: Seq<char>|
                k != file_hash@ && #[trigger] old(self)@.contains_key(k) ==> final(self).channel_of(
                    k,
                ) == old(self).channel_of(k),
            final(self).channel_bound() > old(self).channel_bound(),
    {
        proof {
            assert forall|k: Seq<char>| #[trigger] self@.contains_key(k) implies self.channel_of(k)
                < self.channel_bound() by {
                let j = choose|j: int|
                    0 <= j < self.entries@.len() && #[trigger] self.entries@[j].file_hash@ == k;
            }
        }
        self.end(file_hash.as_str());
        let ghost before = self.entries@;
        let ghost mid_channels = self.channels@;
        let ghost mid_totals = self.totals@;
        let ghost tag = self.next_channel@;
        let sender = ProgressSender::open(Ghost(tag));
        let ghost key = file_hash@;
        self.entries.push(
            UploadProgress { total_bytes, file_hash, sender: sender.clone_handle() },
        );
        self.totals = Ghost(self.totals@.insert(key, total_bytes));
        self.channels = Ghost(self.channels@.insert(key, tag));
        self.next_channel = Ghost(tag + 1);
        proof {
            let n = before.len();
            assert(self.entries@[n as int].file_hash@ == key);
            assert forall|j: int| 0 <= j < self.entries@.len() implies {
                &&& self.totals@.contains_key(#[trigger] self.entries@[j].file_hash@)
                &&& self.totals@[self.entries@[j].file_hash@] == self.entries@[j].total_bytes
                &&& self.channels@[self.entries@[j].file_hash@]
                    == self.entries@[j].sender.channel()
                &&& self.entries@[j].sender.channel() < self.next_channel@
            } by {
                if j < n {
                    assert(self.entries@[j] == before[j]);
                    assert(before[j].file_hash@ != key);
                }
            }
            assert forall|a: int, b: int|
                0 <= a < b < self.entries@.len() implies #[trigger] self.entries@[a].file_hash@
                != #[trigger] self.entries@[b].file_hash@ by {
                assert(self.entries@[a] == before[a]);
                if b < n {
                    assert(self.entries@[b] == before[b]);
                }
            }
            assert forall|k: Seq<char>| #[trigger] self.totals@.contains_key(k) implies exists|
                j: int,
            | 0 <= j < self.entries@.len() && #[trigger] self.entries@[j].file_hash@ == k by {
                if k == key {
                    assert(self.entries@[n as int].file_hash@ == k);
                } else {
                    let oj = choose|oj: int|
                        0 <= oj < before.len() && #[trigger] before[oj].file_hash@ == k;
                    assert(self.entries@[oj] == before[oj]);
                }
            }
            assert forall|k: Seq<char>|
                k != key && #[trigger] old(self)@.contains_key(k) implies self.channel_of(k)
                == old(self).channel_of(k) by {
                assert(mid_totals.contains_key(k));
                assert(self.channels@[k] == mid_channels[k]);
            }
        }
        sender
    }

    /// The payload size of the upload `file_hash` and a receiver on its
    /// entry's channel; `NotFound` exactly when no such upload is in flight.
    pub fn subscribe(&self, file_hash: &str) -> (r: Result<(u64, ProgressReceiver), AppErrorType>)
        requires
            self.wf(),
        ensures
            r is Ok <==> self@.contains_key(file_hash@),
            r matches Ok((total, rx)) ==> total == self@[file_hash@] && rx.channel()
                == self.channel_of(file_hash@),
            r matches Err(e) ==> e == AppErrorType::NotFound,
    {
        match self.find(file_hash) {
            Some(i) => Ok((self.entries[i].total_bytes, self.entries[i].sender.subscribe())),
            None => Err(AppErrorType::NotFound),
        }
    }
}

/// Once an upload's entry is removed, the identifier is unknown to the
/// registry, so a later subscription to it fails with `NotFound`.
pub proof fn lemma_ended_is_unknown(reg: Map<Seq<char>, u64>, file_hash: Seq<char>)
    ensures
        !reg.remove(file_hash).contains_key(file_hash),
{
}

/// Registering an identifier that is already registered replaces its entry:
/// the registry then holds the second upload's size alone.
pub proof fn lemma_begin_overwrites(
    reg: Map<Seq<char>, u64>,
    file_hash: Seq<char>,
    first_total: u64,
    second_total: u64,
)
    ensures
        reg.insert(file_hash, first_total).insert(file_hash, second_total) == reg.insert(
            file_hash,
            second_total,
        ),
        reg.insert(file_hash, first_total).insert(file_hash, second_total)[file_hash]
            == second_total,
{
    assert(reg.insert(file_hash, first_total).insert(file_hash, second_total) =~= reg.insert(
        file_hash,
        second_total,
    ));
}

} // verus!
