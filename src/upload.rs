use vstd::prelude::*;
use crate::error::AppErrorType;
use crate::parts::{
    is_single_shot, lemma_uploaded_below, lemma_uploaded_bounded, lemma_uploaded_step,
    part_count, part_size_at,
    uploaded_after, MAX_PART_NUMBER,
};

verus! {

/// The state of one upload.
#[derive(Debug, Clone, Copy, PartialEq, Eq, Structural)]
pub enum UploadPhase {
    /// Waiting for the payload to be staged.
    Received,
    /// The payload is staged and its size known; waiting for the progress
    /// entry to be registered.
    Staged,
    /// A single put of the whole payload is under way.
    SingleShot,
    /// A multipart session is being opened.
    Opening,
    /// Parts are being stored, one at a time.
    PartLoop,
    /// Every part is stored; the session is being finalized.
    Completing,
    Done,
    Failed,
}

/// A part that the backend has stored: its number and completion token.
pub struct CompletedPart {
    pub part_number: i32,
    pub e_tag: String,
}

/// What the executor of an upload reports back.
pub enum UploadEvent {
    /// The payload was staged; it holds `total_bytes` bytes.
    Staged { total_bytes: u64 },
    /// The progress entry for the upload is registered.
    Registered,
    /// The single put succeeded.
    ObjectStored,
    /// The backend answered the session request, with or without a session id.
    SessionOpened { upload_id: Option<String> },
    /// The backend stored the requested part, with or without a completion token.
    PartStored { e_tag: Option<String> },
    /// The backend finalized the multipart upload.
    UploadCompleted,
    /// A step failed: staging, a read of the staged payload, or a backend call.
    StepFailed { error: AppErrorType },
}

/// What the executor of an upload is to do next.
#[derive(Debug, Clone, Copy, PartialEq, Eq, Structural)]
pub enum UploadAction {
    /// Create the progress entry for a payload of this size.
    Register { total_bytes: u64 },
    /// Store the whole staged payload in one put.
    PutObject { total_bytes: u64 },
    /// Ask the backend for a multipart session.
    OpenSession,
    /// Read the next `size` bytes of the staged payload and store them as
    /// part `part_number` of the session.
    UploadPart { part_number: i32, size: u64 },
    /// Finalize the session with the machine's parts, in their order.
    Complete,
    /// The upload is done: remove its progress entry.
    Finish,
    /// The upload failed: remove its progress entry and report the error.
    Abandon { error: AppErrorType },
    /// The machine has already ended; nothing is to be done.
    Idle,
}

/// The outcome of one transition: an action, and the cumulative byte count
/// to publish to progress subscribers, if any.
pub struct UploadStep {
    pub action: UploadAction,
    pub publish: Option<u64>,
}

/// The decisions of one upload: single put or multipart, the part sequence,
/// the running byte count and the end of the upload.
pub struct UploadMachine {
    pub part_size: u64,
    pub phase: UploadPhase,
    pub total_bytes: u64,
    pub upload_id: String,
    pub parts: Vec<CompletedPart>,
    pub uploaded: u64,
    pub error: Option<AppErrorType>,
}

/// One stored part answered in the part loop: the part is appended with the
/// next number and its token, the running total grows by the part's size and
/// is published, and the machine asks for the next part or finalizes.
#[verifier::opaque]
pub open spec fn stores_part(
    old: UploadMachine,
    tag: Seq<char>,
    new: UploadMachine,
    r: UploadStep,
) -> bool {
    &&& new.wf()
    &&& new.total_bytes == old.total_bytes
    &&& new.part_size == old.part_size
    &&& new.upload_id == old.upload_id
    &&& new.parts@.len() == old.parts@.len() + 1
    &&& new.parts@.drop_last() == old.parts@
    &&& new.parts@.last().part_number == old.parts@.len() + 1
    &&& new.parts@.last().e_tag@ == tag
    &&& new.uploaded == old.uploaded + old.spec_part_size(old.parts@.len())
    &&& r.publish == Some(new.uploaded)
    &&& new.parts@.len() < new.spec_part_count() ==> {
        &&& new.phase == UploadPhase::PartLoop
        &&& r.action == (UploadAction::UploadPart {
            part_number: (new.parts@.len() + 1) as i32,
            size: new.spec_part_size(new.parts@.len()) as u64,
        })
    }
    &&& new.parts@.len() == new.spec_part_count() ==> {
        &&& new.phase == UploadPhase::Completing
        &&& r.action == UploadAction::Complete
    }
}

impl UploadMachine {
    /// Number of parts that this upload's payload is split into.
    pub open spec fn spec_part_count(&self) -> nat {
        part_count(self.total_bytes as nat, self.part_size as nat)
    }

    /// Size of the part at zero-based index `i`.
    pub open spec fn spec_part_size(&self, i: nat) -> nat {
        part_size_at(self.total_bytes as nat, self.part_size as nat, i)
    }

    /// Whether the payload goes up in a single put.
    pub open spec fn spec_single_shot(&self) -> bool {
        is_single_shot(self.total_bytes as nat, self.part_size as nat)
    }

    /// The stored parts are numbered 1, 2, ... in order.
    pub open spec fn parts_numbered(&self) -> bool {
        forall|i: int|
            0 <= i < self.parts@.len() ==> #[trigger] self.parts@[i].part_number == i + 1
    }

    /// Whether the payload has too many parts for the backend's numbering.
    pub open spec fn too_many_parts(&self) -> bool {
        !self.spec_single_shot() && self.spec_part_count() > MAX_PART_NUMBER
    }

    pub open spec fn wf(&self) -> bool {
        &&& self.part_size > 0
        &&& self.parts_numbered()
        &&& self.uploaded <= self.total_bytes
        &&& match self.phase {
            UploadPhase::Received => self.parts@.len() == 0 && self.uploaded == 0
                && self.error is None,
            UploadPhase::Staged | UploadPhase::SingleShot | UploadPhase::Opening => {
                &&& self.parts@.len() == 0
                &&& self.uploaded == 0
                &&& !self.too_many_parts()
                &&& self.error is None
                &&& self.phase == UploadPhase::SingleShot ==> self.spec_single_shot()
                &&& self.phase == UploadPhase::Opening ==> !self.spec_single_shot()
            },
            UploadPhase::PartLoop | UploadPhase::Completing => {
                &&& !self.spec_single_shot()
                &&& !self.too_many_parts()
                &&& self.error is None
                &&& self.uploaded == uploaded_after(
                    self.total_bytes as nat,
                    self.part_size as nat,
                    self.parts@.len(),
                )
                &&& self.phase == UploadPhase::PartLoop ==> self.parts@.len()
                    < self.spec_part_count()
                &&& self.phase == UploadPhase::Completing ==> self.parts@.len()
                    == self.spec_part_count()
            },
            UploadPhase::Done => {
                &&& self.uploaded == self.total_bytes
                &&& self.error is None
                &&& self.spec_single_shot() ==> self.parts@.len() == 0
                &&& !self.spec_single_shot() ==> self.parts@.len() == self.spec_part_count()
            },
            UploadPhase::Failed => self.error is Some,
        }
    }

    /// A machine for one upload whose parts are `part_size` bytes.
    pub fn new(part_size: u64) -> (r: UploadMachine)
        requires
            part_size > 0,
        ensures
            r.wf(),
            r.phase == UploadPhase::Received,
            r.part_size == part_size,
            r.total_bytes == 0,
            r.uploaded == 0,
            r.parts@.len() == 0,
    {
        UploadMachine {
            part_size,
            phase: UploadPhase::Received,
            total_bytes: 0,
            upload_id: String::new(),
            parts: Vec::new(),
            uploaded: 0,
            error: None,
        }
    }

    /// Whether the upload has ended, in success or failure.
    pub fn is_finished(&self) -> (r: bool)
        ensures
            r == (self.phase == UploadPhase::Done || self.phase == UploadPhase::Failed),
    {
        match self.phase {
            UploadPhase::Done | UploadPhase::Failed => true,
            _ => false,
        }
    }

    /// Size of the next part to store.
    fn next_part_size(&self) -> (r: u64)
        requires
            self.part_size > 0,
        ensures
            r == self.spec_part_size(self.parts@.len()),
    {
        let q = self.total_bytes / self.part_size;
        if (self.parts.len() as u64) < q {
            self.part_size
        } else {
            self.total_bytes % self.part_size
        }
    }

    /// Ends the upload with `error`.
    fn fail(&mut self, error: AppErrorType) -> (r: UploadStep)
        requires
            old(self).part_size > 0,
            old(self).parts_numbered(),
            old(self).uploaded <= old(self).total_bytes,
        ensures
            final(self).wf(),
            final(self).phase == UploadPhase::Failed,
            final(self).error == Some(error),
            final(self).total_bytes == old(self).total_bytes,
            final(self).part_size == old(self).part_size,
            final(self).uploaded == old(self).uploaded,
            final(self).parts@ == old(self).parts@,
            final(self).upload_id == old(self).upload_id,
            r.action == (UploadAction::Abandon { error }),
            r.publish is None,
    {
        self.phase = UploadPhase::Failed;
        self.error = Some(error);
        UploadStep { action: UploadAction::Abandon { error }, publish: None }
    }

    /// Advances the upload by one event and says what to do next.
    ///
    /// A failure in any live phase ends the upload with that failure; an
    /// event that the phase does not expect ends it as an internal error; an
    /// ended upload stays as it is.
    #[verifier::spinoff_prover]
    #[verifier::rlimit(40)]
    pub fn step(&mut self, event: UploadEvent) -> (r: UploadStep)
        requires
            old(self).wf(),
        ensures
            final(self).wf(),
            final(self).part_size == old(self).part_size,
            final(self).uploaded >= old(self).uploaded,
            r.publish matches Some(v) ==> v == final(self).uploaded && v <= final(self).total_bytes,
            // the whole payload is published only once every byte is stored
            r.publish matches Some(v) ==> (v < final(self).total_bytes || final(self).phase
                == UploadPhase::Completing || final(self).phase == UploadPhase::Done),
            r.action is Abandon ==> r.publish is None && final(self).phase == UploadPhase::Failed,
            r.action is Finish ==> final(self).phase == UploadPhase::Done,
            old(self).phase != UploadPhase::Received ==> final(self).total_bytes == old(
                self,
            ).total_bytes,
            // only an opened session sets the session id
            !(old(self).phase == UploadPhase::Opening && (event is SessionOpened))
                ==> final(self).upload_id == old(self).upload_id,
            // only a stored part changes the part list
            !(old(self).phase == UploadPhase::PartLoop && (event is PartStored))
                ==> final(self).parts@ == old(self).parts@,
            // only a stored part or a stored object moves the running total
            (!(old(self).phase == UploadPhase::PartLoop && (event is PartStored))
                && !(old(self).phase == UploadPhase::SingleShot && (event is ObjectStored)))
                ==> final(self).uploaded == old(self).uploaded,
            // an ended upload does not move
            (old(self).phase == UploadPhase::Done || old(self).phase == UploadPhase::Failed) ==> {
                &&& *final(self) == *old(self)
                &&& r.action == UploadAction::Idle
                &&& r.publish is None
            },
            // any failure ends a live upload with that failure
            (old(self).phase != UploadPhase::Done && old(self).phase != UploadPhase::Failed) ==> (
            event matches UploadEvent::StepFailed { error } ==> {
                &&& final(self).phase == UploadPhase::Failed
                &&& final(self).error == Some(error)
                &&& r.action == (UploadAction::Abandon { error })
            }),
            // staging done: register, unless the payload has too many parts
            old(self).phase == UploadPhase::Received ==> (event matches UploadEvent::Staged {
                total_bytes,
            } ==> {
                &&& final(self).total_bytes == total_bytes
                &&& final(self).too_many_parts() ==> final(self).phase == UploadPhase::Failed
                    && r.action == (UploadAction::Abandon { error: AppErrorType::ToLarge })
                &&& !final(self).too_many_parts() ==> final(self).phase == UploadPhase::Staged
                    && r.action == (UploadAction::Register { total_bytes })
                &&& r.publish is None
            }),
            // registered: decide between a single put and a multipart upload
            (old(self).phase == UploadPhase::Staged && event is Registered) ==> {
                &&& old(self).spec_single_shot() ==> final(self).phase == UploadPhase::SingleShot
                    && r.action == (UploadAction::PutObject { total_bytes: old(self).total_bytes })
                &&& !old(self).spec_single_shot() ==> final(self).phase == UploadPhase::Opening
                    && r.action == UploadAction::OpenSession
                &&& r.publish is None
            },
            // single put stored: done, and the whole payload is published
            (old(self).phase == UploadPhase::SingleShot && event is ObjectStored) ==> {
                &&& final(self).phase == UploadPhase::Done
                &&& r.action == UploadAction::Finish
                &&& r.publish == Some(old(self).total_bytes)
            },
            // session opened: request part 1, or fail without a session id
            old(self).phase == UploadPhase::Opening ==> (event matches UploadEvent::SessionOpened {
                upload_id,
            } ==> {
                &&& upload_id is None ==> final(self).phase == UploadPhase::Failed && r.action
                    == (UploadAction::Abandon { error: AppErrorType::UploadFaild })
                &&& upload_id matches Some(id) ==> {
                    &&& final(self).phase == UploadPhase::PartLoop
                    &&& final(self).upload_id@ == id@
                    &&& r.action == (UploadAction::UploadPart {
                        part_number: 1,
                        size: old(self).spec_part_size(0) as u64,
                    })
                }
                &&& r.publish is None
            }),
            // part stored: without a token the upload fails; with one, the part
            // is recorded, the running total published, and the next part or the
            // finalize requested
            old(self).phase == UploadPhase::PartLoop ==> (event matches UploadEvent::PartStored {
                e_tag,
            } ==> {
                &&& e_tag is None ==> final(self).phase == UploadPhase::Failed && r.action == (
                UploadAction::Abandon { error: AppErrorType::UploadFaild })
                &&& e_tag matches Some(tag) ==> stores_part(*old(self), tag@, *final(self), r)
            }),
            // session finalized: done
            (old(self).phase == UploadPhase::Completing && event is UploadCompleted) ==> {
                &&& final(self).phase == UploadPhase::Done
                &&& final(self).parts@ == old(self).parts@
                &&& r.action == UploadAction::Finish
                &&& r.publish is None
            },
            // an event that the phase does not expect
            (old(self).phase != UploadPhase::Done && old(self).phase != UploadPhase::Failed
                && !(event is StepFailed) && !(old(self).phase == UploadPhase::Received
                && event is Staged) && !(old(self).phase == UploadPhase::Staged
                && event is Registered) && !(old(self).phase == UploadPhase::SingleShot
                && event is ObjectStored) && !(old(self).phase == UploadPhase::Opening
                && event is SessionOpened) && !(old(self).phase == UploadPhase::PartLoop
                && event is PartStored) && !(old(self).phase == UploadPhase::Completing
                && event is UploadCompleted)) ==> {
                &&& final(self).phase == UploadPhase::Failed
                &&& r.action == (UploadAction::Abandon {
                    error: AppErrorType::InternalServerError,
                })
            },
    {
        match self.phase {
            UploadPhase::Done | UploadPhase::Failed => {
                return UploadStep { action: UploadAction::Idle, publish: None };
            },
            _ => {},
        }
        match event {
            UploadEvent::StepFailed { error } => {
                let r = self.fail(error);
                proof {
                    assert(self.wf());
                }
                r
            },
            UploadEvent::Staged { total_bytes } => {
                if self.phase != UploadPhase::Received {
                    return self.fail(AppErrorType::InternalServerError);
                }
                self.total_bytes = total_bytes;
                let q = total_bytes / self.part_size;
                let r = total_bytes % self.part_size;
                if total_bytes >= self.part_size && (q > MAX_PART_NUMBER || (q == MAX_PART_NUMBER
                    && r > 0)) {
                    return self.fail(AppErrorType::ToLarge);
                }
                self.phase = UploadPhase::Staged;
                proof {
                    assert(self.wf());
                }
                UploadStep { action: UploadAction::Register { total_bytes }, publish: None }
            },
            UploadEvent::Registered => {
                if self.phase != UploadPhase::Staged {
                    return self.fail(AppErrorType::InternalServerError);
                }
                if self.total_bytes < self.part_size {
                    self.phase = UploadPhase::SingleShot;
                    proof {
                        assert(self.wf());
                    }
                    UploadStep {
                        action: UploadAction::PutObject { total_bytes: self.total_bytes },
                        publish: None,
                    }
                } else {
                    self.phase = UploadPhase::Opening;
                    proof {
                        assert(self.wf());
                    }
                    UploadStep { action: UploadAction::OpenSession, publish: None }
                }
            },
            UploadEvent::ObjectStored => {
                if self.phase != UploadPhase::SingleShot {
                    return self.fail(AppErrorType::InternalServerError);
                }
                self.uploaded = self.total_bytes;
                self.phase = UploadPhase::Done;
                proof {
                    assert(self.wf());
                }
                UploadStep { action: UploadAction::Finish, publish: Some(self.total_bytes) }
            },
            UploadEvent::SessionOpened { upload_id } => {
                if self.phase != UploadPhase::Opening {
                    return self.fail(AppErrorType::InternalServerError);
                }
                match upload_id {
                    None => self.fail(AppErrorType::UploadFaild),
                    Some(id) => {
                        proof {
                            lemma_uploaded_bounded(
                                self.total_bytes as nat,
                                self.part_size as nat,
                                0,
                            );
                            assert(self.total_bytes / self.part_size >= 1) by (nonlinear_arith)
                                requires
                                    self.total_bytes >= self.part_size,
                                    self.part_size > 0,
                            ;
                        }
                        self.upload_id = id;
                        self.phase = UploadPhase::PartLoop;
                        let size = self.next_part_size();
                        proof {
                            assert(self.wf());
                        }
                        UploadStep {
                            action: UploadAction::UploadPart { part_number: 1, size },
                            publish: None,
                        }
                    },
                }
            },
            UploadEvent::PartStored { e_tag } => {
                if self.phase != UploadPhase::PartLoop {
                    return self.fail(AppErrorType::InternalServerError);
                }
                match e_tag {
                    None => self.fail(AppErrorType::UploadFaild),
                    Some(tag) => {
                        let ghost n = self.parts@.len();
                        proof {
                            reveal(stores_part);
                            lemma_uploaded_step(self.total_bytes as nat, self.part_size as nat, n);
                        }
                        let size = self.next_part_size();
                        let number = (self.parts.len() + 1) as i32;
                        self.parts.push(CompletedPart { part_number: number, e_tag: tag });
                        self.uploaded = self.uploaded + size;
                        proof {
                            assert(self.parts@.drop_last() =~= old(self).parts@);
                            assert forall|i: int| 0 <= i < self.parts@.len() implies #[trigger] self.parts@[i].part_number
                                == i + 1 by {
                                if i < n {
                                    assert(self.parts@[i] == old(self).parts@[i]);
                                }
                            }
                            lemma_uploaded_bounded(
                                self.total_bytes as nat,
                                self.part_size as nat,
                                n + 1,
                            );
                        }
                        if (self.parts.len() as u64) < self.part_count_exec() {
                            proof {
                                lemma_uploaded_below(
                                    self.total_bytes as nat,
                                    self.part_size as nat,
                                    n + 1,
                                );
                            }
                            let next = self.next_part_size();
                            proof {
                                assert(self.wf());
                            }
                            UploadStep {
                                action: UploadAction::UploadPart {
                                    part_number: (self.parts.len() + 1) as i32,
                                    size: next,
                                },
                                publish: Some(self.uploaded),
                            }
                        } else {
                            self.phase = UploadPhase::Completing;
                            proof {
                                assert(self.wf());
                            }
                            UploadStep { action: UploadAction::Complete, publish: Some(self.uploaded) }
                        }
                    },
                }
            },
            UploadEvent::UploadCompleted => {
                if self.phase != UploadPhase::Completing {
                    return self.fail(AppErrorType::InternalServerError);
                }
                proof {
                    lemma_uploaded_bounded(
                        self.total_bytes as nat,
                        self.part_size as nat,
                        self.parts@.len(),
                    );
                }
                self.phase = UploadPhase::Done;
                proof {
                    assert(self.wf());
                }
                UploadStep { action: UploadAction::Finish, publish: None }
            },
        }
    }

    /// The parts handed to the finalize call are numbered 1 to the part
    /// count, with no gap or repeat, in that order, in every state that
    /// finalizes or has finalized a multipart upload.
    pub proof fn lemma_parts_in_order(&self)
        requires
            self.wf(),
            self.phase == UploadPhase::Completing || (self.phase == UploadPhase::Done
                && !self.spec_single_shot()),
        ensures
            self.parts@.len() == self.spec_part_count(),
            self.spec_part_count() >= 1,
            forall|i: int|
                0 <= i < self.parts@.len() ==> #[trigger] self.parts@[i].part_number == i + 1,
    {
        crate::parts::lemma_part_plan(self.total_bytes as nat, self.part_size as nat);
    }

    /// Once every part is stored, or the single put is done, the running
    /// total, which is the last value published, equals the payload size.
    pub proof fn lemma_completed_publishes_total(&self)
        requires
            self.wf(),
            self.phase == UploadPhase::Completing || self.phase == UploadPhase::Done,
        ensures
            self.uploaded == self.total_bytes,
    {
        lemma_uploaded_bounded(
            self.total_bytes as nat,
            self.part_size as nat,
            self.parts@.len(),
        );
    }

    /// Before the last part is stored, the running total is below a non-empty
    /// payload: an upload that fails there has published no full-completion
    /// value.
    pub proof fn lemma_unfinished_below_total(&self)
        requires
            self.wf(),
            self.total_bytes > 0,
            self.phase != UploadPhase::Completing,
            self.phase != UploadPhase::Done,
            self.phase != UploadPhase::Failed,
        ensures
            self.uploaded < self.total_bytes,
    {
        if self.phase == UploadPhase::PartLoop {
            lemma_uploaded_below(
                self.total_bytes as nat,
                self.part_size as nat,
                self.parts@.len(),
            );
        }
    }

    /// Number of parts of a multipart payload that fits the part numbering.
    fn part_count_exec(&self) -> (r: u64)
        requires
            self.part_size > 0,
            !self.too_many_parts(),
            !self.spec_single_shot(),
        ensures
            r == self.spec_part_count(),
    {
        let q = self.total_bytes / self.part_size;
        if self.total_bytes % self.part_size > 0 {
            q + 1
        } else {
            q
        }
    }
}

/// The facts that hold after the first `i` parts of a multipart run.
proof fn lemma_run_prefix(
    ms: Seq<UploadMachine>,
    tags: Seq<Seq<char>>,
    steps: Seq<UploadStep>,
    i: int,
)
    requires
        ms.len() == tags.len() + 1,
        steps.len() == tags.len(),
        ms[0].wf(),
        ms[0].phase == UploadPhase::PartLoop,
        ms[0].parts@.len() == 0,
        forall|j: int|
            0 <= j < tags.len() ==> (#[trigger] ms[j]).phase == UploadPhase::PartLoop
                && stores_part(ms[j], tags[j], ms[j + 1], steps[j]),
        0 <= i <= tags.len(),
    ensures
        ms[i].wf(),
        ms[i].total_bytes == ms[0].total_bytes,
        ms[i].part_size == ms[0].part_size,
        ms[i].upload_id == ms[0].upload_id,
        ms[i].parts@.len() == i,
        ms[i].uploaded == uploaded_after(ms[0].total_bytes as nat, ms[0].part_size as nat, i as nat),
        forall|j: int|
            0 <= j < i ==> (#[trigger] ms[i].parts@[j]).part_number == j + 1 && ms[i].parts@[j].e_tag@
                == tags[j],
    decreases i,
{
    reveal(stores_part);
    if i > 0 {
        lemma_run_prefix(ms, tags, steps, i - 1);
        let prev = ms[i - 1];
        assert(prev.phase == UploadPhase::PartLoop && stores_part(prev, tags[i - 1], ms[i], steps[i - 1]));
        lemma_uploaded_step(prev.total_bytes as nat, prev.part_size as nat, (i - 1) as nat);
        assert forall|j: int| 0 <= j < i implies (#[trigger] ms[i].parts@[j]).part_number == j + 1
            && ms[i].parts@[j].e_tag@ == tags[j] by {
            if j < i - 1 {
                assert(ms[i].parts@[j] == ms[i].parts@.drop_last()[j]);
            }
        }
    }
}

/// A multipart upload whose every part is stored: from the opened session to
/// the finalize request it stores exactly `ceil(total / part_size)` parts,
/// numbered 1 to that count in order, each with the token the backend gave
/// for it; each request asks for the next number with the planned size (the
/// part size, then the remainder or a full part last); the published totals
/// rise strictly, one per part, and the last one is the payload size.
pub proof fn lemma_multipart_run(
    ms: Seq<UploadMachine>,
    tags: Seq<Seq<char>>,
    steps: Seq<UploadStep>,
)
    requires
        ms.len() == tags.len() + 1,
        steps.len() == tags.len(),
        ms[0].wf(),
        ms[0].phase == UploadPhase::PartLoop,
        ms[0].parts@.len() == 0,
        forall|j: int|
            0 <= j < tags.len() ==> (#[trigger] ms[j]).phase == UploadPhase::PartLoop
                && stores_part(ms[j], tags[j], ms[j + 1], steps[j]),
        ms.last().phase == UploadPhase::Completing,
    ensures
        tags.len() == ms[0].spec_part_count(),
        tags.len() == (ms[0].total_bytes + ms[0].part_size - 1) / ms[0].part_size as int,
        ms.last().upload_id == ms[0].upload_id,
        forall|j: int|
            0 <= j < tags.len() ==> (#[trigger] ms.last().parts@[j]).part_number == j + 1
                && ms.last().parts@[j].e_tag@ == tags[j],
        forall|j: int|
            0 <= j < tags.len() - 1 ==> (#[trigger] steps[j]).action == (UploadAction::UploadPart {
                part_number: (j + 2) as i32,
                size: ms[0].spec_part_size((j + 1) as nat) as u64,
            }),
        steps.last().action == UploadAction::Complete,
        forall|j: int|
            0 <= j < tags.len() ==> (#[trigger] steps[j]).publish == Some(
                uploaded_after(ms[0].total_bytes as nat, ms[0].part_size as nat, (j + 1) as nat)
                    as u64,
            ),
        forall|a: int, b: int|
            0 <= a < b < tags.len() ==> (#[trigger] steps[a]).publish->0 < (
            #[trigger] steps[b]).publish->0,
        steps.last().publish == Some(ms[0].total_bytes),
{
    let k = tags.len() as int;
    let total = ms[0].total_bytes as nat;
    let ps = ms[0].part_size as nat;
    crate::parts::lemma_part_plan(total, ps);
    lemma_run_prefix(ms, tags, steps, k);
    assert(k > 0);
    lemma_run_step(ms, tags, steps, k - 1);
    assert forall|j: int| 0 <= j < k implies #[trigger] steps[j].publish == Some(
        uploaded_after(total, ps, (j + 1) as nat) as u64,
    ) by {
        lemma_run_step(ms, tags, steps, j);
    }
    assert forall|j: int| 0 <= j < k - 1 implies (#[trigger] steps[j]).action == (
    UploadAction::UploadPart {
        part_number: (j + 2) as i32,
        size: ms[0].spec_part_size((j + 1) as nat) as u64,
    }) by {
        lemma_run_step(ms, tags, steps, j);
    }
    assert forall|a: int, b: int| 0 <= a < b < k implies (#[trigger] steps[a]).publish->0 < (
    #[trigger] steps[b]).publish->0 by {
        lemma_run_step(ms, tags, steps, a);
        lemma_run_step(ms, tags, steps, b);
        lemma_uploaded_strict(total, ps, (a + 1) as nat, (b + 1) as nat);
        lemma_uploaded_bounded(total, ps, (a + 1) as nat);
        lemma_uploaded_bounded(total, ps, (b + 1) as nat);
    }
    lemma_uploaded_bounded(total, ps, k as nat);
}

/// What the `j`-th stored part of a multipart run publishes and requests.
proof fn lemma_run_step(
    ms: Seq<UploadMachine>,
    tags: Seq<Seq<char>>,
    steps: Seq<UploadStep>,
    j: int,
)
    requires
        ms.len() == tags.len() + 1,
        steps.len() == tags.len(),
        ms[0].wf(),
        ms[0].phase == UploadPhase::PartLoop,
        ms[0].parts@.len() == 0,
        forall|i: int|
            0 <= i < tags.len() ==> (#[trigger] ms[i]).phase == UploadPhase::PartLoop
                && stores_part(ms[i], tags[i], ms[i + 1], steps[i]),
        ms.last().phase == UploadPhase::Completing,
        0 <= j < tags.len(),
    ensures
        steps[j].publish == Some(
            uploaded_after(ms[0].total_bytes as nat, ms[0].part_size as nat, (j + 1) as nat) as u64,
        ),
        j < tags.len() - 1 ==> steps[j].action == (UploadAction::UploadPart {
            part_number: (j + 2) as i32,
            size: ms[0].spec_part_size((j + 1) as nat) as u64,
        }),
        j == tags.len() - 1 ==> steps[j].action == UploadAction::Complete && (j + 1)
            == ms[0].spec_part_count(),
{
    reveal(stores_part);
    lemma_run_prefix(ms, tags, steps, j + 1);
    assert(ms[j].phase == UploadPhase::PartLoop && stores_part(ms[j], tags[j], ms[j + 1], steps[j]));
    if j < tags.len() - 1 {
        assert(ms[j + 1].phase == UploadPhase::PartLoop);
    } else {
        assert(ms[j + 1] == ms.last());
    }
}

/// The running total rises strictly from one part to any later one.
proof fn lemma_uploaded_strict(total: nat, part_size: nat, a: nat, b: nat)
    requires
        part_size > 0,
        a < b <= part_count(total, part_size),
    ensures
        uploaded_after(total, part_size, a) < uploaded_after(total, part_size, b),
    decreases b - a,
{
    crate::parts::lemma_part_plan(total, part_size);
    lemma_uploaded_step(total, part_size, (b - 1) as nat);
    assert(part_size_at(total, part_size, (b - 1) as nat) > 0);
    if a < b - 1 {
        lemma_uploaded_strict(total, part_size, a, (b - 1) as nat);
    }
}

} // verus!
