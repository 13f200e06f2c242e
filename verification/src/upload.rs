use vstd::prelude::*;

use crate::errors::TransferError;

verus! {

/// Part size for primary media files: 512 KiB.
pub const PART_SIZE_PRIMARY: u64 = 524288;

/// Part size for small auxiliary assets such as thumbnails: 128 KiB.
pub const PART_SIZE_AUX: u64 = 131072;

/// Above this size the persistent-session path is taken: 48 MiB.
pub const SIMPLE_UPLOAD_LIMIT: u64 = 50331648;

/// Reconnect budget of one upload.
pub const MAX_RECONNECTS: u32 = 3;

/// What is being uploaded; it fixes the part size.
#[derive(Clone, Copy, Debug, PartialEq, Eq, Structural)]
pub enum FileKind {
    Primary,
    Auxiliary,
}

/// Number of fixed-size parts needed to cover `size` bytes.
pub open spec fn spec_parts_of(size: nat, part: nat) -> nat
    recommends
        part > 0,
{
    ((size + part - 1) / part as int) as nat
}

/// Splitting a file into fixed-size parts: the count of parts that
/// together cover the whole file, the last one possibly short.
pub fn total_parts(size: u64, part: u64) -> (n: u64)
    requires
        part > 0,
        size <= u64::MAX - part,
    ensures
        n == spec_parts_of(size as nat, part as nat),
        size > 0 ==> n >= 1,
        size == 0 ==> n == 0,
{
    let n: u64 = (size + part - 1) / part;
    proof {
        assert(size > 0 ==> (size + part - 1) as int / part as int >= 1) by (nonlinear_arith)
            requires
                part > 0,
        ;
        assert(size == 0 ==> (size + part - 1) as int / part as int == 0) by (nonlinear_arith)
            requires
                part > 0,
        ;
    }
    n
}

/// The part size used for `kind`.
pub open spec fn spec_part_size(kind: FileKind) -> u64 {
    if kind is Auxiliary {
        PART_SIZE_AUX
    } else {
        PART_SIZE_PRIMARY
    }
}

/// The part size used for `kind`.
pub fn part_size_for(kind: FileKind) -> (s: u64)
    ensures
        s == spec_part_size(kind),
{
    match kind {
        FileKind::Auxiliary => PART_SIZE_AUX,
        FileKind::Primary => PART_SIZE_PRIMARY,
    }
}

/// Whether a file takes the single-part fast path, bypassing the
/// multi-part protocol.
pub fn single_part_fast_path(file_size: u64) -> (b: bool)
    ensures
        b == (file_size <= PART_SIZE_PRIMARY),
{
    file_size <= PART_SIZE_PRIMARY
}

/// Whether a file is sent over the persistent-session path rather than
/// the simple HTTP upload path.
pub fn use_persistent_session(file_size: u64) -> (b: bool)
    ensures
        b == (file_size > SIMPLE_UPLOAD_LIMIT),
{
    file_size > SIMPLE_UPLOAD_LIMIT
}

/// One upload attempt's session: a random token, the part count and the
/// part size. It lives for one attempt only; a reconnect replaces it.
pub struct UploadSession {
    pub file_id: i64,
    pub total_parts: u64,
    pub part_size: u64,
}

impl UploadSession {
    /// The session describes `file_size` bytes of `kind`.
    pub open spec fn wf(self, file_size: u64, kind: FileKind) -> bool {
        &&& self.part_size == spec_part_size(kind)
        &&& self.total_parts == spec_parts_of(file_size as nat, self.part_size as nat)
    }

    /// Start a session for one attempt with the given token: part
    /// numbering begins at 0 and the part count covers the whole file.
    pub fn begin(file_size: u64, kind: FileKind, token: i64) -> (s: Self)
        requires
            file_size <= u64::MAX - PART_SIZE_PRIMARY,
        ensures
            s.wf(file_size, kind),
            s.file_id == token,
            file_size > 0 ==> s.total_parts >= 1,
    {
        let part_size = part_size_for(kind);
        let total_parts = total_parts(file_size, part_size);
        UploadSession { file_id: token, total_parts, part_size }
    }
}

/// Relies on rand::random: draws one 64-bit session token from the
/// thread-local generator. Nothing is assumed of the value.
#[verifier::external_body]
fn random_token() -> i64 {
    rand::random()
}

/// Start a session for one attempt under a freshly drawn random token.
pub fn fresh_session(file_size: u64, kind: FileKind) -> (s: UploadSession)
    requires
        file_size <= u64::MAX - PART_SIZE_PRIMARY,
    ensures
        s.wf(file_size, kind),
        file_size > 0 ==> s.total_parts >= 1,
{
    let token = random_token();
    UploadSession::begin(file_size, kind, token)
}

/// Where one upload stands.
#[derive(Debug, PartialEq, Eq, Structural)]
pub enum UploadPhase {
    /// Sending part `next_part` of the current session.
    Uploading { next_part: u64 },
    /// The session was torn down after a connection loss; a new one is
    /// being established.
    Reconnecting,
    /// Every part was acknowledged; the composed message is being sent.
    Sent,
    /// The message went out.
    Completed,
    /// The retry budget is exhausted or the error class forbids a retry.
    Failed(TransferError),
}

/// The full state of one resilient upload.
pub struct UploadState {
    pub file_size: u64,
    pub kind: FileKind,
    pub session: UploadSession,
    pub phase: UploadPhase,
    pub reconnects: u32,
}

/// What the outside world reported back for the last action.
#[derive(Debug, PartialEq, Eq, Structural)]
pub enum UploadEvent {
    /// The current part was acknowledged.
    PartAcked,
    /// The platform rejected the part outright.
    PartRejected,
    /// A connection-loss-class error (reset, zero-byte read, stale
    /// session).
    ConnectionLost,
    /// Any other error; it propagates at once without a reconnect.
    OtherError(TransferError),
    /// The session was re-established; part numbering restarts at 0
    /// under the supplied fresh token.
    ReconnectDone,
    /// The session could not be re-established.
    ReconnectFailed,
    /// The composed media message was accepted.
    MessageSent,
}

impl UploadState {
    pub open spec fn wf(self) -> bool {
        &&& self.session.wf(self.file_size, self.kind)
        &&& self.session.total_parts >= 1
        &&& self.reconnects <= MAX_RECONNECTS
        &&& match self.phase {
            UploadPhase::Uploading { next_part } => next_part < self.session.total_parts,
            _ => true,
        }
    }

    /// Begin uploading a non-empty file.
    pub fn start(file_size: u64, kind: FileKind, token: i64) -> (st: Self)
        requires
            0 < file_size <= u64::MAX - PART_SIZE_PRIMARY,
        ensures
            st.wf(),
            st.file_size == file_size,
            st.kind == kind,
            st.phase == (UploadPhase::Uploading { next_part: 0u64 }),
            st.session.file_id == token,
            st.reconnects == 0,
    {
        let session = UploadSession::begin(file_size, kind, token);
        UploadState {
            file_size,
            kind,
            session,
            phase: UploadPhase::Uploading { next_part: 0 },
            reconnects: 0,
        }
    }

    /// One transition of the resilient upload: advance on an
    /// acknowledgement, enter the reconnect procedure on connection
    /// loss while budget remains, restart numbering at 0 under
    /// `fresh_token` when the reconnect is done, and fail at once on
    /// any other error.
    pub fn step(&mut self, event: UploadEvent, fresh_token: i64)
        requires
            old(self).wf(),
            !(old(self).phase is Completed),
            !(old(self).phase is Failed),
        ensures
            final (self).wf(),
            final (self).file_size == old(self).file_size,
            final (self).kind == old(self).kind,
            final (self).session.total_parts == old(self).session.total_parts,
            final (self).session.part_size == old(self).session.part_size,
            // Acknowledged part: move on, or hand over to the final send.
            (match old(self).phase {
                UploadPhase::Uploading { next_part } => event == UploadEvent::PartAcked ==> {
                    &&& final (self).session == old(self).session
                    &&& final (self).reconnects == old(self).reconnects
                    &&& if next_part + 1 < old(self).session.total_parts {
                        final (self).phase == (UploadPhase::Uploading { next_part: (next_part + 1) as u64 })
                    } else {
                        final (self).phase is Sent
                    }
                },
                _ => true,
            }),
            // Connection loss: reconnect while the budget lasts.
            (old(self).phase is Uploading && event == UploadEvent::ConnectionLost ==> {
                &&& final (self).session == old(self).session
                &&& if old(self).reconnects < MAX_RECONNECTS {
                    final (self).phase is Reconnecting && final (self).reconnects == old(self).reconnects + 1
                } else {
                    final (self).phase == UploadPhase::Failed(TransferError::ConnectionLoss)
                        && final (self).reconnects == old(self).reconnects
                }
            }),
            // A rejected part is a permanent rejection.
            (old(self).phase is Uploading && event == UploadEvent::PartRejected ==> final (self).phase == UploadPhase::Failed(TransferError::PermanentRejection)),
            // Any other error propagates immediately, without a reconnect.
            (forall|e: TransferError|
                event == UploadEvent::OtherError(e) ==> final (self).phase == UploadPhase::Failed(
                    e,
                ) && final (self).reconnects == old(self).reconnects),
            // Reconnect done: a fresh token, numbering restarts at 0.
            (old(self).phase is Reconnecting && event == UploadEvent::ReconnectDone ==> {
                &&& final (self).phase == (UploadPhase::Uploading { next_part: 0u64 })
                &&& final (self).session.file_id == fresh_token
                &&& final (self).reconnects == old(self).reconnects
            }),
            // Reconnect failed: spend budget or give up.
            (old(self).phase is Reconnecting && event == UploadEvent::ReconnectFailed ==> {
                &&& final (self).session == old(self).session
                &&& if old(self).reconnects < MAX_RECONNECTS {
                    final (self).phase is Reconnecting && final (self).reconnects == old(self).reconnects + 1
                } else {
                    final (self).phase == UploadPhase::Failed(TransferError::ConnectionLoss)
                        && final (self).reconnects == old(self).reconnects
                }
            }),
            // The composed message went out: the upload is complete.
            (old(self).phase is Sent && event == UploadEvent::MessageSent ==> final (self).phase
                is Completed && final (self).session == old(self).session && final (
            self).reconnects == old(self).reconnects),
            // An event that does not apply to the phase changes nothing.
            (old(self).phase is Uploading && (event is ReconnectDone || event is ReconnectFailed
                || event is MessageSent) ==> *final (self) == *old(self)),
            (old(self).phase is Reconnecting && (event is PartAcked || event is PartRejected
                || event is ConnectionLost || event is MessageSent) ==> *final (self) == *old(self)),
            (old(self).phase is Sent && (event is PartAcked || event is PartRejected || event
                is ConnectionLost || event is ReconnectDone || event is ReconnectFailed) ==> *final (
            self) == *old(self)),
    {
        match self.phase {
            UploadPhase::Uploading { next_part } => {
                match event {
                    UploadEvent::PartAcked => {
                        if next_part + 1 < self.session.total_parts {
                            self.phase = UploadPhase::Uploading { next_part: next_part + 1 };
                        } else {
                            self.phase = UploadPhase::Sent;
                        }
                    },
                    UploadEvent::ConnectionLost => {
                        if self.reconnects < MAX_RECONNECTS {
                            self.reconnects = self.reconnects + 1;
                            self.phase = UploadPhase::Reconnecting;
                        } else {
                            self.phase = UploadPhase::Failed(TransferError::ConnectionLoss);
                        }
                    },
                    UploadEvent::PartRejected => {
                        self.phase = UploadPhase::Failed(TransferError::PermanentRejection);
                    },
                    UploadEvent::OtherError(e) => {
                        self.phase = UploadPhase::Failed(e);
                    },
                    _ => {},
                }
            },
            UploadPhase::Reconnecting => {
                match event {
                    UploadEvent::ReconnectDone => {
                        self.session = UploadSession {
                            file_id: fresh_token,
                            total_parts: self.session.total_parts,
                            part_size: self.session.part_size,
                        };
                        self.phase = UploadPhase::Uploading { next_part: 0 };
                    },
                    UploadEvent::ReconnectFailed => {
                        if self.reconnects < MAX_RECONNECTS {
                            self.reconnects = self.reconnects + 1;
                        } else {
                            self.phase = UploadPhase::Failed(TransferError::ConnectionLoss);
                        }
                    },
                    UploadEvent::OtherError(e) => {
                        self.phase = UploadPhase::Failed(e);
                    },
                    _ => {},
                }
            },
            UploadPhase::Sent => {
                match event {
                    UploadEvent::MessageSent => {
                        self.phase = UploadPhase::Completed;
                    },
                    UploadEvent::OtherError(e) => {
                        self.phase = UploadPhase::Failed(e);
                    },
                    _ => {},
                }
            },
            _ => {},
        }
    }
}

/// One acknowledged part-upload call of a replay: the session token
/// that carried it and the part number it bore.
#[derive(Clone, Copy, Debug, PartialEq, Eq, Structural)]
pub struct SentPart {
    pub file_id: i64,
    pub part: u64,
}

/// What a replayed upload did end to end.
pub struct UploadTranscript {
    pub sent: Vec<SentPart>,
    pub reconnects: u32,
    pub file_id: i64,
    pub total_parts: u64,
}

/// Loop rank of a phase, for termination of the replay.
pub open spec fn spec_phase_rank(phase: UploadPhase, parts: u64) -> int {
    match phase {
        UploadPhase::Reconnecting => 3 + parts,
        UploadPhase::Uploading { next_part } => 2 + parts - next_part,
        UploadPhase::Sent => 1,
        UploadPhase::Completed => 0,
        UploadPhase::Failed(_) => 0,
    }
}

/// Replay one resilient upload through its state machine, injecting at
/// most one connection loss just before part `loss_at` is acknowledged.
///
/// A lost connection causes exactly one reconnect: the session token is
/// regenerated (`retry_token`), numbering restarts at part 0, and every
/// part is sent again, so the transcript shows the parts acknowledged
/// before the loss under the first token and then the full run of parts
/// 0 up to the last under the fresh one.
pub fn replay_upload(
    file_size: u64,
    kind: FileKind,
    first_token: i64,
    retry_token: i64,
    loss_at: Option<u64>,
) -> (t: UploadTranscript)
    requires
        0 < file_size <= u64::MAX - PART_SIZE_PRIMARY,
        match loss_at {
            Some(p) => p < spec_parts_of(file_size as nat, spec_part_size(kind) as nat),
            None => true,
        },
        spec_parts_of(file_size as nat, spec_part_size(kind) as nat) <= u64::MAX - 1,
    ensures
        t.total_parts == spec_parts_of(file_size as nat, spec_part_size(kind) as nat),
        match loss_at {
            None => {
                &&& t.reconnects == 0
                &&& t.file_id == first_token
                &&& t.sent@.len() == t.total_parts
                &&& forall|i: int|
                    0 <= i < t.sent@.len() ==> t.sent@[i] == (SentPart {
                        file_id: first_token,
                        part: i as u64,
                    })
            },
            Some(p) => {
                &&& t.reconnects == 1
                &&& t.file_id == retry_token
                &&& t.sent@.len() == p + t.total_parts
                &&& forall|i: int|
                    0 <= i < p ==> t.sent@[i] == (SentPart { file_id: first_token, part: i as u64 })
                &&& forall|i: int|
                    p <= i < t.sent@.len() ==> t.sent@[i] == (SentPart {
                        file_id: retry_token,
                        part: (i - p) as u64,
                    })
            },
        },
{
    let mut st = UploadState::start(file_size, kind, first_token);
    let parts: u64 = st.session.total_parts;
    let mut sent: Vec<SentPart> = Vec::new();
    let mut lost: bool = false;
    loop
        invariant
            st.wf(),
            st.file_size == file_size,
            st.kind == kind,
            parts == st.session.total_parts,
            parts == spec_parts_of(file_size as nat, spec_part_size(kind) as nat),
            parts <= u64::MAX - 1,
            match loss_at {
                Some(p) => p < parts,
                None => true,
            },
            !lost ==> {
                &&& st.reconnects == 0
                &&& st.session.file_id == first_token
                &&& match st.phase {
                    UploadPhase::Uploading { next_part } => {
                        &&& sent@.len() == next_part
                        &&& (loss_at matches Some(p) ==> next_part <= p)
                        &&& forall|i: int|
                            0 <= i < sent@.len() ==> sent@[i] == (SentPart {
                                file_id: first_token,
                                part: i as u64,
                            })
                    },
                    UploadPhase::Sent => {
                        &&& loss_at is None
                        &&& sent@.len() == parts
                        &&& forall|i: int|
                            0 <= i < sent@.len() ==> sent@[i] == (SentPart {
                                file_id: first_token,
                                part: i as u64,
                            })
                    },
                    _ => false,
                }
            },
            lost ==> {
                &&& loss_at is Some
                &&& st.reconnects == 1
                &&& {
                    let p = loss_at->0;
                    &&& forall|i: int|
                        0 <= i < p && i < sent@.len() ==> sent@[i] == (SentPart {
                            file_id: first_token,
                            part: i as u64,
                        })
                    &&& forall|i: int|
                        p <= i < sent@.len() ==> sent@[i] == (SentPart {
                            file_id: retry_token,
                            part: (i - p) as u64,
                        })
                    &&& match st.phase {
                        UploadPhase::Reconnecting => sent@.len() == p,
                        UploadPhase::Uploading { next_part } => {
                            &&& st.session.file_id == retry_token
                            &&& sent@.len() == p + next_part
                        },
                        UploadPhase::Sent => st.session.file_id == retry_token && sent@.len()
                            == p + parts,
                        _ => false,
                    }
                }
            },
        decreases
            (if !lost && loss_at is Some { 1int } else { 0int }),
            spec_phase_rank(st.phase, parts),
    {
        let mut event: UploadEvent = UploadEvent::PartAcked;
        let mut inject: bool = false;
        let mut record: Option<u64> = None;
        match &st.phase {
            UploadPhase::Uploading { next_part } => {
                let k: u64 = *next_part;
                let hit = match loss_at {
                    Some(p) => !lost && p == k,
                    None => false,
                };
                if hit {
                    event = UploadEvent::ConnectionLost;
                    inject = true;
                } else {
                    event = UploadEvent::PartAcked;
                    record = Some(k);
                }
            },
            UploadPhase::Reconnecting => {
                event = UploadEvent::ReconnectDone;
            },
            UploadPhase::Sent => {
                event = UploadEvent::MessageSent;
            },
            _ => {},
        }
        if let Some(part) = record {
            sent.push(SentPart { file_id: st.session.file_id, part });
        }
        st.step(event, retry_token);
        if inject {
            lost = true;
        }
        match &st.phase {
            UploadPhase::Completed => {
                let reconnects = st.reconnects;
                let file_id = st.session.file_id;
                return UploadTranscript { sent, reconnects, file_id, total_parts: parts };
            },
            _ => {},
        }
    }
}

/// Which path carries the file to the platform.
#[derive(Clone, Copy, Debug, PartialEq, Eq, Structural)]
pub enum TransferRoute {
    /// The simple HTTP upload path, for files within the platform's
    /// direct-upload limit.
    SimpleUpload,
    /// The persistent-session RPC path, for larger files.
    PersistentSession,
}

/// Route a fetched file: its size picks the upload path, the user's
/// preference picks the audio or the video pipeline.
pub fn plan_transfer(file_size: u64, pref: crate::pool::QualityPreference) -> (r: (
    TransferRoute,
    bool,
))
    ensures
        r.0 == if file_size > SIMPLE_UPLOAD_LIMIT {
            TransferRoute::PersistentSession
        } else {
            TransferRoute::SimpleUpload
        },
        r.1 == (pref is AudioOnly),
{
    let route = if use_persistent_session(file_size) {
        TransferRoute::PersistentSession
    } else {
        TransferRoute::SimpleUpload
    };
    (route, crate::pool::is_audio_preference(pref))
}

/// A failed keep-alive ping proactively triggers the reconnect
/// procedure; a successful one changes nothing.
pub fn keepalive_wants_reconnect(ping_succeeded: bool) -> (b: bool)
    ensures
        b == !ping_succeeded,
{
    !ping_succeeded
}

/// The shared session handle, hot-swapped under a mutual-exclusion
/// lock when a reconnect replaces the session. The generation stamps
/// each handle, so an operation that kept a handle across a suspension
/// point can tell that it went stale and must re-fetch.
pub struct SessionHandle {
    pub generation: u64,
}

impl SessionHandle {
    /// The first handle of a process.
    pub fn new() -> (h: Self)
        ensures
            h.generation == 0,
    {
        SessionHandle { generation: 0 }
    }

    /// The stamp of the current handle.
    pub fn current(&self) -> (g: u64)
        ensures
            g == self.generation,
    {
        self.generation
    }

    /// Atomically replace the handle after a reconnect: every stamp
    /// taken before the swap is stale afterwards.
    pub fn swap(&mut self)
        requires
            old(self).generation < u64::MAX,
        ensures
            final (self).generation == old(self).generation + 1,
    {
        self.generation = self.generation + 1;
    }
}

} // verus!
