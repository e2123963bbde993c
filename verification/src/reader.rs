//! The per-session reader state machine.
//!
//! The host runs one reader loop per session: it blocks on the OS read of
//! the session's duplicated read handle and hands each outcome to
//! `ReaderLoop::step`, which decides what (if anything) to push to the
//! subscriber and when the loop is over. Keeping the decision here means the
//! notification discipline — data in arrival order, exactly one exit per
//! session, nothing after it — is proved, while the host only blocks, reads
//! and forwards.

use vstd::prelude::*;

verus! {

/// What one pass of the host's read loop observed on a session's output:
/// a successful read and the bytes it produced, end of stream (the read
/// returned zero bytes: the child's output side closed, typically because
/// the process exited), or a read error (logged by the host for
/// operability; never surfaced synchronously to any caller).
pub enum ReadOutcome {
    Chunk(Vec<u8>),
    Eof,
    Failed,
}

/// A notification pushed to the subscriber. `Data` carries a chunk of the
/// session's output, decoded lossily (invalid byte sequences become
/// replacement characters, the loop never fails on malformed encoding).
/// `Exit` is emitted exactly once per session termination; its code is
/// absent because end-of-stream detection carries no numeric exit status.
#[derive(Debug)]
pub enum PtyNotification {
    Data { id: u32, data: String },
    Exit { id: u32, code: Option<u32> },
}

impl PtyNotification {
    /// The event channel the host emits this notification on.
    pub fn event_name(&self) -> (r: &'static str)
        ensures
            self is Data ==> r@ == "pty-data"@,
            self is Exit ==> r@ == "pty-exit"@,
    {
        match self {
            PtyNotification::Data { .. } => "pty-data",
            PtyNotification::Exit { .. } => "pty-exit",
        }
    }
}

/// The text that lossy UTF-8 decoding assigns to a byte sequence.
pub uninterp spec fn lossy_decode(bytes: Seq<u8>) -> Seq<char>;

/// Relies on alloc's String::from_utf8_lossy: the decoded text is a function
/// of the input bytes alone — valid UTF-8 decodes as itself and every
/// invalid sequence becomes replacement characters.
#[verifier::external_body]
fn decode_chunk(bytes: &[u8]) -> (r: String)
    ensures
        r@ == lossy_decode(bytes@),
{
    String::from_utf8_lossy(bytes).into_owned()
}

/// The bytes carried by a successful read, empty for the other outcomes.
pub open spec fn chunk_bytes(outcome: ReadOutcome) -> Seq<u8> {
    match outcome {
        ReadOutcome::Chunk(bytes) => bytes@,
        _ => Seq::<u8>::empty(),
    }
}

/// Whether a step taken while `finished` holds emits a data notification
/// for `outcome`: only a running loop does, and only for a successful read
/// that brought bytes.
pub open spec fn emits_data(finished: bool, outcome: ReadOutcome) -> bool {
    !finished && outcome is Chunk && chunk_bytes(outcome).len() > 0
}

/// Whether such a step emits the exit notification: only a running loop
/// does, exactly when the stream ended or the read failed.
pub open spec fn emits_exit(finished: bool, outcome: ReadOutcome) -> bool {
    !finished && !(outcome is Chunk)
}

/// Whether the loop is over after such a step: it stays over once over, and
/// ends exactly when the stream ends or the read fails.
pub open spec fn finished_next(finished: bool, outcome: ReadOutcome) -> bool {
    finished || !(outcome is Chunk)
}

/// Whether a fresh reader loop is over after processing `outcomes` in order.
pub open spec fn finished_after(outcomes: Seq<ReadOutcome>) -> bool
    decreases outcomes.len(),
{
    if outcomes.len() == 0 {
        false
    } else {
        finished_next(finished_after(outcomes.drop_last()), outcomes.last())
    }
}

/// One session's reader: turns read outcomes into notifications, in the
/// order the bytes arrived, and stops at the first end-of-stream or error.
pub struct ReaderLoop {
    id: u32,
    finished: bool,
}

impl ReaderLoop {
    /// The identifier every notification of this reader carries.
    pub closed spec fn session_id(&self) -> u32 {
        self.id
    }

    /// Whether the loop has observed termination and stopped emitting.
    pub closed spec fn is_finished(&self) -> bool {
        self.finished
    }

    /// A fresh reader, started by spawn and bound to one session.
    pub fn new(id: u32) -> (r: Self)
        ensures
            r.session_id() == id,
            !r.is_finished(),
    {
        ReaderLoop { id, finished: false }
    }

    /// Runtime view of `is_finished`: the host's loop exits when this holds.
    pub fn has_finished(&self) -> (r: bool)
        ensures
            r == self.is_finished(),
    {
        self.finished
    }

    /// Process one read outcome: a running loop turns a non-empty chunk into
    /// a data notification carrying the lossily decoded text, and turns
    /// end-of-stream or a read error into the session's single exit
    /// notification (code unknown) while stopping for good; a finished loop
    /// emits nothing, ever.
    pub fn step(&mut self, outcome: ReadOutcome) -> (r: Option<PtyNotification>)
        ensures
            final(self).session_id() == old(self).session_id(),
            final(self).is_finished() == finished_next(old(self).is_finished(), outcome),
            r is Some <==> (emits_data(old(self).is_finished(), outcome) || emits_exit(
                old(self).is_finished(),
                outcome,
            )),
            match r {
                Some(n) => match n {
                    PtyNotification::Data { id, data } => {
                        &&& emits_data(old(self).is_finished(), outcome)
                        &&& id == old(self).session_id()
                        &&& data@ == lossy_decode(chunk_bytes(outcome))
                    },
                    PtyNotification::Exit { id, code } => {
                        &&& emits_exit(old(self).is_finished(), outcome)
                        &&& id == old(self).session_id()
                        &&& code is None
                    },
                },
                None => true,
            },
    {
        if self.finished {
            return None;
        }
        match outcome {
            ReadOutcome::Chunk(bytes) => {
                if bytes.len() == 0 {
                    None
                } else {
                    let data = decode_chunk(bytes.as_slice());
                    Some(PtyNotification::Data { id: self.id, data })
                }
            },
            ReadOutcome::Eof | ReadOutcome::Failed => {
                self.finished = true;
                Some(PtyNotification::Exit { id: self.id, code: None })
            },
        }
    }
}

/// Once the reader has stopped, it stays stopped: no later outcome restarts
/// it.
pub proof fn lemma_finished_monotone(outcomes: Seq<ReadOutcome>, i: int, j: int)
    requires
        0 <= i <= j <= outcomes.len(),
        finished_after(outcomes.take(i)),
    ensures
        finished_after(outcomes.take(j)),
    decreases j - i,
{
    if i < j {
        lemma_finished_monotone(outcomes, i, j - 1);
        assert(outcomes.take(j).drop_last() =~= outcomes.take(j - 1));
    }
}

/// While only successful reads have been processed, the reader is still
/// running.
pub proof fn lemma_running_while_chunks(outcomes: Seq<ReadOutcome>, i: int)
    requires
        0 <= i <= outcomes.len(),
        forall|j: int| 0 <= j < i ==> outcomes[j] is Chunk,
    ensures
        !finished_after(outcomes.take(i)),
    decreases i,
{
    if i > 0 {
        lemma_running_while_chunks(outcomes, i - 1);
        assert(outcomes.take(i).drop_last() =~= outcomes.take(i - 1));
        assert(outcomes.take(i).last() == outcomes[i - 1]);
    }
}

/// Law (never zero exits on termination): the first end-of-stream or read
/// error a session's reader observes emits the exit notification. Together
/// with `lemma_exit_is_final`, every terminating trace emits exactly one
/// exit — never zero, never two.
pub proof fn lemma_first_termination_emits_exit(outcomes: Seq<ReadOutcome>, i: int)
    requires
        0 <= i < outcomes.len(),
        !(outcomes[i] is Chunk),
        forall|j: int| 0 <= j < i ==> outcomes[j] is Chunk,
    ensures
        emits_exit(finished_after(outcomes.take(i)), outcomes[i]),
{
    lemma_running_while_chunks(outcomes, i);
}

/// Law (one exit, nothing after it): for any session, at most one exit
/// notification is ever emitted, and no data notification follows it — a
/// step that emits exit silences every later step of that session's reader.
pub proof fn lemma_exit_is_final(outcomes: Seq<ReadOutcome>, i: int, j: int)
    requires
        0 <= i < j < outcomes.len(),
        emits_exit(finished_after(outcomes.take(i)), outcomes[i]),
    ensures
        !emits_exit(finished_after(outcomes.take(j)), outcomes[j]),
        !emits_data(finished_after(outcomes.take(j)), outcomes[j]),
{
    assert(outcomes.take(i + 1).drop_last() =~= outcomes.take(i));
    assert(outcomes.take(i + 1).last() == outcomes[i]);
    assert(finished_after(outcomes.take(i + 1)));
    lemma_finished_monotone(outcomes, i + 1, j);
}

} // verus!
