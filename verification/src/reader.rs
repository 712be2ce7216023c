//! The streaming responder of one client, as a state machine.
//!
//! A client of a cache miss reads the temporary file behind the
//! downloader: it may read up to the progress that was last published, and
//! waits for the next publication when it has caught up. Reading the file
//! and waiting on the progress channel are the driver's; what to do next is
//! decided here, by [`Reader::step`].

use vstd::prelude::*;

verus! {

/// The room, in bytes, that each read offers: 64 KiB.
pub const READ_CAPACITY: usize = 65536;

/// For how many seconds a reader waits for new progress before it ends the
/// body.
pub const SILENCE_SECS: u64 = 30;

/// Where a reader stands: which answer it is waiting for.
#[derive(Clone, Copy, Debug, PartialEq, Eq)]
pub enum ReaderPhase {
    /// No byte was written when the client arrived: waiting, without limit
    /// of time, for the progress channel to change.
    Checking,
    /// Waiting for the response head to be sent, the temporary file to be
    /// opened and the progress to be looked up.
    Opening,
    /// Waiting for a read of the temporary file.
    Reading,
    /// Caught up: waiting for the progress channel to change.
    Waiting,
    /// The request was refused before any header was sent.
    Refused,
    /// The body has ended.
    Ended,
}

/// What the driver reports back to a reader.
#[derive(Clone, Copy, Debug, PartialEq, Eq)]
pub enum ReaderEvent {
    /// The progress channel has changed, or was looked up: it holds this
    /// value.
    Progress(u64),
    /// The progress channel was closed, or stayed silent for
    /// [`SILENCE_SECS`].
    Silent,
    /// A read has put this many bytes into a chunk of the body.
    Read(usize),
    /// The temporary file could not be opened or read.
    Failed,
}

/// What a reader asks its driver to do next.
#[derive(Clone, Copy, Debug, PartialEq, Eq)]
pub enum ReaderAction {
    /// Wait, without limit of time, for the progress channel to change.
    AwaitFirst,
    /// Send the response head, open the temporary file for reading, and
    /// look up the progress.
    Respond,
    /// Read up to [`READ_CAPACITY`] bytes from the file and yield them as
    /// one chunk of the body.
    Read,
    /// Wait up to [`SILENCE_SECS`] for the progress channel to change.
    Wait,
    /// Answer "not found": the download ended before its first byte.
    Refuse,
    /// End the body.
    Finish,
}

/// The mathematical model of a reader.
pub struct ReaderState {
    pub phase: ReaderPhase,
    /// The declared size of the file.
    pub size: nat,
    /// How many bytes the client has been sent.
    pub read_off: nat,
    /// The progress that the reader last saw.
    pub write_off: nat,
}

/// The state in which a reader begins, when `progress` is what the progress
/// channel holds as the client arrives.
pub open spec fn arrival(size: nat, progress: nat) -> ReaderState {
    ReaderState {
        phase: if progress == 0 {
            ReaderPhase::Checking
        } else {
            ReaderPhase::Opening
        },
        size,
        read_off: 0,
        write_off: progress,
    }
}

/// The action that a state waits to have answered.
pub open spec fn reader_awaited(s: ReaderState) -> ReaderAction {
    match s.phase {
        ReaderPhase::Checking => ReaderAction::AwaitFirst,
        ReaderPhase::Opening => ReaderAction::Respond,
        ReaderPhase::Reading => ReaderAction::Read,
        ReaderPhase::Waiting => ReaderAction::Wait,
        ReaderPhase::Refused => ReaderAction::Refuse,
        ReaderPhase::Ended => ReaderAction::Finish,
    }
}

/// Read while the file holds bytes that the client has not been sent, and
/// wait otherwise.
pub open spec fn resume(s: ReaderState) -> ReaderState {
    ReaderState {
        phase: if s.write_off > s.read_off {
            ReaderPhase::Reading
        } else {
            ReaderPhase::Waiting
        },
        ..s
    }
}

/// The transition function of a reader.
///
/// Before the head is sent, only a change of the progress channel lets the
/// response begin; anything else refuses the request. After that, the body
/// ends when the client has been sent the declared size, when the channel
/// is closed or silent, and on any event that cannot answer the pending
/// action.
pub open spec fn reader_next(s: ReaderState, e: ReaderEvent) -> ReaderState {
    match (s.phase, e) {
        (ReaderPhase::Checking, ReaderEvent::Progress(_)) => ReaderState {
            phase: ReaderPhase::Opening,
            ..s
        },
        (ReaderPhase::Checking, _) => ReaderState { phase: ReaderPhase::Refused, ..s },
        (ReaderPhase::Opening, ReaderEvent::Progress(progress)) => resume(
            ReaderState { write_off: progress as nat, ..s },
        ),
        (ReaderPhase::Reading, ReaderEvent::Read(count)) => if s.read_off + count == s.size {
            ReaderState { phase: ReaderPhase::Ended, read_off: s.read_off + count as nat, ..s }
        } else {
            resume(ReaderState { read_off: s.read_off + count as nat, ..s })
        },
        (ReaderPhase::Waiting, ReaderEvent::Progress(progress)) => resume(
            ReaderState { write_off: progress as nat, ..s },
        ),
        (ReaderPhase::Refused, _) => s,
        _ => ReaderState { phase: ReaderPhase::Ended, ..s },
    }
}

/// The reader of one client.
pub struct Reader {
    phase: ReaderPhase,
    size: u64,
    read_off: u64,
    write_off: u64,
}

impl View for Reader {
    type V = ReaderState;

    closed spec fn view(&self) -> ReaderState {
        ReaderState {
            phase: self.phase,
            size: self.size as nat,
            read_off: self.read_off as nat,
            write_off: self.write_off as nat,
        }
    }
}

impl Reader {
    /// A reader for a file of `size` bytes, for a client that finds
    /// `progress` on the progress channel as it arrives.
    pub fn new(size: u64, progress: u64) -> (r: Reader)
        ensures
            r@ == arrival(size as nat, progress as nat),
    {
        Reader {
            phase: if progress == 0 {
                ReaderPhase::Checking
            } else {
                ReaderPhase::Opening
            },
            size,
            read_off: 0,
            write_off: progress,
        }
    }

    /// The action that the reader is waiting to have answered.
    pub fn awaited(&self) -> (action: ReaderAction)
        ensures
            action == reader_awaited(self@),
    {
        match self.phase {
            ReaderPhase::Checking => ReaderAction::AwaitFirst,
            ReaderPhase::Opening => ReaderAction::Respond,
            ReaderPhase::Reading => ReaderAction::Read,
            ReaderPhase::Waiting => ReaderAction::Wait,
            ReaderPhase::Refused => ReaderAction::Refuse,
            ReaderPhase::Ended => ReaderAction::Finish,
        }
    }

    /// Where the reader stands.
    pub fn phase(&self) -> (phase: ReaderPhase)
        ensures
            phase == self@.phase,
    {
        self.phase
    }

    /// How many bytes the client has been sent.
    pub fn read_off(&self) -> (read_off: u64)
        ensures
            read_off == self@.read_off,
    {
        self.read_off
    }

    /// The progress that the reader last saw.
    pub fn write_off(&self) -> (write_off: u64)
        ensures
            write_off == self@.write_off,
    {
        self.write_off
    }

    fn resume(self) -> (r: Reader)
        requires
            self.phase != ReaderPhase::Refused,
        ensures
            r@ == resume(self@),
    {
        let mut r = self;
        if r.write_off > r.read_off {
            r.phase = ReaderPhase::Reading;
        } else {
            r.phase = ReaderPhase::Waiting;
        }
        r
    }

    /// Take the answer to the awaited action and decide what comes next:
    /// the reader moves as [`reader_next`] says, and the action returned
    /// is the one that it then awaits.
    ///
    /// A read must leave the number of bytes sent within `u64`.
    pub fn step(self, event: ReaderEvent) -> (r: (Reader, ReaderAction))
        requires
            event matches ReaderEvent::Read(count) ==> self@.read_off + count <= u64::MAX,
        ensures
            r.0@ == reader_next(self@, event),
            r.1 == reader_awaited(r.0@),
    {
        let mut r = self;
        let r = match r.phase {
            ReaderPhase::Checking => {
                match event {
                    ReaderEvent::Progress(_) => {
                        r.phase = ReaderPhase::Opening;
                    },
                    _ => {
                        r.phase = ReaderPhase::Refused;
                    },
                }
                r
            },
            ReaderPhase::Opening | ReaderPhase::Waiting => match event {
                ReaderEvent::Progress(progress) => {
                    r.write_off = progress;
                    r.resume()
                },
                _ => {
                    r.phase = ReaderPhase::Ended;
                    r
                },
            },
            ReaderPhase::Reading => match event {
                ReaderEvent::Read(count) => {
                    r.read_off = r.read_off + count as u64;
                    if r.read_off == r.size {
                        r.phase = ReaderPhase::Ended;
                        r
                    } else {
                        r.resume()
                    }
                },
                _ => {
                    r.phase = ReaderPhase::Ended;
                    r
                },
            },
            ReaderPhase::Refused => r,
            ReaderPhase::Ended => r,
        };
        let action = r.awaited();
        (r, action)
    }
}

/// The state that a reader reaches from `s` when the events arrive in
/// order.
pub open spec fn reader_run(s: ReaderState, events: Seq<ReaderEvent>) -> ReaderState
    decreases events.len(),
{
    if events.len() == 0 {
        s
    } else {
        reader_next(reader_run(s, events.drop_last()), events.last())
    }
}

/// A request is refused only before its response has begun: by a reader
/// that found no byte written when its client arrived, and whose wait for
/// the first change was not answered by one.
pub proof fn lemma_refused_before_first_byte(s: ReaderState, e: ReaderEvent)
    requires
        s.phase != ReaderPhase::Refused,
        reader_next(s, e).phase == ReaderPhase::Refused,
    ensures
        s.phase == ReaderPhase::Checking,
        !(e is Progress),
        reader_next(s, e).read_off == s.read_off,
{
}

/// A body ends for one of three reasons: the client has been sent exactly
/// the declared size; the progress channel was closed or silent; or the
/// event could not answer the pending action.
pub proof fn lemma_body_ends(s: ReaderState, e: ReaderEvent)
    requires
        s.phase != ReaderPhase::Ended,
        reader_next(s, e).phase == ReaderPhase::Ended,
    ensures
        s.phase != ReaderPhase::Checking && s.phase != ReaderPhase::Refused,
        ({
            ||| (s.phase == ReaderPhase::Reading && e is Read && reader_next(s, e).read_off
                == s.size)
            ||| (s.phase == ReaderPhase::Waiting && e == ReaderEvent::Silent)
            ||| reader_unanswered(s.phase, e)
        }),
{
}

/// Whether `e` cannot answer the action that a reader awaits in `phase`,
/// once its response has begun.
pub open spec fn reader_unanswered(phase: ReaderPhase, e: ReaderEvent) -> bool {
    match phase {
        ReaderPhase::Opening => !(e is Progress),
        ReaderPhase::Reading => !(e is Read),
        ReaderPhase::Waiting => !(e is Progress) && e != ReaderEvent::Silent,
        _ => false,
    }
}

/// Whatever events arrive, the number of bytes sent to the client never
/// decreases, and the declared size stays what it was.
pub proof fn lemma_read_off_never_decreases(s: ReaderState, events: Seq<ReaderEvent>)
    ensures
        s.read_off <= reader_run(s, events).read_off,
        reader_run(s, events).size == s.size,
    decreases events.len(),
{
    if events.len() > 0 {
        lemma_read_off_never_decreases(s, events.drop_last());
    }
}

/// A reader reads only behind the progress that it last saw: whenever it
/// asks for a read, the file holds bytes that the client has not been sent.
pub proof fn lemma_reads_behind_progress(s: ReaderState, e: ReaderEvent)
    requires
        s.phase == ReaderPhase::Reading ==> s.write_off > s.read_off,
    ensures
        reader_next(s, e).phase == ReaderPhase::Reading ==> reader_next(s, e).write_off
            > reader_next(s, e).read_off,
{
}

} // verus!
