//! The downloader of one cache miss, as a state machine.
//!
//! The downloader fetches a file from a list of upstream sources, writes it
//! to a temporary file, publishes how many bytes are safely written, and in
//! the end verifies the SHA-1 of what it wrote before the file may enter the
//! cache. Everything it waits for (the file system, the network, the
//! subscribers) is outside this library, so it is written as a machine: it
//! hands out an [`Action`], the driver performs it and answers with an
//! [`Event`], and [`Downloader::step`] decides what comes next.
//!
//! [`next`] is the transition function over the mathematical model
//! [`DownloadState`]; the laws of the machine are proved about it in
//! `download_laws`.

use vstd::prelude::*;
use crate::chunk::contents;
use crate::digest::{absorbed, same_digest, sha1_digest};
use crate::info::ContentFileInfo;

verus! {

/// Upstream attempts that one download may make, over all sources together.
pub const RETRY_BUDGET: u8 = 3;

/// Timeout, in seconds, of the HTTP client that bypasses the proxy.
pub const DIRECT_TIMEOUT_SECS: u64 = 30;

/// How a download ended.
#[derive(Clone, Copy, Debug, PartialEq, Eq)]
pub enum Outcome {
    /// The file was verified and handed to the cache.
    Imported,
    /// All bytes arrived but their SHA-1 is not the declared one.
    HashMismatch,
    /// The retry budget ran out, or the temporary file could not be written.
    Abandoned,
}

/// Where the downloader stands: which answer it is waiting for.
#[derive(Clone, Copy, Debug, PartialEq, Eq)]
pub enum Phase {
    /// Waiting for the temporary file to be created and its path published.
    Provisioning,
    /// Waiting for the temporary file to be opened and positioned.
    Opening,
    /// Waiting for the response to a GET.
    Requesting,
    /// Waiting for the next chunk of the response body.
    Streaming,
    /// Waiting for the pending tail to be written.
    Writing,
    /// Waiting for the new progress to be published.
    Publishing,
    /// All bytes are written; waiting for the file to be flushed.
    Flushing,
    /// Waiting for the final progress to be published.
    Announcing,
    /// Waiting for every subscriber to detach, before the registry entry goes.
    Draining,
    /// Waiting for the registry entry to be removed, before the hash is compared.
    Removing,
    /// The hash matched; waiting once more for every subscriber to detach.
    Redraining,
    /// Waiting for the cache to take the file.
    Importing,
    /// Giving up; waiting for the registry entry to be removed.
    Abandoning,
    /// Nothing more to do.
    Finished(Outcome),
}

/// What the driver reports back after performing an [`Action`].
#[derive(Debug, PartialEq, Eq)]
pub enum Event {
    /// The action succeeded.
    Done,
    /// The action failed: an I/O error on the file, a connection error on
    /// the request, or an error in the middle of the response body.
    Failed,
    /// The upstream answered the request with an error status.
    Rejected,
    /// The response body yielded these bytes.
    Chunk(bytes::Bytes),
    /// The response body ended.
    End,
}

/// The model of an [`Event`].
pub enum EventView {
    Done,
    Failed,
    Rejected,
    Chunk(Seq<u8>),
    End,
}

impl View for Event {
    type V = EventView;

    open spec fn view(&self) -> EventView {
        match *self {
            Event::Done => EventView::Done,
            Event::Failed => EventView::Failed,
            Event::Rejected => EventView::Rejected,
            Event::Chunk(bytes) => EventView::Chunk(contents(bytes)),
            Event::End => EventView::End,
        }
    }
}

/// What the downloader asks its driver to do next.
#[derive(Clone, Copy, Debug, PartialEq, Eq)]
pub enum Action {
    /// Create the temporary file and publish its path to the subscribers.
    Provision,
    /// Open the temporary file for writing, creating it if absent and
    /// keeping what it holds, and seek to `offset`.
    OpenAt { offset: u64 },
    /// GET the source with this index. With `direct`, use a client that
    /// bypasses the proxy, with a timeout of [`DIRECT_TIMEOUT_SECS`].
    Request { source: usize, direct: bool },
    /// Take the next chunk of the response body.
    NextChunk,
    /// Write [`Downloader::pending_tail`] at the file's position.
    WriteTail,
    /// Publish `progress` on the progress channel.
    Publish { progress: u64 },
    /// Flush the temporary file.
    Flush,
    /// Wait until every subscriber has dropped its progress receiver.
    AwaitSubscribers,
    /// Remove the download's entry from the registry.
    RemoveEntry,
    /// Hand the temporary file to the cache.
    Import,
    /// Stop: the download is over.
    Stop { outcome: Outcome },
}

/// The model of an [`Action`].
pub enum ActionView {
    Provision,
    OpenAt { offset: nat },
    Request { source: nat, direct: bool },
    NextChunk,
    WriteTail,
    Publish { progress: nat },
    Flush,
    AwaitSubscribers,
    RemoveEntry,
    Import,
    Stop { outcome: Outcome },
}

impl View for Action {
    type V = ActionView;

    open spec fn view(&self) -> ActionView {
        match *self {
            Action::Provision => ActionView::Provision,
            Action::OpenAt { offset } => ActionView::OpenAt { offset: offset as nat },
            Action::Request { source, direct } => ActionView::Request {
                source: source as nat,
                direct,
            },
            Action::NextChunk => ActionView::NextChunk,
            Action::WriteTail => ActionView::WriteTail,
            Action::Publish { progress } => ActionView::Publish { progress: progress as nat },
            Action::Flush => ActionView::Flush,
            Action::AwaitSubscribers => ActionView::AwaitSubscribers,
            Action::RemoveEntry => ActionView::RemoveEntry,
            Action::Import => ActionView::Import,
            Action::Stop { outcome } => ActionView::Stop { outcome },
        }
    }
}

/// The mathematical model of a downloader.
pub struct DownloadState {
    pub phase: Phase,
    /// The declared size of the file.
    pub size: nat,
    /// The declared SHA-1 of the file.
    pub declared: Seq<u8>,
    /// How many upstream sources there are.
    pub sources: nat,
    /// Whether an HTTP proxy is configured.
    pub has_proxy: bool,
    /// The index of the current attempt.
    pub retry: nat,
    /// The index of the source that the current attempt asks.
    pub source: nat,
    /// Whether requests bypass the proxy from now on.
    pub direct: bool,
    /// How many bytes of the current response are still to be passed over,
    /// because an earlier attempt has written them already.
    pub skip: nat,
    /// The bytes written to the temporary file so far; their number is the
    /// progress.
    pub written: Seq<u8>,
    /// The tail of the last chunk, while it waits to be written.
    pub pending: Seq<u8>,
}

impl DownloadState {
    /// The number of bytes safely written.
    pub open spec fn progress(self) -> nat {
        self.written.len()
    }

    /// What holds of every state that a downloader can be in.
    pub open spec fn valid(self) -> bool {
        &&& self.sources > 0
        &&& self.source < self.sources
        &&& self.retry < RETRY_BUDGET
        &&& self.skip <= self.written.len()
        &&& self.declared.len() == 20
        &&& (self.phase != Phase::Writing ==> self.pending.len() == 0)
        &&& (self.phase == Phase::Writing ==> self.pending.len() > 0 && self.skip == 0)
        &&& (closing(self.phase) ==> self.written.len() == self.size)
        &&& (verified(self.phase) ==> sha1_digest(self.written) == self.declared)
        &&& (self.phase == Phase::Finished(Outcome::HashMismatch) ==> sha1_digest(self.written)
            != self.declared)
    }
}

/// The phases in which every byte of the file has been written.
pub open spec fn closing(phase: Phase) -> bool {
    ||| phase == Phase::Flushing
    ||| phase == Phase::Announcing
    ||| phase == Phase::Draining
    ||| phase == Phase::Removing
    ||| phase == Phase::Finished(Outcome::HashMismatch)
    ||| verified(phase)
}

/// The phases in which the written bytes have been found to have the
/// declared SHA-1.
pub open spec fn verified(phase: Phase) -> bool {
    ||| phase == Phase::Redraining
    ||| phase == Phase::Importing
    ||| phase == Phase::Finished(Outcome::Imported)
}

/// The state in which a download begins.
pub open spec fn initial(size: nat, declared: Seq<u8>, sources: nat, has_proxy: bool)
    -> DownloadState {
    DownloadState {
        phase: Phase::Provisioning,
        size,
        declared,
        sources,
        has_proxy,
        retry: 0,
        source: 0,
        direct: false,
        skip: 0,
        written: Seq::empty(),
        pending: Seq::empty(),
    }
}

/// The action that a state waits to have answered.
pub open spec fn awaited(s: DownloadState) -> ActionView {
    match s.phase {
        Phase::Provisioning => ActionView::Provision,
        Phase::Opening => ActionView::OpenAt { offset: s.progress() },
        Phase::Requesting => ActionView::Request { source: s.source, direct: s.direct },
        Phase::Streaming => ActionView::NextChunk,
        Phase::Writing => ActionView::WriteTail,
        Phase::Publishing => ActionView::Publish { progress: s.progress() },
        Phase::Flushing => ActionView::Flush,
        Phase::Announcing => ActionView::Publish { progress: s.progress() },
        Phase::Draining => ActionView::AwaitSubscribers,
        Phase::Removing => ActionView::RemoveEntry,
        Phase::Redraining => ActionView::AwaitSubscribers,
        Phase::Importing => ActionView::Import,
        Phase::Abandoning => ActionView::RemoveEntry,
        Phase::Finished(outcome) => ActionView::Stop { outcome },
    }
}

/// The current attempt is over without the file being complete: begin the
/// next one if the budget allows it, and give up otherwise. What has been
/// written stays, and the next attempt opens the file where this one
/// stopped.
pub open spec fn retry(s: DownloadState) -> DownloadState {
    if s.retry + 1 < RETRY_BUDGET {
        DownloadState { phase: Phase::Opening, retry: s.retry + 1, ..s }
    } else {
        abandon(s)
    }
}

/// Give up: the registry entry has to go.
pub open spec fn abandon(s: DownloadState) -> DownloadState {
    DownloadState { phase: Phase::Abandoning, pending: Seq::empty(), ..s }
}

/// The source after `source` in the cycle over `sources` of them.
pub open spec fn following_source(source: nat, sources: nat) -> nat {
    if source + 1 < sources {
        source + 1
    } else {
        0
    }
}

/// The request has been answered: the next one goes to the following
/// source.
pub open spec fn answered(s: DownloadState) -> DownloadState {
    DownloadState { source: following_source(s.source, s.sources), ..s }
}

/// A chunk of the response body has arrived. As long as the response is
/// still within what an earlier attempt wrote, it is passed over; of the
/// chunk that reaches beyond it, the part beyond is to be written.
pub open spec fn take_chunk(s: DownloadState, bytes: Seq<u8>) -> DownloadState {
    if bytes.len() <= s.skip {
        DownloadState { skip: (s.skip - bytes.len()) as nat, ..s }
    } else {
        DownloadState { phase: Phase::Writing, skip: 0, pending: bytes.skip(s.skip as int), ..s }
    }
}

/// The transition function: the state after `e` has answered the action
/// that `s` was waiting for. The action to perform next is the one that
/// the new state awaits.
///
/// An event that cannot answer the pending action abandons the download.
pub open spec fn next(s: DownloadState, e: EventView) -> DownloadState {
    match (s.phase, e) {
        (Phase::Provisioning, EventView::Done) => DownloadState { phase: Phase::Opening, ..s },
        (Phase::Opening, EventView::Done) => DownloadState { phase: Phase::Requesting, ..s },
        (Phase::Opening, EventView::Failed) => retry(s),
        (Phase::Requesting, EventView::Done) => answered(
            DownloadState { phase: Phase::Streaming, skip: s.progress(), ..s },
        ),
        (Phase::Requesting, EventView::Failed) => retry(
            answered(DownloadState { direct: s.direct || (s.retry == 1 && s.has_proxy), ..s }),
        ),
        (Phase::Requesting, EventView::Rejected) => retry(answered(s)),
        (Phase::Streaming, EventView::Chunk(bytes)) => take_chunk(s, bytes),
        (Phase::Streaming, EventView::Failed) => retry(s),
        (Phase::Streaming, EventView::End) => if s.progress() == s.size {
            DownloadState { phase: Phase::Flushing, ..s }
        } else {
            retry(s)
        },
        (Phase::Writing, EventView::Done) => DownloadState {
            phase: Phase::Publishing,
            written: s.written + s.pending,
            pending: Seq::empty(),
            ..s
        },
        (Phase::Publishing, EventView::Done) => DownloadState { phase: Phase::Streaming, ..s },
        (Phase::Flushing, EventView::Done) => DownloadState { phase: Phase::Announcing, ..s },
        (Phase::Announcing, EventView::Done) => DownloadState { phase: Phase::Draining, ..s },
        (Phase::Draining, EventView::Done) => DownloadState { phase: Phase::Removing, ..s },
        (Phase::Removing, EventView::Done) => if sha1_digest(s.written) == s.declared {
            DownloadState { phase: Phase::Redraining, ..s }
        } else {
            DownloadState { phase: Phase::Finished(Outcome::HashMismatch), ..s }
        },
        (Phase::Redraining, EventView::Done) => DownloadState { phase: Phase::Importing, ..s },
        (Phase::Importing, EventView::Done) => DownloadState {
            phase: Phase::Finished(Outcome::Imported),
            ..s
        },
        (Phase::Abandoning, EventView::Done) => DownloadState {
            phase: Phase::Finished(Outcome::Abandoned),
            ..s
        },
        (Phase::Finished(_), _) => s,
        _ => abandon(s),
    }
}

/// The downloader of one file.
pub struct Downloader {
    phase: Phase,
    size: u64,
    declared: [u8; 20],
    sources: usize,
    has_proxy: bool,
    retry: u8,
    source: usize,
    direct: bool,
    skip: u64,
    progress: u64,
    hasher: openssl::sha::Sha1,
    tail: bytes::Bytes,
}

impl View for Downloader {
    type V = DownloadState;

    /// The bytes written are what the hasher has been fed: each tail is
    /// hashed when its write has succeeded.
    closed spec fn view(&self) -> DownloadState {
        DownloadState {
            phase: self.phase,
            size: self.size as nat,
            declared: self.declared@,
            sources: self.sources as nat,
            has_proxy: self.has_proxy,
            retry: self.retry as nat,
            source: self.source as nat,
            direct: self.direct,
            skip: self.skip as nat,
            written: absorbed(self.hasher),
            pending: contents(self.tail),
        }
    }
}

impl Downloader {
    /// The downloader keeps its counters in step with its model.
    pub closed spec fn wf(&self) -> bool {
        &&& self@.valid()
        &&& self.progress as nat == absorbed(self.hasher).len()
        &&& self.progress + contents(self.tail).len() <= u64::MAX
    }

    /// A downloader for the file that `info` declares, to be fetched from
    /// `sources` upstream sources, of which there is at least one. It
    /// begins by awaiting [`Action::Provision`].
    pub fn new(info: &ContentFileInfo, sources: usize, has_proxy: bool) -> (d: Downloader)
        requires
            sources > 0,
        ensures
            d.wf(),
            d@ == initial(info@.size, info@.hash, sources as nat, has_proxy),
    {
        Downloader {
            phase: Phase::Provisioning,
            size: info.size(),
            declared: info.hash(),
            sources,
            has_proxy,
            retry: 0,
            source: 0,
            direct: false,
            skip: 0,
            progress: 0,
            hasher: openssl::sha::Sha1::new(),
            tail: bytes::Bytes::new(),
        }
    }

    /// The action that the downloader is waiting to have answered.
    pub fn awaited(&self) -> (action: Action)
        requires
            self.wf(),
        ensures
            action@ == awaited(self@),
    {
        match self.phase {
            Phase::Provisioning => Action::Provision,
            Phase::Opening => Action::OpenAt { offset: self.progress },
            Phase::Requesting => Action::Request { source: self.source, direct: self.direct },
            Phase::Streaming => Action::NextChunk,
            Phase::Writing => Action::WriteTail,
            Phase::Publishing => Action::Publish { progress: self.progress },
            Phase::Flushing => Action::Flush,
            Phase::Announcing => Action::Publish { progress: self.progress },
            Phase::Draining => Action::AwaitSubscribers,
            Phase::Removing => Action::RemoveEntry,
            Phase::Redraining => Action::AwaitSubscribers,
            Phase::Importing => Action::Import,
            Phase::Abandoning => Action::RemoveEntry,
            Phase::Finished(outcome) => Action::Stop { outcome },
        }
    }

    /// A well-formed downloader is in a valid state.
    pub proof fn lemma_valid(&self)
        requires
            self.wf(),
        ensures
            self@.valid(),
    {
    }

    /// Where the downloader stands.
    pub fn phase(&self) -> (phase: Phase)
        ensures
            phase == self@.phase,
    {
        self.phase
    }

    /// The number of bytes safely written.
    pub fn progress(&self) -> (progress: u64)
        requires
            self.wf(),
        ensures
            progress == self@.progress(),
    {
        self.progress
    }

    /// The bytes that [`Action::WriteTail`] asks to have written.
    pub fn pending_tail(&self) -> (tail: &[u8])
        ensures
            tail@ == self@.pending,
    {
        self.tail.as_ref()
    }

    fn retry(self) -> (d: Downloader)
        requires
            self.wf(),
            self.phase != Phase::Writing,
            !closing(self.phase),
        ensures
            d.wf(),
            d@ == retry(self@),
    {
        let mut d = self;
        if d.retry + 1 < RETRY_BUDGET {
            d.retry = d.retry + 1;
            d.phase = Phase::Opening;
            d
        } else {
            d.abandon()
        }
    }

    fn abandon(self) -> (d: Downloader)
        requires
            self.wf(),
        ensures
            d.wf(),
            d@ == abandon(self@),
    {
        let mut d = self;
        d.phase = Phase::Abandoning;
        d.tail = bytes::Bytes::new();
        d
    }

    fn answered(self) -> (d: Downloader)
        requires
            self.wf(),
        ensures
            d.wf(),
            d@ == answered(self@),
            d.phase == self.phase,
    {
        let mut d = self;
        if d.source + 1 < d.sources {
            d.source = d.source + 1;
        } else {
            d.source = 0;
        }
        d
    }

    fn take_chunk(self, bytes: bytes::Bytes) -> (d: Downloader)
        requires
            self.wf(),
            self.phase == Phase::Streaming,
            self@.progress() + contents(bytes).len() <= u64::MAX,
        ensures
            d.wf(),
            d@ == take_chunk(self@, contents(bytes)),
    {
        let mut d = self;
        let mut head = bytes;
        if head.len() as u64 <= d.skip {
            d.skip = d.skip - head.len() as u64;
        } else {
            let tail = head.split_off(d.skip as usize);
            d.tail = tail;
            d.skip = 0;
            d.phase = Phase::Writing;
        }
        d
    }

    /// The tail has been written: it is hashed and counted.
    fn commit(self) -> (d: Downloader)
        requires
            self.wf(),
            self.phase == Phase::Writing,
        ensures
            d.wf(),
            d@ == next(self@, EventView::Done),
    {
        let mut d = self;
        d.hasher.update(d.tail.as_ref());
        d.progress = d.progress + d.tail.len() as u64;
        d.tail = bytes::Bytes::new();
        d.phase = Phase::Publishing;
        d
    }

    /// The registry entry is gone: the hash decides.
    fn verify(self) -> (d: Downloader)
        requires
            self.wf(),
            self.phase == Phase::Removing,
        ensures
            d.wf(),
            d@ == next(self@, EventView::Done),
    {
        let mut d = self;
        let digest = d.hasher.clone().finish();
        if same_digest(&digest, &d.declared) {
            d.phase = Phase::Redraining;
        } else {
            d.phase = Phase::Finished(Outcome::HashMismatch);
        }
        d
    }

    fn enter(self, phase: Phase) -> (d: Downloader)
        requires
            self.wf(),
            phase != Phase::Writing,
            self.phase != Phase::Writing,
            closing(phase) ==> closing(self.phase) || (phase == Phase::Flushing
                && self@.progress() == self@.size),
            verified(phase) ==> verified(self.phase),
            phase != Phase::Finished(Outcome::HashMismatch),
        ensures
            d.wf(),
            d@ == (DownloadState { phase, ..self@ }),
    {
        let mut d = self;
        d.phase = phase;
        d
    }

    /// Take the answer to the awaited action and decide what comes next:
    /// the downloader moves as [`next`] says, and the action returned is
    /// the one that it then awaits.
    ///
    /// A chunk must leave the progress within `u64`.
    pub fn step(self, event: Event) -> (r: (Downloader, Action))
        requires
            self.wf(),
            event matches Event::Chunk(bytes) ==> self@.progress() + contents(bytes).len()
                <= u64::MAX,
        ensures
            r.0.wf(),
            r.0@ == next(self@, event@),
            r.1@ == awaited(r.0@),
    {
        let d = match self.phase {
            Phase::Provisioning => match event {
                Event::Done => self.enter(Phase::Opening),
                _ => self.abandon(),
            },
            Phase::Opening => match event {
                Event::Done => self.enter(Phase::Requesting),
                Event::Failed => self.retry(),
                _ => self.abandon(),
            },
            Phase::Requesting => match event {
                Event::Done => {
                    let mut d = self.answered();
                    d.skip = d.progress;
                    d.phase = Phase::Streaming;
                    d
                },
                Event::Failed => {
                    let mut d = self.answered();
                    if d.retry == 1 && d.has_proxy {
                        d.direct = true;
                    }
                    d.retry()
                },
                Event::Rejected => self.answered().retry(),
                _ => self.abandon(),
            },
            Phase::Streaming => match event {
                Event::Chunk(bytes) => self.take_chunk(bytes),
                Event::Failed => self.retry(),
                Event::End => if self.progress == self.size {
                    self.enter(Phase::Flushing)
                } else {
                    self.retry()
                },
                _ => self.abandon(),
            },
            Phase::Writing => match event {
                Event::Done => self.commit(),
                _ => self.abandon(),
            },
            Phase::Publishing => match event {
                Event::Done => self.enter(Phase::Streaming),
                _ => self.abandon(),
            },
            Phase::Flushing => match event {
                Event::Done => self.enter(Phase::Announcing),
                _ => self.abandon(),
            },
            Phase::Announcing => match event {
                Event::Done => self.enter(Phase::Draining),
                _ => self.abandon(),
            },
            Phase::Draining => match event {
                Event::Done => self.enter(Phase::Removing),
                _ => self.abandon(),
            },
            Phase::Removing => match event {
                Event::Done => self.verify(),
                _ => self.abandon(),
            },
            Phase::Redraining => match event {
                Event::Done => self.enter(Phase::Importing),
                _ => self.abandon(),
            },
            Phase::Importing => match event {
                Event::Done => self.enter(Phase::Finished(Outcome::Imported)),
                _ => self.abandon(),
            },
            Phase::Abandoning => match event {
                Event::Done => self.enter(Phase::Finished(Outcome::Abandoned)),
                _ => self.abandon(),
            },
            Phase::Finished(_) => self,
        };
        let action = d.awaited();
        (d, action)
    }
}

} // verus!
