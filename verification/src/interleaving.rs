//! The downloader among its readers.
//!
//! Readers come and go while a download runs. This module models what the
//! downloader's two waits rest on: a wait for the subscribers ends only
//! when no reader is attached, and a reader attaches only while the
//! download's entry stands in the registry. Under these two rules no reader
//! is attached when the file is handed to the cache.

use vstd::prelude::*;
use crate::download::{awaited, initial, next, ActionView, DownloadState, EventView, Phase};

verus! {

/// A download with its registry entry and its readers.
pub struct System {
    pub downloader: DownloadState,
    /// Whether the download's entry stands in the registry.
    pub registered: bool,
    /// How many readers hold a receiver of the progress channel.
    pub attached: nat,
}

/// What can happen to a download and its readers.
pub enum Move {
    /// A client finds the download in the registry and attaches.
    Attach,
    /// A reader ends its body, or its client goes away.
    Detach,
    /// The downloader's pending action is answered.
    Answer(EventView),
}

/// Whether a move can happen in a state: a reader attaches only while the
/// entry is registered, and a wait for the subscribers succeeds only when
/// none is attached.
pub open spec fn enabled(s: System, m: Move) -> bool {
    match m {
        Move::Attach => s.registered,
        Move::Detach => s.attached > 0,
        Move::Answer(e) => awaited(s.downloader) == ActionView::AwaitSubscribers && e
            == EventView::Done ==> s.attached == 0,
    }
}

/// The state after a move.
pub open spec fn after(s: System, m: Move) -> System {
    match m {
        Move::Attach => System { attached: s.attached + 1, ..s },
        Move::Detach => System { attached: (s.attached - 1) as nat, ..s },
        Move::Answer(e) => System {
            downloader: next(s.downloader, e),
            registered: s.registered && !(awaited(s.downloader) == ActionView::RemoveEntry && e
                == EventView::Done),
            ..s
        },
    }
}

/// Whether each of the moves can happen when its turn comes.
pub open spec fn possible(s: System, moves: Seq<Move>) -> bool
    decreases moves.len(),
{
    moves.len() > 0 ==> possible(s, moves.drop_last()) && enabled(
        after_all(s, moves.drop_last()),
        moves.last(),
    )
}

/// The state after the moves, in order.
pub open spec fn after_all(s: System, moves: Seq<Move>) -> System
    decreases moves.len(),
{
    if moves.len() == 0 {
        s
    } else {
        after(after_all(s, moves.drop_last()), moves.last())
    }
}

/// Whether the downloader is past the removal of its entry on the way to
/// the import.
pub open spec fn unregistered(phase: Phase) -> bool {
    phase == Phase::Redraining || phase == Phase::Importing
}

/// Read before import: in every interleaving of the downloader's steps
/// with readers that attach and detach, from the moment the download is
/// registered with any number of readers, no reader is attached while the
/// downloader asks for the import, and none can attach until it is done.
pub proof fn lemma_no_reader_during_import(
    size: nat,
    declared: Seq<u8>,
    sources: nat,
    has_proxy: bool,
    readers: nat,
    moves: Seq<Move>,
)
    requires
        possible(
            System {
                downloader: initial(size, declared, sources, has_proxy),
                registered: true,
                attached: readers,
            },
            moves,
        ),
    ensures
        ({
            let end = after_all(
                System {
                    downloader: initial(size, declared, sources, has_proxy),
                    registered: true,
                    attached: readers,
                },
                moves,
            );
            &&& unregistered(end.downloader.phase) ==> !end.registered
            &&& awaited(end.downloader) == ActionView::Import ==> end.attached == 0
                && !enabled(end, Move::Attach)
        }),
    decreases moves.len(),
{
    if moves.len() > 0 {
        lemma_no_reader_during_import(
            size,
            declared,
            sources,
            has_proxy,
            readers,
            moves.drop_last(),
        );
    }
}

} // verus!
