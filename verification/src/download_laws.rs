//! Laws of the downloader, proved of its transition function.

use vstd::prelude::*;
use crate::digest::sha1_digest;
use crate::download::{
    awaited, closing, initial, next, ActionView, DownloadState, EventView, Outcome, Phase,
    RETRY_BUDGET,
};

verus! {

// Runs

/// The state reached from `s` when the events arrive in order.
pub open spec fn run(s: DownloadState, events: Seq<EventView>) -> DownloadState
    decreases events.len(),
{
    if events.len() == 0 {
        s
    } else {
        next(run(s, events.drop_last()), events.last())
    }
}

/// One more event: the state after the first `at + 1` events is the step
/// from the state after the first `at`.
pub proof fn lemma_run_prefix(s: DownloadState, events: Seq<EventView>, at: int)
    requires
        0 <= at < events.len(),
    ensures
        run(s, events.take(at + 1)) == next(run(s, events.take(at)), events[at]),
{
    assert(events.take(at + 1).drop_last() =~= events.take(at));
    assert(events.take(at + 1).last() == events[at]);
}

/// A run can be cut in two: the state after a prefix of the events, and
/// from there the rest.
pub proof fn lemma_run_split(s: DownloadState, events: Seq<EventView>, at: int)
    requires
        0 <= at <= events.len(),
    ensures
        run(s, events) == run(run(s, events.take(at)), events.skip(at)),
    decreases events.len(),
{
    if at == events.len() {
        assert(events.take(at) =~= events);
        assert(events.skip(at) =~= Seq::<EventView>::empty());
    } else {
        lemma_run_split(s, events.drop_last(), at);
        assert(events.drop_last().take(at) =~= events.take(at));
        assert(events.skip(at).drop_last() =~= events.drop_last().skip(at));
        assert(events.skip(at).last() == events.last());
    }
}

/// Every step keeps a state valid.
pub proof fn lemma_next_valid(s: DownloadState, e: EventView)
    requires
        s.valid(),
    ensures
        next(s, e).valid(),
{
}

/// Every state that a run reaches is valid.
pub proof fn lemma_run_valid(s: DownloadState, events: Seq<EventView>)
    requires
        s.valid(),
    ensures
        run(s, events).valid(),
    decreases events.len(),
{
    if events.len() > 0 {
        lemma_run_valid(s, events.drop_last());
        lemma_next_valid(run(s, events.drop_last()), events.last());
    }
}

/// A run changes neither the declared size and hash nor the sources and
/// the proxy setting.
pub proof fn lemma_run_keeps_parameters(s: DownloadState, events: Seq<EventView>)
    ensures
        run(s, events).size == s.size,
        run(s, events).declared == s.declared,
        run(s, events).sources == s.sources,
        run(s, events).has_proxy == s.has_proxy,
    decreases events.len(),
{
    if events.len() > 0 {
        lemma_run_keeps_parameters(s, events.drop_last());
    }
}

/// The temporary file is provisioned once: whatever events arrive, the
/// downloader asks for it at the very beginning and never again.
pub proof fn lemma_provisioned_once(
    size: nat,
    declared: Seq<u8>,
    sources: nat,
    has_proxy: bool,
    events: Seq<EventView>,
)
    ensures
        awaited(run(initial(size, declared, sources, has_proxy), events)) == ActionView::Provision
            <==> events.len() == 0,
    decreases events.len(),
{
    if events.len() > 0 {
        lemma_provisioned_once(size, declared, sources, has_proxy, events.drop_last());
    }
}

// Progress

/// What is written is never taken back: after a step the bytes written
/// before are still there, at the start of what is written now.
pub proof fn lemma_written_grows(s: DownloadState, e: EventView)
    ensures
        s.written.is_prefix_of(next(s, e).written),
{
    assert(s.written.is_prefix_of(s.written + s.pending));
}

/// Along a run the written bytes only grow.
pub proof fn lemma_written_grows_along(s: DownloadState, events: Seq<EventView>)
    ensures
        s.written.is_prefix_of(run(s, events).written),
    decreases events.len(),
{
    if events.len() > 0 {
        let before = run(s, events.drop_last());
        lemma_written_grows_along(s, events.drop_last());
        lemma_written_grows(before, events.last());
        let after = next(before, events.last());
        assert forall|k: int| 0 <= k < s.written.len() implies s.written[k] == after.written[k] by {
            assert(s.written[k] == before.written[k]);
        }
    }
}

/// Monotonic progress: whatever events arrive, a progress published later
/// is no less than one published earlier. `earlier` and `later` count the
/// events that have arrived when the two values are published.
pub proof fn lemma_published_progress_never_decreases(
    s: DownloadState,
    events: Seq<EventView>,
    earlier: int,
    later: int,
    first: nat,
    second: nat,
)
    requires
        0 <= earlier <= later <= events.len(),
        awaited(run(s, events.take(earlier))) == (ActionView::Publish { progress: first }),
        awaited(run(s, events.take(later))) == (ActionView::Publish { progress: second }),
    ensures
        first <= second,
{
    let mid = run(s, events.take(earlier));
    lemma_run_split(s, events.take(later), earlier);
    assert(events.take(later).take(earlier) =~= events.take(earlier));
    lemma_written_grows_along(mid, events.take(later).skip(earlier));
}

/// Whether the chunk `e`, arriving in state `s`, reaches beyond the declared
/// size of the file.
pub open spec fn overshoots(s: DownloadState, e: EventView) -> bool {
    &&& s.phase == Phase::Streaming
    &&& e matches EventView::Chunk(bytes)
    &&& s.progress() + bytes.len() - s.skip > s.size
}

/// Bounded progress: as long as no chunk reaches beyond the declared size,
/// the progress stays within it, and so does every value published.
pub proof fn lemma_progress_within_size(s: DownloadState, events: Seq<EventView>)
    requires
        s.valid(),
        s.progress() + s.pending.len() <= s.size,
        forall|k: int|
            0 <= k < events.len() ==> !overshoots(#[trigger] run(s, events.take(k)), events[k]),
    ensures
        run(s, events).progress() + run(s, events).pending.len() <= s.size,
        run(s, events).size == s.size,
        forall|progress: nat|
            awaited(run(s, events)) == (ActionView::Publish { progress }) ==> progress <= s.size,
    decreases events.len(),
{
    if events.len() > 0 {
        let shorter = events.drop_last();
        assert forall|k: int| 0 <= k < shorter.len() implies !overshoots(
            #[trigger] run(s, shorter.take(k)),
            shorter[k],
        ) by {
            assert(shorter.take(k) =~= events.take(k));
        }
        lemma_progress_within_size(s, shorter);
        lemma_run_valid(s, shorter);
        assert(events.take(events.len() - 1) =~= shorter);
        assert(!overshoots(run(s, shorter), events.last()));
    }
}

// Resuming

/// The state after a chunk has arrived and, where a tail of it was to be
/// written, the write and the publication have succeeded.
pub open spec fn deliver(s: DownloadState, chunk: Seq<u8>) -> DownloadState {
    let arrived = next(s, EventView::Chunk(chunk));
    if arrived.phase == Phase::Writing {
        next(next(arrived, EventView::Done), EventView::Done)
    } else {
        arrived
    }
}

/// The state after the chunks have been delivered in order.
pub open spec fn deliver_all(s: DownloadState, chunks: Seq<Seq<u8>>) -> DownloadState
    decreases chunks.len(),
{
    if chunks.len() == 0 {
        s
    } else {
        deliver(deliver_all(s, chunks.drop_last()), chunks.last())
    }
}

/// The chunks, one after the other: the body that they carry.
pub open spec fn joined(chunks: Seq<Seq<u8>>) -> Seq<u8>
    decreases chunks.len(),
{
    if chunks.len() == 0 {
        Seq::empty()
    } else {
        joined(chunks.drop_last()) + chunks.last()
    }
}

/// However a body is cut into chunks, delivering it passes over as many of
/// its bytes as were still to be skipped and appends the rest, unchanged
/// and in order, to what is written. Nothing else changes.
pub proof fn lemma_delivery_appends_the_unwritten_part(s: DownloadState, chunks: Seq<Seq<u8>>)
    requires
        s.valid(),
        s.phase == Phase::Streaming,
    ensures
        joined(chunks).len() <= s.skip ==> deliver_all(s, chunks) == (DownloadState {
            skip: (s.skip - joined(chunks).len()) as nat,
            ..s
        }),
        joined(chunks).len() > s.skip ==> deliver_all(s, chunks) == (DownloadState {
            skip: 0,
            written: s.written + joined(chunks).skip(s.skip as int),
            ..s
        }),
    decreases chunks.len(),
{
    if chunks.len() > 0 {
        let before = deliver_all(s, chunks.drop_last());
        let body = joined(chunks.drop_last());
        let chunk = chunks.last();
        lemma_delivery_appends_the_unwritten_part(s, chunks.drop_last());
        assert(s.pending =~= Seq::<u8>::empty());
        if body.len() <= s.skip {
            if chunk.len() > before.skip {
                assert(chunk.skip(before.skip as int) =~= (body + chunk).skip(s.skip as int));
            }
        } else {
            assert(before.written + chunk =~= s.written + (body + chunk).skip(s.skip as int));
            if chunk.len() == 0 {
                assert(before.written + chunk =~= before.written);
            } else {
                assert(chunk.skip(0) =~= chunk);
            }
        }
    }
}

/// Resumability: when an attempt is answered with a body that reaches at
/// least as far as what is written, the attempt contributes exactly the
/// bytes of the body from the progress on, however the body is cut into
/// chunks. If what was written before is the start of that body, the file
/// then holds the body, as if it had come from this source alone.
pub proof fn lemma_resumed_download_completes_the_file(r: DownloadState, chunks: Seq<Seq<u8>>)
    requires
        r.valid(),
        r.phase == Phase::Requesting,
        r.progress() <= joined(chunks).len(),
    ensures
        deliver_all(next(r, EventView::Done), chunks).written == r.written + joined(chunks).skip(
            r.progress() as int,
        ),
        r.written.is_prefix_of(joined(chunks)) ==> deliver_all(
            next(r, EventView::Done),
            chunks,
        ).written == joined(chunks),
{
    let s = next(r, EventView::Done);
    let body = joined(chunks);
    lemma_next_valid(r, EventView::Done);
    lemma_delivery_appends_the_unwritten_part(s, chunks);
    if body.len() == s.skip {
        assert(body.skip(s.skip as int) =~= Seq::<u8>::empty());
        assert(r.written + body.skip(r.progress() as int) =~= r.written);
    }
    if r.written.is_prefix_of(body) {
        assert(r.written + body.skip(r.progress() as int) =~= body);
    }
}

// Integrity

/// Integrity, one way: whatever events arrive, the downloader asks for the
/// import only when the bytes written are as many as declared and have the
/// declared SHA-1.
pub proof fn lemma_import_only_of_verified_file(
    size: nat,
    declared: Seq<u8>,
    sources: nat,
    has_proxy: bool,
    events: Seq<EventView>,
)
    requires
        sources > 0,
        declared.len() == 20,
    ensures
        awaited(run(initial(size, declared, sources, has_proxy), events)) == ActionView::Import ==> {
            let end = run(initial(size, declared, sources, has_proxy), events);
            end.written.len() == size && sha1_digest(end.written) == declared
        },
{
    let start = initial(size, declared, sources, has_proxy);
    lemma_run_valid(start, events);
    lemma_run_keeps_parameters(start, events);
}

/// The events that close a download whose every closing action succeeds:
/// the end of the body, then the flush, the final publication, the first
/// wait for the subscribers, the removal of the registry entry, and the
/// second wait.
pub open spec fn closing_events() -> Seq<EventView> {
    seq![
        EventView::End,
        EventView::Done,
        EventView::Done,
        EventView::Done,
        EventView::Done,
        EventView::Done,
    ]
}

/// Integrity, the other way: when the body ends with as many bytes written
/// as declared, and they have the declared SHA-1, and each closing action
/// succeeds, the downloader asks in turn for the flush, the publication of
/// the full size, the wait for the subscribers, the removal of the registry
/// entry, the second wait, and then the import.
pub proof fn lemma_verified_file_is_imported(s: DownloadState)
    requires
        s.phase == Phase::Streaming,
        s.written.len() == s.size,
        sha1_digest(s.written) == s.declared,
    ensures
        awaited(run(s, closing_events().take(1))) == ActionView::Flush,
        awaited(run(s, closing_events().take(2))) == (ActionView::Publish { progress: s.size }),
        awaited(run(s, closing_events().take(3))) == ActionView::AwaitSubscribers,
        awaited(run(s, closing_events().take(4))) == ActionView::RemoveEntry,
        awaited(run(s, closing_events().take(5))) == ActionView::AwaitSubscribers,
        awaited(run(s, closing_events())) == ActionView::Import,
        run(s, closing_events()).written == s.written,
{
    let events = closing_events();
    let ended = next(s, EventView::End);
    let flushed = next(ended, EventView::Done);
    let announced = next(flushed, EventView::Done);
    let drained = next(announced, EventView::Done);
    let removed = next(drained, EventView::Done);
    let redrained = next(removed, EventView::Done);
    lemma_run_prefix(s, events, 0);
    lemma_run_prefix(s, events, 1);
    lemma_run_prefix(s, events, 2);
    lemma_run_prefix(s, events, 3);
    lemma_run_prefix(s, events, 4);
    lemma_run_prefix(s, events, 5);
    assert(events.take(0) =~= Seq::<EventView>::empty());
    assert(run(s, events.take(0)) == s);
    assert(run(s, events.take(1)) == ended);
    assert(run(s, events.take(2)) == flushed);
    assert(run(s, events.take(3)) == announced);
    assert(run(s, events.take(4)) == drained);
    assert(run(s, events.take(5)) == removed);
    assert(events.take(6) =~= events);
    assert(run(s, events) == redrained);
}

/// The phases in which nothing more is fetched or written.
pub open spec fn sealed(phase: Phase) -> bool {
    ||| closing(phase)
    ||| phase == Phase::Abandoning
    ||| phase == Phase::Finished(Outcome::Abandoned)
}

/// Once the downloader has stopped fetching it never fetches again, and
/// what is written stays as it is.
pub proof fn lemma_sealed_step(s: DownloadState, e: EventView)
    requires
        sealed(s.phase),
    ensures
        sealed(next(s, e).phase),
        next(s, e).written == s.written,
{
}

/// After the body has ended with the declared number of bytes written, the
/// downloader has stopped fetching.
pub proof fn lemma_sealed_after_end(s: DownloadState, events: Seq<EventView>)
    requires
        s.phase == Phase::Streaming,
        s.written.len() == s.size,
        events.len() > 0,
        events[0] == EventView::End,
    ensures
        sealed(run(s, events).phase),
        run(s, events).written == s.written,
    decreases events.len(),
{
    if events.len() == 1 {
        assert(events.drop_last() =~= Seq::<EventView>::empty());
    } else {
        assert(events.drop_last()[0] == events[0]);
        lemma_sealed_after_end(s, events.drop_last());
        lemma_sealed_step(run(s, events.drop_last()), events.last());
    }
}

/// A file whose SHA-1 is not the declared one is never imported: when the
/// body ends with as many bytes written as declared but another SHA-1, no
/// events whatever bring the downloader to ask for the import.
pub proof fn lemma_mismatch_is_never_imported(s: DownloadState, events: Seq<EventView>)
    requires
        s.valid(),
        s.phase == Phase::Streaming,
        s.written.len() == s.size,
        sha1_digest(s.written) != s.declared,
        events.len() > 0,
        events[0] == EventView::End,
    ensures
        awaited(run(s, events)) != ActionView::Import,
        run(s, events).written == s.written,
{
    lemma_sealed_after_end(s, events);
    lemma_run_valid(s, events);
    lemma_run_keeps_parameters(s, events);
}

// The order of the closing actions

/// The draining phases are entered in order, each by the success of the
/// action before it.
pub proof fn lemma_closing_order(s: DownloadState, e: EventView)
    ensures
        next(s, e).phase == Phase::Importing ==> s.phase == Phase::Redraining && e
            == EventView::Done,
        next(s, e).phase == Phase::Redraining ==> s.phase == Phase::Removing && e
            == EventView::Done,
        next(s, e).phase == Phase::Removing ==> s.phase == Phase::Draining && e == EventView::Done,
        next(s, e).phase == Phase::Draining ==> s.phase == Phase::Announcing && e
            == EventView::Done,
{
}

/// The final publication is asked for only when as many bytes are written
/// as were declared.
pub proof fn lemma_announcing_is_complete(s: DownloadState, events: Seq<EventView>)
    requires
        closing(s.phase) ==> s.written.len() == s.size,
    ensures
        closing(run(s, events).phase) ==> run(s, events).written.len() == run(s, events).size,
    decreases events.len(),
{
    if events.len() > 0 {
        lemma_announcing_is_complete(s, events.drop_last());
    }
}

/// Read before import: whatever events arrive, when the downloader asks for
/// the import, the four actions before it were the publication of the full
/// size, a wait for every subscriber to detach, the removal of the registry
/// entry, and a second wait for every subscriber to detach, and each of
/// them had succeeded.
pub proof fn lemma_import_follows_both_waits(
    size: nat,
    declared: Seq<u8>,
    sources: nat,
    has_proxy: bool,
    events: Seq<EventView>,
)
    requires
        awaited(run(initial(size, declared, sources, has_proxy), events)) == ActionView::Import,
    ensures
        events.len() >= 4,
        forall|k: int| events.len() - 4 <= k < events.len() ==> events[k] == EventView::Done,
        awaited(run(initial(size, declared, sources, has_proxy), events.take(events.len() - 1)))
            == ActionView::AwaitSubscribers,
        awaited(run(initial(size, declared, sources, has_proxy), events.take(events.len() - 2)))
            == ActionView::RemoveEntry,
        awaited(run(initial(size, declared, sources, has_proxy), events.take(events.len() - 3)))
            == ActionView::AwaitSubscribers,
        awaited(run(initial(size, declared, sources, has_proxy), events.take(events.len() - 4)))
            == (ActionView::Publish { progress: size }),
{
    let start = initial(size, declared, sources, has_proxy);
    let n = events.len() as int;
    assert(events.take(n) =~= events);
    assert(n >= 1);
    lemma_run_prefix(start, events, n - 1);
    lemma_closing_order(run(start, events.take(n - 1)), events[n - 1]);
    assert(n >= 2) by {
        if n < 2 {
            assert(events.take(0) =~= Seq::<EventView>::empty());
        }
    }
    lemma_run_prefix(start, events, n - 2);
    lemma_closing_order(run(start, events.take(n - 2)), events[n - 2]);
    assert(n >= 3) by {
        if n < 3 {
            assert(events.take(0) =~= Seq::<EventView>::empty());
        }
    }
    lemma_run_prefix(start, events, n - 3);
    lemma_closing_order(run(start, events.take(n - 3)), events[n - 3]);
    assert(n >= 4) by {
        if n < 4 {
            assert(events.take(0) =~= Seq::<EventView>::empty());
        }
    }
    lemma_run_prefix(start, events, n - 4);
    lemma_closing_order(run(start, events.take(n - 4)), events[n - 4]);
    lemma_run_keeps_parameters(start, events.take(n - 4));
    if sources > 0 && declared.len() == 20 {
        lemma_run_valid(start, events.take(n - 4));
    } else {
        lemma_announcing_is_complete(start, events.take(n - 4));
    }
}

// The registry entry

/// Whether, among the events, the removal of the registry entry was asked
/// for and has succeeded.
pub open spec fn entry_removed(s: DownloadState, events: Seq<EventView>) -> bool {
    exists|k: int|
        0 <= k < events.len() && awaited(#[trigger] run(s, events.take(k)))
            == ActionView::RemoveEntry && events[k] == EventView::Done
}

/// Registry cleanup: whatever events arrive, whenever the downloader has
/// stopped, whether it imported the file, found another hash or gave up,
/// the removal of its registry entry was asked for and has succeeded. The
/// same holds already when it asks for the second wait and for the import.
pub proof fn lemma_stops_only_after_removal(
    size: nat,
    declared: Seq<u8>,
    sources: nat,
    has_proxy: bool,
    events: Seq<EventView>,
)
    ensures
        ({
            let end = run(initial(size, declared, sources, has_proxy), events);
            end.phase is Finished || end.phase == Phase::Importing || end.phase
                == Phase::Redraining
        }) ==> entry_removed(initial(size, declared, sources, has_proxy), events),
    decreases events.len(),
{
    let start = initial(size, declared, sources, has_proxy);
    let end = run(start, events);
    if events.len() > 0 && (end.phase is Finished || end.phase == Phase::Importing || end.phase
        == Phase::Redraining) {
        let shorter = events.drop_last();
        let before = run(start, shorter);
        lemma_stops_only_after_removal(size, declared, sources, has_proxy, shorter);
        if before.phase is Finished || before.phase == Phase::Importing || before.phase
            == Phase::Redraining {
            let k = choose|k: int|
                0 <= k < shorter.len() && awaited(#[trigger] run(start, shorter.take(k)))
                    == ActionView::RemoveEntry && shorter[k] == EventView::Done;
            assert(shorter.take(k) =~= events.take(k));
            assert(awaited(run(start, events.take(k))) == ActionView::RemoveEntry);
        } else {
            let k = events.len() - 1;
            assert(events.take(k) =~= shorter);
            assert(awaited(run(start, events.take(k))) == ActionView::RemoveEntry);
        }
    }
}

// Attempts and sources

/// How many requests the downloader has sent upstream among the events.
pub open spec fn requests_sent(s: DownloadState, events: Seq<EventView>) -> nat
    decreases events.len(),
{
    if events.len() == 0 {
        0
    } else if run(s, events).phase == Phase::Requesting {
        requests_sent(s, events.drop_last()) + 1
    } else {
        requests_sent(s, events.drop_last())
    }
}

/// The attempts begun in a state, the current one counted once its request
/// is sent.
pub open spec fn attempts(s: DownloadState) -> nat {
    if s.phase == Phase::Provisioning || s.phase == Phase::Opening {
        s.retry
    } else {
        s.retry + 1
    }
}

/// Retry budget: whatever events arrive, one download sends at most three
/// requests upstream, over all sources together.
pub proof fn lemma_retry_budget(
    size: nat,
    declared: Seq<u8>,
    sources: nat,
    has_proxy: bool,
    events: Seq<EventView>,
)
    requires
        sources > 0,
        declared.len() == 20,
    ensures
        requests_sent(initial(size, declared, sources, has_proxy), events) <= attempts(
            run(initial(size, declared, sources, has_proxy), events),
        ) <= RETRY_BUDGET,
    decreases events.len(),
{
    let start = initial(size, declared, sources, has_proxy);
    lemma_run_valid(start, events);
    if events.len() > 0 {
        lemma_retry_budget(size, declared, sources, has_proxy, events.drop_last());
        lemma_run_valid(start, events.drop_last());
    }
}

/// The source after the one in place `count % sources` stands in place
/// `(count + 1) % sources`.
proof fn lemma_following(count: int, sources: int)
    requires
        count >= 0,
        sources > 0,
    ensures
        (count + 1) % sources == (if count % sources + 1 < sources {
            count % sources + 1
        } else {
            0
        }),
{
    vstd::arithmetic::div_mod::lemma_fundamental_div_mod(count, sources);
    vstd::arithmetic::div_mod::lemma_mod_bound(count, sources);
    if count % sources + 1 < sources {
        assert(count + 1 == (count / sources) * sources + (count % sources + 1))
            by (nonlinear_arith)
            requires
                count == sources * (count / sources) + count % sources,
        ;
        vstd::arithmetic::div_mod::lemma_fundamental_div_mod_converse(
            count + 1,
            sources,
            count / sources,
            count % sources + 1,
        );
    } else {
        assert(count + 1 == (count / sources + 1) * sources + 0) by (nonlinear_arith)
            requires
                count == sources * (count / sources) + count % sources,
                count % sources + 1 == sources,
        ;
        vstd::arithmetic::div_mod::lemma_fundamental_div_mod_converse(
            count + 1,
            sources,
            count / sources + 1,
            0,
        );
    }
}

/// The sources are asked in turn: whatever events arrive, the request that
/// the downloader asks for as its first goes to the first source, and each
/// later one to the source after that of the request before it, the first
/// following the last.
pub proof fn lemma_sources_in_turn(
    size: nat,
    declared: Seq<u8>,
    sources: nat,
    has_proxy: bool,
    events: Seq<EventView>,
)
    requires
        sources > 0,
    ensures
        ({
            let start = initial(size, declared, sources, has_proxy);
            let end = run(start, events);
            let sent = requests_sent(start, events);
            &&& end.phase == Phase::Requesting ==> sent >= 1 && end.source == (sent - 1) % (
            sources as int)
            &&& end.phase != Phase::Requesting && !sealed(end.phase) ==> end.source == sent
                % sources
        }),
    decreases events.len(),
{
    let start = initial(size, declared, sources, has_proxy);
    if events.len() == 0 {
        assert(0nat % sources == 0) by (nonlinear_arith)
            requires
                sources > 0,
        ;
    } else {
        let shorter = events.drop_last();
        let before = run(start, shorter);
        let sent = requests_sent(start, shorter);
        lemma_sources_in_turn(size, declared, sources, has_proxy, shorter);
        lemma_run_keeps_parameters(start, shorter);
        if before.phase == Phase::Requesting {
            lemma_following(sent - 1, sources as int);
        }
    }
}

/// The proxy is bypassed only for the third attempt, and only where one is
/// configured: whatever events arrive, a request is asked to go direct
/// only if a proxy is configured and the two attempts before it are over.
pub proof fn lemma_direct_only_on_third_attempt(
    size: nat,
    declared: Seq<u8>,
    sources: nat,
    has_proxy: bool,
    events: Seq<EventView>,
)
    ensures
        run(initial(size, declared, sources, has_proxy), events).direct ==> has_proxy && run(
            initial(size, declared, sources, has_proxy),
            events,
        ).retry == 2,
    decreases events.len(),
{
    if events.len() > 0 {
        lemma_direct_only_on_third_attempt(size, declared, sources, has_proxy, events.drop_last());
        lemma_run_keeps_parameters(
            initial(size, declared, sources, has_proxy),
            events.drop_last(),
        );
    }
}

} // verus!
