use bytes::Bytes;
use hath_cache::digest::sha1;
use hath_cache::download::{
    Action, Downloader, Event, Outcome, Phase, DIRECT_TIMEOUT_SECS, RETRY_BUDGET,
};
use hath_cache::info::ContentFileInfo;
use hath_cache::reader::{Reader, ReaderAction, ReaderEvent, READ_CAPACITY};
use hath_cache::registry::{Lookup, Registry};

const KIB: usize = 1024;
const MIB: usize = 1024 * KIB;

/// How one upstream source behaves, each time it is asked.
#[derive(Clone)]
struct Source {
    /// The body it sends, cut into chunks.
    chunks: Vec<Vec<u8>>,
    /// After this many chunks the body breaks with an error.
    breaks_after: Option<usize>,
    /// The connection fails.
    refuses: bool,
    /// It answers with an error status.
    rejects: bool,
}

impl Source {
    fn sending(body: &[u8], chunk: usize) -> Source {
        Source {
            chunks: body.chunks(chunk).map(|c| c.to_vec()).collect(),
            breaks_after: None,
            refuses: false,
            rejects: false,
        }
    }

    fn breaking_after(mut self, chunks: usize) -> Source {
        self.breaks_after = Some(chunks);
        self
    }

    fn closing_after(mut self, chunks: usize) -> Source {
        self.chunks.truncate(chunks);
        self
    }

    fn refusing() -> Source {
        Source { chunks: Vec::new(), breaks_after: None, refuses: true, rejects: false }
    }

    fn rejecting() -> Source {
        Source { chunks: Vec::new(), breaks_after: None, refuses: false, rejects: true }
    }
}

/// Everything outside the downloader, and a record of what it was asked.
struct World {
    sources: Vec<Source>,
    failing_opens: usize,
    failing_write: Option<usize>,
    failing_flush: bool,
    file: Vec<u8>,
    cursor: usize,
    body: Option<(usize, usize)>,
    provisioned: usize,
    opened_at: Vec<u64>,
    requests: Vec<(usize, bool)>,
    writes: usize,
    published: Vec<u64>,
    flushes: usize,
    waits: usize,
    removals: usize,
    imports: usize,
    actions: Vec<Action>,
}

impl World {
    fn with(sources: Vec<Source>) -> World {
        World {
            sources,
            failing_opens: 0,
            failing_write: None,
            failing_flush: false,
            file: Vec::new(),
            cursor: 0,
            body: None,
            provisioned: 0,
            opened_at: Vec::new(),
            requests: Vec::new(),
            writes: 0,
            published: Vec::new(),
            flushes: 0,
            waits: 0,
            removals: 0,
            imports: 0,
            actions: Vec::new(),
        }
    }

    fn perform(&mut self, action: Action, downloader: &Downloader) -> Event {
        self.actions.push(action);
        match action {
            Action::Provision => {
                self.provisioned += 1;
                Event::Done
            }
            Action::OpenAt { offset } => {
                self.opened_at.push(offset);
                if self.failing_opens > 0 {
                    self.failing_opens -= 1;
                    return Event::Failed;
                }
                self.cursor = offset as usize;
                Event::Done
            }
            Action::Request { source, direct } => {
                self.requests.push((source, direct));
                if self.sources[source].refuses {
                    Event::Failed
                } else if self.sources[source].rejects {
                    Event::Rejected
                } else {
                    self.body = Some((source, 0));
                    Event::Done
                }
            }
            Action::NextChunk => {
                let (source, sent) = self.body.unwrap();
                if self.sources[source].breaks_after == Some(sent) {
                    Event::Failed
                } else if sent < self.sources[source].chunks.len() {
                    self.body = Some((source, sent + 1));
                    Event::Chunk(Bytes::from(self.sources[source].chunks[sent].clone()))
                } else {
                    Event::End
                }
            }
            Action::WriteTail => {
                if self.failing_write == Some(self.writes) {
                    return Event::Failed;
                }
                self.writes += 1;
                let tail = downloader.pending_tail();
                assert!(!tail.is_empty());
                let end = self.cursor + tail.len();
                if self.file.len() < end {
                    self.file.resize(end, 0);
                }
                self.file[self.cursor..end].copy_from_slice(tail);
                self.cursor = end;
                Event::Done
            }
            Action::Publish { progress } => {
                assert!(progress as usize <= self.file.len());
                self.published.push(progress);
                Event::Done
            }
            Action::Flush => {
                self.flushes += 1;
                if self.failing_flush {
                    Event::Failed
                } else {
                    Event::Done
                }
            }
            Action::AwaitSubscribers => {
                self.waits += 1;
                Event::Done
            }
            Action::RemoveEntry => {
                self.removals += 1;
                Event::Done
            }
            Action::Import => {
                assert_eq!(self.waits, 2);
                assert_eq!(self.removals, 1);
                self.imports += 1;
                Event::Done
            }
            Action::Stop { .. } => unreachable!(),
        }
    }

    fn download(&mut self, info: &ContentFileInfo, has_proxy: bool) -> Outcome {
        let mut downloader = Downloader::new(info, self.sources.len(), has_proxy);
        let mut action = downloader.awaited();
        loop {
            if let Action::Stop { outcome } = action {
                assert_eq!(downloader.phase(), Phase::Finished(outcome));
                return outcome;
            }
            let event = self.perform(action, &downloader);
            let (next, then) = downloader.step(event);
            downloader = next;
            action = then;
        }
    }
}

/// What a client is sent that arrives when the progress is `arrival` and
/// then sees the values of `published` that are still to come, until the
/// progress channel closes. `None` if the request is refused.
fn client_body(size: u64, file: &[u8], arrival: u64, published: &[u64]) -> Option<Vec<u8>> {
    let mut reader = Reader::new(size, arrival);
    let mut action = reader.awaited();
    let mut sent: Vec<u8> = Vec::new();
    let mut coming = published.iter().copied().filter(|progress| *progress > arrival);
    let mut on_disk = arrival as usize;
    loop {
        let event = match action {
            ReaderAction::AwaitFirst | ReaderAction::Wait => match coming.next() {
                Some(progress) => {
                    on_disk = progress as usize;
                    ReaderEvent::Progress(progress)
                }
                None => ReaderEvent::Silent,
            },
            ReaderAction::Respond => ReaderEvent::Progress(on_disk as u64),
            ReaderAction::Read => {
                let upto = on_disk.min(sent.len() + READ_CAPACITY);
                let from = sent.len();
                sent.extend_from_slice(&file[from..upto]);
                ReaderEvent::Read(upto - from)
            }
            ReaderAction::Refuse => return None,
            ReaderAction::Finish => return Some(sent),
        };
        let (next, then) = reader.step(event);
        reader = next;
        action = then;
    }
}

fn body(len: usize, seed: u8) -> Vec<u8> {
    (0..len).map(|i| (i as u32).wrapping_mul(2654435761).to_le_bytes()[1] ^ seed).collect()
}

fn info_of(data: &[u8]) -> ContentFileInfo {
    ContentFileInfo::new(sha1(data), data.len() as u64, b"image/jpeg".to_vec())
}

fn non_decreasing(values: &[u64]) -> bool {
    values.windows(2).all(|w| w[0] <= w[1])
}

#[test]
fn budget_and_timeout() {
    assert_eq!(RETRY_BUDGET, 3);
    assert_eq!(DIRECT_TIMEOUT_SECS, 30);
}

#[test]
fn a_new_downloader_awaits_provisioning() {
    let data = body(10, 0);
    let downloader = Downloader::new(&info_of(&data), 2, false);
    assert_eq!(downloader.phase(), Phase::Provisioning);
    assert_eq!(downloader.awaited(), Action::Provision);
    assert_eq!(downloader.progress(), 0);
    assert_eq!(downloader.pending_tail(), &b""[..]);
}

#[test]
fn cache_miss_single_source() {
    let data = body(MIB, 1);
    let mut world = World::with(vec![Source::sending(&data, 64 * KIB)]);
    let outcome = world.download(&info_of(&data), false);
    assert_eq!(outcome, Outcome::Imported);
    assert_eq!(world.file, data);
    assert_eq!(world.imports, 1);
    assert_eq!(world.removals, 1);
    assert_eq!(world.waits, 2);
    assert_eq!(world.flushes, 1);
    assert_eq!(world.provisioned, 1);
    assert_eq!(world.requests, vec![(0, false)]);
    assert_eq!(world.opened_at, vec![0]);
    assert_eq!(world.published.len(), 17);
    assert_eq!(world.published[0], 64 * KIB as u64);
    assert_eq!(world.published[15], MIB as u64);
    assert_eq!(world.published[16], MIB as u64);
    assert!(non_decreasing(&world.published));
    assert!(world.published.iter().all(|progress| *progress <= MIB as u64));
    let sent = client_body(MIB as u64, &world.file, 0, &world.published).unwrap();
    assert_eq!(sent.len(), MIB);
    assert!(sent == data);
}

#[test]
fn coalesced_miss_streams_one_download_to_ten_clients() {
    let data = body(MIB, 21);
    let info = info_of(&data);
    let mut registry: Registry<usize> = Registry::new();
    let mut starting = Vec::new();
    for client in 0..10usize {
        match registry.lookup_or_insert(info.hash(), client) {
            Lookup::Inserted => starting.push(client),
            Lookup::Existing(handle) => assert_eq!(handle, 0),
        }
    }
    assert_eq!(starting, vec![0]);
    let mut world = World::with(vec![Source::sending(&data, 100 * KIB)]);
    assert_eq!(world.download(&info, false), Outcome::Imported);
    registry.remove(&info.hash());
    assert_eq!(world.requests, vec![(0, false)]);
    assert_eq!(world.imports, 1);
    assert!(!registry.contains(&info.hash()));
    for client in 0..10usize {
        // the clients arrive at different moments of the download
        let arrival = if client == 0 { 0 } else { world.published[client - 1] };
        let sent = client_body(MIB as u64, &world.file, arrival, &world.published).unwrap();
        assert_eq!(sent.len(), MIB);
        assert!(sent == data);
    }
}

#[test]
fn a_client_of_a_download_that_never_starts_is_refused() {
    let data = body(100, 22);
    let mut world = World::with(vec![Source::refusing()]);
    assert_eq!(world.download(&info_of(&data), false), Outcome::Abandoned);
    assert_eq!(client_body(100, &world.file, 0, &world.published), None);
}

#[test]
fn a_client_of_an_abandoned_download_gets_a_short_body() {
    let data = body(100, 23);
    let mut world = World::with(vec![Source::sending(&data, 10).breaking_after(5)]);
    assert_eq!(world.download(&info_of(&data), false), Outcome::Abandoned);
    let sent = client_body(100, &world.file, 0, &world.published).unwrap();
    assert_eq!(sent, data[..50].to_vec());
}

#[test]
fn the_closing_actions_come_in_order() {
    let data = body(3, 2);
    let mut world = World::with(vec![Source::sending(&data, 3)]);
    assert_eq!(world.download(&info_of(&data), false), Outcome::Imported);
    assert_eq!(
        world.actions,
        vec![
            Action::Provision,
            Action::OpenAt { offset: 0 },
            Action::Request { source: 0, direct: false },
            Action::NextChunk,
            Action::WriteTail,
            Action::Publish { progress: 3 },
            Action::NextChunk,
            Action::Flush,
            Action::Publish { progress: 3 },
            Action::AwaitSubscribers,
            Action::RemoveEntry,
            Action::AwaitSubscribers,
            Action::Import,
        ]
    );
}

#[test]
fn failover_mid_stream() {
    let data = body(MIB, 3);
    let mut world = World::with(vec![
        Source::sending(&data, 64 * KIB).closing_after(8),
        Source::sending(&data, 64 * KIB),
    ]);
    let outcome = world.download(&info_of(&data), false);
    assert_eq!(outcome, Outcome::Imported);
    let mut expected = data[..512 * KIB].to_vec();
    expected.extend_from_slice(&data[512 * KIB..]);
    assert_eq!(world.file, expected);
    assert_eq!(world.file.len(), MIB);
    assert_eq!(sha1(&world.file), info_of(&data).hash());
    assert_eq!(world.requests, vec![(0, false), (1, false)]);
    assert_eq!(world.opened_at, vec![0, 512 * KIB as u64]);
    assert_eq!(world.writes, 16);
    assert_eq!(world.imports, 1);
    assert!(non_decreasing(&world.published));
    let sent = client_body(MIB as u64, &world.file, 0, &world.published).unwrap();
    assert!(sent == expected);
}

#[test]
fn resume_takes_only_the_tail_of_the_chunk_that_crosses_the_progress() {
    let data = body(1000, 4);
    let mut world = World::with(vec![
        Source::sending(&data, 300).breaking_after(2),
        Source::sending(&data, 256),
    ]);
    assert_eq!(world.download(&info_of(&data), false), Outcome::Imported);
    assert_eq!(world.file, data);
    assert_eq!(world.opened_at, vec![0, 600]);
    // 300, 600 from the first source; the chunks [0,256) and [256,512) of the
    // second are passed over, of [512,768) only [600,768) is written
    assert_eq!(world.published, vec![300, 600, 768, 1000, 1000]);
}

#[test]
fn resume_writes_what_the_second_source_sends() {
    let first = body(1000, 5);
    let second = body(1000, 6);
    let mut mixed = first[..400].to_vec();
    mixed.extend_from_slice(&second[400..]);
    let mut world = World::with(vec![
        Source::sending(&first, 100).breaking_after(4),
        Source::sending(&second, 100),
    ]);
    assert_eq!(world.download(&info_of(&mixed), false), Outcome::Imported);
    assert_eq!(world.file, mixed);
}

#[test]
fn hash_mismatch() {
    let data = body(MIB, 7);
    let mut other = data.clone();
    other[MIB / 2] ^= 1;
    let mut world = World::with(vec![Source::sending(&other, 64 * KIB)]);
    let outcome = world.download(&info_of(&data), false);
    assert_eq!(outcome, Outcome::HashMismatch);
    assert_eq!(world.file, other);
    assert_eq!(*world.published.last().unwrap(), MIB as u64);
    assert_eq!(world.imports, 0);
    assert_eq!(world.removals, 1);
    assert_eq!(world.waits, 1);
    assert_eq!(world.requests.len(), 1);
    let sent = client_body(MIB as u64, &world.file, 0, &world.published).unwrap();
    assert_eq!(sent.len(), MIB);
    assert!(sent == other);
}

#[test]
fn three_attempts_then_abandoned() {
    let data = body(100, 8);
    let mut world = World::with(vec![Source::refusing(), Source::rejecting()]);
    let outcome = world.download(&info_of(&data), false);
    assert_eq!(outcome, Outcome::Abandoned);
    assert_eq!(world.requests, vec![(0, false), (1, false), (0, false)]);
    assert_eq!(world.opened_at, vec![0, 0, 0]);
    assert_eq!(world.removals, 1);
    assert_eq!(world.imports, 0);
    assert_eq!(world.waits, 0);
    assert!(world.published.is_empty());
}

#[test]
fn sources_are_asked_in_a_cycle() {
    let data = body(100, 9);
    let short = Source::sending(&data, 10).closing_after(3);
    let mut world = World::with(vec![short.clone(), short.clone(), short]);
    assert_eq!(world.download(&info_of(&data), false), Outcome::Abandoned);
    assert_eq!(world.requests, vec![(0, false), (1, false), (2, false)]);
    assert_eq!(world.file, data[..30].to_vec());
    assert_eq!(world.opened_at, vec![0, 30, 30]);
}

#[test]
fn a_single_source_is_asked_again() {
    let data = body(100, 10);
    let mut world = World::with(vec![Source::sending(&data, 10).breaking_after(5)]);
    assert_eq!(world.download(&info_of(&data), false), Outcome::Abandoned);
    assert_eq!(world.requests, vec![(0, false), (0, false), (0, false)]);
    assert_eq!(world.published, vec![10, 20, 30, 40, 50]);
    assert_eq!(world.removals, 1);
}

#[test]
fn the_proxy_is_bypassed_after_the_second_attempt_fails_to_connect() {
    let data = body(100, 11);
    let mut world = World::with(vec![Source::refusing()]);
    assert_eq!(world.download(&info_of(&data), true), Outcome::Abandoned);
    assert_eq!(world.requests, vec![(0, false), (0, false), (0, true)]);
}

#[test]
fn the_proxy_stays_when_none_is_configured_or_the_status_is_the_error() {
    let data = body(100, 12);
    let mut world = World::with(vec![Source::refusing()]);
    assert_eq!(world.download(&info_of(&data), false), Outcome::Abandoned);
    assert_eq!(world.requests, vec![(0, false), (0, false), (0, false)]);
    let mut world = World::with(vec![Source::rejecting()]);
    assert_eq!(world.download(&info_of(&data), true), Outcome::Abandoned);
    assert_eq!(world.requests, vec![(0, false), (0, false), (0, false)]);
}

#[test]
fn the_proxy_stays_when_only_the_first_attempt_fails_to_connect() {
    let data = body(100, 13);
    let mut world = World::with(vec![Source::refusing(), Source::rejecting()]);
    assert_eq!(world.download(&info_of(&data), true), Outcome::Abandoned);
    assert_eq!(world.requests, vec![(0, false), (1, false), (0, false)]);
}

#[test]
fn a_failed_open_costs_an_attempt_but_no_source() {
    let data = body(100, 14);
    let mut world = World::with(vec![Source::sending(&data, 50), Source::refusing()]);
    world.failing_opens = 2;
    assert_eq!(world.download(&info_of(&data), false), Outcome::Imported);
    assert_eq!(world.opened_at, vec![0, 0, 0]);
    assert_eq!(world.requests, vec![(0, false)]);
    let mut world = World::with(vec![Source::sending(&data, 50)]);
    world.failing_opens = 3;
    assert_eq!(world.download(&info_of(&data), false), Outcome::Abandoned);
    assert!(world.requests.is_empty());
    assert_eq!(world.removals, 1);
}

#[test]
fn a_failed_write_ends_the_download() {
    let data = body(100, 15);
    let mut world = World::with(vec![Source::sending(&data, 10)]);
    world.failing_write = Some(3);
    assert_eq!(world.download(&info_of(&data), false), Outcome::Abandoned);
    assert_eq!(world.published, vec![10, 20, 30]);
    assert_eq!(world.requests.len(), 1);
    assert_eq!(world.removals, 1);
    assert_eq!(world.imports, 0);
}

#[test]
fn a_failed_flush_ends_the_download() {
    let data = body(100, 16);
    let mut world = World::with(vec![Source::sending(&data, 10)]);
    world.failing_flush = true;
    assert_eq!(world.download(&info_of(&data), false), Outcome::Abandoned);
    assert_eq!(world.requests.len(), 1);
    assert_eq!(world.removals, 1);
    assert_eq!(world.waits, 0);
    assert_eq!(world.imports, 0);
}

#[test]
fn an_empty_file_is_imported_without_a_write() {
    let mut world = World::with(vec![Source::sending(b"", 10)]);
    assert_eq!(world.download(&info_of(b""), false), Outcome::Imported);
    assert_eq!(world.writes, 0);
    assert_eq!(world.published, vec![0]);
    assert_eq!(world.imports, 1);
}

#[test]
fn a_body_longer_than_declared_is_written_and_never_imported() {
    let data = body(100, 17);
    let info = ContentFileInfo::new(sha1(&data[..60]), 60, b"image/jpeg".to_vec());
    let mut world = World::with(vec![Source::sending(&data, 40)]);
    assert_eq!(world.download(&info, false), Outcome::Abandoned);
    assert_eq!(world.published, vec![40, 80, 100]);
    assert_eq!(world.requests.len(), 3);
    assert_eq!(world.imports, 0);
}

#[test]
fn empty_chunks_are_passed_over() {
    let data = body(20, 18);
    let mut source = Source::sending(&data, 10);
    source.chunks.insert(0, Vec::new());
    source.chunks.insert(2, Vec::new());
    source.chunks.push(Vec::new());
    let mut world = World::with(vec![source]);
    assert_eq!(world.download(&info_of(&data), false), Outcome::Imported);
    assert_eq!(world.writes, 2);
    assert_eq!(world.file, data);
}

#[test]
fn an_event_that_answers_nothing_abandons_the_download() {
    let data = body(10, 19);
    let downloader = Downloader::new(&info_of(&data), 1, false);
    let (downloader, action) = downloader.step(Event::End);
    assert_eq!(action, Action::RemoveEntry);
    assert_eq!(downloader.phase(), Phase::Abandoning);
    let (downloader, action) = downloader.step(Event::Done);
    assert_eq!(action, Action::Stop { outcome: Outcome::Abandoned });
    let (downloader, action) = downloader.step(Event::Chunk(Bytes::from(vec![1, 2, 3])));
    assert_eq!(action, Action::Stop { outcome: Outcome::Abandoned });
    assert_eq!(downloader.phase(), Phase::Finished(Outcome::Abandoned));
    assert_eq!(downloader.progress(), 0);
}

#[test]
fn a_shared_buffer_is_cut_where_the_progress_stands() {
    let data = body(10, 24);
    let whole = Bytes::from(data.clone());
    let mut world = World::with(vec![Source::sending(&data, 4).closing_after(1), Source::refusing()]);
    assert_eq!(world.download(&info_of(&data), false), Outcome::Abandoned);
    assert_eq!(world.file, data[..4].to_vec());
    // a second downloader resumes at 4 within one buffer of the whole file
    let downloader = Downloader::new(&info_of(&data), 1, false);
    let (downloader, _) = downloader.step(Event::Done);
    let (downloader, _) = downloader.step(Event::Done);
    let (downloader, _) = downloader.step(Event::Done);
    let (downloader, _) = downloader.step(Event::Chunk(whole.slice(0..4)));
    let (downloader, _) = downloader.step(Event::Done);
    let (downloader, _) = downloader.step(Event::Done);
    let (downloader, _) = downloader.step(Event::Failed);
    let (downloader, _) = downloader.step(Event::Done);
    let (downloader, action) = downloader.step(Event::Done);
    assert_eq!(action, Action::NextChunk);
    let (downloader, action) = downloader.step(Event::Chunk(whole.clone()));
    assert_eq!(action, Action::WriteTail);
    assert_eq!(downloader.pending_tail(), &data[4..]);
    assert_eq!(whole.len(), 10);
    let (downloader, action) = downloader.step(Event::Done);
    assert_eq!(action, Action::Publish { progress: 10 });
    assert_eq!(downloader.progress(), 10);
}

#[test]
fn the_tail_is_counted_only_once_its_write_has_succeeded() {
    let data = body(10, 20);
    let downloader = Downloader::new(&info_of(&data), 1, false);
    let (downloader, _) = downloader.step(Event::Done);
    let (downloader, _) = downloader.step(Event::Done);
    let (downloader, action) = downloader.step(Event::Done);
    assert_eq!(action, Action::NextChunk);
    let (downloader, action) = downloader.step(Event::Chunk(Bytes::from(data[..4].to_vec())));
    assert_eq!(action, Action::WriteTail);
    assert_eq!(downloader.pending_tail(), &data[..4]);
    assert_eq!(downloader.progress(), 0);
    let (downloader, action) = downloader.step(Event::Done);
    assert_eq!(action, Action::Publish { progress: 4 });
    assert_eq!(downloader.progress(), 4);
    assert_eq!(downloader.pending_tail(), &b""[..]);
    let (downloader, action) = downloader.step(Event::Done);
    assert_eq!(action, Action::NextChunk);
    assert_eq!(downloader.phase(), Phase::Streaming);
}
