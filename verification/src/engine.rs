//! The ingestion engine: owns the resolution cache, the FIFO entry queue and
//! the lifecycle of the two external sessions. Each raw line is parsed,
//! enriched with its package (from the cache, or from a command-channel
//! round trip the caller performs), and appended to the queue in strict
//! arrival order; the consumer drains entries from the front without
//! blocking. Teardown marks both sessions terminated whatever state either
//! is in, and leaves queued entries drainable.

use vstd::prelude::*;
use crate::parse::{parse_line, parse_spec, EntryModel, LogEntry};
use crate::resolve::{assoc_find, command_for, command_spec, identity_of, Resolver};
use crate::text::split_ws;

verus! {

/// `m` with its package field replaced by `p`.
pub open spec fn with_package(m: EntryModel, p: Option<Seq<char>>) -> EntryModel {
    EntryModel { package: p, ..m }
}

/// Where one external session stands in its lifecycle.
pub enum SessionState {
    Running,
    Terminated,
}

/// What the engine decided about one raw line.
pub enum IngestOutcome {
    /// The line had fewer than six tokens and was dropped.
    Rejected,
    /// The entry's pid was cached; the finished entry is in the queue.
    Queued,
    /// The pid is not cached: the caller must send `command` over the
    /// command channel and hand the response to `complete_lookup`.
    NeedsLookup(LookupRequest),
}

/// A pending resolution: the parsed entry, the pid text it is keyed on, and
/// the command line that asks the command channel for its identity.
pub struct LookupRequest {
    pub pid_text: String,
    pub command: String,
    pub entry: LogEntry,
}

/// The log ingestion engine's state: cache, queue, and both session states.
pub struct Engine {
    resolver: Resolver,
    queue: Vec<LogEntry>,
    stream: SessionState,
    channel: SessionState,
}

impl Engine {
    /// The queued entries, oldest first.
    pub closed spec fn entries(&self) -> Seq<EntryModel> {
        self.queue@.map_values(|e: LogEntry| e@)
    }

    /// The pid-to-package bindings resolved so far, oldest first.
    pub closed spec fn cache_model(&self) -> Seq<(Seq<char>, Seq<char>)> {
        self.resolver.model()
    }

    /// The package the cache binds `pid` to, if any.
    pub open spec fn cached(&self, pid: Seq<char>) -> Option<Seq<char>> {
        assoc_find(self.cache_model(), pid)
    }

    /// The stream session's lifecycle state.
    pub closed spec fn stream_state(&self) -> SessionState {
        self.stream
    }

    /// The command channel session's lifecycle state.
    pub closed spec fn channel_state(&self) -> SessionState {
        self.channel
    }

    /// A fresh engine: both sessions running, nothing queued, nothing cached.
    pub fn new() -> (r: Engine)
        ensures
            r.entries() == Seq::<EntryModel>::empty(),
            r.cache_model() == Seq::<(Seq<char>, Seq<char>)>::empty(),
            r.stream_state() is Running,
            r.channel_state() is Running,
    {
        let r = Engine {
            resolver: Resolver::new(),
            queue: Vec::new(),
            stream: SessionState::Running,
            channel: SessionState::Running,
        };
        proof {
            assert(r.entries() =~= Seq::<EntryModel>::empty());
        }
        r
    }

    /// Takes one raw line from the stream. A line of fewer than six tokens
    /// is dropped with nothing queued and nothing cached. A parsed line
    /// whose pid is cached is queued at the tail at once, with the cached
    /// package and no round trip. Otherwise nothing is queued yet and the
    /// caller gets the command to send.
    pub fn ingest_line(&mut self, raw: &str) -> (o: IngestOutcome)
        ensures
            parse_spec(raw@) is None ==> o is Rejected
                && final(self).entries() == old(self).entries()
                && final(self).cache_model() == old(self).cache_model(),
            parse_spec(raw@) matches Some(m) ==> {
                let pid = split_ws(raw@)[2];
                match old(self).cached(pid) {
                    Some(pkg) => o is Queued
                        && final(self).entries() == old(self).entries().push(with_package(m, Some(pkg)))
                        && final(self).cache_model() == old(self).cache_model(),
                    None => o matches IngestOutcome::NeedsLookup(req)
                        && req.pid_text@ == pid
                        && req.command@ == command_spec(pid)
                        && req.entry@ == m
                        && final(self).entries() == old(self).entries()
                        && final(self).cache_model() == old(self).cache_model(),
                }
            },
            final(self).stream_state() == old(self).stream_state(),
            final(self).channel_state() == old(self).channel_state(),
    {
        match parse_line(raw) {
            None => IngestOutcome::Rejected,
            Some(parsed) => {
                match self.resolver.lookup(parsed.pid_text.as_str()) {
                    Some(pkg) => {
                        let mut entry = parsed.entry;
                        entry.package = Some(pkg);
                        let ghost q0 = self.entries();
                        self.queue.push(entry);
                        proof {
                            assert(self.entries() =~= q0.push(entry@));
                        }
                        IngestOutcome::Queued
                    },
                    None => {
                        let command = command_for(parsed.pid_text.as_str());
                        IngestOutcome::NeedsLookup(
                            LookupRequest { pid_text: parsed.pid_text, command, entry: parsed.entry },
                        )
                    },
                }
            },
        }
    }

    /// Finishes a pending resolution. A response caches the identity it
    /// resolves to and queues the entry with it; a failed round trip
    /// (`None`) queues the entry with no package and caches nothing. Either
    /// way the entry goes to the tail, behind everything queued before it.
    pub fn complete_lookup(&mut self, req: LookupRequest, response: Option<&str>) -> (pkg: Option<
        String,
    >)
        ensures
            response matches Some(raw) ==> {
                let id = identity_of(req.pid_text@, raw@);
                pkg matches Some(p) && p@ == id
                    && final(self).entries() == old(self).entries().push(
                    with_package(req.entry@, Some(id)),
                )
                    && final(self).cache_model() == old(self).cache_model().push(
                    (req.pid_text@, id),
                )
            },
            response is None ==> pkg is None
                && final(self).entries() == old(self).entries().push(
                with_package(req.entry@, None),
            )
                && final(self).cache_model() == old(self).cache_model(),
            final(self).stream_state() == old(self).stream_state(),
            final(self).channel_state() == old(self).channel_state(),
    {
        let mut entry = req.entry;
        let ghost q0 = self.entries();
        match response {
            Some(raw) => {
                let p = self.resolver.resolve_response(req.pid_text.as_str(), raw);
                entry.package = Some(p.clone());
                self.queue.push(entry);
                proof {
                    assert(self.entries() =~= q0.push(entry@));
                }
                Some(p)
            },
            None => {
                entry.package = None;
                self.queue.push(entry);
                proof {
                    assert(self.entries() =~= q0.push(entry@));
                }
                None
            },
        }
    }

    /// Removes and returns the oldest queued entry, or nothing when the
    /// queue is empty. Never blocks and never reorders.
    pub fn drain_one(&mut self) -> (r: Option<LogEntry>)
        ensures
            old(self).entries().len() == 0 ==> r is None
                && final(self).entries() == old(self).entries(),
            old(self).entries().len() > 0 ==> (r matches Some(e) && e@ == old(self).entries()[0]
                && final(self).entries() == old(self).entries().drop_first()),
            final(self).cache_model() == old(self).cache_model(),
            final(self).stream_state() == old(self).stream_state(),
            final(self).channel_state() == old(self).channel_state(),
    {
        if self.queue.len() == 0 {
            None
        } else {
            let ghost q0 = self.entries();
            let e = self.queue.remove(0);
            proof {
                assert(self.entries() =~= q0.drop_first());
            }
            Some(e)
        }
    }

    /// Tears the engine down: both external sessions are terminated,
    /// whatever state either was in, and whatever happened to the other.
    /// Entries already queued stay drainable.
    pub fn teardown(&mut self)
        ensures
            final(self).stream_state() is Terminated,
            final(self).channel_state() is Terminated,
            final(self).entries() == old(self).entries(),
            final(self).cache_model() == old(self).cache_model(),
    {
        self.stream = SessionState::Terminated;
        self.channel = SessionState::Terminated;
    }

    /// Whether both external sessions have been terminated.
    pub fn sessions_terminated(&self) -> (r: bool)
        ensures
            r == (self.stream_state() is Terminated && self.channel_state() is Terminated),
    {
        match (&self.stream, &self.channel) {
            (SessionState::Terminated, SessionState::Terminated) => true,
            _ => false,
        }
    }

    /// How many entries are queued.
    pub fn queue_len(&self) -> (n: usize)
        ensures
            n == self.entries().len(),
    {
        self.queue.len()
    }
}

/// The sequence a full drain of the queue yields: each step returns the
/// oldest entry and leaves the rest, as `drain_one` does.
pub open spec fn drain_all(q: Seq<EntryModel>) -> Seq<EntryModel>
    decreases q.len(),
{
    if q.len() == 0 {
        Seq::empty()
    } else {
        seq![q.first()] + drain_all(q.drop_first())
    }
}

/// Entries leave the queue in exactly the order their source lines were
/// queued: draining everything yields the queued sequence itself, however
/// long each entry's resolution took before it was appended.
pub proof fn lemma_drain_preserves_arrival_order(q: Seq<EntryModel>)
    ensures
        drain_all(q) == q,
    decreases q.len(),
{
    if q.len() == 0 {
        assert(drain_all(q) =~= q);
    } else {
        lemma_drain_preserves_arrival_order(q.drop_first());
        assert(drain_all(q) =~= q);
    }
}

/// A pid resolved once stays resolved to the identical package: whatever
/// bindings for other pids are added later, a lookup still answers from the
/// cache with the original value, so no further round trip happens.
pub proof fn lemma_resolution_is_stable(
    m: Seq<(Seq<char>, Seq<char>)>,
    later: Seq<(Seq<char>, Seq<char>)>,
    pid: Seq<char>,
    pkg: Seq<char>,
)
    requires
        assoc_find(m, pid) == Some(pkg),
        forall|j: int| 0 <= j < later.len() ==> later[j].0 != pid,
    ensures
        assoc_find(m + later, pid) == Some(pkg),
    decreases later.len(),
{
    if later.len() == 0 {
        assert(m + later =~= m);
    } else {
        lemma_resolution_is_stable(m, later.drop_last(), pid, pkg);
        assert((m + later).drop_last() =~= m + later.drop_last());
        assert((m + later).last() == later.last());
    }
}

} // verus!
