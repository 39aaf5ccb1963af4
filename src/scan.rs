//! The windowed scan that both sync engines run: which block to fetch next,
//! when a window closes, and which checkpoint it persists.
//!
//! The engine's caller performs the actions (fetch a block's receipts, write a
//! window to the store) and reports their outcome as events.
use vstd::prelude::*;
use crate::codec::CodecError;
use crate::records::StoreEntry;

verus! {

/// Number of blocks a window spans beyond its first block.
pub const WINDOW: u64 = 100;

/// The checkpoint of a store that holds none yet.
pub const GENESIS_BLOCK: u64 = 19972300;

/// Where a scan stands.
#[derive(Debug, Clone, Copy, PartialEq, Eq, Structural)]
pub enum ScanPhase {
    /// Scanning the window that ends at `end`, inclusive; `next` is the block to fetch.
    Scanning { end: u64, next: u64 },
    /// The window is over; `checkpoint` is to be persisted with its records.
    /// `last` when the scan stops after that.
    Closing { checkpoint: u64, last: bool },
    /// The scan is over.
    Done,
    /// The scan stopped on an error that is not recovered; the open window
    /// was not persisted.
    Failed { error: CodecError },
}

/// What the caller is to do next.
#[derive(Debug, Clone, Copy, PartialEq, Eq, Structural)]
pub enum ScanAction {
    /// Fetch the receipts of this block.
    FetchBlock(u64),
    /// Write this checkpoint and the pending records to the store, in one transaction.
    PersistWindow { checkpoint: u64 },
    /// Stop.
    Finish,
    /// Stop, and report this error to the caller.
    Fail { error: CodecError },
}

/// What came of the last action.
pub enum ScanEvent {
    /// The block was fetched; these are the records it gives rise to.
    BlockScanned { entries: Vec<StoreEntry> },
    /// The block's receipts could not be fetched.
    FetchFailed,
    /// The window's checkpoint and records were written.
    WindowPersisted,
    /// The run was cancelled.
    Halted,
    /// A committed batch could not be decoded: the run stops with this error.
    Failed { error: CodecError },
}

/// One engine's scan over the blocks after its checkpoint.
pub struct WindowScan {
    checkpoint: u64,
    target: u64,
    phase: ScanPhase,
    pending: Vec<StoreEntry>,
}

/// A scan as plain values.
pub struct ScanView {
    /// The last block fully processed, as persisted.
    pub checkpoint: u64,
    /// The latest block when the run began.
    pub target: u64,
    pub phase: ScanPhase,
    /// Records of the current window not yet persisted.
    pub pending: Seq<(Seq<char>, Seq<u8>)>,
}

impl View for WindowScan {
    type V = ScanView;

    closed spec fn view(&self) -> ScanView {
        ScanView {
            checkpoint: self.checkpoint,
            target: self.target,
            phase: self.phase,
            pending: entries_view(self.pending@),
        }
    }
}

/// Store entries as plain values.
pub open spec fn entries_view(es: Seq<StoreEntry>) -> Seq<(Seq<char>, Seq<u8>)> {
    es.map_values(|e: StoreEntry| (e.key@, e.value@))
}

/// The checkpoint a run starts from.
pub open spec fn start_checkpoint(stored: Option<u64>) -> u64 {
    match stored {
        Some(c) => c,
        None => GENESIS_BLOCK,
    }
}

/// The last block of the window that opens at `from`.
pub open spec fn window_end(from: u64, target: u64) -> u64 {
    if target - from > WINDOW {
        (from + WINDOW) as u64
    } else {
        target
    }
}

/// The phase after checkpoint `from`: the next window, if blocks remain.
pub open spec fn open_window(from: u64, target: u64) -> ScanPhase {
    if from < target {
        ScanPhase::Scanning { end: window_end(from, target), next: from }
    } else {
        ScanPhase::Done
    }
}

/// The scan's invariant.
pub open spec fn scan_wf(s: ScanView) -> bool {
    match s.phase {
        ScanPhase::Scanning { end, next } => s.checkpoint <= next <= end <= s.target && s.checkpoint < end,
        ScanPhase::Closing { checkpoint, .. } => s.checkpoint <= checkpoint <= s.target,
        ScanPhase::Done => true,
        ScanPhase::Failed { .. } => true,
    }
}

/// The action a scan asks for.
pub open spec fn action_spec(s: ScanView) -> ScanAction {
    match s.phase {
        ScanPhase::Scanning { next, .. } => ScanAction::FetchBlock(next),
        ScanPhase::Closing { checkpoint, .. } => ScanAction::PersistWindow { checkpoint },
        ScanPhase::Done => ScanAction::Finish,
        ScanPhase::Failed { error } => ScanAction::Fail { error },
    }
}

/// The checkpoint a window persists when block `failed` could not be fetched:
/// the block before it, and never less than the checkpoint it began from.
pub open spec fn truncated_checkpoint(checkpoint: u64, failed: u64) -> u64 {
    if failed > checkpoint {
        (failed - 1) as u64
    } else {
        checkpoint
    }
}

/// The scan after event `ev`.
pub open spec fn step_spec(s: ScanView, ev: ScanEvent) -> ScanView {
    match s.phase {
        ScanPhase::Scanning { end, next } => match ev {
            ScanEvent::BlockScanned { entries } => ScanView {
                checkpoint: s.checkpoint,
                target: s.target,
                phase: if next == end {
                    ScanPhase::Closing { checkpoint: end, last: false }
                } else {
                    ScanPhase::Scanning { end, next: (next + 1) as u64 }
                },
                pending: s.pending + entries_view(entries@),
            },
            ScanEvent::FetchFailed => ScanView {
                checkpoint: s.checkpoint,
                target: s.target,
                phase: ScanPhase::Closing { checkpoint: truncated_checkpoint(s.checkpoint, next), last: true },
                pending: s.pending,
            },
            ScanEvent::Halted => ScanView {
                checkpoint: s.checkpoint,
                target: s.target,
                phase: ScanPhase::Done,
                pending: Seq::empty(),
            },
            ScanEvent::Failed { error } => ScanView {
                checkpoint: s.checkpoint,
                target: s.target,
                phase: ScanPhase::Failed { error },
                pending: Seq::empty(),
            },
            ScanEvent::WindowPersisted => s,
        },
        ScanPhase::Closing { checkpoint, last } => match ev {
            ScanEvent::WindowPersisted => ScanView {
                checkpoint,
                target: s.target,
                phase: if last { ScanPhase::Done } else { open_window(checkpoint, s.target) },
                pending: Seq::empty(),
            },
            ScanEvent::Halted => ScanView {
                checkpoint: s.checkpoint,
                target: s.target,
                phase: ScanPhase::Done,
                pending: Seq::empty(),
            },
            _ => s,
        },
        ScanPhase::Done => s,
        ScanPhase::Failed { .. } => s,
    }
}

/// The scan after the events `evs`, in order.
pub open spec fn run_spec(s: ScanView, evs: Seq<ScanEvent>) -> ScanView
    decreases evs.len(),
{
    if evs.len() == 0 {
        s
    } else {
        step_spec(run_spec(s, evs.drop_last()), evs.last())
    }
}

/// The records that a sequence of scanned blocks gives rise to, in order.
pub open spec fn scanned_entries(evs: Seq<ScanEvent>) -> Seq<(Seq<char>, Seq<u8>)>
    decreases evs.len(),
{
    if evs.len() == 0 {
        Seq::empty()
    } else {
        scanned_entries(evs.drop_last()) + match evs.last() {
            ScanEvent::BlockScanned { entries } => entries_view(entries@),
            _ => Seq::empty(),
        }
    }
}

/// The checkpoint a run starts from: the stored one, or the genesis block
/// when the store holds none.
pub fn initial_checkpoint(stored: Option<u64>) -> (r: u64)
    ensures
        r == start_checkpoint(stored),
{
    match stored {
        Some(c) => c,
        None => GENESIS_BLOCK,
    }
}

/// Whether a committed batch of a block was fetched and decoded.
pub open spec fn commit_ok(o: Option<Result<StoreEntry, CodecError>>) -> bool {
    o matches Some(Ok(_))
}

/// Whether the batch at `k` is the first of `outs` that failed.
pub open spec fn first_failure_at(outs: Seq<Option<Result<StoreEntry, CodecError>>>, k: int) -> bool {
    0 <= k < outs.len() && !commit_ok(outs[k]) && forall|i: int| 0 <= i < k ==> commit_ok(#[trigger] outs[i])
}

/// The record of a committed batch that was fetched and decoded.
pub open spec fn commit_entry(o: Option<Result<StoreEntry, CodecError>>) -> (Seq<char>, Seq<u8>) {
    match o {
        Some(Ok(e)) => (e.key@, e.value@),
        _ => (Seq::empty(), Seq::empty()),
    }
}

/// The event that a rollup block gives, from what became of its committed
/// batches in order: `None` where the committing transaction could not be
/// fetched, else what decoding its call data gave. The block is scanned when
/// every batch decoded; the first failure decides otherwise: a fetch failure
/// cuts the window short, a decoding failure stops the run with its error.
pub fn rollup_block_event(outcomes: Vec<Option<Result<StoreEntry, CodecError>>>) -> (r: ScanEvent)
    ensures
        r matches ScanEvent::BlockScanned { entries } ==> ((forall|i: int| 0 <= i < outcomes@.len() ==> commit_ok(#[trigger] outcomes@[i]))
            && entries_view(entries@) == outcomes@.map_values(|o: Option<Result<StoreEntry, CodecError>>| commit_entry(o))),
        r is FetchFailed ==> exists|k: int| #[trigger] first_failure_at(outcomes@, k) && outcomes@[k] is None,
        r matches ScanEvent::Failed { error } ==> exists|k: int| #[trigger] first_failure_at(outcomes@, k)
            && outcomes@[k] == Some(Err::<StoreEntry, CodecError>(error)),
        !(r is Halted),
        !(r is WindowPersisted),
{
    let ghost all = outcomes@;
    let total = outcomes.len();
    let mut rest = outcomes;
    let mut entries: Vec<StoreEntry> = Vec::new();
    let mut i: usize = 0;
    while rest.len() > 0
        invariant
            all == outcomes@,
            all.len() == total,
            i <= all.len(),
            rest@ == all.skip(i as int),
            forall|j: int| 0 <= j < i ==> commit_ok(#[trigger] all[j]),
            entries_view(entries@) == all.take(i as int).map_values(|o: Option<Result<StoreEntry, CodecError>>| commit_entry(o)),
        decreases rest@.len(),
    {
        let outcome = rest.remove(0);
        assert(outcome == all[i as int]);
        match outcome {
            None => {
                assert(first_failure_at(all, i as int) && all[i as int] is None);
                return ScanEvent::FetchFailed;
            },
            Some(Err(error)) => {
                assert(first_failure_at(all, i as int) && all[i as int] == Some(Err::<StoreEntry, CodecError>(error)));
                return ScanEvent::Failed { error };
            },
            Some(Ok(entry)) => {
                let ghost before = entries@;
                let ghost pair = (entry.key@, entry.value@);
                assert(commit_entry(all[i as int]) == pair);
                entries.push(entry);
                assert(entries_view(entries@) =~= entries_view(before).push(pair));
                assert(all.take(i as int + 1).map_values(|o: Option<Result<StoreEntry, CodecError>>| commit_entry(o))
                    =~= all.take(i as int).map_values(|o: Option<Result<StoreEntry, CodecError>>| commit_entry(o)).push(pair));
            },
        }
        i = i + 1;
    }
    assert(all.take(i as int) == all);
    ScanEvent::BlockScanned { entries }
}

impl WindowScan {
    /// The invariant of the scan.
    pub open spec fn wf(&self) -> bool {
        scan_wf(self@)
    }

    /// A scan from the stored checkpoint (or the genesis block) up to
    /// `latest`, the chain's latest block.
    pub fn new(stored: Option<u64>, latest: u64) -> (r: WindowScan)
        ensures
            r.wf(),
            r@.checkpoint == start_checkpoint(stored),
            r@.target == latest,
            r@.phase == open_window(start_checkpoint(stored), latest),
            r@.pending == Seq::<(Seq<char>, Seq<u8>)>::empty(),
    {
        let checkpoint = initial_checkpoint(stored);
        let r = WindowScan { checkpoint, target: latest, phase: next_window(checkpoint, latest), pending: Vec::new() };
        assert(r@.pending =~= Seq::<(Seq<char>, Seq<u8>)>::empty());
        r
    }

    /// The last block fully processed.
    pub fn checkpoint(&self) -> (r: u64)
        ensures
            r == self@.checkpoint,
    {
        self.checkpoint
    }

    /// Where the scan stands.
    pub fn phase(&self) -> (r: ScanPhase)
        ensures
            r == self@.phase,
    {
        self.phase
    }

    /// The records of the current window not yet persisted.
    pub fn pending_entries(&self) -> (r: &Vec<StoreEntry>)
        ensures
            entries_view(r@) == self@.pending,
    {
        &self.pending
    }

    /// What the caller is to do next.
    pub fn action(&self) -> (r: ScanAction)
        ensures
            r == action_spec(self@),
    {
        match self.phase {
            ScanPhase::Scanning { next, .. } => ScanAction::FetchBlock(next),
            ScanPhase::Closing { checkpoint, .. } => ScanAction::PersistWindow { checkpoint },
            ScanPhase::Done => ScanAction::Finish,
            ScanPhase::Failed { error } => ScanAction::Fail { error },
        }
    }

    /// Takes in what came of the last action.
    pub fn step(&mut self, ev: ScanEvent)
        requires
            old(self).wf(),
        ensures
            final(self).wf(),
            final(self)@ == step_spec(old(self)@, ev),
    {
        let ghost before = self@;
        proof { lemma_step_wf(before, ev); }
        match self.phase {
            ScanPhase::Scanning { end, next } => match ev {
                ScanEvent::BlockScanned { entries } => {
                    let mut entries = entries;
                    let ghost added = entries@;
                    self.pending.append(&mut entries);
                    assert(entries_view(self.pending@) =~= before.pending + entries_view(added));
                    if next == end {
                        self.phase = ScanPhase::Closing { checkpoint: end, last: false };
                    } else {
                        self.phase = ScanPhase::Scanning { end, next: next + 1 };
                    }
                },
                ScanEvent::FetchFailed => {
                    let checkpoint = if next > self.checkpoint { next - 1 } else { self.checkpoint };
                    self.phase = ScanPhase::Closing { checkpoint, last: true };
                },
                ScanEvent::Halted => {
                    self.phase = ScanPhase::Done;
                    self.pending = Vec::new();
                    assert(self@.pending =~= Seq::<(Seq<char>, Seq<u8>)>::empty());
                },
                ScanEvent::Failed { error } => {
                    self.phase = ScanPhase::Failed { error };
                    self.pending = Vec::new();
                    assert(self@.pending =~= Seq::<(Seq<char>, Seq<u8>)>::empty());
                },
                ScanEvent::WindowPersisted => {},
            },
            ScanPhase::Closing { checkpoint, last } => match ev {
                ScanEvent::WindowPersisted => {
                    self.checkpoint = checkpoint;
                    self.phase = if last { ScanPhase::Done } else { next_window(checkpoint, self.target) };
                    self.pending = Vec::new();
                    assert(self@.pending =~= Seq::<(Seq<char>, Seq<u8>)>::empty());
                },
                ScanEvent::Halted => {
                    self.phase = ScanPhase::Done;
                    self.pending = Vec::new();
                    assert(self@.pending =~= Seq::<(Seq<char>, Seq<u8>)>::empty());
                },
                _ => {},
            },
            ScanPhase::Done => {},
            ScanPhase::Failed { .. } => {},
        }
    }
}

/// The phase after checkpoint `from`: the next window, if blocks remain.
pub fn next_window(from: u64, target: u64) -> (r: ScanPhase)
    ensures
        r == open_window(from, target),
{
    if from < target {
        let end = if target - from > WINDOW { from + WINDOW } else { target };
        ScanPhase::Scanning { end, next: from }
    } else {
        ScanPhase::Done
    }
}

/// Every event keeps the invariant and never lowers the checkpoint; a window
/// always persists a checkpoint no lower than the one it began from.
pub proof fn lemma_step_wf(s: ScanView, ev: ScanEvent)
    requires
        scan_wf(s),
    ensures
        scan_wf(step_spec(s, ev)),
        step_spec(s, ev).checkpoint >= s.checkpoint,
        step_spec(s, ev).target == s.target,
{
}

/// The checkpoint is monotonic: whatever happens during a run, the
/// checkpoint after it, and every checkpoint a window asks to persist, is at
/// least the checkpoint the run began from.
pub proof fn lemma_checkpoint_monotonic(s: ScanView, evs: Seq<ScanEvent>)
    requires
        scan_wf(s),
    ensures
        scan_wf(run_spec(s, evs)),
        run_spec(s, evs).checkpoint >= s.checkpoint,
        action_spec(run_spec(s, evs)) matches ScanAction::PersistWindow { checkpoint }
            ==> checkpoint >= s.checkpoint,
    decreases evs.len(),
{
    if evs.len() > 0 {
        lemma_checkpoint_monotonic(s, evs.drop_last());
        lemma_step_wf(run_spec(s, evs.drop_last()), evs.last());
    }
}

/// Blocks fetched one after another inside a window move the scan to the
/// next block and collect their records.
proof fn lemma_scanned_prefix(s: ScanView, evs: Seq<ScanEvent>, end: u64)
    requires
        scan_wf(s),
        s.phase == (ScanPhase::Scanning { end, next: s.checkpoint }),
        s.pending == Seq::<(Seq<char>, Seq<u8>)>::empty(),
        s.checkpoint + evs.len() <= end,
        forall|j: int| 0 <= j < evs.len() ==> #[trigger] evs[j] is BlockScanned,
    ensures
        run_spec(s, evs).phase == (ScanPhase::Scanning { end, next: (s.checkpoint + evs.len()) as u64 }),
        run_spec(s, evs).checkpoint == s.checkpoint,
        run_spec(s, evs).pending == scanned_entries(evs),
    decreases evs.len(),
{
    if evs.len() > 0 {
        let prefix = evs.drop_last();
        assert forall|j: int| 0 <= j < prefix.len() implies #[trigger] prefix[j] is BlockScanned by {
            assert(prefix[j] == evs[j]);
        }
        lemma_scanned_prefix(s, prefix, end);
        assert(evs.last() == evs[evs.len() - 1]);
    }
}

/// A fetch failure at block `failed`, after the window's blocks before it
/// were scanned, closes the window at the block before `failed`, keeps the
/// records of the scanned blocks, and stops the scan once they are persisted.
pub proof fn lemma_partial_window_commit(s: ScanView, scanned: Seq<ScanEvent>, end: u64, failed: u64)
    requires
        scan_wf(s),
        s.phase == (ScanPhase::Scanning { end, next: s.checkpoint }),
        s.pending == Seq::<(Seq<char>, Seq<u8>)>::empty(),
        failed == s.checkpoint + scanned.len(),
        s.checkpoint < failed <= end,
        forall|j: int| 0 <= j < scanned.len() ==> #[trigger] scanned[j] is BlockScanned,
    ensures
        action_spec(run_spec(s, scanned.push(ScanEvent::FetchFailed)))
            == (ScanAction::PersistWindow { checkpoint: (failed - 1) as u64 }),
        run_spec(s, scanned.push(ScanEvent::FetchFailed)).pending == scanned_entries(scanned),
        run_spec(s, scanned.push(ScanEvent::FetchFailed).push(ScanEvent::WindowPersisted)).checkpoint
            == failed - 1,
        run_spec(s, scanned.push(ScanEvent::FetchFailed).push(ScanEvent::WindowPersisted)).phase
            == ScanPhase::Done,
{
    lemma_scanned_prefix(s, scanned, end);
    let failing = scanned.push(ScanEvent::FetchFailed);
    assert(failing.drop_last() == scanned);
    assert(failing.push(ScanEvent::WindowPersisted).drop_last() == failing);
}

/// A batch that does not decode stops the run with its error: whatever is
/// reported afterwards, the scan asks to report that error, keeps the
/// checkpoint it had, and persists nothing of the open window.
pub proof fn lemma_codec_failure_stops_run(s: ScanView, error: CodecError, later: Seq<ScanEvent>)
    requires
        scan_wf(s),
        s.phase is Scanning,
    ensures
        ({
            let after = run_spec(s, seq![ScanEvent::Failed { error }] + later);
            after.phase == (ScanPhase::Failed { error }) && action_spec(after) == (ScanAction::Fail { error })
                && after.checkpoint == s.checkpoint
                && after.pending == Seq::<(Seq<char>, Seq<u8>)>::empty()
        }),
    decreases later.len(),
{
    let evs = seq![ScanEvent::Failed { error }] + later;
    if later.len() == 0 {
        assert(evs == seq![ScanEvent::Failed { error }]);
        assert(evs.drop_last() == Seq::<ScanEvent>::empty());
        assert(evs.last() == ScanEvent::Failed { error });
        assert(run_spec(s, evs.drop_last()) == s);
    } else {
        lemma_codec_failure_stops_run(s, error, later.drop_last());
        assert(evs.drop_last() == seq![ScanEvent::Failed { error }] + later.drop_last());
        let before = run_spec(s, evs.drop_last());
        assert(before.phase == (ScanPhase::Failed { error }));
        assert(step_spec(before, evs.last()) == before);
    }
}

} // verus!
