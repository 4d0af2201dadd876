//! The scan orchestrator: drains the item queue through the engine
//! registry and gathers one result per matching engine and item.
//!
//! The queue and the registry run as components of their own, so a scan is
//! a run of steps. [`ScanRun`] decides each step from the outcome of the
//! previous one and says, as a [`ScanAction`], what the caller should ask
//! of the components next.

use crate::engine::UserEngineError;
use crate::item::Materialized;
use crate::queue::QueueError;
use vstd::prelude::*;
use vstd::string::StringExecFns;

verus! {

/// Errors of the scan orchestrator.
#[derive(Debug)]
pub enum ScanMgrError {
    /// The scripting host is not running.
    NoLuaVm,
    /// The item queue is not running.
    NoQueue,
    /// The engine registry is not running.
    NoUserEngine,
    /// The scan orchestrator is not running.
    NoScanMgr,
}

/// The item of a scan result: its name, and its path where it came from a
/// file.
#[derive(Debug)]
pub struct DataItemResult {
    /// Name of the data item.
    pub name: String,
    /// Path of the data item, if it came from a file.
    pub path: Option<String>,
}

/// A request to scan every queued item against every engine. The reply
/// is the list of [`ScanResult`]s, or a [`ScanMgrError`].
pub struct InvokeScan;

/// One match: an engine and the item it matched.
#[derive(Debug)]
pub struct ScanResult {
    /// Name of the engine that matched.
    pub engine: String,
    /// The item that the engine matched.
    pub item: DataItemResult,
}

/// The results for one scanned item: one per matching engine, in the order
/// the engines are listed.
pub open spec fn results_for(item: DataItemResult, engines: Seq<String>) -> Seq<ScanResult> {
    engines.map_values(|e: String| ScanResult { engine: e, item })
}

/// The results of a run whose scanned items were `scanned`, in order, each
/// with the engines that matched it.
pub open spec fn run_results(scanned: Seq<(DataItemResult, Seq<String>)>) -> Seq<ScanResult>
    decreases scanned.len(),
{
    if scanned.len() == 0 {
        Seq::empty()
    } else {
        run_results(scanned.drop_last()) + results_for(scanned.last().0, scanned.last().1)
    }
}

/// The number of pairs of an item and an engine that matched it.
pub open spec fn match_count(scanned: Seq<(DataItemResult, Seq<String>)>) -> nat
    decreases scanned.len(),
{
    if scanned.len() == 0 {
        0
    } else {
        match_count(scanned.drop_last()) + scanned.last().1.len()
    }
}

/// A run yields one result per pair of a scanned item and an engine that
/// matched it, and nothing else: as many results as pairs, and the result
/// for engine `j` of item `k` at position `match_count(scanned.take(k)) + j`.
pub proof fn lemma_one_result_per_match(scanned: Seq<(DataItemResult, Seq<String>)>)
    ensures
        run_results(scanned).len() == match_count(scanned),
        forall|k: int, j: int|
            0 <= k < scanned.len() && 0 <= j < scanned[k].1.len() ==> match_count(
                #[trigger] scanned.take(k),
            ) + j < match_count(scanned) && run_results(scanned)[match_count(scanned.take(k)) + j]
                == (ScanResult { engine: #[trigger] scanned[k].1[j], item: scanned[k].0 }),
    decreases scanned.len(),
{
    if scanned.len() > 0 {
        let earlier = scanned.drop_last();
        let n = scanned.len() - 1;
        lemma_one_result_per_match(earlier);
        assert forall|k: int, j: int|
            0 <= k < scanned.len() && 0 <= j < scanned[k].1.len() implies match_count(
                #[trigger] scanned.take(k),
            ) + j < match_count(scanned) && run_results(scanned)[match_count(scanned.take(k)) + j]
                == (ScanResult { engine: #[trigger] scanned[k].1[j], item: scanned[k].0 }) by {
            if k < n {
                assert(scanned.take(k) =~= earlier.take(k));
                assert(earlier[k] == scanned[k]);
            } else {
                assert(scanned.take(k) =~= earlier);
            }
        }
    }
}

/// A warning raised while scanning, for the scripting host's diagnostics.
#[derive(Debug)]
pub enum ScanWarning {
    /// An item could not be loaded; it is skipped.
    LoadFailed(QueueError),
    /// The engines failed on an item; it is skipped.
    ScanFailed(DataItemResult),
}

/// What the caller of a [`ScanRun`] does next.
pub enum ScanAction {
    /// Ask the queue for its length, and hand it to [`ScanRun::on_length`].
    AskLength,
    /// Dequeue and materialize an item, and hand the outcome to
    /// [`ScanRun::on_dequeued`].
    AskDequeue,
    /// Scan these bytes against the engines, and hand the outcome to
    /// [`ScanRun::on_scanned`].
    AskScan(Vec<u8>),
    /// Deliver the warning, then ask the queue for its length.
    Warn(ScanWarning),
    /// The queue is empty: the scan is over, take [`ScanRun::finish`].
    Finish,
}

/// The step after the queue reported `len` items.
pub open spec fn length_step(len: usize) -> ScanAction {
    if len == 0 {
        ScanAction::Finish
    } else {
        ScanAction::AskDequeue
    }
}

/// The step after a dequeue gave `outcome`: the item then awaiting its
/// scan, and the action.
pub open spec fn dequeue_step(outcome: Result<Materialized, QueueError>) -> (
    Option<DataItemResult>,
    ScanAction,
) {
    match outcome {
        Ok((name, path, content)) => (
            Some(DataItemResult { name, path }),
            ScanAction::AskScan(content),
        ),
        Err(e) => (None, ScanAction::Warn(ScanWarning::LoadFailed(e))),
    }
}

/// What became of one dequeue in a run.
pub enum RunStep {
    /// The item could not be loaded and was skipped.
    LoadFailed,
    /// The item was scanned; these engines matched it.
    Scanned(DataItemResult, Seq<String>),
    /// The engines failed on the item, which was skipped.
    ScanFailed(DataItemResult),
}

/// The items of `history` that were scanned, in order, each with the
/// engines that matched it.
pub open spec fn scanned_of(history: Seq<RunStep>) -> Seq<(DataItemResult, Seq<String>)>
    decreases history.len(),
{
    if history.len() == 0 {
        Seq::empty()
    } else {
        match history.last() {
            RunStep::Scanned(item, engines) => scanned_of(history.drop_last()).push(
                (item, engines),
            ),
            _ => scanned_of(history.drop_last()),
        }
    }
}

/// One run of a scan: the results gathered so far, the item whose scan is
/// awaited, if any, and what became of each item dequeued so far.
pub struct ScanRun {
    results: Vec<ScanResult>,
    pending: Option<DataItemResult>,
    history: Ghost<Seq<RunStep>>,
}

impl View for ScanRun {
    type V = (Seq<ScanResult>, Option<DataItemResult>, Seq<RunStep>);

    closed spec fn view(&self) -> (Seq<ScanResult>, Option<DataItemResult>, Seq<RunStep>) {
        (self.results@, self.pending, self.history@)
    }
}

impl ScanRun {
    /// The results are those of the items scanned so far: one per item and
    /// engine that matched it, in the order of the items and engines.
    pub open spec fn wf(&self) -> bool {
        self@.0 == run_results(scanned_of(self@.2))
    }
}

/// A copy of an optional path.
fn copy_path(path: &Option<String>) -> (r: Option<String>)
    ensures
        r == *path,
{
    match path {
        Some(p) => Some(p.clone()),
        None => None,
    }
}

impl ScanRun {
    /// Begin a scan, given which components are running. Each must be: the
    /// first one that is not, in the order scripting host, queue, engine
    /// registry, gives the error, and no scan starts. The first step of a
    /// run is [`ScanAction::AskLength`].
    pub fn start(lua_vm_running: bool, queue_running: bool, engines_running: bool) -> (r: Result<
        ScanRun,
        ScanMgrError,
    >)
        ensures
            !lua_vm_running ==> r is Err && r->Err_0 is NoLuaVm,
            lua_vm_running && !queue_running ==> r is Err && r->Err_0 is NoQueue,
            lua_vm_running && queue_running && !engines_running ==> r is Err && r->Err_0 is NoUserEngine,
            lua_vm_running && queue_running && engines_running ==> r is Ok && r->Ok_0@ == (
            Seq::<ScanResult>::empty(),
            None::<DataItemResult>,
            Seq::<RunStep>::empty(),
            ) && r->Ok_0.wf(),
    {
        if !lua_vm_running {
            return Err(ScanMgrError::NoLuaVm);
        }
        if !queue_running {
            return Err(ScanMgrError::NoQueue);
        }
        if !engines_running {
            return Err(ScanMgrError::NoUserEngine);
        }
        let run = ScanRun { results: Vec::new(), pending: None, history: Ghost(Seq::empty()) };
        proof {
            assert(run@.0 =~= Seq::<ScanResult>::empty());
        }
        Ok(run)
    }

    /// The queue holds `len` items: finish when it is empty, else dequeue.
    pub fn on_length(&self, len: usize) -> (r: ScanAction)
        ensures
            r == length_step(len),
    {
        if len == 0 {
            ScanAction::Finish
        } else {
            ScanAction::AskDequeue
        }
    }

    /// A dequeue gave `outcome`. A materialized item is scanned next; an
    /// item that could not be loaded is skipped with a warning.
    pub fn on_dequeued(&mut self, outcome: Result<Materialized, QueueError>) -> (r: ScanAction)
        ensures
            final(self)@.0 == old(self)@.0,
            (final(self)@.1, r) == dequeue_step(outcome),
            final(self)@.2 == if outcome is Ok {
                old(self)@.2
            } else {
                old(self)@.2.push(RunStep::LoadFailed)
            },
            old(self).wf() ==> final(self).wf(),
    {
        match outcome {
            Ok((name, path, content)) => {
                self.pending = Some(DataItemResult { name, path });
                ScanAction::AskScan(content)
            },
            Err(e) => {
                self.pending = None;
                let ghost h = self.history@;
                self.history = Ghost(h.push(RunStep::LoadFailed));
                proof {
                    assert(self.history@.drop_last() =~= h);
                }
                ScanAction::Warn(ScanWarning::LoadFailed(e))
            },
        }
    }

    /// The scan of the awaited item gave `outcome`. Each matching engine
    /// adds one result for that item; a failed scan skips the item with a
    /// warning. Either way the queue's length is asked next. Without an
    /// awaited item the outcome is ignored.
    pub fn on_scanned(&mut self, outcome: Result<Vec<String>, UserEngineError>) -> (r: ScanAction)
        ensures
            final(self)@.1 is None,
            match old(self)@.1 {
                Some(item) => match outcome {
                    Ok(engines) => r is AskLength && final(self)@.0 == old(self)@.0 + results_for(
                        item,
                        engines@,
                    ) && final(self)@.2 == old(self)@.2.push(RunStep::Scanned(item, engines@)),
                    Err(_) => r == ScanAction::Warn(ScanWarning::ScanFailed(item))
                        && final(self)@.0 == old(self)@.0
                        && final(self)@.2 == old(self)@.2.push(RunStep::ScanFailed(item)),
                },
                None => r is AskLength && final(self)@.0 == old(self)@.0 && final(self)@.2 == old(
                    self,
                )@.2,
            },
            old(self).wf() ==> final(self).wf(),
    {
        let ghost h = self.history@;
        let pending = self.pending.take();
        match pending {
            None => ScanAction::AskLength,
            Some(item) => match outcome {
                Err(_) => {
                    self.history = Ghost(h.push(RunStep::ScanFailed(item)));
                    proof {
                        assert(self.history@.drop_last() =~= h);
                    }
                    ScanAction::Warn(ScanWarning::ScanFailed(item))
                },
                Ok(engines) => {
                    let ghost start = self.results@;
                    let mut k: usize = 0;
                    while k < engines.len()
                        invariant
                            k <= engines@.len(),
                            self.pending is None,
                            self.history@ == h,
                            self.results@ == start + results_for(item, engines@.subrange(0, k as int)),
                        decreases engines@.len() - k,
                    {
                        let name = item.name.clone();
                        let path = copy_path(&item.path);
                        let result = ScanResult {
                            engine: engines[k].clone(),
                            item: DataItemResult { name, path },
                        };
                        self.results.push(result);
                        proof {
                            assert(results_for(item, engines@.subrange(0, k as int + 1)) =~= results_for(
                                item,
                                engines@.subrange(0, k as int),
                            ).push(result));
                        }
                        k += 1;
                    }
                    self.history = Ghost(h.push(RunStep::Scanned(item, engines@)));
                    proof {
                        assert(engines@.subrange(0, engines@.len() as int) =~= engines@);
                        let hs = self.history@;
                        assert(hs.drop_last() =~= h);
                        assert(scanned_of(hs) == scanned_of(h).push((item, engines@)));
                        assert(scanned_of(h).push((item, engines@)).drop_last() =~= scanned_of(h));
                    }
                    ScanAction::AskLength
                },
            },
        }
    }

    /// End the run, handing over its results: one per scanned item and
    /// engine that matched it.
    pub fn finish(self) -> (r: Vec<ScanResult>)
        ensures
            r@ == self@.0,
            self.wf() ==> r@ == run_results(scanned_of(self@.2)),
    {
        self.results
    }
}

/// A run's results hold one result per pair of a scanned item and an
/// engine that matched it, and nothing else.
pub proof fn lemma_run_one_result_per_match(run: ScanRun)
    requires
        run.wf(),
    ensures
        run@.0.len() == match_count(scanned_of(run@.2)),
        forall|k: int, j: int|
            0 <= k < scanned_of(run@.2).len() && 0 <= j < scanned_of(run@.2)[k].1.len() ==> run@.0[
                match_count(#[trigger] scanned_of(run@.2).take(k)) + j
            ] == (ScanResult {
                engine: #[trigger] scanned_of(run@.2)[k].1[j],
                item: scanned_of(run@.2)[k].0,
            }),
{
    lemma_one_result_per_match(scanned_of(run@.2));
}

/// An item that was skipped, because it could not be loaded or the engines
/// failed on it, contributes nothing: the scanned items, and so the
/// results, are those of the same run without it.
pub proof fn lemma_skipped_item_contributes_nothing(history: Seq<RunStep>, k: int)
    requires
        0 <= k < history.len(),
        !(history[k] is Scanned),
    ensures
        scanned_of(history.remove(k)) == scanned_of(history),
        run_results(scanned_of(history.remove(k))) == run_results(scanned_of(history)),
    decreases history.len(),
{
    let n = history.len() - 1;
    if k == n {
        assert(history.remove(k) =~= history.drop_last());
    } else {
        let shorter = history.drop_last();
        lemma_skipped_item_contributes_nothing(shorter, k);
        let removed = history.remove(k);
        assert(removed.drop_last() =~= shorter.remove(k));
        assert(removed.last() == history.last());
    }
}

/// The header row of the CSV form of scan results.
pub const CSV_HEADER: &'static str = "\"Scan Engine\",\"Item Name\",\"Item Path\"";

/// The text of an optional path: the path, or nothing.
pub open spec fn path_text(path: Option<String>) -> Seq<char> {
    match path {
        Some(p) => p@,
        None => Seq::empty(),
    }
}

/// The CSV row of one result: engine, item name and item path, each in
/// double quotes, separated by commas.
pub open spec fn csv_row(r: ScanResult) -> Seq<char> {
    "\""@ + r.engine@ + "\",\""@ + r.item.name@ + "\",\""@ + path_text(r.item.path) + "\""@
}

/// Each of `rows` followed by a line break.
pub open spec fn lines(rows: Seq<Seq<char>>) -> Seq<char>
    decreases rows.len(),
{
    if rows.len() == 0 {
        Seq::empty()
    } else {
        lines(rows.drop_last()) + rows.last() + "\n"@
    }
}

/// The CSV rows of `results`, after the header row where `headers` is set.
pub open spec fn csv_rows(results: Seq<ScanResult>, headers: bool) -> Seq<Seq<char>> {
    (if headers {
        seq![CSV_HEADER@]
    } else {
        Seq::empty()
    }) + results.map_values(|r: ScanResult| csv_row(r))
}

/// The CSV form of `results`: its rows, one per line; a single line break
/// where there is no row.
pub open spec fn csv_text(results: Seq<ScanResult>, headers: bool) -> Seq<char> {
    if csv_rows(results, headers).len() == 0 {
        "\n"@
    } else {
        lines(csv_rows(results, headers))
    }
}

/// Render `results` as CSV, one row per result, after a header row where
/// `headers` is set. Fields are quoted as they are, without escaping.
pub fn results_csv(results: &Vec<ScanResult>, headers: bool) -> (r: String)
    ensures
        r@ == csv_text(results@, headers),
{
    let ghost first: Seq<Seq<char>> = if headers {
        seq![CSV_HEADER@]
    } else {
        Seq::empty()
    };
    let mut out = String::new();
    if headers {
        out.append(CSV_HEADER);
        out.append("\n");
        proof {
            assert(first.drop_last() =~= Seq::<Seq<char>>::empty());
            assert(lines(first.drop_last()) == Seq::<char>::empty());
            assert(first.last() == CSV_HEADER@);
            assert(out@ =~= lines(first));
        }
    } else {
        proof {
            assert(out@ =~= lines(first));
        }
    }
    let mut i: usize = 0;
    while i < results.len()
        invariant
            i <= results@.len(),
            first == (if headers {
                seq![CSV_HEADER@]
            } else {
                Seq::<Seq<char>>::empty()
            }),
            out@ == lines(first + results@.subrange(0, i as int).map_values(|r: ScanResult| csv_row(r))),
        decreases results@.len() - i,
    {
        let r = &results[i];
        let ghost before = out@;
        out.append("\"");
        out.append(r.engine.as_str());
        out.append("\",\"");
        out.append(r.item.name.as_str());
        out.append("\",\"");
        match &r.item.path {
            Some(p) => out.append(p.as_str()),
            None => {},
        }
        out.append("\"");
        out.append("\n");
        proof {
            let done = first + results@.subrange(0, i as int).map_values(|r: ScanResult| csv_row(r));
            let next = first + results@.subrange(0, i as int + 1).map_values(|r: ScanResult| csv_row(r));
            assert(next.drop_last() =~= done);
            assert(next.last() == csv_row(results@[i as int]));
            assert(out@ =~= before + csv_row(results@[i as int]) + "\n"@);
        }
        i += 1;
    }
    proof {
        assert(results@.subrange(0, results@.len() as int) =~= results@);
        assert(csv_rows(results@, headers) =~= first + results@.map_values(|r: ScanResult| csv_row(r)));
    }
    if !headers && results.len() == 0 {
        out.append("\n");
        proof {
            assert(out@ =~= "\n"@);
        }
    }
    out
}

} // verus!
