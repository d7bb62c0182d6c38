//! A whole transfer run: the triggers switched off, each row transferred in
//! its own transaction, the triggers switched on again, as the decisions
//! between the calls that the application makes (database, user interface).

use vstd::prelude::*;
use crate::ident::qualified_ident;
use crate::model::{AuditEntry, RowStatus, TransferRow, TransferSummary, TriggerCfg};
use crate::preview::{collect_trigger_pairs, join, pair_views, trigger_pairs, trim_str};
use crate::transfer::{
    failure_text, row_action_of, row_expects, row_next_phase, row_start, success_text, Reply,
    RowAction, RowFailure, RowPhase, RowSuccess, RowTransfer,
};
use crate::text::{cat2, cat3, cat4, cat5, trim};

verus! {

/// Why a run stopped before its rows.
pub enum RunError {
    NoRows,
    Invalid(String),
    Db(String),
    ProcedureMissing,
    DisableFailed(usize, String),
}

fn copy_error(e: &RunError) -> (r: RunError)
    ensures
        r == *e,
{
    match e {
        RunError::NoRows => RunError::NoRows,
        RunError::Invalid(s) => RunError::Invalid(s.clone()),
        RunError::Db(s) => RunError::Db(s.clone()),
        RunError::ProcedureMissing => RunError::ProcedureMissing,
        RunError::DisableFailed(k, s) => RunError::DisableFailed(*k, s.clone()),
    }
}

/// A row that failed, with the audit error if its `ERROR` line could not be written either.
pub struct RowError {
    pub index: usize,
    pub failure: RowFailure,
    pub audit_error: Option<String>,
}

/// Where a run stands.
pub enum RunPhase {
    Connect,
    CheckProcedure,
    AuditTable,
    GuardTable,
    LogIdentity,
    TrigCheck(usize),
    TrigPending(usize),
    LogAlready(usize),
    TrigReenable(usize, i64),
    TrigResolveOrphan(usize, i64),
    LogOrphan(usize),
    TrigRegister(usize),
    TrigDisable(usize, i64),
    LogDisabled(usize),
    UnwindFailed(usize, i64, String),
    UnwindEnable(usize, usize, String),
    UnwindResolve(usize, usize, String),
    SkipOn,
    LogSkipOn,
    Rows(usize),
    LogCancelled,
    LogRunning(usize),
    Row(usize, RowTransfer),
    AuditError(usize, RowFailure),
    LogRowOk(usize, RowSuccess),
    LogRowFailed(usize),
    Progress(usize),
    SkipOff,
    LogSkipOff(Option<String>),
    Restore(usize),
    RestoreResolve(usize),
    LogReenabled(usize),
    Alert,
    Done(Result<(), RunError>),
}

/// The state of a run, as the contracts see it.
pub struct RunModel {
    pub pairs: Seq<(String, String)>,
    pub rows: Seq<TransferRow>,
    pub codes: Seq<(String, String)>,
    pub cari_tipi: i32,
    pub user_id: i32,
    pub son_deg_guncelle: bool,
    pub skip_key: String,
    pub machine: String,
    pub user: String,
    pub phase: RunPhase,
    pub disabled: Seq<(usize, i64)>,
    pub ok: usize,
    pub failed: usize,
    pub errors: Seq<RowError>,
    pub skip_set: bool,
    pub restore_errors: Seq<(usize, String)>,
    /// Why the run stops once its triggers are switched on again, if it failed
    /// before its rows.
    pub abort: Option<RunError>,
}

pub open spec fn with_phase(m: RunModel, p: RunPhase) -> RunModel {
    RunModel { phase: p, ..m }
}

/// The index into the trigger pairs of the `j`-th trigger to switch on again:
/// the last one switched off comes first.
pub open spec fn restore_target(m: RunModel, j: int) -> int {
    m.disabled[m.disabled.len() - 1 - j].0 as int
}

pub open spec fn restore_guard(m: RunModel, j: int) -> i64 {
    m.disabled[m.disabled.len() - 1 - j].1
}

pub open spec fn restore_from(m: RunModel, j: int) -> RunPhase {
    if j < m.disabled.len() {
        RunPhase::Restore(j as usize)
    } else if m.restore_errors.len() == 0 {
        run_end(m)
    } else {
        RunPhase::Alert
    }
}

/// How a run ends once its triggers are back on: with the failure that cut
/// it short, if any.
pub open spec fn run_end(m: RunModel) -> RunPhase {
    match m.abort {
        Some(e) => RunPhase::Done(Err(e)),
        None => RunPhase::Done(Ok(())),
    }
}

/// A database failure while the triggers are being switched off, or while the
/// skip flag is being set: the triggers this run has switched off are switched
/// on again first, then the run ends with the failure.
pub open spec fn abort_run(m: RunModel, e: String) -> RunModel {
    let m2 = RunModel { abort: Some(RunError::Db(e)), ..m };
    with_phase(m2, restore_from(m2, 0))
}

pub open spec fn after_rows(m: RunModel) -> RunPhase {
    if m.skip_set {
        RunPhase::SkipOff
    } else {
        restore_from(m, 0)
    }
}

pub open spec fn rows_from(m: RunModel, i: int) -> RunPhase {
    if i < m.rows.len() {
        RunPhase::Rows(i as usize)
    } else {
        after_rows(m)
    }
}

pub open spec fn after_triggers(m: RunModel) -> RunPhase {
    if m.skip_key@.len() > 0 {
        RunPhase::SkipOn
    } else {
        rows_from(m, 0)
    }
}

pub open spec fn next_trigger(m: RunModel, k: int) -> RunPhase {
    if k < m.pairs.len() {
        RunPhase::TrigCheck(k as usize)
    } else {
        after_triggers(m)
    }
}

pub open spec fn unwind_from(m: RunModel, j: int, k: usize, e: String) -> RunPhase {
    if j < m.disabled.len() {
        RunPhase::UnwindEnable(j as usize, k, e)
    } else {
        RunPhase::Done(Err(RunError::DisableFailed(k, e)))
    }
}

/// Row `i` as it starts.
pub open spec fn start_row(m: RunModel, i: int) -> RowTransfer {
    RowTransfer {
        eski: m.codes[i].0,
        yeni: m.codes[i].1,
        sil: m.rows[i].sil,
        cari_tipi: m.cari_tipi,
        user_id: m.user_id,
        son_deg_guncelle: m.son_deg_guncelle,
        phase: row_start(m.codes[i].0@, m.codes[i].1@),
    }
}

/// Row `i` is at `rt`: counted as soon as it is done.
pub open spec fn enter_row(m: RunModel, i: usize, rt: RowTransfer) -> RunModel {
    match rt.phase {
        RowPhase::Done(Ok(s)) => RunModel { ok: (m.ok + 1) as usize, phase: RunPhase::LogRowOk(i, s), ..m },
        RowPhase::Done(Err(f)) => with_phase(m, RunPhase::AuditError(i, f)),
        _ => with_phase(m, RunPhase::Row(i, rt)),
    }
}

/// What a reply must be in the current phase.
pub open spec fn run_expects(m: RunModel, r: Reply) -> bool {
    match m.phase {
        RunPhase::CheckProcedure | RunPhase::TrigCheck(_) | RunPhase::Rows(_) => r is Flag,
        RunPhase::TrigPending(_) => r is MaybeId,
        RunPhase::TrigRegister(_) => r is Id,
        RunPhase::Row(_, rt) => row_expects(rt.phase, r),
        RunPhase::Done(_) => false,
        _ => r is Unit,
    }
}

/// The run after reply `r`.
pub open spec fn run_next(m: RunModel, r: Reply) -> RunModel {
    match m.phase {
        RunPhase::Connect => match r {
            Reply::Unit(Err(e)) => with_phase(m, RunPhase::Done(Err(RunError::Db(e)))),
            _ => with_phase(m, RunPhase::CheckProcedure),
        },
        RunPhase::CheckProcedure => match r {
            Reply::Flag(Err(e)) => with_phase(m, RunPhase::Done(Err(RunError::Db(e)))),
            Reply::Flag(Ok(false)) => with_phase(m, RunPhase::Done(Err(RunError::ProcedureMissing))),
            _ => with_phase(m, RunPhase::AuditTable),
        },
        RunPhase::AuditTable => match r {
            Reply::Unit(Err(e)) => with_phase(m, RunPhase::Done(Err(RunError::Db(e)))),
            _ => with_phase(m, RunPhase::GuardTable),
        },
        RunPhase::GuardTable => match r {
            Reply::Unit(Err(e)) => with_phase(m, RunPhase::Done(Err(RunError::Db(e)))),
            _ => with_phase(m, RunPhase::LogIdentity),
        },
        RunPhase::LogIdentity => with_phase(m, next_trigger(m, 0)),
        RunPhase::TrigCheck(k) => match r {
            Reply::Flag(Err(e)) => abort_run(m, e),
            Reply::Flag(Ok(true)) => with_phase(m, RunPhase::TrigPending(k)),
            _ => with_phase(m, RunPhase::TrigRegister(k)),
        },
        RunPhase::TrigPending(k) => match r {
            Reply::MaybeId(Err(e)) => abort_run(m, e),
            Reply::MaybeId(Ok(Some(g))) => with_phase(m, RunPhase::TrigReenable(k, g)),
            _ => with_phase(m, RunPhase::LogAlready(k)),
        },
        RunPhase::LogAlready(k) => with_phase(m, next_trigger(m, k + 1)),
        RunPhase::TrigReenable(k, g) => match r {
            Reply::Unit(Err(e)) => abort_run(m, e),
            _ => with_phase(m, RunPhase::TrigResolveOrphan(k, g)),
        },
        RunPhase::TrigResolveOrphan(k, g) => match r {
            Reply::Unit(Err(e)) => abort_run(m, e),
            _ => with_phase(m, RunPhase::LogOrphan(k)),
        },
        RunPhase::LogOrphan(k) => with_phase(m, RunPhase::TrigRegister(k)),
        RunPhase::TrigRegister(k) => match r {
            Reply::Id(Err(e)) => abort_run(m, e),
            Reply::Id(Ok(id)) => with_phase(m, RunPhase::TrigDisable(k, id)),
            _ => m,
        },
        RunPhase::TrigDisable(k, id) => match r {
            Reply::Unit(Err(e)) => with_phase(m, RunPhase::UnwindFailed(k, id, e)),
            _ => RunModel { disabled: m.disabled.push((k, id)), phase: RunPhase::LogDisabled(k), ..m },
        },
        RunPhase::LogDisabled(k) => with_phase(m, next_trigger(m, k + 1)),
        RunPhase::UnwindFailed(k, _, e) => with_phase(m, unwind_from(m, 0, k, e)),
        RunPhase::UnwindEnable(j, k, e) => with_phase(m, RunPhase::UnwindResolve(j, k, e)),
        RunPhase::UnwindResolve(j, k, e) => with_phase(m, unwind_from(m, j + 1, k, e)),
        RunPhase::SkipOn => match r {
            Reply::Unit(Err(e)) => abort_run(m, e),
            _ => RunModel { skip_set: true, phase: RunPhase::LogSkipOn, ..m },
        },
        RunPhase::LogSkipOn => with_phase(m, rows_from(m, 0)),
        RunPhase::Rows(i) => match r {
            Reply::Flag(Ok(true)) => with_phase(m, RunPhase::LogCancelled),
            _ => with_phase(m, RunPhase::LogRunning(i)),
        },
        RunPhase::LogCancelled => with_phase(m, after_rows(m)),
        RunPhase::LogRunning(i) => enter_row(m, i, start_row(m, i as int)),
        RunPhase::Row(i, rt) => enter_row(m, i, RowTransfer { phase: row_next_phase(rt, r), ..rt }),
        RunPhase::AuditError(i, f) => RunModel {
            errors: m.errors.push(
                RowError {
                    index: i,
                    failure: f,
                    audit_error: match r {
                        Reply::Unit(Err(ae)) => Some(ae),
                        _ => None,
                    },
                },
            ),
            failed: (m.failed + 1) as usize,
            phase: RunPhase::LogRowFailed(i),
            ..m
        },
        RunPhase::LogRowOk(i, _) => with_phase(m, RunPhase::Progress(i)),
        RunPhase::LogRowFailed(i) => with_phase(m, RunPhase::Progress(i)),
        RunPhase::Progress(i) => with_phase(m, rows_from(m, i + 1)),
        RunPhase::SkipOff => with_phase(
            m,
            RunPhase::LogSkipOff(
                match r {
                    Reply::Unit(Err(e)) => Some(e),
                    _ => None,
                },
            ),
        ),
        RunPhase::LogSkipOff(_) => with_phase(m, restore_from(m, 0)),
        RunPhase::Restore(j) => match r {
            Reply::Unit(Err(e)) => {
                let m2 = RunModel {
                    restore_errors: m.restore_errors.push((restore_target(m, j as int) as usize, e)),
                    ..m
                };
                with_phase(m2, restore_from(m2, j + 1))
            },
            _ => with_phase(m, RunPhase::RestoreResolve(j)),
        },
        RunPhase::RestoreResolve(j) => with_phase(m, RunPhase::LogReenabled(j)),
        RunPhase::LogReenabled(j) => with_phase(m, restore_from(m, j + 1)),
        RunPhase::Alert => with_phase(m, run_end(m)),
        RunPhase::Done(_) => m,
    }
}


/// The facts that hold of every state of a run.
pub open spec fn run_wf(m: RunModel) -> bool {
    base_wf(m) && phase_wf(m)
}

/// The facts of `run_wf` that do not depend on the phase.
pub open spec fn base_wf(m: RunModel) -> bool {
    &&& m.rows.len() <= usize::MAX
    &&& m.disabled.len() <= m.pairs.len()
    &&& m.pairs.len() <= usize::MAX
    &&& m.disabled.len() <= usize::MAX
    &&& m.codes.len() == m.rows.len()
    &&& forall|i: int|
        0 <= i < m.rows.len() ==> (#[trigger] m.codes[i]).0@ == trim(m.rows[i].eski@) && m.codes[i].1@
            == trim(m.rows[i].yeni@)
    &&& forall|j: int| 0 <= j < m.disabled.len() ==> ((#[trigger] m.disabled[j]).0 as int) < m.pairs.len()
    &&& forall|j: int|
        0 <= j < m.restore_errors.len() ==> ((#[trigger] m.restore_errors[j]).0 as int) < m.pairs.len()
    &&& forall|j: int| 0 <= j < m.errors.len() ==> ((#[trigger] m.errors[j]).index as int) < m.rows.len()
    &&& m.errors.len() == m.failed
    &&& (m.abort matches Some(e) ==> e is Db)
    &&& m.ok + m.failed <= m.rows.len()
}

pub open spec fn phase_wf(m: RunModel) -> bool {
    let np = m.pairs.len();
    let n = m.rows.len();
    let d = m.disabled.len();
    let fresh = m.ok + m.failed == 0;
    match m.phase {
        RunPhase::Connect => fresh && d == 0,
        RunPhase::CheckProcedure => fresh && d == 0,
        RunPhase::AuditTable => fresh && d == 0,
        RunPhase::GuardTable => fresh && d == 0,
        RunPhase::LogIdentity => fresh && d == 0,
        RunPhase::SkipOn => fresh,
        RunPhase::LogSkipOn => fresh,
        RunPhase::TrigCheck(k) => k < np && fresh && d <= k,
        RunPhase::TrigPending(k) => k < np && fresh && d <= k,
        RunPhase::LogAlready(k) => k < np && fresh && d <= k,
        RunPhase::TrigReenable(k, _) => k < np && fresh && d <= k,
        RunPhase::TrigResolveOrphan(k, _) => k < np && fresh && d <= k,
        RunPhase::LogOrphan(k) => k < np && fresh && d <= k,
        RunPhase::TrigRegister(k) => k < np && fresh && d <= k,
        RunPhase::TrigDisable(k, _) => k < np && fresh && d <= k,
        RunPhase::LogDisabled(k) => k < np && fresh && d <= k + 1,
        RunPhase::UnwindFailed(k, _, _) => k < np && fresh,
        RunPhase::UnwindEnable(j, k, _) => j < d && k < np && fresh,
        RunPhase::UnwindResolve(j, k, _) => j < d && k < np && fresh,
        RunPhase::Done(Err(RunError::DisableFailed(k, _))) => k < np,
        RunPhase::Rows(i) => i < n && m.ok + m.failed == i,
        RunPhase::LogRunning(i) => i < n && m.ok + m.failed == i,
        RunPhase::AuditError(i, _) => i < n && m.ok + m.failed == i,
        RunPhase::Row(i, rt) => i < n && m.ok + m.failed == i && !(rt.phase is Done),
        RunPhase::LogRowOk(i, _) => i < n && m.ok + m.failed == i + 1,
        RunPhase::Progress(i) => i < n && m.ok + m.failed == i + 1,
        RunPhase::LogRowFailed(i) => i < n && m.ok + m.failed == i + 1 && m.errors.len() > 0
            && m.errors.last().index == i,
        RunPhase::Restore(j) => j < d,
        RunPhase::RestoreResolve(j) => j < d,
        RunPhase::LogReenabled(j) => j < d,
        _ => true,
    }
}

proof fn lemma_enter_row_wf(m: RunModel, i: usize, rt: RowTransfer)
    requires
        base_wf(m),
        i < m.rows.len(),
        m.ok + m.failed == i,
    ensures
        run_wf(enter_row(m, i, rt)),
{
    let m2 = enter_row(m, i, rt);
    match rt.phase {
        RowPhase::Done(Ok(s)) => {
            assert(m2.ok + m2.failed == i + 1);
            assert(phase_wf(m2));
        },
        RowPhase::Done(Err(f)) => {
            assert(phase_wf(m2));
        },
        _ => {
            assert(phase_wf(m2));
        },
    }
}

proof fn lemma_rows_from_wf(m: RunModel, i: int)
    requires
        base_wf(m),
        0 <= i,
        i < m.rows.len() ==> m.ok + m.failed == i,
        forall|j: int| 0 <= j < m.disabled.len() ==> ((#[trigger] m.disabled[j]).0 as int) < m.pairs.len(),
    ensures
        run_wf(with_phase(m, rows_from(m, i))),
{
}

/// Every step of a run keeps the facts of `run_wf`: the rows before the
/// current one are counted exactly once (as moved or as failed, each failure
/// with its error), and every trigger index held is one of the run's triggers.
pub proof fn law_run_next_keeps_wf(m: RunModel, r: Reply)
    requires
        run_wf(m),
        run_expects(m, r),
    ensures
        run_wf(run_next(m, r)),
{
    let m2 = run_next(m, r);
    match m.phase {
        RunPhase::TrigDisable(k, id) => {
            if !(r matches Reply::Unit(Err(_))) {
                assert forall|j: int| 0 <= j < m2.disabled.len() implies ((#[trigger] m2.disabled[j]).0 as int) < m2.pairs.len() by {
                    if j < m.disabled.len() {
                        assert(m2.disabled[j] == m.disabled[j]);
                    } else {
                        assert(m2.disabled[j] == (k, id));
                    }
                }
                assert(run_wf(m2));
            } else {
                assert(run_wf(m2));
            }
        },
        RunPhase::AuditError(i, f) => {
            assert forall|j: int| 0 <= j < m2.errors.len() implies ((#[trigger] m2.errors[j]).index as int) < m2.rows.len() by {
                if j < m.errors.len() {
                    assert(m2.errors[j] == m.errors[j]);
                }
            }
            assert(run_wf(m2));
        },
        RunPhase::Restore(j) => {
            if let Reply::Unit(Err(e)) = r {
                assert forall|x: int| 0 <= x < m2.restore_errors.len() implies ((#[trigger] m2.restore_errors[x]).0 as int) < m2.pairs.len() by {
                    if x < m.restore_errors.len() {
                        assert(m2.restore_errors[x] == m.restore_errors[x]);
                    } else {
                        let t = m.disabled[m.disabled.len() - 1 - j];
                        assert((t.0 as int) < m.pairs.len());
                    }
                }
            }
            assert(run_wf(m2));
        },
        RunPhase::LogRunning(i) => {
            lemma_enter_row_wf(m, i, start_row(m, i as int));
        },
        RunPhase::Row(i, rt) => {
            lemma_enter_row_wf(m, i, RowTransfer { phase: row_next_phase(rt, r), ..rt });
        },
        RunPhase::Progress(i) => {
            lemma_rows_from_wf(m, i + 1);
        },
        RunPhase::LogSkipOn => {
            lemma_rows_from_wf(m, 0);
        },
        RunPhase::SkipOn => {
            assert(run_wf(m2));
        },
        RunPhase::LogDisabled(k) => {
            lemma_rows_from_wf(m, 0);
            assert(run_wf(m2));
        },
        RunPhase::LogAlready(k) => {
            lemma_rows_from_wf(m, 0);
            assert(run_wf(m2));
        },
        RunPhase::LogIdentity => {
            lemma_rows_from_wf(m, 0);
            assert(run_wf(m2));
        },
        RunPhase::UnwindFailed(..) => {
            assert(run_wf(m2));
        },
        RunPhase::UnwindResolve(..) => {
            assert(run_wf(m2));
        },
        RunPhase::LogCancelled => {
            assert(run_wf(m2));
        },
        RunPhase::LogSkipOff(_) => {
            assert(run_wf(m2));
        },
        RunPhase::LogReenabled(_) => {
            assert(run_wf(m2));
        },
        RunPhase::TrigPending(_) => {
            assert(run_wf(m2));
        },
        RunPhase::TrigRegister(_) => {
            assert(run_wf(m2));
        },
        _ => {
            assert(run_wf(m2));
        },
    }
}


/// A line of the audit table, as the application writes it.
pub struct AuditLine {
    pub client_machine: String,
    pub client_user: String,
    pub eski: String,
    pub yeni: String,
    pub cari_tipi: i32,
    pub sil: bool,
    /// `true` for an `OK` line, `false` for an `ERROR` line.
    pub ok: bool,
    pub message: String,
}

impl AuditLine {
    /// The line as the audit table's writer takes it.
    pub fn entry(&self) -> (e: AuditEntry<'_>)
        ensures
            e.client_machine@ == self.client_machine@,
            e.client_user@ == self.client_user@,
            e.eski@ == self.eski@,
            e.yeni@ == self.yeni@,
            e.cari_tipi == self.cari_tipi,
            e.sil == self.sil,
            e.result@ == (if self.ok {
                "OK"@
            } else {
                "ERROR"@
            }),
            e.message@ == self.message@,
    {
        AuditEntry {
            client_machine: self.client_machine.as_str(),
            client_user: self.client_user.as_str(),
            eski: self.eski.as_str(),
            yeni: self.yeni.as_str(),
            cari_tipi: self.cari_tipi,
            sil: self.sil,
            result: if self.ok {
                "OK"
            } else {
                "ERROR"
            },
            message: self.message.as_str(),
        }
    }
}

/// What the user interface is told.
pub enum Notice {
    /// A line of the `log` event.
    Log(String),
    /// A `row-status` event.
    Status(RowStatus),
    /// A `progress` event.
    Progress { done: usize, total: usize },
    /// The `trigger-alert` event.
    Alert(String),
}

/// The next call a run asks the application for.
pub enum RunAction {
    /// Open the connection; reply `Unit`.
    Connect,
    /// Does `dbo.msp_CariKodunuDegistir` exist? Reply `Flag`.
    CheckProcedure,
    /// Create the audit table if missing; reply `Unit`.
    EnsureAuditTable,
    /// Create the trigger guard table if missing; reply `Unit`.
    EnsureGuardTable,
    /// Is the trigger switched off? Reply `Flag`.
    IsDisabled { trigger: String },
    /// The open guard record of the trigger, if any; reply `MaybeId`.
    PendingGuard { trigger: String, table: String },
    /// `ENABLE`/`DISABLE TRIGGER`; reply `Unit`.
    SetTrigger { trigger: String, table: String, enable: bool },
    /// Close a guard record with a note; reply `Unit`.
    ResolveGuard { guard_id: i64, note: &'static str },
    /// Open a guard record; reply `Id`.
    RegisterGuard { trigger: String, table: String, machine: String, user: String },
    /// Switch the session's order check skip flag; reply `Unit`.
    SetSkipControl { key: String, on: bool },
    /// Has the user asked to stop? Reply `Flag`.
    CheckCancel,
    /// A call of the current row.
    Row(RowAction),
    /// Write an audit line; reply `Unit`.
    Audit(AuditLine),
    /// Tell the user interface; reply `Unit`.
    Notify(Notice),
    /// Nothing left: take the outcome.
    Finished,
}

pub open spec fn row_error_text(m: RunModel, e: RowError) -> Seq<char> {
    failure_text(e.failure, m.codes[e.index as int].0@, m.codes[e.index as int].1@) + match e.audit_error {
        Some(ae) => " | HATA denetim kaydı da yazılamadı: "@ + ae@,
        None => Seq::empty(),
    }
}

pub open spec fn error_line(m: RunModel, e: RowError) -> Seq<char> {
    m.rows[e.index as int].eski@ + " → "@ + m.rows[e.index as int].yeni@ + ": "@ + row_error_text(m, e)
}

pub open spec fn restore_line(m: RunModel, x: (usize, String)) -> Seq<char> {
    "ENABLE TRIGGER "@ + m.pairs[x.0 as int].0@ + " ON "@ + m.pairs[x.0 as int].1@ + " ("@ + x.1@ + ")"@
}

pub open spec fn critical_text(m: RunModel) -> Seq<char> {
    "KRİTİK: Bazı trigger'lar geri açılamadı. SSMS'te çalıştırın:\n"@ + join(
        Seq::new(m.restore_errors.len(), |k: int| restore_line(m, m.restore_errors[k])),
        seq!['\n'],
    )
}

pub open spec fn trigger_message(m: RunModel) -> Seq<char> {
    if m.disabled.len() == 0 {
        "Trigger yönetimi atlandı."@
    } else if m.restore_errors.len() == 0 {
        "Tüm trigger'lar tekrar etkinleştirildi."@
    } else {
        critical_text(m)
    }
}

pub open spec fn run_error_text(m: RunModel, e: RunError) -> Seq<char> {
    match e {
        RunError::NoRows => "Aktarılacak satır yok."@,
        RunError::Invalid(s) => s@,
        RunError::Db(s) => s@,
        RunError::ProcedureMissing => "dbo.msp_CariKodunuDegistir bu veritabanında bulunamadı. Aktarım iptal edildi — yanlış veritabanına bağlanmış olabilirsiniz."@,
        RunError::DisableFailed(k, s) => "'"@ + m.pairs[k as int].0@ + "' devre dışı bırakılamadı: "@ + s@
            + ". Önceden kapatılan trigger'lar geri açılmaya çalışıldı."@,
    }
}

pub open spec fn is_log(a: RunAction, text: Seq<char>) -> bool {
    a matches RunAction::Notify(Notice::Log(s)) && s@ == text
}

pub open spec fn is_status(a: RunAction, m: RunModel, i: int, status: Seq<char>, message: Seq<char>) -> bool {
    a matches RunAction::Notify(Notice::Status(st)) && st.index == i && st.eski@ == m.rows[i].eski@
        && st.yeni@ == m.rows[i].yeni@ && st.status@ == status && st.message@ == message
}

pub open spec fn is_set_trigger(a: RunAction, m: RunModel, k: int, enable: bool) -> bool {
    a matches RunAction::SetTrigger { trigger, table, enable: en } && trigger@ == m.pairs[k].0@
        && table@ == m.pairs[k].1@ && en == enable
}

pub open spec fn is_resolve(a: RunAction, id: i64, note: Seq<char>) -> bool {
    a matches RunAction::ResolveGuard { guard_id, note: n } && guard_id == id && n@ == note
}

/// `a` is the call that the run asks for in its current phase.
pub open spec fn run_action_fits(m: RunModel, a: RunAction) -> bool {
    match m.phase {
        RunPhase::Connect => a is Connect,
        RunPhase::CheckProcedure => a is CheckProcedure,
        RunPhase::AuditTable => a is EnsureAuditTable,
        RunPhase::GuardTable => a is EnsureGuardTable,
        RunPhase::LogIdentity => is_log(a, "SQL denetim kaydı etkin: "@ + m.machine@ + " / "@ + m.user@),
        RunPhase::TrigCheck(k) => a matches RunAction::IsDisabled { trigger } && trigger@ == m.pairs[k as int].0@,
        RunPhase::TrigPending(k) => a matches RunAction::PendingGuard { trigger, table } && trigger@
            == m.pairs[k as int].0@ && table@ == m.pairs[k as int].1@,
        RunPhase::LogAlready(k) => is_log(a, "Trigger zaten devre dışı: "@ + m.pairs[k as int].0@),
        RunPhase::TrigReenable(k, _) => is_set_trigger(a, m, k as int, true),
        RunPhase::TrigResolveOrphan(_, g) => is_resolve(a, g, "Sonraki çalıştırmada otomatik kurtarıldı"@),
        RunPhase::LogOrphan(k) => is_log(
            a,
            "Önceki işlemden açık kalan trigger otomatik geri açıldı: "@ + m.pairs[k as int].0@,
        ),
        RunPhase::TrigRegister(k) => a matches RunAction::RegisterGuard { trigger, table, machine, user }
            && trigger@ == m.pairs[k as int].0@ && table@ == m.pairs[k as int].1@ && machine@ == m.machine@
            && user@ == m.user@,
        RunPhase::TrigDisable(k, _) => is_set_trigger(a, m, k as int, false),
        RunPhase::LogDisabled(k) => is_log(
            a,
            "Trigger devre dışı bırakıldı: "@ + m.pairs[k as int].0@ + " ON "@ + m.pairs[k as int].1@,
        ),
        RunPhase::UnwindFailed(_, id, _) => is_resolve(a, id, "Disable başarısız"@),
        RunPhase::UnwindEnable(j, _, _) => is_set_trigger(a, m, restore_target(m, j as int), true),
        RunPhase::UnwindResolve(j, _, _) => is_resolve(a, restore_guard(m, j as int), "Disable zinciri geri alındı"@),
        RunPhase::SkipOn => a matches RunAction::SetSkipControl { key, on } && key@ == m.skip_key@ && on,
        RunPhase::LogSkipOn => is_log(
            a,
            "Sipariş kontrolü bu oturumda atlanıyor (session-context: "@ + m.skip_key@
                + "). Diğer kullanıcılar etkilenmez."@,
        ),
        RunPhase::Rows(_) => a is CheckCancel,
        RunPhase::LogCancelled => is_log(a, "İptal edildi — kalan satırlar atlandı."@),
        RunPhase::LogRunning(i) => is_status(a, m, i as int, "running"@, "İşleniyor…"@),
        RunPhase::Row(_, rt) => match rt.phase {
            RowPhase::Audit(s) => a matches RunAction::Audit(line) && line.client_machine@ == m.machine@
                && line.client_user@ == m.user@ && line.eski@ == rt.eski@ && line.yeni@ == rt.yeni@
                && line.cari_tipi == rt.cari_tipi && line.sil == rt.sil && line.ok && line.message@
                == success_text(s),
            _ => a matches RunAction::Row(ra) && crate::transfer::row_action_fits(rt, ra),
        },
        RunPhase::AuditError(i, f) => a matches RunAction::Audit(line) && line.client_machine@ == m.machine@
            && line.client_user@ == m.user@ && line.eski@ == m.rows[i as int].eski@ && line.yeni@
            == m.rows[i as int].yeni@ && line.cari_tipi == m.cari_tipi && line.sil == m.rows[i as int].sil
            && !line.ok && line.message@ == failure_text(f, m.codes[i as int].0@, m.codes[i as int].1@),
        RunPhase::LogRowOk(i, s) => is_status(a, m, i as int, "ok"@, success_text(s)),
        RunPhase::LogRowFailed(i) => is_status(a, m, i as int, "error"@, row_error_text(m, m.errors.last())),
        RunPhase::Progress(i) => a matches RunAction::Notify(Notice::Progress { done, total }) && done == i + 1
            && total == m.rows.len(),
        RunPhase::SkipOff => a matches RunAction::SetSkipControl { key, on } && key@ == m.skip_key@ && !on,
        RunPhase::LogSkipOff(None) => is_log(a, "Sipariş kontrolü geri açıldı (session-context temizlendi)."@),
        RunPhase::LogSkipOff(Some(e)) => is_log(
            a,
            "Uyarı: session-context temizlenemedi: "@ + e@ + " (bağlantı kapanınca otomatik silinir)"@,
        ),
        RunPhase::Restore(j) => is_set_trigger(a, m, restore_target(m, j as int), true),
        RunPhase::RestoreResolve(j) => is_resolve(a, restore_guard(m, j as int), "Normal akışta geri açıldı"@),
        RunPhase::LogReenabled(j) => is_log(
            a,
            "Trigger tekrar etkinleştirildi: "@ + m.pairs[restore_target(m, j as int)].0@,
        ),
        RunPhase::Alert => a matches RunAction::Notify(Notice::Alert(s)) && s@ == critical_text(m),
        RunPhase::Done(_) => a is Finished,
    }
}


/// A transfer run: what the application does next, and what it is told.
pub struct RunTransfer {
    pairs: Vec<(String, String)>,
    rows: Vec<TransferRow>,
    codes: Vec<(String, String)>,
    cari_tipi: i32,
    user_id: i32,
    son_deg_guncelle: bool,
    skip_key: String,
    machine: String,
    user: String,
    phase: RunPhase,
    disabled: Vec<(usize, i64)>,
    ok: usize,
    failed: usize,
    errors: Vec<RowError>,
    skip_set: bool,
    restore_errors: Vec<(usize, String)>,
    abort: Option<RunError>,
}

impl View for RunTransfer {
    type V = RunModel;

    closed spec fn view(&self) -> RunModel {
        RunModel {
            pairs: self.pairs@,
            rows: self.rows@,
            codes: self.codes@,
            cari_tipi: self.cari_tipi,
            user_id: self.user_id,
            son_deg_guncelle: self.son_deg_guncelle,
            skip_key: self.skip_key,
            machine: self.machine,
            user: self.user,
            phase: self.phase,
            disabled: self.disabled@,
            ok: self.ok,
            failed: self.failed,
            errors: self.errors@,
            skip_set: self.skip_set,
            restore_errors: self.restore_errors@,
            abort: self.abort,
        }
    }
}

impl RunTransfer {
    /// Prepares a run: refused at once when there is no row, or when a
    /// trigger or table name is refused (every entry is validated but those
    /// with name and table both blank, which are skipped as in the preview); else it
    /// starts by connecting. Codes are trimmed; the skip key is trimmed.
    pub fn new(
        rows: Vec<TransferRow>,
        triggers: &[TriggerCfg],
        cari_tipi: i32,
        user_id: i32,
        son_deg_guncelle: bool,
        skip_control_key: &str,
        machine: String,
        user: String,
    ) -> (t: RunTransfer)
        ensures
            run_wf(t@),
            t@.rows == rows@,
            t@.cari_tipi == cari_tipi,
            t@.user_id == user_id,
            t@.son_deg_guncelle == son_deg_guncelle,
            t@.skip_key@ == trim(skip_control_key@),
            t@.machine == machine,
            t@.user == user,
            t@.disabled.len() == 0,
            t@.ok == 0,
            t@.failed == 0,
            !t@.skip_set,
            t@.restore_errors.len() == 0,
            t@.abort is None,
            rows@.len() == 0 ==> t@.phase == RunPhase::Done(Err(RunError::NoRows)),
            rows@.len() > 0 ==> match trigger_pairs(triggers@, true) {
                Ok(ps) => t@.phase is Connect && pair_views(t@.pairs) == ps,
                Err(e) => t@.phase matches RunPhase::Done(Err(RunError::Invalid(s))) && s@ == e,
            },
    {
        let mut codes: Vec<(String, String)> = Vec::new();
        let mut i: usize = 0;
        while i < rows.len()
            invariant
                i <= rows@.len(),
                codes@.len() == i,
                forall|k: int|
                    0 <= k < i ==> (#[trigger] codes@[k]).0@ == trim(rows@[k].eski@) && codes@[k].1@
                        == trim(rows@[k].yeni@),
            decreases rows.len() - i,
        {
            let e = String::from_str(trim_str(rows[i].eski.as_str()));
            let y = String::from_str(trim_str(rows[i].yeni.as_str()));
            codes.push((e, y));
            i = i + 1;
        }
        let mut pairs: Vec<(String, String)> = Vec::new();
        let phase = if rows.len() == 0 {
            RunPhase::Done(Err(RunError::NoRows))
        } else {
            match collect_trigger_pairs(triggers, true) {
                Ok(p) => {
                    pairs = p;
                    RunPhase::Connect
                },
                Err(e) => RunPhase::Done(Err(RunError::Invalid(e))),
            }
        };
        let np = pairs.len();
        assert(pairs@.len() == np);
        let t = RunTransfer {
            pairs,
            rows,
            codes,
            cari_tipi,
            user_id,
            son_deg_guncelle,
            skip_key: String::from_str(trim_str(skip_control_key)),
            machine,
            user,
            phase,
            disabled: Vec::new(),
            ok: 0,
            failed: 0,
            errors: Vec::new(),
            skip_set: false,
            restore_errors: Vec::new(),
            abort: None,
        };
        assert(t@.codes.len() == t@.rows.len());
        assert(t@.rows.len() <= usize::MAX);
        assert(t@.pairs.len() <= usize::MAX);
        assert(base_wf(t@));
        assert(phase_wf(t@));
        t
    }

    pub fn is_done(&self) -> (r: bool)
        ensures
            r == self@.phase is Done,
    {
        match self.phase {
            RunPhase::Done(_) => true,
            _ => false,
        }
    }

    /// Is `reply` of the kind the current action asks for?
    pub fn expects(&self, reply: &Reply) -> (r: bool)
        ensures
            r == run_expects(self@, *reply),
    {
        match &self.phase {
            RunPhase::CheckProcedure | RunPhase::TrigCheck(_) | RunPhase::Rows(_) => match reply {
                Reply::Flag(_) => true,
                _ => false,
            },
            RunPhase::TrigPending(_) => match reply {
                Reply::MaybeId(_) => true,
                _ => false,
            },
            RunPhase::TrigRegister(_) => match reply {
                Reply::Id(_) => true,
                _ => false,
            },
            RunPhase::Row(_, rt) => match rt.phase {
                RowPhase::CountOld | RowPhase::CountNew => match reply {
                    Reply::Count(_) => true,
                    _ => false,
                },
                RowPhase::Rename | RowPhase::Insert(_) => match reply {
                    Reply::Affected(_) => true,
                    _ => false,
                },
                RowPhase::Columns => match reply {
                    Reply::Columns(_) => true,
                    _ => false,
                },
                RowPhase::Done(_) => false,
                _ => match reply {
                    Reply::Unit(_) => true,
                    _ => false,
                },
            },
            RunPhase::Done(_) => false,
            _ => match reply {
                Reply::Unit(_) => true,
                _ => false,
            },
        }
    }

    fn restore_from(&self, j: usize) -> (p: RunPhase)
        ensures
            p == restore_from(self@, j as int),
    {
        if j < self.disabled.len() {
            RunPhase::Restore(j)
        } else if self.restore_errors.len() == 0 {
            self.end()
        } else {
            RunPhase::Alert
        }
    }

    fn end(&self) -> (p: RunPhase)
        ensures
            p == run_end(self@),
    {
        match &self.abort {
            Some(e) => RunPhase::Done(Err(copy_error(e))),
            None => RunPhase::Done(Ok(())),
        }
    }

    /// Records a failure that cuts the run short and turns to switching the
    /// triggers on again.
    fn abort_with(&mut self, e: String)
        requires
            old(self)@.phase == RunPhase::Connect,
        ensures
            final(self)@ == abort_run(with_phase(old(self)@, RunPhase::Connect), e),
    {
        self.abort = Some(RunError::Db(e));
        self.phase = self.restore_from(0);
    }

    fn after_rows(&self) -> (p: RunPhase)
        ensures
            p == after_rows(self@),
    {
        if self.skip_set {
            RunPhase::SkipOff
        } else {
            self.restore_from(0)
        }
    }

    fn rows_from(&self, i: usize) -> (p: RunPhase)
        ensures
            p == rows_from(self@, i as int),
    {
        if i < self.rows.len() {
            RunPhase::Rows(i)
        } else {
            self.after_rows()
        }
    }

    fn after_triggers(&self) -> (p: RunPhase)
        ensures
            p == after_triggers(self@),
    {
        if self.skip_key.unicode_len() > 0 {
            RunPhase::SkipOn
        } else {
            self.rows_from(0)
        }
    }

    fn next_trigger(&self, k: usize) -> (p: RunPhase)
        ensures
            p == next_trigger(self@, k as int),
    {
        if k < self.pairs.len() {
            RunPhase::TrigCheck(k)
        } else {
            self.after_triggers()
        }
    }

    fn unwind_from(&self, j: usize, k: usize, e: String) -> (p: RunPhase)
        ensures
            p == unwind_from(self@, j as int, k, e),
    {
        if j < self.disabled.len() {
            RunPhase::UnwindEnable(j, k, e)
        } else {
            RunPhase::Done(Err(RunError::DisableFailed(k, e)))
        }
    }

    fn start_row(&self, i: usize) -> (rt: RowTransfer)
        requires
            run_wf(self@) || base_wf(self@),
            i < self@.rows.len(),
        ensures
            rt == start_row(self@, i as int),
    {
        let e = self.codes[i].0.clone();
        let y = self.codes[i].1.clone();
        let phase = crate::transfer::row_start_phase(&e, &y);
        RowTransfer {
            eski: e,
            yeni: y,
            sil: self.rows[i].sil,
            cari_tipi: self.cari_tipi,
            user_id: self.user_id,
            son_deg_guncelle: self.son_deg_guncelle,
            phase,
        }
    }

    fn restore_index(&self, j: usize) -> (k: usize)
        requires
            j < self@.disabled.len(),
        ensures
            k == restore_target(self@, j as int),
    {
        self.disabled[self.disabled.len() - 1 - j].0
    }

    fn restore_guard_id(&self, j: usize) -> (g: i64)
        requires
            j < self@.disabled.len(),
        ensures
            g == restore_guard(self@, j as int),
    {
        self.disabled[self.disabled.len() - 1 - j].1
    }

    fn set_trigger_action(&self, k: usize, enable: bool) -> (a: RunAction)
        requires
            k < self@.pairs.len(),
        ensures
            is_set_trigger(a, self@, k as int, enable),
    {
        RunAction::SetTrigger {
            trigger: self.pairs[k].0.clone(),
            table: self.pairs[k].1.clone(),
            enable,
        }
    }

    fn status(&self, i: usize, status: &str, message: String) -> (a: RunAction)
        requires
            i < self@.rows.len(),
        ensures
            is_status(a, self@, i as int, status@, message@),
    {
        RunAction::Notify(
            Notice::Status(
                RowStatus {
                    index: i,
                    eski: self.rows[i].eski.clone(),
                    yeni: self.rows[i].yeni.clone(),
                    status: String::from_str(status),
                    message,
                },
            ),
        )
    }

    fn row_error_message(&self, e: &RowError) -> (s: String)
        requires
            base_wf(self@),
            (e.index as int) < self@.rows.len(),
        ensures
            s@ == row_error_text(self@, *e),
    {
        let codes = &self.codes[e.index];
        let mut s = e.failure.text(codes.0.as_str(), codes.1.as_str());
        match &e.audit_error {
            Some(ae) => {
                s.append(" | HATA denetim kaydı da yazılamadı: ");
                s.append(ae.as_str());
            },
            None => {},
        }
        assert(s@ =~= row_error_text(self@, *e));
        s
    }

    fn critical(&self) -> (s: String)
        requires
            base_wf(self@),
        ensures
            s@ == critical_text(self@),
    {
        let ghost m = self@;
        let ghost items = Seq::new(m.restore_errors.len(), |k: int| restore_line(m, m.restore_errors[k]));
        let mut s = String::from_str("KRİTİK: Bazı trigger'lar geri açılamadı. SSMS'te çalıştırın:\n");
        let ghost head = s@;
        proof {
            reveal_strlit("\n");
        }
        let mut i: usize = 0;
        assert(items.take(0) =~= Seq::<Seq<char>>::empty());
        while i < self.restore_errors.len()
            invariant
                m == self@,
                base_wf(m),
                i <= m.restore_errors.len(),
                items == Seq::new(m.restore_errors.len(), |k: int| restore_line(m, m.restore_errors[k])),
                "\n"@ == seq!['\n'],
                s@ == head + join(items.take(i as int), seq!['\n']),
            decreases self.restore_errors.len() - i,
        {
            assert(items.take(i + 1).drop_last() =~= items.take(i as int));
            let x = &self.restore_errors[i];
            assert(m.restore_errors[i as int] == *x);
            let k = x.0;
            assert((k as int) < m.pairs.len());
            if i > 0 {
                s.append("\n");
            }
            s.append("ENABLE TRIGGER ");
            s.append(self.pairs[k].0.as_str());
            s.append(" ON ");
            s.append(self.pairs[k].1.as_str());
            s.append(" (");
            s.append(x.1.as_str());
            s.append(")");
            if i == 0 {
                assert(items.take(1) =~= seq![items[0]]);
            }
            assert(s@ =~= head + join(items.take(i + 1), seq!['\n']));
            i = i + 1;
        }
        assert(items.take(m.restore_errors.len() as int) =~= items);
        s
    }

    /// The next call to make.
    pub fn action(&self) -> (a: RunAction)
        requires
            run_wf(self@),
        ensures
            run_action_fits(self@, a),
    {
        match &self.phase {
            RunPhase::Connect => RunAction::Connect,
            RunPhase::CheckProcedure => RunAction::CheckProcedure,
            RunPhase::AuditTable => RunAction::EnsureAuditTable,
            RunPhase::GuardTable => RunAction::EnsureGuardTable,
            RunPhase::LogIdentity => RunAction::Notify(
                Notice::Log(
                    cat4("SQL denetim kaydı etkin: ", self.machine.as_str(), " / ", self.user.as_str()),
                ),
            ),
            RunPhase::TrigCheck(k) => RunAction::IsDisabled { trigger: self.pairs[*k].0.clone() },
            RunPhase::TrigPending(k) => RunAction::PendingGuard {
                trigger: self.pairs[*k].0.clone(),
                table: self.pairs[*k].1.clone(),
            },
            RunPhase::LogAlready(k) => RunAction::Notify(
                Notice::Log(cat2("Trigger zaten devre dışı: ", self.pairs[*k].0.as_str())),
            ),
            RunPhase::TrigReenable(k, _) => self.set_trigger_action(*k, true),
            RunPhase::TrigResolveOrphan(_, g) => RunAction::ResolveGuard {
                guard_id: *g,
                note: "Sonraki çalıştırmada otomatik kurtarıldı",
            },
            RunPhase::LogOrphan(k) => RunAction::Notify(
                Notice::Log(
                    cat2(
                        "Önceki işlemden açık kalan trigger otomatik geri açıldı: ",
                        self.pairs[*k].0.as_str(),
                    ),
                ),
            ),
            RunPhase::TrigRegister(k) => RunAction::RegisterGuard {
                trigger: self.pairs[*k].0.clone(),
                table: self.pairs[*k].1.clone(),
                machine: self.machine.clone(),
                user: self.user.clone(),
            },
            RunPhase::TrigDisable(k, _) => self.set_trigger_action(*k, false),
            RunPhase::LogDisabled(k) => RunAction::Notify(
                Notice::Log(
                    cat4(
                        "Trigger devre dışı bırakıldı: ",
                        self.pairs[*k].0.as_str(),
                        " ON ",
                        self.pairs[*k].1.as_str(),
                    ),
                ),
            ),
            RunPhase::UnwindFailed(_, id, _) => RunAction::ResolveGuard {
                guard_id: *id,
                note: "Disable başarısız",
            },
            RunPhase::UnwindEnable(j, _, _) => {
                let k = self.restore_index(*j);
                self.set_trigger_action(k, true)
            },
            RunPhase::UnwindResolve(j, _, _) => RunAction::ResolveGuard {
                guard_id: self.restore_guard_id(*j),
                note: "Disable zinciri geri alındı",
            },
            RunPhase::SkipOn => RunAction::SetSkipControl { key: self.skip_key.clone(), on: true },
            RunPhase::LogSkipOn => RunAction::Notify(
                Notice::Log(
                    cat3(
                        "Sipariş kontrolü bu oturumda atlanıyor (session-context: ",
                        self.skip_key.as_str(),
                        "). Diğer kullanıcılar etkilenmez.",
                    ),
                ),
            ),
            RunPhase::Rows(_) => RunAction::CheckCancel,
            RunPhase::LogCancelled => RunAction::Notify(
                Notice::Log(String::from_str("İptal edildi — kalan satırlar atlandı.")),
            ),
            RunPhase::LogRunning(i) => self.status(*i, "running", String::from_str("İşleniyor…")),
            RunPhase::Row(_, rt) => match &rt.phase {
                RowPhase::Audit(s) => RunAction::Audit(
                    AuditLine {
                        client_machine: self.machine.clone(),
                        client_user: self.user.clone(),
                        eski: rt.eski.clone(),
                        yeni: rt.yeni.clone(),
                        cari_tipi: rt.cari_tipi,
                        sil: rt.sil,
                        ok: true,
                        message: s.text(),
                    },
                ),
                _ => RunAction::Row(rt.action()),
            },
            RunPhase::AuditError(i, f) => {
                let codes = &self.codes[*i];
                RunAction::Audit(
                    AuditLine {
                        client_machine: self.machine.clone(),
                        client_user: self.user.clone(),
                        eski: self.rows[*i].eski.clone(),
                        yeni: self.rows[*i].yeni.clone(),
                        cari_tipi: self.cari_tipi,
                        sil: self.rows[*i].sil,
                        ok: false,
                        message: f.text(codes.0.as_str(), codes.1.as_str()),
                    },
                )
            },
            RunPhase::LogRowOk(i, s) => self.status(*i, "ok", s.text()),
            RunPhase::LogRowFailed(i) => {
                let e = &self.errors[self.errors.len() - 1];
                let msg = self.row_error_message(e);
                self.status(*i, "error", msg)
            },
            RunPhase::Progress(i) => RunAction::Notify(
                Notice::Progress { done: *i + 1, total: self.rows.len() },
            ),
            RunPhase::SkipOff => RunAction::SetSkipControl { key: self.skip_key.clone(), on: false },
            RunPhase::LogSkipOff(None) => RunAction::Notify(
                Notice::Log(
                    String::from_str("Sipariş kontrolü geri açıldı (session-context temizlendi)."),
                ),
            ),
            RunPhase::LogSkipOff(Some(e)) => RunAction::Notify(
                Notice::Log(
                    cat3(
                        "Uyarı: session-context temizlenemedi: ",
                        e.as_str(),
                        " (bağlantı kapanınca otomatik silinir)",
                    ),
                ),
            ),
            RunPhase::Restore(j) => {
                let k = self.restore_index(*j);
                self.set_trigger_action(k, true)
            },
            RunPhase::RestoreResolve(j) => RunAction::ResolveGuard {
                guard_id: self.restore_guard_id(*j),
                note: "Normal akışta geri açıldı",
            },
            RunPhase::LogReenabled(j) => {
                let k = self.restore_index(*j);
                RunAction::Notify(
                    Notice::Log(cat2("Trigger tekrar etkinleştirildi: ", self.pairs[k].0.as_str())),
                )
            },
            RunPhase::Alert => RunAction::Notify(Notice::Alert(self.critical())),
            RunPhase::Done(_) => RunAction::Finished,
        }
    }

    /// Takes the reply to the last action and moves on.
    #[verifier::rlimit(60)]
    pub fn advance(&mut self, reply: Reply)
        requires
            run_wf(old(self)@),
            run_expects(old(self)@, reply),
        ensures
            final(self)@ == run_next(old(self)@, reply),
            run_wf(final(self)@),
    {
        let ghost m = self@;
        proof {
            law_run_next_keeps_wf(m, reply);
        }
        let mut cur = RunPhase::Connect;
        std::mem::swap(&mut cur, &mut self.phase);
        assert(self@ == with_phase(m, RunPhase::Connect));
        match cur {
            RunPhase::Connect => {
                self.phase = match reply {
                    Reply::Unit(Err(e)) => RunPhase::Done(Err(RunError::Db(e))),
                    _ => RunPhase::CheckProcedure,
                };
            },
            RunPhase::CheckProcedure => {
                self.phase = match reply {
                    Reply::Flag(Err(e)) => RunPhase::Done(Err(RunError::Db(e))),
                    Reply::Flag(Ok(false)) => RunPhase::Done(Err(RunError::ProcedureMissing)),
                    _ => RunPhase::AuditTable,
                };
            },
            RunPhase::AuditTable => {
                self.phase = match reply {
                    Reply::Unit(Err(e)) => RunPhase::Done(Err(RunError::Db(e))),
                    _ => RunPhase::GuardTable,
                };
            },
            RunPhase::GuardTable => {
                self.phase = match reply {
                    Reply::Unit(Err(e)) => RunPhase::Done(Err(RunError::Db(e))),
                    _ => RunPhase::LogIdentity,
                };
            },
            RunPhase::LogIdentity => {
                self.phase = self.next_trigger(0);
            },
            RunPhase::TrigCheck(k) => {
                match reply {
                    Reply::Flag(Err(e)) => self.abort_with(e),
                    Reply::Flag(Ok(true)) => {
                        self.phase = RunPhase::TrigPending(k);
                    },
                    _ => {
                        self.phase = RunPhase::TrigRegister(k);
                    },
                }
            },
            RunPhase::TrigPending(k) => {
                match reply {
                    Reply::MaybeId(Err(e)) => self.abort_with(e),
                    Reply::MaybeId(Ok(Some(g))) => {
                        self.phase = RunPhase::TrigReenable(k, g);
                    },
                    _ => {
                        self.phase = RunPhase::LogAlready(k);
                    },
                }
            },
            RunPhase::LogAlready(k) => {
                self.phase = self.next_trigger(k + 1);
            },
            RunPhase::TrigReenable(k, g) => {
                match reply {
                    Reply::Unit(Err(e)) => self.abort_with(e),
                    _ => {
                        self.phase = RunPhase::TrigResolveOrphan(k, g);
                    },
                }
            },
            RunPhase::TrigResolveOrphan(k, g) => {
                match reply {
                    Reply::Unit(Err(e)) => self.abort_with(e),
                    _ => {
                        self.phase = RunPhase::LogOrphan(k);
                    },
                }
            },
            RunPhase::LogOrphan(k) => {
                self.phase = RunPhase::TrigRegister(k);
            },
            RunPhase::TrigRegister(k) => {
                match reply {
                    Reply::Id(Err(e)) => self.abort_with(e),
                    Reply::Id(Ok(id)) => {
                        self.phase = RunPhase::TrigDisable(k, id);
                    },
                    _ => {
                        self.phase = RunPhase::TrigRegister(k);
                    },
                }
            },
            RunPhase::TrigDisable(k, id) => {
                match reply {
                    Reply::Unit(Err(e)) => {
                        self.phase = RunPhase::UnwindFailed(k, id, e);
                    },
                    _ => {
                        self.disabled.push((k, id));
                        self.phase = RunPhase::LogDisabled(k);
                    },
                }
            },
            RunPhase::LogDisabled(k) => {
                self.phase = self.next_trigger(k + 1);
            },
            RunPhase::UnwindFailed(k, _, e) => {
                self.phase = self.unwind_from(0, k, e);
            },
            RunPhase::UnwindEnable(j, k, e) => {
                self.phase = RunPhase::UnwindResolve(j, k, e);
            },
            RunPhase::UnwindResolve(j, k, e) => {
                self.phase = self.unwind_from(j + 1, k, e);
            },
            RunPhase::SkipOn => {
                match reply {
                    Reply::Unit(Err(e)) => self.abort_with(e),
                    _ => {
                        self.skip_set = true;
                        self.phase = RunPhase::LogSkipOn;
                    },
                }
            },
            RunPhase::LogSkipOn => {
                self.phase = self.rows_from(0);
            },
            RunPhase::Rows(i) => {
                self.phase = match reply {
                    Reply::Flag(Ok(true)) => RunPhase::LogCancelled,
                    _ => RunPhase::LogRunning(i),
                };
            },
            RunPhase::LogCancelled => {
                self.phase = self.after_rows();
            },
            RunPhase::LogRunning(i) => {
                let rt = self.start_row(i);
                self.enter_row(i, rt);
            },
            RunPhase::Row(i, rt) => {
                let mut rt = rt;
                rt.advance(reply);
                self.enter_row(i, rt);
            },
            RunPhase::AuditError(i, f) => {
                let audit_error = match reply {
                    Reply::Unit(Err(ae)) => Some(ae),
                    _ => None,
                };
                self.errors.push(RowError { index: i, failure: f, audit_error });
                self.failed = self.failed + 1;
                self.phase = RunPhase::LogRowFailed(i);
            },
            RunPhase::LogRowOk(i, _) => {
                self.phase = RunPhase::Progress(i);
            },
            RunPhase::LogRowFailed(i) => {
                self.phase = RunPhase::Progress(i);
            },
            RunPhase::Progress(i) => {
                self.phase = self.rows_from(i + 1);
            },
            RunPhase::SkipOff => {
                self.phase = RunPhase::LogSkipOff(
                    match reply {
                        Reply::Unit(Err(e)) => Some(e),
                        _ => None,
                    },
                );
            },
            RunPhase::LogSkipOff(_) => {
                self.phase = self.restore_from(0);
            },
            RunPhase::Restore(j) => {
                match reply {
                    Reply::Unit(Err(e)) => {
                        let k = self.restore_index(j);
                        self.restore_errors.push((k, e));
                        self.phase = self.restore_from(j + 1);
                    },
                    _ => {
                        self.phase = RunPhase::RestoreResolve(j);
                    },
                }
            },
            RunPhase::RestoreResolve(j) => {
                self.phase = RunPhase::LogReenabled(j);
            },
            RunPhase::LogReenabled(j) => {
                self.phase = self.restore_from(j + 1);
            },
            RunPhase::Alert => {
                self.phase = self.end();
            },
            RunPhase::Done(d) => {
                self.phase = RunPhase::Done(d);
            },
        }
    }

    fn enter_row(&mut self, i: usize, rt: RowTransfer)
        requires
            base_wf(old(self)@),
            i < old(self)@.rows.len(),
            old(self)@.ok + old(self)@.failed == i,
        ensures
            final(self)@ == enter_row(old(self)@, i, rt),
    {
        if rt.is_done() {
            match rt.phase {
                RowPhase::Done(Ok(s)) => {
                    self.ok = self.ok + 1;
                    self.phase = RunPhase::LogRowOk(i, s);
                },
                RowPhase::Done(Err(f)) => {
                    self.phase = RunPhase::AuditError(i, f);
                },
                _ => {},
            }
        } else {
            self.phase = RunPhase::Row(i, rt);
        }
    }

    /// The result of a finished run: the summary, or why it stopped.
    pub fn outcome(&self) -> (r: Result<TransferSummary, String>)
        requires
            run_wf(self@),
            self@.phase is Done,
        ensures
            match self@.phase {
                RunPhase::Done(Err(e)) => r matches Err(s) && s@ == run_error_text(self@, e),
                _ => r matches Ok(sum) && sum.total == self@.rows.len() && sum.ok == self@.ok
                    && sum.failed == self@.failed && sum.trigger_restored == (self@.disabled.len()
                    == 0 || self@.restore_errors.len() == 0) && sum.trigger_message@
                    == trigger_message(self@) && sum.errors@.len() == self@.errors.len() && forall|k: int|
                    0 <= k < sum.errors@.len() ==> (#[trigger] sum.errors@[k])@ == error_line(
                        self@,
                        self@.errors[k],
                    ),
            },
    {
        match &self.phase {
            RunPhase::Done(Err(e)) => Err(
                match e {
                    RunError::NoRows => String::from_str("Aktarılacak satır yok."),
                    RunError::Invalid(s) => s.clone(),
                    RunError::Db(s) => s.clone(),
                    RunError::ProcedureMissing => String::from_str(
                        "dbo.msp_CariKodunuDegistir bu veritabanında bulunamadı. Aktarım iptal edildi — yanlış veritabanına bağlanmış olabilirsiniz.",
                    ),
                    RunError::DisableFailed(k, s) => cat5(
                        "'",
                        self.pairs[*k].0.as_str(),
                        "' devre dışı bırakılamadı: ",
                        s.as_str(),
                        ". Önceden kapatılan trigger'lar geri açılmaya çalışıldı.",
                    ),
                },
            ),
            _ => {
                let mut errors: Vec<String> = Vec::new();
                let mut i: usize = 0;
                while i < self.errors.len()
                    invariant
                        run_wf(self@),
                        i <= self@.errors.len(),
                        errors@.len() == i,
                        forall|k: int|
                            0 <= k < i ==> (#[trigger] errors@[k])@ == error_line(self@, self@.errors[k]),
                    decreases self.errors.len() - i,
                {
                    let e = &self.errors[i];
                    assert(self@.errors[i as int] == *e);
                    let row = &self.rows[e.index];
                    let msg = self.row_error_message(e);
                    let line = cat5(row.eski.as_str(), " → ", row.yeni.as_str(), ": ", msg.as_str());
                    errors.push(line);
                    i = i + 1;
                }
                let trigger_restored = self.disabled.len() == 0 || self.restore_errors.len() == 0;
                let trigger_message = if self.disabled.len() == 0 {
                    String::from_str("Trigger yönetimi atlandı.")
                } else if self.restore_errors.len() == 0 {
                    String::from_str("Tüm trigger'lar tekrar etkinleştirildi.")
                } else {
                    self.critical()
                };
                Ok(
                    TransferSummary {
                        total: self.rows.len(),
                        ok: self.ok,
                        failed: self.failed,
                        trigger_restored,
                        trigger_message,
                        errors,
                    },
                )
            },
        }
    }
}


/// The phases from the first row on.
pub open spec fn is_row_or_later(p: RunPhase) -> bool {
    match p {
        RunPhase::Rows(_) | RunPhase::LogCancelled | RunPhase::LogRunning(_) | RunPhase::Row(_, _)
        | RunPhase::AuditError(_, _) | RunPhase::LogRowOk(_, _) | RunPhase::LogRowFailed(_)
        | RunPhase::Progress(_) | RunPhase::SkipOff | RunPhase::LogSkipOff(_) | RunPhase::Restore(_)
        | RunPhase::RestoreResolve(_) | RunPhase::LogReenabled(_) | RunPhase::Alert => true,
        RunPhase::Done(Ok(_)) => true,
        _ => false,
    }
}

proof fn lemma_after_rows_late(m: RunModel)
    requires
        m.abort is None,
    ensures
        is_row_or_later(after_rows(m)),
        forall|j: int| 0 <= j ==> is_row_or_later(#[trigger] restore_from(m, j)),
{
}

/// Once the rows have started (the run was not cut short before them), no
/// failure ends the run with an error: a failed row, a failed skip-flag reset
/// or a trigger that cannot be switched on again is reported in the summary,
/// and the run goes on to the end.
pub proof fn law_late_failures_do_not_abort(m: RunModel, r: Reply)
    requires
        run_wf(m),
        run_expects(m, r),
        is_row_or_later(m.phase),
        m.abort is None,
    ensures
        is_row_or_later(run_next(m, r).phase),
        run_next(m, r).abort is None,
        !(run_next(m, r).phase matches RunPhase::Done(Err(_))),
{
    lemma_after_rows_late(m);
    match m.phase {
        RunPhase::Restore(j) => {
            if let Reply::Unit(Err(e)) = r {
                let m2 = RunModel {
                    restore_errors: m.restore_errors.push((restore_target(m, j as int) as usize, e)),
                    ..m
                };
                lemma_after_rows_late(m2);
            }
        },
        RunPhase::AuditError(..) => {},
        _ => {},
    }
}

/// The set of triggers that a run will switch on again grows only when this
/// run has just switched one off successfully: a trigger that was already
/// off (and not left off by an earlier run) is never among them.
pub proof fn law_restore_list_is_own_disables(m: RunModel, r: Reply)
    requires
        run_expects(m, r),
    ensures
        run_next(m, r).disabled == m.disabled || (m.phase matches RunPhase::TrigDisable(k, id)
            && r matches Reply::Unit(Ok(_)) && run_next(m, r).disabled == m.disabled.push((k, id))),
{
}

/// A trigger found already switched off, with no open guard record of an
/// earlier run, is left as it is: the run goes on to the next trigger.
pub proof fn law_already_disabled_left_alone(m: RunModel, k: usize)
    requires
        m.phase == RunPhase::TrigPending(k),
    ensures
        run_next(m, Reply::MaybeId(Ok(None))).phase == RunPhase::LogAlready(k),
        run_next(run_next(m, Reply::MaybeId(Ok(None))), Reply::Unit(Ok(()))).phase == next_trigger(
            m,
            k + 1,
        ),
        run_next(run_next(m, Reply::MaybeId(Ok(None))), Reply::Unit(Ok(()))).disabled == m.disabled,
{
}

/// At the end of a run the triggers it switched off are switched on again
/// one by one, from the last switched off to the first, whatever the
/// outcome of each: the `j`-th step asks to switch on the trigger switched
/// off `j`-th from the end, and every reply leads to the next one.
pub proof fn law_restore_in_reverse(m: RunModel, r: Reply, a: RunAction)
    requires
        run_wf(m),
        run_expects(m, r),
        m.phase matches RunPhase::Restore(_),
        run_action_fits(m, a),
    ensures
        m.phase matches RunPhase::Restore(j) && is_set_trigger(
            a,
            m,
            m.disabled[m.disabled.len() - 1 - j].0 as int,
            true,
        ) && (run_next(m, r).phase == RunPhase::RestoreResolve(j) || run_next(m, r).phase
            == restore_from(run_next(m, r), j + 1)),
        run_next(m, r).disabled == m.disabled,
{
}

/// The moved count grows only when a row's transfer has ended in success
/// (after its commit), the failed count only once the row's `ERROR` audit
/// line has been asked for; each by one.
pub proof fn law_counts_follow_rows(m: RunModel, r: Reply)
    requires
        run_wf(m),
        run_expects(m, r),
    ensures
        run_next(m, r).ok != m.ok ==> run_next(m, r).ok == m.ok + 1 && run_next(m, r).phase matches RunPhase::LogRowOk(_, _),
        run_next(m, r).failed != m.failed ==> run_next(m, r).failed == m.failed + 1 && m.phase matches RunPhase::AuditError(_, _),
{
}


/// A row whose transfer ends in failure (invalid codes included) is written
/// to the audit table as an `ERROR` line before anything else happens.
pub proof fn law_failed_row_is_audited(m: RunModel, r: Reply)
    requires
        run_wf(m),
        m.phase matches RunPhase::Row(_, rt) && row_next_phase(rt, r) is Done,
    ensures
        m.phase matches RunPhase::Row(i, rt) && match row_next_phase(rt, r) {
            RowPhase::Done(Err(f)) => run_next(m, r).phase == RunPhase::AuditError(i, f),
            _ => run_next(m, r).phase is LogRowOk && run_next(m, r).ok == m.ok + 1,
        },
{
}

/// Before any trigger is touched the run needs its connection, the
/// reference-update procedure, and the audit and guard tables: when any of
/// them fails the run stops there, with nothing switched off.
pub proof fn law_setup_failure_stops_run(m: RunModel, r: Reply)
    requires
        run_wf(m),
        m.phase is Connect || m.phase is CheckProcedure || m.phase is AuditTable || m.phase is GuardTable,
        r matches Reply::Unit(Err(_)) || r matches Reply::Flag(Err(_)) || r == Reply::Flag(Ok(false)),
        run_expects(m, r),
    ensures
        run_next(m, r).phase is Done,
        !(run_next(m, r).phase matches RunPhase::Done(Ok(_))),
        run_next(m, r).disabled.len() == 0,
{
}

/// A row's first call is `BEGIN`, unless its codes are invalid: then it is
/// done at once and no database call is made for it.
pub proof fn law_row_starts_with_begin(m: RunModel, i: usize)
    requires
        run_wf(m),
        m.phase == RunPhase::LogRunning(i),
    ensures
        match row_start(m.codes[i as int].0@, m.codes[i as int].1@) {
            RowPhase::Begin => run_next(m, Reply::Unit(Ok(()))).phase matches RunPhase::Row(j, rt) && j == i
                && rt.phase is Begin && rt.eski@ == trim(m.rows[i as int].eski@)
                && rt.yeni@ == trim(m.rows[i as int].yeni@) && rt.sil == m.rows[i as int].sil
                && rt.cari_tipi == m.cari_tipi && rt.user_id == m.user_id
                && rt.son_deg_guncelle == m.son_deg_guncelle,
            _ => run_next(m, Reply::Unit(Ok(()))).phase is AuditError,
        },
{
}


/// `m` is at the last step of switching its own triggers on again: the last
/// one is being switched on (or has just been), or the last one switched off
/// before a failed switch-off has been switched on and its record closed.
pub open spec fn last_restore_step(m: RunModel) -> bool {
    match m.phase {
        RunPhase::Restore(j) => j + 1 == m.disabled.len(),
        RunPhase::LogReenabled(j) => j + 1 == m.disabled.len(),
        RunPhase::UnwindResolve(j, _, _) => j + 1 == m.disabled.len(),
        _ => false,
    }
}

/// A run never ends while a trigger it switched off is left unrestored,
/// whatever failed: it reaches its end (or the critical alert that comes just
/// before it) only when it switched nothing off or from the last step of
/// switching its triggers on again; and those steps start with the last
/// trigger switched off and go one by one (see `law_restore_in_reverse`).
pub proof fn law_no_end_with_triggers_off(m: RunModel, r: Reply)
    requires
        run_wf(m),
        run_expects(m, r),
    ensures
        (run_next(m, r).phase is Done && !(m.phase is Done)) || run_next(m, r).phase is Alert
            ==> m.disabled.len() == 0 || last_restore_step(m) || m.phase is Alert,
        run_next(m, r).phase matches RunPhase::Restore(j) ==> j == 0 || (m.phase matches RunPhase::Restore(i)
            && j == i + 1) || (m.phase matches RunPhase::LogReenabled(i) && j == i + 1),
        run_next(m, r).phase matches RunPhase::UnwindEnable(j, _, _) ==> j == 0 || (m.phase matches RunPhase::UnwindResolve(i, _, _) && j == i + 1),
{
}


/// Every row of a run is moved with the run's settings: while a row is in
/// progress its transfer keeps the card type, user and last-change choice
/// that the run was given, and its codes and mode; the next step of the row
/// keeps them too.
pub proof fn law_rows_use_run_settings(m: RunModel, r: Reply)
    requires
        run_wf(m),
        run_expects(m, r),
        m.phase matches RunPhase::Row(i, rt) && rt.cari_tipi == m.cari_tipi && rt.user_id == m.user_id
            && rt.son_deg_guncelle == m.son_deg_guncelle,
    ensures
        run_next(m, r).phase matches RunPhase::Row(j, rt2) ==> (m.phase matches RunPhase::Row(i, rt)
            && j == i && rt2.cari_tipi == m.cari_tipi && rt2.user_id == m.user_id
            && rt2.son_deg_guncelle == m.son_deg_guncelle && rt2.eski == rt.eski && rt2.yeni == rt.yeni
            && rt2.sil == rt.sil),
        run_next(m, r).cari_tipi == m.cari_tipi,
        run_next(m, r).user_id == m.user_id,
        run_next(m, r).son_deg_guncelle == m.son_deg_guncelle,
{
}

} // verus!
