//! The transfer of one card code, in its own transaction, as the decisions
//! between the database calls that the application makes for it.

use vstd::prelude::*;
use crate::model::TransferRow;
use crate::preview::{column_items, comma, join, push_column_list, select_items, trim_str};
use crate::text::{dec_nat, push_dec, trim};

verus! {

/// Opens the row's transaction.
pub const BEGIN_SQL: &'static str = "BEGIN TRANSACTION";

/// Makes the row's changes permanent.
pub const COMMIT_SQL: &'static str = "COMMIT TRANSACTION";

/// Undoes the row's changes, if a transaction is still open.
pub const ROLLBACK_SQL: &'static str = "IF @@TRANCOUNT > 0 ROLLBACK TRANSACTION";

/// How many cards hold code `@P1`.
pub const COUNT_SQL: &'static str = "SELECT COUNT(*) FROM dbo.CARI_HESAPLAR WHERE cari_kod = @P1";

/// Renames card `@P3` to `@P1`, stamping user `@P2`.
pub const RENAME_SQL: &'static str = "UPDATE dbo.CARI_HESAPLAR SET cari_kod = @P1, cari_lastup_date = GETDATE(), cari_lastup_user = @P2 WHERE cari_kod = @P3";

/// Moves every reference from the old code to the new one (Mikro's own procedure).
pub const PROCEDURE_SQL: &'static str = "EXEC dbo.msp_CariKodunuDegistir @CariTipi = @P1, @EskiCariKodu = @P2, @YeniCariKodu = @P3, @Kart_aktarim_son_deg_bilgileri_guncelle_fl = @P4";

/// What the application hands back after doing what an action asked:
/// the result of the database call, with the call's own error text.
pub enum Reply {
    Unit(Result<(), String>),
    Flag(Result<bool, String>),
    Count(Result<i32, String>),
    Id(Result<i64, String>),
    MaybeId(Result<Option<i64>, String>),
    Affected(Result<Vec<u64>, String>),
    Columns(Result<Vec<Option<String>>, String>),
}

/// How the card header was moved.
#[derive(Clone, Copy, Debug)]
pub enum RowSuccess {
    Renamed,
    Copied,
}

/// Why a row was not moved.
#[derive(Debug)]
pub enum RowFailure {
    EmptyCode,
    SameCode,
    Begin(String),
    Query(String),
    OldMissing,
    NewExists,
    Rename(String),
    RenameCount(u128),
    NoColumns,
    Insert(String),
    InsertCount(u128),
    Procedure(String),
    AuditRolledBack(String),
    Commit(String),
    RollbackFailed(Box<RowFailure>, String),
}

/// Where the transfer of one row stands.
pub enum RowPhase {
    Begin,
    CountOld,
    CountNew,
    Rename,
    Columns,
    Insert(Vec<Option<String>>),
    Procedure(RowSuccess),
    Audit(RowSuccess),
    Commit(RowSuccess),
    Rollback(RowFailure),
    RollbackAudit(String),
    Done(Result<RowSuccess, RowFailure>),
}

/// The next database call for a row.
pub enum RowAction {
    /// Run `BEGIN_SQL`; reply `Unit`.
    Begin,
    /// Run `COUNT_SQL` for the code; reply `Count`.
    CountCode(String),
    /// Run `RENAME_SQL`; reply `Affected`.
    Rename { yeni: String, user_id: i32, eski: String },
    /// Read the copyable columns of `dbo.CARI_HESAPLAR`; reply `Columns`.
    FetchColumns,
    /// Run `sql` with `@P1 = yeni`, `@P2 = eski`; reply `Affected`.
    Insert { sql: String, yeni: String, eski: String },
    /// Run `PROCEDURE_SQL`; reply `Unit`.
    Procedure { cari_tipi: i32, eski: String, yeni: String, flag: i32 },
    /// Write the `OK` audit line, inside the transaction; reply `Unit`.
    AuditOk(RowSuccess),
    /// Run `COMMIT_SQL`; reply `Unit`.
    Commit,
    /// Run `ROLLBACK_SQL`; reply `Unit`.
    Rollback,
    /// Nothing left to do: the outcome is in the phase.
    Finished,
}

/// The transfer of one card code.
pub struct RowTransfer {
    /// The old code, trimmed.
    pub eski: String,
    /// The new code, trimmed.
    pub yeni: String,
    pub sil: bool,
    pub cari_tipi: i32,
    pub user_id: i32,
    pub son_deg_guncelle: bool,
    pub phase: RowPhase,
}

/// Sum of the affected-row counts of a statement.
pub open spec fn sum_of(v: Seq<u64>) -> int
    decreases v.len(),
{
    if v.len() == 0 {
        0
    } else {
        sum_of(v.drop_last()) + v.last()
    }
}

proof fn lemma_sum_bound(v: Seq<u64>)
    ensures
        0 <= sum_of(v) <= v.len() * 0xffff_ffff_ffff_ffff,
    decreases v.len(),
{
    if v.len() > 0 {
        lemma_sum_bound(v.drop_last());
        assert((v.len() - 1) * 0xffff_ffff_ffff_ffff + 0xffff_ffff_ffff_ffff == v.len()
            * 0xffff_ffff_ffff_ffff) by (nonlinear_arith);
    }
}

/// Total of the affected-row counts.
pub fn affected_total(v: &Vec<u64>) -> (s: u128)
    ensures
        s == sum_of(v@),
{
    let mut s: u128 = 0;
    let mut i: usize = 0;
    while i < v.len()
        invariant
            i <= v@.len(),
            s == sum_of(v@.take(i as int)),
        decreases v.len() - i,
    {
        proof {
            assert(v@.take(i + 1).drop_last() =~= v@.take(i as int));
            lemma_sum_bound(v@.take(i + 1));
            assert((i + 1) * 0xffff_ffff_ffff_ffff <= 0x1_0000_0000_0000_0000
                * 0xffff_ffff_ffff_ffff) by (nonlinear_arith)
                requires
                    i + 1 <= 0x1_0000_0000_0000_0000,
            ;
        }
        s = s + v[i] as u128;
        i = i + 1;
    }
    assert(v@.take(v@.len() as int) =~= v@);
    s
}

/// Some entry of the column list holds a name.
pub open spec fn has_name(raw: Seq<Option<String>>) -> bool {
    exists|i: int| 0 <= i < raw.len() && raw[i] is Some
}

/// The names of a column list, in order.
pub open spec fn names_of(raw: Seq<Option<String>>) -> Seq<String>
    decreases raw.len(),
{
    if raw.len() == 0 {
        Seq::empty()
    } else {
        match raw.last() {
            Some(n) => names_of(raw.drop_last()).push(n),
            None => names_of(raw.drop_last()),
        }
    }
}

/// The copying `INSERT` for columns `cols`: every column copied from the old
/// card, but the code column, which takes `@P1`.
pub open spec fn insert_sql_text(cols: Seq<String>) -> Seq<char> {
    "INSERT INTO dbo.CARI_HESAPLAR ("@ + join(column_items(cols), comma()) + ") SELECT "@ + join(
        select_items(cols, "@P1"@),
        comma(),
    ) + " FROM dbo.CARI_HESAPLAR WHERE cari_kod = @P2"@
}

/// What a reply must be for the phase.
pub open spec fn row_expects(p: RowPhase, r: Reply) -> bool {
    match p {
        RowPhase::CountOld | RowPhase::CountNew => r is Count,
        RowPhase::Rename | RowPhase::Insert(_) => r is Affected,
        RowPhase::Columns => r is Columns,
        RowPhase::Done(_) => false,
        _ => r is Unit,
    }
}

/// The phase after `r`, in phase `p`: every failure after `BEGIN` goes
/// through a rollback; success is reported only once the commit succeeded.
pub open spec fn row_next_phase(t: RowTransfer, r: Reply) -> RowPhase {
    match t.phase {
        RowPhase::Begin => match r {
            Reply::Unit(Err(e)) => RowPhase::Done(Err(RowFailure::Begin(e))),
            _ => RowPhase::CountOld,
        },
        RowPhase::CountOld => match r {
            Reply::Count(Err(e)) => RowPhase::Rollback(RowFailure::Query(e)),
            Reply::Count(Ok(n)) => if n == 0 {
                RowPhase::Rollback(RowFailure::OldMissing)
            } else {
                RowPhase::CountNew
            },
            _ => t.phase,
        },
        RowPhase::CountNew => match r {
            Reply::Count(Err(e)) => RowPhase::Rollback(RowFailure::Query(e)),
            Reply::Count(Ok(n)) => if n > 0 {
                RowPhase::Rollback(RowFailure::NewExists)
            } else if t.sil {
                RowPhase::Rename
            } else {
                RowPhase::Columns
            },
            _ => t.phase,
        },
        RowPhase::Rename => match r {
            Reply::Affected(Err(e)) => RowPhase::Rollback(RowFailure::Rename(e)),
            Reply::Affected(Ok(v)) => if sum_of(v@) != 1 {
                RowPhase::Rollback(RowFailure::RenameCount(sum_of(v@) as u128))
            } else {
                RowPhase::Procedure(RowSuccess::Renamed)
            },
            _ => t.phase,
        },
        RowPhase::Columns => match r {
            Reply::Columns(Err(e)) => RowPhase::Rollback(RowFailure::Query(e)),
            Reply::Columns(Ok(raw)) => if has_name(raw@) {
                RowPhase::Insert(raw)
            } else {
                RowPhase::Rollback(RowFailure::NoColumns)
            },
            _ => t.phase,
        },
        RowPhase::Insert(_) => match r {
            Reply::Affected(Err(e)) => RowPhase::Rollback(RowFailure::Insert(e)),
            Reply::Affected(Ok(v)) => if sum_of(v@) != 1 {
                RowPhase::Rollback(RowFailure::InsertCount(sum_of(v@) as u128))
            } else {
                RowPhase::Procedure(RowSuccess::Copied)
            },
            _ => t.phase,
        },
        RowPhase::Procedure(s) => match r {
            Reply::Unit(Err(e)) => RowPhase::Rollback(RowFailure::Procedure(e)),
            _ => RowPhase::Audit(s),
        },
        RowPhase::Audit(s) => match r {
            Reply::Unit(Err(e)) => RowPhase::RollbackAudit(e),
            _ => RowPhase::Commit(s),
        },
        RowPhase::Commit(s) => match r {
            Reply::Unit(Err(e)) => RowPhase::Done(Err(RowFailure::Commit(e))),
            _ => RowPhase::Done(Ok(s)),
        },
        RowPhase::Rollback(f) => match r {
            Reply::Unit(Err(rb)) => RowPhase::Done(Err(RowFailure::RollbackFailed(Box::new(f), rb))),
            _ => RowPhase::Done(Err(f)),
        },
        RowPhase::RollbackAudit(e) => RowPhase::Done(Err(RowFailure::AuditRolledBack(e))),
        RowPhase::Done(_) => t.phase,
    }
}

/// The database call that phase `p` asks for (the `INSERT`'s text aside).
pub open spec fn row_action_of(t: RowTransfer) -> RowAction {
    match t.phase {
        RowPhase::Begin => RowAction::Begin,
        RowPhase::CountOld => RowAction::CountCode(t.eski),
        RowPhase::CountNew => RowAction::CountCode(t.yeni),
        RowPhase::Rename => RowAction::Rename { yeni: t.yeni, user_id: t.user_id, eski: t.eski },
        RowPhase::Columns => RowAction::FetchColumns,
        RowPhase::Insert(_) => RowAction::FetchColumns,
        RowPhase::Procedure(_) => RowAction::Procedure {
            cari_tipi: t.cari_tipi,
            eski: t.eski,
            yeni: t.yeni,
            flag: if t.son_deg_guncelle {
                1
            } else {
                0
            },
        },
        RowPhase::Audit(s) => RowAction::AuditOk(s),
        RowPhase::Commit(_) => RowAction::Commit,
        RowPhase::Rollback(_) | RowPhase::RollbackAudit(_) => RowAction::Rollback,
        RowPhase::Done(_) => RowAction::Finished,
    }
}

/// `a` is the call that `t` asks for next.
pub open spec fn row_action_fits(t: RowTransfer, a: RowAction) -> bool {
    match t.phase {
        RowPhase::Insert(raw) => a == RowAction::Insert { sql: a->sql, yeni: t.yeni, eski: t.eski }
            && (a->sql)@ == insert_sql_text(names_of(raw@)),
        _ => a == row_action_of(t),
    }
}

/// The text of a row's success, as the log and the audit line give it.
pub open spec fn success_text(s: RowSuccess) -> Seq<char> {
    match s {
        RowSuccess::Renamed => "kart yeniden adlandırıldı, referanslar aktarıldı"@,
        RowSuccess::Copied => "yeni kart oluşturuldu, referanslar aktarıldı"@,
    }
}

/// The text of a row's failure (`eski`, `yeni`: the trimmed codes).
pub open spec fn failure_text(f: RowFailure, eski: Seq<char>, yeni: Seq<char>) -> Seq<char>
    decreases f,
{
    match f {
        RowFailure::EmptyCode => "Eski veya yeni kod boş."@,
        RowFailure::SameCode => "Eski ve yeni kod aynı."@,
        RowFailure::Begin(e) => "BEGIN TRAN başarısız: "@ + e@,
        RowFailure::Query(e) => e@,
        RowFailure::OldMissing => "Eski kod bulunamadı: '"@ + eski + "'"@,
        RowFailure::NewExists => "Yeni kod zaten mevcut: '"@ + yeni + "'"@,
        RowFailure::Rename(e) => "Kart yeniden adlandırılamadı: "@ + e@,
        RowFailure::RenameCount(n) => "Beklenmeyen güncelleme sayısı ("@ + dec_nat(n as nat)
            + "). 1 satır bekleniyordu."@,
        RowFailure::NoColumns => "CARI_HESAPLAR tablosu bulunamadı veya kolonu yok."@,
        RowFailure::Insert(e) => "Yeni kart oluşturulamadı: "@ + e@,
        RowFailure::InsertCount(n) => "Beklenmeyen ekleme sayısı ("@ + dec_nat(n as nat)
            + "). 1 satır bekleniyordu."@,
        RowFailure::Procedure(e) => "msp_CariKodunuDegistir başarısız: "@ + e@,
        RowFailure::AuditRolledBack(e) => "Aktarım denetim kaydı yazılamadığı için geri alındı: "@
            + e@,
        RowFailure::Commit(e) => "COMMIT başarısız: "@ + e@,
        RowFailure::RollbackFailed(inner, rb) => failure_text(*inner, eski, yeni)
            + " | ROLLBACK da başarısız: "@ + rb@,
    }
}

impl RowSuccess {
    pub fn text(&self) -> (s: String)
        ensures
            s@ == success_text(*self),
    {
        match self {
            RowSuccess::Renamed => String::from_str("kart yeniden adlandırıldı, referanslar aktarıldı"),
            RowSuccess::Copied => String::from_str("yeni kart oluşturuldu, referanslar aktarıldı"),
        }
    }
}

impl RowFailure {
    fn push_text(&self, out: &mut String, eski: &str, yeni: &str)
        ensures
            final(out)@ == old(out)@ + failure_text(*self, eski@, yeni@),
        decreases self,
    {
        let ghost start = out@;
        match self {
            RowFailure::EmptyCode => out.append("Eski veya yeni kod boş."),
            RowFailure::SameCode => out.append("Eski ve yeni kod aynı."),
            RowFailure::Begin(e) => {
                out.append("BEGIN TRAN başarısız: ");
                out.append(e.as_str());
            },
            RowFailure::Query(e) => out.append(e.as_str()),
            RowFailure::OldMissing => {
                out.append("Eski kod bulunamadı: '");
                out.append(eski);
                out.append("'");
            },
            RowFailure::NewExists => {
                out.append("Yeni kod zaten mevcut: '");
                out.append(yeni);
                out.append("'");
            },
            RowFailure::Rename(e) => {
                out.append("Kart yeniden adlandırılamadı: ");
                out.append(e.as_str());
            },
            RowFailure::RenameCount(n) => {
                out.append("Beklenmeyen güncelleme sayısı (");
                push_dec(out, *n);
                out.append("). 1 satır bekleniyordu.");
            },
            RowFailure::NoColumns => out.append("CARI_HESAPLAR tablosu bulunamadı veya kolonu yok."),
            RowFailure::Insert(e) => {
                out.append("Yeni kart oluşturulamadı: ");
                out.append(e.as_str());
            },
            RowFailure::InsertCount(n) => {
                out.append("Beklenmeyen ekleme sayısı (");
                push_dec(out, *n);
                out.append("). 1 satır bekleniyordu.");
            },
            RowFailure::Procedure(e) => {
                out.append("msp_CariKodunuDegistir başarısız: ");
                out.append(e.as_str());
            },
            RowFailure::AuditRolledBack(e) => {
                out.append("Aktarım denetim kaydı yazılamadığı için geri alındı: ");
                out.append(e.as_str());
            },
            RowFailure::Commit(e) => {
                out.append("COMMIT başarısız: ");
                out.append(e.as_str());
            },
            RowFailure::RollbackFailed(inner, rb) => {
                inner.push_text(out, eski, yeni);
                out.append(" | ROLLBACK da başarısız: ");
                out.append(rb.as_str());
            },
        }
        assert(out@ =~= start + failure_text(*self, eski@, yeni@));
    }

    /// The failure as the log, the audit line and the summary give it.
    pub fn text(&self, eski: &str, yeni: &str) -> (s: String)
        ensures
            s@ == failure_text(*self, eski@, yeni@),
    {
        let mut s = String::new();
        self.push_text(&mut s, eski, yeni);
        assert(s@ =~= failure_text(*self, eski@, yeni@));
        s
    }
}

fn names(raw: &Vec<Option<String>>) -> (cols: Vec<String>)
    ensures
        cols@ == names_of(raw@),
{
    let mut cols: Vec<String> = Vec::new();
    let mut i: usize = 0;
    while i < raw.len()
        invariant
            i <= raw@.len(),
            cols@ == names_of(raw@.take(i as int)),
        decreases raw.len() - i,
    {
        assert(raw@.take(i + 1).drop_last() =~= raw@.take(i as int));
        match &raw[i] {
            Some(n) => {
                cols.push(n.clone());
            },
            None => {},
        }
        i = i + 1;
    }
    assert(raw@.take(raw@.len() as int) =~= raw@);
    cols
}

/// The copyable columns of `dbo.CARI_HESAPLAR` as the catalogue query lists
/// them (an entry without a name is skipped); an error when none is named.
pub fn column_list(raw: &Vec<Option<String>>) -> (r: Result<Vec<String>, String>)
    ensures
        has_name(raw@) ==> (r matches Ok(cols) && cols@ == names_of(raw@)),
        !has_name(raw@) ==> (r matches Err(e) && e@ == "CARI_HESAPLAR tablosu bulunamadı veya kolonu yok."@),
{
    if has_some(raw) {
        Ok(names(raw))
    } else {
        Err(RowFailure::NoColumns.text("", ""))
    }
}

/// The copying `INSERT` for the names in `raw`.
pub fn insert_sql(raw: &Vec<Option<String>>) -> (s: String)
    ensures
        s@ == insert_sql_text(names_of(raw@)),
{
    let cols = names(raw);
    let mut s = String::from_str("INSERT INTO dbo.CARI_HESAPLAR (");
    push_column_list(&mut s, cols.as_slice(), None);
    s.append(") SELECT ");
    push_column_list(&mut s, cols.as_slice(), Some("@P1"));
    s.append(" FROM dbo.CARI_HESAPLAR WHERE cari_kod = @P2");
    s
}

/// The phase in which a row starts: done at once, with no database call,
/// when a code is blank or both codes are the same.
pub open spec fn row_start(e: Seq<char>, y: Seq<char>) -> RowPhase {
    if e.len() == 0 || y.len() == 0 {
        RowPhase::Done(Err(RowFailure::EmptyCode))
    } else if e == y {
        RowPhase::Done(Err(RowFailure::SameCode))
    } else {
        RowPhase::Begin
    }
}

/// The phase in which a row with trimmed codes `e` and `y` starts.
pub fn row_start_phase(e: &String, y: &String) -> (p: RowPhase)
    ensures
        p == row_start(e@, y@),
{
    if e.unicode_len() == 0 || y.unicode_len() == 0 {
        RowPhase::Done(Err(RowFailure::EmptyCode))
    } else if *e == *y {
        RowPhase::Done(Err(RowFailure::SameCode))
    } else {
        RowPhase::Begin
    }
}

fn has_some(raw: &Vec<Option<String>>) -> (r: bool)
    ensures
        r == has_name(raw@),
{
    let mut i: usize = 0;
    while i < raw.len()
        invariant
            i <= raw@.len(),
            forall|k: int| 0 <= k < i ==> raw@[k] is None,
        decreases raw.len() - i,
    {
        if raw[i].is_some() {
            return true;
        }
        i = i + 1;
    }
    false
}

impl RowTransfer {
    /// Starts the transfer of `row`, with the codes trimmed.
    pub fn new(row: &TransferRow, cari_tipi: i32, user_id: i32, son_deg_guncelle: bool) -> (t:
        RowTransfer)
        ensures
            t.eski@ == trim(row.eski@),
            t.yeni@ == trim(row.yeni@),
            t.sil == row.sil,
            t.cari_tipi == cari_tipi,
            t.user_id == user_id,
            t.son_deg_guncelle == son_deg_guncelle,
            t.phase == row_start(t.eski@, t.yeni@),
    {
        let eski = String::from_str(trim_str(row.eski.as_str()));
        let yeni = String::from_str(trim_str(row.yeni.as_str()));
        let phase = row_start_phase(&eski, &yeni);
        RowTransfer { eski, yeni, sil: row.sil, cari_tipi, user_id, son_deg_guncelle, phase }
    }

    pub fn is_done(&self) -> (r: bool)
        ensures
            r == self.phase is Done,
    {
        match self.phase {
            RowPhase::Done(_) => true,
            _ => false,
        }
    }

    /// Is `reply` of the kind the current call asks for?
    pub fn expects(&self, reply: &Reply) -> (r: bool)
        ensures
            r == row_expects(self.phase, *reply),
    {
        match &self.phase {
            RowPhase::CountOld | RowPhase::CountNew => matches!(reply, Reply::Count(_)),
            RowPhase::Rename | RowPhase::Insert(_) => matches!(reply, Reply::Affected(_)),
            RowPhase::Columns => matches!(reply, Reply::Columns(_)),
            RowPhase::Done(_) => false,
            _ => matches!(reply, Reply::Unit(_)),
        }
    }

    /// The next database call.
    pub fn action(&self) -> (a: RowAction)
        ensures
            row_action_fits(*self, a),
    {
        match &self.phase {
            RowPhase::Begin => RowAction::Begin,
            RowPhase::CountOld => RowAction::CountCode(self.eski.clone()),
            RowPhase::CountNew => RowAction::CountCode(self.yeni.clone()),
            RowPhase::Rename => RowAction::Rename {
                yeni: self.yeni.clone(),
                user_id: self.user_id,
                eski: self.eski.clone(),
            },
            RowPhase::Columns => RowAction::FetchColumns,
            RowPhase::Insert(raw) => RowAction::Insert {
                sql: insert_sql(raw),
                yeni: self.yeni.clone(),
                eski: self.eski.clone(),
            },
            RowPhase::Procedure(_) => RowAction::Procedure {
                cari_tipi: self.cari_tipi,
                eski: self.eski.clone(),
                yeni: self.yeni.clone(),
                flag: if self.son_deg_guncelle {
                    1
                } else {
                    0
                },
            },
            RowPhase::Audit(s) => RowAction::AuditOk(*s),
            RowPhase::Commit(_) => RowAction::Commit,
            RowPhase::Rollback(_) => RowAction::Rollback,
            RowPhase::RollbackAudit(_) => RowAction::Rollback,
            RowPhase::Done(_) => RowAction::Finished,
        }
    }

    /// Takes the reply to the last action and moves on.
    pub fn advance(&mut self, reply: Reply)
        requires
            row_expects(old(self).phase, reply),
        ensures
            final(self).phase == row_next_phase(*old(self), reply),
            final(self).eski == old(self).eski,
            final(self).yeni == old(self).yeni,
            final(self).sil == old(self).sil,
            final(self).cari_tipi == old(self).cari_tipi,
            final(self).user_id == old(self).user_id,
            final(self).son_deg_guncelle == old(self).son_deg_guncelle,
    {
        let ghost t0 = *self;
        let mut cur = RowPhase::Begin;
        std::mem::swap(&mut cur, &mut self.phase);
        let next = match cur {
            RowPhase::Begin => match reply {
                Reply::Unit(Err(e)) => RowPhase::Done(Err(RowFailure::Begin(e))),
                _ => RowPhase::CountOld,
            },
            RowPhase::CountOld => match reply {
                Reply::Count(Err(e)) => RowPhase::Rollback(RowFailure::Query(e)),
                Reply::Count(Ok(n)) => if n == 0 {
                    RowPhase::Rollback(RowFailure::OldMissing)
                } else {
                    RowPhase::CountNew
                },
                _ => RowPhase::CountOld,
            },
            RowPhase::CountNew => match reply {
                Reply::Count(Err(e)) => RowPhase::Rollback(RowFailure::Query(e)),
                Reply::Count(Ok(n)) => if n > 0 {
                    RowPhase::Rollback(RowFailure::NewExists)
                } else if self.sil {
                    RowPhase::Rename
                } else {
                    RowPhase::Columns
                },
                _ => RowPhase::CountNew,
            },
            RowPhase::Rename => match reply {
                Reply::Affected(Err(e)) => RowPhase::Rollback(RowFailure::Rename(e)),
                Reply::Affected(Ok(v)) => {
                    let n = affected_total(&v);
                    if n != 1 {
                        RowPhase::Rollback(RowFailure::RenameCount(n))
                    } else {
                        RowPhase::Procedure(RowSuccess::Renamed)
                    }
                },
                _ => RowPhase::Rename,
            },
            RowPhase::Columns => match reply {
                Reply::Columns(Err(e)) => RowPhase::Rollback(RowFailure::Query(e)),
                Reply::Columns(Ok(raw)) => if has_some(&raw) {
                    RowPhase::Insert(raw)
                } else {
                    RowPhase::Rollback(RowFailure::NoColumns)
                },
                _ => RowPhase::Columns,
            },
            RowPhase::Insert(raw) => match reply {
                Reply::Affected(Err(e)) => RowPhase::Rollback(RowFailure::Insert(e)),
                Reply::Affected(Ok(v)) => {
                    let n = affected_total(&v);
                    if n != 1 {
                        RowPhase::Rollback(RowFailure::InsertCount(n))
                    } else {
                        RowPhase::Procedure(RowSuccess::Copied)
                    }
                },
                _ => RowPhase::Insert(raw),
            },
            RowPhase::Procedure(s) => match reply {
                Reply::Unit(Err(e)) => RowPhase::Rollback(RowFailure::Procedure(e)),
                _ => RowPhase::Audit(s),
            },
            RowPhase::Audit(s) => match reply {
                Reply::Unit(Err(e)) => RowPhase::RollbackAudit(e),
                _ => RowPhase::Commit(s),
            },
            RowPhase::Commit(s) => match reply {
                Reply::Unit(Err(e)) => RowPhase::Done(Err(RowFailure::Commit(e))),
                _ => RowPhase::Done(Ok(s)),
            },
            RowPhase::Rollback(f) => match reply {
                Reply::Unit(Err(rb)) => RowPhase::Done(
                    Err(RowFailure::RollbackFailed(Box::new(f), rb)),
                ),
                _ => RowPhase::Done(Err(f)),
            },
            RowPhase::RollbackAudit(e) => RowPhase::Done(Err(RowFailure::AuditRolledBack(e))),
            RowPhase::Done(d) => RowPhase::Done(d),
        };
        self.phase = next;
    }
}


/// A row's steps come in one order: `BEGIN`, the old code found, the new code
/// free, the header renamed or copied (exactly one row affected), the
/// references moved, the `OK` audit line written, the commit; each step is
/// reached only from the one before it, when that one succeeded; and a row
/// is reported moved only once its commit has succeeded.
pub proof fn law_row_steps_in_order(t: RowTransfer, r: Reply)
    requires
        row_expects(t.phase, r),
    ensures
        row_next_phase(t, r) is CountOld ==> t.phase is Begin && r matches Reply::Unit(Ok(_)),
        row_next_phase(t, r) is CountNew ==> t.phase is CountOld && (r matches Reply::Count(Ok(n))
            && n != 0),
        (row_next_phase(t, r) is Rename || row_next_phase(t, r) is Columns) ==> t.phase is CountNew
            && (r matches Reply::Count(Ok(n)) && n <= 0),
        row_next_phase(t, r) is Insert ==> t.phase is Columns,
        row_next_phase(t, r) matches RowPhase::Procedure(s) ==> ((t.phase is Rename && s
            == RowSuccess::Renamed) || (t.phase is Insert && s == RowSuccess::Copied)) && (r matches Reply::Affected(Ok(v))
            && sum_of(v@) == 1),
        row_next_phase(t, r) is Audit ==> t.phase is Procedure && r matches Reply::Unit(Ok(_)),
        row_next_phase(t, r) is Commit ==> t.phase is Audit && r matches Reply::Unit(Ok(_)),
        row_next_phase(t, r) matches RowPhase::Done(Ok(_)) ==> t.phase is Commit && r matches Reply::Unit(Ok(_)),
{
}

/// Once `BEGIN` has succeeded, no failure ends a row without undoing it: from
/// every step before the commit the row goes on or rolls back (the rollback
/// phases ask for `ROLLBACK`); it is never done directly.
pub proof fn law_row_failure_rolls_back(t: RowTransfer, r: Reply)
    requires
        row_expects(t.phase, r),
        t.phase is CountOld || t.phase is CountNew || t.phase is Rename || t.phase is Columns
            || t.phase is Insert || t.phase is Procedure || t.phase is Audit,
    ensures
        !(row_next_phase(t, r) is Done),
        (row_next_phase(t, r) is Rollback || row_next_phase(t, r) is RollbackAudit) ==> row_action_of(
            RowTransfer { phase: row_next_phase(t, r), ..t },
        ) is Rollback,
{
}

/// A row with a blank code, or with the same old and new code, makes no
/// database call: it is done at once.
pub proof fn law_invalid_row_makes_no_call(e: Seq<char>, y: Seq<char>, t: RowTransfer)
    requires
        e.len() == 0 || y.len() == 0 || e == y,
        t.phase == row_start(e, y),
    ensures
        t.phase is Done,
        row_action_of(t) is Finished,
{
}


/// The database calls of a row carry the row's own settings: the rename
/// stamps the row's user as the last changer, and the reference update gets
/// the row's card type, its codes, and the last-change flag `1` exactly when
/// the row asks for it, whether the header was renamed or copied.
pub proof fn law_row_calls_carry_settings(t: RowTransfer)
    ensures
        t.phase is Rename ==> (row_action_of(t) matches RowAction::Rename { yeni, user_id, eski }
            && yeni == t.yeni && eski == t.eski && user_id == t.user_id),
        t.phase is Procedure ==> (row_action_of(t) matches RowAction::Procedure { cari_tipi, eski, yeni, flag }
            && cari_tipi == t.cari_tipi && eski == t.eski && yeni == t.yeni
            && (t.son_deg_guncelle ==> flag == 1) && (!t.son_deg_guncelle ==> flag == 0)),
        t.phase is CountOld ==> row_action_of(t) == RowAction::CountCode(t.eski),
        t.phase is CountNew ==> row_action_of(t) == RowAction::CountCode(t.yeni),
{
}

/// A reply changes only where a row stands, never what it is about or with
/// which settings it is moved.
pub proof fn law_row_settings_fixed(t: RowTransfer, r: Reply)
    ensures
        ({
            let t2 = RowTransfer { phase: row_next_phase(t, r), ..t };
            t2.eski == t.eski && t2.yeni == t.yeni && t2.sil == t.sil && t2.cari_tipi == t.cari_tipi
                && t2.user_id == t.user_id && t2.son_deg_guncelle == t.son_deg_guncelle
        }),
{
}

} // verus!
