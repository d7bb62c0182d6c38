use cari_aktarim::{
    affected_total, column_list, insert_sql, Reply, RowAction, RowFailure, RowPhase, RowSuccess, RowTransfer,
    TransferRow,
};

/// A database for one row: the codes present, and which calls fail.
struct Db {
    codes: Vec<String>,
    columns: Vec<Option<String>>,
    affected: Vec<u64>,
    fail_on: Option<&'static str>,
    calls: Vec<String>,
}

impl Db {
    fn new(codes: &[&str]) -> Db {
        Db {
            codes: codes.iter().map(|c| c.to_string()).collect(),
            columns: vec![Some("cari_Guid".into()), Some("cari_kod".into()), None, Some("cari_unvan1".into())],
            affected: vec![1],
            fail_on: None,
            calls: Vec::new(),
        }
    }

    fn fails(&self, what: &str) -> bool {
        self.fail_on == Some(what)
    }

    fn reply(&mut self, a: &RowAction) -> Reply {
        match a {
            RowAction::Begin => {
                self.calls.push("BEGIN".into());
                Reply::Unit(if self.fails("begin") { Err("b".into()) } else { Ok(()) })
            }
            RowAction::CountCode(c) => {
                self.calls.push(format!("COUNT {c}"));
                if self.fails("count") {
                    return Reply::Count(Err("q".into()));
                }
                Reply::Count(Ok(self.codes.iter().filter(|x| *x == c).count() as i32))
            }
            RowAction::Rename { yeni, user_id, eski } => {
                self.calls.push(format!("RENAME {eski} {yeni} {user_id}"));
                if self.fails("rename") {
                    return Reply::Affected(Err("r".into()));
                }
                Reply::Affected(Ok(self.affected.clone()))
            }
            RowAction::FetchColumns => {
                self.calls.push("COLUMNS".into());
                Reply::Columns(Ok(self.columns.clone()))
            }
            RowAction::Insert { sql, yeni, eski } => {
                self.calls.push(format!("INSERT {eski} {yeni}: {sql}"));
                Reply::Affected(Ok(self.affected.clone()))
            }
            RowAction::Procedure { cari_tipi, eski, yeni, flag } => {
                self.calls.push(format!("EXEC {cari_tipi} {eski} {yeni} {flag}"));
                Reply::Unit(if self.fails("procedure") { Err("p".into()) } else { Ok(()) })
            }
            RowAction::AuditOk(_) => {
                self.calls.push("AUDIT".into());
                Reply::Unit(if self.fails("audit") { Err("a".into()) } else { Ok(()) })
            }
            RowAction::Commit => {
                self.calls.push("COMMIT".into());
                Reply::Unit(if self.fails("commit") { Err("c".into()) } else { Ok(()) })
            }
            RowAction::Rollback => {
                self.calls.push("ROLLBACK".into());
                Reply::Unit(if self.fails("rollback-too") { Err("rb".into()) } else { Ok(()) })
            }
            RowAction::Finished => panic!("no call when finished"),
        }
    }
}

fn run_row(row: TransferRow, db: &mut Db, son_deg: bool) -> Result<RowSuccess, RowFailure> {
    let mut t = RowTransfer::new(&row, 3, 9, son_deg);
    let mut steps = 0;
    while !t.is_done() {
        let a = t.action();
        let r = db.reply(&a);
        t.advance(r);
        steps += 1;
        assert!(steps < 50);
    }
    match t.phase {
        RowPhase::Done(res) => res,
        _ => panic!("finished row without an outcome"),
    }
}

fn row(eski: &str, yeni: &str, sil: bool) -> TransferRow {
    TransferRow { eski: eski.into(), yeni: yeni.into(), sil }
}

#[test]
fn rename_row_steps() {
    let mut db = Db::new(&["A"]);
    let r = run_row(row(" A ", " B ", true), &mut db, true);
    assert!(matches!(r, Ok(RowSuccess::Renamed)));
    assert_eq!(db.calls, vec!["BEGIN", "COUNT A", "COUNT B", "RENAME A B 9", "EXEC 3 A B 1", "AUDIT", "COMMIT"]);
    assert_eq!(RowSuccess::Renamed.text(), "kart yeniden adlandırıldı, referanslar aktarıldı");
}

#[test]
fn copy_row_steps() {
    let mut db = Db::new(&["A"]);
    let r = run_row(row("A", "B", false), &mut db, false);
    assert!(matches!(r, Ok(RowSuccess::Copied)));
    assert_eq!(
        db.calls,
        vec![
            "BEGIN",
            "COUNT A",
            "COUNT B",
            "COLUMNS",
            "INSERT A B: INSERT INTO dbo.CARI_HESAPLAR ([cari_Guid], [cari_kod], [cari_unvan1]) SELECT [cari_Guid], @P1, [cari_unvan1] FROM dbo.CARI_HESAPLAR WHERE cari_kod = @P2",
            "EXEC 3 A B 0",
            "AUDIT",
            "COMMIT"
        ]
    );
    assert_eq!(RowSuccess::Copied.text(), "yeni kart oluşturuldu, referanslar aktarıldı");
}

#[test]
fn invalid_rows_make_no_call() {
    let mut db = Db::new(&["A"]);
    let r = run_row(row(" ", "B", true), &mut db, false);
    let f = r.unwrap_err();
    assert_eq!(f.text("", "B"), "Eski veya yeni kod boş.");
    let r = run_row(row("A", " A", true), &mut db, false);
    assert_eq!(r.unwrap_err().text("A", "A"), "Eski ve yeni kod aynı.");
    assert!(db.calls.is_empty());
}

#[test]
fn failures_after_begin_roll_back() {
    let mut db = Db::new(&[]);
    let f = run_row(row("A", "B", true), &mut db, false).unwrap_err();
    assert_eq!(f.text("A", "B"), "Eski kod bulunamadı: 'A'");
    assert_eq!(db.calls, vec!["BEGIN", "COUNT A", "ROLLBACK"]);

    let mut db = Db::new(&["A", "B"]);
    let f = run_row(row("A", "B", true), &mut db, false).unwrap_err();
    assert_eq!(f.text("A", "B"), "Yeni kod zaten mevcut: 'B'");
    assert_eq!(db.calls.last().unwrap(), "ROLLBACK");

    let mut db = Db::new(&["A"]);
    db.affected = vec![1, 1];
    let f = run_row(row("A", "B", true), &mut db, false).unwrap_err();
    assert_eq!(f.text("A", "B"), "Beklenmeyen güncelleme sayısı (2). 1 satır bekleniyordu.");
    assert_eq!(db.calls.last().unwrap(), "ROLLBACK");

    let mut db = Db::new(&["A"]);
    db.affected = vec![];
    let f = run_row(row("A", "B", false), &mut db, false).unwrap_err();
    assert_eq!(f.text("A", "B"), "Beklenmeyen ekleme sayısı (0). 1 satır bekleniyordu.");

    let mut db = Db::new(&["A"]);
    db.fail_on = Some("procedure");
    let f = run_row(row("A", "B", true), &mut db, false).unwrap_err();
    assert_eq!(f.text("A", "B"), "msp_CariKodunuDegistir başarısız: p");
    assert!(!db.calls.contains(&"COMMIT".to_string()));
    assert_eq!(db.calls.last().unwrap(), "ROLLBACK");

    let mut db = Db::new(&["A"]);
    db.fail_on = Some("rename");
    let f = run_row(row("A", "B", true), &mut db, false).unwrap_err();
    assert_eq!(f.text("A", "B"), "Kart yeniden adlandırılamadı: r");

    let mut db = Db::new(&["A"]);
    db.fail_on = Some("count");
    let f = run_row(row("A", "B", true), &mut db, false).unwrap_err();
    assert_eq!(f.text("A", "B"), "q");
}

#[test]
fn audit_failure_rolls_back_the_row() {
    let mut db = Db::new(&["A"]);
    db.fail_on = Some("audit");
    let f = run_row(row("A", "B", true), &mut db, false).unwrap_err();
    assert_eq!(f.text("A", "B"), "Aktarım denetim kaydı yazılamadığı için geri alındı: a");
    assert_eq!(db.calls[db.calls.len() - 2..], ["AUDIT".to_string(), "ROLLBACK".to_string()]);
}

#[test]
fn begin_and_commit_failures_are_final() {
    let mut db = Db::new(&["A"]);
    db.fail_on = Some("begin");
    let f = run_row(row("A", "B", true), &mut db, false).unwrap_err();
    assert_eq!(f.text("A", "B"), "BEGIN TRAN başarısız: b");
    assert_eq!(db.calls, vec!["BEGIN"]);

    let mut db = Db::new(&["A"]);
    db.fail_on = Some("commit");
    let f = run_row(row("A", "B", true), &mut db, false).unwrap_err();
    assert_eq!(f.text("A", "B"), "COMMIT başarısız: c");
    assert_eq!(db.calls.last().unwrap(), "COMMIT");
}

#[test]
fn failed_rollback_keeps_the_first_error() {
    let f = RowFailure::RollbackFailed(Box::new(RowFailure::OldMissing), "rb".into());
    assert_eq!(f.text("A", "B"), "Eski kod bulunamadı: 'A' | ROLLBACK da başarısız: rb");
}

#[test]
fn copy_without_named_columns_fails() {
    let mut db = Db::new(&["A"]);
    db.columns = vec![None];
    let f = run_row(row("A", "B", false), &mut db, false).unwrap_err();
    assert_eq!(f.text("A", "B"), "CARI_HESAPLAR tablosu bulunamadı veya kolonu yok.");
    assert_eq!(db.calls.last().unwrap(), "ROLLBACK");
}

#[test]
fn insert_statement_and_column_list() {
    let raw = vec![Some("X".to_string()), None, Some("Cari_Kod".to_string())];
    assert_eq!(
        insert_sql(&raw),
        "INSERT INTO dbo.CARI_HESAPLAR ([X], [Cari_Kod]) SELECT [X], @P1 FROM dbo.CARI_HESAPLAR WHERE cari_kod = @P2"
    );
    assert_eq!(column_list(&raw).unwrap(), vec!["X".to_string(), "Cari_Kod".to_string()]);
    assert_eq!(
        column_list(&vec![None, None]).unwrap_err(),
        "CARI_HESAPLAR tablosu bulunamadı veya kolonu yok."
    );
    assert_eq!(column_list(&vec![]).unwrap_err(), "CARI_HESAPLAR tablosu bulunamadı veya kolonu yok.");
}

#[test]
fn affected_counts_are_summed() {
    assert_eq!(affected_total(&vec![]), 0);
    assert_eq!(affected_total(&vec![1, 0, 2]), 3);
    assert_eq!(affected_total(&vec![u64::MAX, u64::MAX]), 2 * (u64::MAX as u128));
}

#[test]
fn row_reply_kinds_checked_before_advance() {
    let t = RowTransfer::new(&row("A", "B", true), 0, 1, false);
    assert!(t.expects(&Reply::Unit(Ok(()))));
    assert!(!t.expects(&Reply::Count(Ok(1))));
    let mut t = t;
    t.advance(Reply::Unit(Ok(())));
    assert!(t.expects(&Reply::Count(Ok(1))));
    assert!(!t.expects(&Reply::Unit(Ok(()))));
    let done = RowTransfer::new(&row("A", "A", true), 0, 1, false);
    assert!(!done.expects(&Reply::Unit(Ok(()))));
}
