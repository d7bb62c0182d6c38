use cari_aktarim::{build_sql_preview, Notice, Reply, RowAction, RunAction, RunTransfer, TransferRow, TransferSummary, TriggerCfg};

/// A simulated server and user interface for a whole run.
struct World {
    procedure_exists: bool,
    codes: Vec<String>,
    disabled: Vec<String>,
    pending: Vec<(String, i64)>,
    fail_disable: Option<String>,
    fail_enable: Vec<String>,
    fail_error_audit: bool,
    fail_audit_table: bool,
    fail_register: Option<String>,
    fail_skip: bool,
    cancel_after: Option<usize>,
    cancel_checks: usize,
    next_guard: i64,
    trace: Vec<String>,
}

impl World {
    fn new(codes: &[&str]) -> World {
        World {
            procedure_exists: true,
            codes: codes.iter().map(|c| c.to_string()).collect(),
            disabled: Vec::new(),
            pending: Vec::new(),
            fail_disable: None,
            fail_enable: Vec::new(),
            fail_error_audit: false,
            fail_audit_table: false,
            fail_register: None,
            fail_skip: false,
            cancel_after: None,
            cancel_checks: 0,
            next_guard: 1,
            trace: Vec::new(),
        }
    }

    fn row_reply(&mut self, a: &RowAction) -> Reply {
        match a {
            RowAction::Begin | RowAction::Commit | RowAction::Rollback => Reply::Unit(Ok(())),
            RowAction::CountCode(c) => Reply::Count(Ok(self.codes.iter().filter(|x| *x == c).count() as i32)),
            RowAction::Rename { yeni, eski, .. } => {
                self.trace.push(format!("RENAME {eski} {yeni}"));
                for c in self.codes.iter_mut() {
                    if c == eski {
                        *c = yeni.clone();
                    }
                }
                Reply::Affected(Ok(vec![1]))
            }
            RowAction::FetchColumns => Reply::Columns(Ok(vec![Some("cari_kod".into())])),
            RowAction::Insert { yeni, eski, .. } => {
                self.trace.push(format!("INSERT {eski} {yeni}"));
                self.codes.push(yeni.clone());
                Reply::Affected(Ok(vec![1]))
            }
            RowAction::Procedure { .. } => Reply::Unit(Ok(())),
            RowAction::AuditOk(_) => Reply::Unit(Ok(())),
            RowAction::Finished => panic!("finished row asked for a call"),
        }
    }

    fn reply(&mut self, a: RunAction) -> Option<Reply> {
        Some(match a {
            RunAction::Connect => Reply::Unit(Ok(())),
            RunAction::CheckProcedure => Reply::Flag(Ok(self.procedure_exists)),
            RunAction::EnsureAuditTable if self.fail_audit_table => {
                Reply::Unit(Err("Denetim tablosu oluşturulamadı: yetki yok".into()))
            }
            RunAction::EnsureAuditTable | RunAction::EnsureGuardTable => Reply::Unit(Ok(())),
            RunAction::IsDisabled { trigger } => Reply::Flag(Ok(self.disabled.contains(&trigger))),
            RunAction::PendingGuard { trigger, .. } => {
                Reply::MaybeId(Ok(self.pending.iter().find(|(t, _)| *t == trigger).map(|(_, g)| *g)))
            }
            RunAction::SetTrigger { trigger, table, enable } => {
                self.trace.push(format!("SET {trigger} {table} {enable}"));
                if !enable && self.fail_disable.as_deref() == Some(trigger.as_str()) {
                    return Some(Reply::Unit(Err("DISABLE TRIGGER başarısız: denied".into())));
                }
                if enable && self.fail_enable.contains(&trigger) {
                    return Some(Reply::Unit(Err("ENABLE TRIGGER başarısız: x".into())));
                }
                if enable {
                    self.disabled.retain(|t| *t != trigger);
                } else {
                    self.disabled.push(trigger);
                }
                Reply::Unit(Ok(()))
            }
            RunAction::ResolveGuard { guard_id, note } => {
                self.trace.push(format!("RESOLVE {guard_id} {note}"));
                Reply::Unit(Ok(()))
            }
            RunAction::RegisterGuard { trigger, .. } if self.fail_register.as_deref() == Some(trigger.as_str()) => {
                self.trace.push(format!("REGISTER {trigger} failed"));
                Reply::Id(Err("Trigger koruma kaydı oluşturulamadı: kilit".into()))
            }
            RunAction::RegisterGuard { trigger, machine, user, .. } => {
                let g = self.next_guard;
                self.next_guard += 1;
                self.trace.push(format!("REGISTER {trigger} {machine} {user} -> {g}"));
                Reply::Id(Ok(g))
            }
            RunAction::SetSkipControl { key, on } => {
                self.trace.push(format!("SKIP {key} {on}"));
                if self.fail_skip {
                    return Some(Reply::Unit(Err("Oturum bağlamı ayarlanamadı: x".into())));
                }
                Reply::Unit(Ok(()))
            }
            RunAction::CheckCancel => {
                let cancel = matches!(self.cancel_after, Some(n) if self.cancel_checks >= n);
                self.cancel_checks += 1;
                Reply::Flag(Ok(cancel))
            }
            RunAction::Row(ra) => self.row_reply(&ra),
            RunAction::Audit(line) => {
                let e = line.entry();
                self.trace.push(format!("AUDIT {} {} {} {}", e.eski, e.yeni, e.result, e.message));
                if !line.ok && self.fail_error_audit {
                    Reply::Unit(Err("Denetim kaydı yazılamadı: full".into()))
                } else {
                    Reply::Unit(Ok(()))
                }
            }
            RunAction::Notify(n) => {
                self.trace.push(match n {
                    Notice::Log(s) => format!("LOG {s}"),
                    Notice::Status(st) => format!("STATUS {} {} {}", st.index, st.status, st.message),
                    Notice::Progress { done, total } => format!("PROGRESS {done}/{total}"),
                    Notice::Alert(s) => format!("ALERT {s}"),
                });
                Reply::Unit(Ok(()))
            }
            RunAction::Finished => return None,
        })
    }
}

fn row(eski: &str, yeni: &str, sil: bool) -> TransferRow {
    TransferRow { eski: eski.into(), yeni: yeni.into(), sil }
}

fn trig(name: &str, table: &str) -> TriggerCfg {
    TriggerCfg { name: name.into(), table: table.into() }
}

fn run(rows: Vec<TransferRow>, triggers: &[TriggerCfg], skip: &str, w: &mut World) -> Result<TransferSummary, String> {
    let mut t = RunTransfer::new(rows, triggers, 0, 1, false, skip, "PC1".into(), "DOM\\ali".into());
    let mut steps = 0;
    loop {
        let a = t.action();
        match w.reply(a) {
            None => break,
            Some(r) => {
                assert!(t.expects(&r));
                t.advance(r);
            }
        }
        steps += 1;
        assert!(steps < 1000);
    }
    assert!(t.is_done());
    t.outcome()
}

fn pos(trace: &[String], prefix: &str) -> usize {
    trace.iter().position(|l| l.starts_with(prefix)).unwrap_or_else(|| panic!("no line {prefix}"))
}

#[test]
fn run_moves_rows_and_restores_triggers_in_reverse() {
    let mut w = World::new(&["A", "C", "D"]);
    let triggers = vec![trig("dbo.t1", "dbo.T1"), trig("t2", "T2")];
    let s = run(vec![row("A", "B", true), row("C", "D", true)], &triggers, " K ", &mut w).unwrap();
    assert_eq!(s.total, 2);
    assert_eq!(s.ok, 1);
    assert_eq!(s.failed, 1);
    assert!(s.trigger_restored);
    assert_eq!(s.trigger_message, "Tüm trigger'lar tekrar etkinleştirildi.");
    assert_eq!(s.errors, vec!["C → D: Yeni kod zaten mevcut: 'D'".to_string()]);
    let tr = &w.trace;
    assert_eq!(tr[0], "LOG SQL denetim kaydı etkin: PC1 / DOM\\ali");
    let d1 = pos(tr, "SET [dbo].[t1] [dbo].[T1] false");
    let d2 = pos(tr, "SET [t2] [T2] false");
    let skip_on = pos(tr, "SKIP K true");
    let first_row = pos(tr, "STATUS 0 running");
    let skip_off = pos(tr, "SKIP K false");
    let e2 = pos(tr, "SET [t2] [T2] true");
    let e1 = pos(tr, "SET [dbo].[t1] [dbo].[T1] true");
    assert!(d1 < d2 && d2 < skip_on && skip_on < first_row && first_row < skip_off);
    assert!(skip_off < e2 && e2 < e1);
    assert!(tr.contains(&"RESOLVE 2 Normal akışta geri açıldı".to_string()));
    assert!(tr.contains(&"RESOLVE 1 Normal akışta geri açıldı".to_string()));
    assert!(tr.contains(&"AUDIT A B OK kart yeniden adlandırıldı, referanslar aktarıldı".to_string()));
    assert!(tr.contains(&"AUDIT C D ERROR Yeni kod zaten mevcut: 'D'".to_string()));
    assert!(tr.contains(&"STATUS 1 error Yeni kod zaten mevcut: 'D'".to_string()));
    assert!(tr.contains(&"PROGRESS 2/2".to_string()));
    assert!(w.disabled.is_empty());
    assert!(w.codes.contains(&"B".to_string()));
}

#[test]
fn trigger_already_off_is_left_off() {
    let mut w = World::new(&["A"]);
    w.disabled.push("[t]".into());
    let s = run(vec![row("A", "B", false)], &[trig("t", "T")], "", &mut w).unwrap();
    assert_eq!(s.ok, 1);
    assert!(s.trigger_restored);
    assert_eq!(s.trigger_message, "Trigger yönetimi atlandı.");
    assert!(w.trace.contains(&"LOG Trigger zaten devre dışı: [t]".to_string()));
    assert!(!w.trace.iter().any(|l| l.starts_with("SET ")));
    assert!(!w.trace.iter().any(|l| l.starts_with("SKIP ")));
    assert_eq!(w.disabled, vec!["[t]".to_string()]);
}

#[test]
fn orphan_guard_is_recovered_first() {
    let mut w = World::new(&["A"]);
    w.disabled.push("[t]".into());
    w.pending.push(("[t]".into(), 7));
    w.next_guard = 8;
    let s = run(vec![row("A", "B", true)], &[trig("t", "T")], "", &mut w).unwrap();
    assert_eq!(s.trigger_message, "Tüm trigger'lar tekrar etkinleştirildi.");
    let tr = &w.trace;
    let reopen = pos(tr, "SET [t] [T] true");
    let resolved = pos(tr, "RESOLVE 7 Sonraki çalıştırmada otomatik kurtarıldı");
    let logged = pos(tr, "LOG Önceki işlemden açık kalan trigger otomatik geri açıldı: [t]");
    let register = pos(tr, "REGISTER [t] PC1 DOM\\ali -> 8");
    let disable = pos(tr, "SET [t] [T] false");
    assert!(reopen < resolved && resolved < logged && logged < register && register < disable);
    assert!(tr.contains(&"RESOLVE 8 Normal akışta geri açıldı".to_string()));
}

#[test]
fn failed_disable_unwinds_earlier_disables() {
    let mut w = World::new(&["A"]);
    w.fail_disable = Some("[t2]".into());
    let triggers = vec![trig("t1", "T1"), trig("t2", "T2")];
    let e = run(vec![row("A", "B", true)], &triggers, "", &mut w).unwrap_err();
    assert_eq!(
        e,
        "'[t2]' devre dışı bırakılamadı: DISABLE TRIGGER başarısız: denied. Önceden kapatılan trigger'lar geri açılmaya çalışıldı."
    );
    let tr = &w.trace;
    let failed = pos(tr, "RESOLVE 2 Disable başarısız");
    let reopen = pos(tr, "SET [t1] [T1] true");
    let resolved = pos(tr, "RESOLVE 1 Disable zinciri geri alındı");
    assert!(failed < reopen && reopen < resolved);
    assert!(!tr.iter().any(|l| l.starts_with("STATUS") || l.starts_with("RENAME")));
    assert!(w.disabled.is_empty());
}

#[test]
fn failed_restore_raises_the_alert() {
    let mut w = World::new(&["A"]);
    w.fail_enable.push("[dbo].[t1]".into());
    let s = run(vec![row("A", "B", true)], &[trig("dbo.t1", "dbo.T1")], "", &mut w).unwrap();
    let m = "KRİTİK: Bazı trigger'lar geri açılamadı. SSMS'te çalıştırın:\nENABLE TRIGGER [dbo].[t1] ON [dbo].[T1] (ENABLE TRIGGER başarısız: x)";
    assert!(!s.trigger_restored);
    assert_eq!(s.trigger_message, m);
    assert_eq!(w.trace.last().unwrap(), &format!("ALERT {m}"));
    assert_eq!(s.ok, 1);
}

#[test]
fn cancel_skips_the_remaining_rows() {
    let mut w = World::new(&["A", "C"]);
    w.cancel_after = Some(1);
    let s = run(vec![row("A", "B", true), row("C", "D", true)], &[trig("t", "T")], "", &mut w).unwrap();
    assert_eq!((s.total, s.ok, s.failed), (2, 1, 0));
    assert!(w.trace.contains(&"LOG İptal edildi — kalan satırlar atlandı.".to_string()));
    assert!(!w.trace.iter().any(|l| l.starts_with("STATUS 1")));
    assert!(s.trigger_restored);
    assert!(w.disabled.is_empty());
}

#[test]
fn failed_error_audit_is_reported_with_the_row() {
    let mut w = World::new(&[]);
    w.fail_error_audit = true;
    let s = run(vec![row("A", "B", true)], &[], "", &mut w).unwrap();
    assert_eq!(
        s.errors,
        vec!["A → B: Eski kod bulunamadı: 'A' | HATA denetim kaydı da yazılamadı: Denetim kaydı yazılamadı: full".to_string()]
    );
    assert_eq!(s.trigger_message, "Trigger yönetimi atlandı.");
}

#[test]
fn runs_refused_before_any_row() {
    let mut w = World::new(&["A"]);
    assert_eq!(run(vec![], &[], "", &mut w).unwrap_err(), "Aktarılacak satır yok.");
    assert_eq!(
        run(vec![row("A", "B", true)], &[trig("t", "x y")], "", &mut w).unwrap_err(),
        "Geçersiz nesne adı 'x y': 'x y' izin verilmeyen karakter içeriyor."
    );
    assert_eq!(run(vec![row("A", "B", true)], &[trig(" ", "x")], "", &mut w).unwrap_err(), "Boş nesne adı.");
    assert!(w.trace.is_empty());
    w.procedure_exists = false;
    assert_eq!(
        run(vec![row("A", "B", true)], &[], "", &mut w).unwrap_err(),
        "dbo.msp_CariKodunuDegistir bu veritabanında bulunamadı. Aktarım iptal edildi — yanlış veritabanına bağlanmış olabilirsiniz."
    );
    assert!(w.trace.is_empty());
}

#[test]
fn invalid_row_does_not_stop_the_others() {
    let mut w = World::new(&["C"]);
    let s = run(vec![row("A", "A", true), row("C", "D", false)], &[], "", &mut w).unwrap();
    assert_eq!((s.ok, s.failed), (1, 1));
    assert_eq!(s.errors, vec!["A → A: Eski ve yeni kod aynı.".to_string()]);
    assert!(w.trace.contains(&"INSERT C D".to_string()));
}

#[test]
fn missing_audit_table_stops_the_run_before_any_trigger() {
    let mut w = World::new(&["A"]);
    w.fail_audit_table = true;
    let e = run(vec![row("A", "B", true)], &[trig("t", "T")], "K", &mut w).unwrap_err();
    assert_eq!(e, "Denetim tablosu oluşturulamadı: yetki yok");
    assert!(w.trace.is_empty());
    assert!(w.disabled.is_empty());
}

#[test]
fn preview_and_run_switch_off_the_same_triggers() {
    let triggers = vec![trig("dbo.t1", "dbo.T1"), trig("t2", "T2"), trig("[x]", "y")];
    let rows = vec![row("A", "B", true)];
    let sql = build_sql_preview(&rows, &triggers, 0, 1, false, None).unwrap();
    let mut w = World::new(&["A"]);
    run(rows, &triggers, "", &mut w).unwrap();
    let disabled_by_run: Vec<String> = w
        .trace
        .iter()
        .filter(|l| l.starts_with("SET ") && l.ends_with(" false"))
        .map(|l| {
            let parts: Vec<&str> = l.split(' ').collect();
            format!("DISABLE TRIGGER {} ON {};", parts[1], parts[2])
        })
        .collect();
    let enabled_by_run: Vec<String> = w
        .trace
        .iter()
        .filter(|l| l.starts_with("SET ") && l.ends_with(" true"))
        .map(|l| {
            let parts: Vec<&str> = l.split(' ').collect();
            format!("ENABLE TRIGGER {} ON {};", parts[1], parts[2])
        })
        .collect();
    let disabled_in_preview: Vec<String> =
        sql.lines().filter(|l| l.starts_with("DISABLE TRIGGER")).map(str::to_string).collect();
    let enabled_in_preview: Vec<String> =
        sql.lines().filter(|l| l.starts_with("ENABLE TRIGGER")).map(str::to_string).collect();
    assert_eq!(disabled_by_run, disabled_in_preview);
    assert_eq!(enabled_by_run, enabled_in_preview);
    assert_eq!(disabled_by_run.len(), 3);
}

#[test]
fn failure_while_switching_off_restores_earlier_triggers_first() {
    let mut w = World::new(&["A"]);
    w.fail_register = Some("[t2]".into());
    let triggers = vec![trig("t1", "T1"), trig("t2", "T2")];
    let e = run(vec![row("A", "B", true)], &triggers, "", &mut w).unwrap_err();
    assert_eq!(e, "Trigger koruma kaydı oluşturulamadı: kilit");
    let tr = &w.trace;
    let off = pos(tr, "SET [t1] [T1] false");
    let failed = pos(tr, "REGISTER [t2] failed");
    let on = pos(tr, "SET [t1] [T1] true");
    let resolved = pos(tr, "RESOLVE 1 Normal akışta geri açıldı");
    assert!(off < failed && failed < on && on < resolved);
    assert!(tr.contains(&"LOG Trigger tekrar etkinleştirildi: [t1]".to_string()));
    assert!(!tr.iter().any(|l| l.starts_with("STATUS")));
    assert!(w.disabled.is_empty());
}

#[test]
fn failed_skip_flag_restores_triggers_and_alerts_when_one_stays_off() {
    let mut w = World::new(&["A"]);
    w.fail_skip = true;
    w.fail_enable.push("[t2]".into());
    let triggers = vec![trig("t1", "T1"), trig("t2", "T2")];
    let e = run(vec![row("A", "B", true)], &triggers, "K", &mut w).unwrap_err();
    assert_eq!(e, "Oturum bağlamı ayarlanamadı: x");
    let tr = &w.trace;
    let on2 = pos(tr, "SET [t2] [T2] true");
    let on1 = pos(tr, "SET [t1] [T1] true");
    assert!(on2 < on1);
    assert_eq!(
        tr.last().unwrap(),
        "ALERT KRİTİK: Bazı trigger'lar geri açılamadı. SSMS'te çalıştırın:\nENABLE TRIGGER [t2] ON [T2] (ENABLE TRIGGER başarısız: x)"
    );
    assert!(!tr.iter().any(|l| l.starts_with("STATUS")));
    assert_eq!(w.disabled, vec!["[t2]".to_string()]);
}

#[test]
fn blank_trigger_entries_skip_trigger_management() {
    let mut w = World::new(&["A"]);
    let s = run(vec![row("A", "B", true)], &[trig("", ""), trig(" ", "  ")], "", &mut w).unwrap();
    assert_eq!(s.ok, 1);
    assert!(s.trigger_restored);
    assert_eq!(s.trigger_message, "Trigger yönetimi atlandı.");
    assert!(!w.trace.iter().any(|l| l.starts_with("SET ") || l.starts_with("REGISTER")));
    let mut w = World::new(&["A"]);
    let s = run(vec![row("A", "B", true)], &[trig("", ""), trig("t", "T")], "", &mut w).unwrap();
    assert_eq!(s.trigger_message, "Tüm trigger'lar tekrar etkinleştirildi.");
    assert!(w.trace.contains(&"SET [t] [T] false".to_string()));
}
