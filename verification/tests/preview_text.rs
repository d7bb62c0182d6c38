use cari_aktarim::{build_sql_preview, collect_trigger_pairs, preview_needs_columns, TransferRow, TriggerCfg};

const SEP: &str = "-- ================================================================\n";

fn row(eski: &str, yeni: &str, sil: bool) -> TransferRow {
    TransferRow { eski: eski.to_string(), yeni: yeni.to_string(), sil }
}

fn trig(name: &str, table: &str) -> TriggerCfg {
    TriggerCfg { name: name.to_string(), table: table.to_string() }
}

#[test]
fn rename_preview_full_text() {
    let sql = build_sql_preview(&[row(" A ", "B", true)], &[], 0, 1, false, None).unwrap();
    let expected = format!(
        "{SEP}-- 1) TRIGGER'LAR DEVRE DIŞI (aktarım başında, tek oturumda)\n{SEP}\
         -- (Trigger yönetimi yok — tanımlı trigger girilmedi)\n\n\
         {SEP}-- SATIR 1:  A  →  B   [eski kart SİLİNECEK (yeniden adlandırma)]\n{SEP}\
         BEGIN TRANSACTION;\n\
         UPDATE dbo.CARI_HESAPLAR\n    SET cari_kod = N'B', cari_lastup_date = GETDATE(), cari_lastup_user = 1\n    WHERE cari_kod = N'A';\n\
         EXEC dbo.msp_CariKodunuDegistir\n    @CariTipi = 0,\n    @EskiCariKodu = N'A',\n    @YeniCariKodu = N'B',\n    @Kart_aktarim_son_deg_bilgileri_guncelle_fl = 0;\n\
         COMMIT TRANSACTION;\n\n\
         {SEP}-- 2) TRIGGER'LAR TEKRAR ETKİN (aktarım sonunda, HER KOŞULDA)\n{SEP}\
         -- (Trigger yönetimi yok)\n"
    );
    assert_eq!(sql, expected);
}

#[test]
fn copy_preview_without_columns_uses_placeholder() {
    let sql = build_sql_preview(&[row(" X'1 ", "Y", false)], &[], 2, 7, true, None).unwrap();
    let block = format!(
        "{SEP}-- SATIR 1:  X'1  →  Y   [eski kart KORUNACAK (kopyalama)]\n{SEP}\
         BEGIN TRANSACTION;\n\
         INSERT INTO dbo.CARI_HESAPLAR ( <identity hariç tüm kolonlar> )\n    SELECT < ..., cari_kod = N'Y', ... >\n    FROM dbo.CARI_HESAPLAR WHERE cari_kod = N'X''1';\n    -- Kolon listesi çalışma anında INFORMATION_SCHEMA'dan çözülür.\n\
         EXEC dbo.msp_CariKodunuDegistir\n    @CariTipi = 2,\n    @EskiCariKodu = N'X''1',\n    @YeniCariKodu = N'Y',\n    @Kart_aktarim_son_deg_bilgileri_guncelle_fl = 1;\n\
         COMMIT TRANSACTION;\n\n"
    );
    assert!(sql.contains(&block));
    let empty: Vec<String> = Vec::new();
    let sql2 = build_sql_preview(&[row(" X'1 ", "Y", false)], &[], 2, 7, true, Some(&empty)).unwrap();
    assert_eq!(sql, sql2);
}

#[test]
fn copy_preview_lists_columns_and_replaces_code_column() {
    let cols = vec!["cari_Guid".to_string(), "CARI_KOD".to_string(), "cari_unvan1".to_string()];
    let sql = build_sql_preview(&[row("A", "B", false)], &[], 0, 1, false, Some(&cols)).unwrap();
    assert!(sql.contains(
        "INSERT INTO dbo.CARI_HESAPLAR ([cari_Guid], [CARI_KOD], [cari_unvan1])\n    SELECT [cari_Guid], N'B', [cari_unvan1]\n    FROM dbo.CARI_HESAPLAR WHERE cari_kod = N'A';\n"
    ));
}

#[test]
fn triggers_switched_on_again_last_first() {
    let triggers = vec![trig("dbo.tr_a", "dbo.A"), trig("  ", ""), trig("tr_b", "B")];
    let sql = build_sql_preview(&[row("A", "B", true)], &triggers, 0, 1, false, None).unwrap();
    assert!(sql.contains("DISABLE TRIGGER [dbo].[tr_a] ON [dbo].[A];\nDISABLE TRIGGER [tr_b] ON [B];\n\n"));
    assert!(sql.ends_with("ENABLE TRIGGER [tr_b] ON [B];\nENABLE TRIGGER [dbo].[tr_a] ON [dbo].[A];\n"));
    let d = sql.find("DISABLE TRIGGER").unwrap();
    let b = sql.find("BEGIN TRANSACTION").unwrap();
    let e = sql.find("ENABLE TRIGGER [tr_b]").unwrap();
    assert!(d < b && b < e);
}

#[test]
fn rows_numbered_in_order() {
    let sql = build_sql_preview(&[row("A", "B", true), row("C", "D", true)], &[], 0, 1, false, None).unwrap();
    let one = sql.find("-- SATIR 1:  A  →  B").unwrap();
    let two = sql.find("-- SATIR 2:  C  →  D").unwrap();
    assert!(one < two);
}

#[test]
fn refused_trigger_name_refuses_preview() {
    let e = build_sql_preview(&[row("A", "B", true)], &[trig("x;y", "T")], 0, 1, false, None).unwrap_err();
    assert_eq!(e, "Geçersiz nesne adı 'x;y': 'x;y' izin verilmeyen karakter içeriyor.");
    let e = build_sql_preview(&[row("A", "B", true)], &[trig(" ", "T")], 0, 1, false, None).unwrap_err();
    assert_eq!(e, "Boş nesne adı.");
    let e = build_sql_preview(&[row("A", "B", true)], &[trig("t", "a.b.c")], 0, 1, false, None).unwrap_err();
    assert_eq!(e, "Geçersiz nesne adı 'a.b.c'. En fazla 'sema.nesne' biçimi desteklenir.");
}

#[test]
fn trigger_pairs_skip_blank_entries_only_when_asked() {
    let triggers = vec![trig("", " "), trig("t", "dbo.T")];
    let kept = collect_trigger_pairs(&triggers, true).unwrap();
    assert_eq!(kept, vec![("[t]".to_string(), "[dbo].[T]".to_string())]);
    assert_eq!(collect_trigger_pairs(&triggers, false).unwrap_err(), "Boş nesne adı.");
    assert!(collect_trigger_pairs(&[], false).unwrap().is_empty());
}

#[test]
fn preview_needs_live_columns_only_for_copies() {
    assert_eq!(preview_needs_columns(&[]).unwrap_err(), "Önizlenecek satır yok.");
    assert_eq!(preview_needs_columns(&[row("A", "B", true)]), Ok(false));
    assert_eq!(preview_needs_columns(&[row("A", "B", true), row("C", "D", false)]), Ok(true));
}
