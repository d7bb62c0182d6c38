use cari_aktarim::{build_sql_preview, validate_qualified_ident, TransferRow, TriggerCfg};

#[test]
fn onizleme_ciktisi() {
    let rows = vec![
        TransferRow { eski: "120.1.İNT.HB.1156".into(), yeni: "ESK-120.1.İNT.HB.1156".into(), sil: true },
        TransferRow { eski: "120.1.O'BRIEN".into(), yeni: "120.1.ARSIV.OBRIEN".into(), sil: false },
    ];
    let triggers = vec![TriggerCfg { name: "dbo.tr_Siparis_ForinsertUpdate".into(), table: "dbo.SIPARISLER".into() }];
    let cols = vec!["cari_Guid".to_string(), "cari_kod".to_string(), "cari_unvan1".to_string()];
    let sql = build_sql_preview(&rows, &triggers, 0, 1, false, Some(&cols)).unwrap();
    println!("\n------- ÖNİZLEME BAŞLANGIÇ -------\n{sql}\n------- ÖNİZLEME BİTİŞ -------\n");
    assert!(sql.contains("N'120.1.O''BRIEN'"));
    assert!(sql.contains("UPDATE dbo.CARI_HESAPLAR"));
    assert!(sql.contains("EXEC dbo.msp_CariKodunuDegistir"));
    assert!(sql.contains("SELECT [cari_Guid], N'120.1.ARSIV.OBRIEN', [cari_unvan1]"));
    assert!(sql.contains("DISABLE TRIGGER [dbo].[tr_Siparis_ForinsertUpdate] ON [dbo].[SIPARISLER]"));
    assert!(sql.contains("ENABLE TRIGGER [dbo].[tr_Siparis_ForinsertUpdate] ON [dbo].[SIPARISLER]"));
}

#[test]
fn kabul_edilen_isimler() {
    assert_eq!(
        validate_qualified_ident("dbo.tr_Siparis_ForinsertUpdate").unwrap(),
        "[dbo].[tr_Siparis_ForinsertUpdate]"
    );
    assert_eq!(validate_qualified_ident("SIPARISLER").unwrap(), "[SIPARISLER]");
    assert_eq!(validate_qualified_ident("[dbo].[SIPARISLER]").unwrap(), "[dbo].[SIPARISLER]");
}

#[test]
fn injection_denemeleri_reddedilir() {
    assert!(validate_qualified_ident("SIPARISLER; DROP TABLE X--").is_err());
    assert!(validate_qualified_ident("a.b.c").is_err());
    assert!(validate_qualified_ident("").is_err());
    assert!(validate_qualified_ident("1tablo").is_err());
    assert!(validate_qualified_ident("tablo]").is_err());
    assert!(validate_qualified_ident("[tablo").is_err());
}
