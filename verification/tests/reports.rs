use cari_aktarim::{
    client_machine_label, client_user_label, enabled_line, join_lines, no_trigger_message, trigger_failure,
    trigger_short_name, trigger_sql, trigger_state_line,
};

#[test]
fn trigger_short_names() {
    assert_eq!(trigger_short_name(" dbo.tr_Siparis ").unwrap(), "tr_Siparis");
    assert_eq!(trigger_short_name("[dbo].[tr_x]").unwrap(), "tr_x");
    assert_eq!(trigger_short_name("tr_y").unwrap(), "tr_y");
    assert_eq!(trigger_short_name("[[a]]").unwrap(), "a");
    assert_eq!(trigger_short_name("dbo.").unwrap_err(), "Boş trigger adı.");
    assert_eq!(trigger_short_name("  ").unwrap_err(), "Boş trigger adı.");
    assert_eq!(trigger_short_name("x.[]").unwrap_err(), "Boş trigger adı.");
}

#[test]
fn trigger_state_lines() {
    assert_eq!(trigger_state_line("tr", Some(true)).unwrap(), "'tr' şu anda DEVRE DIŞI.");
    assert_eq!(trigger_state_line("tr", Some(false)).unwrap(), "'tr' şu anda ETKİN.");
    assert_eq!(trigger_state_line("tr", None).unwrap_err(), "'tr' adlı trigger bulunamadı.");
    assert_eq!(no_trigger_message(), "Yönetilecek trigger tanımlı değil.");
}

#[test]
fn lines_joined_by_line_breaks() {
    assert_eq!(join_lines(&vec![]), "");
    assert_eq!(join_lines(&vec!["a".to_string()]), "a");
    assert_eq!(join_lines(&vec!["a".to_string(), "".to_string(), "c".to_string()]), "a\n\nc");
}

#[test]
fn client_identity_labels() {
    assert_eq!(client_machine_label(Some("PC1".into()), Some("h".into())), "PC1");
    assert_eq!(client_machine_label(None, Some("h".into())), "h");
    assert_eq!(client_machine_label(None, None), "Bilinmiyor");
    assert_eq!(client_user_label(Some("DOM".into()), Some("ali".into()), Some("x".into())), "DOM\\ali");
    assert_eq!(client_user_label(Some("".into()), Some("ali".into()), None), "ali");
    assert_eq!(client_user_label(None, Some("ali".into()), None), "ali");
    assert_eq!(client_user_label(Some("DOM".into()), None, Some("veli".into())), "veli");
    assert_eq!(client_user_label(None, None, None), "Bilinmiyor");
}

#[test]
fn trigger_statements_and_messages() {
    assert_eq!(trigger_sql("[t]", "[T]", true), "ENABLE TRIGGER [t] ON [T]");
    assert_eq!(trigger_sql("[t]", "[T]", false), "DISABLE TRIGGER [t] ON [T]");
    assert_eq!(trigger_failure(false, "denied"), "DISABLE TRIGGER başarısız: denied");
    assert_eq!(trigger_failure(true, "x"), "ENABLE TRIGGER başarısız: x");
    assert_eq!(enabled_line("[t]", "[T]"), "Trigger etkinleştirildi: [t] ON [T]");
}

#[test]
fn small_answers_from_result_rows() {
    assert_eq!(
        cari_aktarim::probe_report(Some((Some(" SQL 2022 \nx".into()), Some("db".into()), None, Some("16.0".into()))))
            .unwrap(),
        "Bağlantı başarılı.\nVeritabanı: db\nOturum: \nSürüm: 16.0\nSQL 2022"
    );
    assert_eq!(cari_aktarim::probe_report(None).unwrap_err(), "Sunucudan yanıt gelmedi.");
    assert!(cari_aktarim::procedure_found(Some(1)));
    assert!(!cari_aktarim::procedure_found(Some(0)));
    assert!(!cari_aktarim::procedure_found(None));
    assert_eq!(cari_aktarim::trigger_disabled_state("[t]", Some(true)), Ok(true));
    assert_eq!(cari_aktarim::trigger_disabled_state("[t]", None).unwrap_err(), "Trigger bulunamadı: [t]");
    assert_eq!(cari_aktarim::guard_id_of(Some(5)), Ok(5));
    assert_eq!(cari_aktarim::guard_id_of(None).unwrap_err(), "Trigger koruma kaydı kimliği alınamadı.");
    assert_eq!(
        cari_aktarim::trigger_status_without_lookup(&[]).as_deref(),
        Some("Yönetilecek trigger tanımlı değil.")
    );
    let t = vec![cari_aktarim::TriggerCfg { name: "t".into(), table: "T".into() }];
    assert_eq!(cari_aktarim::trigger_status_without_lookup(&t), None);
}

#[test]
fn trigger_status_answer_from_lookups() {
    assert_eq!(cari_aktarim::trigger_status_text(&[]).unwrap(), "");
    assert_eq!(
        cari_aktarim::trigger_status_text(&[("a".to_string(), Some(true)), ("b".to_string(), Some(false))]).unwrap(),
        "'a' şu anda DEVRE DIŞI.\n'b' şu anda ETKİN."
    );
    assert_eq!(
        cari_aktarim::trigger_status_text(&[("a".to_string(), Some(true)), ("b".to_string(), None), ("c".to_string(), None)])
            .unwrap_err(),
        "'b' adlı trigger bulunamadı."
    );
}
