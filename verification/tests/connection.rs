use cari_aktarim::{
    ascii_lowercase, connect_plan, connection_report, parse_port, probe_message, AuthPlan, DbConfig,
};

fn cfg(server: &str, database: &str, auth: &str, user: Option<&str>, password: Option<&str>) -> DbConfig {
    DbConfig {
        server: server.to_string(),
        database: database.to_string(),
        auth: auth.to_string(),
        username: user.map(str::to_string),
        password: password.map(str::to_string),
        trust_cert: true,
    }
}

#[test]
fn ports_parse_like_u16() {
    assert_eq!(parse_port("1433"), Some(1433));
    assert_eq!(parse_port("+80"), Some(80));
    assert_eq!(parse_port("0065535"), Some(65535));
    assert_eq!(parse_port("65536"), None);
    assert_eq!(parse_port(""), None);
    assert_eq!(parse_port("+"), None);
    assert_eq!(parse_port("-1"), None);
    assert_eq!(parse_port("14 33"), None);
    assert_eq!(parse_port("99999999999999999999"), None);
    for s in ["0", "1", "8080", "+65535", "65535", "123456", "12a"] {
        assert_eq!(parse_port(s), s.parse::<u16>().ok());
    }
}

#[test]
fn lowercase_ascii_only() {
    assert_eq!(ascii_lowercase("SQL"), "sql");
    assert_eq!(ascii_lowercase("WinDows İ"), "windows İ");
}

#[test]
fn plain_host_gets_default_port() {
    let p = connect_plan(&cfg(" 10.0.0.10 ", " MikroDB ", " SQL ", Some(" sa "), Some(" p w ")), false).unwrap();
    assert_eq!(p.host, "10.0.0.10");
    assert_eq!(p.instance, None);
    assert_eq!(p.port, Some(1433));
    assert_eq!(p.database, "MikroDB");
    assert!(p.trust_cert);
    match p.auth {
        AuthPlan::Sql { user, password } => {
            assert_eq!(user, "sa");
            assert_eq!(password, " p w ");
        }
        AuthPlan::Integrated => panic!("expected SQL login"),
    }
}

#[test]
fn named_instance_and_port_forms() {
    let p = connect_plan(&cfg("srv \\ SQLEXPRESS", "db", "sql", Some("u"), None), false).unwrap();
    assert_eq!(p.host, "srv");
    assert_eq!(p.instance.as_deref(), Some("SQLEXPRESS"));
    assert_eq!(p.port, None);
    match p.auth {
        AuthPlan::Sql { password, .. } => assert_eq!(password, ""),
        AuthPlan::Integrated => panic!("expected SQL login"),
    }
    let p = connect_plan(&cfg("srv, 1500 ", "db", "sql", Some("u"), None), false).unwrap();
    assert_eq!(p.host, "srv");
    assert_eq!(p.port, Some(1500));
    assert_eq!(
        connect_plan(&cfg("srv,15x", "db", "sql", Some("u"), None), false).unwrap_err(),
        "Geçersiz port: '15x'"
    );
}

#[test]
fn connection_settings_errors_in_order() {
    assert_eq!(connect_plan(&cfg("  ", "", "x", None, None), false).unwrap_err(), "Sunucu adı boş.");
    assert_eq!(connect_plan(&cfg("s", " ", "x", None, None), false).unwrap_err(), "Veritabanı adı boş.");
    assert_eq!(
        connect_plan(&cfg("s", "d", "sql", Some("  "), None), false).unwrap_err(),
        "SQL Auth seçildi ama kullanıcı adı boş."
    );
    assert_eq!(
        connect_plan(&cfg("s", "d", "sql", None, None), false).unwrap_err(),
        "SQL Auth seçildi ama kullanıcı adı boş."
    );
    assert_eq!(
        connect_plan(&cfg("s", "d", " Kerberos ", None, None), false).unwrap_err(),
        "Bilinmeyen kimlik doğrulama türü: 'kerberos'."
    );
    assert_eq!(
        connect_plan(&cfg("s", "d", "windows", None, None), false).unwrap_err(),
        "Windows Integrated Auth yalnızca Windows üzerinde desteklenir. Bu platformda SQL Server Auth kullanın."
    );
    let p = connect_plan(&cfg("s", "d", "Windows", None, None), true).unwrap();
    assert!(matches!(p.auth, AuthPlan::Integrated));
}

#[test]
fn probe_and_report_texts() {
    let info = probe_message(
        "  Microsoft SQL Server 2019 (RTM)  \n\tCopyright",
        "MikroDB",
        "sa",
        "15.0.2000.5",
    );
    assert_eq!(
        info,
        "Bağlantı başarılı.\nVeritabanı: MikroDB\nOturum: sa\nSürüm: 15.0.2000.5\nMicrosoft SQL Server 2019 (RTM)"
    );
    assert_eq!(
        connection_report("x".to_string(), true),
        "x\n\n✓ dbo.msp_CariKodunuDegistir bulundu."
    );
    assert_eq!(
        connection_report(String::new(), false),
        "\n\n⚠ UYARI: dbo.msp_CariKodunuDegistir bu veritabanında BULUNAMADI. Aktarım çalışmayacaktır. Doğru Mikro veritabanına bağlandığınızdan emin olun."
    );
}
