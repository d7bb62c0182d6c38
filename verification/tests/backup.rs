use cari_aktarim::{backup_plan, DbConfig};

fn cfg(database: &str) -> DbConfig {
    DbConfig {
        server: "srv".to_string(),
        database: database.to_string(),
        auth: "sql".to_string(),
        username: Some("sa".to_string()),
        password: None,
        trust_cert: false,
    }
}

#[test]
fn backup_file_name_and_statement() {
    let p = backup_plan(&cfg(" Mikro]DB "), " \\\\srv\\yedek\\/ ", Ok(1700000000)).unwrap();
    assert_eq!(p.directory, "\\\\srv\\yedek");
    assert_eq!(p.path, "\\\\srv\\yedek\\_Mikro_DB__cari_aktarim_oncesi_1700000000.bak");
    assert_eq!(
        p.sql,
        "BACKUP DATABASE [Mikro]]DB] TO DISK = @P1 WITH COPY_ONLY, COMPRESSION, CHECKSUM, STATS = 10"
    );
    let done = p.done();
    assert_eq!(done.path, p.path);
    assert_eq!(
        done.message,
        "COPY_ONLY tam yedek başarıyla alındı: \\\\srv\\yedek\\_Mikro_DB__cari_aktarim_oncesi_1700000000.bak"
    );
    assert_eq!(
        p.failure("Access denied"),
        "Yedek alınamadı: Access denied. SQL Server hizmet hesabının '\\\\srv\\yedek' klasörüne yazma yetkisini kontrol edin."
    );
}

#[test]
fn backup_names_keep_safe_characters() {
    let p = backup_plan(&cfg("Mikro_V16-ŞİRKET"), "D:/Yedek", Ok(0)).unwrap();
    assert_eq!(p.path, "D:/Yedek\\Mikro_V16-__RKET_cari_aktarim_oncesi_0.bak");
}

#[test]
fn backup_errors_in_order() {
    assert_eq!(
        backup_plan(&cfg(""), " /\\ ", Err("x".to_string())).unwrap_err(),
        "Yedek klasörü boş. SQL Server'ın erişebildiği bir Windows/UNC klasörü girin."
    );
    assert_eq!(backup_plan(&cfg("  "), "D:\\Y", Err("x".to_string())).unwrap_err(), "Veritabanı adı boş.");
    assert_eq!(
        backup_plan(&cfg("a\nb"), "D:\\Y", Ok(1)).unwrap_err(),
        "Veritabanı adı kontrol karakteri içeremez."
    );
    assert_eq!(
        backup_plan(&cfg("db"), "D:\\Y", Err("Sistem saati okunamadı: geri".to_string())).unwrap_err(),
        "Sistem saati okunamadı: geri"
    );
}
