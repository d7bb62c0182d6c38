use cari_aktarim::{quote_database_ident, sql_literal, validate_qualified_ident};

#[test]
fn name_parts_are_trimmed_and_bracketed() {
    assert_eq!(validate_qualified_ident("  dbo . tr_x  ").unwrap(), "[dbo].[tr_x]");
    assert_eq!(validate_qualified_ident("_t$#9").unwrap(), "[_t$#9]");
    assert_eq!(
        validate_qualified_ident("[ dbo ].x").unwrap_err(),
        "Geçersiz nesne adı '[ dbo ].x': ' dbo ' harf veya _ ile başlamalı."
    );
}

#[test]
fn name_error_messages() {
    assert_eq!(validate_qualified_ident("   ").unwrap_err(), "Boş nesne adı.");
    assert_eq!(
        validate_qualified_ident("a.b.c").unwrap_err(),
        "Geçersiz nesne adı 'a.b.c'. En fazla 'sema.nesne' biçimi desteklenir."
    );
    assert_eq!(
        validate_qualified_ident("tablo]").unwrap_err(),
        "Geçersiz nesne adı 'tablo]': köşeli parantezler eşleşmiyor."
    );
    assert_eq!(validate_qualified_ident("dbo.[]").unwrap_err(), "Geçersiz nesne adı 'dbo.[]': boş parça.");
    assert_eq!(validate_qualified_ident(".x").unwrap_err(), "Geçersiz nesne adı '.x': boş parça.");
    assert_eq!(
        validate_qualified_ident("1tablo").unwrap_err(),
        "Geçersiz nesne adı '1tablo': '1tablo' harf veya _ ile başlamalı."
    );
    assert_eq!(
        validate_qualified_ident("dbo.a b").unwrap_err(),
        "Geçersiz nesne adı 'dbo.a b': 'a b' izin verilmeyen karakter içeriyor."
    );
    assert_eq!(
        validate_qualified_ident("x@y").unwrap_err(),
        "Geçersiz nesne adı 'x@y': 'x@y' izin verilmeyen karakter içeriyor."
    );
    assert_eq!(
        validate_qualified_ident("tabloİ").unwrap_err(),
        "Geçersiz nesne adı 'tabloİ': 'tabloİ' izin verilmeyen karakter içeriyor."
    );
}

#[test]
fn validated_name_is_accepted_again_unchanged() {
    for raw in ["dbo.tr_Siparis_ForinsertUpdate", " SIPARISLER ", "[dbo].[x$1]", "_a.b#"] {
        let once = validate_qualified_ident(raw).unwrap();
        assert_eq!(validate_qualified_ident(&once).unwrap(), once);
    }
}

#[test]
fn validated_name_holds_no_sql_punctuation() {
    for raw in ["dbo.tr_Siparis", "[SIPARISLER]", "a.b"] {
        let out = validate_qualified_ident(raw).unwrap();
        assert!(!out.contains(';'));
        assert!(!out.contains('\''));
        assert!(!out.contains(' '));
        assert!(!out.contains("--"));
    }
}

#[test]
fn sql_literal_doubles_quotes() {
    assert_eq!(sql_literal("120.1.O'BRIEN"), "N'120.1.O''BRIEN'");
    assert_eq!(sql_literal(""), "N''");
    assert_eq!(sql_literal("''"), "N''''''");
    assert_eq!(sql_literal("İnt"), "N'İnt'");
}

#[test]
fn sql_literal_reads_back_to_the_value() {
    // Read the literal as SQL does: after N', '' is one quote and a lone ' ends it.
    let value = "a'b''c'";
    let lit = sql_literal(value);
    let body: Vec<char> = lit.chars().skip(2).collect();
    let mut read = String::new();
    let mut i = 0;
    let mut end = None;
    while i < body.len() {
        if body[i] == '\'' {
            if i + 1 < body.len() && body[i + 1] == '\'' {
                read.push('\'');
                i += 2;
                continue;
            }
            end = Some(i);
            break;
        }
        read.push(body[i]);
        i += 1;
    }
    assert_eq!(read, value);
    assert_eq!(end, Some(body.len() - 1));
}

#[test]
fn database_names_are_quoted() {
    assert_eq!(quote_database_ident(" MikroDB_V16 ").unwrap(), "[MikroDB_V16]");
    assert_eq!(quote_database_ident("a]b").unwrap(), "[a]]b]");
    assert_eq!(quote_database_ident("Şirket 2024.Yıl").unwrap(), "[Şirket 2024.Yıl]");
    assert_eq!(quote_database_ident("  ").unwrap_err(), "Veritabanı adı boş.");
    assert_eq!(quote_database_ident("a\tb").unwrap_err(), "Veritabanı adı kontrol karakteri içeremez.");
}
