//! The copy-only full backup taken before a transfer: where it goes and how.

use vstd::prelude::*;
use crate::ident::{quote_database_ident, quoted_database_name};
use crate::model::{BackupResult, DbConfig};
use crate::preview::trim_str;
use crate::text::{cat2, dec_nat, is_ascii_alnum, push_dec, to_chars, trim};

verus! {

/// What a backup run needs.
#[derive(Debug)]
pub struct BackupPlan {
    /// The folder, as SQL Server sees it, without trailing separators.
    pub directory: String,
    /// The backup file.
    pub path: String,
    /// The `BACKUP DATABASE` statement; `@P1` is `path`.
    pub sql: String,
}

/// `s` without its trailing `\` and `/` characters.
pub open spec fn strip_separators(s: Seq<char>) -> Seq<char>
    decreases s.len(),
{
    if s.len() > 0 && (s.last() == '\\' || s.last() == '/') {
        strip_separators(s.drop_last())
    } else {
        s
    }
}

/// A database name turned into a safe file name: ASCII letters, digits, `_`
/// and `-` kept, every other character written as `_`.
pub open spec fn safe_file_name(s: Seq<char>) -> Seq<char> {
    Seq::new(
        s.len(),
        |i: int|
            if is_ascii_alnum(s[i]) || s[i] == '_' || s[i] == '-' {
                s[i]
            } else {
                '_'
            },
    )
}

/// The plan for `database`, `backup_directory` and the time stamp, as the
/// contracts see it: `(directory, path, sql)`, or the error.
pub open spec fn backup_outcome(
    database: Seq<char>,
    backup_directory: Seq<char>,
    stamp: Result<u64, Seq<char>>,
) -> Result<(Seq<char>, Seq<char>, Seq<char>), Seq<char>> {
    let directory = strip_separators(trim(backup_directory));
    if directory.len() == 0 {
        Err("Yedek klasörü boş. SQL Server'ın erişebildiği bir Windows/UNC klasörü girin."@)
    } else {
        match quoted_database_name(database) {
            Err(e) => Err(e),
            Ok(q) => match stamp {
                Err(e) => Err(e),
                Ok(t) => Ok(
                    (
                        directory,
                        directory + "\\"@ + safe_file_name(database) + "_cari_aktarim_oncesi_"@
                            + dec_nat(t as nat) + ".bak"@,
                        "BACKUP DATABASE "@ + q
                            + " TO DISK = @P1 WITH COPY_ONLY, COMPRESSION, CHECKSUM, STATS = 10"@,
                    ),
                ),
            },
        }
    }
}

fn strip_end(s: &str) -> (r: &str)
    ensures
        r@ == strip_separators(s@),
{
    let cs = to_chars(s);
    let mut b = cs.len();
    proof {
        assert(cs@.subrange(0, b as int) =~= s@);
    }
    while b > 0 && (cs[b - 1] == '\\' || cs[b - 1] == '/')
        invariant
            b <= cs@.len(),
            cs@ == s@,
            strip_separators(s@) == strip_separators(cs@.subrange(0, b as int)),
        decreases b,
    {
        assert(cs@.subrange(0, b as int).drop_last() =~= cs@.subrange(0, b - 1));
        b = b - 1;
    }
    s.substring_char(0, b)
}

fn push_safe_name(out: &mut String, s: &str)
    ensures
        final(out)@ == old(out)@ + safe_file_name(s@),
{
    let cs = to_chars(s);
    let ghost start = out@;
    let mut i: usize = 0;
    while i < cs.len()
        invariant
            cs@ == s@,
            i <= cs@.len(),
            out@ == start + safe_file_name(s@).take(i as int),
        decreases cs.len() - i,
    {
        let c = cs[i];
        if ('A' <= c && c <= 'Z') || ('a' <= c && c <= 'z') || ('0' <= c && c <= '9') || c == '_'
            || c == '-' {
            let one = s.substring_char(i, i + 1);
            assert(one@ =~= seq![c]);
            out.append(one);
        } else {
            out.append("_");
            proof {
                reveal_strlit("_");
            }
        }
        assert(out@ =~= start + safe_file_name(s@).take(i + 1));
        i = i + 1;
    }
    assert(safe_file_name(s@).take(cs@.len() as int) =~= safe_file_name(s@));
}

/// Plans the copy-only full backup of `cfg.database` into
/// `backup_directory` (trimmed, without trailing `\` or `/`), with the time
/// stamp `stamp` (seconds since the epoch, or why the clock could not be
/// read) in the file name. Fails, in this order, on a blank folder, on a
/// database name that cannot be quoted, then on the clock.
pub fn backup_plan(cfg: &DbConfig, backup_directory: &str, stamp: Result<u64, String>) -> (r: Result<
    BackupPlan,
    String,
>)
    ensures
        match r {
            Ok(p) => backup_outcome(
                cfg.database@,
                backup_directory@,
                match stamp {
                    Ok(t) => Ok(t),
                    Err(e) => Err(e@),
                },
            ) == Ok::<(Seq<char>, Seq<char>, Seq<char>), Seq<char>>((p.directory@, p.path@, p.sql@)),
            Err(e) => backup_outcome(
                cfg.database@,
                backup_directory@,
                match stamp {
                    Ok(t) => Ok(t),
                    Err(e) => Err(e@),
                },
            ) == Err::<(Seq<char>, Seq<char>, Seq<char>), Seq<char>>(e@),
        },
{
    let directory = strip_end(trim_str(backup_directory));
    if directory.unicode_len() == 0 {
        return Err(
            String::from_str(
                "Yedek klasörü boş. SQL Server'ın erişebildiği bir Windows/UNC klasörü girin.",
            ),
        );
    }
    let quoted = match quote_database_ident(cfg.database.as_str()) {
        Ok(q) => q,
        Err(e) => {
            return Err(e);
        },
    };
    let t = match stamp {
        Ok(t) => t,
        Err(e) => {
            return Err(e);
        },
    };
    let mut path = String::from_str(directory);
    path.append("\\");
    push_safe_name(&mut path, cfg.database.as_str());
    path.append("_cari_aktarim_oncesi_");
    push_dec(&mut path, t as u128);
    path.append(".bak");
    let mut sql = String::from_str("BACKUP DATABASE ");
    sql.append(quoted.as_str());
    sql.append(" TO DISK = @P1 WITH COPY_ONLY, COMPRESSION, CHECKSUM, STATS = 10");
    Ok(BackupPlan { directory: String::from_str(directory), path, sql })
}

impl BackupPlan {
    /// The message when SQL Server could not write the backup (`e`: its error).
    pub fn failure(&self, e: &str) -> (m: String)
        ensures
            m@ == "Yedek alınamadı: "@ + e@ + ". SQL Server hizmet hesabının '"@ + self.directory@
                + "' klasörüne yazma yetkisini kontrol edin."@,
    {
        let mut m = String::from_str("Yedek alınamadı: ");
        m.append(e);
        m.append(". SQL Server hizmet hesabının '");
        m.append(self.directory.as_str());
        m.append("' klasörüne yazma yetkisini kontrol edin.");
        m
    }

    /// The result once the backup has been written.
    pub fn done(&self) -> (r: BackupResult)
        ensures
            r.path@ == self.path@,
            r.message@ == "COPY_ONLY tam yedek başarıyla alındı: "@ + self.path@,
    {
        BackupResult {
            path: self.path.clone(),
            message: cat2("COPY_ONLY tam yedek başarıyla alındı: ", self.path.as_str()),
        }
    }
}

} // verus!
