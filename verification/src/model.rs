//! The records that the user interface, the settings file and the transfer share.

use vstd::prelude::*;

verus! {

/// How to reach the SQL Server database.
#[derive(Debug, Clone)]
pub struct DbConfig {
    /// `"10.0.0.10"`, `"10.0.0.10\\SQLEXPRESS"` or `"10.0.0.10,1433"`.
    pub server: String,
    pub database: String,
    /// `"windows"` or `"sql"`.
    pub auth: String,
    pub username: Option<String>,
    pub password: Option<String>,
    /// Mikro servers mostly use self-signed certificates.
    pub trust_cert: bool,
}

/// The default of `DbConfig::trust_cert` when the user interface leaves it out.
pub fn default_true() -> (b: bool)
    ensures
        b,
{
    true
}

/// A trigger to switch off during the transfer, and its table.
#[derive(Debug, Clone)]
pub struct TriggerCfg {
    /// e.g. `"dbo.tr_Siparis_ForinsertUpdate"`.
    pub name: String,
    /// e.g. `"dbo.SIPARISLER"`.
    pub table: String,
}

/// One card code to move.
#[derive(Debug, Clone)]
pub struct TransferRow {
    pub eski: String,
    pub yeni: String,
    /// `true`: the old card goes (it is renamed); `false`: it stays (it is copied).
    pub sil: bool,
}

/// Progress of one row as the user interface shows it.
#[derive(Debug, Clone)]
pub struct RowStatus {
    pub index: usize,
    pub eski: String,
    pub yeni: String,
    /// `"running"`, `"ok"` or `"error"`.
    pub status: String,
    pub message: String,
}

/// The outcome of a whole transfer run.
#[derive(Debug, Clone)]
pub struct TransferSummary {
    pub total: usize,
    pub ok: usize,
    pub failed: usize,
    /// Could every switched-off trigger be switched on again? If not, the user must act.
    pub trigger_restored: bool,
    pub trigger_message: String,
    pub errors: Vec<String>,
}

/// Where a backup was written.
#[derive(Debug, Clone)]
pub struct BackupResult {
    pub path: String,
    pub message: String,
}

/// One line of the `dbo.CARI_AKTARIM_LOG` audit table.
pub struct AuditEntry<'a> {
    pub client_machine: &'a str,
    pub client_user: &'a str,
    pub eski: &'a str,
    pub yeni: &'a str,
    pub cari_tipi: i32,
    pub sil: bool,
    pub result: &'a str,
    pub message: &'a str,
}

/// The settings kept on disk; the password is not among them (it is kept encrypted apart).
#[derive(Debug, Clone)]
pub struct AppSettings {
    pub server: String,
    pub database: String,
    pub auth: String,
    pub username: String,
    pub trust_cert: bool,
    pub backup_directory: String,
    pub triggers: Vec<TriggerCfg>,
    pub cari_tipi: i32,
    pub user_id: i32,
    pub son_deg_guncelle: bool,
    /// Keep and use the password too; when `false` the stored secret is removed.
    pub remember_password: bool,
}

/// The settings with the password, as the user interface sends and receives them.
#[derive(Debug, Clone)]
pub struct SettingsPayload {
    pub settings: AppSettings,
    pub password: String,
}

impl Default for AppSettings {
    fn default() -> (s: AppSettings)
        ensures
            s.server@.len() == 0,
            s.database@.len() == 0,
            s.auth@.len() == 0,
            s.username@.len() == 0,
            !s.trust_cert,
            s.backup_directory@.len() == 0,
            s.triggers@.len() == 0,
            s.cari_tipi == 0,
            s.user_id == 0,
            !s.son_deg_guncelle,
            !s.remember_password,
    {
        AppSettings {
            server: String::new(),
            database: String::new(),
            auth: String::new(),
            username: String::new(),
            trust_cert: false,
            backup_directory: String::new(),
            triggers: Vec::new(),
            cari_tipi: 0,
            user_id: 0,
            son_deg_guncelle: false,
            remember_password: false,
        }
    }
}

impl Default for SettingsPayload {
    fn default() -> (p: SettingsPayload)
        ensures
            p.settings.server@.len() == 0,
            p.settings.database@.len() == 0,
            p.settings.auth@.len() == 0,
            p.settings.username@.len() == 0,
            !p.settings.trust_cert,
            p.settings.backup_directory@.len() == 0,
            p.settings.triggers@.len() == 0,
            p.settings.cari_tipi == 0,
            p.settings.user_id == 0,
            !p.settings.son_deg_guncelle,
            !p.settings.remember_password,
            p.password@.len() == 0,
    {
        SettingsPayload { settings: AppSettings::default(), password: String::new() }
    }
}

} // verus!
