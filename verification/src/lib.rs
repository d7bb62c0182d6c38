//! Verified core of the card-code transfer tool for Mikro V17 databases: the
//! validation and quoting of the names embedded in SQL text, the preview of
//! the transfer's SQL, the decisions of the transfer itself, and the sealing
//! of the stored password.

pub mod backup;
pub mod connect;
pub mod ident;
pub mod model;
pub mod preview;
pub mod report;
pub mod run;
pub mod secret;
pub mod text;
pub mod transfer;

pub use backup::{backup_plan, BackupPlan};
pub use connect::{ascii_lowercase, connect_plan, parse_port, AuthPlan, ConnectPlan};
pub use ident::{quote_database_ident, sql_literal, validate_qualified_ident};
pub use model::{
    default_true, AppSettings, AuditEntry, BackupResult, DbConfig, RowStatus, SettingsPayload,
    TransferRow, TransferSummary, TriggerCfg,
};
pub use preview::{build_sql_preview, collect_trigger_pairs, is_blank, is_code_column, trim_str};
pub use report::{
    client_machine_label, client_user_label, connection_report, enabled_line, guard_id_of, join_lines,
    no_trigger_message, preview_needs_columns, probe_message, probe_report, procedure_found,
    trigger_disabled_state, trigger_failure, trigger_short_name, trigger_sql, trigger_state_line,
    trigger_status_text, trigger_status_without_lookup,
};
pub use run::{AuditLine, Notice, RowError, RunAction, RunError, RunPhase, RunTransfer};
pub use secret::{
    holds_password, new_key, open_password, seal_password, seal_with_nonce, stored_key, KEY_LEN,
    NONCE_LEN, SEALED_MIN_LEN,
};
pub use text::trim_owned;
pub use transfer::{
    affected_total, column_list, insert_sql, row_start_phase, Reply, RowAction, RowFailure,
    RowPhase, RowSuccess, RowTransfer, BEGIN_SQL, COMMIT_SQL, COUNT_SQL, PROCEDURE_SQL,
    RENAME_SQL, ROLLBACK_SQL,
};
