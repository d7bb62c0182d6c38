# cari_aktarim

Moves customer card codes in a Mikro V17 SQL Server database: each card is
renamed (or copied) and `dbo.msp_CariKodunuDegistir` moves its references,
one transaction per card, with the listed triggers switched off for the
run and switched on again afterwards.

## Layout

- `src/` — the library, verified with Verus:
  - `ident.rs`: validation and quoting of the names and values embedded in SQL text;
  - `preview.rs`: the human-readable preview of the SQL a transfer runs;
  - `transfer.rs`: one card's transfer, as a state machine over database replies;
  - `run.rs`: a whole run (setup, triggers off, rows, triggers on), the same way;
  - `connect.rs`, `backup.rs`, `report.rs`: connection settings, the copy-only
    backup plan, and the texts shown to the user;
  - `secret.rs`: the stored password, sealed with AES-256-GCM;
  - `model.rs`, `text.rs`: the shared records and text helpers.
- `app/` — the desktop program: database calls (tiberius), settings files,
  and the Tauri window that runs the library's state machines.
- `tests/` — tests of the library through its public interface.
