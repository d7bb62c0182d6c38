//! The human-readable preview of the SQL that a transfer runs.

use vstd::prelude::*;
use crate::ident::{qualified_ident, sql_literal, sql_literal_text, validate_qualified_ident};
use crate::model::{TransferRow, TriggerCfg};
use crate::text::{
    dec_int, dec_nat, has_part, lemma_has_part, lemma_has_part_within, push_dec, push_dec_i32, to_chars,
    trim, trim_range,
};

verus! {

/// `s` is empty once trimmed.
pub fn is_blank(s: &str) -> (r: bool)
    ensures
        r == (trim(s@).len() == 0),
{
    let cs = to_chars(s);
    let (a, b) = trim_range(&cs, 0, cs.len());
    assert(cs@.subrange(0, cs@.len() as int) =~= s@);
    a == b
}

/// `s` trimmed, as a slice of `s`.
pub fn trim_str(s: &str) -> (r: &str)
    ensures
        r@ == trim(s@),
{
    let cs = to_chars(s);
    let (a, b) = trim_range(&cs, 0, cs.len());
    assert(cs@.subrange(0, cs@.len() as int) =~= s@);
    s.substring_char(a, b)
}

/// The code point of the ASCII lower case of `c` (`char::to_ascii_lowercase`).
pub open spec fn ascii_lower(c: char) -> u32 {
    if 'A' <= c && c <= 'Z' {
        ((c as u32) + 32) as u32
    } else {
        c as u32
    }
}

/// `str::eq_ignore_ascii_case(a, b)` where `b` is ASCII.
pub open spec fn eq_ignore_ascii_case(a: Seq<char>, b: Seq<char>) -> bool {
    a.len() == b.len() && forall|i: int| 0 <= i < a.len() ==> ascii_lower(#[trigger] a[i])
        == ascii_lower(b[i])
}

/// The name of the column that holds the card code.
pub open spec fn code_column() -> Seq<char> {
    seq!['c', 'a', 'r', 'i', '_', 'k', 'o', 'd']
}

fn char_ascii_lower(c: char) -> (r: u32)
    ensures
        r == ascii_lower(c),
{
    if 'A' <= c && c <= 'Z' {
        (c as u32) + 32
    } else {
        c as u32
    }
}

/// Is `c` the card-code column, ignoring ASCII case?
pub fn is_code_column(c: &str) -> (r: bool)
    ensures
        r == eq_ignore_ascii_case(c@, code_column()),
{
    let cs = to_chars(c);
    let key = to_chars("cari_kod");
    proof {
        reveal_strlit("cari_kod");
    }
    assert(key@ =~= code_column());
    if cs.len() != key.len() {
        return false;
    }
    let mut i: usize = 0;
    while i < cs.len()
        invariant
            cs@ == c@,
            key@ == code_column(),
            cs.len() == key.len(),
            i <= cs.len(),
            forall|k: int| 0 <= k < i ==> ascii_lower(#[trigger] cs@[k]) == ascii_lower(key@[k]),
        decreases cs.len() - i,
    {
        if char_ascii_lower(cs[i]) != char_ascii_lower(key[i]) {
            return false;
        }
        i = i + 1;
    }
    true
}

/// Items joined by `sep`.
pub open spec fn join(items: Seq<Seq<char>>, sep: Seq<char>) -> Seq<char>
    decreases items.len(),
{
    if items.len() == 0 {
        Seq::empty()
    } else if items.len() == 1 {
        items[0]
    } else {
        join(items.drop_last(), sep) + sep + items.last()
    }
}

/// `[c]` for each column.
pub open spec fn column_items(cols: Seq<String>) -> Seq<Seq<char>> {
    Seq::new(cols.len(), |i: int| seq!['['] + cols[i]@ + seq![']'])
}

/// Each column as `[c]`, but the card-code column as `value`.
pub open spec fn select_items(cols: Seq<String>, value: Seq<char>) -> Seq<Seq<char>> {
    Seq::new(
        cols.len(),
        |i: int|
            if eq_ignore_ascii_case(cols[i]@, code_column()) {
                value
            } else {
                seq!['['] + cols[i]@ + seq![']']
            },
    )
}

pub open spec fn comma() -> Seq<char> {
    seq![',', ' ']
}

/// Appends `[c1], [c2], ...`; with `value` given, the card-code column is
/// written as that value instead.
pub fn push_column_list(out: &mut String, cols: &[String], value: Option<&str>)
    ensures
        final(out)@ == old(out)@ + join(
            match value {
                Some(v) => select_items(cols@, v@),
                None => column_items(cols@),
            },
            comma(),
        ),
{
    let ghost items = match value {
        Some(v) => select_items(cols@, v@),
        None => column_items(cols@),
    };
    let ghost start = out@;
    proof {
        reveal_strlit(", ");
        reveal_strlit("[");
        reveal_strlit("]");
    }
    assert(", "@ =~= comma());
    let mut i: usize = 0;
    assert(items.take(0) =~= Seq::<Seq<char>>::empty());
    while i < cols.len()
        invariant
            i <= cols@.len(),
            items.len() == cols@.len(),
            items == match value {
                Some(v) => select_items(cols@, v@),
                None => column_items(cols@),
            },
            ", "@ == comma(),
            "["@ == seq!['['],
            "]"@ == seq![']'],
            out@ == start + join(items.take(i as int), comma()),
        decreases cols.len() - i,
    {
        assert(items.take(i + 1).drop_last() =~= items.take(i as int));
        assert(items.take(i + 1).last() == items[i as int]);
        if i > 0 {
            out.append(", ");
        }
        let c = &cols[i];
        let as_value = match value {
            Some(v) => is_code_column(c.as_str()),
            None => false,
        };
        if as_value {
            match value {
                Some(v) => {
                    out.append(v);
                },
                None => {},
            }
        } else {
            out.append("[");
            out.append(c.as_str());
            out.append("]");
        }
        if i == 0 {
            assert(items.take(1) =~= seq![items[0]]);
        }
        assert(out@ =~= start + join(items.take(i + 1), comma()));
        i = i + 1;
    }
    assert(items.take(cols@.len() as int) =~= items);
}

pub open spec fn sep_line() -> Seq<char> {
    "-- ================================================================\n"@
}

/// The validated `(trigger, table)` names of the triggers to manage, in order;
/// with `skip_blank`, entries whose name and table are both blank are skipped;
/// the first refused name gives the error.
pub open spec fn trigger_pairs(ts: Seq<TriggerCfg>, skip_blank: bool) -> Result<Seq<(Seq<char>, Seq<char>)>, Seq<char>>
    decreases ts.len(),
{
    if ts.len() == 0 {
        Ok(Seq::empty())
    } else {
        match trigger_pairs(ts.drop_last(), skip_blank) {
            Err(e) => Err(e),
            Ok(ps) => {
                let t = ts.last();
                if skip_blank && trim(t.name@).len() == 0 && trim(t.table@).len() == 0 {
                    Ok(ps)
                } else {
                    match qualified_ident(t.name@) {
                        Err(e) => Err(e),
                        Ok(n) => match qualified_ident(t.table@) {
                            Err(e) => Err(e),
                            Ok(tb) => Ok(ps.push((n, tb))),
                        },
                    }
                }
            },
        }
    }
}

pub open spec fn trigger_line(verb: Seq<char>, p: (Seq<char>, Seq<char>)) -> Seq<char> {
    verb + " TRIGGER "@ + p.0 + " ON "@ + p.1 + ";\n"@
}

/// The `DISABLE` lines for the first `n` pairs, in order.
pub open spec fn disable_lines(ps: Seq<(Seq<char>, Seq<char>)>, n: int) -> Seq<char>
    decreases n,
{
    if n <= 0 {
        Seq::empty()
    } else {
        disable_lines(ps, n - 1) + trigger_line("DISABLE"@, ps[n - 1])
    }
}

/// The `ENABLE` lines for the last `n` pairs, from the last pair backwards.
pub open spec fn enable_lines(ps: Seq<(Seq<char>, Seq<char>)>, n: int) -> Seq<char>
    decreases n,
{
    if n <= 0 {
        Seq::empty()
    } else {
        enable_lines(ps, n - 1) + trigger_line("ENABLE"@, ps[ps.len() - n])
    }
}

pub open spec fn flag_value(son_deg_guncelle: bool) -> int {
    if son_deg_guncelle {
        1
    } else {
        0
    }
}

/// The header step of one row: the rename `UPDATE`, or the copying `INSERT`.
pub open spec fn step1_text(
    e: Seq<char>,
    y: Seq<char>,
    sil: bool,
    user_id: i32,
    columns: Option<Seq<String>>,
) -> Seq<char> {
    if sil {
        "UPDATE dbo.CARI_HESAPLAR\n    SET cari_kod = "@ + sql_literal_text(y)
            + ", cari_lastup_date = GETDATE(), cari_lastup_user = "@ + dec_int(user_id as int)
            + "\n    WHERE cari_kod = "@ + sql_literal_text(e) + ";\n"@
    } else {
        match columns {
            Some(cols) if cols.len() > 0 => "INSERT INTO dbo.CARI_HESAPLAR ("@ + join(
                column_items(cols),
                comma(),
            ) + ")\n    SELECT "@ + join(select_items(cols, sql_literal_text(y)), comma())
                + "\n    FROM dbo.CARI_HESAPLAR WHERE cari_kod = "@ + sql_literal_text(e) + ";\n"@,
            _ => "INSERT INTO dbo.CARI_HESAPLAR ( <identity hariç tüm kolonlar> )\n    SELECT < ..., cari_kod = "@
                + sql_literal_text(y) + ", ... >\n    FROM dbo.CARI_HESAPLAR WHERE cari_kod = "@
                + sql_literal_text(e)
                + ";\n    -- Kolon listesi çalışma anında INFORMATION_SCHEMA'dan çözülür.\n"@,
        }
    }
}

/// The opening lines of the block of row number `i` (counted from 0).
pub open spec fn row_head(i: int, e: Seq<char>, y: Seq<char>, sil: bool) -> Seq<char> {
    let mode = if sil {
        "eski kart SİLİNECEK (yeniden adlandırma)"@
    } else {
        "eski kart KORUNACAK (kopyalama)"@
    };
    sep_line() + "-- SATIR "@ + dec_nat((i + 1) as nat) + ":  "@ + e + "  →  "@ + y + "   ["@ + mode
        + "]\n"@ + sep_line() + "BEGIN TRANSACTION;\n"@
}

/// The reference update and the commit that close a row block.
pub open spec fn row_tail(e: Seq<char>, y: Seq<char>, cari_tipi: i32, son_deg_guncelle: bool) -> Seq<
    char,
> {
    "EXEC dbo.msp_CariKodunuDegistir\n    @CariTipi = "@ + dec_int(cari_tipi as int)
        + ",\n    @EskiCariKodu = "@ + sql_literal_text(e) + ",\n    @YeniCariKodu = "@
        + sql_literal_text(y) + ",\n    @Kart_aktarim_son_deg_bilgileri_guncelle_fl = "@ + dec_int(
        flag_value(son_deg_guncelle),
    ) + ";\n"@ + "COMMIT TRANSACTION;\n\n"@
}

/// The block of row number `i` (counted from 0): its header, its own
/// transaction with the header step and the reference update, and its commit.
pub open spec fn row_block(
    i: int,
    row: TransferRow,
    cari_tipi: i32,
    user_id: i32,
    son_deg_guncelle: bool,
    columns: Option<Seq<String>>,
) -> Seq<char> {
    let e = trim(row.eski@);
    let y = trim(row.yeni@);
    row_head(i, e, y, row.sil) + step1_text(e, y, row.sil, user_id, columns) + row_tail(
        e,
        y,
        cari_tipi,
        son_deg_guncelle,
    )
}

/// The blocks of the first `n` rows.
pub open spec fn row_blocks(
    rows: Seq<TransferRow>,
    n: int,
    cari_tipi: i32,
    user_id: i32,
    son_deg_guncelle: bool,
    columns: Option<Seq<String>>,
) -> Seq<char>
    decreases n,
{
    if n <= 0 {
        Seq::empty()
    } else {
        row_blocks(rows, n - 1, cari_tipi, user_id, son_deg_guncelle, columns) + row_block(
            n - 1,
            rows[n - 1],
            cari_tipi,
            user_id,
            son_deg_guncelle,
            columns,
        )
    }
}

/// The full preview for validated trigger names `ps`: the triggers switched
/// off, each row in its own transaction, then the triggers switched on again
/// in the reverse order.
pub open spec fn preview_text(
    ps: Seq<(Seq<char>, Seq<char>)>,
    rows: Seq<TransferRow>,
    cari_tipi: i32,
    user_id: i32,
    son_deg_guncelle: bool,
    columns: Option<Seq<String>>,
) -> Seq<char> {
    sep_line() + "-- 1) TRIGGER'LAR DEVRE DIŞI (aktarım başında, tek oturumda)\n"@ + sep_line() + (
    if ps.len() == 0 {
        "-- (Trigger yönetimi yok — tanımlı trigger girilmedi)\n"@
    } else {
        disable_lines(ps, ps.len() as int)
    }) + "\n"@ + row_blocks(rows, rows.len() as int, cari_tipi, user_id, son_deg_guncelle, columns)
        + sep_line() + "-- 2) TRIGGER'LAR TEKRAR ETKİN (aktarım sonunda, HER KOŞULDA)\n"@
        + sep_line() + (if ps.len() == 0 {
        "-- (Trigger yönetimi yok)\n"@
    } else {
        enable_lines(ps, ps.len() as int)
    })
}

pub open spec fn pair_views(v: Seq<(String, String)>) -> Seq<(Seq<char>, Seq<char>)> {
    Seq::new(v.len(), |k: int| (v[k].0@, v[k].1@))
}

/// Validates the triggers to manage (skipping the blank entries with `skip_blank`).
pub fn collect_trigger_pairs(triggers: &[TriggerCfg], skip_blank: bool) -> (res: Result<Vec<(String, String)>, String>)
    ensures
        match res {
            Ok(v) => trigger_pairs(triggers@, skip_blank) == Ok::<Seq<(Seq<char>, Seq<char>)>, Seq<char>>(
                pair_views(v@),
            ),
            Err(e) => trigger_pairs(triggers@, skip_blank) == Err::<Seq<(Seq<char>, Seq<char>)>, Seq<char>>(
                e@,
            ),
        },
{
    let mut v: Vec<(String, String)> = Vec::new();
    let mut i: usize = 0;
    assert(triggers@.take(0) =~= Seq::<TriggerCfg>::empty());
    assert(pair_views(v@) =~= Seq::<(Seq<char>, Seq<char>)>::empty());
    while i < triggers.len()
        invariant
            i <= triggers@.len(),
            trigger_pairs(triggers@.take(i as int), skip_blank) == Ok::<
                Seq<(Seq<char>, Seq<char>)>,
                Seq<char>,
            >(pair_views(v@)),
        decreases triggers.len() - i,
    {
        let t = &triggers[i];
        let ghost pre = triggers@.take(i as int);
        assert(triggers@.take(i + 1).drop_last() =~= pre);
        assert(triggers@.take(i + 1).last() == *t);
        if skip_blank && is_blank(t.name.as_str()) && is_blank(t.table.as_str()) {
        } else {
            let n = match validate_qualified_ident(t.name.as_str()) {
                Ok(n) => n,
                Err(e) => {
                    proof {
                        lemma_trigger_pairs_err_prefix(triggers@, i + 1, skip_blank);
                    }
                    return Err(e);
                },
            };
            let tb = match validate_qualified_ident(t.table.as_str()) {
                Ok(tb) => tb,
                Err(e) => {
                    proof {
                        lemma_trigger_pairs_err_prefix(triggers@, i + 1, skip_blank);
                    }
                    return Err(e);
                },
            };
            let ghost old_v = v@;
            v.push((n, tb));
            assert(pair_views(v@) =~= pair_views(old_v).push((v@.last().0@, v@.last().1@)));
        }
        i = i + 1;
    }
    assert(triggers@.take(triggers@.len() as int) =~= triggers@);
    Ok(v)
}

/// An error in the first `k` triggers is the error of all of them.
proof fn lemma_trigger_pairs_err_prefix(ts: Seq<TriggerCfg>, k: int, skip_blank: bool)
    requires
        0 <= k <= ts.len(),
        trigger_pairs(ts.take(k), skip_blank) is Err,
    ensures
        trigger_pairs(ts, skip_blank) == trigger_pairs(ts.take(k), skip_blank),
    decreases ts.len() - k,
{
    if k < ts.len() {
        assert(ts.take(k + 1).drop_last() =~= ts.take(k));
        lemma_trigger_pairs_err_prefix(ts, k + 1, skip_blank);
    } else {
        assert(ts.take(k) =~= ts);
    }
}


pub open spec fn columns_view(columns: Option<&[String]>) -> Option<Seq<String>> {
    match columns {
        Some(c) => Some(c@),
        None => None,
    }
}

fn push_trigger_lines(out: &mut String, pairs: &Vec<(String, String)>, disable: bool)
    ensures
        final(out)@ == old(out)@ + if disable {
            disable_lines(pair_views(pairs@), pairs@.len() as int)
        } else {
            enable_lines(pair_views(pairs@), pairs@.len() as int)
        },
{
    let ghost ps = pair_views(pairs@);
    let ghost start = out@;
    let n = pairs.len();
    let mut k: usize = 0;
    while k < n
        invariant
            n == pairs@.len() == ps.len(),
            ps == pair_views(pairs@),
            k <= n,
            out@ == start + if disable {
                disable_lines(ps, k as int)
            } else {
                enable_lines(ps, k as int)
            },
        decreases n - k,
    {
        let idx = if disable {
            k
        } else {
            n - 1 - k
        };
        let p = &pairs[idx];
        assert(ps[idx as int] == (p.0@, p.1@));
        if disable {
            out.append("DISABLE");
        } else {
            out.append("ENABLE");
        }
        out.append(" TRIGGER ");
        out.append(p.0.as_str());
        out.append(" ON ");
        out.append(p.1.as_str());
        out.append(";\n");
        k = k + 1;
        assert(out@ =~= start + if disable {
            disable_lines(ps, k as int)
        } else {
            enable_lines(ps, k as int)
        });
    }
}

fn push_step1(
    out: &mut String,
    e: &str,
    y: &str,
    sil: bool,
    user_id: i32,
    columns: Option<&[String]>,
)
    ensures
        final(out)@ == old(out)@ + step1_text(e@, y@, sil, user_id, columns_view(columns)),
{
    let ghost start = out@;
    if sil {
        out.append("UPDATE dbo.CARI_HESAPLAR\n    SET cari_kod = ");
        out.append(sql_literal(y).as_str());
        out.append(", cari_lastup_date = GETDATE(), cari_lastup_user = ");
        push_dec_i32(out, user_id);
        out.append("\n    WHERE cari_kod = ");
        out.append(sql_literal(e).as_str());
        out.append(";\n");
        assert(out@ =~= start + step1_text(e@, y@, sil, user_id, columns_view(columns)));
    } else {
        let with_columns = match columns {
            Some(cols) => cols.len() > 0,
            None => false,
        };
        if with_columns {
            let cols = columns.unwrap();
            let ly = sql_literal(y);
            out.append("INSERT INTO dbo.CARI_HESAPLAR (");
            push_column_list(out, cols, None);
            out.append(")\n    SELECT ");
            push_column_list(out, cols, Some(ly.as_str()));
            out.append("\n    FROM dbo.CARI_HESAPLAR WHERE cari_kod = ");
            out.append(sql_literal(e).as_str());
            out.append(";\n");
            assert(out@ =~= start + step1_text(e@, y@, sil, user_id, columns_view(columns)));
        } else {
            out.append(
                "INSERT INTO dbo.CARI_HESAPLAR ( <identity hariç tüm kolonlar> )\n    SELECT < ..., cari_kod = ",
            );
            out.append(sql_literal(y).as_str());
            out.append(", ... >\n    FROM dbo.CARI_HESAPLAR WHERE cari_kod = ");
            out.append(sql_literal(e).as_str());
            out.append(";\n    -- Kolon listesi çalışma anında INFORMATION_SCHEMA'dan çözülür.\n");
            assert(out@ =~= start + step1_text(e@, y@, sil, user_id, columns_view(columns)));
        }
    }
}

fn push_row_head(out: &mut String, i: usize, e: &str, y: &str, sil: bool)
    ensures
        final(out)@ == old(out)@ + row_head(i as int, e@, y@, sil),
{
    let ghost start = out@;
    out.append("-- ================================================================\n");
    out.append("-- SATIR ");
    push_dec(out, (i as u128) + 1);
    out.append(":  ");
    out.append(e);
    out.append("  →  ");
    out.append(y);
    out.append("   [");
    if sil {
        out.append("eski kart SİLİNECEK (yeniden adlandırma)");
    } else {
        out.append("eski kart KORUNACAK (kopyalama)");
    }
    out.append("]\n");
    out.append("-- ================================================================\n");
    out.append("BEGIN TRANSACTION;\n");
    assert(out@ =~= start + row_head(i as int, e@, y@, sil));
}

fn push_row_tail(out: &mut String, e: &str, y: &str, cari_tipi: i32, son_deg_guncelle: bool)
    ensures
        final(out)@ == old(out)@ + row_tail(e@, y@, cari_tipi, son_deg_guncelle),
{
    let ghost start = out@;
    let flag: i32 = if son_deg_guncelle {
        1
    } else {
        0
    };
    out.append("EXEC dbo.msp_CariKodunuDegistir\n    @CariTipi = ");
    push_dec_i32(out, cari_tipi);
    out.append(",\n    @EskiCariKodu = ");
    out.append(sql_literal(e).as_str());
    out.append(",\n    @YeniCariKodu = ");
    out.append(sql_literal(y).as_str());
    out.append(",\n    @Kart_aktarim_son_deg_bilgileri_guncelle_fl = ");
    push_dec_i32(out, flag);
    out.append(";\n");
    out.append("COMMIT TRANSACTION;\n\n");
    assert(out@ =~= start + row_tail(e@, y@, cari_tipi, son_deg_guncelle));
}

fn push_row_block(
    out: &mut String,
    i: usize,
    row: &TransferRow,
    cari_tipi: i32,
    user_id: i32,
    son_deg_guncelle: bool,
    columns: Option<&[String]>,
)
    ensures
        final(out)@ == old(out)@ + row_block(
            i as int,
            *row,
            cari_tipi,
            user_id,
            son_deg_guncelle,
            columns_view(columns),
        ),
{
    let ghost start = out@;
    let e = trim_str(row.eski.as_str());
    let y = trim_str(row.yeni.as_str());
    push_row_head(out, i, e, y, row.sil);
    push_step1(out, e, y, row.sil, user_id, columns);
    push_row_tail(out, e, y, cari_tipi, son_deg_guncelle);
    assert(out@ =~= start + row_block(
        i as int,
        *row,
        cari_tipi,
        user_id,
        son_deg_guncelle,
        columns_view(columns),
    ));
}

/// The human-readable text of the SQL that a transfer runs, in the order the
/// transfer runs it: the triggers switched off, each row in its own
/// transaction (rename `UPDATE` or copying `INSERT`, then the reference update
/// through `dbo.msp_CariKodunuDegistir`), then the triggers switched on again,
/// last one first. Copy rows list the real columns when `columns` holds any,
/// else a placeholder. Fails with the validation error of the first trigger
/// or table name that is refused (entries with both fields blank are skipped).
pub fn build_sql_preview(
    rows: &[TransferRow],
    triggers: &[TriggerCfg],
    cari_tipi: i32,
    user_id: i32,
    son_deg_guncelle: bool,
    columns: Option<&[String]>,
) -> (res: Result<String, String>)
    ensures
        match trigger_pairs(triggers@, true) {
            Ok(ps) => res matches Ok(o) && o@ == preview_text(
                ps,
                rows@,
                cari_tipi,
                user_id,
                son_deg_guncelle,
                columns_view(columns),
            ),
            Err(e) => res matches Err(m) && m@ == e,
        },
{
    let pairs = match collect_trigger_pairs(triggers, true) {
        Ok(p) => p,
        Err(e) => {
            return Err(e);
        },
    };
    let ghost ps = pair_views(pairs@);
    let mut out = String::new();
    out.append("-- ================================================================\n");
    out.append("-- 1) TRIGGER'LAR DEVRE DIŞI (aktarım başında, tek oturumda)\n");
    out.append("-- ================================================================\n");
    if pairs.len() == 0 {
        out.append("-- (Trigger yönetimi yok — tanımlı trigger girilmedi)\n");
    } else {
        push_trigger_lines(&mut out, &pairs, true);
    }
    out.append("\n");
    let ghost head = out@;
    let mut i: usize = 0;
    while i < rows.len()
        invariant
            i <= rows@.len(),
            out@ == head + row_blocks(
                rows@,
                i as int,
                cari_tipi,
                user_id,
                son_deg_guncelle,
                columns_view(columns),
            ),
        decreases rows.len() - i,
    {
        push_row_block(&mut out, i, &rows[i], cari_tipi, user_id, son_deg_guncelle, columns);
        i = i + 1;
        assert(out@ =~= head + row_blocks(
            rows@,
            i as int,
            cari_tipi,
            user_id,
            son_deg_guncelle,
            columns_view(columns),
        ));
    }
    out.append("-- ================================================================\n");
    out.append("-- 2) TRIGGER'LAR TEKRAR ETKİN (aktarım sonunda, HER KOŞULDA)\n");
    out.append("-- ================================================================\n");
    if pairs.len() == 0 {
        out.append("-- (Trigger yönetimi yok)\n");
    } else {
        push_trigger_lines(&mut out, &pairs, false);
    }
    assert(out@ =~= preview_text(
        ps,
        rows@,
        cari_tipi,
        user_id,
        son_deg_guncelle,
        columns_view(columns),
    ));
    Ok(out)
}


/// An entry with both its name and its table blank.
pub open spec fn blank_entry(t: TriggerCfg) -> bool {
    trim(t.name@).len() == 0 && trim(t.table@).len() == 0
}

/// The entries of `ts` that are not blank, in order.
pub open spec fn non_blank(ts: Seq<TriggerCfg>) -> Seq<TriggerCfg>
    decreases ts.len(),
{
    if ts.len() == 0 {
        ts
    } else if blank_entry(ts.last()) {
        non_blank(ts.drop_last())
    } else {
        non_blank(ts.drop_last()).push(ts.last())
    }
}

/// Blank entries of a trigger list are left out and change nothing else: the
/// list that the preview shows and the run switches off is the strict
/// validation of the other entries, in their order.
pub proof fn law_blank_entries_skipped(ts: Seq<TriggerCfg>)
    ensures
        trigger_pairs(ts, true) == trigger_pairs(non_blank(ts), false),
    decreases ts.len(),
{
    if ts.len() > 0 {
        law_blank_entries_skipped(ts.drop_last());
        let nb = non_blank(ts.drop_last());
        if !blank_entry(ts.last()) {
            assert(non_blank(ts).drop_last() =~= nb);
            assert(non_blank(ts).last() == ts.last());
        }
    }
}


proof fn lemma_row_blocks_part(
    rows: Seq<TransferRow>,
    n: int,
    cari_tipi: i32,
    user_id: i32,
    son_deg_guncelle: bool,
    columns: Option<Seq<String>>,
    i: int,
    part: Seq<char>,
)
    requires
        0 <= i < n,
        has_part(row_block(i, rows[i], cari_tipi, user_id, son_deg_guncelle, columns), part),
    ensures
        has_part(row_blocks(rows, n, cari_tipi, user_id, son_deg_guncelle, columns), part),
    decreases n,
{
    let before = row_blocks(rows, n - 1, cari_tipi, user_id, son_deg_guncelle, columns);
    let last = row_block(n - 1, rows[n - 1], cari_tipi, user_id, son_deg_guncelle, columns);
    if i == n - 1 {
        assert(before + last =~= before + last + Seq::<char>::empty());
        lemma_has_part_within(before, last, Seq::<char>::empty(), part);
    } else {
        lemma_row_blocks_part(rows, n - 1, cari_tipi, user_id, son_deg_guncelle, columns, i, part);
        assert(before + last =~= Seq::<char>::empty() + before + last);
        lemma_has_part_within(Seq::<char>::empty(), before, last, part);
    }
}

/// The reference update that the preview shows for a row with trimmed codes
/// `e` and `y`.
pub open spec fn preview_exec(e: Seq<char>, y: Seq<char>, cari_tipi: i32, son_deg_guncelle: bool) -> Seq<char> {
    "EXEC dbo.msp_CariKodunuDegistir\n    @CariTipi = "@ + dec_int(cari_tipi as int)
        + ",\n    @EskiCariKodu = "@ + sql_literal_text(e) + ",\n    @YeniCariKodu = "@
        + sql_literal_text(y) + ",\n    @Kart_aktarim_son_deg_bilgileri_guncelle_fl = "@ + (if son_deg_guncelle {
        seq!['1']
    } else {
        seq!['0']
    }) + ";\n"@
}

/// The rename stamp that the preview shows for a renamed row with trimmed
/// codes `e` and `y`.
pub open spec fn preview_rename_stamp(e: Seq<char>, y: Seq<char>, user_id: i32) -> Seq<char> {
    sql_literal_text(y) + ", cari_lastup_date = GETDATE(), cari_lastup_user = "@ + dec_int(user_id as int)
        + "\n    WHERE cari_kod = "@ + sql_literal_text(e) + ";\n"@
}

/// For every row the preview shows the reference update with the run's card
/// type, the row's trimmed codes as literals, and the last-change flag `1`
/// exactly when it was asked for; for every renamed row it shows the new
/// code stamped with the decimal number of the given user.
pub proof fn law_preview_row_statements(
    ps: Seq<(Seq<char>, Seq<char>)>,
    rows: Seq<TransferRow>,
    cari_tipi: i32,
    user_id: i32,
    son_deg_guncelle: bool,
    columns: Option<Seq<String>>,
    i: int,
)
    requires
        0 <= i < rows.len(),
    ensures
        has_part(
            preview_text(ps, rows, cari_tipi, user_id, son_deg_guncelle, columns),
            preview_exec(trim(rows[i].eski@), trim(rows[i].yeni@), cari_tipi, son_deg_guncelle),
        ),
        rows[i].sil ==> has_part(
            preview_text(ps, rows, cari_tipi, user_id, son_deg_guncelle, columns),
            preview_rename_stamp(trim(rows[i].eski@), trim(rows[i].yeni@), user_id),
        ),
{
    let e = trim(rows[i].eski@);
    let y = trim(rows[i].yeni@);
    let head = row_head(i, e, y, rows[i].sil);
    let step = step1_text(e, y, rows[i].sil, user_id, columns);
    let tail = row_tail(e, y, cari_tipi, son_deg_guncelle);
    let blk = row_block(i, rows[i], cari_tipi, user_id, son_deg_guncelle, columns);
    assert(blk == head + step + tail);
    let n = rows.len() as int;
    let rb = row_blocks(rows, n, cari_tipi, user_id, son_deg_guncelle, columns);
    let pre = sep_line() + "-- 1) TRIGGER'LAR DEVRE DIŞI (aktarım başında, tek oturumda)\n"@ + sep_line() + (
    if ps.len() == 0 {
        "-- (Trigger yönetimi yok — tanımlı trigger girilmedi)\n"@
    } else {
        disable_lines(ps, ps.len() as int)
    }) + "\n"@;
    let post = sep_line() + "-- 2) TRIGGER'LAR TEKRAR ETKİN (aktarım sonunda, HER KOŞULDA)\n"@
        + sep_line() + (if ps.len() == 0 {
        "-- (Trigger yönetimi yok)\n"@
    } else {
        enable_lines(ps, ps.len() as int)
    });
    let whole = preview_text(ps, rows, cari_tipi, user_id, son_deg_guncelle, columns);
    assert(whole =~= pre + rb + post);

    // The reference update.
    let ex = preview_exec(e, y, cari_tipi, son_deg_guncelle);
    assert(dec_int(flag_value(son_deg_guncelle)) == if son_deg_guncelle {
        seq!['1']
    } else {
        seq!['0']
    });
    assert(tail =~= Seq::<char>::empty() + ex + "COMMIT TRANSACTION;\n\n"@);
    lemma_has_part(Seq::<char>::empty(), ex, "COMMIT TRANSACTION;\n\n"@);
    assert(blk =~= (head + step) + tail + Seq::<char>::empty());
    lemma_has_part_within(head + step, tail, Seq::<char>::empty(), ex);
    lemma_row_blocks_part(rows, n, cari_tipi, user_id, son_deg_guncelle, columns, i, ex);
    lemma_has_part_within(pre, rb, post, ex);

    // The rename stamp.
    if rows[i].sil {
        let st = preview_rename_stamp(e, y, user_id);
        let lead = "UPDATE dbo.CARI_HESAPLAR\n    SET cari_kod = "@;
        assert(step =~= lead + st + Seq::<char>::empty());
        lemma_has_part(lead, st, Seq::<char>::empty());
        assert(blk =~= head + step + tail);
        lemma_has_part_within(head, step, tail, st);
        lemma_row_blocks_part(rows, n, cari_tipi, user_id, son_deg_guncelle, columns, i, st);
        lemma_has_part_within(pre, rb, post, st);
    }
}

} // verus!
