//! The texts and small decisions around the database calls: connection
//! report, trigger status, identity of the user, trigger statements.

use vstd::prelude::*;
use crate::model::{TransferRow, TriggerCfg};
use crate::preview::{join, trim_str};
use crate::text::{cat3, cat4, to_chars, trim};

verus! {

/// The part of `s` before its first line break.
pub open spec fn first_line(s: Seq<char>) -> Seq<char>
    decreases s.len(),
{
    if s.len() == 0 {
        s
    } else if s[0] == '\n' {
        Seq::empty()
    } else {
        seq![s[0]] + first_line(s.drop_first())
    }
}

proof fn lemma_first_line(s: Seq<char>, i: int)
    requires
        0 <= i <= s.len(),
        forall|k: int| 0 <= k < i ==> s[k] != '\n',
        i == s.len() || s[i] == '\n',
    ensures
        first_line(s) == s.take(i),
    decreases s.len(),
{
    if s.len() == 0 {
        assert(s.take(i) =~= s);
    } else if i == 0 {
        assert(s.take(0) =~= Seq::<char>::empty());
    } else {
        assert forall|k: int| 0 <= k < i - 1 implies s.drop_first()[k] != '\n' by {
            assert(s.drop_first()[k] == s[k + 1]);
        }
        lemma_first_line(s.drop_first(), i - 1);
        assert(seq![s[0]] + s.drop_first().take(i - 1) =~= s.take(i));
    }
}

/// The report of a successful connection probe: database, login, product
/// version, and the first line of `@@VERSION`, trimmed.
pub open spec fn probe_text(version: Seq<char>, db: Seq<char>, login: Seq<char>, prod: Seq<char>) -> Seq<char> {
    "Bağlantı başarılı.\nVeritabanı: "@ + db + "\nOturum: "@ + login + "\nSürüm: "@ + prod + "\n"@
        + trim(first_line(version))
}

/// The report of a successful connection probe.
pub fn probe_message(version: &str, db: &str, login: &str, prod: &str) -> (m: String)
    ensures
        m@ == probe_text(version@, db@, login@, prod@),
{
    let cs = to_chars(version);
    let mut i: usize = 0;
    while i < cs.len() && cs[i] != '\n'
        invariant
            i <= cs@.len(),
            forall|k: int| 0 <= k < i ==> cs@[k] != '\n',
        decreases cs.len() - i,
    {
        i = i + 1;
    }
    proof {
        lemma_first_line(cs@, i as int);
    }
    assert(cs@.take(i as int) =~= version@.subrange(0, i as int));
    let line = trim_str(version.substring_char(0, i));
    let mut m = String::from_str("Bağlantı başarılı.\nVeritabanı: ");
    m.append(db);
    m.append("\nOturum: ");
    m.append(login);
    m.append("\nSürüm: ");
    m.append(prod);
    m.append("\n");
    m.append(line);
    m
}

/// The connection report with the verdict on `dbo.msp_CariKodunuDegistir`.
pub fn connection_report(info: String, procedure_found: bool) -> (m: String)
    ensures
        m@ == info@ + if procedure_found {
            "\n\n✓ dbo.msp_CariKodunuDegistir bulundu."@
        } else {
            "\n\n⚠ UYARI: dbo.msp_CariKodunuDegistir bu veritabanında BULUNAMADI. Aktarım çalışmayacaktır. Doğru Mikro veritabanına bağlandığınızdan emin olun."@
        },
{
    let mut m = info;
    if procedure_found {
        m.append("\n\n✓ dbo.msp_CariKodunuDegistir bulundu.");
    } else {
        m.append(
            "\n\n⚠ UYARI: dbo.msp_CariKodunuDegistir bu veritabanında BULUNAMADI. Aktarım çalışmayacaktır. Doğru Mikro veritabanına bağlandığınızdan emin olun.",
        );
    }
    m
}

/// The part of `s` after its last `.` (all of `s` when it has none).
pub open spec fn last_segment(s: Seq<char>) -> Seq<char>
    decreases s.len(),
{
    if s.len() == 0 {
        s
    } else if s.last() == '.' {
        Seq::empty()
    } else {
        last_segment(s.drop_last()).push(s.last())
    }
}

pub open spec fn is_bracket(c: char) -> bool {
    c == '[' || c == ']'
}

/// `s` with its leading `[` and `]` characters removed.
pub open spec fn strip_brackets_start(s: Seq<char>) -> Seq<char>
    decreases s.len(),
{
    if s.len() > 0 && is_bracket(s[0]) {
        strip_brackets_start(s.drop_first())
    } else {
        s
    }
}

/// `s` with its trailing `[` and `]` characters removed.
pub open spec fn strip_brackets_end(s: Seq<char>) -> Seq<char>
    decreases s.len(),
{
    if s.len() > 0 && is_bracket(s.last()) {
        strip_brackets_end(s.drop_last())
    } else {
        s
    }
}

/// The bare name of a trigger as `sys.triggers` holds it: the last part of
/// the trimmed name, without surrounding `[` and `]`.
pub open spec fn short_name(raw: Seq<char>) -> Seq<char> {
    strip_brackets_end(strip_brackets_start(last_segment(trim(raw))))
}

/// The bare name of a trigger, or the error for a blank one.
pub fn trigger_short_name(raw: &str) -> (r: Result<String, String>)
    ensures
        match r {
            Ok(n) => n@ == short_name(raw@) && n@.len() > 0,
            Err(e) => short_name(raw@).len() == 0 && e@ == "Boş trigger adı."@,
        },
{
    let t = trim_str(raw);
    let cs = to_chars(t);
    let n = cs.len();
    let mut a = n;
    assert(cs@.subrange(0, n as int) =~= t@);
    assert(cs@.subrange(n as int, n as int) =~= Seq::<char>::empty());
    while a > 0 && cs[a - 1] != '.'
        invariant
            a <= n == cs@.len(),
            cs@ == t@,
            last_segment(t@) == last_segment(cs@.subrange(0, a as int)) + cs@.subrange(a as int, n as int),
        decreases a,
    {
        let ghost pre = cs@.subrange(0, a as int);
        assert(pre.drop_last() =~= cs@.subrange(0, a - 1));
        assert(cs@.subrange(a - 1, n as int) =~= seq![cs@[a - 1]] + cs@.subrange(a as int, n as int));
        assert(last_segment(pre) == last_segment(pre.drop_last()).push(pre.last()));
        assert(last_segment(pre.drop_last()).push(pre.last()) + cs@.subrange(a as int, n as int)
            =~= last_segment(cs@.subrange(0, a - 1)) + cs@.subrange(a - 1, n as int));
        a = a - 1;
    }
    let ghost seg = cs@.subrange(a as int, n as int);
    assert(last_segment(cs@.subrange(0, a as int)) =~= Seq::<char>::empty());
    assert(last_segment(t@) =~= seg);
    let mut x = a;
    while x < n && (cs[x] == '[' || cs[x] == ']')
        invariant
            a <= x <= n == cs@.len(),
            strip_brackets_start(seg) == strip_brackets_start(cs@.subrange(x as int, n as int)),
            seg == cs@.subrange(a as int, n as int),
        decreases n - x,
    {
        assert(cs@.subrange(x as int, n as int).drop_first() =~= cs@.subrange(x + 1, n as int));
        x = x + 1;
    }
    let ghost u = cs@.subrange(x as int, n as int);
    assert(strip_brackets_start(seg) == u);
    let mut y = n;
    assert(u =~= cs@.subrange(x as int, y as int));
    while y > x && (cs[y - 1] == '[' || cs[y - 1] == ']')
        invariant
            x <= y <= n == cs@.len(),
            u == cs@.subrange(x as int, n as int),
            strip_brackets_end(u) == strip_brackets_end(cs@.subrange(x as int, y as int)),
        decreases y - x,
    {
        assert(cs@.subrange(x as int, y as int).drop_last() =~= cs@.subrange(x as int, y - 1));
        y = y - 1;
    }
    assert(strip_brackets_end(u) == cs@.subrange(x as int, y as int));
    if x == y {
        return Err(String::from_str("Boş trigger adı."));
    }
    Ok(String::from_str(t.substring_char(x, y)))
}

/// The status line of trigger `name`: off, on, or missing (an error).
pub fn trigger_state_line(name: &str, disabled: Option<bool>) -> (r: Result<String, String>)
    ensures
        match disabled {
            Some(true) => r matches Ok(s) && s@ == "'"@ + name@ + "' şu anda DEVRE DIŞI."@,
            Some(false) => r matches Ok(s) && s@ == "'"@ + name@ + "' şu anda ETKİN."@,
            None => r matches Err(s) && s@ == "'"@ + name@ + "' adlı trigger bulunamadı."@,
        },
{
    match disabled {
        Some(true) => Ok(cat3("'", name, "' şu anda DEVRE DIŞI.")),
        Some(false) => Ok(cat3("'", name, "' şu anda ETKİN.")),
        None => Err(cat3("'", name, "' adlı trigger bulunamadı.")),
    }
}

pub open spec fn line_views(v: Seq<String>) -> Seq<Seq<char>> {
    Seq::new(v.len(), |k: int| v[k]@)
}

/// The lines joined by line breaks.
pub fn join_lines(lines: &Vec<String>) -> (s: String)
    ensures
        s@ == join(line_views(lines@), seq!['\n']),
{
    let ghost items = line_views(lines@);
    let mut s = String::new();
    proof {
        reveal_strlit("\n");
    }
    let mut i: usize = 0;
    assert(items.take(0) =~= Seq::<Seq<char>>::empty());
    while i < lines.len()
        invariant
            i <= lines@.len(),
            items == line_views(lines@),
            "\n"@ == seq!['\n'],
            s@ == join(items.take(i as int), seq!['\n']),
        decreases lines.len() - i,
    {
        assert(items.take(i + 1).drop_last() =~= items.take(i as int));
        if i > 0 {
            s.append("\n");
        }
        s.append(lines[i].as_str());
        if i == 0 {
            assert(items.take(1) =~= seq![items[0]]);
        }
        assert(s@ =~= join(items.take(i + 1), seq!['\n']));
        i = i + 1;
    }
    assert(items.take(lines@.len() as int) =~= items);
    s
}

/// The answer when no trigger is to be managed.
pub fn no_trigger_message() -> (s: String)
    ensures
        s@ == "Yönetilecek trigger tanımlı değil."@,
{
    String::from_str("Yönetilecek trigger tanımlı değil.")
}

/// The machine's name: `COMPUTERNAME`, else `HOSTNAME`, else `Bilinmiyor`.
pub fn client_machine_label(computer_name: Option<String>, host_name: Option<String>) -> (s: String)
    ensures
        s@ == match computer_name {
            Some(c) => c@,
            None => match host_name {
                Some(h) => h@,
                None => "Bilinmiyor"@,
            },
        },
{
    match computer_name {
        Some(c) => c,
        None => match host_name {
            Some(h) => h,
            None => String::from_str("Bilinmiyor"),
        },
    }
}

/// The user's name: `DOMAIN\USER` when both are set and the domain is not
/// empty, else `USERNAME`, else `USER`, else `Bilinmiyor`.
pub fn client_user_label(domain: Option<String>, user_name: Option<String>, user: Option<String>) -> (s:
    String)
    ensures
        s@ == match (domain, user_name) {
            (Some(d), Some(u)) if d@.len() > 0 => d@ + "\\"@ + u@,
            (_, Some(u)) => u@,
            _ => match user {
                Some(x) => x@,
                None => "Bilinmiyor"@,
            },
        },
{
    match (domain, user_name) {
        (Some(d), Some(u)) => {
            if d.unicode_len() > 0 {
                cat3(d.as_str(), "\\", u.as_str())
            } else {
                u
            }
        },
        (None, Some(u)) => u,
        _ => match user {
            Some(x) => x,
            None => String::from_str("Bilinmiyor"),
        },
    }
}

/// The line reporting a trigger switched on again by the user.
pub fn enabled_line(trigger: &str, table: &str) -> (s: String)
    ensures
        s@ == "Trigger etkinleştirildi: "@ + trigger@ + " ON "@ + table@,
{
    cat4("Trigger etkinleştirildi: ", trigger, " ON ", table)
}

/// `ENABLE TRIGGER t ON tb` or `DISABLE TRIGGER t ON tb`.
pub fn trigger_sql(trigger: &str, table: &str, enable: bool) -> (s: String)
    ensures
        s@ == (if enable {
            "ENABLE"@
        } else {
            "DISABLE"@
        }) + " TRIGGER "@ + trigger@ + " ON "@ + table@,
{
    let mut s = String::from_str(if enable {
        "ENABLE"
    } else {
        "DISABLE"
    });
    s.append(" TRIGGER ");
    s.append(trigger);
    s.append(" ON ");
    s.append(table);
    s
}

/// The message of a failed `ENABLE`/`DISABLE TRIGGER` (`e`: the server's error).
pub fn trigger_failure(enable: bool, e: &str) -> (s: String)
    ensures
        s@ == (if enable {
            "ENABLE"@
        } else {
            "DISABLE"@
        }) + " TRIGGER başarısız: "@ + e@,
{
    cat3(if enable {
        "ENABLE"
    } else {
        "DISABLE"
    }, " TRIGGER başarısız: ", e)
}

/// Whether the preview of `rows` needs the live column list (some row is a
/// copy); refused when there is no row.
pub fn preview_needs_columns(rows: &[TransferRow]) -> (r: Result<bool, String>)
    ensures
        rows@.len() == 0 ==> (r matches Err(e) && e@ == "Önizlenecek satır yok."@),
        rows@.len() > 0 ==> r == Ok::<bool, String>(exists|i: int| 0 <= i < rows@.len() && !(#[trigger] rows@[i]).sil),
{
    if rows.len() == 0 {
        return Err(String::from_str("Önizlenecek satır yok."));
    }
    let mut i: usize = 0;
    while i < rows.len()
        invariant
            i <= rows@.len(),
            forall|k: int| 0 <= k < i ==> (#[trigger] rows@[k]).sil,
        decreases rows.len() - i,
    {
        if !rows[i].sil {
            assert(!rows@[i as int].sil);
            return Ok(true);
        }
        i = i + 1;
    }
    Ok(false)
}


/// The text a value read from a result row stands for: empty when missing.
pub open spec fn or_empty(v: Option<String>) -> Seq<char> {
    match v {
        Some(s) => s@,
        None => Seq::empty(),
    }
}

fn text_or_empty(v: Option<String>) -> (s: String)
    ensures
        s@ == or_empty(v),
{
    match v {
        Some(s) => s,
        None => String::new(),
    }
}

/// The report of the connection probe from the first result row (version,
/// database, login, product version; a missing value reads as empty), or the
/// error when the server sent no row.
pub fn probe_report(row: Option<(Option<String>, Option<String>, Option<String>, Option<String>)>) -> (r:
    Result<String, String>)
    ensures
        match row {
            None => r matches Err(e) && e@ == "Sunucudan yanıt gelmedi."@,
            Some((v, d, l, p)) => r matches Ok(m) && m@ == probe_text(
                or_empty(v),
                or_empty(d),
                or_empty(l),
                or_empty(p),
            ),
        },
{
    match row {
        None => Err(String::from_str("Sunucudan yanıt gelmedi.")),
        Some((v, d, l, p)) => {
            let v = text_or_empty(v);
            let d = text_or_empty(d);
            let l = text_or_empty(l);
            let p = text_or_empty(p);
            Ok(probe_message(v.as_str(), d.as_str(), l.as_str(), p.as_str()))
        },
    }
}

/// Whether `dbo.msp_CariKodunuDegistir` exists, from the count the catalogue
/// query gave (no row or no value counts as none).
pub fn procedure_found(count: Option<i32>) -> (r: bool)
    ensures
        r == (match count {
            Some(c) => c > 0,
            None => false,
        }),
{
    match count {
        Some(c) => c > 0,
        None => false,
    }
}

/// Whether `trigger` is switched off, from `sys.triggers`; an error when the
/// trigger does not exist (no row or no value).
pub fn trigger_disabled_state(trigger: &str, is_disabled: Option<bool>) -> (r: Result<bool, String>)
    ensures
        match is_disabled {
            Some(b) => r == Ok::<bool, String>(b),
            None => r matches Err(e) && e@ == "Trigger bulunamadı: "@ + trigger@,
        },
{
    match is_disabled {
        Some(b) => Ok(b),
        None => {
            let mut m = String::from_str("Trigger bulunamadı: ");
            m.append(trigger);
            Err(m)
        },
    }
}

/// The id of the guard record just written; an error when none came back.
pub fn guard_id_of(id: Option<i64>) -> (r: Result<i64, String>)
    ensures
        match id {
            Some(g) => r == Ok::<i64, String>(g),
            None => r matches Err(e) && e@ == "Trigger koruma kaydı kimliği alınamadı."@,
        },
{
    match id {
        Some(g) => Ok(g),
        None => Err(String::from_str("Trigger koruma kaydı kimliği alınamadı.")),
    }
}

/// The answer of the trigger status check that needs no connection: when no
/// trigger is listed, the message saying so; otherwise nothing, and each
/// trigger is looked up.
pub fn trigger_status_without_lookup(triggers: &[TriggerCfg]) -> (r: Option<String>)
    ensures
        triggers@.len() == 0 ==> (r matches Some(s) && s@ == "Yönetilecek trigger tanımlı değil."@),
        triggers@.len() > 0 ==> r is None,
{
    if triggers.len() == 0 {
        Some(no_trigger_message())
    } else {
        None
    }
}


/// The status lines of the looked-up triggers, in order, or the error for the
/// first one that does not exist.
pub open spec fn status_lines(answers: Seq<(String, Option<bool>)>) -> Result<Seq<Seq<char>>, Seq<char>>
    decreases answers.len(),
{
    if answers.len() == 0 {
        Ok(Seq::empty())
    } else {
        match status_lines(answers.drop_last()) {
            Err(e) => Err(e),
            Ok(ls) => {
                let (name, state) = answers.last();
                match state {
                    Some(true) => Ok(ls.push("'"@ + name@ + "' şu anda DEVRE DIŞI."@)),
                    Some(false) => Ok(ls.push("'"@ + name@ + "' şu anda ETKİN."@)),
                    None => Err("'"@ + name@ + "' adlı trigger bulunamadı."@),
                }
            },
        }
    }
}

/// The answer of the trigger status check from the answers of the lookups
/// (each trigger's bare name and whether it is off, `None` when it does not
/// exist): its lines joined by line breaks, or the error for the first
/// trigger that does not exist.
pub fn trigger_status_text(answers: &[(String, Option<bool>)]) -> (r: Result<String, String>)
    ensures
        match status_lines(answers@) {
            Ok(ls) => r matches Ok(s) && s@ == join(ls, seq!['\n']),
            Err(e) => r matches Err(s) && s@ == e,
        },
{
    let mut lines: Vec<String> = Vec::new();
    let mut i: usize = 0;
    assert(answers@.take(0) =~= Seq::<(String, Option<bool>)>::empty());
    assert(line_views(lines@) =~= Seq::<Seq<char>>::empty());
    while i < answers.len()
        invariant
            i <= answers@.len(),
            status_lines(answers@.take(i as int)) == Ok::<Seq<Seq<char>>, Seq<char>>(line_views(lines@)),
        decreases answers.len() - i,
    {
        assert(answers@.take(i + 1).drop_last() =~= answers@.take(i as int));
        let name = answers[i].0.as_str();
        match trigger_state_line(name, answers[i].1) {
            Ok(l) => {
                let ghost before = lines@;
                lines.push(l);
                assert(line_views(lines@) =~= line_views(before).push(l@));
            },
            Err(e) => {
                proof {
                    lemma_status_lines_err(answers@, i as int + 1);
                }
                return Err(e);
            },
        }
        i = i + 1;
    }
    assert(answers@.take(answers@.len() as int) =~= answers@);
    Ok(join_lines(&lines))
}

proof fn lemma_status_lines_err(a: Seq<(String, Option<bool>)>, k: int)
    requires
        0 <= k <= a.len(),
        status_lines(a.take(k)) is Err,
    ensures
        status_lines(a) == status_lines(a.take(k)),
    decreases a.len() - k,
{
    if k < a.len() {
        assert(a.take(k + 1).drop_last() =~= a.take(k));
        lemma_status_lines_err(a, k + 1);
    } else {
        assert(a.take(k) =~= a);
    }
}

} // verus!
