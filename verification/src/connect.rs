//! How to reach the server: the connection settings read from a `DbConfig`.

use vstd::prelude::*;
use crate::model::DbConfig;
use crate::preview::trim_str;
use crate::text::{is_ascii_digit, lemma_trim_idem, to_chars, trim};

verus! {

/// How to log in.
#[derive(Debug)]
pub enum AuthPlan {
    /// SQL Server authentication.
    Sql { user: String, password: String },
    /// Windows integrated authentication.
    Integrated,
}

/// Everything the connection needs, read and checked from a `DbConfig`.
#[derive(Debug)]
pub struct ConnectPlan {
    pub host: String,
    /// A named instance, found through the SQL Browser service.
    pub instance: Option<String>,
    pub port: Option<u16>,
    pub database: String,
    pub trust_cert: bool,
    pub auth: AuthPlan,
}

/// The position of the first `c` in `s`.
pub open spec fn find_char(s: Seq<char>, c: char) -> Option<int>
    decreases s.len(),
{
    if s.len() == 0 {
        None
    } else if s[0] == c {
        Some(0)
    } else {
        match find_char(s.drop_first(), c) {
            Some(i) => Some(i + 1),
            None => None,
        }
    }
}

proof fn lemma_find_char(s: Seq<char>, c: char, i: int)
    requires
        0 <= i <= s.len(),
        forall|k: int| 0 <= k < i ==> s[k] != c,
        i == s.len() || s[i] == c,
    ensures
        find_char(s, c) == if i < s.len() {
            Some(i)
        } else {
            None::<int>
        },
    decreases s.len(),
{
    if s.len() > 0 && i > 0 {
        assert forall|k: int| 0 <= k < i - 1 implies s.drop_first()[k] != c by {
            assert(s.drop_first()[k] == s[k + 1]);
        }
        lemma_find_char(s.drop_first(), c, i - 1);
    }
}

fn find_in(cs: &Vec<char>, c: char) -> (r: Option<usize>)
    ensures
        match r {
            Some(i) => find_char(cs@, c) == Some(i as int) && i < cs@.len(),
            None => find_char(cs@, c) is None,
        },
{
    let mut i: usize = 0;
    while i < cs.len()
        invariant
            i <= cs@.len(),
            forall|k: int| 0 <= k < i ==> cs@[k] != c,
        decreases cs.len() - i,
    {
        if cs[i] == c {
            proof {
                lemma_find_char(cs@, c, i as int);
            }
            return Some(i);
        }
        i = i + 1;
    }
    proof {
        lemma_find_char(cs@, c, i as int);
    }
    None
}

/// The value of a string of decimal digits.
pub open spec fn digits_value(d: Seq<char>) -> int
    decreases d.len(),
{
    if d.len() == 0 {
        0
    } else {
        digits_value(d.drop_last()) * 10 + (d.last() as int - '0' as int)
    }
}

pub open spec fn all_digits(d: Seq<char>) -> bool {
    forall|i: int| 0 <= i < d.len() ==> is_ascii_digit(#[trigger] d[i])
}

/// `u16::from_str`: an optional `+`, then one or more decimal digits, at most 65535.
pub open spec fn parse_u16(s: Seq<char>) -> Option<u16> {
    let d = if s.len() > 0 && s[0] == '+' {
        s.drop_first()
    } else {
        s
    };
    if d.len() == 0 || !all_digits(d) || digits_value(d) > 65535 {
        None
    } else {
        Some(digits_value(d) as u16)
    }
}

proof fn lemma_digits_grow(d: Seq<char>, k: int)
    requires
        0 <= k <= d.len(),
        all_digits(d),
    ensures
        0 <= digits_value(d.take(k)) <= digits_value(d),
    decreases d.len() - k,
{
    if k < d.len() {
        lemma_digits_grow(d, k + 1);
        assert(d.take(k + 1).drop_last() =~= d.take(k));
        assert(is_ascii_digit(d[k]));
    } else {
        assert(d.take(k) =~= d);
        lemma_digits_nonneg(d);
    }
}

proof fn lemma_digits_nonneg(d: Seq<char>)
    requires
        all_digits(d),
    ensures
        digits_value(d) >= 0,
    decreases d.len(),
{
    if d.len() > 0 {
        assert forall|i: int| 0 <= i < d.drop_last().len() implies is_ascii_digit(#[trigger] d.drop_last()[i]) by {
            assert(d.drop_last()[i] == d[i]);
        }
        lemma_digits_nonneg(d.drop_last());
        assert(is_ascii_digit(d[d.len() - 1]));
    }
}

/// `u16::from_str` on `s`.
pub fn parse_port(s: &str) -> (r: Option<u16>)
    ensures
        r == parse_u16(s@),
{
    let cs = to_chars(s);
    let n = cs.len();
    let start: usize = if n > 0 && cs[0] == '+' {
        1
    } else {
        0
    };
    let ghost d = cs@.subrange(start as int, n as int);
    assert(d =~= (if cs@.len() > 0 && cs@[0] == '+' {
        s@.drop_first()
    } else {
        s@
    }));
    if start == n {
        return None;
    }
    let mut acc: u32 = 0;
    let mut i = start;
    while i < n
        invariant
            start <= i <= n == cs@.len(),
            start < n,
            cs@ == s@,
            d == cs@.subrange(start as int, n as int),
            d == (if s@.len() > 0 && s@[0] == '+' {
                s@.drop_first()
            } else {
                s@
            }),
            acc <= 65535,
            acc == digits_value(cs@.subrange(start as int, i as int)),
            forall|k: int| start <= k < i ==> is_ascii_digit(#[trigger] cs@[k]),
        decreases n - i,
    {
        let c = cs[i];
        if !('0' <= c && c <= '9') {
            assert(!is_ascii_digit(d[i - start]));
            return None;
        }
        assert(cs@.subrange(start as int, i + 1).drop_last() =~= cs@.subrange(start as int, i as int));
        acc = acc * 10 + ((c as u32) - ('0' as u32));
        i = i + 1;
        if acc > 65535 {
            proof {
                if all_digits(d) {
                    assert(d.take(i - start) =~= cs@.subrange(start as int, i as int));
                    lemma_digits_grow(d, i - start);
                }
            }
            return None;
        }
    }
    assert(d =~= cs@.subrange(start as int, i as int));
    assert forall|k: int| 0 <= k < d.len() implies is_ascii_digit(#[trigger] d[k]) by {
        assert(d[k] == cs@[k + start]);
    }
    Some(acc as u16)
}

/// ASCII lower case of `c`.
pub open spec fn lower_char(c: char) -> char {
    if 'A' <= c && c <= 'Z' {
        ((c as u32) + 32) as char
    } else {
        c
    }
}

/// `str::to_ascii_lowercase`.
pub open spec fn lower(s: Seq<char>) -> Seq<char> {
    Seq::new(s.len(), |i: int| lower_char(s[i]))
}

/// `str::to_ascii_lowercase`.
pub fn ascii_lowercase(s: &str) -> (r: String)
    ensures
        r@ == lower(s@),
{
    let letters = "abcdefghijklmnopqrstuvwxyz";
    proof {
        reveal_strlit("abcdefghijklmnopqrstuvwxyz");
    }
    let n = s.unicode_len();
    let mut r = String::new();
    let mut i: usize = 0;
    while i < n
        invariant
            n == s@.len(),
            i <= n,
            letters@ == "abcdefghijklmnopqrstuvwxyz"@,
            letters@.len() == 26,
            forall|k: int| 0 <= k < 26 ==> #[trigger] letters@[k] == ((k + 97) as char),
            r@ == lower(s@).take(i as int),
        decreases n - i,
    {
        let c = s.get_char(i);
        if 'A' <= c && c <= 'Z' {
            let k = ((c as u32) - ('A' as u32)) as usize;
            let piece = letters.substring_char(k, k + 1);
            assert(piece@ =~= seq![letters@[k as int]]);
            r.append(piece);
        } else {
            let piece = s.substring_char(i, i + 1);
            assert(piece@ =~= seq![c]);
            r.append(piece);
        }
        assert(r@ =~= lower(s@).take(i + 1));
        i = i + 1;
    }
    assert(lower(s@).take(n as int) =~= lower(s@));
    r
}


/// How to log in, as the contracts see it.
pub enum AuthView {
    Sql(Seq<char>, Seq<char>),
    Integrated,
}

/// A connection plan, as the contracts see it.
pub struct PlanView {
    pub host: Seq<char>,
    pub instance: Option<Seq<char>>,
    pub port: Option<u16>,
    pub database: Seq<char>,
    pub trust_cert: bool,
    pub auth: AuthView,
}

pub open spec fn opt_view(o: Option<String>) -> Option<Seq<char>> {
    match o {
        Some(s) => Some(s@),
        None => None,
    }
}

pub open spec fn plan_view(p: ConnectPlan) -> PlanView {
    PlanView {
        host: p.host@,
        instance: opt_view(p.instance),
        port: p.port,
        database: p.database@,
        trust_cert: p.trust_cert,
        auth: match p.auth {
            AuthPlan::Sql { user, password } => AuthView::Sql(user@, password@),
            AuthPlan::Integrated => AuthView::Integrated,
        },
    }
}

/// The login that `cfg` asks for: `"sql"` (any case, trimmed) needs a
/// non-blank user name and takes the password as it is (none: empty);
/// `"windows"` is integrated login, available on Windows only.
pub open spec fn auth_outcome(cfg: DbConfig, windows: bool) -> Result<AuthView, Seq<char>> {
    let kind = lower(trim(cfg.auth@));
    if kind == "sql"@ {
        match cfg.username {
            Some(u) => if trim(u@).len() > 0 {
                Ok(
                    AuthView::Sql(
                        trim(u@),
                        match cfg.password {
                            Some(p) => p@,
                            None => Seq::empty(),
                        },
                    ),
                )
            } else {
                Err("SQL Auth seçildi ama kullanıcı adı boş."@)
            },
            None => Err("SQL Auth seçildi ama kullanıcı adı boş."@),
        }
    } else if kind == "windows"@ {
        if windows {
            Ok(AuthView::Integrated)
        } else {
            Err(
                "Windows Integrated Auth yalnızca Windows üzerinde desteklenir. Bu platformda SQL Server Auth kullanın."@,
            )
        }
    } else {
        Err("Bilinmeyen kimlik doğrulama türü: '"@ + kind + "'."@)
    }
}

/// The address that the trimmed `server` names: `host\instance`, `host,port`
/// or a bare host on port 1433.
pub open spec fn address_outcome(server: Seq<char>) -> Result<
    (Seq<char>, Option<Seq<char>>, Option<u16>),
    Seq<char>,
> {
    match find_char(server, '\\') {
        Some(i) => Ok((trim(server.take(i)), Some(trim(server.skip(i + 1))), None)),
        None => match find_char(server, ',') {
            Some(i) => match parse_u16(trim(server.skip(i + 1))) {
                Some(p) => Ok((trim(server.take(i)), None, Some(p))),
                None => Err("Geçersiz port: '"@ + server.skip(i + 1) + "'"@),
            },
            None => Ok((server, None, Some(1433u16))),
        },
    }
}

/// What `connect_plan` gives for `cfg`.
pub open spec fn connect_outcome(cfg: DbConfig, windows: bool) -> Result<PlanView, Seq<char>> {
    let server = trim(cfg.server@);
    if server.len() == 0 {
        Err("Sunucu adı boş."@)
    } else if trim(cfg.database@).len() == 0 {
        Err("Veritabanı adı boş."@)
    } else {
        match address_outcome(server) {
            Err(e) => Err(e),
            Ok((h, inst, port)) => match auth_outcome(cfg, windows) {
                Err(e) => Err(e),
                Ok(a) => Ok(
                    PlanView {
                        host: h,
                        instance: inst,
                        port,
                        database: trim(cfg.database@),
                        trust_cert: cfg.trust_cert,
                        auth: a,
                    },
                ),
            },
        }
    }
}

fn auth_plan(cfg: &DbConfig, windows: bool) -> (r: Result<AuthPlan, String>)
    ensures
        match r {
            Ok(a) => auth_outcome(*cfg, windows) == Ok::<AuthView, Seq<char>>(
                plan_view(ConnectPlan {
                    host: cfg.server,
                    instance: None,
                    port: None,
                    database: cfg.database,
                    trust_cert: false,
                    auth: a,
                }).auth,
            ),
            Err(e) => auth_outcome(*cfg, windows) == Err::<AuthView, Seq<char>>(e@),
        },
{
    let kind = ascii_lowercase(trim_str(cfg.auth.as_str()));
    if kind == String::from_str("sql") {
        match &cfg.username {
            Some(u) => {
                let user = trim_str(u.as_str());
                if user.unicode_len() > 0 {
                    let password = match &cfg.password {
                        Some(p) => p.clone(),
                        None => String::new(),
                    };
                    Ok(AuthPlan::Sql { user: String::from_str(user), password })
                } else {
                    Err(String::from_str("SQL Auth seçildi ama kullanıcı adı boş."))
                }
            },
            None => Err(String::from_str("SQL Auth seçildi ama kullanıcı adı boş.")),
        }
    } else if kind == String::from_str("windows") {
        if windows {
            Ok(AuthPlan::Integrated)
        } else {
            Err(
                String::from_str(
                    "Windows Integrated Auth yalnızca Windows üzerinde desteklenir. Bu platformda SQL Server Auth kullanın.",
                ),
            )
        }
    } else {
        let mut m = String::from_str("Bilinmeyen kimlik doğrulama türü: '");
        m.append(kind.as_str());
        m.append("'.");
        Err(m)
    }
}

/// Reads the connection settings of `cfg`: the server (trimmed) as
/// `host\instance`, `host,port` or a bare host on port 1433, the database
/// (trimmed), the certificate trust and the login. `windows` tells whether
/// integrated login is available (the program runs on Windows). Fails, in
/// this order, on a blank server, a blank database, a port that is not a
/// `u16`, then on the login (see `auth_outcome`).
pub fn connect_plan(cfg: &DbConfig, windows: bool) -> (r: Result<ConnectPlan, String>)
    ensures
        match r {
            Ok(p) => connect_outcome(*cfg, windows) == Ok::<PlanView, Seq<char>>(plan_view(p)),
            Err(e) => connect_outcome(*cfg, windows) == Err::<PlanView, Seq<char>>(e@),
        },
{
    let server = trim_str(cfg.server.as_str());
    let ghost sv = server@;
    if server.unicode_len() == 0 {
        return Err(String::from_str("Sunucu adı boş."));
    }
    let database = trim_str(cfg.database.as_str());
    if database.unicode_len() == 0 {
        return Err(String::from_str("Veritabanı adı boş."));
    }
    let cs = to_chars(server);
    let n = cs.len();
    let (host, instance, port) = match find_in(&cs, '\\') {
        Some(i) => {
            let h = String::from_str(trim_str(server.substring_char(0, i)));
            let inst = String::from_str(trim_str(server.substring_char(i + 1, n)));
            assert(sv.take(i as int) =~= sv.subrange(0, i as int));
            assert(sv.skip(i + 1) =~= sv.subrange(i + 1, n as int));
            (h, Some(inst), None)
        },
        None => match find_in(&cs, ',') {
            Some(i) => {
                let after = server.substring_char(i + 1, n);
                assert(sv.skip(i + 1) =~= after@);
                assert(sv.take(i as int) =~= sv.subrange(0, i as int));
                match parse_port(trim_str(after)) {
                    Some(p) => (String::from_str(trim_str(server.substring_char(0, i))), None, Some(p)),
                    None => {
                        let mut m = String::from_str("Geçersiz port: '");
                        m.append(after);
                        m.append("'");
                        return Err(m);
                    },
                }
            },
            None => (String::from_str(server), None, Some(1433u16)),
        },
    };
    let auth = match auth_plan(cfg, windows) {
        Ok(a) => a,
        Err(e) => {
            return Err(e);
        },
    };
    Ok(
        ConnectPlan {
            host,
            instance,
            port,
            database: String::from_str(database),
            trust_cert: cfg.trust_cert,
            auth,
        },
    )
}


/// Every name a connection plan holds is trimmed, in every address form:
/// the host, the named instance and the database carry no leading or
/// trailing white space, and the database is not blank.
pub proof fn law_plan_names_trimmed(cfg: DbConfig, windows: bool)
    ensures
        connect_outcome(cfg, windows) matches Ok(p) ==> {
            &&& p.host == trim(p.host)
            &&& (p.instance matches Some(inst) ==> inst == trim(inst))
            &&& p.database == trim(p.database)
            &&& p.database.len() > 0
        },
{
    let server = trim(cfg.server@);
    lemma_trim_idem(cfg.server@);
    lemma_trim_idem(cfg.database@);
    match find_char(server, '\\') {
        Some(i) => {
            lemma_trim_idem(server.take(i));
            lemma_trim_idem(server.skip(i + 1));
        },
        None => match find_char(server, ',') {
            Some(i) => {
                lemma_trim_idem(server.take(i));
            },
            None => {},
        },
    }
}

} // verus!
