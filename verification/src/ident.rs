//! Strict validation and quoting of the SQL names and values that DDL and the
//! preview text embed as text (they cannot be passed as parameters).

use vstd::prelude::*;
use crate::text::{
    char_is_control, count_of, is_ascii_alnum, is_ascii_alpha, is_control, is_ws,
    lemma_count_of_concat, lemma_count_of_zero, lemma_trim_noop, to_chars, trim, trim_range,
};

verus! {

/// First character of a name part: an ASCII letter or `_`.
pub open spec fn ident_start(c: char) -> bool {
    is_ascii_alpha(c) || c == '_'
}

/// Any character of a name part: an ASCII letter or digit, `_`, `$` or `#`.
pub open spec fn ident_char(c: char) -> bool {
    is_ascii_alnum(c) || c == '_' || c == '$' || c == '#'
}

fn char_ident_start(c: char) -> (r: bool)
    ensures
        r == ident_start(c),
{
    ('A' <= c && c <= 'Z') || ('a' <= c && c <= 'z') || c == '_'
}

fn char_ident_char(c: char) -> (r: bool)
    ensures
        r == ident_char(c),
{
    ('A' <= c && c <= 'Z') || ('a' <= c && c <= 'z') || ('0' <= c && c <= '9') || c == '_' || c
        == '$' || c == '#'
}

pub open spec fn all_ident_chars(p: Seq<char>) -> bool {
    forall|i: int| 0 <= i < p.len() ==> ident_char(#[trigger] p[i])
}

/// A name part that the validation accepts.
pub open spec fn valid_body(p: Seq<char>) -> bool {
    &&& p.len() > 0
    &&& ident_start(p[0])
    &&& forall|i: int| 0 <= i < p.len() ==> ident_char(#[trigger] p[i])
}

/// Why a name part was refused.
pub enum PartFault {
    Brackets,
    Empty,
    Start(Seq<char>),
    Char(Seq<char>),
}

/// The body of one part of a name (before `[ ]` are added again), or why it is refused.
pub open spec fn part_body(rp: Seq<char>) -> Result<Seq<char>, PartFault> {
    let r = trim(rp);
    let open = r.len() > 0 && r[0] == '[';
    let close = r.len() > 0 && r.last() == ']';
    if open != close {
        Err(PartFault::Brackets)
    } else {
        let p = if open {
            r.subrange(1, r.len() - 1)
        } else {
            r
        };
        if p.len() == 0 {
            Err(PartFault::Empty)
        } else if !ident_start(p[0]) {
            Err(PartFault::Start(p))
        } else if !all_ident_chars(p) {
            Err(PartFault::Char(p))
        } else {
            Ok(p)
        }
    }
}

pub open spec fn bracketed(p: Seq<char>) -> Seq<char> {
    seq!['['] + p + seq![']']
}

/// The position of the only `.` of `t`.
pub open spec fn dot_pos(t: Seq<char>) -> int {
    choose|d: int| 0 <= d < t.len() && t[d] == '.'
}

pub open spec fn fault_msg(t: Seq<char>, f: PartFault) -> Seq<char> {
    let head = "Geçersiz nesne adı '"@ + t;
    match f {
        PartFault::Brackets => head + "': köşeli parantezler eşleşmiyor."@,
        PartFault::Empty => head + "': boş parça."@,
        PartFault::Start(p) => head + "': '"@ + p + "' harf veya _ ile başlamalı."@,
        PartFault::Char(p) => head + "': '"@ + p + "' izin verilmeyen karakter içeriyor."@,
    }
}

/// What `validate_qualified_ident` gives for `raw`: the bracketed name or the error text.
pub open spec fn qualified_ident(raw: Seq<char>) -> Result<Seq<char>, Seq<char>> {
    let t = trim(raw);
    if t.len() == 0 {
        Err("Boş nesne adı."@)
    } else if count_of(t, '.') >= 2 {
        Err(
            "Geçersiz nesne adı '"@ + t + "'. En fazla 'sema.nesne' biçimi desteklenir."@,
        )
    } else if count_of(t, '.') == 0 {
        match part_body(t) {
            Ok(p) => Ok(bracketed(p)),
            Err(f) => Err(fault_msg(t, f)),
        }
    } else {
        let d = dot_pos(t);
        match part_body(t.take(d)) {
            Err(f) => Err(fault_msg(t, f)),
            Ok(p) => match part_body(t.skip(d + 1)) {
                Err(f) => Err(fault_msg(t, f)),
                Ok(q) => Ok(bracketed(p) + seq!['.'] + bracketed(q)),
            },
        }
    }
}

/// A name in the form the validation writes: `[p]` or `[p].[q]` with accepted parts.
pub open spec fn is_quoted_name(o: Seq<char>) -> bool {
    ||| exists|p: Seq<char>| valid_body(p) && o == bracketed(p)
    ||| exists|p: Seq<char>, q: Seq<char>|
        valid_body(p) && valid_body(q) && o == bracketed(p) + seq!['.'] + bracketed(q)
}

pub proof fn lemma_count_two(s: Seq<char>, i: int, j: int, c: char)
    requires
        0 <= i < j < s.len(),
        s[i] == c,
        s[j] == c,
    ensures
        count_of(s, c) >= 2,
{
    let a = s.take(j);
    let b = s.skip(j);
    assert(s =~= a + b);
    lemma_count_of_concat(a, b, c);
    lemma_count_of_zero(a, c);
    lemma_count_of_zero(b, c);
    assert(a[i] == c);
    assert(b[0] == c);
    if count_of(a, c) == 0 {
        assert(a[i] != c);
    }
    if count_of(b, c) == 0 {
        assert(b[0] != c);
    }
}

proof fn lemma_dot_pos(t: Seq<char>, k: int)
    requires
        count_of(t, '.') == 1,
        0 <= k < t.len(),
        t[k] == '.',
    ensures
        dot_pos(t) == k,
{
    let d = dot_pos(t);
    assert(0 <= d < t.len() && t[d] == '.');
    if d < k {
        lemma_count_two(t, d, k, '.');
    } else if k < d {
        lemma_count_two(t, k, d, '.');
    }
}

/// Exec form of `PartFault`, with the body given by its bounds.
enum Fault {
    Brackets,
    Empty,
    Start,
    Char,
}

spec fn fault_spec(f: Fault, p: Seq<char>) -> PartFault {
    match f {
        Fault::Brackets => PartFault::Brackets,
        Fault::Empty => PartFault::Empty,
        Fault::Start => PartFault::Start(p),
        Fault::Char => PartFault::Char(p),
    }
}

fn all_chars_ok(cs: &Vec<char>, x: usize, y: usize) -> (r: bool)
    requires
        x <= y <= cs.len(),
    ensures
        r == all_ident_chars(cs@.subrange(x as int, y as int)),
{
    let ghost p = cs@.subrange(x as int, y as int);
    let mut i = x;
    while i < y
        invariant
            x <= i <= y <= cs.len(),
            p == cs@.subrange(x as int, y as int),
            forall|k: int| x <= k < i ==> ident_char(#[trigger] cs@[k]),
        decreases y - i,
    {
        if !char_ident_char(cs[i]) {
            assert(p[i - x] == cs@[i as int]);
            assert(!ident_char(p[i - x]));
            return false;
        }
        i = i + 1;
    }
    assert forall|k: int| 0 <= k < p.len() implies ident_char(#[trigger] p[k]) by {
        assert(p[k] == cs@[k + x]);
    }
    true
}

fn check_part(cs: &Vec<char>, lo: usize, hi: usize) -> (r: Result<(usize, usize), (Fault, usize, usize)>)
    requires
        lo <= hi <= cs.len(),
    ensures
        match r {
            Ok((x, y)) => lo <= x <= y <= hi && part_body(cs@.subrange(lo as int, hi as int))
                == Ok::<Seq<char>, PartFault>(cs@.subrange(x as int, y as int)),
            Err((f, x, y)) => lo <= x <= y <= hi && part_body(cs@.subrange(lo as int, hi as int))
                == Err::<Seq<char>, PartFault>(fault_spec(f, cs@.subrange(x as int, y as int))),
        },
{
    let ghost rp = cs@.subrange(lo as int, hi as int);
    let (a, b) = trim_range(cs, lo, hi);
    let ghost r = cs@.subrange(a as int, b as int);
    assert(r == trim(rp));
    let open = a < b && cs[a] == '[';
    let close = a < b && cs[b - 1] == ']';
    assert(open == (r.len() > 0 && r[0] == '['));
    assert(close == (r.len() > 0 && r.last() == ']'));
    if open != close {
        return Err((Fault::Brackets, a, b));
    }
    let (x, y) = if open {
        (a + 1, b - 1)
    } else {
        (a, b)
    };
    let ghost p = cs@.subrange(x as int, y as int);
    assert(open ==> p =~= r.subrange(1, r.len() - 1));
    assert(!open ==> p =~= r);
    if x == y {
        return Err((Fault::Empty, x, y));
    }
    assert(p[0] == cs@[x as int]);
    if !char_ident_start(cs[x]) {
        return Err((Fault::Start, x, y));
    }
    if !all_chars_ok(cs, x, y) {
        return Err((Fault::Char, x, y));
    }
    Ok((x, y))
}

fn fault_message(raw: &str, t: &str, f: Fault, x: usize, y: usize) -> (m: String)
    requires
        x <= y <= raw@.len(),
    ensures
        m@ == fault_msg(t@, fault_spec(f, raw@.subrange(x as int, y as int))),
{
    let mut m = String::from_str("Geçersiz nesne adı '");
    m.append(t);
    match f {
        Fault::Brackets => {
            m.append("': köşeli parantezler eşleşmiyor.");
        },
        Fault::Empty => {
            m.append("': boş parça.");
        },
        Fault::Start => {
            m.append("': '");
            m.append(raw.substring_char(x, y));
            m.append("' harf veya _ ile başlamalı.");
        },
        Fault::Char => {
            m.append("': '");
            m.append(raw.substring_char(x, y));
            m.append("' izin verilmeyen karakter içeriyor.");
        },
    }
    m
}

/// Where the dots of `cs[a..b]` stand: `None` when there are two or more,
/// else `Some(d)` with `d == b` when there is none and `cs[d] == '.'` for the only one.
fn find_dot(cs: &Vec<char>, a: usize, b: usize) -> (r: Option<usize>)
    requires
        a <= b <= cs.len(),
    ensures
        match r {
            None => count_of(cs@.subrange(a as int, b as int), '.') >= 2,
            Some(d) => if d == b {
                count_of(cs@.subrange(a as int, b as int), '.') == 0
            } else {
                &&& a <= d < b
                &&& cs@[d as int] == '.'
                &&& count_of(cs@.subrange(a as int, b as int), '.') == 1
                &&& dot_pos(cs@.subrange(a as int, b as int)) == d - a
            },
        },
{
    let ghost tv = cs@.subrange(a as int, b as int);
    let mut ndots: usize = 0;
    let mut d: usize = b;
    let mut i = a;
    while i < b
        invariant
            a <= i <= b <= cs.len(),
            tv == cs@.subrange(a as int, b as int),
            ndots <= 1,
            count_of(cs@.subrange(a as int, i as int), '.') == ndots,
            ndots == 1 ==> a <= d < i && cs@[d as int] == '.',
            ndots == 0 ==> d == b,
        decreases b - i,
    {
        let ghost pre = cs@.subrange(a as int, i as int);
        assert(cs@.subrange(a as int, i + 1).drop_last() =~= pre);
        if cs[i] == '.' {
            if ndots == 1 {
                proof {
                    assert(tv[d - a] == '.');
                    assert(tv[i - a] == '.');
                    lemma_count_two(tv, d - a, i - a, '.');
                }
                return None;
            }
            d = i;
            ndots = 1;
        }
        i = i + 1;
    }
    assert(cs@.subrange(a as int, b as int) =~= tv);
    if ndots == 1 {
        proof {
            assert(tv[d - a] == '.');
            lemma_dot_pos(tv, d - a);
        }
    }
    Some(d)
}

fn bracket_one(raw: &str, x: usize, y: usize) -> (o: String)
    requires
        x <= y <= raw@.len(),
    ensures
        o@ == bracketed(raw@.subrange(x as int, y as int)),
{
    let mut o = String::from_str("[");
    o.append(raw.substring_char(x, y));
    o.append("]");
    proof {
        reveal_strlit("[");
        reveal_strlit("]");
    }
    assert(o@ =~= bracketed(raw@.subrange(x as int, y as int)));
    o
}

fn bracket_two(raw: &str, x: usize, y: usize, x2: usize, y2: usize) -> (o: String)
    requires
        x <= y <= raw@.len(),
        x2 <= y2 <= raw@.len(),
    ensures
        o@ == bracketed(raw@.subrange(x as int, y as int)) + seq!['.'] + bracketed(
            raw@.subrange(x2 as int, y2 as int),
        ),
{
    let mut o = String::from_str("[");
    o.append(raw.substring_char(x, y));
    o.append("].[");
    o.append(raw.substring_char(x2, y2));
    o.append("]");
    proof {
        reveal_strlit("[");
        reveal_strlit("].[");
        reveal_strlit("]");
    }
    assert(o@ =~= bracketed(raw@.subrange(x as int, y as int)) + seq!['.'] + bracketed(
        raw@.subrange(x2 as int, y2 as int),
    ));
    o
}

/// Validates a `schema.object` (or `object`) name that DDL embeds as text and
/// writes it back with every part in `[ ]`: each part is an ASCII letter or `_`
/// followed by ASCII letters, digits, `_`, `$` or `#`; `[ ]` around a part are
/// accepted only as a matched pair.
#[verifier::rlimit(30)]
pub fn validate_qualified_ident(raw: &str) -> (res: Result<String, String>)
    ensures
        match res {
            Ok(o) => qualified_ident(raw@) == Ok::<Seq<char>, Seq<char>>(o@),
            Err(e) => qualified_ident(raw@) == Err::<Seq<char>, Seq<char>>(e@),
        },
{
    let cs = to_chars(raw);
    let n = cs.len();
    let (a, b) = trim_range(&cs, 0, n);
    assert(cs@.subrange(0, n as int) =~= raw@);
    let t = raw.substring_char(a, b);
    let ghost tv = t@;
    assert(tv == trim(raw@));
    assert(tv == cs@.subrange(a as int, b as int));
    if a == b {
        return Err(String::from_str("Boş nesne adı."));
    }
    match find_dot(&cs, a, b) {
        None => {
            let mut m = String::from_str("Geçersiz nesne adı '");
            m.append(t);
            m.append("'. En fazla 'sema.nesne' biçimi desteklenir.");
            Err(m)
        },
        Some(d) => {
            if d == b {
                match check_part(&cs, a, b) {
                    Ok((x, y)) => Ok(bracket_one(raw, x, y)),
                    Err((f, x, y)) => Err(fault_message(raw, t, f, x, y)),
                }
            } else {
                assert(cs@.subrange(a as int, d as int) =~= tv.take(d - a));
                assert(cs@.subrange(d + 1, b as int) =~= tv.skip(d - a + 1));
                match check_part(&cs, a, d) {
                    Err((f, x, y)) => Err(fault_message(raw, t, f, x, y)),
                    Ok((x, y)) => match check_part(&cs, d + 1, b) {
                        Err((f, x2, y2)) => Err(fault_message(raw, t, f, x2, y2)),
                        Ok((x2, y2)) => Ok(bracket_two(raw, x, y, x2, y2)),
                    },
                }
            }
        },
    }
}


proof fn lemma_no_dot_in_body(p: Seq<char>)
    requires
        valid_body(p),
    ensures
        count_of(bracketed(p), '.') == 0,
        forall|i: int| 0 <= i < bracketed(p).len() ==> bracketed(p)[i] != '.',
{
    let o = bracketed(p);
    assert forall|i: int| 0 <= i < o.len() implies o[i] != '.' by {
        if 1 <= i < o.len() - 1 {
            assert(o[i] == p[i - 1]);
            assert(ident_char(p[i - 1]));
        }
    }
    lemma_count_of_zero(o, '.');
}

proof fn lemma_part_of_bracketed(p: Seq<char>)
    requires
        valid_body(p),
    ensures
        part_body(bracketed(p)) == Ok::<Seq<char>, PartFault>(p),
{
    let o = bracketed(p);
    assert(!is_ws(o[0]));
    assert(!is_ws(o.last()));
    lemma_trim_noop(o);
    assert(o.subrange(1, o.len() - 1) =~= p);
    assert(all_ident_chars(p));
}

/// Every name that `validate_qualified_ident` accepts comes back as `[p]` or
/// `[p].[q]`, where `p` and `q` are accepted name parts.
pub proof fn law_ident_output_shape(raw: Seq<char>)
    ensures
        qualified_ident(raw) matches Ok(o) ==> is_quoted_name(o),
{
    let t = trim(raw);
    if let Ok(o) = qualified_ident(raw) {
        if count_of(t, '.') == 0 {
            let p = part_body(t)->Ok_0;
            assert(valid_body(p) && o == bracketed(p));
        } else {
            let d = dot_pos(t);
            let p = part_body(t.take(d))->Ok_0;
            let q = part_body(t.skip(d + 1))->Ok_0;
            assert(valid_body(p) && valid_body(q) && o == bracketed(p) + seq!['.'] + bracketed(q));
        }
    }
}

/// What `validate_qualified_ident` writes, it accepts again unchanged: a name
/// already in `[p]` or `[p].[q]` form is its own validated form.
pub proof fn law_quoted_name_accepted(o: Seq<char>)
    requires
        is_quoted_name(o),
    ensures
        qualified_ident(o) == Ok::<Seq<char>, Seq<char>>(o),
{
    if exists|p: Seq<char>| valid_body(p) && o == bracketed(p) {
        let p = choose|p: Seq<char>| valid_body(p) && o == bracketed(p);
        assert(!is_ws(o[0]));
        assert(!is_ws(o.last()));
        lemma_trim_noop(o);
        lemma_no_dot_in_body(p);
        lemma_part_of_bracketed(p);
    } else {
        let (p, q) = choose|p: Seq<char>, q: Seq<char>|
            valid_body(p) && valid_body(q) && o == bracketed(p) + seq!['.'] + bracketed(q);
        let bp = bracketed(p);
        let bq = bracketed(q);
        assert(o[0] == '[');
        assert(o.last() == ']');
        assert(!is_ws(o[0]));
        assert(!is_ws(o.last()));
        lemma_trim_noop(o);
        lemma_no_dot_in_body(p);
        lemma_no_dot_in_body(q);
        let dot = seq!['.'];
        assert(dot.drop_last() =~= Seq::<char>::empty());
        assert(count_of(Seq::<char>::empty(), '.') == 0);
        assert(dot.last() == '.');
        assert(count_of(dot, '.') == 1);
        lemma_count_of_concat(bp, dot, '.');
        lemma_count_of_concat(bp + dot, bq, '.');
        assert(o =~= (bp + dot) + bq);
        let d = bp.len() as int;
        assert(o[d] == '.');
        lemma_dot_pos(o, d);
        assert(o.take(d) =~= bp);
        assert(o.skip(d + 1) =~= bq);
        lemma_part_of_bracketed(p);
        lemma_part_of_bracketed(q);
    }
}

/// An accepted name holds only name characters, `[`, `]` and `.`: no quote,
/// semicolon, comment dash or white space can reach the DDL text.
pub proof fn law_ident_output_charset(raw: Seq<char>)
    ensures
        qualified_ident(raw) matches Ok(o) ==> forall|i: int|
            0 <= i < o.len() ==> ident_char(#[trigger] o[i]) || o[i] == '[' || o[i] == ']' || o[i]
                == '.',
{
    law_ident_output_shape(raw);
    if let Ok(o) = qualified_ident(raw) {
        if exists|p: Seq<char>| valid_body(p) && o == bracketed(p) {
            let p = choose|p: Seq<char>| valid_body(p) && o == bracketed(p);
            assert forall|i: int| 0 <= i < o.len() implies ident_char(#[trigger] o[i]) || o[i]
                == '[' || o[i] == ']' || o[i] == '.' by {
                if 1 <= i < o.len() - 1 {
                    assert(o[i] == p[i - 1]);
                }
            }
        } else {
            let (p, q) = choose|p: Seq<char>, q: Seq<char>|
                valid_body(p) && valid_body(q) && o == bracketed(p) + seq!['.'] + bracketed(q);
            assert forall|i: int| 0 <= i < o.len() implies ident_char(#[trigger] o[i]) || o[i]
                == '[' || o[i] == ']' || o[i] == '.' by {
                if 1 <= i < p.len() + 1 {
                    assert(o[i] == p[i - 1]);
                } else if p.len() + 4 <= i < o.len() - 1 {
                    assert(o[i] == q[i - p.len() - 4]);
                }
            }
        }
    }
}

/// One character of `s` as quoting writes it: `c` doubled, any other kept.
pub open spec fn doubled_piece(x: char, c: char) -> Seq<char> {
    if x == c {
        seq![c, c]
    } else {
        seq![x]
    }
}

/// `s` with every `c` doubled (`str::replace(c, cc)`).
pub open spec fn doubled(s: Seq<char>, c: char) -> Seq<char>
    decreases s.len(),
{
    if s.len() == 0 {
        Seq::empty()
    } else {
        doubled_piece(s[0], c) + doubled(s.drop_first(), c)
    }
}

pub proof fn lemma_doubled_push(s: Seq<char>, x: char, c: char)
    ensures
        doubled(s.push(x), c) == doubled(s, c) + doubled_piece(x, c),
    decreases s.len(),
{
    if s.len() == 0 {
        assert(s.push(x).drop_first() =~= Seq::<char>::empty());
        assert(doubled(Seq::<char>::empty(), c) == Seq::<char>::empty());
        assert(s.push(x)[0] == x);
        assert(doubled(s.push(x), c) =~= doubled_piece(x, c) + doubled(Seq::<char>::empty(), c));
        assert(doubled(s.push(x), c) =~= doubled_piece(x, c));
        assert(doubled(s, c) + doubled_piece(x, c) =~= doubled_piece(x, c));
    } else {
        lemma_doubled_push(s.drop_first(), x, c);
        assert(s.push(x).drop_first() =~= s.drop_first().push(x));
        assert(doubled(s.push(x), c) =~= doubled(s, c) + doubled_piece(x, c));
    }
}

/// Appends `s` with every `c` doubled; `pair` is `cc`.
fn append_doubled(out: &mut String, s: &str, c: char, pair: &str)
    requires
        pair@ == seq![c, c],
    ensures
        final(out)@ == old(out)@ + doubled(s@, c),
{
    let n = s.unicode_len();
    let ghost start = out@;
    let mut i: usize = 0;
    assert(s@.take(0) =~= Seq::<char>::empty());
    while i < n
        invariant
            n == s@.len(),
            i <= n,
            pair@ == seq![c, c],
            out@ == start + doubled(s@.take(i as int), c),
        decreases n - i,
    {
        let x = s.get_char(i);
        proof {
            lemma_doubled_push(s@.take(i as int), x, c);
            assert(s@.take(i + 1) =~= s@.take(i as int).push(x));
        }
        if x == c {
            out.append(pair);
        } else {
            let one = s.substring_char(i, i + 1);
            assert(one@ =~= seq![x]);
            out.append(one);
        }
        i = i + 1;
    }
    assert(s@.take(n as int) =~= s@);
}

/// The SQL text of a Unicode string literal: `N'...'` with every `'` doubled.
pub open spec fn sql_literal_text(s: Seq<char>) -> Seq<char> {
    seq!['N', '\''] + doubled(s, '\'') + seq!['\'']
}

/// A value as an `N'...'` SQL literal, with its single quotes doubled; used for
/// the preview text only (execution passes values as parameters).
pub fn sql_literal(s: &str) -> (r: String)
    ensures
        r@ == sql_literal_text(s@),
{
    let mut r = String::from_str("N'");
    proof {
        reveal_strlit("N'");
        reveal_strlit("''");
        reveal_strlit("'");
    }
    assert("''"@ =~= seq!['\'', '\'']);
    append_doubled(&mut r, s, '\'', "''");
    r.append("'");
    assert(r@ =~= sql_literal_text(s@));
    r
}

/// What `quote_database_ident` gives for `raw`: `[name]` with every `]` doubled,
/// or the error text.
pub open spec fn quoted_database_name(raw: Seq<char>) -> Result<Seq<char>, Seq<char>> {
    let n = trim(raw);
    if n.len() == 0 {
        Err("Veritabanı adı boş."@)
    } else if exists|i: int| 0 <= i < n.len() && is_control(#[trigger] n[i]) {
        Err("Veritabanı adı kontrol karakteri içeremez."@)
    } else {
        Ok(seq!['['] + doubled(n, ']') + seq![']'])
    }
}

fn has_control(cs: &Vec<char>, a: usize, b: usize) -> (r: bool)
    requires
        a <= b <= cs.len(),
    ensures
        r == exists|i: int| a <= i < b && is_control(#[trigger] cs@[i]),
{
    let mut i = a;
    while i < b
        invariant
            a <= i <= b <= cs.len(),
            forall|k: int| a <= k < i ==> !is_control(#[trigger] cs@[k]),
        decreases b - i,
    {
        if char_is_control(cs[i]) {
            return true;
        }
        i = i + 1;
    }
    false
}

/// A database name quoted for DDL (it cannot be a parameter): trimmed, refused
/// when empty or when it holds a control character, else `[name]` with every
/// `]` doubled, as SQL Server's quoting rule asks.
pub fn quote_database_ident(raw: &str) -> (res: Result<String, String>)
    ensures
        match res {
            Ok(o) => quoted_database_name(raw@) == Ok::<Seq<char>, Seq<char>>(o@),
            Err(e) => quoted_database_name(raw@) == Err::<Seq<char>, Seq<char>>(e@),
        },
{
    let cs = to_chars(raw);
    let n = cs.len();
    let (a, b) = trim_range(&cs, 0, n);
    assert(cs@.subrange(0, n as int) =~= raw@);
    let name = raw.substring_char(a, b);
    let ghost nv = name@;
    assert(nv == cs@.subrange(a as int, b as int));
    if a == b {
        return Err(String::from_str("Veritabanı adı boş."));
    }
    if has_control(&cs, a, b) {
        proof {
            let i = choose|i: int| a <= i < b && is_control(#[trigger] cs@[i]);
            assert(nv[i - a] == cs@[i]);
        }
        return Err(String::from_str("Veritabanı adı kontrol karakteri içeremez."));
    }
    assert forall|i: int| 0 <= i < nv.len() implies !is_control(#[trigger] nv[i]) by {
        assert(nv[i] == cs@[i + a]);
    }
    let mut o = String::from_str("[");
    proof {
        reveal_strlit("[");
        reveal_strlit("]]");
        reveal_strlit("]");
    }
    assert("]]"@ =~= seq![']', ']']);
    append_doubled(&mut o, name, ']', "]]");
    o.append("]");
    assert(o@ =~= seq!['['] + doubled(nv, ']') + seq![']']);
    Ok(o)
}

/// Reads a quoted body up to its closing `c`, as SQL does: `cc` stands for one
/// `c`, a lone `c` ends the body. Gives the body and the text after it.
pub open spec fn read_quoted(s: Seq<char>, c: char) -> Option<(Seq<char>, Seq<char>)>
    decreases s.len(),
{
    if s.len() == 0 {
        None
    } else if s[0] == c {
        if s.len() >= 2 && s[1] == c {
            match read_quoted(s.skip(2), c) {
                Some((b, r)) => Some((seq![c] + b, r)),
                None => None,
            }
        } else {
            Some((Seq::empty(), s.skip(1)))
        }
    } else {
        match read_quoted(s.skip(1), c) {
            Some((b, r)) => Some((seq![s[0]] + b, r)),
            None => None,
        }
    }
}

/// A value quoted by doubling `c` and closed by one `c` reads back as exactly
/// that value, and the reading stops at the closing `c`, whatever text follows
/// (unless that text itself begins with `c`): a value cannot end its literal
/// early nor run on into the SQL after it.
pub proof fn law_doubled_reads_back(s: Seq<char>, c: char, rest: Seq<char>)
    requires
        rest.len() == 0 || rest[0] != c,
    ensures
        read_quoted(doubled(s, c) + seq![c] + rest, c) == Some((s, rest)),
    decreases s.len(),
{
    let w = doubled(s, c) + seq![c] + rest;
    if s.len() == 0 {
        assert(w =~= seq![c] + rest);
        assert(w.skip(1) =~= rest);
        assert(s =~= Seq::<char>::empty());
    } else {
        law_doubled_reads_back(s.drop_first(), c, rest);
        let tail = doubled(s.drop_first(), c) + seq![c] + rest;
        if s[0] == c {
            assert(w =~= seq![c, c] + tail);
            assert(w.skip(2) =~= tail);
        } else {
            assert(w =~= seq![s[0]] + tail);
            assert(w.skip(1) =~= tail);
        }
        assert(seq![s[0]] + s.drop_first() =~= s);
    }
}


/// A plain SQL name part: an ASCII letter or `_`, then ASCII letters, digits,
/// `_`, `$` or `#`.
pub open spec fn plain_part(p: Seq<char>) -> bool {
    &&& p.len() > 0
    &&& (is_ascii_alpha(p[0]) || p[0] == '_')
    &&& forall|i: int|
        0 <= i < p.len() ==> is_ascii_alnum(#[trigger] p[i]) || p[i] == '_' || p[i] == '$' || p[i] == '#'
}

proof fn lemma_plain_part(p: Seq<char>)
    requires
        plain_part(p),
    ensures
        part_body(p) == Ok::<Seq<char>, PartFault>(p),
        count_of(p, '.') == 0,
        !is_ws(p[0]),
        !is_ws(p.last()),
        p[0] != '[',
        p.last() != ']',
{
    assert(is_ascii_alnum(p[p.len() - 1]) || p[p.len() - 1] == '_' || p[p.len() - 1] == '$'
        || p[p.len() - 1] == '#');
    lemma_trim_noop(p);
    assert forall|i: int| 0 <= i < p.len() implies ident_char(#[trigger] p[i]) by {
        assert(is_ascii_alnum(p[i]) || p[i] == '_' || p[i] == '$' || p[i] == '#');
    }
    assert(all_ident_chars(p));
    assert forall|i: int| 0 <= i < p.len() implies p[i] != '.' by {
        assert(is_ascii_alnum(p[i]) || p[i] == '_' || p[i] == '$' || p[i] == '#');
    }
    lemma_count_of_zero(p, '.');
}

/// Plain names are accepted as they are: a plain part `p` comes back as
/// `[p]`, and `p.q` of two plain parts as `[p].[q]`. Every ASCII letter and
/// digit, `_`, `$` and `#` can stand in a name.
pub proof fn law_plain_names_accepted(p: Seq<char>, q: Seq<char>)
    requires
        plain_part(p),
        plain_part(q),
    ensures
        qualified_ident(p) == Ok::<Seq<char>, Seq<char>>(seq!['['] + p + seq![']']),
        qualified_ident(p + seq!['.'] + q) == Ok::<Seq<char>, Seq<char>>(
            seq!['['] + p + seq![']', '.', '['] + q + seq![']'],
        ),
{
    lemma_plain_part(p);
    lemma_plain_part(q);
    lemma_trim_noop(p);
    let t = p + seq!['.'] + q;
    assert(t[0] == p[0]);
    assert(t.last() == q.last());
    lemma_trim_noop(t);
    let dot = seq!['.'];
    assert(dot.drop_last() =~= Seq::<char>::empty());
    assert(count_of(Seq::<char>::empty(), '.') == 0);
    assert(count_of(dot, '.') == 1);
    lemma_count_of_concat(p, dot, '.');
    lemma_count_of_concat(p + dot, q, '.');
    let d = p.len() as int;
    assert(t[d] == '.');
    lemma_dot_pos(t, d);
    assert(t.take(d) =~= p);
    assert(t.skip(d + 1) =~= q);
    assert(bracketed(p) + seq!['.'] + bracketed(q) =~= seq!['['] + p + seq![']', '.', '['] + q + seq![']']);
}


/// An accepted name holds only ASCII letters and digits, `_`, `$`, `#`, and
/// the `[`, `]` and `.` that the validation writes.
pub proof fn law_ident_output_plain(raw: Seq<char>)
    ensures
        qualified_ident(raw) matches Ok(o) ==> forall|i: int|
            0 <= i < o.len() ==> is_ascii_alnum(#[trigger] o[i]) || o[i] == '_' || o[i] == '$' || o[i]
                == '#' || o[i] == '[' || o[i] == ']' || o[i] == '.',
{
    law_ident_output_charset(raw);
}

} // verus!
