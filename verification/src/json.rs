use vstd::prelude::*;

use crate::chartext::all_digit_chars;
use crate::chartext::dec_digits;
use crate::chartext::digits_val;
use crate::chartext::is_digit_char;
use crate::chartext::lemma_digits_val_nonneg;
use crate::chartext::lemma_take_digits_of_concat;
use crate::chartext::push_char;
use crate::chartext::take_digits;

verus! {

// The token endpoint and the token cache speak a small JSON dialect:
// one flat object whose members are strings or non-negative integers.
// This module gives that dialect an exact grammar (the `parse_*` spec
// functions below) and a verified reader and writer for it.

/// A member value: a string or a non-negative integer.
pub enum FieldVal {
    Str(String),
    Num(u64),
}

/// The mathematical value of a `FieldVal`.
pub enum FieldValV {
    Str(Seq<char>),
    Num(u64),
}

impl View for FieldVal {
    type V = FieldValV;

    open spec fn view(&self) -> FieldValV {
        match self {
            FieldVal::Str(s) => FieldValV::Str(s@),
            FieldVal::Num(n) => FieldValV::Num(*n),
        }
    }
}

/// The views of a sequence of key/value pairs.
pub open spec fn pairs_view(ps: Seq<(String, FieldVal)>) -> Seq<(Seq<char>, FieldValV)> {
    Seq::new(ps.len(), |i: int| (ps[i].0@, ps[i].1@))
}

pub open spec fn is_ws_char(c: char) -> bool {
    c == ' ' || c == '\n' || c == '\t' || c == '\r'
}

/// Drops leading whitespace.
pub open spec fn skip_ws(s: Seq<char>) -> Seq<char>
    decreases s.len(),
{
    if s.len() > 0 && is_ws_char(s[0]) {
        skip_ws(s.drop_first())
    } else {
        s
    }
}

/// A string content with `"` and `\` preceded by a backslash.
pub open spec fn escape_chars(s: Seq<char>) -> Seq<char>
    decreases s.len(),
{
    if s.len() == 0 {
        Seq::empty()
    } else {
        let head: Seq<char> = if s[0] == '"' || s[0] == '\\' {
            seq!['\\', s[0]]
        } else {
            seq![s[0]]
        };
        head + escape_chars(s.drop_first())
    }
}

/// A string literal: quoted, escaped content.
pub open spec fn quote_chars(s: Seq<char>) -> Seq<char> {
    seq!['"'] + escape_chars(s) + seq!['"']
}

/// Reads a string body after its opening quote; yields the unescaped
/// content and what follows the closing quote.
pub open spec fn parse_str_body(s: Seq<char>) -> Option<(Seq<char>, Seq<char>)>
    decreases s.len(),
{
    if s.len() == 0 {
        None
    } else if s[0] == '"' {
        Some((Seq::empty(), s.drop_first()))
    } else if s[0] == '\\' {
        if s.len() >= 2 && (s[1] == '"' || s[1] == '\\') {
            match parse_str_body(s.subrange(2, s.len() as int)) {
                Some((t, r)) => Some((seq![s[1]] + t, r)),
                None => None,
            }
        } else {
            None
        }
    } else {
        match parse_str_body(s.drop_first()) {
            Some((t, r)) => Some((seq![s[0]] + t, r)),
            None => None,
        }
    }
}

pub open spec fn parse_string(s: Seq<char>) -> Option<(Seq<char>, Seq<char>)> {
    if s.len() > 0 && s[0] == '"' {
        parse_str_body(s.drop_first())
    } else {
        None
    }
}

/// Reads a non-negative integer that fits in a `u64`.
pub open spec fn parse_number(s: Seq<char>) -> Option<(u64, Seq<char>)> {
    let (ds, rest) = take_digits(s);
    if ds.len() > 0 && digits_val(ds) <= u64::MAX {
        Some((digits_val(ds) as u64, rest))
    } else {
        None
    }
}

pub open spec fn parse_value(s: Seq<char>) -> Option<(FieldValV, Seq<char>)> {
    if s.len() == 0 {
        None
    } else if s[0] == '"' {
        match parse_str_body(s.drop_first()) {
            Some((t, r)) => Some((FieldValV::Str(t), r)),
            None => None,
        }
    } else if is_digit_char(s[0]) {
        match parse_number(s) {
            Some((n, r)) => Some((FieldValV::Num(n), r)),
            None => None,
        }
    } else {
        None
    }
}

/// Reads one `"key" : value` member.
pub open spec fn parse_pair(s: Seq<char>) -> Option<((Seq<char>, FieldValV), Seq<char>)> {
    match parse_string(s) {
        Some((k, r1)) => {
            let r2 = skip_ws(r1);
            if r2.len() > 0 && r2[0] == ':' {
                let r3 = skip_ws(r2.drop_first());
                match parse_value(r3) {
                    Some((v, r4)) => Some(((k, v), r4)),
                    None => None,
                }
            } else {
                None
            }
        },
        None => None,
    }
}

pub proof fn lemma_skip_ws_len(s: Seq<char>)
    ensures
        skip_ws(s).len() <= s.len(),
    decreases s.len(),
{
    if s.len() > 0 && is_ws_char(s[0]) {
        lemma_skip_ws_len(s.drop_first());
    }
}

pub proof fn lemma_parse_str_body_len(s: Seq<char>)
    ensures
        parse_str_body(s) matches Some((t, r)) ==> r.len() < s.len(),
    decreases s.len(),
{
    if s.len() > 0 && s[0] == '\\' {
        if s.len() >= 2 && (s[1] == '"' || s[1] == '\\') {
            lemma_parse_str_body_len(s.subrange(2, s.len() as int));
        }
    } else if s.len() > 0 && s[0] != '"' {
        lemma_parse_str_body_len(s.drop_first());
    }
}

pub proof fn lemma_take_digits_len(s: Seq<char>)
    ensures
        take_digits(s).0.len() + take_digits(s).1.len() == s.len(),
        all_digit_chars(take_digits(s).0),
    decreases s.len(),
{
    if s.len() > 0 && is_digit_char(s[0]) {
        lemma_take_digits_len(s.drop_first());
        assert(all_digit_chars(take_digits(s).0)) by {
            let d = take_digits(s.drop_first()).0;
            assert forall|i: int| 0 <= i < take_digits(s).0.len() implies is_digit_char(
                take_digits(s).0[i],
            ) by {
                if i > 0 {
                    assert(take_digits(s).0[i] == d[i - 1]);
                }
            }
        }
    }
}

pub proof fn lemma_parse_value_len(s: Seq<char>)
    ensures
        parse_value(s) matches Some((v, r)) ==> r.len() < s.len(),
{
    if s.len() > 0 {
        if s[0] == '"' {
            lemma_parse_str_body_len(s.drop_first());
        } else if is_digit_char(s[0]) {
            lemma_take_digits_len(s);
        }
    }
}

pub proof fn lemma_parse_pair_len(s: Seq<char>)
    ensures
        parse_pair(s) matches Some((p, r)) ==> r.len() < s.len(),
{
    if s.len() > 0 && s[0] == '"' {
        lemma_parse_str_body_len(s.drop_first());
        match parse_string(s) {
            Some((k, r1)) => {
                lemma_skip_ws_len(r1);
                let r2 = skip_ws(r1);
                if r2.len() > 0 && r2[0] == ':' {
                    lemma_skip_ws_len(r2.drop_first());
                    lemma_parse_value_len(skip_ws(r2.drop_first()));
                }
            },
            None => {},
        }
    }
}

/// Reads a non-empty member list; yields the members and what follows
/// them, with any whitespace after the last member already dropped.
pub open spec fn parse_members(s: Seq<char>) -> Option<
    (Seq<(Seq<char>, FieldValV)>, Seq<char>),
>
    decreases s.len(),
{
    match parse_pair(s) {
        Some((p, r)) => {
            let r1 = skip_ws(r);
            if r1.len() > 0 && r1[0] == ',' {
                let r2 = skip_ws(r1.drop_first());
                proof {
                    lemma_parse_pair_len(s);
                    lemma_skip_ws_len(r);
                    lemma_skip_ws_len(r1.drop_first());
                }
                match parse_members(r2) {
                    Some((ps, r3)) => Some((seq![p] + ps, r3)),
                    None => None,
                }
            } else {
                Some((seq![p], r1))
            }
        },
        None => None,
    }
}

/// The members of a complete object, or `None` if the characters are
/// not exactly one object of this dialect.
pub open spec fn parse_object(s: Seq<char>) -> Option<Seq<(Seq<char>, FieldValV)>> {
    let s1 = skip_ws(s);
    if s1.len() > 0 && s1[0] == '{' {
        let s2 = skip_ws(s1.drop_first());
        if s2.len() > 0 && s2[0] == '}' {
            if skip_ws(s2.drop_first()).len() == 0 {
                Some(Seq::empty())
            } else {
                None
            }
        } else {
            match parse_members(s2) {
                Some((ps, r)) => {
                    if r.len() > 0 && r[0] == '}' && skip_ws(r.drop_first()).len() == 0 {
                        Some(ps)
                    } else {
                        None
                    }
                },
                None => None,
            }
        }
    } else {
        None
    }
}

/// The value of the first member named `key`.
pub open spec fn lookup(ps: Seq<(Seq<char>, FieldValV)>, key: Seq<char>) -> Option<FieldValV>
    decreases ps.len(),
{
    if ps.len() == 0 {
        None
    } else if ps[0].0 == key {
        Some(ps[0].1)
    } else {
        lookup(ps.drop_first(), key)
    }
}

pub open spec fn lookup_str(ps: Seq<(Seq<char>, FieldValV)>, key: Seq<char>) -> Option<Seq<char>> {
    match lookup(ps, key) {
        Some(FieldValV::Str(s)) => Some(s),
        _ => None,
    }
}

pub open spec fn lookup_num(ps: Seq<(Seq<char>, FieldValV)>, key: Seq<char>) -> Option<u64> {
    match lookup(ps, key) {
        Some(FieldValV::Num(n)) => Some(n),
        _ => None,
    }
}

/// The characters of a `"key":"value"` member.
pub open spec fn str_member(k: Seq<char>, v: Seq<char>) -> Seq<char> {
    quote_chars(k) + seq![':'] + quote_chars(v)
}

/// The characters of a `"key":number` member.
pub open spec fn num_member(k: Seq<char>, n: int) -> Seq<char> {
    quote_chars(k) + seq![':'] + dec_digits(n)
}

/// Escaping distributes over concatenation.
pub proof fn lemma_escape_append(a: Seq<char>, b: Seq<char>)
    ensures
        escape_chars(a + b) == escape_chars(a) + escape_chars(b),
    decreases a.len(),
{
    if a.len() == 0 {
        assert(a + b =~= b);
        assert(escape_chars(a) + escape_chars(b) =~= escape_chars(b));
    } else {
        lemma_escape_append(a.drop_first(), b);
        assert((a + b).drop_first() =~= a.drop_first() + b);
        assert(escape_chars(a + b) =~= escape_chars(a) + escape_chars(b));
    }
}

/// Unescaping inverts escaping: a string body written by `escape_chars`
/// and closed with a quote reads back as the original content.
pub proof fn lemma_escape_len(s: Seq<char>)
    ensures
        escape_chars(s).len() <= 2 * s.len(),
    decreases s.len(),
{
    if s.len() > 0 {
        lemma_escape_len(s.drop_first());
    }
}

pub proof fn lemma_parse_str_body_of_escaped(t: Seq<char>, rest: Seq<char>)
    ensures
        parse_str_body(escape_chars(t) + seq!['"'] + rest) == Some((t, rest)),
    decreases t.len(),
{
    let s = escape_chars(t) + seq!['"'] + rest;
    if t.len() == 0 {
        assert(s =~= seq!['"'] + rest);
        assert(s[0] == '"');
        assert(s.drop_first() =~= rest);
    } else {
        let c = t[0];
        let t1 = t.drop_first();
        lemma_parse_str_body_of_escaped(t1, rest);
        if c == '"' || c == '\\' {
            assert(escape_chars(t) =~= seq!['\\', c] + escape_chars(t1));
            assert(s =~= seq!['\\', c] + (escape_chars(t1) + seq!['"'] + rest));
            assert(s[0] == '\\' && s[1] == c && s.len() >= 2);
            assert(s.subrange(2, s.len() as int) =~= escape_chars(t1) + seq!['"'] + rest);
            assert(seq![c] + t1 =~= t);
        } else {
            assert(escape_chars(t) =~= seq![c] + escape_chars(t1));
            assert(s =~= seq![c] + (escape_chars(t1) + seq!['"'] + rest));
            assert(s[0] == c);
            assert(s.drop_first() =~= escape_chars(t1) + seq!['"'] + rest);
            assert(seq![c] + t1 =~= t);
        }
    }
}

pub proof fn lemma_parse_string_of_quoted(t: Seq<char>, rest: Seq<char>)
    ensures
        parse_string(quote_chars(t) + rest) == Some((t, rest)),
{
    let s = quote_chars(t) + rest;
    assert(s[0] == '"');
    assert(s.drop_first() =~= escape_chars(t) + seq!['"'] + rest);
    lemma_parse_str_body_of_escaped(t, rest);
}

/// A written decimal number reads back as itself, as long as no digit
/// follows it directly.
pub proof fn lemma_parse_number_of_digits(n: int, rest: Seq<char>)
    requires
        0 <= n <= u64::MAX,
        rest.len() == 0 || !is_digit_char(rest[0]),
    ensures
        parse_number(dec_digits(n) + rest) == Some((n as u64, rest)),
{
    crate::chartext::lemma_dec_digits_wf(n);
    lemma_take_digits_of_concat(dec_digits(n), rest);
    crate::chartext::lemma_digits_val_of_dec_digits(n);
}

pub proof fn lemma_skip_ws_no_ws(s: Seq<char>)
    requires
        s.len() == 0 || !is_ws_char(s[0]),
    ensures
        skip_ws(s) == s,
{
}

/// A written string member reads back as one pair.
pub proof fn lemma_parse_pair_of_str_member(k: Seq<char>, v: Seq<char>, rest: Seq<char>)
    ensures
        parse_pair(str_member(k, v) + rest) == Some(((k, FieldValV::Str(v)), rest)),
{
    let s = str_member(k, v) + rest;
    let after_key = seq![':'] + (quote_chars(v) + rest);
    assert(s =~= quote_chars(k) + after_key);
    lemma_parse_string_of_quoted(k, after_key);
    lemma_skip_ws_no_ws(after_key);
    assert(after_key[0] == ':');
    let r3 = after_key.drop_first();
    assert(r3 =~= quote_chars(v) + rest);
    assert(r3[0] == '"');
    lemma_skip_ws_no_ws(r3);
    lemma_parse_string_of_quoted(v, rest);
    assert(r3.drop_first() =~= escape_chars(v) + seq!['"'] + rest);
    lemma_parse_str_body_of_escaped(v, rest);
}

/// A written number member reads back as one pair.
pub proof fn lemma_parse_pair_of_num_member(k: Seq<char>, n: int, rest: Seq<char>)
    requires
        0 <= n <= u64::MAX,
        rest.len() == 0 || !is_digit_char(rest[0]),
    ensures
        parse_pair(num_member(k, n) + rest) == Some(((k, FieldValV::Num(n as u64)), rest)),
{
    let s = num_member(k, n) + rest;
    let after_key = seq![':'] + (dec_digits(n) + rest);
    assert(s =~= quote_chars(k) + after_key);
    lemma_parse_string_of_quoted(k, after_key);
    lemma_skip_ws_no_ws(after_key);
    assert(after_key[0] == ':');
    let r3 = after_key.drop_first();
    assert(r3 =~= dec_digits(n) + rest);
    crate::chartext::lemma_dec_digits_wf(n);
    assert(is_digit_char(r3[0]));
    assert(r3[0] != '"') by {
        assert(r3[0] == dec_digits(n)[0]);
    }
    lemma_skip_ws_no_ws(r3);
    lemma_parse_number_of_digits(n, rest);
}

// --- the executable reader ---

fn is_ws_exec(c: char) -> (b: bool)
    ensures
        b == is_ws_char(c),
{
    c == ' ' || c == '\n' || c == '\t' || c == '\r'
}

fn is_digit_exec(c: char) -> (b: bool)
    ensures
        b == is_digit_char(c),
{
    '0' <= c && c <= '9'
}

/// Advances past whitespace; the suffix at the returned position is the
/// suffix at `i` with leading whitespace dropped.
fn ws_end(v: &Vec<char>, i: usize) -> (r: usize)
    requires
        i <= v@.len(),
    ensures
        i <= r <= v@.len(),
        v@.skip(r as int) == skip_ws(v@.skip(i as int)),
{
    let mut r = i;
    while r < v.len() && is_ws_exec(v[r])
        invariant
            i <= r <= v@.len(),
            skip_ws(v@.skip(i as int)) == skip_ws(v@.skip(r as int)),
        decreases v@.len() - r,
    {
        assert(v@.skip(r as int).drop_first() =~= v@.skip(r + 1));
        r += 1;
    }
    proof {
        let s = v@.skip(r as int);
        if r < v@.len() {
            assert(s[0] == v@[r as int]);
        }
        assert(skip_ws(s) == s);
    }
    r
}

/// Reads a string body that begins at `i` (just after the opening quote).
fn read_str_body(v: &Vec<char>, i: usize) -> (r: Option<(String, usize)>)
    requires
        i <= v@.len(),
    ensures
        match r {
            Some(p) => p.1 <= v@.len() && parse_str_body(v@.skip(i as int)) == Some(
                (p.0@, v@.skip(p.1 as int)),
            ),
            None => parse_str_body(v@.skip(i as int)) is None,
        },
{
    let mut out = String::new();
    let mut j = i;
    loop
        invariant
            i <= j <= v@.len(),
            match parse_str_body(v@.skip(j as int)) {
                Some(p) => parse_str_body(v@.skip(i as int)) == Some((out@ + p.0, p.1)),
                None => parse_str_body(v@.skip(i as int)) is None,
            },
        decreases v@.len() - j,
    {
        if j >= v.len() {
            return None;
        }
        let c = v[j];
        assert(v@.skip(j as int)[0] == c);
        if c == '"' {
            assert(v@.skip(j as int).drop_first() =~= v@.skip(j + 1));
            assert(out@ + Seq::<char>::empty() =~= out@);
            return Some((out, j + 1));
        } else if c == '\\' {
            if j + 1 < v.len() && (v[j + 1] == '"' || v[j + 1] == '\\') {
                let c2 = v[j + 1];
                proof {
                    let s = v@.skip(j as int);
                    assert(s.len() >= 2 && s[1] == c2);
                    assert(s.subrange(2, s.len() as int) =~= v@.skip(j + 2));
                }
                push_char(&mut out, c2);
                proof {
                    match parse_str_body(v@.skip(j + 2)) {
                        Some(p) => {
                            assert(out@ + p.0 =~= out@.drop_last() + (seq![c2] + p.0));
                        },
                        None => {},
                    }
                }
                j += 2;
            } else {
                proof {
                    let s = v@.skip(j as int);
                    if s.len() >= 2 {
                        assert(s[1] == v@[j + 1]);
                    }
                }
                return None;
            }
        } else {
            assert(v@.skip(j as int).drop_first() =~= v@.skip(j + 1));
            push_char(&mut out, c);
            proof {
                match parse_str_body(v@.skip(j + 1)) {
                    Some(p) => {
                        assert(out@ + p.0 =~= out@.drop_last() + (seq![c] + p.0));
                    },
                    None => {},
                }
            }
            j += 1;
        }
    }
}

fn digit_val_exec(c: char) -> (r: u64)
    requires
        is_digit_char(c),
    ensures
        r == crate::chartext::digit_of(c),
        r < 10,
{
    ((c as u32) - 48) as u64
}

/// Reads a number that begins at `i`.
fn read_number(v: &Vec<char>, i: usize) -> (r: Option<(u64, usize)>)
    requires
        i <= v@.len(),
    ensures
        match r {
            Some(p) => p.1 <= v@.len() && parse_number(v@.skip(i as int)) == Some(
                (p.0, v@.skip(p.1 as int)),
            ),
            None => parse_number(v@.skip(i as int)) is None,
        },
{
    let mut e = i;
    while e < v.len() && is_digit_exec(v[e])
        invariant
            i <= e <= v@.len(),
            forall|k: int| i <= k < e ==> is_digit_char(v@[k]),
        decreases v@.len() - e,
    {
        e += 1;
    }
    let ghost ds = v@.subrange(i as int, e as int);
    proof {
        assert(v@.skip(i as int) =~= ds + v@.skip(e as int));
        assert(all_digit_chars(ds));
        lemma_take_digits_of_concat(ds, v@.skip(e as int));
    }
    if e == i {
        return None;
    }
    let mut acc: u64 = 0;
    let mut k = i;
    while k < e
        invariant
            i <= k <= e <= v@.len(),
            ds == v@.subrange(i as int, e as int),
            ds.len() > 0,
            all_digit_chars(ds),
            take_digits(v@.skip(i as int)) == (ds, v@.skip(e as int)),
            forall|m: int| i <= m < e ==> is_digit_char(v@[m]),
            acc == digits_val(v@.subrange(i as int, k as int)),
        decreases e - k,
    {
        let d = digit_val_exec(v[k]);
        proof {
            let p = v@.subrange(i as int, k + 1);
            assert(p.drop_last() =~= v@.subrange(i as int, k as int));
            assert(p.last() == v@[k as int]);
        }
        if acc > (u64::MAX - d) / 10 {
            proof {
                assert(acc * 10 + d > u64::MAX) by {
                    assert(acc >= (u64::MAX - d) / 10 + 1);
                    assert(((u64::MAX - d) / 10 + 1) * 10 == ((u64::MAX - d) / 10) * 10 + 10);
                    assert(acc * 10 >= ((u64::MAX - d) / 10 + 1) * 10) by (nonlinear_arith)
                        requires
                            acc >= (u64::MAX - d) / 10 + 1,
                    ;
                    assert(((u64::MAX - d) / 10) * 10 + (u64::MAX - d) % 10 == u64::MAX - d);
                }
                assert(digits_val(v@.subrange(i as int, k + 1)) > u64::MAX);
                assert(v@.subrange(i as int, k + 1) =~= ds.subrange(0, k + 1 - i));
                crate::chartext::lemma_digits_val_grows(ds, k + 1 - i);
            }
            return None;
        }
        proof {
            assert(acc * 10 + d <= u64::MAX) by {
                assert(acc <= (u64::MAX - d) / 10);
                assert(acc * 10 <= ((u64::MAX - d) / 10) * 10) by (nonlinear_arith)
                    requires
                        acc <= (u64::MAX - d) / 10,
                ;
                assert(((u64::MAX - d) / 10) * 10 + (u64::MAX - d) % 10 == u64::MAX - d);
            }
        }
        acc = acc * 10 + d;
        k += 1;
    }
    proof {
        assert(v@.subrange(i as int, e as int) == ds);
        lemma_digits_val_nonneg(ds);
    }
    Some((acc, e))
}

/// Reads one value (string or number) that begins at `i`.
fn read_value(v: &Vec<char>, i: usize) -> (r: Option<(FieldVal, usize)>)
    requires
        i <= v@.len(),
    ensures
        match r {
            Some(p) => p.1 <= v@.len() && parse_value(v@.skip(i as int)) == Some(
                (p.0@, v@.skip(p.1 as int)),
            ),
            None => parse_value(v@.skip(i as int)) is None,
        },
{
    if i >= v.len() {
        return None;
    }
    let c = v[i];
    assert(v@.skip(i as int)[0] == c);
    if c == '"' {
        assert(v@.skip(i as int).drop_first() =~= v@.skip(i + 1));
        match read_str_body(v, i + 1) {
            Some((s, j)) => Some((FieldVal::Str(s), j)),
            None => None,
        }
    } else if is_digit_exec(c) {
        match read_number(v, i) {
            Some((n, j)) => Some((FieldVal::Num(n), j)),
            None => None,
        }
    } else {
        None
    }
}

/// Reads one `"key" : value` member that begins at `i`.
fn read_pair(v: &Vec<char>, i: usize) -> (r: Option<((String, FieldVal), usize)>)
    requires
        i <= v@.len(),
    ensures
        match r {
            Some(p) => p.1 <= v@.len() && parse_pair(v@.skip(i as int)) == Some(
                (((p.0).0@, (p.0).1@), v@.skip(p.1 as int)),
            ),
            None => parse_pair(v@.skip(i as int)) is None,
        },
{
    if i >= v.len() {
        return None;
    }
    let c = v[i];
    assert(v@.skip(i as int)[0] == c);
    if c != '"' {
        return None;
    }
    assert(v@.skip(i as int).drop_first() =~= v@.skip(i + 1));
    let (key, j1) = match read_str_body(v, i + 1) {
        Some(p) => p,
        None => {
            return None;
        },
    };
    let j2 = ws_end(v, j1);
    if j2 >= v.len() {
        return None;
    }
    let c2 = v[j2];
    assert(v@.skip(j2 as int)[0] == c2);
    if c2 != ':' {
        return None;
    }
    assert(v@.skip(j2 as int).drop_first() =~= v@.skip(j2 + 1));
    let j3 = ws_end(v, j2 + 1);
    match read_value(v, j3) {
        Some((val, j4)) => Some(((key, val), j4)),
        None => None,
    }
}

/// Reads a non-empty member list that begins at `i`.
fn read_members(v: &Vec<char>, i: usize) -> (r: Option<(Vec<(String, FieldVal)>, usize)>)
    requires
        i <= v@.len(),
    ensures
        match r {
            Some(p) => p.1 <= v@.len() && parse_members(v@.skip(i as int)) == Some(
                (pairs_view(p.0@), v@.skip(p.1 as int)),
            ),
            None => parse_members(v@.skip(i as int)) is None,
        },
{
    let mut acc: Vec<(String, FieldVal)> = Vec::new();
    let mut cur = i;
    loop
        invariant
            i <= cur <= v@.len(),
            match parse_members(v@.skip(cur as int)) {
                Some(p) => parse_members(v@.skip(i as int)) == Some(
                    (pairs_view(acc@) + p.0, p.1),
                ),
                None => parse_members(v@.skip(i as int)) is None,
            },
        decreases v@.len() - cur,
    {
        let (p, j) = match read_pair(v, cur) {
            Some(p) => p,
            None => {
                return None;
            },
        };
        proof {
            lemma_parse_pair_len(v@.skip(cur as int));
        }
        let j1 = ws_end(v, j);
        let mut comma = false;
        if j1 < v.len() {
            let c = v[j1];
            assert(v@.skip(j1 as int)[0] == c);
            comma = c == ',';
        }
        let ghost pv = (p.0@, p.1@);
        if comma {
            assert(v@.skip(j1 as int).drop_first() =~= v@.skip(j1 + 1));
            let j2 = ws_end(v, j1 + 1);
            acc.push(p);
            proof {
                assert(pairs_view(acc@) =~= pairs_view(acc@.drop_last()).push(pv));
                match parse_members(v@.skip(j2 as int)) {
                    Some(q) => {
                        assert(pairs_view(acc@.drop_last()) + (seq![pv] + q.0) =~= pairs_view(acc@)
                            + q.0);
                    },
                    None => {},
                }
            }
            cur = j2;
        } else {
            acc.push(p);
            proof {
                assert(pairs_view(acc@) =~= pairs_view(acc@.drop_last()).push(pv));
                assert(pairs_view(acc@.drop_last()) + seq![pv] =~= pairs_view(acc@));
            }
            return Some((acc, j1));
        }
    }
}

/// Reads a whole object; yields its members exactly when the characters
/// form one object of the dialect.
pub fn read_object(v: &Vec<char>) -> (r: Option<Vec<(String, FieldVal)>>)
    ensures
        match r {
            Some(ps) => parse_object(v@) == Some(pairs_view(ps@)),
            None => parse_object(v@) is None,
        },
{
    proof {
        assert(v@.skip(0) =~= v@);
    }
    let i1 = ws_end(v, 0);
    if i1 >= v.len() {
        return None;
    }
    let c = v[i1];
    assert(v@.skip(i1 as int)[0] == c);
    if c != '{' {
        return None;
    }
    assert(v@.skip(i1 as int).drop_first() =~= v@.skip(i1 + 1));
    let i2 = ws_end(v, i1 + 1);
    if i2 < v.len() && v[i2] == '}' {
        assert(v@.skip(i2 as int)[0] == v@[i2 as int]);
        assert(v@.skip(i2 as int).drop_first() =~= v@.skip(i2 + 1));
        let i3 = ws_end(v, i2 + 1);
        if i3 == v.len() {
            let empty: Vec<(String, FieldVal)> = Vec::new();
            assert(pairs_view(empty@) =~= Seq::<(Seq<char>, FieldValV)>::empty());
            return Some(empty);
        } else {
            assert(v@.skip(i3 as int).len() > 0);
            return None;
        }
    }
    proof {
        if i2 < v@.len() {
            assert(v@.skip(i2 as int)[0] == v@[i2 as int]);
        }
    }
    let (ps, j) = match read_members(v, i2) {
        Some(p) => p,
        None => {
            return None;
        },
    };
    if j >= v.len() {
        return None;
    }
    let c2 = v[j];
    assert(v@.skip(j as int)[0] == c2);
    if c2 != '}' {
        return None;
    }
    assert(v@.skip(j as int).drop_first() =~= v@.skip(j + 1));
    let j1 = ws_end(v, j + 1);
    if j1 == v.len() {
        Some(ps)
    } else {
        assert(v@.skip(j1 as int).len() > 0);
        None
    }
}

/// The first member named `key`, when it is a string.
pub fn find_str(ps: &Vec<(String, FieldVal)>, key: &str) -> (r: Option<String>)
    ensures
        match r {
            Some(s) => lookup_str(pairs_view(ps@), key@) == Some(s@),
            None => lookup_str(pairs_view(ps@), key@) is None,
        },
{
    let keys = String::from_str(key);
    let mut idx: usize = 0;
    assert(pairs_view(ps@).skip(0) =~= pairs_view(ps@));
    while idx < ps.len()
        invariant
            idx <= ps@.len(),
            keys@ == key@,
            lookup(pairs_view(ps@), key@) == lookup(pairs_view(ps@).skip(idx as int), key@),
        decreases ps@.len() - idx,
    {
        proof {
            assert(pairs_view(ps@).skip(idx as int)[0] == pairs_view(ps@)[idx as int]);
            assert(pairs_view(ps@).skip(idx as int).drop_first() =~= pairs_view(ps@).skip(idx + 1));
        }
        if ps[idx].0 == keys {
            match &ps[idx].1 {
                FieldVal::Str(s) => {
                    return Some(s.clone());
                },
                FieldVal::Num(_) => {
                    return None;
                },
            }
        }
        idx += 1;
    }
    assert(pairs_view(ps@).skip(idx as int) =~= Seq::<(Seq<char>, FieldValV)>::empty());
    None
}

/// The first member named `key`, when it is a number.
pub fn find_num(ps: &Vec<(String, FieldVal)>, key: &str) -> (r: Option<u64>)
    ensures
        match r {
            Some(n) => lookup_num(pairs_view(ps@), key@) == Some(n),
            None => lookup_num(pairs_view(ps@), key@) is None,
        },
{
    let keys = String::from_str(key);
    let mut idx: usize = 0;
    assert(pairs_view(ps@).skip(0) =~= pairs_view(ps@));
    while idx < ps.len()
        invariant
            idx <= ps@.len(),
            keys@ == key@,
            lookup(pairs_view(ps@), key@) == lookup(pairs_view(ps@).skip(idx as int), key@),
        decreases ps@.len() - idx,
    {
        proof {
            assert(pairs_view(ps@).skip(idx as int)[0] == pairs_view(ps@)[idx as int]);
            assert(pairs_view(ps@).skip(idx as int).drop_first() =~= pairs_view(ps@).skip(idx + 1));
        }
        if ps[idx].0 == keys {
            match &ps[idx].1 {
                FieldVal::Num(n) => {
                    return Some(*n);
                },
                FieldVal::Str(_) => {
                    return None;
                },
            }
        }
        idx += 1;
    }
    assert(pairs_view(ps@).skip(idx as int) =~= Seq::<(Seq<char>, FieldValV)>::empty());
    None
}

// --- the executable writer ---

/// Appends the escaped form of `s`.
pub fn write_escaped(out: &mut String, s: &str)
    ensures
        final(out)@ == old(out)@ + escape_chars(s@),
{
    let n = s.unicode_len();
    let mut i: usize = 0;
    while i < n
        invariant
            i <= n,
            n == s@.len(),
            out@ == old(out)@ + escape_chars(s@.subrange(0, i as int)),
        decreases n - i,
    {
        let c = s.get_char(i);
        if c == '"' || c == '\\' {
            push_char(out, '\\');
            push_char(out, c);
        } else {
            push_char(out, c);
        }
        proof {
            lemma_escape_append(s@.subrange(0, i as int), seq![s@[i as int]]);
            assert(s@.subrange(0, i + 1) =~= s@.subrange(0, i as int) + seq![s@[i as int]]);
            assert(seq![s@[i as int]].drop_first() =~= Seq::<char>::empty());
            assert(escape_chars(Seq::<char>::empty()) == Seq::<char>::empty());
            assert(out@ =~= old(out)@ + escape_chars(s@.subrange(0, i + 1)));
        }
        i += 1;
    }
    assert(s@.subrange(0, n as int) =~= s@);
}

/// Appends `s` as a quoted, escaped string literal.
pub fn write_quoted(out: &mut String, s: &str)
    ensures
        final(out)@ == old(out)@ + quote_chars(s@),
{
    push_char(out, '"');
    write_escaped(out, s);
    push_char(out, '"');
    assert(out@ =~= old(out)@ + quote_chars(s@));
}

} // verus!
