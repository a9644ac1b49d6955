use vstd::prelude::*;

verus! {

/// Relies on std's String::push: appends exactly one character at the end.
#[verifier::external_body]
pub(crate) fn push_char(s: &mut String, c: char)
    ensures
        final(s)@ == old(s)@.push(c),
{
    s.push(c);
}

/// Collects the characters of a string slice into a vector.
pub fn str_chars(s: &str) -> (r: Vec<char>)
    ensures
        r@ == s@,
{
    let n = s.unicode_len();
    let mut r: Vec<char> = Vec::new();
    let mut i: usize = 0;
    while i < n
        invariant
            i <= n,
            n == s@.len(),
            r@ == s@.subrange(0, i as int),
        decreases n - i,
    {
        let c = s.get_char(i);
        r.push(c);
        assert(s@.subrange(0, i + 1) =~= s@.subrange(0, i as int).push(s@[i as int]));
        i += 1;
    }
    assert(r@ =~= s@);
    r
}

/// Copies out the characters `v[from..to]`.
pub fn subvec(v: &Vec<char>, from: usize, to: usize) -> (r: Vec<char>)
    requires
        from <= to <= v@.len(),
    ensures
        r@ == v@.subrange(from as int, to as int),
{
    let mut r: Vec<char> = Vec::new();
    let mut i: usize = from;
    while i < to
        invariant
            from <= i <= to <= v@.len(),
            r@ == v@.subrange(from as int, i as int),
        decreases to - i,
    {
        r.push(v[i]);
        assert(v@.subrange(from as int, i + 1) =~= v@.subrange(from as int, i as int).push(
            v@[i as int],
        ));
        i += 1;
    }
    r
}

/// Builds a string out of the characters `v[from..to]`.
pub fn chars_to_string(v: &Vec<char>, from: usize, to: usize) -> (r: String)
    requires
        from <= to <= v@.len(),
    ensures
        r@ == v@.subrange(from as int, to as int),
{
    let mut r = String::new();
    let mut i: usize = from;
    while i < to
        invariant
            from <= i <= to <= v@.len(),
            r@ == v@.subrange(from as int, i as int),
        decreases to - i,
    {
        push_char(&mut r, v[i]);
        assert(v@.subrange(from as int, i + 1) =~= v@.subrange(from as int, i as int).push(
            v@[i as int],
        ));
        i += 1;
    }
    r
}

pub open spec fn is_digit_char(c: char) -> bool {
    '0' <= c && c <= '9'
}

pub open spec fn digit_of(c: char) -> int {
    c as int - '0' as int
}

pub open spec fn digit_char(d: int) -> char {
    ((48 + d) as u8) as char
}

/// The decimal digit characters of a non-negative integer, most
/// significant first, with no leading zero except for zero itself.
pub open spec fn dec_digits(n: int) -> Seq<char>
    decreases n,
{
    if n < 10 {
        seq![digit_char(n)]
    } else {
        dec_digits(n / 10).push(digit_char(n % 10))
    }
}

pub(crate) fn digit_to_char(d: u64) -> (r: char)
    requires
        d < 10,
    ensures
        r == digit_char(d as int),
        is_digit_char(r),
        digit_of(r) == d as int,
{
    let b: u8 = 48 + (d as u8);
    let r = b as char;
    assert(is_digit_char(r) && digit_of(r) == d as int);
    r
}

/// Writes `n` in decimal notation.
pub fn u64_to_string(n: u64) -> (r: String)
    ensures
        r@ == dec_digits(n as int),
    decreases n,
{
    if n < 10 {
        let mut s = String::new();
        push_char(&mut s, digit_to_char(n));
        assert(s@ =~= dec_digits(n as int));
        s
    } else {
        let mut s = u64_to_string(n / 10);
        push_char(&mut s, digit_to_char(n % 10));
        s
    }
}

pub open spec fn all_digit_chars(s: Seq<char>) -> bool {
    forall|i: int| 0 <= i < s.len() ==> is_digit_char(s[i])
}

/// The value of a sequence of decimal digit characters.
pub open spec fn digits_val(ds: Seq<char>) -> int
    decreases ds.len(),
{
    if ds.len() == 0 {
        0
    } else {
        digits_val(ds.drop_last()) * 10 + digit_of(ds.last())
    }
}

/// Splits a sequence into its longest digit prefix and the rest.
pub open spec fn take_digits(s: Seq<char>) -> (Seq<char>, Seq<char>)
    decreases s.len(),
{
    if s.len() > 0 && is_digit_char(s[0]) {
        let (d, r) = take_digits(s.drop_first());
        (seq![s[0]] + d, r)
    } else {
        (Seq::empty(), s)
    }
}

pub proof fn lemma_dec_digits_wf(n: int)
    requires
        n >= 0,
    ensures
        dec_digits(n).len() >= 1,
        all_digit_chars(dec_digits(n)),
        is_digit_char(dec_digits(n)[0]),
    decreases n,
{
    if n >= 10 {
        lemma_dec_digits_wf(n / 10);
        assert(all_digit_chars(dec_digits(n))) by {
            assert forall|i: int| 0 <= i < dec_digits(n).len() implies is_digit_char(
                dec_digits(n)[i],
            ) by {
                if i < dec_digits(n / 10).len() {
                    assert(dec_digits(n)[i] == dec_digits(n / 10)[i]);
                }
            }
        }
    }
}

pub proof fn lemma_digit_char_val(d: int)
    requires
        0 <= d < 10,
    ensures
        is_digit_char(digit_char(d)),
        digit_of(digit_char(d)) == d,
{
    assert((48 + d) as u8 == 48 + d);
    assert(((48 + d) as u8) as char as int == 48 + d);
}

/// Reading the decimal digits of `n` back as a number yields `n`.
pub proof fn lemma_digits_val_of_dec_digits(n: int)
    requires
        n >= 0,
    ensures
        digits_val(dec_digits(n)) == n,
    decreases n,
{
    if n < 10 {
        lemma_digit_char_val(n);
        assert(dec_digits(n) == seq![digit_char(n)]);
        assert(dec_digits(n).drop_last() =~= Seq::<char>::empty());
        assert(digits_val(Seq::<char>::empty()) == 0);
        assert(digits_val(dec_digits(n)) == 0 * 10 + digit_of(digit_char(n)));
    } else {
        lemma_digit_char_val(n % 10);
        lemma_digits_val_of_dec_digits(n / 10);
        assert(dec_digits(n).drop_last() =~= dec_digits(n / 10));
    }
}

/// `take_digits` recovers a digit prefix exactly, as long as what
/// follows does not begin with another digit.
pub proof fn lemma_take_digits_of_concat(a: Seq<char>, rest: Seq<char>)
    requires
        all_digit_chars(a),
        rest.len() == 0 || !is_digit_char(rest[0]),
    ensures
        take_digits(a + rest) == (a, rest),
    decreases a.len(),
{
    if a.len() == 0 {
        assert(a + rest =~= rest);
        if rest.len() > 0 {
            assert(take_digits(rest) == (Seq::<char>::empty(), rest));
        }
        assert(take_digits(a + rest).0 =~= a);
    } else {
        assert(all_digit_chars(a.drop_first()));
        lemma_take_digits_of_concat(a.drop_first(), rest);
        assert((a + rest).drop_first() =~= a.drop_first() + rest);
        assert(is_digit_char((a + rest)[0]));
        assert(take_digits(a + rest).0 =~= seq![a[0]] + a.drop_first());
        assert(seq![a[0]] + a.drop_first() =~= a);
    }
}

/// The views of a sequence of strings.
pub open spec fn strings_view(ts: Seq<String>) -> Seq<Seq<char>> {
    Seq::new(ts.len(), |i: int| ts[i]@)
}

/// The pieces laid end to end with a comma between each two.
pub open spec fn join_comma(ts: Seq<Seq<char>>) -> Seq<char>
    decreases ts.len(),
{
    if ts.len() == 0 {
        Seq::empty()
    } else if ts.len() == 1 {
        ts[0]
    } else {
        join_comma(ts.drop_last()) + seq![','] + ts.last()
    }
}

/// Joins strings with commas.
pub fn join_comma_exec(ts: &Vec<String>) -> (r: String)
    ensures
        r@ == join_comma(strings_view(ts@)),
{
    let mut r = String::new();
    let n = ts.len();
    let mut i: usize = 0;
    while i < n
        invariant
            i <= n,
            n == ts@.len(),
            r@ == join_comma(strings_view(ts@).subrange(0, i as int)),
        decreases n - i,
    {
        if i > 0 {
            push_char(&mut r, ',');
        }
        r.append(ts[i].as_str());
        proof {
            let vs = strings_view(ts@);
            assert(vs.subrange(0, i + 1).drop_last() =~= vs.subrange(0, i as int));
            assert(vs.subrange(0, i + 1).last() == ts@[i as int]@);
            if i == 0 {
                assert(r@ =~= join_comma(vs.subrange(0, i + 1)));
            }
        }
        i += 1;
    }
    assert(strings_view(ts@).subrange(0, n as int) =~= strings_view(ts@));
    r
}

/// Whether `t` occurs in `s` at position `i`.
pub open spec fn is_substr_at(s: Seq<char>, t: Seq<char>, i: int) -> bool {
    0 <= i && i + t.len() <= s.len() && s.subrange(i, i + t.len()) == t
}

/// Whether `t` occurs anywhere in `s`.
pub open spec fn contains_seq(s: Seq<char>, t: Seq<char>) -> bool {
    exists|i: int| is_substr_at(s, t, i)
}

/// The position of the first occurrence of `c`.
pub open spec fn find_from(s: Seq<char>, c: char) -> Option<int>
    decreases s.len(),
{
    if s.len() == 0 {
        None
    } else if s[0] == c {
        Some(0)
    } else {
        match find_from(s.drop_first(), c) {
            Some(i) => Some(i + 1),
            None => None,
        }
    }
}

/// What `find_from` finds is the first occurrence, and a `None` means
/// there is none.
pub proof fn lemma_find_from_spec(s: Seq<char>, c: char)
    ensures
        match find_from(s, c) {
            Some(i) => 0 <= i < s.len() && s[i] == c && (forall|m: int| 0 <= m < i ==> s[m] != c),
            None => forall|m: int| 0 <= m < s.len() ==> s[m] != c,
        },
    decreases s.len(),
{
    if s.len() > 0 && s[0] != c {
        lemma_find_from_spec(s.drop_first(), c);
        match find_from(s, c) {
            Some(i) => {
                assert(s[i] == s.drop_first()[i - 1]);
                assert forall|m: int| 0 <= m < i implies s[m] != c by {
                    if m > 0 {
                        assert(s[m] == s.drop_first()[m - 1]);
                    }
                }
            },
            None => {
                assert forall|m: int| 0 <= m < s.len() implies s[m] != c by {
                    if m > 0 {
                        assert(s[m] == s.drop_first()[m - 1]);
                    }
                }
            },
        }
    }
}

/// `find_from` yields exactly the first position holding `c`.
pub proof fn lemma_find_from_exact(s: Seq<char>, c: char, i: int)
    requires
        0 <= i < s.len(),
        s[i] == c,
        forall|m: int| 0 <= m < i ==> s[m] != c,
    ensures
        find_from(s, c) == Some(i),
{
    lemma_find_from_spec(s, c);
    match find_from(s, c) {
        Some(k) => {
            if k < i {
            } else if k > i {
            }
        },
        None => {},
    }
}

/// Whether `t` occurs at position `i` of `v`.
pub fn substr_at(v: &Vec<char>, t: &Vec<char>, i: usize) -> (b: bool)
    requires
        i + t@.len() <= v@.len(),
    ensures
        b == is_substr_at(v@, t@, i as int),
{
    let n = v.len();
    let m = t.len();
    let mut k: usize = 0;
    while k < m
        invariant
            k <= m,
            n == v@.len(),
            m == t@.len(),
            i + m <= n,
            forall|j: int| 0 <= j < k ==> v@[i + j] == t@[j],
        decreases m - k,
    {
        if v[i + k] != t[k] {
            assert(v@.subrange(i as int, i + m) != t@) by {
                assert(v@.subrange(i as int, i + m)[k as int] == v@[i + k]);
            }
            return false;
        }
        k += 1;
    }
    assert(v@.subrange(i as int, i + m) =~= t@);
    true
}

/// Whether `t` occurs anywhere in `v`.
pub fn contains_chars(v: &Vec<char>, t: &Vec<char>) -> (b: bool)
    ensures
        b == contains_seq(v@, t@),
{
    let n = v.len();
    let m = t.len();
    if m > n {
        assert(!contains_seq(v@, t@)) by {
            assert(forall|i: int| !is_substr_at(v@, t@, i));
        }
        return false;
    }
    if m == 0 {
        assert(is_substr_at(v@, t@, 0)) by {
            assert(v@.subrange(0, 0) =~= t@);
        }
        return true;
    }
    let mut i: usize = 0;
    while i <= n - m
        invariant
            1 <= m <= n,
            n == v@.len(),
            m == t@.len(),
            i <= n - m + 1,
            forall|j: int| 0 <= j < i ==> !is_substr_at(v@, t@, j),
        decreases n - i,
    {
        if substr_at(v, t, i) {
            assert(contains_seq(v@, t@));
            return true;
        }
        i += 1;
    }
    assert(!contains_seq(v@, t@)) by {
        assert(forall|j: int| j > n - m ==> !is_substr_at(v@, t@, j));
    }
    false
}

/// The first position at or after `from` that holds `c`, as `find_from`
/// sees the suffix.
pub fn find_char(v: &Vec<char>, from: usize, c: char) -> (r: Option<usize>)
    requires
        from <= v@.len(),
    ensures
        match r {
            Some(i) => from <= i < v@.len() && find_from(v@.skip(from as int), c) == Some(
                i - from,
            ),
            None => find_from(v@.skip(from as int), c) is None,
        },
{
    let n = v.len();
    let mut i = from;
    while i < n
        invariant
            from <= i <= n,
            n == v@.len(),
            forall|m: int| from <= m < i ==> v@[m] != c,
        decreases n - i,
    {
        if v[i] == c {
            proof {
                let s = v@.skip(from as int);
                assert(s[i - from] == c);
                assert(forall|m: int| 0 <= m < i - from ==> s[m] == v@[m + from] && s[m] != c);
                lemma_find_from_exact(s, c, i - from);
            }
            return Some(i);
        }
        i += 1;
    }
    proof {
        let s = v@.skip(from as int);
        assert(forall|m: int| 0 <= m < s.len() ==> s[m] == v@[m + from] && s[m] != c);
        lemma_find_from_spec(s, c);
        if find_from(s, c) is Some {
        }
    }
    None
}

/// The position of the first occurrence of `pat`.
pub open spec fn find_seq_from(s: Seq<char>, pat: Seq<char>) -> Option<int>
    decreases s.len(),
{
    if pat.len() == 0 {
        Some(0)
    } else if s.len() < pat.len() {
        None
    } else if s.subrange(0, pat.len() as int) == pat {
        Some(0)
    } else {
        match find_seq_from(s.drop_first(), pat) {
            Some(i) => Some(i + 1),
            None => None,
        }
    }
}

/// What `find_seq_from` finds is the first occurrence, and a `None`
/// means there is none.
pub proof fn lemma_find_seq_from_spec(s: Seq<char>, pat: Seq<char>)
    requires
        pat.len() > 0,
    ensures
        match find_seq_from(s, pat) {
            Some(i) => is_substr_at(s, pat, i) && (forall|j: int|
                0 <= j < i ==> !is_substr_at(s, pat, j)),
            None => forall|j: int| !is_substr_at(s, pat, j),
        },
    decreases s.len(),
{
    if s.len() < pat.len() {
        assert(forall|j: int| !is_substr_at(s, pat, j));
    } else if s.subrange(0, pat.len() as int) == pat {
        assert(is_substr_at(s, pat, 0));
    } else {
        lemma_find_seq_from_spec(s.drop_first(), pat);
        assert forall|j: int| 1 <= j && j + pat.len() <= s.len() implies is_substr_at(s, pat, j)
            == is_substr_at(s.drop_first(), pat, j - 1) by {
            assert(s.subrange(j, j + pat.len()) =~= s.drop_first().subrange(
                j - 1,
                j - 1 + pat.len(),
            ));
        }
        match find_seq_from(s, pat) {
            Some(i) => {
                assert(is_substr_at(s.drop_first(), pat, i - 1));
                assert(is_substr_at(s, pat, i));
            },
            None => {
                assert forall|j: int| !is_substr_at(s, pat, j) by {
                    if 1 <= j && j + pat.len() <= s.len() {
                        assert(!is_substr_at(s.drop_first(), pat, j - 1));
                    }
                }
            },
        }
    }
}

/// `find_seq_from` yields exactly the first position holding `pat`.
pub proof fn lemma_find_seq_from_exact(s: Seq<char>, pat: Seq<char>, i: int)
    requires
        pat.len() > 0,
        is_substr_at(s, pat, i),
        forall|j: int| 0 <= j < i ==> !is_substr_at(s, pat, j),
    ensures
        find_seq_from(s, pat) == Some(i),
{
    lemma_find_seq_from_spec(s, pat);
    match find_seq_from(s, pat) {
        Some(k) => {
            if k < i {
            } else if k > i {
            }
        },
        None => {},
    }
}

/// The first position where `pat` occurs in `v`.
pub fn find_seq(v: &Vec<char>, pat: &Vec<char>) -> (r: Option<usize>)
    requires
        pat@.len() > 0,
    ensures
        match r {
            Some(i) => i + pat@.len() <= v@.len() && find_seq_from(v@, pat@) == Some(i as int),
            None => find_seq_from(v@, pat@) is None,
        },
{
    let n = v.len();
    let m = pat.len();
    if m > n {
        proof {
            lemma_find_seq_from_spec(v@, pat@);
            match find_seq_from(v@, pat@) {
                Some(i) => {
                    assert(is_substr_at(v@, pat@, i));
                },
                None => {},
            }
        }
        return None;
    }
    let mut i: usize = 0;
    while i <= n - m
        invariant
            1 <= m <= n,
            n == v@.len(),
            m == pat@.len(),
            i <= n - m + 1,
            forall|j: int| 0 <= j < i ==> !is_substr_at(v@, pat@, j),
        decreases n - i,
    {
        if substr_at(v, pat, i) {
            proof {
                lemma_find_seq_from_exact(v@, pat@, i as int);
            }
            return Some(i);
        }
        i += 1;
    }
    proof {
        lemma_find_seq_from_spec(v@, pat@);
        match find_seq_from(v@, pat@) {
            Some(k) => {
                assert(is_substr_at(v@, pat@, k));
            },
            None => {},
        }
    }
    None
}

/// The `k`-th power of ten.
pub open spec fn pow10(k: nat) -> int
    decreases k,
{
    if k == 0 {
        1
    } else {
        10 * pow10((k - 1) as nat)
    }
}

pub proof fn lemma_dec_digits_len_le(n: int, k: nat)
    requires
        1 <= k,
        0 <= n < pow10(k),
    ensures
        dec_digits(n).len() <= k,
    decreases k,
{
    if n >= 10 {
        assert(pow10(k) == 10 * pow10((k - 1) as nat));
        assert(k >= 2) by {
            if k == 1 {
                assert(pow10(1nat) == 10);
            }
        }
        assert(n / 10 < pow10((k - 1) as nat)) by {
            assert(10 * (n / 10) <= n);
        }
        lemma_dec_digits_len_le(n / 10, (k - 1) as nat);
    }
}

/// No `u64` needs more than twenty decimal digits.
pub proof fn lemma_dec_digits_len_u64(n: int)
    requires
        0 <= n <= u64::MAX,
    ensures
        dec_digits(n).len() <= 20,
{
    assert(pow10(0nat) == 1);
    assert(pow10(1nat) == 10);
    assert(pow10(2nat) == 100);
    assert(pow10(3nat) == 1000);
    assert(pow10(4nat) == 10000);
    assert(pow10(5nat) == 100000);
    assert(pow10(6nat) == 1000000);
    assert(pow10(7nat) == 10000000);
    assert(pow10(8nat) == 100000000);
    assert(pow10(9nat) == 1000000000);
    assert(pow10(10nat) == 10000000000);
    assert(pow10(11nat) == 100000000000);
    assert(pow10(12nat) == 1000000000000);
    assert(pow10(13nat) == 10000000000000);
    assert(pow10(14nat) == 100000000000000);
    assert(pow10(15nat) == 1000000000000000);
    assert(pow10(16nat) == 10000000000000000);
    assert(pow10(17nat) == 100000000000000000);
    assert(pow10(18nat) == 1000000000000000000);
    assert(pow10(19nat) == 10000000000000000000);
    assert(pow10(20nat) == 100000000000000000000);
    lemma_dec_digits_len_le(n, 20nat);
}

/// A digit sequence is worth at least as much as any of its prefixes.
pub proof fn lemma_digits_val_grows(ds: Seq<char>, m: int)
    requires
        all_digit_chars(ds),
        0 <= m <= ds.len(),
    ensures
        digits_val(ds.subrange(0, m)) <= digits_val(ds),
    decreases ds.len() - m,
{
    if m < ds.len() {
        lemma_digits_val_grows(ds, m + 1);
        let p = ds.subrange(0, m + 1);
        assert(p.drop_last() =~= ds.subrange(0, m));
        assert(all_digit_chars(ds.subrange(0, m)));
        lemma_digits_val_nonneg(ds.subrange(0, m));
        assert(digits_val(p) == digits_val(ds.subrange(0, m)) * 10 + digit_of(p.last()));
    } else {
        assert(ds.subrange(0, m) =~= ds);
    }
}

pub proof fn lemma_digits_val_nonneg(ds: Seq<char>)
    requires
        all_digit_chars(ds),
    ensures
        digits_val(ds) >= 0,
    decreases ds.len(),
{
    if ds.len() > 0 {
        assert(all_digit_chars(ds.drop_last()));
        lemma_digits_val_nonneg(ds.drop_last());
    }
}

} // verus!
