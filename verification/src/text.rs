//! Verified text utilities: character-exact string comparison, token
//! replacement over templates, and decimal rendering of counters.
//!
//! Everything here is stated over `Seq<char>` views, so the contracts of the
//! materializer and the console renderer can pin their output exactly.

use vstd::prelude::*;
use vstd::string::*;

verus! {

/// Character-by-character equality of two string slices.
pub fn str_eq(a: &str, b: &str) -> (r: bool)
    ensures
        r == (a@ == b@),
{
    let alen = a.unicode_len();
    let blen = b.unicode_len();
    if alen != blen {
        return false;
    }
    let mut i: usize = 0;
    while i < alen
        invariant
            i <= alen,
            alen == a@.len(),
            blen == b@.len(),
            alen == blen,
            forall|j: int| 0 <= j < i ==> a@[j] == b@[j],
        decreases alen - i,
    {
        if a.get_char(i) != b.get_char(i) {
            return false;
        }
        i += 1;
    }
    proof {
        assert(a@ =~= b@);
    }
    true
}

/// True when `pat` occurs in `s` starting at index `i`.
pub open spec fn occurs_at(s: Seq<char>, pat: Seq<char>, i: int) -> bool {
    0 <= i && i + pat.len() <= s.len() && s.subrange(i, i + pat.len() as int) == pat
}

/// True when `pat` occurs somewhere in `s`.
pub open spec fn contains_token(s: Seq<char>, pat: Seq<char>) -> bool {
    exists|i: int| occurs_at(s, pat, i)
}

/// Whether `pat` occurs in `s` at position `i`, decided executably.
pub fn match_at(s: &str, pat: &str, i: usize) -> (r: bool)
    requires
        i + pat@.len() <= s@.len(),
    ensures
        r == occurs_at(s@, pat@, i as int),
{
    let n = s.unicode_len();
    let m = pat.unicode_len();
    let mut j: usize = 0;
    while j < m
        invariant
            j <= m,
            m == pat@.len(),
            n == s@.len(),
            i + m <= n,
            forall|k: int| 0 <= k < j ==> s@[i + k] == pat@[k],
        decreases m - j,
    {
        if s.get_char(i + j) != pat.get_char(j) {
            proof {
                assert(s@.subrange(i as int, i + pat@.len() as int)[j as int] != pat@[j as int]);
            }
            return false;
        }
        j += 1;
    }
    proof {
        assert(s@.subrange(i as int, i + pat@.len() as int) =~= pat@);
    }
    true
}

/// Whether `pat` occurs anywhere in `s`, decided executably.
pub fn contains_str(s: &str, pat: &str) -> (r: bool)
    requires
        pat@.len() > 0,
    ensures
        r == contains_token(s@, pat@),
{
    let n = s.unicode_len();
    let m = pat.unicode_len();
    if m > n {
        proof {
            if contains_token(s@, pat@) {
                let i = choose|i: int| occurs_at(s@, pat@, i);
            }
        }
        return false;
    }
    let mut i: usize = 0;
    while i <= n - m
        invariant
            i <= n - m + 1,
            n == s@.len(),
            m == pat@.len(),
            1 <= m <= n,
            forall|j: int| 0 <= j < i ==> !occurs_at(s@, pat@, j),
        decreases n - m + 1 - i,
    {
        if match_at(s, pat, i) {
            proof {
                assert(occurs_at(s@, pat@, i as int));
            }
            return true;
        }
        i += 1;
    }
    proof {
        if contains_token(s@, pat@) {
            let j = choose|j: int| occurs_at(s@, pat@, j);
            assert(0 <= j < i);
        }
    }
    false
}

/// The index of the last occurrence of the character `c` in `s`, or -1 when
/// `c` does not occur.
pub open spec fn last_index_of(s: Seq<char>, c: char) -> int
    decreases s.len(),
{
    if s.len() == 0 {
        -1
    } else if s[s.len() - 1] == c {
        s.len() - 1
    } else {
        last_index_of(s.drop_last(), c)
    }
}

/// `last_index_of` points at an occurrence and nothing occurs after it.
pub proof fn lemma_last_index_of(s: Seq<char>, c: char)
    ensures
        -1 <= last_index_of(s, c) < s.len(),
        last_index_of(s, c) >= 0 ==> s[last_index_of(s, c)] == c,
        forall|j: int| last_index_of(s, c) < j < s.len() ==> s[j] != c,
    decreases s.len(),
{
    if s.len() > 0 && s[s.len() - 1] != c {
        lemma_last_index_of(s.drop_last(), c);
        assert(forall|j: int| 0 <= j < s.len() - 1 ==> s.drop_last()[j] == s[j]);
    }
}

/// Finds the last occurrence of `c` in `s`, if there is one.
pub fn find_last(s: &str, c: char) -> (r: Option<usize>)
    ensures
        match r {
            Some(i) => i == last_index_of(s@, c),
            None => last_index_of(s@, c) == -1,
        },
{
    proof {
        lemma_last_index_of(s@, c);
    }
    let n = s.unicode_len();
    let mut i: usize = n;
    while i > 0
        invariant
            i <= n,
            n == s@.len(),
            forall|j: int| i <= j < n ==> s@[j] != c,
        decreases i,
    {
        if s.get_char(i - 1) == c {
            proof {
                lemma_last_index_of(s@, c);
                let l = last_index_of(s@, c);
                if l > i - 1 {
                    assert(s@[l] != c);
                }
                if l < i - 1 {
                    assert(s@[i - 1] != c);
                }
            }
            return Some(i - 1);
        }
        i -= 1;
    }
    proof {
        lemma_last_index_of(s@, c);
        let l = last_index_of(s@, c);
        if l >= 0 {
            assert(s@[l] != c);
        }
    }
    None
}

/// The file stem of a path: what stands after the last `/` and before the
/// last `.` of that final component (a leading dot does not count).
pub open spec fn file_stem_spec(path: Seq<char>) -> Seq<char> {
    let fname = path.skip(last_index_of(path, '/') + 1);
    let dot = last_index_of(fname, '.');
    if dot <= 0 {
        fname
    } else {
        fname.take(dot)
    }
}

/// The file stem of a path; queries are named by the stem of the file they
/// were loaded from.
pub fn parse_name(path: &str) -> (r: String)
    ensures
        r@ == file_stem_spec(path@),
{
    proof {
        lemma_last_index_of(path@, '/');
    }
    let n = path.unicode_len();
    let start: usize = match find_last(path, '/') {
        Some(i) => i + 1,
        None => 0,
    };
    let fname = path.substring_char(start, n);
    proof {
        assert(fname@ =~= path@.skip(start as int));
        lemma_last_index_of(fname@, '.');
    }
    let m = fname.unicode_len();
    let stem = match find_last(fname, '.') {
        Some(d) => if d > 0 {
            fname.substring_char(0, d)
        } else {
            fname
        },
        None => fname,
    };
    proof {
        let dot = last_index_of(fname@, '.');
        if dot > 0 {
            assert(stem@ =~= fname@.take(dot));
        }
    }
    String::from_str(stem)
}

/// Left-to-right, non-overlapping replacement of every occurrence of `pat`
/// in `s` by `to`, as a recursive specification.
pub open spec fn replace_all_spec(s: Seq<char>, pat: Seq<char>, to: Seq<char>) -> Seq<char>
    decreases s.len(),
    when pat.len() > 0
{
    if s.len() < pat.len() {
        s
    } else if s.subrange(0, pat.len() as int) == pat {
        to + replace_all_spec(s.skip(pat.len() as int), pat, to)
    } else {
        seq![s[0]] + replace_all_spec(s.skip(1), pat, to)
    }
}

/// Replaces every occurrence of `pat` in `s` by `to`, scanning left to right
/// without overlap, exactly as `replace_all_spec` describes.
pub fn replace_all(s: &str, pat: &str, to: &str) -> (r: String)
    requires
        pat@.len() > 0,
    ensures
        r@ == replace_all_spec(s@, pat@, to@),
{
    let n = s.unicode_len();
    let m = pat.unicode_len();
    let mut out = String::new();
    let mut i: usize = 0;
    proof {
        assert(s@.skip(0) =~= s@);
    }
    while i < n
        invariant
            i <= n,
            n == s@.len(),
            m == pat@.len(),
            m > 0,
            out@ + replace_all_spec(s@.skip(i as int), pat@, to@) == replace_all_spec(
                s@,
                pat@,
                to@,
            ),
        decreases n - i,
    {
        proof {
            if i + m <= n {
                assert(s@.skip(i as int).subrange(0, m as int) =~= s@.subrange(
                    i as int,
                    i + m as int,
                ));
            }
        }
        if n - i >= m && match_at(s, pat, i) {
            let ghost prev = out@;
            out.append(to);
            proof {
                assert(s@.skip(i as int).skip(m as int) =~= s@.skip(i + m as int));
                assert((prev + to@) + replace_all_spec(s@.skip(i + m as int), pat@, to@) =~= prev
                    + (to@ + replace_all_spec(s@.skip(i + m as int), pat@, to@)));
            }
            i += m;
        } else {
            let ghost prev = out@;
            let piece = s.substring_char(i, i + 1);
            out.append(piece);
            proof {
                assert(s@.skip(i as int)[0] == s@[i as int]);
                assert(s@.skip(i as int).skip(1) =~= s@.skip(i as int + 1));
                assert(s@.subrange(i as int, i as int + 1) =~= seq![s@[i as int]]);
                if s@.skip(i as int).len() < m {
                    // The suffix is shorter than the pattern: it is kept whole.
                    assert(s@.skip(i as int) =~= seq![s@[i as int]] + s@.skip(i as int + 1));
                    assert(s@.skip(i as int + 1).len() < m);
                }
                assert((prev + seq![s@[i as int]]) + replace_all_spec(
                    s@.skip(i as int + 1),
                    pat@,
                    to@,
                ) =~= prev + (seq![s@[i as int]] + replace_all_spec(
                    s@.skip(i as int + 1),
                    pat@,
                    to@,
                )));
            }
            i += 1;
        }
    }
    proof {
        assert(s@.skip(n as int) =~= Seq::<char>::empty());
        assert(out@ + Seq::<char>::empty() =~= out@);
    }
    out
}

/// `r` begins with `p`.
pub open spec fn starts_with(r: Seq<char>, p: Seq<char>) -> bool {
    p.len() <= r.len() && r.subrange(0, p.len() as int) == p
}

/// No character of `a` occurs in `b`.
pub open spec fn chars_disjoint(a: Seq<char>, b: Seq<char>) -> bool {
    forall|i: int, j: int| 0 <= i < a.len() && 0 <= j < b.len() ==> a[i] != b[j]
}

/// Replacing every occurrence of `pat` by replacement text that shares no
/// character with it leaves no occurrence of `pat` behind — neither inside
/// kept text, nor inside a replacement, nor spanning a boundary.
pub proof fn lemma_replace_all_token_free(s: Seq<char>, pat: Seq<char>, to: Seq<char>)
    requires
        pat.len() > 0,
        to.len() > 0,
        chars_disjoint(to, pat),
    ensures
        !contains_token(replace_all_spec(s, pat, to), pat),
        forall|j: int|
            1 <= j < pat.len() && starts_with(replace_all_spec(s, pat, to), pat.skip(j))
                ==> starts_with(s, pat.skip(j)),
    decreases s.len(),
{
    let r = replace_all_spec(s, pat, to);
    let m = pat.len() as int;
    if s.len() < pat.len() {
        // The whole of s is kept, and it is too short to hold pat.
        if contains_token(r, pat) {
            let p = choose|p: int| occurs_at(r, pat, p);
        }
    } else if s.subrange(0, m) == pat {
        let tail = s.skip(m);
        lemma_replace_all_token_free(tail, pat, to);
        let rt = replace_all_spec(tail, pat, to);
        assert(r == to + rt);
        if contains_token(r, pat) {
            let p = choose|p: int| occurs_at(r, pat, p);
            assert(r.subrange(p, p + m)[0] == pat[0]);
            assert(r[p] == pat[0]);
            if p < to.len() {
                assert(to[p] == pat[0]);
            } else {
                assert(rt.subrange(p - to.len(), p - to.len() + m) =~= r.subrange(p, p + m));
                assert(occurs_at(rt, pat, p - to.len()));
            }
        }
        assert forall|j: int|
            1 <= j < m && starts_with(r, pat.skip(j)) implies starts_with(s, pat.skip(j)) by {
            assert(r.subrange(0, m - j)[0] == pat.skip(j)[0]);
            assert(r[0] == pat[j]);
            assert(to[0] == pat[j]);
        }
    } else {
        let tail = s.skip(1);
        lemma_replace_all_token_free(tail, pat, to);
        let rt = replace_all_spec(tail, pat, to);
        assert(r == seq![s[0]] + rt);
        assert(r[0] == s[0]);
        if contains_token(r, pat) {
            let p = choose|p: int| occurs_at(r, pat, p);
            if p == 0 {
                assert(r.subrange(0, m) == pat);
                assert(r.subrange(0, m)[0] == pat[0]);
                assert(s[0] == pat[0]);
                if m == 1 {
                    assert(s.subrange(0, 1) =~= pat);
                } else {
                    assert forall|t: int| 0 <= t < m - 1 implies #[trigger] rt.subrange(
                        0,
                        m - 1,
                    )[t] == pat.skip(1)[t] by {
                        assert(rt.subrange(0, m - 1)[t] == rt[t]);
                        assert(rt[t] == r[t + 1]);
                        assert(r.subrange(0, m)[t + 1] == r[t + 1]);
                    }
                    assert(rt.subrange(0, m - 1) =~= pat.skip(1));
                    assert(starts_with(rt, pat.skip(1)));
                    assert(starts_with(tail, pat.skip(1)));
                    assert forall|t: int| 0 <= t < m implies #[trigger] s.subrange(0, m)[t]
                        == pat[t] by {
                        assert(s.subrange(0, m)[t] == s[t]);
                        if t >= 1 {
                            assert(tail.subrange(0, m - 1)[t - 1] == tail[t - 1]);
                            assert(tail[t - 1] == s[t]);
                            assert(pat.skip(1)[t - 1] == pat[t]);
                        }
                    }
                    assert(s.subrange(0, m) =~= pat);
                }
            } else {
                assert(rt.subrange(p - 1, p - 1 + m) =~= r.subrange(p, p + m));
                assert(occurs_at(rt, pat, p - 1));
            }
        }
        assert forall|j: int|
            1 <= j < m && starts_with(r, pat.skip(j)) implies starts_with(s, pat.skip(j)) by {
            assert(r.subrange(0, m - j)[0] == pat.skip(j)[0]);
            assert(s[0] == pat[j]);
            if j + 1 == m {
                assert(s.subrange(0, m - j) =~= pat.skip(j));
            } else {
                assert forall|t: int| 0 <= t < m - j - 1 implies #[trigger] rt.subrange(
                    0,
                    m - j - 1,
                )[t] == pat.skip(j + 1)[t] by {
                    assert(rt.subrange(0, m - j - 1)[t] == rt[t]);
                    assert(rt[t] == r[t + 1]);
                    assert(r.subrange(0, m - j)[t + 1] == r[t + 1]);
                    assert(pat.skip(j)[t + 1] == pat[j + 1 + t]);
                    assert(pat.skip(j + 1)[t] == pat[j + 1 + t]);
                }
                assert(rt.subrange(0, m - j - 1) =~= pat.skip(j + 1));
                assert(starts_with(rt, pat.skip(j + 1)));
                assert(starts_with(tail, pat.skip(j + 1)));
                assert forall|t: int| 0 <= t < m - j implies #[trigger] s.subrange(0, m - j)[t]
                    == pat.skip(j)[t] by {
                    assert(s.subrange(0, m - j)[t] == s[t]);
                    if t >= 1 {
                        assert(tail.subrange(0, m - j - 1)[t - 1] == tail[t - 1]);
                        assert(tail[t - 1] == s[t]);
                        assert(pat.skip(j + 1)[t - 1] == pat[j + t]);
                        assert(pat.skip(j)[t] == pat[j + t]);
                    }
                }
                assert(s.subrange(0, m - j) =~= pat.skip(j));
            }
        }
    }
}

/// The character for one decimal digit.
pub open spec fn digit_char(d: nat) -> char {
    if d == 0 {
        '0'
    } else if d == 1 {
        '1'
    } else if d == 2 {
        '2'
    } else if d == 3 {
        '3'
    } else if d == 4 {
        '4'
    } else if d == 5 {
        '5'
    } else if d == 6 {
        '6'
    } else if d == 7 {
        '7'
    } else if d == 8 {
        '8'
    } else {
        '9'
    }
}

/// The decimal representation of a natural number, most significant digit
/// first, with no leading zeroes (a lone zero for 0).
pub open spec fn dec_spec(n: nat) -> Seq<char>
    decreases n,
{
    if n <= 9 {
        seq![digit_char(n)]
    } else {
        dec_spec(n / 10) + seq![digit_char(n % 10)]
    }
}

/// One decimal digit as a string slice.
fn digit_str(d: u64) -> (r: &'static str)
    requires
        d < 10,
    ensures
        r@ == seq![digit_char(d as nat)],
{
    let r: &'static str = if d == 0 {
        "0"
    } else if d == 1 {
        "1"
    } else if d == 2 {
        "2"
    } else if d == 3 {
        "3"
    } else if d == 4 {
        "4"
    } else if d == 5 {
        "5"
    } else if d == 6 {
        "6"
    } else if d == 7 {
        "7"
    } else if d == 8 {
        "8"
    } else {
        "9"
    };
    proof {
        reveal_strlit("0");
        reveal_strlit("1");
        reveal_strlit("2");
        reveal_strlit("3");
        reveal_strlit("4");
        reveal_strlit("5");
        reveal_strlit("6");
        reveal_strlit("7");
        reveal_strlit("8");
        reveal_strlit("9");
        assert(r@ =~= seq![digit_char(d as nat)]);
    }
    r
}

/// Renders a counter or latency value in decimal.
pub fn u64_to_string(n: u64) -> (r: String)
    ensures
        r@ == dec_spec(n as nat),
        r@.len() >= 1,
    decreases n,
{
    if n < 10 {
        String::from_str(digit_str(n))
    } else {
        let mut s = u64_to_string(n / 10);
        s.append(digit_str(n % 10));
        s
    }
}

/// Every character of a decimal representation is a digit.
pub proof fn lemma_dec_spec_digits(n: nat)
    ensures
        forall|i: int| 0 <= i < dec_spec(n).len() ==> is_digit_char(#[trigger] dec_spec(n)[i]),
    decreases n,
{
    if n <= 9 {
        assert(dec_spec(n)[0] == digit_char(n));
    } else {
        lemma_dec_spec_digits(n / 10);
        assert forall|i: int| 0 <= i < dec_spec(n).len() implies is_digit_char(
            #[trigger] dec_spec(n)[i],
        ) by {
            if i < dec_spec(n / 10).len() {
                assert(dec_spec(n)[i] == dec_spec(n / 10)[i]);
            } else {
                assert(dec_spec(n)[i] == digit_char(n % 10));
            }
        }
    }
}

/// The ten decimal digit characters.
pub open spec fn is_digit_char(c: char) -> bool {
    c == '0' || c == '1' || c == '2' || c == '3' || c == '4' || c == '5' || c == '6' || c == '7'
        || c == '8' || c == '9'
}

/// The whitespace characters stripped from query templates: space, newline,
/// tab and carriage return.
pub open spec fn is_space_char(c: char) -> bool {
    c == ' ' || c == '\n' || c == '\t' || c == '\r'
}

/// Executable test for `is_space_char`.
pub fn is_space(c: char) -> (r: bool)
    ensures
        r == is_space_char(c),
{
    c == ' ' || c == '\n' || c == '\t' || c == '\r'
}

/// `s` with leading and trailing whitespace removed.
pub open spec fn trim_spec(s: Seq<char>) -> Seq<char>
    decreases s.len(),
{
    if s.len() > 0 && is_space_char(s[0]) {
        trim_spec(s.skip(1))
    } else if s.len() > 0 && is_space_char(s[s.len() - 1]) {
        trim_spec(s.take(s.len() - 1))
    } else {
        s
    }
}

/// Strips leading and trailing whitespace.
pub fn trim(s: &str) -> (r: &str)
    ensures
        r@ == trim_spec(s@),
{
    let n = s.unicode_len();
    let mut a: usize = 0;
    proof {
        assert(s@.skip(0) =~= s@);
    }
    while a < n && is_space(s.get_char(a))
        invariant
            a <= n,
            n == s@.len(),
            trim_spec(s@.skip(a as int)) == trim_spec(s@),
        decreases n - a,
    {
        proof {
            assert(s@.skip(a as int)[0] == s@[a as int]);
            assert(s@.skip(a as int).skip(1) =~= s@.skip(a as int + 1));
        }
        a += 1;
    }
    let mut b: usize = n;
    proof {
        assert(s@.skip(a as int).take(n - a as int) =~= s@.skip(a as int));
    }
    while b > a && is_space(s.get_char(b - 1))
        invariant
            a <= b <= n,
            n == s@.len(),
            trim_spec(s@.skip(a as int)) == trim_spec(s@),
            trim_spec(s@.skip(a as int).take(b - a as int)) == trim_spec(s@),
            a < n ==> !is_space_char(s@[a as int]),
        decreases b,
    {
        proof {
            let t = s@.skip(a as int).take(b - a as int);
            assert(t[0] == s@[a as int]);
            assert(t[t.len() - 1] == s@[b - 1]);
            assert(t.take(t.len() - 1) =~= s@.skip(a as int).take(b - 1 - a as int));
        }
        b -= 1;
    }
    proof {
        let t = s@.skip(a as int).take(b - a as int);
        if t.len() > 0 {
            assert(t[0] == s@[a as int]);
            assert(t[t.len() - 1] == s@[b - 1]);
        }
        assert(trim_spec(t) == t);
        assert(s@.subrange(a as int, b as int) =~= s@.skip(a as int).take(b - a as int));
    }
    s.substring_char(a, b)
}

} // verus!
