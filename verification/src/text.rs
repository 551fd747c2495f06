//! Verified helpers for scanning and comparing character sequences.
//!
//! The streaming adapters work over `&str` views (`Seq<char>`); everything
//! here is specified against those views so callers can reason about string
//! contents exactly.

use vstd::prelude::*;

verus! {

/// `p` is a prefix of `s`.
pub open spec fn spec_starts_with(s: Seq<char>, p: Seq<char>) -> bool {
    p.len() <= s.len() && s.subrange(0, p.len() as int) == p
}

/// `p` is a suffix of `s`.
pub open spec fn spec_ends_with(s: Seq<char>, p: Seq<char>) -> bool {
    p.len() <= s.len() && s.subrange(s.len() - p.len(), s.len() as int) == p
}

/// `p` occurs in `s` at position `i`.
pub open spec fn spec_occurs_at(s: Seq<char>, p: Seq<char>, i: int) -> bool {
    0 <= i && i + p.len() <= s.len() && s.subrange(i, i + p.len()) == p
}

/// `p` occurs somewhere in `s`.
pub open spec fn spec_has_sub(s: Seq<char>, p: Seq<char>) -> bool {
    exists|i: int| spec_occurs_at(s, p, i)
}

/// `p` occurs at `i` and nowhere earlier.
pub open spec fn spec_is_first_at(s: Seq<char>, p: Seq<char>, i: int) -> bool {
    spec_occurs_at(s, p, i) && forall|j: int| 0 <= j < i ==> !spec_occurs_at(s, p, j)
}

/// Position of the first occurrence of `p` in `s`, if any.
pub open spec fn spec_find(s: Seq<char>, p: Seq<char>) -> Option<int>
    decreases s.len(),
{
    if spec_occurs_at(s, p, 0) {
        Some(0int)
    } else if s.len() == 0 {
        None
    } else {
        match spec_find(s.drop_first(), p) {
            Some(i) => Some(i + 1),
            None => None,
        }
    }
}

/// Occurrences in the tail of `s` are occurrences in `s` shifted by one.
proof fn lemma_occurs_tail(s: Seq<char>, p: Seq<char>, i: int)
    requires
        s.len() > 0,
        0 <= i,
    ensures
        spec_occurs_at(s.drop_first(), p, i) <==> spec_occurs_at(s, p, i + 1),
{
    if i + 1 + p.len() <= s.len() {
        assert(s.drop_first().subrange(i, i + p.len() as int) =~= s.subrange(
            i + 1,
            i + 1 + p.len() as int,
        ));
    }
}

/// `spec_find` returns the first occurrence, or reports that none exists.
pub proof fn lemma_find_correct(s: Seq<char>, p: Seq<char>)
    ensures
        match spec_find(s, p) {
            Some(i) => spec_is_first_at(s, p, i),
            None => forall|j: int| !spec_occurs_at(s, p, j),
        },
    decreases s.len(),
{
    if spec_occurs_at(s, p, 0) {
    } else if s.len() == 0 {
        assert forall|j: int| !spec_occurs_at(s, p, j) by {
            if spec_occurs_at(s, p, j) {
                assert(p.len() == 0);
                assert(spec_occurs_at(s, p, 0));
            }
        }
    } else {
        lemma_find_correct(s.drop_first(), p);
        match spec_find(s.drop_first(), p) {
            Some(i) => {
                lemma_occurs_tail(s, p, i);
                assert(spec_occurs_at(s, p, i + 1));
                assert forall|j: int| 0 <= j < i + 1 implies !spec_occurs_at(s, p, j) by {
                    if j == 0 {
                    } else {
                        lemma_occurs_tail(s, p, j - 1);
                    }
                }
            },
            None => {
                assert forall|j: int| !spec_occurs_at(s, p, j) by {
                    if spec_occurs_at(s, p, j) {
                        if j == 0 {
                        } else {
                            lemma_occurs_tail(s, p, j - 1);
                            assert(spec_occurs_at(s.drop_first(), p, j - 1));
                        }
                    }
                }
            },
        }
    }
}

/// The characters of `s` and `p` agree at offsets `i..i + p.len()`.
fn matches_at(s: &str, p: &str, i: usize, n: usize, m: usize) -> (r: bool)
    requires
        n == s@.len(),
        m == p@.len(),
        i + m <= n,
    ensures
        r == spec_occurs_at(s@, p@, i as int),
{
    let mut k: usize = 0;
    while k < m
        invariant
            k <= m,
            n == s@.len(),
            m == p@.len(),
            i + m <= n,
            forall|q: int| 0 <= q < k ==> s@[i + q] == p@[q],
        decreases m - k,
    {
        if s.get_char(i + k) != p.get_char(k) {
            assert(!spec_occurs_at(s@, p@, i as int)) by {
                if spec_occurs_at(s@, p@, i as int) {
                    assert(s@.subrange(i as int, i + m as int)[k as int] == p@[k as int]);
                }
            }
            return false;
        }
        k += 1;
    }
    assert(s@.subrange(i as int, i + m as int) =~= p@);
    true
}

/// True when the views of `a` and `b` are equal character sequences.
pub fn str_eq(a: &str, b: &str) -> (r: bool)
    ensures
        r == (a@ == b@),
{
    let an = a.unicode_len();
    let bn = b.unicode_len();
    if an != bn {
        return false;
    }
    let r = matches_at(a, b, 0, an, bn);
    proof {
        assert(a@.subrange(0, bn as int) =~= a@);
    }
    r
}

/// True when `p` is a prefix of `s`.
pub fn str_starts_with(s: &str, p: &str) -> (r: bool)
    ensures
        r == spec_starts_with(s@, p@),
{
    let n = s.unicode_len();
    let m = p.unicode_len();
    if m > n {
        return false;
    }
    matches_at(s, p, 0, n, m)
}

/// True when `p` is a suffix of `s`.
pub fn str_ends_with(s: &str, p: &str) -> (r: bool)
    ensures
        r == spec_ends_with(s@, p@),
{
    let n = s.unicode_len();
    let m = p.unicode_len();
    if m > n {
        return false;
    }
    let r = matches_at(s, p, n - m, n, m);
    proof {
        assert(spec_occurs_at(s@, p@, n - m) == spec_ends_with(s@, p@));
    }
    r
}

/// Position of the first occurrence of `p` in `s`.
pub fn find_sub(s: &str, p: &str) -> (r: Option<usize>)
    ensures
        (r is Some) == (spec_find(s@, p@) is Some),
        r matches Some(i) ==> spec_find(s@, p@) == Some(i as int) && spec_is_first_at(
            s@,
            p@,
            i as int,
        ),
        r is None ==> forall|j: int| !spec_occurs_at(s@, p@, j),
{
    let n = s.unicode_len();
    let m = p.unicode_len();
    if m == 0 {
        proof {
            assert(s@.subrange(0, 0) =~= p@);
            assert(spec_occurs_at(s@, p@, 0));
            lemma_find_correct(s@, p@);
            match spec_find(s@, p@) {
                Some(q) => {
                    assert(q == 0);
                },
                None => {
                    assert(false);
                },
            }
        }
        return Some(0);
    }
    if m > n {
        proof {
            lemma_find_correct(s@, p@);
            assert forall|j: int| !spec_occurs_at(s@, p@, j) by {
                if spec_occurs_at(s@, p@, j) {
                    assert(j + m <= n);
                }
            }
            match spec_find(s@, p@) {
                Some(q) => {
                    assert(false);
                },
                None => {},
            }
        }
        return None;
    }
    let mut i: usize = 0;
    while i <= n - m
        invariant
            n == s@.len(),
            m == p@.len(),
            1 <= m <= n,
            i <= n - m + 1,
            forall|j: int| 0 <= j < i ==> !spec_occurs_at(s@, p@, j),
        decreases n - i,
    {
        if matches_at(s, p, i, n, m) {
            proof {
                lemma_find_correct(s@, p@);
                assert(spec_occurs_at(s@, p@, i as int));
                match spec_find(s@, p@) {
                    Some(q) => {
                        assert(spec_is_first_at(s@, p@, q));
                        if q < i {
                            assert(!spec_occurs_at(s@, p@, q));
                            assert(false);
                        }
                        if q > i {
                            assert(!spec_occurs_at(s@, p@, i as int));
                            assert(false);
                        }
                    },
                    None => {
                        assert(!spec_occurs_at(s@, p@, i as int));
                        assert(false);
                    },
                }
            }
            return Some(i);
        }
        i += 1;
    }
    proof {
        lemma_find_correct(s@, p@);
        assert forall|j: int| !spec_occurs_at(s@, p@, j) by {
            if spec_occurs_at(s@, p@, j) {
                assert(0 <= j && j + m <= n);
                assert(j < i);
            }
        }
        match spec_find(s@, p@) {
            Some(q) => {
                assert(false);
            },
            None => {},
        }
    }
    None
}

/// True when `p` occurs somewhere in `s`.
pub fn str_contains(s: &str, p: &str) -> (r: bool)
    ensures
        r == spec_has_sub(s@, p@),
{
    let r = find_sub(s, p);
    proof {
        if r is Some {
            assert(spec_occurs_at(s@, p@, r->0 as int));
        }
    }
    r.is_some()
}

/// The whitespace characters that the library strips at text edges.
pub open spec fn spec_is_space(c: char) -> bool {
    c == ' ' || c == '\t' || c == '\n' || c == '\r' || c == '\u{b}' || c == '\u{c}'
}

/// Executable test for `spec_is_space`.
pub fn is_space_char(c: char) -> (r: bool)
    ensures
        r == spec_is_space(c),
{
    c == ' ' || c == '\t' || c == '\n' || c == '\r' || c == '\u{b}' || c == '\u{c}'
}

/// `s` with its leading whitespace removed.
pub open spec fn spec_trim_start(s: Seq<char>) -> Seq<char>
    decreases s.len(),
{
    if s.len() > 0 && spec_is_space(s[0]) {
        spec_trim_start(s.drop_first())
    } else {
        s
    }
}

/// `s` with its trailing whitespace removed.
pub open spec fn spec_trim_end(s: Seq<char>) -> Seq<char>
    decreases s.len(),
{
    if s.len() > 0 && spec_is_space(s[s.len() - 1]) {
        spec_trim_end(s.drop_last())
    } else {
        s
    }
}

/// `s` with whitespace removed from both ends.
pub open spec fn spec_trim(s: Seq<char>) -> Seq<char> {
    spec_trim_end(spec_trim_start(s))
}

proof fn lemma_trim_start_at(s: Seq<char>, a: int)
    requires
        0 <= a <= s.len(),
        forall|k: int| 0 <= k < a ==> spec_is_space(s[k]),
        a == s.len() || !spec_is_space(s[a]),
    ensures
        spec_trim_start(s) == s.subrange(a, s.len() as int),
    decreases a,
{
    if a == 0 {
        if s.len() > 0 && spec_is_space(s[0]) {
            assert(false);
        }
        assert(s.subrange(0, s.len() as int) =~= s);
    } else {
        assert(spec_is_space(s[0]));
        let t = s.drop_first();
        lemma_trim_start_at(t, a - 1);
        assert(t.subrange(a - 1, t.len() as int) =~= s.subrange(a, s.len() as int));
    }
}

proof fn lemma_trim_end_at(s: Seq<char>, b: int)
    requires
        0 <= b <= s.len(),
        forall|k: int| b <= k < s.len() ==> spec_is_space(s[k]),
        b == 0 || !spec_is_space(s[b - 1]),
    ensures
        spec_trim_end(s) == s.subrange(0, b),
    decreases s.len() - b,
{
    if b == s.len() {
        if s.len() > 0 && spec_is_space(s[s.len() - 1]) {
            assert(false);
        }
        assert(s.subrange(0, s.len() as int) =~= s);
    } else {
        assert(spec_is_space(s[s.len() - 1]));
        let t = s.drop_last();
        lemma_trim_end_at(t, b);
        assert(t.subrange(0, b) =~= s.subrange(0, b));
    }
}

/// `s` with surrounding whitespace removed, as an owned string.
pub fn trim_str(s: &str) -> (r: String)
    ensures
        r@ == spec_trim(s@),
{
    let n = s.unicode_len();
    let mut a: usize = 0;
    while a < n && is_space_char(s.get_char(a))
        invariant
            n == s@.len(),
            a <= n,
            forall|k: int| 0 <= k < a ==> spec_is_space(s@[k]),
        decreases n - a,
    {
        a += 1;
    }
    let mut b: usize = n;
    while b > a && is_space_char(s.get_char(b - 1))
        invariant
            n == s@.len(),
            a <= b <= n,
            forall|k: int| b <= k < n ==> spec_is_space(s@[k]),
        decreases b,
    {
        b -= 1;
    }
    proof {
        lemma_trim_start_at(s@, a as int);
        let t = s@.subrange(a as int, n as int);
        if b == a {
            lemma_trim_end_at(t, 0);
        } else {
            assert(!spec_is_space(t[b - a - 1]));
            lemma_trim_end_at(t, b - a);
        }
        assert(t.subrange(0, b - a) =~= s@.subrange(a as int, b as int));
    }
    let out = s.substring_char(a, b);
    out.to_owned()
}

/// `s` with its leading whitespace removed, as an owned string.
pub fn trim_start_str(s: &str) -> (r: String)
    ensures
        r@ == spec_trim_start(s@),
{
    let n = s.unicode_len();
    let mut a: usize = 0;
    while a < n && is_space_char(s.get_char(a))
        invariant
            n == s@.len(),
            a <= n,
            forall|k: int| 0 <= k < a ==> spec_is_space(s@[k]),
        decreases n - a,
    {
        a += 1;
    }
    proof {
        lemma_trim_start_at(s@, a as int);
    }
    let out = s.substring_char(a, n);
    out.to_owned()
}

/// Code point of `c` with ASCII upper-case letters folded to lower case.
pub open spec fn spec_lower_cp(c: char) -> u32 {
    if 65 <= c as u32 && c as u32 <= 90 {
        (c as u32 + 32) as u32
    } else {
        c as u32
    }
}

/// `s` as a sequence of case-folded code points.
pub open spec fn spec_lower_seq(s: Seq<char>) -> Seq<u32> {
    Seq::new(s.len(), |i: int| spec_lower_cp(s[i]))
}

/// True when `a` and `b` are equal up to ASCII case.
pub fn eq_ignore_ascii_case(a: &str, b: &str) -> (r: bool)
    ensures
        r == (spec_lower_seq(a@) == spec_lower_seq(b@)),
{
    let an = a.unicode_len();
    let bn = b.unicode_len();
    if an != bn {
        proof {
            assert(spec_lower_seq(a@).len() != spec_lower_seq(b@).len());
        }
        return false;
    }
    let mut i: usize = 0;
    while i < an
        invariant
            i <= an,
            an == a@.len(),
            an == b@.len(),
            forall|j: int| 0 <= j < i ==> spec_lower_cp(a@[j]) == spec_lower_cp(b@[j]),
        decreases an - i,
    {
        let ca = a.get_char(i) as u32;
        let cb = b.get_char(i) as u32;
        let la = if 65 <= ca && ca <= 90 {
            ca + 32
        } else {
            ca
        };
        let lb = if 65 <= cb && cb <= 90 {
            cb + 32
        } else {
            cb
        };
        if la != lb {
            assert(spec_lower_seq(a@)[i as int] != spec_lower_seq(b@)[i as int]);
            return false;
        }
        i += 1;
    }
    proof {
        assert(spec_lower_seq(a@) =~= spec_lower_seq(b@));
    }
    true
}

/// The view of an optional string.
pub open spec fn view_opt(o: Option<String>) -> Option<Seq<char>> {
    match o {
        Some(s) => Some(s@),
        None => None,
    }
}

/// Relies on `String`'s `FromIterator<char>`: collecting characters yields
/// the string of exactly those characters.
#[verifier::external_body]
pub fn chars_to_string(v: &Vec<char>) -> (r: String)
    ensures
        r@ == v@,
{
    v.iter().collect()
}

/// The decimal digit character for `d`.
pub open spec fn spec_digit_char(d: int) -> char {
    if d == 0 {
        '0'
    } else if d == 1 {
        '1'
    } else if d == 2 {
        '2'
    } else if d == 3 {
        '3'
    } else if d == 4 {
        '4'
    } else if d == 5 {
        '5'
    } else if d == 6 {
        '6'
    } else if d == 7 {
        '7'
    } else if d == 8 {
        '8'
    } else {
        '9'
    }
}

/// Decimal digits of `m` prepended to `tail`; no digits for zero.
pub open spec fn spec_dec_from(m: nat, tail: Seq<char>) -> Seq<char>
    decreases m,
{
    if m == 0 {
        tail
    } else {
        spec_dec_from(m / 10, seq![spec_digit_char((m % 10) as int)] + tail)
    }
}

/// The decimal rendering of an unsigned number.
pub open spec fn spec_u64_dec(n: nat) -> Seq<char> {
    if n == 0 {
        seq!['0']
    } else {
        spec_dec_from(n, Seq::empty())
    }
}

/// The decimal rendering of a signed number.
pub open spec fn spec_i64_dec(n: int) -> Seq<char> {
    if n < 0 {
        seq!['-'] + spec_u64_dec((-n) as nat)
    } else {
        spec_u64_dec(n as nat)
    }
}

/// The decimal digit character for `d`.
fn digit_char(d: u64) -> (r: char)
    requires
        d < 10,
    ensures
        r == spec_digit_char(d as int),
{
    if d == 0 {
        '0'
    } else if d == 1 {
        '1'
    } else if d == 2 {
        '2'
    } else if d == 3 {
        '3'
    } else if d == 4 {
        '4'
    } else if d == 5 {
        '5'
    } else if d == 6 {
        '6'
    } else if d == 7 {
        '7'
    } else if d == 8 {
        '8'
    } else {
        '9'
    }
}

/// Render an unsigned number in decimal.
pub fn u64_to_string(n: u64) -> (r: String)
    ensures
        r@ == spec_u64_dec(n as nat),
{
    if n == 0 {
        proof {
            reveal_strlit("0");
            assert("0"@ =~= seq!['0']);
        }
        let z = String::from_str("0");
        return z;
    }
    let mut digits: Vec<char> = Vec::new();
    let mut m: u64 = n;
    proof {
        assert(digits@ =~= Seq::<char>::empty());
    }
    while m > 0
        invariant
            spec_dec_from(n as nat, Seq::empty()) == spec_dec_from(m as nat, digits@),
        decreases m,
    {
        let d = digit_char(m % 10);
        let ghost prev = digits@;
        digits.insert(0, d);
        proof {
            assert(digits@ =~= seq![d] + prev);
        }
        m = m / 10;
    }
    chars_to_string(&digits)
}

/// Render a signed number in decimal.
pub fn i64_to_string(n: i64) -> (r: String)
    ensures
        r@ == spec_i64_dec(n as int),
{
    if n >= 0 {
        u64_to_string(n as u64)
    } else {
        let u: u64 = ((-(n + 1)) as u64) + 1;
        proof {
            assert(u as nat == (-(n as int)) as nat);
            reveal_strlit("-");
            assert("-"@ =~= seq!['-']);
        }
        let body = u64_to_string(u);
        let r = String::from_str("-").concat(body.as_str());
        r
    }
}

/// Number of bytes `c` occupies in UTF-8.
pub open spec fn spec_char_utf8_len(c: char) -> int {
    if (c as u32) < 0x80 {
        1
    } else if (c as u32) < 0x800 {
        2
    } else if (c as u32) < 0x10000 {
        3
    } else {
        4
    }
}

/// Total UTF-8 byte length of the first `k` characters of `s`.
pub open spec fn spec_utf8_len_prefix(s: Seq<char>, k: int) -> int
    decreases k,
{
    if k <= 0 {
        0
    } else {
        spec_utf8_len_prefix(s, k - 1) + spec_char_utf8_len(s[k - 1])
    }
}

/// Executable UTF-8 byte length of one character.
pub fn char_utf8_len(c: char) -> (r: usize)
    ensures
        r as int == spec_char_utf8_len(c),
{
    let u = c as u32;
    if u < 0x80 {
        1
    } else if u < 0x800 {
        2
    } else if u < 0x10000 {
        3
    } else {
        4
    }
}

} // verus!
