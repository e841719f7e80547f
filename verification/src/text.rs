//! Character-level string utilities: trimming, tokenising, ASCII case
//! folding, and affix tests, each specified over `Seq<char>` views.

use vstd::prelude::*;
use vstd::string::StrSliceExecFns;

verus! {

/// The whitespace characters the protocol cares about.
pub open spec fn is_space_char(c: char) -> bool {
    c == ' ' || c == '\t' || c == '\r' || c == '\n'
}

pub open spec fn all_space(s: Seq<char>) -> bool {
    forall|i: int| 0 <= i < s.len() ==> is_space_char(s[i])
}

/// `s` with its leading whitespace removed.
pub open spec fn trim_start_spec(s: Seq<char>) -> Seq<char>
    decreases s.len(),
{
    if s.len() > 0 && is_space_char(s[0]) {
        trim_start_spec(s.drop_first())
    } else {
        s
    }
}

/// `s` with its trailing whitespace removed.
pub open spec fn trim_end_spec(s: Seq<char>) -> Seq<char>
    decreases s.len(),
{
    if s.len() > 0 && is_space_char(s[s.len() - 1]) {
        trim_end_spec(s.drop_last())
    } else {
        s
    }
}

/// `s` with whitespace removed from both ends.
pub open spec fn trim_spec(s: Seq<char>) -> Seq<char> {
    trim_end_spec(trim_start_spec(s))
}

proof fn lemma_trim_start_at(s: Seq<char>, i: int)
    requires
        0 <= i <= s.len(),
        forall|k: int| 0 <= k < i ==> is_space_char(s[k]),
        i == s.len() || !is_space_char(s[i]),
    ensures
        trim_start_spec(s) == s.skip(i),
    decreases i,
{
    if i == 0 {
        assert(s.skip(0) =~= s);
    } else {
        lemma_trim_start_at(s.drop_first(), i - 1);
        assert(s.drop_first().skip(i - 1) =~= s.skip(i));
    }
}

proof fn lemma_trim_end_at(s: Seq<char>, j: int)
    requires
        0 <= j <= s.len(),
        forall|k: int| j <= k < s.len() ==> is_space_char(s[k]),
        j == 0 || !is_space_char(s[j - 1]),
    ensures
        trim_end_spec(s) == s.take(j),
    decreases s.len(),
{
    if j == s.len() {
        if s.len() > 0 && is_space_char(s[s.len() - 1]) {
            lemma_trim_end_at(s.drop_last(), j - 1);
            assert(s.drop_last().take(j - 1) =~= s.take(j));
        } else {
            assert(s.take(j) =~= s);
        }
    } else {
        lemma_trim_end_at(s.drop_last(), j);
        assert(s.drop_last().take(j) =~= s.take(j));
    }
}

fn is_space(c: char) -> (r: bool)
    ensures
        r == is_space_char(c),
{
    c == ' ' || c == '\t' || c == '\r' || c == '\n'
}

/// Remove leading and trailing whitespace.
pub fn trim(s: &str) -> (r: &str)
    ensures
        r@ == trim_spec(s@),
{
    let n = s.unicode_len();
    let mut a: usize = 0;
    while a < n && is_space(s.get_char(a))
        invariant
            0 <= a <= n,
            n == s@.len(),
            forall|k: int| 0 <= k < a ==> is_space_char(s@[k]),
        decreases n - a,
    {
        a = a + 1;
    }
    let mut b: usize = n;
    while b > a && is_space(s.get_char(b - 1))
        invariant
            a <= b <= n,
            n == s@.len(),
            a == n || !is_space_char(s@[a as int]),
            forall|k: int| b <= k < n ==> is_space_char(s@[k]),
        decreases b,
    {
        b = b - 1;
    }
    proof {
        lemma_trim_start_at(s@, a as int);
        lemma_trim_end_at(s@.skip(a as int), b - a);
        assert(s@.skip(a as int).take(b - a) =~= s@.subrange(a as int, b as int));
    }
    s.substring_char(a, b)
}

/// The maximal run of non-whitespace characters at the head of `s`.
pub open spec fn token_from(s: Seq<char>) -> Seq<char>
    decreases s.len(),
{
    if s.len() == 0 {
        s
    } else if is_space_char(s[0]) {
        Seq::<char>::empty()
    } else {
        seq![s[0]] + token_from(s.drop_first())
    }
}

/// The first whitespace-separated token of `s`.
pub open spec fn token_of(s: Seq<char>) -> Seq<char> {
    token_from(trim_start_spec(s))
}

proof fn lemma_token_from_at(s: Seq<char>, i: int)
    requires
        0 <= i <= s.len(),
        forall|k: int| 0 <= k < i ==> !is_space_char(s[k]),
        i == s.len() || is_space_char(s[i]),
    ensures
        token_from(s) == s.take(i),
    decreases i,
{
    if i == 0 {
        assert(token_from(s) =~= s.take(0));
    } else {
        lemma_token_from_at(s.drop_first(), i - 1);
        assert(seq![s[0]] + s.drop_first().take(i - 1) =~= s.take(i));
    }
}

/// The first whitespace-separated token of `s`, or the empty string when
/// `s` is blank.
pub fn first_token(s: &str) -> (t: &str)
    ensures
        t@ == token_of(s@),
{
    let n = s.unicode_len();
    let mut a: usize = 0;
    while a < n && is_space(s.get_char(a))
        invariant
            0 <= a <= n,
            n == s@.len(),
            forall|k: int| 0 <= k < a ==> is_space_char(s@[k]),
        decreases n - a,
    {
        a = a + 1;
    }
    let mut b: usize = a;
    while b < n && !is_space(s.get_char(b))
        invariant
            a <= b <= n,
            n == s@.len(),
            forall|k: int| a <= k < b ==> !is_space_char(s@[k]),
        decreases n - b,
    {
        b = b + 1;
    }
    proof {
        lemma_trim_start_at(s@, a as int);
        lemma_token_from_at(s@.skip(a as int), b - a);
        assert(s@.skip(a as int).take(b - a) =~= s@.subrange(a as int, b as int));
    }
    s.substring_char(a, b)
}

/// ASCII upper-casing of one character.
pub open spec fn upper_char(c: char) -> char {
    if 97 <= c as u32 && c as u32 <= 122 {
        ((c as u32) - 32) as char
    } else {
        c
    }
}

/// ASCII upper-casing of a character sequence.
pub open spec fn upper_spec(s: Seq<char>) -> Seq<char> {
    Seq::new(s.len(), |i: int| upper_char(s[i]))
}

/// Case-insensitive comparison of `s` against an upper-case pattern `v`.
pub fn token_upper_is(s: &str, v: &str) -> (r: bool)
    ensures
        r == (upper_spec(s@) == v@),
{
    let n = s.unicode_len();
    if n != v.unicode_len() {
        proof {
            assert(upper_spec(s@).len() != v@.len());
        }
        return false;
    }
    let mut i: usize = 0;
    while i < n
        invariant
            0 <= i <= n,
            n == s@.len() && n == v@.len(),
            forall|k: int| 0 <= k < i ==> upper_char(s@[k]) == v@[k],
        decreases n - i,
    {
        let c = s.get_char(i) as u32;
        let d = v.get_char(i) as u32;
        let cu: u32 = if 97 <= c && c <= 122 {
            c - 32
        } else {
            c
        };
        if cu != d {
            proof {
                assert(upper_char(s@[i as int]) != v@[i as int]);
                assert(upper_spec(s@)[i as int] != v@[i as int]);
            }
            return false;
        }
        i = i + 1;
    }
    proof {
        assert(upper_spec(s@) =~= v@);
    }
    true
}

/// Equality of two string slices.
pub fn str_eq(a: &str, b: &str) -> (r: bool)
    ensures
        r == (a@ == b@),
{
    let n = a.unicode_len();
    if n != b.unicode_len() {
        return false;
    }
    let mut i: usize = 0;
    while i < n
        invariant
            0 <= i <= n,
            n == a@.len() && n == b@.len(),
            forall|k: int| 0 <= k < i ==> a@[k] == b@[k],
        decreases n - i,
    {
        if a.get_char(i) != b.get_char(i) {
            return false;
        }
        i = i + 1;
    }
    proof {
        assert(a@ =~= b@);
    }
    true
}

/// `t` is a suffix of `s`.
pub open spec fn ends_with_spec(s: Seq<char>, t: Seq<char>) -> bool {
    t.len() <= s.len() && s.skip(s.len() - t.len()) == t
}

pub fn ends_with(s: &str, t: &str) -> (r: bool)
    ensures
        r == ends_with_spec(s@, t@),
{
    let n = s.unicode_len();
    let m = t.unicode_len();
    if m > n {
        return false;
    }
    let mut i: usize = 0;
    while i < m
        invariant
            0 <= i <= m <= n,
            n == s@.len() && m == t@.len(),
            forall|k: int| 0 <= k < i ==> s@[n - m + k] == t@[k],
        decreases m - i,
    {
        if s.get_char(n - m + i) != t.get_char(i) {
            proof {
                assert(s@.skip(n - m)[i as int] != t@[i as int]);
            }
            return false;
        }
        i = i + 1;
    }
    proof {
        assert(s@.skip(n - m) =~= t@);
    }
    true
}

/// `t` is a prefix of `s`.
pub open spec fn starts_with_spec(s: Seq<char>, t: Seq<char>) -> bool {
    t.len() <= s.len() && s.take(t.len() as int) == t
}

pub fn starts_with(s: &str, t: &str) -> (r: bool)
    ensures
        r == starts_with_spec(s@, t@),
{
    let n = s.unicode_len();
    let m = t.unicode_len();
    if m > n {
        return false;
    }
    let mut i: usize = 0;
    while i < m
        invariant
            0 <= i <= m <= n,
            n == s@.len() && m == t@.len(),
            forall|k: int| 0 <= k < i ==> s@[k] == t@[k],
        decreases m - i,
    {
        if s.get_char(i) != t.get_char(i) {
            proof {
                assert(s@.take(m as int)[i as int] != t@[i as int]);
            }
            return false;
        }
        i = i + 1;
    }
    proof {
        assert(s@.take(m as int) =~= t@);
    }
    true
}

/// Some character of `s` equals `c`.
pub open spec fn has_char(s: Seq<char>, c: char) -> bool {
    exists|i: int| 0 <= i < s.len() && s[i] == c
}

/// The characters of `s` strictly before the first occurrence of `c`;
/// all of `s` when `c` does not occur.
pub open spec fn prefix_before(s: Seq<char>, c: char) -> Seq<char>
    decreases s.len(),
{
    if s.len() == 0 {
        s
    } else if s[0] == c {
        Seq::<char>::empty()
    } else {
        seq![s[0]] + prefix_before(s.drop_first(), c)
    }
}

proof fn lemma_prefix_before_at(s: Seq<char>, c: char, i: int)
    requires
        0 <= i <= s.len(),
        forall|k: int| 0 <= k < i ==> s[k] != c,
        i == s.len() || s[i] == c,
    ensures
        prefix_before(s, c) == s.take(i),
    decreases i,
{
    if i == 0 {
        assert(prefix_before(s, c) =~= s.take(0));
    } else {
        lemma_prefix_before_at(s.drop_first(), c, i - 1);
        assert(seq![s[0]] + s.drop_first().take(i - 1) =~= s.take(i));
    }
}

/// Everything in `prefix_before(s, c)` differs from `c`.
pub proof fn lemma_prefix_before_free(s: Seq<char>, c: char)
    ensures
        !has_char(prefix_before(s, c), c),
    decreases s.len(),
{
    if s.len() > 0 && s[0] != c {
        lemma_prefix_before_free(s.drop_first(), c);
        let p = prefix_before(s, c);
        assert forall|i: int| 0 <= i < p.len() implies p[i] != c by {
            if i > 0 {
                assert(p[i] == prefix_before(s.drop_first(), c)[i - 1]);
            }
        }
    }
}

/// The prefix of `s` before the first occurrence of `c`.
pub fn before_char<'a>(s: &'a str, c: char) -> (r: &'a str)
    ensures
        r@ == prefix_before(s@, c),
{
    let n = s.unicode_len();
    let mut i: usize = 0;
    while i < n && s.get_char(i) != c
        invariant
            0 <= i <= n,
            n == s@.len(),
            forall|k: int| 0 <= k < i ==> s@[k] != c,
        decreases n - i,
    {
        i = i + 1;
    }
    proof {
        lemma_prefix_before_at(s@, c, i as int);
        assert(s@.take(i as int) =~= s@.subrange(0, i as int));
    }
    s.substring_char(0, i)
}

/// ASCII lower-casing of one character.
pub open spec fn lower_char(c: char) -> char {
    if 65 <= c as u32 && c as u32 <= 90 {
        ((c as u32) + 32) as char
    } else {
        c
    }
}

/// ASCII lower-casing of a character sequence.
pub open spec fn lower_spec(s: Seq<char>) -> Seq<char> {
    Seq::new(s.len(), |i: int| lower_char(s[i]))
}

/// Relies on std's `FromIterator` for `String`: collecting characters
/// yields the string of exactly those characters.
#[verifier::external_body]
fn string_from_chars(v: &Vec<char>) -> (r: String)
    ensures
        r@ == v@,
{
    v.iter().collect()
}

/// ASCII lower-casing of a string.
pub fn to_ascii_lower(s: &str) -> (r: String)
    ensures
        r@ == lower_spec(s@),
{
    let n = s.unicode_len();
    let mut out: Vec<char> = Vec::new();
    let mut i: usize = 0;
    while i < n
        invariant
            0 <= i <= n,
            n == s@.len(),
            out@.len() == i,
            forall|k: int| 0 <= k < i ==> out@[k] == lower_char(s@[k]),
        decreases n - i,
    {
        let c = s.get_char(i);
        let u = c as u32;
        if 65 <= u && u <= 90 {
            let l: u8 = (u as u8) + 32;
            out.push(l as char);
        } else {
            out.push(c);
        }
        i = i + 1;
    }
    let r = string_from_chars(&out);
    proof {
        assert(r@ =~= lower_spec(s@));
    }
    r
}

/// ASCII upper-casing of a string.
pub fn to_ascii_upper(s: &str) -> (r: String)
    ensures
        r@ == upper_spec(s@),
{
    let n = s.unicode_len();
    let mut out: Vec<char> = Vec::new();
    let mut i: usize = 0;
    while i < n
        invariant
            0 <= i <= n,
            n == s@.len(),
            out@.len() == i,
            forall|k: int| 0 <= k < i ==> out@[k] == upper_char(s@[k]),
        decreases n - i,
    {
        let c = s.get_char(i);
        let u = c as u32;
        if 97 <= u && u <= 122 {
            let l: u8 = (u as u8) - 32;
            out.push(l as char);
        } else {
            out.push(c);
        }
        i = i + 1;
    }
    let r = string_from_chars(&out);
    proof {
        assert(r@ =~= upper_spec(s@));
    }
    r
}

/// Lexicographic order on character sequences, by code point, with a
/// proper prefix ordered first.
pub open spec fn lex_le(a: Seq<char>, b: Seq<char>) -> bool
    decreases a.len(),
{
    if a.len() == 0 {
        true
    } else if b.len() == 0 {
        false
    } else if (a[0] as u32) < (b[0] as u32) {
        true
    } else if (a[0] as u32) > (b[0] as u32) {
        false
    } else {
        lex_le(a.drop_first(), b.drop_first())
    }
}

/// The order is reflexive.
pub proof fn lemma_lex_le_refl(a: Seq<char>)
    ensures
        lex_le(a, a),
    decreases a.len(),
{
    if a.len() > 0 {
        lemma_lex_le_refl(a.drop_first());
    }
}

/// The order is transitive.
pub proof fn lemma_lex_le_trans(a: Seq<char>, b: Seq<char>, c: Seq<char>)
    requires
        lex_le(a, b),
        lex_le(b, c),
    ensures
        lex_le(a, c),
    decreases a.len(),
{
    if a.len() > 0 {
        assert(b.len() > 0);
        assert(c.len() > 0);
        if a[0] as u32 == b[0] as u32 && b[0] as u32 == c[0] as u32 {
            lemma_lex_le_trans(a.drop_first(), b.drop_first(), c.drop_first());
        }
    }
}

/// The order is total.
pub proof fn lemma_lex_le_total(a: Seq<char>, b: Seq<char>)
    ensures
        lex_le(a, b) || lex_le(b, a),
    decreases a.len(),
{
    if a.len() > 0 && b.len() > 0 && a[0] as u32 == b[0] as u32 {
        lemma_lex_le_total(a.drop_first(), b.drop_first());
    }
}

/// Decide the lexicographic order on strings.
pub fn str_le(a: &str, b: &str) -> (r: bool)
    ensures
        r == lex_le(a@, b@),
{
    let n = a.unicode_len();
    let m = b.unicode_len();
    let mut i: usize = 0;
    proof {
        assert(a@.skip(0) =~= a@);
        assert(b@.skip(0) =~= b@);
    }
    loop
        invariant
            0 <= i <= n,
            i <= m,
            n == a@.len() && m == b@.len(),
            lex_le(a@, b@) == lex_le(a@.skip(i as int), b@.skip(i as int)),
        decreases n - i,
    {
        if i >= n {
            proof {
                assert(a@.skip(i as int) =~= Seq::<char>::empty());
            }
            return true;
        }
        if i >= m {
            proof {
                assert(b@.skip(i as int) =~= Seq::<char>::empty());
                assert(a@.skip(i as int).len() > 0);
            }
            return false;
        }
        let ca = a.get_char(i) as u32;
        let cb = b.get_char(i) as u32;
        proof {
            assert(a@.skip(i as int)[0] == a@[i as int]);
            assert(b@.skip(i as int)[0] == b@[i as int]);
        }
        if ca < cb {
            return true;
        }
        if ca > cb {
            return false;
        }
        proof {
            assert(a@[i as int] == b@[i as int]);
            assert(a@.skip(i as int).drop_first() =~= a@.skip(i + 1));
            assert(b@.skip(i as int).drop_first() =~= b@.skip(i + 1));
        }
        i = i + 1;
    }
}

/// A blank line: empty, or whitespace only.
pub fn is_blank(s: &str) -> (r: bool)
    ensures
        r == all_space(s@),
{
    let n = s.unicode_len();
    let mut i: usize = 0;
    while i < n
        invariant
            0 <= i <= n,
            n == s@.len(),
            forall|k: int| 0 <= k < i ==> is_space_char(s@[k]),
        decreases n - i,
    {
        if !is_space(s.get_char(i)) {
            return false;
        }
        i = i + 1;
    }
    true
}

} // verus!
