//! Character and string helpers shared by the parsing and filtering code.

use vstd::prelude::*;
use vstd::string::*;

verus! {

/// ASCII decimal digit.
pub open spec fn is_digit_char(c: char) -> bool {
    48 <= c as int <= 57
}

/// Numeric value of an ASCII digit.
pub open spec fn digit_val(c: char) -> int {
    c as int - 48
}

/// The code point of `c` with an ASCII lower-case letter folded to upper case.
pub open spec fn upper_code(c: char) -> int {
    if 97 <= c as int <= 122 {
        c as int - 32
    } else {
        c as int
    }
}

/// Equal up to ASCII case.
pub open spec fn eq_ignore_case_spec(a: Seq<char>, b: Seq<char>) -> bool {
    a.len() == b.len() && forall|i: int| 0 <= i < a.len() ==> upper_code(a[i]) == upper_code(b[i])
}

/// Whitespace as the log pipeline understands it: the common ASCII blanks.
pub open spec fn is_space_char(c: char) -> bool {
    c == ' ' || c == '\t' || c == '\n' || c == '\r' || c as int == 11 || c as int == 12
}

/// A word character for keyword-boundary purposes: ASCII letter, digit or `_`.
pub open spec fn is_word_char(c: char) -> bool {
    ||| is_digit_char(c)
    ||| 65 <= c as int <= 90
    ||| 97 <= c as int <= 122
    ||| c == '_'
}

/// `needle` occurs in `hay` starting at position `i`.
pub open spec fn occurs_at(hay: Seq<char>, needle: Seq<char>, i: int) -> bool {
    0 <= i && i + needle.len() <= hay.len() && hay.subrange(i, i + needle.len()) =~= needle
}

/// `needle` occurs somewhere in `hay`.
pub open spec fn contains_seq(hay: Seq<char>, needle: Seq<char>) -> bool {
    exists|i: int| occurs_at(hay, needle, i)
}

/// Exec test of an ASCII-case-insensitive match between two strings.
pub fn eq_ignore_case(a: &str, b: &str) -> (r: bool)
    ensures
        r == eq_ignore_case_spec(a@, b@),
{
    let alen = a.unicode_len();
    let blen = b.unicode_len();
    if alen != blen {
        return false;
    }
    for i in 0..alen
        invariant
            alen == a@.len(),
            blen == b@.len(),
            alen == blen,
            forall|j: int| 0 <= j < i ==> upper_code(a@[j]) == upper_code(b@[j]),
    {
        let ca = a.get_char(i) as u32;
        let cb = b.get_char(i) as u32;
        let ua = if ca >= 97 && ca <= 122 { ca - 32 } else { ca };
        let ub = if cb >= 97 && cb <= 122 { cb - 32 } else { cb };
        if ua != ub {
            return false;
        }
    }
    true
}

/// Exec test of `needle` occurring at position `i` of `hay`.
pub fn occurs_here(hay: &str, needle: &str, i: usize) -> (r: bool)
    requires
        i + needle@.len() <= hay@.len(),
    ensures
        r == occurs_at(hay@, needle@, i as int),
{
    let hlen = hay.unicode_len();
    let nlen = needle.unicode_len();
    for j in 0..nlen
        invariant
            hlen == hay@.len(),
            nlen == needle@.len(),
            i + nlen <= hay@.len(),
            forall|k: int| 0 <= k < j ==> hay@[i + k] == needle@[k],
    {
        if hay.get_char(i + j) != needle.get_char(j) {
            assert(hay@.subrange(i as int, i + needle@.len())[j as int] != needle@[j as int]);
            return false;
        }
    }
    assert(hay@.subrange(i as int, i + needle@.len()) =~= needle@);
    true
}

/// Exec substring search, used by the service-name filter.
pub fn contains_sub(hay: &str, needle: &str) -> (r: bool)
    ensures
        r == contains_seq(hay@, needle@),
{
    let hlen = hay.unicode_len();
    let nlen = needle.unicode_len();
    if nlen > hlen {
        assert(forall|i: int| !occurs_at(hay@, needle@, i));
        return false;
    }
    if nlen == 0 {
        assert(occurs_at(hay@, needle@, 0));
        return true;
    }
    let last = hlen - nlen;
    for i in 0..last + 1
        invariant
            hlen == hay@.len(),
            nlen == needle@.len(),
            nlen <= hlen,
            last == hlen - nlen,
            forall|j: int| 0 <= j < i ==> !occurs_at(hay@, needle@, j),
    {
        if occurs_here(hay, needle, i) {
            return true;
        }
    }
    assert(forall|i: int| i > last ==> !occurs_at(hay@, needle@, i));
    false
}

/// Exec test of a literal prefix.
pub fn starts_with_str(s: &str, prefix: &str) -> (r: bool)
    ensures
        r == (prefix@.len() <= s@.len() && s@.subrange(0, prefix@.len() as int) =~= prefix@),
{
    let slen = s.unicode_len();
    let plen = prefix.unicode_len();
    if plen > slen {
        return false;
    }
    occurs_here(s, prefix, 0)
}

/// Exec test of a whitespace character.
pub fn space_char(c: char) -> (r: bool)
    ensures
        r == is_space_char(c),
{
    c == ' ' || c == '\t' || c == '\n' || c == '\r' || c as u32 == 11 || c as u32 == 12
}

/// Exec test of a word character.
pub fn word_char(c: char) -> (r: bool)
    ensures
        r == is_word_char(c),
{
    let u = c as u32;
    (48 <= u && u <= 57) || (65 <= u && u <= 90) || (97 <= u && u <= 122) || c == '_'
}

/// Count of leading whitespace characters.
pub open spec fn lead_spaces(s: Seq<char>) -> int
    decreases s.len(),
{
    if s.len() > 0 && is_space_char(s[0]) {
        1 + lead_spaces(s.drop_first())
    } else {
        0
    }
}

/// Count of trailing whitespace characters.
pub open spec fn trail_spaces(s: Seq<char>) -> int
    decreases s.len(),
{
    if s.len() > 0 && is_space_char(s.last()) {
        1 + trail_spaces(s.drop_last())
    } else {
        0
    }
}

/// The string with leading and trailing whitespace removed.
pub open spec fn trimmed(s: Seq<char>) -> Seq<char> {
    if lead_spaces(s) == s.len() {
        Seq::empty()
    } else {
        s.subrange(lead_spaces(s), s.len() - trail_spaces(s))
    }
}

proof fn lemma_lead_spaces(s: Seq<char>, k: int)
    requires
        0 <= k <= s.len(),
        forall|j: int| 0 <= j < k ==> is_space_char(s[j]),
        k == s.len() || !is_space_char(s[k]),
    ensures
        lead_spaces(s) == k,
    decreases k,
{
    if k > 0 {
        lemma_lead_spaces(s.drop_first(), k - 1);
    }
}

proof fn lemma_trail_spaces(s: Seq<char>, k: int)
    requires
        0 <= k <= s.len(),
        forall|j: int| s.len() - k <= j < s.len() ==> is_space_char(s[j]),
        k == s.len() || !is_space_char(s[s.len() - k - 1]),
    ensures
        trail_spaces(s) == k,
    decreases k,
{
    if k > 0 {
        lemma_trail_spaces(s.drop_last(), k - 1);
    }
}

/// Exec trim of leading and trailing whitespace.
pub fn trim_str(s: &str) -> (r: &str)
    ensures
        r@ == trimmed(s@),
{
    let len = s.unicode_len();
    let mut a: usize = 0;
    while a < len && space_char(s.get_char(a))
        invariant
            0 <= a <= len,
            len == s@.len(),
            forall|j: int| 0 <= j < a ==> is_space_char(s@[j]),
        decreases len - a,
    {
        a = a + 1;
    }
    proof {
        lemma_lead_spaces(s@, a as int);
    }
    if a == len {
        proof {
            reveal_strlit("");
        }
        assert(trimmed(s@) =~= Seq::<char>::empty());
        assert(""@ =~= Seq::<char>::empty());
        return "";
    }
    let mut b: usize = 0;
    while b < len - a && space_char(s.get_char(len - b - 1))
        invariant
            0 <= b <= len - a,
            a < len,
            len == s@.len(),
            forall|j: int| len - b <= j < len ==> is_space_char(s@[j]),
            !is_space_char(s@[a as int]),
        decreases len - a - b,
    {
        b = b + 1;
    }
    proof {
        lemma_trail_spaces(s@, b as int);
        reveal_strlit("");
    }
    s.substring_char(a, len - b)
}

/// Exec equality of two string slices.
pub fn str_eq(a: &str, b: &str) -> (r: bool)
    ensures
        r == (a@ == b@),
{
    let alen = a.unicode_len();
    let blen = b.unicode_len();
    if alen != blen {
        return false;
    }
    let same = occurs_here(a, b, 0);
    proof {
        if same {
            assert(a@.subrange(0, b@.len() as int) =~= a@);
        }
    }
    same
}

/// Filtering one more element appends it exactly when it passes.
pub proof fn lemma_filter_push<A>(s: Seq<A>, x: A, p: spec_fn(A) -> bool)
    ensures
        s.push(x).filter(p) == (if p(x) { s.filter(p).push(x) } else { s.filter(p) }),
{
    reveal(Seq::filter);
    assert(s.push(x).drop_last() =~= s);
    assert(s.push(x).last() == x);
}

/// Exec case-insensitive comparison of `hay[i ..]` against `needle`.
pub fn ci_occurs_here(hay: &str, needle: &str, i: usize) -> (r: bool)
    requires
        i + needle@.len() <= hay@.len(),
    ensures
        r == eq_ignore_case_spec(hay@.subrange(i as int, i + needle@.len()), needle@),
{
    let hlen = hay.unicode_len();
    let nlen = needle.unicode_len();
    for j in 0..nlen
        invariant
            hlen == hay@.len(),
            nlen == needle@.len(),
            i + nlen <= hay@.len(),
            forall|k: int| 0 <= k < j ==> upper_code(hay@[i + k]) == upper_code(needle@[k]),
    {
        let ca = hay.get_char(i + j) as u32;
        let cb = needle.get_char(j) as u32;
        let ua = if ca >= 97 && ca <= 122 { ca - 32 } else { ca };
        let ub = if cb >= 97 && cb <= 122 { cb - 32 } else { cb };
        if ua != ub {
            assert(upper_code(hay@.subrange(i as int, i + needle@.len())[j as int])
                != upper_code(needle@[j as int]));
            return false;
        }
    }
    assert forall|k: int| 0 <= k < needle@.len() implies upper_code(
        hay@.subrange(i as int, i + needle@.len())[k],
    ) == upper_code(needle@[k]) by {
        assert(hay@.subrange(i as int, i + needle@.len())[k] == hay@[i + k]);
    }
    true
}

/// View-level equality of two optional strings.
pub open spec fn opt_str_like(a: Option<String>, b: Option<String>) -> bool {
    match (a, b) {
        (Some(x), Some(y)) => x@ == y@,
        (None, None) => true,
        _ => false,
    }
}

/// A copy of a vector of strings, equal at the view level.
pub(crate) fn clone_string_vec(v: &Vec<String>) -> (r: Vec<String>)
    ensures
        r.deep_view() == v.deep_view(),
{
    let mut out: Vec<String> = Vec::new();
    let n = v.len();
    for i in 0..n
        invariant
            n == v.len(),
            out@.len() == i,
            forall|k: int| 0 <= k < i ==> out@[k]@ == #[trigger] v@[k]@,
    {
        out.push(v[i].clone());
    }
    assert(out.deep_view() =~~= v.deep_view());
    out
}

/// A copy of a vector of string pairs, equal at the view level.
pub(crate) fn clone_pair_vec(v: &Vec<(String, String)>) -> (r: Vec<(String, String)>)
    ensures
        r.deep_view() == v.deep_view(),
{
    let mut out: Vec<(String, String)> = Vec::new();
    let n = v.len();
    for i in 0..n
        invariant
            n == v.len(),
            out@.len() == i,
            forall|k: int|
                0 <= k < i ==> (#[trigger] out@[k]).0@ == v@[k].0@ && out@[k].1@ == v@[k].1@,
    {
        let p = &v[i];
        out.push((p.0.clone(), p.1.clone()));
    }
    assert(out.deep_view() =~~= v.deep_view());
    out
}

/// A copy of an optional string, equal at the view level.
pub(crate) fn clone_opt_string(v: &Option<String>) -> (r: Option<String>)
    ensures
        opt_str_like(*v, r),
{
    match v {
        Some(s) => Some(s.clone()),
        None => None,
    }
}

/// A copy of a vector of key/value/flag triples, equal at the view
/// level.
pub(crate) fn clone_triple_vec(v: &Vec<(String, String, bool)>) -> (r: Vec<(String, String, bool)>)
    ensures
        r.deep_view() == v.deep_view(),
{
    let mut out: Vec<(String, String, bool)> = Vec::new();
    let n = v.len();
    for i in 0..n
        invariant
            n == v.len(),
            out@.len() == i,
            forall|k: int|
                0 <= k < i ==> (#[trigger] out@[k]).0@ == v@[k].0@ && out@[k].1@ == v@[k].1@
                    && out@[k].2 == v@[k].2,
    {
        let p = &v[i];
        out.push((p.0.clone(), p.1.clone(), p.2));
    }
    assert(out.deep_view() =~~= v.deep_view());
    out
}

} // verus!
