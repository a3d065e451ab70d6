//! Character-level helpers: header bytes as text, prefixes, key segments and
//! decimal numerals.

use vstd::prelude::*;

verus! {

/// A byte that an HTTP header value may hold when it is read as text: a
/// printable ASCII character (space to `~`) or a horizontal tab.
pub open spec fn is_visible_ascii(b: u8) -> bool {
    (32 <= b && b < 127) || b == 9
}

/// Every byte of `bytes` is visible ASCII.
pub open spec fn all_visible_ascii(bytes: Seq<u8>) -> bool {
    forall|i: int| 0 <= i < bytes.len() ==> is_visible_ascii(#[trigger] bytes[i])
}

/// The characters that a sequence of ASCII bytes spells, one per byte.
pub open spec fn ascii_text(bytes: Seq<u8>) -> Seq<char> {
    bytes.map_values(|b: u8| b as char)
}

/// `c` is an ASCII letter or an ASCII digit.
pub open spec fn is_ascii_alphanumeric(c: char) -> bool {
    ('A' <= c && c <= 'Z') || ('a' <= c && c <= 'z') || ('0' <= c && c <= '9')
}

/// `p` is a prefix of `s`.
pub open spec fn has_prefix(s: Seq<char>, p: Seq<char>) -> bool {
    p.len() <= s.len() && s.take(p.len() as int) == p
}

/// The part of `s` before its first `':'` (all of `s` when it has none): the
/// first item of splitting `s` at every colon.
pub open spec fn first_segment(s: Seq<char>) -> Seq<char>
    decreases s.len(),
{
    if s.len() == 0 {
        s
    } else if s[0] == ':' {
        Seq::empty()
    } else {
        seq![s[0]] + first_segment(s.drop_first())
    }
}

/// The first segment of `s` is the longest prefix of `s` without a colon: it
/// holds no colon, and it is either all of `s` or followed by a colon.
pub proof fn law_first_segment(s: Seq<char>)
    ensures
        first_segment(s).len() <= s.len(),
        s.take(first_segment(s).len() as int) == first_segment(s),
        forall|i: int| 0 <= i < first_segment(s).len() ==> #[trigger] first_segment(s)[i] != ':',
        first_segment(s).len() < s.len() ==> s[first_segment(s).len() as int] == ':',
    decreases s.len(),
{
    if s.len() > 0 && s[0] != ':' {
        let t = s.drop_first();
        law_first_segment(t);
        let f = first_segment(s);
        let g = first_segment(t);
        assert(f == seq![s[0]] + g);
        assert forall|i: int| 0 <= i < f.len() implies #[trigger] f[i] != ':' by {
            if i > 0 {
                assert(f[i] == g[i - 1]);
            }
        }
        assert(s.take(f.len() as int) =~= f) by {
            assert forall|i: int| 0 <= i < f.len() implies s.take(f.len() as int)[i] == f[i] by {
                if i > 0 {
                    assert(s[i] == t[i - 1]);
                    assert(t.take(g.len() as int)[i - 1] == g[i - 1]);
                }
            }
        }
        if f.len() < s.len() {
            assert(s[f.len() as int] == t[g.len() as int]);
        }
    } else if s.len() > 0 {
        assert(s.take(0) =~= first_segment(s));
    }
}

/// The decimal digit character of `d`.
pub open spec fn digit_char(d: nat) -> char {
    ((('0' as u8) as nat) + d) as char
}

/// The decimal numeral of `n`, most significant digit first, with no leading zero.
pub open spec fn decimal(n: nat) -> Seq<char>
    decreases n,
{
    if n < 10 {
        seq![digit_char(n)]
    } else {
        decimal(n / 10).push(digit_char(n % 10))
    }
}

/// Appends one character to a string (std `String::push`).
#[verifier::external_body]
pub(crate) fn push_char(s: &mut String, c: char)
    ensures
        final(s)@ == old(s)@.push(c),
{
    s.push(c)
}

/// The characters of `s`, in order.
pub fn chars_of(s: &str) -> (v: Vec<char>)
    ensures
        v@ == s@,
{
    broadcast use vstd::string::group_string_axioms;

    let mut v: Vec<char> = Vec::new();
    for c in it: s.chars()
        invariant
            it.seq() == s@,
            v@ == it.seq().take(it.index()),
    {
        v.push(c);
    }
    v
}

/// Reads a header value as text: `Some` exactly when every byte is visible
/// ASCII, and then the text that the bytes spell.
pub fn header_text(bytes: &[u8]) -> (r: Option<String>)
    ensures
        r is Some <==> all_visible_ascii(bytes@),
        r matches Some(t) ==> t@ == ascii_text(bytes@),
        r is Some <==> forall|i: int|
            0 <= i < bytes@.len() ==> (32 <= #[trigger] bytes@[i] <= 126 || bytes@[i] == 9),
        r matches Some(t) ==> t@.len() == bytes@.len() && forall|i: int|
            0 <= i < bytes@.len() ==> t@[i] == #[trigger] bytes@[i] as char,
{
    let n = bytes.len();
    let mut s = String::new();
    for i in 0..n
        invariant
            n == bytes@.len(),
            forall|j: int| 0 <= j < i ==> is_visible_ascii(#[trigger] bytes@[j]),
            s@ == ascii_text(bytes@.take(i as int)),
    {
        let b = bytes[i];
        if !((32 <= b && b < 127) || b == 9) {
            return None;
        }
        push_char(&mut s, b as char);
        assert(ascii_text(bytes@.take(i + 1)) == ascii_text(bytes@.take(i as int)).push(b as char));
    }
    assert(bytes@.take(n as int) == bytes@);
    Some(s)
}

/// Whether `s` begins with `prefix`.
pub fn starts_with(s: &str, prefix: &str) -> (r: bool)
    ensures
        r == has_prefix(s@, prefix@),
{
    let sv = chars_of(s);
    let pv = chars_of(prefix);
    if pv.len() > sv.len() {
        return false;
    }
    let n = pv.len();
    for i in 0..n
        invariant
            n == pv@.len(),
            n <= sv@.len(),
            sv@ == s@,
            pv@ == prefix@,
            forall|j: int| 0 <= j < i ==> sv@[j] == pv@[j],
    {
        if sv[i] != pv[i] {
            assert(s@.take(n as int)[i as int] != prefix@[i as int]);
            return false;
        }
    }
    assert(s@.take(n as int) =~= prefix@);
    true
}

proof fn lemma_first_segment_take(s: Seq<char>, i: int)
    requires
        0 <= i <= s.len(),
        forall|j: int| 0 <= j < i ==> s[j] != ':',
    ensures
        i < s.len() && s[i] == ':' ==> first_segment(s) == s.take(i),
        i == s.len() ==> first_segment(s) == s,
    decreases i,
{
    if i > 0 {
        let t = s.drop_first();
        assert forall|j: int| 0 <= j < i - 1 implies t[j] != ':' by {
            assert(t[j] == s[j + 1]);
        }
        lemma_first_segment_take(t, i - 1);
        assert(s.take(i) == seq![s[0]] + t.take(i - 1));
        assert(s == seq![s[0]] + t);
    }
}

/// The part of `s` before its first colon (`s.split(':')`'s first item).
pub fn segment_before_colon(s: &str) -> (r: String)
    ensures
        r@ == first_segment(s@),
{
    let v = chars_of(s);
    let n = v.len();
    let mut i: usize = 0;
    while i < n && v[i] != ':'
        invariant
            n == v@.len(),
            v@ == s@,
            i <= n,
            forall|j: int| 0 <= j < i ==> s@[j] != ':',
        decreases n - i,
    {
        i = i + 1;
    }
    proof {
        lemma_first_segment_take(s@, i as int);
    }
    let mut out = String::new();
    for j in 0..i
        invariant
            i <= n,
            n == v@.len(),
            v@ == s@,
            out@ == s@.take(j as int),
    {
        push_char(&mut out, v[j]);
        assert(s@.take(j + 1) == s@.take(j as int).push(s@[j as int]));
    }
    proof {
        if i == n {
            assert(s@.take(n as int) == s@);
        }
    }
    out
}

/// The decimal numeral of `n` (what `n.to_string()` prints).
pub fn decimal_string(n: u64) -> (s: String)
    ensures
        s@ == decimal(n as nat),
    decreases n,
{
    if n < 10 {
        let mut s = String::new();
        push_char(&mut s, (48u8 + n as u8) as char);
        s
    } else {
        let mut s = decimal_string(n / 10);
        push_char(&mut s, (48u8 + (n % 10) as u8) as char);
        s
    }
}

} // verus!
