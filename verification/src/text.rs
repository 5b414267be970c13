//! Character-level helpers for building and comparing strings.
use vstd::prelude::*;

verus! {

/// Appends one character to `s`.
///
/// Wraps `String::push`, which appends the character at the end of the string.
#[verifier::external_body]
pub(crate) fn push_char(s: &mut String, c: char)
    ensures
        final(s)@ == old(s)@.push(c),
{
    s.push(c);
}

/// The characters of `s`, in order.
pub fn chars_of(s: &str) -> (v: Vec<char>)
    ensures
        v@ == s@,
{
    let mut v: Vec<char> = Vec::new();
    for c in it: s.chars()
        invariant
            v@ == it.seq().take(it.index() as int),
    {
        v.push(c);
    }
    v
}

/// Whether two strings hold the same characters.
pub fn str_eq(a: &str, b: &str) -> (r: bool)
    ensures
        r == (a@ == b@),
{
    let x = chars_of(a);
    let y = chars_of(b);
    if x.len() != y.len() {
        return false;
    }
    let mut i: usize = 0;
    while i < x.len()
        invariant
            x@ == a@,
            y@ == b@,
            x.len() == y.len(),
            i <= x.len(),
            forall|j: int| 0 <= j < i ==> x@[j] == y@[j],
        decreases x.len() - i,
    {
        if x[i] != y[i] {
            return false;
        }
        i += 1;
    }
    assert(x@ =~= y@);
    true
}

/// A string holding exactly the characters `cs`.
pub fn string_from_chars(cs: &[char]) -> (s: String)
    ensures
        s@ == cs@,
{
    let mut s = String::new();
    let mut i: usize = 0;
    while i < cs.len()
        invariant
            i <= cs.len(),
            s@ == cs@.take(i as int),
        decreases cs.len() - i,
    {
        push_char(&mut s, cs[i]);
        assert(cs@.take(i as int).push(cs@[i as int]) =~= cs@.take(i + 1));
        i += 1;
    }
    assert(cs@.take(cs.len() as int) =~= cs@);
    s
}

} // verus!

verus! {

/// The number of `"` characters at the start of `s`.
pub open spec fn leading_quotes(s: Seq<char>) -> nat
    decreases s.len(),
{
    if s.len() > 0 && s[0] == '"' {
        1 + leading_quotes(s.drop_first())
    } else {
        0
    }
}

/// The number of `"` characters at the end of `s`.
pub open spec fn trailing_quotes(s: Seq<char>) -> nat
    decreases s.len(),
{
    if s.len() > 0 && s.last() == '"' {
        1 + trailing_quotes(s.drop_last())
    } else {
        0
    }
}

/// `s` with every leading and trailing `"` removed (`str::trim_matches('"')`).
pub open spec fn trim_quotes(s: Seq<char>) -> Seq<char> {
    let t = s.skip(leading_quotes(s) as int);
    t.take(t.len() - trailing_quotes(t))
}

proof fn lemma_leading_quotes(s: Seq<char>)
    ensures
        leading_quotes(s) <= s.len(),
        forall|i: int| 0 <= i < leading_quotes(s) ==> s[i] == '"',
        leading_quotes(s) < s.len() ==> s[leading_quotes(s) as int] != '"',
    decreases s.len(),
{
    if s.len() > 0 && s[0] == '"' {
        lemma_leading_quotes(s.drop_first());
        assert forall|i: int| 0 <= i < leading_quotes(s) implies s[i] == '"' by {
            if i > 0 {
                assert(s[i] == s.drop_first()[i - 1]);
            }
        }
    }
}

proof fn lemma_trailing_quotes(s: Seq<char>)
    ensures
        trailing_quotes(s) <= s.len(),
        forall|i: int| s.len() - trailing_quotes(s) <= i < s.len() ==> s[i] == '"',
        trailing_quotes(s) < s.len() ==> s[s.len() - 1 - trailing_quotes(s)] != '"',
    decreases s.len(),
{
    if s.len() > 0 && s.last() == '"' {
        lemma_trailing_quotes(s.drop_last());
        assert forall|i: int| s.len() - trailing_quotes(s) <= i < s.len() implies s[i] == '"' by {
            if i < s.len() - 1 {
                assert(s[i] == s.drop_last()[i]);
            }
        }
    }
}

/// Trimming quotes keeps a contiguous middle part of `s`: everything before
/// it and after it is `"`, and the kept part neither starts nor ends with
/// `"`.
pub proof fn law_trim_quotes_keeps_the_middle(s: Seq<char>)
    ensures
        exists|a: int, e: int| {
            &&& 0 <= a <= e <= s.len()
            &&& trim_quotes(s) == s.subrange(a, e)
            &&& forall|i: int| 0 <= i < a ==> s[i] == '"'
            &&& forall|i: int| e <= i < s.len() ==> s[i] == '"'
            &&& a < e ==> s[a] != '"' && s[e - 1] != '"'
        },
{
    lemma_leading_quotes(s);
    let a = leading_quotes(s) as int;
    let t = s.skip(a);
    lemma_trailing_quotes(t);
    let b = trailing_quotes(t) as int;
    let e = s.len() - b;
    assert(trim_quotes(s) =~= s.subrange(a, e));
    assert forall|i: int| e <= i < s.len() implies s[i] == '"' by {
        assert(s[i] == t[i - a]);
    }
    if a < e {
        assert(t[t.len() - 1 - b] == s[e - 1]);
    }
    assert(0 <= a <= e <= s.len());
}

/// A count of leading characters that are all `"` and stops at a non-`"`
/// (or the end) is `leading_quotes`.
proof fn lemma_leading_quotes_is(s: Seq<char>, a: int)
    requires
        0 <= a <= s.len(),
        forall|i: int| 0 <= i < a ==> s[i] == '"',
        a < s.len() ==> s[a] != '"',
    ensures
        leading_quotes(s) == a,
    decreases s.len(),
{
    if a > 0 {
        lemma_leading_quotes_is(s.drop_first(), a - 1);
    }
}

proof fn lemma_trailing_quotes_is(s: Seq<char>, b: int)
    requires
        0 <= b <= s.len(),
        forall|i: int| s.len() - b <= i < s.len() ==> s[i] == '"',
        b < s.len() ==> s[s.len() - 1 - b] != '"',
    ensures
        trailing_quotes(s) == b,
    decreases s.len(),
{
    if b > 0 {
        let d = s.drop_last();
        assert forall|i: int| d.len() - (b - 1) <= i < d.len() implies d[i] == '"' by {
            assert(d[i] == s[i]);
        }
        if b - 1 < d.len() {
            assert(d[d.len() - 1 - (b - 1)] == s[s.len() - 1 - b]);
        }
        lemma_trailing_quotes_is(d, b - 1);
    }
}

/// Remove every leading and trailing `"` from `s`.
pub fn trim_quotes_of(s: &str) -> (r: String)
    ensures
        r@ == trim_quotes(s@),
{
    let cs = chars_of(s);
    let n = cs.len();
    let mut a: usize = 0;
    while a < n && cs[a] == '"'
        invariant
            cs@ == s@,
            n == cs@.len(),
            a <= n,
            forall|i: int| 0 <= i < a ==> cs@[i] == '"',
        decreases n - a,
    {
        a += 1;
    }
    proof {
        lemma_leading_quotes_is(s@, a as int);
    }
    let mut e: usize = n;
    while e > a && cs[e - 1] == '"'
        invariant
            cs@ == s@,
            n == cs@.len(),
            a <= e <= n,
            forall|i: int| e <= i < n ==> cs@[i] == '"',
        decreases e,
    {
        e -= 1;
    }
    let ghost t = s@.skip(a as int);
    proof {
        let b = (n - e) as int;
        assert forall|i: int| t.len() - b <= i < t.len() implies t[i] == '"' by {
            assert(t[i] == cs@[a + i]);
        }
        if b < t.len() {
            assert(t[t.len() - 1 - b] == cs@[e - 1]);
        }
        lemma_trailing_quotes_is(t, b);
    }
    let mut out: Vec<char> = Vec::new();
    let mut i: usize = a;
    while i < e
        invariant
            cs@ == s@,
            a <= i <= e <= n,
            n == cs@.len(),
            out@ == cs@.subrange(a as int, i as int),
        decreases e - i,
    {
        out.push(cs[i]);
        assert(cs@.subrange(a as int, i as int).push(cs@[i as int]) =~= cs@.subrange(a as int, i + 1));
        i += 1;
    }
    assert(out@ =~= t.take(t.len() - (n - e)));
    string_from_chars(out.as_slice())
}

/// The decimal digit character for `d` (`0 <= d < 10`).
pub open spec fn digit_char(d: nat) -> char {
    if d == 0 { '0' } else if d == 1 { '1' } else if d == 2 { '2' } else if d == 3 { '3' } else if d == 4 { '4' } else if d == 5 { '5' } else if d == 6 { '6' } else if d == 7 { '7' } else if d == 8 { '8' } else { '9' }
}

/// The decimal representation of `n`, without leading zeros.
pub open spec fn decimal(n: nat) -> Seq<char>
    decreases n,
{
    if n < 10 {
        seq![digit_char(n)]
    } else {
        decimal(n / 10).push(digit_char(n % 10))
    }
}

/// The numeric value of a string of decimal digits.
pub open spec fn digits_value(s: Seq<char>) -> int
    decreases s.len(),
{
    if s.len() == 0 {
        0
    } else {
        digits_value(s.drop_last()) * 10 + (s.last() as int - '0' as int)
    }
}

/// `decimal(n)` is the base-ten numeral of `n`: at least one digit, every
/// character one of `0`..=`9`, no leading zero unless `n` is zero, and its
/// digits read in base ten give `n`.
pub proof fn law_decimal_is_base_ten(n: nat)
    ensures
        decimal(n).len() >= 1,
        forall|i: int| 0 <= i < decimal(n).len() ==> '0' <= #[trigger] decimal(n)[i] <= '9',
        decimal(n)[0] == '0' ==> n == 0,
        digits_value(decimal(n)) == n,
    decreases n,
{
    if n < 10 {
        assert(decimal(n).drop_last() =~= Seq::<char>::empty());
        assert(digit_char(n) as int - '0' as int == n);
        assert(digits_value(decimal(n)) == digits_value(decimal(n).drop_last()) * 10 + (decimal(n).last() as int - '0' as int));
    } else {
        law_decimal_is_base_ten(n / 10);
        assert(digit_char(n % 10) as int - '0' as int == n % 10);
        let p = decimal(n / 10);
        assert(decimal(n).last() == digit_char(n % 10));
        assert(decimal(n).drop_last() =~= p);
        assert(digits_value(decimal(n)) == digits_value(p) * 10 + (decimal(n).last() as int - '0' as int));
        assert(decimal(n)[0] == p[0]);
        assert forall|i: int| 0 <= i < decimal(n).len() implies '0' <= #[trigger] decimal(n)[i] <= '9' by {
            if i < p.len() {
                assert(decimal(n)[i] == p[i]);
            }
        }
    }
}

fn digit(d: usize) -> (c: char)
    requires
        d < 10,
    ensures
        c == digit_char(d as nat),
{
    if d == 0 { '0' } else if d == 1 { '1' } else if d == 2 { '2' } else if d == 3 { '3' } else if d == 4 { '4' } else if d == 5 { '5' } else if d == 6 { '6' } else if d == 7 { '7' } else if d == 8 { '8' } else { '9' }
}

/// The decimal representation of `n`.
pub fn decimal_string(n: usize) -> (r: String)
    ensures
        r@ == decimal(n as nat),
    decreases n,
{
    if n < 10 {
        let mut s = String::new();
        push_char(&mut s, digit(n));
        assert(s@ =~= seq![digit_char(n as nat)]);
        s
    } else {
        let mut s = decimal_string(n / 10);
        push_char(&mut s, digit(n % 10));
        s
    }
}

} // verus!

verus! {

/// What `str::to_lowercase` returns for a string holding `s`.
pub uninterp spec fn spec_to_lowercase(s: Seq<char>) -> Seq<char>;

/// `c` with ASCII `A`..=`Z` mapped to `a`..=`z`.
pub open spec fn ascii_lower(c: char) -> char {
    if 'A' <= c && c <= 'Z' {
        ((c as u32) + 32) as char
    } else {
        c
    }
}

/// Every character of `s` is ASCII.
pub open spec fn all_ascii(s: Seq<char>) -> bool {
    forall|i: int| 0 <= i < s.len() ==> (#[trigger] s[i] as u32) < 128
}

/// The lowercase form of `s`: for ASCII text each letter `A`..=`Z` becomes
/// `a`..=`z` and every other character stays; other text is lowered as
/// `str::to_lowercase` does.
pub open spec fn lowercase(s: Seq<char>) -> Seq<char> {
    if all_ascii(s) {
        s.map_values(|c: char| ascii_lower(c))
    } else {
        spec_to_lowercase(s)
    }
}

/// The lowercase form of `s`.
///
/// Wraps `str::to_lowercase` (Unicode lowercase mapping). Claimed: the result
/// is the named function of the input, and on ASCII input it maps `A`..=`Z` to
/// `a`..=`z` and keeps every other character, as the standard library
/// documents. Not claimed: anything about the mapping of other characters.
#[verifier::external_body]
pub(crate) fn to_lowercase(s: &str) -> (r: String)
    ensures
        r@ == spec_to_lowercase(s@),
        all_ascii(s@) ==> r@ == s@.map_values(|c: char| ascii_lower(c)),
{
    s.to_lowercase()
}

} // verus!

verus! {

/// `parts` joined with `sep` between consecutive parts.
pub open spec fn join(parts: Seq<Seq<char>>, sep: Seq<char>) -> Seq<char>
    decreases parts.len(),
{
    if parts.len() == 0 {
        Seq::empty()
    } else if parts.len() == 1 {
        parts[0]
    } else {
        join(parts.drop_last(), sep) + sep + parts.last()
    }
}

/// Join `parts` with `sep` between consecutive parts.
pub fn join_strings(parts: &Vec<String>, sep: &str) -> (r: String)
    ensures
        r@ == join(parts@.map_values(|s: String| s@), sep@),
{
    let ghost views = parts@.map_values(|s: String| s@);
    let mut r = String::new();
    let mut i: usize = 0;
    while i < parts.len()
        invariant
            i <= parts@.len(),
            views == parts@.map_values(|s: String| s@),
            r@ == join(views.take(i as int), sep@),
        decreases parts@.len() - i,
    {
        if i > 0 {
            r.append(sep);
        }
        r.append(parts[i].as_str());
        proof {
            let t = views.take(i + 1);
            assert(t.drop_last() =~= views.take(i as int));
            if i == 0 {
                assert(join(views.take(0), sep@) =~= Seq::<char>::empty());
                assert(r@ =~= t[0]);
            }
        }
        i += 1;
    }
    assert(views.take(parts@.len() as int) =~= views);
    r
}

} // verus!
