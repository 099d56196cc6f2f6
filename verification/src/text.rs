//! Character-level string helpers shared by the rest of the crate.

use vstd::prelude::*;

verus! {

/// Whether `c` has the Unicode `White_Space` property, as `char::is_whitespace` reports it.
pub uninterp spec fn char_is_whitespace(c: char) -> bool;

/// Calls `char::is_whitespace`; its result is named `char_is_whitespace`.
#[verifier::external_body]
fn is_whitespace(c: char) -> (res: bool)
    ensures
        res == char_is_whitespace(c),
{
    c.is_whitespace()
}

/// Calls `String::push`, which appends one character to the end of the string.
#[verifier::external_body]
fn push_char(s: &mut String, c: char)
    ensures
        final(s)@ == old(s)@.push(c),
{
    s.push(c)
}

/// `s` with every leading character that satisfies `p` removed.
pub open spec fn trim_start_by(s: Seq<char>, p: spec_fn(char) -> bool) -> Seq<char>
    decreases s.len(),
{
    if s.len() > 0 && p(s[0]) {
        trim_start_by(s.drop_first(), p)
    } else {
        s
    }
}

/// `s` with every trailing character that satisfies `p` removed.
pub open spec fn trim_end_by(s: Seq<char>, p: spec_fn(char) -> bool) -> Seq<char>
    decreases s.len(),
{
    if s.len() > 0 && p(s.last()) {
        trim_end_by(s.drop_last(), p)
    } else {
        s
    }
}

/// The predicate "is white space".
pub open spec fn whitespace() -> spec_fn(char) -> bool {
    |c: char| char_is_whitespace(c)
}

/// The predicate "is the character `c`".
pub open spec fn is_char(c: char) -> spec_fn(char) -> bool {
    |x: char| x == c
}

/// The characters `str::trim` keeps: leading and trailing white space removed.
pub open spec fn trim_whitespace(s: Seq<char>) -> Seq<char> {
    trim_end_by(trim_start_by(s, whitespace()), whitespace())
}

/// `s` with every leading copy of `c` removed (`str::trim_start_matches` with a `char`).
pub open spec fn trim_start_char(s: Seq<char>, c: char) -> Seq<char> {
    trim_start_by(s, is_char(c))
}

/// `s` with every trailing copy of `c` removed (`str::trim_end_matches` with a `char`).
pub open spec fn trim_end_char(s: Seq<char>, c: char) -> Seq<char> {
    trim_end_by(s, is_char(c))
}

/// Whether `prefix` begins `s`.
pub open spec fn has_prefix(s: Seq<char>, prefix: Seq<char>) -> bool {
    prefix.len() <= s.len() && s.subrange(0, prefix.len() as int) == prefix
}

/// `s` with every leading copy of `prefix` removed (`str::trim_start_matches` with a
/// non-empty `&str`).
pub open spec fn trim_start_str(s: Seq<char>, prefix: Seq<char>) -> Seq<char>
    decreases s.len(),
{
    if prefix.len() > 0 && has_prefix(s, prefix) {
        trim_start_str(s.subrange(prefix.len() as int, s.len() as int), prefix)
    } else {
        s
    }
}

/// The characters of `s`, in order.
pub fn chars_of(s: &str) -> (v: Vec<char>)
    ensures
        v@ == s@,
{
    let mut v: Vec<char> = Vec::new();
    for c in it: s.chars()
        invariant
            it.seq() == s@,
            v@.len() == it.index(),
            v@ == s@.take(v@.len() as int),
    {
        v.push(c);
        assert(v@ == s@.take(v@.len() as int));
    }
    assert(v@ == s@);
    v
}

/// Appends the characters `cs` to `out`, in order.
pub fn push_all(out: &mut Vec<char>, cs: &[char])
    ensures
        final(out)@ == old(out)@ + cs@,
{
    let ghost start = out@;
    for i in 0..cs.len()
        invariant
            out@ == start + cs@.take(i as int),
    {
        out.push(cs[i]);
        assert(out@ == start + cs@.take(i + 1));
    }
    assert(cs@.take(cs@.len() as int) == cs@);
}

/// A string made of the characters `cs`, in order.
pub fn string_of(cs: &[char]) -> (s: String)
    ensures
        s@ == cs@,
{
    let mut s = String::new();
    for i in 0..cs.len()
        invariant
            s@ == cs@.take(i as int),
    {
        push_char(&mut s, cs[i]);
        assert(s@ == cs@.take(i + 1));
    }
    assert(cs@.take(cs@.len() as int) == cs@);
    s
}

/// What trimming the start leaves does not begin with a trimmed character.
pub proof fn lemma_trim_start_first(s: Seq<char>, p: spec_fn(char) -> bool)
    ensures
        trim_start_by(s, p).len() > 0 ==> !p(trim_start_by(s, p)[0]),
        trim_start_by(trim_start_by(s, p), p) == trim_start_by(s, p),
    decreases s.len(),
{
    if s.len() > 0 && p(s[0]) {
        lemma_trim_start_first(s.drop_first(), p);
    }
}

/// Trimming the end keeps a prefix and drops only trimmed characters; doing it twice
/// changes nothing.
pub proof fn lemma_trim_end_prefix_by(s: Seq<char>, p: spec_fn(char) -> bool)
    ensures
        trim_end_by(s, p).len() <= s.len(),
        trim_end_by(s, p) == s.subrange(0, trim_end_by(s, p).len() as int),
        forall|k: int| trim_end_by(s, p).len() <= k < s.len() ==> p(#[trigger] s[k]),
        trim_end_by(s, p).len() > 0 ==> !p(trim_end_by(s, p).last()),
        trim_end_by(trim_end_by(s, p), p) == trim_end_by(s, p),
    decreases s.len(),
{
    if s.len() > 0 && p(s.last()) {
        lemma_trim_end_prefix_by(s.drop_last(), p);
        let t = trim_end_by(s.drop_last(), p);
        assert(s.drop_last().subrange(0, t.len() as int) == s.subrange(0, t.len() as int));
        assert forall|k: int| t.len() <= k < s.len() implies p(#[trigger] s[k]) by {
            if k < s.len() - 1 {
                assert(s[k] == s.drop_last()[k]);
            }
        }
    } else {
        assert(s.subrange(0, s.len() as int) == s);
    }
}

/// Trimming the start keeps a suffix: what is left is the end of `s`.
pub proof fn lemma_trim_start_suffix_by(s: Seq<char>, p: spec_fn(char) -> bool)
    ensures
        trim_start_by(s, p).len() <= s.len(),
        trim_start_by(s, p) == s.subrange(s.len() - trim_start_by(s, p).len(), s.len() as int),
    decreases s.len(),
{
    if s.len() > 0 && p(s[0]) {
        lemma_trim_start_suffix_by(s.drop_first(), p);
        let t = trim_start_by(s.drop_first(), p);
        assert(s.drop_first().subrange(s.len() - 1 - t.len(), s.len() - 1) == s.subrange(
            s.len() - t.len(),
            s.len() as int,
        ));
    } else {
        assert(s.subrange(0, s.len() as int) == s);
    }
}

/// What trimming white space leaves is a stretch of the original characters, in order:
/// the characters of `s` from `lo` on.
pub proof fn lemma_trim_whitespace_is_stretch(s: Seq<char>) -> (lo: int)
    ensures
        0 <= lo,
        lo + trim_whitespace(s).len() <= s.len(),
        trim_whitespace(s) == s.subrange(lo, lo + trim_whitespace(s).len()),
{
    let p = whitespace();
    let a = trim_start_by(s, p);
    lemma_trim_start_suffix_by(s, p);
    lemma_trim_end_prefix_by(a, p);
    let t = trim_end_by(a, p);
    let lo = s.len() - a.len();
    assert(t == s.subrange(lo, lo + t.len()));
    lo
}

/// Trimming the start drops only characters that match, up to the first that does not.
proof fn lemma_trim_start_drops_matching(s: Seq<char>, p: spec_fn(char) -> bool)
    ensures
        forall|k: int| 0 <= k < s.len() - trim_start_by(s, p).len() ==> p(#[trigger] s[k]),
    decreases s.len(),
{
    if s.len() > 0 && p(s[0]) {
        lemma_trim_start_drops_matching(s.drop_first(), p);
        assert forall|k: int| 0 <= k < s.len() - trim_start_by(s, p).len() implies p(
            #[trigger] s[k],
        ) by {
            if k > 0 {
                assert(s[k] == s.drop_first()[k - 1]);
            }
        }
    }
}

/// `str::trim` removes exactly the white space at both ends: what is left is the stretch
/// of `s` from `lo` on; every character before it and after it is white space; and, unless
/// nothing is left, it neither begins nor ends with white space.
pub proof fn lemma_trim_whitespace_exact(s: Seq<char>) -> (lo: int)
    ensures
        0 <= lo,
        lo + trim_whitespace(s).len() <= s.len(),
        trim_whitespace(s) == s.subrange(lo, lo + trim_whitespace(s).len()),
        forall|k: int| 0 <= k < lo ==> char_is_whitespace(#[trigger] s[k]),
        forall|k: int|
            lo + trim_whitespace(s).len() <= k < s.len() ==> char_is_whitespace(#[trigger] s[k]),
        trim_whitespace(s).len() > 0 ==> !char_is_whitespace(trim_whitespace(s)[0])
            && !char_is_whitespace(trim_whitespace(s).last()),
{
    let p = whitespace();
    let a = trim_start_by(s, p);
    lemma_trim_start_suffix_by(s, p);
    lemma_trim_start_first(s, p);
    lemma_trim_start_drops_matching(s, p);
    lemma_trim_end_prefix_by(a, p);
    let t = trim_end_by(a, p);
    let lo = s.len() - a.len();
    assert(t == s.subrange(lo, lo + t.len()));
    assert forall|k: int| 0 <= k < lo implies char_is_whitespace(#[trigger] s[k]) by {
        assert(p(s[k]));
    }
    assert forall|k: int| lo + t.len() <= k < s.len() implies char_is_whitespace(
        #[trigger] s[k],
    ) by {
        assert(s[k] == a[k - lo]);
        assert(p(a[k - lo]));
    }
    if t.len() > 0 {
        assert(t[0] == a[0]);
        assert(p(t.last()) == char_is_whitespace(t.last()));
    }
    lo
}

/// Trimming white space twice is trimming it once, so an answer that was already trimmed
/// reads the same after another trim.
pub proof fn lemma_trim_whitespace_idempotent(s: Seq<char>)
    ensures
        trim_whitespace(trim_whitespace(s)) == trim_whitespace(s),
{
    let p = whitespace();
    let a = trim_start_by(s, p);
    let b = trim_end_by(a, p);
    lemma_trim_start_first(s, p);
    lemma_trim_end_prefix_by(a, p);
    if b.len() > 0 {
        assert(b[0] == a[0]);
    }
    assert(trim_start_by(b, p) == b);
}

/// One step of [`trim_start_by`]: when the character at `i` is trimmed, trimming from `i`
/// is trimming from `i + 1`.
proof fn lemma_trim_start_step(s: Seq<char>, i: int, p: spec_fn(char) -> bool)
    requires
        0 <= i < s.len(),
        p(s[i]),
    ensures
        trim_start_by(s.subrange(i, s.len() as int), p) == trim_start_by(
            s.subrange(i + 1, s.len() as int),
            p,
        ),
{
    assert(s.subrange(i, s.len() as int).drop_first() == s.subrange(i + 1, s.len() as int));
}

/// One step of [`trim_end_by`]: when the character before `j` is trimmed, trimming up to
/// `j` is trimming up to `j - 1`.
proof fn lemma_trim_end_step(s: Seq<char>, i: int, j: int, p: spec_fn(char) -> bool)
    requires
        0 <= i < j <= s.len(),
        p(s[j - 1]),
    ensures
        trim_end_by(s.subrange(i, j), p) == trim_end_by(s.subrange(i, j - 1), p),
{
    assert(s.subrange(i, j).drop_last() == s.subrange(i, j - 1));
}

/// `s` without leading and trailing white space, as `str::trim` leaves it.
pub fn trim_whitespace_chars(s: &[char]) -> (r: &[char])
    ensures
        r@ == trim_whitespace(s@),
{
    let n = s.len();
    let mut i: usize = 0;
    assert(s@.subrange(0, n as int) == s@);
    while i < n && is_whitespace(s[i])
        invariant
            n == s@.len(),
            i <= n,
            trim_start_by(s@, whitespace()) == trim_start_by(s@.subrange(i as int, n as int), whitespace()),
        decreases n - i,
    {
        proof { lemma_trim_start_step(s@, i as int, whitespace()); }
        i = i + 1;
    }
    let mut j: usize = n;
    while j > i && is_whitespace(s[j - 1])
        invariant
            n == s@.len(),
            i <= j <= n,
            trim_start_by(s@, whitespace()) == s@.subrange(i as int, n as int),
            trim_whitespace(s@) == trim_end_by(s@.subrange(i as int, j as int), whitespace()),
        decreases j - i,
    {
        proof { lemma_trim_end_step(s@, i as int, j as int, whitespace()); }
        j = j - 1;
    }
    &s[i..j]
}

/// `s` without its leading copies of `c`, as `str::trim_start_matches(c)` leaves it.
pub fn trim_start_char_chars(s: &[char], c: char) -> (r: &[char])
    ensures
        r@ == trim_start_char(s@, c),
{
    let n = s.len();
    let mut i: usize = 0;
    assert(s@.subrange(0, n as int) == s@);
    while i < n && s[i] == c
        invariant
            n == s@.len(),
            i <= n,
            trim_start_char(s@, c) == trim_start_by(s@.subrange(i as int, n as int), is_char(c)),
        decreases n - i,
    {
        proof { lemma_trim_start_step(s@, i as int, is_char(c)); }
        i = i + 1;
    }
    &s[i..n]
}

/// `s` without its trailing copies of `c`, as `str::trim_end_matches(c)` leaves it.
pub fn trim_end_char_chars(s: &[char], c: char) -> (r: &[char])
    ensures
        r@ == trim_end_char(s@, c),
{
    let n = s.len();
    let mut j: usize = n;
    assert(s@.subrange(0, n as int) == s@);
    while j > 0 && s[j - 1] == c
        invariant
            n == s@.len(),
            j <= n,
            trim_end_char(s@, c) == trim_end_by(s@.subrange(0, j as int), is_char(c)),
        decreases j,
    {
        proof { lemma_trim_end_step(s@, 0, j as int, is_char(c)); }
        j = j - 1;
    }
    &s[0..j]
}

/// Whether `s` begins with `prefix`.
pub fn starts_with_chars(s: &[char], prefix: &[char]) -> (b: bool)
    ensures
        b == has_prefix(s@, prefix@),
{
    if prefix.len() > s.len() {
        return false;
    }
    let mut k: usize = 0;
    while k < prefix.len()
        invariant
            prefix@.len() <= s@.len(),
            k <= prefix@.len(),
            forall|m: int| 0 <= m < k ==> s@[m] == prefix@[m],
        decreases prefix@.len() - k,
    {
        if s[k] != prefix[k] {
            assert(s@.subrange(0, prefix@.len() as int)[k as int] != prefix@[k as int]);
            return false;
        }
        k = k + 1;
    }
    assert(s@.subrange(0, prefix@.len() as int) == prefix@);
    true
}

/// `s` without its leading copies of `prefix`, as `str::trim_start_matches(prefix)` leaves it
/// for a non-empty `prefix`.
pub fn trim_start_str_chars<'a>(s: &'a [char], prefix: &[char]) -> (r: &'a [char])
    requires
        prefix@.len() > 0,
    ensures
        r@ == trim_start_str(s@, prefix@),
{
    let n = s.len();
    let mut i: usize = 0;
    assert(s@.subrange(0, n as int) == s@);
    loop
        invariant
            n == s@.len(),
            i <= n,
            prefix@.len() > 0,
            trim_start_str(s@, prefix@) == trim_start_str(s@.subrange(i as int, n as int), prefix@),
        decreases n - i,
    {
        let rest = &s[i..n];
        if starts_with_chars(rest, prefix) {
            let ghost sub = s@.subrange(i as int, n as int);
            assert(sub.subrange(prefix@.len() as int, sub.len() as int) == s@.subrange(
                i + prefix@.len(),
                n as int,
            ));
            i = i + prefix.len();
        } else {
            return rest;
        }
    }
}

} // verus!
