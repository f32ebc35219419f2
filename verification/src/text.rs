//! Character sequences: searching, replacing and trimming.
//!
//! The functions here work on `Vec<char>` and are specified over `Seq<char>`,
//! so positions and lengths count characters, never bytes.

use vstd::prelude::*;
use vstd::string::StringExecFns;

verus! {

/// `pat` stands in `s` at index `i`.
pub open spec fn occurs_at(s: Seq<char>, pat: Seq<char>, i: int) -> bool {
    &&& 0 <= i
    &&& i + pat.len() <= s.len()
    &&& s.subrange(i, i + pat.len()) == pat
}

/// `pat` stands somewhere in `s`.
pub open spec fn contains(s: Seq<char>, pat: Seq<char>) -> bool {
    exists|i: int| occurs_at(s, pat, i)
}

/// `s` begins with `pat`.
pub open spec fn starts_with(s: Seq<char>, pat: Seq<char>) -> bool {
    occurs_at(s, pat, 0)
}

/// One scan from the left that replaces each occurrence of `pat` by `rep`;
/// occurrences do not overlap and the replacement is not scanned again.
/// An empty pattern replaces nothing.
pub open spec fn replace_all(s: Seq<char>, pat: Seq<char>, rep: Seq<char>) -> Seq<char>
    decreases s.len(),
{
    if pat.len() == 0 || s.len() < pat.len() {
        s
    } else if starts_with(s, pat) {
        rep + replace_all(s.skip(pat.len() as int), pat, rep)
    } else {
        seq![s[0]] + replace_all(s.skip(1), pat, rep)
    }
}

/// `replace_all`, repeated for as long as it shortens the sequence.
pub open spec fn collapse(s: Seq<char>, pat: Seq<char>, rep: Seq<char>) -> Seq<char>
    decreases s.len(),
{
    let t = replace_all(s, pat, rep);
    if t.len() < s.len() {
        collapse(t, pat, rep)
    } else {
        s
    }
}

/// The characters of the Unicode property White_Space.
pub open spec fn is_whitespace(c: char) -> bool {
    let n = c as u32;
    ||| 0x09 <= n <= 0x0D
    ||| n == 0x20
    ||| n == 0x85
    ||| n == 0xA0
    ||| n == 0x1680
    ||| 0x2000 <= n <= 0x200A
    ||| n == 0x2028
    ||| n == 0x2029
    ||| n == 0x202F
    ||| n == 0x205F
    ||| n == 0x3000
}

/// `s` without its leading white space.
pub open spec fn trim_start(s: Seq<char>) -> Seq<char>
    decreases s.len(),
{
    if s.len() > 0 && is_whitespace(s[0]) {
        trim_start(s.skip(1))
    } else {
        s
    }
}

/// `s` without its trailing white space.
pub open spec fn trim_end(s: Seq<char>) -> Seq<char>
    decreases s.len(),
{
    if s.len() > 0 && is_whitespace(s.last()) {
        trim_end(s.drop_last())
    } else {
        s
    }
}

/// `s` without white space at either end.
pub open spec fn trim(s: Seq<char>) -> Seq<char> {
    trim_end(trim_start(s))
}

/// The first `n` characters of `s`, or all of `s` if it has fewer.
pub open spec fn truncate(s: Seq<char>, n: int) -> Seq<char> {
    if 0 <= n < s.len() {
        s.take(n)
    } else {
        s
    }
}

// ---------------------------------------------------------------------------
// Lemmas
// ---------------------------------------------------------------------------

/// An occurrence in `s.skip(k)` is an occurrence in `s`, `k` places later.
pub proof fn lemma_occurs_skip(s: Seq<char>, pat: Seq<char>, k: int, i: int)
    requires
        0 <= k <= s.len(),
        0 <= i,
    ensures
        occurs_at(s.skip(k), pat, i) == occurs_at(s, pat, i + k),
{
    if i + pat.len() <= s.len() - k {
        assert(s.skip(k).subrange(i, i + pat.len()) =~= s.subrange(i + k, i + k + pat.len()));
    }
}

/// A replacement that is shorter than its pattern shortens exactly the
/// sequences that contain the pattern, and leaves the others as they are.
pub proof fn lemma_replace_shrinks(s: Seq<char>, pat: Seq<char>, rep: Seq<char>)
    requires
        rep.len() < pat.len(),
    ensures
        replace_all(s, pat, rep).len() <= s.len(),
        contains(s, pat) ==> replace_all(s, pat, rep).len() < s.len(),
        !contains(s, pat) ==> replace_all(s, pat, rep) == s,
    decreases s.len(),
{
    if s.len() < pat.len() {
        assert forall|i: int| !occurs_at(s, pat, i) by {}
    } else if starts_with(s, pat) {
        lemma_replace_shrinks(s.skip(pat.len() as int), pat, rep);
    } else {
        let t = s.skip(1);
        lemma_replace_shrinks(t, pat, rep);
        if contains(s, pat) {
            let i = choose|i: int| occurs_at(s, pat, i);
            lemma_occurs_skip(s, pat, 1, i - 1);
            assert(occurs_at(t, pat, i - 1));
        }
        if contains(t, pat) {
            let i = choose|i: int| occurs_at(t, pat, i);
            lemma_occurs_skip(s, pat, 1, i);
            assert(occurs_at(s, pat, i + 1));
        }
        if !contains(s, pat) {
            assert(seq![s[0]] + t =~= s);
        }
    }
}

/// What `collapse` returns no longer contains the pattern, and is no longer
/// than what it was given.
pub proof fn lemma_collapse_clears(s: Seq<char>, pat: Seq<char>, rep: Seq<char>)
    requires
        rep.len() < pat.len(),
    ensures
        !contains(collapse(s, pat, rep), pat),
        collapse(s, pat, rep).len() <= s.len(),
        collapse(s, pat, rep).len() == s.len() ==> collapse(s, pat, rep) == s,
    decreases s.len(),
{
    let t = replace_all(s, pat, rep);
    lemma_replace_shrinks(s, pat, rep);
    if t.len() < s.len() {
        lemma_collapse_clears(t, pat, rep);
    }
}

/// `collapse` changes nothing where the pattern does not occur.
pub proof fn lemma_collapse_fixed(s: Seq<char>, pat: Seq<char>, rep: Seq<char>)
    requires
        rep.len() < pat.len(),
        !contains(s, pat),
    ensures
        collapse(s, pat, rep) == s,
{
    lemma_replace_shrinks(s, pat, rep);
}

/// Every character of `replace_all(s, pat, rep)` satisfies a predicate that
/// all characters of `s` and of `rep` satisfy.
pub proof fn lemma_replace_keeps(
    s: Seq<char>,
    pat: Seq<char>,
    rep: Seq<char>,
    ok: spec_fn(char) -> bool,
)
    requires
        forall|i: int| 0 <= i < s.len() ==> ok(#[trigger] s[i]),
        forall|i: int| 0 <= i < rep.len() ==> ok(#[trigger] rep[i]),
    ensures
        forall|i: int|
            0 <= i < replace_all(s, pat, rep).len() ==> ok(#[trigger] replace_all(s, pat, rep)[i]),
    decreases s.len(),
{
    let r = replace_all(s, pat, rep);
    if pat.len() == 0 || s.len() < pat.len() {
    } else if starts_with(s, pat) {
        let rest = replace_all(s.skip(pat.len() as int), pat, rep);
        lemma_replace_keeps(s.skip(pat.len() as int), pat, rep, ok);
        assert forall|i: int| 0 <= i < r.len() implies ok(#[trigger] r[i]) by {
            if i < rep.len() {
                assert(r[i] == rep[i]);
            } else {
                assert(r[i] == rest[i - rep.len()]);
            }
        }
    } else {
        let rest = replace_all(s.skip(1), pat, rep);
        lemma_replace_keeps(s.skip(1), pat, rep, ok);
        assert forall|i: int| 0 <= i < r.len() implies ok(#[trigger] r[i]) by {
            if i == 0 {
                assert(r[i] == s[0]);
            } else {
                assert(r[i] == rest[i - 1]);
            }
        }
    }
}

/// `lemma_replace_keeps`, for `collapse`.
pub proof fn lemma_collapse_keeps(
    s: Seq<char>,
    pat: Seq<char>,
    rep: Seq<char>,
    ok: spec_fn(char) -> bool,
)
    requires
        forall|i: int| 0 <= i < s.len() ==> ok(#[trigger] s[i]),
        forall|i: int| 0 <= i < rep.len() ==> ok(#[trigger] rep[i]),
    ensures
        forall|i: int|
            0 <= i < collapse(s, pat, rep).len() ==> ok(#[trigger] collapse(s, pat, rep)[i]),
    decreases s.len(),
{
    let t = replace_all(s, pat, rep);
    let r = collapse(s, pat, rep);
    lemma_replace_keeps(s, pat, rep, ok);
    if t.len() < s.len() {
        lemma_collapse_keeps(t, pat, rep, ok);
        assert(r == collapse(t, pat, rep));
    } else {
        assert(r == s);
    }
    assert forall|i: int| 0 <= i < r.len() implies ok(#[trigger] r[i]) by {}
}

/// At index `p` of `k` the pattern differs from `k` before `k` ends.
pub open spec fn differs_within(k: Seq<char>, pat: Seq<char>, p: int) -> bool {
    exists|q: int| 0 <= q < pat.len() && p + q < k.len() && #[trigger] pat[q] != k[p + q]
}

/// No occurrence of `pat` can begin inside `k`, whatever follows `k`: at
/// every index of `k` the pattern already differs from `k` itself.
pub open spec fn resists(k: Seq<char>, pat: Seq<char>) -> bool {
    forall|p: int| 0 <= p < k.len() ==> #[trigger] differs_within(k, pat, p)
}

/// A prefix that resists the pattern passes through `replace_all` unchanged.
pub proof fn lemma_replace_prefix(k: Seq<char>, t: Seq<char>, pat: Seq<char>, rep: Seq<char>)
    requires
        resists(k, pat),
    ensures
        replace_all(k + t, pat, rep) == k + replace_all(t, pat, rep),
    decreases k.len(),
{
    let s = k + t;
    if k.len() == 0 {
        assert(k + t =~= t);
        assert(k + replace_all(t, pat, rep) =~= replace_all(t, pat, rep));
    } else if pat.len() == 0 {
    } else {
        assert(differs_within(k, pat, 0));
        let q = choose|q: int| 0 <= q < pat.len() && 0 + q < k.len() && #[trigger] pat[q] != k[0 + q];
        assert(s[q] == k[q]);
        if s.len() >= pat.len() {
            assert(s.subrange(0, pat.len() as int)[q] == s[q]);
            assert(!starts_with(s, pat));
        }
        let k1 = k.skip(1);
        assert(s.skip(1) =~= k1 + t);
        assert forall|p: int| 0 <= p < k1.len() implies #[trigger] differs_within(k1, pat, p) by {
            assert(differs_within(k, pat, p + 1));
            let q1 = choose|q: int|
                0 <= q < pat.len() && (p + 1) + q < k.len() && #[trigger] pat[q] != k[(p + 1) + q];
            assert(k1[p + q1] == k[(p + 1) + q1]);
        }
        lemma_replace_prefix(k1, t, pat, rep);
        if s.len() < pat.len() {
            // Nothing is replaced in `s`, and so nothing in `t`, which is shorter.
            assert(replace_all(t, pat, rep) == t);
        } else {
            assert(seq![s[0]] + (k1 + replace_all(t, pat, rep)) =~= k + replace_all(
                t,
                pat,
                rep,
            ));
        }
    }
}

/// `lemma_replace_prefix`, for `collapse`.
pub proof fn lemma_collapse_prefix(k: Seq<char>, t: Seq<char>, pat: Seq<char>, rep: Seq<char>)
    requires
        resists(k, pat),
    ensures
        collapse(k + t, pat, rep) == k + collapse(t, pat, rep),
    decreases t.len(),
{
    lemma_replace_prefix(k, t, pat, rep);
    let t1 = replace_all(t, pat, rep);
    if t1.len() < t.len() {
        lemma_collapse_prefix(k, t1, pat, rep);
    }
}

/// Where `t` begins with a character that the pattern does not begin with,
/// or that the replacement begins with too, `replace_all(t, ..)` begins with
/// that character.
pub proof fn lemma_replace_head(t: Seq<char>, pat: Seq<char>, rep: Seq<char>)
    requires
        t.len() > 0,
        pat.len() > 0,
        pat[0] != t[0] || (rep.len() > 0 && rep[0] == t[0]),
    ensures
        replace_all(t, pat, rep).len() > 0,
        replace_all(t, pat, rep)[0] == t[0],
{
    if t.len() >= pat.len() && starts_with(t, pat) {
        assert(t.subrange(0, pat.len() as int)[0] == t[0]);
    }
}

/// `lemma_replace_head`, for `collapse`.
pub proof fn lemma_collapse_head(t: Seq<char>, pat: Seq<char>, rep: Seq<char>)
    requires
        t.len() > 0,
        pat.len() > 0,
        pat[0] != t[0] || (rep.len() > 0 && rep[0] == t[0]),
    ensures
        collapse(t, pat, rep).len() > 0,
        collapse(t, pat, rep)[0] == t[0],
    decreases t.len(),
{
    lemma_replace_head(t, pat, rep);
    let t1 = replace_all(t, pat, rep);
    if t1.len() < t.len() {
        lemma_collapse_head(t1, pat, rep);
    }
}

// ---------------------------------------------------------------------------
// Executable functions
// ---------------------------------------------------------------------------

/// The characters of a string slice.
pub fn chars_of(s: &str) -> (v: Vec<char>)
    ensures
        v@ == s@,
{
    let mut v: Vec<char> = Vec::new();
    for c in it: s.chars()
        invariant
            v@ == it.seq().take(it.index() as int),
    {
        v.push(c);
    }
    v
}

/// `String::push`: the character is appended to the end of the string.
#[verifier::external_body]
fn push_char(s: &mut String, c: char)
    ensures
        final(s)@ == old(s)@.push(c),
{
    s.push(c)
}

/// The string that holds the characters of `v`.
pub fn string_of(v: &Vec<char>) -> (s: String)
    ensures
        s@ == v@,
{
    let mut s = String::new();
    let mut i: usize = 0;
    while i < v.len()
        invariant
            i <= v.len(),
            s@ == v@.take(i as int),
        decreases v.len() - i,
    {
        push_char(&mut s, v[i]);
        i += 1;
        assert(v@.take(i as int) =~= v@.take(i - 1).push(v@[i - 1]));
    }
    assert(v@.take(v.len() as int) =~= v@);
    s
}

/// Whether `c` is white space.
pub fn char_is_whitespace(c: char) -> (r: bool)
    ensures
        r == is_whitespace(c),
{
    let n: u32 = c as u32;
    (0x09 <= n && n <= 0x0D) || n == 0x20 || n == 0x85 || n == 0xA0 || n == 0x1680 || (0x2000 <= n
        && n <= 0x200A) || n == 0x2028 || n == 0x2029 || n == 0x202F || n == 0x205F || n == 0x3000
}

/// Whether `pat` stands in `s` at index `i`.
pub fn has_at(s: &Vec<char>, pat: &Vec<char>, i: usize) -> (r: bool)
    ensures
        r == occurs_at(s@, pat@, i as int),
{
    if pat.len() > s.len() || i > s.len() - pat.len() {
        return false;
    }
    let mut j: usize = 0;
    while j < pat.len()
        invariant
            j <= pat.len(),
            i + pat.len() <= s.len(),
            forall|q: int| 0 <= q < j ==> s@[i + q] == pat@[q],
        decreases pat.len() - j,
    {
        if s[i + j] != pat[j] {
            assert(s@.subrange(i as int, i + pat.len())[j as int] == s@[i + j]);
            return false;
        }
        j += 1;
    }
    assert(s@.subrange(i as int, i + pat.len()) =~= pat@);
    true
}

/// Whether two sequences hold the same characters.
pub fn same(a: &Vec<char>, b: &Vec<char>) -> (r: bool)
    ensures
        r == (a@ == b@),
{
    if a.len() != b.len() {
        return false;
    }
    let r = has_at(a, b, 0);
    assert(a@.subrange(0, a.len() as int) =~= a@);
    r
}

/// Whether `s` begins with `pat`.
pub fn begins_with(s: &Vec<char>, pat: &Vec<char>) -> (r: bool)
    ensures
        r == starts_with(s@, pat@),
{
    has_at(s, pat, 0)
}

/// Whether `pat` stands somewhere in `s`.
pub fn has(s: &Vec<char>, pat: &Vec<char>) -> (r: bool)
    ensures
        r == contains(s@, pat@),
{
    if pat.len() == 0 {
        assert(s@.subrange(0, 0) =~= pat@);
        assert(occurs_at(s@, pat@, 0));
        return true;
    }
    if pat.len() > s.len() {
        assert forall|i: int| !occurs_at(s@, pat@, i) by {}
        return false;
    }
    let last: usize = s.len() - pat.len();
    let mut i: usize = 0;
    while i <= last
        invariant
            0 < pat.len(),
            last == s.len() - pat.len(),
            i <= last + 1,
            forall|k: int| 0 <= k < i ==> !occurs_at(s@, pat@, k),
        decreases last + 1 - i,
    {
        if has_at(s, pat, i) {
            return true;
        }
        i += 1;
    }
    assert forall|k: int| !occurs_at(s@, pat@, k) by {}
    false
}

/// Replaces each occurrence of `pat` in `s` by `rep`, in one scan from the
/// left.
pub fn replace(s: &Vec<char>, pat: &Vec<char>, rep: &Vec<char>) -> (r: Vec<char>)
    ensures
        r@ == replace_all(s@, pat@, rep@),
{
    let mut out: Vec<char> = Vec::new();
    let mut i: usize = 0;
    if pat.len() == 0 || pat.len() > s.len() {
        return s.clone();
    }
    let last: usize = s.len() - pat.len();
    assert(s@.skip(0) =~= s@);
    assert(out@ + replace_all(s@, pat@, rep@) =~= replace_all(s@, pat@, rep@));
    while i <= last
        invariant
            0 < pat.len() <= s.len(),
            last == s.len() - pat.len(),
            i <= s.len(),
            replace_all(s@, pat@, rep@) == out@ + replace_all(s@.skip(i as int), pat@, rep@),
        decreases s.len() - i,
    {
        let ghost rest = s@.skip(i as int);
        let ghost before = out@;
        proof {
            lemma_occurs_skip(s@, pat@, i as int, 0);
        }
        if has_at(s, pat, i) {
            let mut j: usize = 0;
            while j < rep.len()
                invariant
                    j <= rep.len(),
                    out@ == before + rep@.take(j as int),
                decreases rep.len() - j,
            {
                out.push(rep[j]);
                j += 1;
                assert(rep@.take(j as int) =~= rep@.take(j - 1).push(rep@[j - 1]));
            }
            assert(rep@.take(rep.len() as int) =~= rep@);
            i += pat.len();
            assert(rest.skip(pat.len() as int) =~= s@.skip(i as int));
            assert(before + (rep@ + replace_all(s@.skip(i as int), pat@, rep@)) =~= out@
                + replace_all(s@.skip(i as int), pat@, rep@));
        } else {
            out.push(s[i]);
            i += 1;
            assert(rest.skip(1) =~= s@.skip(i as int));
            assert(before + (seq![rest[0]] + replace_all(s@.skip(i as int), pat@, rep@)) =~= out@
                + replace_all(s@.skip(i as int), pat@, rep@));
        }
    }
    while i < s.len()
        invariant
            0 < pat.len() <= s.len(),
            s.len() - pat.len() < i <= s.len(),
            replace_all(s@, pat@, rep@) == out@ + s@.skip(i as int),
        decreases s.len() - i,
    {
        let ghost before = out@;
        out.push(s[i]);
        i += 1;
        assert(before + s@.skip(i - 1) =~= out@ + s@.skip(i as int));
    }
    assert(out@ + s@.skip(i as int) =~= out@);
    out
}

/// Replaces `pat` by `rep` in `s` until a scan no longer shortens it.
pub fn collapse_all(s: &Vec<char>, pat: &Vec<char>, rep: &Vec<char>) -> (r: Vec<char>)
    ensures
        r@ == collapse(s@, pat@, rep@),
{
    let mut cur = s.clone();
    loop
        invariant
            collapse(cur@, pat@, rep@) == collapse(s@, pat@, rep@),
        ensures
            cur@ == collapse(s@, pat@, rep@),
        decreases cur.len(),
    {
        let next = replace(&cur, pat, rep);
        if next.len() < cur.len() {
            cur = next;
        } else {
            break ;
        }
    }
    cur
}

/// The characters of `s` from index `from` up to index `to`.
pub(crate) fn slice(s: &Vec<char>, from: usize, to: usize) -> (r: Vec<char>)
    requires
        from <= to <= s.len(),
    ensures
        r@ == s@.subrange(from as int, to as int),
{
    let mut out: Vec<char> = Vec::new();
    let mut i: usize = from;
    while i < to
        invariant
            from <= i <= to <= s.len(),
            out@ == s@.subrange(from as int, i as int),
        decreases to - i,
    {
        out.push(s[i]);
        i += 1;
        assert(s@.subrange(from as int, i as int) =~= s@.subrange(from as int, i - 1).push(
            s@[i - 1],
        ));
    }
    out
}

/// The first `n` characters of `s`, or all of `s` if it has fewer.
pub fn take_chars(s: Vec<char>, n: usize) -> (r: Vec<char>)
    ensures
        r@ == truncate(s@, n as int),
{
    let mut s = s;
    if n < s.len() {
        s.truncate(n);
    }
    s
}

/// `s` without white space at either end.
pub fn trimmed(s: &Vec<char>) -> (r: Vec<char>)
    ensures
        r@ == trim(s@),
{
    let mut from: usize = 0;
    assert(s@.skip(0) =~= s@);
    while from < s.len() && char_is_whitespace(s[from])
        invariant
            from <= s.len(),
            trim_start(s@) == trim_start(s@.skip(from as int)),
        decreases s.len() - from,
    {
        assert(s@.skip(from as int).skip(1) =~= s@.skip(from + 1));
        from += 1;
    }
    let mut to: usize = s.len();
    assert(s@.subrange(from as int, to as int) =~= s@.skip(from as int));
    while to > from && char_is_whitespace(s[to - 1])
        invariant
            from <= to <= s.len(),
            trim(s@) == trim_end(s@.subrange(from as int, to as int)),
        decreases to,
    {
        assert(s@.subrange(from as int, to as int).drop_last() =~= s@.subrange(
            from as int,
            to - 1,
        ));
        to -= 1;
    }
    slice(s, from, to)
}

/// The decimal digit for a number below ten.
pub open spec fn digit_char(d: nat) -> char
    recommends
        d < 10,
{
    (('0' as u8) + d) as u8 as char
}

/// A number in decimal, without leading zeros.
pub open spec fn decimal(n: nat) -> Seq<char>
    decreases n,
{
    if n < 10 {
        seq![digit_char(n)]
    } else {
        decimal(n / 10).push(digit_char(n % 10))
    }
}

/// Appends `n` in decimal to `out`.
pub fn push_decimal(out: &mut String, n: u64)
    ensures
        final(out)@ == old(out)@ + decimal(n as nat),
{
    let mut digits: Vec<char> = Vec::new();
    collect_decimal(&mut digits, n);
    assert(digits@ =~= decimal(n as nat));
    out.append(string_of(&digits).as_str());
}

/// Appends the digits of `n` to `out`.
fn collect_decimal(out: &mut Vec<char>, n: u64)
    ensures
        final(out)@ == old(out)@ + decimal(n as nat),
    decreases n,
{
    if n >= 10 {
        collect_decimal(out, n / 10);
    }
    let d: u8 = (n % 10) as u8;
    let ghost before = out@;
    out.push((48u8 + d) as char);
    assert(out@ =~= old(out)@ + decimal(n as nat));
}

} // verus!
