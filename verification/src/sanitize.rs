//! The sanitizer: from any text to one that a branch can be named by.
//!
//! Characters that a reference name may not hold become underscores; runs
//! and sequences that it may not hold are collapsed or removed; what may not
//! stand at its end is stripped. The whole is repeated until nothing changes.

use crate::text::{
    collapse, collapse_all, contains, lemma_collapse_clears, lemma_collapse_fixed,
    lemma_collapse_keeps, lemma_replace_keeps, lemma_replace_shrinks, replace, replace_all,
};
use vstd::prelude::*;

verus! {

/// The characters that are replaced by an underscore.
pub open spec fn is_disallowed(c: char) -> bool {
    c == ' ' || c == ':' || c == '~' || c == '^' || c == '?' || c == '*' || c == '[' || c == '\\'
}

/// The characters that may not end a name.
pub open spec fn is_trailing_junk(c: char) -> bool {
    c == '.' || c == '/' || c == '_'
}

/// `..`
pub open spec fn dot_dot() -> Seq<char> {
    seq!['.', '.']
}

/// `__`
pub open spec fn double_underscore() -> Seq<char> {
    seq!['_', '_']
}

/// `--`
pub open spec fn double_hyphen() -> Seq<char> {
    seq!['-', '-']
}

/// `${`
pub open spec fn dollar_brace() -> Seq<char> {
    seq!['$', '{']
}

/// `.lock/`
pub open spec fn dot_lock_slash() -> Seq<char> {
    seq!['.', 'l', 'o', 'c', 'k', '/']
}

/// `/.`
pub open spec fn slash_dot() -> Seq<char> {
    seq!['/', '.']
}

/// `s` with an underscore in place of each disallowed character.
pub open spec fn replace_disallowed(s: Seq<char>) -> Seq<char> {
    Seq::new(
        s.len(),
        |i: int|
            if is_disallowed(s[i]) {
                '_'
            } else {
                s[i]
            },
    )
}

/// `s` without the dots, slashes and underscores at its end.
pub open spec fn strip_trailing(s: Seq<char>) -> Seq<char>
    decreases s.len(),
{
    if s.len() > 0 && is_trailing_junk(s.last()) {
        strip_trailing(s.drop_last())
    } else {
        s
    }
}

/// One pass: `..` to `.`, `__` to `_`, `--` to `-`, `${` removed and
/// `.lock/` to `/`, each until it no longer occurs; then `/.` to `/`, once;
/// then the end stripped.
pub open spec fn sanitize_pass(s: Seq<char>) -> Seq<char> {
    let s1 = collapse(s, dot_dot(), seq!['.']);
    let s2 = collapse(s1, double_underscore(), seq!['_']);
    let s3 = collapse(s2, double_hyphen(), seq!['-']);
    let s4 = collapse(s3, dollar_brace(), Seq::empty());
    let s5 = collapse(s4, dot_lock_slash(), seq!['/']);
    let s6 = replace_all(s5, slash_dot(), seq!['/']);
    strip_trailing(s6)
}

/// Passes repeated for as long as one shortens the text.
pub open spec fn settle(s: Seq<char>) -> Seq<char>
    decreases s.len(),
{
    let t = sanitize_pass(s);
    if t.len() < s.len() {
        settle(t)
    } else {
        s
    }
}

/// The sanitized form of `s`.
pub open spec fn sanitize(s: Seq<char>) -> Seq<char> {
    settle(replace_disallowed(s))
}

/// No character of `s` is disallowed.
pub open spec fn all_allowed(s: Seq<char>) -> bool {
    forall|i: int| 0 <= i < s.len() ==> !is_disallowed(#[trigger] s[i])
}

/// `s` holds none of the sequences that a pass replaces, and does not end
/// in a dot, a slash or an underscore.
pub open spec fn is_clean(s: Seq<char>) -> bool {
    &&& !contains(s, dot_dot())
    &&& !contains(s, double_underscore())
    &&& !contains(s, double_hyphen())
    &&& !contains(s, dollar_brace())
    &&& !contains(s, dot_lock_slash())
    &&& !contains(s, slash_dot())
    &&& s.len() > 0 ==> !is_trailing_junk(s.last())
}

// ---------------------------------------------------------------------------
// Lemmas
// ---------------------------------------------------------------------------

/// Stripping shortens or changes nothing, and leaves no junk at the end.
pub proof fn lemma_strip(s: Seq<char>)
    ensures
        strip_trailing(s).len() <= s.len(),
        strip_trailing(s).len() == s.len() ==> strip_trailing(s) == s,
        strip_trailing(s) == s.take(strip_trailing(s).len() as int),
        strip_trailing(s).len() > 0 ==> !is_trailing_junk(strip_trailing(s).last()),
    decreases s.len(),
{
    if s.len() > 0 && is_trailing_junk(s.last()) {
        lemma_strip(s.drop_last());
        let r = strip_trailing(s.drop_last());
        assert(s.drop_last().take(r.len() as int) =~= s.take(r.len() as int));
    } else {
        assert(s.take(s.len() as int) =~= s);
    }
}

/// A pass never lengthens; one that keeps the length changes nothing, and
/// then the text is clean.
pub proof fn lemma_pass_shrinks(s: Seq<char>)
    ensures
        sanitize_pass(s).len() <= s.len(),
        sanitize_pass(s).len() == s.len() ==> sanitize_pass(s) == s && is_clean(s),
{
    let s1 = collapse(s, dot_dot(), seq!['.']);
    let s2 = collapse(s1, double_underscore(), seq!['_']);
    let s3 = collapse(s2, double_hyphen(), seq!['-']);
    let s4 = collapse(s3, dollar_brace(), Seq::empty());
    let s5 = collapse(s4, dot_lock_slash(), seq!['/']);
    let s6 = replace_all(s5, slash_dot(), seq!['/']);
    lemma_collapse_clears(s, dot_dot(), seq!['.']);
    lemma_collapse_clears(s1, double_underscore(), seq!['_']);
    lemma_collapse_clears(s2, double_hyphen(), seq!['-']);
    lemma_collapse_clears(s3, dollar_brace(), Seq::empty());
    lemma_collapse_clears(s4, dot_lock_slash(), seq!['/']);
    lemma_replace_shrinks(s5, slash_dot(), seq!['/']);
    lemma_strip(s6);
}

/// A clean text passes unchanged.
pub proof fn lemma_pass_fixed(s: Seq<char>)
    requires
        is_clean(s),
    ensures
        sanitize_pass(s) == s,
{
    lemma_collapse_fixed(s, dot_dot(), seq!['.']);
    lemma_collapse_fixed(s, double_underscore(), seq!['_']);
    lemma_collapse_fixed(s, double_hyphen(), seq!['-']);
    lemma_collapse_fixed(s, dollar_brace(), Seq::empty());
    lemma_collapse_fixed(s, dot_lock_slash(), seq!['/']);
    lemma_replace_shrinks(s, slash_dot(), seq!['/']);
}

/// A pass keeps every property of characters that the dot, the underscore,
/// the hyphen and the slash have too.
pub proof fn lemma_pass_keeps(s: Seq<char>, ok: spec_fn(char) -> bool)
    requires
        forall|i: int| 0 <= i < s.len() ==> ok(#[trigger] s[i]),
        ok('.') && ok('_') && ok('-') && ok('/'),
    ensures
        forall|i: int| 0 <= i < sanitize_pass(s).len() ==> ok(#[trigger] sanitize_pass(s)[i]),
{
    let s1 = collapse(s, dot_dot(), seq!['.']);
    let s2 = collapse(s1, double_underscore(), seq!['_']);
    let s3 = collapse(s2, double_hyphen(), seq!['-']);
    let s4 = collapse(s3, dollar_brace(), Seq::empty());
    let s5 = collapse(s4, dot_lock_slash(), seq!['/']);
    let s6 = replace_all(s5, slash_dot(), seq!['/']);
    lemma_collapse_keeps(s, dot_dot(), seq!['.'], ok);
    lemma_collapse_keeps(s1, double_underscore(), seq!['_'], ok);
    lemma_collapse_keeps(s2, double_hyphen(), seq!['-'], ok);
    lemma_collapse_keeps(s3, dollar_brace(), Seq::empty(), ok);
    lemma_collapse_keeps(s4, dot_lock_slash(), seq!['/'], ok);
    lemma_replace_keeps(s5, slash_dot(), seq!['/'], ok);
    lemma_strip(s6);
    let r = strip_trailing(s6);
    assert forall|i: int| 0 <= i < r.len() implies ok(#[trigger] r[i]) by {
        assert(r[i] == s6[i]);
    }
}

/// `lemma_pass_keeps`, for `settle`.
pub proof fn lemma_settle_keeps(s: Seq<char>, ok: spec_fn(char) -> bool)
    requires
        forall|i: int| 0 <= i < s.len() ==> ok(#[trigger] s[i]),
        ok('.') && ok('_') && ok('-') && ok('/'),
    ensures
        forall|i: int| 0 <= i < settle(s).len() ==> ok(#[trigger] settle(s)[i]),
    decreases s.len(),
{
    let t = sanitize_pass(s);
    let r = settle(s);
    lemma_pass_keeps(s, ok);
    if t.len() < s.len() {
        lemma_settle_keeps(t, ok);
        assert(r == settle(t));
    } else {
        assert(r == s);
    }
    assert forall|i: int| 0 <= i < r.len() implies ok(#[trigger] r[i]) by {}
}

/// `lemma_pass_keeps`, for `sanitize`.
pub proof fn lemma_sanitize_keeps(s: Seq<char>, ok: spec_fn(char) -> bool)
    requires
        forall|i: int| 0 <= i < s.len() ==> ok(#[trigger] s[i]),
        ok('.') && ok('_') && ok('-') && ok('/'),
    ensures
        forall|i: int| 0 <= i < sanitize(s).len() ==> ok(#[trigger] sanitize(s)[i]),
{
    let r = replace_disallowed(s);
    assert forall|i: int| 0 <= i < r.len() implies ok(#[trigger] r[i]) by {
        assert(r[i] == '_' || r[i] == s[i]);
    }
    lemma_settle_keeps(r, ok);
}

/// What `settle` returns is clean and no longer than what it was given, and
/// it holds no disallowed character if it was given none.
pub proof fn lemma_settle(s: Seq<char>)
    ensures
        is_clean(settle(s)),
        settle(s).len() <= s.len(),
        all_allowed(s) ==> all_allowed(settle(s)),
    decreases s.len(),
{
    lemma_pass_shrinks(s);
    let t = sanitize_pass(s);
    if t.len() < s.len() {
        lemma_settle(t);
    }
    if all_allowed(s) {
        let ok = |c: char| !is_disallowed(c);
        assert forall|i: int| 0 <= i < s.len() implies ok(#[trigger] s[i]) by {
            assert(!is_disallowed(s[i]));
        }
        lemma_settle_keeps(s, ok);
        assert forall|i: int| 0 <= i < settle(s).len() implies !is_disallowed(
            #[trigger] settle(s)[i],
        ) by {
            assert(ok(settle(s)[i]));
        }
    }
}

/// A sanitized text is clean: it holds no `..`, `__`, `--`, `${`, `.lock/`
/// or `/.`, does not end in a dot, a slash or an underscore, and holds no
/// disallowed character. It is no longer than the text it was made from.
pub proof fn lemma_sanitize_clean(s: Seq<char>)
    ensures
        is_clean(sanitize(s)),
        all_allowed(sanitize(s)),
        sanitize(s).len() <= s.len(),
{
    lemma_settle(replace_disallowed(s));
}

/// A clean text without disallowed characters is its own sanitized form.
pub proof fn lemma_sanitize_fixed(s: Seq<char>)
    requires
        is_clean(s),
        all_allowed(s),
    ensures
        sanitize(s) == s,
{
    assert(replace_disallowed(s) =~= s);
    lemma_pass_fixed(s);
}

/// Sanitizing is idempotent: a second run returns what the first returned.
pub proof fn lemma_sanitize_idempotent(s: Seq<char>)
    ensures
        sanitize(sanitize(s)) == sanitize(s),
{
    lemma_sanitize_clean(s);
    lemma_sanitize_fixed(sanitize(s));
}

// ---------------------------------------------------------------------------
// Executable functions
// ---------------------------------------------------------------------------

/// Whether `c` is replaced by an underscore.
pub fn char_is_disallowed(c: char) -> (r: bool)
    ensures
        r == is_disallowed(c),
{
    c == ' ' || c == ':' || c == '~' || c == '^' || c == '?' || c == '*' || c == '[' || c == '\\'
}

/// Whether `c` may not end a name.
pub fn char_is_trailing_junk(c: char) -> (r: bool)
    ensures
        r == is_trailing_junk(c),
{
    c == '.' || c == '/' || c == '_'
}

/// Puts an underscore in place of each disallowed character.
pub fn underscore_disallowed(s: &Vec<char>) -> (r: Vec<char>)
    ensures
        r@ == replace_disallowed(s@),
{
    let mut out: Vec<char> = Vec::new();
    let mut i: usize = 0;
    while i < s.len()
        invariant
            i <= s.len(),
            out@ == replace_disallowed(s@).take(i as int),
        decreases s.len() - i,
    {
        let c = s[i];
        if char_is_disallowed(c) {
            out.push('_');
        } else {
            out.push(c);
        }
        i += 1;
        assert(replace_disallowed(s@).take(i as int) =~= replace_disallowed(s@).take(i - 1).push(
            replace_disallowed(s@)[i - 1],
        ));
    }
    assert(replace_disallowed(s@).take(s.len() as int) =~= replace_disallowed(s@));
    out
}

/// Strips the dots, slashes and underscores from the end.
pub fn strip(s: Vec<char>) -> (r: Vec<char>)
    ensures
        r@ == strip_trailing(s@),
{
    let mut cur = s;
    while cur.len() > 0 && char_is_trailing_junk(cur[cur.len() - 1])
        invariant
            strip_trailing(cur@) == strip_trailing(s@),
        decreases cur.len(),
    {
        cur.pop();
    }
    cur
}

/// One pass of the sanitizer.
pub fn pass(s: &Vec<char>) -> (r: Vec<char>)
    ensures
        r@ == sanitize_pass(s@),
{
    let dot: Vec<char> = vec!['.'];
    let underscore: Vec<char> = vec!['_'];
    let hyphen: Vec<char> = vec!['-'];
    let slash: Vec<char> = vec!['/'];
    let nothing: Vec<char> = Vec::new();
    let dot_dot: Vec<char> = vec!['.', '.'];
    let double_underscore: Vec<char> = vec!['_', '_'];
    let double_hyphen: Vec<char> = vec!['-', '-'];
    let dollar_brace: Vec<char> = vec!['$', '{'];
    let dot_lock_slash: Vec<char> = vec!['.', 'l', 'o', 'c', 'k', '/'];
    let slash_dot: Vec<char> = vec!['/', '.'];
    assert(dot@ =~= seq!['.'] && underscore@ =~= seq!['_'] && hyphen@ =~= seq!['-'] && slash@
        =~= seq!['/'] && nothing@ =~= Seq::<char>::empty());
    assert(dot_dot@ =~= self::dot_dot() && double_underscore@ =~= self::double_underscore()
        && double_hyphen@ =~= self::double_hyphen());
    assert(dollar_brace@ =~= self::dollar_brace() && dot_lock_slash@ =~= self::dot_lock_slash()
        && slash_dot@ =~= self::slash_dot());
    let s1 = collapse_all(s, &dot_dot, &dot);
    let s2 = collapse_all(&s1, &double_underscore, &underscore);
    let s3 = collapse_all(&s2, &double_hyphen, &hyphen);
    let s4 = collapse_all(&s3, &dollar_brace, &nothing);
    let s5 = collapse_all(&s4, &dot_lock_slash, &slash);
    let s6 = replace(&s5, &slash_dot, &slash);
    strip(s6)
}

/// Sanitizes `s`.
pub fn sanitize_chars(s: &Vec<char>) -> (r: Vec<char>)
    ensures
        r@ == sanitize(s@),
        is_clean(r@),
        all_allowed(r@),
        r@.len() <= s@.len(),
{
    let mut cur = underscore_disallowed(s);
    let ghost start = cur@;
    loop
        invariant
            settle(cur@) == settle(start),
        ensures
            cur@ == settle(start),
        decreases cur.len(),
    {
        let next = pass(&cur);
        if next.len() < cur.len() {
            cur = next;
        } else {
            break ;
        }
    }
    proof {
        lemma_sanitize_clean(s@);
    }
    cur
}

} // verus!
