//! How a branch is named for an issue: the name as a function of key,
//! summary and mode, and what holds of every such name.

use crate::case::{
    is_ascii, is_digit, is_lower, is_upper, lemma_uppercase_concat, lemma_uppercase_fixed,
    uppercase,
};
use crate::error::Error;
use crate::key::{is_key, lemma_first_key_is_key, lemma_key_chars, lemma_leading_key};
use crate::sanitize::{
    all_allowed, dollar_brace, dot_dot, dot_lock_slash, double_hyphen, double_underscore,
    is_clean, is_disallowed, is_trailing_junk, lemma_sanitize_clean, lemma_sanitize_keeps,
    lemma_strip, replace_disallowed, sanitize, sanitize_pass, settle, slash_dot, strip_trailing,
};
use crate::text::{
    collapse, contains, differs_within, lemma_collapse_head, lemma_collapse_prefix,
    lemma_replace_head, lemma_replace_prefix, occurs_at, replace_all, resists, starts_with,
    truncate,
};
use crate::types::extract;
use vstd::prelude::*;

verus! {

/// The stem of a branch name: the key, a space and the summary, sanitized,
/// then cut to fifty characters.
pub open spec fn stem(key: Seq<char>, summary: Seq<char>) -> Seq<char> {
    truncate(sanitize(key + seq![' '] + summary), 50)
}

/// The branch name of an issue without a suffix: the stem, sanitized again
/// after the cut.
pub open spec fn default_name(key: Seq<char>, summary: Seq<char>) -> Seq<char> {
    sanitize(stem(key, summary))
}

/// The suffix as it is appended: cut so that the key, one more character and
/// the suffix have fifty characters at most.
pub open spec fn fitted_suffix(key: Seq<char>, suffix: Seq<char>) -> Seq<char> {
    if key.len() + 1 + suffix.len() <= 50 {
        suffix
    } else if key.len() <= 50 {
        truncate(suffix, 50 - key.len())
    } else {
        Seq::empty()
    }
}

/// A name with a suffix appended. The suffix is cut first, so that it never
/// costs the key; then the name is cut to make room for the suffix.
pub open spec fn with_suffix(name: Seq<char>, key: Seq<char>, suffix: Seq<char>) -> Seq<char> {
    let fitted = fitted_suffix(key, suffix);
    if name.len() + fitted.len() > 50 {
        truncate(name, 51 - fitted.len()) + fitted
    } else {
        name + fitted
    }
}

/// The branch name of an issue with a suffix: the suffix appended to the
/// stem, and the whole sanitized.
pub open spec fn suffixed_name(key: Seq<char>, summary: Seq<char>, suffix: Seq<char>) -> Seq<char> {
    sanitize(with_suffix(stem(key, summary), key, suffix))
}

/// The branch name of an issue, with or without a suffix.
pub open spec fn issue_branch_name(
    key: Seq<char>,
    summary: Seq<char>,
    suffix: Option<Seq<char>>,
) -> Seq<char> {
    match suffix {
        Some(text) => suffixed_name(key, summary, text),
        None => default_name(key, summary),
    }
}

/// The branch name that replaces the summary by `text`.
pub open spec fn overwritten_name(key: Seq<char>, text: Seq<char>) -> Seq<char> {
    sanitize(key + seq![' '] + text)
}

/// `s` is `k`, alone or followed by an underscore and more.
pub open spec fn led_by(s: Seq<char>, k: Seq<char>) -> bool {
    &&& k.len() <= s.len()
    &&& s.take(k.len() as int) == k
    &&& s.len() > k.len() ==> s[k.len() as int] == '_'
}

// ---------------------------------------------------------------------------
// Lemmas: a key at the head of a text passes through the sanitizer
// ---------------------------------------------------------------------------

/// No occurrence of a pattern begins inside a key, if the pattern begins
/// with neither a capital letter nor a digit, and has no digit second.
proof fn lemma_key_resists(k: Seq<char>, pat: Seq<char>)
    requires
        is_key(k),
        pat.len() >= 2,
        !is_upper(pat[0]) && !is_digit(pat[0]),
        !is_digit(pat[1]),
    ensures
        resists(k, pat),
{
    lemma_key_chars(k);
    assert forall|p: int| 0 <= p < k.len() implies #[trigger] differs_within(k, pat, p) by {
        if k[p] != pat[0] {
            assert(pat[0] != k[p + 0]);
        } else {
            assert(k[p] == '-');
            assert(k.last() == k[k.len() - 1]);
            assert(is_digit(k[p + 1]));
            assert(pat[1] != k[p + 1]);
        }
    }
}

/// A pattern that a text resists does not occur in it.
proof fn lemma_resists_absent(k: Seq<char>, pat: Seq<char>)
    requires
        resists(k, pat),
        pat.len() > 0,
    ensures
        !contains(k, pat),
{
    assert forall|i: int| !occurs_at(k, pat, i) by {
        if occurs_at(k, pat, i) {
            assert(differs_within(k, pat, i));
            let q = choose|q: int|
                0 <= q < pat.len() && i + q < k.len() && #[trigger] pat[q] != k[i + q];
            assert(k.subrange(i, i + pat.len())[q] == k[i + q]);
        }
    }
}

/// A key is clean, and holds no disallowed character.
pub proof fn lemma_key_is_clean(k: Seq<char>)
    requires
        is_key(k),
    ensures
        is_clean(k),
        all_allowed(k),
{
    lemma_key_chars(k);
    lemma_key_resists(k, dot_dot());
    lemma_key_resists(k, double_underscore());
    lemma_key_resists(k, double_hyphen());
    lemma_key_resists(k, dollar_brace());
    lemma_key_resists(k, dot_lock_slash());
    lemma_key_resists(k, slash_dot());
    lemma_resists_absent(k, dot_dot());
    lemma_resists_absent(k, double_underscore());
    lemma_resists_absent(k, double_hyphen());
    lemma_resists_absent(k, dollar_brace());
    lemma_resists_absent(k, dot_lock_slash());
    lemma_resists_absent(k, slash_dot());
    assert forall|i: int| 0 <= i < k.len() implies !is_disallowed(#[trigger] k[i]) by {
        assert(is_upper(k[i]) || is_digit(k[i]) || k[i] == '-');
    }
}

/// Stripping the end of a text leaves a head that does not end in junk.
proof fn lemma_strip_after(k: Seq<char>, t: Seq<char>)
    requires
        k.len() > 0,
        !is_trailing_junk(k.last()),
    ensures
        strip_trailing(k + t) == k + strip_trailing(t),
    decreases t.len(),
{
    if t.len() == 0 {
        assert(k + t =~= k);
    } else {
        assert((k + t).last() == t.last());
        if is_trailing_junk(t.last()) {
            assert((k + t).drop_last() =~= k + t.drop_last());
            lemma_strip_after(k, t.drop_last());
        }
    }
}

/// A pass leaves a key at the head as it is, and works on the rest alone.
proof fn lemma_pass_after_key(k: Seq<char>, t: Seq<char>)
    requires
        is_key(k),
    ensures
        sanitize_pass(k + t) == k + sanitize_pass(t),
{
    lemma_key_chars(k);
    let t1 = collapse(t, dot_dot(), seq!['.']);
    let t2 = collapse(t1, double_underscore(), seq!['_']);
    let t3 = collapse(t2, double_hyphen(), seq!['-']);
    let t4 = collapse(t3, dollar_brace(), Seq::empty());
    let t5 = collapse(t4, dot_lock_slash(), seq!['/']);
    let t6 = replace_all(t5, slash_dot(), seq!['/']);
    lemma_key_resists(k, dot_dot());
    lemma_key_resists(k, double_underscore());
    lemma_key_resists(k, double_hyphen());
    lemma_key_resists(k, dollar_brace());
    lemma_key_resists(k, dot_lock_slash());
    lemma_key_resists(k, slash_dot());
    lemma_collapse_prefix(k, t, dot_dot(), seq!['.']);
    lemma_collapse_prefix(k, t1, double_underscore(), seq!['_']);
    lemma_collapse_prefix(k, t2, double_hyphen(), seq!['-']);
    lemma_collapse_prefix(k, t3, dollar_brace(), Seq::empty());
    lemma_collapse_prefix(k, t4, dot_lock_slash(), seq!['/']);
    lemma_replace_prefix(k, t5, slash_dot(), seq!['/']);
    lemma_strip_after(k, t6);
}

/// Repeated passes leave a key at the head as it is.
proof fn lemma_settle_after_key(k: Seq<char>, t: Seq<char>)
    requires
        is_key(k),
    ensures
        settle(k + t) == k + settle(t),
    decreases t.len(),
{
    lemma_pass_after_key(k, t);
    if sanitize_pass(t).len() < t.len() {
        lemma_settle_after_key(k, sanitize_pass(t));
    }
}

/// Sanitizing leaves a key at the head as it is, and sanitizes the rest as
/// if it stood alone.
pub proof fn lemma_sanitize_after_key(k: Seq<char>, t: Seq<char>)
    requires
        is_key(k),
    ensures
        sanitize(k + t) == k + sanitize(t),
{
    lemma_key_chars(k);
    assert(replace_disallowed(k + t) =~= k + replace_disallowed(t)) by {
        assert forall|i: int| 0 <= i < k.len() implies !is_disallowed(#[trigger] k[i]) by {
            assert(is_upper(k[i]) || is_digit(k[i]) || k[i] == '-');
        }
    }
    lemma_settle_after_key(k, replace_disallowed(t));
}

/// A pass does not change a leading underscore, unless it removes all.
proof fn lemma_pass_head(t: Seq<char>)
    requires
        t.len() > 0,
        t[0] == '_',
    ensures
        sanitize_pass(t).len() > 0 ==> sanitize_pass(t)[0] == '_',
{
    let t1 = collapse(t, dot_dot(), seq!['.']);
    let t2 = collapse(t1, double_underscore(), seq!['_']);
    let t3 = collapse(t2, double_hyphen(), seq!['-']);
    let t4 = collapse(t3, dollar_brace(), Seq::empty());
    let t5 = collapse(t4, dot_lock_slash(), seq!['/']);
    let t6 = replace_all(t5, slash_dot(), seq!['/']);
    lemma_collapse_head(t, dot_dot(), seq!['.']);
    lemma_collapse_head(t1, double_underscore(), seq!['_']);
    lemma_collapse_head(t2, double_hyphen(), seq!['-']);
    lemma_collapse_head(t3, dollar_brace(), Seq::empty());
    lemma_collapse_head(t4, dot_lock_slash(), seq!['/']);
    lemma_replace_head(t5, slash_dot(), seq!['/']);
    lemma_strip(t6);
}

/// Repeated passes do not change a leading underscore, unless they remove
/// all.
proof fn lemma_settle_head(t: Seq<char>)
    requires
        t.len() > 0 ==> t[0] == '_',
    ensures
        settle(t).len() > 0 ==> settle(t)[0] == '_',
    decreases t.len(),
{
    if t.len() > 0 {
        lemma_pass_head(t);
        if sanitize_pass(t).len() < t.len() {
            lemma_settle_head(sanitize_pass(t));
        }
    }
}

/// What is left of a text that begins with an underscore or a disallowed
/// character begins with an underscore.
proof fn lemma_sanitize_head(t: Seq<char>)
    requires
        t.len() > 0 ==> t[0] == '_' || is_disallowed(t[0]),
    ensures
        sanitize(t).len() > 0 ==> sanitize(t)[0] == '_',
{
    lemma_settle_head(replace_disallowed(t));
}

/// Cutting a text behind its head cuts the rest.
proof fn lemma_truncate_after(k: Seq<char>, t: Seq<char>, n: int)
    requires
        k.len() <= n,
    ensures
        truncate(k + t, n) == k + truncate(t, n - k.len()),
{
    if n < k.len() + t.len() {
        assert((k + t).take(n) =~= k + t.take(n - k.len()));
    }
}

/// Extraction finds the key that leads a text.
pub proof fn lemma_led_extract(s: Seq<char>, k: Seq<char>)
    requires
        led_by(s, k),
        is_key(k),
    ensures
        extract(s) == Some(k),
{
    let t = s.skip(k.len() as int);
    assert(s =~= k + t);
    lemma_key_chars(k);
    lemma_uppercase_concat(k, t);
    assert forall|i: int| 0 <= i < k.len() implies is_ascii(#[trigger] k[i]) && !is_lower(k[i]) by {
        assert(is_upper(k[i]) || is_digit(k[i]) || k[i] == '-');
    }
    lemma_uppercase_fixed(k);
    if t.len() > 0 {
        let head = seq!['_'];
        assert(t =~= head + t.skip(1));
        lemma_uppercase_concat(head, t.skip(1));
        assert(uppercase(head) =~= head) by {
            assert(head.drop_last() =~= Seq::<char>::empty());
            assert(uppercase(head.drop_last()) =~= Seq::<char>::empty());
        }
        assert(uppercase(t)[0] == '_');
    } else {
        assert(uppercase(t) =~= Seq::<char>::empty());
    }
    lemma_leading_key(k, uppercase(t));
}

/// The stem under a key of fifty characters at most is the key and what is
/// left of the summary.
proof fn lemma_stem_shape(key: Seq<char>, summary: Seq<char>)
    requires
        is_key(key),
        key.len() <= 50,
    ensures
        stem(key, summary) == key + truncate(sanitize(seq![' '] + summary), 50 - key.len()),
        led_by(stem(key, summary), key),
{
    let rest = seq![' '] + summary;
    assert(key + seq![' '] + summary =~= key + rest);
    lemma_sanitize_after_key(key, rest);
    lemma_truncate_after(key, sanitize(rest), 50);
    lemma_sanitize_head(rest);
    let cut = truncate(sanitize(rest), 50 - key.len());
    assert((key + cut).take(key.len() as int) =~= key);
}

/// The key is kept: the branch name that is made from a key of fifty
/// characters at most and any summary yields that key again. The name is
/// the key, alone or followed by an underscore and more.
pub proof fn lemma_default_name_keeps_key(key: Seq<char>, summary: Seq<char>)
    requires
        is_key(key),
        key.len() <= 50,
    ensures
        extract(default_name(key, summary)) == Some(key),
        led_by(default_name(key, summary), key),
{
    lemma_stem_shape(key, summary);
    let cut = truncate(sanitize(seq![' '] + summary), 50 - key.len());
    lemma_sanitize_after_key(key, cut);
    lemma_sanitize_head(cut);
    assert((key + sanitize(cut)).take(key.len() as int) =~= key);
    lemma_led_extract(default_name(key, summary), key);
}

/// The name that replaces the summary yields the key again, whatever the
/// length of the key.
pub proof fn lemma_overwritten_name_keeps_key(key: Seq<char>, text: Seq<char>)
    requires
        is_key(key),
    ensures
        extract(overwritten_name(key, text)) == Some(key),
        led_by(overwritten_name(key, text), key),
{
    let rest = seq![' '] + text;
    assert(key + seq![' '] + text =~= key + rest);
    lemma_sanitize_after_key(key, rest);
    lemma_sanitize_head(rest);
    assert((key + sanitize(rest)).take(key.len() as int) =~= key);
    lemma_led_extract(overwritten_name(key, text), key);
}

/// Under a key of fifty characters at most every branch name begins with
/// the key, and so with a capital letter.
pub proof fn lemma_name_starts_with_key(
    key: Seq<char>,
    summary: Seq<char>,
    suffix: Option<Seq<char>>,
)
    requires
        is_key(key),
        key.len() <= 50,
    ensures
        starts_with(issue_branch_name(key, summary, suffix), key),
        is_upper(issue_branch_name(key, summary, suffix)[0]),
{
    lemma_key_chars(key);
    lemma_stem_shape(key, summary);
    let cut = truncate(sanitize(seq![' '] + summary), 50 - key.len());
    match suffix {
        Some(text) => {
            let fitted = fitted_suffix(key, text);
            let name = key + cut;
            if name.len() + fitted.len() > 50 {
                lemma_truncate_after(key, cut, 51 - fitted.len());
                let kept = truncate(cut, 51 - fitted.len() - key.len());
                assert((key + kept) + fitted =~= key + (kept + fitted));
                lemma_sanitize_after_key(key, kept + fitted);
            } else {
                assert((key + cut) + fitted =~= key + (cut + fitted));
                lemma_sanitize_after_key(key, cut + fitted);
            }
        },
        None => {
            lemma_sanitize_after_key(key, cut);
        },
    }
    let r = issue_branch_name(key, summary, suffix);
    assert(r.subrange(0, key.len() as int) =~= key);
    assert(r[0] == key[0]);
}

/// No branch name yields a key of more than fifty characters.
pub proof fn lemma_long_key_is_lost(key: Seq<char>, summary: Seq<char>, suffix: Option<Seq<char>>)
    requires
        key.len() > 50,
    ensures
        extract(issue_branch_name(key, summary, suffix)) != Some(key),
{
    let name = issue_branch_name(key, summary, suffix);
    if is_key(key) && extract(name) == Some(key) {
        lemma_key_chars(key);
        let rest = seq![' '] + summary;
        assert(key + seq![' '] + summary =~= key + rest);
        lemma_sanitize_after_key(key, rest);
        let cut = stem(key, summary);
        assert(cut =~= key.take(50));
        let joined = match suffix {
            Some(text) => with_suffix(cut, key, text),
            None => cut,
        };
        assert(joined =~= cut);
        let ok = |c: char| is_ascii(c) && !is_lower(c);
        assert forall|i: int| 0 <= i < cut.len() implies ok(#[trigger] cut[i]) by {
            assert(cut[i] == key[i]);
            assert(is_upper(key[i]) || is_digit(key[i]) || key[i] == '-');
        }
        lemma_sanitize_keeps(cut, ok);
        lemma_sanitize_clean(cut);
        assert(name == sanitize(cut));
        assert forall|i: int| 0 <= i < name.len() implies is_ascii(#[trigger] name[i]) && !is_lower(
            name[i],
        ) by {
            assert(ok(name[i]));
        }
        lemma_uppercase_fixed(name);
        lemma_first_key_is_key(name);
    } else if extract(name) == Some(key) {
        lemma_first_key_is_key(uppercase(name));
    }
}

/// Names are short: the stem has fifty characters at most; so has a name
/// without a suffix; a name with a suffix has fifty-one at most, and never
/// more than fifty and the length of the suffix.
pub proof fn lemma_name_length(key: Seq<char>, summary: Seq<char>, suffix: Seq<char>)
    ensures
        stem(key, summary).len() <= 50,
        default_name(key, summary).len() <= 50,
        suffixed_name(key, summary, suffix).len() <= 51,
        suffixed_name(key, summary, suffix).len() <= 50 + suffix.len(),
{
    let cut = stem(key, summary);
    lemma_sanitize_clean(cut);
    lemma_sanitize_clean(with_suffix(cut, key, suffix));
}

/// Names are clean: every branch name is clean, which is to say that
/// it holds no `..`, `__`, `--`, `${`, `.lock/` or `/.` and does not end in
/// a dot, a slash or an underscore; and it holds no disallowed character.
pub proof fn lemma_name_clean(key: Seq<char>, summary: Seq<char>, suffix: Option<Seq<char>>)
    ensures
        is_clean(issue_branch_name(key, summary, suffix)),
        all_allowed(issue_branch_name(key, summary, suffix)),
{
    match suffix {
        Some(text) => lemma_sanitize_clean(with_suffix(stem(key, summary), key, text)),
        None => lemma_sanitize_clean(stem(key, summary)),
    }
}

/// The text of a suffix, if there is one.
pub open spec fn text_view(text: Option<String>) -> Option<Seq<char>> {
    match text {
        Some(t) => Some(t@),
        None => None,
    }
}

/// What `branch_name_from_issue` returns: with `use_short` the key alone;
/// else the branch name of the issue, if extraction finds the key in it,
/// and `MalformedKey` if not.
pub open spec fn branch_name_of(
    key: Seq<char>,
    summary: Seq<char>,
    use_short: bool,
    suffix: Option<Seq<char>>,
) -> Result<Seq<char>, Error> {
    if use_short {
        Ok(key)
    } else {
        let name = issue_branch_name(key, summary, suffix);
        if extract(name) == Some(key) {
            Ok(name)
        } else {
            Err(Error::MalformedKey)
        }
    }
}

/// How a branch name is made of an issue.
#[derive(Debug, Clone, PartialEq, Eq)]
pub enum BranchNameMode {
    /// The key alone.
    Short,
    /// The key and the summary.
    Default,
    /// The key and the summary, and this text behind them.
    WithSuffix(String),
    /// The key and this text; the summary is left out.
    Overwrite(String),
}

/// A `BranchNameMode` with its text as a sequence of characters.
pub enum BranchNameModeView {
    Short,
    Default,
    WithSuffix(Seq<char>),
    Overwrite(Seq<char>),
}

impl View for BranchNameMode {
    type V = BranchNameModeView;

    open spec fn view(&self) -> BranchNameModeView {
        match self {
            BranchNameMode::Short => BranchNameModeView::Short,
            BranchNameMode::Default => BranchNameModeView::Default,
            BranchNameMode::WithSuffix(text) => BranchNameModeView::WithSuffix(text@),
            BranchNameMode::Overwrite(text) => BranchNameModeView::Overwrite(text@),
        }
    }
}

/// The branch name of an issue in a mode, or `MalformedKey` where the key
/// cannot be kept.
pub open spec fn synthesized(key: Seq<char>, summary: Seq<char>, mode: BranchNameModeView) -> Result<
    Seq<char>,
    Error,
> {
    match mode {
        BranchNameModeView::Short => Ok(key),
        BranchNameModeView::Default => branch_name_of(key, summary, false, None),
        BranchNameModeView::WithSuffix(text) => branch_name_of(key, summary, false, Some(text)),
        BranchNameModeView::Overwrite(text) => Ok(overwritten_name(key, text)),
    }
}

/// A result with its name as a sequence of characters.
pub open spec fn name_view(r: Result<String, Error>) -> Result<Seq<char>, Error> {
    match r {
        Ok(name) => Ok(name@),
        Err(e) => Err(e),
    }
}

/// The key is kept by the name that is synthesized in the default mode:
/// under a key of fifty characters at most a name is returned, and
/// extraction finds the key in it.
pub proof fn lemma_synthesized_keeps_key(key: Seq<char>, summary: Seq<char>)
    requires
        is_key(key),
        key.len() <= 50,
    ensures
        synthesized(key, summary, BranchNameModeView::Default) == Ok::<Seq<char>, Error>(
            default_name(key, summary),
        ),
        extract(default_name(key, summary)) == Some(key),
{
    lemma_default_name_keeps_key(key, summary);
}

/// Every name that is synthesized from key and summary is short:
/// without a suffix it has fifty characters at most, and with a suffix
/// fifty-one at most and never more than fifty and the length of the
/// suffix. The stem alone never has more than fifty.
pub proof fn lemma_synthesized_length(key: Seq<char>, summary: Seq<char>, mode: BranchNameModeView)
    ensures
        stem(key, summary).len() <= 50,
        match (mode, synthesized(key, summary, mode)) {
            (BranchNameModeView::Default, Ok(name)) => name.len() <= 50,
            (BranchNameModeView::WithSuffix(text), Ok(name)) => name.len() <= 51 && name.len()
                <= 50 + text.len(),
            _ => true,
        },
{
    match mode {
        BranchNameModeView::WithSuffix(text) => lemma_name_length(key, summary, text),
        _ => lemma_name_length(key, summary, Seq::empty()),
    }
}

/// Every name that is synthesized under a key is well formed:
/// the name is clean, holds no disallowed character, and begins with the
/// key, and so with a capital letter.
pub proof fn lemma_synthesized_clean(key: Seq<char>, summary: Seq<char>, mode: BranchNameModeView)
    requires
        is_key(key),
    ensures
        synthesized(key, summary, mode) matches Ok(name) ==> {
            &&& is_clean(name)
            &&& all_allowed(name)
            &&& starts_with(name, key)
            &&& is_upper(name[0])
        },
{
    lemma_key_chars(key);
    match mode {
        BranchNameModeView::Short => {
            lemma_key_is_clean(key);
            assert(key.subrange(0, key.len() as int) =~= key);
        },
        BranchNameModeView::Default => {
            lemma_name_clean(key, summary, None);
            if key.len() > 50 {
                lemma_long_key_is_lost(key, summary, None);
            } else {
                lemma_name_starts_with_key(key, summary, None);
            }
        },
        BranchNameModeView::WithSuffix(text) => {
            lemma_name_clean(key, summary, Some(text));
            if key.len() > 50 {
                lemma_long_key_is_lost(key, summary, Some(text));
            } else {
                lemma_name_starts_with_key(key, summary, Some(text));
            }
        },
        BranchNameModeView::Overwrite(text) => {
            lemma_sanitize_clean(key + seq![' '] + text);
            lemma_overwritten_name_keeps_key(key, text);
            let name = overwritten_name(key, text);
            assert(name.subrange(0, key.len() as int) =~= name.take(key.len() as int));
            assert(name[0] == key[0]);
        },
    }
}

} // verus!
