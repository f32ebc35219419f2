//! What a repository knows of its branches, and the branch of an issue.

use crate::branch_name::{
    branch_name_of, issue_branch_name, lemma_default_name_keeps_key, lemma_key_is_clean,
    lemma_long_key_is_lost, lemma_name_length, lemma_name_starts_with_key,
    lemma_overwritten_name_keeps_key, name_view, overwritten_name, synthesized, text_view,
    with_suffix, fitted_suffix, BranchNameMode,
};
use crate::case::{is_upper, to_uppercase, uppercase};
use crate::error::Error;
use crate::key::{find_key, is_key, lemma_first_key_is, lemma_first_key_is_key, lemma_key_chars};
use crate::sanitize::{
    all_allowed, is_clean, lemma_sanitize_idempotent, sanitize, sanitize_chars,
};
use crate::text::{
    chars_of, contains, has, has_at, same, starts_with, string_of, take_chars,
};
use crate::types::{extract, Issue, IssueKey};
use vstd::prelude::*;

verus! {

/// The most characters that the stem of a branch name has.
pub const STEM_MAX: usize = 50;

/// Whether extraction on `name` gives `key`.
pub fn leads_to(name: &Vec<char>, key: &Vec<char>) -> (r: bool)
    ensures
        r == (extract(name@) == Some(key@)),
{
    let upper = to_uppercase(name);
    match find_key(&upper) {
        Some((i, j)) => {
            proof {
                lemma_first_key_is(upper@, i as int, j as int);
            }
            if j - i == key.len() {
                has_at(&upper, key, i)
            } else {
                false
            }
        },
        None => false,
    }
}

/// `with_suffix` on vectors.
fn suffixed(name: Vec<char>, key: &Vec<char>, suffix: Vec<char>) -> (r: Vec<char>)
    ensures
        r@ == with_suffix(name@, key@, suffix@),
{
    let mut fitted = if key.len() >= STEM_MAX {
        take_chars(suffix, 0)
    } else if suffix.len() > STEM_MAX - 1 - key.len() {
        take_chars(suffix, STEM_MAX - key.len())
    } else {
        suffix
    };
    assert(fitted@ =~= fitted_suffix(key@, suffix@));
    let mut joined = if name.len() > STEM_MAX || fitted.len() > STEM_MAX - name.len() {
        take_chars(name, STEM_MAX + 1 - fitted.len())
    } else {
        name
    };
    joined.append(&mut fitted);
    joined
}

/// What a repository knows of its branches, as plain values.
#[derive(Debug, Clone)]
pub struct Repository {
    /// The short name of the branch that is checked out, or the beginning
    /// of the commit's id where none is.
    pub head: String,
    /// The short names of the references of the repository, such as
    /// `main` for a branch and `origin/main` for a branch of a remote.
    pub refs: Vec<String>,
    /// The name of the default remote, if there is one.
    pub origin: Option<String>,
}

/// The names in `refs`, each as its characters.
pub open spec fn names(refs: Seq<String>) -> Seq<Seq<char>> {
    Seq::new(refs.len(), |i: int| refs[i]@)
}

/// The test that a name holds `part`.
pub open spec fn holding(part: Seq<char>) -> spec_fn(Seq<char>) -> bool {
    |name: Seq<char>| contains(name, part)
}

impl Repository {
    /// A reference has the short name `name`, as it stands or under the
    /// default remote.
    pub open spec fn has_branch(&self, name: Seq<char>) -> bool {
        ||| names(self.refs@).contains(name)
        ||| match self.origin {
            Some(origin) => names(self.refs@).contains(origin@ + seq!['/'] + name),
            None => false,
        }
    }

    /// The name of the branch that is checked out.
    pub fn get_branch_name(&self) -> (r: String)
        ensures
            r@ == self.head@,
    {
        self.head.clone()
    }

    /// Whether a reference is known by exactly the name `name`.
    fn knows(&self, name: &Vec<char>) -> (r: bool)
        ensures
            r == names(self.refs@).contains(name@),
    {
        let mut i: usize = 0;
        while i < self.refs.len()
            invariant
                i <= self.refs.len(),
                forall|j: int| 0 <= j < i ==> names(self.refs@)[j] != name@,
            decreases self.refs.len() - i,
        {
            let candidate = chars_of(self.refs[i].as_str());
            if same(&candidate, name) {
                assert(names(self.refs@)[i as int] == name@);
                return true;
            }
            i += 1;
        }
        false
    }

    /// Whether the branch exists, here or on the default remote.
    pub fn branch_exists(&self, branch_name: String) -> (r: bool)
        ensures
            r == self.has_branch(branch_name@),
    {
        let name = chars_of(branch_name.as_str());
        if self.knows(&name) {
            return true;
        }
        match &self.origin {
            Some(origin) => {
                let mut remote_name = chars_of(origin.as_str());
                remote_name.push('/');
                let mut tail = name;
                remote_name.append(&mut tail);
                assert(remote_name@ =~= origin@ + seq!['/'] + branch_name@);
                self.knows(&remote_name)
            },
            None => false,
        }
    }

    /// The branch of an issue that exists already: the one by its full name
    /// if there is one, else the one by its key alone.
    pub fn issue_branch_exists(&self, issue: &Issue, suffix: Option<String>) -> (r: Result<
        String,
        Error,
    >)
        ensures
            ({
                let full = branch_name_of(
                    issue.key@,
                    issue.fields.summary@,
                    false,
                    text_view(suffix),
                );
                if full is Ok && self.has_branch(full->Ok_0) {
                    r is Ok && r->Ok_0@ == full->Ok_0
                } else if self.has_branch(issue.key@) {
                    r is Ok && r->Ok_0@ == issue.key@
                } else {
                    r == Err::<String, Error>(Error::NoIssueBranch)
                }
            }),
    {
        match Self::branch_name_from_issue(issue, false, suffix) {
            Ok(full_name) => {
                if self.branch_exists(full_name.clone()) {
                    return Ok(full_name);
                }
            },
            Err(_) => {},
        }
        if self.branch_exists(issue.key.to_string()) {
            Ok(issue.key.to_string())
        } else {
            Err(Error::NoIssueBranch)
        }
    }

    /// The names of the references that hold `partial_branch_name`, in the
    /// order in which the repository lists them.
    pub fn get_existing_branches(&self, partial_branch_name: &str) -> (r: Vec<String>)
        ensures
            names(r@) == names(self.refs@).filter(holding(partial_branch_name@)),
    {
        let part = chars_of(partial_branch_name);
        let ghost holds = holding(partial_branch_name@);
        let mut found: Vec<String> = Vec::new();
        let mut i: usize = 0;
        assert(names(self.refs@).take(0).filter(holds) =~= Seq::<Seq<char>>::empty()) by {
            reveal(Seq::filter);
        }
        assert(names(found@) =~= Seq::<Seq<char>>::empty());
        while i < self.refs.len()
            invariant
                i <= self.refs.len(),
                part@ == partial_branch_name@,
                holds == holding(partial_branch_name@),
                names(found@) == names(self.refs@).take(i as int).filter(holds),
            decreases self.refs.len() - i,
        {
            let candidate = chars_of(self.refs[i].as_str());
            let ghost before = names(found@);
            let ghost seen = names(self.refs@).take(i as int);
            let ghost all = names(self.refs@).take(i + 1);
            assert(all.drop_last() =~= seen);
            assert(all.last() == candidate@);
            reveal(Seq::filter);
            assert(all.filter(holds) == if holds(candidate@) {
                seen.filter(holds).push(candidate@)
            } else {
                seen.filter(holds)
            });
            if has(&candidate, &part) {
                found.push(self.refs[i].clone());
                assert(names(found@) =~= before.push(candidate@));
            }
            i += 1;
        }
        assert(names(self.refs@).take(self.refs.len() as int) =~= names(self.refs@));
        found
    }

    /// The branch name for an issue. With `use_short` it is the key alone.
    /// Else it is made of the key and the summary, and of the suffix if one
    /// is given, and it is returned only if the key of the issue can be
    /// extracted from it again: where the key would be lost or another
    /// would be found, the name is refused.
    pub fn branch_name_from_issue(issue: &Issue, use_short: bool, suffix: Option<String>) -> (r:
        Result<String, Error>)
        ensures
            name_view(r) == branch_name_of(
                issue.key@,
                issue.fields.summary@,
                use_short,
                text_view(suffix),
            ),
            !use_short && r is Ok ==> {
                &&& issue.key.is_valid()
                &&& issue.key@.len() <= 50
                &&& starts_with(r->Ok_0@, issue.key@)
                &&& is_clean(r->Ok_0@)
                &&& all_allowed(r->Ok_0@)
                &&& r->Ok_0@.len() <= 51
                &&& suffix is None ==> r->Ok_0@.len() <= 50
                &&& suffix is Some ==> r->Ok_0@.len() <= 50 + suffix->Some_0@.len()
            },
            !use_short && suffix is None ==> (r is Ok <==> issue.key.is_valid() && issue.key@.len()
                <= 50),
    {
        if use_short {
            return Ok(issue.key.to_string());
        }
        let key = chars_of(issue.key.0.as_str());
        let line = chars_of(issue.to_string().as_str());
        let cut = take_chars(sanitize_chars(&line), STEM_MAX);
        let ghost wanted: Option<Seq<char>> = match &suffix {
            Some(text) => Some(text@),
            None => None,
        };
        let joined = match &suffix {
            Some(text) => suffixed(cut, &key, chars_of(text.as_str())),
            None => cut,
        };
        let name = sanitize_chars(&joined);
        assert(name@ == issue_branch_name(issue.key@, issue.fields.summary@, wanted));
        proof {
            lemma_name_length(
                issue.key@,
                issue.fields.summary@,
                match wanted {
                    Some(text) => text,
                    None => Seq::empty(),
                },
            );
            if key@.len() > 50 {
                lemma_long_key_is_lost(issue.key@, issue.fields.summary@, wanted);
            } else if is_key(key@) {
                lemma_name_starts_with_key(issue.key@, issue.fields.summary@, wanted);
                if wanted is None {
                    lemma_default_name_keeps_key(issue.key@, issue.fields.summary@);
                }
            }
            if extract(name@) == Some(key@) {
                lemma_first_key_is_key(uppercase(name@));
            }
        }
        if leads_to(&name, &key) {
            Ok(string_of(&name))
        } else {
            Err(Error::MalformedKey)
        }
    }

    /// The branch name of an issue in the given mode. In the modes that cut
    /// the name it is returned only if the key of the issue can be extracted
    /// from it again.
    pub fn synthesize(issue: &Issue, mode: &BranchNameMode) -> (r: Result<String, Error>)
        ensures
            name_view(r) == synthesized(issue.key@, issue.fields.summary@, mode@),
            r is Ok && !(mode is Short) ==> is_clean(r->Ok_0@) && all_allowed(r->Ok_0@),
            r is Ok && issue.key.is_valid() ==> {
                &&& is_clean(r->Ok_0@)
                &&& all_allowed(r->Ok_0@)
                &&& starts_with(r->Ok_0@, issue.key@)
                &&& is_upper(r->Ok_0@[0])
            },
            r is Ok && (mode is Default || mode is WithSuffix) ==> r->Ok_0@.len() <= 51 && starts_with(
                r->Ok_0@,
                issue.key@,
            ),
            r is Ok && mode is Default ==> r->Ok_0@.len() <= 50,
            r is Ok && mode is WithSuffix ==> r->Ok_0@.len() <= 50 + mode->WithSuffix_0@.len(),
            r is Ok && (mode is Default || mode is WithSuffix) ==> issue.key.is_valid(),
            mode is Default ==> (r is Ok <==> issue.key.is_valid() && issue.key@.len() <= 50),
            mode is Short || mode is Overwrite ==> r is Ok,
            mode is Overwrite && issue.key.is_valid() ==> starts_with(r->Ok_0@, issue.key@) && extract(
                r->Ok_0@,
            ) == Some(issue.key@),
    {
        proof {
            if issue.key.is_valid() {
                lemma_key_is_clean(issue.key@);
                lemma_key_chars(issue.key@);
                assert(issue.key@.subrange(0, issue.key@.len() as int) =~= issue.key@);
            }
            if mode is Overwrite && issue.key.is_valid() {
                lemma_overwritten_name_keeps_key(issue.key@, mode->Overwrite_0@);
                assert(overwritten_name(issue.key@, mode->Overwrite_0@).subrange(
                    0,
                    issue.key@.len() as int,
                ) =~= overwritten_name(issue.key@, mode->Overwrite_0@).take(
                    issue.key@.len() as int,
                ));
            }
        }
        match mode {
            BranchNameMode::Short => Ok(issue.key.to_string()),
            BranchNameMode::Default => Self::branch_name_from_issue(issue, false, None),
            BranchNameMode::WithSuffix(text) => Self::branch_name_from_issue(
                issue,
                false,
                Some(text.clone()),
            ),
            BranchNameMode::Overwrite(text) => {
                let mut line = chars_of(issue.key.0.as_str());
                line.push(' ');
                let mut rest = chars_of(text.as_str());
                line.append(&mut rest);
                assert(line@ =~= issue.key@ + seq![' '] + text@);
                Ok(string_of(&sanitize_chars(&line)))
            },
        }
    }

    /// Appends `suffix` to `branch_name`. A suffix that is too long is cut
    /// first, so that it leaves room for the key; then the name is cut to
    /// make room for the suffix.
    pub fn overwriting_suffixer(branch_name: String, issue_key: &IssueKey, suffix: String) -> (r:
        String)
        ensures
            r@ == with_suffix(branch_name@, issue_key@, suffix@),
    {
        let key = chars_of(issue_key.0.as_str());
        let joined = suffixed(chars_of(branch_name.as_str()), &key, chars_of(suffix.as_str()));
        string_of(&joined)
    }

    /// Sanitizes a text so that it can name a branch. What it returns holds
    /// no `..`, `__`, `--`, `${`, `.lock/` or `/.` and none of the
    /// characters that are replaced, and does not end in a dot, a slash or
    /// an underscore; it is its own sanitized form.
    pub fn sanitize_branch_name(branch: &str) -> (r: String)
        ensures
            r@ == sanitize(branch@),
            is_clean(r@),
            all_allowed(r@),
            sanitize(r@) == r@,
            r@.len() <= branch@.len(),
    {
        let name = sanitize_chars(&chars_of(branch));
        proof {
            lemma_sanitize_idempotent(branch@);
        }
        string_of(&name)
    }
}

} // verus!
