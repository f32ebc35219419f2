//! The commit-msg hook: what becomes of a draft commit message on a branch.
//!
//! Every commit message is to begin with the key of one issue. The hook
//! takes the key from the branch name, puts it before the message, and
//! refuses what it cannot bring into that shape.

use crate::case::{
    ascii_upper, char_is_digit, char_is_lower, char_is_upper, is_ascii, is_digit, is_lower,
    is_upper, lemma_uppercase_concat, lemma_uppercase_fixed, to_ascii_upper, uppercase,
};
use crate::config::Config;
use crate::error::Error;
use crate::key::{
    find_key, is_first_key, is_key, key_at, lemma_first_key_unique, lemma_key_chars,
    lemma_leading_key,
};
use crate::text::{
    begins_with, char_is_whitespace, chars_of, is_whitespace, replace, replace_all, same, slice,
    starts_with, string_of, trim, trim_end, trimmed,
};
use crate::types::{extract, IssueKey};
use vstd::prelude::*;

verus! {

/// `HEAD`, which stands for the branch name while a rebase replays commits.
pub open spec fn head_marker() -> Seq<char> {
    seq!['H', 'E', 'A', 'D']
}

/// `squash`
pub open spec fn squash_word() -> Seq<char> {
    seq!['s', 'q', 'u', 'a', 's', 'h']
}

/// `fixup`
pub open spec fn fixup_word() -> Seq<char> {
    seq!['f', 'i', 'x', 'u', 'p']
}

/// `amend`
pub open spec fn amend_word() -> Seq<char> {
    seq!['a', 'm', 'e', 'n', 'd']
}

/// `revert`
pub open spec fn revert_word() -> Seq<char> {
    seq!['r', 'e', 'v', 'e', 'r', 't']
}

/// The message is one that the version control writes by itself: it begins
/// with `squash`, `fixup`, `amend` or `revert`, in small letters. An
/// exclamation mark may follow the word, and any text.
pub open spec fn is_boilerplate(message: Seq<char>) -> bool {
    ||| starts_with(message, squash_word())
    ||| starts_with(message, fixup_word())
    ||| starts_with(message, amend_word())
    ||| starts_with(message, revert_word())
}

/// `s` without the colons and the white space at its beginning.
pub open spec fn strip_separators(s: Seq<char>) -> Seq<char>
    decreases s.len(),
{
    if s.len() > 0 && (s[0] == ':' || is_whitespace(s[0])) {
        strip_separators(s.skip(1))
    } else {
        s
    }
}

/// The message without its key. Where the message begins with the key, the
/// key goes, and the colons and white space behind it; else every
/// occurrence of the key goes. White space at the ends goes too.
pub open spec fn body_without_key(message: Seq<char>, key: Seq<char>) -> Seq<char> {
    if starts_with(message, key) {
        trim_end(strip_separators(message.skip(key.len() as int)))
    } else {
        trim(replace_all(message, key, Seq::empty()))
    }
}

/// The body with a capital in place of a small ASCII letter at its
/// beginning.
pub open spec fn capitalize(body: Seq<char>) -> Seq<char> {
    if body.len() > 0 && is_lower(body[0]) {
        body.update(0, ascii_upper(body[0]))
    } else {
        body
    }
}

/// The message that is made of a key and a body.
pub open spec fn assemble(key: Seq<char>, body: Seq<char>) -> Seq<char> {
    key + seq![' '] + capitalize(body)
}

/// The shape that every commit message must have: a key, a space, and a
/// capital letter or a digit. Anything may follow.
pub open spec fn conforms(message: Seq<char>) -> bool {
    exists|n: int|
        0 <= n && n + 1 < message.len() && #[trigger] is_key(message.subrange(0, n)) && message[n]
            == ' ' && (is_upper(message[n + 1]) || is_digit(message[n + 1]))
}

/// What the hook is to do.
#[derive(Debug, Clone, PartialEq, Eq)]
pub enum HookAction {
    /// Let the commit go on with the message as it is.
    Keep,
    /// Let the commit go on with this message in place of the draft.
    Write(String),
    /// Neither the branch nor the message holds a key: let the user pick an
    /// issue, and go on with `CommitMsg::with_issue`.
    SelectIssue,
    /// Abort the commit.
    Abort(Error),
}

/// A `HookAction` with its message as a sequence of characters.
pub enum Action {
    Keep,
    Write(Seq<char>),
    SelectIssue,
    Abort(Error),
}

impl View for HookAction {
    type V = Action;

    open spec fn view(&self) -> Action {
        match self {
            HookAction::Keep => Action::Keep,
            HookAction::Write(message) => Action::Write(message@),
            HookAction::SelectIssue => Action::SelectIssue,
            HookAction::Abort(e) => Action::Abort(*e),
        }
    }
}

/// The last step: the key put before the body, and the whole held to the
/// shape of a commit message.
pub open spec fn finish(key: Seq<char>, body: Seq<char>) -> Action {
    if conforms(assemble(key, body)) {
        Action::Write(assemble(key, body))
    } else {
        Action::Abort(Error::ConformanceViolation)
    }
}

/// The decision, by the key of the branch and the key of the message.
pub open spec fn decide_by_keys(
    message: Seq<char>,
    branch_key: Option<Seq<char>>,
    message_key: Option<Seq<char>>,
    allow_missing: bool,
    allow_mismatch: bool,
) -> Action {
    match (branch_key, message_key) {
        (Some(b), Some(m)) => if b != m && !allow_mismatch {
            Action::Abort(Error::KeyMismatch)
        } else {
            finish(m, body_without_key(message, m))
        },
        (Some(b), None) => finish(b, message),
        (None, Some(m)) => if allow_missing {
            finish(m, body_without_key(message, m))
        } else {
            Action::Abort(Error::MissingKey)
        },
        (None, None) => if allow_missing {
            Action::SelectIssue
        } else {
            Action::Abort(Error::MissingKey)
        },
    }
}

/// The decision of the hook. An empty branch name is an error. During a
/// rebase, and for a message that the version control wrote, the message
/// stays. Else the keys of the branch and of the message decide.
pub open spec fn decide(
    branch: Seq<char>,
    message: Seq<char>,
    allow_missing: bool,
    allow_mismatch: bool,
) -> Action {
    if branch.len() == 0 {
        Action::Abort(Error::BranchState)
    } else if branch == head_marker() {
        Action::Keep
    } else if is_boilerplate(message) {
        Action::Keep
    } else {
        decide_by_keys(message, extract(branch), extract(message), allow_missing, allow_mismatch)
    }
}

/// The key in an `Option`, as characters.
pub open spec fn key_view(key: Option<IssueKey>) -> Option<Seq<char>> {
    match key {
        Some(k) => Some(k@),
        None => None,
    }
}

/// A message that conforms begins with a key, and that key is the one that
/// extraction finds first.
pub proof fn lemma_conforms_first_key(message: Seq<char>, n: int)
    requires
        0 <= n && n + 1 < message.len(),
        is_key(message.subrange(0, n)),
        message[n] == ' ',
    ensures
        is_first_key(message, 0, n),
{
    assert(key_at(message, 0, n));
}

/// At the end, whatever the hook lets through begins with a key, a space,
/// and a capital letter or a digit.
pub proof fn lemma_written_conforms(key: Seq<char>, body: Seq<char>)
    ensures
        finish(key, body) matches Action::Write(m) ==> conforms(m),
{
}

/// A commit message that conforms can be traced to its issue: extraction
/// finds the key that the message begins with.
pub proof fn lemma_conforming_yields_key(message: Seq<char>, n: int)
    requires
        0 <= n && n + 1 < message.len(),
        is_key(message.subrange(0, n)),
        message[n] == ' ',
    ensures
        extract(message) == Some(message.subrange(0, n)),
{
    let key = message.subrange(0, n);
    let rest = message.skip(n + 1);
    let gap = seq![' '];
    assert(message =~= key + (gap + rest));
    lemma_key_chars(key);
    assert forall|i: int| 0 <= i < key.len() implies is_ascii(#[trigger] key[i]) && !is_lower(
        key[i],
    ) by {
        assert(is_upper(key[i]) || is_digit(key[i]) || key[i] == '-');
    }
    lemma_uppercase_fixed(key);
    lemma_uppercase_fixed(gap);
    lemma_uppercase_concat(key, gap + rest);
    lemma_uppercase_concat(gap, rest);
    lemma_leading_key(key, uppercase(gap + rest));
}

/// Whether `message` has the shape of a commit message.
pub fn check_conforms(message: &Vec<char>) -> (r: bool)
    ensures
        r == conforms(message@),
{
    match find_key(message) {
        Some((i, j)) => {
            if i == 0 && j < message.len() - 1 && message[j] == ' ' && (char_is_upper(
                message[j + 1],
            ) || char_is_digit(message[j + 1])) {
                assert(is_key(message@.subrange(0, j as int)));
                true
            } else {
                assert forall|n: int|
                    0 <= n && n + 1 < message@.len() && #[trigger] is_key(
                        message@.subrange(0, n),
                    ) && message@[n] == ' ' implies !(is_upper(message@[n + 1]) || is_digit(
                    message@[n + 1],
                )) by {
                    lemma_conforms_first_key(message@, n);
                    lemma_first_key_unique(message@, 0, n, i as int, j as int);
                }
                false
            }
        },
        None => {
            assert forall|n: int| 0 <= n <= message@.len() implies !#[trigger] is_key(
                message@.subrange(0, n),
            ) by {
                if is_key(message@.subrange(0, n)) {
                    assert(key_at(message@, 0, n));
                }
            }
            false
        },
    }
}

/// Whether `message` is one that the version control writes by itself.
pub fn check_boilerplate(message: &Vec<char>) -> (r: bool)
    ensures
        r == is_boilerplate(message@),
{
    let squash: Vec<char> = vec!['s', 'q', 'u', 'a', 's', 'h'];
    let fixup: Vec<char> = vec!['f', 'i', 'x', 'u', 'p'];
    let amend: Vec<char> = vec!['a', 'm', 'e', 'n', 'd'];
    let revert: Vec<char> = vec!['r', 'e', 'v', 'e', 'r', 't'];
    assert(squash@ =~= squash_word() && fixup@ =~= fixup_word() && amend@ =~= amend_word()
        && revert@ =~= revert_word());
    begins_with(message, &squash) || begins_with(message, &fixup) || begins_with(message, &amend)
        || begins_with(message, &revert)
}

/// The message without its key.
pub fn strip_key(message: &Vec<char>, key: &Vec<char>) -> (r: Vec<char>)
    ensures
        r@ == body_without_key(message@, key@),
{
    if begins_with(message, key) {
        let mut from: usize = key.len();
        assert(strip_separators(message@.skip(key.len() as int)) == strip_separators(
            message@.skip(from as int),
        ));
        while from < message.len() && (message[from] == ':' || char_is_whitespace(message[from]))
            invariant
                key.len() <= from <= message.len(),
                strip_separators(message@.skip(key.len() as int)) == strip_separators(
                    message@.skip(from as int),
                ),
            decreases message.len() - from,
        {
            assert(message@.skip(from as int).skip(1) =~= message@.skip(from + 1));
            from += 1;
        }
        let mut to: usize = message.len();
        assert(message@.subrange(from as int, to as int) =~= message@.skip(from as int));
        while to > from && char_is_whitespace(message[to - 1])
            invariant
                from <= to <= message.len(),
                body_without_key(message@, key@) == trim_end(
                    message@.subrange(from as int, to as int),
                ),
            decreases to,
        {
            assert(message@.subrange(from as int, to as int).drop_last() =~= message@.subrange(
                from as int,
                to - 1,
            ));
            to -= 1;
        }
        slice(message, from, to)
    } else {
        let nothing: Vec<char> = Vec::new();
        assert(nothing@ =~= Seq::<char>::empty());
        trimmed(&replace(message, key, &nothing))
    }
}

/// Puts the key before the body, and returns the message if it has the
/// shape of a commit message.
pub fn finish_message(key: &Vec<char>, body: Vec<char>) -> (r: HookAction)
    ensures
        r@ == finish(key@, body@),
        r matches HookAction::Write(m) ==> conforms(m@) && extract(m@) is Some,
{
    let ghost given = body@;
    let mut body = body;
    if body.len() > 0 && char_is_lower(body[0]) {
        let capital = to_ascii_upper(body[0]);
        body.set(0, capital);
    }
    assert(body@ == capitalize(given));
    let mut message = key.clone();
    message.push(' ');
    message.append(&mut body);
    assert(message@ =~= assemble(key@, given));
    if check_conforms(&message) {
        proof {
            let n = choose|n: int|
                0 <= n && n + 1 < message@.len() && #[trigger] is_key(message@.subrange(0, n))
                    && message@[n] == ' ' && (is_upper(message@[n + 1]) || is_digit(
                    message@[n + 1],
                ));
            lemma_conforming_yields_key(message@, n);
        }
        HookAction::Write(string_of(&message))
    } else {
        HookAction::Abort(Error::ConformanceViolation)
    }
}

/// Whether the two hold the same key.
fn same_key(a: &IssueKey, b: &IssueKey) -> (r: bool)
    ensures
        r == (a@ == b@),
{
    same(&chars_of(a.0.as_str()), &chars_of(b.0.as_str()))
}

/// The hook for commit messages, with what it works on: the name of the
/// branch that is checked out, and the draft of the message.
#[derive(Debug, Clone)]
pub struct CommitMsg {
    pub branch: String,
    pub commit_msg: String,
}

impl CommitMsg {
    /// The name under which the version control calls the hook.
    pub fn hook_name() -> (r: String)
        ensures
            r@ == "commit-msg"@,
    {
        "commit-msg".to_owned()
    }

    /// The decision for a message, by the key that was found in the branch
    /// name and the key that was found in the message.
    ///
    /// With a key in the branch and none in the message, the key is put
    /// before the message. With a key in the message, that key is taken out
    /// of the message and put before it; but where the branch holds another
    /// key, or none, the commit is aborted unless the configuration allows
    /// it. With no key at all the commit is aborted, or, where the
    /// configuration allows a branch without a key, the user is to pick an
    /// issue.
    pub fn decide(
        message: &str,
        branch_key: Option<IssueKey>,
        message_key: Option<IssueKey>,
        allow_missing: bool,
        allow_mismatch: bool,
    ) -> (r: HookAction)
        ensures
            r@ == decide_by_keys(
                message@,
                key_view(branch_key),
                key_view(message_key),
                allow_missing,
                allow_mismatch,
            ),
            r matches HookAction::Write(m) ==> conforms(m@) && extract(m@) is Some,
    {
        let text = chars_of(message);
        match (branch_key, message_key) {
            (Some(b), Some(m)) => {
                if !same_key(&b, &m) && !allow_mismatch {
                    HookAction::Abort(Error::KeyMismatch)
                } else {
                    let key = chars_of(m.0.as_str());
                    finish_message(&key, strip_key(&text, &key))
                }
            },
            (Some(b), None) => finish_message(&chars_of(b.0.as_str()), text),
            (None, Some(m)) => {
                if allow_missing {
                    let key = chars_of(m.0.as_str());
                    finish_message(&key, strip_key(&text, &key))
                } else {
                    HookAction::Abort(Error::MissingKey)
                }
            },
            (None, None) => {
                if allow_missing {
                    HookAction::SelectIssue
                } else {
                    HookAction::Abort(Error::MissingKey)
                }
            },
        }
    }

    /// Runs the hook on the draft.
    pub fn exec(&self, cfg: &Config) -> (r: HookAction)
        ensures
            r@ == decide(
                self.branch@,
                self.commit_msg@,
                cfg.hooks_cfg.allow_branch_missing_issue_key,
                cfg.hooks_cfg.allow_branch_and_commit_msg_mismatch,
            ),
            r matches HookAction::Write(m) ==> conforms(m@) && extract(m@) is Some,
    {
        let branch = chars_of(self.branch.as_str());
        let head: Vec<char> = vec!['H', 'E', 'A', 'D'];
        assert(head@ =~= head_marker());
        if branch.len() == 0 {
            return HookAction::Abort(Error::BranchState);
        }
        if same(&branch, &head) {
            return HookAction::Keep;
        }
        if check_boilerplate(&chars_of(self.commit_msg.as_str())) {
            return HookAction::Keep;
        }
        let branch_key = match IssueKey::try_from(self.branch.clone()) {
            Ok(k) => Some(k),
            Err(_) => None,
        };
        let message_key = match IssueKey::try_from(self.commit_msg.clone()) {
            Ok(k) => Some(k),
            Err(_) => None,
        };
        Self::decide(
            self.commit_msg.as_str(),
            branch_key,
            message_key,
            cfg.hooks_cfg.allow_branch_missing_issue_key,
            cfg.hooks_cfg.allow_branch_and_commit_msg_mismatch,
        )
    }

    /// The message under the key of the issue that the user picked: the key
    /// before the draft, which is otherwise left as it is.
    pub fn with_issue(&self, key: &IssueKey) -> (r: HookAction)
        ensures
            r@ == finish(key@, self.commit_msg@),
            r matches HookAction::Write(m) ==> conforms(m@) && extract(m@) is Some,
    {
        finish_message(&chars_of(key.0.as_str()), chars_of(self.commit_msg.as_str()))
    }
}

/// Whether the program was called as a hook of the version control: under
/// the name `commit-msg`.
pub fn is_git_hook(bin_name: &str) -> (r: bool)
    ensures
        r == (bin_name@ == "commit-msg"@),
{
    let wanted = CommitMsg::hook_name();
    same(&chars_of(bin_name), &chars_of(wanted.as_str()))
}

} // verus!
