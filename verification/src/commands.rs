//! The commands of the program, each with what the user gave it, and the
//! decisions that a command takes before it acts.

use crate::branch_name::{synthesized, BranchNameMode, BranchNameModeView};
use crate::config::{url_with_scheme, with_scheme, Config, GitHooksRawConfig, RawConfig};
use crate::error::Error;
use crate::repo::Repository;
use crate::text::{chars_of, contains, has, same, slice, string_of};
use crate::types::{extract, Issue, IssueKey};
use vstd::prelude::*;
use vstd::string::StringExecFns;

verus! {

/// Whether the query is to be made of saved filters.
#[derive(Debug, Clone, Copy, PartialEq, Eq, Structural)]
pub struct UseFilter {
    pub value: bool,
}

/// Assign an issue to a user.
#[derive(Debug, Clone)]
pub struct Assign {
    pub issue_key_input: Option<String>,
    pub user: Option<String>,
    pub use_filter: UseFilter,
}

/// Make a branch for an issue and check it out.
#[derive(Debug, Clone)]
pub struct Branch {
    /// Text for the end of the branch name.
    pub append: Option<String>,
    /// Text for the branch name in place of the summary.
    pub overwrite: Option<String>,
    pub issue_key_input: Option<String>,
    /// Name the branch by the key alone.
    pub short_name: bool,
    pub use_filter: UseFilter,
}

/// Comment on an issue.
#[derive(Debug, Clone)]
pub struct Comment {
    pub comment_input: Option<String>,
    pub issue_key_input: Option<String>,
    pub use_filter: UseFilter,
}

/// Make a new issue.
#[derive(Debug, Clone)]
pub struct Create {}

/// Install the hook for commit messages.
#[derive(Debug, Clone)]
pub struct Hooks {
    /// Replace a hook that is there without asking.
    pub force: bool,
}

/// Write a configuration file.
#[derive(Debug, Clone)]
pub struct InitConfig {
    /// Ask for every setting.
    pub all: bool,
}

/// Show an issue in the browser.
#[derive(Debug, Clone)]
pub struct Open {
    pub issue_key_input: Option<String>,
    pub use_filter: UseFilter,
}

/// Say where the configuration files are.
#[derive(Debug, Clone)]
pub struct PrintConfigs {}

/// Send a query and print the answer.
#[derive(Debug, Clone)]
pub struct Query {
    pub query: String,
    pub count: Option<u32>,
    pub fields: Option<Vec<String>>,
    pub expand: Option<Vec<String>>,
    pub pretty: bool,
}

/// Completes a query while the user types it.
#[derive(Debug, Clone)]
pub struct IssueQueryBuilder {}

/// Search for issues.
#[derive(Debug, Clone)]
pub struct Search {
    pub use_filter: bool,
}

/// Move an issue to another state.
#[derive(Debug, Clone)]
pub struct Transition {
    pub issue_key_input: Option<String>,
    pub use_filter: UseFilter,
}

/// Replace the program by a newer release.
#[derive(Debug, Clone)]
pub struct Upgrade {
    /// Do not ask before the program is replaced.
    pub force: bool,
    /// Print nothing.
    pub quiet: bool,
    /// Print more.
    pub verbose: bool,
    /// Let the user pick the release.
    pub select: bool,
}

/// Log work on an issue.
#[derive(Debug, Clone)]
pub struct Worklog {
    pub comment_input: Option<String>,
    pub date: Option<String>,
    pub duration: String,
    pub issue_key_input: Option<String>,
    pub use_filter: UseFilter,
}

/// The branch to check out, and whether it is to be made first.
#[derive(Debug, Clone, PartialEq, Eq)]
pub struct Checkout {
    pub branch_name: String,
    pub create_new: bool,
}

/// Where the key of the issue comes from.
#[derive(Debug, Clone, PartialEq, Eq)]
pub enum KeySource {
    /// The user gave it, or the branch name held it.
    Key(IssueKey),
    /// The user is to pick an issue.
    Prompt,
}

/// The key that a command works on. What the user gave must hold a key.
/// Where the user gave nothing, the key is that of the branch name, and
/// where the branch name holds none, the user is to pick an issue.
pub fn key_source(issue_key_input: &Option<String>, head_name: &str) -> (r: Result<
    KeySource,
    Error,
>)
    ensures
        match issue_key_input {
            Some(input) => match extract(input@) {
                Some(key) => r matches Ok(KeySource::Key(k)) && k@ == key,
                None => r == Err::<KeySource, Error>(Error::MalformedKey),
            },
            None => match extract(head_name@) {
                Some(key) => r matches Ok(KeySource::Key(k)) && k@ == key,
                None => r == Ok::<KeySource, Error>(KeySource::Prompt),
            },
        },
{
    match issue_key_input {
        Some(input) => match IssueKey::try_from(input.clone()) {
            Ok(key) => Ok(KeySource::Key(key)),
            Err(e) => Err(e),
        },
        None => match IssueKey::try_from(head_name.to_owned()) {
            Ok(key) => Ok(KeySource::Key(key)),
            Err(_) => Ok(KeySource::Prompt),
        },
    }
}

/// How the user is to choose from a list.
#[derive(Debug, Clone, Copy, PartialEq, Eq, Structural)]
pub enum Choice {
    /// The list holds one item: it is taken.
    Only,
    /// The list holds several: the user is asked.
    Ask,
}

impl Assign {
    /// How a user is chosen from the `count` users that a search found.
    pub fn choice(count: usize) -> (r: Result<Choice, Error>)
        ensures
            r == (if count == 0 {
                Err::<Choice, Error>(Error::NothingToSelect)
            } else if count == 1 {
                Ok::<Choice, Error>(Choice::Only)
            } else {
                Ok::<Choice, Error>(Choice::Ask)
            }),
    {
        if count == 0 {
            Err(Error::NothingToSelect)
        } else if count == 1 {
            Ok(Choice::Only)
        } else {
            Ok(Choice::Ask)
        }
    }
}

impl Branch {
    /// The mode that the modifiers ask for, or `UsageConflict` where more
    /// than one of them is given.
    pub open spec fn wanted_mode(&self) -> Result<BranchNameModeView, Error> {
        if (self.short_name && self.append is Some) || (self.short_name && self.overwrite is Some)
            || (self.append is Some && self.overwrite is Some) {
            Err(Error::UsageConflict)
        } else if self.short_name {
            Ok(BranchNameModeView::Short)
        } else if self.append is Some {
            Ok(BranchNameModeView::WithSuffix(self.append->Some_0@))
        } else if self.overwrite is Some {
            Ok(BranchNameModeView::Overwrite(self.overwrite->Some_0@))
        } else {
            Ok(BranchNameModeView::Default)
        }
    }

    /// The mode in which the branch is named. The modifiers exclude one
    /// another.
    pub fn mode(&self) -> (r: Result<BranchNameMode, Error>)
        ensures
            match r {
                Ok(mode) => self.wanted_mode() == Ok::<BranchNameModeView, Error>(mode@),
                Err(e) => self.wanted_mode() == Err::<BranchNameModeView, Error>(e),
            },
    {
        let modifiers: u8 = (if self.short_name {
            1u8
        } else {
            0u8
        }) + (if self.append.is_some() {
            1u8
        } else {
            0u8
        }) + (if self.overwrite.is_some() {
            1u8
        } else {
            0u8
        });
        if modifiers > 1 {
            return Err(Error::UsageConflict);
        }
        if self.short_name {
            return Ok(BranchNameMode::Short);
        }
        match &self.append {
            Some(text) => {
                return Ok(BranchNameMode::WithSuffix(text.clone()));
            },
            None => {},
        }
        match &self.overwrite {
            Some(text) => Ok(BranchNameMode::Overwrite(text.clone())),
            None => Ok(BranchNameMode::Default),
        }
    }

    /// What is to be checked out for an issue with the branch name `name`.
    pub open spec fn wanted_checkout(repo: &Repository, key: Seq<char>, name: Seq<char>) -> (
        Seq<char>,
        bool,
    ) {
        if repo.has_branch(name) {
            (name, false)
        } else if repo.has_branch(key) {
            (key, false)
        } else {
            (name, true)
        }
    }

    /// The branch to check out for `issue`. It is the branch of the
    /// synthesized name if that exists, here or on the default remote; else
    /// the branch by the key alone if that exists; else a new branch of the
    /// synthesized name.
    pub fn target(&self, repo: &Repository, issue: &Issue) -> (r: Result<Checkout, Error>)
        ensures
            match self.wanted_mode() {
                Err(e) => r == Err::<Checkout, Error>(e),
                Ok(mode) => match synthesized(issue.key@, issue.fields.summary@, mode) {
                    Err(e) => r == Err::<Checkout, Error>(e),
                    Ok(name) => r is Ok && (r->Ok_0.branch_name@, r->Ok_0.create_new)
                        == Self::wanted_checkout(repo, issue.key@, name),
                },
            },
    {
        let mode = match self.mode() {
            Ok(mode) => mode,
            Err(e) => {
                return Err(e);
            },
        };
        let name = match Repository::synthesize(issue, &mode) {
            Ok(name) => name,
            Err(e) => {
                return Err(e);
            },
        };
        if repo.branch_exists(name.clone()) {
            Ok(Checkout { branch_name: name, create_new: false })
        } else if repo.branch_exists(issue.key.to_string()) {
            Ok(Checkout { branch_name: issue.key.to_string(), create_new: false })
        } else {
            Ok(Checkout { branch_name: name, create_new: true })
        }
    }
}

/// What `str::to_lowercase` returns for `text`: its lower case as Unicode
/// defines it.
pub uninterp spec fn lowercase(text: Seq<char>) -> Seq<char>;

/// `str::to_lowercase`: the lower case of the text, which depends on the
/// text alone.
#[verifier::external_body]
fn to_lowercase(text: &str) -> (r: String)
    ensures
        r@ == lowercase(text@),
{
    text.to_lowercase()
}

/// What `NaiveDate::parse_from_str` returns for `text` under `format`, as
/// the date reads by `to_string`: year, month and day; `None` where the
/// text is no date of that format.
pub uninterp spec fn parsed_date(text: Seq<char>, format: Seq<char>) -> Option<Seq<char>>;

/// The text in an `Option`, as characters.
pub open spec fn optional_text(text: Option<String>) -> Option<Seq<char>> {
    match text {
        Some(t) => Some(t@),
        None => None,
    }
}

/// `chrono::NaiveDate::parse_from_str`, and `to_string` on the date that it
/// returns. Whether a date is read, and which, depends on the text and the
/// format alone.
#[verifier::external_body]
fn parse_date(text: &str, format: &str) -> (r: Option<String>)
    ensures
        optional_text(r) == parsed_date(text@, format@),
{
    match chrono::NaiveDate::parse_from_str(text, format) {
        Ok(date) => Some(date.to_string()),
        Err(_) => None,
    }
}

/// What `Url::parse` returns for `text`, as the scheme and the host of the
/// address; `None` where the text is no absolute address.
pub uninterp spec fn parsed_url(text: Seq<char>) -> Option<(Seq<char>, Option<Seq<char>>)>;

/// The scheme and the host in an `Option`, as characters.
pub open spec fn optional_parts(parts: Option<(String, Option<String>)>) -> Option<
    (Seq<char>, Option<Seq<char>>),
> {
    match parts {
        Some((scheme, host)) => Some((scheme@, optional_text(host))),
        None => None,
    }
}

/// `url::Url::parse`, with `scheme` and `host_str` on the address that it
/// returns. Whether an address is read, and which, depends on the text
/// alone.
#[verifier::external_body]
fn parse_url(text: &str) -> (r: Option<(String, Option<String>)>)
    ensures
        optional_parts(r) == parsed_url(text@),
{
    match url::Url::parse(text) {
        Ok(parsed) => Some(
            (parsed.scheme().to_string(), parsed.host_str().map(|host| host.to_string())),
        ),
        Err(_) => None,
    }
}

/// The address of a server that is made of a scheme and a host.
pub open spec fn server_address(scheme: Seq<char>, host: Seq<char>) -> Seq<char> {
    scheme + "://"@ + host
}

/// The address of the server that the user named by `input`: the scheme and
/// the host of the input, which is read with `https://` before it unless
/// it begins with `http`. `None` where the input is no address or names no
/// host.
pub open spec fn address_of(input: Seq<char>) -> Option<Seq<char>> {
    match parsed_url(url_with_scheme(input)) {
        Some((scheme, Some(host))) => Some(server_address(scheme, host)),
        _ => None,
    }
}

/// Where the date of a work log comes from.
#[derive(Debug, Clone, PartialEq, Eq)]
pub enum DateSource {
    /// It is the present moment.
    Now,
    /// The user wrote this date.
    Given(String),
    /// The user is to pick a date.
    Ask,
}

/// A `DateSource` with its date as a sequence of characters.
pub enum DateSourceView {
    Now,
    Given(Seq<char>),
    Ask,
}

impl View for DateSource {
    type V = DateSourceView;

    open spec fn view(&self) -> DateSourceView {
        match self {
            DateSource::Now => DateSourceView::Now,
            DateSource::Given(date) => DateSourceView::Given(date@),
            DateSource::Ask => DateSourceView::Ask,
        }
    }
}

/// The source of a date that was written as `date` and is `lowered` in
/// small letters: `now` and `today` mean the present moment.
pub open spec fn date_written(date: Seq<char>, lowered: Seq<char>) -> DateSourceView {
    if lowered == "now"@ || lowered == "today"@ {
        DateSourceView::Now
    } else {
        DateSourceView::Given(date)
    }
}

/// The moment at which work began on `date`: the date, and the time of day
/// and the zone of `now`, which stand behind the first ten characters of
/// `now`.
pub open spec fn begun_at(date: Seq<char>, now: Seq<char>) -> Seq<char> {
    if now.len() >= 10 {
        date + now.skip(10)
    } else {
        date
    }
}

/// The comment that stands for "ask the user".
pub open spec fn prompt_marker() -> Seq<char> {
    "#PROMPT_FOR_COMMENT#"@
}

impl Worklog {
    /// The source of a date that was written as `date` and is `lowered` in
    /// small letters.
    pub fn date_of(date: &str, lowered: &str) -> (r: DateSource)
        ensures
            r@ == date_written(date@, lowered@),
    {
        let small = chars_of(lowered);
        if same(&small, &chars_of("now")) || same(
            &small,
            &chars_of("today"),
        ) {
            DateSource::Now
        } else {
            DateSource::Given(date.to_owned())
        }
    }

    /// Where the date of the work log comes from: from the user's choice
    /// where none was written; else `now` and `today`, in small or capital
    /// letters, mean the present moment, and anything else is the date.
    pub fn date_source(&self) -> (r: DateSource)
        ensures
            r@ == (match self.date {
                Some(date) => date_written(date@, lowercase(date@)),
                None => DateSourceView::Ask,
            }),
    {
        match &self.date {
            Some(date) => Self::date_of(date.as_str(), to_lowercase(date.as_str()).as_str()),
            None => DateSource::Ask,
        }
    }

    /// The moment at which work began on the day that the user wrote as
    /// `date`, a year, a month and a day with hyphens between them; the time
    /// of day and the zone are those of the moment `now`.
    pub fn started_on(date: &str, now: &str) -> (r: Result<String, Error>)
        ensures
            match parsed_date(date@, "%Y-%m-%d"@) {
                Some(day) => r is Ok && r->Ok_0@ == begun_at(day, now@),
                None => r == Err::<String, Error>(Error::MalformedDate),
            },
    {
        match parse_date(date, "%Y-%m-%d") {
            Some(day) => Ok(Self::started(day.as_str(), now)),
            None => Err(Error::MalformedDate),
        }
    }

    /// The moment at which work began on `date`, with the time of day and
    /// the zone of the moment `now`.
    pub fn started(date: &str, now: &str) -> (r: String)
        ensures
            r@ == begun_at(date@, now@),
    {
        let moment = chars_of(now);
        let mut started = chars_of(date);
        if moment.len() >= 10 {
            let mut time = slice(&moment, 10, moment.len());
            assert(moment@.subrange(10, moment.len() as int) =~= moment@.skip(10));
            started.append(&mut time);
        }
        string_of(&started)
    }

    /// The comment of the work log as far as it is known without asking:
    /// what the user gave; else nothing where the configuration asks for
    /// comments; else the empty comment.
    pub open spec fn wanted_comment(&self, cfg: &Config) -> Option<Seq<char>> {
        let initial = match self.comment_input {
            Some(text) => text@,
            None => if cfg.enable_comment_prompts == Some(true) {
                prompt_marker()
            } else {
                Seq::empty()
            },
        };
        if initial == prompt_marker() {
            None
        } else {
            Some(initial)
        }
    }

    /// The comment of the work log, or `None` where the user is to be asked
    /// for it.
    pub fn comment(&self, cfg: &Config) -> (r: Option<String>)
        ensures
            match r {
                Some(text) => self.wanted_comment(cfg) == Some(text@),
                None => self.wanted_comment(cfg) is None,
            },
    {
        let ask = match cfg.enable_comment_prompts {
            Some(b) => b,
            None => false,
        };
        match &self.comment_input {
            Some(text) => {
                let marker = chars_of("#PROMPT_FOR_COMMENT#");
                if same(&chars_of(text.as_str()), &marker) {
                    None
                } else {
                    Some(text.clone())
                }
            },
            None => {
                if ask {
                    None
                } else {
                    proof {
                        reveal_strlit("#PROMPT_FOR_COMMENT#");
                        assert(prompt_marker().len() == 20);
                    }
                    Some(String::new())
                }
            },
        }
    }
}

impl Transition {
    /// Whether the only transition of an issue is taken without asking.
    pub fn auto_move(count: usize, cfg: &Config) -> (r: bool)
        ensures
            r == (count == 1 && cfg.one_transition_auto_move == Some(true)),
    {
        count == 1 && match cfg.one_transition_auto_move {
            Some(b) => b,
            None => false,
        }
    }
}

impl Upgrade {
    /// Whether the user is asked before the program is replaced: only on a
    /// terminal, and neither when quiet nor when forced.
    pub fn do_confirm(&self, is_terminal: bool) -> (r: bool)
        ensures
            r == (is_terminal && !self.quiet && !self.force),
    {
        is_terminal && !self.quiet && !self.force
    }

    /// Whether more is printed: when asked for, unless quiet.
    pub fn do_verbose(&self) -> (r: bool)
        ensures
            r == (self.verbose && !self.quiet),
    {
        self.verbose && !self.quiet
    }
}

/// Where the user makes a token for the server at `jira_url`.
pub open spec fn token_page(jira_url: Seq<char>) -> Seq<char> {
    if contains(jira_url, "atlassian.net"@) {
        "https://id.atlassian.com/manage-profile/security/api-tokens"@
    } else {
        jira_url + "/secure/ViewProfile.jspa"@
    }
}

impl InitConfig {
    /// The configuration that `init` begins with.
    pub fn initial(jira_url: String) -> (r: RawConfig)
        ensures
            r.jira_url@ == jira_url@,
            r.issue_query@ == "assignee = currentUser() ORDER BY updated DESC"@,
            r.user_login is None && r.api_token is None && r.pat_token is None,
            r.jira_timeout_seconds == Some(10u64),
            r.tls_accept_invalid_certs == Some(false),
            r.max_query_results == Some(100u32),
            r.enable_comment_prompts == Some(false),
            r.one_transition_auto_move == Some(false),
            r.inclusive_filters == Some(true),
            r.git_hooks is Some,
            r.git_hooks->Some_0.allow_branch_missing_issue_key == Some(false),
            r.git_hooks->Some_0.allow_branch_and_commit_msg_mismatch == Some(false),
    {
        RawConfig {
            jira_url,
            issue_query: "assignee = currentUser() ORDER BY updated DESC".to_owned(),
            user_login: None,
            api_token: None,
            pat_token: None,
            jira_timeout_seconds: Some(10),
            tls_accept_invalid_certs: Some(false),
            max_query_results: Some(100),
            enable_comment_prompts: Some(false),
            one_transition_auto_move: Some(false),
            inclusive_filters: Some(true),
            git_hooks: Some(
                GitHooksRawConfig {
                    allow_branch_missing_issue_key: Some(false),
                    allow_branch_and_commit_msg_mismatch: Some(false),
                },
            ),
        }
    }

    /// The address of a server with the given scheme and host.
    pub fn base_url(scheme: &str, host: &str) -> (r: String)
        ensures
            r@ == server_address(scheme@, host@),
    {
        let mut address = scheme.to_owned();
        address.append("://");
        address.append(host);
        address
    }

    /// The address of the server that the user named by `url_input`: its
    /// scheme, which is `https` unless the input says otherwise, and its
    /// host.
    pub fn jira_url(url_input: &str) -> (r: Result<String, Error>)
        ensures
            match address_of(url_input@) {
                Some(address) => r is Ok && r->Ok_0@ == address,
                None => r == Err::<String, Error>(Error::MalformedUrl),
            },
    {
        match parse_url(with_scheme(url_input).as_str()) {
            Some((scheme, Some(host))) => Ok(Self::base_url(scheme.as_str(), host.as_str())),
            _ => Err(Error::MalformedUrl),
        }
    }

    /// Where the user makes a token, and whether it is an API token, which
    /// goes with a login: that of the cloud for an address of the cloud,
    /// else the profile page of the server.
    pub fn auth_url(jira_url: &str) -> (r: (String, bool))
        ensures
            r.0@ == token_page(jira_url@),
            r.1 == contains(jira_url@, "atlassian.net"@),
    {
        if has(&chars_of(jira_url), &chars_of("atlassian.net")) {
            ("https://id.atlassian.com/manage-profile/security/api-tokens".to_owned(), true)
        } else {
            let mut page = jira_url.to_owned();
            page.append("/secure/ViewProfile.jspa");
            (page, false)
        }
    }
}

} // verus!
