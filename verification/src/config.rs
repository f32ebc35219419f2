//! The configuration, as the files give it and as the program uses it.

use crate::client::{Credential, JiraClientConfig};
use crate::error::Error;
use crate::text::{begins_with, chars_of, starts_with, string_of};
use vstd::prelude::*;
use vstd::string::StringExecFns;

verus! {

/// The section on hooks, as a file gives it.
#[derive(Debug, Clone)]
pub struct GitHooksRawConfig {
    pub allow_branch_missing_issue_key: Option<bool>,
    pub allow_branch_and_commit_msg_mismatch: Option<bool>,
}

/// The section on hooks, with every setting decided.
#[derive(Debug, Clone, Copy, PartialEq, Eq, Structural)]
pub struct GitHooksConfig {
    /// Let a commit pass on a branch that holds no key.
    pub allow_branch_missing_issue_key: bool,
    /// Let a commit pass whose message holds another key than the branch.
    pub allow_branch_and_commit_msg_mismatch: bool,
}

/// The configuration, as a file gives it.
#[derive(Debug, Clone)]
pub struct RawConfig {
    /// The address of the server.
    pub jira_url: String,
    /// The query by which issues are fetched.
    pub issue_query: String,
    /// The login that goes with `api_token`.
    pub user_login: Option<String>,
    /// The token of a cloud account.
    pub api_token: Option<String>,
    /// The personal access token of a server account.
    pub pat_token: Option<String>,
    /// How many seconds to wait for an answer.
    pub jira_timeout_seconds: Option<u64>,
    /// Accept certificates that cannot be checked.
    pub tls_accept_invalid_certs: Option<bool>,
    /// The most issues to fetch.
    pub max_query_results: Option<u32>,
    /// Ask for a comment where a work log has none.
    pub enable_comment_prompts: Option<bool>,
    /// Do not ask where an issue can move to one state only.
    pub one_transition_auto_move: Option<bool>,
    /// Join filters by `OR`, not by `AND`.
    pub inclusive_filters: Option<bool>,
    /// The section on hooks.
    pub git_hooks: Option<GitHooksRawConfig>,
}

/// The configuration, as the program uses it.
#[derive(Debug, Clone)]
pub struct Config {
    pub issue_query: String,
    pub enable_comment_prompts: Option<bool>,
    pub one_transition_auto_move: Option<bool>,
    pub inclusive_filters: Option<bool>,
    pub jira_cfg: JiraClientConfig,
    pub hooks_cfg: GitHooksConfig,
}

/// `http`
pub open spec fn http_word() -> Seq<char> {
    seq!['h', 't', 't', 'p']
}

/// `https://`
pub open spec fn https_prefix() -> Seq<char> {
    seq!['h', 't', 't', 'p', 's', ':', '/', '/']
}

/// The address with its scheme: with `https://` before it unless it begins
/// with `http`.
pub open spec fn url_with_scheme(url: Seq<char>) -> Seq<char> {
    if starts_with(url, http_word()) {
        url
    } else {
        https_prefix() + url
    }
}

/// The address as the client takes it: with its scheme, and without one
/// slash at its end.
pub open spec fn normalized_url(url: Seq<char>) -> Seq<char> {
    let full = url_with_scheme(url);
    if full.len() > 0 && full.last() == '/' {
        full.drop_last()
    } else {
        full
    }
}

/// The section on hooks that a file stands for: what it does not set is
/// not allowed.
pub open spec fn hooks_of(raw: Option<GitHooksRawConfig>) -> GitHooksConfig {
    match raw {
        Some(section) => GitHooksConfig {
            allow_branch_missing_issue_key: match section.allow_branch_missing_issue_key {
                Some(b) => b,
                None => false,
            },
            allow_branch_and_commit_msg_mismatch: match section.allow_branch_and_commit_msg_mismatch {
                Some(b) => b,
                None => false,
            },
        },
        None => GitHooksConfig {
            allow_branch_missing_issue_key: false,
            allow_branch_and_commit_msg_mismatch: false,
        },
    }
}

/// A credential as plain text: which kind it is, and what it holds.
pub enum CredentialView {
    Anonymous,
    ApiToken { login: Seq<char>, token: Seq<char> },
    PersonalAccessToken(Seq<char>),
}

/// The credential as plain text.
pub open spec fn credential_view(c: Credential) -> CredentialView {
    match c {
        Credential::Anonymous => CredentialView::Anonymous,
        Credential::ApiToken { login, token } => CredentialView::ApiToken {
            login: login@,
            token: token@,
        },
        Credential::PersonalAccessToken(token) => CredentialView::PersonalAccessToken(token@),
    }
}

/// The credential that a file stands for: the personal access token if it
/// gives one, else the API token with its login, else none.
pub open spec fn credential_of(raw: RawConfig) -> CredentialView
    recommends
        raw.api_token is Some ==> raw.user_login is Some,
{
    if raw.pat_token is Some {
        CredentialView::PersonalAccessToken(raw.pat_token->Some_0@)
    } else if raw.api_token is Some {
        CredentialView::ApiToken { login: raw.user_login->Some_0@, token: raw.api_token->Some_0@ }
    } else {
        CredentialView::Anonymous
    }
}

/// The file gives a token and a login together, or neither.
pub open spec fn credentials_complete(raw: RawConfig) -> bool {
    raw.api_token is Some <==> raw.user_login is Some
}

impl GitHooksConfig {
    /// The section on hooks that a file stands for.
    pub fn from(value: Option<GitHooksRawConfig>) -> (r: GitHooksConfig)
        ensures
            r == hooks_of(value),
    {
        match value {
            Some(section) => GitHooksConfig {
                allow_branch_missing_issue_key: match section.allow_branch_missing_issue_key {
                    Some(b) => b,
                    None => false,
                },
                allow_branch_and_commit_msg_mismatch: match section.allow_branch_and_commit_msg_mismatch {
                    Some(b) => b,
                    None => false,
                },
            },
            None => GitHooksConfig {
                allow_branch_missing_issue_key: false,
                allow_branch_and_commit_msg_mismatch: false,
            },
        }
    }
}

/// The characters of the address with its scheme.
fn scheme_added(url: &str) -> (r: Vec<char>)
    ensures
        r@ == url_with_scheme(url@),
{
    let given = chars_of(url);
    let http: Vec<char> = vec!['h', 't', 't', 'p'];
    assert(http@ =~= http_word());
    if begins_with(&given, &http) {
        given
    } else {
        let mut prefixed: Vec<char> = vec!['h', 't', 't', 'p', 's', ':', '/', '/'];
        assert(prefixed@ =~= https_prefix());
        let mut rest = given;
        prefixed.append(&mut rest);
        prefixed
    }
}

/// The address with its scheme.
pub fn with_scheme(url: &str) -> (r: String)
    ensures
        r@ == url_with_scheme(url@),
{
    string_of(&scheme_added(url))
}

/// The address as the client takes it.
pub fn normalize_url(url: &str) -> (r: String)
    ensures
        r@ == normalized_url(url@),
{
    let mut full = scheme_added(url);
    if full.len() > 0 && full[full.len() - 1] == '/' {
        full.pop();
    }
    string_of(&full)
}

impl Config {
    /// The configuration that a file stands for. What the file does not
    /// set has its default: fifty results, ten seconds, certificates
    /// checked.
    pub fn from(cfg: RawConfig) -> (r: Config)
        requires
            cfg.api_token is Some ==> cfg.user_login is Some,
        ensures
            credential_view(r.jira_cfg.credential) == credential_of(cfg),
            r.issue_query@ == cfg.issue_query@,
            r.enable_comment_prompts == cfg.enable_comment_prompts,
            r.one_transition_auto_move == cfg.one_transition_auto_move,
            r.inclusive_filters == cfg.inclusive_filters,
            r.jira_cfg.url@ == cfg.jira_url@,
            r.jira_cfg.max_query_results == (match cfg.max_query_results {
                Some(n) => n,
                None => 50u32,
            }),
            r.jira_cfg.timeout == (match cfg.jira_timeout_seconds {
                Some(n) => n,
                None => 10u64,
            }),
            r.jira_cfg.tls_accept_invalid_certs == (match cfg.tls_accept_invalid_certs {
                Some(b) => b,
                None => false,
            }),
            r.hooks_cfg == hooks_of(cfg.git_hooks),
    {
        let credential = match cfg.pat_token {
            Some(pat) => Credential::PersonalAccessToken(pat),
            None => match cfg.api_token {
                Some(api_token) => match cfg.user_login {
                    Some(login) => Credential::ApiToken { login, token: api_token },
                    None => Credential::Anonymous,
                },
                None => Credential::Anonymous,
            },
        };
        Config {
            issue_query: cfg.issue_query,
            enable_comment_prompts: cfg.enable_comment_prompts,
            one_transition_auto_move: cfg.one_transition_auto_move,
            inclusive_filters: cfg.inclusive_filters,
            jira_cfg: JiraClientConfig {
                credential,
                max_query_results: match cfg.max_query_results {
                    Some(n) => n,
                    None => 50u32,
                },
                url: cfg.jira_url,
                timeout: match cfg.jira_timeout_seconds {
                    Some(n) => n,
                    None => 10u64,
                },
                tls_accept_invalid_certs: match cfg.tls_accept_invalid_certs {
                    Some(b) => b,
                    None => false,
                },
            },
            hooks_cfg: GitHooksConfig::from(cfg.git_hooks),
        }
    }

    /// Checks what the files gave, and makes the configuration of it. A
    /// token without a login is refused, and a login without a token. The
    /// address is normalized.
    pub fn load(cfg: RawConfig) -> (r: Result<Config, Error>)
        ensures
            match r {
                Ok(c) => {
                    &&& credentials_complete(cfg)
                    &&& credential_view(c.jira_cfg.credential) == credential_of(cfg)
                    &&& c.jira_cfg.url@ == normalized_url(cfg.jira_url@)
                    &&& c.jira_cfg.max_query_results == (match cfg.max_query_results {
                        Some(n) => n,
                        None => 50u32,
                    })
                    &&& c.jira_cfg.timeout == (match cfg.jira_timeout_seconds {
                        Some(n) => n,
                        None => 10u64,
                    })
                    &&& c.jira_cfg.tls_accept_invalid_certs == (match cfg.tls_accept_invalid_certs {
                        Some(b) => b,
                        None => false,
                    })
                    &&& c.issue_query@ == cfg.issue_query@
                    &&& c.enable_comment_prompts == cfg.enable_comment_prompts
                    &&& c.one_transition_auto_move == cfg.one_transition_auto_move
                    &&& c.inclusive_filters == cfg.inclusive_filters
                    &&& c.hooks_cfg == hooks_of(cfg.git_hooks)
                },
                Err(e) => {
                    &&& !credentials_complete(cfg)
                    &&& e == (if cfg.api_token is Some {
                        Error::MissingLogin
                    } else {
                        Error::MissingToken
                    })
                },
            },
    {
        if cfg.api_token.is_some() && cfg.user_login.is_none() {
            return Err(Error::MissingLogin);
        } else if cfg.api_token.is_none() && cfg.user_login.is_some() {
            return Err(Error::MissingToken);
        }
        let mut cfg = cfg;
        cfg.jira_url = normalize_url(cfg.jira_url.as_str());
        Ok(Config::from(cfg))
    }
}

/// A directory and a name in it, as one path. A slash stands between them
/// unless the directory is empty or ends in one.
pub open spec fn path_in(dir: Seq<char>, name: Seq<char>) -> Seq<char> {
    if dir.len() == 0 || dir.last() == '/' {
        dir + name
    } else {
        dir + "/"@ + name
    }
}

/// The path of `name` in `dir`.
fn join_path(dir: &str, name: &str) -> (r: String)
    ensures
        r@ == path_in(dir@, name@),
{
    let given = chars_of(dir);
    let mut path = dir.to_owned();
    if given.len() > 0 && given[given.len() - 1] != '/' {
        path.append("/");
    }
    path.append(name);
    path
}

/// The configuration file of the user: `jig/config.toml` in the directory
/// that the system keeps for configurations.
pub fn config_file(config_home: &str) -> (r: String)
    ensures
        r@ == path_in(path_in(config_home@, "jig"@), "config.toml"@),
{
    let dir = join_path(config_home, "jig");
    join_path(dir.as_str(), "config.toml")
}

/// The configuration file of a workspace: `.jig.toml` at its root.
pub fn workspace_config_file(workspace: &str) -> (r: String)
    ensures
        r@ == path_in(workspace@, ".jig.toml"@),
{
    join_path(workspace, ".jig.toml")
}

} // verus!
