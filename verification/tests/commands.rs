use jig::client::{Credential, JiraClientConfig};
use jig::commands::{
    key_source, Assign, Branch, Checkout, Choice, DateSource, InitConfig, KeySource, Transition,
    Upgrade, UseFilter, Worklog,
};
use jig::config::{Config, GitHooksConfig};
use jig::error::Error;
use jig::branch_name::BranchNameMode;
use jig::repo::Repository;
use jig::types::{Issue, IssueKey, PostIssueQueryResponseBodyFields};

fn config(comment_prompts: Option<bool>, auto_move: Option<bool>) -> Config {
    Config {
        issue_query: String::new(),
        enable_comment_prompts: comment_prompts,
        one_transition_auto_move: auto_move,
        inclusive_filters: None,
        jira_cfg: JiraClientConfig {
            credential: Credential::Anonymous,
            max_query_results: 50,
            url: String::from("https://jira.example.com"),
            timeout: 10,
            tls_accept_invalid_certs: false,
        },
        hooks_cfg: GitHooksConfig {
            allow_branch_missing_issue_key: false,
            allow_branch_and_commit_msg_mismatch: false,
        },
    }
}

fn issue(key: &str, summary: &str) -> Issue {
    Issue {
        fields: PostIssueQueryResponseBodyFields {
            summary: String::from(summary),
        },
        id: String::from("10001"),
        key: IssueKey(String::from(key)),
        self_reference: String::new(),
        expand: String::new(),
    }
}

fn branch(short_name: bool, append: Option<&str>, overwrite: Option<&str>) -> Branch {
    Branch {
        append: append.map(String::from),
        overwrite: overwrite.map(String::from),
        issue_key_input: None,
        short_name,
        use_filter: UseFilter { value: false },
    }
}

fn repository(refs: &[&str], origin: Option<&str>) -> Repository {
    Repository {
        head: String::from("main"),
        refs: refs.iter().map(|r| String::from(*r)).collect(),
        origin: origin.map(String::from),
    }
}

#[test]
fn modifiers_select_the_mode() {
    assert_eq!(branch(false, None, None).mode(), Ok(BranchNameMode::Default));
    assert_eq!(branch(true, None, None).mode(), Ok(BranchNameMode::Short));
    assert_eq!(
        branch(false, Some("x"), None).mode(),
        Ok(BranchNameMode::WithSuffix(String::from("x")))
    );
    assert_eq!(
        branch(false, None, Some("y")).mode(),
        Ok(BranchNameMode::Overwrite(String::from("y")))
    );
}

#[test]
fn modifiers_exclude_one_another() {
    assert_eq!(branch(true, Some("x"), None).mode(), Err(Error::UsageConflict));
    assert_eq!(branch(true, None, Some("y")).mode(), Err(Error::UsageConflict));
    assert_eq!(branch(false, Some("x"), Some("y")).mode(), Err(Error::UsageConflict));
    assert_eq!(branch(true, Some("x"), Some("y")).mode(), Err(Error::UsageConflict));
    let repo = repository(&[], None);
    assert_eq!(
        branch(true, Some("x"), None).target(&repo, &issue("JB-1", "Example summary")),
        Err(Error::UsageConflict)
    );
}

#[test]
fn every_mode_names_the_branch() {
    let issue = issue("JB-1", "Example summary");
    assert_eq!(Repository::synthesize(&issue, &BranchNameMode::Short), Ok(String::from("JB-1")));
    assert_eq!(
        Repository::synthesize(&issue, &BranchNameMode::Default),
        Ok(String::from("JB-1_Example_summary"))
    );
    assert_eq!(
        Repository::synthesize(&issue, &BranchNameMode::WithSuffix(String::from(" v2"))),
        Ok(String::from("JB-1_Example_summary_v2"))
    );
    assert_eq!(
        Repository::synthesize(&issue, &BranchNameMode::Overwrite(String::from("my own: name."))),
        Ok(String::from("JB-1_my_own_name"))
    );
}

#[test]
fn overwritten_name_is_not_cut() {
    let issue = issue("JB-1", "Example summary");
    let text = "x".repeat(80);
    assert_eq!(
        Repository::synthesize(&issue, &BranchNameMode::Overwrite(text.clone())),
        Ok(format!("JB-1_{}", text))
    );
}

#[test]
fn new_branch_is_created_where_none_exists() {
    let repo = repository(&["main", "origin/main"], Some("origin"));
    assert_eq!(
        branch(false, None, None).target(&repo, &issue("JB-1", "Example summary")),
        Ok(Checkout {
            branch_name: String::from("JB-1_Example_summary"),
            create_new: true
        })
    );
}

#[test]
fn existing_branch_is_checked_out() {
    let issue = issue("JB-1", "Example summary");
    let repo = repository(&["main", "JB-1_Example_summary", "JB-1"], None);
    assert_eq!(
        branch(false, None, None).target(&repo, &issue),
        Ok(Checkout {
            branch_name: String::from("JB-1_Example_summary"),
            create_new: false
        })
    );
    let repo = repository(&["main", "JB-1"], None);
    assert_eq!(
        branch(false, None, None).target(&repo, &issue),
        Ok(Checkout {
            branch_name: String::from("JB-1"),
            create_new: false
        })
    );
    let repo = repository(&["main", "upstream/JB-1_Example_summary"], Some("upstream"));
    assert_eq!(
        branch(false, None, None).target(&repo, &issue),
        Ok(Checkout {
            branch_name: String::from("JB-1_Example_summary"),
            create_new: false
        })
    );
    let repo = repository(&["main", "upstream/JB-1_Example_summary"], None);
    assert_eq!(
        branch(false, None, None).target(&repo, &issue),
        Ok(Checkout {
            branch_name: String::from("JB-1_Example_summary"),
            create_new: true
        })
    );
}

#[test]
fn lost_key_stops_the_checkout() {
    let repo = repository(&["JB-1"], None);
    assert_eq!(
        branch(false, Some("2"), None).target(&repo, &issue("JB-1", "")),
        Err(Error::MalformedKey)
    );
}

#[test]
fn repository_knows_its_branches() {
    let repo = repository(&["main", "JB-1_x", "origin/JB-2_y", "v1.0"], Some("origin"));
    assert_eq!(repo.get_branch_name(), "main");
    assert!(repo.branch_exists(String::from("main")));
    assert!(repo.branch_exists(String::from("JB-2_y")));
    assert!(repo.branch_exists(String::from("origin/JB-2_y")));
    assert!(!repo.branch_exists(String::from("JB-2")));
    assert!(!repo.branch_exists(String::from("")));
    assert_eq!(repo.get_existing_branches("JB-"), vec!["JB-1_x", "origin/JB-2_y"]);
    assert_eq!(repo.get_existing_branches("JB-2"), vec!["origin/JB-2_y"]);
    assert_eq!(repo.get_existing_branches("zz"), Vec::<String>::new());
    assert_eq!(repo.get_existing_branches("").len(), 4);
}

#[test]
fn issue_branch_is_found_by_name_or_by_key() {
    let issue = issue("JB-1", "Example summary");
    let repo = repository(&["JB-1", "JB-1_Example_summary"], None);
    assert_eq!(repo.issue_branch_exists(&issue, None), Ok(String::from("JB-1_Example_summary")));
    assert_eq!(
        repo.issue_branch_exists(&issue, Some(String::from("x"))),
        Ok(String::from("JB-1"))
    );
    let repo = repository(&["main"], None);
    assert_eq!(repo.issue_branch_exists(&issue, None), Err(Error::NoIssueBranch));
}

#[test]
fn key_comes_from_input_or_branch() {
    assert_eq!(
        key_source(&Some(String::from("jb-7")), "AB-1_branch"),
        Ok(KeySource::Key(IssueKey(String::from("JB-7"))))
    );
    assert_eq!(key_source(&Some(String::from("nothing")), "AB-1_branch"), Err(Error::MalformedKey));
    assert_eq!(
        key_source(&None, "AB-1_branch"),
        Ok(KeySource::Key(IssueKey(String::from("AB-1"))))
    );
    assert_eq!(key_source(&None, "main"), Ok(KeySource::Prompt));
    assert_eq!(key_source(&None, ""), Ok(KeySource::Prompt));
}

fn worklog(comment: Option<&str>) -> Worklog {
    Worklog {
        comment_input: comment.map(String::from),
        date: None,
        duration: String::from("1h"),
        issue_key_input: None,
        use_filter: UseFilter { value: false },
    }
}

#[test]
fn comment_is_given_or_asked_for() {
    assert_eq!(worklog(Some("done")).comment(&config(None, None)), Some(String::from("done")));
    assert_eq!(worklog(Some("")).comment(&config(Some(true), None)), Some(String::new()));
    assert_eq!(worklog(Some("#PROMPT_FOR_COMMENT#")).comment(&config(None, None)), None);
    assert_eq!(worklog(None).comment(&config(None, None)), Some(String::new()));
    assert_eq!(worklog(None).comment(&config(Some(false), None)), Some(String::new()));
    assert_eq!(worklog(None).comment(&config(Some(true), None)), None);
}

#[test]
fn only_transition_is_taken_when_configured() {
    assert!(Transition::auto_move(1, &config(None, Some(true))));
    assert!(!Transition::auto_move(1, &config(None, Some(false))));
    assert!(!Transition::auto_move(1, &config(None, None)));
    assert!(!Transition::auto_move(2, &config(None, Some(true))));
    assert!(!Transition::auto_move(0, &config(None, Some(true))));
}

#[test]
fn users_are_chosen_by_count() {
    assert_eq!(Assign::choice(0), Err(Error::NothingToSelect));
    assert_eq!(Assign::choice(1), Ok(Choice::Only));
    assert_eq!(Assign::choice(2), Ok(Choice::Ask));
}

#[test]
fn upgrade_asks_on_a_terminal_only() {
    let upgrade = |force, quiet, verbose| Upgrade {
        force,
        quiet,
        verbose,
        select: false,
    };
    assert!(upgrade(false, false, false).do_confirm(true));
    assert!(!upgrade(false, false, false).do_confirm(false));
    assert!(!upgrade(true, false, false).do_confirm(true));
    assert!(!upgrade(false, true, false).do_confirm(true));
    assert!(upgrade(false, false, true).do_verbose());
    assert!(!upgrade(false, true, true).do_verbose());
    assert!(!upgrade(false, false, false).do_verbose());
}

#[test]
fn token_page_depends_on_the_server() {
    assert_eq!(
        InitConfig::auth_url("https://team.atlassian.net"),
        (
            String::from("https://id.atlassian.com/manage-profile/security/api-tokens"),
            true
        )
    );
    assert_eq!(
        InitConfig::auth_url("https://jira.example.com"),
        (String::from("https://jira.example.com/secure/ViewProfile.jspa"), false)
    );
}

#[test]
fn first_configuration_has_defaults() {
    let cfg = InitConfig::initial(String::from("https://jira.example.com"));
    assert_eq!(cfg.jira_url, "https://jira.example.com");
    assert_eq!(cfg.issue_query, "assignee = currentUser() ORDER BY updated DESC");
    assert_eq!(cfg.max_query_results, Some(100));
    assert_eq!(cfg.jira_timeout_seconds, Some(10));
    assert_eq!(cfg.inclusive_filters, Some(true));
    assert!(cfg.user_login.is_none() && cfg.api_token.is_none() && cfg.pat_token.is_none());
    let hooks = cfg.git_hooks.unwrap();
    assert_eq!(hooks.allow_branch_missing_issue_key, Some(false));
    assert_eq!(hooks.allow_branch_and_commit_msg_mismatch, Some(false));
}

#[test]
fn date_is_now_or_given_or_asked_for() {
    let with_date = |date: Option<&str>| {
        let mut w = worklog(None);
        w.date = date.map(String::from);
        w.date_source()
    };
    assert_eq!(with_date(None), DateSource::Ask);
    assert_eq!(with_date(Some("now")), DateSource::Now);
    assert_eq!(with_date(Some("NOW")), DateSource::Now);
    assert_eq!(with_date(Some("Today")), DateSource::Now);
    assert_eq!(
        with_date(Some("2005-02-18")),
        DateSource::Given(String::from("2005-02-18"))
    );
    assert_eq!(
        with_date(Some("Tomorrow")),
        DateSource::Given(String::from("Tomorrow"))
    );
    assert_eq!(with_date(Some("")), DateSource::Given(String::new()));
    assert_eq!(Worklog::date_of("x", "now"), DateSource::Now);
    assert_eq!(Worklog::date_of("NOW", "NOW"), DateSource::Given(String::from("NOW")));
}

#[test]
fn work_begins_on_the_date_at_the_present_time() {
    assert_eq!(
        Worklog::started("2005-02-18", "2024-01-02T03:04:05.678+0000"),
        "2005-02-18T03:04:05.678+0000"
    );
    assert_eq!(Worklog::started("2005-02-18", "2024-01-02"), "2005-02-18");
    assert_eq!(Worklog::started("2005-02-18", "short"), "2005-02-18");
    assert_eq!(Worklog::started("", "0123456789abc"), "abc");
}

#[test]
fn written_date_is_read_as_a_day() {
    let now = "2024-01-02T03:04:05.678+0000";
    assert_eq!(
        Worklog::started_on("2005-02-18", now),
        Ok(String::from("2005-02-18T03:04:05.678+0000"))
    );
    assert_eq!(
        Worklog::started_on("2005-2-8", now),
        Ok(String::from("2005-02-08T03:04:05.678+0000"))
    );
    assert_eq!(Worklog::started_on("2005-02-30", now), Err(Error::MalformedDate));
    assert_eq!(Worklog::started_on("18.02.2005", now), Err(Error::MalformedDate));
    assert_eq!(Worklog::started_on("", now), Err(Error::MalformedDate));
}

#[test]
fn server_is_named_by_scheme_and_host() {
    assert_eq!(
        InitConfig::jira_url("jira.example.com/secure/Dashboard.jspa"),
        Ok(String::from("https://jira.example.com"))
    );
    assert_eq!(
        InitConfig::jira_url("http://Jira.Example.com:8080/x?y=z"),
        Ok(String::from("http://jira.example.com"))
    );
    assert_eq!(
        InitConfig::jira_url("team.atlassian.net"),
        Ok(String::from("https://team.atlassian.net"))
    );
    assert_eq!(InitConfig::jira_url(""), Err(Error::MalformedUrl));
    assert_eq!(InitConfig::jira_url("httpx:no-host"), Err(Error::MalformedUrl));
    assert_eq!(InitConfig::base_url("https", "example.com"), "https://example.com");
}
