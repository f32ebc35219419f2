use jig::client::{
    basic_authorization, browse_path, filter_search_query, issue_path, Credential,
};
use jig::error::Error;
use jig::types::{
    Filter, GetAssignableUserParams, IssueKey, PostAssignBody, PostIssueQueryBody,
    PostIssueQueryResponseBody, PostWorklogBody, Transition, TransitionExpandedFields, User,
};
use jig::worklog::{WorklogDuration, WorklogParts};

#[test]
fn anonymous_sends_no_header() {
    assert_eq!(Credential::Anonymous.authorization(), None);
}

#[test]
fn api_token_is_sent_in_base64() {
    let credential = Credential::ApiToken {
        login: String::from("user@example.com"),
        token: String::from("pass"),
    };
    assert_eq!(
        credential.authorization(),
        Some(String::from("Basic dXNlckBleGFtcGxlLmNvbTpwYXNz"))
    );
    let credential = Credential::ApiToken {
        login: String::from("a"),
        token: String::new(),
    };
    assert_eq!(credential.authorization(), Some(String::from("Basic YTo")));
}

#[test]
fn personal_access_token_is_sent_as_bearer() {
    let credential = Credential::PersonalAccessToken(String::from("abc123"));
    assert_eq!(credential.authorization(), Some(String::from("Bearer abc123")));
    assert_eq!(basic_authorization("xyz"), "Basic xyz");
}

#[test]
fn paths_name_the_issue() {
    let key = IssueKey(String::from("JB-1"));
    assert_eq!(issue_path(&key, "worklog"), "/rest/api/latest/issue/JB-1/worklog");
    assert_eq!(
        issue_path(&key, "transitions?expand=transitions.fields"),
        "/rest/api/latest/issue/JB-1/transitions?expand=transitions.fields"
    );
    assert_eq!(browse_path(&key), "/browse/JB-1");
}

#[test]
fn filters_are_searched_by_name() {
    assert_eq!(filter_search_query(50, None), "expand=jql&maxResults=50");
    assert_eq!(
        filter_search_query(0, Some(String::from("mine"))),
        "expand=jql&maxResults=0&filterName=mine"
    );
    assert_eq!(
        filter_search_query(u32::MAX, None),
        "expand=jql&maxResults=4294967295"
    );
}

fn filter(id: &str) -> Filter {
    Filter {
        id: String::from(id),
        jql: String::from("project = X"),
        name: String::from("name"),
    }
}

#[test]
fn filters_are_joined() {
    assert_eq!(Filter::filter_query(&filter("10001")), "filter=10001");
    assert_eq!(Filter::join(&vec![], true), "");
    assert_eq!(Filter::join(&vec![filter("1")], true), "filter=1");
    assert_eq!(
        Filter::join(&vec![filter("1"), filter("2"), filter("3")], true),
        "filter=1 OR filter=2 OR filter=3"
    );
    assert_eq!(
        Filter::join(&vec![filter("1"), filter("2")], false),
        "filter=1 AND filter=2"
    );
}

#[test]
fn assignable_users_are_searched_in_a_scope() {
    let params = GetAssignableUserParams {
        username: Some(String::from("bob")),
        project: None,
        issue_key: Some(IssueKey(String::from("JB-1"))),
        max_results: None,
    };
    assert_eq!(params.query(), Ok(String::from("maxResults=1000&issueKey=JB-1&username=bob")));
    let params = GetAssignableUserParams {
        username: None,
        project: Some(String::from("JB")),
        issue_key: None,
        max_results: Some(5),
    };
    assert_eq!(params.query(), Ok(String::from("maxResults=5&project=JB")));
    let params = GetAssignableUserParams {
        username: Some(String::from("bob")),
        project: Some(String::from("JB")),
        issue_key: Some(IssueKey(String::from("JB-1"))),
        max_results: Some(0),
    };
    assert_eq!(
        params.query(),
        Ok(String::from("maxResults=0&issueKey=JB-1&username=bob&project=JB"))
    );
    let params = GetAssignableUserParams {
        username: Some(String::from("bob")),
        project: None,
        issue_key: None,
        max_results: None,
    };
    assert_eq!(params.query(), Err(Error::MissingScope));
}

#[test]
fn worklog_gives_its_time_once() {
    let body = |time_spent: Option<&str>, seconds: Option<&str>| PostWorklogBody {
        comment: String::new(),
        started: String::from("2005-02-18T10:00:00.000+0000"),
        time_spent: time_spent.map(String::from),
        time_spent_seconds: seconds.map(String::from),
    };
    assert_eq!(body(None, Some("60")).check(), Ok(()));
    assert_eq!(body(Some("1h"), None).check(), Ok(()));
    assert_eq!(body(None, None).check(), Err(Error::MalformedWorklog));
    assert_eq!(body(Some("1h"), Some("3600")).check(), Err(Error::MalformedWorklog));
}

#[test]
fn query_asks_for_summaries() {
    let body = PostIssueQueryBody::new("project = JB", 25);
    assert_eq!(body.jql, "project = JB");
    assert_eq!(body.start_at, 0);
    assert_eq!(body.max_results, 25);
    assert_eq!(body.fields, vec!["summary"]);
}

#[test]
fn empty_answer_is_an_error() {
    let answer = |issues| PostIssueQueryResponseBody {
        expand: None,
        issues,
        max_results: None,
        start_at: None,
        total: None,
    };
    assert_eq!(answer(None).found().err(), Some(Error::NothingToSelect));
    assert_eq!(answer(Some(vec![])).found().err(), Some(Error::NothingToSelect));
}

#[test]
fn user_is_assigned_by_name() {
    let user = User {
        active: true,
        display_name: String::from("Bob B"),
        deleted: None,
        name: String::from("bob"),
    };
    assert_eq!(PostAssignBody::from(user).name, "bob");
}

fn field(required: bool, has_default_value: Option<bool>) -> (String, TransitionExpandedFields) {
    (
        String::from("resolution"),
        TransitionExpandedFields {
            required,
            name: String::from("Resolution"),
            operations: vec![String::from("set")],
            allowed_values: None,
            has_default_value,
        },
    )
}

#[test]
fn required_fields_stop_a_transition() {
    let transition = |fields| Transition {
        fields,
        id: String::from("31"),
        name: String::from("Done"),
    };
    assert!(!transition(vec![]).needs_input());
    assert!(!transition(vec![field(false, None), field(true, Some(true))]).needs_input());
    assert!(transition(vec![field(false, None), field(true, None)]).needs_input());
    assert!(transition(vec![field(true, Some(false))]).needs_input());
    assert_eq!(transition(vec![]).to_string(), "Done");
}

fn parts(number: &str, multiplier: u32) -> Result<WorklogParts, Error> {
    Ok(WorklogParts {
        number: String::from(number),
        multiplier,
    })
}

#[test]
fn durations_have_a_number_and_a_unit() {
    assert_eq!(WorklogDuration::parts("1"), parts("1", 60));
    assert_eq!(WorklogDuration::parts("1m"), parts("1", 60));
    assert_eq!(WorklogDuration::parts("1M"), parts("1", 60));
    assert_eq!(WorklogDuration::parts("1h"), parts("1", 3600));
    assert_eq!(WorklogDuration::parts("2H"), parts("2", 3600));
    assert_eq!(WorklogDuration::parts("1d"), parts("1", 3600 * 8));
    assert_eq!(WorklogDuration::parts("1D"), parts("1", 3600 * 8));
    assert_eq!(WorklogDuration::parts("1w"), parts("1", 3600 * 8 * 5));
    assert_eq!(WorklogDuration::parts("1W"), parts("1", 3600 * 8 * 5));
    assert_eq!(WorklogDuration::parts("1.5h"), parts("1.5", 3600));
    assert_eq!(WorklogDuration::parts("30"), parts("30", 60));
}

#[test]
fn durations_are_found_in_other_text() {
    assert_eq!(WorklogDuration::parts("about 12.25d or so"), parts("12.25", 28800));
    assert_eq!(WorklogDuration::parts("1.h"), parts("1", 60));
    assert_eq!(WorklogDuration::parts("1.5.5h"), parts("1.5", 60));
    assert_eq!(WorklogDuration::parts(".5h"), parts("5", 3600));
    assert_eq!(WorklogDuration::parts("7x"), parts("7", 60));
    assert_eq!(WorklogDuration::parts("h1"), parts("1", 60));
    assert_eq!(WorklogDuration::parts(""), Err(Error::MalformedDuration));
    assert_eq!(WorklogDuration::parts("hours"), Err(Error::MalformedDuration));
    assert_eq!(WorklogDuration::parts("\u{663}h"), Err(Error::MalformedDuration));
}

#[test]
fn duration_reads_as_its_seconds() {
    let duration = WorklogDuration(String::from("3600"));
    assert_eq!(duration.to_string(), "3600");
}

#[test]
fn errors_describe_themselves() {
    assert_eq!(Error::MalformedKey.message(), "Malformed issue key supplied");
    assert_eq!(Error::MissingKey.message(), "Issue key not found in branch name");
    assert_eq!(Error::UsageConflict.message(), "Multiple branch name modifiers specified");
    assert_eq!(Error::BranchState.message(), "Branch is empty, how?");
    assert!(Error::ConformanceViolation.message().contains("^[A-Z]{2,}-[0-9]+ [A-Z0-9].*$"));
    assert!(Error::KeyMismatch.message().contains("does not match"));
}

fn seconds(input: &str) -> WorklogDuration {
    let parts = WorklogDuration::parts(input).unwrap();
    let seconds = parts.number.parse::<f64>().unwrap() * f64::from(parts.multiplier);
    WorklogDuration(format!("{:.0}", seconds))
}

#[test]
fn worklog_tryfrom_all_units_returns_duration_in_seconds() {
    let worklogs = vec![
        (60, "1"),
        (60, "1m"),
        (60, "1M"),
        (3600, "1h"),
        (3600, "1H"),
        (3600 * 8, "1d"),
        (3600 * 8, "1D"),
        (3600 * 8 * 5, "1w"),
        (3600 * 8 * 5, "1W"),
    ];

    for (expected_seconds, input) in worklogs {
        let seconds = seconds(input).0;
        assert_eq!(expected_seconds.to_string(), seconds);
    }
}

#[test]
fn worklog_tryfrom_lowercase_unit() {
    let wl = seconds("1h").0;
    assert_eq!(String::from("3600"), wl);
}

#[test]
fn worklog_tryfrom_uppercase_unit() {
    let wl = seconds("2H").0;
    assert_eq!(String::from("7200"), wl);
}

#[test]
fn worklog_tostring() {
    let wl = seconds("1h");
    let expected = String::from("3600");
    assert_eq!(expected, wl.to_string());
}
