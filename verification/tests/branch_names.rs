use jig::error::Error;
use jig::repo::Repository;
use jig::types::{Issue, IssueKey, PostIssueQueryResponseBodyFields};

fn test_issue(issue_key: Option<IssueKey>, summary: Option<&str>) -> Issue {
    Issue {
        fields: PostIssueQueryResponseBodyFields {
            summary: String::from(summary.unwrap_or("Example summary")),
        },
        id: String::from("10001"),
        key: issue_key.unwrap_or(IssueKey(String::from("JB-1"))),
        self_reference: String::from("https://ddd.ddd.com/"),
        expand: String::from("Don't remember"),
    }
}

#[test]
fn issue_branch_name() {
    let branch_name =
        Repository::branch_name_from_issue(&test_issue(None, None), false, None).unwrap();
    assert_eq!(String::from("JB-1_Example_summary"), branch_name);
}

#[test]
fn suffix_branch_name() {
    let branch_name = Repository::branch_name_from_issue(
        &test_issue(None, None),
        false,
        Some(String::from("short suffix")),
    )
    .unwrap();
    assert_eq!(
        String::from("JB-1_Example_summaryshort_suffix"),
        branch_name
    );
}

#[test]
fn too_long_suffix_branch_name() {
    let branch_name = Repository::branch_name_from_issue(
        &test_issue(None, None),
        false,
        Some(String::from(
            "Clearly too long suffix causing no issues what so ever",
        )),
    )
    .unwrap();
    assert_eq!(
        String::from("JB-1_Clearly_too_long_suffix_causing_no_issues_what"),
        branch_name
    );
}

#[test]
fn tricky_dot_before_cut_branch_name() {
    let branch_name = Repository::branch_name_from_issue(
        &test_issue(
            None,
            Some("Example summary with a dot at the cut point . which used to cause trouble"),
        ),
        false,
        None,
    )
    .unwrap();
    assert_eq!(
        String::from("JB-1_Example_summary_with_a_dot_at_the_cut_point"),
        branch_name
    );
}

#[test]
fn long_issue_branch_name() {
    let branch_name = Repository::branch_name_from_issue(
        &test_issue(
            None,
            Some("Example summary that is really long not really but over 50 characters"),
        ),
        false,
        None,
    )
    .unwrap();
    assert_eq!(
        String::from("JB-1_Example_summary_that_is_really_long_not_reall"),
        branch_name
    );
}

#[test]
fn short_issue_branch_name() {
    let branch_name =
        Repository::branch_name_from_issue(&test_issue(None, None), true, None).unwrap();
    assert_eq!(String::from("JB-1"), branch_name);
}

#[test]
fn sanitize_problematic_branch_name() {
    let shit_summary = "ter rible/..bra nch.lock.lock/name$${{....causing/. issues/././";
    let branch_name =
        Repository::branch_name_from_issue(&test_issue(None, Some(shit_summary)), false, None)
            .unwrap();
    assert_eq!("JB-1_ter_rible/bra_nch/name.causing/_issues", branch_name);
}

#[test]
fn branch_name_from_issue() {
    let branch_name =
        Repository::branch_name_from_issue(&test_issue(None, None), false, None).unwrap();
    assert_eq!(String::from("JB-1_Example_summary"), branch_name);
}

#[test]
fn branch_name_from_issue_with_suffix() {
    let branch_name = Repository::branch_name_from_issue(
        &test_issue(None, None),
        false,
        Some(String::from("short suffix")),
    )
    .unwrap();
    assert_eq!(
        String::from("JB-1_Example_summaryshort_suffix"),
        branch_name
    );
}

#[test]
fn branch_name_from_issue_with_too_long_suffix() {
    let branch_name = Repository::branch_name_from_issue(
        &test_issue(None, None),
        false,
        Some(String::from(
            "Clearly too long suffix causing no issues what so ever",
        )),
    )
    .unwrap();
    assert_eq!(
        String::from("JB-1_Clearly_too_long_suffix_causing_no_issues_what"),
        branch_name
    );
}

#[test]
fn sanitize_branch_names_ending_with_dot_after_splitoff() {
    let branch_name = Repository::branch_name_from_issue(
        &test_issue(
            None,
            Some("Example summary with a dot at the cut point . which used to cause trouble"),
        ),
        false,
        None,
    )
    .unwrap();
    assert_eq!(
        String::from("JB-1_Example_summary_with_a_dot_at_the_cut_point"),
        branch_name
    );
}

#[test]
fn sanitize_branch_long_name() {
    let branch_name = Repository::branch_name_from_issue(
        &test_issue(
            None,
            Some("Example summary that is over fifty characters long."),
        ),
        false,
        None,
    )
    .unwrap();
    assert_eq!(
        String::from("JB-1_Example_summary_that_is_over_fifty_characters"),
        branch_name
    );
}

#[test]
fn branch_name_from_challenging_shit_summary() {
    let shit_summary = "ter rible/..bra nch.lock.lock/name$${{....causing/. issues/././";
    let branch_name =
        Repository::branch_name_from_issue(&test_issue(None, Some(shit_summary)), false, None)
            .unwrap();
    assert_eq!("JB-1_ter_rible/bra_nch/name.causing/_issues", branch_name);
}

#[test]
fn sanitize_is_idempotent_on_samples() {
    let samples = [
        "",
        "plain",
        "a.${.b",
        "....",
        "$${{",
        ".lock.lock/",
        "a b:c~d^e?f*g[h\\i",
        "x__--..y/./.",
        "_._._",
        "a.lo.lock/ck/b",
        "/$.{",
        "\u{e9}t\u{e9} ..",
    ];
    for s in samples {
        let once = Repository::sanitize_branch_name(s);
        let twice = Repository::sanitize_branch_name(&once);
        assert_eq!(once, twice);
    }
}

#[test]
fn sanitize_exact_values() {
    assert_eq!(Repository::sanitize_branch_name("a b:c~d^e?f*g[h\\i"), "a_b_c_d_e_f_g_h_i");
    assert_eq!(Repository::sanitize_branch_name("...."), "");
    assert_eq!(Repository::sanitize_branch_name("a....b"), "a.b");
    assert_eq!(Repository::sanitize_branch_name("a____b"), "a_b");
    assert_eq!(Repository::sanitize_branch_name("a----b"), "a-b");
    assert_eq!(Repository::sanitize_branch_name("a$${{b"), "ab");
    assert_eq!(Repository::sanitize_branch_name("a.lock.lock/b"), "a/b");
    assert_eq!(Repository::sanitize_branch_name("a/.b"), "a/b");
    assert_eq!(Repository::sanitize_branch_name("a.${.b"), "a.b");
    assert_eq!(Repository::sanitize_branch_name("name/._."), "name");
    assert_eq!(Repository::sanitize_branch_name("a  b"), "a_b");
    assert_eq!(Repository::sanitize_branch_name("a/./b"), "a//b");
}

#[test]
fn sanitized_names_hold_nothing_forbidden() {
    let samples = [
        "JB-1 ter rible/..bra nch.lock.lock/name$${{....causing/. issues/././",
        "..__--${.lock//.",
        "a.${.lock.lock/.${.b__",
        " : ~ ^ ? * [ \\ ",
    ];
    for s in samples {
        let name = Repository::sanitize_branch_name(s);
        for bad in ["..", "__", "--", "${", ".lock/", "/."] {
            assert!(!name.contains(bad));
        }
        for bad in [' ', ':', '~', '^', '?', '*', '[', '\\'] {
            assert!(!name.contains(bad));
        }
        assert!(!name.ends_with(['.', '/', '_']));
    }
}

#[test]
fn default_name_keeps_the_key() {
    let summaries = [
        "",
        "Example summary",
        "9 lives",
        "-7",
        "__..//",
        "xy-22 comes first?",
        "\u{df}\u{df}-3 and \u{fb01}x-4",
    ];
    for key in ["JB-1", "PROJECT-12345", "AB-0"] {
        for summary in summaries {
            let issue = test_issue(Some(IssueKey(String::from(key))), Some(summary));
            let name = Repository::branch_name_from_issue(&issue, false, None).unwrap();
            assert_eq!(IssueKey::try_from(name.clone()).unwrap().0, key);
            assert!(name.starts_with(key));
            assert!(name.chars().count() <= 50);
        }
    }
}

#[test]
fn key_of_fifty_characters_is_kept_and_longer_is_refused() {
    let fifty = format!("AB-{}", "1".repeat(47));
    let issue = test_issue(Some(IssueKey(fifty.clone())), None);
    assert_eq!(Repository::branch_name_from_issue(&issue, false, None), Ok(fifty));
    let longer = format!("AB-{}", "1".repeat(48));
    let issue = test_issue(Some(IssueKey(longer)), None);
    assert_eq!(
        Repository::branch_name_from_issue(&issue, false, None),
        Err(Error::MalformedKey)
    );
    assert_eq!(
        Repository::branch_name_from_issue(&issue, false, Some(String::from("x"))),
        Err(Error::MalformedKey)
    );
}

#[test]
fn key_that_is_no_key_is_refused() {
    for key in ["jb-1", "J-1", "JB1", "JB-", "", "JB-1x", ".JB-1"] {
        let issue = test_issue(Some(IssueKey(String::from(key))), None);
        assert_eq!(
            Repository::branch_name_from_issue(&issue, false, None),
            Err(Error::MalformedKey)
        );
    }
}

#[test]
fn suffix_that_changes_the_key_is_refused() {
    let issue = test_issue(None, Some(""));
    assert_eq!(
        Repository::branch_name_from_issue(&issue, false, Some(String::from("2"))),
        Err(Error::MalformedKey)
    );
    assert_eq!(
        Repository::branch_name_from_issue(&issue, false, Some(String::from("x"))),
        Ok(String::from("JB-1x"))
    );
}

#[test]
fn suffixed_names_are_bounded() {
    let issue = test_issue(None, Some("Example summary that is really long not really but over 50"));
    for n in 0..70 {
        let suffix = "s".repeat(n);
        let name = Repository::branch_name_from_issue(&issue, false, Some(suffix)).unwrap();
        let len = name.chars().count();
        assert!(len <= 50 + n);
        assert!(len <= 51);
        assert!(name.starts_with("JB-1_"));
    }
}

#[test]
fn overwriting_suffixer_cuts_suffix_then_name() {
    let key = IssueKey(String::from("JB-1"));
    assert_eq!(
        Repository::overwriting_suffixer(String::from("JB-1_name"), &key, String::from("-x")),
        "JB-1_name-x"
    );
    let long = "s".repeat(60);
    let joined = Repository::overwriting_suffixer(String::from("JB-1_name"), &key, long);
    assert_eq!(joined, format!("JB-1_{}", "s".repeat(46)));
    let name = "n".repeat(50);
    let joined = Repository::overwriting_suffixer(name, &key, String::from("abc"));
    assert_eq!(joined, format!("{}abc", "n".repeat(48)));
}

#[test]
fn characters_are_counted_not_bytes() {
    let issue = test_issue(None, Some(&"\u{e9}".repeat(80)));
    let name = Repository::branch_name_from_issue(&issue, false, None).unwrap();
    assert_eq!(name, format!("JB-1_{}", "\u{e9}".repeat(45)));
}

fn sanitize_by_string_operations(text: &str) -> String {
    let mut name = text.replace([' ', ':', '~', '^', '?', '*', '[', '\\'], "_");
    loop {
        let before = name.clone();
        for (pattern, replacement) in [
            ("..", "."),
            ("__", "_"),
            ("--", "-"),
            ("${", ""),
            (".lock/", "/"),
        ] {
            while name.contains(pattern) {
                name = name.replace(pattern, replacement);
            }
        }
        name = name.replace("/.", "/");
        while name.ends_with(['.', '/', '_']) {
            name.pop();
        }
        if name == before {
            return name;
        }
    }
}

fn sample_texts(count: usize, longest: usize) -> Vec<String> {
    let alphabet: Vec<char> = "../__--$${{.lock/.lock/ :~^?*[\\aB1\u{e9}".chars().collect();
    let mut state: u64 = 0x2545F4914F6CDD1D;
    let mut next = move || {
        state ^= state << 13;
        state ^= state >> 7;
        state ^= state << 17;
        state
    };
    let mut texts = Vec::new();
    for _ in 0..count {
        let len = (next() % (longest as u64 + 1)) as usize;
        let text: String = (0..len)
            .map(|_| alphabet[(next() % alphabet.len() as u64) as usize])
            .collect();
        texts.push(text);
    }
    texts
}

#[test]
fn sanitizer_agrees_with_string_operations() {
    for text in sample_texts(3000, 24) {
        assert_eq!(
            Repository::sanitize_branch_name(&text),
            sanitize_by_string_operations(&text)
        );
    }
}

#[test]
fn sanitizer_is_idempotent_and_clean_on_many_texts() {
    for text in sample_texts(3000, 40) {
        let once = Repository::sanitize_branch_name(&text);
        assert_eq!(Repository::sanitize_branch_name(&once), once);
        for bad in ["..", "__", "--", "${", ".lock/", "/."] {
            assert!(!once.contains(bad));
        }
        assert!(!once.ends_with(['.', '/', '_']));
        assert!(once.chars().count() <= text.chars().count());
    }
}

#[test]
fn names_of_many_summaries_keep_the_key() {
    for (n, summary) in sample_texts(1500, 90).into_iter().enumerate() {
        let key = ["JB-1", "PROJ-4711", "ABCDEFGH-1234567890"][n % 3];
        let issue = test_issue(Some(IssueKey(String::from(key))), Some(&summary));
        let name = Repository::branch_name_from_issue(&issue, false, None).unwrap();
        assert_eq!(IssueKey::try_from(name.clone()).unwrap().0, key);
        assert!(name.starts_with(key));
        assert!(name.chars().count() <= 50);
        let suffix = sample_texts(1, 70).remove(0);
        let long = suffix.chars().count();
        if let Ok(name) = Repository::branch_name_from_issue(&issue, false, Some(suffix)) {
            assert_eq!(IssueKey::try_from(name.clone()).unwrap().0, key);
            assert!(name.starts_with(key));
            assert!(name.chars().count() <= 51);
            assert!(name.chars().count() <= 50 + long);
        }
    }
}
