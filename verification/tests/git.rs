use contextforge::code_intel::git::{commit_info, commits_from_walk, parse_conventional_commit, RawCommit};

const PATTERN: &str =
    r"^(feat|fix|refactor|docs|test|chore|perf|ci|build|style)(\(([^)]+)\))?(!)?\s*:\s*(.+)";

#[test]
fn test_conventional_commit_regex() {
    let caps = parse_conventional_commit("feat(auth): add login").unwrap();
    assert_eq!(caps.commit_type, "feat");
    assert_eq!(caps.scope.as_deref(), Some("auth"));
    assert!(!caps.breaking);
    assert_eq!(caps.description, "add login");

    let caps = parse_conventional_commit("fix: typo").unwrap();
    assert_eq!(caps.commit_type, "fix");
    assert!(caps.scope.is_none());
    assert_eq!(caps.description, "typo");

    let caps = parse_conventional_commit("refactor!: breaking change").unwrap();
    assert_eq!(caps.commit_type, "refactor");
    assert!(caps.breaking);
    assert_eq!(caps.description, "breaking change");

    assert!(parse_conventional_commit("not a conventional commit").is_none());
}

fn check_against_regex(re: &regex::Regex, s: &str) {
    let ours = parse_conventional_commit(s);
    match re.captures(s) {
        Some(caps) => {
            let c = ours.unwrap_or_else(|| panic!("no parse of {s:?}"));
            assert_eq!(c.commit_type, &caps[1], "type of {s:?}");
            assert_eq!(c.scope.as_deref(), caps.get(3).map(|m| m.as_str()), "scope of {s:?}");
            assert_eq!(c.breaking, caps.get(4).is_some(), "breaking of {s:?}");
            assert_eq!(c.description, &caps[5], "description of {s:?}");
        }
        None => assert!(ours.is_none(), "unexpected parse of {s:?}"),
    }
}

#[test]
fn conventional_parse_agrees_with_regex_crate() {
    let re = regex::Regex::new(PATTERN).unwrap();
    let samples = [
        "feat: x",
        "feat:x",
        "feat :  x  ",
        "feat(): x",
        "feat(a b)!: y",
        "feat(a(b)): y",
        "feat(a\nb): y",
        "feature: x",
        "fixup: x",
        "fix:",
        "fix: ",
        "fix:  \n",
        "fix:\n\n",
        "fix: \n\n",
        "fix:\nbody",
        "fix: a\nb",
        "ci!:\u{2003}go",
        "docs\t:\tdone",
        "test!: ",
        "perf(x)",
        "build(x)!",
        "style!!: x",
        " feat: x",
        "chore(deps): bump \u{1F600}",
        "refactor(scope):\r\n",
        "",
    ];
    for s in samples {
        check_against_regex(&re, s);
    }
}

#[test]
fn commit_record_keeps_first_line_and_parses_it() {
    let info = commit_info(RawCommit {
        hash: "abc123".to_string(),
        message: "feat(api)!: new endpoint\r\n\nlong body".to_string(),
        author: "Ann".to_string(),
        seconds: 1431648000,
    });
    assert_eq!(info.hash, "abc123");
    assert_eq!(info.message, "feat(api)!: new endpoint");
    assert_eq!(info.author, "Ann");
    assert_eq!(info.committed_at, "2015-05-15T00:00:00+00:00");
    let c = info.conventional.unwrap();
    assert_eq!(c.commit_type, "feat");
    assert_eq!(c.scope.as_deref(), Some("api"));
    assert!(c.breaking);
    assert_eq!(c.description, "new endpoint");
}

#[test]
fn commit_record_of_unrepresentable_time_is_empty() {
    let info = commit_info(RawCommit {
        hash: "h".to_string(),
        message: "".to_string(),
        author: "".to_string(),
        seconds: i64::MAX,
    });
    assert_eq!(info.committed_at, "");
    assert_eq!(info.message, "");
    assert!(info.conventional.is_none());
}

#[test]
fn walk_keeps_at_most_limit_commits_in_order() {
    let raws: Vec<RawCommit> = (0..5)
        .map(|i| RawCommit {
            hash: format!("h{i}"),
            message: format!("fix: number {i}"),
            author: "a".to_string(),
            seconds: 0,
        })
        .collect();
    let kept = commits_from_walk(raws, 3);
    assert_eq!(kept.len(), 3);
    assert_eq!(kept[0].hash, "h0");
    assert_eq!(kept[2].hash, "h2");
    assert_eq!(kept[1].conventional.as_ref().unwrap().description, "number 1");
    assert_eq!(kept[0].committed_at, "1970-01-01T00:00:00+00:00");
    assert!(commits_from_walk(Vec::new(), 10).is_empty());
}

#[test]
fn written_headers_parse_back_to_their_parts() {
    let types = ["feat", "fix", "refactor", "docs", "test", "chore", "perf", "ci", "build", "style"];
    for t in types {
        for scope in [None, Some("core"), Some("a b")] {
            for breaking in [false, true] {
                let header = format!(
                    "{t}{}{}: do the thing",
                    scope.map(|s| format!("({s})")).unwrap_or_default(),
                    if breaking { "!" } else { "" }
                );
                let c = parse_conventional_commit(&header).expect("a written header parses");
                assert_eq!(c.commit_type, t);
                assert_eq!(c.scope.as_deref(), scope);
                assert_eq!(c.breaking, breaking);
                assert_eq!(c.description, "do the thing");
            }
        }
    }
}
