use wsx::cmd::RepoPattern;
use wsx::error::ParseError;

#[test]
fn test_parse() {
    assert_eq!(
        str::parse::<RepoPattern>("workspace12:remote1/abc/123").unwrap(),
        RepoPattern {
            workspace_name: Some("workspace12".to_string()),
            path: "remote1/abc/123".to_string()
        }
    );
    assert_eq!(
        str::parse::<RepoPattern>("123").unwrap(),
        RepoPattern { workspace_name: None, path: "123".to_string() }
    );
}

#[test]
fn parse_full_pattern() {
    let p = RepoPattern::parse("ws:remote/a/b").unwrap();
    assert_eq!(p.workspace_name, Some("ws".to_string()));
    assert_eq!(p.path, "remote/a/b".to_string());
    let (remote, rest) = p.maybe_remote().unwrap();
    assert_eq!(remote, "remote".to_string());
    assert_eq!(rest, "a/b".to_string());
}

#[test]
fn parse_without_workspace() {
    let p = RepoPattern::parse("a/b").unwrap();
    assert_eq!(p.workspace_name, None);
    assert_eq!(p.path, "a/b".to_string());
    let (remote, rest) = p.maybe_remote().unwrap();
    assert_eq!(remote, "a".to_string());
    assert_eq!(rest, "b".to_string());
}

#[test]
fn parse_empty_fails() {
    assert_eq!(RepoPattern::parse(""), Err(ParseError));
}

#[test]
fn parse_trailing_slash_fails() {
    assert_eq!(RepoPattern::parse("a/b/"), Err(ParseError));
    assert_eq!(RepoPattern::parse("ws:"), Err(ParseError));
    assert_eq!(RepoPattern::parse("/"), Err(ParseError));
}

#[test]
fn parse_leading_colon_is_no_workspace() {
    let p = RepoPattern::parse(":abc").unwrap();
    assert_eq!(p.workspace_name, None);
    assert_eq!(p.path, ":abc".to_string());
}

#[test]
fn parse_splits_at_first_colon() {
    let p = RepoPattern::parse("a:b:c").unwrap();
    assert_eq!(p.workspace_name, Some("a".to_string()));
    assert_eq!(p.path, "b:c".to_string());
}

#[test]
fn parse_colon_after_slash_is_no_workspace() {
    let p = RepoPattern::parse("a/b:c").unwrap();
    assert_eq!(p.workspace_name, None);
    assert_eq!(p.path, "a/b:c".to_string());
}

#[test]
fn maybe_remote_without_slash() {
    let p = RepoPattern::parse("abc").unwrap();
    assert_eq!(p.maybe_remote(), None);
}

#[test]
fn maybe_remote_leading_slash() {
    let p = RepoPattern { workspace_name: None, path: "/b".to_string() };
    assert_eq!(p.maybe_remote(), None);
}

#[test]
fn maybe_remote_keeps_later_slashes() {
    let p = RepoPattern { workspace_name: None, path: "r/x/y/z".to_string() };
    assert_eq!(p.maybe_remote(), Some(("r".to_string(), "x/y/z".to_string())));
}
