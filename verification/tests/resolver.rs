use wsx::cmd::RepoPattern;
use wsx::error::ResolveError;
use wsx::remote::{GithubRemote, Remote};
use wsx::{Config, RepoCache, Workspace};

fn registry() -> Config {
    Config {
        workspace: vec![
            Workspace {
                name: Some("ws".to_string()),
                path: "/home/u/ws".to_string(),
                remotes: vec![Remote::Github(GithubRemote { name: "remote".to_string() })],
            },
            Workspace {
                name: Some("work".to_string()),
                path: "/home/u/work".to_string(),
                remotes: vec![
                    Remote::Github(GithubRemote { name: "github.com".to_string() }),
                    Remote::Github(GithubRemote { name: "gitlab.com".to_string() }),
                ],
            },
        ],
        cache: Some(RepoCache { path: "/home/u/.cache/wsx".to_string() }),
    }
}

#[test]
fn resolves_explicit_workspace_and_remote() {
    let cfg = registry();
    let p = RepoPattern::parse("ws:remote/a/b").unwrap();
    assert_eq!(cfg.search_local(&p), Ok("/home/u/ws/remote/a/b".to_string()));
}

#[test]
fn unknown_workspace_is_an_error_not_the_default() {
    let cfg = registry();
    let p = RepoPattern::parse("nope:remote/a/b").unwrap();
    assert_eq!(cfg.search_local(&p), Err(ResolveError::WorkspaceNotFound));
}

#[test]
fn default_workspace_is_the_first() {
    let cfg = registry();
    let p = RepoPattern::parse("remote/a/b").unwrap();
    assert_eq!(cfg.search_local(&p), Ok("/home/u/ws/remote/a/b".to_string()));
}

#[test]
fn default_remote_is_the_first() {
    let cfg = registry();
    let p = RepoPattern::parse("work:proj").unwrap();
    assert_eq!(cfg.search_local(&p), Ok("/home/u/work/github.com/proj".to_string()));
}

#[test]
fn unknown_remote_is_an_error() {
    let cfg = registry();
    let p = RepoPattern::parse("work:sourcehut.org/proj").unwrap();
    assert_eq!(cfg.search_local(&p), Err(ResolveError::RemoteNotFound));
}

#[test]
fn empty_registry_is_an_error() {
    let cfg = Config { workspace: vec![], cache: None };
    let p = RepoPattern::parse("a/b").unwrap();
    assert_eq!(cfg.search_local(&p), Err(ResolveError::EmptyRegistry));
}

#[test]
fn workspace_without_remotes_is_an_error() {
    let cfg = Config {
        workspace: vec![Workspace {
            name: Some("bare".to_string()),
            path: "/w".to_string(),
            remotes: vec![],
        }],
        cache: None,
    };
    let p = RepoPattern::parse("bare:proj").unwrap();
    assert_eq!(cfg.search_local(&p), Err(ResolveError::NoRemotes));
}

#[test]
fn workspace_search_composes_the_root() {
    let ws = Workspace {
        name: None,
        path: "/home/u/ws".to_string(),
        remotes: vec![Remote::Github(GithubRemote { name: "gh".to_string() })],
    };
    let p = RepoPattern::parse("gh/a").unwrap();
    assert_eq!(ws.search(&p), Ok("/home/u/ws/gh/a".to_string()));
    let q = RepoPattern::parse("a").unwrap();
    assert_eq!(ws.search(&q), Ok("/home/u/ws/gh/a".to_string()));
}

#[test]
fn workspace_by_name_finds_the_first_match() {
    let cfg = registry();
    let w = cfg.workspace_by_name("work").unwrap();
    assert_eq!(w.path, "/home/u/work".to_string());
    assert!(cfg.workspace_by_name("absent").is_none());
}

#[test]
fn workspace_name_falls_back_to_last_segment() {
    let ws = Workspace { name: None, path: "/home/u/ws".to_string(), remotes: vec![] };
    assert_eq!(ws.name(), "ws".to_string());
    let named = Workspace {
        name: Some("personal".to_string()),
        path: "/home/u/ws".to_string(),
        remotes: vec![],
    };
    assert_eq!(named.name(), "personal".to_string());
}

#[test]
fn remote_name_reads_the_variant() {
    let r = Remote::Github(GithubRemote { name: "github.com".to_string() });
    assert_eq!(r.name(), &"github.com".to_string());
}

#[test]
fn default_config_shape() {
    let cfg = Config::default_for_home("/home/u");
    assert_eq!(cfg.workspace.len(), 1);
    assert_eq!(cfg.workspace[0].name, Some("default".to_string()));
    assert_eq!(cfg.workspace[0].path, "/home/u/workspace".to_string());
    assert!(cfg.workspace[0].remotes.is_empty());
    assert_eq!(cfg.cache.unwrap().path, "/home/u/.cache/wsx".to_string());
}

#[test]
fn config_file_location() {
    assert_eq!(wsx::config_file_path("/home/u"), "/home/u/.config/wsx.toml".to_string());
}
