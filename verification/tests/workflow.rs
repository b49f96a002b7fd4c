use wsx::api::github::GithubProvider;
use wsx::api::Provider;
use wsx::cmd::drop::{drop_action, DropAction};
use wsx::cmd::open::{open_action, OpenAction};
use wsx::cmd::RepoPattern;
use wsx::config::{default_cache, Config, ProviderConfig, WorkspaceConfig};
use wsx::error::ResolveError;
use wsx::remote::{GithubRemote, ListRepos, Remote};

#[test]
fn clean_checkouts_are_archived_and_removed() {
    assert_eq!(drop_action(""), DropAction::ArchiveAndRemove);
}

#[test]
fn dirty_checkouts_are_skipped() {
    assert_eq!(drop_action(" M src/lib.rs\n"), DropAction::Skip);
}

#[test]
fn open_reports_live_checkouts() {
    assert_eq!(open_action(2, false), OpenAction::ShowCheckouts);
    assert_eq!(open_action(1, true), OpenAction::ShowCheckouts);
}

#[test]
fn open_restores_from_cache_when_nothing_is_live() {
    assert_eq!(open_action(0, true), OpenAction::RestoreFromCache);
}

#[test]
fn open_falls_back_to_a_fresh_clone() {
    assert_eq!(open_action(0, false), OpenAction::CloneFromRemote);
}

#[test]
fn remote_listing_is_empty_without_integration() {
    let r = Remote::Github(GithubRemote { name: "github.com".to_string() });
    assert_eq!(r.list_repo_paths(), Ok(vec![]));
    let p = GithubProvider { config: ProviderConfig { name: "github.com".to_string() } };
    assert_eq!(p.list_repo_paths(), Ok(vec![]));
    assert_eq!(p.label(), "Github".to_string());
}

#[test]
fn default_cache_location() {
    assert_eq!(default_cache(), Some("~/.wsm/cache".to_string()));
}

fn cfg_registry() -> Config {
    Config {
        workspace: vec![
            WorkspaceConfig {
                name: Some("ws".to_string()),
                path: "/home/u/ws".to_string(),
                cache: default_cache(),
                providers: Some(vec![ProviderConfig { name: "remote".to_string() }]),
            },
            WorkspaceConfig {
                name: None,
                path: "/home/u/other".to_string(),
                cache: None,
                providers: None,
            },
        ],
    }
}

#[test]
fn config_resolve_composes_the_root() {
    let cfg = cfg_registry();
    let p = RepoPattern::parse("ws:remote/a/b").unwrap();
    assert_eq!(cfg.resolve(&p), Ok("/home/u/ws/remote/a/b".to_string()));
}

#[test]
fn config_resolve_uses_the_default_provider() {
    let cfg = cfg_registry();
    let p = RepoPattern::parse("proj").unwrap();
    assert_eq!(cfg.resolve(&p), Ok("/home/u/ws/remote/proj".to_string()));
}

#[test]
fn config_resolve_rejects_unknown_workspace() {
    let cfg = cfg_registry();
    let p = RepoPattern::parse("nope:remote/a").unwrap();
    assert_eq!(cfg.resolve(&p), Err(ResolveError::WorkspaceNotFound));
}

#[test]
fn config_resolve_rejects_unknown_provider() {
    let cfg = cfg_registry();
    let p = RepoPattern::parse("ws:elsewhere/a").unwrap();
    assert_eq!(cfg.resolve(&p), Err(ResolveError::RemoteNotFound));
}

#[test]
fn config_resolve_without_providers_fails() {
    let cfg = Config {
        workspace: vec![WorkspaceConfig {
            name: Some("bare".to_string()),
            path: "/w".to_string(),
            cache: None,
            providers: None,
        }],
    };
    let p = RepoPattern::parse("bare:proj").unwrap();
    assert_eq!(cfg.resolve(&p), Err(ResolveError::NoRemotes));
}

#[test]
fn config_resolve_empty_registry_fails() {
    let cfg = Config { workspace: vec![] };
    let p = RepoPattern::parse("proj").unwrap();
    assert_eq!(cfg.resolve(&p), Err(ResolveError::EmptyRegistry));
}

#[test]
fn workspace_config_name_falls_back_to_last_segment() {
    let cfg = cfg_registry();
    assert_eq!(cfg.workspace[0].name(), "ws".to_string());
    assert_eq!(cfg.workspace[1].name(), "other".to_string());
}
