use syla::config::{default_branch, Config, RepoManifest, RepositoryConfig};
use syla::git::GitStatus;
use syla::numfmt::u64_to_dec;
use syla::text::{contains_sub, eq_ignore_case, str_eq, trim_str};
use syla::timestamp::{civil_of_days, days_of_civil, epoch_day_limit, epoch_secs_of_civil};

fn repo(platform: Option<&str>) -> RepositoryConfig {
    RepositoryConfig {
        url: "https://example.invalid/r.git".to_string(),
        path: "core/r".to_string(),
        branch: "main".to_string(),
        language: "rust".to_string(),
        health_check: Some("http://127.0.0.1:9/health".to_string()),
        ports: vec!["8080".to_string()],
        depends_on: Vec::new(),
        repo_type: None,
        platform: platform.map(|p| p.to_string()),
        description: None,
    }
}

fn config() -> Config {
    Config {
        workspace_root: "/tmp/ws".to_string(),
        manifest: RepoManifest {
            repositories: vec![
                ("syla.core.api".to_string(), repo(Some("syla"))),
                ("other.tool".to_string(), repo(None)),
                ("syla.core.worker".to_string(), repo(Some("syla"))),
            ],
            infrastructure: Vec::new(),
        },
    }
}

#[test]
fn default_branch_is_main() {
    assert_eq!(default_branch(), "main");
}

#[test]
fn get_all_repositories_lists_everything_in_order() {
    let c = config();
    let all = c.get_all_repositories();
    assert_eq!(all.len(), 3);
    assert_eq!(all[0].0, "syla.core.api");
    assert_eq!(all[1].0, "other.tool");
    assert_eq!(all[2].0, "syla.core.worker");
    assert_eq!(all[0].1.url, "https://example.invalid/r.git");
}

#[test]
fn get_platform_repositories_filters_by_platform() {
    let c = config();
    let syla_repos = c.get_platform_repositories("syla").unwrap();
    assert_eq!(syla_repos.len(), 2);
    assert_eq!(syla_repos[0].0, "syla.core.api");
    assert_eq!(syla_repos[1].0, "syla.core.worker");
    assert!(c.get_platform_repositories("unknown").is_none());
}

#[test]
fn git_status_from_porcelain() {
    let lines = vec!["## main...origin/main".to_string(), " M src/lib.rs".to_string(), "?? new".to_string()];
    let st = GitStatus::from_porcelain(&lines);
    assert_eq!(st.branch, "main...origin/main");
    assert!(st.has_changes);
    assert_eq!(st.changed_files, 2);

    let clean = GitStatus::from_porcelain(&vec!["## work".to_string()]);
    assert_eq!(clean.branch, "work");
    assert!(!clean.has_changes);
    assert_eq!(clean.changed_files, 0);

    let odd = GitStatus::from_porcelain(&Vec::new());
    assert_eq!(odd.branch, "unknown");
    assert!(!odd.has_changes);
    assert_eq!(odd.changed_files, 0);
}

#[test]
fn decimal_rendering() {
    assert_eq!(u64_to_dec(0), "0");
    assert_eq!(u64_to_dec(7), "7");
    assert_eq!(u64_to_dec(12345), "12345");
    assert_eq!(u64_to_dec(u64::MAX), "18446744073709551615");
}

#[test]
fn calendar_arithmetic() {
    assert_eq!(epoch_secs_of_civil(1970, 1, 1, 0, 0, 0), 0);
    assert_eq!(epoch_secs_of_civil(2024, 1, 1, 0, 0, 0), 1_704_067_200);
    // a leap day
    assert_eq!(epoch_secs_of_civil(2024, 2, 29, 12, 0, 0), 1_709_208_000);
    let d = days_of_civil(2024, 1, 1);
    assert_eq!(civil_of_days(d), (2024, 1, 1));
    assert_eq!(civil_of_days(0), (1970, 1, 1));
    assert_eq!(epoch_day_limit(), 2_932_897);
}

#[test]
fn text_helpers() {
    assert!(eq_ignore_case("WaRn", "warn"));
    assert!(!eq_ignore_case("warn", "warning"));
    assert!(contains_sub("core-api-gateway", "api"));
    assert!(!contains_sub("worker", "api"));
    assert!(contains_sub("anything", ""));
    assert_eq!(trim_str("  padded\t"), "padded");
    assert_eq!(trim_str(" \t "), "");
    assert!(str_eq("same", "same"));
    assert!(!str_eq("same", "sam"));
}
