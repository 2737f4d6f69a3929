use gamm::manage::{delete_profile, delete_repo, find_repo, owner_info, register, repo_label};
use gamm::repo::{Repo, RepoStore};
use gamm::store::{ConfigStore, GitConfig};

fn sample_repo() -> Repo {
    Repo {
        repo_name: "gam".into(),
        url: "git@github.com:9bany/gam.git".into(),
        commit_by: "personal".into(),
    }
}

#[test]
fn repo_test_new_store_is_empty() {
    let store = RepoStore::new();
    assert_eq!(store.list_urls().iter().count(), 0);
}

#[test]
fn test_add_and_get_repo() {
    let mut store = RepoStore::new();
    store.add(sample_repo());

    let repo = store.get_by_url("git@github.com:9bany/gam.git");
    assert!(repo.is_some());

    let repo = repo.unwrap();
    assert_eq!(repo.repo_name, "gam");
    assert_eq!(repo.commit_by, "personal");
}

#[test]
fn test_add_repo_by_fields() {
    let mut store = RepoStore::new();
    store.add_repo("my-project", "git@github.com:user/project.git", "work");

    let repo = store.get_by_url("git@github.com:user/project.git");
    assert!(repo.is_some());
    assert_eq!(repo.unwrap().commit_by, "work");
}

#[test]
fn test_lookup_owner_by_url() {
    let mut store = RepoStore::new();
    store.add(sample_repo());

    let owner = store.lookup_owner_by_url("git@github.com:9bany/gam.git");
    assert_eq!(owner, Some("personal"));

    let owner = store.lookup_owner_by_url("nonexistent");
    assert!(owner.is_none());
}

#[test]
fn test_remove_repo() {
    let mut store = RepoStore::new();
    store.add(sample_repo());

    let removed = store.remove_by_url("git@github.com:9bany/gam.git");
    assert!(removed.is_some());
    assert!(store.get_by_url("git@github.com:9bany/gam.git").is_none());
}

#[test]
fn test_find_by_owner() {
    let mut store = RepoStore::new();
    store.add_repo("project1", "url1", "work");
    store.add_repo("project2", "url2", "work");
    store.add_repo("project3", "url3", "personal");

    let work_repos = store.find_by_owner("work");
    assert_eq!(work_repos.len(), 2);

    let personal_repos = store.find_by_owner("personal");
    assert_eq!(personal_repos.len(), 1);
}

#[test]
fn test_repos_path_exists() {
    let path = RepoStore::repos_path();
    assert!(path.is_some());
    assert!(path.unwrap().ends_with("repos.json"));
}

#[test]
fn repos_path_lies_in_the_store_directory() {
    let dir = RepoStore::config_dir().unwrap();
    let path = RepoStore::repos_path().unwrap();
    assert_eq!(path.parent().unwrap(), dir.as_path());
    assert!(dir.ends_with("gamm"));
    assert_ne!(path, dir);
}

#[test]
fn lookup_of_a_url_never_added_is_absent() {
    let mut store = RepoStore::new();
    assert!(store.lookup_owner_by_url("git@example.com:a/b.git").is_none());
    store.add_repo("x", "git@example.com:a/x.git", "work");
    assert!(store.lookup_owner_by_url("git@example.com:a/b.git").is_none());
    assert!(store.get_by_url("git@example.com:a/b.git").is_none());
}

#[test]
fn add_replaces_the_repository_at_the_same_url() {
    let mut store = RepoStore::new();
    store.add_repo("one", "url", "work");
    store.add_repo("two", "url", "home");
    assert_eq!(store.list_urls().len(), 1);
    assert_eq!(store.lookup_owner_by_url("url"), Some("home"));
    assert_eq!(store.get_by_url("url").unwrap().repo_name, "two");
    assert_eq!(store.get_by_url("url").unwrap().url, "url");
}

#[test]
fn find_by_owner_returns_the_owned_in_listing_order() {
    let mut store = RepoStore::new();
    store.add_repo("project1", "url1", "work");
    store.add_repo("project3", "url3", "personal");
    store.add_repo("project2", "url2", "work");
    let found: Vec<&str> = store.find_by_owner("work").iter().map(|r| r.url.as_str()).collect();
    assert_eq!(found, vec!["url1", "url2"]);
    assert!(store.find_by_owner("nobody").is_empty());
}

#[test]
fn iter_and_list_urls_agree() {
    let mut store = RepoStore::new();
    store.add_repo("a", "u1", "work");
    store.add_repo("b", "u2", "home");
    let urls: Vec<String> = store.list_urls().into_iter().cloned().collect();
    assert_eq!(urls, vec!["u1".to_string(), "u2".to_string()]);
    let all = store.iter();
    assert_eq!(all.len(), 2);
    assert_eq!(all[1].0, "u2");
    assert_eq!(all[1].1.repo_name, "b");
}

#[test]
fn remove_by_owner_takes_exactly_the_owned() {
    let mut store = RepoStore::new();
    store.add_repo("a", "u1", "work");
    store.add_repo("b", "u2", "home");
    store.add_repo("c", "u3", "work");
    store.add_repo("d", "u4", "work");
    assert_eq!(store.remove_by_owner("work"), 3);
    assert_eq!(store.list_urls().len(), 1);
    assert_eq!(store.lookup_owner_by_url("u2"), Some("home"));
    assert_eq!(store.remove_by_owner("work"), 0);
}

#[test]
fn deleting_a_profile_cascades_to_its_repositories() {
    let mut configs = ConfigStore::new();
    configs.add("work", GitConfig::default());
    configs.add("home", GitConfig::default());
    let mut repos = RepoStore::new();
    repos.add_repo("name", "url", "work");
    repos.add_repo("other", "url2", "home");
    assert_eq!(delete_profile(&mut configs, &mut repos, "work"), Some(1));
    assert!(repos.lookup_owner_by_url("url").is_none());
    assert_eq!(repos.lookup_owner_by_url("url2"), Some("home"));
    assert!(configs.get("work").is_none());
    assert!(configs.get("home").is_some());
}

#[test]
fn deleting_a_missing_profile_changes_nothing() {
    let mut configs = ConfigStore::new();
    configs.add("home", GitConfig::default());
    let mut repos = RepoStore::new();
    repos.add_repo("name", "url", "work");
    assert_eq!(delete_profile(&mut configs, &mut repos, "work"), None);
    assert_eq!(repos.lookup_owner_by_url("url"), Some("work"));
    assert_eq!(configs.list().len(), 1);
}

#[test]
fn a_repository_is_found_by_name_or_by_url() {
    let mut repos = RepoStore::new();
    repos.add_repo("first", "u1", "work");
    repos.add_repo("second", "u2", "work");
    repos.add_repo("u1", "u3", "work");
    assert_eq!(find_repo(&repos, "second"), Some("u2".to_string()));
    assert_eq!(find_repo(&repos, "u2"), Some("u2".to_string()));
    assert_eq!(find_repo(&repos, "u1"), Some("u1".to_string()));
    assert_eq!(find_repo(&repos, "third"), None);
}

#[test]
fn delete_repo_removes_the_one_found() {
    let mut repos = RepoStore::new();
    repos.add_repo("first", "u1", "work");
    repos.add_repo("second", "u2", "home");
    let gone = delete_repo(&mut repos, "second").unwrap();
    assert_eq!(gone.url, "u2");
    assert_eq!(gone.commit_by, "home");
    assert!(repos.get_by_url("u2").is_none());
    assert!(repos.get_by_url("u1").is_some());
    assert!(delete_repo(&mut repos, "second").is_none());
    assert_eq!(repos.list_urls().len(), 1);
}

#[test]
fn owner_info_shows_name_and_email() {
    let mut configs = ConfigStore::new();
    let mut c = GitConfig::default();
    c.user.name = "A".into();
    c.user.email = "a@x.com".into();
    configs.add("work", c);
    assert_eq!(owner_info(&configs, "work"), "A <a@x.com>");
    assert_eq!(owner_info(&configs, "gone"), "(config not found)");
}

#[test]
fn register_stores_the_repository_and_gives_the_owner_settings() {
    let mut configs = ConfigStore::new();
    let mut c = GitConfig::default();
    c.user.name = "A".into();
    c.user.email = "a@x.com".into();
    configs.add("work", c);
    let mut repos = RepoStore::new();
    let settings = register(
        &mut repos,
        &configs,
        Repo { repo_name: "b".into(), url: "u".into(), commit_by: "work".into() },
    );
    assert_eq!(repos.lookup_owner_by_url("u"), Some("work"));
    assert_eq!(settings.len(), 3);
    assert_eq!(settings[0].key, "user.name");
    assert_eq!(settings[0].value, "A");
    let none = register(
        &mut repos,
        &configs,
        Repo { repo_name: "c".into(), url: "v".into(), commit_by: "nobody".into() },
    );
    assert!(none.is_empty());
    assert_eq!(repos.lookup_owner_by_url("v"), Some("nobody"));
}

#[test]
fn repo_label_shows_name_and_url() {
    assert_eq!(repo_label(&sample_repo()), "gam (git@github.com:9bany/gam.git)");
}
