use gamm::store::{CommitConfig, ConfigStore, GitConfig, UrlConfig, UserConfig};

fn sample_config() -> GitConfig {
    GitConfig {
        user: UserConfig {
            email: "test@example.com".into(),
            name: "Test User".into(),
            signoff: Some("test".into()),
        },
        urls: vec![UrlConfig {
            pattern: "git@github.com:".into(),
            instead_of: "https://github.com/".into(),
        }],
        commit: CommitConfig { gpgsign: true },
    }
}

#[test]
fn store_test_new_store_is_empty() {
    let store = ConfigStore::new();
    assert_eq!(store.list().iter().count(), 0);
}

#[test]
fn test_add_and_get_config() {
    let mut store = ConfigStore::new();
    store.add("test", sample_config());

    let config = store.get("test");
    assert!(config.is_some());

    let config = config.unwrap();
    assert_eq!(config.user.email, "test@example.com");
    assert_eq!(config.user.name, "Test User");
    assert_eq!(config.user.signoff, Some("test".into()));
    assert!(config.commit.gpgsign);
}

#[test]
fn test_get_nonexistent_config() {
    let store = ConfigStore::new();
    assert!(store.get("nonexistent").is_none());
}

#[test]
fn test_remove_config() {
    let mut store = ConfigStore::new();
    store.add("test", sample_config());

    let removed = store.remove("test");
    assert!(removed.is_some());
    assert!(store.get("test").is_none());
}

#[test]
fn test_remove_nonexistent_config() {
    let mut store = ConfigStore::new();
    let removed = store.remove("nonexistent");
    assert!(removed.is_none());
}

#[test]
fn test_list_configs() {
    let mut store = ConfigStore::new();
    store.add("work", sample_config());
    store.add("personal", sample_config());

    let names: Vec<_> = store.list();
    assert_eq!(names.len(), 2);
    assert!(names.contains(&&"work".to_string()));
    assert!(names.contains(&&"personal".to_string()));
}

#[test]
fn test_iter_configs() {
    let mut store = ConfigStore::new();
    store.add("work", sample_config());
    store.add("personal", sample_config());

    let configs: Vec<_> = store.iter();
    assert_eq!(configs.len(), 2);
}

#[test]
fn test_config_path_exists() {
    let path = ConfigStore::config_path();
    assert!(path.is_some());
    assert!(path.unwrap().ends_with("config.json"));
}

#[test]
fn test_config_dir_exists() {
    let dir = ConfigStore::config_dir();
    assert!(dir.is_some());
    assert!(dir.unwrap().ends_with("gamm"));
}

#[test]
fn test_user_config_default() {
    let user = UserConfig::default();
    assert_eq!(user.email, "");
    assert_eq!(user.name, "");
    assert!(user.signoff.is_none());
}

#[test]
fn test_commit_config_default() {
    let commit = CommitConfig::default();
    assert!(!commit.gpgsign);
}

#[test]
fn test_git_config_default() {
    let config = GitConfig::default();
    assert_eq!(config.user.email, "");
    assert!(config.urls.is_empty());
    assert!(!config.commit.gpgsign);
}

#[test]
fn add_replaces_a_profile_of_the_same_name() {
    let mut store = ConfigStore::new();
    store.add("work", sample_config());
    let mut other = GitConfig::default();
    other.user.name = "Other".into();
    store.add("work", other);
    assert_eq!(store.list().len(), 1);
    assert_eq!(store.get("work").unwrap().user.name, "Other");
    assert!(store.get("work").unwrap().user.signoff.is_none());
}

#[test]
fn get_after_add_returns_every_field() {
    let mut store = ConfigStore::new();
    store.add("p", sample_config());
    let c = store.get("p").unwrap();
    assert_eq!(c.urls.len(), 1);
    assert_eq!(c.urls[0].pattern, "git@github.com:");
    assert_eq!(c.urls[0].instead_of, "https://github.com/");
    assert_eq!(c.user.signoff.as_deref(), Some("test"));
}

#[test]
fn remove_returns_the_profile_and_keeps_the_others() {
    let mut store = ConfigStore::new();
    store.add("a", sample_config());
    store.add("b", GitConfig::default());
    store.add("c", sample_config());
    let gone = store.remove("b").unwrap();
    assert_eq!(gone.user.email, "");
    let names: Vec<String> = store.list().into_iter().cloned().collect();
    assert_eq!(names, vec!["a".to_string(), "c".to_string()]);
    assert!(store.get("a").is_some());
    assert!(store.get("c").is_some());
}

#[test]
fn iter_pairs_names_with_their_profiles() {
    let mut store = ConfigStore::new();
    store.add("work", sample_config());
    store.add("home", GitConfig::default());
    let all = store.iter();
    assert_eq!(all[0].0, "work");
    assert_eq!(all[0].1.user.name, "Test User");
    assert_eq!(all[1].0, "home");
    assert_eq!(all[1].1.user.name, "");
}

#[test]
fn default_store_is_empty() {
    let store = ConfigStore::default();
    assert!(store.list().is_empty());
    assert!(store.iter().is_empty());
}
