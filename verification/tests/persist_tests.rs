use gamm::paths::{below, hook_path, hooks_dir, store_dir};
use gamm::repo::{Repo, RepoStore};
use gamm::store::{CommitConfig, ConfigStore, GitConfig, UrlConfig, UserConfig};
use serde_json::Value;

fn text(s: &str) -> Value {
    Value::String(s.to_string())
}

fn profile_value(c: &GitConfig) -> Value {
    let mut user = serde_json::Map::new();
    user.insert("email".to_string(), text(&c.user.email));
    user.insert("name".to_string(), text(&c.user.name));
    user.insert(
        "signoff".to_string(),
        match &c.user.signoff {
            Some(s) => text(s),
            None => Value::Null,
        },
    );
    let urls: Vec<Value> = c
        .urls
        .iter()
        .map(|u| {
            let mut rule = serde_json::Map::new();
            rule.insert("pattern".to_string(), text(&u.pattern));
            rule.insert("instead_of".to_string(), text(&u.instead_of));
            Value::Object(rule)
        })
        .collect();
    let mut commit = serde_json::Map::new();
    commit.insert("gpgsign".to_string(), Value::Bool(c.commit.gpgsign));
    let mut out = serde_json::Map::new();
    out.insert("user".to_string(), Value::Object(user));
    out.insert("urls".to_string(), Value::Array(urls));
    out.insert("commit".to_string(), Value::Object(commit));
    Value::Object(out)
}

fn profile_from(v: &Value) -> GitConfig {
    GitConfig {
        user: UserConfig {
            email: v["user"]["email"].as_str().unwrap().to_string(),
            name: v["user"]["name"].as_str().unwrap().to_string(),
            signoff: v["user"]["signoff"].as_str().map(|s| s.to_string()),
        },
        urls: v["urls"]
            .as_array()
            .unwrap()
            .iter()
            .map(|u| UrlConfig {
                pattern: u["pattern"].as_str().unwrap().to_string(),
                instead_of: u["instead_of"].as_str().unwrap().to_string(),
            })
            .collect(),
        commit: CommitConfig { gpgsign: v["commit"]["gpgsign"].as_bool().unwrap() },
    }
}

fn store_to_json(store: &ConfigStore) -> String {
    let mut all = serde_json::Map::new();
    for (name, c) in store.iter() {
        all.insert(name.clone(), profile_value(c));
    }
    serde_json::to_string_pretty(&Value::Object(all)).unwrap()
}

fn store_from_json(json: &str) -> ConfigStore {
    let parsed: Value = serde_json::from_str(json).unwrap();
    ConfigStore::from_entries(
        parsed.as_object().unwrap().iter().map(|(name, v)| (name.clone(), profile_from(v))).collect(),
    )
}

fn repos_to_json(store: &RepoStore) -> String {
    let mut all = serde_json::Map::new();
    for (url, r) in store.iter() {
        let mut entry = serde_json::Map::new();
        entry.insert("repo_name".to_string(), text(&r.repo_name));
        entry.insert("url".to_string(), text(&r.url));
        entry.insert("commit_by".to_string(), text(&r.commit_by));
        all.insert(url.clone(), Value::Object(entry));
    }
    serde_json::to_string(&Value::Object(all)).unwrap()
}

fn repos_from_json(json: &str) -> RepoStore {
    let parsed: Value = serde_json::from_str(json).unwrap();
    RepoStore::from_entries(
        parsed
            .as_object()
            .unwrap()
            .iter()
            .map(|(url, v)| {
                (
                    url.clone(),
                    Repo {
                        repo_name: v["repo_name"].as_str().unwrap().to_string(),
                        url: v["url"].as_str().unwrap().to_string(),
                        commit_by: v["commit_by"].as_str().unwrap().to_string(),
                    },
                )
            })
            .collect(),
    )
}

fn sample_config() -> GitConfig {
    GitConfig {
        user: UserConfig {
            email: "test@example.com".into(),
            name: "Test User".into(),
            signoff: Some("test".into()),
        },
        urls: vec![UrlConfig {
            pattern: "git@github.com:".into(),
            instead_of: "https://github.com/".into(),
        }],
        commit: CommitConfig { gpgsign: true },
    }
}

#[test]
fn store_test_serialize_deserialize() {
    let mut store = ConfigStore::new();
    store.add("test", sample_config());

    let json = store_to_json(&store);
    let restored = store_from_json(&json);

    let config = restored.get("test").unwrap();
    assert_eq!(config.user.email, "test@example.com");
}

#[test]
fn repo_test_serialize_deserialize() {
    let mut store = RepoStore::new();
    store.add(Repo {
        repo_name: "gam".into(),
        url: "git@github.com:9bany/gam.git".into(),
        commit_by: "personal".into(),
    });

    let json = repos_to_json(&store);
    let restored = repos_from_json(&json);

    let repo = restored.get_by_url("git@github.com:9bany/gam.git").unwrap();
    assert_eq!(repo.repo_name, "gam");
    assert_eq!(repo.commit_by, "personal");
}

#[test]
fn round_trip_keeps_every_field() {
    let mut store = ConfigStore::new();
    store.add("full", sample_config());
    store.add("bare", GitConfig::default());
    let restored = store_from_json(&store_to_json(&store));
    assert_eq!(restored.list().len(), 2);
    for (name, c) in store.iter() {
        let back = restored.get(name).unwrap();
        assert_eq!(back.user.name, c.user.name);
        assert_eq!(back.user.email, c.user.email);
        assert_eq!(back.user.signoff, c.user.signoff);
        assert_eq!(back.commit.gpgsign, c.commit.gpgsign);
        assert_eq!(back.urls.len(), c.urls.len());
        for (a, b) in back.urls.iter().zip(c.urls.iter()) {
            assert_eq!(a.pattern, b.pattern);
            assert_eq!(a.instead_of, b.instead_of);
        }
    }
    assert!(restored.get("bare").unwrap().user.signoff.is_none());
    assert!(store_from_json(&store_to_json(&ConfigStore::new())).list().is_empty());
}

#[test]
fn paths_lie_below_their_directories() {
    let hooks = hooks_dir().unwrap();
    assert!(hooks.ends_with(".githooks"));
    let hook = hook_path().unwrap();
    assert!(hook.ends_with(".githooks/pre-commit"));
    assert_eq!(hook.parent().unwrap(), hooks.as_path());
    let dir = store_dir().unwrap();
    assert!(dir.ends_with("gamm"));
    let file = below(Some(dir.clone()), "x.json").unwrap();
    assert_eq!(file, dir.join("x.json"));
    assert!(below(None, "x.json").is_none());
}

#[test]
fn a_later_entry_replaces_an_earlier_one() {
    let mut second = GitConfig::default();
    second.user.name = "second".into();
    let store = ConfigStore::from_entries(vec![
        ("a".to_string(), sample_config()),
        ("b".to_string(), GitConfig::default()),
        ("a".to_string(), second),
    ]);
    assert_eq!(store.list().len(), 2);
    assert_eq!(store.get("a").unwrap().user.name, "second");
    assert_eq!(store.get("b").unwrap().user.name, "");

    let repos = RepoStore::from_entries(vec![
        ("u".to_string(), Repo { repo_name: "one".into(), url: "u".into(), commit_by: "work".into() }),
        ("u".to_string(), Repo { repo_name: "two".into(), url: "u".into(), commit_by: "home".into() }),
        ("key".to_string(), Repo { repo_name: "k".into(), url: "other".into(), commit_by: "work".into() }),
    ]);
    assert_eq!(repos.list_urls().len(), 2);
    assert_eq!(repos.lookup_owner_by_url("u"), Some("home"));
    assert_eq!(repos.get_by_url("key").unwrap().url, "other");
    assert!(repos.get_by_url("other").is_none());
    assert!(RepoStore::from_entries(vec![]).list_urls().is_empty());
}

#[test]
fn a_store_rebuilt_from_its_entries_is_the_same() {
    let mut repos = RepoStore::new();
    repos.add_repo("a", "u1", "work");
    repos.add_repo("b", "u2", "home");
    let list: Vec<(String, Repo)> =
        repos.iter().into_iter().map(|(u, r)| (u.clone(), r.clone())).collect();
    let back = RepoStore::from_entries(list);
    assert_eq!(back.list_urls().len(), 2);
    for (url, r) in repos.iter() {
        let b = back.get_by_url(url).unwrap();
        assert_eq!(b.repo_name, r.repo_name);
        assert_eq!(b.url, r.url);
        assert_eq!(b.commit_by, r.commit_by);
    }
}

#[test]
fn a_path_below_a_base_is_the_joined_path() {
    let base = std::path::PathBuf::from("some").join("base");
    let first = below(Some(base.clone()), "config.json").unwrap();
    let second = below(Some(base.clone()), "config.json").unwrap();
    assert_eq!(first, second);
    assert_eq!(first, base.join("config.json"));
    assert_ne!(first, base);
    assert!(first.ends_with("base/config.json"));
    assert_ne!(first, below(Some(base), "repos.json").unwrap());
}
