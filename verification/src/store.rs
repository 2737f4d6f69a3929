//! Identity profiles and the store that keeps them by name.

use crate::assoc::{entries, loaded, pairs, StrMap};
use crate::paths::{below, is_store_dir, is_store_file, store_dir, CONFIG_FILE};
use std::path::PathBuf;
use vstd::prelude::*;

verus! {

/// Who the commits are made as.
#[derive(Debug, Clone)]
pub struct UserConfig {
    pub email: String,
    pub name: String,
    pub signoff: Option<String>,
}

/// One URL rewrite rule: remotes that start with `instead_of` are reached
/// through `pattern`.
#[derive(Debug, Clone)]
pub struct UrlConfig {
    pub pattern: String,
    pub instead_of: String,
}

/// Settings of the commit itself.
#[derive(Debug, Clone)]
pub struct CommitConfig {
    pub gpgsign: bool,
}

/// A complete identity profile.
#[derive(Debug, Clone)]
pub struct GitConfig {
    pub user: UserConfig,
    pub urls: Vec<UrlConfig>,
    pub commit: CommitConfig,
}

impl Default for UserConfig {
    /// No name, no email, no sign-off.
    fn default() -> (r: Self)
        ensures
            r.email@ == Seq::<char>::empty(),
            r.name@ == Seq::<char>::empty(),
            r.signoff is None,
    {
        UserConfig { email: String::new(), name: String::new(), signoff: None }
    }
}

impl Default for CommitConfig {
    /// Signing is off.
    fn default() -> (r: Self)
        ensures
            !r.gpgsign,
    {
        CommitConfig { gpgsign: false }
    }
}

impl Default for GitConfig {
    /// An empty identity without rewrite rules, signing off.
    fn default() -> (r: Self)
        ensures
            r.user.email@ == Seq::<char>::empty(),
            r.user.name@ == Seq::<char>::empty(),
            r.user.signoff is None,
            r.urls@ == Seq::<UrlConfig>::empty(),
            !r.commit.gpgsign,
    {
        GitConfig {
            user: UserConfig { email: String::new(), name: String::new(), signoff: None },
            urls: Vec::new(),
            commit: CommitConfig { gpgsign: false },
        }
    }
}

/// The profiles, each under its unique name.
#[derive(Debug)]
pub struct ConfigStore {
    configs: StrMap<GitConfig>,
}

impl Default for ConfigStore {
    fn default() -> (r: Self)
        ensures
            r.wf(),
            r@ == Map::<Seq<char>, GitConfig>::empty(),
    {
        ConfigStore::new()
    }
}

impl ConfigStore {
    /// The store's invariant: every name is bound once.
    pub closed spec fn wf(&self) -> bool {
        self.configs.wf()
    }

    /// The store as a map from profile name to profile.
    pub closed spec fn view(&self) -> Map<Seq<char>, GitConfig> {
        self.configs@
    }

    /// The profile names in the order in which the store lists them.
    pub closed spec fn order(&self) -> Seq<Seq<char>> {
        self.configs.order()
    }

    /// The listing order names every profile of the store exactly once.
    pub proof fn lemma_order(&self)
        requires
            self.wf(),
        ensures
            self.order().no_duplicates(),
            self.order().to_set() == self@.dom(),
            self.order().len() == self@.dom().len(),
            self@.dom().finite(),
    {
        self.configs.lemma_order();
    }

    /// The directory in which the store is kept; none where the platform
    /// names no configuration directory.
    pub fn config_dir() -> (r: Option<PathBuf>)
        ensures
            r matches Some(p) ==> is_store_dir(p),
    {
        store_dir()
    }

    /// The file in which the store is kept: the file named by `CONFIG_FILE`
    /// inside the directory of the stores.
    pub fn config_path() -> (r: Option<PathBuf>)
        ensures
            r matches Some(p) ==> is_store_file(p, CONFIG_FILE@),
    {
        below(store_dir(), CONFIG_FILE)
    }

    /// A store without profiles.
    pub fn new() -> (r: Self)
        ensures
            r.wf(),
            r@ == Map::<Seq<char>, GitConfig>::empty(),
            r.order() == Seq::<Seq<char>>::empty(),
    {
        ConfigStore { configs: StrMap::new() }
    }

    /// The store that results from adding the profiles of `list`, each under
    /// its name, first to last.
    pub fn from_entries(list: Vec<(String, GitConfig)>) -> (r: Self)
        ensures
            r.wf(),
            r@ == loaded(pairs(list@)),
    {
        ConfigStore { configs: StrMap::from_entries(list) }
    }

    /// Stores `config` under `name`; a profile already under that name is
    /// replaced.
    pub fn add(&mut self, name: &str, config: GitConfig)
        requires
            old(self).wf(),
        ensures
            final(self).wf(),
            final(self)@ == old(self)@.insert(name@, config),
            final(self).order() == if old(self)@.contains_key(name@) {
                old(self).order()
            } else {
                old(self).order().push(name@)
            },
    {
        self.configs.insert(name.to_owned(), config);
    }

    /// The profile under `name`, if there is one.
    pub fn get(&self, name: &str) -> (r: Option<&GitConfig>)
        requires
            self.wf(),
        ensures
            match r {
                Some(c) => self@.contains_key(name@) && *c == self@[name@],
                None => !self@.contains_key(name@),
            },
    {
        self.configs.get(name)
    }

    /// Takes the profile under `name` out of the store and returns it.
    pub fn remove(&mut self, name: &str) -> (r: Option<GitConfig>)
        requires
            old(self).wf(),
        ensures
            final(self).wf(),
            final(self)@ == old(self)@.remove(name@),
            r == if old(self)@.contains_key(name@) {
                Some(old(self)@[name@])
            } else {
                None
            },
            final(self).order() == if old(self)@.contains_key(name@) {
                old(self).order().remove(old(self).order().index_of(name@))
            } else {
                old(self).order()
            },
    {
        self.configs.remove(name)
    }

    /// The names of all profiles, each once.
    pub fn list(&self) -> (r: Vec<&String>)
        requires
            self.wf(),
        ensures
            r@.len() == self.order().len(),
            forall|i: int| 0 <= i < r@.len() ==> (#[trigger] r@[i])@ == self.order()[i],
            self.order().no_duplicates(),
            self.order().to_set() == self@.dom(),
    {
        proof {
            self.lemma_order();
        }
        self.configs.keys()
    }

    /// All profiles with their names, each once, in listing order.
    pub fn iter(&self) -> (r: Vec<(&String, &GitConfig)>)
        requires
            self.wf(),
        ensures
            r@.len() == self.order().len(),
            forall|i: int|
                0 <= i < r@.len() ==> ((#[trigger] r@[i]).0@, *r@[i].1) == entries(
                    self.order(),
                    self@,
                )[i],
            self.order().no_duplicates(),
            self.order().to_set() == self@.dom(),
    {
        proof {
            self.lemma_order();
        }
        self.configs.iter()
    }
}

} // verus!
