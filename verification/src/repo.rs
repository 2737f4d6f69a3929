//! Repositories and the profile that owns each of them.
//!
//! A repository is known by its remote URL; `commit_by` names the profile
//! under which commits to it are made.

use crate::assoc::{entries, loaded, pairs, StrMap};
use crate::paths::{below, is_store_dir, is_store_file, store_dir, REPOS_FILE};
use std::path::PathBuf;
use vstd::prelude::*;

verus! {

/// A repository bound to a profile.
#[derive(Debug, Clone)]
pub struct Repo {
    pub repo_name: String,
    pub url: String,
    pub commit_by: String,
}

/// The repositories, each under its remote URL.
#[derive(Debug)]
pub struct RepoStore {
    repos: StrMap<Repo>,
}

/// What is left of `m` once every repository owned by `owner` is gone.
pub open spec fn without_owner(m: Map<Seq<char>, Repo>, owner: Seq<char>) -> Map<Seq<char>, Repo> {
    Map::new(|k: Seq<char>| m.contains_key(k) && m[k].commit_by@ != owner, |k: Seq<char>| m[k])
}

/// A list of repositories as entries, each under the URL that it carries:
/// what adding them one by one binds.
pub open spec fn keyed(list: Seq<Repo>) -> Seq<(Seq<char>, Repo)> {
    Seq::new(list.len(), |i: int| (list[i].url@, list[i]))
}

impl Default for RepoStore {
    fn default() -> (r: Self)
        ensures
            r.wf(),
            r@ == Map::<Seq<char>, Repo>::empty(),
    {
        RepoStore::new()
    }
}

impl RepoStore {
    /// The store's invariant: every URL is bound once.
    pub closed spec fn wf(&self) -> bool {
        self.repos.wf()
    }

    /// The store as a map from remote URL to repository.
    pub closed spec fn view(&self) -> Map<Seq<char>, Repo> {
        self.repos@
    }

    /// The URLs in the order in which the store lists them.
    pub closed spec fn order(&self) -> Seq<Seq<char>> {
        self.repos.order()
    }

    /// The URLs, in listing order, of the repositories that `owner` owns.
    pub open spec fn owned_urls(&self, owner: Seq<char>) -> Seq<Seq<char>> {
        self.order().filter(|k: Seq<char>| self@.contains_key(k) && self@[k].commit_by@ == owner)
    }

    /// The listing order names every URL of the store exactly once.
    pub proof fn lemma_order(&self)
        requires
            self.wf(),
        ensures
            self.order().no_duplicates(),
            self.order().to_set() == self@.dom(),
            self.order().len() == self@.dom().len(),
            self@.dom().finite(),
    {
        self.repos.lemma_order();
    }

    /// The directory in which the store is kept; none where the platform
    /// names no configuration directory.
    pub fn config_dir() -> (r: Option<PathBuf>)
        ensures
            r matches Some(p) ==> is_store_dir(p),
    {
        store_dir()
    }

    /// The file in which the store is kept: the file named by `REPOS_FILE`
    /// inside the directory of the stores.
    pub fn repos_path() -> (r: Option<PathBuf>)
        ensures
            r matches Some(p) ==> is_store_file(p, REPOS_FILE@),
    {
        below(store_dir(), REPOS_FILE)
    }

    /// A store without repositories.
    pub fn new() -> (r: Self)
        ensures
            r.wf(),
            r@ == Map::<Seq<char>, Repo>::empty(),
            r.order() == Seq::<Seq<char>>::empty(),
    {
        RepoStore { repos: StrMap::new() }
    }

    /// The store that results from binding the entries of `list`, each
    /// repository under the URL that stands beside it, first to last.
    pub fn from_entries(list: Vec<(String, Repo)>) -> (r: Self)
        ensures
            r.wf(),
            r@ == loaded(pairs(list@)),
    {
        RepoStore { repos: StrMap::from_entries(list) }
    }

    /// Stores `repo` under its URL; a repository already under that URL is
    /// replaced.
    pub fn add(&mut self, repo: Repo)
        requires
            old(self).wf(),
        ensures
            final(self).wf(),
            final(self)@ == old(self)@.insert(repo.url@, repo),
            final(self).order() == if old(self)@.contains_key(repo.url@) {
                old(self).order()
            } else {
                old(self).order().push(repo.url@)
            },
    {
        let key = repo.url.clone();
        self.repos.insert(key, repo);
    }

    /// Stores a repository made of the three fields, under `url`.
    pub fn add_repo(&mut self, repo_name: &str, url: &str, commit_by: &str)
        requires
            old(self).wf(),
        ensures
            final(self).wf(),
            final(self)@.dom() == old(self)@.dom().insert(url@),
            final(self)@[url@].repo_name@ == repo_name@,
            final(self)@[url@].url@ == url@,
            final(self)@[url@].commit_by@ == commit_by@,
            forall|k: Seq<char>|
                k != url@ && old(self)@.contains_key(k) ==> final(self)@[k] == old(self)@[k],
            final(self).order() == if old(self)@.contains_key(url@) {
                old(self).order()
            } else {
                old(self).order().push(url@)
            },
    {
        let repo = Repo {
            repo_name: repo_name.to_owned(),
            url: url.to_owned(),
            commit_by: commit_by.to_owned(),
        };
        self.add(repo);
    }

    /// The name of the profile that owns the repository at `url`, if the
    /// store knows the URL.
    pub fn lookup_owner_by_url(&self, url: &str) -> (r: Option<&str>)
        requires
            self.wf(),
        ensures
            match r {
                Some(owner) => self@.contains_key(url@) && owner@ == self@[url@].commit_by@,
                None => !self@.contains_key(url@),
            },
    {
        match self.repos.get(url) {
            Some(repo) => Some(repo.commit_by.as_str()),
            None => None,
        }
    }

    /// The repository at `url`, if the store knows the URL.
    pub fn get_by_url(&self, url: &str) -> (r: Option<&Repo>)
        requires
            self.wf(),
        ensures
            match r {
                Some(repo) => self@.contains_key(url@) && *repo == self@[url@],
                None => !self@.contains_key(url@),
            },
    {
        self.repos.get(url)
    }

    /// Takes the repository at `url` out of the store and returns it.
    pub fn remove_by_url(&mut self, url: &str) -> (r: Option<Repo>)
        requires
            old(self).wf(),
        ensures
            final(self).wf(),
            final(self)@ == old(self)@.remove(url@),
            r == if old(self)@.contains_key(url@) {
                Some(old(self)@[url@])
            } else {
                None
            },
            final(self).order() == if old(self)@.contains_key(url@) {
                old(self).order().remove(old(self).order().index_of(url@))
            } else {
                old(self).order()
            },
    {
        self.repos.remove(url)
    }

    /// The URLs of all repositories, each once.
    pub fn list_urls(&self) -> (r: Vec<&String>)
        requires
            self.wf(),
        ensures
            r@.len() == self.order().len(),
            forall|i: int| 0 <= i < r@.len() ==> (#[trigger] r@[i])@ == self.order()[i],
            self.order().no_duplicates(),
            self.order().to_set() == self@.dom(),
    {
        proof {
            self.lemma_order();
        }
        self.repos.keys()
    }

    /// All repositories with their URLs, each once, in listing order.
    pub fn iter(&self) -> (r: Vec<(&String, &Repo)>)
        requires
            self.wf(),
        ensures
            r@.len() == self.order().len(),
            forall|i: int|
                0 <= i < r@.len() ==> ((#[trigger] r@[i]).0@, *r@[i].1) == entries(
                    self.order(),
                    self@,
                )[i],
            forall|i: int| 0 <= i < r@.len() ==> self@.contains_key(#[trigger] self.order()[i]),
            self.order().no_duplicates(),
            self.order().to_set() == self@.dom(),
    {
        proof {
            self.lemma_order();
            assert forall|i: int| 0 <= i < self.order().len() implies self@.contains_key(
                #[trigger] self.order()[i],
            ) by {
                assert(self.order().to_set().contains(self.order()[i]));
            }
        }
        self.repos.iter()
    }

    /// The repositories that the profile `commit_by` owns, in listing order.
    pub fn find_by_owner(&self, commit_by: &str) -> (r: Vec<&Repo>)
        requires
            self.wf(),
        ensures
            r@.len() == self.owned_urls(commit_by@).len(),
            forall|i: int|
                0 <= i < r@.len() ==> *(#[trigger] r@[i]) == self@[self.owned_urls(commit_by@)[i]],
            forall|i: int| 0 <= i < r@.len() ==> (#[trigger] r@[i]).commit_by@ == commit_by@,
    {
        let wanted = commit_by.to_owned();
        let n = self.repos.len();
        let mut out: Vec<&Repo> = Vec::new();
        let ghost pred = |k: Seq<char>| self@.contains_key(k) && self@[k].commit_by@ == commit_by@;
        let mut i: usize = 0;
        proof {
            assert(self.order().take(0) =~= Seq::<Seq<char>>::empty());
            Seq::<Seq<char>>::empty().lemma_filter_len(pred);
        }
        while i < n
            invariant
                self.wf(),
                wanted@ == commit_by@,
                n == self.order().len(),
                i <= n,
                pred == (|k: Seq<char>| self@.contains_key(k) && self@[k].commit_by@ == commit_by@),
                out@.len() == self.order().take(i as int).filter(pred).len(),
                forall|j: int|
                    0 <= j < out@.len() ==> *(#[trigger] out@[j]) == self@[self.order().take(
                        i as int,
                    ).filter(pred)[j]] && out@[j].commit_by@ == commit_by@,
            decreases n - i,
        {
            let repo = self.repos.value_at(i);
            proof {
                let prefix = self.order().take(i as int);
                assert(self.order().take(i + 1) =~= prefix.push(self.order()[i as int]));
                prefix.lemma_filter_push(self.order()[i as int], pred);
            }
            if repo.commit_by == wanted {
                out.push(repo);
            }
            i += 1;
        }
        proof {
            assert(self.order().take(n as int) =~= self.order());
        }
        out
    }

    /// Takes every repository that the profile `owner` owns out of the store,
    /// and says how many went.
    pub fn remove_by_owner(&mut self, owner: &str) -> (count: usize)
        requires
            old(self).wf(),
        ensures
            final(self).wf(),
            final(self)@ == without_owner(old(self)@, owner@),
            count == old(self)@.dom().len() - final(self)@.dom().len(),
    {
        let wanted = owner.to_owned();
        let ghost before = *self;
        let total = self.repos.len();
        let mut i: usize = 0;
        while i < self.repos.len()
            invariant
                self.wf(),
                wanted@ == owner@,
                i <= self.order().len(),
                self.order().len() <= total,
                forall|k: Seq<char>| #[trigger]
                    self@.contains_key(k) ==> before@.contains_key(k) && self@[k] == before@[k],
                forall|k: Seq<char>|
                    before@.contains_key(k) && before@[k].commit_by@ != owner@
                        ==> #[trigger] self@.contains_key(k),
                forall|j: int|
                    0 <= j < i ==> self@[#[trigger] self.order()[j]].commit_by@ != owner@,
            decreases self.order().len() - i,
        {
            proof {
                self.lemma_order();
            }
            if self.repos.value_at(i).commit_by == wanted {
                let key = self.repos.key_at(i).clone();
                let ghost mid = *self;
                proof {
                    assert(mid.order().index_of(key@) == i) by {
                        let w = mid.order().index_of(key@);
                        assert(mid.order()[w] == key@);
                    }
                }
                let _gone = self.repos.remove(key.as_str());
                proof {
                    assert forall|j: int| 0 <= j < i implies self@[#[trigger] self.order()[j]].commit_by@
                        != owner@ by {
                        assert(self.order()[j] == mid.order()[j]);
                        assert(mid.order()[j] != key@);
                    }
                }
            } else {
                i += 1;
            }
        }
        proof {
            self.lemma_order();
            assert forall|k: Seq<char>| self@.contains_key(k) implies before@[k].commit_by@
                != owner@ by {
                assert(self.order().to_set().contains(k));
                let j = self.order().index_of(k);
                assert(self.order()[j] == k);
            }
            assert(self@ =~= without_owner(before@, owner@));
        }
        let left = self.repos.len();
        total - left
    }
}

} // verus!
