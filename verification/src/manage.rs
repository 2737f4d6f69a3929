//! Looking after the two stores: finding and deleting repositories, deleting
//! a profile together with the repositories it owns, and the texts under
//! which owners are shown.

use crate::identity::{settings_for, profile_settings, settings_view, string_view, Setting};
use crate::repo::{without_owner, Repo, RepoStore};
use crate::store::{ConfigStore, GitConfig, UrlConfig};
use crate::text::texts;
use vstd::prelude::*;

verus! {

/// Whether the repository stored under `url` answers to `wanted`, which may
/// be its name or its URL.
pub open spec fn answers_to(m: Map<Seq<char>, Repo>, url: Seq<char>, wanted: Seq<char>) -> bool {
    m.contains_key(url) && (m[url].repo_name@ == wanted || url == wanted)
}

/// The first URL of `order` whose repository answers to `wanted`.
pub open spec fn first_answering(
    order: Seq<Seq<char>>,
    m: Map<Seq<char>, Repo>,
    wanted: Seq<char>,
) -> Option<Seq<char>>
    decreases order.len(),
{
    if order.len() == 0 {
        None
    } else if answers_to(m, order[0], wanted) {
        Some(order[0])
    } else {
        first_answering(order.drop_first(), m, wanted)
    }
}

/// The URL of the first repository, in listing order, that has `name` as its
/// name or as its URL.
pub fn find_repo(repos: &RepoStore, name: &str) -> (r: Option<String>)
    requires
        repos.wf(),
    ensures
        string_view(r) == first_answering(repos.order(), repos@, name@),
        r matches Some(u) ==> repos@.contains_key(u@),
{
    let wanted = name.to_owned();
    let all = repos.iter();
    let ghost order = repos.order();
    let mut i: usize = 0;
    proof {
        assert(order.skip(0) =~= order);
    }
    while i < all.len()
        invariant
            i <= all@.len(),
            wanted@ == name@,
            order == repos.order(),
            all@.len() == order.len(),
            forall|j: int|
                0 <= j < all@.len() ==> (#[trigger] all@[j]).0@ == order[j] && repos@.contains_key(
                    order[j],
                ) && *all@[j].1 == repos@[order[j]],
            first_answering(order, repos@, name@) == first_answering(
                order.skip(i as int),
                repos@,
                name@,
            ),
        decreases all@.len() - i,
    {
        let (url, repo) = all[i];
        proof {
            let rest = order.skip(i as int);
            assert(rest[0] == order[i as int]);
            assert(rest.drop_first() =~= order.skip(i + 1));
        }
        if repo.repo_name == wanted || *url == wanted {
            return Some(url.clone());
        }
        i += 1;
    }
    None
}

/// Deletes the repository that answers to `name` and returns it; without
/// one, the store stays as it is.
pub fn delete_repo(repos: &mut RepoStore, name: &str) -> (r: Option<Repo>)
    requires
        old(repos).wf(),
    ensures
        final(repos).wf(),
        match first_answering(old(repos).order(), old(repos)@, name@) {
            Some(url) => old(repos)@.contains_key(url) && r == Some(old(repos)@[url])
                && final(repos)@ == old(repos)@.remove(url),
            None => r is None && final(repos)@ == old(repos)@,
        },
{
    match find_repo(repos, name) {
        Some(url) => repos.remove_by_url(url.as_str()),
        None => None,
    }
}

/// The repositories that are left when the profile `name` is deleted: those
/// of other owners, provided that there is such a profile; all of them where
/// there is none.
pub open spec fn repos_after_delete(
    configs: Map<Seq<char>, GitConfig>,
    repos: Map<Seq<char>, Repo>,
    name: Seq<char>,
) -> Map<Seq<char>, Repo> {
    if configs.contains_key(name) {
        without_owner(repos, name)
    } else {
        repos
    }
}

/// Deletes the profile `name` and every repository that it owns, and says
/// how many repositories went. Without such a profile nothing changes.
pub fn delete_profile(configs: &mut ConfigStore, repos: &mut RepoStore, name: &str) -> (r: Option<
    usize,
>)
    requires
        old(configs).wf(),
        old(repos).wf(),
    ensures
        final(configs).wf(),
        final(repos).wf(),
        final(configs)@ == old(configs)@.remove(name@),
        final(repos)@ == repos_after_delete(old(configs)@, old(repos)@, name@),
        if old(configs)@.contains_key(name@) {
            r matches Some(count) && count == old(repos)@.dom().len() - final(repos)@.dom().len()
        } else {
            r is None
        },
{
    if configs.get(name).is_none() {
        proof {
            assert(configs@.remove(name@) =~= configs@);
        }
        return None;
    }
    let count = repos.remove_by_owner(name);
    let _gone = configs.remove(name);
    Some(count)
}

/// How the owner of a repository is shown in a listing.
pub open spec fn owner_text(configs: Map<Seq<char>, GitConfig>, owner: Seq<char>) -> Seq<char> {
    if configs.contains_key(owner) {
        configs[owner].user.name@ + " <"@ + configs[owner].user.email@ + ">"@
    } else {
        "(config not found)"@
    }
}

/// How the profile `owner` is shown beside a repository: the user's name
/// and email, or a remark where the profile is missing.
pub fn owner_info(configs: &ConfigStore, owner: &str) -> (r: String)
    requires
        configs.wf(),
    ensures
        r@ == owner_text(configs@, owner@),
{
    match configs.get(owner) {
        Some(c) => c.user.name.clone().concat(" <").concat(c.user.email.as_str()).concat(">"),
        None => "(config not found)".to_owned(),
    }
}

/// Stores `repo` and returns the settings that put its owner's profile in
/// force; none where the owner has no profile.
pub fn register(repos: &mut RepoStore, configs: &ConfigStore, repo: Repo) -> (r: Vec<Setting>)
    requires
        old(repos).wf(),
        configs.wf(),
    ensures
        final(repos).wf(),
        final(repos)@ == old(repos)@.insert(repo.url@, repo),
        settings_view(r@) == if configs@.contains_key(repo.commit_by@) {
            profile_settings(configs@[repo.commit_by@])
        } else {
            Seq::empty()
        },
{
    let settings = match configs.get(repo.commit_by.as_str()) {
        Some(c) => settings_for(c),
        None => {
            let none: Vec<Setting> = Vec::new();
            proof {
                assert(settings_view(none@) =~= Seq::<(Seq<char>, Seq<char>)>::empty());
            }
            none
        },
    };
    repos.add(repo);
    settings
}

/// The word under which a flag is listed.
pub open spec fn yes_no(on: bool) -> Seq<char> {
    if on {
        "yes"@
    } else {
        "no"@
    }
}

/// The lines that list the rewrite rules, one per rule.
pub open spec fn rewrite_text(urls: Seq<UrlConfig>) -> Seq<Seq<char>> {
    Seq::new(urls.len(), |i: int| "      "@ + urls[i].instead_of@ + " -> "@ + urls[i].pattern@)
}

/// The lines that list a profile: its name, the user's name and email, the
/// signing flag and, where there are any, the rewrite rules under a heading.
pub open spec fn profile_text(name: Seq<char>, config: GitConfig) -> Seq<Seq<char>> {
    seq![
        "  "@ + name + " "@,
        "    Name:     "@ + config.user.name@,
        "    Email:    "@ + config.user.email@,
        "    GPG Sign: "@ + yes_no(config.commit.gpgsign),
    ] + (if config.urls@.len() > 0 {
        seq!["    URL Rewrites:"@] + rewrite_text(config.urls@)
    } else {
        Seq::empty()
    })
}

/// The lines that list the profile `config` stored under `name`.
pub fn profile_lines(name: &str, config: &GitConfig) -> (r: Vec<String>)
    ensures
        texts(r@) == profile_text(name@, *config),
{
    let mut out: Vec<String> = Vec::new();
    out.push("  ".to_owned().concat(name).concat(" "));
    out.push("    Name:     ".to_owned().concat(config.user.name.as_str()));
    out.push("    Email:    ".to_owned().concat(config.user.email.as_str()));
    let word = if config.commit.gpgsign {
        "yes"
    } else {
        "no"
    };
    out.push("    GPG Sign: ".to_owned().concat(word));
    let ghost head = texts(out@);
    proof {
        assert(head =~= seq![
            "  "@ + name@ + " "@,
            "    Name:     "@ + config.user.name@,
            "    Email:    "@ + config.user.email@,
            "    GPG Sign: "@ + yes_no(config.commit.gpgsign),
        ]);
    }
    if config.urls.len() == 0 {
        proof {
            assert(texts(out@) =~= profile_text(name@, *config));
        }
        return out;
    }
    out.push("    URL Rewrites:".to_owned());
    let ghost top = texts(out@);
    proof {
        assert(top =~= head + seq!["    URL Rewrites:"@]);
        assert(texts(out@) =~= top + rewrite_text(config.urls@.take(0)));
    }
    let mut i: usize = 0;
    while i < config.urls.len()
        invariant
            i <= config.urls@.len(),
            texts(out@) == top + rewrite_text(config.urls@.take(i as int)),
        decreases config.urls@.len() - i,
    {
        let rule = &config.urls[i];
        let line = "      ".to_owned().concat(rule.instead_of.as_str()).concat(" -> ").concat(
            rule.pattern.as_str(),
        );
        let ghost before = texts(out@);
        out.push(line);
        proof {
            assert(texts(out@) =~= before.push(line@));
            assert(rewrite_text(config.urls@.take(i + 1)) =~= rewrite_text(
                config.urls@.take(i as int),
            ).push(line@));
        }
        i += 1;
    }
    proof {
        assert(config.urls@.take(config.urls@.len() as int) =~= config.urls@);
        assert(top + rewrite_text(config.urls@) =~= profile_text(name@, *config));
    }
    out
}

/// How a repository is shown in a menu: its name, then its URL in brackets.
pub open spec fn repo_label_text(repo: Repo) -> Seq<char> {
    repo.repo_name@ + " ("@ + repo.url@ + ")"@
}

/// How `repo` is shown in a menu.
pub fn repo_label(repo: &Repo) -> (r: String)
    ensures
        r@ == repo_label_text(*repo),
{
    repo.repo_name.clone().concat(" (").concat(repo.url.as_str()).concat(")")
}

/// The lines that list a repository: its name, its URL, and its owner with
/// the owner's name and email.
pub open spec fn repo_text(repo: Repo, configs: Map<Seq<char>, GitConfig>) -> Seq<Seq<char>> {
    seq![
        "  "@ + repo.repo_name@ + " "@,
        "    URL:   "@ + repo.url@,
        "    Owner: "@ + repo.commit_by@ + " ("@ + owner_text(configs, repo.commit_by@) + ")"@,
    ]
}

/// The lines that list `repo`.
pub fn repo_lines(repo: &Repo, configs: &ConfigStore) -> (r: Vec<String>)
    requires
        configs.wf(),
    ensures
        texts(r@) == repo_text(*repo, configs@),
{
    let mut out: Vec<String> = Vec::new();
    out.push("  ".to_owned().concat(repo.repo_name.as_str()).concat(" "));
    out.push("    URL:   ".to_owned().concat(repo.url.as_str()));
    let info = owner_info(configs, repo.commit_by.as_str());
    out.push(
        "    Owner: ".to_owned().concat(repo.commit_by.as_str()).concat(" (").concat(
            info.as_str(),
        ).concat(")"),
    );
    proof {
        assert(texts(out@) =~= repo_text(*repo, configs@));
    }
    out
}

} // verus!
