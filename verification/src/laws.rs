//! Laws that hold across the operations of the stores and of the pre-commit
//! check.

use crate::assoc::{entries, loaded};
use crate::identity::{
    identity_matches, identity_needed, is_verdict, status_of, written, Verdict,
};
use crate::manage::repos_after_delete;
use crate::repo::{keyed, Repo, RepoStore};
use crate::store::{ConfigStore, GitConfig};
use vstd::prelude::*;

verus! {

/// A profile stored under a name is the profile found under that name,
/// whatever the store held before.
pub proof fn law_add_then_get(store: Map<Seq<char>, GitConfig>, name: Seq<char>, cfg: GitConfig)
    ensures
        store.insert(name, cfg).contains_key(name),
        store.insert(name, cfg)[name] == cfg,
{
}

/// A URL that was never added has no owner: a store filled by any sequence
/// of additions holds no URL but those added.
pub proof fn law_unknown_url_has_no_owner(repos: Seq<Repo>, url: Seq<char>)
    requires
        forall|i: int| 0 <= i < repos.len() ==> (#[trigger] repos[i]).url@ != url,
    ensures
        !loaded(keyed(repos)).contains_key(url),
    decreases repos.len(),
{
    if repos.len() > 0 {
        let head = repos.drop_last();
        assert forall|i: int| 0 <= i < head.len() implies (#[trigger] head[i]).url@ != url by {
            assert(head[i] == repos[i]);
        }
        law_unknown_url_has_no_owner(head, url);
        assert(keyed(repos).drop_last() =~= keyed(head));
        assert(keyed(repos).last() == (repos[repos.len() - 1].url@, repos[repos.len() - 1]));
    }
}

/// Deleting a profile takes its repositories along: a repository added for
/// an owner is gone once that owner's profile, if the store holds it, has
/// been deleted. No repository of the deleted profile is left at all, and
/// those of other owners stay as they were.
pub proof fn law_delete_cascades(
    configs: Map<Seq<char>, GitConfig>,
    repos: Map<Seq<char>, Repo>,
    repo: Repo,
    owner: Seq<char>,
)
    requires
        configs.contains_key(owner),
        repo.commit_by@ == owner,
    ensures
        !repos_after_delete(configs, repos.insert(repo.url@, repo), owner).contains_key(repo.url@),
        forall|k: Seq<char>| #[trigger]
            repos_after_delete(configs, repos, owner).contains_key(k) ==> repos[k].commit_by@
                != owner,
        forall|k: Seq<char>|
            repos.contains_key(k) && repos[k].commit_by@ != owner ==> #[trigger] repos_after_delete(
                configs,
                repos,
                owner,
            ).contains_key(k) && repos_after_delete(configs, repos, owner)[k] == repos[k],
{
}

proof fn lemma_loaded_prefix<V>(order: Seq<Seq<char>>, m: Map<Seq<char>, V>, n: int)
    requires
        0 <= n <= order.len(),
    ensures
        loaded(entries(order, m).take(n)) == Map::new(
            |k: Seq<char>| order.take(n).contains(k),
            |k: Seq<char>| m[k],
        ),
    decreases n,
{
    let list = entries(order, m).take(n);
    let target = Map::new(|k: Seq<char>| order.take(n).contains(k), |k: Seq<char>| m[k]);
    if n == 0 {
        assert(loaded(list) =~= target);
    } else {
        lemma_loaded_prefix(order, m, n - 1);
        assert(list.drop_last() =~= entries(order, m).take(n - 1));
        assert(list.last() == (order[n - 1], m[order[n - 1]]));
        assert forall|k: Seq<char>| order.take(n).contains(k) <==> (order.take(n - 1).contains(k)
            || k == order[n - 1]) by {
            if order.take(n).contains(k) {
                let i = order.take(n).index_of(k);
                assert(order.take(n)[i] == k);
                if i < n - 1 {
                    assert(order.take(n - 1)[i] == k);
                }
            }
            if order.take(n - 1).contains(k) {
                let i = order.take(n - 1).index_of(k);
                assert(order.take(n - 1)[i] == k);
                assert(order.take(n)[i] == k);
            }
            if k == order[n - 1] {
                assert(order.take(n)[n - 1] == k);
            }
        }
        assert(loaded(list) =~= target);
    }
}

/// Writing a store out as the list of its entries and reading that list
/// back, entry by entry, gives the store again. `order` is any listing that
/// names every key of the store.
pub proof fn law_entries_round_trip<V>(order: Seq<Seq<char>>, m: Map<Seq<char>, V>)
    requires
        order.to_set() == m.dom(),
    ensures
        loaded(entries(order, m)) == m,
{
    lemma_loaded_prefix(order, m, order.len() as int);
    assert(entries(order, m).take(order.len() as int) =~= entries(order, m));
    assert(order.take(order.len() as int) =~= order);
    assert forall|k: Seq<char>| order.contains(k) <==> m.contains_key(k) by {
        assert(order.to_set().contains(k) <==> order.contains(k));
    }
    assert(loaded(entries(order, m)) =~= m);
}

/// A profile store written out as the list that `iter` gives and read back
/// by `from_entries` is the same store.
pub proof fn law_profiles_round_trip(store: ConfigStore)
    requires
        store.wf(),
    ensures
        loaded(entries(store.order(), store@)) == store@,
{
    store.lemma_order();
    law_entries_round_trip(store.order(), store@);
}

/// A repository store written out as the list that `iter` gives and read
/// back by `from_entries` is the same store.
pub proof fn law_repos_round_trip(store: RepoStore)
    requires
        store.wf(),
    ensures
        loaded(entries(store.order(), store@)) == store@,
{
    store.lemma_order();
    law_entries_round_trip(store.order(), store@);
}

/// While the identity in force is that of the owning profile, the check
/// finds a match: it writes no setting and ends with status zero, so the
/// commit goes on; and it does so again on every further run, since the
/// stores are only read.
pub proof fn law_matching_identity_is_left_alone(
    v: Verdict,
    repos: Map<Seq<char>, Repo>,
    configs: Map<Seq<char>, GitConfig>,
    url: Seq<char>,
    name: Option<Seq<char>>,
    email: Option<Seq<char>>,
)
    requires
        is_verdict(v, repos, configs, url, name, email),
        identity_matches(repos, configs, url, name, email),
    ensures
        v is Matches,
        status_of(v) == Some(0int),
        written(v) == Seq::<(Seq<char>, Seq<char>)>::empty(),
{
}

/// Where the repository is unknown or its owner has no profile, the verdict
/// is the same whatever name and email are in force.
pub proof fn law_verdict_without_identity(
    v: Verdict,
    repos: Map<Seq<char>, Repo>,
    configs: Map<Seq<char>, GitConfig>,
    url: Seq<char>,
    name: Option<Seq<char>>,
    email: Option<Seq<char>>,
    other_name: Option<Seq<char>>,
    other_email: Option<Seq<char>>,
)
    requires
        !identity_needed(repos, configs, url),
        is_verdict(v, repos, configs, url, name, email),
    ensures
        v is Unknown || v is Dangling,
        is_verdict(v, repos, configs, url, other_name, other_email),
{
}

/// Two runs of the check on the same stores and the same identity come to
/// the same kind of verdict, the same status and the same settings.
pub proof fn law_verdict_is_determined(
    v: Verdict,
    w: Verdict,
    repos: Map<Seq<char>, Repo>,
    configs: Map<Seq<char>, GitConfig>,
    url: Seq<char>,
    name: Option<Seq<char>>,
    email: Option<Seq<char>>,
)
    requires
        is_verdict(v, repos, configs, url, name, email),
        is_verdict(w, repos, configs, url, name, email),
    ensures
        v is Unknown <==> w is Unknown,
        v is Dangling <==> w is Dangling,
        v is Matches <==> w is Matches,
        v is Apply <==> w is Apply,
        status_of(v) == status_of(w),
        written(v) == written(w),
{
}

} // verus!
