//! Setting up a repository that is not known yet: which question comes next,
//! and what each answer leads to.
//!
//! The questions themselves are asked elsewhere. This module holds the state
//! between two questions and decides, for each answer, what changes and what
//! is asked or done next.

use crate::identity::{first_settings, initial_settings, settings_view, Setting};
use crate::repo::Repo;
use crate::store::{CommitConfig, ConfigStore, GitConfig, UrlConfig, UserConfig};
use crate::text::{chars_of, slice_of, string_of, texts};
use vstd::prelude::*;

verus! {

/// The last entry of the owner menu.
pub const CREATE_NEW: &'static str = "+ Create new profile";

/// Where the first character after the last `/` of `s` stands.
pub open spec fn segment_start(s: Seq<char>) -> int
    decreases s.len(),
{
    if s.len() == 0 {
        0
    } else if s.last() == '/' {
        s.len() as int
    } else {
        segment_start(s.drop_last())
    }
}

/// Whether `s` ends with `.git`.
pub open spec fn ends_with_git(s: Seq<char>) -> bool {
    s.len() >= 4 && s[s.len() - 4] == '.' && s[s.len() - 3] == 'g' && s[s.len() - 2] == 'i' && s[s.len()
        - 1] == 't'
}

/// `s` without any `.git` at its end, however often it is repeated.
pub open spec fn without_git(s: Seq<char>) -> Seq<char>
    decreases s.len(),
{
    if ends_with_git(s) {
        without_git(s.take(s.len() - 4))
    } else {
        s
    }
}

/// The name offered for a repository: what follows the last `/` of its URL,
/// without `.git` at the end.
pub open spec fn default_name(url: Seq<char>) -> Seq<char> {
    without_git(url.skip(segment_start(url)))
}

/// The name offered for the repository at `url`.
pub fn default_repo_name(url: &str) -> (r: String)
    ensures
        r@ == default_name(url@),
{
    let v = chars_of(url);
    let mut n: usize = v.len();
    proof {
        assert(v@.take(n as int) =~= v@);
    }
    while n > 0 && v[n - 1] != '/'
        invariant
            n <= v@.len(),
            segment_start(v@) == segment_start(v@.take(n as int)),
        decreases n,
    {
        proof {
            let cur = v@.take(n as int);
            assert(cur.last() == v@[n - 1]);
            assert(cur.drop_last() =~= v@.take(n - 1));
        }
        n -= 1;
    }
    proof {
        let cur = v@.take(n as int);
        if n > 0 {
            assert(cur.last() == v@[n - 1]);
        }
        assert(segment_start(cur) == n);
    }
    let seg = slice_of(&v, n, v.len());
    proof {
        assert(seg@ =~= url@.skip(segment_start(url@)));
    }
    let mut end: usize = seg.len();
    proof {
        assert(seg@.take(end as int) =~= seg@);
    }
    while end >= 4 && seg[end - 4] == '.' && seg[end - 3] == 'g' && seg[end - 2] == 'i' && seg[end
        - 1] == 't'
        invariant
            end <= seg@.len(),
            without_git(seg@) == without_git(seg@.take(end as int)),
        decreases end,
    {
        proof {
            let cur = seg@.take(end as int);
            assert(ends_with_git(cur));
            assert(cur.take(cur.len() - 4) =~= seg@.take(end - 4));
        }
        end -= 4;
    }
    proof {
        let cur = seg@.take(end as int);
        assert(!ends_with_git(cur));
        assert(seg@.subrange(0, end as int) =~= cur);
    }
    let name = slice_of(&seg, 0, end);
    string_of(&name)
}

/// How a profile is shown in a menu: its name, then the user's name and
/// email. A name without a profile is shown alone.
pub open spec fn label(configs: Map<Seq<char>, GitConfig>, profile: Seq<char>) -> Seq<char> {
    if configs.contains_key(profile) {
        profile + " - "@ + configs[profile].user.name@ + " <"@ + configs[profile].user.email@
            + ">"@
    } else {
        profile
    }
}

/// The owner menu: one entry per profile, then the entry that creates one.
pub open spec fn menu(configs: Map<Seq<char>, GitConfig>, profiles: Seq<Seq<char>>) -> Seq<
    Seq<char>,
> {
    Seq::new(
        profiles.len() + 1,
        |i: int|
            if i < profiles.len() {
                label(configs, profiles[i])
            } else {
                CREATE_NEW@
            },
    )
}

/// How `profile` is shown in a menu.
pub fn profile_label(configs: &ConfigStore, profile: &str) -> (r: String)
    requires
        configs.wf(),
    ensures
        r@ == label(configs@, profile@),
{
    match configs.get(profile) {
        Some(c) => profile.to_owned().concat(" - ").concat(c.user.name.as_str()).concat(
            " <",
        ).concat(c.user.email.as_str()).concat(">"),
        None => profile.to_owned(),
    }
}

/// The entries of the owner menu for `profiles`.
pub fn owner_menu(configs: &ConfigStore, profiles: &Vec<String>) -> (r: Vec<String>)
    requires
        configs.wf(),
    ensures
        texts(r@) == menu(configs@, texts(profiles@)),
{
    let mut out: Vec<String> = Vec::new();
    let mut i: usize = 0;
    while i < profiles.len()
        invariant
            configs.wf(),
            i <= profiles@.len(),
            out@.len() == i,
            forall|j: int| 0 <= j < i ==> (#[trigger] out@[j])@ == label(configs@, profiles@[j]@),
        decreases profiles@.len() - i,
    {
        out.push(profile_label(configs, profiles[i].as_str()));
        i += 1;
    }
    out.push(CREATE_NEW.to_owned());
    proof {
        assert(texts(out@) =~= menu(configs@, texts(profiles@)));
    }
    out
}

/// Whether `c` is the profile made of the three answers: no sign-off, no
/// rewrite rules.
pub open spec fn is_new_profile(
    c: GitConfig,
    user_name: Seq<char>,
    user_email: Seq<char>,
    gpgsign: bool,
) -> bool {
    &&& c.user.name@ == user_name
    &&& c.user.email@ == user_email
    &&& c.user.signoff is None
    &&& c.urls@ == Seq::<UrlConfig>::empty()
    &&& c.commit.gpgsign == gpgsign
}

/// The profile made of the three answers.
pub fn new_profile(user_name: &str, user_email: &str, gpgsign: bool) -> (r: GitConfig)
    ensures
        is_new_profile(r, user_name@, user_email@, gpgsign),
{
    GitConfig {
        user: UserConfig { name: user_name.to_owned(), email: user_email.to_owned(), signoff: None },
        urls: Vec::new(),
        commit: CommitConfig { gpgsign },
    }
}

/// Where the setting up stands: what the next answer is an answer to.
#[derive(Debug)]
pub enum Stage {
    /// There was no profile at all: the first one is being asked for.
    FirstProfile,
    /// Whether the repository is to be registered.
    Confirm,
    /// The name of the repository.
    Naming,
    /// The choice from the owner menu.
    Choosing,
    /// A new profile, chosen from the menu, is being asked for.
    NewProfile,
    /// Nothing more is asked.
    Done,
}

/// The state between two questions.
#[derive(Debug)]
pub struct Provisioning {
    pub stage: Stage,
    /// The remote URL of the repository.
    pub url: String,
    /// The profiles offered as owners, in menu order.
    pub profiles: Vec<String>,
    /// The name given to the repository, once it was asked for.
    pub repo_name: String,
}

/// An answer from the user.
#[derive(Debug)]
pub enum Answer {
    Profile { profile_name: String, user_name: String, user_email: String, gpgsign: bool },
    Confirm(bool),
    RepoName(String),
    Owner(usize),
}

/// What is to be asked or done next.
#[derive(Debug)]
pub enum Request {
    /// Ask for a profile: its name, the user's name and email, and whether
    /// commits are signed.
    AskProfile,
    /// Ask whether the repository is to be registered.
    AskConfirm,
    /// Ask for the repository's name, offering `default`.
    AskRepoName { default: String },
    /// Ask for the owner, offering `items`.
    AskOwner { items: Vec<String> },
    /// Store `repo`, put its owner's profile in force and stop the commit.
    Register { repo: Repo },
    /// The user declined: let the commit go on.
    Skip,
    /// The answer does not fit the question: nothing has changed.
    Invalid,
}

/// The result of one answer.
#[derive(Debug)]
pub struct Step {
    /// Where the answer created a profile: the settings that put it in force
    /// at once. The profile store is then to be saved.
    pub created: Option<Vec<Setting>>,
    pub request: Request,
}

/// Whether `answer` is an answer to the question that `stage` waits on;
/// `choices` is the number of profiles in the owner menu.
pub open spec fn fits(stage: Stage, answer: Answer, choices: nat) -> bool {
    match (stage, answer) {
        (Stage::FirstProfile, Answer::Profile { .. }) => true,
        (Stage::NewProfile, Answer::Profile { .. }) => true,
        (Stage::Confirm, Answer::Confirm(_)) => true,
        (Stage::Naming, Answer::RepoName(_)) => true,
        (Stage::Choosing, Answer::Owner(i)) => i <= choices,
        _ => false,
    }
}

/// Whether `repo` is made of the three fields.
pub open spec fn is_repo(repo: Repo, repo_name: Seq<char>, url: Seq<char>, owner: Seq<char>) -> bool {
    repo.repo_name@ == repo_name && repo.url@ == url && repo.commit_by@ == owner
}

impl Provisioning {
    /// Starts the setting up of the repository at `url`. With no profile in
    /// the store the first question asks for one; else it asks whether the
    /// repository is to be registered.
    pub fn begin(configs: &ConfigStore, url: &str) -> (r: (Provisioning, Request))
        requires
            configs.wf(),
        ensures
            r.0.url@ == url@,
            r.0.repo_name@ == Seq::<char>::empty(),
            texts(r.0.profiles@) == configs.order(),
            configs@.dom().len() == 0 ==> r.0.stage is FirstProfile && r.1 is AskProfile,
            configs@.dom().len() > 0 ==> r.0.stage is Confirm && r.1 is AskConfirm,
    {
        let listed = configs.list();
        proof {
            configs.lemma_order();
        }
        let mut profiles: Vec<String> = Vec::new();
        let mut i: usize = 0;
        while i < listed.len()
            invariant
                i <= listed@.len(),
                profiles@.len() == i,
                forall|j: int| 0 <= j < i ==> (#[trigger] profiles@[j])@ == listed@[j]@,
            decreases listed@.len() - i,
        {
            profiles.push(listed[i].clone());
            i += 1;
        }
        proof {
            assert(texts(profiles@) =~= configs.order());
        }
        if profiles.len() == 0 {
            (
                Provisioning {
                    stage: Stage::FirstProfile,
                    url: url.to_owned(),
                    profiles,
                    repo_name: String::new(),
                },
                Request::AskProfile,
            )
        } else {
            (
                Provisioning {
                    stage: Stage::Confirm,
                    url: url.to_owned(),
                    profiles,
                    repo_name: String::new(),
                },
                Request::AskConfirm,
            )
        }
    }

    /// Takes one answer. An answer that does not fit the question changes
    /// nothing. A profile answer stores the new profile, replacing one of the
    /// same name.
    pub fn advance(&mut self, answer: Answer, configs: &mut ConfigStore) -> (step: Step)
        requires
            old(configs).wf(),
        ensures
            final(configs).wf(),
            final(self).url == old(self).url,
            !fits(old(self).stage, answer, old(self).profiles@.len()) ==> *final(self) == *old(self)
                && *final(configs) == *old(configs) && step.request is Invalid && step.created is None,
            fits(old(self).stage, answer, old(self).profiles@.len()) ==> match answer {
                Answer::Profile { profile_name, user_name, user_email, gpgsign } => {
                    &&& final(configs)@ == old(configs)@.insert(
                        profile_name@,
                        final(configs)@[profile_name@],
                    )
                    &&& is_new_profile(
                        final(configs)@[profile_name@],
                        user_name@,
                        user_email@,
                        gpgsign,
                    )
                    &&& step.created matches Some(s) && settings_view(s@) == initial_settings(
                        final(configs)@[profile_name@],
                    )
                    &&& final(self).repo_name == old(self).repo_name
                    &&& if old(self).stage is FirstProfile {
                        &&& final(self).stage is Confirm
                        &&& texts(final(self).profiles@) == texts(old(self).profiles@).push(
                            profile_name@,
                        )
                        &&& step.request is AskConfirm
                    } else {
                        &&& final(self).stage is Done
                        &&& final(self).profiles == old(self).profiles
                        &&& step.request matches Request::Register { repo } && is_repo(
                            repo,
                            old(self).repo_name@,
                            old(self).url@,
                            profile_name@,
                        )
                    }
                },
                Answer::Confirm(yes) => {
                    &&& *final(configs) == *old(configs)
                    &&& step.created is None
                    &&& final(self).profiles == old(self).profiles
                    &&& final(self).repo_name == old(self).repo_name
                    &&& if yes {
                        &&& final(self).stage is Naming
                        &&& step.request matches Request::AskRepoName { default } && default@
                            == default_name(old(self).url@)
                    } else {
                        final(self).stage is Done && step.request is Skip
                    }
                },
                Answer::RepoName(name) => {
                    &&& *final(configs) == *old(configs)
                    &&& step.created is None
                    &&& final(self).profiles == old(self).profiles
                    &&& final(self).repo_name@ == name@
                    &&& final(self).stage is Choosing
                    &&& step.request matches Request::AskOwner { items } && texts(items@) == menu(
                        old(configs)@,
                        texts(old(self).profiles@),
                    )
                },
                Answer::Owner(choice) => {
                    &&& *final(configs) == *old(configs)
                    &&& step.created is None
                    &&& final(self).profiles == old(self).profiles
                    &&& final(self).repo_name == old(self).repo_name
                    &&& if choice == old(self).profiles@.len() {
                        final(self).stage is NewProfile && step.request is AskProfile
                    } else {
                        &&& final(self).stage is Done
                        &&& step.request matches Request::Register { repo } && is_repo(
                            repo,
                            old(self).repo_name@,
                            old(self).url@,
                            old(self).profiles@[choice as int]@,
                        )
                    }
                },
            },
    {
        match answer {
            Answer::Profile { profile_name, user_name, user_email, gpgsign } => {
                let first = match self.stage {
                    Stage::FirstProfile => true,
                    Stage::NewProfile => false,
                    _ => { return Step { created: None, request: Request::Invalid }; },
                };
                let config = new_profile(user_name.as_str(), user_email.as_str(), gpgsign);
                let settings = first_settings(&config);
                configs.add(profile_name.as_str(), config);
                if first {
                    let ghost before = texts(self.profiles@);
                    self.profiles.push(profile_name);
                    self.stage = Stage::Confirm;
                    proof {
                        assert(texts(self.profiles@) =~= before.push(profile_name@));
                    }
                    Step { created: Some(settings), request: Request::AskConfirm }
                } else {
                    self.stage = Stage::Done;
                    let repo = Repo {
                        repo_name: self.repo_name.clone(),
                        url: self.url.clone(),
                        commit_by: profile_name,
                    };
                    Step { created: Some(settings), request: Request::Register { repo } }
                }
            },
            Answer::Confirm(yes) => {
                match self.stage {
                    Stage::Confirm => {},
                    _ => { return Step { created: None, request: Request::Invalid }; },
                }
                if yes {
                    self.stage = Stage::Naming;
                    let default = default_repo_name(self.url.as_str());
                    Step { created: None, request: Request::AskRepoName { default } }
                } else {
                    self.stage = Stage::Done;
                    Step { created: None, request: Request::Skip }
                }
            },
            Answer::RepoName(name) => {
                match self.stage {
                    Stage::Naming => {},
                    _ => { return Step { created: None, request: Request::Invalid }; },
                }
                self.repo_name = name;
                self.stage = Stage::Choosing;
                let items = owner_menu(configs, &self.profiles);
                Step { created: None, request: Request::AskOwner { items } }
            },
            Answer::Owner(choice) => {
                match self.stage {
                    Stage::Choosing => {},
                    _ => { return Step { created: None, request: Request::Invalid }; },
                }
                if choice > self.profiles.len() {
                    return Step { created: None, request: Request::Invalid };
                }
                if choice == self.profiles.len() {
                    self.stage = Stage::NewProfile;
                    Step { created: None, request: Request::AskProfile }
                } else {
                    self.stage = Stage::Done;
                    let repo = Repo {
                        repo_name: self.repo_name.clone(),
                        url: self.url.clone(),
                        commit_by: self.profiles[choice].clone(),
                    };
                    Step { created: None, request: Request::Register { repo } }
                }
            },
        }
    }
}

/// The exit status with which the setting up ends: it stops the commit
/// once the repository has been registered, and lets it go on once the user
/// has declined. While questions are open there is none.
pub open spec fn end_status(request: Request) -> Option<int> {
    match request {
        Request::Register { .. } => Some(1),
        Request::Skip => Some(0),
        _ => None,
    }
}

/// The exit status that `request` ends the pre-commit check with, if it
/// ends it.
pub fn final_status(request: &Request) -> (r: Option<i32>)
    ensures
        match r {
            Some(code) => end_status(*request) == Some(code as int),
            None => end_status(*request) is None,
        },
{
    match request {
        Request::Register { .. } => Some(1),
        Request::Skip => Some(0),
        _ => None,
    }
}

} // verus!
