//! The global git identity: reading what git reports, the settings that put a
//! profile in force, and the verdict on a repository about to be committed to.

use crate::repo::{Repo, RepoStore};
use crate::store::{ConfigStore, GitConfig, UrlConfig};
use crate::text::{chars_of, string_of, texts, trim, trimmed};
use vstd::prelude::*;

verus! {

/// One global git setting: `git config --global <key> <value>`.
#[derive(Debug)]
pub struct Setting {
    pub key: String,
    pub value: String,
}

/// A setting as a pair of character sequences.
pub open spec fn setting_view(s: Setting) -> (Seq<char>, Seq<char>) {
    (s.key@, s.value@)
}

/// The settings of `v` as pairs of character sequences.
pub open spec fn settings_view(v: Seq<Setting>) -> Seq<(Seq<char>, Seq<char>)> {
    Seq::new(v.len(), |i: int| setting_view(v[i]))
}

/// The view of an optional string.
pub open spec fn text_of(s: Option<&str>) -> Option<Seq<char>> {
    match s {
        Some(t) => Some(t@),
        None => None,
    }
}

/// The view of an optional owned string.
pub open spec fn string_view(s: Option<String>) -> Option<Seq<char>> {
    match s {
        Some(t) => Some(t@),
        None => None,
    }
}

/// What a query of a global setting yields: the output without the white
/// space around it, provided that git succeeded and printed anything else.
pub open spec fn reported_value(success: bool, output: Seq<char>) -> Option<Seq<char>> {
    if success && trim(output).len() > 0 {
        Some(trim(output))
    } else {
        None
    }
}

/// The value that git reported for a setting, from whether it succeeded and
/// what it printed.
pub fn read_value(success: bool, output: &str) -> (r: Option<String>)
    ensures
        string_view(r) == reported_value(success, output@),
{
    if !success {
        return None;
    }
    let v = chars_of(output);
    let t = trimmed(&v);
    if t.len() == 0 {
        None
    } else {
        Some(string_of(&t))
    }
}

/// The word git takes for a flag.
pub open spec fn flag_word(on: bool) -> Seq<char> {
    if on {
        "true"@
    } else {
        "false"@
    }
}

/// The key under which a rewrite rule is stored.
pub open spec fn rewrite_key(pattern: Seq<char>) -> Seq<char> {
    "url."@ + pattern + ".insteadOf"@
}

/// The settings that store the rewrite rules, one per rule, in order.
pub open spec fn rewrite_settings(urls: Seq<UrlConfig>) -> Seq<(Seq<char>, Seq<char>)> {
    Seq::new(urls.len(), |i: int| (rewrite_key(urls[i].pattern@), urls[i].instead_of@))
}

/// The settings written for a profile that was just created: name, email
/// and signing flag, whatever they hold.
pub open spec fn initial_settings(config: GitConfig) -> Seq<(Seq<char>, Seq<char>)> {
    seq![
        ("user.name"@, config.user.name@),
        ("user.email"@, config.user.email@),
        ("commit.gpgsign"@, flag_word(config.commit.gpgsign)),
    ]
}

/// The settings that put `config` in force: the name, the email and the
/// signing flag, whatever they hold, then one setting per rewrite rule.
pub open spec fn profile_settings(config: GitConfig) -> Seq<(Seq<char>, Seq<char>)> {
    seq![
        ("user.name"@, config.user.name@),
        ("user.email"@, config.user.email@),
        ("commit.gpgsign"@, flag_word(config.commit.gpgsign)),
    ] + rewrite_settings(config.urls@)
}

fn setting(key: &str, value: &str) -> (r: Setting)
    ensures
        setting_view(r) == (key@, value@),
{
    Setting { key: key.to_owned(), value: value.to_owned() }
}

fn flag(on: bool) -> (r: &'static str)
    ensures
        r@ == flag_word(on),
{
    if on {
        "true"
    } else {
        "false"
    }
}

/// The settings to write, in order, so that `config` is in force.
pub fn settings_for(config: &GitConfig) -> (r: Vec<Setting>)
    ensures
        settings_view(r@) == profile_settings(*config),
{
    let mut out = first_settings(config);
    let ghost head = settings_view(out@);
    proof {
        assert(settings_view(out@) =~= head + rewrite_settings(config.urls@.take(0)));
    }
    let mut i: usize = 0;
    while i < config.urls.len()
        invariant
            i <= config.urls@.len(),
            settings_view(out@) == head + rewrite_settings(config.urls@.take(i as int)),
        decreases config.urls@.len() - i,
    {
        let rule = &config.urls[i];
        let key = "url.".to_owned().concat(rule.pattern.as_str()).concat(".insteadOf");
        let ghost before = settings_view(out@);
        out.push(Setting { key, value: rule.instead_of.clone() });
        proof {
            assert(settings_view(out@) =~= before.push(
                (rewrite_key(rule.pattern@), rule.instead_of@),
            ));
            assert(rewrite_settings(config.urls@.take(i + 1)) =~= rewrite_settings(
                config.urls@.take(i as int),
            ).push((rewrite_key(rule.pattern@), rule.instead_of@)));
        }
        i += 1;
    }
    proof {
        assert(config.urls@.take(config.urls@.len() as int) =~= config.urls@);
    }
    out
}

/// The settings to write, in order, for a profile that was just created.
pub fn first_settings(config: &GitConfig) -> (r: Vec<Setting>)
    ensures
        settings_view(r@) == initial_settings(*config),
{
    let mut out: Vec<Setting> = Vec::new();
    out.push(setting("user.name", config.user.name.as_str()));
    out.push(setting("user.email", config.user.email.as_str()));
    out.push(setting("commit.gpgsign", flag(config.commit.gpgsign)));
    proof {
        assert(settings_view(out@) =~= initial_settings(*config));
    }
    out
}

/// What is to happen before a commit to a repository.
#[derive(Debug)]
pub enum Verdict {
    /// The repository is not known: it has to be set up first.
    Unknown,
    /// The repository names a profile that does not exist: warn, and let
    /// the commit go on.
    Dangling { owner: String },
    /// The identity in force is the owner's: let the commit go on.
    Matches { owner: String },
    /// The identity in force is not the owner's: write `settings`, then stop
    /// the commit so that it is made again under the right identity.
    Apply { owner: String, name_matches: bool, email_matches: bool, settings: Vec<Setting> },
}

/// Whether the value in force is the expected one. A value that is not set,
/// or is empty, matches nothing.
pub open spec fn in_force(current: Option<Seq<char>>, expected: Seq<char>) -> bool {
    current matches Some(c) && c.len() > 0 && c == expected
}

/// Whether the identity in force bears on what is decided. It does where
/// the repository is known and its owner has a profile; only then does git
/// have to be asked.
pub open spec fn identity_needed(
    repos: Map<Seq<char>, Repo>,
    configs: Map<Seq<char>, GitConfig>,
    url: Seq<char>,
) -> bool {
    repos.contains_key(url) && configs.contains_key(repos[url].commit_by@)
}

/// Whether the name and email in force are those of the profile that owns
/// the repository at `url`.
pub open spec fn identity_matches(
    repos: Map<Seq<char>, Repo>,
    configs: Map<Seq<char>, GitConfig>,
    url: Seq<char>,
    name: Option<Seq<char>>,
    email: Option<Seq<char>>,
) -> bool {
    &&& repos.contains_key(url)
    &&& configs.contains_key(repos[url].commit_by@)
    &&& in_force(name, configs[repos[url].commit_by@].user.name@)
    &&& in_force(email, configs[repos[url].commit_by@].user.email@)
}

/// Whether `v` is the verdict on a commit to the repository at `url` while
/// `name` and `email` are in force: unknown where the repository store does
/// not hold the URL; dangling where the owner has no profile; a match where
/// both name and email are the owner's; else the owner's settings are to be
/// applied.
pub open spec fn is_verdict(
    v: Verdict,
    repos: Map<Seq<char>, Repo>,
    configs: Map<Seq<char>, GitConfig>,
    url: Seq<char>,
    name: Option<Seq<char>>,
    email: Option<Seq<char>>,
) -> bool {
    match v {
        Verdict::Unknown => !repos.contains_key(url),
        Verdict::Dangling { owner } => {
            &&& repos.contains_key(url)
            &&& owner@ == repos[url].commit_by@
            &&& !configs.contains_key(owner@)
        },
        Verdict::Matches { owner } => {
            &&& owner@ == repos[url].commit_by@
            &&& identity_matches(repos, configs, url, name, email)
        },
        Verdict::Apply { owner, name_matches, email_matches, settings } => {
            &&& repos.contains_key(url)
            &&& owner@ == repos[url].commit_by@
            &&& configs.contains_key(owner@)
            &&& name_matches == in_force(name, configs[owner@].user.name@)
            &&& email_matches == in_force(email, configs[owner@].user.email@)
            &&& !(name_matches && email_matches)
            &&& settings_view(settings@) == profile_settings(configs[owner@])
        },
    }
}

/// The exit status that belongs to `v`, where `v` settles it: applying
/// settings stops the commit, a match or a dangling owner lets it go on. For
/// an unknown repository the setting up decides.
pub open spec fn status_of(v: Verdict) -> Option<int> {
    match v {
        Verdict::Unknown => None,
        Verdict::Apply { .. } => Some(1),
        _ => Some(0),
    }
}

/// The settings that are written when `v` is acted on.
pub open spec fn written(v: Verdict) -> Seq<(Seq<char>, Seq<char>)> {
    match v {
        Verdict::Apply { settings, .. } => settings_view(settings@),
        _ => Seq::empty(),
    }
}

fn is_in_force(current: Option<&str>, expected: &String) -> (r: bool)
    ensures
        r == in_force(text_of(current), expected@),
{
    match current {
        Some(c) => {
            let owned = c.to_owned();
            !c.is_empty() && owned == *expected
        },
        None => false,
    }
}

/// Whether the name and email in force have to be read before the verdict
/// on the repository at `url` can be given.
pub fn needs_identity(repos: &RepoStore, configs: &ConfigStore, url: &str) -> (r: bool)
    requires
        repos.wf(),
        configs.wf(),
    ensures
        r == identity_needed(repos@, configs@, url@),
{
    match repos.lookup_owner_by_url(url) {
        Some(owner) => configs.get(owner).is_some(),
        None => false,
    }
}

/// The verdict on a commit to the repository at `url`, given the name and
/// email that are in force. Only name and email are compared, each letter
/// for letter.
pub fn reconcile(
    repos: &RepoStore,
    configs: &ConfigStore,
    url: &str,
    current_name: Option<&str>,
    current_email: Option<&str>,
) -> (r: Verdict)
    requires
        repos.wf(),
        configs.wf(),
    ensures
        is_verdict(r, repos@, configs@, url@, text_of(current_name), text_of(current_email)),
{
    let owner = match repos.lookup_owner_by_url(url) {
        Some(o) => o,
        None => { return Verdict::Unknown; },
    };
    let config = match configs.get(owner) {
        Some(c) => c,
        None => { return Verdict::Dangling { owner: owner.to_owned() }; },
    };
    let email_matches = is_in_force(current_email, &config.user.email);
    let name_matches = is_in_force(current_name, &config.user.name);
    if email_matches && name_matches {
        Verdict::Matches { owner: owner.to_owned() }
    } else {
        Verdict::Apply {
            owner: owner.to_owned(),
            name_matches,
            email_matches,
            settings: settings_for(config),
        }
    }
}

/// The status with which the pre-commit check ends once the verdict has been
/// acted on, zero letting the commit go on; none for an unknown repository,
/// where the setting up decides.
pub fn exit_status(verdict: &Verdict) -> (r: Option<i32>)
    ensures
        match r {
            Some(code) => status_of(*verdict) == Some(code as int),
            None => status_of(*verdict) is None,
        },
{
    match verdict {
        Verdict::Unknown => None,
        Verdict::Apply { .. } => Some(1),
        _ => Some(0),
    }
}

/// The line that tells how one value will change: none where the value in
/// force is the expected one.
pub open spec fn change_text(what: Seq<char>, current: Option<Seq<char>>, expected: Seq<char>) -> Seq<
    Seq<char>,
> {
    match current {
        Some(c) => if in_force(current, expected) {
            Seq::empty()
        } else {
            seq!["  Current "@ + what + ": "@ + c + " (will change to: "@ + expected + ")"@]
        },
        None => seq!["  Current "@ + what + ": <not set> (will set to: "@ + expected + ")"@],
    }
}

/// The lines that tell how the identity will change: first the email, then
/// the name.
pub open spec fn mismatch_text(
    name: Option<Seq<char>>,
    email: Option<Seq<char>>,
    config: GitConfig,
) -> Seq<Seq<char>> {
    change_text("email"@, email, config.user.email@) + change_text(
        "name"@,
        name,
        config.user.name@,
    )
}

fn change_line(what: &str, current: Option<&str>, expected: &String) -> (r: Option<String>)
    ensures
        match r {
            Some(line) => change_text(what@, text_of(current), expected@) == seq![line@],
            None => change_text(what@, text_of(current), expected@) == Seq::<Seq<char>>::empty(),
        },
{
    match current {
        Some(c) => {
            if is_in_force(current, expected) {
                None
            } else {
                Some(
                    "  Current ".to_owned().concat(what).concat(": ").concat(c).concat(
                        " (will change to: ",
                    ).concat(expected.as_str()).concat(")"),
                )
            }
        },
        None => Some(
            "  Current ".to_owned().concat(what).concat(": <not set> (will set to: ").concat(
                expected.as_str(),
            ).concat(")"),
        ),
    }
}

/// The lines that tell the user how the identity in force differs from the
/// one of `config`.
pub fn mismatch_lines(current_name: Option<&str>, current_email: Option<&str>, config: &GitConfig) -> (r:
    Vec<String>)
    ensures
        texts(r@) == mismatch_text(text_of(current_name), text_of(current_email), *config),
{
    let mut out: Vec<String> = Vec::new();
    match change_line("email", current_email, &config.user.email) {
        Some(line) => { out.push(line); },
        None => {},
    }
    let ghost first = texts(out@);
    proof {
        assert(first =~= change_text("email"@, text_of(current_email), config.user.email@));
    }
    match change_line("name", current_name, &config.user.name) {
        Some(line) => { out.push(line); },
        None => {},
    }
    proof {
        assert(texts(out@) =~= first + change_text(
            "name"@,
            text_of(current_name),
            config.user.name@,
        ));
    }
    out
}

} // verus!
