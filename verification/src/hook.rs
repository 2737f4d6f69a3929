//! The section that this tool keeps inside the global pre-commit hook script:
//! putting it in, and taking it out again.

use crate::identity::text_of;
use crate::text::{
    begins_with, chars_of, contains, includes, lines, occurs_at, split_lines, stands_at, starts_with,
    string_of, trim, trim_end, trimmed, trimmed_end, views,
};
use vstd::prelude::*;

verus! {

/// The line that opens the section.
pub const MARKER_START: &'static str = "# >>> gamm";

/// The line that closes the section.
pub const MARKER_END: &'static str = "# <<< gamm";

/// The section itself, markers included.
pub const HOOK_SECTION: &'static str =
    "# >>> gamm\n\nREMOTE_URL=$(git remote get-url origin 2>/dev/null || true)\n[ -z \"$REMOTE_URL\" ] && exit 0\n\necho \"gamm: checking ...\"\ngamm pre-commit --repo \"$REMOTE_URL\"\n# <<< gamm";

/// How a script without the section begins when this tool has to create it.
pub const SCRIPT_HEAD: &'static str = "#!/bin/sh\nset -e\n\n";

/// The script with the section put in: `None` where `existing` already holds
/// the opening marker, so that nothing is to be written. A script that does
/// not exist yet starts with the interpreter line; an existing one keeps its
/// text, without the white space at its end, and gets the section after an
/// empty line.
pub open spec fn installed_text(existing: Option<Seq<char>>) -> Option<Seq<char>> {
    match existing {
        None => Some(SCRIPT_HEAD@ + HOOK_SECTION@ + "\n"@),
        Some(e) => if contains(e, MARKER_START@) {
            None
        } else {
            Some(trim_end(e) + "\n\n"@ + HOOK_SECTION@ + "\n"@)
        },
    }
}

/// The new text of the hook script, given its present text if the file
/// exists; `None` when the section is already there.
pub fn install(existing: Option<&str>) -> (r: Option<String>)
    ensures
        match r {
            Some(t) => installed_text(text_of(existing)) == Some(t@),
            None => installed_text(text_of(existing)) is None,
        },
{
    match existing {
        None => {
            let t = SCRIPT_HEAD.to_owned().concat(HOOK_SECTION).concat("\n");
            Some(t)
        },
        Some(e) => {
            let v = chars_of(e);
            let marker = chars_of(MARKER_START);
            if includes(&v, &marker) {
                None
            } else {
                let kept = trimmed_end(&v);
                let t = string_of(&kept).concat("\n\n").concat(HOOK_SECTION).concat("\n");
                Some(t)
            }
        },
    }
}

/// The text of the lines that stay when the section goes: a line that is one
/// of the two markers, white space aside, goes; so does every line between
/// an opening marker and the next closing one. Each line that stays ends
/// with a line feed.
pub open spec fn kept_text(ls: Seq<Seq<char>>, inside: bool) -> Seq<char>
    decreases ls.len(),
{
    if ls.len() == 0 {
        Seq::empty()
    } else if trim(ls[0]) == MARKER_START@ {
        kept_text(ls.drop_first(), true)
    } else if trim(ls[0]) == MARKER_END@ {
        kept_text(ls.drop_first(), false)
    } else if inside {
        kept_text(ls.drop_first(), inside)
    } else {
        ls[0].push('\n') + kept_text(ls.drop_first(), inside)
    }
}

/// The script without the section and without the white space at its end.
pub open spec fn stripped_text(content: Seq<char>) -> Seq<char> {
    trim_end(kept_text(lines(content), false))
}

/// A line that alone is no reason to keep a script: an empty one, the
/// interpreter line, or the `set -e` line.
pub open spec fn is_boilerplate(line: Seq<char>) -> bool {
    trim(line).len() == 0 || starts_with(line, "#!"@) || starts_with(line, "set -e"@)
}

/// Whether every line of `ls` is boilerplate.
pub open spec fn only_boilerplate(ls: Seq<Seq<char>>) -> bool {
    forall|i: int| 0 <= i < ls.len() ==> is_boilerplate(#[trigger] ls[i])
}

/// What is to be done with the hook script when the section is taken out.
#[derive(Debug)]
pub enum Removal {
    /// The script does not hold the section: nothing is to be done.
    NotInstalled,
    /// Nothing but boilerplate is left: the file is to be deleted.
    DeleteFile,
    /// The file is to be written anew with this text.
    Rewrite(String),
}

fn same(a: &Vec<char>, b: &Vec<char>) -> (r: bool)
    ensures
        r == (a@ == b@),
{
    if a.len() != b.len() {
        return false;
    }
    let r = stands_at(a, b, 0);
    proof {
        assert(a@.subrange(0, a@.len() as int) =~= a@);
    }
    r
}

fn boilerplate(line: &Vec<char>) -> (r: bool)
    ensures
        r == is_boilerplate(line@),
{
    let t = trimmed(line);
    if t.len() == 0 {
        return true;
    }
    let bang = chars_of("#!");
    if begins_with(line, &bang) {
        return true;
    }
    let set_e = chars_of("set -e");
    begins_with(line, &set_e)
}

/// What is to be done with a hook script whose text is `content` so that the
/// section is gone from it.
pub fn remove_section(content: &str) -> (r: Removal)
    ensures
        match r {
            Removal::NotInstalled => !contains(content@, MARKER_START@),
            Removal::DeleteFile => contains(content@, MARKER_START@) && only_boilerplate(
                lines(stripped_text(content@)),
            ),
            Removal::Rewrite(t) => contains(content@, MARKER_START@) && !only_boilerplate(
                lines(stripped_text(content@)),
            ) && t@ == stripped_text(content@).push('\n'),
        },
{
    let v = chars_of(content);
    let start = chars_of(MARKER_START);
    let end = chars_of(MARKER_END);
    if !includes(&v, &start) {
        return Removal::NotInstalled;
    }
    let ls = split_lines(&v);
    let ghost all = lines(content@);
    let mut acc: Vec<char> = Vec::new();
    let mut inside = false;
    let mut i: usize = 0;
    proof {
        assert(all.skip(0) =~= all);
        assert(acc@ + kept_text(all, false) =~= kept_text(all, false));
    }
    while i < ls.len()
        invariant
            i <= ls@.len(),
            views(ls@) == all,
            start@ == MARKER_START@,
            end@ == MARKER_END@,
            kept_text(all, false) == acc@ + kept_text(all.skip(i as int), inside),
        decreases ls@.len() - i,
    {
        let ghost rest = all.skip(i as int);
        let ghost before = acc@;
        let ghost was = inside;
        proof {
            assert(rest[0] == ls@[i as int]@);
            assert(rest.drop_first() =~= all.skip(i + 1));
        }
        let t = trimmed(&ls[i]);
        if same(&t, &start) {
            inside = true;
        } else if same(&t, &end) {
            inside = false;
        } else if !inside {
            let line = &ls[i];
            let mut j: usize = 0;
            while j < line.len()
                invariant
                    j <= line@.len(),
                    acc@ == before + line@.take(j as int),
                decreases line@.len() - j,
            {
                acc.push(line[j]);
                proof {
                    assert(line@.take(j + 1) =~= line@.take(j as int).push(line@[j as int]));
                    assert(before + line@.take(j + 1) =~= (before + line@.take(j as int)).push(
                        line@[j as int],
                    ));
                }
                j += 1;
            }
            acc.push('\n');
            proof {
                assert(line@.take(line@.len() as int) =~= line@);
                assert(acc@ =~= before + rest[0].push('\n'));
                assert(acc@ + kept_text(all.skip(i + 1), inside) =~= before + (rest[0].push('\n')
                    + kept_text(rest.drop_first(), was)));
            }
        }
        i += 1;
    }
    proof {
        assert(all.skip(ls@.len() as int) =~= Seq::<Seq<char>>::empty());
        assert(acc@ + Seq::<char>::empty() =~= acc@);
    }
    let text = trimmed_end(&acc);
    let left = split_lines(&text);
    let mut k: usize = 0;
    let mut bare = true;
    while k < left.len()
        invariant
            k <= left@.len(),
            views(left@) == lines(text@),
            bare == (forall|m: int| 0 <= m < k ==> is_boilerplate(#[trigger] lines(text@)[m])),
        decreases left@.len() - k,
    {
        proof {
            assert(lines(text@)[k as int] == left@[k as int]@);
        }
        if !boilerplate(&left[k]) {
            bare = false;
        }
        k += 1;
    }
    if bare {
        Removal::DeleteFile
    } else {
        let mut out = string_of(&text);
        out.push('\n');
        Removal::Rewrite(out)
    }
}

/// The section begins with its opening marker.
pub proof fn lemma_section_opens_with_marker()
    ensures
        occurs_at(HOOK_SECTION@, MARKER_START@, 0),
{
    reveal_strlit("# >>> gamm");
    reveal_strlit(
        "# >>> gamm\n\nREMOTE_URL=$(git remote get-url origin 2>/dev/null || true)\n[ -z \"$REMOTE_URL\" ] && exit 0\n\necho \"gamm: checking ...\"\ngamm pre-commit --repo \"$REMOTE_URL\"\n# <<< gamm",
    );
    assert(HOOK_SECTION@.subrange(0, MARKER_START@.len() as int) =~= MARKER_START@);
}

/// Putting the section in is idempotent: a script that has just received the
/// section is not changed by putting it in again.
pub proof fn law_install_twice_changes_nothing(existing: Option<Seq<char>>)
    ensures
        installed_text(existing) matches Some(t) ==> installed_text(Some(t)) is None,
{
    if let Some(t) = installed_text(existing) {
        let head = match existing {
            None => SCRIPT_HEAD@,
            Some(e) => trim_end(e) + "\n\n"@,
        };
        assert(t =~= head + HOOK_SECTION@ + "\n"@);
        lemma_section_opens_with_marker();
        let m = MARKER_START@.len() as int;
        let at = head.len() as int;
        assert(t.subrange(at, at + m) =~= HOOK_SECTION@.subrange(0, m));
        assert(occurs_at(t, MARKER_START@, at));
    }
}

} // verus!
