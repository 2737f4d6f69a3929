use gamm::hook::{install, remove_section, Removal, HOOK_SECTION, MARKER_END, MARKER_START};
use gamm::text::{
    begins_with, chars_of, includes, space, split_lines, stands_at, string_of, trimmed,
    trimmed_end,
};

fn cs(s: &str) -> Vec<char> {
    s.chars().collect()
}

#[test]
fn chars_and_back() {
    assert_eq!(chars_of("héllo\n"), vec!['h', 'é', 'l', 'l', 'o', '\n']);
    assert_eq!(string_of(&vec!['a', 'ß', 'c']), "aßc");
    assert_eq!(string_of(&chars_of("")), "");
}

#[test]
fn white_space_is_what_unicode_says() {
    for c in ['\u{0}', ' ', '\t', '\n', '\u{b}', '\u{c}', '\r', '\u{85}', '\u{a0}', '\u{1680}',
        '\u{2000}', '\u{200a}', '\u{200b}', '\u{2028}', '\u{2029}', '\u{202f}', '\u{205f}',
        '\u{3000}', 'a', '\u{8}', '\u{e}', '\u{1fff}', '\u{feff}']
    {
        assert_eq!(space(c), c.is_whitespace());
    }
}

#[test]
fn trimming() {
    assert_eq!(string_of(&trimmed(&cs("  a b \t\n"))), "a b");
    assert_eq!(string_of(&trimmed_end(&cs("  a b \t\n"))), "  a b");
    assert_eq!(string_of(&trimmed(&cs(" \n "))), "");
    assert_eq!(string_of(&trimmed_end(&cs(""))), "");
    assert_eq!(string_of(&trimmed(&cs("x"))), "x");
}

#[test]
fn searching() {
    assert!(includes(&cs("abc # >>> gamm x"), &cs("# >>> gamm")));
    assert!(!includes(&cs("abc # >> gamm x"), &cs("# >>> gamm")));
    assert!(includes(&cs("abc"), &cs("")));
    assert!(includes(&cs("abc"), &cs("abc")));
    assert!(!includes(&cs("ab"), &cs("abc")));
    assert!(stands_at(&cs("abc"), &cs("bc"), 1));
    assert!(!stands_at(&cs("abc"), &cs("bc"), 2));
    assert!(!stands_at(&cs("abc"), &cs("bc"), 9));
    assert!(begins_with(&cs("#!/bin/sh"), &cs("#!")));
    assert!(!begins_with(&cs(" #!/bin/sh"), &cs("#!")));
}

#[test]
fn lines_are_split_as_std_does() {
    for s in ["", "\n", "a", "a\n", "a\nb", "a\r\nb\r\n", "a\n\nb\n", "a\r", "\r\n", "a\rb\n",
        "x\n\r\n\ny"]
    {
        let got: Vec<String> = split_lines(&cs(s)).iter().map(string_of).collect();
        let want: Vec<String> = s.lines().map(|l| l.to_string()).collect();
        assert_eq!(got, want);
    }
}

#[test]
fn install_into_a_missing_script() {
    let t = install(None).unwrap();
    assert_eq!(
        t,
        "#!/bin/sh\nset -e\n\n# >>> gamm\n\nREMOTE_URL=$(git remote get-url origin 2>/dev/null || true)\n[ -z \"$REMOTE_URL\" ] && exit 0\n\necho \"gamm: checking ...\"\ngamm pre-commit --repo \"$REMOTE_URL\"\n# <<< gamm\n"
    );
}

#[test]
fn install_into_an_existing_script() {
    let t = install(Some("#!/bin/sh\necho hi\n\n\n")).unwrap();
    assert_eq!(t, format!("#!/bin/sh\necho hi\n\n{}\n", HOOK_SECTION));
    assert!(t.starts_with("#!/bin/sh\necho hi\n\n# >>> gamm\n"));
    assert!(t.ends_with("# <<< gamm\n"));
}

#[test]
fn install_twice_is_a_no_op() {
    let once = install(None).unwrap();
    assert!(install(Some(&once)).is_none());
    let other = install(Some("echo hi")).unwrap();
    assert!(install(Some(&other)).is_none());
}

#[test]
fn markers_are_the_ends_of_the_section() {
    assert_eq!(MARKER_START, "# >>> gamm");
    assert_eq!(MARKER_END, "# <<< gamm");
    assert!(HOOK_SECTION.starts_with(MARKER_START));
    assert!(HOOK_SECTION.ends_with(MARKER_END));
}

#[test]
fn removing_from_a_script_without_the_section() {
    assert!(matches!(remove_section("#!/bin/sh\necho hi\n"), Removal::NotInstalled));
    assert!(matches!(remove_section(""), Removal::NotInstalled));
}

#[test]
fn removing_from_a_script_that_held_nothing_else() {
    let t = install(None).unwrap();
    assert!(matches!(remove_section(&t), Removal::DeleteFile));
}

#[test]
fn removing_keeps_the_rest_of_the_script() {
    let t = install(Some("#!/bin/sh\necho hi\n")).unwrap();
    match remove_section(&t) {
        Removal::Rewrite(left) => assert_eq!(left, "#!/bin/sh\necho hi\n"),
        other => panic!("unexpected {:?}", other),
    }
    let mixed = "#!/bin/sh\n  # >>> gamm  \ninside\n# <<< gamm\nafter\r\n\n\n";
    match remove_section(mixed) {
        Removal::Rewrite(left) => assert_eq!(left, "#!/bin/sh\nafter\n"),
        other => panic!("unexpected {:?}", other),
    }
}

#[test]
fn removing_an_unclosed_section_drops_the_rest() {
    match remove_section("echo a\n# >>> gamm\necho b\n") {
        Removal::Rewrite(left) => assert_eq!(left, "echo a\n"),
        other => panic!("unexpected {:?}", other),
    }
    assert!(matches!(remove_section("set -e\n\n# >>> gamm\necho b\n"), Removal::DeleteFile));
}
