use jira_cli::field_resolver::slugify;

#[test]
fn basic_ascii() {
    assert_eq!(slugify("Story Points"), "story_points");
    assert_eq!(slugify("Epic Link"), "epic_link");
}

#[test]
fn parens_and_special() {
    assert_eq!(slugify("Fix Build Number(s)"), "fix_build_number_s");
    assert_eq!(slugify("Units (WBSGantt)"), "units_wbsgantt");
}

#[test]
fn pure_non_ascii_becomes_empty() {
    assert_eq!(slugify("Bug严重等级"), "bug");
    assert_eq!(slugify("严重等级"), "");
}

#[test]
fn mixed_non_ascii() {
    assert_eq!(slugify("Bug 严重 等级"), "bug");
}

#[test]
fn collapses_consecutive_separators() {
    assert_eq!(slugify("  Hello   World!!  "), "hello_world");
}

#[test]
fn empty_and_edge_cases() {
    assert_eq!(slugify(""), "");
    assert_eq!(slugify("   "), "");
    assert_eq!(slugify("!!!"), "");
    assert_eq!(slugify("a"), "a");
}

#[test]
fn slug_keeps_digits_and_inner_runs() {
    assert_eq!(slugify("Sprint 42 - Q3"), "sprint_42_q3");
    assert_eq!(slugify("__x__y__"), "x_y");
}

#[test]
fn slugging_a_slug_gives_it_back() {
    for name in ["Story Points", "  Épica -- Link__2 ", "严重程度", "a_b", "X1 y2"] {
        let s = slugify(name);
        assert_eq!(slugify(&s), s);
    }
}
