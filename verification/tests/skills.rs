use review_to_md::skills::{
    install_base, install_plan, join_path, project_root_step, skill_names, skill_text, RootStep,
    ISSUE_TO_MD_SKILL, REVIEW_TO_MD_SKILL,
};

#[test]
fn custom_path_comes_first() {
    let r = install_base(Some("/custom/skills".to_string()), true, Some("/proj".to_string()), Some("/home/u".to_string()));
    assert_eq!(r.unwrap(), "/custom/skills");
}

#[test]
fn local_install_goes_under_the_project_root() {
    assert_eq!(install_base(None, true, Some("/proj".to_string()), None).unwrap(), "/proj/.agents/skills");
    assert_eq!(install_base(None, true, Some("/".to_string()), None).unwrap(), "/.agents/skills");
    assert_eq!(
        install_base(None, true, None, Some("/home/u".to_string())).unwrap_err(),
        "Could not find project root. No .git or .agents directory found in any parent directory."
    );
}

#[test]
fn global_install_goes_under_home() {
    assert_eq!(install_base(None, false, None, Some("/home/u".to_string())).unwrap(), "/home/u/.agents/skills");
    assert_eq!(install_base(None, false, Some("/proj".to_string()), None).unwrap_err(), "Could not determine home directory");
}

#[test]
fn project_root_search_steps() {
    assert_eq!(project_root_step("/a/b".to_string(), true, false, Some("/a".to_string())), RootStep::Found("/a/b".to_string()));
    assert_eq!(project_root_step("/a/b".to_string(), false, true, None), RootStep::Found("/a/b".to_string()));
    assert_eq!(project_root_step("/a/b".to_string(), false, false, Some("/a".to_string())), RootStep::Up("/a".to_string()));
    assert_eq!(
        project_root_step("/".to_string(), false, false, None),
        RootStep::NotFound(
            "Could not find project root. No .git or .agents directory found in any parent directory.".to_string()
        )
    );
}

#[test]
fn skills_are_named_and_shown() {
    assert_eq!(skill_names(), vec!["issue-to-md", "local-review", "review-to-md"]);
    assert_eq!(skill_text("issue-to-md"), Some(ISSUE_TO_MD_SKILL));
    assert_eq!(skill_text("review-to-md"), Some(REVIEW_TO_MD_SKILL));
    assert!(skill_text("local-review").unwrap().contains("name: local-review"));
    assert_eq!(skill_text("nope"), None);
}

#[test]
fn install_writes_one_file_per_skill() {
    let plan = install_plan("/home/u/.agents/skills");
    assert_eq!(plan.len(), 3);
    assert_eq!(plan[0].dir, "/home/u/.agents/skills/issue-to-md");
    assert_eq!(plan[0].file, "/home/u/.agents/skills/issue-to-md/SKILL.md");
    assert_eq!(plan[0].content, ISSUE_TO_MD_SKILL);
    assert_eq!(plan[2].file, "/home/u/.agents/skills/review-to-md/SKILL.md");
    assert_eq!(join_path("", "x"), "x");
    assert_eq!(join_path("a/", "x"), "a/x");
}
