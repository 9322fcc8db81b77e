use localcode::skills::{get_available_skills, should_install, skill_name_of_path};

#[test]
fn test_embedded_skills_loader() {
    let paths = vec![
        "context7/SKILL.md".to_string(),
        "context7/scripts/setup.sh".to_string(),
    ];
    let skills = get_available_skills(&paths);
    assert!(skills.contains(&"context7".to_string()));
}

#[test]
fn test_skills_are_sorted_and_distinct() {
    let paths = vec![
        "zeta/a.md".to_string(),
        "alpha/b.md".to_string(),
        "zeta/c.md".to_string(),
        "no-slash-entry".to_string(),
        "mid/d.md".to_string(),
    ];
    let skills = get_available_skills(&paths);
    assert_eq!(skills, vec!["alpha", "mid", "zeta"]);
}

#[test]
fn test_skill_name_of_path_takes_first_segment() {
    assert_eq!(
        skill_name_of_path("context7/SKILL.md"),
        Some("context7".to_string())
    );
    assert_eq!(skill_name_of_path("toplevel.md"), None);
}

#[test]
fn test_should_install_only_selected_skills() {
    let selected = vec!["context7".to_string()];
    assert!(should_install("context7/SKILL.md", &selected));
    assert!(!should_install("other/SKILL.md", &selected));
    assert!(!should_install("plainfile.md", &selected));
}
