use pilothub::extensions::{map_skills_to_extensions, ExtensionComponentType};
use pilothub::skills::SkillRecord;

fn skill(id: &str, name: &str, source_type: &str, source_ref: Option<&str>) -> SkillRecord {
    SkillRecord {
        id: id.to_string(),
        name: name.to_string(),
        description: None,
        source_type: source_type.to_string(),
        source_ref: source_ref.map(str::to_string),
        source_subpath: None,
        source_revision: None,
        central_path: format!("/home/u/.pilothub/extensions/{id}"),
        content_hash: None,
        created_at: 1,
        updated_at: 1,
        last_sync_at: None,
        last_seen_at: 1,
        enabled: true,
        status: "ok".to_string(),
    }
}

#[test]
fn skills_from_one_repository_form_one_extension() {
    let extensions = map_skills_to_extensions(vec![
        skill(
            "s2",
            "cover-image",
            "git",
            Some("https://github.com/JimLiu/baoyu-skills.git/"),
        ),
        skill("s1", "local-tool", "local", None),
        skill(
            "s3",
            "article-illustrator",
            "git",
            Some("https://github.com/JimLiu/baoyu-skills.git/"),
        ),
    ]);
    assert_eq!(extensions.len(), 2);
    assert_eq!(
        extensions[0].id,
        "git:https://github.com/JimLiu/baoyu-skills.git/"
    );
    assert_eq!(extensions[0].name, "baoyu-skills");
    let names: Vec<&str> = extensions[0]
        .components
        .iter()
        .map(|c| c.name.as_str())
        .collect();
    assert_eq!(names, vec!["article-illustrator", "cover-image"]);
    assert_eq!(
        extensions[0].components[0].component_type,
        ExtensionComponentType::Skill
    );
    assert_eq!(extensions[1].id, "local:s1");
    assert_eq!(extensions[1].name, "local-tool");
    assert_eq!(extensions[1].source.source_ref, None);
}

#[test]
fn extension_name_falls_back_to_the_skill_name() {
    let extensions = map_skills_to_extensions(vec![skill("s1", "writer", "git", Some("/"))]);
    assert_eq!(extensions[0].name, "writer");
    assert_eq!(extensions[0].components[0].skill_id, "s1");
}

#[test]
fn equal_component_names_keep_their_input_order() {
    let extensions = map_skills_to_extensions(vec![
        skill("b", "same", "local", Some("/repo")),
        skill("a", "same", "local", Some("/repo")),
    ]);
    assert_eq!(extensions.len(), 1);
    assert_eq!(extensions[0].name, "repo");
    assert_eq!(extensions[0].components[0].id, "b");
    assert_eq!(extensions[0].components[1].id, "a");
}
