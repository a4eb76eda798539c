use aster::json::JsonValue;
use aster::skills::{enabled_plugins, is_plugin_enabled};
use aster::skills::{
    parse_allowed_tools, parse_boolean, parse_frontmatter, plugin_id, qualified_skill_name,
    skill_from_content, SkillDefinition, SkillSource,
};

fn skill(name: &str, source: SkillSource) -> SkillDefinition {
    SkillDefinition {
        skill_name: name.to_string(),
        display_name: "My Skill".to_string(),
        description: "Test".to_string(),
        has_user_specified_description: true,
        markdown_content: "# Content".to_string(),
        allowed_tools: None,
        argument_hint: None,
        when_to_use: None,
        version: None,
        model: None,
        disable_model_invocation: false,
        user_invocable: true,
        source,
        base_dir: "/test".to_string(),
        file_path: "/test/SKILL.md".to_string(),
        supporting_files: vec![],
    }
}

#[test]
fn test_parse_frontmatter_basic() {
    let content = "---\nname: test-skill\ndescription: A test skill\n---\n\n# Test Skill\n\nThis is the body.\n";
    let (fm, body) = parse_frontmatter(content);
    assert_eq!(fm.name, Some("test-skill".to_string()));
    assert_eq!(fm.description, Some("A test skill".to_string()));
    assert!(body.contains("# Test Skill"));
}

#[test]
fn test_parse_frontmatter_no_frontmatter() {
    let content = "# Just content\nNo frontmatter here.";
    let (fm, body) = parse_frontmatter(content);
    assert!(fm.name.is_none());
    assert_eq!(body, content);
}

#[test]
fn test_parse_frontmatter_with_quotes() {
    let content = "---\nname: \"quoted-name\"\ndescription: 'single quoted'\n---\nBody\n";
    let (fm, _) = parse_frontmatter(content);
    assert_eq!(fm.name, Some("quoted-name".to_string()));
    assert_eq!(fm.description, Some("single quoted".to_string()));
}

#[test]
fn test_parse_allowed_tools() {
    assert_eq!(parse_allowed_tools(None), None);
    assert_eq!(parse_allowed_tools(Some("")), None);
    assert_eq!(parse_allowed_tools(Some("tool1")), Some(vec!["tool1".to_string()]));
    assert_eq!(
        parse_allowed_tools(Some("tool1, tool2, tool3")),
        Some(vec!["tool1".to_string(), "tool2".to_string(), "tool3".to_string()])
    );
}

#[test]
fn test_parse_boolean() {
    assert!(!parse_boolean(None, false));
    assert!(parse_boolean(None, true));
    assert!(parse_boolean(Some("true"), false));
    assert!(parse_boolean(Some("TRUE"), false));
    assert!(parse_boolean(Some("1"), false));
    assert!(parse_boolean(Some("yes"), false));
    assert!(!parse_boolean(Some("false"), true));
    assert!(!parse_boolean(Some("no"), true));
}

#[test]
fn test_skill_source_display() {
    assert_eq!(SkillSource::User.to_string(), "user");
    assert_eq!(SkillSource::Project.to_string(), "project");
    assert_eq!(SkillSource::Plugin.to_string(), "plugin");
}

#[test]
fn test_skill_definition_short_name() {
    let s = skill("user:my-skill", SkillSource::User);
    assert_eq!(s.short_name(), "my-skill");
    assert_eq!(s.namespace(), Some("user".to_string()));
}

#[test]
fn test_skill_definition_no_namespace() {
    let s = skill("simple-skill", SkillSource::Project);
    assert_eq!(s.short_name(), "simple-skill");
    assert_eq!(s.namespace(), None);
}

#[test]
fn frontmatter_edge_cases() {
    let (fm, body) = parse_frontmatter("---  \r\nwhen_to_use: later\nmodel: a\nmodel: b\nno colon\nx: y\n---   \nrest");
    assert_eq!(fm.when_to_use, Some("later".to_string()));
    assert_eq!(fm.model, Some("b".to_string()));
    assert_eq!(body, "rest");
    let (fm, body) = parse_frontmatter("---\nname: x\nno end marker");
    assert!(fm.name.is_none());
    assert_eq!(body, "---\nname: x\nno end marker");
    let (fm, _) = parse_frontmatter("--- name: x\n---\n");
    assert!(fm.name.is_none());
    assert_eq!(parse_allowed_tools(Some(" , a ,, b ")), Some(vec!["a".to_string(), "b".to_string()]));
}

#[test]
fn skill_names_and_definition() {
    assert_eq!(qualified_skill_name("user", Some("my-skill")), "user:my-skill");
    assert_eq!(qualified_skill_name("project", None), "project:unknown");
    assert_eq!(plugin_id("p", "m"), "p@m");
    let content = "---\nname: my-skill\ndescription: Test skill description\nallowed-tools: tool1, tool2\nversion: 1.0.0\n---\n\n# My Skill\n";
    let s = skill_from_content("user:my-skill", content, SkillSource::User, "/d".to_string(), "/d/SKILL.md".to_string(), vec!["/d/helper.py".to_string()]);
    assert_eq!(s.display_name, "my-skill");
    assert_eq!(s.description, "Test skill description");
    assert!(s.has_user_specified_description);
    assert_eq!(s.allowed_tools, Some(vec!["tool1".to_string(), "tool2".to_string()]));
    assert_eq!(s.version, Some("1.0.0".to_string()));
    assert!(s.user_invocable);
    assert!(!s.disable_model_invocation);
    assert_eq!(s.markdown_content, "# My Skill\n");
    let plain = skill_from_content("project:x", "body only", SkillSource::Project, String::new(), String::new(), vec![]);
    assert_eq!(plain.display_name, "project:x");
    assert_eq!(plain.description, "");
    assert!(!plain.has_user_specified_description);
}

#[test]
fn settings_enable_plugins() {
    let settings = JsonValue::Object(vec![(
        "enabledPlugins".to_string(),
        JsonValue::Object(vec![
            ("a@m".to_string(), JsonValue::Bool(true)),
            ("b@m".to_string(), JsonValue::Bool(false)),
            ("c@m".to_string(), JsonValue::String("yes".to_string())),
            ("d@n".to_string(), JsonValue::Bool(true)),
        ]),
    )]);
    assert_eq!(enabled_plugins(&settings), vec!["a@m".to_string(), "d@n".to_string()]);
    assert!(enabled_plugins(&JsonValue::Null).is_empty());
}

#[test]
fn plugin_enabled_by_its_id() {
    let enabled = vec!["tools@market".to_string(), "docs@other".to_string()];
    assert!(is_plugin_enabled(&enabled, "tools", "market"));
    assert!(!is_plugin_enabled(&enabled, "tools", "other"));
    assert!(!is_plugin_enabled(&vec![], "docs", "other"));
}
