use aster::subagent::{
    append_extra_instructions, build_subagent_role_hint, build_subagent_session_name, build_subagent_task_summary,
    build_tool_description, check_subagent_params, create_subagent_tool, filter_extensions, find_sub_recipe,
    get_subrecipe_params_description, normalize_optional_identifier, normalize_subagent_label, normalize_whitespace,
    plan_provider_override, truncate_chars, with_summary_instructions, ModelSource, RecipeParameter, SubRecipe,
    SubagentParams, SubagentSettings, SUBAGENT_TOOL_NAME,
};

fn params() -> SubagentParams {
    SubagentParams {
        instructions: None,
        subrecipe: None,
        role_hint: None,
        parameters: None,
        extensions: None,
        settings: None,
        summary: true,
        images: None,
    }
}

#[test]
fn subagent_tool_test_tool_name() {
    assert_eq!(SUBAGENT_TOOL_NAME, "subagent");
}

#[test]
fn subagent_text_helpers() {
    assert_eq!(truncate_chars("abcdef", 4), "a...");
    assert_eq!(truncate_chars("abcdef", 2), "ab");
    assert_eq!(truncate_chars("abc", 4), "abc");
    assert_eq!(normalize_whitespace("  a \n b\t c "), "a b c");
    assert_eq!(normalize_subagent_label(Some("  planner  ")), Some("planner".to_string()));
    assert_eq!(normalize_subagent_label(Some("   ")), None);
    assert_eq!(normalize_optional_identifier(Some(" id-1 ".to_string())), Some("id-1".to_string()));
    assert_eq!(normalize_optional_identifier(Some("  ".to_string())), None);
}

#[test]
fn subagent_param_checks() {
    assert!(check_subagent_params(&params()).is_err());
    let mut p = params();
    p.instructions = Some("do it".to_string());
    assert!(check_subagent_params(&p).is_ok());
    p.parameters = Some(vec!["x".to_string()]);
    assert_eq!(check_subagent_params(&p), Err("'parameters' can only be used with 'subrecipe'".to_string()));
    p.subrecipe = Some("build".to_string());
    assert!(check_subagent_params(&p).is_ok());
}

#[test]
fn subagent_names_and_summaries() {
    let mut p = params();
    p.role_hint = Some(" planner ".to_string());
    assert_eq!(build_subagent_role_hint(&p), Some("planner".to_string()));
    let name = build_subagent_session_name(&p, "Subagent Task");
    assert!(name.contains("planner"));
    p.instructions = Some("Check   the\nlogs".to_string());
    let summary = build_subagent_task_summary(&p, "Subagent Task");
    assert!(summary.is_some());
}

#[test]
fn subagent_instructions() {
    let with = with_summary_instructions(Some("go".to_string()), true).unwrap();
    assert!(with.starts_with("go\n"));
    assert_eq!(with_summary_instructions(Some("go".to_string()), false), Some("go".to_string()));
    assert_eq!(append_extra_instructions(Some("a".to_string()), Some("b")), Some("a\n\nb".to_string()));
    assert_eq!(append_extra_instructions(None, Some("b")), Some("b".to_string()));
    assert_eq!(append_extra_instructions(Some("a".to_string()), None), Some("a".to_string()));
}

#[test]
fn subagent_tool_description_lists_subrecipes() {
    let srs = vec![SubRecipe {
        name: "lint".to_string(),
        path: "lint.yaml".to_string(),
        values: None,
        sequential_when_repeated: true,
        description: None,
    }];
    let d = build_tool_description(&srs, &["dir [required]".to_string()]);
    assert!(d.ends_with("\n\nAvailable subrecipes:\n• lint [run sequentially, not in parallel] - No description (params: dir [required])"));
    let tool = create_subagent_tool(&srs, &["".to_string()]);
    assert_eq!(tool.name, "subagent");
    assert!(tool.description.ends_with("- No description"));
}

#[test]
fn subagent_params_description() {
    let ps = vec![
        RecipeParameter { key: "a".to_string(), required: true },
        RecipeParameter { key: "b".to_string(), required: false },
    ];
    let values = vec![("a".to_string(), "1".to_string())];
    assert_eq!(get_subrecipe_params_description(Some(&ps), Some(&values)), "b [optional]");
    assert_eq!(get_subrecipe_params_description(Some(&ps), None), "a [required], b [optional]");
    assert_eq!(get_subrecipe_params_description(None, None), "");
}

#[test]
fn subagent_extension_filter() {
    let current = vec!["dev".to_string(), "web".to_string()];
    assert_eq!(filter_extensions(current.clone(), None), current);
    assert_eq!(filter_extensions(current.clone(), Some(&vec![])), Vec::<String>::new());
    assert_eq!(filter_extensions(current.clone(), Some(&vec!["web".to_string(), "x".to_string()])), vec!["web".to_string()]);
}

#[test]
fn subagent_provider_override() {
    assert!(plan_provider_override(None, "openai").is_none());
    let s = SubagentSettings { provider: Some(" anthropic ".to_string()), model: None, has_temperature: false };
    let o = plan_provider_override(Some(&s), "openai").unwrap();
    assert_eq!(o.provider_name, "anthropic");
    assert!(matches!(o.model, ModelSource::ProviderDefault));
}

fn recipe(name: &str, sequential: bool, description: &str) -> SubRecipe {
    SubRecipe {
        name: name.to_string(),
        path: "test.yaml".to_string(),
        values: None,
        sequential_when_repeated: sequential,
        description: Some(description.to_string()),
    }
}

fn no_params(n: usize) -> Vec<String> {
    (0..n).map(|_| get_subrecipe_params_description(None, None)).collect()
}

#[test]
fn test_create_tool_without_subrecipes() {
    let tool = create_subagent_tool(&[], &[]);
    assert_eq!(tool.name, "subagent");
    assert!(tool.description.contains("Ad-hoc"));
    assert!(!tool.description.contains("Available subrecipes"));
}

#[test]
fn test_create_tool_with_subrecipes() {
    let sub_recipes = vec![recipe("test_recipe", false, "A test recipe")];
    let tool = create_subagent_tool(&sub_recipes, &no_params(1));
    assert!(tool.description.contains("Available subrecipes"));
    assert!(tool.description.contains("test_recipe"));
}

#[test]
fn test_sequential_hint_in_description() {
    let sub_recipes = vec![
        recipe("parallel_ok", false, "Can run in parallel"),
        recipe("sequential_only", true, "Must run sequentially"),
    ];
    let tool = create_subagent_tool(&sub_recipes, &no_params(2));
    let desc = &tool.description;
    assert!(desc.contains("parallel_ok"));
    assert!(!desc.contains("parallel_ok [run sequentially"));
    assert!(desc.contains("sequential_only [run sequentially, not in parallel]"));
}

#[test]
fn test_build_subagent_task_summary_prefers_subrecipe_and_instruction_preview() {
    let mut p = params();
    p.instructions = Some("Investigate   the    failing \n integration test".to_string());
    p.subrecipe = Some("debug_failure".to_string());
    assert_eq!(
        build_subagent_task_summary(&p, "Fallback title"),
        Some("Run subrecipe `debug_failure`: Investigate the failing integration test".to_string())
    );
}

#[test]
fn test_build_subagent_task_summary_falls_back_to_recipe_title() {
    assert_eq!(build_subagent_task_summary(&params(), "Subagent Task"), Some("Subagent Task".to_string()));
}

#[test]
fn test_build_subagent_role_hint_prefers_explicit_role_hint() {
    let mut p = params();
    p.subrecipe = Some("planner_recipe".to_string());
    p.role_hint = Some("Image #1".to_string());
    assert_eq!(build_subagent_role_hint(&p), Some("Image #1".to_string()));
}

#[test]
fn test_build_subagent_session_name_prefers_role_hint() {
    let mut p = params();
    p.instructions = Some("处理图片风格统一".to_string());
    p.subrecipe = Some("image_pipeline".to_string());
    p.role_hint = Some("Image #1".to_string());
    assert_eq!(build_subagent_session_name(&p, "Fallback title"), "Image #1");
}

#[test]
fn unknown_subrecipe_is_refused_with_the_names_on_offer() {
    let srs = vec![recipe("lint", false, "Lint"), recipe("build", true, "Build")];
    assert_eq!(find_sub_recipe(&srs, "build"), Ok(1));
    assert_eq!(find_sub_recipe(&srs, "deploy"), Err("Unknown subrecipe 'deploy'. Available: lint, build".to_string()));
    assert_eq!(find_sub_recipe(&[], "x"), Err("Unknown subrecipe 'x'. Available: ".to_string()));
}

#[test]
fn subagent_tool_schema_lists_the_parameters() {
    let tool = create_subagent_tool(&[], &[]);
    let props = tool.input_schema.get("properties").unwrap();
    assert_eq!(props.get("summary").unwrap().get("default").unwrap(), &aster::json::JsonValue::Bool(true));
    assert!(props.get("images").unwrap().get("items").unwrap().get("required").unwrap().is_array());
    assert!(props.get("instructions").is_some());
}
