use aster::ask::{
    ask_input_schema, ask_tool_result, finish_ask, normalize_answer_value, normalize_result, parse_request,
    resolve_answers, AskOption, AskOutcome, AskQuestion, AskRequest, AskResult,
};
use aster::json::JsonValue;
use aster::tool::ToolError;

fn s(t: &str) -> JsonValue {
    JsonValue::String(t.to_string())
}

fn obj(es: Vec<(&str, JsonValue)>) -> JsonValue {
    JsonValue::Object(es.into_iter().map(|(k, v)| (k.to_string(), v)).collect())
}

#[test]
fn test_ask_option_new() {
    let opt = AskOption::new("yes");
    assert_eq!(opt.value, "yes");
    assert!(opt.label.is_none());
    assert_eq!(opt.display(), "yes");
}

#[test]
fn test_ask_option_with_label() {
    let opt = AskOption::with_label("y", "Yes, proceed");
    assert_eq!(opt.value, "y");
    assert_eq!(opt.label, Some("Yes, proceed".to_string()));
    assert_eq!(opt.display(), "Yes, proceed");
}

#[test]
fn test_ask_request_from_legacy() {
    let request = AskRequest::from_legacy("Continue?", vec![AskOption::new("yes")]);
    assert_eq!(request.questions.len(), 1);
    assert_eq!(request.questions[0].question, "Continue?");
    assert_eq!(request.questions[0].options[0].value, "yes");
}

#[test]
fn test_ask_free_form_response() {
    let request = AskRequest::from_legacy("What is your name?", vec![]);
    let result = normalize_result(&request, s("John")).unwrap();
    assert_eq!(result.primary_response(), Some("John"));
    assert_eq!(result.answer("What is your name?"), Some("John"));
    assert!(!result.from_option);
    assert!(result.option_index.is_none());
}

#[test]
fn ask_select_by_value_and_label() {
    let request = AskRequest::from_legacy("Continue?", vec![AskOption::new("yes"), AskOption::new("no")]);
    let result = normalize_result(&request, s("yes")).unwrap();
    assert_eq!(result.primary_response(), Some("yes"));
    assert!(result.from_option);
    assert_eq!(result.option_index, Some(0));

    let request = AskRequest::from_legacy(
        "Continue?",
        vec![AskOption::with_label("y", "Yes, proceed"), AskOption::with_label("n", "No, cancel")],
    );
    let result = normalize_result(&request, s("Yes, proceed")).unwrap();
    assert_eq!(result.primary_response(), Some("y"));
    assert!(result.from_option);
    assert_eq!(result.option_index, Some(0));

    let request = AskRequest::from_legacy("Continue?", vec![AskOption::new("yes"), AskOption::new("no")]);
    let result = normalize_result(&request, s("maybe")).unwrap();
    assert_eq!(result.primary_response(), Some("maybe"));
    assert!(!result.from_option);
}

#[test]
fn ask_modern_answers_payload_is_sorted() {
    let request = AskRequest { questions: vec![AskQuestion::new("Primary goal?"), AskQuestion::new("Need tests?")] };
    let response = obj(vec![("answers", obj(vec![("Primary goal?", s("Ship quickly")), ("Need tests?", s("Yes"))]))]);
    let result = normalize_result(&request, response).unwrap();
    assert_eq!(result.answers.len(), 2);
    assert_eq!(result.answers[0].0, "Need tests?");
    assert_eq!(result.answer("Primary goal?"), Some("Ship quickly"));
    assert_eq!(result.answer("Need tests?"), Some("Yes"));
}

#[test]
fn ask_answers_by_header_and_field_key() {
    let mut q1 = AskQuestion::new("Which theme?");
    q1.header = Some(" Color Theme! ".to_string());
    let q2 = AskQuestion::new("Anything else?");
    let request = AskRequest { questions: vec![q1, q2] };
    let response = obj(vec![("color_theme", s(" dark ")), ("question_2", JsonValue::Array(vec![s("a"), s(" "), JsonValue::Bool(true)]))]);
    let answers = resolve_answers(&request, &response);
    assert_eq!(answers.len(), 2);
    assert_eq!(answers[0], ("Anything else?".to_string(), "a, true".to_string()));
    assert_eq!(answers[1], ("Which theme?".to_string(), "dark".to_string()));
}

#[test]
fn ask_fallback_other_key() {
    let request = AskRequest::from_legacy("Pick", vec![]);
    let response = obj(vec![("other", s("custom"))]);
    let result = normalize_result(&request, response).unwrap();
    assert_eq!(result.primary_response(), Some("custom"));
}

#[test]
fn ask_empty_response_is_refused() {
    let request = AskRequest::from_legacy("Pick", vec![]);
    match normalize_result(&request, s("   ")) {
        Err(ToolError::ExecutionFailed(m)) => assert_eq!(m, "User response was empty or could not be normalized"),
        _ => panic!("expected a refusal"),
    }
    assert!(normalize_result(&request, JsonValue::Null).is_err());
}

#[test]
fn ask_normalize_values() {
    assert_eq!(normalize_answer_value(&JsonValue::Number("42".to_string())), Some("42".to_string()));
    assert_eq!(normalize_answer_value(&JsonValue::Bool(false)), Some("false".to_string()));
    assert_eq!(normalize_answer_value(&JsonValue::Array(vec![])), None);
    assert_eq!(normalize_answer_value(&obj(vec![])), None);
}

#[test]
fn ask_finish_outcomes() {
    let request = AskRequest::from_legacy("What is your name?", vec![]);
    assert!(matches!(finish_ask(&request, AskOutcome::NoCallback), Err(ToolError::ExecutionFailed(_))));
    assert!(matches!(finish_ask(&request, AskOutcome::Cancelled), Err(ToolError::ExecutionFailed(_))));
    assert!(matches!(finish_ask(&request, AskOutcome::TimedOut(50)), Err(ToolError::Timeout(50))));
    assert!(finish_ask(&request, AskOutcome::Responded(s("x"))).is_ok());
}

#[test]
fn ask_parse_legacy_and_modern() {
    let params = obj(vec![("question", s("What is your name?"))]);
    let request = parse_request(&params).unwrap();
    assert_eq!(request.questions.len(), 1);
    assert_eq!(request.questions[0].question, "What is your name?");

    let params = obj(vec![
        ("question", s("Continue?")),
        ("options", JsonValue::Array(vec![obj(vec![("value", s("yes")), ("label", s("Yes"))]), s("no")])),
        ("multi_select", JsonValue::Bool(true)),
    ]);
    let request = parse_request(&params).unwrap();
    assert!(request.questions[0].multi_select);
    assert_eq!(request.questions[0].options[0].display(), "Yes");
    assert_eq!(request.questions[0].options[1].value, "no");

    let params = obj(vec![(
        "questions",
        JsonValue::Array(vec![obj(vec![
            ("question", s("Which mode?")),
            ("header", s("Mode")),
            ("options", JsonValue::Array(vec![obj(vec![("label", s("Fast"))])])),
        ])]),
    )]);
    let request = parse_request(&params).unwrap();
    assert_eq!(request.questions[0].options[0].value, "Fast");
}

#[test]
fn ask_parse_errors() {
    match parse_request(&obj(vec![])) {
        Err(ToolError::InvalidParams(m)) => assert_eq!(m, "Missing required parameter: question or questions"),
        _ => panic!("expected a refusal"),
    }
    match parse_request(&obj(vec![("question", JsonValue::Number("1".to_string()))])) {
        Err(ToolError::InvalidParams(m)) => assert!(m.starts_with("Failed to parse ask input: ")),
        _ => panic!("expected a refusal"),
    }
    match parse_request(&obj(vec![("question", s("  "))])) {
        Err(ToolError::InvalidParams(m)) => assert_eq!(m, "Question text cannot be empty"),
        _ => panic!("expected a refusal"),
    }
    let five = JsonValue::Array(vec![s("a"), s("b"), s("c"), s("d"), s("e")]);
    match parse_request(&obj(vec![("question", s("Q")), ("options", five)])) {
        Err(ToolError::InvalidParams(m)) => assert_eq!(m, "Question options cannot exceed 4 choices"),
        _ => panic!("expected a refusal"),
    }
    match parse_request(&obj(vec![("question", s("Q")), ("options", JsonValue::Array(vec![s(" ")]))])) {
        Err(ToolError::InvalidParams(m)) => assert_eq!(m, "Option value/label cannot both be empty"),
        _ => panic!("expected a refusal"),
    }
    match parse_request(&obj(vec![("questions", JsonValue::Array(vec![]))])) {
        Err(ToolError::InvalidParams(m)) => assert_eq!(m, "At least one question is required"),
        _ => panic!("expected a refusal"),
    }
    match parse_request(&obj(vec![("question", s("Q")), ("multiSelect", JsonValue::Bool(true)), ("multi_select", JsonValue::Bool(true))])) {
        Err(ToolError::InvalidParams(m)) => assert!(m.starts_with("Failed to parse ask input: ")),
        _ => panic!("expected a refusal"),
    }
}

#[test]
fn ask_tool_output() {
    let request = AskRequest::from_legacy("Continue?", vec![AskOption::with_label("yes", "Yes"), AskOption::new("no")]);
    let result = normalize_result(&request, s("yes")).unwrap();
    let r = ask_tool_result(&request, result);
    assert!(r.is_success());
    assert_eq!(r.output.clone().unwrap(), "User selected option 1: yes");
    assert_eq!(r.metadata_get("from_option"), Some(&JsonValue::Bool(true)));
    assert_eq!(r.metadata_get("option_index"), Some(&JsonValue::Number("0".to_string())));
    assert_eq!(r.metadata_get("question_count"), Some(&JsonValue::Number("1".to_string())));

    let request = AskRequest { questions: vec![AskQuestion::new("B?"), AskQuestion::new("A?")] };
    let response = obj(vec![("answers", obj(vec![("B?", s("2")), ("A?", s("1"))]))]);
    let result = normalize_result(&request, response).unwrap();
    let r = ask_tool_result(&request, result);
    assert_eq!(r.output.clone().unwrap(), "User answered multiple questions:\n- A?: 1\n- B?: 2");
}

#[test]
fn ask_schema_shape() {
    match ask_input_schema() {
        JsonValue::Object(es) => {
            assert_eq!(es[0].0, "type");
            assert_eq!(es[0].1, s("object"));
            assert_eq!(es[2].0, "oneOf");
        }
        _ => panic!("expected an object"),
    }
}

#[test]
fn test_ask_result_primary_response() {
    let answers = vec![("Question".to_string(), "hello".to_string())];
    let result = AskResult::new(JsonValue::String("hello".to_string()), answers, false, None);
    assert_eq!(result.primary_response(), Some("hello"));
    assert!(!result.from_option);
    assert!(result.option_index.is_none());
}

#[test]
fn test_ask_result_option_metadata() {
    let answers = vec![("Continue?".to_string(), "yes".to_string())];
    let result = AskResult::new(JsonValue::String("yes".to_string()), answers, true, Some(0));
    assert_eq!(result.primary_response(), Some("yes"));
    assert!(result.from_option);
    assert_eq!(result.option_index, Some(0));
}

#[test]
fn ask_result_orders_answers_by_question() {
    let answers = vec![
        ("b".to_string(), "2".to_string()),
        ("a".to_string(), "1".to_string()),
        ("b".to_string(), "3".to_string()),
    ];
    let result = AskResult::new(JsonValue::Null, answers, false, None);
    assert_eq!(result.primary_response(), Some("1"));
    assert_eq!(result.answer("b"), Some("3"));
    assert_eq!(result.answers.len(), 2);
}

#[test]
fn test_ask_with_options_select_by_value() {
    let request = AskRequest::from_legacy("Continue?", vec![AskOption::new("yes"), AskOption::new("no")]);
    let result = finish_ask(&request, AskOutcome::Responded(s("yes"))).unwrap();
    assert_eq!(result.primary_response(), Some("yes"));
    assert!(result.from_option);
    assert_eq!(result.option_index, Some(0));
}

#[test]
fn test_ask_with_options_select_by_label() {
    let options = vec![AskOption::with_label("y", "Yes, proceed"), AskOption::with_label("n", "No, cancel")];
    let result = finish_ask(&AskRequest::from_legacy("Continue?", options), AskOutcome::Responded(s("Yes, proceed"))).unwrap();
    assert_eq!(result.primary_response(), Some("y"));
    assert!(result.from_option);
    assert_eq!(result.option_index, Some(0));
}

#[test]
fn test_ask_with_options_free_form() {
    let request = AskRequest::from_legacy("Continue?", vec![AskOption::new("yes"), AskOption::new("no")]);
    let result = finish_ask(&request, AskOutcome::Responded(s("maybe"))).unwrap();
    assert_eq!(result.primary_response(), Some("maybe"));
    assert!(!result.from_option);
    assert!(result.option_index.is_none());
}

#[test]
fn test_ask_with_multiple_questions_payload() {
    let request = AskRequest { questions: vec![AskQuestion::new("Primary goal?"), AskQuestion::new("Need tests?")] };
    let response = obj(vec![("answers", obj(vec![("Primary goal?", s("Ship quickly")), ("Need tests?", s("Yes"))]))]);
    let result = finish_ask(&request, AskOutcome::Responded(response)).unwrap();
    assert_eq!(result.answers.len(), 2);
    assert_eq!(result.answer("Primary goal?"), Some("Ship quickly"));
    assert_eq!(result.answer("Need tests?"), Some("Yes"));
}

#[test]
fn test_ask_user_cancels() {
    let request = AskRequest::from_legacy("What is your name?", vec![]);
    assert!(matches!(finish_ask(&request, AskOutcome::Cancelled), Err(ToolError::ExecutionFailed(_))));
}

#[test]
fn test_ask_timeout() {
    let request = AskRequest::from_legacy("What is your name?", vec![]);
    assert!(matches!(finish_ask(&request, AskOutcome::TimedOut(50)), Err(ToolError::Timeout(_))));
}

#[test]
fn test_ask_without_callback() {
    let request = AskRequest::from_legacy("What is your name?", vec![]);
    assert!(matches!(finish_ask(&request, AskOutcome::NoCallback), Err(ToolError::ExecutionFailed(_))));
}

#[test]
fn test_ask_tool_trait_input_schema() {
    let schema = ask_input_schema();
    let props = schema.get("properties").unwrap();
    assert_eq!(schema.get("type").unwrap(), &s("object"));
    assert!(props.get("question").unwrap().is_object());
    assert!(props.get("questions").unwrap().is_object());
    assert!(props.get("options").unwrap().is_object());
    assert_eq!(
        schema.get("oneOf").unwrap(),
        &JsonValue::Array(vec![
            obj(vec![("required", JsonValue::Array(vec![s("question")]))]),
            obj(vec![("required", JsonValue::Array(vec![s("questions")]))]),
        ])
    );
    assert!(schema.get("required").is_none());
    assert_eq!(props.get("multiSelect").unwrap().get("type").unwrap(), &s("boolean"));
}
