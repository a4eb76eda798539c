use aster::retry::{
    calculate_adjusted_max_tokens, decide_after_failure, handle_context_overflow,
    parse_context_overflow_error, ContextOverflowError, OverflowRecoveryError,
    OverflowRecoveryOptions, RecoveryDecision, RequestError, first_recovery_action, next_recovery_action,
    RecoveryAction,
};

const MSG: &str = "input length and `max_tokens` exceed context limit: 195000 + 8192 > 200000";

#[test]
fn parses_documented_overflow_message() {
    let o = parse_context_overflow_error(400, MSG).unwrap();
    assert_eq!(o, ContextOverflowError { input_tokens: 195000, max_tokens: 8192, context_limit: 200000 });
}

#[test]
fn parse_requires_status_400_and_pattern() {
    assert!(parse_context_overflow_error(500, MSG).is_none());
    assert!(parse_context_overflow_error(400, "something else").is_none());
    let embedded = format!("error: {} (retry)", MSG);
    assert_eq!(parse_context_overflow_error(400, &embedded).unwrap().context_limit, 200000);
    let too_big = "input length and `max_tokens` exceed context limit: 99999999999999999999 + 1 > 2";
    assert!(parse_context_overflow_error(400, too_big).is_none());
}

#[test]
fn adjusted_tokens_use_available_room() {
    let o = ContextOverflowError { input_tokens: 190000, max_tokens: 8192, context_limit: 200000 };
    assert_eq!(calculate_adjusted_max_tokens(&o, 0), Some(9000));
    assert_eq!(calculate_adjusted_max_tokens(&o, 20000), Some(20001));
    let full = ContextOverflowError { input_tokens: 195000, max_tokens: 8192, context_limit: 200000 };
    assert_eq!(calculate_adjusted_max_tokens(&full, 0), Some(4000));
    let tight = ContextOverflowError { input_tokens: 197000, max_tokens: 8192, context_limit: 200000 };
    assert_eq!(calculate_adjusted_max_tokens(&tight, 0), None);
}

#[test]
fn handle_overflow_errors() {
    assert_eq!(handle_context_overflow(400, MSG, 0), Ok(4000));
    assert_eq!(handle_context_overflow(400, "nope", 0), Err(OverflowRecoveryError::NotOverflowError));
    let tight = "input length and `max_tokens` exceed context limit: 197000 + 8192 > 200000";
    let e = handle_context_overflow(400, tight, 0).unwrap_err();
    assert_eq!(e, OverflowRecoveryError::CannotRecover { input_tokens: 197000, context_limit: 200000 });
    assert_eq!(e.message(), "Cannot recover: input=197000, limit=200000");
    assert_eq!(OverflowRecoveryError::MaxRetriesExceeded { attempts: 3 }.message(), "Max retries exceeded after 3 attempts");
}

#[test]
fn recovery_decisions() {
    let options = OverflowRecoveryOptions::default();
    assert_eq!(options.max_retries, 3);
    let overflow = RequestError { status: 400, message: MSG.to_string() };
    assert_eq!(decide_after_failure(1, &options, &overflow), RecoveryDecision::Retry(4000));
    assert_eq!(
        decide_after_failure(3, &options, &overflow),
        RecoveryDecision::Fail(OverflowRecoveryError::MaxRetriesExceeded { attempts: 3 })
    );
    let other = RequestError { status: 500, message: "boom".to_string() };
    assert_eq!(
        decide_after_failure(1, &options, &other),
        RecoveryDecision::Fail(OverflowRecoveryError::RequestFailed("boom".to_string()))
    );
}

#[test]
fn recovery_run_steps() {
    let mut options = OverflowRecoveryOptions::default();
    options.max_tokens = Some(8192);
    assert_eq!(first_recovery_action(&options), RecoveryAction::Send { attempt: 1, max_tokens: Some(8192) });
    let overflow = RequestError { status: 400, message: MSG.to_string() };
    assert_eq!(
        next_recovery_action(1, &options, &overflow),
        (Some((1, 4000)), RecoveryAction::Send { attempt: 2, max_tokens: Some(4000) })
    );
    assert_eq!(
        next_recovery_action(3, &options, &overflow),
        (None, RecoveryAction::GiveUp(OverflowRecoveryError::MaxRetriesExceeded { attempts: 3 }))
    );
    options.max_retries = 0;
    assert_eq!(
        first_recovery_action(&options),
        RecoveryAction::GiveUp(OverflowRecoveryError::MaxRetriesExceeded { attempts: 0 })
    );
}

fn regex_reading(status: u16, message: &str) -> Option<(u64, u64, u64)> {
    if status != 400 {
        return None;
    }
    let pattern =
        regex::Regex::new(r"input length and `max_tokens` exceed context limit: (\d+) \+ (\d+) > (\d+)").unwrap();
    let c = pattern.captures(message)?;
    Some((c.get(1)?.as_str().parse().ok()?, c.get(2)?.as_str().parse().ok()?, c.get(3)?.as_str().parse().ok()?))
}

#[test]
fn overflow_digits_read_as_the_regex_reads_them() {
    let messages = [
        "input length and `max_tokens` exceed context limit: 195000 + 8192 > 200000",
        "input length and `max_tokens` exceed context limit: ١٩٥ + 8192 > 200000; input length and `max_tokens` exceed context limit: 1 + 2 > 3",
        "input length and `max_tokens` exceed context limit: 12٣ + 8192 > 200000",
        "input length and `max_tokens` exceed context limit: 1 + 2 > 3٤",
        "x input length and `max_tokens` exceed context limit: 1 + 2 > 3 tail",
        "input length and `max_tokens` exceed context limit: 99999999999999999999 + 2 > 3",
    ];
    for m in messages.iter() {
        let ours = parse_context_overflow_error(400, m).map(|o| (o.input_tokens, o.max_tokens, o.context_limit));
        assert_eq!(ours, regex_reading(400, m), "{}", m);
    }
    assert_eq!(parse_context_overflow_error(400, messages[1]), None);
}
