use openai_tools::parsing::{parse_json_from_stream, JsonState};

fn run_chunks(chunks: &[&str]) -> (JsonState, Option<String>, String) {
    let mut state = JsonState::Idle;
    let mut antecedent = String::new();
    for chunk in chunks {
        let (next, json, filtered) = parse_json_from_stream(chunk, state);
        state = next;
        antecedent.push_str(&filtered);
        if json.is_some() {
            return (state, json, antecedent);
        }
    }
    (state, None, antecedent)
}

#[test]
fn brace_lookalikes_in_string_are_captured_whole() {
    let (state, json, filtered) = parse_json_from_stream("foo {\"a\":\"}{\"} bar", JsonState::Idle);
    assert_eq!(json.as_deref(), Some("{\"a\":\"}{\"}"));
    assert_eq!(filtered, "foo ");
    assert!(matches!(state, JsonState::Idle));
}

#[test]
fn object_with_two_fields_and_braces_in_string() {
    let input = "{\"a\":1,\"b\":\"}{\"}";
    let (_, json, filtered) = parse_json_from_stream(input, JsonState::Idle);
    assert_eq!(json.as_deref(), Some(input));
    assert_eq!(json.unwrap().len(), input.len());
    assert_eq!(filtered, "");
}

#[test]
fn fenced_content_never_captures() {
    let input = "before ```{\"x\":1}``` after";
    let (state, json, filtered) = parse_json_from_stream(input, JsonState::Idle);
    assert!(json.is_none());
    assert_eq!(filtered, input);
    assert!(matches!(state, JsonState::Idle));
}

#[test]
fn object_after_closed_fence_is_captured() {
    let input = "see ```{\"x\":1}``` then {\"y\":2}";
    let (_, json, filtered) = parse_json_from_stream(input, JsonState::Idle);
    assert_eq!(json.as_deref(), Some("{\"y\":2}"));
    assert_eq!(filtered, "see ```{\"x\":1}``` then ");
}

#[test]
fn nested_objects_complete_at_final_brace() {
    let input = "{\"a\":{\"b\":1}}";
    let (state, json, _) = parse_json_from_stream("{\"a\":{\"b\":1}", JsonState::Idle);
    assert!(json.is_none());
    match &state {
        JsonState::Active { data, num_brackets, in_string, escaped } => {
            assert_eq!(data, "{\"a\":{\"b\":1}");
            assert_eq!(*num_brackets, 1);
            assert!(!*in_string);
            assert!(!*escaped);
        }
        _ => panic!("expected a capture in progress"),
    }
    let (state, json, filtered) = parse_json_from_stream("}", state);
    assert_eq!(json.as_deref(), Some(input));
    assert_eq!(filtered, "");
    assert!(matches!(state, JsonState::Idle));
    let (_, whole, _) = parse_json_from_stream(input, JsonState::Idle);
    assert_eq!(whole.as_deref(), Some(input));
}

#[test]
fn chunking_does_not_change_the_outcome() {
    let text = "Here it is: ```js\n{x}\n``` and {\"k\":\"v\\\"}\",\"n\":{\"m\":[1,2]}} tail";
    let whole = run_chunks(&[text]);
    let chars: Vec<char> = text.chars().collect();
    let singles: Vec<String> = chars.iter().map(|c| c.to_string()).collect();
    let single_refs: Vec<&str> = singles.iter().map(|s| s.as_str()).collect();
    let by_char = run_chunks(&single_refs);
    let odd = run_chunks(&["Here it ", "is: `", "``js\n{x", "}\n``", "` and {\"k\":\"v\\", "\"}\",\"n\":{", "\"m\":[1,2]}} tail"]);
    assert_eq!(whole.1.as_deref(), Some("{\"k\":\"v\\\"}\",\"n\":{\"m\":[1,2]}}"));
    assert_eq!(whole.2, "Here it is: ```js\n{x}\n``` and ");
    for other in [&by_char, &odd] {
        assert_eq!(other.1, whole.1);
        assert_eq!(other.2, whole.2);
        assert!(matches!(other.0, JsonState::Idle));
    }
}

#[test]
fn at_most_one_object_per_fragment() {
    let (state, json, filtered) = parse_json_from_stream("a{\"x\":1}b{\"y\":2}c", JsonState::Idle);
    assert_eq!(json.as_deref(), Some("{\"x\":1}"));
    assert_eq!(filtered, "a");
    assert!(matches!(state, JsonState::Idle));
}

#[test]
fn plain_prose_passes_through_unchanged() {
    let text = "Just some prose, with `code` and } stray closers.";
    let (state, json, filtered) = parse_json_from_stream(text, JsonState::Idle);
    assert!(json.is_none());
    assert_eq!(filtered, text);
    assert!(!matches!(state, JsonState::Active { .. }));
    let chunks = run_chunks(&["Just some prose, ", "with `co", "de` and } stray closers."]);
    assert_eq!(chunks.2, text);
    assert!(chunks.1.is_none());
}

#[test]
fn empty_fragment_changes_nothing() {
    let (state, json, filtered) = parse_json_from_stream("", JsonState::MaybeIgnore { tick_count: 2 });
    assert!(json.is_none());
    assert_eq!(filtered, "");
    assert!(matches!(state, JsonState::MaybeIgnore { tick_count: 2 }));
}

#[test]
fn backslash_is_kept_in_capture() {
    let input = "{\"p\":\"a\\\\b\\\"c\"}";
    let (_, json, _) = parse_json_from_stream(input, JsonState::Idle);
    assert_eq!(json.as_deref(), Some(input));
}

#[test]
fn stray_closing_brace_is_narration() {
    let (state, json, filtered) = parse_json_from_stream("} ok", JsonState::Idle);
    assert!(json.is_none());
    assert_eq!(filtered, "} ok");
    assert!(matches!(state, JsonState::Idle));
}

#[test]
fn single_backtick_fence_hides_braces() {
    let (state, json, filtered) = parse_json_from_stream("a `b {c", JsonState::Idle);
    assert!(json.is_none());
    assert_eq!(filtered, "a `b {c");
    assert!(matches!(state, JsonState::Ignore { num_ticks: 1, tick_count: 0 }));
    let (state, _, _) = parse_json_from_stream("``", JsonState::Ignore { num_ticks: 3, tick_count: 0 });
    assert!(matches!(state, JsonState::Ignore { num_ticks: 3, tick_count: 2 }));
    let (state, _, _) = parse_json_from_stream("`", state);
    assert!(matches!(state, JsonState::Idle));
}

#[test]
fn unterminated_capture_stays_active() {
    let (state, json, filtered) = parse_json_from_stream("x {\"a\": \"}", JsonState::Idle);
    assert!(json.is_none());
    assert_eq!(filtered, "x ");
    match state {
        JsonState::Active { data, num_brackets, in_string, .. } => {
            assert_eq!(data, "{\"a\": \"}");
            assert_eq!(num_brackets, 1);
            assert!(in_string);
        }
        _ => panic!("expected a capture in progress"),
    }
}

#[test]
fn default_state_is_idle() {
    assert!(matches!(JsonState::default(), JsonState::Idle));
}
