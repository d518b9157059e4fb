use openai_tools::chat::{
    AssistantContent, ChatChoice, ChatDelta, ChatMessage, ChatResponse, ChatStream, ChatUsage,
    FunctionCall, StreamChoice,
};
use openai_tools::embeddings::{EmbeddingInput, EmbeddingModel};
use openai_tools::manifest::{test_len, MAX_NAME_FOR_HUMAN};
use openai_tools::EmbeddingRequest;

fn response(messages: Vec<ChatMessage>) -> ChatResponse {
    ChatResponse {
        id: "id".to_string(),
        object: "chat.completion".to_string(),
        created: 7,
        choices: messages
            .into_iter()
            .enumerate()
            .map(|(i, message)| ChatChoice { index: i as u32, message, finish_reason: "stop".to_string() })
            .collect(),
        usage: ChatUsage { prompt_tokens: 3, completion_tokens: 4, total_tokens: 7 },
    }
}

fn call_message() -> ChatMessage {
    ChatMessage::Assistant {
        content: AssistantContent::FunctionCall {
            function_call: FunctionCall { name: "add".to_string(), arguments: "{\"x\":1}".to_string() },
        },
        name: None,
    }
}

#[test]
fn message_constructors_and_content() {
    assert_eq!(ChatMessage::new_user("hi", Some("bob".to_string())).content().as_deref(), Some("hi"));
    assert_eq!(ChatMessage::new_system("rules").content().as_deref(), Some("rules"));
    assert_eq!(ChatMessage::new_assistant("answer").content().as_deref(), Some("answer"));
    let f = ChatMessage::new_function("42", "calc");
    assert_eq!(f.content().as_deref(), Some("42"));
    assert!(matches!(f, ChatMessage::Function { ref name, .. } if name == "calc"));
    assert!(call_message().content().is_none());
}

#[test]
fn response_accessors() {
    let r = response(vec![call_message(), ChatMessage::new_assistant("b")]);
    assert!(matches!(r.message(), Some(ChatMessage::Assistant { .. })));
    let call = r.function_call().unwrap();
    assert_eq!(call.name(), "add");
    assert_eq!(call.arguments(), "{\"x\":1}");
    assert_eq!(r.messages().len(), 2);
    assert_eq!(r.messages()[1].content().as_deref(), Some("b"));
    assert_eq!(r.tokens().total_tokens, 7);
    let plain = response(vec![ChatMessage::new_assistant("a")]);
    assert!(plain.function_call().is_none());
    let empty = response(vec![]);
    assert!(empty.message().is_none());
    assert!(empty.function_call().is_none());
    assert!(empty.messages().is_empty());
}

#[test]
fn stream_delta_of_first_choice() {
    let s = ChatStream {
        id: "x".to_string(),
        object: "chunk".to_string(),
        created: 1,
        choices: vec![
            StreamChoice { index: 0, delta: Some(ChatDelta::Content("tok".to_string())), finish_reason: None },
            StreamChoice { index: 1, delta: Some(ChatDelta::Role("user".to_string())), finish_reason: None },
        ],
    };
    assert!(matches!(s.delta(), Some(ChatDelta::Content(ref t)) if t == "tok"));
    let none = ChatStream { id: "x".to_string(), object: "chunk".to_string(), created: 1, choices: vec![] };
    assert!(none.delta().is_none());
}

#[test]
fn length_limit_of_manifest_fields() {
    assert_eq!(test_len("todo".to_string(), "name_for_model", 50).unwrap(), "todo");
    let exact = "a".repeat(MAX_NAME_FOR_HUMAN);
    assert!(test_len(exact, "name_for_human", MAX_NAME_FOR_HUMAN).is_ok());
    let e = test_len("To-Do Plugin Name that is Way TOO LONG!!!".to_string(), "name_for_human", MAX_NAME_FOR_HUMAN)
        .unwrap_err();
    assert_eq!(e.field, "name_for_human");
    assert_eq!(e.max, 20);
    assert_eq!(e.got, 41);
    assert_eq!(test_len("é".to_string(), "f", 1).unwrap_err().got, 2);
}

#[test]
fn embedding_request_defaults() {
    let r = EmbeddingRequest::new(EmbeddingInput::String("hello".to_string()));
    assert_eq!(r.model, EmbeddingModel::Ada);
    assert!(matches!(r.input, EmbeddingInput::String(ref s) if s == "hello"));
    assert!(r.user.is_none());
}
