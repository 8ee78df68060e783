use talos::client::{chat_url, check_status, read_models, tags_url, Exchange, ServiceFailure};
use talos::db::{add_message_with, create_conversation_with, get_messages, Store, StoreError};
use talos::history::project_history;
use talos::model::{ChatMessage, ChatResponse, OllamaModel, Role};
use talos::turn::{begin_regenerate_turn, begin_send_turn, finish_turn, TurnError};

fn fresh(id: &str) -> Store {
    let mut s = Store::new();
    create_conversation_with(&mut s, id.to_string(), "T", "modelX", 1).unwrap();
    s
}

fn reply(content: &str) -> Exchange<ChatResponse> {
    Exchange::Answered {
        status: 200,
        body: Some(ChatResponse {
            message: Some(ChatMessage { role: "assistant".to_string(), content: content.to_string() }),
            done: true,
        }),
    }
}

#[test]
fn send_turn_scenario() {
    let mut s = fresh("c");
    let req = begin_send_turn(&mut s, "c", "hello", "modelX").unwrap();
    assert_eq!(req.model, "modelX");
    assert!(!req.stream);
    assert_eq!(req.messages.len(), 1);
    assert_eq!(req.messages[0].role, "user");
    assert_eq!(req.messages[0].content, "hello");
    let out = finish_turn(&mut s, "c", reply("hi there")).unwrap();
    assert_eq!(out, "hi there");
    let got = get_messages(&s, "c");
    assert_eq!(got.len(), 2);
    assert_eq!((got[0].role, got[0].content.as_str()), (Role::User, "hello"));
    assert_eq!((got[1].role, got[1].content.as_str()), (Role::Assistant, "hi there"));
}

#[test]
fn failed_call_keeps_the_user_message() {
    let mut s = fresh("c");
    begin_send_turn(&mut s, "c", "hello", "modelX").unwrap();
    let err = finish_turn(&mut s, "c", Exchange::Answered { status: 500, body: None }).unwrap_err();
    assert_eq!(err, TurnError::Service(ServiceFailure::ServiceError));
    let got = get_messages(&s, "c");
    assert_eq!(got.len(), 1);
    assert_eq!(got[0].role, Role::User);
    assert_eq!(got[0].content, "hello");
}

#[test]
fn each_service_failure_is_reported() {
    let mut s = fresh("c");
    let unreachable = finish_turn(&mut s, "c", Exchange::Unreachable).unwrap_err();
    assert_eq!(unreachable, TurnError::Service(ServiceFailure::ServiceUnavailable));
    let garbled = finish_turn(&mut s, "c", Exchange::Answered { status: 200, body: None }).unwrap_err();
    assert_eq!(garbled, TurnError::Service(ServiceFailure::ProtocolError));
    let empty = Exchange::Answered { status: 200, body: Some(ChatResponse { message: None, done: true }) };
    assert_eq!(finish_turn(&mut s, "c", empty).unwrap_err(), TurnError::Service(ServiceFailure::EmptyResponse));
    assert_eq!(TurnError::Service(ServiceFailure::EmptyResponse).describe(), "no response from model");
    assert!(get_messages(&s, "c").is_empty());
}

#[test]
fn send_turn_on_unknown_conversation() {
    let mut s = fresh("c");
    let err = begin_send_turn(&mut s, "nope", "hello", "modelX").unwrap_err();
    assert_eq!(err, TurnError::Storage(StoreError::UnknownConversation));
    assert!(s.messages.is_empty());
    let late = finish_turn(&mut s, "nope", reply("x")).unwrap_err();
    assert_eq!(late, TurnError::Storage(StoreError::UnknownConversation));
}

#[test]
fn regenerate_adds_one_assistant_message() {
    let mut s = fresh("c");
    add_message_with(&mut s, "1".to_string(), "c", "user", "q", 5).unwrap();
    add_message_with(&mut s, "2".to_string(), "c", "assistant", "a1", 5).unwrap();
    let before = get_messages(&s, "c");
    let req = begin_regenerate_turn(&s, "c", "modelY");
    assert_eq!(req.model, "modelY");
    assert_eq!(req.messages.len(), 2);
    assert_eq!(req.messages[1].role, "assistant");
    assert_eq!(req.messages[1].content, "a1");
    finish_turn(&mut s, "c", reply("a2")).unwrap();
    let after = get_messages(&s, "c");
    assert_eq!(after.len(), before.len() + 1);
    for (x, y) in before.iter().zip(after.iter()) {
        assert_eq!(x.id, y.id);
        assert_eq!(x.content, y.content);
        assert_eq!(x.created_at, y.created_at);
    }
    assert_eq!(after[2].role, Role::Assistant);
    assert_eq!(after[2].content, "a2");
}

#[test]
fn status_probe_never_fails() {
    assert!(!check_status::<()>(&Exchange::Unreachable));
    assert!(check_status::<()>(&Exchange::Answered { status: 200, body: None }));
    assert!(check_status::<()>(&Exchange::Answered { status: 299, body: None }));
    assert!(!check_status::<()>(&Exchange::Answered { status: 404, body: None }));
    assert!(!check_status::<()>(&Exchange::Answered { status: 199, body: None }));
}

#[test]
fn model_listing_outcomes() {
    let models = vec![OllamaModel { name: "llama".to_string(), modified_at: None, size: Some(7) }];
    let ok = read_models(Exchange::Answered { status: 200, body: Some(models) }).unwrap();
    assert_eq!(ok.len(), 1);
    assert_eq!(ok[0].name, "llama");
    assert_eq!(ok[0].size, Some(7));
    assert_eq!(read_models(Exchange::Unreachable).unwrap_err(), ServiceFailure::ServiceUnavailable);
    assert_eq!(read_models(Exchange::Answered { status: 503, body: None }).unwrap_err(), ServiceFailure::ServiceError);
    assert_eq!(read_models(Exchange::Answered { status: 200, body: None }).unwrap_err(), ServiceFailure::ProtocolError);
}

#[test]
fn service_addresses() {
    assert_eq!(tags_url("http://localhost:11434"), "http://localhost:11434/api/tags");
    assert_eq!(chat_url("http://localhost:11434"), "http://localhost:11434/api/chat");
}

#[test]
fn projection_keeps_order_role_and_content() {
    let mut s = fresh("c");
    assert!(project_history(&get_messages(&s, "c")).is_empty());
    add_message_with(&mut s, "1".to_string(), "c", "system", "be brief", 5).unwrap();
    add_message_with(&mut s, "2".to_string(), "c", "user", "q", 5).unwrap();
    let pairs = project_history(&get_messages(&s, "c"));
    let flat: Vec<(&str, &str)> = pairs.iter().map(|p| (p.role.as_str(), p.content.as_str())).collect();
    assert_eq!(flat, vec![("system", "be brief"), ("user", "q")]);
}
