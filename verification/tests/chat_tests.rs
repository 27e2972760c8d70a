use chatty::chat_manager::{
    generate_system_instructions, history_file_name, titled_history_file_name, ChatDelta, ChatError,
    TITLE_REQUEST,
    ChatHistory, ChatMessage, Role, StreamedReply,
};
use chatty::utils::CHAT_MODEL_NAME;

fn msg(role: Role, content: &str) -> ChatMessage {
    ChatMessage { role, content: content.to_string(), name: None }
}

#[test]
fn new_history_holds_the_system_prompt() {
    let h = ChatHistory::new("be brief").unwrap();
    assert_eq!(h.messages(), &vec![msg(Role::System, "be brief")]);
}

#[test]
fn a_turn_adds_question_then_reply() {
    let mut h = ChatHistory::new("prompt").unwrap();
    let req = h.begin_turn("what time is it?");
    assert_eq!(req.model, CHAT_MODEL_NAME);
    assert_eq!(req.messages, vec![msg(Role::System, "prompt"), msg(Role::User, "what time is it?")]);
    let text = h.record_reply(Role::Assistant, "noon");
    assert_eq!(text, "noon");
    assert_eq!(
        h.messages(),
        &vec![
            msg(Role::System, "prompt"),
            msg(Role::User, "what time is it?"),
            msg(Role::Assistant, "noon"),
        ]
    );
    h.begin_turn("and now?");
    h.record_reply(Role::Assistant, "still noon");
    assert_eq!(h.messages().len(), 5);
    assert_eq!(h.messages()[0], msg(Role::System, "prompt"));
    assert_eq!(h.messages()[3], msg(Role::User, "and now?"));
}

#[test]
fn streamed_reply_joins_chunks_and_keeps_last_role() {
    let mut r = StreamedReply::new();
    let first = ChatDelta { role: Some(Role::Assistant), content: None };
    let second = ChatDelta { role: None, content: Some("Hel".to_string()) };
    let third = ChatDelta { role: None, content: Some("lo".to_string()) };
    assert_eq!(r.absorb(Some(&first)), Ok(None));
    assert_eq!(r.absorb(Some(&second)), Ok(Some("Hel".to_string())));
    assert_eq!(r.absorb(Some(&third)), Ok(Some("lo".to_string())));
    assert_eq!(r.content(), "Hello");
    assert_eq!(r.role(), Role::Assistant);
}

#[test]
fn streamed_reply_without_role_is_the_assistants() {
    let mut r = StreamedReply::new();
    r.absorb(Some(&ChatDelta { role: None, content: Some("x".to_string()) })).unwrap();
    assert_eq!(r.role(), Role::Assistant);
    r.absorb(Some(&ChatDelta { role: Some(Role::User), content: None })).unwrap();
    assert_eq!(r.role(), Role::User);
}

#[test]
fn streamed_chunk_without_choice_is_an_error() {
    let mut r = StreamedReply::new();
    r.absorb(Some(&ChatDelta { role: None, content: Some("kept".to_string()) })).unwrap();
    assert_eq!(r.absorb(None), Err(ChatError::NoFirstChoice));
    assert_eq!(r.content(), "kept");
}

#[test]
fn system_instructions_for_a_given_time() {
    let t = generate_system_instructions("2023-03-01T10:00:00+01:00");
    assert_eq!(
        t.get("default").unwrap(),
        "You are ChatGPT, a large language model trained by OpenAI. \nAnswer as concisely as possible. Knowledge cutoff: 2021 Current date: 2023-03-01T10:00:00+01:00"
    );
    assert_eq!(
        t.get("joi").unwrap(),
        "You are Joi. The cheerful and helpful AI assistant. \nKnowledge cutoff: 2021 Current date: 2023-03-01T10:00:00+01:00"
    );
    assert_eq!(t.get("other"), None);
}

#[test]
fn instructions_are_found_by_name_only() {
    let t = generate_system_instructions("T");
    assert!(t.get("default").unwrap().ends_with("Current date: T"));
    assert!(t.get("joi").unwrap().ends_with("Current date: T"));
    assert_eq!(t.get("Joi"), None);
    assert_eq!(t.get(""), None);
}

#[test]
fn title_request_asks_about_the_whole_conversation() {
    let mut h = ChatHistory::new("prompt").unwrap();
    h.begin_turn("hello");
    h.record_reply(Role::Assistant, "hi");
    let req = h.title_request();
    assert_eq!(req.model, CHAT_MODEL_NAME);
    assert_eq!(
        req.messages,
        vec![
            msg(Role::System, "prompt"),
            msg(Role::User, "hello"),
            msg(Role::Assistant, "hi"),
            msg(Role::User, TITLE_REQUEST),
        ]
    );
    assert_eq!(h.messages().len(), 3);
}

#[test]
fn titled_file_names() {
    assert_eq!(
        titled_history_file_name("2023-03-01T10:00:00+01:00", "  Lights: on/off? \n"),
        "2023-03-01T10:00:00+01:00_Lights__on_off_.yaml"
    );
    assert_eq!(titled_history_file_name("T", "Weather-talk 2"), "T_Weather-talk_2.yaml");
    assert_eq!(titled_history_file_name("T", "Café"), "T_Caf_.yaml");
    assert_eq!(titled_history_file_name("T", "   "), "T.yaml");
}

#[test]
fn history_file_is_named_after_the_time() {
    assert_eq!(history_file_name("2023-03-01T10:00:00+01:00"), "2023-03-01T10:00:00+01:00.yaml");
}
