use fracta::ai::{last_user_message, ChatMessage, ChatRole, EchoProvider};

#[test]
fn test_chat_message_constructors() {
    let sys = ChatMessage::system("Hello");
    assert_eq!(sys.role, ChatRole::System);
    assert_eq!(sys.content, "Hello");

    let user = ChatMessage::user("World");
    assert_eq!(user.role, ChatRole::User);

    let asst = ChatMessage::assistant("!");
    assert_eq!(asst.role, ChatRole::Assistant);
}

#[test]
fn test_model_name() {
    let provider = EchoProvider;
    assert_eq!(provider.model_name(), "echo-v1");
}

#[test]
fn last_user_message_is_the_latest() {
    let messages = vec![
        ChatMessage::system("Context"),
        ChatMessage::user("First message"),
        ChatMessage::assistant("First reply"),
        ChatMessage::user("Second message"),
    ];
    assert_eq!(last_user_message(&messages), Some("Second message".to_string()));
    assert_eq!(last_user_message(&vec![ChatMessage::system("System prompt only.")]), None);
}

#[test]
fn role_names() {
    assert_eq!(ChatRole::System.name(), "system");
    assert_eq!(ChatRole::User.name(), "user");
    assert_eq!(ChatRole::Assistant.name(), "assistant");
}

#[test]
fn test_echo_provider_basic() {
    let provider = EchoProvider;
    let messages = vec![ChatMessage::system("You are a helpful assistant."), ChatMessage::user("Hello, world!")];
    let response = provider.reply(&messages);
    assert!(response.content.contains("Hello, world!"));
    assert!(response.content.starts_with("I received your message: \"Hello, world!\"\n\n"));
    assert_eq!(response.model, "echo-v1");
    assert!(response.tokens_used > 0);
    assert_eq!(response.tokens_used as usize, ("Hello, world!".len() + response.content.len()) / 4);
}

#[test]
fn test_echo_provider_empty_input() {
    let response = EchoProvider.reply(&vec![ChatMessage::system("System prompt only.")]);
    assert!(response.content.contains("didn't receive"));
    assert_eq!(response.content, "I didn't receive a message. How can I help you?");
    assert_eq!(response.tokens_used as usize, response.content.len() / 4);
}

#[test]
fn test_echo_provider_multi_turn() {
    let messages = vec![
        ChatMessage::system("Context"),
        ChatMessage::user("First message"),
        ChatMessage::assistant("First reply"),
        ChatMessage::user("Second message"),
    ];
    let response = EchoProvider.reply(&messages);
    assert!(response.content.contains("Second message"));
    assert!(!response.content.contains("First message"));
}
