use onec_buddy_mcp::naparnik::types::Conversation;

#[test]
fn conversation_parent_starts_at_root_and_advances_to_assistant_message() {
    let mut conversation =
        Conversation::new("conversation-1".to_owned(), Some("root-1".to_owned()));

    assert_eq!(conversation.id(), "conversation-1");
    assert_eq!(conversation.parent_uuid(), Some("root-1"));

    conversation.advance_parent("assistant-1".to_owned());
    assert_eq!(conversation.parent_uuid(), Some("assistant-1"));
}

#[test]
fn conversation_can_start_without_root_parent() {
    let conversation = Conversation::new("conversation-1".to_owned(), None);

    assert_eq!(conversation.parent_uuid(), None);
}
