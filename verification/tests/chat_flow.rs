use synexai::chat::{
    balance_request_check, balance_tools, chat_begin, chat_step, guidance, missing_tool_argument,
    system_prompt, AssistantMessage, ChatAction, ChatEvent, ChatMessage, ChatState,
    FunctionCall, ToolCall, ToolCallArgument,
};

fn user(s: &str) -> ChatMessage {
    ChatMessage::User { content: s.to_string() }
}

fn sui_address() -> String {
    format!("0x{}", "2b4d".repeat(16))
}

fn call(id: &str, name: &str, args: Vec<(&str, &str)>) -> ToolCall {
    ToolCall {
        id: id.to_string(),
        function: FunctionCall {
            name: name.to_string(),
            arguments: args
                .into_iter()
                .map(|(n, v)| ToolCallArgument { name: n.to_string(), value: v.to_string() })
                .collect(),
        },
    }
}

fn reply(content: Option<&str>, calls: Vec<ToolCall>) -> ChatEvent {
    ChatEvent::ModelReply(AssistantMessage { content: content.map(|c| c.to_string()), tool_calls: calls })
}

fn answer_of(action: ChatAction) -> String {
    match action {
        ChatAction::Reply(t) => t,
        _ => panic!("expected a reply"),
    }
}

fn user_text(m: &ChatMessage) -> Option<&str> {
    match m {
        ChatMessage::User { content } => Some(content),
        _ => None,
    }
}

#[test]
fn function_call_get() {
    let f = FunctionCall {
        name: "test_function".to_string(),
        arguments: vec![
            ToolCallArgument { name: "arg1".to_string(), value: "value1".to_string() },
            ToolCallArgument { name: "arg2".to_string(), value: "value2".to_string() },
            ToolCallArgument { name: "arg1".to_string(), value: "later".to_string() },
        ],
    };
    assert_eq!(f.get("arg1"), Some("value1".to_string()));
    assert_eq!(f.get("arg2"), Some("value2".to_string()));
    assert_eq!(f.get("arg3"), None);
}

#[test]
fn balance_words_in_any_case() {
    assert!(balance_request_check("What's my BALANCE?"));
    assert!(balance_request_check("Amount on ICP"));
    assert!(balance_request_check("sui"));
    assert!(!balance_request_check("hello there"));
}

#[test]
fn sui_address_in_balance_request_is_looked_up_directly() {
    let text = format!("What is the Balance of {} now", sui_address());
    let (state, action) = chat_begin(vec![user("hi"), user(&text)]);
    match action {
        ChatAction::LookupSui(a) => assert_eq!(a, sui_address()),
        _ => panic!("expected a Sui lookup"),
    }
    let (state, action) = chat_step(state, ChatEvent::LookupAnswer("B".to_string()));
    assert!(matches!(state, ChatState::Done));
    assert_eq!(
        answer_of(action),
        format!(
            "I found the Sui address {} in your message. Here's the balance information:\n\nB",
            sui_address()
        )
    );
}

#[test]
fn icp_account_in_balance_request_is_looked_up_directly() {
    let account = "0f".repeat(32);
    let text = format!("icp {}", account);
    let (state, action) = chat_begin(vec![user(&text)]);
    match action {
        ChatAction::LookupIcp(a) => assert_eq!(a, account),
        _ => panic!("expected an ICP lookup"),
    }
    let (_, action) = chat_step(state, ChatEvent::LookupAnswer("B".to_string()));
    assert_eq!(
        answer_of(action),
        format!("I found the ICP account {} in your message. Here's the balance information:\n\nB", account)
    );
}

#[test]
fn other_messages_go_to_the_model_with_tools() {
    let (state, action) = chat_begin(vec![user("hello")]);
    assert!(matches!(state, ChatState::FirstReply { .. }));
    match action {
        ChatAction::AskModel { messages, tools } => {
            assert_eq!(messages.len(), 2);
            match &messages[0] {
                ChatMessage::System { content } => assert_eq!(content, &system_prompt()),
                _ => panic!("expected the instructions first"),
            }
            assert!(system_prompt().starts_with("\nYou are SyneXAI"));
            assert_eq!(user_text(&messages[1]), Some("hello"));
            assert_eq!(tools.len(), 2);
            assert_eq!(tools[0].name, "lookup_icp_balance");
            assert_eq!(tools[1].name, "lookup_sui_balance");
            assert_eq!(tools[1].parameters[0].name, "address");
            assert!(tools[1].parameters[0].required);
        }
        _ => panic!("expected a model request"),
    }
}

#[test]
fn balance_question_without_address_adds_a_nudge() {
    let (_, action) = chat_begin(vec![user("what is my Sui balance")]);
    match action {
        ChatAction::AskModel { messages, .. } => {
            assert_eq!(messages.len(), 3);
            assert_eq!(
                user_text(&messages[2]),
                Some("Please use the appropriate lookup tool to check the balance for the address I provided.")
            );
        }
        _ => panic!("expected a model request"),
    }
    let (_, action) = chat_begin(vec![user("icp amount")]);
    match action {
        ChatAction::AskModel { messages, .. } => assert_eq!(messages.len(), 2),
        _ => panic!("expected a model request"),
    }
}

#[test]
fn tool_calls_run_in_order_and_are_answered() {
    let (state, _) = chat_begin(vec![user("hello")]);
    let calls = vec![
        call("c1", "weather", vec![]),
        call("c2", "lookup_icp_balance", vec![("account", "acc")]),
        call("c3", "lookup_sui_balance", vec![("address", "addr")]),
    ];
    let event = reply(None, calls);
    assert_eq!(missing_tool_argument(&state, &event), None);
    let (state, action) = chat_step(state, event);
    match action {
        ChatAction::LookupIcp(a) => assert_eq!(a, "acc"),
        _ => panic!("expected an ICP lookup"),
    }
    let event = ChatEvent::LookupAnswer("icp answer".to_string());
    assert_eq!(missing_tool_argument(&state, &event), None);
    let (state, action) = chat_step(state, event);
    match action {
        ChatAction::LookupSui(a) => assert_eq!(a, "addr"),
        _ => panic!("expected a Sui lookup"),
    }
    let (state, action) = chat_step(state, ChatEvent::LookupAnswer("sui answer".to_string()));
    assert!(matches!(state, ChatState::FinalReply));
    match action {
        ChatAction::AskModel { messages, tools } => {
            assert!(tools.is_empty());
            assert_eq!(messages.len(), 6);
            assert!(matches!(&messages[2], ChatMessage::Assistant(a) if a.tool_calls.len() == 3));
            let tool_messages: Vec<(String, String)> = messages[3..]
                .iter()
                .map(|m| match m {
                    ChatMessage::Tool { content, tool_call_id } => (content.clone(), tool_call_id.clone()),
                    _ => panic!("expected a tool message"),
                })
                .collect();
            assert_eq!(
                tool_messages,
                vec![
                    ("Unknown tool: weather".to_string(), "c1".to_string()),
                    ("icp answer".to_string(), "c2".to_string()),
                    ("sui answer".to_string(), "c3".to_string()),
                ]
            );
        }
        _ => panic!("expected a model request"),
    }
    let (state, action) = chat_step(state, reply(Some("final"), vec![]));
    assert!(matches!(state, ChatState::Done));
    assert_eq!(answer_of(action), "final");
}

#[test]
fn only_unknown_tools_go_straight_back_to_the_model() {
    let (state, _) = chat_begin(vec![user("hello")]);
    let (state, action) = chat_step(state, reply(Some("x"), vec![call("c1", "other", vec![])]));
    assert!(matches!(state, ChatState::FinalReply));
    assert!(matches!(action, ChatAction::AskModel { .. }));
    let (_, action) = chat_step(state, reply(None, vec![]));
    assert_eq!(answer_of(action), "");
}

#[test]
fn missing_argument_is_found() {
    let (state, _) = chat_begin(vec![user("hello")]);
    let event = reply(None, vec![call("c1", "other", vec![]), call("c2", "lookup_icp_balance", vec![("address", "x")])]);
    assert_eq!(missing_tool_argument(&state, &event), Some("account".to_string()));
    let event = reply(None, vec![call("c2", "lookup_sui_balance", vec![])]);
    assert_eq!(missing_tool_argument(&state, &event), Some("address".to_string()));
}

#[test]
fn guidance_when_no_tool_is_called() {
    let (state, _) = chat_begin(vec![user("my 0x balance")]);
    let (_, action) = chat_step(state, reply(Some("ignored"), vec![]));
    assert_eq!(
        answer_of(action),
        "I can see you're asking about a Sui address balance. Let me help you with that. Please provide the complete Sui address (66 characters starting with 0x) and I'll look up the balance for you."
    );
    let long = format!("what is the balance for account number {}", "9".repeat(30));
    assert_eq!(
        guidance(&long),
        "I can see you're asking about a crypto balance. Please clarify if this is a Sui address (starts with 0x, 66 chars) or an ICP account (64 hex chars), and I'll look it up for you."
    );
    assert_eq!(
        guidance("icp please"),
        "I can help you check cryptocurrency balances! Please provide:\n- For Sui: a 66-character address starting with 0x\n- For ICP: a 64-character hexadecimal account identifier"
    );
}

#[test]
fn direct_content_or_fallback() {
    let (state, _) = chat_begin(vec![user("hello")]);
    let (_, action) = chat_step(state, reply(Some("Hi!"), vec![]));
    assert_eq!(answer_of(action), "Hi!");
    let (state, _) = chat_begin(vec![user("hello")]);
    let (_, action) = chat_step(state, reply(None, vec![]));
    assert_eq!(
        answer_of(action),
        "I'm here to help you check blockchain balances! Please provide a Sui address (66 chars starting with 0x) or ICP account (64 hex chars) and I'll look up the balance."
    );
    let (state, _) = chat_begin(vec![]);
    let (_, action) = chat_step(state, reply(Some(""), vec![]));
    assert!(answer_of(action).starts_with("I'm here to help"));
}

#[test]
fn tools_offered() {
    let tools = balance_tools();
    assert_eq!(tools[0].parameters.len(), 1);
    assert_eq!(tools[0].parameters[0].name, "account");
    assert_eq!(
        tools[0].parameters[0].description,
        "The ICP account identifier - exactly 64 hexadecimal characters (no 0x prefix)"
    );
}

#[test]
fn only_the_last_user_message_decides_a_direct_lookup() {
    let ask = || user(&format!("sui balance of {}", sui_address()));
    let (state, action) = chat_begin(vec![ask()]);
    assert!(matches!(state, ChatState::DirectSui { .. }));
    assert!(matches!(&action, ChatAction::LookupSui(a) if *a == sui_address()));
    let messages = vec![
        user("hello"),
        ChatMessage::System { content: "be brief".to_string() },
        user(&format!("icp balance of {}", "ab12".repeat(16))),
        ask(),
        ChatMessage::Assistant(AssistantMessage { content: Some("ok".to_string()), tool_calls: vec![] }),
        ChatMessage::Tool { content: "x".to_string(), tool_call_id: "c9".to_string() },
    ];
    let (state, action) = chat_begin(messages);
    assert!(matches!(state, ChatState::DirectSui { address } if address == sui_address()));
    assert!(matches!(action, ChatAction::LookupSui(a) if a == sui_address()));
}
