use th_chat::chat::{
    await_response, channel_step, cleanup_report, completion_reply, head_reply, history_reply,
    initial_state_for, metadata_reply, server_failure, wait_step, ChannelStep,
    ChatEntry, ChatError, ChatMessage, ChatStateRequest, ChatStateResponse, CompletionResponse,
    ErrorInfo, InitialState, Message, MessageContent, Reply, ResponseKind, Role, ServerResponse,
    StopOutcome, WaitStep,
};
use th_chat::persistence;

fn error(code: &str, message: &str) -> ChatStateResponse {
    ChatStateResponse::Error {
        error: ErrorInfo { code: code.to_string(), message: message.to_string(), details: None },
    }
}

fn text_entry(id: &str) -> ChatMessage {
    ChatMessage {
        id: Some(id.to_string()),
        parent_id: None,
        entry: ChatEntry::Message(Message {
            role: Role::Assistant,
            content: vec![MessageContent::Text { text: "hello".to_string() }],
        }),
    }
}

#[test]
fn request_is_correlated_under_noise() {
    let stream = vec![
        ServerResponse::ChannelOpened { channel_id: "ch".to_string() },
        ServerResponse::ActorStopped,
        ServerResponse::RequestedMessage { message: b"payload".to_vec() },
        ServerResponse::RequestedMessage { message: b"later".to_vec() },
    ];
    let at = await_response(&stream, ResponseKind::RequestedMessage, 0);
    assert_eq!(at, Some(2));
    assert_eq!(stream[2], ServerResponse::RequestedMessage { message: b"payload".to_vec() });
    // The next request goes on behind the response that was delivered.
    assert_eq!(await_response(&stream, ResponseKind::RequestedMessage, 3), Some(3));
    assert_eq!(await_response(&stream, ResponseKind::RequestedMessage, 4), None);
}

#[test]
fn request_fails_on_the_first_error() {
    let stream = vec![
        ServerResponse::ChannelMessage { channel_id: "ch".to_string(), message: vec![1] },
        ServerResponse::Error { error: "boom".to_string() },
        ServerResponse::ActorStarted { id: "actor".to_string() },
    ];
    assert_eq!(await_response(&stream, ResponseKind::ActorStarted, 0), Some(1));
    assert_eq!(wait_step(ResponseKind::ActorStarted, &stream[1]), WaitStep::Fail);
    assert_eq!(
        server_failure(ServerResponse::Error { error: "boom".to_string() }),
        Some(ChatError::Server { error: "boom".to_string() })
    );
    assert_eq!(server_failure(ServerResponse::ActorStopped), None);
}

#[test]
fn request_keeps_waiting_without_a_match() {
    let stream = vec![ServerResponse::ChannelClosed, ServerResponse::Other];
    assert_eq!(await_response(&stream, ResponseKind::ActorStopped, 0), None);
    assert_eq!(await_response(&Vec::new(), ResponseKind::ActorStopped, 0), None);
}

#[test]
fn every_wait_decides_by_the_same_rule() {
    let started = ServerResponse::ActorStarted { id: "a".to_string() };
    let failed = ServerResponse::Error { error: "e".to_string() };
    let pushed = ServerResponse::ChannelMessage { channel_id: "c".to_string(), message: vec![] };
    for expected in [
        ResponseKind::ActorStarted,
        ResponseKind::RequestedMessage,
        ResponseKind::ActorStopped,
    ] {
        assert_eq!(wait_step(expected, &failed), WaitStep::Fail);
        assert_eq!(wait_step(expected, &pushed), WaitStep::Discard);
    }
    assert_eq!(wait_step(ResponseKind::ActorStarted, &started), WaitStep::Deliver);
    assert_eq!(wait_step(ResponseKind::RequestedMessage, &started), WaitStep::Discard);
    assert_eq!(started.kind(), ResponseKind::ActorStarted);
    assert_eq!(ServerResponse::Other.kind(), ResponseKind::Other);
}

#[test]
fn head_reply_surfaces_errors_and_passes_over_the_rest() {
    assert_eq!(
        head_reply(Ok(ChatStateResponse::Head { head: Some("h1".to_string()) })),
        Reply::Done(Some("h1".to_string()))
    );
    assert_eq!(head_reply(Ok(ChatStateResponse::Head { head: None })), Reply::Done(None));
    assert_eq!(
        head_reply(Ok(error("500", "no conversation"))),
        Reply::Failed(ChatError::Actor {
            code: "500".to_string(),
            message: "no conversation".to_string()
        })
    );
    assert_eq!(head_reply(Ok(ChatStateResponse::Success)), Reply::KeepWaiting);
    assert_eq!(
        head_reply(Ok(ChatStateResponse::ChatMessage { message: text_entry("m") })),
        Reply::KeepWaiting
    );
    assert_eq!(
        head_reply(Err("bad json".to_string())),
        Reply::Failed(ChatError::Decode { detail: "bad json".to_string() })
    );
}

#[test]
fn history_and_metadata_replies() {
    assert_eq!(
        history_reply(Ok(ChatStateResponse::History { messages: vec![text_entry("a")] })),
        Reply::Done(vec![text_entry("a")])
    );
    assert_eq!(
        history_reply(Ok(error("1", "x"))),
        Reply::Failed(ChatError::Actor { code: "1".to_string(), message: "x".to_string() })
    );
    assert_eq!(history_reply(Ok(ChatStateResponse::Head { head: None })), Reply::KeepWaiting);
    assert_eq!(
        metadata_reply(Ok(ChatStateResponse::Metadata {
            conversation_id: "conv".to_string(),
            store_id: "store".to_string(),
        })),
        Reply::Done(("conv".to_string(), "store".to_string()))
    );
    assert_eq!(metadata_reply(Ok(ChatStateResponse::Success)), Reply::KeepWaiting);
    assert_eq!(
        metadata_reply(Err("d".to_string())),
        Reply::Failed(ChatError::Decode { detail: "d".to_string() })
    );
}

#[test]
fn completion_reply_waits_for_a_named_head() {
    assert_eq!(
        completion_reply(Ok(ChatStateResponse::Head { head: Some("new".to_string()) })),
        Reply::Done("new".to_string())
    );
    assert_eq!(completion_reply(Ok(ChatStateResponse::Head { head: None })), Reply::KeepWaiting);
    assert_eq!(
        completion_reply(Ok(error("429", "slow down"))),
        Reply::Failed(ChatError::Actor {
            code: "429".to_string(),
            message: "slow down".to_string()
        })
    );
}

#[test]
fn request_tags() {
    assert_eq!(ChatStateRequest::GetHead.type_tag(), "get_head");
    assert_eq!(
        ChatStateRequest::GetMessage { message_id: "m".to_string() }.type_tag(),
        "get_message"
    );
    assert_eq!(ChatStateRequest::GetHistory.type_tag(), "get_history");
    assert_eq!(ChatStateRequest::GetMetadata.type_tag(), "get_metadata");
    assert_eq!(ChatStateRequest::GenerateCompletion.type_tag(), "generate_completion");
    assert_eq!(ChatStateRequest::UpdateSettings.type_tag(), "update_settings");
    let request = ChatStateRequest::user_message("hi".to_string());
    assert_eq!(request.type_tag(), "add_message");
    assert_eq!(
        request,
        ChatStateRequest::AddMessage {
            message: Message {
                role: Role::User,
                content: vec![MessageContent::Text { text: "hi".to_string() }],
            }
        }
    );
}

#[test]
fn initial_state_resumes_an_earlier_session() {
    assert_eq!(initial_state_for(None), InitialState::Fresh);
    let session = persistence::SessionData::new_at("conv".to_string(), "store".to_string(), 7);
    assert_eq!(
        initial_state_for(Some(&session)),
        InitialState::Resume { store_id: "store".to_string(), conversation_id: "conv".to_string() }
    );
}

#[test]
fn cleanup_never_fails() {
    assert_eq!(cleanup_report(&StopOutcome::Stopped, false), None);
    assert_eq!(
        cleanup_report(&StopOutcome::Stopped, true),
        Some("Actor stopped successfully".to_string())
    );
    assert_eq!(
        cleanup_report(&StopOutcome::SendFailed { detail: "closed".to_string() }, false),
        Some("Warning: Failed to send stop actor command: closed".to_string())
    );
    assert_eq!(
        cleanup_report(&StopOutcome::Failed { detail: "nope".to_string() }, true),
        Some("Warning: Error during actor cleanup: nope".to_string())
    );
    assert_eq!(
        cleanup_report(&StopOutcome::TimedOut, false),
        Some("Warning: Actor cleanup timed out".to_string())
    );
}

#[test]
fn channel_steps() {
    assert_eq!(
        channel_step(&ServerResponse::ChannelMessage {
            channel_id: "c".to_string(),
            message: vec![]
        }),
        ChannelStep::Process
    );
    assert_eq!(
        channel_step(&ServerResponse::ChannelOpened { channel_id: "c".to_string() }),
        ChannelStep::Ignore
    );
    assert_eq!(channel_step(&ServerResponse::ChannelClosed), ChannelStep::Stop);
    assert_eq!(channel_step(&ServerResponse::ActorStopped), ChannelStep::Stop);
}

#[test]
fn completion_entries_show_as_messages() {
    let completion = CompletionResponse {
        id: "cmpl".to_string(),
        model: "m".to_string(),
        role: Role::Assistant,
        content: vec![MessageContent::Text { text: "answer".to_string() }],
        stop_reason: "end_turn".to_string(),
        input_tokens: 3,
        output_tokens: 5,
    };
    let entry = ChatMessage {
        id: Some("e".to_string()),
        parent_id: Some("p".to_string()),
        entry: ChatEntry::Completion(completion.clone()),
    };
    assert!(entry.is_completion());
    assert_eq!(entry.as_completion(), Some(&completion));
    assert_eq!(
        entry.as_message(),
        Message {
            role: Role::Assistant,
            content: vec![MessageContent::Text { text: "answer".to_string() }],
        }
    );
    let plain = text_entry("t");
    assert!(!plain.is_completion());
    assert_eq!(plain.as_completion(), None);
    assert_eq!(plain.as_message().role, Role::Assistant);
    assert_eq!(plain.clone(), plain);
}

/// Runs a request over answers that have arrived, as the client's loop
/// does: each answer is decided on, and the first that is not passed over
/// ends the request.
fn request_over<T>(
    answers: Vec<ChatStateResponse>,
    decide: fn(Result<ChatStateResponse, String>) -> Reply<T>,
) -> Option<Result<T, ChatError>> {
    for answer in answers {
        match decide(Ok(answer)) {
            Reply::Done(value) => return Some(Ok(value)),
            Reply::Failed(error) => return Some(Err(error)),
            Reply::KeepWaiting => {}
        }
    }
    None
}

#[test]
fn a_late_acknowledgement_does_not_fail_the_head_request() {
    let answers = vec![
        ChatStateResponse::Success,
        ChatStateResponse::Head { head: Some("h1".to_string()) },
    ];
    assert_eq!(request_over(answers, head_reply), Some(Ok(Some("h1".to_string()))));
}

#[test]
fn every_request_passes_over_what_it_does_not_await() {
    let noise = || vec![ChatStateResponse::Success, ChatStateResponse::Success];
    assert_eq!(request_over(noise(), head_reply), None);
    assert_eq!(request_over(noise(), history_reply), None);
    assert_eq!(request_over(noise(), metadata_reply), None);
    assert_eq!(request_over(noise(), completion_reply), None);
    let failed = ChatError::Actor { code: "7".to_string(), message: "no".to_string() };
    let with_error = || vec![ChatStateResponse::Success, error("7", "no")];
    assert_eq!(request_over(with_error(), head_reply), Some(Err(failed)));
    assert!(matches!(request_over(with_error(), history_reply), Some(Err(_))));
    assert!(matches!(request_over(with_error(), metadata_reply), Some(Err(_))));
    assert!(matches!(request_over(with_error(), completion_reply), Some(Err(_))));
}
