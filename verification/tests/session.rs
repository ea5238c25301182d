//! Session transitions, run on concrete conversations.

use nano::provider::{CompletionOutcome, ModelMessage, ToolCall, Usage};
use nano::session::{
    FailureCategory, RunId, RunTerminalState, Session, SessionError, SessionFailure,
};

const FIRST_MODEL_ID: &str = "model/first";
const SECOND_MODEL_ID: &str = "model/second";

fn usage(input_tokens: u64, output_tokens: u64) -> Usage {
    Usage {
        input_tokens,
        cached_input_tokens: input_tokens / 2,
        output_tokens,
    }
}

fn query_arguments(query: &str) -> serde_json::Value {
    let mut arguments = serde_json::Map::new();
    arguments.insert(
        "query".to_owned(),
        serde_json::Value::String(query.to_owned()),
    );
    serde_json::Value::Object(arguments)
}

fn tool_call(tool_call_id: &str, tool_name: &str) -> ToolCall {
    ToolCall {
        tool_call_id: tool_call_id.to_owned(),
        tool_name: tool_name.to_owned(),
        arguments: query_arguments(tool_call_id),
    }
}

fn messages(session: &Session) -> Vec<ModelMessage> {
    session
        .conversation_records()
        .iter()
        .filter(|record| record.is_model_visible())
        .map(|record| record.message().clone())
        .collect()
}

fn all_records(session: &Session) -> Vec<(u64, u64, ModelMessage, bool)> {
    session
        .conversation_records()
        .iter()
        .map(|record| {
            (
                record.message_id().as_u64(),
                record.run_id().as_u64(),
                record.message().clone(),
                record.is_model_visible(),
            )
        })
        .collect()
}

fn start_run(session: &mut Session, content: &str) -> RunId {
    session
        .start_run(content.to_owned())
        .expect("run should start")
        .run_id()
}

#[test]
fn two_runs_snapshot_ordered_history_and_preserve_model_and_usage() {
    let mut session = Session::new(FIRST_MODEL_ID.to_owned());
    let first_start = session
        .start_run("first request".to_owned())
        .expect("first run should start");
    let first_run_id = first_start.run_id();
    assert_eq!(first_start.user_message_id().as_u64(), 1);
    assert_eq!(first_start.request().model_id, FIRST_MODEL_ID);
    assert_eq!(
        first_start.request().messages,
        vec![ModelMessage::User {
            content: "first request".to_owned(),
        }]
    );
    let first_delta = session
        .append_assistant_delta(first_run_id, "first ".to_owned())
        .expect("first response delta should append");
    assert!(first_delta.assistant_message_created());
    let first_assistant_message_id = session.runs()[0].exchanges()[0]
        .assistant_message_id()
        .expect("first response should own an assistant record");
    assert_eq!(
        first_delta.assistant_message_id(),
        Some(first_assistant_message_id)
    );
    let later_delta = session
        .append_assistant_delta(first_run_id, "response".to_owned())
        .expect("second response delta should append");
    assert!(!later_delta.assistant_message_created());
    assert_eq!(
        later_delta.assistant_message_id(),
        Some(first_assistant_message_id)
    );
    assert_eq!(
        session.runs()[0].exchanges()[0].assistant_message_id(),
        Some(first_assistant_message_id)
    );
    let first_usage = usage(10, 4);
    session
        .record_usage(first_run_id, first_usage)
        .expect("first usage should append");
    session
        .finish_run(first_run_id, CompletionOutcome::Complete)
        .expect("first run should finish");

    session.select_model(SECOND_MODEL_ID.to_owned());
    let second_run_id = start_run(&mut session, "second request");
    assert_eq!(first_run_id.as_u64(), 1);
    assert_eq!(second_run_id.as_u64(), 2);
    assert_eq!(session.current_model_id(), SECOND_MODEL_ID);
    assert_eq!(session.runs()[0].model_id(), FIRST_MODEL_ID);
    assert_eq!(session.runs()[1].model_id(), SECOND_MODEL_ID);
    assert_eq!(
        session.runs()[0].exchanges()[0].request().model_id,
        FIRST_MODEL_ID
    );
    assert_eq!(
        session.runs()[1].exchanges()[0].request().model_id,
        SECOND_MODEL_ID
    );
    assert_eq!(session.runs()[0].exchanges()[0].usage(), Some(first_usage));
    assert_eq!(session.runs()[1].exchanges()[0].usage(), None);
    assert_eq!(
        session.runs()[1].exchanges()[0].request().messages,
        vec![
            ModelMessage::User {
                content: "first request".to_owned(),
            },
            ModelMessage::Assistant {
                content: "first response".to_owned(),
                tool_calls: Vec::new(),
            },
            ModelMessage::User {
                content: "second request".to_owned(),
            },
        ]
    );

    let second_usage = usage(20, 8);
    session
        .append_assistant_delta(second_run_id, "second response".to_owned())
        .expect("second response should append");
    session
        .record_usage(second_run_id, usage(19, 7))
        .expect("initial second usage should append");
    session
        .record_usage(second_run_id, second_usage)
        .expect("latest second usage should replace the initial usage");
    session
        .finish_run(second_run_id, CompletionOutcome::LengthLimited)
        .expect("second run should finish");

    assert_eq!(session.runs()[0].exchanges()[0].usage(), Some(first_usage));
    assert_eq!(session.runs()[1].exchanges()[0].usage(), Some(second_usage));
    assert_eq!(
        session.runs()[0].terminal_state(),
        &RunTerminalState::Completed(CompletionOutcome::Complete)
    );
    assert_eq!(
        session.runs()[0].exchanges()[0].terminal_state(),
        &RunTerminalState::Completed(CompletionOutcome::Complete)
    );
    assert_eq!(
        session.runs()[1].terminal_state(),
        &RunTerminalState::Completed(CompletionOutcome::LengthLimited)
    );
    assert_eq!(
        session.runs()[1].exchanges()[0].terminal_state(),
        &RunTerminalState::Completed(CompletionOutcome::LengthLimited)
    );
    assert_eq!(
        all_records(&session)
            .iter()
            .map(|record| (record.0, record.1))
            .collect::<Vec<_>>(),
        vec![(1, 1), (2, 1), (3, 2), (4, 2)]
    );
    assert!(all_records(&session).iter().all(|record| record.3));
}

#[test]
fn successful_no_content_response_does_not_create_empty_assistant_record() {
    let mut session = Session::new(FIRST_MODEL_ID.to_owned());
    let run_id = start_run(&mut session, "request");
    assert_eq!(
        session.runs()[0].terminal_state(),
        &RunTerminalState::Running
    );
    assert_eq!(
        session.runs()[0].exchanges()[0].terminal_state(),
        &RunTerminalState::Running
    );
    session
        .append_assistant_delta(run_id, String::new())
        .expect("empty delta should be ignored");
    session
        .finish_run(run_id, CompletionOutcome::Complete)
        .expect("run should finish");

    assert_eq!(session.conversation_records().len(), 1);
    assert!(matches!(
        session.conversation_records()[0].message(),
        ModelMessage::User { content } if content == "request"
    ));
    assert_eq!(
        session.runs()[0].exchanges()[0].assistant_message_id(),
        None
    );
}

#[test]
fn failed_runs_retain_requests_and_partial_data_but_exclude_assistant_history() {
    let mut setup_session = Session::new(FIRST_MODEL_ID.to_owned());
    let setup_run_id = start_run(&mut setup_session, "setup request");
    let setup_detail = "could not create request";
    setup_session
        .fail_run(
            setup_run_id,
            FailureCategory::RequestSetup,
            setup_detail.to_owned(),
        )
        .expect("setup failure should finish run");
    let RunTerminalState::Failed(setup_failure) = setup_session.runs()[0].terminal_state()
    else {
        panic!("setup run should be failed");
    };
    assert_eq!(setup_failure.category(), FailureCategory::RequestSetup);
    assert_eq!(setup_failure.display_detail(), setup_detail);
    assert_eq!(
        setup_session.runs()[0].exchanges()[0].terminal_state(),
        setup_session.runs()[0].terminal_state()
    );
    assert_eq!(
        messages(&setup_session),
        vec![ModelMessage::User {
            content: "setup request".to_owned(),
        }]
    );

    let mut streaming_session = Session::new(FIRST_MODEL_ID.to_owned());
    let streaming_run_id = start_run(&mut streaming_session, "streaming request");
    streaming_session
        .append_assistant_delta(streaming_run_id, "partial response".to_owned())
        .expect("partial response should append");
    let streaming_usage = usage(11, 3);
    streaming_session
        .record_usage(streaming_run_id, streaming_usage)
        .expect("streaming usage should append");
    streaming_session
        .fail_run(
            streaming_run_id,
            FailureCategory::Streaming,
            "provider stream failed".to_owned(),
        )
        .expect("streaming failure should finish run");
    assert_eq!(
        streaming_session.runs()[0].exchanges()[0].usage(),
        Some(streaming_usage)
    );
    assert_eq!(
        streaming_session.runs()[0].exchanges()[0].terminal_state(),
        &RunTerminalState::Failed(SessionFailure::new(
            FailureCategory::Streaming,
            "provider stream failed".to_owned(),
        ))
    );
    assert_eq!(
        streaming_session.runs()[0].exchanges()[0].terminal_state(),
        streaming_session.runs()[0].terminal_state()
    );
    assert!(matches!(
        streaming_session.conversation_records()[1].message(),
        ModelMessage::Assistant { content, .. } if content == "partial response"
    ));
    assert!(!streaming_session.conversation_records()[1].is_model_visible());
    assert_eq!(
        messages(&streaming_session),
        vec![ModelMessage::User {
            content: "streaming request".to_owned(),
        }]
    );

    let mut incomplete_session = Session::new(FIRST_MODEL_ID.to_owned());
    let incomplete_run_id = start_run(&mut incomplete_session, "incomplete request");
    incomplete_session
        .append_assistant_delta(incomplete_run_id, "incomplete response".to_owned())
        .expect("incomplete response should append");
    incomplete_session
        .fail_run(
            incomplete_run_id,
            FailureCategory::IncompleteStream,
            "stream closed without a terminal event".to_owned(),
        )
        .expect("incomplete failure should finish run");
    let RunTerminalState::Failed(incomplete_failure) =
        incomplete_session.runs()[0].terminal_state()
    else {
        panic!("incomplete run should be failed");
    };
    assert_eq!(
        incomplete_failure.category(),
        FailureCategory::IncompleteStream
    );
    assert_eq!(
        incomplete_failure.display_detail(),
        "stream closed without a terminal event"
    );
    assert_eq!(
        incomplete_session.runs()[0].exchanges()[0].terminal_state(),
        incomplete_session.runs()[0].terminal_state()
    );

    let next_run_id = start_run(&mut incomplete_session, "next request");
    assert_eq!(next_run_id.as_u64(), 2);
    assert_eq!(
        incomplete_session.runs()[1].exchanges()[0]
            .request()
            .messages,
        vec![
            ModelMessage::User {
                content: "incomplete request".to_owned(),
            },
            ModelMessage::User {
                content: "next request".to_owned(),
            },
        ]
    );
}

#[test]
fn terminal_and_invalid_transitions_leave_state_unchanged() {
    let mut session = Session::new(FIRST_MODEL_ID.to_owned());
    let run_id = start_run(&mut session, "request");
    let before_active_start = session.clone();
    assert_eq!(
        session.start_run("another request".to_owned()),
        Err(SessionError::RunInProgress { run_id })
    );
    assert_eq!(session, before_active_start);

    assert_eq!(
        session.append_assistant_delta(RunId::from_u64(999), "ignored".to_owned()),
        Err(SessionError::UnknownRun {
            run_id: RunId::from_u64(999)
        })
    );
    assert_eq!(session, before_active_start);

    session
        .finish_run(run_id, CompletionOutcome::Complete)
        .expect("run should finish");
    let before_terminal_mutations = session.clone();
    assert_eq!(
        session.append_assistant_delta(run_id, "ignored".to_owned()),
        Err(SessionError::RunAlreadyTerminal { run_id })
    );
    assert_eq!(
        session.record_usage(run_id, usage(1, 1)),
        Err(SessionError::RunAlreadyTerminal { run_id })
    );
    assert_eq!(
        session.finish_run(run_id, CompletionOutcome::LengthLimited),
        Err(SessionError::RunAlreadyTerminal { run_id })
    );
    assert_eq!(
        session.fail_run(run_id, FailureCategory::Streaming, "duplicate".to_owned()),
        Err(SessionError::RunAlreadyTerminal { run_id })
    );
    assert_eq!(session, before_terminal_mutations);
}

#[test]
fn counter_exhaustion_is_typed_and_atomic() {
    let mut run_exhausted_session = Session::new(FIRST_MODEL_ID.to_owned());
    run_exhausted_session.set_next_counters_for_test(u64::MAX, 1);
    let run_exhausted_before = run_exhausted_session.clone();
    assert_eq!(
        run_exhausted_session.start_run("request".to_owned()),
        Err(SessionError::RunIdExhausted)
    );
    assert_eq!(run_exhausted_session, run_exhausted_before);

    let mut message_exhausted_session = Session::new(FIRST_MODEL_ID.to_owned());
    message_exhausted_session.set_next_counters_for_test(1, u64::MAX);
    let message_exhausted_before = message_exhausted_session.clone();
    assert_eq!(
        message_exhausted_session.start_run("request".to_owned()),
        Err(SessionError::MessageIdExhausted)
    );
    assert_eq!(message_exhausted_session, message_exhausted_before);
}

#[test]
fn tool_calls_and_results_require_declared_contiguous_order() {
    let mut session = Session::new(FIRST_MODEL_ID.to_owned());
    let run_id = start_run(&mut session, "find information");
    session
        .append_tool_call(run_id, tool_call("call-1", "search"))
        .expect("first tool call should append");
    session
        .append_tool_call(run_id, tool_call("call-2", "open"))
        .expect("second tool call should append");

    let before_invalid_result = session.clone();
    assert_eq!(
        session.append_tool_result(run_id, "call-2".to_owned(), "out of order".to_owned()),
        Err(SessionError::ToolResultOutOfOrder {
            run_id,
            expected_tool_call_id: "call-1".to_owned(),
            actual_tool_call_id: "call-2".to_owned(),
        })
    );
    assert_eq!(session, before_invalid_result);

    assert_eq!(
        session.append_tool_result(run_id, "missing".to_owned(), "missing".to_owned()),
        Err(SessionError::MissingToolCall {
            run_id,
            tool_call_id: "missing".to_owned(),
        })
    );
    assert_eq!(session, before_invalid_result);
    assert_eq!(
        session.append_tool_result(run_id, String::new(), "empty".to_owned()),
        Err(SessionError::EmptyToolCallId)
    );
    assert_eq!(session, before_invalid_result);

    session
        .append_tool_result(run_id, "call-1".to_owned(), "first result".to_owned())
        .expect("first result should append");
    let before_output_after_result = session.clone();
    assert_eq!(
        session.append_assistant_delta(run_id, "late response".to_owned()),
        Err(SessionError::InvalidProtocol {
            detail: "assistant output cannot continue after a tool result".to_owned(),
        })
    );
    assert_eq!(
        session.append_tool_call(run_id, tool_call("call-3", "late")),
        Err(SessionError::InvalidProtocol {
            detail: "assistant output cannot continue after a tool result".to_owned(),
        })
    );
    assert_eq!(session, before_output_after_result);
    let before_duplicate_result = session.clone();
    assert_eq!(
        session.append_tool_result(run_id, "call-1".to_owned(), "duplicate".to_owned()),
        Err(SessionError::ToolCallAlreadyResolved {
            run_id,
            tool_call_id: "call-1".to_owned(),
        })
    );
    assert_eq!(session, before_duplicate_result);

    session
        .append_tool_result(run_id, "call-2".to_owned(), "second result".to_owned())
        .expect("second result should append");
    session
        .finish_run(run_id, CompletionOutcome::Complete)
        .expect("resolved tool calls should permit completion");
    assert_eq!(
        messages(&session),
        vec![
            ModelMessage::User {
                content: "find information".to_owned(),
            },
            ModelMessage::Assistant {
                content: String::new(),
                tool_calls: vec![tool_call("call-1", "search"), tool_call("call-2", "open")],
            },
            ModelMessage::ToolResult {
                tool_call_id: "call-1".to_owned(),
                content: "first result".to_owned(),
            },
            ModelMessage::ToolResult {
                tool_call_id: "call-2".to_owned(),
                content: "second result".to_owned(),
            },
        ]
    );
}

#[test]
fn tool_call_ids_are_non_empty_and_unique_without_partial_mutation() {
    let mut session = Session::new(FIRST_MODEL_ID.to_owned());
    let run_id = start_run(&mut session, "request");
    let before_empty_call = session.clone();
    assert_eq!(
        session.append_tool_call(run_id, tool_call("", "search")),
        Err(SessionError::EmptyToolCallId)
    );
    assert_eq!(session, before_empty_call);

    session
        .append_tool_call(run_id, tool_call("call-1", "search"))
        .expect("first call should append");
    let before_duplicate_call = session.clone();
    assert_eq!(
        session.append_tool_call(run_id, tool_call("call-1", "again")),
        Err(SessionError::DuplicateToolCallId {
            tool_call_id: "call-1".to_owned(),
        })
    );
    assert_eq!(session, before_duplicate_call);

    session
        .fail_run(
            run_id,
            FailureCategory::IncompleteStream,
            "closed".to_owned(),
        )
        .expect("failed run should finish");
    let next_run_id = start_run(&mut session, "next request");
    let before_reused_call = session.clone();
    assert_eq!(
        session.append_tool_call(next_run_id, tool_call("call-1", "reuse")),
        Err(SessionError::DuplicateToolCallId {
            tool_call_id: "call-1".to_owned(),
        })
    );
    assert_eq!(session, before_reused_call);
}

#[test]
fn unresolved_tool_calls_block_terminal_completion_without_mutation() {
    let mut session = Session::new(FIRST_MODEL_ID.to_owned());
    let run_id = start_run(&mut session, "request");
    session
        .append_tool_call(run_id, tool_call("call-1", "search"))
        .expect("tool call should append");
    let before_finish = session.clone();
    assert_eq!(
        session.finish_run(run_id, CompletionOutcome::Complete),
        Err(SessionError::UnresolvedToolCall {
            run_id,
            tool_call_id: "call-1".to_owned(),
        })
    );
    assert_eq!(session, before_finish);
}

#[test]
fn deltas_build_one_message_whatever_their_sizes() {
    let mut pieces = Session::new(FIRST_MODEL_ID.to_owned());
    let run_id = start_run(&mut pieces, "request");
    for delta in ["one ", "", "two ", "three"] {
        pieces
            .append_assistant_delta(run_id, delta.to_owned())
            .expect("delta should append");
    }
    let mut whole = Session::new(FIRST_MODEL_ID.to_owned());
    let whole_run_id = start_run(&mut whole, "request");
    whole
        .append_assistant_delta(whole_run_id, "one two three".to_owned())
        .expect("delta should append");

    assert_eq!(pieces, whole);
}

#[test]
fn tool_results_of_a_failed_run_keep_later_runs_from_starting() {
    let mut session = Session::new(FIRST_MODEL_ID.to_owned());
    let run_id = start_run(&mut session, "request");
    session
        .append_tool_call(run_id, tool_call("call-1", "search"))
        .expect("tool call should append");
    session
        .append_tool_result(run_id, "call-1".to_owned(), "result".to_owned())
        .expect("tool result should append");
    session
        .fail_run(run_id, FailureCategory::Streaming, "lost".to_owned())
        .expect("run should fail");
    let before_start = session.clone();

    assert_eq!(
        session.start_run("next".to_owned()),
        Err(SessionError::InvalidProtocol {
            detail: "tool result does not follow an assistant tool-call group".to_owned(),
        })
    );
    assert_eq!(session, before_start);
}

#[test]
fn unresolved_calls_of_a_failed_run_do_not_block_later_runs() {
    let mut session = Session::new(FIRST_MODEL_ID.to_owned());
    let run_id = start_run(&mut session, "request");
    session
        .append_tool_call(run_id, tool_call("call-1", "search"))
        .expect("tool call should append");
    session
        .fail_run(run_id, FailureCategory::IncompleteStream, "closed".to_owned())
        .expect("run should fail");

    let next = session
        .start_run("next".to_owned())
        .expect("the next run should start");
    assert_eq!(
        next.request().messages,
        vec![
            ModelMessage::User {
                content: "request".to_owned(),
            },
            ModelMessage::User {
                content: "next".to_owned(),
            },
        ]
    );
}

#[test]
fn exhausted_message_identities_leave_the_run_as_it_was() {
    let mut session = Session::new(FIRST_MODEL_ID.to_owned());
    let run_id = start_run(&mut session, "request");
    session.set_next_counters_for_test(7, u64::MAX);
    let before = session.clone();

    assert_eq!(
        session.append_assistant_delta(run_id, "text".to_owned()),
        Err(SessionError::MessageIdExhausted)
    );
    assert_eq!(
        session.append_tool_call(run_id, tool_call("call-1", "search")),
        Err(SessionError::MessageIdExhausted)
    );
    assert_eq!(session, before);
    assert_eq!(
        session.append_tool_result(run_id, "call-1".to_owned(), "result".to_owned()),
        Err(SessionError::MissingToolCall {
            run_id,
            tool_call_id: "call-1".to_owned(),
        })
    );
}

#[test]
fn identities_count_from_one_and_requests_only_grow() {
    let mut session = Session::new(FIRST_MODEL_ID.to_owned());

    let first_run_id = start_run(&mut session, "first");
    session
        .append_assistant_delta(first_run_id, "answer".to_owned())
        .expect("text should be recorded");
    assert!(session.start_run("too early".to_owned()).is_err());
    session
        .finish_run(first_run_id, CompletionOutcome::Complete)
        .expect("run should finish");

    let second_run_id = start_run(&mut session, "second");
    session
        .append_assistant_delta(second_run_id, "partial".to_owned())
        .expect("text should be recorded");
    session
        .fail_run(
            second_run_id,
            FailureCategory::Streaming,
            "interrupted".to_owned(),
        )
        .expect("run should fail");

    start_run(&mut session, "third");

    let run_ids: Vec<u64> = session.runs().iter().map(|run| run.id().as_u64()).collect();
    assert_eq!(run_ids, vec![1, 2, 3]);
    let message_ids: Vec<u64> = all_records(&session)
        .iter()
        .map(|record| record.0)
        .collect();
    assert_eq!(message_ids, vec![1, 2, 3, 4, 5]);

    let requests: Vec<Vec<ModelMessage>> = session
        .runs()
        .iter()
        .map(|run| run.exchanges()[0].request().messages.clone())
        .collect();
    assert_eq!(
        requests.iter().map(|request| request.len()).collect::<Vec<_>>(),
        vec![1, 3, 4]
    );
    for (earlier, later) in [(0, 1), (0, 2), (1, 2)] {
        assert!(requests[later].starts_with(&requests[earlier]));
    }
}

#[test]
fn session_errors_are_readable() {
    let run_id = RunId::from_u64(12);
    for (error, expected) in [
        (SessionError::RunIdExhausted, "run ID counter is exhausted"),
        (
            SessionError::MessageIdExhausted,
            "message ID counter is exhausted",
        ),
        (
            SessionError::UnknownRun { run_id },
            "run RunId(12) does not exist",
        ),
        (
            SessionError::RunInProgress { run_id },
            "run RunId(12) is still active",
        ),
        (
            SessionError::RunAlreadyTerminal { run_id },
            "run RunId(12) is already terminal",
        ),
        (
            SessionError::InvalidProtocol {
                detail: "detail".to_owned(),
            },
            "invalid conversation protocol: detail",
        ),
        (SessionError::EmptyToolCallId, "tool call ID cannot be empty"),
        (
            SessionError::DuplicateToolCallId {
                tool_call_id: "a".to_owned(),
            },
            "tool call ID already exists: a",
        ),
        (
            SessionError::MissingToolCall {
                run_id,
                tool_call_id: "a".to_owned(),
            },
            "tool result references missing tool call a in run RunId(12)",
        ),
        (
            SessionError::ToolResultOutOfOrder {
                run_id,
                expected_tool_call_id: "a".to_owned(),
                actual_tool_call_id: "b".to_owned(),
            },
            "tool result for run RunId(12) is out of order: expected a, received b",
        ),
        (
            SessionError::ToolCallAlreadyResolved {
                run_id,
                tool_call_id: "a".to_owned(),
            },
            "tool call a in run RunId(12) is already resolved",
        ),
        (
            SessionError::UnresolvedToolCall {
                run_id,
                tool_call_id: "a".to_owned(),
            },
            "tool call a in run RunId(12) remains unresolved",
        ),
    ] {
        assert_eq!(error.clone().to_string(), expected);
    }
}
