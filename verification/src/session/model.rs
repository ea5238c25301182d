//! The mathematical model of a session: its state, its transitions and its invariant.

use vstd::prelude::*;

use crate::provider::{
    tool_call_ids, CompletionOutcome, ModelMessageView, ModelRequestView, ToolCallView, Usage,
};
use crate::session::FailureCategory;
use crate::text::decimal;

verus! {

/// The mathematical form of a retained failure.
#[verifier::ext_equal]
pub struct SessionFailureView {
    pub category: FailureCategory,
    pub display_detail: Seq<char>,
}

/// The mathematical form of a run's terminal state.
#[verifier::ext_equal]
pub enum RunTerminalStateView {
    Running,
    Completed(CompletionOutcome),
    Failed(SessionFailureView),
}

/// The mathematical form of a conversation record.
#[verifier::ext_equal]
pub struct RecordView {
    pub message_id: u64,
    pub run_id: u64,
    pub message: ModelMessageView,
    pub model_visible: bool,
}

/// The mathematical form of a provider exchange.
#[verifier::ext_equal]
pub struct ExchangeView {
    pub request: ModelRequestView,
    pub assistant_message_id: Option<u64>,
    pub usage: Option<Usage>,
    pub terminal_state: RunTerminalStateView,
}

/// The mathematical form of a run.
#[verifier::ext_equal]
pub struct RunView {
    pub run_id: u64,
    pub model_id: Seq<char>,
    pub exchanges: Seq<ExchangeView>,
    pub terminal_state: RunTerminalStateView,
}

/// The mathematical form of a session.
#[verifier::ext_equal]
pub struct SessionView {
    pub current_model_id: Seq<char>,
    pub next_run_id: u64,
    pub next_message_id: u64,
    pub records: Seq<RecordView>,
    pub runs: Seq<RunView>,
}

/// The mathematical form of the data handed out when a run starts.
#[verifier::ext_equal]
pub struct RunStartView {
    pub run_id: u64,
    pub user_message_id: u64,
    pub request: ModelRequestView,
}

/// The mathematical form of the identity established by a text delta.
pub struct AssistantDeltaView {
    pub assistant_message_id: Option<u64>,
    pub assistant_message_created: bool,
}

/// The mathematical form of a session error.
#[verifier::ext_equal]
pub enum SessionErrorView {
    RunIdExhausted,
    MessageIdExhausted,
    UnknownRun { run_id: u64 },
    RunInProgress { run_id: u64 },
    RunAlreadyTerminal { run_id: u64 },
    InvalidProtocol { detail: Seq<char> },
    EmptyToolCallId,
    DuplicateToolCallId { tool_call_id: Seq<char> },
    MissingToolCall { run_id: u64, tool_call_id: Seq<char> },
    ToolResultOutOfOrder {
        run_id: u64,
        expected_tool_call_id: Seq<char>,
        actual_tool_call_id: Seq<char>,
    },
    ToolCallAlreadyResolved { run_id: u64, tool_call_id: Seq<char> },
    UnresolvedToolCall { run_id: u64, tool_call_id: Seq<char> },
}

/// How a run identity is written in messages.
pub open spec fn run_id_text(run_id: u64) -> Seq<char> {
    "RunId("@ + decimal(run_id as nat) + ")"@
}

/// The readable form of a session error.
pub open spec fn session_error_text(error: SessionErrorView) -> Seq<char> {
    match error {
        SessionErrorView::RunIdExhausted => "run ID counter is exhausted"@,
        SessionErrorView::MessageIdExhausted => "message ID counter is exhausted"@,
        SessionErrorView::UnknownRun { run_id } => "run "@ + run_id_text(run_id)
            + " does not exist"@,
        SessionErrorView::RunInProgress { run_id } => "run "@ + run_id_text(run_id)
            + " is still active"@,
        SessionErrorView::RunAlreadyTerminal { run_id } => "run "@ + run_id_text(run_id)
            + " is already terminal"@,
        SessionErrorView::InvalidProtocol { detail } => "invalid conversation protocol: "@ + detail,
        SessionErrorView::EmptyToolCallId => "tool call ID cannot be empty"@,
        SessionErrorView::DuplicateToolCallId { tool_call_id } => "tool call ID already exists: "@
            + tool_call_id,
        SessionErrorView::MissingToolCall { run_id, tool_call_id } =>
        "tool result references missing tool call "@ + tool_call_id + " in run "@ + run_id_text(
            run_id,
        ),
        SessionErrorView::ToolResultOutOfOrder {
            run_id,
            expected_tool_call_id,
            actual_tool_call_id,
        } => "tool result for run "@ + run_id_text(run_id) + " is out of order: expected "@
            + expected_tool_call_id + ", received "@ + actual_tool_call_id,
        SessionErrorView::ToolCallAlreadyResolved { run_id, tool_call_id } => "tool call "@
            + tool_call_id + " in run "@ + run_id_text(run_id) + " is already resolved"@,
        SessionErrorView::UnresolvedToolCall { run_id, tool_call_id } => "tool call "@
            + tool_call_id + " in run "@ + run_id_text(run_id) + " remains unresolved"@,
    }
}

// ---------------------------------------------------------------------------
// Reading a session
// ---------------------------------------------------------------------------

/// The run that is still waiting for its terminal state; only the latest run can be.
pub open spec fn active_run(v: SessionView) -> Option<u64> {
    if v.runs.len() > 0 && v.runs.last().terminal_state is Running {
        Some(v.runs.last().run_id)
    } else {
        None
    }
}

/// Whether a run with this identity was ever started.
pub open spec fn knows_run(v: SessionView, run_id: u64) -> bool {
    exists|r: int| 0 <= r < v.runs.len() && (#[trigger] v.runs[r]).run_id == run_id
}

/// Why a run cannot be changed, if it cannot.
pub open spec fn run_fault(v: SessionView, run_id: u64) -> Option<SessionErrorView> {
    if !knows_run(v, run_id) {
        Some(SessionErrorView::UnknownRun { run_id })
    } else if active_run(v) != Some(run_id) {
        Some(SessionErrorView::RunAlreadyTerminal { run_id })
    } else {
        None
    }
}

/// The messages of the records that later requests carry, in order.
pub open spec fn visible_messages(records: Seq<RecordView>) -> Seq<ModelMessageView>
    decreases records.len(),
{
    if records.len() == 0 {
        Seq::empty()
    } else {
        let before = visible_messages(records.drop_last());
        if records.last().model_visible {
            before.push(records.last().message)
        } else {
            before
        }
    }
}

/// The tool calls that a record declares.
pub open spec fn calls_in(record: RecordView) -> Seq<ToolCallView> {
    match record.message {
        ModelMessageView::Assistant { content, tool_calls } => tool_calls,
        _ => Seq::empty(),
    }
}

/// The identity of the tool call that a tool-result record answers.
pub open spec fn result_id(record: RecordView) -> Seq<char> {
    match record.message {
        ModelMessageView::ToolResult { tool_call_id, content } => tool_call_id,
        _ => Seq::empty(),
    }
}

/// The identities of the tool calls that a run declared, in order.
pub open spec fn declared_calls(records: Seq<RecordView>, run_id: u64) -> Seq<Seq<char>>
    decreases records.len(),
{
    if records.len() == 0 {
        Seq::empty()
    } else {
        let before = declared_calls(records.drop_last(), run_id);
        if records.last().run_id == run_id {
            before + tool_call_ids(calls_in(records.last()))
        } else {
            before
        }
    }
}

/// The identities of the tool calls that a run has results for, in order.
pub open spec fn resolved_calls(records: Seq<RecordView>, run_id: u64) -> Seq<Seq<char>>
    decreases records.len(),
{
    if records.len() == 0 {
        Seq::empty()
    } else {
        let before = resolved_calls(records.drop_last(), run_id);
        if records.last().run_id == run_id && records.last().message is ToolResult {
            before.push(result_id(records.last()))
        } else {
            before
        }
    }
}

/// Whether any record declares a tool call with this identity.
pub open spec fn call_exists(records: Seq<RecordView>, tool_call_id: Seq<char>) -> bool {
    exists|i: int, k: int|
        0 <= i < records.len() && 0 <= k < calls_in(records[i]).len() && (
        #[trigger] calls_in(records[i])[k]).tool_call_id == tool_call_id
}

/// The effect of one visible message on the tool calls that still await a result, or the fault.
pub open spec fn history_step(unresolved: Seq<Seq<char>>, message: ModelMessageView) -> Result<
    Seq<Seq<char>>,
    Seq<char>,
> {
    match message {
        ModelMessageView::User { content } => if unresolved.len() > 0 {
            Err("user record follows unresolved tool call "@ + unresolved[0])
        } else {
            Ok(unresolved)
        },
        ModelMessageView::Assistant { content, tool_calls } => if unresolved.len() > 0 {
            Err("assistant record follows unresolved tool call "@ + unresolved[0])
        } else {
            Ok(tool_call_ids(tool_calls))
        },
        ModelMessageView::ToolResult { tool_call_id, content } => if unresolved.len() == 0 {
            Err("tool result does not follow an assistant tool-call group"@)
        } else if unresolved[0] != tool_call_id {
            Err("tool result expected "@ + unresolved[0] + ", received "@ + tool_call_id)
        } else {
            Ok(unresolved.drop_first())
        },
    }
}

/// The tool calls that await a result after these messages, or the first fault among them.
pub open spec fn history_scan(messages: Seq<ModelMessageView>) -> Result<
    Seq<Seq<char>>,
    Seq<char>,
>
    decreases messages.len(),
{
    if messages.len() == 0 {
        Ok(Seq::empty())
    } else {
        match history_scan(messages.drop_last()) {
            Err(detail) => Err(detail),
            Ok(unresolved) => history_step(unresolved, messages.last()),
        }
    }
}

/// Why these messages cannot be sent to a provider, if they cannot.
pub open spec fn history_fault(messages: Seq<ModelMessageView>) -> Option<Seq<char>> {
    match history_scan(messages) {
        Err(detail) => Some(detail),
        Ok(unresolved) => if unresolved.len() > 0 {
            Some("conversation ends with unresolved tool call "@ + unresolved[0])
        } else {
            None
        },
    }
}

// ---------------------------------------------------------------------------
// Transitions
// ---------------------------------------------------------------------------

/// What happens when a run is started with this user text.
pub open spec fn start_run_step(v: SessionView, user_content: Seq<char>) -> Result<
    (SessionView, RunStartView),
    SessionErrorView,
> {
    let message = ModelMessageView::User { content: user_content };
    let request = ModelRequestView {
        model_id: v.current_model_id,
        messages: visible_messages(v.records).push(message),
    };
    if active_run(v) is Some {
        Err(SessionErrorView::RunInProgress { run_id: active_run(v)->0 })
    } else if history_fault(visible_messages(v.records)) is Some {
        Err(
            SessionErrorView::InvalidProtocol {
                detail: history_fault(visible_messages(v.records))->0,
            },
        )
    } else if v.next_run_id == u64::MAX {
        Err(SessionErrorView::RunIdExhausted)
    } else if v.next_message_id == u64::MAX {
        Err(SessionErrorView::MessageIdExhausted)
    } else {
        Ok(
            (
                SessionView {
                    current_model_id: v.current_model_id,
                    next_run_id: (v.next_run_id + 1) as u64,
                    next_message_id: (v.next_message_id + 1) as u64,
                    records: v.records.push(
                        RecordView {
                            message_id: v.next_message_id,
                            run_id: v.next_run_id,
                            message,
                            model_visible: true,
                        },
                    ),
                    runs: v.runs.push(
                        RunView {
                            run_id: v.next_run_id,
                            model_id: v.current_model_id,
                            exchanges: seq![
                                ExchangeView {
                                    request,
                                    assistant_message_id: None,
                                    usage: None,
                                    terminal_state: RunTerminalStateView::Running,
                                },
                            ],
                            terminal_state: RunTerminalStateView::Running,
                        },
                    ),
                },
                RunStartView {
                    run_id: v.next_run_id,
                    user_message_id: v.next_message_id,
                    request,
                },
            ),
        )
    }
}

/// The exchange of the latest run.
pub open spec fn current_exchange(v: SessionView) -> ExchangeView {
    v.runs.last().exchanges[0]
}

/// The session with the latest run's exchange replaced.
pub open spec fn with_exchange(v: SessionView, exchange: ExchangeView) -> SessionView {
    SessionView {
        runs: v.runs.drop_last().push(RunView { exchanges: seq![exchange], ..v.runs.last() }),
        ..v
    }
}

/// The session with a new assistant record at its end, owned by the latest run.
pub open spec fn with_new_assistant(
    v: SessionView,
    content: Seq<char>,
    tool_calls: Seq<ToolCallView>,
) -> SessionView {
    SessionView {
        next_message_id: (v.next_message_id + 1) as u64,
        records: v.records.push(
            RecordView {
                message_id: v.next_message_id,
                run_id: v.runs.last().run_id,
                message: ModelMessageView::Assistant { content, tool_calls },
                model_visible: false,
            },
        ),
        ..with_exchange(
            v,
            ExchangeView {
                assistant_message_id: Some(v.next_message_id),
                ..current_exchange(v)
            },
        )
    }
}

/// The session with text and tool calls added to its last record, an assistant record.
pub open spec fn with_more_assistant(
    v: SessionView,
    text: Seq<char>,
    tool_calls: Seq<ToolCallView>,
) -> SessionView {
    let last = v.records.last();
    let message = match last.message {
        ModelMessageView::Assistant { content, tool_calls: before } => {
            ModelMessageView::Assistant { content: content + text, tool_calls: before + tool_calls }
        },
        other => other,
    };
    SessionView { records: v.records.drop_last().push(RecordView { message, ..last }), ..v }
}

/// The text of the error for assistant output that comes too late.
pub open spec fn late_output() -> SessionErrorView {
    SessionErrorView::InvalidProtocol {
        detail: "assistant output cannot continue after a tool result"@,
    }
}

/// What happens when assistant output arrives for the active run: it starts the run's assistant
/// record, or extends it, unless a tool result has already been recorded.
pub open spec fn assistant_output_step(
    v: SessionView,
    text: Seq<char>,
    tool_calls: Seq<ToolCallView>,
) -> Result<SessionView, SessionErrorView> {
    if resolved_calls(v.records, v.runs.last().run_id).len() > 0 {
        Err(late_output())
    } else if current_exchange(v).assistant_message_id is Some {
        Ok(with_more_assistant(v, text, tool_calls))
    } else if v.next_message_id == u64::MAX {
        Err(SessionErrorView::MessageIdExhausted)
    } else {
        Ok(with_new_assistant(v, text, tool_calls))
    }
}

/// What happens when a text delta arrives.
pub open spec fn assistant_delta_step(v: SessionView, run_id: u64, text: Seq<char>) -> Result<
    (SessionView, AssistantDeltaView),
    SessionErrorView,
> {
    if run_fault(v, run_id) is Some {
        Err(run_fault(v, run_id)->0)
    } else if text.len() == 0 {
        Ok(
            (
                v,
                AssistantDeltaView { assistant_message_id: None, assistant_message_created: false },
            ),
        )
    } else {
        match assistant_output_step(v, text, Seq::empty()) {
            Err(error) => Err(error),
            Ok(post) => Ok(
                (
                    post,
                    AssistantDeltaView {
                        assistant_message_id: current_exchange(post).assistant_message_id,
                        assistant_message_created: current_exchange(v).assistant_message_id is None,
                    },
                ),
            ),
        }
    }
}

/// What happens when a complete tool call arrives.
pub open spec fn tool_call_step(v: SessionView, run_id: u64, tool_call: ToolCallView) -> Result<
    SessionView,
    SessionErrorView,
> {
    if run_fault(v, run_id) is Some {
        Err(run_fault(v, run_id)->0)
    } else if tool_call.tool_call_id.len() == 0 {
        Err(SessionErrorView::EmptyToolCallId)
    } else if call_exists(v.records, tool_call.tool_call_id) {
        Err(SessionErrorView::DuplicateToolCallId { tool_call_id: tool_call.tool_call_id })
    } else {
        assistant_output_step(v, Seq::empty(), seq![tool_call])
    }
}

/// What happens when cumulative usage is reported.
pub open spec fn usage_step(v: SessionView, run_id: u64, usage: Usage) -> Result<
    SessionView,
    SessionErrorView,
> {
    if run_fault(v, run_id) is Some {
        Err(run_fault(v, run_id)->0)
    } else {
        Ok(with_exchange(v, ExchangeView { usage: Some(usage), ..current_exchange(v) }))
    }
}

/// What happens when a tool result is recorded: results answer the declared calls in order.
pub open spec fn tool_result_step(
    v: SessionView,
    run_id: u64,
    tool_call_id: Seq<char>,
    content: Seq<char>,
) -> Result<SessionView, SessionErrorView> {
    let declared = declared_calls(v.records, run_id);
    let resolved = resolved_calls(v.records, run_id);
    if run_fault(v, run_id) is Some {
        Err(run_fault(v, run_id)->0)
    } else if tool_call_id.len() == 0 {
        Err(SessionErrorView::EmptyToolCallId)
    } else if resolved.contains(tool_call_id) {
        Err(SessionErrorView::ToolCallAlreadyResolved { run_id, tool_call_id })
    } else if !declared.contains(tool_call_id) {
        Err(SessionErrorView::MissingToolCall { run_id, tool_call_id })
    } else if declared[resolved.len() as int] != tool_call_id {
        Err(
            SessionErrorView::ToolResultOutOfOrder {
                run_id,
                expected_tool_call_id: declared[resolved.len() as int],
                actual_tool_call_id: tool_call_id,
            },
        )
    } else if v.next_message_id == u64::MAX {
        Err(SessionErrorView::MessageIdExhausted)
    } else {
        Ok(
            SessionView {
                next_message_id: (v.next_message_id + 1) as u64,
                records: v.records.push(
                    RecordView {
                        message_id: v.next_message_id,
                        run_id,
                        message: ModelMessageView::ToolResult { tool_call_id, content },
                        model_visible: true,
                    },
                ),
                ..v
            },
        )
    }
}

/// The session with the latest run and its exchange in a terminal state.
pub open spec fn with_terminal_state(v: SessionView, state: RunTerminalStateView) -> SessionView {
    SessionView {
        runs: v.runs.drop_last().push(
            RunView {
                exchanges: seq![ExchangeView { terminal_state: state, ..current_exchange(v) }],
                terminal_state: state,
                ..v.runs.last()
            },
        ),
        ..v
    }
}

/// A record, shown to later requests if it holds the run's assistant output.
pub open spec fn shown_record(record: RecordView, run_id: u64) -> RecordView {
    if record.run_id == run_id && record.message is Assistant {
        RecordView { model_visible: true, ..record }
    } else {
        record
    }
}

/// The records with a run's assistant output shown to later requests.
pub open spec fn with_assistant_shown(records: Seq<RecordView>, run_id: u64) -> Seq<RecordView> {
    records.map_values(|record: RecordView| shown_record(record, run_id))
}

/// What happens when a run finishes: every declared tool call must have its result.
pub open spec fn finish_run_step(
    v: SessionView,
    run_id: u64,
    outcome: CompletionOutcome,
) -> Result<SessionView, SessionErrorView> {
    let declared = declared_calls(v.records, run_id);
    let resolved = resolved_calls(v.records, run_id);
    if run_fault(v, run_id) is Some {
        Err(run_fault(v, run_id)->0)
    } else if resolved.len() < declared.len() {
        Err(
            SessionErrorView::UnresolvedToolCall {
                run_id,
                tool_call_id: declared[resolved.len() as int],
            },
        )
    } else {
        Ok(
            SessionView {
                records: with_assistant_shown(v.records, run_id),
                ..with_terminal_state(v, RunTerminalStateView::Completed(outcome))
            },
        )
    }
}

/// What happens when a run fails: everything recorded stays, the assistant output stays hidden.
pub open spec fn fail_run_step(
    v: SessionView,
    run_id: u64,
    category: FailureCategory,
    display_detail: Seq<char>,
) -> Result<SessionView, SessionErrorView> {
    if run_fault(v, run_id) is Some {
        Err(run_fault(v, run_id)->0)
    } else {
        Ok(
            with_terminal_state(
                v,
                RunTerminalStateView::Failed(SessionFailureView { category, display_detail }),
            ),
        )
    }
}

// ---------------------------------------------------------------------------
// The invariant
// ---------------------------------------------------------------------------

/// Identities grow along the session and stay below the counters.
#[verifier::opaque]
pub open spec fn identities_grow(v: SessionView) -> bool {
    &&& forall|i: int, j: int|
        0 <= i < j < v.records.len() ==> (#[trigger] v.records[i]).message_id < (
        #[trigger] v.records[j]).message_id
    &&& forall|i: int| 0 <= i < v.records.len() ==> (#[trigger] v.records[i]).message_id
        < v.next_message_id
    &&& forall|i: int, j: int|
        0 <= i < j < v.records.len() ==> (#[trigger] v.records[i]).run_id <= (
        #[trigger] v.records[j]).run_id
    &&& forall|q: int, r: int|
        0 <= q < r < v.runs.len() ==> (#[trigger] v.runs[q]).run_id < (#[trigger] v.runs[r]).run_id
    &&& forall|r: int| 0 <= r < v.runs.len() ==> (#[trigger] v.runs[r]).run_id < v.next_run_id
}

/// Every run has one exchange that shares its model and its state; only the latest run is active.
#[verifier::opaque]
pub open spec fn runs_match_exchanges(v: SessionView) -> bool {
    &&& forall|r: int|
        0 <= r < v.runs.len() ==> {
            &&& (#[trigger] v.runs[r]).exchanges.len() == 1
            &&& v.runs[r].exchanges[0].terminal_state == v.runs[r].terminal_state
            &&& v.runs[r].exchanges[0].request.model_id == v.runs[r].model_id
        }
    &&& forall|r: int|
        0 <= r < v.runs.len() - 1 ==> !((#[trigger] v.runs[r]).terminal_state is Running)
}

/// Record `i` holds the assistant output of run `run_id`.
pub open spec fn is_assistant_of(records: Seq<RecordView>, i: int, run_id: u64) -> bool {
    0 <= i < records.len() && records[i].run_id == run_id && records[i].message is Assistant
}

/// An exchange names its run's assistant record exactly when there is one.
#[verifier::opaque]
pub open spec fn exchanges_name_assistants(v: SessionView) -> bool {
    &&& forall|r: int|
        0 <= r < v.runs.len() && (#[trigger] v.runs[r]).exchanges[0].assistant_message_id is Some
            ==> exists|i: int| #[trigger]
            is_assistant_of(v.records, i, v.runs[r].run_id) && v.records[i].message_id
                == v.runs[r].exchanges[0].assistant_message_id->0
    &&& forall|r: int, i: int|
        0 <= r < v.runs.len() && #[trigger] is_assistant_of(v.records, i, (
        #[trigger] v.runs[r]).run_id) ==> v.runs[r].exchanges[0].assistant_message_id == Some(
            v.records[i].message_id,
        )
}

/// Every record belongs to a run, and every run begins with its one user record.
#[verifier::opaque]
pub open spec fn records_belong_to_runs(v: SessionView) -> bool {
    &&& forall|i: int| 0 <= i < v.records.len() ==> knows_run(v, (#[trigger] v.records[i]).run_id)
    &&& forall|r: int|
        0 <= r < v.runs.len() ==> exists|i: int|
            0 <= i < v.records.len() && (#[trigger] v.records[i]).run_id == (
            #[trigger] v.runs[r]).run_id && v.records[i].message is User
}

/// Within a run: the user record, then at most one assistant record, then tool results.
#[verifier::opaque]
pub open spec fn roles_in_order(records: Seq<RecordView>) -> bool {
    &&& forall|i: int, j: int|
        0 <= i < j < records.len() && (#[trigger] records[j]).message is User ==> (
        #[trigger] records[i]).run_id < records[j].run_id
    &&& forall|i: int|
        0 <= i < records.len() && (#[trigger] records[i]).message is Assistant ==> {
            &&& i > 0
            &&& records[i - 1].message is User
            &&& records[i - 1].run_id == records[i].run_id
        }
    &&& forall|i: int|
        0 <= i < records.len() && (#[trigger] records[i]).message is ToolResult ==> exists|a: int|
            a < i && #[trigger] is_assistant_of(records, a, records[i].run_id)
}

/// User and tool-result records are visible; assistant output is once its run completed.
#[verifier::opaque]
pub open spec fn visibility_follows_outcome(v: SessionView) -> bool {
    &&& forall|i: int|
        0 <= i < v.records.len() && !((#[trigger] v.records[i]).message is Assistant)
            ==> v.records[i].model_visible
    &&& forall|r: int, i: int|
        0 <= r < v.runs.len() && #[trigger] is_assistant_of(v.records, i, (
        #[trigger] v.runs[r]).run_id) ==> v.records[i].model_visible == (
        v.runs[r].terminal_state is Completed)
}

/// The records after a run's assistant record answer its tool calls, in order.
#[verifier::opaque]
pub open spec fn results_answer_calls(records: Seq<RecordView>) -> bool {
    forall|a: int, i: int|
        0 <= a < i < records.len() && (#[trigger] records[a]).message is Assistant && (
        #[trigger] records[i]).run_id == records[a].run_id ==> {
            &&& records[i].message is ToolResult
            &&& i - a - 1 < calls_in(records[a]).len()
            &&& result_id(records[i]) == calls_in(records[a])[i - a - 1].tool_call_id
        }
}

/// A completed run has a result for every tool call that it declared.
#[verifier::opaque]
pub open spec fn completed_runs_are_resolved(v: SessionView) -> bool {
    forall|r: int, a: int|
        0 <= r < v.runs.len() && #[trigger] is_assistant_of(v.records, a, (
        #[trigger] v.runs[r]).run_id) && v.runs[r].terminal_state is Completed ==> {
            &&& a + calls_in(v.records[a]).len() < v.records.len()
            &&& v.records[a + calls_in(v.records[a]).len()].run_id == v.runs[r].run_id
        }
}

/// Tool-call identities are never empty and never reused.
#[verifier::opaque]
pub open spec fn calls_are_unique(records: Seq<RecordView>) -> bool {
    &&& forall|i: int, k: int|
        0 <= i < records.len() && 0 <= k < calls_in(records[i]).len() ==> (
        #[trigger] calls_in(records[i])[k]).tool_call_id.len() > 0
    &&& forall|i: int, k: int, j: int, l: int|
        0 <= i < records.len() && 0 <= k < calls_in(records[i]).len() && 0 <= j < records.len()
            && 0 <= l < calls_in(records[j]).len() && (#[trigger] calls_in(
            records[i],
        )[k]).tool_call_id == (#[trigger] calls_in(records[j])[l]).tool_call_id ==> i == j && k == l
}

/// What holds of every session.
pub open spec fn valid(v: SessionView) -> bool {
    &&& identities_grow(v)
    &&& runs_match_exchanges(v)
    &&& exchanges_name_assistants(v)
    &&& records_belong_to_runs(v)
    &&& roles_in_order(v.records)
    &&& visibility_follows_outcome(v)
    &&& results_answer_calls(v.records)
    &&& completed_runs_are_resolved(v)
    &&& calls_are_unique(v.records)
}

} // verus!
