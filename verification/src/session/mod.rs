//! Conversation session state.


pub mod laws;
pub mod model;
pub mod record_laws;
pub mod validity;

use vstd::prelude::*;

use crate::provider::{
    message_views, tool_call_ids, tool_call_views, CompletionOutcome, ModelMessage,
    ModelMessageView, ModelRequest, ToolCall, Usage,
};
use crate::session::model::{
    active_run, assistant_delta_step, assistant_output_step, call_exists, calls_in,
    current_exchange, declared_calls, fail_run_step, finish_run_step, history_fault, history_scan,
    knows_run, late_output, resolved_calls, run_fault, run_id_text, session_error_text,
    shown_record, start_run_step, tool_call_step, tool_result_step, usage_step, valid,
    visible_messages, with_assistant_shown, with_more_assistant, with_new_assistant,
    with_terminal_state, AssistantDeltaView, ExchangeView, RecordView, RunStartView,
    RunTerminalStateView, RunView, SessionErrorView, SessionFailureView, SessionView,
};
use crate::text::{concat2, concat3, contains_entry, same_text, texts, to_decimal};

verus! {

/// The deterministic identity of one session run.
#[derive(Debug, Clone, Copy, PartialEq, Eq, PartialOrd, Ord, Hash)]
pub struct RunId(u64);

impl View for RunId {
    type V = u64;

    closed spec fn view(&self) -> u64 {
        self.0
    }
}

impl RunId {
    /// Return the session-local numeric value of this run identity.
    pub fn as_u64(self) -> (value: u64)
        ensures
            value == self@,
    {
        self.0
    }

    /// The run identity with this numeric value.
    pub fn from_u64(value: u64) -> (run_id: Self)
        ensures
            run_id@ == value,
    {
        RunId(value)
    }

    fn to_text(self) -> (text: String)
        ensures
            text@ == run_id_text(self@),
    {
        concat3("RunId(", to_decimal(self.0).as_str(), ")")
    }
}

/// The deterministic identity of one conversation record.
#[derive(Debug, Clone, Copy, PartialEq, Eq, PartialOrd, Ord, Hash)]
pub struct MessageId(u64);

impl View for MessageId {
    type V = u64;

    closed spec fn view(&self) -> u64 {
        self.0
    }
}

impl MessageId {
    /// Return the session-local numeric value of this message identity.
    pub fn as_u64(self) -> (value: u64)
        ensures
            value == self@,
    {
        self.0
    }

    /// The message identity with this numeric value.
    pub fn from_u64(value: u64) -> (message_id: Self)
        ensures
            message_id@ == value,
    {
        MessageId(value)
    }
}

/// The value of an optional message identity.
pub open spec fn opt_message_id(message_id: Option<MessageId>) -> Option<u64> {
    match message_id {
        Some(message_id) => Some(message_id@),
        None => None,
    }
}

/// The category of a provider failure retained by a session.
#[derive(Debug, Clone, Copy, PartialEq, Eq)]
pub enum FailureCategory {
    RequestSetup,
    Streaming,
    IncompleteStream,
}

/// Provider-neutral failure data retained on a failed run.
#[derive(Debug, PartialEq, Eq)]
pub struct SessionFailure {
    category: FailureCategory,
    display_detail: String,
}

impl View for SessionFailure {
    type V = SessionFailureView;

    closed spec fn view(&self) -> SessionFailureView {
        SessionFailureView { category: self.category, display_detail: self.display_detail@ }
    }
}

impl Clone for SessionFailure {
    fn clone(&self) -> (copy: Self)
        ensures
            copy == *self,
    {
        SessionFailure {
            category: self.category,
            display_detail: self.display_detail.clone(),
        }
    }
}

impl SessionFailure {
    /// The failure of this category with this detail.
    pub fn new(category: FailureCategory, display_detail: String) -> (failure: Self)
        ensures
            failure@ == (SessionFailureView { category, display_detail: display_detail@ }),
    {
        SessionFailure { category, display_detail }
    }

    pub fn category(&self) -> (category: FailureCategory)
        ensures
            category == self@.category,
    {
        self.category
    }

    pub fn display_detail(&self) -> (detail: &str)
        ensures
            detail@ == self@.display_detail,
    {
        self.display_detail.as_str()
    }
}

/// The terminal state of a run, including the active state before termination.
#[derive(Debug, PartialEq, Eq)]
pub enum RunTerminalState {
    Running,
    Completed(CompletionOutcome),
    Failed(SessionFailure),
}

impl View for RunTerminalState {
    type V = RunTerminalStateView;

    open spec fn view(&self) -> RunTerminalStateView {
        match *self {
            RunTerminalState::Running => RunTerminalStateView::Running,
            RunTerminalState::Completed(outcome) => RunTerminalStateView::Completed(outcome),
            RunTerminalState::Failed(failure) => RunTerminalStateView::Failed(failure@),
        }
    }
}

impl Clone for RunTerminalState {
    fn clone(&self) -> (copy: Self)
        ensures
            copy == *self,
    {
        match self {
            RunTerminalState::Running => RunTerminalState::Running,
            RunTerminalState::Completed(outcome) => RunTerminalState::Completed(*outcome),
            RunTerminalState::Failed(failure) => RunTerminalState::Failed(failure.clone()),
        }
    }
}

/// One canonical message and its session-local ownership metadata.
#[derive(Debug, PartialEq, Eq)]
pub struct ConversationRecord {
    message_id: MessageId,
    run_id: RunId,
    message: ModelMessage,
    model_visible: bool,
}

impl View for ConversationRecord {
    type V = RecordView;

    closed spec fn view(&self) -> RecordView {
        RecordView {
            message_id: self.message_id@,
            run_id: self.run_id@,
            message: self.message@,
            model_visible: self.model_visible,
        }
    }
}

impl Clone for ConversationRecord {
    fn clone(&self) -> (copy: Self)
        ensures
            copy@ == self@,
    {
        ConversationRecord {
            message_id: self.message_id,
            run_id: self.run_id,
            message: self.message.clone(),
            model_visible: self.model_visible,
        }
    }
}

/// The views of a list of records, in order.
pub open spec fn record_views(records: Seq<ConversationRecord>) -> Seq<RecordView> {
    records.map_values(|record: ConversationRecord| record@)
}

impl ConversationRecord {
    pub fn message_id(&self) -> (message_id: MessageId)
        ensures
            message_id@ == self@.message_id,
    {
        self.message_id
    }

    pub fn run_id(&self) -> (run_id: RunId)
        ensures
            run_id@ == self@.run_id,
    {
        self.run_id
    }

    pub fn message(&self) -> (message: &ModelMessage)
        ensures
            message@ == self@.message,
    {
        &self.message
    }

    pub fn is_model_visible(&self) -> (visible: bool)
        ensures
            visible == self@.model_visible,
    {
        self.model_visible
    }
}

/// The provider request and accumulated response identity for one run.
#[derive(Debug, PartialEq, Eq)]
pub struct ProviderExchange {
    request: ModelRequest,
    assistant_message_id: Option<MessageId>,
    usage: Option<Usage>,
    terminal_state: RunTerminalState,
}

impl View for ProviderExchange {
    type V = ExchangeView;

    closed spec fn view(&self) -> ExchangeView {
        ExchangeView {
            request: self.request@,
            assistant_message_id: opt_message_id(self.assistant_message_id),
            usage: self.usage,
            terminal_state: self.terminal_state@,
        }
    }
}

impl Clone for ProviderExchange {
    fn clone(&self) -> (copy: Self)
        ensures
            copy@ == self@,
    {
        ProviderExchange {
            request: self.request.clone(),
            assistant_message_id: self.assistant_message_id,
            usage: self.usage,
            terminal_state: self.terminal_state.clone(),
        }
    }
}

/// The views of a list of exchanges, in order.
pub open spec fn exchange_views(exchanges: Seq<ProviderExchange>) -> Seq<ExchangeView> {
    exchanges.map_values(|exchange: ProviderExchange| exchange@)
}

impl ProviderExchange {
    pub fn request(&self) -> (request: &ModelRequest)
        ensures
            request@ == self@.request,
    {
        &self.request
    }

    pub fn assistant_message_id(&self) -> (message_id: Option<MessageId>)
        ensures
            opt_message_id(message_id) == self@.assistant_message_id,
    {
        self.assistant_message_id
    }

    pub fn usage(&self) -> (usage: Option<Usage>)
        ensures
            usage == self@.usage,
    {
        self.usage
    }

    pub fn terminal_state(&self) -> (state: &RunTerminalState)
        ensures
            state@ == self@.terminal_state,
    {
        &self.terminal_state
    }
}

/// One submitted user request and its single provider exchange.
#[derive(Debug, PartialEq, Eq)]
pub struct Run {
    run_id: RunId,
    model_id: String,
    exchanges: Vec<ProviderExchange>,
    terminal_state: RunTerminalState,
}

impl View for Run {
    type V = RunView;

    closed spec fn view(&self) -> RunView {
        RunView {
            run_id: self.run_id@,
            model_id: self.model_id@,
            exchanges: exchange_views(self.exchanges@),
            terminal_state: self.terminal_state@,
        }
    }
}

impl Clone for Run {
    fn clone(&self) -> (copy: Self)
        ensures
            copy@ == self@,
    {
        let mut exchanges: Vec<ProviderExchange> = Vec::new();
        let mut i: usize = 0;
        while i < self.exchanges.len()
            invariant
                i <= self.exchanges@.len(),
                exchange_views(exchanges@) == exchange_views(self.exchanges@).take(i as int),
            decreases self.exchanges@.len() - i,
        {
            let ghost before = exchange_views(exchanges@);
            exchanges.push(self.exchanges[i].clone());
            assert(exchange_views(exchanges@) =~= before.push(self.exchanges@[i as int]@));
            i += 1;
        }
        assert(exchange_views(self.exchanges@).take(i as int) =~= exchange_views(self.exchanges@));
        Run {
            run_id: self.run_id,
            model_id: self.model_id.clone(),
            exchanges,
            terminal_state: self.terminal_state.clone(),
        }
    }
}

/// The views of a list of runs, in order.
pub open spec fn run_views(runs: Seq<Run>) -> Seq<RunView> {
    runs.map_values(|run: Run| run@)
}

impl Run {
    pub fn id(&self) -> (run_id: RunId)
        ensures
            run_id@ == self@.run_id,
    {
        self.run_id
    }

    pub fn model_id(&self) -> (model_id: &str)
        ensures
            model_id@ == self@.model_id,
    {
        self.model_id.as_str()
    }

    pub fn exchanges(&self) -> (exchanges: &[ProviderExchange])
        ensures
            exchange_views(exchanges@) == self@.exchanges,
    {
        self.exchanges.as_slice()
    }

    pub fn terminal_state(&self) -> (state: &RunTerminalState)
        ensures
            state@ == self@.terminal_state,
    {
        &self.terminal_state
    }
}

/// Errors returned when a session transition cannot be applied.
#[derive(Debug, PartialEq, Eq)]
pub enum SessionError {
    RunIdExhausted,
    MessageIdExhausted,
    UnknownRun { run_id: RunId },
    RunInProgress { run_id: RunId },
    RunAlreadyTerminal { run_id: RunId },
    InvalidProtocol { detail: String },
    EmptyToolCallId,
    DuplicateToolCallId { tool_call_id: String },
    MissingToolCall { run_id: RunId, tool_call_id: String },
    ToolResultOutOfOrder {
        run_id: RunId,
        expected_tool_call_id: String,
        actual_tool_call_id: String,
    },
    ToolCallAlreadyResolved { run_id: RunId, tool_call_id: String },
    UnresolvedToolCall { run_id: RunId, tool_call_id: String },
}

impl View for SessionError {
    type V = SessionErrorView;

    open spec fn view(&self) -> SessionErrorView {
        match *self {
            SessionError::RunIdExhausted => SessionErrorView::RunIdExhausted,
            SessionError::MessageIdExhausted => SessionErrorView::MessageIdExhausted,
            SessionError::UnknownRun { run_id } => SessionErrorView::UnknownRun {
                run_id: run_id@,
            },
            SessionError::RunInProgress { run_id } => SessionErrorView::RunInProgress {
                run_id: run_id@,
            },
            SessionError::RunAlreadyTerminal { run_id } => SessionErrorView::RunAlreadyTerminal {
                run_id: run_id@,
            },
            SessionError::InvalidProtocol { detail } => SessionErrorView::InvalidProtocol {
                detail: detail@,
            },
            SessionError::EmptyToolCallId => SessionErrorView::EmptyToolCallId,
            SessionError::DuplicateToolCallId { tool_call_id } => {
                SessionErrorView::DuplicateToolCallId { tool_call_id: tool_call_id@ }
            },
            SessionError::MissingToolCall { run_id, tool_call_id } => {
                SessionErrorView::MissingToolCall { run_id: run_id@, tool_call_id: tool_call_id@ }
            },
            SessionError::ToolResultOutOfOrder {
                run_id,
                expected_tool_call_id,
                actual_tool_call_id,
            } => SessionErrorView::ToolResultOutOfOrder {
                run_id: run_id@,
                expected_tool_call_id: expected_tool_call_id@,
                actual_tool_call_id: actual_tool_call_id@,
            },
            SessionError::ToolCallAlreadyResolved { run_id, tool_call_id } => {
                SessionErrorView::ToolCallAlreadyResolved {
                    run_id: run_id@,
                    tool_call_id: tool_call_id@,
                }
            },
            SessionError::UnresolvedToolCall { run_id, tool_call_id } => {
                SessionErrorView::UnresolvedToolCall {
                    run_id: run_id@,
                    tool_call_id: tool_call_id@,
                }
            },
        }
    }
}

impl Clone for SessionError {
    fn clone(&self) -> (copy: Self)
        ensures
            copy == *self,
    {
        match self {
            SessionError::RunIdExhausted => SessionError::RunIdExhausted,
            SessionError::MessageIdExhausted => SessionError::MessageIdExhausted,
            SessionError::UnknownRun { run_id } => SessionError::UnknownRun { run_id: *run_id },
            SessionError::RunInProgress { run_id } => SessionError::RunInProgress {
                run_id: *run_id,
            },
            SessionError::RunAlreadyTerminal { run_id } => SessionError::RunAlreadyTerminal {
                run_id: *run_id,
            },
            SessionError::InvalidProtocol { detail } => SessionError::InvalidProtocol {
                detail: detail.clone(),
            },
            SessionError::EmptyToolCallId => SessionError::EmptyToolCallId,
            SessionError::DuplicateToolCallId { tool_call_id } => {
                SessionError::DuplicateToolCallId { tool_call_id: tool_call_id.clone() }
            },
            SessionError::MissingToolCall { run_id, tool_call_id } => {
                SessionError::MissingToolCall {
                    run_id: *run_id,
                    tool_call_id: tool_call_id.clone(),
                }
            },
            SessionError::ToolResultOutOfOrder {
                run_id,
                expected_tool_call_id,
                actual_tool_call_id,
            } => SessionError::ToolResultOutOfOrder {
                run_id: *run_id,
                expected_tool_call_id: expected_tool_call_id.clone(),
                actual_tool_call_id: actual_tool_call_id.clone(),
            },
            SessionError::ToolCallAlreadyResolved { run_id, tool_call_id } => {
                SessionError::ToolCallAlreadyResolved {
                    run_id: *run_id,
                    tool_call_id: tool_call_id.clone(),
                }
            },
            SessionError::UnresolvedToolCall { run_id, tool_call_id } => {
                SessionError::UnresolvedToolCall {
                    run_id: *run_id,
                    tool_call_id: tool_call_id.clone(),
                }
            },
        }
    }
}

impl SessionError {
    /// The readable form of this error.
    pub fn to_string(&self) -> (text: String)
        ensures
            text@ == session_error_text(self@),
    {
        match self {
            SessionError::RunIdExhausted => "run ID counter is exhausted".to_owned(),
            SessionError::MessageIdExhausted => "message ID counter is exhausted".to_owned(),
            SessionError::UnknownRun { run_id } => {
                concat3("run ", run_id.to_text().as_str(), " does not exist")
            },
            SessionError::RunInProgress { run_id } => {
                concat3("run ", run_id.to_text().as_str(), " is still active")
            },
            SessionError::RunAlreadyTerminal { run_id } => {
                concat3("run ", run_id.to_text().as_str(), " is already terminal")
            },
            SessionError::InvalidProtocol { detail } => {
                concat2("invalid conversation protocol: ", detail.as_str())
            },
            SessionError::EmptyToolCallId => "tool call ID cannot be empty".to_owned(),
            SessionError::DuplicateToolCallId { tool_call_id } => {
                concat2("tool call ID already exists: ", tool_call_id.as_str())
            },
            SessionError::MissingToolCall { run_id, tool_call_id } => {
                let mut text = concat3(
                    "tool result references missing tool call ",
                    tool_call_id.as_str(),
                    " in run ",
                );
                text.append(run_id.to_text().as_str());
                text
            },
            SessionError::ToolResultOutOfOrder {
                run_id,
                expected_tool_call_id,
                actual_tool_call_id,
            } => {
                let mut text = concat3(
                    "tool result for run ",
                    run_id.to_text().as_str(),
                    " is out of order: expected ",
                );
                text.append(expected_tool_call_id.as_str());
                text.append(", received ");
                text.append(actual_tool_call_id.as_str());
                text
            },
            SessionError::ToolCallAlreadyResolved { run_id, tool_call_id } => {
                let mut text = concat3("tool call ", tool_call_id.as_str(), " in run ");
                text.append(run_id.to_text().as_str());
                text.append(" is already resolved");
                text
            },
            SessionError::UnresolvedToolCall { run_id, tool_call_id } => {
                let mut text = concat3("tool call ", tool_call_id.as_str(), " in run ");
                text.append(run_id.to_text().as_str());
                text.append(" remains unresolved");
                text
            },
        }
    }
}

/// The committed data handed to runtime when a run starts.
#[derive(Debug, PartialEq, Eq)]
pub struct RunStart {
    run_id: RunId,
    user_message_id: MessageId,
    request: ModelRequest,
}

impl View for RunStart {
    type V = RunStartView;

    closed spec fn view(&self) -> RunStartView {
        RunStartView {
            run_id: self.run_id@,
            user_message_id: self.user_message_id@,
            request: self.request@,
        }
    }
}

impl Clone for RunStart {
    fn clone(&self) -> (copy: Self)
        ensures
            copy@ == self@,
    {
        RunStart {
            run_id: self.run_id,
            user_message_id: self.user_message_id,
            request: self.request.clone(),
        }
    }
}

impl RunStart {
    pub fn run_id(&self) -> (run_id: RunId)
        ensures
            run_id@ == self@.run_id,
    {
        self.run_id
    }

    pub fn user_message_id(&self) -> (message_id: MessageId)
        ensures
            message_id@ == self@.user_message_id,
    {
        self.user_message_id
    }

    pub fn request(&self) -> (request: &ModelRequest)
        ensures
            request@ == self@.request,
    {
        &self.request
    }
}

/// The assistant identity established by one text-delta transition.
#[derive(Debug, Clone, Copy, PartialEq, Eq)]
pub struct AssistantDeltaResult {
    assistant_message_id: Option<MessageId>,
    assistant_message_created: bool,
}

impl View for AssistantDeltaResult {
    type V = AssistantDeltaView;

    closed spec fn view(&self) -> AssistantDeltaView {
        AssistantDeltaView {
            assistant_message_id: opt_message_id(self.assistant_message_id),
            assistant_message_created: self.assistant_message_created,
        }
    }
}

impl AssistantDeltaResult {
    pub fn assistant_message_id(&self) -> (message_id: Option<MessageId>)
        ensures
            opt_message_id(message_id) == self@.assistant_message_id,
    {
        self.assistant_message_id
    }

    pub fn assistant_message_created(&self) -> (created: bool)
        ensures
            created == self@.assistant_message_created,
    {
        self.assistant_message_created
    }
}

/// The complete in-memory state of one process-lifetime conversation.
#[derive(Debug, PartialEq, Eq)]
pub struct Session {
    current_model_id: String,
    next_run_id: u64,
    next_message_id: u64,
    conversation_records: Vec<ConversationRecord>,
    runs: Vec<Run>,
}

impl View for Session {
    type V = SessionView;

    closed spec fn view(&self) -> SessionView {
        SessionView {
            current_model_id: self.current_model_id@,
            next_run_id: self.next_run_id,
            next_message_id: self.next_message_id,
            records: record_views(self.conversation_records@),
            runs: run_views(self.runs@),
        }
    }
}

impl Clone for Session {
    fn clone(&self) -> (copy: Self)
        ensures
            copy@ == self@,
    {
        let mut conversation_records: Vec<ConversationRecord> = Vec::new();
        let mut i: usize = 0;
        while i < self.conversation_records.len()
            invariant
                i <= self.conversation_records@.len(),
                record_views(conversation_records@) == record_views(
                    self.conversation_records@,
                ).take(i as int),
            decreases self.conversation_records@.len() - i,
        {
            let ghost before = record_views(conversation_records@);
            conversation_records.push(self.conversation_records[i].clone());
            assert(record_views(conversation_records@) =~= before.push(
                self.conversation_records@[i as int]@,
            ));
            i += 1;
        }
        assert(record_views(self.conversation_records@).take(i as int) =~= record_views(
            self.conversation_records@,
        ));
        let mut runs: Vec<Run> = Vec::new();
        let mut r: usize = 0;
        while r < self.runs.len()
            invariant
                r <= self.runs@.len(),
                run_views(runs@) == run_views(self.runs@).take(r as int),
            decreases self.runs@.len() - r,
        {
            let ghost before = run_views(runs@);
            runs.push(self.runs[r].clone());
            assert(run_views(runs@) =~= before.push(self.runs@[r as int]@));
            r += 1;
        }
        assert(run_views(self.runs@).take(r as int) =~= run_views(self.runs@));
        Session {
            current_model_id: self.current_model_id.clone(),
            next_run_id: self.next_run_id,
            next_message_id: self.next_message_id,
            conversation_records,
            runs,
        }
    }
}

impl Session {
    /// Whether the session satisfies its invariant.
    pub open spec fn wf(self) -> bool {
        valid(self@)
    }

    /// An empty session for this model.
    pub fn new(current_model_id: String) -> (session: Self)
        ensures
            session.wf(),
            session@ == (SessionView {
                current_model_id: current_model_id@,
                next_run_id: 1,
                next_message_id: 1,
                records: Seq::empty(),
                runs: Seq::empty(),
            }),
    {
        let session = Session {
            current_model_id,
            next_run_id: 1,
            next_message_id: 1,
            conversation_records: Vec::new(),
            runs: Vec::new(),
        };
        proof {
            validity::lemma_empty_session_is_valid(session@);
        }
        session
    }

    pub fn current_model_id(&self) -> (model_id: &str)
        ensures
            model_id@ == self@.current_model_id,
    {
        self.current_model_id.as_str()
    }

    pub fn conversation_records(&self) -> (records: &[ConversationRecord])
        ensures
            record_views(records@) == self@.records,
    {
        self.conversation_records.as_slice()
    }

    pub fn runs(&self) -> (runs: &[Run])
        ensures
            run_views(runs@) == self@.runs,
    {
        self.runs.as_slice()
    }

    fn active_run_id(&self) -> (run_id: Option<RunId>)
        requires
            self.wf(),
        ensures
            match run_id {
                Some(run_id) => active_run(self@) == Some(run_id@),
                None => active_run(self@) is None,
            },
    {
        let mut r: usize = 0;
        while r < self.runs.len()
            invariant
                r <= self.runs@.len(),
                forall|q: int| 0 <= q < r ==> !((#[trigger] self.runs@[q])@.terminal_state is Running),
                self.wf(),
            decreases self.runs@.len() - r,
        {
            assert(self@.runs[r as int] == self.runs@[r as int]@);
            if let RunTerminalState::Running = self.runs[r].terminal_state {
                proof {
                    reveal(model::runs_match_exchanges);
                    assert(r == self.runs@.len() - 1);
                }
                return Some(self.runs[r].run_id);
            }
            r += 1;
        }
        proof {
            if self@.runs.len() > 0 {
                assert(self@.runs.last() == self.runs@[self.runs@.len() - 1]@);
            }
        }
        None
    }

    fn running_run_index(&self, run_id: RunId) -> (r: Result<usize, SessionError>)
        requires
            self.wf(),
        ensures
            match run_fault(self@, run_id@) {
                Some(error) => r is Err && r->Err_0@ == error,
                None => r is Ok && r->Ok_0 == self@.runs.len() - 1 && active_run(self@) == Some(
                    run_id@,
                ),
            },
    {
        let mut r: usize = 0;
        while r < self.runs.len()
            invariant
                r <= self.runs@.len(),
                forall|q: int| 0 <= q < r ==> (#[trigger] self.runs@[q])@.run_id != run_id@,
                self.wf(),
            decreases self.runs@.len() - r,
        {
            assert(self@.runs[r as int] == self.runs@[r as int]@);
            if self.runs[r].run_id.0 == run_id.0 {
                proof {
                    reveal(model::runs_match_exchanges);
                    reveal(model::identities_grow);
                    assert(knows_run(self@, run_id@));
                    assert(self@.runs.last() == self@.runs[self@.runs.len() - 1]);
                }
                if let RunTerminalState::Running = self.runs[r].terminal_state {
                    return Ok(r);
                }
                return Err(SessionError::RunAlreadyTerminal { run_id });
            }
            r += 1;
        }
        assert forall|q: int| 0 <= q < self@.runs.len() implies (#[trigger] self@.runs[q]).run_id
            != run_id@ by {
            assert(self@.runs[q] == self.runs@[q]@);
        }
        Err(SessionError::UnknownRun { run_id })
    }

    fn next_run_id(&self) -> (r: Result<(RunId, u64), SessionError>)
        ensures
            match r {
                Ok((run_id, next)) => {
                    &&& self@.next_run_id < u64::MAX
                    &&& run_id@ == self@.next_run_id
                    &&& next == self@.next_run_id + 1
                },
                Err(error) => self@.next_run_id == u64::MAX && error@
                    == SessionErrorView::RunIdExhausted,
            },
    {
        match self.next_run_id.checked_add(1) {
            Some(next) => Ok((RunId(self.next_run_id), next)),
            None => Err(SessionError::RunIdExhausted),
        }
    }

    fn next_message_id(&self) -> (r: Result<(MessageId, u64), SessionError>)
        ensures
            match r {
                Ok((message_id, next)) => {
                    &&& self@.next_message_id < u64::MAX
                    &&& message_id@ == self@.next_message_id
                    &&& next == self@.next_message_id + 1
                },
                Err(error) => self@.next_message_id == u64::MAX && error@
                    == SessionErrorView::MessageIdExhausted,
            },
    {
        match self.next_message_id.checked_add(1) {
            Some(next) => Ok((MessageId(self.next_message_id), next)),
            None => Err(SessionError::MessageIdExhausted),
        }
    }

    fn model_visible_messages(&self) -> (messages: Vec<ModelMessage>)
        ensures
            message_views(messages@) == visible_messages(self@.records),
    {
        let mut messages: Vec<ModelMessage> = Vec::new();
        let mut i: usize = 0;
        assert(message_views(messages@) =~= visible_messages(self@.records.take(0)));
        while i < self.conversation_records.len()
            invariant
                i <= self.conversation_records@.len(),
                message_views(messages@) == visible_messages(self@.records.take(i as int)),
            decreases self.conversation_records@.len() - i,
        {
            let record = &self.conversation_records[i];
            assert(self@.records.take(i + 1).drop_last() =~= self@.records.take(i as int));
            assert(self@.records.take(i + 1).last() == record@);
            if record.model_visible {
                let ghost before = message_views(messages@);
                messages.push(record.message.clone());
                assert(message_views(messages@) =~= before.push(record@.message));
            }
            i += 1;
        }
        assert(self@.records.take(i as int) =~= self@.records);
        messages
    }

    fn validate_model_visible_history(&self) -> (r: Result<(), SessionError>)
        ensures
            match history_fault(visible_messages(self@.records)) {
                Some(detail) => r is Err && r->Err_0@ == (SessionErrorView::InvalidProtocol {
                    detail,
                }),
                None => r is Ok,
            },
    {
        let mut unresolved: Vec<String> = Vec::new();
        let mut i: usize = 0;
        assert(texts(unresolved@) =~= Seq::<Seq<char>>::empty());
        assert(visible_messages(self@.records.take(0)) =~= Seq::<ModelMessageView>::empty());
        while i < self.conversation_records.len()
            invariant
                i <= self.conversation_records@.len(),
                history_scan(visible_messages(self@.records.take(i as int))) == Ok::<
                    Seq<Seq<char>>,
                    Seq<char>,
                >(texts(unresolved@)),
            decreases self.conversation_records@.len() - i,
        {
            let record = &self.conversation_records[i];
            let ghost scanned = visible_messages(self@.records.take(i as int));
            let ghost before = texts(unresolved@);
            proof {
                assert(self@.records.take(i + 1).drop_last() =~= self@.records.take(i as int));
                assert(self@.records.take(i + 1).last() == record@);
                assert(scanned.push(record@.message).drop_last() =~= scanned);
                validity::lemma_history_fault_stays(self@.records, i + 1);
            }
            if record.model_visible {
                match &record.message {
                    ModelMessage::User { .. } => {
                        if unresolved.len() > 0 {
                            assert(unresolved@[0]@ == before[0]);
                            return Err(
                                invalid_protocol(
                                    concat2(
                                        "user record follows unresolved tool call ",
                                        unresolved[0].as_str(),
                                    ),
                                ),
                            );
                        }
                    },
                    ModelMessage::Assistant { tool_calls, .. } => {
                        if unresolved.len() > 0 {
                            assert(unresolved@[0]@ == before[0]);
                            return Err(
                                invalid_protocol(
                                    concat2(
                                        "assistant record follows unresolved tool call ",
                                        unresolved[0].as_str(),
                                    ),
                                ),
                            );
                        }
                        unresolved = ids_of_calls(tool_calls);
                    },
                    ModelMessage::ToolResult { tool_call_id, .. } => {
                        if unresolved.len() == 0 {
                            return Err(
                                invalid_protocol(
                                    "tool result does not follow an assistant tool-call group".to_owned(),
                                ),
                            );
                        }
                        assert(unresolved@[0]@ == before[0]);
                        if !same_text(unresolved[0].as_str(), tool_call_id.as_str()) {
                            let mut detail = concat3(
                                "tool result expected ",
                                unresolved[0].as_str(),
                                ", received ",
                            );
                            detail.append(tool_call_id.as_str());
                            return Err(invalid_protocol(detail));
                        }
                        unresolved.remove(0);
                        assert(texts(unresolved@) =~= before.drop_first());
                    },
                }
            }
            i += 1;
        }
        assert(self@.records.take(i as int) =~= self@.records);
        if unresolved.len() > 0 {
            assert(unresolved@[0]@ == texts(unresolved@)[0]);
            return Err(
                invalid_protocol(
                    concat2(
                        "conversation ends with unresolved tool call ",
                        unresolved[0].as_str(),
                    ),
                ),
            );
        }
        Ok(())
    }

    /// Choose the model for later runs; runs already started keep theirs.
    pub fn select_model(&mut self, model_id: String)
        requires
            old(self).wf(),
        ensures
            final(self).wf(),
            final(self)@ == (SessionView { current_model_id: model_id@, ..old(self)@ }),
    {
        self.current_model_id = model_id;
        proof {
            validity::lemma_model_choice_keeps_valid(old(self)@, model_id@);
        }
    }

    /// Start a run and snapshot every currently model-visible record.
    pub fn start_run(&mut self, user_content: String) -> (r: Result<RunStart, SessionError>)
        requires
            old(self).wf(),
        ensures
            final(self).wf(),
            match start_run_step(old(self)@, user_content@) {
                Ok((post, start)) => {
                    &&& r is Ok
                    &&& r->Ok_0@ == start
                    &&& final(self)@ == post
                },
                Err(error) => r is Err && r->Err_0@ == error && final(self)@ == old(self)@,
            },
    {
        if let Some(run_id) = self.active_run_id() {
            return Err(SessionError::RunInProgress { run_id });
        }
        match self.validate_model_visible_history() {
            Ok(()) => {},
            Err(error) => {
                return Err(error);
            },
        }
        let (run_id, next_run_id) = match self.next_run_id() {
            Ok(next) => next,
            Err(error) => {
                return Err(error);
            },
        };
        let (message_id, next_message_id) = match self.next_message_id() {
            Ok(next) => next,
            Err(error) => {
                return Err(error);
            },
        };
        let user_message = ModelMessage::User { content: user_content };
        let mut request_messages = self.model_visible_messages();
        let ghost before = message_views(request_messages@);
        request_messages.push(user_message.clone());
        assert(message_views(request_messages@) =~= before.push(user_message@));
        let request = ModelRequest {
            model_id: self.current_model_id.clone(),
            messages: request_messages,
        };
        let mut exchanges: Vec<ProviderExchange> = Vec::new();
        exchanges.push(
            ProviderExchange {
                request: request.clone(),
                assistant_message_id: None,
                usage: None,
                terminal_state: RunTerminalState::Running,
            },
        );
        let run = Run {
            run_id,
            model_id: self.current_model_id.clone(),
            exchanges,
            terminal_state: RunTerminalState::Running,
        };
        let record = ConversationRecord {
            message_id,
            run_id,
            message: user_message,
            model_visible: true,
        };
        self.next_run_id = next_run_id;
        self.next_message_id = next_message_id;
        self.conversation_records.push(record);
        self.runs.push(run);
        proof {
            let (post, start) = start_run_step(old(self)@, user_content@)->Ok_0;
            assert(run@.exchanges =~= post.runs.last().exchanges);
            assert(self@.records =~= post.records);
            assert(self@.runs =~= post.runs);
            validity::lemma_start_run_keeps_valid(old(self)@, user_content@);
        }
        Ok(RunStart { run_id, user_message_id: message_id, request })
    }

    fn resolved_tool_call_ids(&self, run_id: RunId) -> (ids: Vec<String>)
        ensures
            texts(ids@) == resolved_calls(self@.records, run_id@),
    {
        let mut ids: Vec<String> = Vec::new();
        let mut i: usize = 0;
        assert(texts(ids@) =~= resolved_calls(self@.records.take(0), run_id@));
        while i < self.conversation_records.len()
            invariant
                i <= self.conversation_records@.len(),
                texts(ids@) == resolved_calls(self@.records.take(i as int), run_id@),
            decreases self.conversation_records@.len() - i,
        {
            let record = &self.conversation_records[i];
            assert(self@.records.take(i + 1).drop_last() =~= self@.records.take(i as int));
            assert(self@.records.take(i + 1).last() == record@);
            if record.run_id.0 == run_id.0 {
                if let ModelMessage::ToolResult { tool_call_id, .. } = &record.message {
                    let ghost before = texts(ids@);
                    ids.push(tool_call_id.clone());
                    assert(texts(ids@) =~= before.push(tool_call_id@));
                }
            }
            i += 1;
        }
        assert(self@.records.take(i as int) =~= self@.records);
        ids
    }

    fn declared_tool_call_ids(&self, run_id: RunId) -> (ids: Vec<String>)
        ensures
            texts(ids@) == declared_calls(self@.records, run_id@),
    {
        let mut ids: Vec<String> = Vec::new();
        let mut i: usize = 0;
        assert(texts(ids@) =~= declared_calls(self@.records.take(0), run_id@));
        while i < self.conversation_records.len()
            invariant
                i <= self.conversation_records@.len(),
                texts(ids@) == declared_calls(self@.records.take(i as int), run_id@),
            decreases self.conversation_records@.len() - i,
        {
            let record = &self.conversation_records[i];
            let ghost before = texts(ids@);
            assert(self@.records.take(i + 1).drop_last() =~= self@.records.take(i as int));
            assert(self@.records.take(i + 1).last() == record@);
            if record.run_id.0 == run_id.0 {
                match &record.message {
                    ModelMessage::Assistant { tool_calls, .. } => {
                        let mut new_ids = ids_of_calls(tool_calls);
                        let ghost added = texts(new_ids@);
                        ids.append(&mut new_ids);
                        assert(texts(ids@) =~= before + added);
                    },
                    _ => {
                        assert(before + tool_call_ids(calls_in(record@)) =~= before);
                    },
                }
            }
            i += 1;
        }
        assert(self@.records.take(i as int) =~= self@.records);
        ids
    }

    fn tool_call_id_exists(&self, tool_call_id: &str) -> (exists: bool)
        ensures
            exists == call_exists(self@.records, tool_call_id@),
    {
        let mut i: usize = 0;
        while i < self.conversation_records.len()
            invariant
                i <= self.conversation_records@.len(),
                !call_exists(self@.records.take(i as int), tool_call_id@),
            decreases self.conversation_records@.len() - i,
        {
            let record = &self.conversation_records[i];
            assert(self@.records[i as int] == record@);
            if let ModelMessage::Assistant { tool_calls, .. } = &record.message {
                let ids = ids_of_calls(tool_calls);
                if contains_entry(&ids, tool_call_id) {
                    proof {
                        let k = choose|k: int|
                            0 <= k < texts(ids@).len() && texts(ids@)[k] == tool_call_id@;
                        assert(calls_in(self@.records[i as int])[k].tool_call_id == tool_call_id@);
                    }
                    return true;
                }
                assert forall|k: int| 0 <= k < calls_in(record@).len() implies (
                #[trigger] calls_in(record@)[k]).tool_call_id != tool_call_id@ by {
                    assert(texts(ids@)[k] == calls_in(record@)[k].tool_call_id);
                    assert(!texts(ids@).contains(tool_call_id@));
                }
            }
            proof {
                let seen = self@.records.take(i + 1);
                assert forall|j: int, k: int|
                    0 <= j < seen.len() && 0 <= k < calls_in(seen[j]).len() implies (
                #[trigger] calls_in(seen[j])[k]).tool_call_id != tool_call_id@ by {
                    if j < i {
                        let earlier = self@.records.take(i as int);
                        assert(earlier[j] == seen[j]);
                        assert(calls_in(earlier[j])[k].tool_call_id != tool_call_id@);
                    } else {
                        assert(seen[j] == record@);
                    }
                }
            }
            i += 1;
        }
        assert(self@.records.take(i as int) =~= self@.records);
        false
    }

    fn ensure_assistant_output_can_continue(&self, run_id: RunId) -> (r: Result<(), SessionError>)
        ensures
            if resolved_calls(self@.records, run_id@).len() > 0 {
                r is Err && r->Err_0@ == late_output()
            } else {
                r is Ok
            },
    {
        if self.resolved_tool_call_ids(run_id).len() > 0 {
            return Err(
                invalid_protocol("assistant output cannot continue after a tool result".to_owned()),
            );
        }
        Ok(())
    }

    /// Start or extend the assistant record of the active run.
    fn append_assistant_output(
        &mut self,
        run_id: RunId,
        text: String,
        tool_calls: Vec<ToolCall>,
    ) -> (r: Result<(), SessionError>)
        requires
            old(self).wf(),
            active_run(old(self)@) == Some(run_id@),
        ensures
            match assistant_output_step(old(self)@, text@, tool_call_views(tool_calls@)) {
                Ok(post) => r is Ok && final(self)@ == post,
                Err(error) => r is Err && r->Err_0@ == error && final(self)@ == old(self)@,
            },
    {
        match self.ensure_assistant_output_can_continue(run_id) {
            Ok(()) => {},
            Err(error) => {
                return Err(error);
            },
        }
        let run_index: usize = self.runs.len() - 1;
        proof {
            reveal(model::runs_match_exchanges);
            assert(self@.runs.last() == self.runs@[run_index as int]@);
            assert(self@.runs[run_index as int].exchanges.len() == 1);
            assert(current_exchange(self@) == self.runs@[run_index as int].exchanges@[0]@);
        }
        if self.runs[run_index].exchanges[0].assistant_message_id.is_some() {
            let ghost added = tool_call_views(tool_calls@);
            proof {
                let a = validity::lemma_active_with_assistant(self@);
                assert(self@.records.last() == self.conversation_records@[a]@);
            }
            let last: usize = self.conversation_records.len() - 1;
            let ghost records = self.conversation_records@;
            let mut more_calls = tool_calls;
            let record = &mut self.conversation_records[last];
            match &mut record.message {
                ModelMessage::Assistant { content, tool_calls: calls } => {
                    let ghost before = tool_call_views(calls@);
                    content.append(text.as_str());
                    calls.append(&mut more_calls);
                    assert(tool_call_views(calls@) =~= before + added);
                },
                _ => {},
            }
            proof {
                let post = with_more_assistant(old(self)@, text@, added);
                assert(self.conversation_records@ =~= records.update(
                    last as int,
                    self.conversation_records@[last as int],
                ));
                assert(self.conversation_records@[last as int]@ == post.records.last());
                assert(self@.records =~= post.records);
            }
            return Ok(());
        }
        let (message_id, next_message_id) = match self.next_message_id() {
            Ok(next) => next,
            Err(error) => {
                return Err(error);
            },
        };
        let ghost added = tool_call_views(tool_calls@);
        self.next_message_id = next_message_id;
        self.conversation_records.push(
            ConversationRecord {
                message_id,
                run_id,
                message: ModelMessage::Assistant { content: text, tool_calls },
                model_visible: false,
            },
        );
        let run = &mut self.runs[run_index];
        let exchange = &mut run.exchanges[0];
        exchange.assistant_message_id = Some(message_id);
        proof {
            let post = with_new_assistant(old(self)@, text@, added);
            assert(self@.records =~= post.records);
            assert(self.runs@[run_index as int]@.exchanges =~= post.runs.last().exchanges);
            assert(self@.runs =~= post.runs);
        }
        Ok(())
    }

    /// Append a non-empty assistant text delta to the run's stable assistant record.
    pub fn append_assistant_delta(&mut self, run_id: RunId, text_delta: String) -> (r: Result<
        AssistantDeltaResult,
        SessionError,
    >)
        requires
            old(self).wf(),
        ensures
            final(self).wf(),
            match assistant_delta_step(old(self)@, run_id@, text_delta@) {
                Ok((post, delta)) => {
                    &&& r is Ok
                    &&& r->Ok_0@ == delta
                    &&& final(self)@ == post
                },
                Err(error) => r is Err && r->Err_0@ == error && final(self)@ == old(self)@,
            },
    {
        let run_index = match self.running_run_index(run_id) {
            Ok(run_index) => run_index,
            Err(error) => {
                return Err(error);
            },
        };
        if text_delta.as_str().unicode_len() == 0 {
            return Ok(
                AssistantDeltaResult {
                    assistant_message_id: None,
                    assistant_message_created: false,
                },
            );
        }
        proof {
            reveal(model::runs_match_exchanges);
            assert(self@.runs.last() == self.runs@[run_index as int]@);
            assert(self@.runs[run_index as int].exchanges.len() == 1);
            assert(current_exchange(self@) == self.runs@[run_index as int].exchanges@[0]@);
        }
        let created = self.runs[run_index].exchanges[0].assistant_message_id.is_none();
        let tool_calls: Vec<ToolCall> = Vec::new();
        assert(tool_call_views(tool_calls@) =~= Seq::empty());
        match self.append_assistant_output(run_id, text_delta, tool_calls) {
            Ok(()) => {},
            Err(error) => {
                return Err(error);
            },
        }
        proof {
            validity::lemma_assistant_delta_keeps_valid(old(self)@, run_id@, text_delta@);
            assert(self@.runs.last() == self.runs@[run_index as int]@);
            assert(current_exchange(self@) == self.runs@[run_index as int].exchanges@[0]@);
        }
        Ok(
            AssistantDeltaResult {
                assistant_message_id: self.runs[run_index].exchanges[0].assistant_message_id,
                assistant_message_created: created,
            },
        )
    }

    /// Append one complete provider tool call to the run's stable assistant record.
    pub fn append_tool_call(&mut self, run_id: RunId, tool_call: ToolCall) -> (r: Result<
        (),
        SessionError,
    >)
        requires
            old(self).wf(),
        ensures
            final(self).wf(),
            match tool_call_step(old(self)@, run_id@, tool_call@) {
                Ok(post) => r is Ok && final(self)@ == post,
                Err(error) => r is Err && r->Err_0@ == error && final(self)@ == old(self)@,
            },
    {
        match self.running_run_index(run_id) {
            Ok(_) => {},
            Err(error) => {
                return Err(error);
            },
        }
        if tool_call.tool_call_id.as_str().unicode_len() == 0 {
            return Err(SessionError::EmptyToolCallId);
        }
        if self.tool_call_id_exists(tool_call.tool_call_id.as_str()) {
            return Err(
                SessionError::DuplicateToolCallId { tool_call_id: tool_call.tool_call_id },
            );
        }
        let mut tool_calls: Vec<ToolCall> = Vec::new();
        tool_calls.push(tool_call);
        assert(tool_call_views(tool_calls@) =~= seq![tool_call@]);
        let r = self.append_assistant_output(run_id, String::new(), tool_calls);
        proof {
            if r is Ok {
                validity::lemma_tool_call_keeps_valid(old(self)@, run_id@, tool_call@);
            }
        }
        r
    }

    /// Replace the current exchange's cumulative provider usage.
    pub fn record_usage(&mut self, run_id: RunId, usage: Usage) -> (r: Result<(), SessionError>)
        requires
            old(self).wf(),
        ensures
            final(self).wf(),
            match usage_step(old(self)@, run_id@, usage) {
                Ok(post) => r is Ok && final(self)@ == post,
                Err(error) => r is Err && r->Err_0@ == error && final(self)@ == old(self)@,
            },
    {
        let run_index = match self.running_run_index(run_id) {
            Ok(run_index) => run_index,
            Err(error) => {
                return Err(error);
            },
        };
        proof {
            reveal(model::runs_match_exchanges);
            assert(self@.runs.last() == self.runs@[run_index as int]@);
            assert(self@.runs[run_index as int].exchanges.len() == 1);
        }
        let run = &mut self.runs[run_index];
        let exchange = &mut run.exchanges[0];
        exchange.usage = Some(usage);
        proof {
            let post = usage_step(old(self)@, run_id@, usage)->Ok_0;
            assert(self.runs@[run_index as int]@.exchanges =~= post.runs.last().exchanges);
            assert(self@.runs =~= post.runs);
            validity::lemma_usage_keeps_valid(old(self)@, run_id@, usage);
        }
        Ok(())
    }

    /// Append a correlated tool result without creating another exchange.
    pub fn append_tool_result(
        &mut self,
        run_id: RunId,
        tool_call_id: String,
        content: String,
    ) -> (r: Result<(), SessionError>)
        requires
            old(self).wf(),
        ensures
            final(self).wf(),
            match tool_result_step(old(self)@, run_id@, tool_call_id@, content@) {
                Ok(post) => r is Ok && final(self)@ == post,
                Err(error) => r is Err && r->Err_0@ == error && final(self)@ == old(self)@,
            },
    {
        match self.running_run_index(run_id) {
            Ok(_) => {},
            Err(error) => {
                return Err(error);
            },
        }
        if tool_call_id.as_str().unicode_len() == 0 {
            return Err(SessionError::EmptyToolCallId);
        }
        let declared = self.declared_tool_call_ids(run_id);
        let resolved = self.resolved_tool_call_ids(run_id);
        if contains_entry(&resolved, tool_call_id.as_str()) {
            return Err(SessionError::ToolCallAlreadyResolved { run_id, tool_call_id });
        }
        if !contains_entry(&declared, tool_call_id.as_str()) {
            return Err(SessionError::MissingToolCall { run_id, tool_call_id });
        }
        proof {
            validity::lemma_awaited_call(self@, tool_call_id@);
        }
        let expected: &String = &declared[resolved.len()];
        assert(texts(declared@)[resolved@.len() as int] == expected@);
        if !same_text(expected.as_str(), tool_call_id.as_str()) {
            return Err(
                SessionError::ToolResultOutOfOrder {
                    run_id,
                    expected_tool_call_id: expected.clone(),
                    actual_tool_call_id: tool_call_id,
                },
            );
        }
        let (message_id, next_message_id) = match self.next_message_id() {
            Ok(next) => next,
            Err(error) => {
                return Err(error);
            },
        };
        self.next_message_id = next_message_id;
        self.conversation_records.push(
            ConversationRecord {
                message_id,
                run_id,
                message: ModelMessage::ToolResult { tool_call_id, content },
                model_visible: true,
            },
        );
        proof {
            let post = tool_result_step(old(self)@, run_id@, tool_call_id@, content@)->Ok_0;
            assert(self@.records =~= post.records);
            validity::lemma_tool_result_keeps_valid(old(self)@, run_id@, tool_call_id@, content@);
        }
        Ok(())
    }

    fn set_terminal_state(&mut self, run_index: usize, terminal_state: RunTerminalState)
        requires
            old(self).wf(),
            run_index == old(self)@.runs.len() - 1,
        ensures
            final(self)@ == with_terminal_state(old(self)@, terminal_state@),
    {
        proof {
            reveal(model::runs_match_exchanges);
            assert(self@.runs.last() == self.runs@[run_index as int]@);
            assert(self@.runs[run_index as int].exchanges.len() == 1);
        }
        let run = &mut self.runs[run_index];
        let exchange = &mut run.exchanges[0];
        exchange.terminal_state = terminal_state.clone();
        run.terminal_state = terminal_state;
        proof {
            let post = with_terminal_state(old(self)@, terminal_state@);
            assert(self.runs@[run_index as int]@.exchanges =~= post.runs.last().exchanges);
            assert(self@.runs =~= post.runs);
        }
    }

    /// Show the assistant output of a run to later requests.
    fn show_assistant(&mut self, run_id: RunId)
        ensures
            final(self)@ == (SessionView {
                records: with_assistant_shown(old(self)@.records, run_id@),
                ..old(self)@
            }),
    {
        let ghost shown = with_assistant_shown(self@.records, run_id@);
        let total: usize = self.conversation_records.len();
        let mut i: usize = 0;
        while i < total
            invariant
                total == self.conversation_records@.len(),
                i <= total,
                shown == with_assistant_shown(old(self)@.records, run_id@),
                shown.len() == total,
                self@ == (SessionView { records: self@.records, ..old(self)@ }),
                forall|k: int| 0 <= k < i ==> #[trigger] self@.records[k] == shown[k],
                forall|k: int| i <= k < total ==> #[trigger] self@.records[k] == old(
                    self,
                )@.records[k],
            decreases total - i,
        {
            let ghost before = self@.records;
            assert(before[i as int] == self.conversation_records@[i as int]@);
            assert(shown[i as int] == shown_record(before[i as int], run_id@));
            if self.conversation_records[i].run_id.0 == run_id.0 {
                if let ModelMessage::Assistant { .. } = &self.conversation_records[i].message {
                    let record = &mut self.conversation_records[i];
                    record.model_visible = true;
                }
            }
            assert(self@.records =~= before.update(i as int, shown[i as int]));
            i += 1;
        }
        assert(self@.records =~= shown);
    }

    /// Finish a run with the provider's normalized completion outcome.
    pub fn finish_run(&mut self, run_id: RunId, completion_outcome: CompletionOutcome) -> (r: Result<
        (),
        SessionError,
    >)
        requires
            old(self).wf(),
        ensures
            final(self).wf(),
            match finish_run_step(old(self)@, run_id@, completion_outcome) {
                Ok(post) => r is Ok && final(self)@ == post,
                Err(error) => r is Err && r->Err_0@ == error && final(self)@ == old(self)@,
            },
    {
        let run_index = match self.running_run_index(run_id) {
            Ok(run_index) => run_index,
            Err(error) => {
                return Err(error);
            },
        };
        let declared = self.declared_tool_call_ids(run_id);
        let resolved = self.resolved_tool_call_ids(run_id);
        if resolved.len() < declared.len() {
            let unresolved: &String = &declared[resolved.len()];
            assert(texts(declared@)[resolved@.len() as int] == unresolved@);
            return Err(
                SessionError::UnresolvedToolCall { run_id, tool_call_id: unresolved.clone() },
            );
        }
        self.set_terminal_state(run_index, RunTerminalState::Completed(completion_outcome));
        self.show_assistant(run_id);
        proof {
            validity::lemma_finish_run_keeps_valid(old(self)@, run_id@, completion_outcome);
        }
        Ok(())
    }

    /// Fail a run while retaining its request, partial response, usage, and detail.
    pub fn fail_run(
        &mut self,
        run_id: RunId,
        category: FailureCategory,
        display_detail: String,
    ) -> (r: Result<(), SessionError>)
        requires
            old(self).wf(),
        ensures
            final(self).wf(),
            match fail_run_step(old(self)@, run_id@, category, display_detail@) {
                Ok(post) => r is Ok && final(self)@ == post,
                Err(error) => r is Err && r->Err_0@ == error && final(self)@ == old(self)@,
            },
    {
        let run_index = match self.running_run_index(run_id) {
            Ok(run_index) => run_index,
            Err(error) => {
                return Err(error);
            },
        };
        self.set_terminal_state(
            run_index,
            RunTerminalState::Failed(SessionFailure { category, display_detail }),
        );
        proof {
            validity::lemma_fail_run_keeps_valid(old(self)@, run_id@, category, display_detail@);
        }
        Ok(())
    }

    /// Move the identity counters forward.
    pub fn set_next_counters_for_test(&mut self, next_run_id: u64, next_message_id: u64)
        requires
            old(self).wf(),
            old(self)@.next_run_id <= next_run_id,
            old(self)@.next_message_id <= next_message_id,
        ensures
            final(self).wf(),
            final(self)@ == (SessionView { next_run_id, next_message_id, ..old(self)@ }),
    {
        self.next_run_id = next_run_id;
        self.next_message_id = next_message_id;
        proof {
            validity::lemma_later_counters_keep_valid(old(self)@, next_run_id, next_message_id);
        }
    }
}

fn invalid_protocol(detail: String) -> (error: SessionError)
    ensures
        error@ == (SessionErrorView::InvalidProtocol { detail: detail@ }),
{
    SessionError::InvalidProtocol { detail }
}

/// The identities of a list of tool calls, in order.
fn ids_of_calls(tool_calls: &Vec<ToolCall>) -> (ids: Vec<String>)
    ensures
        texts(ids@) == tool_call_ids(tool_call_views(tool_calls@)),
{
    let mut ids: Vec<String> = Vec::new();
    let mut k: usize = 0;
    while k < tool_calls.len()
        invariant
            k <= tool_calls@.len(),
            texts(ids@) == tool_call_ids(tool_call_views(tool_calls@)).take(k as int),
        decreases tool_calls@.len() - k,
    {
        let ghost before = texts(ids@);
        ids.push(tool_calls[k].tool_call_id.clone());
        assert(texts(ids@) =~= before.push(tool_calls@[k as int]@.tool_call_id));
        k += 1;
    }
    assert(texts(ids@) =~= tool_call_ids(tool_call_views(tool_calls@)));
    ids
}

} // verus!
