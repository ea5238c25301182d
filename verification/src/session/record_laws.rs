//! What each call records, character for character, and when it is accepted.

use vstd::prelude::*;

use crate::provider::{tool_call_ids, CompletionOutcome, ModelMessageView, ToolCallView, Usage};
use crate::session::model::{
    active_run, assistant_delta_step, call_exists, calls_are_unique, calls_in, current_exchange,
    declared_calls, exchanges_name_assistants, fail_run_step, finish_run_step, history_scan,
    is_assistant_of, knows_run, resolved_calls, runs_match_exchanges, start_run_step,
    tool_call_step, tool_result_step, usage_step, valid, visibility_follows_outcome,
    visible_messages, AssistantDeltaView, ExchangeView, RecordView, RunStartView,
    RunTerminalStateView, RunView, SessionErrorView, SessionFailureView, SessionView,
};
use crate::session::validity::{
    lemma_active_with_assistant, lemma_active_without_assistant, lemma_assistant_delta_keeps_valid,
    lemma_awaited_call, lemma_start_run_keeps_valid,
};
use crate::session::FailureCategory;

verus! {

/// The run with this identity is the latest one, and it has not ended.
pub open spec fn is_open_run(v: SessionView, run_id: u64) -> bool {
    &&& v.runs.len() > 0
    &&& v.runs.last().run_id == run_id
    &&& v.runs.last().terminal_state is Running
}

/// What the end of the records says of the open run: its user text, its assistant output or a tool
/// result comes last.
proof fn lemma_last_record(v: SessionView, run_id: u64)
    requires
        valid(v),
        is_open_run(v, run_id),
    ensures
        active_run(v) == Some(run_id),
        knows_run(v, run_id),
        v.records.len() > 0,
        v.records.last().run_id == run_id,
        v.runs.last().exchanges.len() == 1,
        v.records.last().message is User <==> current_exchange(v).assistant_message_id is None,
        v.records.last().message is ToolResult <==> resolved_calls(v.records, run_id).len() > 0,
        v.records.last().message is Assistant ==> current_exchange(v).assistant_message_id == Some(
            v.records.last().message_id,
        ),
{
    let m = v.runs.len() - 1;
    assert(v.runs[m] == v.runs.last());
    assert(v.runs[m].exchanges.len() == 1) by {
        reveal(runs_match_exchanges);
    }
    let n = v.records.len() - 1;
    if current_exchange(v).assistant_message_id is None {
        lemma_active_without_assistant(v);
    } else {
        let a = lemma_active_with_assistant(v);
        assert(v.records[n] == v.records.last());
        if a < n {
            assert(v.records[n].message is ToolResult);
        }
    }
}

/// Text is accepted exactly while its run is open and has recorded no tool result; the first text of
/// a run also needs a message identity.
pub proof fn lemma_when_text_is_accepted(v: SessionView, run_id: u64, text: Seq<char>)
    requires
        valid(v),
    ensures
        assistant_delta_step(v, run_id, text) is Ok <==> {
            &&& is_open_run(v, run_id)
            &&& text.len() > 0 ==> {
                ||| v.records.last().message is Assistant
                ||| v.records.last().message is User && v.next_message_id < u64::MAX
            }
        },
{
    if is_open_run(v, run_id) {
        lemma_last_record(v, run_id);
    }
}

/// Text that is accepted is recorded verbatim: the run's assistant record holds what it held before,
/// or nothing where the record is new, followed by exactly the characters of the text. Nothing else
/// of the session changes.
pub proof fn lemma_text_is_recorded_verbatim(v: SessionView, run_id: u64, text: Seq<char>)
    requires
        valid(v),
        assistant_delta_step(v, run_id, text) is Ok,
    ensures
        ({
            let (post, delta) = assistant_delta_step(v, run_id, text)->Ok_0;
            let last = v.records.last();
            let id = if last.message is Assistant {
                last.message_id
            } else {
                v.next_message_id
            };
            if text.len() == 0 {
                &&& post == v
                &&& delta.assistant_message_id is None
                &&& !delta.assistant_message_created
            } else {
                &&& delta.assistant_message_id == Some(id)
                &&& delta.assistant_message_created == !(last.message is Assistant)
                &&& if last.message is Assistant {
                    &&& post.records.len() == v.records.len()
                    &&& post.records.drop_last() == v.records.drop_last()
                    &&& post.records.last() == RecordView {
                        message: ModelMessageView::Assistant {
                            content: last.message->Assistant_content + text,
                            tool_calls: last.message->tool_calls,
                        },
                        ..last
                    }
                    &&& post.next_message_id == v.next_message_id
                    &&& post.runs == v.runs
                } else {
                    &&& post.records == v.records.push(
                        RecordView {
                            message_id: id,
                            run_id,
                            message: ModelMessageView::Assistant {
                                content: text,
                                tool_calls: Seq::empty(),
                            },
                            model_visible: false,
                        },
                    )
                    &&& post.next_message_id == v.next_message_id + 1
                    &&& post.runs.len() == v.runs.len()
                    &&& post.runs.drop_last() == v.runs.drop_last()
                    &&& post.runs.last() == RunView {
                        exchanges: seq![
                            ExchangeView {
                                assistant_message_id: Some(id),
                                ..v.runs.last().exchanges[0]
                            },
                        ],
                        ..v.runs.last()
                    }
                }
                &&& post.current_model_id == v.current_model_id
                &&& post.next_run_id == v.next_run_id
            }
        }),
{
    assert(is_open_run(v, run_id));
    lemma_last_record(v, run_id);
    if text.len() > 0 {
        let post = (assistant_delta_step(v, run_id, text)->Ok_0).0;
        assert(post.records.drop_last() =~= if v.records.last().message is Assistant {
            v.records.drop_last()
        } else {
            v.records
        });
        if v.records.last().message is Assistant {
            let before = v.records.last().message->tool_calls;
            assert(before + Seq::<ToolCallView>::empty() =~= before);
        } else {
            assert(post.runs.drop_last() =~= v.runs.drop_last());
        }
    }
}

/// A tool call is accepted where text is, if its identity is not empty and no recorded call has it.
pub proof fn lemma_when_tool_call_is_accepted(
    v: SessionView,
    run_id: u64,
    tool_call: ToolCallView,
)
    requires
        valid(v),
    ensures
        tool_call_step(v, run_id, tool_call) is Ok <==> {
            &&& is_open_run(v, run_id)
            &&& tool_call.tool_call_id.len() > 0
            &&& forall|i: int, k: int|
                0 <= i < v.records.len() && (#[trigger] v.records[i]).message is Assistant && 0 <= k
                    < v.records[i].message->tool_calls.len() ==> (
                #[trigger] v.records[i].message->tool_calls[k]).tool_call_id
                    != tool_call.tool_call_id
            &&& {
                ||| v.records.last().message is Assistant
                ||| v.records.last().message is User && v.next_message_id < u64::MAX
            }
        },
{
    let id = tool_call.tool_call_id;
    assert(call_exists(v.records, id) <==> exists|i: int, k: int|
        0 <= i < v.records.len() && (#[trigger] v.records[i]).message is Assistant && 0 <= k
            < v.records[i].message->tool_calls.len() && (
        #[trigger] v.records[i].message->tool_calls[k]).tool_call_id == id) by {
        if call_exists(v.records, id) {
            let (i, k) = choose|i: int, k: int|
                0 <= i < v.records.len() && 0 <= k < calls_in(v.records[i]).len() && (
                #[trigger] calls_in(v.records[i])[k]).tool_call_id == id;
            assert(v.records[i].message->tool_calls[k].tool_call_id == id);
        }
        if exists|i: int, k: int|
            0 <= i < v.records.len() && (#[trigger] v.records[i]).message is Assistant && 0 <= k
                < v.records[i].message->tool_calls.len() && (
            #[trigger] v.records[i].message->tool_calls[k]).tool_call_id == id {
            let (i, k) = choose|i: int, k: int|
                0 <= i < v.records.len() && (#[trigger] v.records[i]).message is Assistant && 0
                    <= k < v.records[i].message->tool_calls.len() && (
                #[trigger] v.records[i].message->tool_calls[k]).tool_call_id == id;
            assert(calls_in(v.records[i])[k].tool_call_id == id);
        }
    }
    if is_open_run(v, run_id) {
        lemma_last_record(v, run_id);
    }
}

/// A tool call that is accepted stands behind the calls that its run has declared before, with its
/// identity, name and arguments; the text stays as it is.
pub proof fn lemma_tool_call_is_recorded(v: SessionView, run_id: u64, tool_call: ToolCallView)
    requires
        valid(v),
        tool_call_step(v, run_id, tool_call) is Ok,
    ensures
        ({
            let post = tool_call_step(v, run_id, tool_call)->Ok_0;
            let last = v.records.last();
            if last.message is Assistant {
                &&& post.records.drop_last() == v.records.drop_last()
                &&& post.records.last() == RecordView {
                    message: ModelMessageView::Assistant {
                        content: last.message->Assistant_content,
                        tool_calls: last.message->tool_calls.push(tool_call),
                    },
                    ..last
                }
                &&& post.next_message_id == v.next_message_id
                &&& post.runs == v.runs
            } else {
                &&& post.records == v.records.push(
                    RecordView {
                        message_id: v.next_message_id,
                        run_id,
                        message: ModelMessageView::Assistant {
                            content: Seq::empty(),
                            tool_calls: seq![tool_call],
                        },
                        model_visible: false,
                    },
                )
                &&& post.next_message_id == v.next_message_id + 1
                &&& post.runs.drop_last() == v.runs.drop_last()
                &&& post.runs.last() == RunView {
                    exchanges: seq![
                        ExchangeView {
                            assistant_message_id: Some(v.next_message_id),
                            ..v.runs.last().exchanges[0]
                        },
                    ],
                    ..v.runs.last()
                }
            }
        }),
{
    assert(is_open_run(v, run_id));
    lemma_last_record(v, run_id);
    let post = tool_call_step(v, run_id, tool_call)->Ok_0;
    if v.records.last().message is Assistant {
        let content = v.records.last().message->Assistant_content;
        let before = v.records.last().message->tool_calls;
        assert(post.records.drop_last() =~= v.records.drop_last());
        assert(content + Seq::<char>::empty() =~= content);
        assert(before + seq![tool_call] =~= before.push(tool_call));
    } else {
        assert(post.runs.drop_last() =~= v.runs.drop_last());
    }
}

/// A tool result is accepted exactly when it answers the first call of the open run that has no
/// result yet: as many calls are answered as records follow the run's assistant record.
pub proof fn lemma_when_tool_result_is_accepted(
    v: SessionView,
    run_id: u64,
    tool_call_id: Seq<char>,
    content: Seq<char>,
)
    requires
        valid(v),
    ensures
        tool_result_step(v, run_id, tool_call_id, content) is Ok <==> {
            &&& is_open_run(v, run_id)
            &&& tool_call_id.len() > 0
            &&& v.next_message_id < u64::MAX
            &&& exists|a: int|
                {
                    &&& 0 <= a < v.records.len()
                    &&& (#[trigger] v.records[a]).run_id == run_id
                    &&& v.records[a].message is Assistant
                    &&& v.records.len() - a - 1 < v.records[a].message->tool_calls.len()
                    &&& v.records[a].message->tool_calls[v.records.len() - a - 1].tool_call_id
                        == tool_call_id
                }
        },
{
    if is_open_run(v, run_id) {
        lemma_last_record(v, run_id);
        let declared = declared_calls(v.records, run_id);
        let resolved = resolved_calls(v.records, run_id);
        if current_exchange(v).assistant_message_id is None {
            lemma_active_without_assistant(v);
            assert forall|a: int|
                0 <= a < v.records.len() && (#[trigger] v.records[a]).run_id == run_id implies !(
            v.records[a].message is Assistant) by {
                if v.records[a].message is Assistant {
                    lemma_assistant_is_named(v, run_id, a);
                }
            }
        } else {
            let a = lemma_active_with_assistant(v);
            let calls = calls_in(v.records[a]);
            let n = v.records.len() - a - 1;
            assert(declared == tool_call_ids(calls));
            assert forall|b: int|
                0 <= b < v.records.len() && (#[trigger] v.records[b]).run_id == run_id
                    && v.records[b].message is Assistant implies a == b by {}
            if declared.contains(tool_call_id) && !resolved.contains(tool_call_id) {
                lemma_awaited_call(v, tool_call_id);
            }
            if n < calls.len() && calls[n].tool_call_id == tool_call_id {
                assert(declared[n] == tool_call_id);
                if resolved.contains(tool_call_id) {
                    let k = choose|k: int| 0 <= k < resolved.len() && resolved[k] == tool_call_id;
                    assert(declared[k] == resolved[k]);
                    assert(calls[k].tool_call_id == tool_call_id);
                    lemma_calls_differ(v, a, k, n);
                }
            }
        }
    }
}

/// An assistant record of the open run is the one that its exchange names.
proof fn lemma_assistant_is_named(v: SessionView, run_id: u64, a: int)
    requires
        valid(v),
        is_open_run(v, run_id),
        0 <= a < v.records.len(),
        v.records[a].run_id == run_id,
        v.records[a].message is Assistant,
    ensures
        current_exchange(v).assistant_message_id is Some,
{
    reveal(exchanges_name_assistants);
    let m = v.runs.len() - 1;
    assert(v.runs[m] == v.runs.last());
    assert(is_assistant_of(v.records, a, v.runs[m].run_id));
}

proof fn lemma_calls_differ(v: SessionView, a: int, k: int, n: int)
    requires
        valid(v),
        0 <= a < v.records.len(),
        0 <= k < calls_in(v.records[a]).len(),
        0 <= n < calls_in(v.records[a]).len(),
        k != n,
    ensures
        calls_in(v.records[a])[k].tool_call_id != calls_in(v.records[a])[n].tool_call_id,
{
    reveal(calls_are_unique);
}

/// A tool result that is accepted is recorded verbatim, at the end, and later requests carry it.
pub proof fn lemma_tool_result_is_recorded_verbatim(
    v: SessionView,
    run_id: u64,
    tool_call_id: Seq<char>,
    content: Seq<char>,
)
    requires
        tool_result_step(v, run_id, tool_call_id, content) is Ok,
    ensures
        ({
            let post = tool_result_step(v, run_id, tool_call_id, content)->Ok_0;
            &&& post.records == v.records.push(
                RecordView {
                    message_id: v.next_message_id,
                    run_id,
                    message: ModelMessageView::ToolResult { tool_call_id, content },
                    model_visible: true,
                },
            )
            &&& post.next_message_id == v.next_message_id + 1
            &&& post.runs == v.runs
            &&& post.current_model_id == v.current_model_id
            &&& post.next_run_id == v.next_run_id
        }),
{
}

/// A run that starts records the user text verbatim and asks the chosen model, with everything that
/// the records show and that text behind it.
pub proof fn lemma_started_run_is_recorded(v: SessionView, user_content: Seq<char>)
    requires
        start_run_step(v, user_content) is Ok,
    ensures
        ({
            let (post, start) = start_run_step(v, user_content)->Ok_0;
            &&& post.records == v.records.push(
                RecordView {
                    message_id: v.next_message_id,
                    run_id: v.next_run_id,
                    message: ModelMessageView::User { content: user_content },
                    model_visible: true,
                },
            )
            &&& start.run_id == v.next_run_id
            &&& start.user_message_id == v.next_message_id
            &&& start.request.model_id == v.current_model_id
            &&& start.request.messages == v.records.filter(
                |record: RecordView| record.model_visible,
            ).map_values(|record: RecordView| record.message).push(
                ModelMessageView::User { content: user_content },
            )
            &&& post.runs == v.runs.push(
                RunView {
                    run_id: v.next_run_id,
                    model_id: v.current_model_id,
                    exchanges: seq![
                        ExchangeView {
                            request: start.request,
                            assistant_message_id: None,
                            usage: None,
                            terminal_state: RunTerminalStateView::Running,
                        },
                    ],
                    terminal_state: RunTerminalStateView::Running,
                },
            )
            &&& post.next_run_id == v.next_run_id + 1
            &&& post.next_message_id == v.next_message_id + 1
            &&& post.current_model_id == v.current_model_id
        }),
{
    lemma_shown_records(v.records);
}

/// The messages of the records that are shown, in order.
proof fn lemma_shown_records(records: Seq<RecordView>)
    ensures
        visible_messages(records) == records.filter(
            |record: RecordView| record.model_visible,
        ).map_values(|record: RecordView| record.message),
    decreases records.len(),
{
    reveal(Seq::filter);
    let shown = |record: RecordView| record.model_visible;
    let message = |record: RecordView| record.message;
    if records.len() > 0 {
        let before = records.drop_last();
        lemma_shown_records(before);
        assert(visible_messages(records) =~= records.filter(shown).map_values(message));
    } else {
        assert(visible_messages(records) =~= records.filter(shown).map_values(message));
    }
}

/// A run finishes exactly when it is open and every call that it declared has its result.
pub proof fn lemma_when_run_finishes(v: SessionView, run_id: u64, outcome: CompletionOutcome)
    requires
        valid(v),
    ensures
        finish_run_step(v, run_id, outcome) is Ok <==> {
            &&& is_open_run(v, run_id)
            &&& forall|a: int|
                0 <= a < v.records.len() && (#[trigger] v.records[a]).run_id == run_id
                    && v.records[a].message is Assistant ==> v.records.len() - a - 1
                    == v.records[a].message->tool_calls.len()
        },
{
    if is_open_run(v, run_id) {
        lemma_last_record(v, run_id);
        if current_exchange(v).assistant_message_id is None {
            lemma_active_without_assistant(v);
            assert forall|a: int|
                0 <= a < v.records.len() && (#[trigger] v.records[a]).run_id == run_id implies !(
            v.records[a].message is Assistant) by {
                if v.records[a].message is Assistant {
                    lemma_assistant_is_named(v, run_id, a);
                }
            }
        } else {
            let a = lemma_active_with_assistant(v);
            assert(v.records[a].message->tool_calls == calls_in(v.records[a]));
        }
    }
}

/// A run that finishes has its outcome, and its assistant output is shown to later requests; no
/// record changes otherwise.
pub proof fn lemma_finished_run_is_shown(v: SessionView, run_id: u64, outcome: CompletionOutcome)
    requires
        valid(v),
        finish_run_step(v, run_id, outcome) is Ok,
    ensures
        ({
            let post = finish_run_step(v, run_id, outcome)->Ok_0;
            let state = RunTerminalStateView::Completed(outcome);
            &&& post.records.len() == v.records.len()
            &&& forall|i: int|
                0 <= i < v.records.len() ==> #[trigger] post.records[i] == RecordView {
                    model_visible: v.records[i].model_visible || v.records[i].run_id == run_id,
                    ..v.records[i]
                }
            &&& post.runs.len() == v.runs.len()
            &&& post.runs.drop_last() == v.runs.drop_last()
            &&& post.runs.last() == RunView {
                exchanges: seq![
                    ExchangeView { terminal_state: state, ..v.runs.last().exchanges[0] },
                ],
                terminal_state: state,
                ..v.runs.last()
            }
            &&& post.next_message_id == v.next_message_id
            &&& post.next_run_id == v.next_run_id
            &&& post.current_model_id == v.current_model_id
        }),
{
    assert(is_open_run(v, run_id));
    let post = finish_run_step(v, run_id, outcome)->Ok_0;
    assert(post.runs.drop_last() =~= v.runs.drop_last());
    assert forall|i: int| 0 <= i < v.records.len() implies #[trigger] post.records[i] == (
    RecordView {
        model_visible: v.records[i].model_visible || v.records[i].run_id == run_id,
        ..v.records[i]
    }) by {
        reveal(visibility_follows_outcome);
    }
}

/// A run that fails keeps the category and the words of its failure, verbatim; records stay.
pub proof fn lemma_failure_is_recorded_verbatim(
    v: SessionView,
    run_id: u64,
    category: FailureCategory,
    display_detail: Seq<char>,
)
    requires
        valid(v),
    ensures
        fail_run_step(v, run_id, category, display_detail) is Ok <==> is_open_run(v, run_id),
        is_open_run(v, run_id) ==> {
            let post = fail_run_step(v, run_id, category, display_detail)->Ok_0;
            let state = RunTerminalStateView::Failed(
                SessionFailureView { category, display_detail },
            );
            &&& post.records == v.records
            &&& post.runs.len() == v.runs.len()
            &&& post.runs.drop_last() == v.runs.drop_last()
            &&& post.runs.last() == RunView {
                exchanges: seq![
                    ExchangeView { terminal_state: state, ..v.runs.last().exchanges[0] },
                ],
                terminal_state: state,
                ..v.runs.last()
            }
            &&& post.next_message_id == v.next_message_id
            &&& post.next_run_id == v.next_run_id
            &&& post.current_model_id == v.current_model_id
        },
{
    if is_open_run(v, run_id) {
        lemma_last_record(v, run_id);
        let post = fail_run_step(v, run_id, category, display_detail)->Ok_0;
        assert(post.runs.drop_last() =~= v.runs.drop_last());
    }
}

/// The usage that is reported for an open run is what its exchange holds; nothing else changes.
pub proof fn lemma_usage_is_recorded(v: SessionView, run_id: u64, usage: Usage)
    requires
        valid(v),
    ensures
        usage_step(v, run_id, usage) is Ok <==> is_open_run(v, run_id),
        is_open_run(v, run_id) ==> {
            let post = usage_step(v, run_id, usage)->Ok_0;
            &&& post.records == v.records
            &&& post.runs.len() == v.runs.len()
            &&& post.runs.drop_last() == v.runs.drop_last()
            &&& post.runs.last() == RunView {
                exchanges: seq![
                    ExchangeView { usage: Some(usage), ..v.runs.last().exchanges[0] },
                ],
                ..v.runs.last()
            }
            &&& post.next_message_id == v.next_message_id
            &&& post.next_run_id == v.next_run_id
            &&& post.current_model_id == v.current_model_id
        },
{
    if is_open_run(v, run_id) {
        lemma_last_record(v, run_id);
        let post = usage_step(v, run_id, usage)->Ok_0;
        assert(post.runs.drop_last() =~= v.runs.drop_last());
    }
}

/// A call for a run that is not open is refused with the reason: a run that never started is not
/// known, any other has ended.
pub proof fn lemma_closed_runs_are_refused(
    v: SessionView,
    run_id: u64,
    text: Seq<char>,
    tool_call: ToolCallView,
    usage: Usage,
    outcome: CompletionOutcome,
    category: FailureCategory,
)
    requires
        !is_open_run(v, run_id),
    ensures
        ({
            let reason = if exists|r: int|
                0 <= r < v.runs.len() && (#[trigger] v.runs[r]).run_id == run_id {
                SessionErrorView::RunAlreadyTerminal { run_id }
            } else {
                SessionErrorView::UnknownRun { run_id }
            };
            &&& assistant_delta_step(v, run_id, text) == Err::<
                (SessionView, AssistantDeltaView),
                SessionErrorView,
            >(reason)
            &&& tool_call_step(v, run_id, tool_call) == Err::<SessionView, SessionErrorView>(reason)
            &&& tool_result_step(v, run_id, text, text) == Err::<SessionView, SessionErrorView>(
                reason,
            )
            &&& usage_step(v, run_id, usage) == Err::<SessionView, SessionErrorView>(reason)
            &&& finish_run_step(v, run_id, outcome) == Err::<SessionView, SessionErrorView>(reason)
            &&& fail_run_step(v, run_id, category, text) == Err::<SessionView, SessionErrorView>(
                reason,
            )
        }),
{
}

/// A tool result that is refused is refused for what is wrong with it: it names no call, a call that
/// has its result, a call that its run has not declared, or a call that is not the next one.
pub proof fn lemma_refused_tool_result_is_explained(
    v: SessionView,
    run_id: u64,
    a: int,
    tool_call_id: Seq<char>,
    content: Seq<char>,
)
    requires
        valid(v),
        is_open_run(v, run_id),
        0 <= a < v.records.len(),
        v.records[a].run_id == run_id,
        v.records[a].message is Assistant,
    ensures
        ({
            let calls = v.records[a].message->tool_calls;
            let answered = v.records.len() - a - 1;
            let refusal = tool_result_step(v, run_id, tool_call_id, content)->Err_0;
            let is_answered = exists|k: int|
                0 <= k < answered && (#[trigger] calls[k]).tool_call_id == tool_call_id;
            let is_awaited = exists|k: int|
                answered <= k < calls.len() && (#[trigger] calls[k]).tool_call_id == tool_call_id;
            &&& answered <= calls.len()
            &&& tool_call_id.len() == 0 ==> refusal is EmptyToolCallId
            &&& tool_call_id.len() > 0 && is_answered ==> refusal == (
            SessionErrorView::ToolCallAlreadyResolved { run_id, tool_call_id })
            &&& tool_call_id.len() > 0 && !is_answered && !is_awaited ==> refusal == (
            SessionErrorView::MissingToolCall { run_id, tool_call_id })
            &&& tool_call_id.len() > 0 && !is_answered && is_awaited
                && calls[answered].tool_call_id != tool_call_id ==> refusal == (
            SessionErrorView::ToolResultOutOfOrder {
                run_id,
                expected_tool_call_id: calls[answered].tool_call_id,
                actual_tool_call_id: tool_call_id,
            })
        }),
{
    lemma_last_record(v, run_id);
    lemma_assistant_is_named(v, run_id, a);
    let b = lemma_active_with_assistant(v);
    assert(a == b) by {
        if a > b {
            assert(v.records[a].message is ToolResult);
        }
    }
    let calls = calls_in(v.records[a]);
    let answered = v.records.len() - a - 1;
    let declared = declared_calls(v.records, run_id);
    let resolved = resolved_calls(v.records, run_id);
    assert(declared == tool_call_ids(calls));
    assert(resolved.contains(tool_call_id) <==> exists|k: int|
        0 <= k < answered && (#[trigger] calls[k]).tool_call_id == tool_call_id) by {
        if resolved.contains(tool_call_id) {
            let k = choose|k: int| 0 <= k < resolved.len() && resolved[k] == tool_call_id;
            assert(declared[k] == resolved[k]);
            assert(calls[k].tool_call_id == tool_call_id);
        }
        if exists|k: int| 0 <= k < answered && (#[trigger] calls[k]).tool_call_id == tool_call_id {
            let k = choose|k: int|
                0 <= k < answered && (#[trigger] calls[k]).tool_call_id == tool_call_id;
            assert(declared[k] == tool_call_id);
            assert(resolved[k] == declared[k]);
        }
    }
    assert(declared.contains(tool_call_id) <==> exists|k: int|
        0 <= k < calls.len() && (#[trigger] calls[k]).tool_call_id == tool_call_id) by {
        if declared.contains(tool_call_id) {
            let k = choose|k: int| 0 <= k < declared.len() && declared[k] == tool_call_id;
            assert(calls[k].tool_call_id == tool_call_id);
        }
        if exists|k: int| 0 <= k < calls.len() && (#[trigger] calls[k]).tool_call_id == tool_call_id {
            let k = choose|k: int|
                0 <= k < calls.len() && (#[trigger] calls[k]).tool_call_id == tool_call_id;
            assert(declared[k] == tool_call_id);
        }
    }
    if answered < calls.len() {
        assert(declared[answered] == calls[answered].tool_call_id);
    }
}

/// A run cannot finish before its calls are answered, and the refusal names the first that is not; its
/// text cannot go on once one is.
pub proof fn lemma_unanswered_call_is_named(
    v: SessionView,
    run_id: u64,
    a: int,
    outcome: CompletionOutcome,
    text: Seq<char>,
)
    requires
        valid(v),
        is_open_run(v, run_id),
        0 <= a < v.records.len(),
        v.records[a].run_id == run_id,
        v.records[a].message is Assistant,
    ensures
        ({
            let calls = v.records[a].message->tool_calls;
            let answered = v.records.len() - a - 1;
            &&& answered < calls.len() ==> finish_run_step(v, run_id, outcome) == Err::<
                SessionView,
                SessionErrorView,
            >(
                SessionErrorView::UnresolvedToolCall {
                    run_id,
                    tool_call_id: calls[answered].tool_call_id,
                },
            )
            &&& answered > 0 && text.len() > 0 ==> assistant_delta_step(v, run_id, text) == Err::<
                (SessionView, AssistantDeltaView),
                SessionErrorView,
            >(
                SessionErrorView::InvalidProtocol {
                    detail: "assistant output cannot continue after a tool result"@,
                },
            )
        }),
{
    lemma_last_record(v, run_id);
    lemma_assistant_is_named(v, run_id, a);
    let b = lemma_active_with_assistant(v);
    assert(a == b) by {
        if a > b {
            assert(v.records[a].message is ToolResult);
        }
    }
    assert(declared_calls(v.records, run_id) == tool_call_ids(calls_in(v.records[a])));
}

/// A tool call that names nothing, or a call that any record declares, is refused for that.
pub proof fn lemma_refused_tool_call_is_explained(
    v: SessionView,
    run_id: u64,
    tool_call: ToolCallView,
)
    requires
        valid(v),
        is_open_run(v, run_id),
    ensures
        tool_call.tool_call_id.len() == 0 ==> tool_call_step(v, run_id, tool_call) == Err::<
            SessionView,
            SessionErrorView,
        >(SessionErrorView::EmptyToolCallId),
        tool_call.tool_call_id.len() > 0 && (exists|i: int, k: int|
            0 <= i < v.records.len() && (#[trigger] v.records[i]).message is Assistant && 0 <= k
                < v.records[i].message->tool_calls.len() && (
            #[trigger] v.records[i].message->tool_calls[k]).tool_call_id == tool_call.tool_call_id)
            ==> tool_call_step(v, run_id, tool_call) == Err::<SessionView, SessionErrorView>(
            SessionErrorView::DuplicateToolCallId { tool_call_id: tool_call.tool_call_id },
        ),
{
    let id = tool_call.tool_call_id;
    lemma_last_record(v, run_id);
    if exists|i: int, k: int|
        0 <= i < v.records.len() && (#[trigger] v.records[i]).message is Assistant && 0 <= k
            < v.records[i].message->tool_calls.len() && (
        #[trigger] v.records[i].message->tool_calls[k]).tool_call_id == id {
        let (i, k) = choose|i: int, k: int|
            0 <= i < v.records.len() && (#[trigger] v.records[i]).message is Assistant && 0 <= k
                < v.records[i].message->tool_calls.len() && (
            #[trigger] v.records[i].message->tool_calls[k]).tool_call_id == id;
        assert(calls_in(v.records[i])[k].tool_call_id == id);
    }
}

/// No run starts while one is open, and the refusal names it.
pub proof fn lemma_open_run_blocks_the_next(v: SessionView, run_id: u64, user_content: Seq<char>)
    requires
        is_open_run(v, run_id),
    ensures
        start_run_step(v, user_content) == Err::<(SessionView, RunStartView), SessionErrorView>(
            SessionErrorView::RunInProgress { run_id },
        ),
{
}

/// The session after a series of text deltas for a run; a delta that is refused changes nothing.
pub open spec fn after_texts(v: SessionView, run_id: u64, texts: Seq<Seq<char>>) -> SessionView
    decreases texts.len(),
{
    if texts.len() == 0 {
        v
    } else {
        let before = after_texts(v, run_id, texts.drop_last());
        match assistant_delta_step(before, run_id, texts.last()) {
            Ok((post, _)) => post,
            Err(_) => before,
        }
    }
}

/// What a run that has just started holds after text has come in: its user text is followed by one
/// assistant record with all the text, as soon as there is any.
proof fn lemma_texts_of_new_run(v: SessionView, run_id: u64, texts: Seq<Seq<char>>)
    requires
        valid(v),
        is_open_run(v, run_id),
        v.records.last().message is User,
        v.next_message_id < u64::MAX,
    ensures
        ({
            let post = after_texts(v, run_id, texts);
            let text = texts.flatten();
            &&& valid(post)
            &&& is_open_run(post, run_id)
            &&& if text.len() == 0 {
                post == v
            } else {
                &&& post.records.len() == v.records.len() + 1
                &&& post.records.drop_last() == v.records
                &&& post.records.last().run_id == run_id
                &&& post.records.last().message == ModelMessageView::Assistant {
                    content: text,
                    tool_calls: Seq::empty(),
                }
                &&& !post.records.last().model_visible
            }
            &&& post.current_model_id == v.current_model_id
            &&& post.next_run_id == v.next_run_id
            &&& post.next_message_id == v.next_message_id + (post.records.len() - v.records.len())
        }),
    decreases texts.len(),
{
    if texts.len() == 0 {
        assert(texts.flatten() =~= Seq::<char>::empty());
    } else {
        let before = after_texts(v, run_id, texts.drop_last());
        let earlier = texts.drop_last();
        let text = texts.last();
        lemma_texts_of_new_run(v, run_id, earlier);
        assert(earlier.push(text) =~= texts);
        earlier.lemma_flatten_push(text);
        lemma_when_text_is_accepted(before, run_id, text);
        assert(assistant_delta_step(before, run_id, text) is Ok);
        lemma_text_is_recorded_verbatim(before, run_id, text);
        lemma_assistant_delta_keeps_valid(before, run_id, text);
        let post = (assistant_delta_step(before, run_id, text)->Ok_0).0;
        assert(before.runs.last().run_id == run_id);
        assert(post.runs.last().run_id == run_id && post.runs.last().terminal_state is Running);
        if text.len() == 0 {
            assert(earlier.flatten() + text =~= earlier.flatten());
        } else if earlier.flatten().len() == 0 {
            assert(earlier.flatten() + text =~= text);
            assert(post.records.drop_last() =~= v.records);
        } else {
            assert(post.records.drop_last() =~= v.records);
        }
    }
}

/// What a finished answer is for: after a question, an answer in any number of pieces and its
/// completion, the next request holds the earlier request, the whole answer character for character,
/// and the next text.
pub proof fn lemma_next_request_holds_the_answer(
    v: SessionView,
    question: Seq<char>,
    answer: Seq<Seq<char>>,
    outcome: CompletionOutcome,
    next: Seq<char>,
)
    requires
        valid(v),
        v.next_message_id < u64::MAX - 2,
        v.next_run_id < u64::MAX - 1,
        start_run_step(v, question) is Ok,
        answer.flatten().len() > 0,
    ensures
        ({
            let (started, start) = start_run_step(v, question)->Ok_0;
            let answered = after_texts(started, start.run_id, answer);
            let finished = finish_run_step(answered, start.run_id, outcome);
            &&& finished is Ok
            &&& start_run_step(finished->Ok_0, next) is Ok
            &&& {
                let second = (start_run_step(finished->Ok_0, next)->Ok_0).1;
                &&& second.request.messages == start.request.messages.push(
                    ModelMessageView::Assistant {
                        content: answer.flatten(),
                        tool_calls: Seq::empty(),
                    },
                ).push(ModelMessageView::User { content: next })
                &&& second.request.model_id == v.current_model_id
            }
        }),
{
    let (started, start) = start_run_step(v, question)->Ok_0;
    let run_id = start.run_id;
    lemma_start_run_keeps_valid(v, question);
    lemma_started_run_is_recorded(v, question);
    lemma_texts_of_new_run(started, run_id, answer);
    let answered = after_texts(started, run_id, answer);
    lemma_when_run_finishes(answered, run_id, outcome);
    assert forall|a: int|
        0 <= a < answered.records.len() && (#[trigger] answered.records[a]).run_id == run_id
            && answered.records[a].message is Assistant implies answered.records.len() - a - 1
        == answered.records[a].message->tool_calls.len() by {
        if a < answered.records.len() - 1 {
            assert(answered.records[a] == started.records[a]);
            assert(answered.records.drop_last()[a] == started.records[a]);
            reveal(exchanges_name_assistants);
            let m = started.runs.len() - 1;
            assert(is_assistant_of(started.records, a, started.runs[m].run_id));
        }
    }
    assert(finish_run_step(answered, run_id, outcome) is Ok);
    let post = finish_run_step(answered, run_id, outcome)->Ok_0;
    lemma_finished_run_is_shown(answered, run_id, outcome);
    let n = post.records.len() - 1;
    assert(post.records.drop_last() =~= started.records) by {
        assert forall|i: int| 0 <= i < n implies post.records[i] == started.records[i] by {
            assert(answered.records[i] == answered.records.drop_last()[i]);
            reveal(visibility_follows_outcome);
            let m = started.runs.len() - 1;
            if started.records[i].run_id == run_id && started.records[i].message is Assistant {
                reveal(exchanges_name_assistants);
                assert(is_assistant_of(started.records, i, started.runs[m].run_id));
            }
        }
    }
    assert(post.records.last() == post.records[n]);
    assert(answered.records.last() == answered.records[n]);
    lemma_shown_records(v.records);
    assert(started.records.drop_last() =~= v.records);
    let quiet = history_scan(visible_messages(v.records))->Ok_0;
    assert(quiet =~= Seq::empty());
    let asked = visible_messages(started.records);
    assert(asked == start.request.messages);
    assert(asked.drop_last() =~= visible_messages(v.records));
    let told = visible_messages(post.records);
    assert(told.drop_last() =~= asked);
    let calls = told.last()->tool_calls;
    assert(tool_call_ids(calls) =~= Seq::empty());
    assert(history_scan(asked) == Ok::<Seq<Seq<char>>, Seq<char>>(Seq::empty()));
    assert(history_scan(told) == Ok::<Seq<Seq<char>>, Seq<char>>(Seq::empty()));
}

/// A failed answer is told to nobody: the next request holds the earlier request and the next text.
pub proof fn lemma_next_request_omits_failed_answer(
    v: SessionView,
    question: Seq<char>,
    answer: Seq<Seq<char>>,
    category: FailureCategory,
    detail: Seq<char>,
    next: Seq<char>,
)
    requires
        valid(v),
        v.next_message_id < u64::MAX - 2,
        v.next_run_id < u64::MAX - 1,
        start_run_step(v, question) is Ok,
    ensures
        ({
            let (started, start) = start_run_step(v, question)->Ok_0;
            let answered = after_texts(started, start.run_id, answer);
            let failed = fail_run_step(answered, start.run_id, category, detail);
            &&& failed is Ok
            &&& start_run_step(failed->Ok_0, next) is Ok
            &&& {
                let second = (start_run_step(failed->Ok_0, next)->Ok_0).1;
                second.request.messages == start.request.messages.push(
                    ModelMessageView::User { content: next },
                )
            }
        }),
{
    let (started, start) = start_run_step(v, question)->Ok_0;
    let run_id = start.run_id;
    lemma_start_run_keeps_valid(v, question);
    lemma_started_run_is_recorded(v, question);
    lemma_texts_of_new_run(started, run_id, answer);
    let answered = after_texts(started, run_id, answer);
    lemma_failure_is_recorded_verbatim(answered, run_id, category, detail);
    assert(started.records.drop_last() =~= v.records);
    assert(visible_messages(started.records) == visible_messages(v.records).push(
        ModelMessageView::User { content: question },
    ));
    let quiet = history_scan(visible_messages(v.records))->Ok_0;
    assert(quiet =~= Seq::empty());
    let asked = visible_messages(started.records);
    assert(asked.drop_last() =~= visible_messages(v.records));
    assert(history_scan(asked) == Ok::<Seq<Seq<char>>, Seq<char>>(Seq::empty()));
    if answer.flatten().len() > 0 {
        assert(visible_messages(answered.records) == visible_messages(
            answered.records.drop_last(),
        ));
    }
}

} // verus!
