//! What holds of every session, and across its transitions.

use vstd::prelude::*;

use crate::provider::{tool_call_ids, CompletionOutcome, ModelMessageView, ToolCallView, Usage};
use crate::session::validity::{
    lemma_active_with_assistant, lemma_active_without_assistant, lemma_assistant_delta_keeps_valid,
    lemma_declared_by_assistant, lemma_empty_session_is_valid, lemma_fail_run_keeps_valid,
    lemma_finish_run_keeps_valid, lemma_history_fault_stays, lemma_model_choice_keeps_valid,
    lemma_nothing_declared, lemma_start_run_keeps_valid, lemma_tool_call_keeps_valid,
    lemma_tool_result_keeps_valid, lemma_usage_keeps_valid,
};
use crate::session::FailureCategory;
use crate::session::model::{
    RecordView, SessionView, active_run, assistant_delta_step, assistant_output_step,
    calls_are_unique, calls_in, completed_runs_are_resolved, current_exchange, declared_calls,
    fail_run_step, finish_run_step, history_fault, history_scan, identities_grow, is_assistant_of,
    knows_run, records_belong_to_runs, resolved_calls, result_id, results_answer_calls,
    roles_in_order, runs_match_exchanges, start_run_step, tool_call_step, tool_result_step,
    usage_step, valid, visibility_follows_outcome, visible_messages,
};

verus! {

/// No run that failed has recorded a tool result.
pub open spec fn failed_runs_have_no_results(v: SessionView) -> bool {
    forall|r: int, i: int|
        0 <= r < v.runs.len() && 0 <= i < v.records.len() && (#[trigger] v.records[i]).run_id == (
        #[trigger] v.runs[r]).run_id && v.records[i].message is ToolResult
            ==> v.runs[r].terminal_state is Completed
}

/// The tool calls that await a result after the first `k` records, as the visible history shows
/// them.
spec fn awaiting(records: Seq<RecordView>, k: int) -> Seq<Seq<char>> {
    if exists|a: int|
        a < k && #[trigger] is_assistant_of(records, a, records[k - 1].run_id)
            && records[a].model_visible {
        let a = choose|a: int|
            a < k && #[trigger] is_assistant_of(records, a, records[k - 1].run_id)
                && records[a].model_visible;
        tool_call_ids(calls_in(records[a])).skip(k - 1 - a)
    } else {
        Seq::empty()
    }
}

proof fn lemma_awaiting(records: Seq<RecordView>, k: int, a: int)
    requires
        results_answer_calls(records),
        a < k <= records.len(),
        is_assistant_of(records, a, records[k - 1].run_id),
    ensures
        awaiting(records, k) == if records[a].model_visible {
            tool_call_ids(calls_in(records[a])).skip(k - 1 - a)
        } else {
            Seq::empty()
        },
{
    reveal(results_answer_calls);
    assert forall|b: int|
        b < k && #[trigger] is_assistant_of(records, b, records[k - 1].run_id) implies a == b by {
        if a < b {
            assert(records[b].run_id == records[a].run_id);
        }
        if b < a {
            assert(records[a].run_id == records[b].run_id);
        }
    }
}

/// Up to the first tool result of a failed run, the visible history has no fault.
proof fn lemma_history_prefix(v: SessionView, k: int)
    requires
        valid(v),
        0 <= k <= v.records.len(),
        forall|r: int, i: int|
            0 <= r < v.runs.len() && 0 <= i < k && (#[trigger] v.records[i]).run_id == (
            #[trigger] v.runs[r]).run_id && v.records[i].message is ToolResult
                ==> v.runs[r].terminal_state is Completed,
    ensures
        history_scan(visible_messages(v.records.take(k))) == Ok::<Seq<Seq<char>>, Seq<char>>(
            if k == 0 {
                Seq::empty()
            } else {
                awaiting(v.records, k)
            },
        ),
    decreases k,
{
    let records = v.records;
    if k > 0 {
        let x = records[k - 1];
        lemma_history_prefix(v, k - 1);
        let before = visible_messages(records.take(k - 1));
        assert(records.take(k).drop_last() =~= records.take(k - 1));
        assert(records.take(k).last() == x);
        assert(before.push(x.message).drop_last() =~= before);
        match x.message {
            ModelMessageView::User { content } => {
                assert(x.model_visible) by {
                    reveal(visibility_follows_outcome);
                }
                assert forall|a: int|
                    a < k implies !(#[trigger] is_assistant_of(records, a, x.run_id)) by {
                    reveal(roles_in_order);
                }
                if k > 1 {
                    lemma_nothing_awaited_before_user(v, k - 1);
                    assert(awaiting(records, k - 1) =~= Seq::empty());
                }
            },
            ModelMessageView::Assistant { content, tool_calls } => {
                assert(k > 1 && records[k - 2].message is User && records[k - 2].run_id == x.run_id)
                    by {
                    reveal(roles_in_order);
                }
                assert forall|a: int|
                    a < k - 1 implies !(#[trigger] is_assistant_of(records, a, x.run_id)) by {
                    reveal(results_answer_calls);
                    if is_assistant_of(records, a, x.run_id) {
                        assert(records[k - 1].run_id == records[a].run_id);
                    }
                }
                assert(is_assistant_of(records, k - 1, x.run_id));
                lemma_awaiting(records, k, k - 1);
                assert(tool_call_ids(tool_calls).skip(0) =~= tool_call_ids(tool_calls));
            },
            ModelMessageView::ToolResult { tool_call_id, content } => {
                let a = lemma_result_follows_assistant(v, k - 1);
                assert(x.model_visible) by {
                    reveal(visibility_follows_outcome);
                }
                assert(records[a].model_visible) by {
                    reveal(records_belong_to_runs);
                    reveal(visibility_follows_outcome);
                    assert(knows_run(v, x.run_id));
                    let r = choose|r: int|
                        0 <= r < v.runs.len() && (#[trigger] v.runs[r]).run_id == x.run_id;
                    assert(is_assistant_of(records, a, v.runs[r].run_id));
                }
                lemma_awaiting(records, k - 1, a);
                lemma_awaiting(records, k, a);
                let ids = tool_call_ids(calls_in(records[a]));
                assert(ids.skip(k - 2 - a)[0] == tool_call_id);
                assert(ids.skip(k - 2 - a).drop_first() =~= ids.skip(k - 1 - a));
            },
        }
    }
}

/// A tool result comes after its run's assistant record, with only that run's records between,
/// and answers the call at its position.
proof fn lemma_result_follows_assistant(v: SessionView, i: int) -> (a: int)
    requires
        valid(v),
        0 <= i < v.records.len(),
        v.records[i].message is ToolResult,
    ensures
        0 <= a < i,
        is_assistant_of(v.records, a, v.records[i].run_id),
        is_assistant_of(v.records, a, v.records[i - 1].run_id),
        i - a - 1 < calls_in(v.records[a]).len(),
        result_id(v.records[i]) == calls_in(v.records[a])[i - a - 1].tool_call_id,
{
    reveal(roles_in_order);
    reveal(results_answer_calls);
    reveal(identities_grow);
    let a = choose|a: int|
        a < i && #[trigger] is_assistant_of(v.records, a, v.records[i].run_id);
    assert(v.records[a].run_id <= v.records[i - 1].run_id <= v.records[i].run_id);
    a
}

/// Nothing is awaited where the records of a run end.
proof fn lemma_nothing_awaited_before_user(v: SessionView, k: int)
    requires
        valid(v),
        0 < k <= v.records.len(),
        k < v.records.len() ==> v.records[k].message is User,
    ensures
        awaiting(v.records, k).len() == 0,
{
    let records = v.records;
    let run_id = records[k - 1].run_id;
    if exists|a: int|
        a < k && #[trigger] is_assistant_of(records, a, run_id) && records[a].model_visible {
        let a = choose|a: int|
            a < k && #[trigger] is_assistant_of(records, a, run_id) && records[a].model_visible;
        lemma_awaiting(records, k, a);
        reveal(records_belong_to_runs);
        assert(knows_run(v, records[a].run_id));
        let r = choose|r: int|
            0 <= r < v.runs.len() && (#[trigger] v.runs[r]).run_id == records[a].run_id;
        assert(is_assistant_of(records, a, v.runs[r].run_id));
        assert(v.runs[r].terminal_state is Completed) by {
            reveal(visibility_follows_outcome);
        }
        let end = a + calls_in(records[a]).len();
        assert(end < records.len() && records[end].run_id == run_id) by {
            reveal(completed_runs_are_resolved);
        }
        assert(end < k) by {
            if end >= k {
                reveal(roles_in_order);
                reveal(identities_grow);
                assert(records[k - 1].run_id < records[k].run_id);
                if end > k {
                    assert(records[k].run_id <= records[end].run_id);
                }
            }
        }
        assert(k - 1 - a == calls_in(records[a]).len()) by {
            reveal(results_answer_calls);
        }
    }
}

/// While no run is active, the visible history is free of faults exactly when no failed run has
/// recorded a tool result. Otherwise the first such result is the fault: its assistant record is
/// hidden, so it follows no tool-call group.
pub proof fn lemma_history_is_valid_unless_failed_run_has_results(v: SessionView)
    requires
        valid(v),
        active_run(v) is None,
    ensures
        history_fault(visible_messages(v.records)) == if failed_runs_have_no_results(v) {
            None
        } else {
            Some("tool result does not follow an assistant tool-call group"@)
        },
{
    let records = v.records;
    let n = records.len() as int;
    if failed_runs_have_no_results(v) {
        lemma_history_prefix(v, n);
        assert(records.take(n) =~= records);
        if n > 0 {
            lemma_nothing_awaited_before_user(v, n);
        }
    } else {
        let (r, i) = choose|r: int, i: int|
            0 <= r < v.runs.len() && 0 <= i < v.records.len() && (#[trigger] v.records[i]).run_id
                == (#[trigger] v.runs[r]).run_id && v.records[i].message is ToolResult && !(
            v.runs[r].terminal_state is Completed);
        assert(is_orphan(v, i));
        let k = lemma_first_orphan(v, i);
        assert forall|q: int, j: int|
            0 <= q < v.runs.len() && 0 <= j < k && (#[trigger] v.records[j]).run_id == (
            #[trigger] v.runs[q]).run_id && v.records[j].message is ToolResult implies v.runs[q].terminal_state is Completed
            by {
            assert(!is_orphan(v, j));
        }
        lemma_history_prefix(v, k);
        let a = lemma_result_follows_assistant(v, k);
        lemma_awaiting(records, k, a);
        let x = records[k];
        let before = visible_messages(records.take(k));
        assert(records.take(k + 1).drop_last() =~= records.take(k));
        assert(records.take(k + 1).last() == x);
        assert(before.push(x.message).drop_last() =~= before);
        assert(x.model_visible && !records[a].model_visible) by {
            reveal(visibility_follows_outcome);
            reveal(identities_grow);
            let q = choose|q: int|
                0 <= q < v.runs.len() && (#[trigger] v.runs[q]).run_id == records[k].run_id && !(
                v.runs[q].terminal_state is Completed);
            assert(is_assistant_of(records, a, v.runs[q].run_id));
        }
        lemma_history_fault_stays(records, k + 1);
    }
}

/// Record `i` is a tool result of a run that did not complete.
spec fn is_orphan(v: SessionView, i: int) -> bool {
    &&& 0 <= i < v.records.len()
    &&& v.records[i].message is ToolResult
    &&& exists|r: int|
        0 <= r < v.runs.len() && (#[trigger] v.runs[r]).run_id == v.records[i].run_id && !(
        v.runs[r].terminal_state is Completed)
}

proof fn lemma_first_orphan(v: SessionView, i: int) -> (k: int)
    requires
        is_orphan(v, i),
    ensures
        is_orphan(v, k),
        forall|j: int| 0 <= j < k ==> !is_orphan(v, j),
    decreases i,
{
    if exists|j: int| 0 <= j < i && is_orphan(v, j) {
        let j = choose|j: int| 0 <= j < i && is_orphan(v, j);
        lemma_first_orphan(v, j)
    } else {
        i
    }
}

/// A run can be started exactly when none is active, no failed run has recorded a tool result, and
/// both identity counters have room.
pub proof fn lemma_start_run_succeeds(v: SessionView, user_content: Seq<char>)
    requires
        valid(v),
    ensures
        start_run_step(v, user_content) is Ok <==> {
            &&& active_run(v) is None
            &&& failed_runs_have_no_results(v)
            &&& v.next_run_id < u64::MAX
            &&& v.next_message_id < u64::MAX
        },
{
    if active_run(v) is None {
        lemma_history_is_valid_unless_failed_run_has_results(v);
    }
}

/// A run's request is the visible history followed by the new user text, for the model chosen when
/// the run started, and the run records it.
pub proof fn lemma_request_is_visible_history(v: SessionView, user_content: Seq<char>)
    requires
        valid(v),
        start_run_step(v, user_content) is Ok,
    ensures
        ({
            let (post, start) = start_run_step(v, user_content)->Ok_0;
            &&& start.request.model_id == v.current_model_id
            &&& start.request.messages == visible_messages(v.records).push(
                ModelMessageView::User { content: user_content },
            )
            &&& start.request.messages == visible_messages(post.records)
            &&& active_run(post) == Some(start.run_id)
            &&& current_exchange(post).request == start.request
        }),
{
    let (post, start) = start_run_step(v, user_content)->Ok_0;
    assert(post.records.drop_last() =~= v.records);
}

/// Two text deltas record the same text as their concatenation.
pub proof fn lemma_text_deltas_concatenate(
    v: SessionView,
    run_id: u64,
    first: Seq<char>,
    second: Seq<char>,
)
    requires
        valid(v),
        first.len() > 0,
        assistant_delta_step(v, run_id, first) is Ok,
    ensures
        ({
            let (middle, _) = assistant_delta_step(v, run_id, first)->Ok_0;
            &&& assistant_delta_step(middle, run_id, second) is Ok
            &&& assistant_delta_step(v, run_id, first + second) is Ok
            &&& (assistant_delta_step(middle, run_id, second)->Ok_0).0 == (assistant_delta_step(
                v,
                run_id,
                first + second,
            )->Ok_0).0
        }),
{
    let (middle, _) = assistant_delta_step(v, run_id, first)->Ok_0;
    lemma_assistant_delta_keeps_valid(v, run_id, first);
    let m = v.runs.len() - 1;
    assert(v.runs[m] == v.runs.last());
    assert(middle.runs[m] == middle.runs.last());
    assert(middle.runs[m].run_id == run_id);
    assert(active_run(middle) == Some(run_id));
    assert(knows_run(middle, run_id));
    assert(v.runs[m].exchanges.len() == 1) by {
        reveal(runs_match_exchanges);
    }
    if current_exchange(v).assistant_message_id is Some {
        let a = lemma_active_with_assistant(v);
        assert(v.records.last() == v.records[a]);
    } else {
        lemma_active_without_assistant(v);
        assert(v.records.last() == v.records[v.records.len() - 1]);
    }
    assert(current_exchange(middle).assistant_message_id is Some);
    let b = lemma_active_with_assistant(middle);
    assert(middle.records.len() - 1 == b) by {
        reveal(results_answer_calls);
        let last = middle.records[middle.records.len() - 1];
        assert(last.message is Assistant);
    }
    if second.len() > 0 {
        let post = (assistant_delta_step(middle, run_id, second)->Ok_0).0;
        let whole = (assistant_delta_step(v, run_id, first + second)->Ok_0).0;
        assert(post.records =~= whole.records) by {
            assert(post.records.last().message =~= whole.records.last().message);
            assert(post.records.drop_last() =~= whole.records.drop_last());
        }
    } else {
        assert(first + second =~= first);
    }
}

/// Usage is cumulative: only the latest report stays.
pub proof fn lemma_latest_usage_stays(v: SessionView, run_id: u64, first: Usage, second: Usage)
    requires
        valid(v),
        usage_step(v, run_id, first) is Ok,
    ensures
        usage_step(usage_step(v, run_id, first)->Ok_0, run_id, second) == usage_step(
            v,
            run_id,
            second,
        ),
{
    let middle = usage_step(v, run_id, first)->Ok_0;
    let m = v.runs.len() - 1;
    assert(v.runs[m] == v.runs.last());
    assert(middle.runs[m] == middle.runs.last());
    assert(middle.runs[m].run_id == run_id);
    assert(knows_run(middle, run_id));
    let left = usage_step(middle, run_id, second)->Ok_0;
    let right = usage_step(v, run_id, second)->Ok_0;
    assert(left.runs =~= right.runs);
}

/// Only the latest run can be active.
pub proof fn lemma_only_latest_run_is_active(v: SessionView, r: int)
    requires
        valid(v),
        0 <= r < v.runs.len(),
        v.runs[r].terminal_state is Running,
    ensures
        r == v.runs.len() - 1,
        active_run(v) == Some(v.runs[r].run_id),
{
    reveal(runs_match_exchanges);
}

/// A record is shown to later requests unless it is assistant output of a run that did not
/// complete.
pub proof fn lemma_visibility(v: SessionView, r: int, i: int)
    requires
        valid(v),
        0 <= r < v.runs.len(),
        0 <= i < v.records.len(),
        v.records[i].run_id == v.runs[r].run_id,
    ensures
        v.records[i].model_visible == (!(v.records[i].message is Assistant)
            || v.runs[r].terminal_state is Completed),
{
    reveal(visibility_follows_outcome);
    if v.records[i].message is Assistant {
        assert(is_assistant_of(v.records, i, v.runs[r].run_id));
    }
}

/// Tool-call identities are never empty, and two different declared calls never share one.
pub proof fn lemma_tool_call_identities(v: SessionView, i: int, k: int, j: int, l: int)
    requires
        valid(v),
        0 <= i < v.records.len(),
        0 <= k < calls_in(v.records[i]).len(),
        0 <= j < v.records.len(),
        0 <= l < calls_in(v.records[j]).len(),
    ensures
        calls_in(v.records[i])[k].tool_call_id.len() > 0,
        calls_in(v.records[i])[k].tool_call_id == calls_in(v.records[j])[l].tool_call_id ==> i == j
            && k == l,
{
    reveal(calls_are_unique);
}

/// Records of other runs at the end change nothing of what a run declared and resolved.
proof fn lemma_other_runs_add_nothing(records: Seq<RecordView>, run_id: u64, n: int)
    requires
        0 <= n <= records.len(),
        forall|i: int| n <= i < records.len() ==> (#[trigger] records[i]).run_id != run_id,
    ensures
        declared_calls(records, run_id) == declared_calls(records.take(n), run_id),
        resolved_calls(records, run_id) == resolved_calls(records.take(n), run_id),
    decreases records.len() - n,
{
    if n < records.len() {
        let before = records.drop_last();
        assert forall|i: int| n <= i < before.len() implies (#[trigger] before[i]).run_id
            != run_id by {
            assert(before[i] == records[i]);
        }
        lemma_other_runs_add_nothing(before, run_id, n);
        assert(before.take(n) =~= records.take(n));
        assert(records.last() == records[records.len() - 1]);
    } else {
        assert(records.take(n) =~= records);
    }
}

/// The results of every run answer its declared tool calls from the first on, in order; a completed
/// run has answered all of them.
pub proof fn lemma_results_answer_calls_in_order(v: SessionView, r: int)
    requires
        valid(v),
        0 <= r < v.runs.len(),
    ensures
        ({
            let declared = declared_calls(v.records, v.runs[r].run_id);
            let resolved = resolved_calls(v.records, v.runs[r].run_id);
            &&& resolved.len() <= declared.len()
            &&& resolved == declared.take(resolved.len() as int)
            &&& v.runs[r].terminal_state is Completed ==> resolved == declared
        }),
{
    let records = v.records;
    let run_id = v.runs[r].run_id;
    let declared = declared_calls(records, run_id);
    let resolved = resolved_calls(records, run_id);
    if exists|a: int| is_assistant_of(records, a, run_id) {
        let a = choose|a: int| is_assistant_of(records, a, run_id);
        let end = lemma_run_end(v, run_id, a);
        let own = records.take(end);
        lemma_other_runs_add_nothing(records, run_id, end);
        assert(own[a] == records[a]);
        assert(is_assistant_of(own, a, run_id));
        assert forall|i: int| 0 <= i < a implies (#[trigger] own[i]).run_id != run_id
            || own[i].message is User by {
            assert(own[i] == records[i]);
            reveal(results_answer_calls);
            reveal(roles_in_order);
            if records[i].run_id == run_id {
                if records[i].message is Assistant {
                    assert(records[a].run_id == records[i].run_id);
                }
                if records[i].message is ToolResult {
                    let b = choose|b: int|
                        b < i && #[trigger] is_assistant_of(records, b, records[i].run_id);
                    assert(records[a].run_id == records[b].run_id);
                }
            }
        }
        assert forall|i: int| a < i < own.len() implies (#[trigger] own[i]).run_id == run_id
            && own[i].message is ToolResult && i - a - 1 < calls_in(records[a]).len() && result_id(
            own[i],
        ) == calls_in(records[a])[i - a - 1].tool_call_id by {
            reveal(results_answer_calls);
            assert(own[i] == records[i]);
        }
        lemma_declared_by_assistant(own, run_id, a);
        if end - a - 1 > 0 {
            assert(own[end - 1].run_id == run_id);
        }
        assert forall|k: int| 0 <= k < resolved.len() implies resolved[k] == declared[k] by {
            assert(resolved[k] == result_id(own[a + 1 + k]));
        }
        assert(resolved =~= declared.take(resolved.len() as int));
        if v.runs[r].terminal_state is Completed {
            reveal(completed_runs_are_resolved);
            assert(is_assistant_of(records, a, v.runs[r].run_id));
            let last = a + calls_in(records[a]).len();
            assert(records[last].run_id == run_id);
            assert(resolved =~= declared);
        }
    } else {
        assert forall|i: int| 0 <= i < records.len() implies (#[trigger] records[i]).run_id
            != run_id || records[i].message is User by {
            reveal(roles_in_order);
            if records[i].run_id == run_id {
                if records[i].message is Assistant {
                    assert(is_assistant_of(records, i, run_id));
                }
            }
        }
        lemma_nothing_declared(records, run_id);
        assert(resolved =~= declared);
        assert(resolved =~= declared.take(resolved.len() as int));
    }
}

/// Where the records of a run with an assistant record end.
proof fn lemma_run_end(v: SessionView, run_id: u64, a: int) -> (end: int)
    requires
        valid(v),
        is_assistant_of(v.records, a, run_id),
    ensures
        a < end <= v.records.len(),
        forall|i: int| a <= i < end ==> (#[trigger] v.records[i]).run_id == run_id,
        forall|i: int| end <= i < v.records.len() ==> (#[trigger] v.records[i]).run_id != run_id,
{
    reveal(identities_grow);
    lemma_last_of_run(v.records, run_id, a, v.records.len() as int)
}

proof fn lemma_last_of_run(records: Seq<RecordView>, run_id: u64, a: int, end: int) -> (last: int)
    requires
        0 <= a < end <= records.len(),
        records[a].run_id == run_id,
        forall|i: int, j: int|
            0 <= i < j < records.len() ==> (#[trigger] records[i]).run_id <= (
            #[trigger] records[j]).run_id,
        forall|i: int| end <= i < records.len() ==> (#[trigger] records[i]).run_id != run_id,
    ensures
        a < last <= records.len(),
        forall|i: int| a <= i < last ==> (#[trigger] records[i]).run_id == run_id,
        forall|i: int| last <= i < records.len() ==> (#[trigger] records[i]).run_id != run_id,
    decreases end,
{
    if records[end - 1].run_id == run_id {
        assert forall|i: int| a <= i < end implies (#[trigger] records[i]).run_id == run_id by {
            if a < i {
                assert(records[a].run_id <= records[i].run_id);
            }
            if i < end - 1 {
                assert(records[i].run_id <= records[end - 1].run_id);
            }
        }
        end
    } else {
        lemma_last_of_run(records, run_id, a, end - 1)
    }
}

/// `after` is `before`, or `before` with more text and tool calls behind it.
pub open spec fn message_extends(before: ModelMessageView, after: ModelMessageView) -> bool {
    match (before, after) {
        (
            ModelMessageView::Assistant { content, tool_calls },
            ModelMessageView::Assistant { content: more_content, tool_calls: more_calls },
        ) => content.is_prefix_of(more_content) && tool_calls.is_prefix_of(more_calls),
        _ => before == after,
    }
}

/// `post` holds all that `v` held: no record and no run goes away or changes its identity, nothing
/// recorded is rewritten, and a run that has ended stays as it is.
pub open spec fn session_extends(v: SessionView, post: SessionView) -> bool {
    &&& v.records.len() <= post.records.len()
    &&& forall|i: int|
        0 <= i < v.records.len() ==> {
            &&& (#[trigger] post.records[i]).message_id == v.records[i].message_id
            &&& post.records[i].run_id == v.records[i].run_id
            &&& message_extends(v.records[i].message, post.records[i].message)
            &&& v.records[i].model_visible ==> post.records[i].model_visible
        }
    &&& v.runs.len() <= post.runs.len()
    &&& forall|r: int|
        0 <= r < v.runs.len() ==> {
            &&& (#[trigger] post.runs[r]).run_id == v.runs[r].run_id
            &&& post.runs[r].model_id == v.runs[r].model_id
            &&& post.runs[r].exchanges[0].request == v.runs[r].exchanges[0].request
            &&& !(v.runs[r].terminal_state is Running) ==> post.runs[r] == v.runs[r]
        }
    &&& v.next_run_id <= post.next_run_id
    &&& v.next_message_id <= post.next_message_id
}

/// Growth is transitive, so it holds along any series of transitions.
pub proof fn lemma_session_extends_transitive(a: SessionView, b: SessionView, c: SessionView)
    requires
        session_extends(a, b),
        session_extends(b, c),
    ensures
        session_extends(a, c),
{
    assert forall|i: int| 0 <= i < a.records.len() implies {
        &&& (#[trigger] c.records[i]).message_id == a.records[i].message_id
        &&& c.records[i].run_id == a.records[i].run_id
        &&& message_extends(a.records[i].message, c.records[i].message)
        &&& a.records[i].model_visible ==> c.records[i].model_visible
    } by {
        let x = a.records[i].message;
        let y = b.records[i].message;
        let z = c.records[i].message;
        assert(message_extends(x, y) && message_extends(y, z));
    }
    assert forall|r: int| 0 <= r < a.runs.len() implies {
        &&& (#[trigger] c.runs[r]).run_id == a.runs[r].run_id
        &&& c.runs[r].model_id == a.runs[r].model_id
        &&& c.runs[r].exchanges[0].request == a.runs[r].exchanges[0].request
        &&& !(a.runs[r].terminal_state is Running) ==> c.runs[r] == a.runs[r]
    } by {
        assert(b.runs[r].run_id == a.runs[r].run_id);
    }
}

/// Starting a run only adds to the session.
pub proof fn lemma_start_run_extends(v: SessionView, user_content: Seq<char>)
    requires
        valid(v),
        start_run_step(v, user_content) is Ok,
    ensures
        session_extends(v, (start_run_step(v, user_content)->Ok_0).0),
{
}

/// Assistant output only adds to the session.
pub proof fn lemma_assistant_output_extends(
    v: SessionView,
    text: Seq<char>,
    tool_calls: Seq<ToolCallView>,
)
    requires
        valid(v),
        active_run(v) is Some,
        assistant_output_step(v, text, tool_calls) is Ok,
    ensures
        session_extends(v, assistant_output_step(v, text, tool_calls)->Ok_0),
{
    let post = assistant_output_step(v, text, tool_calls)->Ok_0;
    let m = v.runs.len() - 1;
    assert(v.runs[m] == v.runs.last());
    if current_exchange(v).assistant_message_id is Some {
        let a = lemma_active_with_assistant(v);
        let n = v.records.len() - 1;
        assert(v.records.last() == v.records[n]);
        assert(message_extends(v.records[n].message, post.records[n].message));
    }
}

/// Reporting usage, recording a tool result, finishing and failing a run only add to the session.
pub proof fn lemma_other_steps_extend(
    v: SessionView,
    run_id: u64,
    usage: Usage,
    tool_call_id: Seq<char>,
    content: Seq<char>,
    outcome: CompletionOutcome,
    category: FailureCategory,
    detail: Seq<char>,
)
    requires
        valid(v),
    ensures
        usage_step(v, run_id, usage) is Ok ==> session_extends(
            v,
            usage_step(v, run_id, usage)->Ok_0,
        ),
        tool_result_step(v, run_id, tool_call_id, content) is Ok ==> session_extends(
            v,
            tool_result_step(v, run_id, tool_call_id, content)->Ok_0,
        ),
        finish_run_step(v, run_id, outcome) is Ok ==> session_extends(
            v,
            finish_run_step(v, run_id, outcome)->Ok_0,
        ),
        fail_run_step(v, run_id, category, detail) is Ok ==> session_extends(
            v,
            fail_run_step(v, run_id, category, detail)->Ok_0,
        ),
{
    if v.runs.len() > 0 {
        assert(v.runs[v.runs.len() - 1] == v.runs.last());
    }
}

/// A failed run keeps its request, its partial response and its usage; only its state changes, and
/// what later requests see stays the same.
pub proof fn lemma_failed_run_keeps_its_data(
    v: SessionView,
    run_id: u64,
    category: FailureCategory,
    display_detail: Seq<char>,
)
    requires
        valid(v),
        fail_run_step(v, run_id, category, display_detail) is Ok,
    ensures
        ({
            let post = fail_run_step(v, run_id, category, display_detail)->Ok_0;
            let before = current_exchange(v);
            let after = current_exchange(post);
            &&& post.records == v.records
            &&& visible_messages(post.records) == visible_messages(v.records)
            &&& after.request == before.request
            &&& after.assistant_message_id == before.assistant_message_id
            &&& after.usage == before.usage
            &&& after.terminal_state == post.runs.last().terminal_state
            &&& after.terminal_state is Failed
        }),
{
}

// ---------------------------------------------------------------------------
// Along a whole session
// ---------------------------------------------------------------------------

/// One call that changes a session.
pub enum SessionCall {
    SelectModel { model_id: Seq<char> },
    StartRun { user_content: Seq<char> },
    AppendAssistantDelta { run_id: u64, text: Seq<char> },
    AppendToolCall { run_id: u64, tool_call: ToolCallView },
    RecordUsage { run_id: u64, usage: Usage },
    AppendToolResult { run_id: u64, tool_call_id: Seq<char>, content: Seq<char> },
    FinishRun { run_id: u64, outcome: CompletionOutcome },
    FailRun { run_id: u64, category: FailureCategory, display_detail: Seq<char> },
}

/// The session after a call; a call that is refused changes nothing.
pub open spec fn after_call(v: SessionView, call: SessionCall) -> SessionView {
    match call {
        SessionCall::SelectModel { model_id } => SessionView { current_model_id: model_id, ..v },
        SessionCall::StartRun { user_content } => match start_run_step(v, user_content) {
            Ok((post, _)) => post,
            Err(_) => v,
        },
        SessionCall::AppendAssistantDelta { run_id, text } => match assistant_delta_step(
            v,
            run_id,
            text,
        ) {
            Ok((post, _)) => post,
            Err(_) => v,
        },
        SessionCall::AppendToolCall { run_id, tool_call } => match tool_call_step(
            v,
            run_id,
            tool_call,
        ) {
            Ok(post) => post,
            Err(_) => v,
        },
        SessionCall::RecordUsage { run_id, usage } => match usage_step(v, run_id, usage) {
            Ok(post) => post,
            Err(_) => v,
        },
        SessionCall::AppendToolResult { run_id, tool_call_id, content } => match tool_result_step(
            v,
            run_id,
            tool_call_id,
            content,
        ) {
            Ok(post) => post,
            Err(_) => v,
        },
        SessionCall::FinishRun { run_id, outcome } => match finish_run_step(v, run_id, outcome) {
            Ok(post) => post,
            Err(_) => v,
        },
        SessionCall::FailRun { run_id, category, display_detail } => match fail_run_step(
            v,
            run_id,
            category,
            display_detail,
        ) {
            Ok(post) => post,
            Err(_) => v,
        },
    }
}

/// The session after a series of calls.
pub open spec fn after_calls(v: SessionView, calls: Seq<SessionCall>) -> SessionView
    decreases calls.len(),
{
    if calls.len() == 0 {
        v
    } else {
        after_call(after_calls(v, calls.drop_last()), calls.last())
    }
}

/// A session that nothing has happened in.
pub open spec fn new_session(model_id: Seq<char>) -> SessionView {
    SessionView {
        current_model_id: model_id,
        next_run_id: 1,
        next_message_id: 1,
        records: Seq::empty(),
        runs: Seq::empty(),
    }
}

/// Every call keeps the session valid.
pub proof fn lemma_calls_keep_valid(v: SessionView, call: SessionCall)
    requires
        valid(v),
    ensures
        valid(after_call(v, call)),
{
    match call {
        SessionCall::SelectModel { model_id } => {
            lemma_model_choice_keeps_valid(v, model_id);
        },
        SessionCall::StartRun { user_content } => {
            if start_run_step(v, user_content) is Ok {
                lemma_start_run_keeps_valid(v, user_content);
            }
        },
        SessionCall::AppendAssistantDelta { run_id, text } => {
            if assistant_delta_step(v, run_id, text) is Ok {
                lemma_assistant_delta_keeps_valid(v, run_id, text);
            }
        },
        SessionCall::AppendToolCall { run_id, tool_call } => {
            if tool_call_step(v, run_id, tool_call) is Ok {
                lemma_tool_call_keeps_valid(v, run_id, tool_call);
            }
        },
        SessionCall::RecordUsage { run_id, usage } => {
            if usage_step(v, run_id, usage) is Ok {
                lemma_usage_keeps_valid(v, run_id, usage);
            }
        },
        SessionCall::AppendToolResult { run_id, tool_call_id, content } => {
            if tool_result_step(v, run_id, tool_call_id, content) is Ok {
                lemma_tool_result_keeps_valid(v, run_id, tool_call_id, content);
            }
        },
        SessionCall::FinishRun { run_id, outcome } => {
            if finish_run_step(v, run_id, outcome) is Ok {
                lemma_finish_run_keeps_valid(v, run_id, outcome);
            }
        },
        SessionCall::FailRun { run_id, category, display_detail } => {
            if fail_run_step(v, run_id, category, display_detail) is Ok {
                lemma_fail_run_keeps_valid(v, run_id, category, display_detail);
            }
        },
    }
}

/// The identities of records and runs count from one, without gaps, up to the counters.
pub open spec fn counts_from_one(v: SessionView) -> bool {
    &&& v.next_message_id == v.records.len() + 1
    &&& v.next_run_id == v.runs.len() + 1
    &&& forall|i: int| 0 <= i < v.records.len() ==> (#[trigger] v.records[i]).message_id == i + 1
    &&& forall|r: int| 0 <= r < v.runs.len() ==> (#[trigger] v.runs[r]).run_id == r + 1
}

proof fn lemma_call_keeps_count(v: SessionView, call: SessionCall)
    requires
        valid(v),
        counts_from_one(v),
    ensures
        counts_from_one(after_call(v, call)),
{
    if v.runs.len() > 0 {
        assert(v.runs[v.runs.len() - 1] == v.runs.last());
    }
    if active_run(v) is Some && current_exchange(v).assistant_message_id is Some {
        let a = lemma_active_with_assistant(v);
        assert(v.records.last() == v.records[v.records.len() - 1]);
    }
}

/// Whatever is called on a new session, message and run identities count from one without gaps.
pub proof fn lemma_identities_count_from_one(model_id: Seq<char>, calls: Seq<SessionCall>)
    ensures
        valid(after_calls(new_session(model_id), calls)),
        counts_from_one(after_calls(new_session(model_id), calls)),
    decreases calls.len(),
{
    if calls.len() == 0 {
        lemma_empty_session_is_valid(new_session(model_id));
    } else {
        lemma_identities_count_from_one(model_id, calls.drop_last());
        let before = after_calls(new_session(model_id), calls.drop_last());
        lemma_calls_keep_valid(before, calls.last());
        lemma_call_keeps_count(before, calls.last());
    }
}

/// The request of run `r` is what the first `n` records show, and its user text is the last of them.
pub open spec fn is_request_at(v: SessionView, r: int, n: int) -> bool {
    &&& 0 < n <= v.records.len()
    &&& v.records[n - 1].message is User
    &&& v.records[n - 1].run_id == v.runs[r].run_id
    &&& v.runs[r].exchanges[0].request.messages == visible_messages(v.records.take(n))
}

/// The request of run `r` is what the records up to its user text show.
pub open spec fn request_follows_history(v: SessionView, r: int) -> bool {
    exists|n: int| is_request_at(v, r, n)
}

/// The request of every run is what the records up to its user text show.
pub open spec fn requests_follow_history(v: SessionView) -> bool {
    forall|r: int| 0 <= r < v.runs.len() ==> #[trigger] request_follows_history(v, r)
}

/// The records up to the user text of a run stay as they are.
proof fn lemma_request_stays(v: SessionView, call: SessionCall, r: int, n: int)
    requires
        valid(v),
        0 <= r < v.runs.len(),
        is_request_at(v, r, n),
    ensures
        is_request_at(after_call(v, call), r, n),
{
    let post = after_call(v, call);
    let m = v.runs.len() - 1;
    assert(v.runs[m] == v.runs.last());
    assert(v.runs[r].run_id <= v.runs[m].run_id) by {
        reveal(identities_grow);
    }
    if active_run(v) is Some && current_exchange(v).assistant_message_id is Some {
        let a = lemma_active_with_assistant(v);
        assert(v.records.last() == v.records[v.records.len() - 1]);
    }
    assert forall|i: int| 0 <= i < n implies post.records[i] == v.records[i] by {
        assert(!(v.records[i].run_id == v.runs[m].run_id && v.records[i].message is Assistant)) by {
            reveal(roles_in_order);
            if i < n - 1 {
                assert(v.records[i].run_id < v.records[n - 1].run_id);
            }
        }
    }
    assert(post.records.take(n) =~= v.records.take(n));
}

proof fn lemma_call_keeps_requests(v: SessionView, call: SessionCall)
    requires
        valid(v),
        requests_follow_history(v),
    ensures
        requests_follow_history(after_call(v, call)),
{
    let post = after_call(v, call);
    assert forall|r: int| 0 <= r < post.runs.len() implies #[trigger] request_follows_history(
        post,
        r,
    ) by {
        if r < v.runs.len() {
            assert(request_follows_history(v, r));
            let n = choose|n: int| is_request_at(v, r, n);
            lemma_request_stays(v, call, r, n);
        } else if let SessionCall::StartRun { user_content } = call {
            lemma_request_is_visible_history(v, user_content);
            let n = post.records.len() as int;
            assert(post.records.take(n) =~= post.records);
            assert(is_request_at(post, r, n));
        }
    }
}

proof fn lemma_history_grows(records: Seq<RecordView>, a: int, b: int)
    requires
        0 <= a <= b <= records.len(),
    ensures
        visible_messages(records.take(a)).is_prefix_of(visible_messages(records.take(b))),
    decreases b,
{
    if a < b {
        lemma_history_grows(records, a, b - 1);
        assert(records.take(b).drop_last() =~= records.take(b - 1));
    }
}

/// Whatever is called on a new session, the messages of each request are the first messages of every
/// later one: what a model has been told is never taken back or changed.
pub proof fn lemma_requests_only_grow(
    model_id: Seq<char>,
    calls: Seq<SessionCall>,
    earlier: int,
    later: int,
)
    requires
        0 <= earlier <= later < after_calls(new_session(model_id), calls).runs.len(),
    ensures
        ({
            let runs = after_calls(new_session(model_id), calls).runs;
            runs[earlier].exchanges[0].request.messages.is_prefix_of(
                runs[later].exchanges[0].request.messages,
            )
        }),
{
    let v = after_calls(new_session(model_id), calls);
    lemma_requests_follow_history(model_id, calls);
    assert(request_follows_history(v, earlier) && request_follows_history(v, later));
    let a = choose|n: int| is_request_at(v, earlier, n);
    let b = choose|n: int| is_request_at(v, later, n);
    assert(a <= b) by {
        reveal(identities_grow);
        if b < a {
            reveal(roles_in_order);
            assert(v.records[b - 1].run_id < v.records[a - 1].run_id);
            assert(v.runs[earlier].run_id <= v.runs[later].run_id);
        }
    }
    lemma_history_grows(v.records, a, b);
}

/// Whatever is called on a new session, the request of every run is what the records up to its user
/// text show.
pub proof fn lemma_requests_follow_history(model_id: Seq<char>, calls: Seq<SessionCall>)
    ensures
        valid(after_calls(new_session(model_id), calls)),
        requests_follow_history(after_calls(new_session(model_id), calls)),
    decreases calls.len(),
{
    if calls.len() == 0 {
        lemma_empty_session_is_valid(new_session(model_id));
    } else {
        lemma_requests_follow_history(model_id, calls.drop_last());
        let before = after_calls(new_session(model_id), calls.drop_last());
        lemma_calls_keep_valid(before, calls.last());
        lemma_call_keeps_requests(before, calls.last());
    }
}

} // verus!
