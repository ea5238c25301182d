//! Why every transition keeps a session valid.

use vstd::prelude::*;

use crate::provider::{tool_call_ids, CompletionOutcome, ToolCallView, Usage};
use crate::session::FailureCategory;
use crate::session::model::{
    RecordView, RunTerminalStateView, SessionFailureView, SessionView, active_run,
    assistant_delta_step, call_exists, calls_are_unique, calls_in, completed_runs_are_resolved,
    current_exchange, declared_calls, exchanges_name_assistants, fail_run_step, finish_run_step,
    history_scan, identities_grow, is_assistant_of, knows_run, records_belong_to_runs,
    resolved_calls, result_id, results_answer_calls, roles_in_order, runs_match_exchanges,
    start_run_step, tool_call_step, tool_result_step, usage_step, valid, visibility_follows_outcome,
    visible_messages, with_assistant_shown, with_more_assistant, with_new_assistant,
    with_terminal_state,
};

verus! {

/// A session without records or runs is valid.
pub proof fn lemma_empty_session_is_valid(v: SessionView)
    requires
        v.records.len() == 0,
        v.runs.len() == 0,
    ensures
        valid(v),
{
    reveal(identities_grow);
    reveal(runs_match_exchanges);
    reveal(exchanges_name_assistants);
    reveal(records_belong_to_runs);
    reveal(roles_in_order);
    reveal(visibility_follows_outcome);
    reveal(results_answer_calls);
    reveal(completed_runs_are_resolved);
    reveal(calls_are_unique);
}

/// Starting a run keeps the session valid.
pub proof fn lemma_start_run_keeps_valid(v: SessionView, user_content: Seq<char>)
    requires
        valid(v),
        start_run_step(v, user_content) is Ok,
    ensures
        valid((start_run_step(v, user_content)->Ok_0).0),
{
    let post = (start_run_step(v, user_content)->Ok_0).0;
    let n = v.records.len() as int;
    let m = v.runs.len() as int;
    assert forall|i: int| 0 <= i < n implies v.records[i].run_id < v.next_run_id by {
        reveal(records_belong_to_runs);
        reveal(identities_grow);
        assert(knows_run(v, v.records[i].run_id));
    }
    assert(identities_grow(post)) by {
        reveal(identities_grow);
    }
    assert(runs_match_exchanges(post)) by {
        reveal(runs_match_exchanges);
    }
    assert(exchanges_name_assistants(post)) by {
        reveal(exchanges_name_assistants);
        assert forall|r: int|
            0 <= r < post.runs.len() && (
            #[trigger] post.runs[r]).exchanges[0].assistant_message_id is Some implies exists|
            i: int,
        | #[trigger]
            is_assistant_of(post.records, i, post.runs[r].run_id) && post.records[i].message_id
                == post.runs[r].exchanges[0].assistant_message_id->0 by {
            assert(v.runs[r] == post.runs[r]);
            let i = choose|i: int| #[trigger]
                is_assistant_of(v.records, i, v.runs[r].run_id) && v.records[i].message_id
                    == v.runs[r].exchanges[0].assistant_message_id->0;
            assert(is_assistant_of(post.records, i, post.runs[r].run_id));
        }
        assert forall|r: int, i: int|
            0 <= r < post.runs.len() && #[trigger] is_assistant_of(post.records, i, (
            #[trigger] post.runs[r]).run_id) implies post.runs[r].exchanges[0].assistant_message_id
            == Some(post.records[i].message_id) by {
            assert(i < n);
            assert(v.records[i] == post.records[i]);
            assert(v.runs[r] == post.runs[r]);
            assert(is_assistant_of(v.records, i, v.runs[r].run_id));
        }
    }
    assert(records_belong_to_runs(post)) by {
        reveal(records_belong_to_runs);
        assert forall|i: int| 0 <= i < post.records.len() implies knows_run(
            post,
            (#[trigger] post.records[i]).run_id,
        ) by {
            if i < n {
                assert(knows_run(v, v.records[i].run_id));
                let r = choose|r: int|
                    0 <= r < v.runs.len() && (#[trigger] v.runs[r]).run_id == v.records[i].run_id;
                assert(post.runs[r].run_id == post.records[i].run_id);
            } else {
                assert(post.runs[m].run_id == post.records[i].run_id);
            }
        }
        assert forall|r: int| 0 <= r < post.runs.len() implies exists|i: int|
            0 <= i < post.records.len() && (#[trigger] post.records[i]).run_id == (
            #[trigger] post.runs[r]).run_id && post.records[i].message is User by {
            if r < m {
                let i = choose|i: int|
                    0 <= i < v.records.len() && (#[trigger] v.records[i]).run_id == v.runs[r].run_id
                        && v.records[i].message is User;
                assert(post.records[i] == v.records[i]);
            } else {
                assert(post.records[n].run_id == post.runs[r].run_id);
            }
        }
    }
    assert(roles_in_order(post.records)) by {
        reveal(roles_in_order);
        assert forall|i: int|
            0 <= i < post.records.len() && (
            #[trigger] post.records[i]).message is ToolResult implies exists|a: int|
            a < i && #[trigger] is_assistant_of(post.records, a, post.records[i].run_id) by {
            let a = choose|a: int|
                a < i && #[trigger] is_assistant_of(v.records, a, v.records[i].run_id);
            assert(is_assistant_of(post.records, a, post.records[i].run_id));
        }
    }
    assert(visibility_follows_outcome(post)) by {
        reveal(visibility_follows_outcome);
        assert forall|r: int, i: int|
            0 <= r < post.runs.len() && #[trigger] is_assistant_of(post.records, i, (
            #[trigger] post.runs[r]).run_id) implies post.records[i].model_visible == (
        post.runs[r].terminal_state is Completed) by {
            assert(v.records[i] == post.records[i]);
            assert(v.runs[r] == post.runs[r]);
            assert(is_assistant_of(v.records, i, v.runs[r].run_id));
        }
    }
    assert(results_answer_calls(post.records)) by {
        reveal(results_answer_calls);
    }
    assert(completed_runs_are_resolved(post)) by {
        reveal(completed_runs_are_resolved);
        assert forall|r: int, a: int|
            0 <= r < post.runs.len() && #[trigger] is_assistant_of(post.records, a, (
            #[trigger] post.runs[r]).run_id) && post.runs[r].terminal_state is Completed implies {
            &&& a + calls_in(post.records[a]).len() < post.records.len()
            &&& post.records[a + calls_in(post.records[a]).len()].run_id == post.runs[r].run_id
        } by {
            assert(v.runs[r] == post.runs[r]);
            assert(is_assistant_of(v.records, a, v.runs[r].run_id));
        }
    }
    assert(calls_are_unique(post.records)) by {
        reveal(calls_are_unique);
        assert(calls_in(post.records[n]).len() == 0);
    }
}

/// Records that are all of other runs, or user records, declare and resolve nothing for a run.
pub proof fn lemma_nothing_declared(records: Seq<RecordView>, run_id: u64)
    requires
        forall|i: int|
            0 <= i < records.len() ==> (#[trigger] records[i]).run_id != run_id
                || records[i].message is User,
    ensures
        declared_calls(records, run_id).len() == 0,
        resolved_calls(records, run_id).len() == 0,
    decreases records.len(),
{
    if records.len() > 0 {
        let before = records.drop_last();
        assert forall|i: int| 0 <= i < before.len() implies (#[trigger] before[i]).run_id != run_id
            || before[i].message is User by {
            assert(before[i] == records[i]);
        }
        lemma_nothing_declared(before, run_id);
        assert(records.last() == records[records.len() - 1]);
    }
}

/// Where an assistant record of the run is followed only by the run's tool results, it declares
/// the run's tool calls and they resolve them.
pub proof fn lemma_declared_by_assistant(records: Seq<RecordView>, run_id: u64, a: int)
    requires
        is_assistant_of(records, a, run_id),
        forall|i: int|
            0 <= i < a ==> (#[trigger] records[i]).run_id != run_id || records[i].message is User,
        forall|i: int|
            a < i < records.len() ==> (#[trigger] records[i]).run_id == run_id
                && records[i].message is ToolResult,
    ensures
        declared_calls(records, run_id) == tool_call_ids(calls_in(records[a])),
        resolved_calls(records, run_id).len() == records.len() - a - 1,
        forall|k: int|
            0 <= k < records.len() - a - 1 ==> (#[trigger] resolved_calls(records, run_id)[k])
                == result_id(records[a + 1 + k]),
    decreases records.len(),
{
    let before = records.drop_last();
    assert forall|i: int| 0 <= i < before.len() implies before[i] == records[i] by {}
    if a == records.len() - 1 {
        assert forall|i: int| 0 <= i < before.len() implies (#[trigger] before[i]).run_id != run_id
            || before[i].message is User by {
            assert(before[i] == records[i]);
        }
        lemma_nothing_declared(before, run_id);
        assert(declared_calls(records, run_id) =~= tool_call_ids(calls_in(records[a])));
    } else {
        assert(before[a] == records[a]);
        assert forall|i: int| 0 <= i < a implies (#[trigger] before[i]).run_id != run_id
            || before[i].message is User by {
            assert(before[i] == records[i]);
        }
        assert forall|i: int| a < i < before.len() implies (#[trigger] before[i]).run_id == run_id
            && before[i].message is ToolResult by {
            assert(before[i] == records[i]);
        }
        lemma_declared_by_assistant(before, run_id, a);
        assert(records.last() == records[records.len() - 1]);
        assert(calls_in(records.last()) =~= Seq::<ToolCallView>::empty());
        assert(declared_calls(records, run_id) =~= tool_call_ids(calls_in(records[a])));
        assert forall|k: int| 0 <= k < records.len() - a - 1 implies (#[trigger] resolved_calls(
            records,
            run_id,
        )[k]) == result_id(records[a + 1 + k]) by {
            if k < before.len() - a - 1 {
                assert(resolved_calls(records, run_id)[k] == resolved_calls(before, run_id)[k]);
                assert(before[a + 1 + k] == records[a + 1 + k]);
            }
        }
    }
}

/// The records from the active run's user record to the end are all of the active run.
proof fn lemma_active_run_is_last(v: SessionView) -> (u: int)
    requires
        valid(v),
        active_run(v) is Some,
    ensures
        0 <= u < v.records.len(),
        v.records[u].message is User,
        forall|i: int| 0 <= i < u ==> (#[trigger] v.records[i]).run_id < active_run(v)->0,
        forall|i: int| u <= i < v.records.len() ==> (#[trigger] v.records[i]).run_id == active_run(
            v,
        )->0,
        forall|i: int| u < i < v.records.len() ==> !((#[trigger] v.records[i]).message is User),
{
    reveal(identities_grow);
    reveal(records_belong_to_runs);
    reveal(roles_in_order);
    let r = v.runs.len() - 1;
    let run_id = v.runs[r].run_id;
    let u = choose|i: int|
        0 <= i < v.records.len() && (#[trigger] v.records[i]).run_id == v.runs[r].run_id
            && v.records[i].message is User;
    assert forall|i: int| u <= i < v.records.len() implies (#[trigger] v.records[i]).run_id
        == run_id by {
        assert(knows_run(v, v.records[i].run_id));
        let q = choose|q: int|
            0 <= q < v.runs.len() && (#[trigger] v.runs[q]).run_id == v.records[i].run_id;
        assert(v.runs[q].run_id <= v.runs[r].run_id);
        assert(v.records[u].run_id <= v.records[i].run_id);
    }
    u
}

/// While the active run has no assistant record, its user record is the last record of all.
pub proof fn lemma_active_without_assistant(v: SessionView)
    requires
        valid(v),
        active_run(v) is Some,
        current_exchange(v).assistant_message_id is None,
    ensures
        v.records.len() > 0,
        v.records.last().message is User,
        v.records.last().run_id == active_run(v)->0,
        declared_calls(v.records, active_run(v)->0).len() == 0,
        resolved_calls(v.records, active_run(v)->0).len() == 0,
{
    let run_id = active_run(v)->0;
    let u = lemma_active_run_is_last(v);
    let r = v.runs.len() - 1;
    assert(v.runs[r] == v.runs.last());
    assert forall|i: int| 0 <= i < v.records.len() implies (#[trigger] v.records[i]).run_id
        != run_id || v.records[i].message is User by {
        reveal(exchanges_name_assistants);
        reveal(roles_in_order);
        if v.records[i].run_id == run_id {
            if v.records[i].message is Assistant {
                assert(is_assistant_of(v.records, i, v.runs[r].run_id));
            }
            if v.records[i].message is ToolResult {
                let a = choose|a: int|
                    a < i && #[trigger] is_assistant_of(v.records, a, v.records[i].run_id);
                assert(is_assistant_of(v.records, a, v.runs[r].run_id));
            }
        }
    }
    lemma_nothing_declared(v.records, run_id);
    assert(v.records[v.records.len() - 1] == v.records.last());
}

/// The active run's assistant record is followed by the run's results and nothing else; they
/// answer the first of its calls, in order.
pub proof fn lemma_active_with_assistant(v: SessionView) -> (a: int)
    requires
        valid(v),
        active_run(v) is Some,
        current_exchange(v).assistant_message_id is Some,
    ensures
        is_assistant_of(v.records, a, active_run(v)->0),
        v.records[a].message_id == current_exchange(v).assistant_message_id->0,
        a > 0,
        v.records[a - 1].message is User,
        v.records[a - 1].run_id == active_run(v)->0,
        forall|i: int|
            0 <= i < a ==> (#[trigger] v.records[i]).run_id < active_run(v)->0
                || v.records[i].message is User,
        forall|i: int|
            a < i < v.records.len() ==> (#[trigger] v.records[i]).run_id == active_run(v)->0
                && v.records[i].message is ToolResult,
        declared_calls(v.records, active_run(v)->0) == tool_call_ids(calls_in(v.records[a])),
        resolved_calls(v.records, active_run(v)->0).len() == v.records.len() - a - 1,
        resolved_calls(v.records, active_run(v)->0) == declared_calls(
            v.records,
            active_run(v)->0,
        ).take(v.records.len() - a - 1),
        v.records.len() - a - 1 <= declared_calls(v.records, active_run(v)->0).len(),
{
    let run_id = active_run(v)->0;
    let u = lemma_active_run_is_last(v);
    let r = v.runs.len() - 1;
    assert(v.runs[r] == v.runs.last());
    reveal(exchanges_name_assistants);
    let a = choose|i: int| #[trigger]
        is_assistant_of(v.records, i, v.runs[r].run_id) && v.records[i].message_id
            == v.runs[r].exchanges[0].assistant_message_id->0;
    assert(v.records[a - 1].message is User && v.records[a - 1].run_id == run_id && a > 0) by {
        reveal(roles_in_order);
    }
    assert(a - 1 == u);
    assert forall|i: int| a < i < v.records.len() implies (#[trigger] v.records[i]).run_id == run_id
        && v.records[i].message is ToolResult && i - a - 1 < calls_in(v.records[a]).len()
        && result_id(v.records[i]) == calls_in(v.records[a])[i - a - 1].tool_call_id by {
        reveal(results_answer_calls);
    }
    lemma_declared_by_assistant(v.records, run_id, a);
    let declared = declared_calls(v.records, run_id);
    let resolved = resolved_calls(v.records, run_id);
    if v.records.len() - a - 1 > 0 {
        assert(v.records[v.records.len() - 1].run_id == run_id);
    }
    assert forall|k: int| 0 <= k < resolved.len() implies resolved[k] == declared[k] by {
        assert(resolved[k] == result_id(v.records[a + 1 + k]));
    }
    assert(resolved =~= declared.take(v.records.len() - a - 1));
    a
}

/// Tool calls that can be added to a session: identified, and by identities not used before.
pub open spec fn fresh_calls(records: Seq<RecordView>, tool_calls: Seq<ToolCallView>) -> bool {
    &&& forall|k: int|
        0 <= k < tool_calls.len() ==> (#[trigger] tool_calls[k]).tool_call_id.len() > 0
            && !call_exists(records, tool_calls[k].tool_call_id)
    &&& forall|k: int, l: int|
        0 <= k < tool_calls.len() && 0 <= l < tool_calls.len() && (
        #[trigger] tool_calls[k]).tool_call_id == (#[trigger] tool_calls[l]).tool_call_id ==> k == l
}

/// A change of the latest run that keeps its identity keeps every record in a known run.
proof fn lemma_records_still_belong(v: SessionView, post: SessionView)
    requires
        records_belong_to_runs(v),
        v.runs.len() == post.runs.len(),
        forall|r: int|
            0 <= r < v.runs.len() ==> (#[trigger] post.runs[r]).run_id == v.runs[r].run_id,
        v.records.len() <= post.records.len(),
        forall|i: int|
            0 <= i < v.records.len() ==> (#[trigger] post.records[i]).run_id == v.records[i].run_id
                && (post.records[i].message is User == v.records[i].message is User),
        forall|i: int|
            v.records.len() <= i < post.records.len() ==> knows_run(
                v,
                (#[trigger] post.records[i]).run_id,
            ),
    ensures
        records_belong_to_runs(post),
{
    reveal(records_belong_to_runs);
    assert forall|i: int| 0 <= i < post.records.len() implies knows_run(
        post,
        (#[trigger] post.records[i]).run_id,
    ) by {
        if i < v.records.len() {
            assert(v.records[i].run_id == post.records[i].run_id);
        }
        assert(knows_run(v, post.records[i].run_id));
        let r = choose|r: int|
            0 <= r < v.runs.len() && (#[trigger] v.runs[r]).run_id == post.records[i].run_id;
        assert(post.runs[r].run_id == post.records[i].run_id);
    }
    assert forall|r: int| 0 <= r < post.runs.len() implies exists|i: int|
        0 <= i < post.records.len() && (#[trigger] post.records[i]).run_id == (
        #[trigger] post.runs[r]).run_id && post.records[i].message is User by {
        assert(v.runs[r].run_id == post.runs[r].run_id);
        let i = choose|i: int|
            0 <= i < v.records.len() && (#[trigger] v.records[i]).run_id == v.runs[r].run_id
                && v.records[i].message is User;
        assert(post.records[i].run_id == v.records[i].run_id);
    }
}

/// Adding the active run's assistant record keeps the session valid.
proof fn lemma_new_assistant_keeps_valid(
    v: SessionView,
    content: Seq<char>,
    tool_calls: Seq<ToolCallView>,
)
    requires
        valid(v),
        active_run(v) is Some,
        current_exchange(v).assistant_message_id is None,
        v.next_message_id < u64::MAX,
        fresh_calls(v.records, tool_calls),
    ensures
        valid(with_new_assistant(v, content, tool_calls)),
{
    let post = with_new_assistant(v, content, tool_calls);
    let n = v.records.len() as int;
    let m = v.runs.len() - 1;
    let run_id = active_run(v)->0;
    let new = post.records[n];
    lemma_active_without_assistant(v);
    assert(v.runs.last() == v.runs[m]);
    assert(v.records.last() == v.records[n - 1]);
    assert(v.runs[m].exchanges.len() == 1) by {
        reveal(runs_match_exchanges);
    }
    assert forall|r: int| 0 <= r < m implies post.runs[r] == v.runs[r] by {}
    assert(post.runs[m].run_id == run_id);
    assert forall|r: int| 0 <= r <= m implies (#[trigger] post.runs[r]).run_id == v.runs[r].run_id
        && post.runs[r].terminal_state == v.runs[r].terminal_state by {}
    assert(identities_grow(post)) by {
        reveal(identities_grow);
    }
    assert(runs_match_exchanges(post)) by {
        reveal(runs_match_exchanges);
    }
    assert forall|r: int, i: int|
        0 <= r <= m && i < n && #[trigger] is_assistant_of(post.records, i, (
        #[trigger] post.runs[r]).run_id) implies r < m && is_assistant_of(
        v.records,
        i,
        v.runs[r].run_id,
    ) by {
        reveal(exchanges_name_assistants);
        assert(post.records[i] == v.records[i]);
        assert(is_assistant_of(v.records, i, v.runs[r].run_id));
    }
    assert forall|r: int|
        0 <= r <= m && #[trigger] is_assistant_of(post.records, n, post.runs[r].run_id) implies r
        == m by {
        reveal(identities_grow);
        assert(post.runs[r].run_id == post.runs[m].run_id);
    }
    assert(exchanges_name_assistants(post)) by {
        reveal(exchanges_name_assistants);
        assert forall|r: int|
            0 <= r < post.runs.len() && (
            #[trigger] post.runs[r]).exchanges[0].assistant_message_id is Some implies exists|
            i: int,
        | #[trigger]
            is_assistant_of(post.records, i, post.runs[r].run_id) && post.records[i].message_id
                == post.runs[r].exchanges[0].assistant_message_id->0 by {
            if r < m {
                let i = choose|i: int| #[trigger]
                    is_assistant_of(v.records, i, v.runs[r].run_id) && v.records[i].message_id
                        == v.runs[r].exchanges[0].assistant_message_id->0;
                assert(is_assistant_of(post.records, i, post.runs[r].run_id));
            } else {
                assert(is_assistant_of(post.records, n, post.runs[r].run_id));
            }
        }
    }
    assert(records_belong_to_runs(post)) by {
        assert(v.runs[m].run_id == run_id);
        lemma_records_still_belong(v, post);
    }
    assert(roles_in_order(post.records)) by {
        reveal(roles_in_order);
        assert forall|i: int|
            0 <= i < post.records.len() && (
            #[trigger] post.records[i]).message is ToolResult implies exists|a: int|
            a < i && #[trigger] is_assistant_of(post.records, a, post.records[i].run_id) by {
            let a = choose|a: int|
                a < i && #[trigger] is_assistant_of(v.records, a, v.records[i].run_id);
            assert(is_assistant_of(post.records, a, post.records[i].run_id));
        }
    }
    assert(visibility_follows_outcome(post)) by {
        reveal(visibility_follows_outcome);
    }
    assert(results_answer_calls(post.records)) by {
        reveal(results_answer_calls);
        assert forall|a: int|
            0 <= a < n && (#[trigger] v.records[a]).message is Assistant implies v.records[a].run_id
            != run_id by {
            reveal(exchanges_name_assistants);
            if v.records[a].run_id == run_id {
                assert(is_assistant_of(v.records, a, v.runs[m].run_id));
            }
        }
    }
    assert(completed_runs_are_resolved(post)) by {
        reveal(completed_runs_are_resolved);
    }
    assert(calls_are_unique(post.records)) by {
        reveal(calls_are_unique);
        assert(calls_in(new) == tool_calls);
        assert forall|i: int, k: int, l: int|
            0 <= i < n && 0 <= k < calls_in(post.records[i]).len() && 0 <= l < tool_calls.len()
                implies (#[trigger] calls_in(post.records[i])[k]).tool_call_id != (
        #[trigger] tool_calls[l]).tool_call_id by {
            assert(post.records[i] == v.records[i]);
            assert(!call_exists(v.records, tool_calls[l].tool_call_id));
            assert(calls_in(v.records[i])[k] == calls_in(post.records[i])[k]);
        }
    }
}

/// Extending the active run's assistant record keeps the session valid.
proof fn lemma_more_assistant_keeps_valid(
    v: SessionView,
    text: Seq<char>,
    tool_calls: Seq<ToolCallView>,
)
    requires
        valid(v),
        active_run(v) is Some,
        current_exchange(v).assistant_message_id is Some,
        resolved_calls(v.records, active_run(v)->0).len() == 0,
        fresh_calls(v.records, tool_calls),
    ensures
        valid(with_more_assistant(v, text, tool_calls)),
{
    let post = with_more_assistant(v, text, tool_calls);
    let run_id = active_run(v)->0;
    let m = v.runs.len() - 1;
    let a = lemma_active_with_assistant(v);
    let n = v.records.len() as int;
    assert(a == n - 1);
    assert(v.records.last() == v.records[a]);
    assert(post.records.len() == n);
    assert forall|i: int| 0 <= i < a implies post.records[i] == v.records[i] by {}
    assert(post.records[a].run_id == run_id);
    assert(post.records[a].message is Assistant);
    assert(calls_in(post.records[a]) == calls_in(v.records[a]) + tool_calls);
    assert forall|i: int, id: u64| #[trigger]
        is_assistant_of(post.records, i, id) == is_assistant_of(v.records, i, id) by {}
    assert(identities_grow(post)) by {
        reveal(identities_grow);
    }
    assert(runs_match_exchanges(post)) by {
        reveal(runs_match_exchanges);
    }
    assert(exchanges_name_assistants(post)) by {
        reveal(exchanges_name_assistants);
        assert forall|r: int|
            0 <= r < post.runs.len() && (
            #[trigger] post.runs[r]).exchanges[0].assistant_message_id is Some implies exists|
            i: int,
        | #[trigger]
            is_assistant_of(post.records, i, post.runs[r].run_id) && post.records[i].message_id
                == post.runs[r].exchanges[0].assistant_message_id->0 by {
            let i = choose|i: int| #[trigger]
                is_assistant_of(v.records, i, v.runs[r].run_id) && v.records[i].message_id
                    == v.runs[r].exchanges[0].assistant_message_id->0;
            assert(is_assistant_of(post.records, i, post.runs[r].run_id));
        }
    }
    assert(records_belong_to_runs(post)) by {
        lemma_records_still_belong(v, post);
    }
    assert(roles_in_order(post.records)) by {
        reveal(roles_in_order);
        assert forall|i: int|
            0 <= i < post.records.len() && (
            #[trigger] post.records[i]).message is ToolResult implies exists|b: int|
            b < i && #[trigger] is_assistant_of(post.records, b, post.records[i].run_id) by {
            assert(post.records[i] == v.records[i]);
            let b = choose|b: int|
                b < i && #[trigger] is_assistant_of(v.records, b, v.records[i].run_id);
            assert(is_assistant_of(post.records, b, post.records[i].run_id));
        }
    }
    assert(visibility_follows_outcome(post)) by {
        reveal(visibility_follows_outcome);
    }
    assert(results_answer_calls(post.records)) by {
        reveal(results_answer_calls);
    }
    assert(completed_runs_are_resolved(post)) by {
        reveal(completed_runs_are_resolved);
        reveal(identities_grow);
        assert(v.runs[m].terminal_state is Running);
        assert forall|r: int, b: int|
            0 <= r < post.runs.len() && #[trigger] is_assistant_of(post.records, b, (
            #[trigger] post.runs[r]).run_id) && post.runs[r].terminal_state is Completed implies {
            &&& b + calls_in(post.records[b]).len() < post.records.len()
            &&& post.records[b + calls_in(post.records[b]).len()].run_id == post.runs[r].run_id
        } by {
            assert(is_assistant_of(v.records, b, v.runs[r].run_id));
            assert(r < m);
            assert(v.runs[r].run_id < v.runs[m].run_id);
            assert(b < a);
        }
    }
    assert(calls_are_unique(post.records)) by {
        reveal(calls_are_unique);
        let old_calls = calls_in(v.records[a]);
        assert forall|i: int, k: int|
            0 <= i < n && 0 <= k < calls_in(post.records[i]).len() implies (
        #[trigger] calls_in(post.records[i])[k]) == if i == a && k >= old_calls.len() {
            tool_calls[k - old_calls.len()]
        } else {
            calls_in(v.records[i])[k]
        } by {}
        assert forall|i: int, k: int, l: int|
            0 <= i < n && 0 <= k < calls_in(v.records[i]).len() && 0 <= l < tool_calls.len()
                implies (#[trigger] calls_in(v.records[i])[k]).tool_call_id != (
        #[trigger] tool_calls[l]).tool_call_id by {
            assert(!call_exists(v.records, tool_calls[l].tool_call_id));
        }
        assert forall|i: int, k: int, j: int, l: int|
            0 <= i < n && 0 <= k < calls_in(post.records[i]).len() && 0 <= j < n && 0 <= l
                < calls_in(post.records[j]).len() && (#[trigger] calls_in(
                post.records[i],
            )[k]).tool_call_id == (#[trigger] calls_in(post.records[j])[l]).tool_call_id implies i
            == j && k == l by {
            let new_left = i == a && k >= old_calls.len();
            let new_right = j == a && l >= old_calls.len();
            if !new_left {
                assert(calls_in(v.records[i])[k] == calls_in(post.records[i])[k]);
            } else {
                assert(tool_calls[k - old_calls.len()] == calls_in(post.records[i])[k]);
            }
            if !new_right {
                assert(calls_in(v.records[j])[l] == calls_in(post.records[j])[l]);
            } else {
                assert(tool_calls[l - old_calls.len()] == calls_in(post.records[j])[l]);
            }
        }
    }
}

/// Replacing the latest run's usage keeps the session valid.
pub proof fn lemma_usage_keeps_valid(v: SessionView, run_id: u64, usage: Usage)
    requires
        valid(v),
        usage_step(v, run_id, usage) is Ok,
    ensures
        valid(usage_step(v, run_id, usage)->Ok_0),
{
    let post = usage_step(v, run_id, usage)->Ok_0;
    let m = v.runs.len() - 1;
    assert(v.runs.last() == v.runs[m]);
    assert(v.runs[m].exchanges.len() == 1) by {
        reveal(runs_match_exchanges);
    }
    assert forall|r: int| 0 <= r < m implies post.runs[r] == v.runs[r] by {}
    assert forall|r: int| 0 <= r <= m implies (#[trigger] post.runs[r]).run_id == v.runs[r].run_id
        && post.runs[r].terminal_state == v.runs[r].terminal_state
        && post.runs[r].exchanges[0].assistant_message_id
        == v.runs[r].exchanges[0].assistant_message_id by {}
    assert(identities_grow(post)) by {
        reveal(identities_grow);
    }
    assert(runs_match_exchanges(post)) by {
        reveal(runs_match_exchanges);
    }
    assert(exchanges_name_assistants(post)) by {
        reveal(exchanges_name_assistants);
    }
    assert(records_belong_to_runs(post)) by {
        lemma_records_still_belong(v, post);
    }
    assert(visibility_follows_outcome(post)) by {
        reveal(visibility_follows_outcome);
    }
    assert(completed_runs_are_resolved(post)) by {
        reveal(completed_runs_are_resolved);
    }
}

/// Recording a tool result keeps the session valid.
pub proof fn lemma_tool_result_keeps_valid(
    v: SessionView,
    run_id: u64,
    tool_call_id: Seq<char>,
    content: Seq<char>,
)
    requires
        valid(v),
        tool_result_step(v, run_id, tool_call_id, content) is Ok,
    ensures
        valid(tool_result_step(v, run_id, tool_call_id, content)->Ok_0),
{
    let post = tool_result_step(v, run_id, tool_call_id, content)->Ok_0;
    let n = v.records.len() as int;
    let m = v.runs.len() - 1;
    assert(v.runs.last() == v.runs[m]);
    if current_exchange(v).assistant_message_id is None {
        lemma_active_without_assistant(v);
    }
    let a = lemma_active_with_assistant(v);
    let declared = declared_calls(v.records, run_id);
    let resolved = resolved_calls(v.records, run_id);
    assert(resolved.len() < declared.len()) by {
        let k = choose|k: int| 0 <= k < declared.len() && declared[k] == tool_call_id;
        if resolved.len() == declared.len() {
            assert(resolved[k] == declared[k]);
        }
    }
    assert(calls_in(v.records[a])[n - a - 1].tool_call_id == tool_call_id);
    assert forall|i: int, id: u64| #[trigger]
        is_assistant_of(post.records, i, id) == is_assistant_of(v.records, i, id) by {}
    assert(identities_grow(post)) by {
        reveal(identities_grow);
        reveal(records_belong_to_runs);
        assert forall|i: int| 0 <= i < n implies (#[trigger] v.records[i]).run_id <= run_id by {
            assert(v.records[i].run_id <= v.records[n - 1].run_id);
        }
    }
    assert(runs_match_exchanges(post)) by {
        reveal(runs_match_exchanges);
    }
    assert(exchanges_name_assistants(post)) by {
        reveal(exchanges_name_assistants);
        assert forall|r: int|
            0 <= r < post.runs.len() && (
            #[trigger] post.runs[r]).exchanges[0].assistant_message_id is Some implies exists|
            i: int,
        | #[trigger]
            is_assistant_of(post.records, i, post.runs[r].run_id) && post.records[i].message_id
                == post.runs[r].exchanges[0].assistant_message_id->0 by {
            let i = choose|i: int| #[trigger]
                is_assistant_of(v.records, i, v.runs[r].run_id) && v.records[i].message_id
                    == v.runs[r].exchanges[0].assistant_message_id->0;
            assert(is_assistant_of(post.records, i, post.runs[r].run_id));
        }
    }
    assert(records_belong_to_runs(post)) by {
        assert(v.runs[m].run_id == run_id);
        lemma_records_still_belong(v, post);
    }
    assert(roles_in_order(post.records)) by {
        reveal(roles_in_order);
        assert forall|i: int|
            0 <= i < post.records.len() && (
            #[trigger] post.records[i]).message is ToolResult implies exists|b: int|
            b < i && #[trigger] is_assistant_of(post.records, b, post.records[i].run_id) by {
            if i < n {
                let b = choose|b: int|
                    b < i && #[trigger] is_assistant_of(v.records, b, v.records[i].run_id);
                assert(is_assistant_of(post.records, b, post.records[i].run_id));
            } else {
                assert(is_assistant_of(post.records, a, post.records[i].run_id));
            }
        }
    }
    assert(visibility_follows_outcome(post)) by {
        reveal(visibility_follows_outcome);
    }
    assert(results_answer_calls(post.records)) by {
        reveal(results_answer_calls);
        assert forall|b: int|
            0 <= b < n && (#[trigger] v.records[b]).message is Assistant && v.records[b].run_id
                == run_id implies b == a by {
            if b < a {
                assert(v.records[b].run_id < run_id || v.records[b].message is User);
            }
        }
    }
    assert(completed_runs_are_resolved(post)) by {
        reveal(completed_runs_are_resolved);
    }
    assert(calls_are_unique(post.records)) by {
        reveal(calls_are_unique);
        assert(calls_in(post.records[n]).len() == 0);
    }
}

/// Ending the latest run keeps the session valid, provided that a completed run has all its results
/// and that its assistant output is shown.
proof fn lemma_terminal_state_keeps_valid(v: SessionView, state: RunTerminalStateView)
    requires
        valid(v),
        active_run(v) is Some,
        !(state is Running),
        state is Completed ==> resolved_calls(v.records, active_run(v)->0).len() >= declared_calls(
            v.records,
            active_run(v)->0,
        ).len(),
    ensures
        valid(
            SessionView {
                records: if state is Completed {
                    with_assistant_shown(v.records, active_run(v)->0)
                } else {
                    v.records
                },
                ..with_terminal_state(v, state)
            },
        ),
{
    let run_id = active_run(v)->0;
    let post = SessionView {
        records: if state is Completed {
            with_assistant_shown(v.records, run_id)
        } else {
            v.records
        },
        ..with_terminal_state(v, state)
    };
    let m = v.runs.len() - 1;
    let n = v.records.len() as int;
    assert(v.runs.last() == v.runs[m]);
    assert(v.runs[m].exchanges.len() == 1) by {
        reveal(runs_match_exchanges);
    }
    assert forall|r: int| 0 <= r < m implies post.runs[r] == v.runs[r] by {}
    assert forall|r: int| 0 <= r <= m implies (#[trigger] post.runs[r]).run_id == v.runs[r].run_id
        && post.runs[r].exchanges[0].assistant_message_id
        == v.runs[r].exchanges[0].assistant_message_id by {}
    assert forall|i: int| 0 <= i < n implies (#[trigger] post.records[i]).message
        == v.records[i].message && post.records[i].run_id == v.records[i].run_id
        && post.records[i].message_id == v.records[i].message_id && calls_in(post.records[i])
        == calls_in(v.records[i]) && result_id(post.records[i]) == result_id(v.records[i]) by {}
    assert forall|i: int, id: u64| #[trigger]
        is_assistant_of(post.records, i, id) == is_assistant_of(v.records, i, id) by {}
    assert forall|r: int, i: int|
        0 <= r < m && #[trigger] is_assistant_of(post.records, i, (
        #[trigger] post.runs[r]).run_id) implies post.records[i] == v.records[i] by {
        reveal(identities_grow);
        assert(v.runs[r].run_id < v.runs[m].run_id);
    }
    assert(identities_grow(post)) by {
        reveal(identities_grow);
    }
    assert(runs_match_exchanges(post)) by {
        reveal(runs_match_exchanges);
    }
    assert(exchanges_name_assistants(post)) by {
        reveal(exchanges_name_assistants);
        assert forall|r: int|
            0 <= r < post.runs.len() && (
            #[trigger] post.runs[r]).exchanges[0].assistant_message_id is Some implies exists|
            i: int,
        | #[trigger]
            is_assistant_of(post.records, i, post.runs[r].run_id) && post.records[i].message_id
                == post.runs[r].exchanges[0].assistant_message_id->0 by {
            let i = choose|i: int| #[trigger]
                is_assistant_of(v.records, i, v.runs[r].run_id) && v.records[i].message_id
                    == v.runs[r].exchanges[0].assistant_message_id->0;
            assert(is_assistant_of(post.records, i, post.runs[r].run_id));
        }
    }
    assert(records_belong_to_runs(post)) by {
        lemma_records_still_belong(v, post);
    }
    assert(roles_in_order(post.records)) by {
        reveal(roles_in_order);
        assert forall|i: int|
            0 <= i < post.records.len() && (
            #[trigger] post.records[i]).message is ToolResult implies exists|b: int|
            b < i && #[trigger] is_assistant_of(post.records, b, post.records[i].run_id) by {
            let b = choose|b: int|
                b < i && #[trigger] is_assistant_of(v.records, b, v.records[i].run_id);
            assert(is_assistant_of(post.records, b, post.records[i].run_id));
        }
    }
    assert(visibility_follows_outcome(post)) by {
        reveal(visibility_follows_outcome);
        assert forall|r: int, i: int|
            0 <= r < post.runs.len() && #[trigger] is_assistant_of(post.records, i, (
            #[trigger] post.runs[r]).run_id) implies post.records[i].model_visible == (
        post.runs[r].terminal_state is Completed) by {
            assert(is_assistant_of(v.records, i, v.runs[r].run_id));
        }
    }
    assert(results_answer_calls(post.records)) by {
        reveal(results_answer_calls);
    }
    assert(completed_runs_are_resolved(post)) by {
        reveal(completed_runs_are_resolved);
        assert forall|r: int, b: int|
            0 <= r < post.runs.len() && #[trigger] is_assistant_of(post.records, b, (
            #[trigger] post.runs[r]).run_id) && post.runs[r].terminal_state is Completed implies {
            &&& b + calls_in(post.records[b]).len() < post.records.len()
            &&& post.records[b + calls_in(post.records[b]).len()].run_id == post.runs[r].run_id
        } by {
            assert(is_assistant_of(v.records, b, v.runs[r].run_id));
            if r == m {
                assert(current_exchange(v).assistant_message_id is Some) by {
                    reveal(exchanges_name_assistants);
                }
                let a = lemma_active_with_assistant(v);
                assert(a == b);
            }
        }
    }
    assert(calls_are_unique(post.records)) by {
        reveal(calls_are_unique);
        assert forall|i: int, k: int|
            0 <= i < n && 0 <= k < calls_in(post.records[i]).len() implies (
        #[trigger] calls_in(post.records[i])[k]) == calls_in(v.records[i])[k] by {}
    }
}

/// Appending a text delta keeps the session valid.
pub proof fn lemma_assistant_delta_keeps_valid(v: SessionView, run_id: u64, text: Seq<char>)
    requires
        valid(v),
        assistant_delta_step(v, run_id, text) is Ok,
    ensures
        valid((assistant_delta_step(v, run_id, text)->Ok_0).0),
{
    if text.len() > 0 {
        if current_exchange(v).assistant_message_id is Some {
            lemma_more_assistant_keeps_valid(v, text, Seq::empty());
        } else {
            lemma_new_assistant_keeps_valid(v, text, Seq::empty());
        }
    }
}

/// Appending a tool call keeps the session valid.
pub proof fn lemma_tool_call_keeps_valid(v: SessionView, run_id: u64, tool_call: ToolCallView)
    requires
        valid(v),
        tool_call_step(v, run_id, tool_call) is Ok,
    ensures
        valid(tool_call_step(v, run_id, tool_call)->Ok_0),
{
    if current_exchange(v).assistant_message_id is Some {
        lemma_more_assistant_keeps_valid(v, Seq::empty(), seq![tool_call]);
    } else {
        lemma_new_assistant_keeps_valid(v, Seq::empty(), seq![tool_call]);
    }
}

/// Finishing a run keeps the session valid.
pub proof fn lemma_finish_run_keeps_valid(
    v: SessionView,
    run_id: u64,
    outcome: CompletionOutcome,
)
    requires
        valid(v),
        finish_run_step(v, run_id, outcome) is Ok,
    ensures
        valid(finish_run_step(v, run_id, outcome)->Ok_0),
{
    lemma_terminal_state_keeps_valid(v, RunTerminalStateView::Completed(outcome));
}

/// Failing a run keeps the session valid.
pub proof fn lemma_fail_run_keeps_valid(
    v: SessionView,
    run_id: u64,
    category: FailureCategory,
    display_detail: Seq<char>,
)
    requires
        valid(v),
        fail_run_step(v, run_id, category, display_detail) is Ok,
    ensures
        valid(fail_run_step(v, run_id, category, display_detail)->Ok_0),
{
    let state = RunTerminalStateView::Failed(SessionFailureView { category, display_detail });
    lemma_terminal_state_keeps_valid(v, state);
    assert(with_terminal_state(v, state) == (SessionView {
        records: v.records,
        ..with_terminal_state(v, state)
    }));
}

/// Choosing another model keeps the session valid.
pub proof fn lemma_model_choice_keeps_valid(v: SessionView, model_id: Seq<char>)
    requires
        valid(v),
    ensures
        valid(SessionView { current_model_id: model_id, ..v }),
{
    let post = SessionView { current_model_id: model_id, ..v };
    reveal(identities_grow);
    reveal(runs_match_exchanges);
    reveal(exchanges_name_assistants);
    reveal(visibility_follows_outcome);
    reveal(completed_runs_are_resolved);
    lemma_records_still_belong(v, post);
}

/// A fault in the visible history of the first records stays the fault of the whole.
pub proof fn lemma_history_fault_stays(records: Seq<RecordView>, n: int)
    requires
        0 <= n <= records.len(),
    ensures
        history_scan(visible_messages(records.take(n))) is Err ==> history_scan(
            visible_messages(records),
        ) == history_scan(visible_messages(records.take(n))),
    decreases records.len() - n,
{
    if n < records.len() {
        lemma_history_fault_stays(records, n + 1);
        assert(records.take(n + 1).drop_last() =~= records.take(n));
        let before = visible_messages(records.take(n));
        assert(before.push(records.take(n + 1).last().message).drop_last() =~= before);
    } else {
        assert(records.take(n) =~= records);
    }
}

/// Moving the identity counters forward keeps the session valid.
pub proof fn lemma_later_counters_keep_valid(
    v: SessionView,
    next_run_id: u64,
    next_message_id: u64,
)
    requires
        valid(v),
        v.next_run_id <= next_run_id,
        v.next_message_id <= next_message_id,
    ensures
        valid(SessionView { next_run_id, next_message_id, ..v }),
{
    let post = SessionView { next_run_id, next_message_id, ..v };
    reveal(runs_match_exchanges);
    reveal(exchanges_name_assistants);
    reveal(visibility_follows_outcome);
    reveal(completed_runs_are_resolved);
    lemma_records_still_belong(v, post);
    assert(identities_grow(post)) by {
        reveal(identities_grow);
    }
}

/// A declared call of the active run that has no result yet is preceded by the awaited call.
pub proof fn lemma_awaited_call(v: SessionView, tool_call_id: Seq<char>)
    requires
        valid(v),
        active_run(v) is Some,
        declared_calls(v.records, active_run(v)->0).contains(tool_call_id),
        !resolved_calls(v.records, active_run(v)->0).contains(tool_call_id),
    ensures
        resolved_calls(v.records, active_run(v)->0).len() < declared_calls(
            v.records,
            active_run(v)->0,
        ).len(),
{
    let declared = declared_calls(v.records, active_run(v)->0);
    let resolved = resolved_calls(v.records, active_run(v)->0);
    if current_exchange(v).assistant_message_id is None {
        lemma_active_without_assistant(v);
    } else {
        let a = lemma_active_with_assistant(v);
        let k = choose|k: int| 0 <= k < declared.len() && declared[k] == tool_call_id;
        if resolved.len() == declared.len() {
            assert(resolved[k] == declared[k]);
        }
    }
}

} // verus!
