//! From keys to runtime commands.

use vstd::prelude::*;

use crate::runtime::{RuntimeCommand, RuntimeCommandView};
use crate::tui::app::{
    app_key_step, submitted, AppAction, AppActionView, AppState, AppView, RuntimeStatusView,
};
use crate::tui::keys::KeyEvent;
use crate::tui::model_picker::PickerView;

verus! {

/// What became of a command that was to be enqueued.
#[derive(Debug, Clone, Copy, PartialEq, Eq)]
pub enum EnqueueOutcome {
    Sent,
    Full,
    Closed,
}

/// What is said of a command that was not enqueued.
pub open spec fn enqueue_fault(outcome: EnqueueOutcome) -> Seq<char> {
    match outcome {
        EnqueueOutcome::Full => "runtime command queue is full"@,
        _ => "runtime command channel is closed"@,
    }
}

/// The command that an action asks for, if it asks for one.
pub open spec fn command_of(action: AppActionView) -> Option<RuntimeCommandView> {
    match action {
        AppActionView::Submit(submission) => Some(RuntimeCommandView::Submit(submission)),
        AppActionView::OpenModelPicker => Some(RuntimeCommandView::DiscoverModels),
        AppActionView::SelectModel(model_id) => Some(RuntimeCommandView::SelectModel(model_id)),
        AppActionView::Continue => None,
        AppActionView::Exit => None,
    }
}

/// The state after the command of an action was enqueued, or was not.
pub open spec fn settled(v: AppView, action: AppActionView, outcome: EnqueueOutcome) -> AppView {
    match action {
        AppActionView::Submit(submission) => if outcome is Sent {
            submitted(v, submission)
        } else {
            AppView { status: RuntimeStatusView::Error(enqueue_fault(outcome)), ..v }
        },
        AppActionView::OpenModelPicker => if outcome is Sent {
            v
        } else {
            AppView {
                picker: PickerView { error: Some(enqueue_fault(outcome)), ..v.picker },
                ..v
            }
        },
        AppActionView::SelectModel(model_id) => AppView {
            picker: if outcome is Sent {
                PickerView { pending_model_id: Some(model_id), error: None, ..v.picker }
            } else {
                PickerView {
                    pending_model_id: None,
                    error: Some(enqueue_fault(outcome)),
                    ..v.picker
                }
            },
            ..v
        },
        AppActionView::Continue => v,
        AppActionView::Exit => v,
    }
}

fn fault_text(outcome: EnqueueOutcome) -> (text: String)
    ensures
        text@ == enqueue_fault(outcome),
{
    match outcome {
        EnqueueOutcome::Full => "runtime command queue is full".to_owned(),
        _ => "runtime command channel is closed".to_owned(),
    }
}

/// The command that an action asks for, if it asks for one.
pub fn planned_command(action: &AppAction) -> (command: Option<RuntimeCommand>)
    ensures
        match command {
            Some(command) => command_of(action@) == Some(command@),
            None => command_of(action@) is None,
        },
{
    match action {
        AppAction::Submit(submission) => Some(RuntimeCommand::Submit(submission.clone())),
        AppAction::OpenModelPicker => Some(RuntimeCommand::DiscoverModels),
        AppAction::SelectModel(model_id) => Some(RuntimeCommand::SelectModel(model_id.clone())),
        AppAction::Continue => None,
        AppAction::Exit => None,
    }
}

/// Apply what became of the command of an action.
pub fn settle_action(app_state: &mut AppState, action: AppAction, outcome: EnqueueOutcome)
    requires
        old(app_state).wf(),
    ensures
        final(app_state).wf(),
        final(app_state)@ == settled(old(app_state)@, action@, outcome),
{
    let sent = match outcome {
        EnqueueOutcome::Sent => true,
        _ => false,
    };
    match action {
        AppAction::Submit(submission) => {
            if sent {
                app_state.accept_submission(submission);
            } else {
                app_state.reject_submission(fault_text(outcome));
            }
        },
        AppAction::OpenModelPicker => {
            if !sent {
                app_state.reject_model_picker_open(fault_text(outcome));
            }
        },
        AppAction::SelectModel(model_id) => {
            if sent {
                app_state.accept_model_selection(model_id);
            } else {
                app_state.reject_model_selection(fault_text(outcome));
            }
        },
        AppAction::Continue => {},
        AppAction::Exit => {},
    }
}

/// Handle a key and enqueue the command that it asks for with `enqueue`, which is called for that
/// command alone, and not at all where the key asks for none; the result says whether the application
/// goes on.
pub fn dispatch_action<Enqueue>(
    app_state: &mut AppState,
    key_event: KeyEvent,
    enqueue: Enqueue,
) -> (goes_on: bool) where Enqueue: FnOnce(RuntimeCommand) -> EnqueueOutcome
    requires
        old(app_state).wf(),
        forall|command: RuntimeCommand|
            command_of(app_key_step(old(app_state)@, key_event).1) == Some(command@)
                ==> #[trigger] call_requires(enqueue, (command,)),
    ensures
        final(app_state).wf(),
        ({
            let (handled, action) = app_key_step(old(app_state)@, key_event);
            &&& goes_on == !(action is Exit)
            &&& match command_of(action) {
                None => final(app_state)@ == handled,
                Some(wanted) => exists|command: RuntimeCommand, outcome: EnqueueOutcome|
                    {
                        &&& command@ == wanted
                        &&& #[trigger] call_ensures(enqueue, (command,), outcome)
                        &&& final(app_state)@ == settled(handled, action, outcome)
                    },
            }
        }),
{
    let action = app_state.handle_key(key_event);
    match planned_command(&action) {
        Some(command) => {
            let outcome = enqueue(command);
            settle_action(app_state, action, outcome);
            true
        },
        None => match action {
            AppAction::Exit => false,
            _ => true,
        },
    }
}

/// A command that is not enqueued loses nothing: draft, cursor, conversation and model stay.
pub proof fn lemma_rejected_command_loses_nothing(
    v: AppView,
    action: AppActionView,
    outcome: EnqueueOutcome,
)
    requires
        !(outcome is Sent),
    ensures
        ({
            let post = settled(v, action, outcome);
            &&& post.input == v.input
            &&& post.cursor == v.cursor
            &&& post.messages == v.messages
            &&& post.model_id == v.model_id
            &&& post.picker.open == v.picker.open
        }),
{
}

/// A submission that is enqueued becomes the last message, and the draft is empty for the next one.
pub proof fn lemma_accepted_submission_is_shown(v: AppView, submission: Seq<char>)
    requires
        submission.len() > 0,
        !(v.status is Responding),
    ensures
        ({
            let post = settled(v, AppActionView::Submit(submission), EnqueueOutcome::Sent);
            &&& post.messages.len() == v.messages.len() + 1
            &&& post.messages.drop_last() == v.messages
            &&& post.messages.last().content == submission
            &&& post.messages.last().role is User
            &&& post.input.len() == 0
            &&& post.cursor == 0
            &&& post.status is Responding
        }),
{
    let post = settled(v, AppActionView::Submit(submission), EnqueueOutcome::Sent);
    assert(post.messages.drop_last() =~= v.messages);
}

} // verus!
