//! Harness runtime and event flow.

pub mod turn_laws;

use vstd::prelude::*;

use crate::provider::openrouter::wire::metadata_views;
use crate::provider::{
    message_views, provider_error_text, stream_item, CompletionOutcome, ModelEvent, ModelEventView,
    ModelMessage, ModelMessageView, ModelMetadata, ModelMetadataView, ModelRequest,
    ModelRequestView, ProviderError, ProviderErrorView, Usage,
};
use crate::text::same_text;

verus! {

/// The commands accepted by the harness runtime.
#[derive(Debug, PartialEq, Eq)]
pub enum RuntimeCommand {
    Submit(String),
    DiscoverModels,
    SelectModel(String),
}

/// The mathematical form of a runtime command.
#[verifier::ext_equal]
pub enum RuntimeCommandView {
    Submit(Seq<char>),
    DiscoverModels,
    SelectModel(Seq<char>),
}

impl View for RuntimeCommand {
    type V = RuntimeCommandView;

    open spec fn view(&self) -> RuntimeCommandView {
        match *self {
            RuntimeCommand::Submit(input) => RuntimeCommandView::Submit(input@),
            RuntimeCommand::DiscoverModels => RuntimeCommandView::DiscoverModels,
            RuntimeCommand::SelectModel(model_id) => RuntimeCommandView::SelectModel(model_id@),
        }
    }
}

impl Clone for RuntimeCommand {
    fn clone(&self) -> (copy: Self)
        ensures
            copy == *self,
    {
        match self {
            RuntimeCommand::Submit(input) => RuntimeCommand::Submit(input.clone()),
            RuntimeCommand::DiscoverModels => RuntimeCommand::DiscoverModels,
            RuntimeCommand::SelectModel(model_id) => RuntimeCommand::SelectModel(model_id.clone()),
        }
    }
}

/// Events emitted by the harness runtime.
#[derive(Debug, PartialEq, Eq)]
pub enum HarnessEvent {
    ResponseStarted,
    AssistantDelta(String),
    Usage(Usage),
    /// The response is complete.
    ResponseFinished,
    /// The response ended at the model's output limit.
    ResponseTruncated,
    Error(String),
    CatalogLoaded(Vec<ModelMetadata>),
    CatalogFailed(String),
    ModelSelected(ModelMetadata),
    ModelSelectionFailed(String),
}

/// The mathematical form of a harness event.
#[verifier::ext_equal]
pub enum HarnessEventView {
    ResponseStarted,
    AssistantDelta(Seq<char>),
    Usage(Usage),
    ResponseFinished,
    ResponseTruncated,
    Error(Seq<char>),
    CatalogLoaded(Seq<ModelMetadataView>),
    CatalogFailed(Seq<char>),
    ModelSelected(ModelMetadataView),
    ModelSelectionFailed(Seq<char>),
}

impl View for HarnessEvent {
    type V = HarnessEventView;

    open spec fn view(&self) -> HarnessEventView {
        match *self {
            HarnessEvent::ResponseStarted => HarnessEventView::ResponseStarted,
            HarnessEvent::AssistantDelta(text) => HarnessEventView::AssistantDelta(text@),
            HarnessEvent::Usage(usage) => HarnessEventView::Usage(usage),
            HarnessEvent::ResponseFinished => HarnessEventView::ResponseFinished,
            HarnessEvent::ResponseTruncated => HarnessEventView::ResponseTruncated,
            HarnessEvent::Error(error) => HarnessEventView::Error(error@),
            HarnessEvent::CatalogLoaded(models) => HarnessEventView::CatalogLoaded(
                metadata_views(models@),
            ),
            HarnessEvent::CatalogFailed(error) => HarnessEventView::CatalogFailed(error@),
            HarnessEvent::ModelSelected(metadata) => HarnessEventView::ModelSelected(metadata@),
            HarnessEvent::ModelSelectionFailed(error) => HarnessEventView::ModelSelectionFailed(
                error@,
            ),
        }
    }
}

impl Clone for HarnessEvent {
    fn clone(&self) -> (copy: Self)
        ensures
            copy@ == self@,
    {
        match self {
            HarnessEvent::ResponseStarted => HarnessEvent::ResponseStarted,
            HarnessEvent::AssistantDelta(text) => HarnessEvent::AssistantDelta(text.clone()),
            HarnessEvent::Usage(usage) => HarnessEvent::Usage(*usage),
            HarnessEvent::ResponseFinished => HarnessEvent::ResponseFinished,
            HarnessEvent::ResponseTruncated => HarnessEvent::ResponseTruncated,
            HarnessEvent::Error(error) => HarnessEvent::Error(error.clone()),
            HarnessEvent::CatalogLoaded(models) => HarnessEvent::CatalogLoaded(models.clone()),
            HarnessEvent::CatalogFailed(error) => HarnessEvent::CatalogFailed(error.clone()),
            HarnessEvent::ModelSelected(metadata) => HarnessEvent::ModelSelected(metadata.clone()),
            HarnessEvent::ModelSelectionFailed(error) => HarnessEvent::ModelSelectionFailed(
                error.clone(),
            ),
        }
    }
}

/// The views of a list of harness events, in order.
pub open spec fn event_views(events: Seq<HarnessEvent>) -> Seq<HarnessEventView> {
    events.map_values(|event: HarnessEvent| event@)
}

// ---------------------------------------------------------------------------
// One turn
// ---------------------------------------------------------------------------

/// The request of one turn: the user's text, and nothing of earlier turns.
pub fn turn_request(model_id: &str, input: String) -> (request: ModelRequest)
    ensures
        request@ == (ModelRequestView {
            model_id: model_id@,
            messages: seq![ModelMessageView::User { content: input@ }],
        }),
{
    let mut messages: Vec<ModelMessage> = Vec::new();
    messages.push(ModelMessage::User { content: input });
    assert(message_views(messages@) =~= seq![ModelMessageView::User { content: input@ }]);
    ModelRequest { model_id: model_id.to_owned(), messages }
}

/// What arrives from the provider during a turn.
pub enum TurnInput {
    /// The provider could not start a stream.
    SetupFailed(ProviderError),
    /// The stream ended.
    Ended,
    /// The stream handed on an item.
    Item(Result<ModelEvent, ProviderError>),
}

/// The mathematical form of a turn input.
#[verifier::ext_equal]
pub enum TurnInputView {
    SetupFailed(ProviderErrorView),
    Ended,
    Item(Result<ModelEventView, ProviderErrorView>),
}

impl View for TurnInput {
    type V = TurnInputView;

    open spec fn view(&self) -> TurnInputView {
        match *self {
            TurnInput::SetupFailed(error) => TurnInputView::SetupFailed(error@),
            TurnInput::Ended => TurnInputView::Ended,
            TurnInput::Item(item) => TurnInputView::Item(stream_item(item)),
        }
    }
}

/// The state of one turn.
#[derive(Debug, Clone, Copy, PartialEq, Eq)]
pub struct Turn {
    pub response_started: bool,
    pub finished: bool,
}

/// The end of a turn with one last event.
pub open spec fn turn_ends(turn: Turn, event: HarnessEventView) -> (Turn, Seq<HarnessEventView>) {
    (Turn { finished: true, ..turn }, seq![event])
}

/// What one input does to a turn, and the events that it gives.
pub open spec fn turn_step(turn: Turn, input: TurnInputView) -> (Turn, Seq<HarnessEventView>) {
    if turn.finished {
        (turn, Seq::empty())
    } else {
        match input {
            TurnInputView::SetupFailed(error) => turn_ends(
                turn,
                HarnessEventView::Error(provider_error_text(error)),
            ),
            TurnInputView::Ended => turn_ends(
                turn,
                HarnessEventView::Error("provider stream ended before Done"@),
            ),
            TurnInputView::Item(Err(error)) => turn_ends(
                turn,
                HarnessEventView::Error(provider_error_text(error)),
            ),
            TurnInputView::Item(Ok(event)) => match event {
                ModelEventView::TextDelta(text) => if text.len() == 0 {
                    (turn, Seq::empty())
                } else if turn.response_started {
                    (turn, seq![HarnessEventView::AssistantDelta(text)])
                } else {
                    (
                        Turn { response_started: true, ..turn },
                        seq![
                            HarnessEventView::ResponseStarted,
                            HarnessEventView::AssistantDelta(text),
                        ],
                    )
                },
                ModelEventView::Finished(CompletionOutcome::Complete) => turn_ends(
                    turn,
                    HarnessEventView::ResponseFinished,
                ),
                ModelEventView::Finished(CompletionOutcome::LengthLimited) => turn_ends(
                    turn,
                    HarnessEventView::ResponseTruncated,
                ),
                ModelEventView::ReasoningDelta(_) => (turn, Seq::empty()),
                ModelEventView::ToolCall(_) => (turn, Seq::empty()),
                ModelEventView::Usage(_) => (turn, Seq::empty()),
            },
        }
    }
}

/// A turn that nothing has happened in.
pub open spec fn new_turn() -> Turn {
    Turn { response_started: false, finished: false }
}

impl Turn {
    pub fn new() -> (turn: Self)
        ensures
            turn == new_turn(),
    {
        Turn { response_started: false, finished: false }
    }

    fn end(&mut self, event: HarnessEvent) -> (events: Vec<HarnessEvent>)
        ensures
            (*final(self), event_views(events@)) == turn_ends(*old(self), event@),
    {
        self.finished = true;
        let mut events: Vec<HarnessEvent> = Vec::new();
        events.push(event);
        assert(event_views(events@) =~= seq![event@]);
        events
    }

    /// Take in what arrived and give the events that follow from it, in order. Nothing follows once
    /// the turn is finished.
    pub fn advance(&mut self, input: TurnInput) -> (events: Vec<HarnessEvent>)
        ensures
            (*final(self), event_views(events@)) == turn_step(*old(self), input@),
    {
        let mut events: Vec<HarnessEvent> = Vec::new();
        assert(event_views(events@) =~= Seq::empty());
        if self.finished {
            return events;
        }
        let event = match input {
            TurnInput::SetupFailed(error) => {
                return self.end(HarnessEvent::Error(error.to_string()));
            },
            TurnInput::Ended => {
                return self.end(
                    HarnessEvent::Error("provider stream ended before Done".to_owned()),
                );
            },
            TurnInput::Item(Err(error)) => {
                return self.end(HarnessEvent::Error(error.to_string()));
            },
            TurnInput::Item(Ok(event)) => event,
        };
        match event {
            ModelEvent::TextDelta(text) => {
                if text.as_str().unicode_len() > 0 {
                    if !self.response_started {
                        events.push(HarnessEvent::ResponseStarted);
                        self.response_started = true;
                    }
                    events.push(HarnessEvent::AssistantDelta(text));
                    assert(event_views(events@) =~= turn_step(*old(self), input@).1);
                }
                events
            },
            ModelEvent::Finished(CompletionOutcome::Complete) => {
                self.end(HarnessEvent::ResponseFinished)
            },
            ModelEvent::Finished(CompletionOutcome::LengthLimited) => {
                self.end(HarnessEvent::ResponseTruncated)
            },
            ModelEvent::ReasoningDelta(_) => events,
            ModelEvent::ToolCall(_) => events,
            ModelEvent::Usage(_) => events,
        }
    }
}

/// What the runtime does after a turn.
#[derive(Debug, Clone, Copy, PartialEq, Eq)]
pub enum StreamOutcome {
    Continue,
    Exit,
}

/// What follows once the events of an input were handed out: the runtime exits when nobody receives
/// them, goes on with the next command when the turn is finished, and else reads on.
pub fn after_delivery(turn: &Turn, delivered: bool) -> (outcome: Option<StreamOutcome>)
    ensures
        outcome == if !delivered {
            Some(StreamOutcome::Exit)
        } else if turn.finished {
            Some(StreamOutcome::Continue)
        } else {
            None
        },
{
    if !delivered {
        Some(StreamOutcome::Exit)
    } else if turn.finished {
        Some(StreamOutcome::Continue)
    } else {
        None
    }
}

// ---------------------------------------------------------------------------
// What a whole turn gives
// ---------------------------------------------------------------------------

/// The state and all events after a series of inputs.
pub open spec fn turn_run(turn: Turn, inputs: Seq<TurnInputView>) -> (Turn, Seq<HarnessEventView>)
    decreases inputs.len(),
{
    if inputs.len() == 0 {
        (turn, Seq::empty())
    } else {
        let (before, events) = turn_run(turn, inputs.drop_last());
        let (after, more) = turn_step(before, inputs.last());
        (after, events + more)
    }
}

/// Whether an event ends a turn.
pub open spec fn is_turn_end(event: HarnessEventView) -> bool {
    event is ResponseFinished || event is ResponseTruncated || event is Error
}

/// The events of an unfinished turn: none before the response starts, then its start and after it
/// nothing but text that is not empty.
pub open spec fn is_open_turn(turn: Turn, events: Seq<HarnessEventView>) -> bool {
    if turn.response_started {
        &&& events.len() > 1
        &&& events[0] is ResponseStarted
        &&& forall|i: int|
            1 <= i < events.len() ==> (#[trigger] events[i]) is AssistantDelta
                && events[i]->AssistantDelta_0.len() > 0
    } else {
        events.len() == 0
    }
}

/// A turn announces its response before any text, hands on text until it ends, and ends with exactly
/// one event; nothing comes after that.
pub proof fn lemma_turn_shape(inputs: Seq<TurnInputView>)
    ensures
        ({
            let (turn, events) = turn_run(new_turn(), inputs);
            if turn.finished {
                &&& events.len() > 0
                &&& is_turn_end(events.last())
                &&& is_open_turn(turn, events.drop_last())
            } else {
                is_open_turn(turn, events)
            }
        }),
    decreases inputs.len(),
{
    if inputs.len() > 0 {
        lemma_turn_shape(inputs.drop_last());
        let (before, events) = turn_run(new_turn(), inputs.drop_last());
        let (after, more) = turn_step(before, inputs.last());
        let all = events + more;
        if more.len() == 0 {
            assert(all =~= events);
        } else if after.finished {
            assert(all.drop_last() =~= events);
            assert(all.last() == more[0]);
        } else if more.len() == 1 {
            assert(all[all.len() - 1] == more[0]);
            assert forall|i: int| 1 <= i < all.len() implies (#[trigger] all[i]) is AssistantDelta
                && all[i]->AssistantDelta_0.len() > 0 by {
                if i < events.len() {
                    assert(all[i] == events[i]);
                }
            }
        } else {
            assert(all[0] == more[0] && all[1] == more[1]);
        }
    }
}

/// The assistant text among these events, in order.
pub open spec fn events_text(events: Seq<HarnessEventView>) -> Seq<char>
    decreases events.len(),
{
    if events.len() == 0 {
        Seq::empty()
    } else {
        match events.last() {
            HarnessEventView::AssistantDelta(text) => events_text(events.drop_last()) + text,
            _ => events_text(events.drop_last()),
        }
    }
}

/// The text among these inputs, in order.
pub open spec fn inputs_text(inputs: Seq<TurnInputView>) -> Seq<char>
    decreases inputs.len(),
{
    if inputs.len() == 0 {
        Seq::empty()
    } else {
        match inputs.last() {
            TurnInputView::Item(Ok(ModelEventView::TextDelta(text))) => inputs_text(
                inputs.drop_last(),
            ) + text,
            _ => inputs_text(inputs.drop_last()),
        }
    }
}

/// Until a turn ends, the text that it has handed on is the text that the provider gave, in order:
/// nothing is dropped, doubled or moved.
pub proof fn lemma_turn_keeps_text(inputs: Seq<TurnInputView>)
    requires
        !turn_run(new_turn(), inputs).0.finished,
    ensures
        events_text(turn_run(new_turn(), inputs).1) == inputs_text(inputs),
    decreases inputs.len(),
{
    if inputs.len() > 0 {
        let (before, events) = turn_run(new_turn(), inputs.drop_last());
        lemma_turn_keeps_text(inputs.drop_last());
        let (after, more) = turn_step(before, inputs.last());
        let all = events + more;
        if more.len() == 0 {
            assert(all =~= events);
            assert(inputs_text(inputs) =~= inputs_text(inputs.drop_last()));
        } else if more.len() == 1 {
            assert(all.drop_last() =~= events);
        } else {
            assert(all.last() == more[1]);
            assert(all.drop_last().drop_last() =~= events);
            assert(all.drop_last().last() == more[0]);
            assert(events_text(all.drop_last()) == events_text(events));
        }
    }
}

/// The text of a turn, once the provider has said that its response is over, is the text that the
/// provider gave, in order.
pub proof fn lemma_finished_turn_keeps_text(
    inputs: Seq<TurnInputView>,
    outcome: CompletionOutcome,
)
    requires
        !turn_run(new_turn(), inputs).0.finished,
    ensures
        ({
            let finish = TurnInputView::Item(Ok(ModelEventView::Finished(outcome)));
            events_text(turn_run(new_turn(), inputs.push(finish)).1) == inputs_text(inputs)
        }),
{
    let finish = TurnInputView::Item(Ok(ModelEventView::Finished(outcome)));
    lemma_turn_keeps_text(inputs);
    let (before, events) = turn_run(new_turn(), inputs);
    let more = turn_step(before, finish).1;
    assert(inputs.push(finish).drop_last() =~= inputs);
    assert((events + more).drop_last() =~= events);
    assert((events + more).last() == more[0]);
}

/// A turn always ends when the stream ends.
pub proof fn lemma_turn_ends_with_stream(turn: Turn)
    ensures
        turn_step(turn, TurnInputView::Ended).0.finished,
{
}

// ---------------------------------------------------------------------------
// The model in use
// ---------------------------------------------------------------------------

/// The model that the runtime sends requests to, and the models it can be told to use.
#[derive(Debug, PartialEq, Eq)]
pub struct ModelChoice {
    model_id: String,
    catalog: Vec<ModelMetadata>,
}

/// The mathematical form of a model choice.
#[verifier::ext_equal]
pub struct ModelChoiceView {
    pub model_id: Seq<char>,
    pub catalog: Seq<ModelMetadataView>,
}

impl View for ModelChoice {
    type V = ModelChoiceView;

    closed spec fn view(&self) -> ModelChoiceView {
        ModelChoiceView { model_id: self.model_id@, catalog: metadata_views(self.catalog@) }
    }
}

/// What is said of a model that the catalog does not have.
pub open spec fn unknown_model(model_id: Seq<char>) -> HarnessEventView {
    HarnessEventView::ModelSelectionFailed(
        provider_error_text(ProviderErrorView::UnknownModel { model_id }),
    )
}

/// Position `i` holds the first model of the catalog with this identity.
pub open spec fn is_first_with_id(
    catalog: Seq<ModelMetadataView>,
    i: int,
    model_id: Seq<char>,
) -> bool {
    &&& 0 <= i < catalog.len()
    &&& catalog[i].model_id == model_id
    &&& forall|k: int| 0 <= k < i ==> (#[trigger] catalog[k]).model_id != model_id
}

impl ModelChoice {
    /// The choice of this model, before any catalog is known.
    pub fn new(model_id: String) -> (choice: Self)
        ensures
            choice@ == (ModelChoiceView { model_id: model_id@, catalog: Seq::empty() }),
    {
        let choice = ModelChoice { model_id, catalog: Vec::new() };
        assert(choice@.catalog =~= Seq::empty());
        choice
    }

    pub fn model_id(&self) -> (model_id: &str)
        ensures
            model_id@ == self@.model_id,
    {
        self.model_id.as_str()
    }

    /// Take in the outcome of model discovery and announce it; a failure keeps the known catalog.
    pub fn take_catalog(&mut self, outcome: Result<Vec<ModelMetadata>, ProviderError>) -> (event:
        HarnessEvent)
        ensures
            match outcome {
                Ok(models) => {
                    &&& final(self)@ == (ModelChoiceView {
                        catalog: metadata_views(models@),
                        ..old(self)@
                    })
                    &&& event@ == HarnessEventView::CatalogLoaded(metadata_views(models@))
                },
                Err(error) => {
                    &&& final(self)@ == old(self)@
                    &&& event@ == HarnessEventView::CatalogFailed(provider_error_text(error@))
                },
            },
    {
        match outcome {
            Ok(models) => {
                let copy = models.clone();
                self.catalog = models;
                HarnessEvent::CatalogLoaded(copy)
            },
            Err(error) => HarnessEvent::CatalogFailed(error.to_string()),
        }
    }

    /// Use another model from the catalog and announce it; a model that the catalog does not have is
    /// refused, and the choice stays.
    pub fn select_model(&mut self, model_id: String) -> (event: HarnessEvent)
        ensures
            if exists|i: int| is_first_with_id(old(self)@.catalog, i, model_id@) {
                &&& final(self)@ == (ModelChoiceView { model_id: model_id@, ..old(self)@ })
                &&& exists|i: int| #[trigger]
                    is_first_with_id(old(self)@.catalog, i, model_id@) && event@
                        == HarnessEventView::ModelSelected(old(self)@.catalog[i])
            } else {
                &&& final(self)@ == old(self)@
                &&& event@ == unknown_model(model_id@)
            },
            event@ is ModelSelected <==> exists|i: int|
                0 <= i < old(self)@.catalog.len() && (#[trigger] old(self)@.catalog[i]).model_id
                    == model_id@,
            event@ matches HarnessEventView::ModelSelected(metadata) ==> metadata.model_id
                == model_id@ && old(self)@.catalog.contains(metadata) && final(self)@.model_id
                == model_id@,
    {
        let ghost catalog = self@.catalog;
        let mut i: usize = 0;
        while i < self.catalog.len()
            invariant
                self@ == old(self)@,
                catalog == self@.catalog,
                i <= self.catalog@.len(),
                forall|k: int| 0 <= k < i ==> (#[trigger] catalog[k]).model_id != model_id@,
            decreases self.catalog@.len() - i,
        {
            assert(catalog[i as int] == self.catalog@[i as int]@);
            if same_text(self.catalog[i].model_id.as_str(), model_id.as_str()) {
                assert(is_first_with_id(catalog, i as int, model_id@));
                let metadata = self.catalog[i].clone();
                self.model_id = model_id;
                return HarnessEvent::ModelSelected(metadata);
            }
            i += 1;
        }
        HarnessEvent::ModelSelectionFailed(ProviderError::UnknownModel { model_id }.to_string())
    }
}

} // verus!
