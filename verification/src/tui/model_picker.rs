//! The model picker: search, order and selection of models.

use vstd::prelude::*;

use crate::provider::openrouter::wire::metadata_views;
use crate::provider::{ModelMetadata, ModelMetadataView};
use crate::text::{
    comes_before, contains_text, is_control, is_control_char, lowercase, occurs, opt_str, opt_text,
    same_text, string_of_range, chars_of, text_before, to_lowercase,
};
use crate::tui::keys::{no_modifiers, KeyCode, KeyEvent};

verus! {

/// The locally projected state of runtime model discovery.
#[derive(Debug, PartialEq, Eq)]
pub enum CatalogState {
    Loading,
    Loaded(Vec<ModelMetadata>),
    Failed(String),
}

/// The mathematical form of the catalog state.
#[verifier::ext_equal]
pub enum CatalogStateView {
    Loading,
    Loaded(Seq<ModelMetadataView>),
    Failed(Seq<char>),
}

impl View for CatalogState {
    type V = CatalogStateView;

    open spec fn view(&self) -> CatalogStateView {
        match *self {
            CatalogState::Loading => CatalogStateView::Loading,
            CatalogState::Loaded(models) => CatalogStateView::Loaded(metadata_views(models@)),
            CatalogState::Failed(error) => CatalogStateView::Failed(error@),
        }
    }
}

impl Clone for CatalogState {
    fn clone(&self) -> (copy: Self)
        ensures
            copy@ == self@,
    {
        match self {
            CatalogState::Loading => CatalogState::Loading,
            CatalogState::Loaded(models) => CatalogState::Loaded(models.clone()),
            CatalogState::Failed(error) => CatalogState::Failed(error.clone()),
        }
    }
}

/// The action produced by the model picker key handler.
#[derive(Debug, PartialEq, Eq)]
pub enum ModelPickerAction {
    Continue,
    SelectModel(String),
}

/// The mathematical form of a picker action.
#[verifier::ext_equal]
pub enum ModelPickerActionView {
    Continue,
    SelectModel(Seq<char>),
}

impl View for ModelPickerAction {
    type V = ModelPickerActionView;

    open spec fn view(&self) -> ModelPickerActionView {
        match *self {
            ModelPickerAction::Continue => ModelPickerActionView::Continue,
            ModelPickerAction::SelectModel(model_id) => ModelPickerActionView::SelectModel(
                model_id@,
            ),
        }
    }
}

/// State and behavior for the independently composed model picker modal.
#[derive(Debug, PartialEq, Eq)]
pub struct ModelPickerState {
    open: bool,
    catalog_state: CatalogState,
    query: String,
    active_row: usize,
    pending_model_id: Option<String>,
    error: Option<String>,
}

/// The mathematical form of the picker.
#[verifier::ext_equal]
pub struct PickerView {
    pub open: bool,
    pub catalog: CatalogStateView,
    pub query: Seq<char>,
    pub active_row: usize,
    pub pending_model_id: Option<Seq<char>>,
    pub error: Option<Seq<char>>,
}

impl View for ModelPickerState {
    type V = PickerView;

    closed spec fn view(&self) -> PickerView {
        PickerView {
            open: self.open,
            catalog: self.catalog_state@,
            query: self.query@,
            active_row: self.active_row,
            pending_model_id: opt_text(self.pending_model_id),
            error: opt_text(self.error),
        }
    }
}

impl Clone for ModelPickerState {
    fn clone(&self) -> (copy: Self)
        ensures
            copy@ == self@,
    {
        ModelPickerState {
            open: self.open,
            catalog_state: self.catalog_state.clone(),
            query: self.query.clone(),
            active_row: self.active_row,
            pending_model_id: match &self.pending_model_id {
                Some(model_id) => Some(model_id.clone()),
                None => None,
            },
            error: match &self.error {
                Some(error) => Some(error.clone()),
                None => None,
            },
        }
    }
}

// ---------------------------------------------------------------------------
// Search and order
// ---------------------------------------------------------------------------

/// Whether a search finds a model: by its name or its identity, whatever the case of letters.
pub open spec fn matches_query(model: ModelMetadataView, query: Seq<char>) -> bool {
    ||| lowercase(query).len() == 0
    ||| occurs(lowercase(model.display_name), lowercase(query))
    ||| occurs(lowercase(model.model_id), lowercase(query))
}

/// Whether model `a` is listed before model `b`: the current model first, then by name and identity
/// in lower case, then by name and identity as they are.
pub open spec fn listed_before(
    a: ModelMetadataView,
    b: ModelMetadataView,
    current_model_id: Seq<char>,
) -> bool {
    let a_is_current = a.model_id == current_model_id;
    let b_is_current = b.model_id == current_model_id;
    let a_name = lowercase(a.display_name);
    let b_name = lowercase(b.display_name);
    let a_id = lowercase(a.model_id);
    let b_id = lowercase(b.model_id);
    if a_is_current != b_is_current {
        a_is_current
    } else if a_name != b_name {
        text_before(a_name, b_name)
    } else if a_id != b_id {
        text_before(a_id, b_id)
    } else if a.display_name != b.display_name {
        text_before(a.display_name, b.display_name)
    } else {
        text_before(a.model_id, b.model_id)
    }
}

/// An ordered list with one more model, behind the models that it is not listed before.
pub open spec fn with_row(
    rows: Seq<ModelMetadataView>,
    model: ModelMetadataView,
    current_model_id: Seq<char>,
) -> Seq<ModelMetadataView>
    decreases rows.len(),
{
    if rows.len() > 0 && listed_before(model, rows.last(), current_model_id) {
        with_row(rows.drop_last(), model, current_model_id).push(rows.last())
    } else {
        rows.push(model)
    }
}

/// The models that a search finds, in the order of the list; models that compare equal stay in
/// catalog order.
pub open spec fn found_models(
    models: Seq<ModelMetadataView>,
    query: Seq<char>,
    current_model_id: Seq<char>,
) -> Seq<ModelMetadataView>
    decreases models.len(),
{
    if models.len() == 0 {
        Seq::empty()
    } else {
        let before = found_models(models.drop_last(), query, current_model_id);
        if matches_query(models.last(), query) {
            with_row(before, models.last(), current_model_id)
        } else {
            before
        }
    }
}

/// The rows of the picker: nothing until a catalog is loaded.
pub open spec fn picker_rows(v: PickerView, current_model_id: Seq<char>) -> Seq<ModelMetadataView> {
    match v.catalog {
        CatalogStateView::Loaded(models) => found_models(models, v.query, current_model_id),
        _ => Seq::empty(),
    }
}

/// What the order of a model depends on.
struct RowKey {
    is_current: bool,
    lower_name: String,
    lower_id: String,
}

spec fn is_key_of(key: RowKey, model: ModelMetadataView, current_model_id: Seq<char>) -> bool {
    &&& key.is_current == (model.model_id == current_model_id)
    &&& key.lower_name@ == lowercase(model.display_name)
    &&& key.lower_id@ == lowercase(model.model_id)
}

fn row_key(model: &ModelMetadata, current_model_id: &str) -> (key: RowKey)
    ensures
        is_key_of(key, model@, current_model_id@),
{
    RowKey {
        is_current: same_text(model.model_id.as_str(), current_model_id),
        lower_name: to_lowercase(model.display_name.as_str()),
        lower_id: to_lowercase(model.model_id.as_str()),
    }
}

fn is_listed_before(
    a: &ModelMetadata,
    a_key: &RowKey,
    b: &ModelMetadata,
    b_key: &RowKey,
    Ghost(current_model_id): Ghost<Seq<char>>,
) -> (r: bool)
    requires
        is_key_of(*a_key, a@, current_model_id),
        is_key_of(*b_key, b@, current_model_id),
    ensures
        r == listed_before(a@, b@, current_model_id),
{
    if a_key.is_current != b_key.is_current {
        a_key.is_current
    } else if !same_text(a_key.lower_name.as_str(), b_key.lower_name.as_str()) {
        comes_before(a_key.lower_name.as_str(), b_key.lower_name.as_str())
    } else if !same_text(a_key.lower_id.as_str(), b_key.lower_id.as_str()) {
        comes_before(a_key.lower_id.as_str(), b_key.lower_id.as_str())
    } else if !same_text(a.display_name.as_str(), b.display_name.as_str()) {
        comes_before(a.display_name.as_str(), b.display_name.as_str())
    } else {
        comes_before(a.model_id.as_str(), b.model_id.as_str())
    }
}

fn key_matches(key: &RowKey, lower_query: &str) -> (r: bool)
    ensures
        r == (lower_query@.len() == 0 || occurs(key.lower_name@, lower_query@) || occurs(
            key.lower_id@,
            lower_query@,
        )),
{
    lower_query.unicode_len() == 0 || contains_text(key.lower_name.as_str(), lower_query)
        || contains_text(key.lower_id.as_str(), lower_query)
}

/// Where a row goes: behind position `p - 1`, and before all rows that it is listed before.
proof fn lemma_row_position(
    rows: Seq<ModelMetadataView>,
    model: ModelMetadataView,
    current_model_id: Seq<char>,
    p: int,
)
    requires
        0 <= p <= rows.len(),
        forall|i: int|
            p <= i < rows.len() ==> listed_before(model, #[trigger] rows[i], current_model_id),
        p > 0 ==> !listed_before(model, rows[p - 1], current_model_id),
    ensures
        with_row(rows, model, current_model_id) == rows.insert(p, model),
    decreases rows.len(),
{
    if p < rows.len() {
        let shorter = rows.drop_last();
        assert(rows.last() == rows[rows.len() - 1]);
        assert forall|i: int| p <= i < shorter.len() implies listed_before(
            model,
            #[trigger] shorter[i],
            current_model_id,
        ) by {
            assert(shorter[i] == rows[i]);
        }
        lemma_row_position(shorter, model, current_model_id, p);
        assert(shorter.insert(p, model).push(rows.last()) =~= rows.insert(p, model));
    } else {
        assert(rows.push(model) =~= rows.insert(p, model));
        if rows.len() > 0 {
            assert(rows.last() == rows[p - 1]);
        }
    }
}

/// The models at these positions, in this order.
spec fn rows_at(models: Seq<ModelMetadataView>, order: Seq<usize>) -> Seq<ModelMetadataView> {
    order.map_values(|i: usize| models[i as int])
}

/// The positions of the models that a search finds, in the order of the list.
fn found_positions(models: &Vec<ModelMetadata>, query: &str, current_model_id: &str) -> (order: Vec<
    usize,
>)
    ensures
        forall|k: int| 0 <= k < order@.len() ==> (#[trigger] order@[k]) < models@.len(),
        rows_at(metadata_views(models@), order@) == found_models(
            metadata_views(models@),
            query@,
            current_model_id@,
        ),
{
    let ghost views = metadata_views(models@);
    let lower_query = to_lowercase(query);
    let mut keys: Vec<RowKey> = Vec::new();
    let mut order: Vec<usize> = Vec::new();
    let mut i: usize = 0;
    assert(views.take(0) =~= Seq::empty());
    assert(rows_at(views, order@) =~= Seq::empty());
    while i < models.len()
        invariant
            views == metadata_views(models@),
            lower_query@ == lowercase(query@),
            i <= models@.len(),
            keys@.len() == i,
            forall|k: int|
                0 <= k < i ==> is_key_of(#[trigger] keys@[k], views[k], current_model_id@),
            forall|k: int| 0 <= k < order@.len() ==> (#[trigger] order@[k]) < i,
            rows_at(views, order@) == found_models(
                views.take(i as int),
                query@,
                current_model_id@,
            ),
        decreases models@.len() - i,
    {
        let ghost rows = rows_at(views, order@);
        proof {
            assert(views.take(i + 1).drop_last() =~= views.take(i as int));
            assert(views.take(i + 1).last() == views[i as int]);
        }
        keys.push(row_key(&models[i], current_model_id));
        if key_matches(&keys[i], lower_query.as_str()) {
            let mut p: usize = order.len();
            while p > 0 && is_listed_before(
                &models[i],
                &keys[i],
                &models[order[p - 1]],
                &keys[order[p - 1]],
                Ghost(current_model_id@),
            )
                invariant
                    views == metadata_views(models@),
                    i < models@.len(),
                    keys@.len() == i + 1,
                    forall|k: int|
                        0 <= k <= i ==> is_key_of(#[trigger] keys@[k], views[k], current_model_id@),
                    forall|k: int| 0 <= k < order@.len() ==> (#[trigger] order@[k]) < i,
                    rows == rows_at(views, order@),
                    p <= order@.len(),
                    forall|k: int|
                        p <= k < rows.len() ==> listed_before(
                            views[i as int],
                            #[trigger] rows[k],
                            current_model_id@,
                        ),
                decreases p,
            {
                p -= 1;
            }
            proof {
                lemma_row_position(rows, views[i as int], current_model_id@, p as int);
            }
            let ghost before = order@;
            order.insert(p, i);
            assert(rows_at(views, order@) =~= rows.insert(p as int, views[i as int]));
            assert forall|k: int| 0 <= k < order@.len() implies (#[trigger] order@[k]) < i + 1 by {
                assert(order@ == before.insert(p as int, i));
            }
        }
        i += 1;
    }
    assert(views.take(i as int) =~= views);
    order
}

// ---------------------------------------------------------------------------
// Behavior
// ---------------------------------------------------------------------------

/// The row, or the last row where there are fewer.
pub open spec fn clamped_row(row: usize, count: nat) -> usize {
    if count == 0 {
        0
    } else if row > count - 1 {
        (count - 1) as usize
    } else {
        row
    }
}

/// The picker with its active row kept inside the list.
pub open spec fn clamped(v: PickerView, current_model_id: Seq<char>) -> PickerView {
    PickerView {
        active_row: clamped_row(v.active_row, picker_rows(v, current_model_id).len()),
        ..v
    }
}

/// The picker with another search text.
pub open spec fn with_query(
    v: PickerView,
    query: Seq<char>,
    current_model_id: Seq<char>,
) -> PickerView {
    PickerView { error: None, ..clamped(PickerView { query, ..v }, current_model_id) }
}

/// The picker as it opens: a fresh search over what is known of the catalog.
pub open spec fn opened(v: PickerView) -> PickerView {
    PickerView { open: true, query: Seq::empty(), active_row: 0, error: None, ..v }
}

/// The picker as it closes.
pub open spec fn closed_picker(v: PickerView) -> PickerView {
    PickerView { open: false, pending_model_id: None, error: None, ..v }
}

/// The picker with a loaded catalog; the search stays.
pub open spec fn with_catalog(v: PickerView, models: Seq<ModelMetadataView>) -> PickerView {
    PickerView {
        error: None,
        ..clamped(
            PickerView { catalog: CatalogStateView::Loaded(models), ..v },
            Seq::empty(),
        )
    }
}

/// Whether a key types a character: a printable one, without control or alt.
pub open spec fn types_character(key: KeyEvent) -> bool {
    &&& key.code is Char
    &&& !key.modifiers.control
    &&& !key.modifiers.alt
    &&& !is_control_char(key.code->Char_0)
}

/// What a key does while the picker owns the input.
pub open spec fn picker_key_step(v: PickerView, key: KeyEvent, current_model_id: Seq<char>) -> (
    PickerView,
    ModelPickerActionView,
) {
    let rows = picker_rows(v, current_model_id);
    let plain = key.modifiers == no_modifiers();
    if !v.open || key.kind is Release {
        (v, ModelPickerActionView::Continue)
    } else if key.code is Esc {
        (closed_picker(v), ModelPickerActionView::Continue)
    } else if key.code is Up && plain {
        (
            PickerView {
                active_row: if v.active_row == 0 {
                    0
                } else {
                    (v.active_row - 1) as usize
                },
                ..v
            },
            ModelPickerActionView::Continue,
        )
    } else if key.code is Down && plain {
        (
            PickerView {
                active_row: if v.active_row == usize::MAX {
                    clamped_row(v.active_row, rows.len())
                } else {
                    clamped_row((v.active_row + 1) as usize, rows.len())
                },
                ..v
            },
            ModelPickerActionView::Continue,
        )
    } else if key.code is Backspace && plain {
        let query = if v.query.len() == 0 {
            v.query
        } else {
            v.query.drop_last()
        };
        (with_query(v, query, current_model_id), ModelPickerActionView::Continue)
    } else if types_character(key) {
        (
            with_query(v, v.query.push(key.code->Char_0), current_model_id),
            ModelPickerActionView::Continue,
        )
    } else if key.code is Enter && plain && v.pending_model_id is None && v.active_row
        < rows.len() {
        (v, ModelPickerActionView::SelectModel(rows[v.active_row as int].model_id))
    } else {
        (v, ModelPickerActionView::Continue)
    }
}

/// The models that these references point to.
pub open spec fn referenced_models(models: Seq<&ModelMetadata>) -> Seq<ModelMetadataView> {
    models.map_values(|model: &ModelMetadata| model@)
}

impl Default for ModelPickerState {
    fn default() -> (picker: Self)
        ensures
            picker@ == new_picker(),
    {
        ModelPickerState::new()
    }
}

/// A picker that has never been opened.
pub open spec fn new_picker() -> PickerView {
    PickerView {
        open: false,
        catalog: CatalogStateView::Loading,
        query: Seq::empty(),
        active_row: 0,
        pending_model_id: None,
        error: None,
    }
}

impl ModelPickerState {
    pub fn new() -> (picker: Self)
        ensures
            picker@ == new_picker(),
    {
        let picker = ModelPickerState {
            open: false,
            catalog_state: CatalogState::Loading,
            query: String::new(),
            active_row: 0,
            pending_model_id: None,
            error: None,
        };
        assert(picker@.query =~= Seq::empty());
        picker
    }

    pub fn is_open(&self) -> (open: bool)
        ensures
            open == self@.open,
    {
        self.open
    }

    pub fn catalog_state(&self) -> (state: &CatalogState)
        ensures
            state@ == self@.catalog,
    {
        &self.catalog_state
    }

    pub fn query(&self) -> (query: &str)
        ensures
            query@ == self@.query,
    {
        self.query.as_str()
    }

    pub fn active_row(&self) -> (row: usize)
        ensures
            row == self@.active_row,
    {
        self.active_row
    }

    pub fn pending_model_id(&self) -> (model_id: Option<&str>)
        ensures
            opt_str(model_id) == self@.pending_model_id,
    {
        match &self.pending_model_id {
            Some(model_id) => Some(model_id.as_str()),
            None => None,
        }
    }

    pub fn error(&self) -> (error: Option<&str>)
        ensures
            opt_str(error) == self@.error,
    {
        match &self.error {
            Some(error) => Some(error.as_str()),
            None => None,
        }
    }

    /// Open the modal and start a fresh local search without changing catalog data.
    pub fn open(&mut self)
        ensures
            final(self)@ == opened(old(self)@),
    {
        self.open = true;
        self.query = String::new();
        self.active_row = 0;
        self.error = None;
        assert(self@.query =~= Seq::empty());
    }

    pub fn close(&mut self)
        ensures
            final(self)@ == closed_picker(old(self)@),
    {
        self.open = false;
        self.pending_model_id = None;
        self.error = None;
    }

    pub fn catalog_loading(&mut self)
        ensures
            final(self)@ == (PickerView {
                catalog: CatalogStateView::Loading,
                active_row: 0,
                error: None,
                ..old(self)@
            }),
    {
        self.catalog_state = CatalogState::Loading;
        self.active_row = 0;
        self.error = None;
    }

    pub fn catalog_loaded(&mut self, models: Vec<ModelMetadata>)
        ensures
            final(self)@ == with_catalog(old(self)@, metadata_views(models@)),
    {
        self.catalog_state = CatalogState::Loaded(models);
        self.clamp_active_row("");
        self.error = None;
        proof {
            reveal_strlit("");
            assert(""@ =~= Seq::<char>::empty());
        }
    }

    pub fn catalog_failed(&mut self, error: String)
        ensures
            final(self)@ == (PickerView {
                catalog: CatalogStateView::Failed(error@),
                active_row: 0,
                error: None,
                ..old(self)@
            }),
    {
        self.catalog_state = CatalogState::Failed(error);
        self.active_row = 0;
        self.error = None;
    }

    /// Record a successful command enqueue. Selection is not applied until runtime acknowledgment.
    pub fn accept_selection_enqueue(&mut self, model_id: String)
        ensures
            final(self)@ == (PickerView {
                pending_model_id: Some(model_id@),
                error: None,
                ..old(self)@
            }),
    {
        self.pending_model_id = Some(model_id);
        self.error = None;
    }

    /// Record a failed selection enqueue without changing the active model.
    pub fn reject_selection_enqueue(&mut self, error: String)
        ensures
            final(self)@ == (PickerView {
                pending_model_id: None,
                error: Some(error@),
                ..old(self)@
            }),
    {
        self.pending_model_id = None;
        self.error = Some(error);
    }

    /// Record a failed discovery enqueue while preserving the already-open modal.
    pub fn reject_discovery_enqueue(&mut self, error: String)
        ensures
            final(self)@ == (PickerView { error: Some(error@), ..old(self)@ }),
    {
        self.error = Some(error);
    }

    /// Apply a runtime selection failure to the current picker request.
    pub fn selection_failed(&mut self, error: String)
        ensures
            final(self)@ == (PickerView {
                open: old(self)@.open || old(self)@.pending_model_id is Some,
                pending_model_id: None,
                error: Some(error@),
                ..old(self)@
            }),
    {
        if self.pending_model_id.is_some() {
            self.open = true;
        }
        self.pending_model_id = None;
        self.error = Some(error);
    }

    /// Apply a runtime selection acknowledgment and report whether it closed a pending request.
    pub fn selection_acknowledged(&mut self, model_id: &str) -> (acknowledged: bool)
        ensures
            acknowledged == (old(self)@.pending_model_id == Some(model_id@)),
            final(self)@ == if acknowledged {
                closed_picker(old(self)@)
            } else {
                old(self)@
            },
    {
        let expected = match &self.pending_model_id {
            Some(pending_model_id) => same_text(pending_model_id.as_str(), model_id),
            None => false,
        };
        if expected {
            self.pending_model_id = None;
            self.error = None;
            self.open = false;
        }
        expected
    }

    /// The models that the search finds, in the order of the list.
    pub fn filtered_models(&self, current_model_id: &str) -> (models: Vec<&ModelMetadata>)
        ensures
            referenced_models(models@) == picker_rows(self@, current_model_id@),
    {
        let mut found: Vec<&ModelMetadata> = Vec::new();
        match &self.catalog_state {
            CatalogState::Loaded(models) => {
                let ghost views = metadata_views(models@);
                let order = found_positions(models, self.query.as_str(), current_model_id);
                let ghost rows = rows_at(views, order@);
                let mut k: usize = 0;
                while k < order.len()
                    invariant
                        views == metadata_views(models@),
                        rows == rows_at(views, order@),
                        k <= order@.len(),
                        forall|i: int| 0 <= i < order@.len() ==> (#[trigger] order@[i])
                            < models@.len(),
                        referenced_models(found@) == rows.take(k as int),
                    decreases order@.len() - k,
                {
                    let ghost before = referenced_models(found@);
                    found.push(&models[order[k]]);
                    assert(referenced_models(found@) =~= before.push(rows[k as int]));
                    k += 1;
                }
                assert(rows.take(k as int) =~= rows);
            },
            _ => {
                assert(referenced_models(found@) =~= Seq::empty());
            },
        }
        found
    }

    fn clamp_active_row(&mut self, current_model_id: &str)
        ensures
            final(self)@ == clamped(old(self)@, current_model_id@),
    {
        let count: usize = self.filtered_models(current_model_id).len();
        let last: usize = count.saturating_sub(1);
        if self.active_row > last {
            self.active_row = last;
        }
    }

    /// Handle a key while the modal owns input. The current model ID controls selected-first order.
    pub fn handle_key(&mut self, key_event: KeyEvent, current_model_id: &str) -> (action:
        ModelPickerAction)
        ensures
            (final(self)@, action@) == picker_key_step(old(self)@, key_event, current_model_id@),
    {
        if !self.open || key_event.is_release() {
            return ModelPickerAction::Continue;
        }
        let plain = key_event.modifiers.is_none();
        match key_event.code {
            KeyCode::Esc => {
                self.close();
            },
            KeyCode::Up => {
                if plain {
                    self.active_row = self.active_row.saturating_sub(1);
                }
            },
            KeyCode::Down => {
                if plain {
                    self.active_row = self.active_row.saturating_add(1);
                    self.clamp_active_row(current_model_id);
                }
            },
            KeyCode::Backspace => {
                if plain {
                    let chars = chars_of(self.query.as_str());
                    if chars.len() > 0 {
                        self.query = string_of_range(chars.as_slice(), 0, chars.len() - 1);
                        assert(self.query@ =~= old(self)@.query.drop_last());
                    }
                    self.clamp_active_row(current_model_id);
                    self.error = None;
                }
            },
            KeyCode::Char(character) => {
                if !key_event.modifiers.control && !key_event.modifiers.alt && !is_control(
                    character,
                ) {
                    self.query.push(character);
                    self.clamp_active_row(current_model_id);
                    self.error = None;
                }
            },
            KeyCode::Enter => {
                if plain && self.pending_model_id.is_none() {
                    let models = self.filtered_models(current_model_id);
                    if self.active_row < models.len() {
                        assert(referenced_models(models@)[self.active_row as int]
                            == models@[self.active_row as int]@);
                        return ModelPickerAction::SelectModel(
                            models[self.active_row].model_id.clone(),
                        );
                    }
                }
            },
            _ => {},
        }
        ModelPickerAction::Continue
    }
}

} // verus!
