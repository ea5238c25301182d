//! What the model picker finds, lists and selects, said of the texts and the rows themselves.

use vstd::prelude::*;

use crate::provider::ModelMetadataView;
use crate::text::{
    lemma_text_before_irreflexive, lemma_text_before_total, lowercase, text_before,
};
use crate::text_laws::{lemma_occurrence_is_at_a_position, stands_at};
use crate::tui::keys::{KeyCode, KeyEvent};
use crate::tui::model_picker::{
    closed_picker, found_models, listed_before, matches_query, opened, picker_key_step,
    picker_rows, with_catalog, with_row, CatalogStateView, ModelPickerActionView, PickerView,
};
use crate::tui::picker_laws::{is_listed_in_order, lemma_list_is_ordered_selection};

verus! {

/// The search text stands somewhere in the name or in the identity of a model, all in lower case; an
/// empty search text stands everywhere.
pub open spec fn holds_search_text(model: ModelMetadataView, query: Seq<char>) -> bool {
    ||| lowercase(query).len() == 0
    ||| exists|at: int| stands_at(lowercase(model.display_name), lowercase(query), at)
    ||| exists|at: int| stands_at(lowercase(model.model_id), lowercase(query), at)
}

proof fn lemma_match_is_at_a_position(model: ModelMetadataView, query: Seq<char>)
    ensures
        matches_query(model, query) == holds_search_text(model, query),
{
    lemma_occurrence_is_at_a_position(lowercase(model.display_name), lowercase(query));
    lemma_occurrence_is_at_a_position(lowercase(model.model_id), lowercase(query));
}

proof fn lemma_filter_counts(
    models: Seq<ModelMetadataView>,
    query: Seq<char>,
    model: ModelMetadataView,
)
    ensures
        models.filter(|m: ModelMetadataView| matches_query(m, query)).to_multiset().count(model)
            == if matches_query(model, query) {
            models.to_multiset().count(model)
        } else {
            0
        },
    decreases models.len(),
{
    broadcast use vstd::seq_lib::group_to_multiset_ensures;

    reveal(Seq::filter);
    let pred = |m: ModelMetadataView| matches_query(m, query);
    if models.len() > 0 {
        let before = models.drop_last();
        let last = models.last();
        lemma_filter_counts(before, query, model);
        assert(before.push(last) =~= models);
        assert(models.to_multiset() == before.to_multiset().insert(last));
        if pred(last) {
            assert(models.filter(pred) == before.filter(pred).push(last));
            assert(models.filter(pred).to_multiset() == before.filter(pred).to_multiset().insert(
                last,
            ));
        } else {
            assert(models.filter(pred) == before.filter(pred));
        }
    } else {
        assert(models.filter(pred) =~= Seq::empty());
        assert(models =~= Seq::empty());
        assert(models.to_multiset().count(model) == 0);
    }
}

/// A search finds a model exactly when the search text stands at some position of its name or of its
/// identity, whatever the case of letters, or is empty: the rows hold every such model, as often as
/// the catalog does, and no other.
pub proof fn lemma_search_finds_parts_of_names(
    v: PickerView,
    models: Seq<ModelMetadataView>,
    current_model_id: Seq<char>,
    model: ModelMetadataView,
)
    requires
        v.catalog == CatalogStateView::Loaded(models),
    ensures
        picker_rows(v, current_model_id).to_multiset().count(model) == if holds_search_text(
            model,
            v.query,
        ) {
            models.to_multiset().count(model)
        } else {
            0
        },
        picker_rows(v, current_model_id).contains(model) <==> models.contains(model)
            && holds_search_text(model, v.query),
{
    broadcast use vstd::seq_lib::group_to_multiset_ensures;

    let rows = picker_rows(v, current_model_id);
    lemma_list_is_ordered_selection(models, v.query, current_model_id);
    lemma_filter_counts(models, v.query, model);
    lemma_match_is_at_a_position(model, v.query);
    rows.to_multiset_ensures();
    models.to_multiset_ensures();
}

/// Until a catalog is loaded there are no rows.
pub proof fn lemma_no_rows_without_catalog(v: PickerView, current_model_id: Seq<char>)
    requires
        !(v.catalog is Loaded),
    ensures
        picker_rows(v, current_model_id).len() == 0,
{
}

/// Of two rows the upper one is the current model, or neither or both are, and then its name in lower
/// case comes first; names alike, its identity in lower case; these alike too, its name and then its
/// identity as they are written.
pub proof fn lemma_rows_are_in_order(v: PickerView, current_model_id: Seq<char>, i: int, j: int)
    requires
        0 <= i < j < picker_rows(v, current_model_id).len(),
    ensures
        ({
            let a = picker_rows(v, current_model_id)[i];
            let b = picker_rows(v, current_model_id)[j];
            let a_name = lowercase(a.display_name);
            let b_name = lowercase(b.display_name);
            let a_id = lowercase(a.model_id);
            let b_id = lowercase(b.model_id);
            ||| a.model_id == current_model_id && b.model_id != current_model_id
            ||| {
                &&& a.model_id == current_model_id <==> b.model_id == current_model_id
                &&& {
                    ||| text_before(a_name, b_name)
                    ||| a_name == b_name && text_before(a_id, b_id)
                    ||| a_name == b_name && a_id == b_id && text_before(
                        a.display_name,
                        b.display_name,
                    )
                    ||| a_name == b_name && a_id == b_id && a.display_name == b.display_name && (
                    text_before(a.model_id, b.model_id) || a.model_id == b.model_id)
                }
            }
        }),
{
    let models = v.catalog->Loaded_0;
    let rows = picker_rows(v, current_model_id);
    lemma_list_is_ordered_selection(models, v.query, current_model_id);
    assert(is_listed_in_order(rows, current_model_id));
    let a = rows[i];
    let b = rows[j];
    assert(!listed_before(b, a, current_model_id));
    lemma_text_before_total(lowercase(a.display_name), lowercase(b.display_name));
    lemma_text_before_total(lowercase(a.model_id), lowercase(b.model_id));
    lemma_text_before_total(a.display_name, b.display_name);
    lemma_text_before_total(a.model_id, b.model_id);
}

/// Models with the same name and identity keep the order that the catalog gives them.
pub proof fn lemma_like_models_stay_in_order(
    models: Seq<ModelMetadataView>,
    query: Seq<char>,
    current_model_id: Seq<char>,
    name: Seq<char>,
    id: Seq<char>,
)
    ensures
        found_models(models, query, current_model_id).filter(
            |m: ModelMetadataView| m.display_name == name && m.model_id == id,
        ) == models.filter(
            |m: ModelMetadataView|
                m.display_name == name && m.model_id == id && holds_search_text(m, query),
        ),
    decreases models.len(),
{
    reveal(Seq::filter);
    let like = |m: ModelMetadataView| m.display_name == name && m.model_id == id;
    let found = |m: ModelMetadataView|
        m.display_name == name && m.model_id == id && holds_search_text(m, query);
    let rows = found_models(models, query, current_model_id);
    if models.len() > 0 {
        let before = models.drop_last();
        let last = models.last();
        lemma_like_models_stay_in_order(before, query, current_model_id, name, id);
        lemma_match_is_at_a_position(last, query);
        lemma_row_stays_behind_its_like(
            found_models(before, query, current_model_id),
            last,
            current_model_id,
            name,
            id,
        );
    } else {
        assert(rows.filter(like) =~= models.filter(found));
    }
}

proof fn lemma_row_stays_behind_its_like(
    rows: Seq<ModelMetadataView>,
    model: ModelMetadataView,
    current_model_id: Seq<char>,
    name: Seq<char>,
    id: Seq<char>,
)
    ensures
        with_row(rows, model, current_model_id).filter(
            |m: ModelMetadataView| m.display_name == name && m.model_id == id,
        ) == if model.display_name == name && model.model_id == id {
            rows.filter(|m: ModelMetadataView| m.display_name == name && m.model_id == id).push(
                model,
            )
        } else {
            rows.filter(|m: ModelMetadataView| m.display_name == name && m.model_id == id)
        },
    decreases rows.len(),
{
    reveal(Seq::filter);
    let like = |m: ModelMetadataView| m.display_name == name && m.model_id == id;
    let out = with_row(rows, model, current_model_id);
    if rows.len() > 0 && listed_before(model, rows.last(), current_model_id) {
        let shorter = rows.drop_last();
        let front = with_row(shorter, model, current_model_id);
        lemma_row_stays_behind_its_like(shorter, model, current_model_id, name, id);
        assert(out.drop_last() =~= front);
        lemma_text_before_irreflexive(model.model_id);
        if like(model) && like(rows.last()) {
            assert(false);
        }
    } else {
        assert(out.drop_last() =~= rows);
    }
}

/// Whether a key is this one, pressed or repeated, without any modifier.
pub open spec fn is_plain_key(key: KeyEvent, code: KeyCode) -> bool {
    &&& key.code == code
    &&& !(key.kind is Release)
    &&& !key.modifiers.shift
    &&& !key.modifiers.control
    &&& !key.modifiers.alt
    &&& !key.modifiers.super_key
    &&& !key.modifiers.hyper
    &&& !key.modifiers.meta
}

/// Enter asks for the model in the active row, and changes nothing; without such a row, or while
/// another selection is pending, it asks for nothing.
pub proof fn lemma_enter_selects_the_active_row(
    v: PickerView,
    key: KeyEvent,
    current_model_id: Seq<char>,
)
    requires
        v.open,
        is_plain_key(key, KeyCode::Enter),
    ensures
        picker_key_step(v, key, current_model_id) == if v.pending_model_id is None && v.active_row
            < picker_rows(v, current_model_id).len() {
            (
                v,
                ModelPickerActionView::SelectModel(
                    picker_rows(v, current_model_id)[v.active_row as int].model_id,
                ),
            )
        } else {
            (v, ModelPickerActionView::Continue)
        },
{
}

/// The arrow keys move the active row by one, and stop at the first and at the last row.
pub proof fn lemma_arrows_move_by_one_row(v: PickerView, key: KeyEvent, current_model_id: Seq<char>)
    requires
        v.open,
        v.active_row < picker_rows(v, current_model_id).len() <= usize::MAX,
        is_plain_key(key, KeyCode::Up) || is_plain_key(key, KeyCode::Down),
    ensures
        ({
            let (post, action) = picker_key_step(v, key, current_model_id);
            let last = picker_rows(v, current_model_id).len() - 1;
            &&& action is Continue
            &&& post == (PickerView { active_row: post.active_row, ..v })
            &&& key.code is Up && v.active_row > 0 ==> post.active_row == v.active_row - 1
            &&& key.code is Up && v.active_row == 0 ==> post.active_row == 0
            &&& key.code is Down && v.active_row < last ==> post.active_row == v.active_row + 1
            &&& key.code is Down && v.active_row == last ==> post.active_row == last
        }),
{
}

/// A typed character is added to the end of the search text, and Backspace takes the last one away.
/// The active row stays where it is, or goes to the last row where there are fewer; an error goes
/// away, and all else stays.
pub proof fn lemma_typing_edits_the_search(
    v: PickerView,
    key: KeyEvent,
    current_model_id: Seq<char>,
    c: char,
)
    requires
        v.open,
        ({
            ||| {
                &&& key.code == KeyCode::Char(c)
                &&& !(key.kind is Release)
                &&& !key.modifiers.control
                &&& !key.modifiers.alt
                &&& c as u32 > 0x1f
                &&& !(0x7f <= c as u32 <= 0x9f)
            }
            ||| is_plain_key(key, KeyCode::Backspace)
        }),
    ensures
        ({
            let (post, action) = picker_key_step(v, key, current_model_id);
            let count = picker_rows(post, current_model_id).len();
            &&& action is Continue
            &&& key.code is Char ==> post.query == v.query.push(c)
            &&& key.code is Backspace && v.query.len() > 0 ==> post.query == v.query.take(
                v.query.len() - 1,
            )
            &&& key.code is Backspace && v.query.len() == 0 ==> post.query == v.query
            &&& v.active_row < count ==> post.active_row == v.active_row
            &&& v.active_row >= count && 0 < count <= usize::MAX ==> post.active_row == count - 1
            &&& count == 0 ==> post.active_row == 0
            &&& post.error is None
            &&& post.open
            &&& post.catalog == v.catalog
            &&& post.pending_model_id == v.pending_model_id
        }),
{
    if v.query.len() > 0 {
        assert(v.query.drop_last() =~= v.query.take(v.query.len() - 1));
    }
    let post = picker_key_step(v, key, current_model_id).0;
    assert(picker_rows(post, current_model_id) == picker_rows(
        PickerView { query: post.query, ..v },
        current_model_id,
    ));
}

/// With a modifier held, or where they have no use, keys do nothing in the picker.
pub proof fn lemma_other_keys_do_nothing(v: PickerView, key: KeyEvent, current_model_id: Seq<char>)
    requires
        ({
            ||| key.kind is Release
            ||| {
                &&& key.code is Up || key.code is Down || key.code is Backspace || key.code is Enter
                &&& key.modifiers.shift || key.modifiers.control || key.modifiers.alt
                    || key.modifiers.super_key || key.modifiers.hyper || key.modifiers.meta
            }
            ||| key.code is Char && (key.modifiers.control || key.modifiers.alt
                || key.code->Char_0 as u32 <= 0x1f || 0x7f <= key.code->Char_0 as u32 <= 0x9f)
            ||| key.code is Delete || key.code is Left || key.code is Right || key.code is Home
            ||| key.code is End || key.code is PageUp || key.code is PageDown || key.code is Other
        }),
    ensures
        picker_key_step(v, key, current_model_id) == (v, ModelPickerActionView::Continue),
{
}

/// Escape closes the picker; the catalog and the search text stay.
pub proof fn lemma_escape_closes(v: PickerView, key: KeyEvent, current_model_id: Seq<char>)
    requires
        v.open,
        key.code is Esc,
        !(key.kind is Release),
    ensures
        ({
            let (post, action) = picker_key_step(v, key, current_model_id);
            &&& action is Continue
            &&& !post.open
            &&& post.pending_model_id is None
            &&& post.error is None
            &&& post.catalog == v.catalog
            &&& post.query == v.query
        }),
{
}

/// A catalog that arrives is what the picker searches from then on, with the search text that is
/// there; the picker stays open or closed.
pub proof fn lemma_catalog_is_taken_whole(v: PickerView, models: Seq<ModelMetadataView>)
    ensures
        with_catalog(v, models).catalog == CatalogStateView::Loaded(models),
        with_catalog(v, models).query == v.query,
        with_catalog(v, models).open == v.open,
        with_catalog(v, models).pending_model_id == v.pending_model_id,
        with_catalog(v, models).error is None,
        v.active_row < found_models(models, v.query, Seq::empty()).len() ==> with_catalog(
            v,
            models,
        ).active_row == v.active_row,
{
}

/// A picker opens with an empty search at its first row, over the catalog that is known.
pub proof fn lemma_picker_opens_fresh(v: PickerView)
    ensures
        opened(v).open,
        opened(v).query.len() == 0,
        opened(v).active_row == 0,
        opened(v).error is None,
        opened(v).catalog == v.catalog,
        opened(v).pending_model_id == v.pending_model_id,
        !closed_picker(v).open,
        closed_picker(v).catalog == v.catalog,
        closed_picker(v).pending_model_id is None,
{
}

} // verus!
