//! What holds of the model list and of every state of the picker.

use vstd::prelude::*;

use crate::provider::ModelMetadataView;
use crate::text::{
    lemma_text_before_irreflexive, lemma_text_before_total, lemma_text_before_transitive, lowercase,
    text_before,
};
use crate::tui::keys::KeyEvent;
use crate::tui::model_picker::{
    closed_picker, found_models, listed_before, matches_query, new_picker, opened, picker_key_step,
    picker_rows, with_catalog, with_row, CatalogStateView, ModelPickerActionView, PickerView,
};

verus! {

/// No text comes before another and after it.
proof fn lemma_text_order_asymmetric(a: Seq<char>, b: Seq<char>)
    ensures
        !(text_before(a, b) && text_before(b, a)),
{
    if text_before(a, b) && text_before(b, a) {
        lemma_text_before_transitive(a, b, a);
        lemma_text_before_irreflexive(a);
    }
}

/// What comes before `c` comes before `b`, or `b` comes before `c`.
proof fn lemma_text_order_splits(a: Seq<char>, b: Seq<char>, c: Seq<char>)
    requires
        text_before(a, c),
    ensures
        text_before(a, b) || text_before(b, c),
{
    lemma_text_before_total(a, b);
    if text_before(b, a) {
        lemma_text_before_transitive(b, a, c);
    }
}

/// The order of the list is asymmetric.
pub proof fn lemma_listing_is_asymmetric(
    a: ModelMetadataView,
    b: ModelMetadataView,
    current_model_id: Seq<char>,
)
    ensures
        !(listed_before(a, b, current_model_id) && listed_before(b, a, current_model_id)),
{
    lemma_text_order_asymmetric(lowercase(a.display_name), lowercase(b.display_name));
    lemma_text_order_asymmetric(lowercase(a.model_id), lowercase(b.model_id));
    lemma_text_order_asymmetric(a.display_name, b.display_name);
    lemma_text_order_asymmetric(a.model_id, b.model_id);
}

/// What is listed before `c` is listed before `b`, or `b` is listed before `c`.
pub proof fn lemma_listing_splits(
    a: ModelMetadataView,
    b: ModelMetadataView,
    c: ModelMetadataView,
    current_model_id: Seq<char>,
)
    requires
        listed_before(a, c, current_model_id),
    ensures
        listed_before(a, b, current_model_id) || listed_before(b, c, current_model_id),
{
    let (an, bn, cn) = (
        lowercase(a.display_name),
        lowercase(b.display_name),
        lowercase(c.display_name),
    );
    let (ai, bi, ci) = (lowercase(a.model_id), lowercase(b.model_id), lowercase(c.model_id));
    lemma_text_before_total(an, bn);
    lemma_text_before_total(bn, cn);
    lemma_text_before_total(ai, bi);
    lemma_text_before_total(bi, ci);
    lemma_text_before_total(a.display_name, b.display_name);
    lemma_text_before_total(b.display_name, c.display_name);
    lemma_text_before_irreflexive(a.model_id);
    if text_before(an, cn) {
        lemma_text_order_splits(an, bn, cn);
    }
    if text_before(ai, ci) {
        lemma_text_order_splits(ai, bi, ci);
    }
    if text_before(a.display_name, c.display_name) {
        lemma_text_order_splits(a.display_name, b.display_name, c.display_name);
    }
    if text_before(a.model_id, c.model_id) {
        lemma_text_order_splits(a.model_id, b.model_id, c.model_id);
    }
    if text_before(bn, an) && text_before(cn, bn) {
        lemma_text_before_transitive(cn, bn, an);
    }
    if text_before(bi, ai) && text_before(ci, bi) {
        lemma_text_before_transitive(ci, bi, ai);
    }
    if text_before(b.display_name, a.display_name) && text_before(c.display_name, b.display_name) {
        lemma_text_before_transitive(c.display_name, b.display_name, a.display_name);
    }
    lemma_text_order_asymmetric(an, cn);
    lemma_text_order_asymmetric(ai, ci);
    lemma_text_order_asymmetric(a.display_name, c.display_name);
    lemma_text_before_irreflexive(an);
    lemma_text_before_irreflexive(ai);
    lemma_text_before_irreflexive(a.display_name);
}

/// No model of the list is listed before one above it.
pub open spec fn is_listed_in_order(
    rows: Seq<ModelMetadataView>,
    current_model_id: Seq<char>,
) -> bool {
    forall|i: int, j: int|
        0 <= i < j < rows.len() ==> !listed_before(
            #[trigger] rows[j],
            #[trigger] rows[i],
            current_model_id,
        )
}

proof fn lemma_row_keeps_order(
    rows: Seq<ModelMetadataView>,
    model: ModelMetadataView,
    current_model_id: Seq<char>,
)
    requires
        is_listed_in_order(rows, current_model_id),
    ensures
        is_listed_in_order(with_row(rows, model, current_model_id), current_model_id),
        with_row(rows, model, current_model_id).to_multiset() == rows.to_multiset().insert(model),
        with_row(rows, model, current_model_id).len() == rows.len() + 1,
        forall|k: int|
            0 <= k <= rows.len() ==> (#[trigger] with_row(rows, model, current_model_id)[k])
                == model || exists|l: int|
                0 <= l < rows.len() && with_row(rows, model, current_model_id)[k] == rows[l],
    decreases rows.len(),
{
    let out = with_row(rows, model, current_model_id);
    broadcast use vstd::seq_lib::group_to_multiset_ensures;

    if rows.len() > 0 && listed_before(model, rows.last(), current_model_id) {
        let shorter = rows.drop_last();
        let last = rows.last();
        assert(last == rows[rows.len() - 1]);
        assert forall|i: int, j: int| 0 <= i < j < shorter.len() implies !listed_before(
            #[trigger] shorter[j],
            #[trigger] shorter[i],
            current_model_id,
        ) by {
            assert(shorter[i] == rows[i] && shorter[j] == rows[j]);
        }
        lemma_row_keeps_order(shorter, model, current_model_id);
        let front = with_row(shorter, model, current_model_id);
        assert(out == front.push(last));
        assert(shorter.push(last) =~= rows);
        assert(rows.to_multiset() == shorter.to_multiset().insert(last));
        assert(out.to_multiset() == front.to_multiset().insert(last));
        assert(out.to_multiset() =~= rows.to_multiset().insert(model));
        assert forall|i: int, j: int| 0 <= i < j < out.len() implies !listed_before(
            #[trigger] out[j],
            #[trigger] out[i],
            current_model_id,
        ) by {
            if j < front.len() {
                assert(out[i] == front[i] && out[j] == front[j]);
            } else {
                assert(out[j] == last && out[i] == front[i]);
                if front[i] == model {
                    lemma_listing_is_asymmetric(model, last, current_model_id);
                } else {
                    let l = choose|l: int| 0 <= l < shorter.len() && front[i] == shorter[l];
                    assert(shorter[l] == rows[l]);
                }
            }
        }
        assert forall|k: int| 0 <= k <= rows.len() implies (#[trigger] out[k]) == model || exists|
            l: int,
        |
            0 <= l < rows.len() && out[k] == rows[l] by {
            if k < front.len() {
                assert(out[k] == front[k]);
                if front[k] != model {
                    let l = choose|l: int| 0 <= l < shorter.len() && front[k] == shorter[l];
                    assert(shorter[l] == rows[l]);
                }
            } else {
                assert(out[k] == rows[rows.len() - 1]);
            }
        }
    } else {
        assert(out == rows.push(model));
        assert forall|i: int, j: int| 0 <= i < j < out.len() implies !listed_before(
            #[trigger] out[j],
            #[trigger] out[i],
            current_model_id,
        ) by {
            if j == rows.len() {
                if listed_before(model, rows[i], current_model_id) {
                    lemma_listing_splits(model, rows.last(), rows[i], current_model_id);
                    assert(rows.last() == rows[rows.len() - 1]);
                    if i < rows.len() - 1 {
                        assert(!listed_before(
                            rows[rows.len() - 1],
                            rows[i],
                            current_model_id,
                        ));
                    } else {
                        assert(listed_before(model, rows.last(), current_model_id));
                    }
                }
            } else {
                assert(out[i] == rows[i] && out[j] == rows[j]);
            }
        }
        assert forall|k: int| 0 <= k <= rows.len() implies (#[trigger] out[k]) == model || exists|
            l: int,
        |
            0 <= l < rows.len() && out[k] == rows[l] by {
            if k < rows.len() {
                assert(out[k] == rows[k]);
            }
        }
    }
}

/// The list shows exactly the models that the search finds, each as often as the catalog has it, and
/// shows them in order.
pub proof fn lemma_list_is_ordered_selection(
    models: Seq<ModelMetadataView>,
    query: Seq<char>,
    current_model_id: Seq<char>,
)
    ensures
        is_listed_in_order(found_models(models, query, current_model_id), current_model_id),
        found_models(models, query, current_model_id).to_multiset() == models.filter(
            |model: ModelMetadataView| matches_query(model, query),
        ).to_multiset(),
        found_models(models, query, current_model_id).len() <= models.len(),
    decreases models.len(),
{
    broadcast use vstd::seq_lib::group_to_multiset_ensures;

    let pred = |model: ModelMetadataView| matches_query(model, query);
    reveal(Seq::filter);
    if models.len() > 0 {
        let before = models.drop_last();
        lemma_list_is_ordered_selection(before, query, current_model_id);
        let rows = found_models(before, query, current_model_id);
        if matches_query(models.last(), query) {
            lemma_row_keeps_order(rows, models.last(), current_model_id);
            assert(models.filter(pred) == before.filter(pred).push(models.last()));
        } else {
            assert(models.filter(pred) == before.filter(pred));
        }
    } else {
        assert(models.filter(pred) =~= Seq::empty());
        assert(found_models(models, query, current_model_id) =~= Seq::empty());
    }
}

/// If the search finds the current model, the list begins with it.
pub proof fn lemma_current_model_is_first(
    models: Seq<ModelMetadataView>,
    query: Seq<char>,
    current_model_id: Seq<char>,
    i: int,
)
    requires
        0 <= i < found_models(models, query, current_model_id).len(),
        found_models(models, query, current_model_id)[i].model_id == current_model_id,
    ensures
        found_models(models, query, current_model_id)[0].model_id == current_model_id,
{
    lemma_list_is_ordered_selection(models, query, current_model_id);
    let rows = found_models(models, query, current_model_id);
    if rows[0].model_id != current_model_id {
        assert(listed_before(rows[i], rows[0], current_model_id));
    }
}

/// An empty search finds every model.
pub proof fn lemma_empty_search_finds_all(
    models: Seq<ModelMetadataView>,
    query: Seq<char>,
    current_model_id: Seq<char>,
)
    requires
        lowercase(query).len() == 0,
    ensures
        found_models(models, query, current_model_id).to_multiset() == models.to_multiset(),
{
    lemma_list_is_ordered_selection(models, query, current_model_id);
    let pred = |model: ModelMetadataView| matches_query(model, query);
    lemma_filter_keeps_all(models, query);
    assert(models.filter(pred) == models);
}

proof fn lemma_filter_keeps_all(models: Seq<ModelMetadataView>, query: Seq<char>)
    requires
        lowercase(query).len() == 0,
    ensures
        models.filter(|model: ModelMetadataView| matches_query(model, query)) == models,
    decreases models.len(),
{
    let pred = |model: ModelMetadataView| matches_query(model, query);
    reveal(Seq::filter);
    if models.len() > 0 {
        lemma_filter_keeps_all(models.drop_last(), query);
        assert(models.drop_last().push(models.last()) =~= models);
    } else {
        assert(models.filter(pred) =~= models);
    }
}

/// The case of letters in a search does not matter.
pub proof fn lemma_search_ignores_case(
    models: Seq<ModelMetadataView>,
    query: Seq<char>,
    other_query: Seq<char>,
    current_model_id: Seq<char>,
)
    requires
        lowercase(query) == lowercase(other_query),
    ensures
        found_models(models, query, current_model_id) == found_models(
            models,
            other_query,
            current_model_id,
        ),
    decreases models.len(),
{
    if models.len() > 0 {
        lemma_search_ignores_case(models.drop_last(), query, other_query, current_model_id);
    }
}

/// How many models the list shows does not depend on which model is current.
proof fn lemma_count_ignores_current(
    models: Seq<ModelMetadataView>,
    query: Seq<char>,
    a: Seq<char>,
    b: Seq<char>,
)
    ensures
        found_models(models, query, a).len() == found_models(models, query, b).len(),
    decreases models.len(),
{
    if models.len() > 0 {
        lemma_count_ignores_current(models.drop_last(), query, a, b);
        lemma_row_adds_one(found_models(models.drop_last(), query, a), models.last(), a);
        lemma_row_adds_one(found_models(models.drop_last(), query, b), models.last(), b);
    }
}

proof fn lemma_row_adds_one(
    rows: Seq<ModelMetadataView>,
    model: ModelMetadataView,
    current_model_id: Seq<char>,
)
    ensures
        with_row(rows, model, current_model_id).len() == rows.len() + 1,
    decreases rows.len(),
{
    if rows.len() > 0 {
        lemma_row_adds_one(rows.drop_last(), model, current_model_id);
    }
}

/// The active row is a row of the list, or the first where the list is empty.
pub open spec fn row_is_in_list(v: PickerView, current_model_id: Seq<char>) -> bool {
    v.active_row == 0 || v.active_row < picker_rows(v, current_model_id).len()
}

/// The active row stays inside the list, whatever key is pressed.
pub proof fn lemma_keys_keep_row_in_list(
    v: PickerView,
    key: KeyEvent,
    current_model_id: Seq<char>,
)
    requires
        row_is_in_list(v, current_model_id),
    ensures
        row_is_in_list(picker_key_step(v, key, current_model_id).0, current_model_id),
{
}

/// The active row stays inside the list when the picker opens, when a catalog arrives, and when the
/// current model changes; a new picker has it there.
pub proof fn lemma_other_steps_keep_row_in_list(
    v: PickerView,
    models: Seq<ModelMetadataView>,
    current_model_id: Seq<char>,
    other_model_id: Seq<char>,
)
    requires
        row_is_in_list(v, current_model_id),
    ensures
        row_is_in_list(new_picker(), current_model_id),
        row_is_in_list(opened(v), current_model_id),
        row_is_in_list(closed_picker(v), current_model_id),
        row_is_in_list(with_catalog(v, models), current_model_id),
        row_is_in_list(v, other_model_id),
{
    match v.catalog {
        CatalogStateView::Loaded(known) => {
            lemma_count_ignores_current(known, v.query, current_model_id, other_model_id);
        },
        _ => {},
    }
    lemma_count_ignores_current(models, v.query, current_model_id, Seq::empty());
}

/// A key selects a model only while none is pending, and only one that the list shows; the picker
/// itself stays as it is until the runtime answers.
pub proof fn lemma_selection_is_shown_and_waits(
    v: PickerView,
    key: KeyEvent,
    current_model_id: Seq<char>,
    model_id: Seq<char>,
)
    requires
        picker_key_step(v, key, current_model_id).1 == ModelPickerActionView::SelectModel(model_id),
    ensures
        picker_key_step(v, key, current_model_id).0 == v,
        v.open,
        v.pending_model_id is None,
        exists|i: int|
            0 <= i < picker_rows(v, current_model_id).len() && (#[trigger] picker_rows(
                v,
                current_model_id,
            )[i]).model_id == model_id,
{
    assert(picker_rows(v, current_model_id)[v.active_row as int].model_id == model_id);
}

/// A closed picker ignores every key.
pub proof fn lemma_closed_picker_ignores_keys(
    v: PickerView,
    key: KeyEvent,
    current_model_id: Seq<char>,
)
    requires
        !v.open,
    ensures
        picker_key_step(v, key, current_model_id) == (v, ModelPickerActionView::Continue),
{
}

} // verus!
