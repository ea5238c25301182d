//! Search, order and selection in the model picker.

use nano::provider::{ModelLimits, ModelMetadata};
use nano::tui::keys::{KeyCode, KeyEvent, KeyModifiers};
use nano::tui::model_picker::{CatalogState, ModelPickerAction, ModelPickerState};
use nano::tui::picker_scene::format_model_row;

fn key_event(key_code: KeyCode) -> KeyEvent {
    KeyEvent::new(key_code, KeyModifiers::none())
}

fn model(
    model_id: &str,
    display_name: &str,
    prompt_price: Option<&str>,
    completion_price: Option<&str>,
) -> ModelMetadata {
    ModelMetadata {
        model_id: model_id.to_owned(),
        display_name: display_name.to_owned(),
        limits: ModelLimits {
            context_window_tokens: 16_384,
            maximum_output_tokens: Some(2_048),
        },
        prompt_price_usd_per_million_tokens: prompt_price.map(str::to_owned),
        completion_price_usd_per_million_tokens: completion_price.map(str::to_owned),
    }
}

fn loaded_picker(models: Vec<ModelMetadata>) -> ModelPickerState {
    let mut picker = ModelPickerState::new();
    picker.catalog_loaded(models);
    picker.open();
    picker
}

#[test]
fn selected_model_is_first_then_names_and_ids_are_case_insensitive() {
    let picker = loaded_picker(vec![
        model("z-model", "Alpha", None, None),
        model("current-id", "Zulu", None, None),
        model("a-model", "alpha", None, None),
        model("b-model", "Alpha", None, None),
    ]);

    let ordered_ids = picker
        .filtered_models("current-id")
        .into_iter()
        .map(|model| model.model_id.as_str())
        .collect::<Vec<_>>();
    assert_eq!(
        ordered_ids,
        vec!["current-id", "a-model", "b-model", "z-model"]
    );
}

#[test]
fn search_matches_name_and_id_without_case_sensitivity() {
    let mut picker = loaded_picker(vec![
        model("provider/Alpha", "First model", None, None),
        model("provider/beta", "Second model", None, None),
    ]);

    for character in "ALPHA".chars() {
        assert_eq!(
            picker.handle_key(key_event(KeyCode::Char(character)), "none"),
            ModelPickerAction::Continue
        );
    }
    assert_eq!(picker.filtered_models("none").len(), 1);
    assert_eq!(picker.filtered_models("none")[0].model_id, "provider/Alpha");

    for _ in "ALPHA".chars() {
        picker.handle_key(key_event(KeyCode::Backspace), "none");
    }
    for character in "BETA".chars() {
        picker.handle_key(key_event(KeyCode::Char(character)), "none");
    }
    assert_eq!(
        picker.filtered_models("none")[0].display_name,
        "Second model"
    );
}

#[test]
fn backspace_removes_one_unicode_scalar_from_the_search_end() {
    let mut picker = loaded_picker(vec![model("model", "model", None, None)]);
    for character in "界é".chars() {
        picker.handle_key(key_event(KeyCode::Char(character)), "none");
    }

    picker.handle_key(key_event(KeyCode::Backspace), "none");
    assert_eq!(picker.query(), "界");
    picker.handle_key(key_event(KeyCode::Backspace), "none");
    assert_eq!(picker.query(), "");
}

#[test]
fn navigation_clamps_at_both_filtered_result_bounds() {
    let mut picker = loaded_picker(vec![
        model("a", "A", None, None),
        model("b", "B", None, None),
    ]);
    picker.handle_key(key_event(KeyCode::Up), "none");
    assert_eq!(picker.active_row(), 0);
    picker.handle_key(key_event(KeyCode::Down), "none");
    picker.handle_key(key_event(KeyCode::Down), "none");
    assert_eq!(picker.active_row(), 1);
    picker.handle_key(key_event(KeyCode::Char('a')), "none");
    picker.handle_key(key_event(KeyCode::Down), "none");
    assert_eq!(picker.active_row(), 0);
}

#[test]
fn missing_prices_are_rendered_as_unknown_without_arithmetic() {
    let row = format_model_row(
        &model("free-model", "Free", None, Some("0.25")),
        true,
        false,
    );
    assert!(row.contains("in unknown"));
    assert!(row.contains("out $0.25/M"));
    assert!(row.contains("ctx 16384"));
}

#[test]
fn selection_waits_for_acknowledgment_and_failure_keeps_modal_open() {
    let model = model("selected", "Selected", Some("0.1"), Some("0.2"));
    let mut picker = loaded_picker(vec![model.clone()]);

    assert_eq!(
        picker.handle_key(key_event(KeyCode::Enter), "none"),
        ModelPickerAction::SelectModel("selected".to_owned())
    );
    assert!(picker.is_open());
    picker.accept_selection_enqueue("selected".to_owned());
    assert_eq!(picker.pending_model_id(), Some("selected"));
    assert!(picker.is_open());
    assert!(!picker.selection_acknowledged("other"));
    assert!(picker.is_open());
    picker.selection_failed("selection rejected".to_owned());
    assert_eq!(picker.pending_model_id(), None);
    assert!(picker.is_open());
    assert_eq!(picker.error(), Some("selection rejected"));

    picker.accept_selection_enqueue("selected".to_owned());
    assert!(picker.selection_acknowledged(&model.model_id));
    assert!(!picker.is_open());
    assert_eq!(picker.pending_model_id(), None);
}

#[test]
fn catalog_loaded_preserves_query_and_catalog_failures_are_local() {
    let mut picker = ModelPickerState::new();
    picker.open();
    picker.handle_key(key_event(KeyCode::Char('x')), "none");
    picker.catalog_loaded(vec![model("x-model", "X", None, None)]);
    assert_eq!(picker.query(), "x");
    assert!(matches!(picker.catalog_state(), CatalogState::Loaded(_)));
    picker.catalog_failed("provider\nfailed".to_owned());
    assert_eq!(picker.error(), None);
    assert!(matches!(
        picker.catalog_state(),
        CatalogState::Failed(message) if message == "provider\nfailed"
    ));
}

#[test]
fn the_list_holds_each_found_model_once_for_each_time_the_catalog_has_it() {
    let mut picker = loaded_picker(vec![
        model("b", "Same", Some("1"), None),
        model("a", "same", None, None),
        model("b", "Same", Some("2"), None),
        model("current", "Zeta", None, None),
        model("c", "Other", None, None),
    ]);
    let rows = |picker: &ModelPickerState| {
        picker
            .filtered_models("current")
            .iter()
            .map(|model| {
                (
                    model.model_id.clone(),
                    model.prompt_price_usd_per_million_tokens.clone(),
                )
            })
            .collect::<Vec<_>>()
    };
    let row = |model_id: &str, price: Option<&str>| (model_id.to_owned(), price.map(str::to_owned));

    assert_eq!(
        rows(&picker),
        vec![
            row("current", None),
            row("c", None),
            row("a", None),
            row("b", Some("1")),
            row("b", Some("2")),
        ]
    );

    for character in "sAmE".chars() {
        picker.handle_key(key_event(KeyCode::Char(character)), "current");
    }
    assert_eq!(
        rows(&picker),
        vec![row("a", None), row("b", Some("1")), row("b", Some("2"))]
    );
}

#[test]
fn search_folds_letters_beyond_ascii() {
    let mut picker = loaded_picker(vec![model("id", "ÄÖÜ", None, None)]);
    for character in "äÖü".chars() {
        picker.handle_key(key_event(KeyCode::Char(character)), "none");
    }
    assert_eq!(picker.filtered_models("none").len(), 1);
}

#[test]
fn a_closed_picker_ignores_keys_and_modified_keys_do_not_navigate() {
    let mut picker = loaded_picker(vec![
        model("a", "A", None, None),
        model("b", "B", None, None),
    ]);
    picker.handle_key(
        KeyEvent::new(KeyCode::Down, KeyModifiers::shift()),
        "none",
    );
    assert_eq!(picker.active_row(), 0);
    picker.close();
    let before = picker.clone();
    for key_code in [KeyCode::Down, KeyCode::Char('x'), KeyCode::Enter] {
        assert_eq!(
            picker.handle_key(key_event(key_code), "none"),
            ModelPickerAction::Continue
        );
        assert_eq!(picker, before);
    }
}

#[test]
fn an_acknowledgment_of_another_model_leaves_the_request_pending() {
    let mut picker = loaded_picker(vec![model("a", "A", None, None)]);
    picker.accept_selection_enqueue("a".to_owned());
    assert!(!picker.selection_acknowledged("b"));
    assert_eq!(picker.pending_model_id(), Some("a"));
    assert!(picker.is_open());
    assert!(picker.selection_acknowledged("a"));
    assert!(!picker.is_open());
}
