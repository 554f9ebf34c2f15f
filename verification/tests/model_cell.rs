use pam_daemon::model_cell::{
    degrade_after_model_load_failure, LoadedModelService, ModelCell, ModelSurface,
    ModelTransitionPhase,
};

fn model(key: &str, size_bytes: u64) -> LoadedModelService<&'static str> {
    LoadedModelService {
        key: key.to_owned(),
        size_bytes,
        service: "service",
    }
}

fn empty() -> ModelSurface<&'static str> {
    ModelSurface {
        loaded: None,
        load_failure: None,
        transition: None,
    }
}

fn holding(key: &str) -> ModelSurface<&'static str> {
    ModelSurface {
        loaded: Some(model(key, 10)),
        load_failure: None,
        transition: None,
    }
}

#[test]
fn an_empty_cell_loads_unloads_and_loads_a_different_model() {
    let mut cell = ModelCell::new(empty(), None);
    assert!(cell.surface().loaded.is_none());
    assert!(cell.surface().transition.is_none());
    assert!(cell.loaded_key().is_none());

    let guard = cell.begin_transition().expect("an idle cell is free");
    cell.begin_load(&guard, "qwen/first");
    let loading = cell.surface().transition.expect("a load reports itself");
    assert_eq!(loading.phase, ModelTransitionPhase::Loading);
    assert_eq!(loading.model, "qwen/first");
    cell.finish_load(&guard, model("qwen/first", 10), Some(1));
    cell.end_transition(guard);

    let surface = cell.surface();
    assert!(surface.transition.is_none());
    let loaded = surface.loaded.expect("the model is seated");
    assert_eq!(loaded.key, "qwen/first");
    assert_eq!(loaded.size_bytes, 10);

    let guard = cell.begin_transition().unwrap();
    let retired = cell.begin_unload(&guard).expect("a loaded cell retires");
    assert_eq!(retired.key(), "qwen/first");
    assert_eq!(retired.size_bytes(), 10);
    assert_eq!(retired.worker, Some(1));
    let unloading = cell
        .surface()
        .transition
        .expect("an unload reports itself while it drains");
    assert_eq!(unloading.phase, ModelTransitionPhase::Unloading);
    assert_eq!(unloading.model, "qwen/first");
    assert!(cell.surface().loaded.is_none());
    cell.finish_unload(&guard);
    cell.end_transition(guard);
    assert!(cell.surface().loaded.is_none());
    assert!(cell.surface().transition.is_none());

    let guard = cell.begin_transition().unwrap();
    cell.begin_load(&guard, "qwen/second");
    cell.finish_load(&guard, model("qwen/second", 20), Some(2));
    cell.end_transition(guard);
    let loaded = cell.surface().loaded.expect("the second model is seated");
    assert_eq!(loaded.key, "qwen/second");
    assert_eq!(cell.take_worker(), Some(2));
    assert_eq!(cell.take_worker(), None);
}

#[test]
fn only_one_transition_holds_the_model_slot_at_a_time() {
    let mut cell: ModelCell<&'static str, u8> = ModelCell::new(empty(), None);
    let guard = cell.begin_transition().expect("an idle cell is free");
    assert!(
        cell.begin_transition().is_none(),
        "a second load or unload must be refused, not silently queued"
    );
    cell.end_transition(guard);
    assert!(cell.begin_transition().is_some());
}

#[test]
fn a_failed_load_leaves_the_daemon_serving_with_the_reason_on_the_surface() {
    let mut cell = ModelCell::new(holding("qwen/first"), Some(1));
    let guard = cell.begin_transition().unwrap();
    assert!(cell.begin_unload(&guard).is_some());
    cell.begin_load(&guard, "qwen/second");
    cell.fail_load(&guard, "model load failed: weights drifted".to_owned());
    cell.end_transition(guard);

    let surface = cell.surface();
    assert!(surface.loaded.is_none());
    assert!(surface.transition.is_none());
    assert_eq!(
        surface.load_failure.as_deref(),
        Some("model load failed: weights drifted")
    );

    let guard = cell.begin_transition().unwrap();
    assert!(cell.begin_unload(&guard).is_none());
    cell.finish_unload(&guard);
    cell.end_transition(guard);
    assert!(cell.surface().load_failure.is_none());
}

#[test]
fn a_daemon_starts_without_a_model_that_cannot_load() {
    let surface: ModelSurface<&'static str> = degrade_after_model_load_failure("no such file");
    assert!(surface.loaded.is_none());
    assert_eq!(
        surface.load_failure.as_deref(),
        Some("model load failed; the daemon will serve without a model: no such file")
    );
}
