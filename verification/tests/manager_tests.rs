//! Tests of the model-manager state machine: amortized loads, swaps,
//! failure recovery, idle eviction, and the Moonshine name parser.

use whispering::model_manager::{
    moonshine_variant_from_dir, AcquireDecision, EngineVariant, ModelManager, MoonshineVariant,
    DEFAULT_IDLE_TIMEOUT_MS,
};

#[test]
fn identical_requests_load_only_once() {
    let mut m = ModelManager::new(0);
    let d = m.get_or_load(EngineVariant::Parakeet, "/models/parakeet", 10);
    assert_eq!(d, AcquireDecision::MustLoad);
    m.commit_load(EngineVariant::Parakeet, "/models/parakeet".to_string(), 11);
    assert_eq!(m.load_count, 1);
    assert_eq!(m.unload_count, 0);
    // The identical request reuses the loaded engine: no second load.
    let d2 = m.get_or_load(EngineVariant::Parakeet, "/models/parakeet", 20);
    assert_eq!(d2, AcquireDecision::UseExisting);
    assert_eq!(m.load_count, 1);
    assert_eq!(m.unload_count, 0);
    assert_eq!(m.last_activity_ms, 20);
}

#[test]
fn different_path_swaps_with_one_unload_and_one_load() {
    let mut m = ModelManager::new(0);
    m.get_or_load(EngineVariant::Parakeet, "/models/a", 1);
    m.commit_load(EngineVariant::Parakeet, "/models/a".to_string(), 1);
    let d = m.get_or_load(EngineVariant::Parakeet, "/models/b", 2);
    assert_eq!(d, AcquireDecision::MustLoad);
    assert_eq!(m.unload_count, 1);
    m.commit_load(EngineVariant::Parakeet, "/models/b".to_string(), 2);
    assert_eq!(m.load_count, 2);
    assert_eq!(m.unload_count, 1);
}

#[test]
fn different_variant_swaps_too() {
    let mut m = ModelManager::new(0);
    m.get_or_load(EngineVariant::Whisper, "/models/x", 1);
    m.commit_load(EngineVariant::Whisper, "/models/x".to_string(), 1);
    let d = m.get_or_load(EngineVariant::Moonshine, "/models/x", 2);
    assert_eq!(d, AcquireDecision::MustLoad);
    assert_eq!(m.unload_count, 1);
}

#[test]
fn failed_load_leaves_a_clean_slot() {
    // A load failure (no commit) leaves the slot empty; the next request
    // with a loadable model succeeds from the clean state.
    let mut m = ModelManager::new(0);
    let d = m.get_or_load(EngineVariant::Moonshine, "/bad/path", 1);
    assert_eq!(d, AcquireDecision::MustLoad);
    // The driver's load fails here: nothing is committed.
    assert!(m.engine.is_none());
    assert_eq!(m.load_count, 0);
    let d2 = m.get_or_load(EngineVariant::Moonshine, "/good/path", 2);
    assert_eq!(d2, AcquireDecision::MustLoad);
    m.commit_load(EngineVariant::Moonshine, "/good/path".to_string(), 2);
    assert_eq!(m.load_count, 1);
    assert!(m.engine.is_some());
}

#[test]
fn idle_engine_is_evicted_after_the_timeout() {
    let mut m = ModelManager::new(0);
    m.get_or_load(EngineVariant::Parakeet, "/m", 0);
    m.commit_load(EngineVariant::Parakeet, "/m".to_string(), 0);
    // Inside the timeout: nothing happens.
    assert!(!m.unload_if_idle(DEFAULT_IDLE_TIMEOUT_MS));
    assert!(m.engine.is_some());
    // Past the timeout: one eviction.
    assert!(m.unload_if_idle(DEFAULT_IDLE_TIMEOUT_MS + 1));
    assert!(m.engine.is_none());
    assert_eq!(m.unload_count, 1);
    // Idle again with nothing loaded: no further eviction is counted.
    assert!(!m.unload_if_idle(2 * DEFAULT_IDLE_TIMEOUT_MS));
    assert_eq!(m.unload_count, 1);
}

#[test]
fn clock_running_backwards_counts_as_no_idle_time() {
    let mut m = ModelManager::new(1000);
    m.get_or_load(EngineVariant::Parakeet, "/m", 1000);
    m.commit_load(EngineVariant::Parakeet, "/m".to_string(), 1000);
    assert!(!m.unload_if_idle(0));
    assert!(m.engine.is_some());
}

#[test]
fn explicit_unload_clears_the_slot() {
    let mut m = ModelManager::new(0);
    m.get_or_load(EngineVariant::Whisper, "/m", 0);
    m.commit_load(EngineVariant::Whisper, "/m".to_string(), 0);
    m.unload_model();
    assert!(m.engine.is_none());
    assert_eq!(m.unload_count, 1);
    // Unloading an empty slot counts nothing.
    m.unload_model();
    assert_eq!(m.unload_count, 1);
}

#[test]
fn poison_recovery_discards_without_unloading() {
    let mut m = ModelManager::new(0);
    m.get_or_load(EngineVariant::Parakeet, "/m", 0);
    m.commit_load(EngineVariant::Parakeet, "/m".to_string(), 0);
    m.recover_from_poison();
    assert!(m.engine.is_none());
    // The corrupted engine is dropped, not unloaded: counters unchanged.
    assert_eq!(m.load_count, 1);
    assert_eq!(m.unload_count, 0);
    // The next request reloads from the clean state.
    let d = m.get_or_load(EngineVariant::Parakeet, "/m", 1);
    assert_eq!(d, AcquireDecision::MustLoad);
}

#[test]
fn moonshine_names_pick_the_size() {
    assert_eq!(moonshine_variant_from_dir("moonshine-base-en"), MoonshineVariant::Base);
    assert_eq!(moonshine_variant_from_dir("moonshine-tiny-en"), MoonshineVariant::Tiny);
    assert_eq!(moonshine_variant_from_dir("moonshine-base"), MoonshineVariant::Base);
    assert_eq!(moonshine_variant_from_dir("moonshine"), MoonshineVariant::Tiny);
    assert_eq!(moonshine_variant_from_dir(""), MoonshineVariant::Tiny);
    assert_eq!(moonshine_variant_from_dir("moonshine-"), MoonshineVariant::Tiny);
    assert_eq!(moonshine_variant_from_dir("moonshine-huge-en"), MoonshineVariant::Tiny);
    assert_eq!(moonshine_variant_from_dir("x-base-y-z"), MoonshineVariant::Base);
}
