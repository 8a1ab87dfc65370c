use rust_a_rag_us::data::Collection;
use rust_a_rag_us::embedding::EmbeddingProgress;
use rust_a_rag_us::error::AppError;
use rust_a_rag_us::progress_tracker::ProgressTracker;
use rust_a_rag_us::state::{
    choose_collections, choose_text, AppConfigInput, AppState, ProgressMap,
};

#[test]
fn state_takes_the_defaults() {
    let state: AppState<EmbeddingProgress> = AppState::new(AppConfigInput::default());
    assert_eq!(state.app_config.address, "127.0.0.1:3000");
    assert_eq!(state.app_config.base_collection, "rura_collection");
    assert_eq!(state.app_config.filter_collections, vec![Collection::Basic]);
    assert_eq!(state.app_config.ollama_model, "openhermes2.5-mistral:7b-q6_K");
    assert_eq!(state.app_config.ollama_host, "localhost");
    assert_eq!(state.app_config.ollama_port, 11434);
    assert_eq!(state.app_config.qdrant_address, "http://localhost:6334");
    assert_eq!(state.get_all_progress().len(), 0);
}

#[test]
fn state_takes_what_was_chosen() {
    let input = AppConfigInput {
        address: Some("0.0.0.0:80".to_string()),
        base_collection: Some("docs".to_string()),
        filter_collections: Some(vec![Collection::Summary, Collection::Basic]),
        ollama_model: Some("orca2:13b".to_string()),
        ollama_host: Some("ollama".to_string()),
        ollama_port: Some(1),
        qdrant_address: Some("http://qdrant:6334".to_string()),
    };
    let state: AppState<EmbeddingProgress> = AppState::new(input);
    assert_eq!(state.app_config.address, "0.0.0.0:80");
    assert_eq!(state.app_config.base_collection, "docs");
    assert_eq!(state.app_config.filter_collections, vec![Collection::Summary, Collection::Basic]);
    assert_eq!(state.app_config.ollama_model, "orca2:13b");
    assert_eq!(state.app_config.ollama_host, "ollama");
    assert_eq!(state.app_config.ollama_port, 1);
    assert_eq!(state.app_config.qdrant_address, "http://qdrant:6334");
}

#[test]
fn chosen_values_win_over_defaults() {
    assert_eq!(choose_text(None, "default"), "default");
    assert_eq!(choose_text(Some("chosen".to_string()), "default"), "chosen");
    assert_eq!(choose_text(Some(String::new()), "default"), "");
    let default = vec![Collection::Basic];
    assert_eq!(choose_collections(None, &default), default);
    assert_eq!(choose_collections(Some(Vec::new()), &default), Vec::new());
}

#[test]
fn progress_map_keeps_one_record_for_each_job() {
    let mut map: ProgressMap<EmbeddingProgress> = ProgressMap::new();
    map.insert(10, EmbeddingProgress::new(1));
    map.insert(20, EmbeddingProgress::new(2));
    map.insert(10, EmbeddingProgress::new(3));
    assert_eq!(map.len(), 2);
    assert_eq!(map.job_at(0), 10);
    assert_eq!(map.job_at(1), 20);
    assert_eq!(map.progress_at(0).progress_status(), (0, 3));
    assert_eq!(map.position(20), 1);
    assert_eq!(map.position(30), 2);
    assert!(map.get(30).is_none());
    assert_eq!(map.get(20).unwrap().progress_status(), (0, 2));
}

#[test]
fn increment_changes_only_its_job() {
    let mut map: ProgressMap<EmbeddingProgress> = ProgressMap::new();
    map.insert(10, EmbeddingProgress::new(1));
    map.insert(20, EmbeddingProgress::new(2));
    assert_eq!(map.increment(20), Ok(()));
    assert_eq!(map.snapshot(), vec![(10, 0, 1), (20, 1, 2)]);
    assert_eq!(map.increment(10), Ok(()));
    assert_eq!(map.increment(10), Ok(()));
    assert_eq!(map.snapshot(), vec![(10, 1, 1), (20, 1, 2)]);
}

#[test]
fn increment_of_an_unknown_job_fails() {
    let mut map: ProgressMap<EmbeddingProgress> = ProgressMap::new();
    map.insert(10, EmbeddingProgress::new(1));
    assert_eq!(map.increment(11), Err(AppError::MissingProgress { job: 11 }));
    assert_eq!(map.snapshot(), vec![(10, 0, 1)]);
}

#[test]
fn observed_progress_never_falls() {
    let mut map: ProgressMap<EmbeddingProgress> = ProgressMap::new();
    map.insert(1, EmbeddingProgress::new(4));
    let mut last = 0;
    for _ in 0..6 {
        let (_, processed, total) = map.snapshot()[0];
        assert!(processed <= total);
        assert!(processed >= last);
        last = processed;
        map.increment(1).unwrap();
    }
    assert_eq!(map.snapshot(), vec![(1, 4, 4)]);
}
