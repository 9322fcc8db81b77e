use localcode::monitor::{classify_backlog, classify_line, PhaseEvent};

#[test]
fn test_listening_marker_line_is_ready() {
    assert_eq!(
        classify_line("server is listening"),
        Some(PhaseEvent::Ready)
    );
    assert_eq!(
        classify_line("main: server is listening on http://0.0.0.0:8080"),
        Some(PhaseEvent::Ready)
    );
}

#[test]
fn test_meta_stat_line_splits_on_equals() {
    assert_eq!(
        classify_line("llm_load_print_meta: format = GGUF V3 (latest)"),
        Some(PhaseEvent::MetaStat {
            key: "format".to_string(),
            value: "GGUF V3 (latest)".to_string(),
        })
    );
}

#[test]
fn test_meta_line_with_two_equals_is_not_meta() {
    let line = "llm_load_print_meta: a = b = c";
    assert_eq!(
        classify_line(line),
        Some(PhaseEvent::Generic(line.to_string()))
    );
}

#[test]
fn test_progress_vocabulary_lines() {
    assert_eq!(
        classify_line("downloading model weights"),
        Some(PhaseEvent::Downloading)
    );
    assert_eq!(
        classify_line("llm_load_tensors: CPU buffer size = 4096 MiB"),
        Some(PhaseEvent::LoadingBuffers)
    );
    assert_eq!(
        classify_line("offloading 32 repeating layers to GPU"),
        Some(PhaseEvent::ProcessingLayers)
    );
    assert_eq!(
        classify_line("allocating kv cache on device"),
        Some(PhaseEvent::ComputingCache)
    );
}

#[test]
fn test_empty_line_yields_no_event() {
    assert_eq!(classify_line(""), None);
}

#[test]
fn test_generic_line_truncated_to_eighty_chars() {
    let long: String = "x".repeat(200);
    match classify_line(&long) {
        Some(PhaseEvent::Generic(text)) => assert_eq!(text, "x".repeat(80)),
        other => panic!("unexpected classification: {:?}", other),
    }
    assert_eq!(
        classify_line("short note"),
        Some(PhaseEvent::Generic("short note".to_string()))
    );
}

#[test]
fn test_backlog_stops_at_ready() {
    let lines = vec![
        "llm_load_print_meta: n_ctx = 8192".to_string(),
        "".to_string(),
        "server is listening".to_string(),
        "downloading extra".to_string(),
    ];
    let events = classify_backlog(&lines);
    assert_eq!(
        events,
        vec![
            PhaseEvent::MetaStat {
                key: "n_ctx".to_string(),
                value: "8192".to_string(),
            },
            PhaseEvent::Ready,
        ]
    );
}

#[test]
fn test_backlog_without_ready_ends_quietly() {
    let lines = vec![
        "downloading shard 1".to_string(),
        "offloading 10 layers".to_string(),
    ];
    let events = classify_backlog(&lines);
    assert_eq!(
        events,
        vec![PhaseEvent::Downloading, PhaseEvent::ProcessingLayers]
    );
}
